//! Encoding and decoding with statistics, a cache and buffer reuse.

use crate::encoding::analyzer::{EncodingAnalyzer, EncodingBenchmark, EncodingStatistics};
use crate::encoding::analyzer;
use crate::encoding::buffer::{BufferManager, BufferStats};
use crate::encoding::cache::EncodingCache;
use crate::encoding::error::{EncodingError, EncodingErrorView};
use crate::encoding::stream::EncodableValue;
use crate::encoding::tag::ApplicationTag;
use vstd::prelude::*;

verus! {

/// Validation levels.
#[derive(Debug, Clone, Copy, PartialEq, Eq, Structural)]
pub enum ValidationLevel {
    /// No validation
    Off,
    /// Basic validation
    Basic,
    /// Strict validation
    Strict,
    /// Paranoid validation (slowest)
    Paranoid,
}

/// Encoding configuration manager.
#[derive(Debug, Clone, Copy)]
pub struct EncodingConfig {
    /// Use compression for large data
    pub use_compression: bool,
    /// Compression threshold (bytes)
    pub compression_threshold: usize,
    /// Enable caching
    pub enable_caching: bool,
    /// Cache size
    pub cache_size: usize,
    /// Enable performance tracking
    pub enable_performance_tracking: bool,
    /// Validation level
    pub validation_level: ValidationLevel,
    /// Maximum string length
    pub max_string_length: usize,
    /// Maximum array size
    pub max_array_size: usize,
}

impl Default for EncodingConfig {
    fn default() -> (config: EncodingConfig)
        ensures
            !config.use_compression,
            config.compression_threshold == 1024,
            config.enable_caching,
            config.cache_size == 1000,
            config.enable_performance_tracking,
            config.validation_level == ValidationLevel::Basic,
            config.max_string_length == 4096,
            config.max_array_size == 1000,
    {
        EncodingConfig {
            use_compression: false,
            compression_threshold: 1024,
            enable_caching: true,
            cache_size: 1000,
            enable_performance_tracking: true,
            validation_level: ValidationLevel::Basic,
            max_string_length: 4096,
            max_array_size: 1000,
        }
    }
}

/// The largest buffer that is kept for reuse.
pub const MAX_KEPT_BUFFER: usize = 8192;

/// Whether one buffer was taken from `before`, filled with `bytes` octets and given
/// back. A waiting buffer is reused where there is one; whether it waits again depends
/// on the capacity that it was given.
pub open spec fn served(before: BufferManager, after: BufferManager, bytes: nat) -> bool {
    let reuses = before.pooled() > 0;
    let left = if reuses {
        before.pooled() - 1
    } else {
        0
    };
    &&& after.size_limit() == before.size_limit()
    &&& left <= after.pooled() <= left + 1
    &&& after.statistics() == (BufferStats {
        buffer_reuses: if reuses {
            (before.statistics().buffer_reuses + 1) as u64
        } else {
            before.statistics().buffer_reuses
        },
        total_allocations: if reuses {
            before.statistics().total_allocations
        } else {
            (before.statistics().total_allocations + 1) as u64
        },
        total_bytes_encoded: (before.statistics().total_bytes_encoded + bytes) as u64,
        ..before.statistics()
    })
}

/// High-level encoding manager.
#[derive(Debug)]
pub struct EncodingManager {
    config: EncodingConfig,
    analyzer: Option<EncodingAnalyzer>,
    cache: Option<EncodingCache>,
    buffer_manager: BufferManager,
}

impl EncodingManager {
    /// The configuration the manager was made with.
    pub closed spec fn configuration(&self) -> EncodingConfig {
        self.config
    }

    /// The performance analyzer, where performance is tracked.
    pub closed spec fn tracking(&self) -> Option<EncodingAnalyzer> {
        self.analyzer
    }

    /// The encoding cache, where encodings are cached.
    pub closed spec fn caching(&self) -> Option<EncodingCache> {
        self.cache
    }

    /// The buffers kept for reuse.
    pub closed spec fn buffers(&self) -> BufferManager {
        self.buffer_manager
    }

    /// Whether the parts agree with the configuration and are well formed.
    pub open spec fn wf(&self) -> bool {
        &&& self.tracking() is Some == self.configuration().enable_performance_tracking
        &&& self.tracking() is Some ==> self.tracking()->Some_0.wf()
        &&& self.caching() is Some == self.configuration().enable_caching
        &&& self.caching() is Some ==> self.caching()->Some_0.wf()
        &&& self.buffers().wf()
    }

    /// Whether there is room to count one more encoding, of `bytes` octets.
    pub open spec fn can_count_encoding(&self, bytes: nat) -> bool {
        &&& self.buffers().statistics().total_bytes_encoded + bytes <= u64::MAX
        &&& self.tracking() matches Some(analyzer) ==> analyzer.can_count_encoding(bytes)
    }

    /// Whether there is room to count one more decoding, of `bytes` octets.
    pub open spec fn can_count_decoding(&self, bytes: nat) -> bool {
        self.tracking() matches Some(analyzer) ==> analyzer.can_count_decoding(bytes)
    }

    /// Whether there is room to count one more error of a kind.
    pub open spec fn can_count_error(&self, error: EncodingErrorView) -> bool {
        self.tracking() matches Some(analyzer) ==> analyzer.can_count_error(error)
    }

    /// Tell whether there is room to count one more encoding, of `bytes` octets, and a
    /// buffer for it.
    pub fn has_room_to_encode(&self, bytes: usize) -> (room: bool)
        ensures
            room == (self.buffers().can_count_buffer() && self.can_count_encoding(bytes as nat)),
    {
        let analyzed = match &self.analyzer {
            Some(analyzer) => analyzer.has_room_to_encode(bytes),
            None => true,
        };
        self.buffer_manager.has_room_for_buffer() && bytes as u64 <= u64::MAX
            - self.buffer_manager.counted_so_far().total_bytes_encoded && analyzed
    }

    /// Tell whether there is room to count one more decoding, of `bytes` octets.
    pub fn has_room_to_decode(&self, bytes: usize) -> (room: bool)
        ensures
            room == self.can_count_decoding(bytes as nat),
    {
        match &self.analyzer {
            Some(analyzer) => analyzer.has_room_to_decode(bytes),
            None => true,
        }
    }

    /// Tell whether there is room to count one more error of a kind.
    pub fn has_room_for_error(&self, error: &EncodingError) -> (room: bool)
        ensures
            room == self.can_count_error(error@),
    {
        match &self.analyzer {
            Some(analyzer) => analyzer.has_room_for_error(error),
            None => true,
        }
    }

    /// Create a new encoding manager.
    pub fn new(config: EncodingConfig) -> (manager: EncodingManager)
        ensures
            manager.wf(),
            manager.configuration() == config,
            manager.tracking() matches Some(analyzer) ==> {
                &&& analyzer.statistics() == EncodingStatistics::none()
                &&& analyzer.history() == Seq::<EncodingBenchmark>::empty()
                &&& analyzer.errors() == Seq::<(EncodingErrorView, u32)>::empty()
            },
            manager.caching() matches Some(cache) ==> {
                &&& cache.entries().len() == 0
                &&& cache.limit() == config.cache_size
                &&& cache.hit_count() == 0
                &&& cache.miss_count() == 0
            },
            manager.buffers().pooled() == 0,
            manager.buffers().size_limit() == MAX_KEPT_BUFFER,
            manager.buffers().statistics() == BufferStats::none(),
    {
        let analyzer = if config.enable_performance_tracking {
            Some(EncodingAnalyzer::new())
        } else {
            None
        };
        let cache = if config.enable_caching {
            Some(EncodingCache::new(config.cache_size))
        } else {
            None
        };
        EncodingManager {
            config,
            analyzer,
            cache,
            buffer_manager: BufferManager::new(MAX_KEPT_BUFFER),
        }
    }

    /// Encode a value with full management features. The time it takes is counted
    /// as nothing here; a caller with a clock adds it with
    /// [`EncodingManager::add_encode_time`].
    pub fn encode<T: EncodableValue>(&mut self, value: T, tag: ApplicationTag) -> (result: Result<
        Vec<u8>,
        EncodingError,
    >)
        requires
            old(self).wf(),
            old(self).buffers().can_count_buffer(),
            value.fits() ==> old(self).can_count_encoding(value.application_octets().len()),
            !value.fits() ==> old(self).can_count_error(EncodingErrorView::BufferOverflow),
        ensures
            final(self).wf(),
            final(self).configuration() == old(self).configuration(),
            final(self).caching() == old(self).caching(),
            served(
                old(self).buffers(),
                final(self).buffers(),
                match result {
                    Ok(buffer) => buffer@.len(),
                    Err(_) => 0,
                },
            ),
            match result {
                Ok(buffer) => {
                    &&& value.fits()
                    &&& buffer@ == value.application_octets()
                    &&& final(self).tracking() matches Some(after) ==> {
                        let before = old(self).tracking()->Some_0;
                        &&& after.statistics() == (EncodingStatistics {
                            total_encodings: (before.statistics().total_encodings + 1) as u64,
                            bytes_encoded: (before.statistics().bytes_encoded
                                + buffer@.len()) as u64,
                            ..before.statistics()
                        })
                        &&& after.history() == analyzer::recent(
                            before.history(),
                            EncodingBenchmark {
                                data_type: "generic",
                                size: buffer@.len() as usize,
                                encode_time_us: 0,
                            },
                        )
                        &&& after.errors() == before.errors()
                    }
                },
                Err(error) => {
                    &&& !value.fits()
                    &&& error@ == EncodingErrorView::BufferOverflow
                    &&& final(self).tracking() matches Some(after) ==> {
                        let before = old(self).tracking()->Some_0;
                        &&& after.statistics() == (EncodingStatistics {
                            encoding_errors: (before.statistics().encoding_errors + 1) as u64,
                            ..before.statistics()
                        })
                        &&& analyzer::counted(before.errors(), error@, after.errors())
                        &&& after.history() == before.history()
                    }
                },
            },
    {
        let mut buffer = self.buffer_manager.get_encode_buffer();
        match value.encode_to(tag, &mut buffer) {
            Ok(_) => {
                assert(buffer@ =~= value.application_octets());
                match self.analyzer.take() {
                    Some(mut analyzer) => {
                        analyzer.record_encoding("generic", buffer.len(), 0);
                        self.analyzer = Some(analyzer);
                    },
                    None => {},
                }
                let encoded = buffer.clone();
                assert(encoded@ =~= buffer@);
                self.buffer_manager.return_buffer(buffer);
                Ok(encoded)
            },
            Err(error) => {
                match self.analyzer.take() {
                    Some(mut analyzer) => {
                        analyzer.record_error(error.duplicate());
                        self.analyzer = Some(analyzer);
                    },
                    None => {},
                }
                self.buffer_manager.return_buffer(buffer);
                Err(error)
            },
        }
    }

    /// Decode a value with full management features. The time it takes is counted
    /// as nothing here; a caller with a clock adds it with
    /// [`EncodingManager::add_decode_time`].
    pub fn decode<T, F: Fn(&[u8]) -> Result<(T, usize), EncodingError>>(
        &mut self,
        data: &[u8],
        decoder: F,
    ) -> (result: Result<T, EncodingError>)
        requires
            old(self).wf(),
            call_requires(decoder, (data,)),
            forall|outcome: Result<(T, usize), EncodingError>| #[trigger]
                call_ensures(decoder, (data,), outcome) ==> match outcome {
                    Ok((_, consumed)) => old(self).can_count_decoding(consumed as nat),
                    Err(error) => old(self).can_count_error(error@),
                },
        ensures
            final(self).wf(),
            final(self).configuration() == old(self).configuration(),
            final(self).caching() == old(self).caching(),
            final(self).buffers() == old(self).buffers(),
            exists|outcome: Result<(T, usize), EncodingError>|
                {
                    &&& #[trigger] call_ensures(decoder, (data,), outcome)
                    &&& match (outcome, result) {
                        (Ok((expected, consumed)), Ok(value)) => {
                            &&& value == expected
                            &&& final(self).tracking() matches Some(after) ==> {
                                let before = old(self).tracking()->Some_0;
                                &&& after.statistics() == (EncodingStatistics {
                                    total_decodings: (before.statistics().total_decodings
                                        + 1) as u64,
                                    bytes_decoded: (before.statistics().bytes_decoded
                                        + consumed) as u64,
                                    ..before.statistics()
                                })
                                &&& after.errors() == before.errors()
                                &&& after.history() == before.history()
                            }
                        },
                        (Err(expected), Err(error)) => {
                            &&& error@ == expected@
                            &&& final(self).tracking() matches Some(after) ==> {
                                let before = old(self).tracking()->Some_0;
                                &&& after.statistics() == (EncodingStatistics {
                                    encoding_errors: (before.statistics().encoding_errors
                                        + 1) as u64,
                                    ..before.statistics()
                                })
                                &&& analyzer::counted(before.errors(), error@, after.errors())
                                &&& after.history() == before.history()
                            }
                        },
                        _ => false,
                    }
                },
    {
        match decoder(data) {
            Ok((value, consumed)) => {
                match self.analyzer.take() {
                    Some(mut analyzer) => {
                        analyzer.record_decoding("generic", consumed, 0);
                        self.analyzer = Some(analyzer);
                    },
                    None => {},
                }
                Ok(value)
            },
            Err(error) => {
                match self.analyzer.take() {
                    Some(mut analyzer) => {
                        analyzer.record_error(error.duplicate());
                        self.analyzer = Some(analyzer);
                    },
                    None => {},
                }
                Err(error)
            },
        }
    }

    /// Get performance statistics.
    pub fn get_stats(&self) -> (stats: Option<&EncodingStatistics>)
        ensures
            match (stats, self.tracking()) {
                (Some(stats), Some(analyzer)) => *stats == analyzer.statistics(),
                (None, None) => true,
                _ => false,
            },
    {
        match &self.analyzer {
            Some(analyzer) => Some(analyzer.counted_so_far()),
            None => None,
        }
    }

    /// Get cache statistics: hits and misses.
    pub fn get_cache_stats(&self) -> (stats: Option<(u64, u64)>)
        ensures
            stats == match self.caching() {
                Some(cache) => Some((cache.hit_count(), cache.miss_count())),
                None => None,
            },
    {
        match &self.cache {
            Some(cache) => Some(cache.usage()),
            None => None,
        }
    }

    /// Reset all statistics.
    pub fn reset_stats(&mut self)
        requires
            old(self).wf(),
        ensures
            final(self).wf(),
            final(self).configuration() == old(self).configuration(),
            final(self).buffers() == old(self).buffers(),
            final(self).tracking() matches Some(analyzer) ==> {
                &&& analyzer.statistics() == EncodingStatistics::none()
                &&& analyzer.history() == Seq::<EncodingBenchmark>::empty()
                &&& analyzer.errors() == Seq::<(EncodingErrorView, u32)>::empty()
            },
            final(self).caching() matches Some(cache) ==> {
                &&& cache.entries().len() == 0
                &&& cache.limit() == old(self).caching()->Some_0.limit()
                &&& cache.hit_count() == 0
                &&& cache.miss_count() == 0
            },
    {
        match self.analyzer.take() {
            Some(mut analyzer) => {
                analyzer.reset();
                self.analyzer = Some(analyzer);
            },
            None => {},
        }
        match self.cache.take() {
            Some(mut cache) => {
                cache.clear();
                self.cache = Some(cache);
            },
            None => {},
        }
    }

    /// Add the time that encoding took, where performance is tracked.
    pub fn add_encode_time(&mut self, duration_us: u64)
        requires
            old(self).wf(),
        ensures
            final(self).wf(),
            final(self).configuration() == old(self).configuration(),
            final(self).buffers() == old(self).buffers(),
            final(self).caching() == old(self).caching(),
            final(self).tracking() matches Some(after) ==> {
                let before = old(self).tracking()->Some_0;
                &&& after.statistics() == (EncodingStatistics {
                    encode_time_us: analyzer::time_sum(
                        before.statistics().encode_time_us,
                        duration_us,
                    ),
                    ..before.statistics()
                })
                &&& after.errors() == before.errors()
                &&& after.history() == before.history()
            },
    {
        match self.analyzer.take() {
            Some(mut analyzer) => {
                analyzer.add_time(duration_us, 0);
                self.analyzer = Some(analyzer);
            },
            None => {},
        }
    }

    /// Add the time that decoding took, where performance is tracked.
    pub fn add_decode_time(&mut self, duration_us: u64)
        requires
            old(self).wf(),
        ensures
            final(self).wf(),
            final(self).configuration() == old(self).configuration(),
            final(self).buffers() == old(self).buffers(),
            final(self).caching() == old(self).caching(),
            final(self).tracking() matches Some(after) ==> {
                let before = old(self).tracking()->Some_0;
                &&& after.statistics() == (EncodingStatistics {
                    decode_time_us: analyzer::time_sum(
                        before.statistics().decode_time_us,
                        duration_us,
                    ),
                    ..before.statistics()
                })
                &&& after.errors() == before.errors()
                &&& after.history() == before.history()
            },
    {
        match self.analyzer.take() {
            Some(mut analyzer) => {
                analyzer.add_time(0, duration_us);
                self.analyzer = Some(analyzer);
            },
            None => {},
        }
    }
}

impl Default for EncodingManager {
    fn default() -> (manager: EncodingManager)
        ensures
            manager.wf(),
            manager.configuration().enable_caching,
            manager.configuration().enable_performance_tracking,
            manager.configuration().cache_size == 1000,
    {
        EncodingManager::new(EncodingConfig::default())
    }
}

} // verus!
