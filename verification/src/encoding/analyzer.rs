//! Statistics on encoding and decoding.

use crate::encoding::error::{EncodingError, EncodingErrorView};
use crate::ranking;
use vstd::prelude::*;

verus! {

/// How many benchmarks are kept.
pub const MAX_BENCHMARKS: usize = 1000;

/// Encoding operation statistics.
#[derive(Debug)]
pub struct EncodingStatistics {
    /// Total encoding operations
    pub total_encodings: u64,
    /// Total decoding operations
    pub total_decodings: u64,
    /// Total bytes encoded
    pub bytes_encoded: u64,
    /// Total bytes decoded
    pub bytes_decoded: u64,
    /// Encoding errors
    pub encoding_errors: u64,
    /// Decoding errors
    pub decoding_errors: u64,
    /// Time spent encoding (microseconds)
    pub encode_time_us: u64,
    /// Time spent decoding (microseconds)
    pub decode_time_us: u64,
}

impl EncodingStatistics {
    /// Nothing counted yet.
    pub open spec fn none() -> EncodingStatistics {
        EncodingStatistics {
            total_encodings: 0,
            total_decodings: 0,
            bytes_encoded: 0,
            bytes_decoded: 0,
            encoding_errors: 0,
            decoding_errors: 0,
            encode_time_us: 0,
            decode_time_us: 0,
        }
    }
}

impl Default for EncodingStatistics {
    fn default() -> (stats: EncodingStatistics)
        ensures
            stats == EncodingStatistics::none(),
    {
        EncodingStatistics {
            total_encodings: 0,
            total_decodings: 0,
            bytes_encoded: 0,
            bytes_decoded: 0,
            encoding_errors: 0,
            decoding_errors: 0,
            encode_time_us: 0,
            decode_time_us: 0,
        }
    }
}

/// Performance benchmark data.
#[derive(Debug, Clone, Copy)]
pub struct EncodingBenchmark {
    /// Data type being benchmarked
    pub data_type: &'static str,
    /// Data size in bytes
    pub size: usize,
    /// Encoding time in microseconds
    pub encode_time_us: u64,
}

/// Error pattern tracking.
#[derive(Debug)]
struct ErrorPattern {
    error_type: EncodingError,
    count: u32,
}

/// Encoding performance analyzer.
#[derive(Debug)]
pub struct EncodingAnalyzer {
    /// Encoding operation statistics
    pub stats: EncodingStatistics,
    benchmarks: Vec<EncodingBenchmark>,
    error_patterns: Vec<ErrorPattern>,
}

/// The errors met so far and how often, with the commonest ranking first; errors
/// met equally often keep the order in which they were first met.
pub open spec fn by_frequency(patterns: Seq<(EncodingErrorView, u32)>) -> Seq<
    (EncodingErrorView, u32),
> {
    let items = Seq::new(patterns.len(), |i: int| (-(patterns[i].1 as int), patterns[i]));
    let sorted = ranking::ranked(items);
    Seq::new(sorted.len(), |i: int| sorted[i].1)
}

/// The first `limit` of a sequence, or all of it.
pub open spec fn at_most<T>(items: Seq<T>, limit: usize) -> Seq<T> {
    if items.len() <= limit {
        items
    } else {
        items.take(limit as int)
    }
}

/// `items` with `item` at its end, and without its first where that would make
/// more than [`MAX_BENCHMARKS`].
pub open spec fn recent<T>(items: Seq<T>, item: T) -> Seq<T> {
    if items.len() < MAX_BENCHMARKS {
        items.push(item)
    } else {
        items.push(item).drop_first()
    }
}

/// What one more error makes of the errors met so far.
pub open spec fn counted(
    patterns: Seq<(EncodingErrorView, u32)>,
    error: EncodingErrorView,
    after: Seq<(EncodingErrorView, u32)>,
) -> bool {
    if exists|i: int| 0 <= i < patterns.len() && #[trigger] patterns[i].0.kind() == error.kind() {
        exists|i: int|
            {
                &&& 0 <= i < patterns.len()
                &&& #[trigger] patterns[i].0.kind() == error.kind()
                &&& after == patterns.update(i, (patterns[i].0, (patterns[i].1 + 1) as u32))
            }
    } else {
        after == patterns.push((error, 1))
    }
}

impl Default for EncodingAnalyzer {
    fn default() -> (analyzer: EncodingAnalyzer)
        ensures
            analyzer.wf(),
            analyzer.statistics() == EncodingStatistics::none(),
            analyzer.history() == Seq::<EncodingBenchmark>::empty(),
            analyzer.errors() == Seq::<(EncodingErrorView, u32)>::empty(),
    {
        EncodingAnalyzer::new()
    }
}

/// Time added to time, up to the longest that can be counted.
pub open spec fn time_sum(total: u64, duration: u64) -> u64 {
    if total + duration <= u64::MAX {
        (total + duration) as u64
    } else {
        u64::MAX
    }
}

impl EncodingAnalyzer {
    /// What has been counted so far.
    pub closed spec fn statistics(&self) -> EncodingStatistics {
        self.stats
    }

    /// The benchmarks kept, oldest first.
    pub closed spec fn history(&self) -> Seq<EncodingBenchmark> {
        self.benchmarks@
    }

    /// The errors met, in the order they were first met, and how often each was.
    pub closed spec fn errors(&self) -> Seq<(EncodingErrorView, u32)> {
        Seq::new(
            self.error_patterns@.len(),
            |i: int| (self.error_patterns@[i].error_type@, self.error_patterns@[i].count),
        )
    }

    /// Whether each kind of error is counted in one place, and no more benchmarks
    /// are kept than may be.
    pub open spec fn wf(&self) -> bool {
        &&& self.history().len() <= MAX_BENCHMARKS
        &&& forall|i: int, j: int|
            0 <= i < j < self.errors().len() ==> #[trigger] self.errors()[i].0.kind()
                != #[trigger] self.errors()[j].0.kind()
    }

    /// Whether there is room to count one more encoding, of `bytes` octets.
    pub open spec fn can_count_encoding(&self, bytes: nat) -> bool {
        &&& self.statistics().total_encodings < u64::MAX
        &&& self.statistics().bytes_encoded + bytes <= u64::MAX
    }

    /// Whether there is room to count one more decoding, of `bytes` octets.
    pub open spec fn can_count_decoding(&self, bytes: nat) -> bool {
        &&& self.statistics().total_decodings < u64::MAX
        &&& self.statistics().bytes_decoded + bytes <= u64::MAX
    }

    /// Whether there is room to count one more error of a kind.
    pub open spec fn can_count_error(&self, error: EncodingErrorView) -> bool {
        &&& self.statistics().encoding_errors < u64::MAX
        &&& forall|i: int|
            0 <= i < self.errors().len() && #[trigger] self.errors()[i].0.kind() == error.kind()
                ==> self.errors()[i].1 < u32::MAX
    }

    /// Tell whether there is room to count one more encoding, of `bytes` octets.
    pub fn has_room_to_encode(&self, bytes: usize) -> (room: bool)
        ensures
            room == self.can_count_encoding(bytes as nat),
    {
        self.stats.total_encodings < u64::MAX && bytes as u64 <= u64::MAX - self.stats.bytes_encoded
    }

    /// Tell whether there is room to count one more decoding, of `bytes` octets.
    pub fn has_room_to_decode(&self, bytes: usize) -> (room: bool)
        ensures
            room == self.can_count_decoding(bytes as nat),
    {
        self.stats.total_decodings < u64::MAX && bytes as u64 <= u64::MAX - self.stats.bytes_decoded
    }

    /// Tell whether there is room to count one more error of a kind.
    pub fn has_room_for_error(&self, error: &EncodingError) -> (room: bool)
        ensures
            room == self.can_count_error(error@),
    {
        let kind: u8 = error.kind();
        let mut i: usize = 0;
        while i < self.error_patterns.len()
            invariant
                i <= self.error_patterns.len(),
                kind == error@.kind(),
                forall|j: int|
                    0 <= j < i && #[trigger] self.errors()[j].0.kind() == kind
                        ==> self.errors()[j].1 < u32::MAX,
            decreases self.error_patterns.len() - i,
        {
            assert(self.errors()[i as int] == (
                self.error_patterns@[i as int].error_type@,
                self.error_patterns@[i as int].count,
            ));
            if self.error_patterns[i].error_type.kind() == kind && self.error_patterns[i].count
                == u32::MAX {
                assert(self.errors()[i as int].0.kind() == kind);
                return false;
            }
            i += 1;
        }
        self.stats.encoding_errors < u64::MAX
    }

    /// Create a new encoding analyzer.
    pub fn new() -> (analyzer: EncodingAnalyzer)
        ensures
            analyzer.wf(),
            analyzer.statistics() == EncodingStatistics::none(),
            analyzer.history() == Seq::<EncodingBenchmark>::empty(),
            analyzer.errors() == Seq::<(EncodingErrorView, u32)>::empty(),
    {
        let analyzer = EncodingAnalyzer {
            stats: EncodingStatistics::default(),
            benchmarks: Vec::new(),
            error_patterns: Vec::new(),
        };
        assert(analyzer.errors() =~= Seq::<(EncodingErrorView, u32)>::empty());
        analyzer
    }

    /// Record an encoding operation.
    pub fn record_encoding(&mut self, data_type: &'static str, bytes: usize, duration_us: u64)
        requires
            old(self).wf(),
            old(self).can_count_encoding(bytes as nat),
        ensures
            final(self).wf(),
            final(self).errors() == old(self).errors(),
            final(self).history() == recent(
                old(self).history(),
                (EncodingBenchmark { data_type, size: bytes, encode_time_us: duration_us }),
            ),
            final(self).statistics() == (EncodingStatistics {
                total_encodings: (old(self).statistics().total_encodings + 1) as u64,
                bytes_encoded: (old(self).statistics().bytes_encoded + bytes) as u64,
                encode_time_us: time_sum(old(self).statistics().encode_time_us, duration_us),
                ..old(self).statistics()
            }),
    {
        self.stats.total_encodings = self.stats.total_encodings + 1;
        self.stats.bytes_encoded = self.stats.bytes_encoded + bytes as u64;
        self.stats.encode_time_us = self.stats.encode_time_us.saturating_add(duration_us);
        let ghost before = self.benchmarks@;
        self.benchmarks.push(
            EncodingBenchmark { data_type, size: bytes, encode_time_us: duration_us },
        );
        // Keep only recent benchmarks.
        if self.benchmarks.len() > MAX_BENCHMARKS {
            let _ = self.benchmarks.remove(0);
        }
        assert(self.errors() =~= old(self).errors());
        assert(self.benchmarks@ =~= recent(
            before,
            EncodingBenchmark { data_type, size: bytes, encode_time_us: duration_us },
        ));
    }

    /// Record a decoding operation.
    pub fn record_decoding(&mut self, _data_type: &'static str, bytes: usize, duration_us: u64)
        requires
            old(self).wf(),
            old(self).can_count_decoding(bytes as nat),
        ensures
            final(self).wf(),
            final(self).errors() == old(self).errors(),
            final(self).history() == old(self).history(),
            final(self).statistics() == (EncodingStatistics {
                total_decodings: (old(self).statistics().total_decodings + 1) as u64,
                bytes_decoded: (old(self).statistics().bytes_decoded + bytes) as u64,
                decode_time_us: time_sum(old(self).statistics().decode_time_us, duration_us),
                ..old(self).statistics()
            }),
    {
        self.stats.total_decodings = self.stats.total_decodings + 1;
        self.stats.bytes_decoded = self.stats.bytes_decoded + bytes as u64;
        self.stats.decode_time_us = self.stats.decode_time_us.saturating_add(duration_us);
        assert(self.errors() =~= old(self).errors());
    }

    /// Record an encoding error.
    pub fn record_error(&mut self, error: EncodingError)
        requires
            old(self).wf(),
            old(self).can_count_error(error@),
        ensures
            final(self).wf(),
            final(self).history() == old(self).history(),
            final(self).statistics() == (EncodingStatistics {
                encoding_errors: (old(self).statistics().encoding_errors + 1) as u64,
                ..old(self).statistics()
            }),
            counted(old(self).errors(), error@, final(self).errors()),
    {
        self.stats.encoding_errors = self.stats.encoding_errors + 1;
        let ghost before = self.errors();
        assert(before =~= old(self).errors());
        let kind: u8 = error.kind();
        let mut i: usize = 0;
        while i < self.error_patterns.len()
            invariant
                i <= self.error_patterns@.len(),
                before == self.errors(),
                kind == error@.kind(),
                forall|k: int| 0 <= k < i ==> #[trigger] before[k].0.kind() != kind,
                self.wf(),
                self.history() == old(self).history(),
                self.stats == (EncodingStatistics {
                    encoding_errors: (old(self).statistics().encoding_errors + 1) as u64,
                    ..old(self).statistics()
                }),
                before == old(self).errors(),
                forall|k: int|
                    0 <= k < before.len() && #[trigger] before[k].0.kind() == kind ==> before[k].1
                        < u32::MAX,
            decreases self.error_patterns@.len() - i,
        {
            assert(before[i as int] == (
                self.error_patterns@[i as int].error_type@,
                self.error_patterns@[i as int].count,
            ));
            if self.error_patterns[i].error_type.kind() == kind {
                assert(before[i as int].0.kind() == kind);
                self.error_patterns[i].count = self.error_patterns[i].count + 1;
                assert(self.errors() =~= before.update(
                    i as int,
                    (before[i as int].0, (before[i as int].1 + 1) as u32),
                ));
                assert(before[i as int].0.kind() == error@.kind());
                return;
            }
            i = i + 1;
        }
        self.error_patterns.push(ErrorPattern { error_type: error, count: 1 });
        assert(self.errors() =~= before.push((error@, 1)));
    }

    /// Get most common errors.
    pub fn get_top_errors(&self, limit: usize) -> (top: Vec<(&EncodingError, u32)>)
        ensures
            Seq::new(top@.len(), |i: int| (top@[i].0@, top@[i].1)) == at_most(
                by_frequency(self.errors()),
                limit,
            ),
    {
        let ghost patterns = self.errors();
        let ghost items = Seq::new(
            patterns.len(),
            |i: int| (-(patterns[i].1 as int), patterns[i]),
        );
        let mut sorted: Vec<(&EncodingError, u32)> = Vec::new();
        let mut i: usize = 0;
        proof {
            assert(items.take(0) =~= Seq::empty());
            assert(Seq::new(
                sorted@.len(),
                |k: int| (-(sorted@[k].1 as int), (sorted@[k].0@, sorted@[k].1)),
            ) =~= ranking::ranked(items.take(0)));
        }
        while i < self.error_patterns.len()
            invariant
                i <= self.error_patterns@.len(),
                patterns == self.errors(),
                items == Seq::new(
                    patterns.len(),
                    |i: int| (-(patterns[i].1 as int), patterns[i]),
                ),
                Seq::new(
                    sorted@.len(),
                    |k: int| (-(sorted@[k].1 as int), (sorted@[k].0@, sorted@[k].1)),
                ) == ranking::ranked(items.take(i as int)),
            decreases self.error_patterns@.len() - i,
        {
            let ghost placed = Seq::new(
                sorted@.len(),
                |k: int| (-(sorted@[k].1 as int), (sorted@[k].0@, sorted@[k].1)),
            );
            proof {
                ranking::lemma_ranked_is_ranked(items.take(i as int));
            }
            let count: u32 = self.error_patterns[i].count;
            let mut at: usize = sorted.len();
            while at > 0 && sorted[at - 1].1 < count
                invariant
                    at <= sorted@.len(),
                    placed == Seq::new(
                        sorted@.len(),
                        |k: int| (-(sorted@[k].1 as int), (sorted@[k].0@, sorted@[k].1)),
                    ),
                    forall|k: int| at <= k < sorted@.len() ==> #[trigger] placed[k].0 > -(count as int),
                decreases at,
            {
                at = at - 1;
            }
            let ghost before = sorted@;
            sorted.insert(at, (&self.error_patterns[i].error_type, count));
            proof {
                let item = items[i as int];
                assert forall|k: int| 0 <= k < at implies #[trigger] placed[k].0 <= -(
                count as int) by {
                    assert(placed[k].0 <= placed[at - 1].0);
                    assert(placed[at - 1].0 == -(before[at - 1].1 as int));
                }
                ranking::lemma_inserted_at(placed, item, at as int);
                assert(items.take(i + 1).drop_last() =~= items.take(i as int));
                assert(items.take(i + 1).last() == item);
                assert(Seq::new(
                    sorted@.len(),
                    |k: int| (-(sorted@[k].1 as int), (sorted@[k].0@, sorted@[k].1)),
                ) =~= placed.insert(at as int, item));
            }
            i = i + 1;
        }
        proof {
            assert(items.take(i as int) =~= items);
        }
        let ghost whole = sorted@;
        sorted.truncate(limit);
        proof {
            let ranked = ranking::ranked(items);
            assert(by_frequency(patterns) =~= Seq::new(ranked.len(), |k: int| ranked[k].1));
            assert forall|k: int| 0 <= k < whole.len() implies (
                #[trigger] whole[k].0@,
                whole[k].1,
            ) == ranked[k].1 by {
                assert(Seq::new(
                    whole.len(),
                    |k: int| (-(whole[k].1 as int), (whole[k].0@, whole[k].1)),
                )[k] == ranked[k]);
            }
            assert(Seq::new(sorted@.len(), |k: int| (sorted@[k].0@, sorted@[k].1)) =~= at_most(
                by_frequency(patterns),
                limit,
            ));
        }
        sorted
    }

    /// What has been counted so far.
    pub fn counted_so_far(&self) -> (stats: &EncodingStatistics)
        ensures
            *stats == self.statistics(),
    {
        &self.stats
    }

    /// Add time spent encoding and decoding. The sums stop at the largest that
    /// can be counted.
    pub fn add_time(&mut self, encode_us: u64, decode_us: u64)
        requires
            old(self).wf(),
        ensures
            final(self).wf(),
            final(self).errors() == old(self).errors(),
            final(self).history() == old(self).history(),
            final(self).statistics() == (EncodingStatistics {
                encode_time_us: time_sum(old(self).statistics().encode_time_us, encode_us),
                decode_time_us: time_sum(old(self).statistics().decode_time_us, decode_us),
                ..old(self).statistics()
            }),
    {
        self.stats.encode_time_us = self.stats.encode_time_us.saturating_add(encode_us);
        self.stats.decode_time_us = self.stats.decode_time_us.saturating_add(decode_us);
        assert(self.errors() =~= old(self).errors());
    }

    /// Reset statistics.
    pub fn reset(&mut self)
        ensures
            final(self).wf(),
            final(self).statistics() == EncodingStatistics::none(),
            final(self).history() == Seq::<EncodingBenchmark>::empty(),
            final(self).errors() == Seq::<(EncodingErrorView, u32)>::empty(),
    {
        self.stats = EncodingStatistics::default();
        self.benchmarks.clear();
        self.error_patterns.clear();
        assert(self.errors() =~= Seq::<(EncodingErrorView, u32)>::empty());
    }
}

} // verus!
