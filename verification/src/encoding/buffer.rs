//! Reuse of encoding buffers.

use vstd::prelude::*;

verus! {

/// How many returned buffers are kept at most.
pub const MAX_POOLED: usize = 16;

/// Buffer usage statistics.
#[derive(Debug)]
pub struct BufferStats {
    pub total_allocations: u64,
    pub buffer_reuses: u64,
    pub max_buffer_size_used: usize,
    pub total_bytes_encoded: u64,
    pub total_bytes_decoded: u64,
}

impl BufferStats {
    /// Nothing counted yet.
    pub open spec fn none() -> BufferStats {
        BufferStats {
            total_allocations: 0,
            buffer_reuses: 0,
            max_buffer_size_used: 0,
            total_bytes_encoded: 0,
            total_bytes_decoded: 0,
        }
    }
}

impl Default for BufferStats {
    fn default() -> (stats: BufferStats)
        ensures
            stats == BufferStats::none(),
    {
        BufferStats {
            total_allocations: 0,
            buffer_reuses: 0,
            max_buffer_size_used: 0,
            total_bytes_encoded: 0,
            total_bytes_decoded: 0,
        }
    }
}

/// Buffer manager for efficient encoding/decoding operations.
#[derive(Debug)]
pub struct BufferManager {
    encode_buffers: Vec<Vec<u8>>,
    max_buffer_size: usize,
    /// Statistics for buffer usage
    pub stats: BufferStats,
}

/// How many elements `buffer` can hold without allocating, by `Vec::capacity`:
/// never fewer than it holds. How many more is up to the allocator.
#[verifier::external_body]
fn capacity_of(buffer: &Vec<u8>) -> (capacity: usize)
    ensures
        capacity >= buffer@.len(),
{
    buffer.capacity()
}

impl BufferManager {
    /// How many buffers are waiting for reuse.
    pub closed spec fn pooled(&self) -> nat {
        self.encode_buffers@.len()
    }

    /// The largest capacity of a buffer that is kept.
    pub closed spec fn size_limit(&self) -> usize {
        self.max_buffer_size
    }

    /// What has been counted so far.
    pub closed spec fn statistics(&self) -> BufferStats {
        self.stats
    }

    /// Whether no more buffers wait than may.
    pub open spec fn wf(&self) -> bool {
        self.pooled() <= MAX_POOLED
    }

    /// Whether there is room to count one more buffer: reused where one waits, and
    /// allocated where none does.
    pub open spec fn can_count_buffer(&self) -> bool {
        if self.pooled() > 0 {
            self.statistics().buffer_reuses < u64::MAX
        } else {
            self.statistics().total_allocations < u64::MAX
        }
    }

    /// Tell whether there is room to count one more buffer.
    pub fn has_room_for_buffer(&self) -> (room: bool)
        ensures
            room == self.can_count_buffer(),
    {
        if self.encode_buffers.len() > 0 {
            self.stats.buffer_reuses < u64::MAX
        } else {
            self.stats.total_allocations < u64::MAX
        }
    }

    /// Create a new buffer manager.
    pub fn new(max_buffer_size: usize) -> (manager: BufferManager)
        ensures
            manager.wf(),
            manager.pooled() == 0,
            manager.size_limit() == max_buffer_size,
            manager.statistics() == BufferStats::none(),
    {
        BufferManager {
            encode_buffers: Vec::with_capacity(8),
            max_buffer_size,
            stats: BufferStats::default(),
        }
    }

    /// Get an empty buffer for encoding, reusing one if possible.
    pub fn get_encode_buffer(&mut self) -> (buffer: Vec<u8>)
        requires
            old(self).wf(),
            old(self).can_count_buffer(),
        ensures
            final(self).wf(),
            buffer@ == Seq::<u8>::empty(),
            final(self).size_limit() == old(self).size_limit(),
            old(self).pooled() > 0 ==> final(self).pooled() == old(self).pooled() - 1
                && final(self).statistics() == (BufferStats {
                buffer_reuses: (old(self).statistics().buffer_reuses + 1) as u64,
                ..old(self).statistics()
            }),
            old(self).pooled() == 0 ==> final(self).pooled() == 0 && final(self).statistics() == (
            BufferStats {
                total_allocations: (old(self).statistics().total_allocations + 1) as u64,
                ..old(self).statistics()
            }),
    {
        match self.encode_buffers.pop() {
            Some(mut buffer) => {
                buffer.clear();
                self.stats.buffer_reuses = self.stats.buffer_reuses + 1;
                buffer
            },
            None => {
                self.stats.total_allocations = self.stats.total_allocations + 1;
                Vec::with_capacity(256)
            },
        }
    }

    /// Return a buffer of known capacity for reuse. It is kept when its capacity
    /// is within the limit and fewer than [`MAX_POOLED`] are waiting.
    pub fn return_buffer_of(&mut self, buffer: Vec<u8>, capacity: usize)
        requires
            old(self).wf(),
            old(self).statistics().total_bytes_encoded + buffer@.len() <= u64::MAX,
        ensures
            final(self).wf(),
            final(self).size_limit() == old(self).size_limit(),
            final(self).statistics() == (BufferStats {
                total_bytes_encoded: (old(self).statistics().total_bytes_encoded + buffer@.len()) as u64,
                ..old(self).statistics()
            }),
            final(self).pooled() == if capacity <= old(self).size_limit() && old(self).pooled()
                < MAX_POOLED {
                old(self).pooled() + 1
            } else {
                old(self).pooled()
            },
    {
        self.stats.total_bytes_encoded = self.stats.total_bytes_encoded + buffer.len() as u64;
        if capacity <= self.max_buffer_size && self.encode_buffers.len() < MAX_POOLED {
            self.encode_buffers.push(buffer);
        }
    }

    /// Return a buffer for reuse. Whether it is kept depends on the capacity that
    /// it was given; one that holds more than the limit never is, and without a limit
    /// every one is while there is room.
    pub fn return_buffer(&mut self, buffer: Vec<u8>)
        requires
            old(self).wf(),
            old(self).statistics().total_bytes_encoded + buffer@.len() <= u64::MAX,
        ensures
            final(self).wf(),
            final(self).size_limit() == old(self).size_limit(),
            final(self).statistics() == (BufferStats {
                total_bytes_encoded: (old(self).statistics().total_bytes_encoded + buffer@.len()) as u64,
                ..old(self).statistics()
            }),
            old(self).pooled() <= final(self).pooled() <= old(self).pooled() + 1,
            buffer@.len() > old(self).size_limit() ==> final(self).pooled() == old(self).pooled(),
            old(self).pooled() == MAX_POOLED ==> final(self).pooled() == old(self).pooled(),
            old(self).size_limit() == usize::MAX && old(self).pooled() < MAX_POOLED ==> final(
                self).pooled() == old(self).pooled() + 1,
    {
        let capacity: usize = capacity_of(&buffer);
        self.return_buffer_of(buffer, capacity);
    }

    /// What has been counted so far.
    pub fn counted_so_far(&self) -> (stats: &BufferStats)
        ensures
            *stats == self.statistics(),
    {
        &self.stats
    }

    /// Update decoding statistics.
    pub fn update_decode_stats(&mut self, bytes_decoded: usize)
        requires
            old(self).statistics().total_bytes_decoded + bytes_decoded <= u64::MAX,
        ensures
            final(self).pooled() == old(self).pooled(),
            final(self).size_limit() == old(self).size_limit(),
            final(self).statistics() == (BufferStats {
                total_bytes_decoded: (old(self).statistics().total_bytes_decoded + bytes_decoded) as u64,
                ..old(self).statistics()
            }),
    {
        self.stats.total_bytes_decoded = self.stats.total_bytes_decoded + bytes_decoded as u64;
    }
}

} // verus!
