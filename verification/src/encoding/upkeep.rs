//! What the helpers around the encoding can be relied on for: what a cache keeps and drops,
//! what is counted, and what encoders put round their values.

use crate::encoding::analyzer;
use crate::encoding::analyzer::EncodingStatistics;
use crate::encoding::buffer::BufferStats;
use crate::encoding::cache;
use crate::encoding::cache::CachedEncoding;
use crate::encoding::error;
use crate::encoding::error::{EncodingError, EncodingErrorView};
use crate::encoding::laws;
use crate::encoding::primitive;
use crate::encoding::stream;
use crate::encoding::stream::EncodableValue;
use crate::encoding::tag;
use crate::number::{Double, Real};
use crate::octets;
use crate::ranking;
use vstd::prelude::*;

verus! {

// ---------------------------------------------------------------------------
// The cache
// ---------------------------------------------------------------------------

/// An encoding that is there stays as it is. One that is not is added last, as asked for
/// once. Where there is room nothing is dropped.
pub proof fn law_encodings_are_kept(
    entries: Seq<CachedEncoding>,
    limit: usize,
    hash: u64,
    encoded: Seq<u8>,
    i: int,
)
    ensures
        0 <= i < entries.len() && entries[i].hash == hash ==> cache::stored(
            entries,
            limit,
            hash,
            encoded,
        ) == entries,
        (forall|k: int| 0 <= k < entries.len() ==> (#[trigger] entries[k]).hash != hash) ==> {
            let after = cache::stored(entries, limit, hash, encoded);
            &&& after.len() > 0
            &&& after.last() == (CachedEncoding { hash, encoded, access_count: 1 })
            &&& entries.len() < limit ==> after.drop_last() == entries
        },
{
    if entries.len() < limit {
        let added = CachedEncoding { hash, encoded, access_count: 1 };
        assert(entries.push(added).drop_last() =~= entries);
    }
}

/// Where the cache is full, a new encoding takes the place of one that was asked for least
/// often; every other one stays.
pub proof fn law_the_least_used_is_dropped(
    entries: Seq<CachedEncoding>,
    limit: usize,
    hash: u64,
    encoded: Seq<u8>,
)
    requires
        entries.len() > 0,
        entries.len() >= limit,
        cache::distinct(entries),
        forall|k: int| 0 <= k < entries.len() ==> (#[trigger] entries[k]).hash != hash,
    ensures
        cache::stored(entries, limit, hash, encoded).len() == entries.len(),
        exists|dropped: int|
            {
                &&& 0 <= dropped < entries.len()
                &&& forall|k: int|
                    0 <= k < entries.len() ==> (#[trigger] entries[dropped]).access_count <= (
                    #[trigger] entries[k]).access_count
                &&& forall|k: int|
                    0 <= k < entries.len() && k != dropped ==> cache::stored(
                        entries,
                        limit,
                        hash,
                        encoded,
                    ).contains(#[trigger] entries[k])
            },
{
    broadcast use vstd::seq_lib::group_to_multiset_ensures;

    let items = cache::keyed(entries);
    let sorted = ranking::ranked(items);
    ranking::law_ranking_reorders(items);
    ranking::lemma_ranked_is_ranked(items);
    let ordered = cache::by_access(entries);
    let after = cache::stored(entries, limit, hash, encoded);
    assert(sorted.contains(sorted[0]));
    assert(items.to_multiset().count(sorted[0]) > 0);
    assert(items.contains(sorted[0]));
    let dropped = items.index_of(sorted[0]);
    assert(items[dropped] == (entries[dropped].access_count as int, entries[dropped]));
    assert forall|k: int| 0 <= k < entries.len() implies (
    #[trigger] entries[dropped]).access_count <= (#[trigger] entries[k]).access_count && (k
        != dropped ==> after.contains(entries[k])) by {
        assert(items[k] == (entries[k].access_count as int, entries[k]));
        assert(items.contains(items[k]));
        assert(sorted.to_multiset().count(items[k]) > 0);
        assert(sorted.contains(items[k]));
        let at = sorted.index_of(items[k]);
        assert(sorted[0].0 <= sorted[at].0);
        if k != dropped {
            if k < dropped {
                assert(entries[k].hash != entries[dropped].hash);
            } else {
                assert(entries[dropped].hash != entries[k].hash);
            }
            assert(at != 0);
            assert(ordered[at] == entries[k]);
            assert(after[at - 1] == ordered.drop_first()[at - 1]);
        }
    }
    assert(entries[dropped].access_count <= entries[dropped].access_count);
}

// ---------------------------------------------------------------------------
// Counting
// ---------------------------------------------------------------------------

/// An error of a kind that was met is counted once more where that kind is counted; one of
/// a new kind is counted once, after the others. No other count changes.
pub proof fn law_errors_are_counted_by_kind(
    patterns: Seq<(EncodingErrorView, u32)>,
    error: EncodingErrorView,
    after: Seq<(EncodingErrorView, u32)>,
    i: int,
)
    requires
        forall|a: int, b: int|
            0 <= a < b < patterns.len() ==> (#[trigger] patterns[a]).0.kind() != (
            #[trigger] patterns[b]).0.kind(),
        analyzer::counted(patterns, error, after),
        0 <= i < patterns.len(),
        patterns[i].1 < u32::MAX,
    ensures
        patterns[i].0.kind() == error.kind() ==> after.len() == patterns.len() && after[i].0
            == patterns[i].0 && after[i].1 == patterns[i].1 + 1,
        patterns[i].0.kind() != error.kind() ==> after.len() >= patterns.len() && after[i]
            == patterns[i],
        (forall|k: int| 0 <= k < patterns.len() ==> (#[trigger] patterns[k]).0.kind()
            != error.kind()) ==> after.len() == patterns.len() + 1 && after.last().0 == error
            && after.last().1 == 1,
{
    if exists|k: int| 0 <= k < patterns.len() && (#[trigger] patterns[k]).0.kind() == error.kind() {
        let k = choose|k: int|
            {
                &&& 0 <= k < patterns.len()
                &&& (#[trigger] patterns[k]).0.kind() == error.kind()
                &&& after == patterns.update(k, (patterns[k].0, (patterns[k].1 + 1) as u32))
            };
        if i < k {
            assert(patterns[i].0.kind() != patterns[k].0.kind());
        }
        if k < i {
            assert(patterns[k].0.kind() != patterns[i].0.kind());
        }
    }
}

/// The kind of an error tells it from every other, whatever message it carries.
pub proof fn law_kinds_tell_errors_apart(a: EncodingErrorView, b: EncodingErrorView)
    ensures
        a is InvalidFormat && b is InvalidFormat ==> a.kind() == b.kind(),
        a.kind() == b.kind() && !(a is InvalidFormat) ==> a == b,
        a is InvalidFormat && !(b is InvalidFormat) ==> a.kind() != b.kind(),
{
}

/// The commonest errors come first; every error that was met is among them, and only as
/// many are told as were asked for.
pub proof fn law_the_commonest_errors_come_first(
    patterns: Seq<(EncodingErrorView, u32)>,
    limit: usize,
    i: int,
    j: int,
    item: (EncodingErrorView, u32),
)
    ensures
        ({
            let ordered = analyzer::by_frequency(patterns);
            let told = analyzer::at_most(ordered, limit);
            &&& ordered.len() == patterns.len()
            &&& 0 <= i < j < ordered.len() ==> ordered[i].1 >= ordered[j].1
            &&& ordered.contains(item) <==> patterns.contains(item)
            &&& patterns.len() <= limit ==> told == ordered
            &&& patterns.len() > limit ==> told.len() == limit
            &&& 0 <= i < told.len() ==> told[i] == ordered[i]
        }),
{
    broadcast use vstd::seq_lib::group_to_multiset_ensures;

    let items = Seq::new(patterns.len(), |k: int| (-(patterns[k].1 as int), patterns[k]));
    let sorted = ranking::ranked(items);
    ranking::law_ranking_reorders(items);
    ranking::lemma_ranked_is_ranked(items);
    let ordered = analyzer::by_frequency(patterns);
    assert forall|k: int| 0 <= k < sorted.len() implies (#[trigger] sorted[k]).0 == -(
    sorted[k].1.1 as int) && patterns.contains(sorted[k].1) by {
        assert(sorted.contains(sorted[k]));
        assert(items.to_multiset().count(sorted[k]) > 0);
        assert(items.contains(sorted[k]));
        let from = items.index_of(sorted[k]);
        assert(patterns[from] == sorted[k].1);
    }
    if 0 <= i < j < ordered.len() {
        assert(sorted[i].0 <= sorted[j].0);
    }
    if ordered.contains(item) {
        let at = ordered.index_of(item);
        assert(sorted[at].1 == item);
    }
    if patterns.contains(item) {
        let from = patterns.index_of(item);
        assert(items[from] == (-(item.1 as int), item));
        assert(items.contains(items[from]));
        assert(sorted.to_multiset().count(items[from]) > 0);
        assert(sorted.contains(items[from]));
        assert(ordered[sorted.index_of(items[from])] == item);
    }
}

/// The thousand latest measurements are kept, the newest last.
pub proof fn law_the_latest_measurements_are_kept<T>(items: Seq<T>, item: T)
    requires
        items.len() <= 1000,
    ensures
        ({
            let after = analyzer::recent(items, item);
            &&& after.last() == item
            &&& after.len() <= 1000
            &&& items.len() < 1000 ==> after.drop_last() == items
            &&& items.len() == 1000 ==> after.drop_last() == items.drop_first()
        }),
{
    if items.len() < 1000 {
        assert(items.push(item).drop_last() =~= items);
    } else {
        assert(items.push(item).drop_first().drop_last() =~= items.drop_first());
    }
}

/// Times add up, and stop at the largest that can be counted.
pub proof fn law_times_add_up(total: u64, duration: u64)
    ensures
        total + duration <= u64::MAX ==> analyzer::time_sum(total, duration) == total + duration,
        total + duration > u64::MAX ==> analyzer::time_sum(total, duration) == u64::MAX,
{
}

// ---------------------------------------------------------------------------
// Encoders
// ---------------------------------------------------------------------------

/// A value that encodes itself does so in the form of its own type.
pub proof fn law_values_encode_themselves(
    flag: bool,
    number: u32,
    signed: i32,
    single: Real,
    double: Double,
)
    ensures
        flag.application_octets() == seq![if flag { 0x11u8 } else { 0x10u8 }],
        laws::are_unsigned(number.application_octets(), 0x20, number),
        signed.application_octets() == primitive::signed_octets(signed),
        laws::are(single.application_octets(), 0x44, laws::four_octets(single.bits as int)),
        double.application_octets() == seq![0x55u8, 8u8] + laws::next_four_octets(
            double.bits as int,
        ) + laws::four_octets(double.bits as int),
{
    laws::law_booleans_on_the_wire(Seq::<u8>::empty());
    laws::law_unsigned_numbers_on_the_wire(number);
    laws::law_floating_numbers_on_the_wire(single, double);
}

/// A property of an array is introduced by its number, in four octets under tag zero, and
/// the opening marker of tag one.
pub proof fn law_properties_are_introduced(property_id: u32)
    ensures
        stream::property_prefix(property_id) == seq![0x0Cu8] + laws::four_octets(
            property_id as int,
        ) + seq![0x1Eu8],
{
    laws::law_the_highest_octet_comes_first(property_id as nat);
    laws::law_markers(1);
    assert(tag::context_header(0, 4) =~= seq![0x0Cu8]);
    assert(octets::be_bytes(property_id as nat, 4).len() == 4);
    assert(stream::property_prefix(property_id) =~= seq![0x0Cu8] + laws::four_octets(
        property_id as int,
    ) + seq![0x1Eu8]);
}

/// An error class or code is announced by its tag with a length of one, two or four, and
/// follows as an enumerated value.
pub proof fn law_error_parts_are_announced(tag_number: u8, value: u32)
    requires
        tag_number <= 14,
    ensures
        value <= 0xFF ==> stream::error_part(tag_number, value) == seq![
            (16 * tag_number + 9) as u8,
        ] + primitive::enumerated_octets(value),
        0xFF < value <= 0xFFFF ==> stream::error_part(tag_number, value) == seq![
            (16 * tag_number + 10) as u8,
        ] + primitive::enumerated_octets(value),
        value > 0xFFFF ==> stream::error_part(tag_number, value) == seq![
            (16 * tag_number + 12) as u8,
        ] + primitive::enumerated_octets(value),
{
    assert(tag::context_header(tag_number, 1) =~= seq![(16 * tag_number + 9) as u8]);
    assert(tag::context_header(tag_number, 2) =~= seq![(16 * tag_number + 10) as u8]);
    assert(tag::context_header(tag_number, 4) =~= seq![(16 * tag_number + 12) as u8]);
}

// ---------------------------------------------------------------------------
// What comes back
// ---------------------------------------------------------------------------

/// What is read comes back as it is stated: the value with the octets it took, or the error.
pub proof fn law_what_is_read_comes_back<T>(
    actual: Result<(T, usize), EncodingError>,
    stated: Result<(T, int), EncodingErrorView>,
)
    requires
        error::same_outcome(actual, stated),
    ensures
        actual is Ok <==> stated is Ok,
        actual is Ok ==> actual->Ok_0.0 == stated->Ok_0.0 && actual->Ok_0.1 == stated->Ok_0.1,
        actual is Err ==> actual->Err_0@ == stated->Err_0,
{
}

/// A stream that reads a value moves behind it, and one that cannot stays where it was.
pub proof fn law_streams_move_behind_what_they_read<T>(
    result: Result<T, EncodingError>,
    before: nat,
    after: nat,
    stated: Result<(T, int), EncodingErrorView>,
)
    requires
        stream::advanced_by(result, before, after, stated),
    ensures
        result is Ok <==> stated is Ok,
        result is Ok ==> result->Ok_0 == stated->Ok_0.0 && after == before + stated->Ok_0.1,
        result is Err ==> result->Err_0@ == stated->Err_0 && after == before,
{
}

/// A stream that reads a text or a string moves behind it, and one that cannot stays where
/// it was.
pub proof fn law_streams_move_behind_what_they_hold<T: View>(
    result: Result<T, EncodingError>,
    before: nat,
    after: nat,
    stated: Result<(T::V, int), EncodingErrorView>,
)
    requires
        stream::advanced_by_viewed(result, before, after, stated),
    ensures
        result is Ok <==> stated is Ok,
        result is Ok ==> result->Ok_0@ == stated->Ok_0.0 && after == before + stated->Ok_0.1,
        result is Err ==> result->Err_0@ == stated->Err_0 && after == before,
{
}

/// What is written comes behind what was there; what does not fit leaves that as it was.
pub proof fn law_what_is_written_comes_behind(
    result: Result<(), EncodingError>,
    before: Seq<u8>,
    after: Seq<u8>,
    fits: bool,
    octets: Seq<u8>,
)
    requires
        stream::appended(result, before, after, fits, octets),
    ensures
        result is Ok <==> fits,
        result is Ok ==> after == before + octets,
        result is Err ==> after == before,
{
}

/// Nothing is counted before anything is done.
pub proof fn law_counting_starts_at_nothing()
    ensures
        ({
            let counted = EncodingStatistics::none();
            &&& counted.total_encodings == 0 && counted.total_decodings == 0
            &&& counted.bytes_encoded == 0 && counted.bytes_decoded == 0
            &&& counted.encoding_errors == 0 && counted.decoding_errors == 0
            &&& counted.encode_time_us == 0 && counted.decode_time_us == 0
        }),
        ({
            let counted = BufferStats::none();
            &&& counted.total_allocations == 0 && counted.buffer_reuses == 0
            &&& counted.total_bytes_encoded == 0 && counted.total_bytes_decoded == 0
            &&& counted.max_buffer_size_used == 0
        }),
{
}

} // verus!
