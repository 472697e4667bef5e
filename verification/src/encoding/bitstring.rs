//! Bit strings.

use crate::encoding::error;
use crate::encoding::error::{EncodingError, EncodingErrorView};
use crate::encoding::primitive;
use crate::encoding::tag;
use crate::encoding::tag::{decode_application_tag, encode_application_tag, ApplicationTag};
use vstd::prelude::*;

verus! {

/// `weight` where bit `k` is set, zero where it is clear or past the end.
pub open spec fn weighed(bits: Seq<bool>, k: int, weight: nat) -> nat {
    if k < bits.len() && bits[k] {
        weight
    } else {
        0
    }
}

/// Octet `i` of the packed bits, the first bit in the highest place.
pub open spec fn packed_octet(bits: Seq<bool>, i: int) -> u8 {
    (weighed(bits, 8 * i, 128) + weighed(bits, 8 * i + 1, 64) + weighed(bits, 8 * i + 2, 32)
        + weighed(bits, 8 * i + 3, 16) + weighed(bits, 8 * i + 4, 8) + weighed(bits, 8 * i + 5, 4)
        + weighed(bits, 8 * i + 6, 2) + weighed(bits, 8 * i + 7, 1)) as u8
}

/// How many octets hold `count` bits.
pub open spec fn octet_count(count: nat) -> nat {
    (count + 7) / 8
}

/// How many bits of the last octet are not used.
pub open spec fn unused_bits(count: nat) -> nat {
    (8 * octet_count(count) - count) as nat
}

/// The content of an encoded bit string: the number of unused bits, then the
/// packed bits.
pub open spec fn bit_string_content(bits: Seq<bool>) -> Seq<u8> {
    seq![unused_bits(bits.len()) as u8] + Seq::new(
        octet_count(bits.len()),
        |i: int| packed_octet(bits, i),
    )
}

/// The encoding of a bit string.
pub open spec fn bit_string_octets(bits: Seq<bool>) -> Seq<u8> {
    primitive::tagged(ApplicationTag::BitString, bit_string_content(bits))
}

/// Whether bit `place` of `octet` is set, counted from the highest place.
pub open spec fn bit_of(octet: u8, place: int) -> bool {
    if place == 0 {
        octet >= 128
    } else if place == 1 {
        (octet / 64) % 2 == 1
    } else if place == 2 {
        (octet / 32) % 2 == 1
    } else if place == 3 {
        (octet / 16) % 2 == 1
    } else if place == 4 {
        (octet / 8) % 2 == 1
    } else if place == 5 {
        (octet / 4) % 2 == 1
    } else if place == 6 {
        (octet / 2) % 2 == 1
    } else {
        octet % 2 == 1
    }
}

/// The bits that `content` holds when `unused` bits of its last octet are not
/// used.
pub open spec fn unpacked(content: Seq<u8>, unused: nat) -> Seq<bool> {
    Seq::new(
        if content.len() == 0 { 0 } else { (8 * content.len() - unused) as nat },
        |k: int| bit_of(content[k / 8], k % 8),
    )
}

/// The bit string at the front of `data`.
pub open spec fn bit_string_at(data: Seq<u8>) -> Result<(Seq<bool>, int), EncodingErrorView> {
    match tag::application_tag_at(data) {
        Err(error) => Err(error),
        Ok((actual, length, used)) => if actual != ApplicationTag::BitString {
            Err(EncodingErrorView::InvalidTag)
        } else if length == 0 || data.len() < used + length {
            Err(EncodingErrorView::BufferUnderflow)
        } else if data[used] > 7 {
            Err(EncodingErrorView::InvalidFormat("Invalid unused bits count"@))
        } else {
            Ok(
                (
                    unpacked(data.subrange(used + 1, used + length), data[used] as nat),
                    used + length,
                ),
            )
        },
    }
}

/// `weight` where bit `k` is set.
fn weigh(bits: &[bool], start: usize, offset: usize, weight: u8) -> (result: u8)
    requires
        start < bits.len(),
        offset < 8,
    ensures
        result == weighed(bits@, start + offset, weight as nat),
{
    if offset < bits.len() - start && bits[start + offset] {
        weight
    } else {
        0
    }
}

/// Encode a bit string.
pub fn encode_bit_string(buffer: &mut Vec<u8>, bits: &[bool]) -> (result: Result<
    (),
    EncodingError,
>)
    ensures
        result is Ok,
        final(buffer)@ == old(buffer)@ + bit_string_octets(bits@),
{
    let count: usize = bits.len();
    let partial: usize = count % 8;
    let byte_count: usize = if partial == 0 {
        count / 8
    } else {
        count / 8 + 1
    };
    let unused: u8 = if partial == 0 {
        0
    } else {
        (8 - partial) as u8
    };
    assert(byte_count == octet_count(bits@.len()));
    assert(unused == unused_bits(bits@.len()));
    encode_application_tag(buffer, ApplicationTag::BitString, byte_count + 1);
    let ghost headed = buffer@;
    buffer.push(unused);
    let ghost packed = Seq::new(octet_count(bits@.len()), |i: int| packed_octet(bits@, i));
    let mut i: usize = 0;
    assert(buffer@ =~= headed + seq![unused] + packed.take(0));
    while i < byte_count
        invariant
            i <= byte_count,
            count == bits@.len(),
            byte_count == octet_count(count as nat),
            packed == Seq::new(octet_count(bits@.len()), |i: int| packed_octet(bits@, i)),
            buffer@ == headed + seq![unused] + packed.take(i as int),
        decreases byte_count - i,
    {
        assert(8 * i < count);
        let start: usize = i * 8;
        let octet: u8 = weigh(bits, start, 0, 128) + weigh(bits, start, 1, 64) + weigh(
            bits,
            start,
            2,
            32,
        ) + weigh(bits, start, 3, 16) + weigh(bits, start, 4, 8) + weigh(bits, start, 5, 4)
            + weigh(bits, start, 6, 2) + weigh(bits, start, 7, 1);
        buffer.push(octet);
        assert(packed[i as int] == octet);
        assert(packed.take(i + 1) =~= packed.take(i as int).push(octet));
        i = i + 1;
        assert(buffer@ =~= headed + seq![unused] + packed.take(i as int));
    }
    assert(packed.take(i as int) =~= packed);
    assert(buffer@ =~= old(buffer)@ + bit_string_octets(bits@));
    Ok(())
}

/// Whether bit `place` of `octet` is set.
fn test_bit(octet: u8, place: usize) -> (set: bool)
    requires
        place < 8,
    ensures
        set == bit_of(octet, place as int),
{
    match place {
        0 => octet >= 128,
        1 => (octet / 64) % 2 == 1,
        2 => (octet / 32) % 2 == 1,
        3 => (octet / 16) % 2 == 1,
        4 => (octet / 8) % 2 == 1,
        5 => (octet / 4) % 2 == 1,
        6 => (octet / 2) % 2 == 1,
        _ => octet % 2 == 1,
    }
}

/// Append the first `count` bits of `octet` to `bits`.
fn push_bits(bits: &mut Vec<bool>, octet: u8, count: usize)
    requires
        count <= 8,
    ensures
        final(bits)@ == old(bits)@ + Seq::new(count as nat, |k: int| bit_of(octet, k)),
{
    let ghost before = bits@;
    let mut place: usize = 0;
    assert(bits@ =~= before + Seq::new(0nat, |k: int| bit_of(octet, k)));
    while place < count
        invariant
            place <= count <= 8,
            bits@ == before + Seq::new(place as nat, |k: int| bit_of(octet, k)),
        decreases count - place,
    {
        bits.push(test_bit(octet, place));
        place = place + 1;
        assert(bits@ =~= before + Seq::new(place as nat, |k: int| bit_of(octet, k)));
    }
}

/// Decode a bit string.
pub fn decode_bit_string(data: &[u8]) -> (result: Result<(Vec<bool>, usize), EncodingError>)
    ensures
        error::same_viewed_outcome(result, bit_string_at(data@)),
        result is Ok ==> 0 < result->Ok_0.1 <= data@.len(),
{
    let (actual, length, used) = match decode_application_tag(data) {
        Ok(found) => found,
        Err(error) => return Err(error),
    };
    if actual != ApplicationTag::BitString {
        return Err(EncodingError::InvalidTag);
    }
    if length == 0 || data.len() - used < length {
        return Err(EncodingError::BufferUnderflow);
    }
    let unused: u8 = data[used];
    if unused > 7 {
        return Err(EncodingError::invalid_format("Invalid unused bits count"));
    }
    let byte_count: usize = length - 1;
    let start: usize = used + 1;
    let ghost content = data@.subrange(used + 1, used + length);
    let mut bits: Vec<bool> = Vec::new();
    let mut i: usize = 0;
    while i < byte_count
        invariant
            i <= byte_count,
            start + byte_count <= data.len(),
            content == data@.subrange(start as int, start + byte_count),
            unused <= 7,
            i < byte_count ==> bits@.len() == 8 * i,
            i == byte_count ==> bits@.len() == unpacked(content, unused as nat).len(),
            forall|k: int|
                0 <= k < bits@.len() ==> bits@[k] == #[trigger] unpacked(content, unused as nat)[k],
        decreases byte_count - i,
    {
        let count: usize = if i == byte_count - 1 {
            8 - unused as usize
        } else {
            8
        };
        let ghost before = bits@;
        push_bits(&mut bits, data[start + i], count);
        proof {
            let all = unpacked(content, unused as nat);
            assert(content[i as int] == data@[start + i]);
            assert forall|k: int| 0 <= k < bits@.len() implies bits@[k] == #[trigger] all[k] by {
                if k < before.len() {
                    assert(bits@[k] == before[k]);
                } else {
                    assert(k / 8 == i && k % 8 == k - 8 * i);
                    assert(bits@[k] == bit_of(data@[start + i], k - 8 * i));
                }
            }
        }
        i = i + 1;
    }
    assert(bits@ =~= unpacked(content, unused as nat));
    Ok((bits, used + length))
}

/// The bits of a packed octet are the bits it was packed from.
pub proof fn lemma_bit_of_packed(bits: Seq<bool>, k: int)
    requires
        0 <= k < bits.len(),
    ensures
        bit_of(packed_octet(bits, k / 8), k % 8) == bits[k],
{
    let i = k / 8;
    let b0 = weighed(bits, 8 * i, 1);
    let b1 = weighed(bits, 8 * i + 1, 1);
    let b2 = weighed(bits, 8 * i + 2, 1);
    let b3 = weighed(bits, 8 * i + 3, 1);
    let b4 = weighed(bits, 8 * i + 4, 1);
    let b5 = weighed(bits, 8 * i + 5, 1);
    let b6 = weighed(bits, 8 * i + 6, 1);
    let b7 = weighed(bits, 8 * i + 7, 1);
    let octet = packed_octet(bits, i);
    assert(octet == 128 * b0 + 64 * b1 + 32 * b2 + 16 * b3 + 8 * b4 + 4 * b5 + 2 * b6 + b7);
    assert(octet / 64 == 2 * b0 + b1);
    assert(octet / 32 == 4 * b0 + 2 * b1 + b2);
    assert(octet / 16 == 8 * b0 + 4 * b1 + 2 * b2 + b3);
    assert(octet / 8 == 16 * b0 + 8 * b1 + 4 * b2 + 2 * b3 + b4);
    assert(octet / 4 == 32 * b0 + 16 * b1 + 8 * b2 + 4 * b3 + 2 * b4 + b5);
    assert(octet / 2 == 64 * b0 + 32 * b1 + 16 * b2 + 8 * b3 + 4 * b4 + 2 * b5 + b6);
    assert(k == 8 * i + k % 8);
}

/// A bit string is read back as it was written.
pub proof fn law_bit_string_round_trip(bits: Seq<bool>, rest: Seq<u8>)
    requires
        bit_string_content(bits).len() <= u32::MAX,
    ensures
        bit_string_at(bit_string_octets(bits) + rest) == Ok::<(Seq<bool>, int), EncodingErrorView>(
            (bits, bit_string_octets(bits).len() as int),
        ),
{
    let content = bit_string_content(bits);
    let data = bit_string_octets(bits) + rest;
    let used = tag::application_header(ApplicationTag::BitString, content.len()).len() as int;
    primitive::lemma_tagged(ApplicationTag::BitString, content, rest);
    assert(data[used + 0] == content[0]);
    let packed = content.drop_first();
    assert forall|k: int| 0 <= k < bits.len() implies #[trigger] unpacked(
        packed,
        content[0] as nat,
    )[k] == bits[k] by {
        lemma_bit_of_packed(bits, k);
        assert(packed[k / 8] == packed_octet(bits, k / 8));
    }
    assert(unpacked(packed, content[0] as nat) =~= bits);
}

} // verus!
