//! What constructed values are written as is what they are read from.

use crate::encoding::bitstring;
use crate::encoding::context;
use crate::encoding::error::EncodingErrorView;
use crate::encoding::primitive;
use crate::encoding::tag;
use crate::encoding::tag::BACnetTag;
use crate::number::Real;
use crate::object::identifier::ObjectIdentifier;
use crate::property::codec;
use crate::property::complex;
use crate::property::value::{
    AddressView, CovSubscriptionView, DestinationView, ObjectPropertyReference, PropertyValueView,
    RecipientView, TimeValueView, TimestampValue,
};
use vstd::prelude::*;

verus! {

/// Whether an identifier can be written and has the one type its number stands
/// for.
pub open spec fn is_writable_identifier(value: ObjectIdentifier) -> bool {
    value.is_encodable() && value.object_type.is_canonical()
}

/// Whether a primitive context tag with this number stands at the front of `data`.
pub open spec fn starts_with_context(data: Seq<u8>, tag_number: u8) -> bool {
    tag::tag_of(data) matches Ok((BACnetTag::Context(number), _, _)) && number == tag_number
}

/// What stands behind the front part of a concatenation.
proof fn lemma_rest(front: Seq<u8>, back: Seq<u8>)
    ensures
        complex::rest(front + back, front.len() as int) == back,
{
    assert(complex::rest(front + back, front.len() as int) =~= back);
}

/// What stands behind one more part.
proof fn lemma_step(data: Seq<u8>, at: int, front: Seq<u8>, back: Seq<u8>)
    requires
        0 <= at <= data.len(),
        complex::rest(data, at) == front + back,
    ensures
        complex::rest(data, at + front.len()) == back,
        at + front.len() <= data.len(),
{
    assert(complex::rest(data, at).len() == front.len() + back.len());
    assert(complex::rest(data, at + front.len()) =~= complex::rest(data, at).subrange(
        front.len() as int,
        (front.len() + back.len()) as int,
    ));
    assert((front + back).subrange(front.len() as int, (front.len() + back.len()) as int) =~= back);
}

/// The parts of a concatenation may be taken from the front one by one.
proof fn lemma_regroup(a: Seq<u8>, b: Seq<u8>, c: Seq<u8>)
    ensures
        (a + b) + c == a + (b + c),
{
    assert((a + b) + c =~= a + (b + c));
}

/// A marker at the front is read as the marker it is, and as nothing else.
proof fn lemma_marker(tag_number: u8, back: Seq<u8>)
    ensures
        tag::opening_tag_at(tag::opening_octets(tag_number) + back, tag_number) == Ok::<
            int,
            EncodingErrorView,
        >(tag::opening_octets(tag_number).len() as int),
        tag::closing_tag_at(tag::closing_octets(tag_number) + back, tag_number) == Ok::<
            int,
            EncodingErrorView,
        >(tag::closing_octets(tag_number).len() as int),
        forall|other: u8|
            !#[trigger] starts_with_context(tag::closing_octets(tag_number) + back, other),
        forall|other: u8|
            !#[trigger] starts_with_context(tag::opening_octets(tag_number) + back, other),
        forall|other: u8, length: nat|
            !#[trigger] complex::context_matches(
                tag::opening_octets(tag_number) + back,
                other,
                length,
            ),
{
    tag::law_markers_round_trip(tag_number, back);
}

/// A property reference is read back as it was written, unless what follows a
/// reference without an array index reads as one.
pub proof fn law_reference_round_trip(value: ObjectPropertyReference, following: Seq<u8>)
    requires
        is_writable_identifier(value.object_identifier),
        value.property_identifier.is_canonical(),
        value.array_index is None ==> !starts_with_context(following, 2),
    ensures
        complex::reference_encoding(value) is Ok,
        complex::reference_at(complex::reference_encoding(value)->Ok_0 + following) == Ok::<
            (ObjectPropertyReference, int),
            EncodingErrorView,
        >((value, complex::reference_encoding(value)->Ok_0.len() as int)),
{
    let a = context::context_object_id_octets(0, value.object_identifier);
    let b = context::context_unsigned_octets(1, value.property_identifier.number());
    let c = complex::index_octets(value.array_index);
    let octets = complex::reference_encoding(value)->Ok_0;
    let data = octets + following;
    assert(octets =~= a + (b + c));
    assert(data =~= a + (b + (c + following)));
    context::law_context_object_id_round_trip(0, value.object_identifier, b + (c + following));
    lemma_rest(a, b + (c + following));
    context::law_context_unsigned_round_trip(
        1,
        value.property_identifier.number(),
        c + following,
    );
    assert(complex::rest(data, (a.len() + b.len()) as int) =~= c + following);
    match value.array_index {
        Some(index) => {
            context::law_context_unsigned_round_trip(2, index, following);
        },
        None => {
            assert(c + following =~= following);
        },
    }
}

/// A timestamp whose year can be written is read back as it was written.
pub proof fn law_timestamp_round_trip(value: TimestampValue, following: Seq<u8>)
    requires
        value matches TimestampValue::DateTime { date, time: _ } ==> primitive::year_is_encodable(
            date.0,
        ),
    ensures
        complex::timestamp_encoding(value) is Ok,
        complex::timestamp_at(complex::timestamp_encoding(value)->Ok_0 + following) == Ok::<
            (TimestampValue, int),
            EncodingErrorView,
        >((value, complex::timestamp_encoding(value)->Ok_0.len() as int)),
{
    let octets = complex::timestamp_encoding(value)->Ok_0;
    let data = octets + following;
    match value {
        TimestampValue::Time(h, m, s, f) => {
            let content = seq![h, m, s, f];
            context::lemma_context_tagged(0, content, following);
            let used = tag::context_header(0, 4).len() as int;
            assert(data[used + 0] == content[0] && data[used + 1] == content[1] && data[used + 2]
                == content[2] && data[used + 3] == content[3]);
        },
        TimestampValue::SequenceNumber(n) => {
            context::law_context_unsigned_round_trip(1, n, following);
        },
        TimestampValue::DateTime { date, time } => {
            let o = tag::opening_octets(2);
            let d = primitive::date_octets(date);
            let t = primitive::time_octets(time);
            let c = tag::closing_octets(2);
            assert(data =~= o + (d + (t + (c + following))));
            tag::law_markers_round_trip(2, d + (t + (c + following)));
            tag::law_markers_round_trip(2, following);
            lemma_rest(o, d + (t + (c + following)));
            codec::law_plain_value_round_trip(
                PropertyValueView::Date(date.0, date.1, date.2, date.3),
                t + (c + following),
            );
            codec::law_plain_value_round_trip(
                PropertyValueView::Time(time.0, time.1, time.2, time.3),
                c + following,
            );
            assert(complex::rest(data, (o.len() + d.len()) as int) =~= t + (c + following));
            assert(complex::rest(data, (o.len() + d.len() + t.len()) as int) =~= c + following);
        },
    }
}

/// An address between its markers is read back as it was written.
proof fn lemma_address_round_trip(
    address: AddressView,
    following: Seq<u8>,
    wrong_network: EncodingErrorView,
    wrong_mac: EncodingErrorView,
)
    requires
        address.mac_address.len() <= u32::MAX,
    ensures
        ({
            let octets = tag::opening_octets(1) + complex::address_octets(address)
                + tag::closing_octets(1);
            complex::address_at(octets + following, wrong_network, wrong_mac) == Ok::<
                (AddressView, int),
                EncodingErrorView,
            >((address, octets.len() as int))
        }),
{
    let o = tag::opening_octets(1);
    let n = primitive::unsigned_octets(address.network as u32);
    let m = primitive::octet_string_octets(address.mac_address);
    let c = tag::closing_octets(1);
    let octets = o + complex::address_octets(address) + c;
    let data = octets + following;
    assert(data =~= o + (n + (m + (c + following))));
    lemma_marker(1, n + (m + (c + following)));
    lemma_marker(1, following);
    lemma_rest(o, n + (m + (c + following)));
    primitive::law_unsigned_round_trip(address.network as u32, m + (c + following));
    lemma_reads_small_unsigned(
        n + (m + (c + following)),
        address.network as u64,
        n.len() as int,
    );
    codec::law_plain_value_round_trip(
        PropertyValueView::OctetString(address.mac_address),
        c + following,
    );
    assert(complex::rest(data, (o.len() + n.len()) as int) =~= m + (c + following));
    assert(complex::rest(data, (o.len() + n.len() + m.len()) as int) =~= c + following);
}

/// What the reader of wide unsigned numbers reads, the reader of any value reads.
proof fn lemma_reads_small_unsigned(data: Seq<u8>, value: u64, length: int)
    requires
        primitive::unsigned64_at(data) == Ok::<(u64, int), EncodingErrorView>((value, length)),
    ensures
        codec::value_at(data) == Ok::<(PropertyValueView, int), EncodingErrorView>(
            (PropertyValueView::Unsigned(value), length),
        ),
{
    reveal(codec::value_at);
}

/// Whether a recipient can be written and read back.
pub open spec fn is_writable_recipient(recipient: RecipientView) -> bool {
    match recipient {
        RecipientView::Device(device) => is_writable_identifier(device),
        RecipientView::Address(address) => address.mac_address.len() <= u32::MAX,
    }
}

/// A recipient is read back as it was written.
pub proof fn law_recipient_round_trip(
    recipient: RecipientView,
    following: Seq<u8>,
    wrong_network: EncodingErrorView,
    wrong_mac: EncodingErrorView,
)
    requires
        is_writable_recipient(recipient),
    ensures
        complex::recipient_encoding(recipient) is Ok,
        complex::recipient_at(
            complex::recipient_encoding(recipient)->Ok_0 + following,
            wrong_network,
            wrong_mac,
        ) == Ok::<(RecipientView, int), EncodingErrorView>(
            (recipient, complex::recipient_encoding(recipient)->Ok_0.len() as int),
        ),
{
    match recipient {
        RecipientView::Device(device) => {
            context::law_context_object_id_round_trip(0, device, following);
        },
        RecipientView::Address(address) => {
            let o = tag::opening_octets(1);
            lemma_address_round_trip(address, following, wrong_network, wrong_mac);
            let inner = complex::address_octets(address) + tag::closing_octets(1) + following;
            lemma_marker(1, inner);
            assert(complex::recipient_encoding(recipient)->Ok_0 + following =~= o + inner);
        },
    }
}

/// Whether a recipient list entry can be written and read back.
pub open spec fn is_writable_destination(value: DestinationView) -> bool {
    &&& bitstring::bit_string_content(value.valid_days).len() <= u32::MAX
    &&& bitstring::bit_string_content(value.transitions).len() <= u32::MAX
    &&& is_writable_recipient(value.recipient)
}

/// A recipient list entry is read from its parts.
proof fn lemma_destination_parts(
    value: DestinationView,
    a: Seq<u8>,
    b: Seq<u8>,
    c: Seq<u8>,
    d: Seq<u8>,
    e: Seq<u8>,
    f: Seq<u8>,
    g: Seq<u8>,
    following: Seq<u8>,
)
    requires
        codec::value_at(a + (b + (c + (d + (e + (f + (g + following))))))) == Ok::<
            (PropertyValueView, int),
            EncodingErrorView,
        >((PropertyValueView::BitString(value.valid_days), a.len() as int)),
        codec::value_at(b + (c + (d + (e + (f + (g + following)))))) == Ok::<
            (PropertyValueView, int),
            EncodingErrorView,
        >((time_value(value.from_time), b.len() as int)),
        codec::value_at(c + (d + (e + (f + (g + following))))) == Ok::<
            (PropertyValueView, int),
            EncodingErrorView,
        >((time_value(value.to_time), c.len() as int)),
        complex::recipient_at(
            d + (e + (f + (g + following))),
            EncodingErrorView::InvalidTag,
            EncodingErrorView::InvalidTag,
        ) == Ok::<(RecipientView, int), EncodingErrorView>((value.recipient, d.len() as int)),
        codec::value_at(e + (f + (g + following))) == Ok::<
            (PropertyValueView, int),
            EncodingErrorView,
        >((PropertyValueView::Unsigned(value.process_identifier as u64), e.len() as int)),
        codec::value_at(f + (g + following)) == Ok::<(PropertyValueView, int), EncodingErrorView>(
            (
                PropertyValueView::Boolean(value.issue_confirmed_notifications),
                f.len() as int,
            ),
        ),
        codec::value_at(g + following) == Ok::<(PropertyValueView, int), EncodingErrorView>(
            (PropertyValueView::BitString(value.transitions), g.len() as int),
        ),
    ensures
        ({
            let octets = a + b + c + d + (e + f + g);
            complex::destination_at(octets + following) == Ok::<
                (DestinationView, int),
                EncodingErrorView,
            >((value, octets.len() as int))
        }),
{
    let octets = a + b + c + d + (e + f + g);
    let data = octets + following;
    let after = b + (c + (d + (e + (f + (g + following)))));
    assert(data =~= a + after);
    lemma_rest(a, after);
    lemma_step(data, a.len() as int, b, c + (d + (e + (f + (g + following)))));
    lemma_step(data, (a.len() + b.len()) as int, c, d + (e + (f + (g + following))));
    let from = (a.len() + b.len() + c.len()) as int;
    lemma_step(data, from, d, e + (f + (g + following)));
    lemma_step(data, (from + d.len()) as int, e, f + (g + following));
    lemma_step(data, (from + d.len() + e.len()) as int, f, g + following);
    assert(complex::destination_tail_at(data, from, value.valid_days, value.from_time, value.to_time)
        == Ok::<(DestinationView, int), EncodingErrorView>((value, octets.len() as int)));
}

/// A time of day as a property value.
pub open spec fn time_value(time: (u8, u8, u8, u8)) -> PropertyValueView {
    PropertyValueView::Time(time.0, time.1, time.2, time.3)
}

/// A recipient list entry is read back as it was written.
pub proof fn law_destination_round_trip(value: DestinationView, following: Seq<u8>)
    requires
        is_writable_destination(value),
    ensures
        complex::destination_encoding(value) is Ok,
        complex::destination_at(complex::destination_encoding(value)->Ok_0 + following) == Ok::<
            (DestinationView, int),
            EncodingErrorView,
        >((value, complex::destination_encoding(value)->Ok_0.len() as int)),
{
    let invalid = EncodingErrorView::InvalidTag;
    let a = bitstring::bit_string_octets(value.valid_days);
    let b = primitive::time_octets(value.from_time);
    let c = primitive::time_octets(value.to_time);
    law_recipient_round_trip(value.recipient, Seq::<u8>::empty(), invalid, invalid);
    let d = complex::recipient_encoding(value.recipient)->Ok_0;
    let e = primitive::unsigned_octets(value.process_identifier);
    let f = primitive::boolean_octets(value.issue_confirmed_notifications);
    let g = bitstring::bit_string_octets(value.transitions);

    codec::law_plain_value_round_trip(
        PropertyValueView::BitString(value.valid_days),
        b + (c + (d + (e + (f + (g + following))))),
    );
    codec::law_plain_value_round_trip(
        time_value(value.from_time),
        c + (d + (e + (f + (g + following)))),
    );
    codec::law_plain_value_round_trip(
        time_value(value.to_time),
        d + (e + (f + (g + following))),
    );
    law_recipient_round_trip(value.recipient, e + (f + (g + following)), invalid, invalid);
    primitive::law_unsigned_round_trip(value.process_identifier, f + (g + following));
    lemma_reads_small_unsigned(
        e + (f + (g + following)),
        value.process_identifier as u64,
        e.len() as int,
    );
    codec::law_plain_value_round_trip(
        PropertyValueView::Boolean(value.issue_confirmed_notifications),
        g + following,
    );
    codec::law_plain_value_round_trip(PropertyValueView::BitString(value.transitions), following);
    lemma_destination_parts(value, a, b, c, d, e, f, g, following);
}

/// Whether the entries of a day are single application values, which is all a day
/// may hold.
pub open spec fn are_plain_entries(entries: Seq<TimeValueView>) -> bool {
    forall|i: int| 0 <= i < entries.len() ==> codec::is_plain((#[trigger] entries[i]).value)
}

/// The octets of an entry whose value is plain.
#[verifier::opaque]
pub open spec fn one_entry(entry: TimeValueView) -> Seq<u8> {
    primitive::time_octets(entry.time) + codec::value_encoding(entry.value)->Ok_0
}

/// The octets of plain entries, first entry first.
pub open spec fn entry_octets(entries: Seq<TimeValueView>) -> Seq<u8>
    decreases entries.len(),
{
    if entries.len() == 0 {
        Seq::<u8>::empty()
    } else {
        one_entry(entries[0]) + entry_octets(entries.drop_first())
    }
}

/// Writing plain entries from the last or from the first gives the same octets.
proof fn lemma_entries_encoding(entries: Seq<TimeValueView>)
    requires
        are_plain_entries(entries),
    ensures
        codec::entries_encoding(entries) == Ok::<Seq<u8>, EncodingErrorView>(
            entry_octets(entries),
        ),
    decreases entries.len(),
{
    if entries.len() > 0 {
        let front = entries.drop_last();
        let last = entries.last();
        assert forall|i: int| 0 <= i < front.len() implies codec::is_plain(
            (#[trigger] front[i]).value,
        ) by {
            assert(front[i] == entries[i]);
        }
        lemma_entries_encoding(front);
        assert(codec::is_plain(entries[entries.len() - 1].value));
        codec::law_plain_value_round_trip(last.value, Seq::<u8>::empty());
        lemma_entry_octets_push(front, last);
        assert(front.push(last) =~= entries);
        reveal(one_entry);
        let octets = entry_octets(front);
        let t = primitive::time_octets(last.time);
        let v = codec::value_encoding(last.value)->Ok_0;
        lemma_regroup(octets, t, v);
    }
}

/// One more entry adds its octets at the end.
proof fn lemma_entry_octets_push(entries: Seq<TimeValueView>, last: TimeValueView)
    ensures
        entry_octets(entries.push(last)) == entry_octets(entries) + one_entry(last),
    decreases entries.len(),
{
    let longer = entries.push(last);
    if entries.len() == 0 {
        reveal_with_fuel(entry_octets, 2);
        assert(longer.drop_first() =~= Seq::<TimeValueView>::empty());
        assert(one_entry(last) + Seq::<u8>::empty() =~= Seq::<u8>::empty() + one_entry(last));
    } else {
        let more = entries.drop_first();
        lemma_entry_octets_push(more, last);
        assert(longer.drop_first() =~= more.push(last));
        lemma_regroup(one_entry(entries[0]), entry_octets(more), one_entry(last));
    }
}

/// One entry is read from its parts, and the reading goes on behind it.
proof fn lemma_entry_parts(
    data: Seq<u8>,
    from: int,
    entry: TimeValueView,
    t: Seq<u8>,
    v: Seq<u8>,
    back: Seq<u8>,
)
    requires
        0 <= from <= data.len(),
        complex::rest(data, from) == t + (v + back),
        !(tag::tag_of(t + (v + back)) matches Ok((BACnetTag::Closing(number), _, _))),
        codec::value_at(t + (v + back)) == Ok::<(PropertyValueView, int), EncodingErrorView>(
            (time_value(entry.time), t.len() as int),
        ),
        codec::value_at(v + back) == Ok::<(PropertyValueView, int), EncodingErrorView>(
            (entry.value, v.len() as int),
        ),
    ensures
        complex::rest(data, from + t.len() + v.len()) == back,
        from + t.len() + v.len() <= data.len(),
        complex::entries_at(data, from + t.len() + v.len()) matches Ok((tail, end))
            ==> complex::entries_at(data, from) == Ok::<
            (Seq<TimeValueView>, int),
            EncodingErrorView,
        >((seq![entry] + tail, end)),
{
    lemma_step(data, from, t, v + back);
    lemma_step(data, from + t.len(), v, back);
    assert(TimeValueView {
        time: (entry.time.0, entry.time.1, entry.time.2, entry.time.3),
        value: entry.value,
    } == entry);
}

/// Entries are read back from where they stand.
proof fn lemma_entries_round_trip(
    data: Seq<u8>,
    from: int,
    entries: Seq<TimeValueView>,
    following: Seq<u8>,
)
    requires
        are_plain_entries(entries),
        0 <= from <= data.len(),
        complex::rest(data, from) == entry_octets(entries) + (tag::closing_octets(0) + following),
    ensures
        complex::entries_at(data, from) == Ok::<(Seq<TimeValueView>, int), EncodingErrorView>(
            (entries, (from + entry_octets(entries).len()) as int),
        ),
    decreases entries.len(),
{
    let closing = tag::closing_octets(0) + following;
    if entries.len() == 0 {
        tag::law_markers_round_trip(0, following);
        assert(Seq::<u8>::empty() + closing =~= closing);
        assert(entries =~= Seq::<TimeValueView>::empty());
    } else {
        let entry = entries[0];
        let more = entries.drop_first();
        let t = primitive::time_octets(entry.time);
        let v = codec::value_encoding(entry.value)->Ok_0;
        let back = entry_octets(more) + closing;
        assert(codec::is_plain(entries[0].value));
        assert(one_entry(entry) == t + v) by {
            reveal(one_entry);
        }
        lemma_regroup(one_entry(entry), entry_octets(more), closing);
        lemma_regroup(t, v, back);
        codec::law_plain_value_round_trip(time_value(entry.time), v + back);
        lemma_time_is_no_marker(entry.time, v + back);
        codec::law_plain_value_round_trip(entry.value, back);
        lemma_entry_parts(data, from, entry, t, v, back);
        assert forall|i: int| 0 <= i < more.len() implies codec::is_plain(
            (#[trigger] more[i]).value,
        ) by {
            assert(more[i] == entries[i + 1]);
        }
        lemma_entries_round_trip(data, from + t.len() + v.len(), more, following);
        assert(seq![entry] + more =~= entries);
    }
}

/// A time is not taken for a closing marker.
proof fn lemma_time_is_no_marker(time: (u8, u8, u8, u8), following: Seq<u8>)
    ensures
        !(tag::tag_of(primitive::time_octets(time) + following) matches Ok((
            BACnetTag::Closing(number),
            _,
            _,
        ))),
{
    primitive::lemma_tagged(
        tag::ApplicationTag::Time,
        seq![time.0, time.1, time.2, time.3],
        following,
    );
}

/// A day whose values are plain is read back as it was written.
pub proof fn law_daily_schedule_round_trip(entries: Seq<TimeValueView>, following: Seq<u8>)
    requires
        are_plain_entries(entries),
    ensures
        ({
            let encoding = codec::value_encoding(PropertyValueView::DailySchedule(entries));
            &&& encoding is Ok
            &&& complex::daily_schedule_at(encoding->Ok_0 + following) == Ok::<
                (Seq<TimeValueView>, int),
                EncodingErrorView,
            >((entries, encoding->Ok_0.len() as int))
        }),
{
    let o = tag::opening_octets(0);
    let c = tag::closing_octets(0);
    lemma_entries_encoding(entries);
    let octets = codec::value_encoding(PropertyValueView::DailySchedule(entries))->Ok_0;
    let data = octets + following;
    assert(data =~= o + (entry_octets(entries) + c + following));
    assert(data =~= o + entry_octets(entries) + c + following);
    tag::law_markers_round_trip(0, entry_octets(entries) + c + following);
    tag::law_markers_round_trip(0, following);
    lemma_rest(o, entry_octets(entries) + c + following);
    lemma_regroup(entry_octets(entries), c, following);
    lemma_entries_round_trip(data, o.len() as int, entries, following);
    assert(complex::rest(data, (o.len() + entry_octets(entries).len()) as int) =~= c + following);
}

/// A day takes octets, with or without entries.
pub proof fn lemma_day_length(entries: Seq<TimeValueView>)
    requires
        are_plain_entries(entries),
    ensures
        codec::value_encoding(PropertyValueView::DailySchedule(entries)) is Ok,
        codec::value_encoding(PropertyValueView::DailySchedule(entries))->Ok_0.len() > 0,
{
    lemma_entries_encoding(entries);
    assert(tag::opening_octets(0).len() > 0);
}

/// An address binding is read from its parts.
proof fn lemma_address_binding_parts(
    device: ObjectIdentifier,
    address: AddressView,
    a: Seq<u8>,
    b: Seq<u8>,
    c: Seq<u8>,
    following: Seq<u8>,
)
    requires
        codec::value_at(a + (b + (c + following))) == Ok::<
            (PropertyValueView, int),
            EncodingErrorView,
        >((PropertyValueView::ObjectIdentifier(device), a.len() as int)),
        codec::value_at(b + (c + following)) == Ok::<(PropertyValueView, int), EncodingErrorView>(
            (PropertyValueView::Unsigned(address.network as u64), b.len() as int),
        ),
        codec::value_at(c + following) == Ok::<(PropertyValueView, int), EncodingErrorView>(
            (PropertyValueView::OctetString(address.mac_address), c.len() as int),
        ),
    ensures
        ({
            let octets = a + (b + c);
            complex::address_binding_at(octets + following) == Ok::<
                (PropertyValueView, int),
                EncodingErrorView,
            >((PropertyValueView::AddressBinding(device, address), octets.len() as int))
        }),
{
    let data = a + (b + c) + following;
    assert(data =~= a + (b + (c + following)));
    lemma_rest(a, b + (c + following));
    lemma_step(data, a.len() as int, b, c + following);
}

/// An address binding is read back as it was written.
pub proof fn law_address_binding_round_trip(
    device: ObjectIdentifier,
    address: AddressView,
    following: Seq<u8>,
)
    requires
        is_writable_identifier(device),
        address.mac_address.len() <= u32::MAX,
    ensures
        complex::address_binding_encoding(device, address) is Ok,
        complex::address_binding_at(
            complex::address_binding_encoding(device, address)->Ok_0 + following,
        ) == Ok::<(PropertyValueView, int), EncodingErrorView>(
            (
                PropertyValueView::AddressBinding(device, address),
                complex::address_binding_encoding(device, address)->Ok_0.len() as int,
            ),
        ),
{
    let a = primitive::object_identifier_octets(device);
    let b = primitive::unsigned_octets(address.network as u32);
    let c = primitive::octet_string_octets(address.mac_address);
    codec::law_plain_value_round_trip(
        PropertyValueView::ObjectIdentifier(device),
        b + (c + following),
    );
    primitive::law_unsigned_round_trip(address.network as u32, c + following);
    lemma_reads_small_unsigned(b + (c + following), address.network as u64, b.len() as int);
    codec::law_plain_value_round_trip(
        PropertyValueView::OctetString(address.mac_address),
        following,
    );
    lemma_address_binding_parts(device, address, a, b, c, following);
}

/// A recipient with its process identifier is read from its parts.
proof fn lemma_recipient_process_parts(
    tag_number: u8,
    recipient: RecipientView,
    process_identifier: u32,
    a: Seq<u8>,
    b: Seq<u8>,
    c: Seq<u8>,
    d: Seq<u8>,
    e: Seq<u8>,
    f: Seq<u8>,
    following: Seq<u8>,
)
    requires
        tag::opening_tag_at(a + (b + (c + (d + (e + (f + following))))), tag_number) == Ok::<
            int,
            EncodingErrorView,
        >(a.len() as int),
        tag::opening_tag_at(b + (c + (d + (e + (f + following)))), 0) == Ok::<
            int,
            EncodingErrorView,
        >(b.len() as int),
        complex::recipient_at(
            c + (d + (e + (f + following))),
            complex::wrong_network(),
            complex::wrong_mac(),
        ) == Ok::<(RecipientView, int), EncodingErrorView>((recipient, c.len() as int)),
        tag::closing_tag_at(d + (e + (f + following)), 0) == Ok::<int, EncodingErrorView>(
            d.len() as int,
        ),
        context::context_unsigned_at(e + (f + following), 1) == Ok::<
            (u32, int),
            EncodingErrorView,
        >((process_identifier, e.len() as int)),
        tag::closing_tag_at(f + following, tag_number) == Ok::<int, EncodingErrorView>(
            f.len() as int,
        ),
    ensures
        ({
            let octets = a + b + c + (d + e + f);
            complex::recipient_process_at(octets + following, tag_number) == Ok::<
                ((RecipientView, u32), int),
                EncodingErrorView,
            >(((recipient, process_identifier), octets.len() as int))
        }),
{
    let octets = a + b + c + (d + e + f);
    let data = octets + following;
    let after = b + (c + (d + (e + (f + following))));
    assert(data =~= a + after);
    lemma_rest(a, after);
    lemma_step(data, a.len() as int, b, c + (d + (e + (f + following))));
    lemma_step(data, (a.len() + b.len()) as int, c, d + (e + (f + following)));
    lemma_step(data, (a.len() + b.len() + c.len()) as int, d, e + (f + following));
    lemma_step(data, (a.len() + b.len() + c.len() + d.len()) as int, e, f + following);
}

/// A recipient with its process identifier is read back as it was written.
proof fn lemma_recipient_process_round_trip(
    tag_number: u8,
    recipient: RecipientView,
    process_identifier: u32,
    following: Seq<u8>,
)
    requires
        is_writable_recipient(recipient),
    ensures
        ({
            let encoding = complex::recipient_process_encoding(
                tag_number,
                recipient,
                process_identifier,
            );
            &&& encoding is Ok
            &&& complex::recipient_process_at(encoding->Ok_0 + following, tag_number) == Ok::<
                ((RecipientView, u32), int),
                EncodingErrorView,
            >(((recipient, process_identifier), encoding->Ok_0.len() as int))
        }),
{
    let network = complex::wrong_network();
    let mac = complex::wrong_mac();
    let a = tag::opening_octets(tag_number);
    let b = tag::opening_octets(0);
    law_recipient_round_trip(recipient, Seq::<u8>::empty(), network, mac);
    let c = complex::recipient_encoding(recipient)->Ok_0;
    let d = tag::closing_octets(0);
    let e = context::context_unsigned_octets(1, process_identifier);
    let f = tag::closing_octets(tag_number);
    lemma_marker(tag_number, b + (c + (d + (e + (f + following)))));
    lemma_marker(0, c + (d + (e + (f + following))));
    law_recipient_round_trip(recipient, d + (e + (f + following)), network, mac);
    lemma_marker(0, e + (f + following));
    context::law_context_unsigned_round_trip(1, process_identifier, f + following);
    lemma_marker(tag_number, following);
    lemma_recipient_process_parts(
        tag_number,
        recipient,
        process_identifier,
        a,
        b,
        c,
        d,
        e,
        f,
        following,
    );
}

/// A wrapped reference is read back as it was written.
proof fn lemma_wrapped_reference_round_trip(
    tag_number: u8,
    value: ObjectPropertyReference,
    following: Seq<u8>,
)
    requires
        is_writable_identifier(value.object_identifier),
        value.property_identifier.is_canonical(),
    ensures
        ({
            let encoding = codec::both(
                codec::both(Ok(tag::opening_octets(tag_number)), complex::reference_encoding(value)),
                Ok(tag::closing_octets(tag_number)),
            );
            &&& encoding is Ok
            &&& complex::wrapped_reference_at(encoding->Ok_0 + following, tag_number) == Ok::<
                (ObjectPropertyReference, int),
                EncodingErrorView,
            >((value, encoding->Ok_0.len() as int))
        }),
{
    let a = tag::opening_octets(tag_number);
    let c = tag::closing_octets(tag_number);
    lemma_marker(tag_number, following);
    assert(!starts_with_context(c + following, 2));
    law_reference_round_trip(value, c + following);
    let b = complex::reference_encoding(value)->Ok_0;
    let octets = codec::both(
        codec::both(Ok(a), complex::reference_encoding(value)),
        Ok(c),
    )->Ok_0;
    let data = octets + following;
    assert(data =~= a + (b + (c + following)));
    lemma_marker(tag_number, b + (c + following));
    lemma_rest(a, b + (c + following));
    assert(complex::rest(data, (a.len() + b.len()) as int) =~= c + following);
}

/// An active COV subscription is read from its parts.
#[verifier::rlimit(60)]
#[verifier::spinoff_prover]
proof fn lemma_cov_subscription_parts(
    value: CovSubscriptionView,
    a: Seq<u8>,
    b: Seq<u8>,
    c: Seq<u8>,
    d: Seq<u8>,
    e: Seq<u8>,
    following: Seq<u8>,
)
    requires
        complex::recipient_process_at(a + (b + (c + (d + (e + following)))), 0) == Ok::<
            ((RecipientView, u32), int),
            EncodingErrorView,
        >(((value.recipient, value.process_identifier), a.len() as int)),
        complex::wrapped_reference_at(b + (c + (d + (e + following))), 1) == Ok::<
            (ObjectPropertyReference, int),
            EncodingErrorView,
        >((value.monitored_property, b.len() as int)),
        complex::confirmation_at(c + (d + (e + following)), 2) == Ok::<
            (bool, int),
            EncodingErrorView,
        >((value.issue_confirmed_notifications, c.len() as int)),
        context::context_unsigned_at(d + (e + following), 3) == Ok::<
            (u32, int),
            EncodingErrorView,
        >((value.time_remaining, d.len() as int)),
        complex::increment_at(e + following) == Ok::<(Option<Real>, int), EncodingErrorView>(
            (value.cov_increment, e.len() as int),
        ),
    ensures
        ({
            let octets = a + b + (c + d + e);
            complex::cov_subscription_at(octets + following) == Ok::<
                (CovSubscriptionView, int),
                EncodingErrorView,
            >((value, octets.len() as int))
        }),
{
    let octets = a + b + (c + d + e);
    let data = octets + following;
    let after = b + (c + (d + (e + following)));
    assert(data =~= a + after);
    lemma_rest(a, after);
    lemma_step(data, a.len() as int, b, c + (d + (e + following)));
    lemma_step(data, (a.len() + b.len()) as int, c, d + (e + following));
    lemma_step(data, (a.len() + b.len() + c.len()) as int, d, e + following);
}

/// The Boolean of a subscription is read back as it was written.
proof fn lemma_confirmation_round_trip(value: bool, following: Seq<u8>)
    ensures
        complex::confirmation_at(context::context_boolean_octets(2, value) + following, 2) == Ok::<
            (bool, int),
            EncodingErrorView,
        >((value, context::context_boolean_octets(2, value).len() as int)),
{
    context::law_context_boolean_round_trip(2, value, following);
}

/// The increment of a subscription is read back as it was written.
proof fn lemma_increment_round_trip(value: Option<Real>, following: Seq<u8>)
    requires
        value is None ==> !complex::context_matches(following, 4, 4),
    ensures
        complex::increment_at(complex::increment_octets(value) + following) == Ok::<
            (Option<Real>, int),
            EncodingErrorView,
        >((value, complex::increment_octets(value).len() as int)),
{
    match value {
        Some(increment) => {
            context::law_context_real_round_trip(4, increment, following);
        },
        None => {
            assert(complex::increment_octets(value) + following =~= following);
        },
    }
}

/// An active COV subscription is read back as it was written, unless what follows
/// a subscription without an increment reads as one.
pub proof fn law_cov_subscription_round_trip(value: CovSubscriptionView, following: Seq<u8>)
    requires
        is_writable_recipient(value.recipient),
        is_writable_identifier(value.monitored_property.object_identifier),
        value.monitored_property.property_identifier.is_canonical(),
        value.cov_increment is None ==> !complex::context_matches(following, 4, 4),
    ensures
        complex::cov_subscription_encoding(value) is Ok,
        complex::cov_subscription_at(complex::cov_subscription_encoding(value)->Ok_0 + following)
            == Ok::<(CovSubscriptionView, int), EncodingErrorView>(
            (value, complex::cov_subscription_encoding(value)->Ok_0.len() as int),
        ),
{
    let c = context::context_boolean_octets(2, value.issue_confirmed_notifications);
    let d = context::context_unsigned_octets(3, value.time_remaining);
    let e = complex::increment_octets(value.cov_increment);
    lemma_wrapped_reference_round_trip(1, value.monitored_property, c + (d + (e + following)));
    let b = codec::both(
        codec::both(
            Ok(tag::opening_octets(1)),
            complex::reference_encoding(value.monitored_property),
        ),
        Ok(tag::closing_octets(1)),
    )->Ok_0;
    lemma_recipient_process_round_trip(
        0,
        value.recipient,
        value.process_identifier,
        b + (c + (d + (e + following))),
    );
    let a = complex::recipient_process_encoding(
        0,
        value.recipient,
        value.process_identifier,
    )->Ok_0;
    lemma_confirmation_round_trip(value.issue_confirmed_notifications, d + (e + following));
    context::law_context_unsigned_round_trip(3, value.time_remaining, e + following);
    lemma_increment_round_trip(value.cov_increment, following);
    lemma_cov_subscription_parts(value, a, b, c, d, e, following);
}

} // verus!
