//! What a client can rely on of what it finds: routers and their networks, the frames that
//! arrive, what peers can take, and what is kept of them in a file.

use crate::address::SocketAddress;
use crate::client::address_cache;
use crate::client::address_cache::LineView;
use crate::client::apdu;
use crate::client::apdu::{
    AbortReason, ApduView, ConfirmedServiceChoice, UnconfirmedServiceChoice,
};
use crate::client::discovery;
use crate::client::discovery::RouterView;
use crate::client::error;
use crate::client::error::ClientErrorView;
use crate::client::incoming;
use crate::client::incoming::FrameKind;
use crate::client::target;
use crate::client::target::{DeviceCapabilities, NetworkAddressView, Segmentation};
use crate::ranking;
use crate::text;
use vstd::prelude::*;

verus! {

// ---------------------------------------------------------------------------
// Routers
// ---------------------------------------------------------------------------

/// What is united holds what either held.
proof fn lemma_united(networks: Seq<u16>, more: Seq<u16>, network: u16)
    ensures
        discovery::united(networks, more).contains(network) <==> networks.contains(network)
            || more.contains(network),
    decreases more.len(),
{
    if more.len() > 0 {
        let shorter = more.drop_last();
        lemma_united(networks, shorter, network);
        let before = discovery::united(networks, shorter);
        let last = more.last();
        if shorter.contains(network) {
            assert(more[shorter.index_of(network)] == network);
        }
        if more.contains(network) {
            let at = more.index_of(network);
            if at < shorter.len() {
                assert(shorter[at] == network);
            }
        }
        if !before.contains(last) {
            let whole = before.push(last);
            if before.contains(network) {
                assert(whole[before.index_of(network)] == network);
            }
            if network == last {
                assert(whole[before.len() as int] == network);
            }
            if whole.contains(network) {
                let at = whole.index_of(network);
                if at < before.len() {
                    assert(before[at] == network);
                }
            }
        }
    }
}

/// Sorted networks are the same networks, by rising number.
proof fn lemma_sorted_networks(networks: Seq<u16>, network: u16)
    ensures
        discovery::sorted_networks(networks).contains(network) <==> networks.contains(network),
        discovery::sorted_networks(networks).len() == networks.len(),
        forall|i: int, j: int|
            0 <= i < j < networks.len() ==> #[trigger] discovery::sorted_networks(networks)[i]
                <= #[trigger] discovery::sorted_networks(networks)[j],
{
    broadcast use vstd::seq_lib::group_to_multiset_ensures;

    let keyed = networks.map_values(|network: u16| (network as int, network));
    let sorted = ranking::ranked(keyed);
    ranking::law_ranking_reorders(keyed);
    ranking::lemma_ranked_is_ranked(keyed);
    let listed = discovery::sorted_networks(networks);
    assert(listed == ranking::unkeyed(sorted));
    assert forall|i: int| 0 <= i < sorted.len() implies (#[trigger] sorted[i]).0 == sorted[i].1
        && networks.contains(sorted[i].1) by {
        assert(sorted.contains(sorted[i]));
        assert(keyed.to_multiset().count(sorted[i]) > 0);
        assert(keyed.contains(sorted[i]));
        let from = keyed.index_of(sorted[i]);
        assert(networks[from] == sorted[i].1);
    }
    if listed.contains(network) {
        let at = listed.index_of(network);
        assert(sorted[at].1 == network);
    }
    if networks.contains(network) {
        let from = networks.index_of(network);
        assert(keyed[from] == (network as int, network));
        assert(keyed.contains((network as int, network)));
        assert(sorted.to_multiset().count((network as int, network)) > 0);
        assert(sorted.contains((network as int, network)));
        let at = sorted.index_of((network as int, network));
        assert(listed[at] == network);
    }
    assert forall|i: int, j: int| 0 <= i < j < networks.len() implies #[trigger] listed[i]
        <= #[trigger] listed[j] by {
        assert(sorted[i].0 <= sorted[j].0);
    }
}

/// A router that is heard of again reaches what it said each time, by rising number, and
/// the others reach what they did.
pub proof fn law_routers_reach_all_they_said(
    routers: Seq<RouterView>,
    response: RouterView,
    place: int,
    network: u16,
    other: int,
)
    requires
        0 <= place < routers.len(),
        routers[place].address == response.address,
        forall|i: int| 0 <= i < place ==> (#[trigger] routers[i]).address != response.address,
        0 <= other < routers.len(),
    ensures
        ({
            let after = discovery::merged(routers, response);
            let networks = after[place].networks;
            &&& after.len() == routers.len()
            &&& after[place].address == response.address
            &&& networks.contains(network) <==> routers[place].networks.contains(network)
                || response.networks.contains(network)
            &&& forall|i: int, j: int|
                0 <= i < j < networks.len() ==> #[trigger] networks[i] <= #[trigger] networks[j]
            &&& other != place ==> after[other] == routers[other]
        }),
{
    assert(discovery::is_first_at(routers, place, response.address));
    let chosen = choose|p: int| discovery::is_first_at(routers, p, response.address);
    assert(discovery::is_first_at(routers, chosen, response.address));
    if chosen < place {
        assert(routers[chosen].address != response.address);
    }
    if place < chosen {
        assert(routers[place].address != response.address);
    }
    let all = discovery::united(routers[place].networks, response.networks);
    lemma_united(routers[place].networks, response.networks, network);
    lemma_sorted_networks(all, network);
}

/// A router that was not heard of before is added as it says, after the others.
pub proof fn law_new_routers_are_added(routers: Seq<RouterView>, response: RouterView)
    requires
        forall|i: int|
            0 <= i < routers.len() ==> (#[trigger] routers[i]).address != response.address,
    ensures
        discovery::merged(routers, response) == routers.push(response),
{
    if exists|place: int| discovery::is_first_at(routers, place, response.address) {
        let place = choose|place: int| discovery::is_first_at(routers, place, response.address);
        assert(routers[place].address != response.address);
    }
}

/// Whether an address comes after another: one of sixteen octets after one of four, and
/// otherwise by the address, and by the port where that is one.
pub open spec fn comes_after(a: SocketAddress, b: SocketAddress) -> bool {
    match (a, b) {
        (SocketAddress::V4 { .. }, SocketAddress::V6 { .. }) => false,
        (SocketAddress::V6 { .. }, SocketAddress::V4 { .. }) => true,
        (
            SocketAddress::V4 { address, port },
            SocketAddress::V4 { address: other, port: other_port },
        ) => address > other || address == other && port > other_port,
        (
            SocketAddress::V6 { address, port, .. },
            SocketAddress::V6 { address: other, port: other_port, .. },
        ) => address > other || address == other && port > other_port,
    }
}

/// Routers are listed by rising address; none is left out and none is made up.
pub proof fn law_routers_are_listed_by_address(
    routers: Seq<RouterView>,
    router: RouterView,
    i: int,
    j: int,
)
    requires
        0 <= i < j < routers.len(),
    ensures
        ({
            let listed = discovery::sorted_routers(routers);
            &&& listed.len() == routers.len()
            &&& listed.contains(router) <==> routers.contains(router)
            &&& !comes_after(listed[i].address, listed[j].address)
        }),
{
    broadcast use vstd::seq_lib::group_to_multiset_ensures;

    let keyed = discovery::ranks(routers);
    let sorted = ranking::ranked(keyed);
    ranking::law_ranking_reorders(keyed);
    ranking::lemma_ranked_is_ranked(keyed);
    let listed = discovery::sorted_routers(routers);
    assert forall|k: int| 0 <= k < sorted.len() implies (#[trigger] sorted[k]).0
        == discovery::address_rank(sorted[k].1.address) && routers.contains(sorted[k].1) by {
        assert(sorted.contains(sorted[k]));
        assert(keyed.to_multiset().count(sorted[k]) > 0);
        assert(keyed.contains(sorted[k]));
        let from = keyed.index_of(sorted[k]);
        assert(routers[from] == sorted[k].1);
    }
    if listed.contains(router) {
        let at = listed.index_of(router);
        assert(sorted[at].1 == router);
    }
    if routers.contains(router) {
        let from = routers.index_of(router);
        let entry = (discovery::address_rank(router.address), router);
        assert(keyed[from] == entry);
        assert(keyed.contains(entry));
        assert(sorted.to_multiset().count(entry) > 0);
        assert(sorted.contains(entry));
        assert(listed[sorted.index_of(entry)] == router);
    }
    assert(sorted[i].0 <= sorted[j].0);
    if comes_after(listed[i].address, listed[j].address) {
        lemma_later_addresses_rank_above(listed[i].address, listed[j].address);
    }
}

/// An address that comes after another ranks above it.
proof fn lemma_later_addresses_rank_above(a: SocketAddress, b: SocketAddress)
    requires
        comes_after(a, b),
    ensures
        discovery::address_rank(a) > discovery::address_rank(b),
{
}

// ---------------------------------------------------------------------------
// Frames
// ---------------------------------------------------------------------------

/// A network message is taken as one whatever it holds; otherwise the first octet tells an
/// unconfirmed request, which is 0x10, from anything else.
pub proof fn law_frames_are_told_apart(network_message: bool, payload: Seq<u8>)
    ensures
        network_message ==> FrameKind::of_frame(network_message, payload)
            == FrameKind::NetworkMessage,
        !network_message && payload.len() > 0 && payload[0] == 0x10 ==> FrameKind::of_frame(
            network_message,
            payload,
        ) == FrameKind::Unconfirmed,
        !network_message && (payload.len() == 0 || payload[0] != 0x10) ==> FrameKind::of_frame(
            network_message,
            payload,
        ) == FrameKind::Application,
{
}

/// A frame for one receiver is 0x81, 0x0A, the length of the whole frame in two octets, the
/// network header and the message.
pub proof fn law_unicast_frames_on_the_wire(npdu: Seq<u8>, message: Seq<u8>)
    requires
        npdu.len() + message.len() + 4 <= 0xFFFF,
    ensures
        ({
            let length = npdu.len() + message.len() + 4;
            let frame = apdu::unicast_frame(npdu, message);
            &&& frame.len() == length
            &&& frame == seq![
                0x81u8,
                0x0Au8,
                (length / 256) as u8,
                (length % 256) as u8,
            ] + npdu + message
        }),
{
    let length = npdu.len() + message.len() + 4;
    crate::encoding::laws::law_the_highest_octet_comes_first(length);
    assert(apdu::unicast_frame(npdu, message) =~= seq![
        0x81u8,
        0x0Au8,
        (length / 256) as u8,
        (length % 256) as u8,
    ] + npdu + message);
}

/// A reply goes back the way that what it answers came, expects no reply itself, and says
/// that it comes from the side that asked.
pub proof fn law_replies_go_back_the_way_they_came(
    route: Option<NetworkAddressView>,
    invoke_id: u8,
    sequence_number: u8,
    negative: bool,
    reason: AbortReason,
)
    ensures
        ({
            let reply = apdu::segment_ack(invoke_id, sequence_number, negative, route);
            &&& reply.destination == route
            &&& reply.hop_count == if route is Some { Some(255u8) } else { None }
            &&& !reply.expecting_reply
            &&& reply.apdu == (ApduView::SegmentAck {
                negative,
                server: false,
                invoke_id,
                sequence_number,
                window_size: 1,
            })
        }),
        ({
            let reply = apdu::abort_notice(invoke_id, reason, route);
            &&& reply.destination == route
            &&& reply.hop_count == if route is Some { Some(255u8) } else { None }
            &&& !reply.expecting_reply
            &&& reply.apdu == (ApduView::Abort { server: false, invoke_id, abort_reason: reason })
        }),
{
}

/// What an answer means: an acknowledgement its data, a simple one no data, and a refusal
/// the class and code, the reason to reject or the reason to abort that it names.
pub proof fn law_answers_mean_what_they_say(answer: ApduView, expected: ConfirmedServiceChoice)
    ensures
        answer is ComplexAck ==> error::meaning(answer) == Ok::<Seq<u8>, ClientErrorView>(
            answer->ComplexAck_service_data,
        ),
        answer is SimpleAck ==> error::meaning(answer) == Ok::<Seq<u8>, ClientErrorView>(
            Seq::<u8>::empty(),
        ),
        answer is Error ==> (error::meaning(answer) matches Err(
            ClientErrorView::PropertyError { class, code },
        ) && class.number == answer->Error_error_class && code.number == answer->Error_error_code),
        answer is Reject ==> error::meaning(answer) == Err::<Seq<u8>, ClientErrorView>(
            ClientErrorView::Rejected(answer->Reject_reject_reason),
        ),
        answer is Abort ==> error::meaning(answer) == Err::<Seq<u8>, ClientErrorView>(
            ClientErrorView::Abort(answer->Abort_abort_reason),
        ),
        answer is ComplexAck ==> error::answers(answer, expected) == (
        answer->ComplexAck_service_choice == expected),
        answer is Error ==> error::answers(answer, expected) == (answer->Error_service_choice
            == expected),
        answer is SimpleAck ==> error::answers(answer, expected) == (
        answer->SimpleAck_service_choice == expected.code()),
        answer is Reject || answer is Abort ==> error::answers(answer, expected),
{
}

/// A range of devices has a lower and an upper end, or is none at all.
pub proof fn law_ranges_have_both_ends(low: u32, high: u32, limit: Option<u32>)
    ensures
        discovery::range_between(Some(low), Some(high)) == Some((low, high)),
        discovery::range_between(None, limit) is None,
        discovery::range_between(limit, None) is None,
{
}

/// A notification is read from the request that carries it whole, confirmed or not, and
/// from nothing else.
pub proof fn law_notifications_are_read_whole(apdu: ApduView, octets: Seq<u8>)
    ensures
        incoming::notification_octets(apdu) == Some(octets) <==> {
            ||| apdu is UnconfirmedRequest && apdu->UnconfirmedRequest_service_choice
                == UnconfirmedServiceChoice::UnconfirmedCOVNotification
                && apdu->UnconfirmedRequest_service_data == octets
            ||| apdu is ConfirmedRequest && !apdu->ConfirmedRequest_segmented
                && apdu->ConfirmedRequest_service_choice
                == ConfirmedServiceChoice::ConfirmedCovNotification
                && apdu->ConfirmedRequest_service_data == octets
        },
{
}

// ---------------------------------------------------------------------------
// Peers
// ---------------------------------------------------------------------------

/// A peer is held to the largest size it said it takes, of 50, 128, 206, 480, 1024 and 1476
/// octets, and to the directions in which it said it splits messages. One that said
/// nothing is taken to be able to do everything.
pub proof fn law_peers_are_held_to_what_they_said(capabilities: DeviceCapabilities)
    ensures
        ({
            let limits = target::limits_of(Some(capabilities));
            let size = capabilities.max_apdu;
            &&& size >= 1476 ==> limits.max_apdu == 1476
            &&& 1024 <= size < 1476 ==> limits.max_apdu == 1024
            &&& 480 <= size < 1024 ==> limits.max_apdu == 480
            &&& 206 <= size < 480 ==> limits.max_apdu == 206
            &&& 128 <= size < 206 ==> limits.max_apdu == 128
            &&& size < 128 ==> limits.max_apdu == 50
            &&& capabilities.segmentation is Both ==> limits.sends_segments
                && limits.accepts_segments
            &&& capabilities.segmentation is Transmit ==> limits.sends_segments
                && !limits.accepts_segments
            &&& capabilities.segmentation is Receive ==> !limits.sends_segments
                && limits.accepts_segments
            &&& capabilities.segmentation is NoSegmentation ==> !limits.sends_segments
                && !limits.accepts_segments
        }),
        target::limits_of(None).max_apdu == 1476,
        target::limits_of(None).sends_segments,
        target::limits_of(None).accepts_segments,
{
}

// ---------------------------------------------------------------------------
// The file of known devices
// ---------------------------------------------------------------------------

/// A line is, with a space between each, the device's number, its address, the number of
/// its network or zero, its station address in hexadecimal or zero, the size it takes and
/// a word for how it splits messages.
pub proof fn law_lines_hold_their_fields_in_order(line: LineView)
    ensures
        ({
            let network: nat = match line.route {
                Some(route) => route.network as nat,
                None => 0,
            };
            let station = match line.route {
                Some(route) => address_cache::hex_text(route.address),
                None => seq!['0'],
            };
            address_cache::line_text(line) == text::decimal(line.device_id as nat) + seq![' ']
                + line.address + seq![' '] + text::decimal(network) + seq![' '] + station + seq![
                ' ',
            ] + text::decimal(line.max_apdu as nat) + seq![' '] + address_cache::segmentation_word(
                line.segmentation,
            )
        }),
        address_cache::segmentation_word(Segmentation::Both) == seq!['b', 'o', 't', 'h'],
        address_cache::segmentation_word(Segmentation::Transmit) == seq![
            't',
            'r',
            'a',
            'n',
            's',
            'm',
            'i',
            't',
        ],
        address_cache::segmentation_word(Segmentation::Receive) == seq![
            'r',
            'e',
            'c',
            'e',
            'i',
            'v',
            'e',
        ],
        address_cache::segmentation_word(Segmentation::NoSegmentation) == seq!['n', 'o', 'n', 'e'],
{
    reveal_strlit("0");
    reveal_strlit("both");
    reveal_strlit("transmit");
    reveal_strlit("receive");
    reveal_strlit("none");
    assert("0"@ =~= seq!['0']);
    assert("both"@ =~= seq!['b', 'o', 't', 'h']);
    assert("transmit"@ =~= seq!['t', 'r', 'a', 'n', 's', 'm', 'i', 't']);
    assert("receive"@ =~= seq!['r', 'e', 'c', 'e', 'i', 'v', 'e']);
    assert("none"@ =~= seq!['n', 'o', 'n', 'e']);
    let fields = address_cache::fields_of(line);
    lemma_six_spaced(fields[0], fields[1], fields[2], fields[3], fields[4], fields[5]);
    assert(fields =~= seq![fields[0], fields[1], fields[2], fields[3], fields[4], fields[5]]);
}

/// Six fields with a space between each.
proof fn lemma_six_spaced(
    a: Seq<char>,
    b: Seq<char>,
    c: Seq<char>,
    d: Seq<char>,
    e: Seq<char>,
    f: Seq<char>,
)
    ensures
        address_cache::spaced(seq![a, b, c, d, e, f]) == a + seq![' '] + b + seq![' '] + c + seq![
            ' ',
        ] + d + seq![' '] + e + seq![' '] + f,
{
    let space = seq![' '];
    assert(address_cache::spaced(seq![a]) =~= a);
    assert(seq![a, b].drop_last() =~= seq![a]);
    assert(address_cache::spaced(seq![a, b]) =~= a + space + b);
    assert(seq![a, b, c].drop_last() =~= seq![a, b]);
    assert(address_cache::spaced(seq![a, b, c]) =~= a + space + b + space + c);
    assert(seq![a, b, c, d].drop_last() =~= seq![a, b, c]);
    assert(address_cache::spaced(seq![a, b, c, d]) =~= a + space + b + space + c + space + d);
    assert(seq![a, b, c, d, e].drop_last() =~= seq![a, b, c, d]);
    assert(address_cache::spaced(seq![a, b, c, d, e]) =~= a + space + b + space + c + space + d
        + space + e);
    assert(seq![a, b, c, d, e, f].drop_last() =~= seq![a, b, c, d, e]);
    assert(address_cache::spaced(seq![a, b, c, d, e, f]) =~= a + space + b + space + c + space + d
        + space + e + space + f);
}

/// A line means what its fields say, in their order: device, address, network, station
/// address, size and splitting. A line of fewer than five fields means nothing, and so
/// does a comment, and one with a number that cannot be read.
pub proof fn law_lines_mean_what_their_fields_say(line: Seq<char>)
    ensures
        ({
            let fields = text::words(line);
            &&& fields.len() < 5 ==> address_cache::meaning(line) is None
            &&& fields.len() >= 5 && fields[0][0] == ';' ==> address_cache::meaning(line) is None
            &&& fields.len() >= 5 && fields[0][0] != ';' ==> {
                let device = text::number_in(fields[0], 10, 0xFFFF_FFFF);
                let network = text::number_in(fields[2], 10, 0xFFFF);
                let size = text::number_in(fields[4], 10, 0xFFFF_FFFF);
                let station = address_cache::hex_octets(fields[3]);
                &&& address_cache::meaning(line) is Some <==> device is Some && network is Some
                    && size is Some
                &&& address_cache::meaning(line) matches Some(read) ==> {
                    &&& Some(read.device_id as nat) == device
                    &&& read.address == fields[1]
                    &&& Some(read.max_apdu as nat) == size
                    &&& read.route is Some <==> network->Some_0 != 0 && station is Some
                    &&& read.route is Some ==> read.route->Some_0.network == network->Some_0
                        && Some(read.route->Some_0.address) == station
                    &&& fields.len() == 5 ==> read.segmentation == Segmentation::NoSegmentation
                    &&& fields.len() > 5 ==> read.segmentation == address_cache::segmentation_named(
                        fields[5],
                    )
                }
            }
        }),
{
}

/// The number that digits stand for counts each by ten times the weight of the next, and a
/// number is written with no leading zero.
pub proof fn law_decimals_count_by_tens(n: nat)
    ensures
        n < 10 ==> text::decimal(n) == seq![('0' as nat + n) as char],
        n >= 10 ==> text::decimal(n) == text::decimal(n / 10) + seq![('0' as nat + n % 10) as char],
        text::decimal(n)[0] == '0' ==> n == 0,
    decreases n,
{
    if n >= 10 {
        law_decimals_count_by_tens(n / 10);
        assert(text::decimal(n) =~= text::decimal(n / 10) + seq![('0' as nat + n % 10) as char]);
        text::law_decimal_is_read_back(n / 10, n / 10);
        assert(text::decimal(n / 10).len() > 0);
        assert(text::decimal(n)[0] == text::decimal(n / 10)[0]);
    }
}

/// A word that is none of those for a direction stands for no splitting at all.
pub proof fn law_unknown_words_promise_nothing(word: Seq<char>)
    requires
        word != seq!['b', 'o', 't', 'h'],
        word != seq!['t', 'r', 'a', 'n', 's', 'm', 'i', 't'],
        word != seq!['r', 'e', 'c', 'e', 'i', 'v', 'e'],
    ensures
        address_cache::segmentation_named(word) == Segmentation::NoSegmentation,
{
    reveal_strlit("both");
    reveal_strlit("transmit");
    reveal_strlit("receive");
    assert("both"@ =~= seq!['b', 'o', 't', 'h']);
    assert("transmit"@ =~= seq!['t', 'r', 'a', 'n', 's', 'm', 'i', 't']);
    assert("receive"@ =~= seq!['r', 'e', 'c', 'e', 'i', 'v', 'e']);
}

} // verus!
