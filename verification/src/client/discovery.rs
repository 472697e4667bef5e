//! What discoveries collect.

use crate::address::SocketAddress;
use crate::object::identifier::{ObjectIdentifier, PropertyIdentifier};
use crate::property::value::PropertyValue;
use crate::ranking;
use crate::ranking::rank;
use vstd::prelude::*;

verus! {

/// A router and the networks it says it reaches.
#[derive(Debug, Clone, PartialEq, Eq)]
pub struct DiscoveredRouter {
    /// Where it is reached.
    pub address: SocketAddress,
    /// The networks behind it.
    pub networks: Vec<u16>,
}

/// A [`DiscoveredRouter`] with its networks as a sequence.
#[verifier::ext_equal]
pub struct RouterView {
    pub address: SocketAddress,
    pub networks: Seq<u16>,
}

impl View for DiscoveredRouter {
    type V = RouterView;

    open spec fn view(&self) -> RouterView {
        RouterView { address: self.address, networks: self.networks@ }
    }
}

/// What routers say.
pub open spec fn routers_view(routers: Seq<DiscoveredRouter>) -> Seq<RouterView> {
    routers.map_values(|router: DiscoveredRouter| router@)
}

/// Networks, with those added that are not among them.
pub open spec fn united(networks: Seq<u16>, more: Seq<u16>) -> Seq<u16>
    decreases more.len(),
{
    if more.len() == 0 {
        networks
    } else {
        let before = united(networks, more.drop_last());
        if before.contains(more.last()) {
            before
        } else {
            before.push(more.last())
        }
    }
}

/// Networks by rising number.
pub open spec fn sorted_networks(networks: Seq<u16>) -> Seq<u16> {
    ranking::unkeyed(
        ranking::ranked(networks.map_values(|network: u16| (network as int, network))),
    )
}

/// Whether the router at a place is the first with an address.
pub open spec fn is_first_at(routers: Seq<RouterView>, place: int, address: SocketAddress) -> bool {
    &&& 0 <= place < routers.len()
    &&& routers[place].address == address
    &&& forall|i: int| 0 <= i < place ==> (#[trigger] routers[i]).address != address
}

/// Routers with one response more: a router that answered before is said to reach the
/// networks of both answers.
pub open spec fn merged(routers: Seq<RouterView>, response: RouterView) -> Seq<RouterView> {
    if exists|place: int| is_first_at(routers, place, response.address) {
        let place = choose|place: int| is_first_at(routers, place, response.address);
        routers.update(
            place,
            RouterView {
                networks: sorted_networks(united(routers[place].networks, response.networks)),
                ..routers[place]
            },
        )
    } else {
        routers.push(response)
    }
}

/// A number that orders addresses: four octets before sixteen, then by address, then
/// by port, flow and scope.
pub open spec fn address_rank(address: SocketAddress) -> int {
    match address {
        SocketAddress::V4 { address, port } => address * 0x1_0000 + port,
        SocketAddress::V6 { address, port, flow_info, scope } => 0x1_0000_0000_0000 + ((address
            * 0x1_0000 + port) * 0x1_0000_0000 + flow_info) * 0x1_0000_0000 + scope,
    }
}

/// Routers with their ranks.
pub open spec fn ranks(routers: Seq<RouterView>) -> Seq<(int, RouterView)> {
    routers.map_values(|router: RouterView| (address_rank(router.address), router))
}

/// Routers by rising address.
pub open spec fn sorted_routers(routers: Seq<RouterView>) -> Seq<RouterView> {
    ranking::unkeyed(ranking::ranked(ranks(routers)))
}

/// Two addresses rank alike only if they are one.
pub proof fn law_ranks_tell_addresses_apart(a: SocketAddress, b: SocketAddress)
    ensures
        (address_rank(a) == address_rank(b)) == (a == b),
{
}

/// A router that answers again stays one router.
pub proof fn law_routers_answer_as_one(routers: Seq<RouterView>, response: RouterView)
    requires
        exists|i: int|
            0 <= i < routers.len() && (#[trigger] routers[i]).address == response.address,
    ensures
        merged(routers, response).len() == routers.len(),
        forall|i: int|
            0 <= i < routers.len() ==> (#[trigger] merged(routers, response)[i]).address
                == routers[i].address,
{
    let i = choose|i: int|
        0 <= i < routers.len() && (#[trigger] routers[i]).address == response.address;
    lemma_first_exists(routers, i, response.address);
    let place = choose|place: int| is_first_at(routers, place, response.address);
    assert(is_first_at(routers, place, response.address));
}

proof fn lemma_first_exists(routers: Seq<RouterView>, i: int, address: SocketAddress)
    requires
        0 <= i < routers.len(),
        routers[i].address == address,
    ensures
        exists|place: int| is_first_at(routers, place, address),
    decreases i,
{
    if exists|j: int| 0 <= j < i && (#[trigger] routers[j]).address == address {
        let j = choose|j: int| 0 <= j < i && (#[trigger] routers[j]).address == address;
        lemma_first_exists(routers, j, address);
    } else {
        assert(is_first_at(routers, i, address));
    }
}

proof fn lemma_first_is(routers: Seq<RouterView>, place: int, address: SocketAddress)
    requires
        is_first_at(routers, place, address),
    ensures
        (choose|place: int| is_first_at(routers, place, address)) == place,
{
    let chosen = choose|place: int| is_first_at(routers, place, address);
    assert(is_first_at(routers, chosen, address));
    if chosen < place {
        assert(routers[chosen].address != address);
    }
    if place < chosen {
        assert(routers[place].address != address);
    }
}

/// Note a router's response among those that came before.
pub fn merge_router(routers: &mut Vec<DiscoveredRouter>, response: DiscoveredRouter)
    ensures
        routers_view(final(routers)@) == merged(routers_view(old(routers)@), response@),
{
    let ghost before = routers_view(routers@);
    let mut i: usize = 0;
    while i < routers.len()
        invariant
            i <= routers.len(),
            before == routers_view(routers@),
            *routers == *old(routers),
            forall|j: int| 0 <= j < i ==> (#[trigger] before[j]).address != response.address,
        decreases routers.len() - i,
    {
        proof {
            assert(before[i as int] == routers@[i as int]@);
        }
        if routers[i].address == response.address {
            proof {
                assert(is_first_at(before, i as int, response.address));
                lemma_first_is(before, i as int, response.address);
            }
            let networks = sort_networks(&unite(&routers[i].networks, &response.networks));
            let merged_router = DiscoveredRouter { address: response.address, networks };
            routers[i] = merged_router;
            proof {
                assert(routers_view(routers@) =~= merged(before, response@));
            }
            return;
        }
        i += 1;
    }
    routers.push(response);
    proof {
        assert(forall|place: int| !is_first_at(before, place, response.address));
        assert(routers_view(routers@) =~= before.push(response@));
    }
}

fn contains_network(networks: &Vec<u16>, network: u16) -> (found: bool)
    ensures
        found == networks@.contains(network),
{
    let mut i: usize = 0;
    while i < networks.len()
        invariant
            i <= networks.len(),
            forall|j: int| 0 <= j < i ==> networks@[j] != network,
        decreases networks.len() - i,
    {
        if networks[i] == network {
            assert(networks@[i as int] == network);
            return true;
        }
        i += 1;
    }
    false
}

fn unite(networks: &Vec<u16>, more: &Vec<u16>) -> (all: Vec<u16>)
    ensures
        all@ == united(networks@, more@),
{
    let mut all = networks.clone();
    let mut i: usize = 0;
    proof {
        assert(more@.take(0) =~= Seq::<u16>::empty());
    }
    while i < more.len()
        invariant
            i <= more.len(),
            all@ == united(networks@, more@.take(i as int)),
        decreases more.len() - i,
    {
        proof {
            let longer = more@.take(i + 1);
            assert(longer.drop_last() =~= more@.take(i as int));
            assert(longer.last() == more@[i as int]);
        }
        if !contains_network(&all, more[i]) {
            all.push(more[i]);
        }
        i += 1;
    }
    proof {
        assert(more@.take(more@.len() as int) =~= more@);
    }
    all
}

fn sort_networks(networks: &Vec<u16>) -> (sorted: Vec<u16>)
    ensures
        sorted@ == sorted_networks(networks@),
{
    let mut keyed: Vec<(u64, u16)> = Vec::new();
    let mut i: usize = 0;
    while i < networks.len()
        invariant
            i <= networks.len(),
            keyed@.len() == i,
            forall|j: int|
                0 <= j < i ==> (#[trigger] keyed@[j]) == (networks@[j] as u64, networks@[j]),
        decreases networks.len() - i,
    {
        keyed.push((networks[i] as u64, networks[i]));
        i += 1;
    }
    proof {
        assert(ranking::keyed(keyed@) =~= networks@.map_values(
            |network: u16| (network as int, network),
        ));
    }
    rank(&keyed)
}

/// Whether an address ranks above another.
fn ranks_above(a: SocketAddress, b: SocketAddress) -> (above: bool)
    ensures
        above == (address_rank(a) > address_rank(b)),
{
    match (a, b) {
        (
            SocketAddress::V4 { address: a_address, port: a_port },
            SocketAddress::V4 { address: b_address, port: b_port },
        ) => a_address > b_address || (a_address == b_address && a_port > b_port),
        (SocketAddress::V4 { .. }, SocketAddress::V6 { .. }) => false,
        (SocketAddress::V6 { .. }, SocketAddress::V4 { .. }) => true,
        (
            SocketAddress::V6 {
                address: a_address,
                port: a_port,
                flow_info: a_flow,
                scope: a_scope,
            },
            SocketAddress::V6 {
                address: b_address,
                port: b_port,
                flow_info: b_flow,
                scope: b_scope,
            },
        ) => a_address > b_address || (a_address == b_address && (a_port > b_port || (a_port
            == b_port && (a_flow > b_flow || (a_flow == b_flow && a_scope > b_scope))))),
    }
}

/// Put routers in the order of their addresses.
pub fn sort_routers(routers: Vec<DiscoveredRouter>) -> (sorted: Vec<DiscoveredRouter>)
    ensures
        routers_view(sorted@) == sorted_routers(routers_view(routers@)),
{
    let ghost all = routers_view(routers@);
    let mut rest = routers;
    let mut sorted: Vec<DiscoveredRouter> = Vec::new();
    let ghost mut taken: int = 0;
    proof {
        assert(all.skip(0) =~= all);
        assert(ranks(all.take(0)) =~= Seq::<(int, RouterView)>::empty());
        assert(ranks(routers_view(sorted@)) =~= Seq::<(int, RouterView)>::empty());
    }
    while rest.len() > 0
        invariant
            0 <= taken <= all.len(),
            routers_view(rest@) == all.skip(taken),
            ranks(routers_view(sorted@)) == ranking::ranked(ranks(all.take(taken))),
        decreases rest.len(),
    {
        let ghost waiting = rest@;
        let item = rest.remove(0);
        let ghost shown = item@;
        let ghost before = ranks(routers_view(sorted@));
        let ghost placed = sorted@;
        let mut at: usize = sorted.len();
        proof {
            assert(routers_view(waiting).len() == waiting.len());
            assert(all.skip(taken).len() == all.len() - taken);
            assert(routers_view(waiting)[0] == shown);
            assert(all.skip(taken)[0] == all[taken]);
            assert forall|k: int| 0 <= k < rest@.len() implies (#[trigger] routers_view(rest@)[k])
                == all.skip(taken + 1)[k] by {
                assert(routers_view(waiting)[k + 1] == all.skip(taken)[k + 1]);
                assert(rest@[k] == waiting[k + 1]);
            }
            assert(routers_view(rest@) =~= all.skip(taken + 1));
        }
        while at > 0 && ranks_above(sorted[at - 1].address, item.address)
            invariant
                at <= sorted.len(),
                sorted@ == placed,
                before == ranks(routers_view(placed)),
                shown == item@,
                forall|j: int|
                    at <= j < sorted@.len() ==> (#[trigger] before[j]).0 > address_rank(
                        shown.address,
                    ),
            decreases at,
        {
            proof {
                assert(before[at - 1].0 == address_rank(sorted@[at - 1].address));
            }
            at -= 1;
        }
        proof {
            ranking::lemma_ranked_is_ranked(ranks(all.take(taken)));
            if at > 0 {
                assert(before[at - 1].0 == address_rank(sorted@[at - 1].address));
                assert forall|j: int| 0 <= j < at implies (#[trigger] before[j]).0 <= address_rank(
                    shown.address,
                ) by {
                    assert(before[j].0 <= before[at - 1].0);
                }
            }
            ranking::lemma_inserted_at(before, (address_rank(shown.address), shown), at as int);
        }
        sorted.insert(at, item);
        proof {
            assert(ranks(routers_view(sorted@)) =~= before.insert(
                at as int,
                (address_rank(shown.address), shown),
            ));
            let longer = ranks(all.take(taken + 1));
            assert(longer.drop_last() =~= ranks(all.take(taken)));
            assert(longer.last() == (address_rank(shown.address), shown));
            taken = taken + 1;
        }
    }
    proof {
        assert(routers_view(rest@).len() == 0);
        assert(all.take(all.len() as int) =~= all);
        assert(ranking::unkeyed(ranks(routers_view(sorted@))) =~= routers_view(sorted@));
    }
    sorted
}

/// The devices a discovery has heard of.
pub struct Sightings {
    seen: Vec<u32>,
}

impl View for Sightings {
    type V = Seq<u32>;

    closed spec fn view(&self) -> Seq<u32> {
        self.seen@
    }
}

impl Sightings {
    /// None yet.
    pub fn new() -> (sightings: Sightings)
        ensures
            sightings@ == Seq::<u32>::empty(),
    {
        Sightings { seen: Vec::new() }
    }

    /// Note a device, telling whether it is heard of for the first time.
    pub fn note(&mut self, device_id: u32) -> (first: bool)
        ensures
            first == !old(self)@.contains(device_id),
            final(self)@ == if first {
                old(self)@.push(device_id)
            } else {
                old(self)@
            },
    {
        let mut i: usize = 0;
        while i < self.seen.len()
            invariant
                i <= self.seen.len(),
                *self == *old(self),
                forall|j: int| 0 <= j < i ==> self.seen@[j] != device_id,
            decreases self.seen.len() - i,
        {
            if self.seen[i] == device_id {
                assert(self.seen@[i as int] == device_id);
                return false;
            }
            i += 1;
        }
        self.seen.push(device_id);
        true
    }
}

/// The range that two limits make.
pub open spec fn range_between(low_limit: Option<u32>, high_limit: Option<u32>) -> Option<
    (u32, u32),
> {
    match (low_limit, high_limit) {
        (Some(low), Some(high)) => Some((low, high)),
        _ => None,
    }
}

/// The range a Who-Is names: one with both ends, or none.
pub fn who_is_range(low_limit: Option<u32>, high_limit: Option<u32>) -> (range: Option<(u32, u32)>)
    ensures
        range == match (low_limit, high_limit) {
            (Some(low), Some(high)) => Some((low, high)),
            _ => None::<(u32, u32)>,
        },
        range == range_between(low_limit, high_limit),
{
    match (low_limit, high_limit) {
        (Some(low), Some(high)) => Some((low, high)),
        _ => None,
    }
}

/// What a ReadProperty asks for, or answers.
#[derive(Debug, Clone, Copy, PartialEq, Eq)]
pub struct PropertyAt {
    /// The object.
    pub object: ObjectIdentifier,
    /// Its property.
    pub property: PropertyIdentifier,
    /// One element of it, where it is an array.
    pub array_index: Option<u32>,
}

impl PropertyAt {
    /// Whether an answer is about what was asked for.
    pub fn is_answered_by(&self, answer: &PropertyAt) -> (answered: bool)
        ensures
            answered == (*self == *answer),
    {
        let index = match (self.array_index, answer.array_index) {
            (Some(asked), Some(answered)) => asked == answered,
            (None, None) => true,
            _ => false,
        };
        self.object == answer.object && self.property == answer.property && index
    }
}

/// Take a device's Object_List as identifiers. Where an entry is something else, the
/// first such place is told instead.
pub fn object_list(values: &Vec<PropertyValue>) -> (result: Result<Vec<ObjectIdentifier>, usize>)
    ensures
        match result {
            Ok(identifiers) => {
                &&& identifiers@.len() == values@.len()
                &&& forall|i: int|
                    0 <= i < values@.len() ==> #[trigger] values@[i]
                        == PropertyValue::ObjectIdentifier(identifiers@[i])
            },
            Err(place) => {
                &&& place < values@.len()
                &&& values@[place as int] !is ObjectIdentifier
                &&& forall|i: int| 0 <= i < place ==> (#[trigger] values@[i]) is ObjectIdentifier
            },
        },
{
    let mut identifiers: Vec<ObjectIdentifier> = Vec::new();
    let mut i: usize = 0;
    while i < values.len()
        invariant
            i <= values.len(),
            identifiers@.len() == i,
            forall|j: int|
                0 <= j < i ==> #[trigger] values@[j] == PropertyValue::ObjectIdentifier(
                    identifiers@[j],
                ),
        decreases values.len() - i,
    {
        match &values[i] {
            PropertyValue::ObjectIdentifier(identifier) => {
                identifiers.push(*identifier);
            },
            _ => {
                return Err(i);
            },
        }
        i += 1;
    }
    Ok(identifiers)
}

} // verus!
