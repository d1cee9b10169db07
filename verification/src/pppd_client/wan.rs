//! What follows from a change of the address that a connection has been given.

use crate::net::Ipv4Addr;
use std::collections::HashSet;
use vstd::prelude::*;

verus! {

broadcast use vstd::std_specs::hash::group_hash_axioms;

/// The weight of a route through a connection.
pub const ROUTE_WEIGHT: u32 = 1;

/// What a route leads through.
#[derive(Clone, Copy, Debug, PartialEq, Eq, Structural)]
pub enum RouteType {
    PPP,
}

/// A default route.
#[derive(Debug, PartialEq, Eq)]
pub struct RouteInfo {
    pub iface_name: String,
    pub weight: u32,
    pub route: RouteType,
}

/// The addresses of an interface.
#[derive(Debug)]
pub struct WanAddress {
    pub ifindex: u32,
    pub addresses: HashSet<Ipv4Addr>,
}

impl View for WanAddress {
    type V = (u32, Set<Ipv4Addr>);

    open spec fn view(&self) -> (u32, Set<Ipv4Addr>) {
        (self.ifindex, self.addresses@)
    }
}

/// What is done about a new address.
#[derive(Debug, PartialEq, Eq)]
pub enum WanAction {
    /// Tell the packet filter about an address of the outside interface.
    AddWanIp { ifindex: u32, ip: Ipv4Addr },
    /// Make the connection a default route.
    AddRoute(RouteInfo),
    /// Take the route through the interface away.
    DelRoute { iface_name: String },
}

/// What is done about a new address, the names by their characters.
pub enum WanActionModel {
    AddWanIp { ifindex: u32, ip: Ipv4Addr },
    AddRoute { iface_name: Seq<char>, weight: u32, route: RouteType },
    DelRoute { iface_name: Seq<char> },
}

impl View for WanAction {
    type V = WanActionModel;

    open spec fn view(&self) -> WanActionModel {
        match self {
            WanAction::AddWanIp { ifindex, ip } => WanActionModel::AddWanIp {
                ifindex: *ifindex,
                ip: *ip,
            },
            WanAction::AddRoute(info) => WanActionModel::AddRoute {
                iface_name: info.iface_name@,
                weight: info.weight,
                route: info.route,
            },
            WanAction::DelRoute { iface_name } => WanActionModel::DelRoute {
                iface_name: iface_name@,
            },
        }
    }
}

/// What each of a list of actions does.
pub open spec fn action_models(actions: Seq<WanAction>) -> Seq<WanActionModel> {
    actions.map_values(|action: WanAction| action@)
}

/// What is done about the route for each new address.
pub open spec fn route_action(iface_name: Seq<char>, as_router: bool) -> WanActionModel {
    if as_router {
        WanActionModel::AddRoute { iface_name, weight: ROUTE_WEIGHT, route: RouteType::PPP }
    } else {
        WanActionModel::DelRoute { iface_name }
    }
}

/// What is done about new addresses, in the order in which they are taken up.
pub open spec fn update_actions(
    ifindex: u32,
    order: Seq<Ipv4Addr>,
    iface_name: Seq<char>,
    as_router: bool,
) -> Seq<WanActionModel>
    decreases order.len(),
{
    if order.len() == 0 {
        seq![]
    } else {
        update_actions(ifindex, order.drop_last(), iface_name, as_router) + seq![
            WanActionModel::AddWanIp { ifindex, ip: order.last() },
            route_action(iface_name, as_router),
        ]
    }
}

/// The addresses are taken up one by one, each of them once, in an order that is left open.
pub open spec fn is_order_of(order: Seq<Ipv4Addr>, addresses: Set<Ipv4Addr>) -> bool {
    &&& order.no_duplicates()
    &&& order.to_set() == addresses
}

/// The watch over the address of a connection.
#[derive(Debug)]
pub struct WanWatch {
    iface_name: String,
    as_router: bool,
    ip4addr: Option<WanAddress>,
}

impl WanWatch {
    /// The name of the interface.
    pub closed spec fn iface(self) -> Seq<char> {
        self.iface_name@
    }

    /// The connection is the default route.
    pub closed spec fn routes(self) -> bool {
        self.as_router
    }

    /// The addresses that were seen last.
    pub closed spec fn last(self) -> Option<(u32, Set<Ipv4Addr>)> {
        match self.ip4addr {
            Some(address) => Some(address@),
            None => None,
        }
    }

    /// A watch that has seen no address yet.
    pub fn new(iface_name: String, as_router: bool) -> (watch: WanWatch)
        ensures
            watch.iface() == iface_name@,
            watch.routes() == as_router,
            watch.last() is None,
    {
        WanWatch { iface_name, as_router, ip4addr: None }
    }

    /// Sees the addresses that the interface has, if it has any, and tells what is to be done. An
    /// interface without an address, and one whose addresses have not changed, are left alone.
    pub fn on_address(&mut self, new_ip4addr: Option<WanAddress>) -> (actions: Vec<WanAction>)
        ensures
            final(self).iface() == old(self).iface(),
            final(self).routes() == old(self).routes(),
            match new_ip4addr {
                None => final(self).last() == old(self).last() && actions@.len() == 0,
                Some(address) => {
                    &&& final(self).last() == Some(address@)
                    &&& old(self).last() == Some(address@) ==> actions@.len() == 0
                    &&& old(self).last() != Some(address@) ==> exists|order: Seq<Ipv4Addr>|
                        #![trigger is_order_of(order, address.addresses@)]
                        is_order_of(order, address.addresses@) && action_models(actions@)
                            == update_actions(
                            address.ifindex,
                            order,
                            old(self).iface(),
                            old(self).routes(),
                        )
                },
            },
    {
        match new_ip4addr {
            None => Vec::new(),
            Some(address) => {
                let update: bool = match &self.ip4addr {
                    Some(data) => !same_address(data, &address),
                    None => true,
                };
                let actions: Vec<WanAction> = if update {
                    self.take_up(&address)
                } else {
                    Vec::new()
                };
                self.ip4addr = Some(address);
                actions
            },
        }
    }

    /// What is done about new addresses.
    fn take_up(&self, address: &WanAddress) -> (actions: Vec<WanAction>)
        ensures
            exists|order: Seq<Ipv4Addr>|
                #![trigger is_order_of(order, address.addresses@)]
                is_order_of(order, address.addresses@) && action_models(actions@)
                    == update_actions(address.ifindex, order, self.iface(), self.routes()),
    {
        let mut actions: Vec<WanAction> = Vec::new();
        let ghost mut order: Seq<Ipv4Addr> = Seq::empty();
        assert(action_models(actions@) =~= update_actions(
            address.ifindex,
            order,
            self.iface(),
            self.routes(),
        ));
        assert forall|none: Seq<Ipv4Addr>| #![trigger none.to_set()] none.len() == 0 implies none
            == order by {
            assert(none =~= order);
        }
        for ip in ips: address.addresses.iter()
            invariant
                order == ips.seq().unref().take(ips.index() as int),
                ips.seq().unref().to_set() == address.addresses@,
                ips.seq().no_duplicates(),
                ips.index() == ips.seq().len() ==> is_order_of(order, address.addresses@),
                action_models(actions@) == update_actions(
                    address.ifindex,
                    order,
                    self.iface(),
                    self.routes(),
                ),
        {
            let ghost before = action_models(actions@);
            let ghost seen = order;
            actions.push(WanAction::AddWanIp { ifindex: address.ifindex, ip: *ip });
            if self.as_router {
                actions.push(
                    WanAction::AddRoute(
                        RouteInfo {
                            iface_name: self.iface_name.clone(),
                            weight: ROUTE_WEIGHT,
                            route: RouteType::PPP,
                        },
                    ),
                );
            } else {
                actions.push(WanAction::DelRoute { iface_name: self.iface_name.clone() });
            }
            proof {
                order = seen.push(*ip);
                assert(order.drop_last() =~= seen);
                assert(action_models(actions@) =~= before + seq![
                    WanActionModel::AddWanIp { ifindex: address.ifindex, ip: *ip },
                    route_action(self.iface(), self.routes()),
                ]);
                assert(order =~= ips.seq().unref().take(ips.index() + 1));
                assert(ips.index() + 1 == ips.seq().len() ==> order =~= ips.seq().unref());
                assert forall|i: int, j: int| 0 <= i < j < order.len() implies order[i]
                    != order[j] by {
                    assert(*ips.seq()[i] == order[i] && *ips.seq()[j] == order[j]);
                }
            }
        }
        assert(is_order_of(order, address.addresses@));
        actions
    }
}

/// Whether two interfaces are the same and have the same addresses.
fn same_address(one: &WanAddress, other: &WanAddress) -> (same: bool)
    ensures
        same == (one@ == other@),
{
    if one.ifindex != other.ifindex {
        return false;
    }
    let same: bool = is_subset(&one.addresses, &other.addresses) && is_subset(
        &other.addresses,
        &one.addresses,
    );
    assert(same ==> one.addresses@ =~= other.addresses@);
    same
}

/// Whether each of `part` is one of `whole`.
fn is_subset(part: &HashSet<Ipv4Addr>, whole: &HashSet<Ipv4Addr>) -> (subset: bool)
    ensures
        subset == part@.subset_of(whole@),
{
    for ip in ips: part.iter()
        invariant
            ips.seq().unref().to_set() == part@,
            forall|i: int| 0 <= i < ips.index() ==> whole@.contains(*#[trigger] ips.seq()[i]),
    {
        if !whole.contains(ip) {
            assert(ips.seq().unref()[ips.index() as int] == *ip);
            assert(part@.contains(*ip));
            return false;
        }
    }
    true
}

/// Each address is told to the packet filter, in the order in which they are taken up, and directly
/// behind each of them comes what is done about the route, whatever the interface is called: where
/// the connection is the default route, a route of its kind with the weight 1 is added through the
/// interface, and else the route through the interface is taken away. Nothing else is done.
pub proof fn law_each_address_comes_with_its_route(
    ifindex: u32,
    order: Seq<Ipv4Addr>,
    iface_name: Seq<char>,
    as_router: bool,
    actions: Seq<WanAction>,
)
    requires
        action_models(actions) == update_actions(ifindex, order, iface_name, as_router),
    ensures
        actions.len() == 2 * order.len(),
        as_router ==> forall|i: int|
            0 <= i < order.len() ==> {
                &&& actions[2 * i + 1] matches WanAction::AddRoute(info)
                &&& info.iface_name@ == iface_name
                &&& info.weight == 1
                &&& info.route == RouteType::PPP
                &&& actions[2 * i] == (WanAction::AddWanIp { ifindex, ip: #[trigger] order[i] })
            },
        !as_router ==> forall|i: int|
            0 <= i < order.len() ==> {
                &&& actions[2 * i + 1] matches WanAction::DelRoute { iface_name: gone }
                &&& gone@ == iface_name
                &&& actions[2 * i] == (WanAction::AddWanIp { ifindex, ip: #[trigger] order[i] })
            },
{
    law_actions_come_in_pairs(ifindex, order, iface_name, as_router);
    let models = action_models(actions);
    assert forall|i: int| 0 <= i < order.len() implies (#[trigger] order[i]) == order[i]
        && actions[2 * i]@ == (WanActionModel::AddWanIp { ifindex, ip: order[i] }) && actions[2 * i
        + 1]@ == route_action(iface_name, as_router) by {
        assert(models[2 * i] == actions[2 * i]@);
        assert(models[2 * i + 1] == actions[2 * i + 1]@);
    }
}

/// For each address there are two actions, the second of which is to add a route through the
/// interface where the connection is the default route, and to take it away else.
pub proof fn law_actions_come_in_pairs(
    ifindex: u32,
    order: Seq<Ipv4Addr>,
    iface_name: Seq<char>,
    as_router: bool,
)
    ensures
        update_actions(ifindex, order, iface_name, as_router).len() == 2 * order.len(),
        forall|i: int|
            0 <= i < order.len() ==> {
                &&& update_actions(ifindex, order, iface_name, as_router)[2 * i] == (
                WanActionModel::AddWanIp { ifindex, ip: #[trigger] order[i] })
                &&& update_actions(ifindex, order, iface_name, as_router)[2 * i + 1]
                    == if as_router {
                    WanActionModel::AddRoute { iface_name, weight: 1, route: RouteType::PPP }
                } else {
                    WanActionModel::DelRoute { iface_name }
                }
            },
    decreases order.len(),
{
    if order.len() > 0 {
        law_actions_come_in_pairs(ifindex, order.drop_last(), iface_name, as_router);
        let shorter = update_actions(ifindex, order.drop_last(), iface_name, as_router);
        let actions = update_actions(ifindex, order, iface_name, as_router);
        assert forall|i: int| 0 <= i < order.len() implies actions[2 * i] == (
        WanActionModel::AddWanIp { ifindex, ip: #[trigger] order[i] }) && actions[2 * i + 1]
            == route_action(iface_name, as_router) by {
            if i < order.len() - 1 {
                assert(order.drop_last()[i] == order[i]);
                assert(actions[2 * i] == shorter[2 * i]);
                assert(actions[2 * i + 1] == shorter[2 * i + 1]);
            }
        }
    }
}

/// Each address of the interface is taken up exactly once, and nothing else is.
pub proof fn law_addresses_are_taken_up_once(
    order: Seq<Ipv4Addr>,
    addresses: Set<Ipv4Addr>,
    ip: Ipv4Addr,
)
    requires
        is_order_of(order, addresses),
    ensures
        addresses.contains(ip) <==> exists|i: int|
            0 <= i < order.len() && #[trigger] order[i] == ip,
        forall|i: int, j: int|
            0 <= i < j < order.len() ==> #[trigger] order[i] != #[trigger] order[j],
{
    assert(order.to_set().contains(ip) <==> order.contains(ip));
}

/// An interface that has other addresses than before, or another number, has each of its addresses
/// told to the packet filter once, and directly behind each comes what is done about the route:
/// where the connection is the default route, one of its kind with the weight 1 is added through
/// the interface, and else the one through the interface is taken away. Nothing else is done.
pub proof fn law_changed_addresses_are_taken_up(
    watch: &mut WanWatch,
    address: WanAddress,
    actions: Vec<WanAction>,
)
    requires
        call_ensures(WanWatch::on_address, (watch, Some(address)), actions),
        old(watch).last() != Some((address.ifindex, address.addresses@)),
    ensures
        exists|order: Seq<Ipv4Addr>|
            {
                &&& #[trigger] order.no_duplicates()
                &&& forall|ip: Ipv4Addr| #[trigger]
                    order.contains(ip) <==> address.addresses@.contains(ip)
                &&& actions@.len() == 2 * order.len()
                &&& forall|i: int|
                    0 <= i < order.len() ==> actions@[2 * i] == (WanAction::AddWanIp {
                        ifindex: address.ifindex,
                        ip: #[trigger] order[i],
                    }) && match actions@[2 * i + 1] {
                        WanAction::AddRoute(info) => {
                            &&& old(watch).routes()
                            &&& info.iface_name@ == old(watch).iface()
                            &&& info.weight == 1
                            &&& info.route == RouteType::PPP
                        },
                        WanAction::DelRoute { iface_name } => !old(watch).routes() && iface_name@
                            == old(watch).iface(),
                        WanAction::AddWanIp { .. } => false,
                    }
            },
{
    let order = choose|order: Seq<Ipv4Addr>|
        #![trigger is_order_of(order, address.addresses@)]
        is_order_of(order, address.addresses@) && action_models(actions@) == update_actions(
            address.ifindex,
            order,
            old(watch).iface(),
            old(watch).routes(),
        );
    law_each_address_comes_with_its_route(
        address.ifindex,
        order,
        old(watch).iface(),
        old(watch).routes(),
        actions@,
    );
    assert(order.no_duplicates());
    assert forall|ip: Ipv4Addr| #[trigger]
        order.contains(ip) <==> address.addresses@.contains(ip) by {
        assert(order.to_set().contains(ip) <==> order.contains(ip));
    }
}

/// Nothing is done about an interface without an address, and nothing twice about the same
/// addresses: an interface that is seen again with the number and the addresses that it was seen
/// with last is left alone, even if it was seen without an address in between.
pub proof fn law_same_addresses_are_left_alone(
    first: &mut WanWatch,
    address: WanAddress,
    actions: Vec<WanAction>,
    second: &mut WanWatch,
    nothing: Vec<WanAction>,
    third: &mut WanWatch,
    again: WanAddress,
    repeated: Vec<WanAction>,
)
    requires
        call_ensures(WanWatch::on_address, (first, Some(address)), actions),
        *old(second) == *final(first),
        call_ensures(WanWatch::on_address, (second, None), nothing),
        *old(third) == *final(second),
        call_ensures(WanWatch::on_address, (third, Some(again)), repeated),
        again.ifindex == address.ifindex,
        forall|ip: Ipv4Addr| #[trigger]
            again.addresses@.contains(ip) <==> address.addresses@.contains(ip),
    ensures
        nothing@.len() == 0,
        repeated@.len() == 0,
        final(third).iface() == old(first).iface(),
        final(third).routes() == old(first).routes(),
        final(third).last() == final(first).last(),
{
    assert(again.addresses@ =~= address.addresses@);
}

/// A watch is over the interface that it was given, and does something about the first addresses
/// that it sees, whatever they are.
pub proof fn law_watch_starts_unaware(iface_name: String, as_router: bool, watch: WanWatch)
    requires
        call_ensures(WanWatch::new, (iface_name, as_router), watch),
    ensures
        watch.iface() == iface_name@,
        watch.routes() == as_router,
        forall|address: WanAddress|
            #![trigger address.addresses@]
            watch.last() != Some((address.ifindex, address.addresses@)),
{
}

/// What counts of an interface is its number and its addresses.
pub proof fn law_interface_is_its_number_and_addresses(one: WanAddress, other: WanAddress)
    ensures
        one@ == other@ <==> one.ifindex == other.ifindex && forall|ip: Ipv4Addr| #[trigger]
            one.addresses@.contains(ip) <==> other.addresses@.contains(ip),
{
    if forall|ip: Ipv4Addr| #[trigger]
        one.addresses@.contains(ip) <==> other.addresses@.contains(ip) {
        assert(one.addresses@ =~= other.addresses@);
    }
}

} // verus!
