//! What the server promises over several messages.

use crate::dhcp_server::frame::{DhcpEthFrame, DhcpOptionMessageType, FrameModel, OptionModel};
use crate::dhcp_server::service::{
    DhcpReply, DhcpServerIpv4Config, ReplyModel, ServiceCourse, ServiceEvent, ServiceStage,
    ServiceStatus, ServiceStep,
};
use crate::dhcp_server::status::{Lease, ServerModel, RENT_NANOS};
use crate::net::MacAddr;
use vstd::prelude::*;

verus! {

/// No two clients hold the same address, as long as the host range is no larger than the network.
pub proof fn law_addresses_are_unique(server: ServerModel, one: MacAddr, other: MacAddr)
    requires
        server.wf(),
        server.host_range.end - server.host_range.start <= vstd::arithmetic::power2::pow2(
            (32 - server.server_ip.network_length) as nat,
        ),
        server.leases.contains_key(one),
        server.leases.contains_key(other),
        one != other,
    ensures
        server.leases[one].ip != server.leases[other].ip,
{
}

/// Every address that is lent lies in the network of the server, and is that of a host in the
/// configured range.
pub proof fn law_addresses_are_in_network(server: ServerModel, client: MacAddr)
    requires
        server.wf(),
        server.leases.contains_key(client),
    ensures
        server.server_ip.holds(server.leases[client].ip),
        exists|host: u32|
            server.host_range.start <= host < server.host_range.end && server.leases[client].ip
                == #[trigger] server.server_ip.host_address(host),
{
    assert(server.backed(server.leases[client]));
    let host = choose|host: u32|
        #![trigger server.allocated.contains(host)]
        server.allocated.contains(host) && server.leases[client].ip
            == server.server_ip.host_address(host);
    crate::net::law_host_address_is_in_network(server.server_ip, host);
}

/// There are no more leases than hosts that were handed out, and no more of those than the range
/// holds, as long as the host range is no larger than the network.
pub proof fn law_leases_are_bounded(server: ServerModel)
    requires
        server.wf(),
        server.host_range.end - server.host_range.start <= vstd::arithmetic::power2::pow2(
            (32 - server.server_ip.network_length) as nat,
        ),
        server.host_range.start <= server.host_range.end,
    ensures
        server.leases.dom().finite(),
        server.allocated.finite(),
        server.leases.len() <= server.allocated.len(),
        server.allocated.len() <= server.host_range.end - server.host_range.start,
{
    let low = server.host_range.start as int;
    let high = server.host_range.end as int;
    let ints = vstd::set_lib::set_int_range(low, high);
    vstd::set_lib::lemma_int_range(low, high);
    let narrow = |i: int| i as u32;
    let all = ints.map(narrow);
    vstd::set_lib::lemma_map_size_bound(ints, all, narrow);
    assert forall|host: u32| #[trigger] server.allocated.contains(host) implies all.contains(
        host,
    ) by {
        assert(ints.contains(host as int) && narrow(host as int) == host);
    }
    vstd::set_lib::lemma_set_subset_finite(all, server.allocated);
    vstd::set_lib::lemma_len_subset(server.allocated, all);

    let clients = server.leases.dom();
    let host_of = |client: MacAddr|
        choose|host: u32|
            #![trigger server.allocated.contains(host)]
            server.allocated.contains(host) && server.leases[client].ip
                == server.server_ip.host_address(host);
    assert forall|client: MacAddr| #[trigger] clients.contains(client) implies
        server.allocated.contains(host_of(client)) && server.leases[client].ip
        == server.server_ip.host_address(host_of(client)) by {
        assert(server.leases.contains_key(client));
        assert(server.backed(server.leases[client]));
    }
    let hosts = clients.map(host_of);
    assert(vstd::relations::injective_on(host_of, clients)) by {
        assert forall|one: MacAddr, other: MacAddr|
            clients.contains(one) && clients.contains(other) && #[trigger] host_of(one)
                == #[trigger] host_of(other) implies one == other by {
            assert(server.leases.contains_key(one) && server.leases.contains_key(other));
        }
    }
    vstd::set_lib::lemma_map_size(clients, hosts, host_of);
    vstd::set_lib::lemma_len_subset(hosts, server.allocated);
}

/// The address in an offer is lent to the client from then on.
pub proof fn law_offer_is_a_lease(
    server: ServerModel,
    frame: FrameModel,
    seed: u32,
    now: u128,
    next: ServerModel,
    offer: FrameModel,
)
    requires
        server.offers(frame, seed, now, next, offer),
    ensures
        offer.message_type == DhcpOptionMessageType::Offer,
        next.leases.contains_key(frame.chaddr),
        next.leases[frame.chaddr].ip == offer.yiaddr,
        server.leases.contains_key(frame.chaddr) ==> offer.yiaddr == server.leases[frame.chaddr].ip,
        !server.leases.contains_key(frame.chaddr) ==> next.leases[frame.chaddr].expire == (now
            + RENT_NANOS) as u128,
{
}

/// A client that searches again is offered the same address again, and nothing changes, whatever
/// the seed and the moment.
pub proof fn law_offer_repeats(
    server: ServerModel,
    first: FrameModel,
    seed: u32,
    now: u128,
    next: ServerModel,
    offer: FrameModel,
    again: FrameModel,
    later_seed: u32,
    later: u128,
    after: ServerModel,
    second_offer: FrameModel,
)
    requires
        server.offers(first, seed, now, next, offer),
        again.chaddr == first.chaddr,
        next.offers(again, later_seed, later, after, second_offer),
    ensures
        second_offer.yiaddr == offer.yiaddr,
        after == next,
{
}

/// What was offered is confirmed: until the lease runs out, the request of a client is answered
/// with the address that it was offered.
pub proof fn law_offered_address_is_confirmed(
    server: ServerModel,
    discover: FrameModel,
    seed: u32,
    now: u128,
    next: ServerModel,
    offer: FrameModel,
    checked: u128,
    request: FrameModel,
)
    requires
        server.offers(discover, seed, now, next, offer),
        request.chaddr == discover.chaddr,
        checked < next.leases[discover.chaddr].expire,
    ensures
        next.expired(checked).ack(request).message_type == DhcpOptionMessageType::Ack,
        next.expired(checked).ack(request).yiaddr == offer.yiaddr,
{
    assert(next.leases.contains_key(discover.chaddr));
}

/// A request starts the lease anew: the client keeps its address, and keeps it through every search
/// for outdated leases before the rent time has passed, and through none after that.
pub proof fn law_request_renews_lease(
    server: ServerModel,
    client: MacAddr,
    now: u128,
    checked: u128,
)
    requires
        server.leases.contains_key(client),
        now + RENT_NANOS <= u128::MAX,
    ensures
        server.after_request(client, now).leases[client].ip == server.leases[client].ip,
        server.after_request(client, now).expired(checked).leases.contains_key(client) <==> checked
            < now + RENT_NANOS,
{
}

/// A client without a lease is refused, carries no address away, and changes nothing.
pub proof fn law_unknown_client_is_refused(server: ServerModel, request: FrameModel, now: u128)
    requires
        !server.leases.contains_key(request.chaddr),
    ensures
        server.ack(request).message_type == DhcpOptionMessageType::Nak,
        server.ack(request).yiaddr == 0,
        server.after_request(request.chaddr, now) == server,
{
}

/// A client whose lease was dropped is refused until it is offered an address again.
pub proof fn law_outdated_client_is_refused(
    server: ServerModel,
    checked: u128,
    request: FrameModel,
)
    requires
        server.leases.contains_key(request.chaddr),
        server.leases[request.chaddr].expire <= checked,
    ensures
        server.expired(checked).ack(request).message_type == DhcpOptionMessageType::Nak,
        server.expired(checked).ack(request).yiaddr == 0,
{
}

/// A search for outdated leases drops exactly those, and leaves every other lease as it is.
pub proof fn law_expiry_is_exact(server: ServerModel, checked: u128, client: MacAddr)
    ensures
        server.expired(checked).leases.contains_key(client) <==> server.leases.contains_key(client)
            && server.leases[client].expire > checked,
        server.expired(checked).leases.contains_key(client) ==> server.expired(
            checked,
        ).leases[client] == server.leases[client],
{
}

/// Of two searches for outdated leases, one after the other, only the later moment counts.
pub proof fn law_expiry_composes(server: ServerModel, first: u128, second: u128)
    requires
        first <= second,
    ensures
        server.expired(first).expired(second) == server.expired(second),
        server.expired(second).expired(first) == server.expired(second),
{
    assert(server.expired(first).expired(second).leases =~= server.expired(second).leases);
    assert(server.expired(second).expired(first).leases =~= server.expired(second).leases);
}

/// What one client does leaves the leases of all the others alone.
pub proof fn law_clients_do_not_interfere(
    server: ServerModel,
    dhcp: Option<FrameModel>,
    seed: u32,
    msg_port: u16,
    now: u128,
    next: ServerModel,
    reply: Option<ReplyModel>,
    other: MacAddr,
)
    requires
        crate::dhcp_server::service::responds(server, dhcp, seed, msg_port, now, next, reply),
        dhcp matches Some(frame) ==> other != frame.chaddr,
    ensures
        next.leases.contains_key(other) <==> server.leases.contains_key(other),
        server.leases.contains_key(other) ==> next.leases[other] == server.leases[other],
{
}

/// What holds of the server at one moment holds of it after every event.
pub proof fn law_service_keeps_invariant(
    server: ServerModel,
    event: ServiceEvent,
    now: u128,
    next: ServerModel,
    step: ServiceStep,
)
    requires
        server.wf(),
        crate::dhcp_server::service::serves(server, event, now, next, step),
    ensures
        next.wf(),
{
    match event {
        ServiceEvent::Message { dhcp: Some(frame), seed, .. } => {
            crate::dhcp_server::status::lemma_same_addresses_keep_wf(
                server,
                server.after_request(frame.chaddr, now),
            );
            if !server.leases.contains_key(frame.chaddr) && next != server {
                let host = choose|host: u32| #[trigger]
                    crate::dhcp_server::host_pool::nearest_free(
                        server.host_range,
                        seed,
                        server.allocated,
                        Some(host),
                    ) && next == server.lend(frame.chaddr, host, (now + RENT_NANOS) as u128);
                crate::dhcp_server::status::lemma_lend_keeps_wf(
                    server,
                    frame.chaddr,
                    host,
                    (now + RENT_NANOS) as u128,
                );
            }
        },
        ServiceEvent::LeaseTimer => {
            crate::dhcp_server::status::lemma_same_addresses_keep_wf(server, server.expired(now));
        },
        _ => {},
    }
}

/// No event gives a host back, not even the one that drops its lease, and none changes what the
/// server was configured with.
pub proof fn law_hosts_never_return(
    server: ServerModel,
    event: ServiceEvent,
    now: u128,
    next: ServerModel,
    step: ServiceStep,
)
    requires
        crate::dhcp_server::service::serves(server, event, now, next, step),
    ensures
        server.allocated.subset_of(next.allocated),
        next.host_range == server.host_range,
        next.server_ip == server.server_ip,
        next.options == server.options,
        next.default_request_list == server.default_request_list,
{
}

/// The address of a client never changes: as long as it has a lease, the lease is for the address
/// that it was first offered, and only a search after the lease has run out takes it away.
pub proof fn law_address_never_changes(
    server: ServerModel,
    event: ServiceEvent,
    now: u128,
    next: ServerModel,
    step: ServiceStep,
    client: MacAddr,
)
    requires
        crate::dhcp_server::service::serves(server, event, now, next, step),
        server.leases.contains_key(client),
    ensures
        next.leases.contains_key(client) ==> next.leases[client].ip == server.leases[client].ip,
        !next.leases.contains_key(client) <==> event is LeaseTimer && server.leases[client].expire
            <= now,
{
}

/// What each event leads to. A message is dealt with as such, and never ends the loop. The timer
/// drops the leases whose end has come, touches nothing else, and is set again to ten minutes. The
/// loop ends where it is told to, or where it can not be told anything any more, and with no other
/// event.
pub proof fn law_events_are_served(
    server: ServerModel,
    event: ServiceEvent,
    now: u128,
    next: ServerModel,
    step: ServiceStep,
)
    requires
        crate::dhcp_server::service::serves(server, event, now, next, step),
    ensures
        match event {
            ServiceEvent::Message { dhcp, seed, msg_port } => exists|reply: Option<DhcpReply>|
                {
                    &&& #[trigger] crate::dhcp_server::service::responds(
                        server,
                        crate::dhcp_server::service::decoded(dhcp),
                        seed,
                        msg_port,
                        now,
                        next,
                        crate::dhcp_server::service::sent(reply),
                    )
                    &&& reply matches Some(reply) ==> step == ServiceStep::Answer(reply)
                    &&& reply is None ==> step == ServiceStep::Continue
                },
            ServiceEvent::LeaseTimer => {
                &&& step == (ServiceStep::RearmTimer { after: 600 })
                &&& forall|client: MacAddr| #[trigger]
                    next.leases.contains_key(client) <==> server.leases.contains_key(client)
                        && server.leases[client].expire > now
                &&& forall|client: MacAddr| #[trigger]
                    next.leases.contains_key(client) ==> next.leases[client]
                        == server.leases[client]
                &&& next.allocated == server.allocated
                &&& next.options == server.options
                &&& next.server_ip == server.server_ip
                &&& next.host_range == server.host_range
                &&& next.default_request_list == server.default_request_list
            },
            ServiceEvent::MessagesClosed => step == ServiceStep::Exit && next == server,
            ServiceEvent::StatusLost => step == ServiceStep::Exit && next == server,
            ServiceEvent::StatusChanged(ServiceStatus::Stopping) => step == ServiceStep::Exit
                && next == server,
            ServiceEvent::StatusChanged(ServiceStatus::Stop { .. }) => step == ServiceStep::Exit
                && next == server,
            ServiceEvent::StatusChanged(ServiceStatus::Staring) => step == ServiceStep::Continue
                && next == server,
            ServiceEvent::StatusChanged(ServiceStatus::Running) => step == ServiceStep::Continue
                && next == server,
        },
{
    if let ServiceEvent::Message { dhcp, seed, msg_port } = event {
        let reply = match step {
            ServiceStep::Answer(reply) => Some(reply),
            _ => None,
        };
        assert(crate::dhcp_server::service::responds(
            server,
            crate::dhcp_server::service::decoded(dhcp),
            seed,
            msg_port,
            now,
            next,
            crate::dhcp_server::service::sent(reply),
        ));
    }
}

/// Every event but a message can be dealt with, and a message can where it can be handled.
pub proof fn law_events_that_can_be_dealt_with(server: ServerModel, event: ServiceEvent)
    ensures
        match event {
            ServiceEvent::Message { dhcp, .. } => crate::dhcp_server::service::can_serve(
                server,
                event,
            ) <==> crate::dhcp_server::service::can_handle(
                server,
                crate::dhcp_server::service::decoded(dhcp),
            ),
            _ => crate::dhcp_server::service::can_serve(server, event),
        },
{
}

/// A service is at one of four points: it has announced nothing, that it starts, that it runs as
/// well, or that it has stopped as well. Each point comes right after the one before it, and the
/// last one only where there is a server.
pub proof fn law_stages_come_in_order(course: ServiceCourse, stage: ServiceStage)
    requires
        course.wf(),
    ensures
        course.reached().len() <= if course.is_served() {
            3int
        } else {
            2int
        },
        course.reached().len() > 0 ==> course.reached()[0] == ServiceStage::Entered,
        course.reached().len() > 1 ==> course.reached()[1] == ServiceStage::Listening,
        course.reached().len() > 2 ==> course.reached()[2] == ServiceStage::LoopEnded,
        course.comes_next(stage) <==> match stage {
            ServiceStage::Entered => course.reached().len() == 0,
            ServiceStage::Listening => course.reached().len() == 1,
            ServiceStage::LoopEnded => course.reached().len() == 2 && course.is_served(),
        },
{
    let whole = crate::dhcp_server::service::service_course(course.is_served());
    let count = course.reached().len() as int;
    let longer = course.reached().push(stage);
    assert(longer[count] == stage);
    if count < whole.len() && whole[count] == stage {
        assert(longer =~= whole.take(count + 1));
    }
}

/// A service that runs to its end announces that it starts, then that it runs, and then that it has
/// stopped, without a message, exactly where its configuration gives a server. It announces nothing
/// else.
pub proof fn law_service_announces_its_course(config: DhcpServerIpv4Config, course: ServiceCourse)
    requires
        course.is_served() == config.is_served(),
        course.reached() == crate::dhcp_server::service::service_course(course.is_served()),
    ensures
        config.network_mask <= 32 ==> crate::dhcp_server::service::announcements(
            course.reached(),
        ) == seq![
            ServiceStatus::Staring,
            ServiceStatus::Running,
            ServiceStatus::Stop { message: None },
        ],
        config.network_mask > 32 ==> crate::dhcp_server::service::announcements(course.reached())
            == seq![ServiceStatus::Staring, ServiceStatus::Running],
{
}

/// A run of the service: the server goes through `states`, from each one to the next by the event
/// between them.
pub open spec fn is_service_run(
    states: Seq<ServerModel>,
    events: Seq<ServiceEvent>,
    moments: Seq<u128>,
    steps: Seq<ServiceStep>,
) -> bool {
    &&& states.len() == events.len() + 1
    &&& moments.len() == events.len()
    &&& steps.len() == events.len()
    &&& forall|i: int|
        #![trigger states[i + 1]]
        #![trigger events[i]]
        0 <= i < events.len() ==> crate::dhcp_server::service::serves(
            states[i],
            events[i],
            moments[i],
            states[i + 1],
            steps[i],
        )
}

/// What a client was given is confirmed whenever it asks, whatever else happens in between: until
/// a search comes after its lease has run out, its request is answered with its address.
pub proof fn law_address_is_confirmed_throughout(
    states: Seq<ServerModel>,
    events: Seq<ServiceEvent>,
    moments: Seq<u128>,
    steps: Seq<ServiceStep>,
    i: int,
    j: int,
    request: FrameModel,
)
    requires
        is_service_run(states, events, moments, steps),
        0 <= i <= j < states.len(),
        states[i].leases.contains_key(request.chaddr),
        forall|k: int|
            i <= k < j && (#[trigger] events[k]) is LeaseTimer ==> moments[k]
                < states[k].leases[request.chaddr].expire,
    ensures
        states[j].leases.contains_key(request.chaddr),
        states[j].ack(request).message_type == DhcpOptionMessageType::Ack,
        states[j].ack(request).yiaddr == states[i].leases[request.chaddr].ip,
    decreases j,
{
    if i < j {
        law_address_is_confirmed_throughout(states, events, moments, steps, i, j - 1, request);
        assert(states[j] == states[(j - 1) + 1]);
        law_address_never_changes(
            states[j - 1],
            events[j - 1],
            moments[j - 1],
            states[j],
            steps[j - 1],
            request.chaddr,
        );
    }
}

/// A lease lasts twelve hours from the message that it was granted or renewed on. Once a client has
/// searched for an address without having one, or has requested the one that it has, and then sends
/// nothing more, the next timer that comes twelve hours of clock time later or more finds the lease
/// gone or drops it, whatever else happened in between; and as long as no timer comes that late,
/// the client keeps the address.
pub proof fn law_lease_lasts_twelve_hours(
    states: Seq<ServerModel>,
    events: Seq<ServiceEvent>,
    moments: Seq<u128>,
    steps: Seq<ServiceStep>,
    i: int,
    frame: DhcpEthFrame,
    j: int,
)
    requires
        is_service_run(states, events, moments, steps),
        0 <= i < j < events.len(),
        events[i] matches ServiceEvent::Message { dhcp, .. } && dhcp == Some(frame),
        frame.op == 1,
        frame.options.message_type == DhcpOptionMessageType::Discover
            && !states[i].leases.contains_key(frame.chaddr) || frame.options.message_type
            == DhcpOptionMessageType::Request && states[i].leases.contains_key(frame.chaddr),
        moments[i] + 43_200_000_000_000 <= u128::MAX,
        forall|k: int|
            i < k < j ==> !((#[trigger] events[k]) matches ServiceEvent::Message { dhcp, .. }
                && dhcp matches Some(other) && other.chaddr == frame.chaddr),
        events[j] is LeaseTimer,
    ensures
        states[i + 1].leases.contains_key(frame.chaddr),
        moments[j] >= moments[i] + 43_200_000_000_000 ==> !states[j + 1].leases.contains_key(
            frame.chaddr,
        ),
        (forall|k: int|
            i < k <= j && (#[trigger] events[k]) is LeaseTimer ==> moments[k] < moments[i]
                + 43_200_000_000_000) ==> states[j + 1].leases.contains_key(frame.chaddr)
            && states[j + 1].leases[frame.chaddr].ip == states[i + 1].leases[frame.chaddr].ip,
{
    let client = frame.chaddr;
    assert(crate::dhcp_server::service::serves(
        states[i],
        events[i],
        moments[i],
        states[i + 1],
        steps[i],
    ));
    assert(states[i + 1].leases.contains_key(client) && states[i + 1].leases[client].expire
        == moments[i] + 43_200_000_000_000);
    lemma_silent_client_keeps_lease_or_loses_it(
        states,
        events,
        moments,
        steps,
        i + 1,
        j,
        client,
    );
    assert(crate::dhcp_server::service::serves(
        states[j],
        events[j],
        moments[j],
        states[j + 1],
        steps[j],
    ));
}

/// Without a message of the client, its lease stays as it is until a timer comes after its end, and
/// stays away from then on.
proof fn lemma_silent_client_keeps_lease_or_loses_it(
    states: Seq<ServerModel>,
    events: Seq<ServiceEvent>,
    moments: Seq<u128>,
    steps: Seq<ServiceStep>,
    i: int,
    j: int,
    client: MacAddr,
)
    requires
        is_service_run(states, events, moments, steps),
        0 <= i <= j < states.len(),
        states[i].leases.contains_key(client),
        forall|k: int| i <= k < j ==> !comes_from(#[trigger] events[k], client),
    ensures
        states[j].leases.contains_key(client) ==> states[j].leases[client]
            == states[i].leases[client],
        !states[j].leases.contains_key(client) ==> exists|k: int|
            i <= k < j && (#[trigger] events[k]) is LeaseTimer && moments[k]
                >= states[i].leases[client].expire,
    decreases j,
{
    if i < j {
        lemma_silent_client_keeps_lease_or_loses_it(
            states,
            events,
            moments,
            steps,
            i,
            j - 1,
            client,
        );
        assert(states[j] == states[(j - 1) + 1]);
        assert(!comes_from(events[j - 1], client));
        assert(crate::dhcp_server::service::serves(
            states[j - 1],
            events[j - 1],
            moments[j - 1],
            states[j],
            steps[j - 1],
        ));
    }
}

/// An address that one client has been lent is never lent to another one, at no later moment of a
/// run of the service, as long as the host range is no larger than the network.
pub proof fn law_address_has_one_client_ever(
    states: Seq<ServerModel>,
    events: Seq<ServiceEvent>,
    moments: Seq<u128>,
    steps: Seq<ServiceStep>,
    i: int,
    one: MacAddr,
    j: int,
    other: MacAddr,
)
    requires
        is_service_run(states, events, moments, steps),
        states[0].wf(),
        states[0].leases == Map::<MacAddr, Lease>::empty(),
        states[0].host_range.end - states[0].host_range.start <= vstd::arithmetic::power2::pow2(
            (32 - states[0].server_ip.network_length) as nat,
        ),
        0 <= i < states.len(),
        0 <= j < states.len(),
        states[i].leases.contains_key(one),
        states[j].leases.contains_key(other),
        states[i].leases[one].ip == states[j].leases[other].ip,
    ensures
        one == other,
{
    let (k, host) = lemma_lease_has_origin(states, events, moments, steps, i, one);
    let (l, guest) = lemma_lease_has_origin(states, events, moments, steps, j, other);
    lemma_run_is_sound(states, events, moments, steps, k + 1);
    lemma_run_is_sound(states, events, moments, steps, l + 1);
    let inet = states[0].server_ip;
    if host < guest {
        crate::net::law_near_hosts_differ(inet, host, guest);
    }
    if guest < host {
        crate::net::law_near_hosts_differ(inet, guest, host);
    }
    if k < l {
        lemma_run_keeps_hosts(states, events, moments, steps, k + 1, l);
    }
    if l < k {
        lemma_run_keeps_hosts(states, events, moments, steps, l + 1, k);
    }
}

/// The event is a message from the client.
pub open spec fn comes_from(event: ServiceEvent, client: MacAddr) -> bool {
    event matches ServiceEvent::Message { dhcp: Some(frame), .. } && frame.chaddr == client
}

/// A lease goes back to a message of the client that took a host for it.
proof fn lemma_lease_has_origin(
    states: Seq<ServerModel>,
    events: Seq<ServiceEvent>,
    moments: Seq<u128>,
    steps: Seq<ServiceStep>,
    i: int,
    client: MacAddr,
) -> (origin: (int, u32))
    requires
        is_service_run(states, events, moments, steps),
        states[0].wf(),
        states[0].leases == Map::<MacAddr, Lease>::empty(),
        0 <= i < states.len(),
        states[i].leases.contains_key(client),
    ensures
        0 <= origin.0 < i,
        comes_from(events[origin.0], client),
        !states[origin.0].allocated.contains(origin.1),
        states[origin.0 + 1].allocated.contains(origin.1),
        states[i].leases[client].ip == states[0].server_ip.host_address(origin.1),
    decreases i,
{
    let before = states[i - 1];
    let event = events[i - 1];
    assert(states[i] == states[(i - 1) + 1]);
    lemma_run_is_sound(states, events, moments, steps, i - 1);
    if before.leases.contains_key(client) {
        law_address_never_changes(
            before,
            event,
            moments[i - 1],
            states[i],
            steps[i - 1],
            client,
        );
        lemma_lease_has_origin(states, events, moments, steps, i - 1, client)
    } else {
        let seed = event->Message_seed;
        let host = choose|host: u32| #[trigger]
            crate::dhcp_server::host_pool::nearest_free(
                before.host_range,
                seed,
                before.allocated,
                Some(host),
            ) && states[i] == before.lend(client, host, (moments[i - 1] + RENT_NANOS) as u128);
        (i - 1, host)
    }
}

/// Every state of a run is sound, and has the configuration of the first one.
proof fn lemma_run_is_sound(
    states: Seq<ServerModel>,
    events: Seq<ServiceEvent>,
    moments: Seq<u128>,
    steps: Seq<ServiceStep>,
    i: int,
)
    requires
        is_service_run(states, events, moments, steps),
        states[0].wf(),
        0 <= i < states.len(),
    ensures
        states[i].wf(),
        states[i].server_ip == states[0].server_ip,
        states[i].host_range == states[0].host_range,
    decreases i,
{
    if i > 0 {
        lemma_run_is_sound(states, events, moments, steps, i - 1);
        assert(states[i] == states[(i - 1) + 1]);
        law_service_keeps_invariant(
            states[i - 1],
            events[i - 1],
            moments[i - 1],
            states[i],
            steps[i - 1],
        );
        law_hosts_never_return(
            states[i - 1],
            events[i - 1],
            moments[i - 1],
            states[i],
            steps[i - 1],
        );
    }
}

/// A host that is taken at one moment of a run is taken at every later one.
proof fn lemma_run_keeps_hosts(
    states: Seq<ServerModel>,
    events: Seq<ServiceEvent>,
    moments: Seq<u128>,
    steps: Seq<ServiceStep>,
    i: int,
    j: int,
)
    requires
        is_service_run(states, events, moments, steps),
        0 <= i <= j < states.len(),
    ensures
        states[i].allocated.subset_of(states[j].allocated),
    decreases j,
{
    if i < j {
        lemma_run_keeps_hosts(states, events, moments, steps, i, j - 1);
        assert(states[j] == states[(j - 1) + 1]);
        law_hosts_never_return(
            states[j - 1],
            events[j - 1],
            moments[j - 1],
            states[j],
            steps[j - 1],
        );
    }
}

/// An offer to a client that has no lease takes one free host away, and one to any other client
/// takes none.
pub proof fn law_offer_takes_at_most_one_host(
    server: ServerModel,
    frame: FrameModel,
    seed: u32,
    now: u128,
    next: ServerModel,
    offer: FrameModel,
)
    requires
        server.offers(frame, seed, now, next, offer),
    ensures
        crate::dhcp_server::host_pool::free_hosts(server.host_range, server.allocated).len()
            == crate::dhcp_server::host_pool::free_hosts(next.host_range, next.allocated).len() + (
        if server.leases.contains_key(frame.chaddr) {
            0int
        } else {
            1int
        }),
{
    if !server.leases.contains_key(frame.chaddr) {
        let host = choose|host: u32| #[trigger]
            crate::dhcp_server::host_pool::nearest_free(
                server.host_range,
                seed,
                server.allocated,
                Some(host),
            ) && next == server.lend(frame.chaddr, host, (now + RENT_NANOS) as u128);
        crate::dhcp_server::host_pool::law_choice_takes_one_host(
            server.host_range,
            seed,
            server.allocated,
            host,
        );
    }
}

/// Every answer is a reply to the message that it answers: it repeats the transaction, the seconds,
/// the flags, the cookie and the hardware address of the client.
pub proof fn law_answers_match_messages(
    server: ServerModel,
    frame: FrameModel,
    seed: u32,
    msg_port: u16,
    now: u128,
    next: ServerModel,
    reply: ReplyModel,
)
    requires
        crate::dhcp_server::service::responds(
            server,
            Some(frame),
            seed,
            msg_port,
            now,
            next,
            Some(reply),
        ),
    ensures
        frame.op == 1,
        reply.payload.op == 2,
        reply.payload.xid == frame.xid,
        reply.payload.secs == frame.secs,
        reply.payload.flags == frame.flags,
        reply.payload.chaddr == frame.chaddr,
        reply.payload.magic_cookie == frame.magic_cookie,
        reply.payload.sname.len() == 64,
        reply.payload.file.len() == 128,
{
}

/// A client is sent exactly the configured ones among the options that it asked for.
pub proof fn law_configured_options_are_sent(
    server: ServerModel,
    list: Seq<u8>,
    option: OptionModel,
)
    ensures
        server.configured(list).contains(option) <==> exists|i: int|
            0 <= i < list.len() && server.options.contains_key(#[trigger] list[i])
                && server.options[list[i]] == option,
{
    broadcast use vstd::seq_lib::group_filter_ensures;

    let known = |index: u8| server.options.contains_key(index);
    let kept = list.filter(known);
    if server.configured(list).contains(option) {
        let k = server.configured(list).index_of(option);
        assert(known(kept[k]));
        lemma_filter_keeps_members(list, known, kept[k]);
        let i = list.index_of(kept[k]);
        assert(server.options.contains_key(list[i]));
    }
    if exists|i: int|
        0 <= i < list.len() && server.options.contains_key(#[trigger] list[i])
            && server.options[list[i]] == option {
        let i = choose|i: int|
            0 <= i < list.len() && server.options.contains_key(#[trigger] list[i])
                && server.options[list[i]] == option;
        assert(known(list[i]));
        assert(kept.contains(list[i]));
        let k = kept.index_of(list[i]);
        assert(server.configured(list)[k] == option);
    }
}

/// Of several configured options with the same index the last one counts.
pub proof fn law_last_configured_option_counts(options: Seq<OptionModel>, last: int)
    requires
        0 <= last < options.len(),
        forall|i: int|
            last < i < options.len() ==> (#[trigger] options[i]).index() != options[last].index(),
    ensures
        ServerModel::by_index(options).contains_key(options[last].index()),
        ServerModel::by_index(options)[options[last].index()] == options[last],
    decreases options.len(),
{
    if last < options.len() - 1 {
        let shorter = options.drop_last();
        assert(options[options.len() - 1].index() != options[last].index());
        assert(shorter[last] == options[last]);
        law_last_configured_option_counts(shorter, last);
    }
}

/// Under an index that no option was configured with there is none to send.
pub proof fn law_unconfigured_index_stays_empty(options: Seq<OptionModel>, index: u8)
    requires
        forall|i: int| 0 <= i < options.len() ==> (#[trigger] options[i]).index() != index,
    ensures
        !ServerModel::by_index(options).contains_key(index),
    decreases options.len(),
{
    if options.len() > 0 {
        let shorter = options.drop_last();
        assert(options[options.len() - 1].index() != index);
        assert forall|i: int| 0 <= i < shorter.len() implies (#[trigger] shorter[i]).index()
            != index by {
            assert(shorter[i] == options[i]);
        }
        law_unconfigured_index_stays_empty(shorter, index);
    }
}

proof fn lemma_filter_keeps_members(list: Seq<u8>, keep: spec_fn(u8) -> bool, member: u8)
    requires
        list.filter(keep).contains(member),
    ensures
        list.contains(member),
    decreases list.len(),
{
    reveal(Seq::filter);
    if list.len() > 0 {
        let k = list.filter(keep).index_of(member);
        if list.last() == member {
            assert(list[list.len() - 1] == member);
        } else {
            assert(list.drop_last().filter(keep)[k] == member);
            lemma_filter_keeps_members(list.drop_last(), keep, member);
            let i = list.drop_last().index_of(member);
            assert(list[i] == member);
        }
    }
}

} // verus!
