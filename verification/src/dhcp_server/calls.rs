//! What the operations of the server do, told of the calls themselves: what a call was given, what
//! it gave back, and what the server was before and is after it.

use crate::dhcp_server::frame::{DhcpEthFrame, DhcpOptionMessageType, DhcpOptions};
use crate::dhcp_server::host_pool::{find_free_host, get_host_id};
use crate::dhcp_server::interface::{AddressAttribute, AddressMessage, AddressVerdict, AddressWalk};
use crate::dhcp_server::service::{
    accepts, announced_status, handle_dhcp_message, serve_event, DhcpReply, DhcpServerIpv4Config,
    ServiceCourse, ServiceEvent, ServiceStage, ServiceStatus, ServiceStep, CLIENT_PORT, SERVER_PORT,
};
use crate::dhcp_server::status::{DhcpServerStatus, Lease};
use crate::net::{IpAddr, Ipv4Addr, Ipv4Inet, MacAddr};
use std::collections::HashSet;
use std::ops::Range;
use vstd::prelude::*;

verus! {

/// A client that searches for an address is offered one, whatever else its message says: the offer
/// goes to everyone, and afterwards the client has a lease for the address in it. Where the client
/// had none before, the lease ends twelve hours after a reading of the server's clock.
pub proof fn law_search_is_offered_an_address(
    status: &mut DhcpServerStatus,
    frame: DhcpEthFrame,
    seed: u32,
    msg_port: u16,
    reply: Option<DhcpReply>,
)
    requires
        call_ensures(handle_dhcp_message, (status, Some(frame), seed, msg_port), reply),
        frame.op == 1,
        frame.options.message_type == DhcpOptionMessageType::Discover,
    ensures
        reply is Some,
        reply->0.address == 0xffff_ffff,
        reply->0.port == 68,
        reply->0.payload.options.message_type == DhcpOptionMessageType::Offer,
        final(status)@.leases.contains_key(frame.chaddr),
        final(status)@.leases[frame.chaddr].ip == reply->0.payload.yiaddr,
        old(status)@.leases.contains_key(frame.chaddr) ==> final(status)@ == old(status)@,
        !old(status)@.leases.contains_key(frame.chaddr) ==> exists|now: u128| #[trigger]
            old(status).measured_by().reads(now) && final(status)@.leases[frame.chaddr].expire
                == now + 43_200_000_000_000,
        final(status).measured_by() == old(status).measured_by(),
{
    let now = choose|now: u128|
        now <= crate::clock::LONGEST_NANOS && old(status).measured_by().reads(now)
            && #[trigger] crate::dhcp_server::service::responds(
            old(status)@,
            crate::dhcp_server::service::decoded(Some(frame)),
            seed,
            msg_port,
            now,
            final(status)@,
            crate::dhcp_server::service::sent(reply),
        );
    crate::dhcp_server::answers::law_searches_and_requests_are_answered(
        old(status)@,
        frame,
        seed,
        msg_port,
        now,
        final(status)@,
        reply,
    );
    crate::dhcp_server::answers::law_offer_lends_the_first_free_host(
        old(status)@,
        frame@,
        seed,
        now,
        final(status)@,
        reply->0.payload@,
    );
}

/// A client that requests its address is answered, whatever else its message says. Where it has an
/// address, that one is confirmed, and its lease ends twelve hours after a reading of the server's
/// clock. Where it has none, it is refused and nothing changes.
pub proof fn law_request_is_answered(
    status: &mut DhcpServerStatus,
    frame: DhcpEthFrame,
    seed: u32,
    msg_port: u16,
    reply: Option<DhcpReply>,
)
    requires
        call_ensures(handle_dhcp_message, (status, Some(frame), seed, msg_port), reply),
        frame.op == 1,
        frame.options.message_type == DhcpOptionMessageType::Request,
    ensures
        reply is Some,
        old(status)@.leases.contains_key(frame.chaddr) ==> {
            &&& reply->0.payload.options.message_type == DhcpOptionMessageType::Ack
            &&& reply->0.payload.yiaddr == old(status)@.leases[frame.chaddr].ip
            &&& exists|now: u128| #[trigger]
                old(status).measured_by().reads(now) && final(status)@.leases == old(
                    status,
                )@.leases.insert(
                    frame.chaddr,
                    Lease {
                        ip: old(status)@.leases[frame.chaddr].ip,
                        expire: (now + 43_200_000_000_000) as u128,
                    },
                )
        },
        !old(status)@.leases.contains_key(frame.chaddr) ==> {
            &&& reply->0.payload.options.message_type == DhcpOptionMessageType::Nak
            &&& reply->0.payload.yiaddr == 0
            &&& final(status)@ == old(status)@
        },
        frame.flags & 0x8000u16 != 0 ==> reply->0.address == 0xffff_ffff && reply->0.port == 68,
        frame.flags & 0x8000u16 == 0 ==> reply->0.address == reply->0.payload.yiaddr
            && reply->0.port == msg_port,
        final(status).measured_by() == old(status).measured_by(),
{
    let now = choose|now: u128|
        now <= crate::clock::LONGEST_NANOS && old(status).measured_by().reads(now)
            && #[trigger] crate::dhcp_server::service::responds(
            old(status)@,
            crate::dhcp_server::service::decoded(Some(frame)),
            seed,
            msg_port,
            now,
            final(status)@,
            crate::dhcp_server::service::sent(reply),
        );
    crate::dhcp_server::answers::law_searches_and_requests_are_answered(
        old(status)@,
        frame,
        seed,
        msg_port,
        now,
        final(status)@,
        reply,
    );
    assert(old(status).measured_by().reads(now));
}

/// Any other message, and what is no message, is passed over.
pub proof fn law_other_messages_are_passed_over(
    status: &mut DhcpServerStatus,
    dhcp: Option<DhcpEthFrame>,
    seed: u32,
    msg_port: u16,
    reply: Option<DhcpReply>,
)
    requires
        call_ensures(handle_dhcp_message, (status, dhcp, seed, msg_port), reply),
        dhcp matches Some(frame) ==> frame.op != 1 || (frame.options.message_type
            != DhcpOptionMessageType::Discover && frame.options.message_type
            != DhcpOptionMessageType::Request),
    ensures
        reply is None,
        final(status)@ == old(status)@,
{
}

/// A message is accepted exactly where it is none of a client, or is a request, a release or an
/// offer, or is a search for which there is an address.
pub proof fn law_messages_are_accepted(
    status: DhcpServerStatus,
    dhcp: Option<DhcpEthFrame>,
    accepted: bool,
)
    requires
        call_ensures(accepts, (&status, &dhcp), accepted),
    ensures
        accepted <==> match dhcp {
            None => true,
            Some(frame) => frame.op != 1 || match frame.options.message_type {
                DhcpOptionMessageType::Discover => status@.leases.contains_key(frame.chaddr)
                    || exists|host: u32|
                    status@.host_range.start <= host < status@.host_range.end
                        && !#[trigger] status@.allocated.contains(host),
                DhcpOptionMessageType::Offer
                | DhcpOptionMessageType::Request
                | DhcpOptionMessageType::Release => true,
                _ => false,
            },
        },
{
    crate::dhcp_server::answers::law_messages_that_can_be_dealt_with(status@, dhcp);
}

/// There is an address for a client exactly where it has one, or where some host of the range is
/// not handed out.
pub proof fn law_address_is_left_for_client(
    status: DhcpServerStatus,
    client: MacAddr,
    possible: bool,
)
    requires
        call_ensures(DhcpServerStatus::can_offer, (&status, client), possible),
    ensures
        possible <==> status@.leases.contains_key(client) || exists|host: u32|
            status@.host_range.start <= host < status@.host_range.end
                && !#[trigger] status@.allocated.contains(host),
{
    crate::dhcp_server::answers::law_offer_needs_a_free_host(status@, client);
}

/// The timer reads the server's clock, drops the leases whose end has come by then, and no other
/// one, and is set again to ten minutes.
pub proof fn law_timer_reads_the_clock(status: &mut DhcpServerStatus, step: ServiceStep)
    requires
        call_ensures(serve_event, (status, ServiceEvent::LeaseTimer), step),
    ensures
        step == (ServiceStep::RearmTimer { after: 600 }),
        exists|now: u128| #[trigger]
            old(status).measured_by().reads(now) && forall|client: MacAddr| #[trigger]
                final(status)@.leases.contains_key(client) <==> old(status)@.leases.contains_key(
                    client,
                ) && old(status)@.leases[client].expire > now,
        forall|client: MacAddr| #[trigger]
            final(status)@.leases.contains_key(client) ==> final(status)@.leases[client] == old(
                status,
            )@.leases[client],
        final(status)@.allocated == old(status)@.allocated,
        final(status).measured_by() == old(status).measured_by(),
{
}

/// A lease lasts twelve hours of clock time. Where a client was granted or renewed its lease by one
/// message, and the lease is still the same when a timer comes, both read the same clock, and the
/// timer drops the lease exactly where its reading is twelve hours or more past that of the
/// message.
pub proof fn law_lease_is_measured_by_one_clock(
    first: &mut DhcpServerStatus,
    frame: DhcpEthFrame,
    seed: u32,
    msg_port: u16,
    granted: ServiceStep,
    second: &mut DhcpServerStatus,
    step: ServiceStep,
)
    requires
        call_ensures(
            serve_event,
            (first, ServiceEvent::Message { dhcp: Some(frame), seed, msg_port }),
            granted,
        ),
        frame.op == 1,
        frame.options.message_type == DhcpOptionMessageType::Discover && !old(
            first,
        )@.leases.contains_key(frame.chaddr) || frame.options.message_type
            == DhcpOptionMessageType::Request && old(first)@.leases.contains_key(frame.chaddr),
        call_ensures(serve_event, (second, ServiceEvent::LeaseTimer), step),
        old(second).measured_by() == final(first).measured_by(),
        old(second)@.leases.contains_key(frame.chaddr),
        old(second)@.leases[frame.chaddr] == final(first)@.leases[frame.chaddr],
    ensures
        granted is Answer,
        exists|granted_at: u128, checked_at: u128|
            {
                &&& #[trigger] old(first).measured_by().reads(granted_at)
                &&& #[trigger] old(first).measured_by().reads(checked_at)
                &&& final(second)@.leases.contains_key(frame.chaddr) <==> checked_at < granted_at
                    + 43_200_000_000_000
            },
{
    let event = ServiceEvent::Message { dhcp: Some(frame), seed, msg_port };
    let granted_at = choose|now: u128|
        now <= crate::clock::LONGEST_NANOS && old(first).measured_by().reads(now)
            && #[trigger] crate::dhcp_server::service::serves(
            old(first)@,
            event,
            now,
            final(first)@,
            granted,
        );
    let checked_at = choose|now: u128|
        now <= crate::clock::LONGEST_NANOS && old(second).measured_by().reads(now)
            && #[trigger] crate::dhcp_server::service::serves(
            old(second)@,
            ServiceEvent::LeaseTimer,
            now,
            final(second)@,
            step,
        );
    assert(old(first).measured_by().reads(granted_at));
    assert(old(first).measured_by().reads(checked_at));
}

/// Events that are neither a message nor the timer leave the server alone. The loop ends where it
/// is told to stop or can not be told anything any more, and goes on else.
pub proof fn law_loop_ends_when_told(
    status: &mut DhcpServerStatus,
    event: ServiceEvent,
    step: ServiceStep,
)
    requires
        call_ensures(serve_event, (status, event), step),
    ensures
        step == ServiceStep::Exit <==> match event {
            ServiceEvent::MessagesClosed | ServiceEvent::StatusLost => true,
            ServiceEvent::StatusChanged(ServiceStatus::Stopping) => true,
            ServiceEvent::StatusChanged(ServiceStatus::Stop { .. }) => true,
            _ => false,
        },
        !(event is Message) && !(event is LeaseTimer) ==> final(status)@ == old(status)@ && (step
            == ServiceStep::Exit || step == ServiceStep::Continue),
{
}

/// An offer that is made apart from the loop reads the server's clock as well.
pub proof fn law_offer_reads_the_clock(
    status: &mut DhcpServerStatus,
    frame: DhcpEthFrame,
    seed: u32,
    offer: DhcpEthFrame,
)
    requires
        call_ensures(DhcpServerStatus::gen_offer, (status, frame, seed), offer),
    ensures
        offer.options.message_type == DhcpOptionMessageType::Offer,
        final(status)@.leases.contains_key(frame.chaddr),
        final(status)@.leases[frame.chaddr].ip == offer.yiaddr,
        old(status)@.leases.contains_key(frame.chaddr) ==> final(status)@ == old(status)@,
        !old(status)@.leases.contains_key(frame.chaddr) ==> exists|now: u128| #[trigger]
            old(status).measured_by().reads(now) && final(status)@.leases[frame.chaddr].expire
                == now + 43_200_000_000_000,
{
    let now = choose|now: u128|
        now <= crate::clock::LONGEST_NANOS && old(status).measured_by().reads(now)
            && #[trigger] old(status)@.offers(frame@, seed, now, final(status)@, offer@);
    assert(old(status).measured_by().reads(now));
}

/// An answer to a request that is made apart from the loop reads the server's clock as well.
pub proof fn law_renewal_reads_the_clock(
    status: &mut DhcpServerStatus,
    frame: DhcpEthFrame,
    answer: Option<DhcpEthFrame>,
)
    requires
        call_ensures(DhcpServerStatus::gen_ack, (status, frame), answer),
    ensures
        answer is Some,
        old(status)@.leases.contains_key(frame.chaddr) ==> {
            &&& answer->0.options.message_type == DhcpOptionMessageType::Ack
            &&& answer->0.yiaddr == old(status)@.leases[frame.chaddr].ip
            &&& exists|now: u128| #[trigger]
                old(status).measured_by().reads(now) && final(status)@.leases[frame.chaddr].expire
                    == now + 43_200_000_000_000
        },
        !old(status)@.leases.contains_key(frame.chaddr) ==> {
            &&& answer->0.options.message_type == DhcpOptionMessageType::Nak
            &&& answer->0.yiaddr == 0
            &&& final(status)@ == old(status)@
        },
{
    let now = choose|now: u128|
        now <= crate::clock::LONGEST_NANOS && old(status).measured_by().reads(now)
            && final(status)@ == #[trigger] old(status)@.after_request(frame.chaddr, now);
    assert(old(status).measured_by().reads(now));
}

/// A search for outdated leases that is made apart from the loop reads the server's clock as well.
pub proof fn law_search_for_outdated_reads_the_clock(status: &mut DhcpServerStatus)
    requires
        call_ensures(DhcpServerStatus::expire_check, (status,), ()),
    ensures
        exists|now: u128| #[trigger]
            old(status).measured_by().reads(now) && forall|client: MacAddr| #[trigger]
                final(status)@.leases.contains_key(client) <==> old(status)@.leases.contains_key(
                    client,
                ) && old(status)@.leases[client].expire > now,
        forall|client: MacAddr| #[trigger]
            final(status)@.leases.contains_key(client) ==> final(status)@.leases[client] == old(
                status,
            )@.leases[client],
        final(status)@.allocated == old(status)@.allocated,
{
}

/// A configuration gives a server exactly where its prefix is no longer than an address. The server
/// has the address, the network, the range and the default list that it was given, and has lent
/// nothing and handed no host out. The interface gets the very address and prefix of the server.
pub proof fn law_server_is_as_configured(
    config: DhcpServerIpv4Config,
    default_request_list: Vec<u8>,
    server: Option<DhcpServerStatus>,
    address: (IpAddr, u8),
)
    requires
        call_ensures(
            DhcpServerIpv4Config::into_server,
            (config, default_request_list),
            server,
        ),
        call_ensures(DhcpServerIpv4Config::interface_address, (&config,), address),
    ensures
        server is Some <==> config.network_mask <= 32,
        server matches Some(server) ==> {
            &&& server@.leases == Map::<MacAddr, Lease>::empty()
            &&& server@.allocated == Set::<u32>::empty()
            &&& server@.server_ip.address == config.server_ip_addr
            &&& server@.server_ip.network_length == config.network_mask
            &&& server@.host_range == config.host_range
            &&& server@.default_request_list == default_request_list@
            &&& server.measured_by().was_started()
            &&& address.0 == IpAddr::V4(server@.server_ip.address)
            &&& address.1 == server@.server_ip.network_length
        },
        address == (IpAddr::V4(config.server_ip_addr), config.network_mask),
{
}

/// A configured option is there under its number, unless a later one has the same number, and a
/// number that none was configured with stays empty.
pub proof fn law_server_has_the_configured_options(
    server_ip: Ipv4Inet,
    options: Vec<DhcpOptions>,
    host_range: Range<u32>,
    default_request_list: Vec<u8>,
    server: DhcpServerStatus,
    last: int,
)
    requires
        call_ensures(
            DhcpServerStatus::new,
            (server_ip, options, host_range, default_request_list),
            server,
        ),
    ensures
        0 <= last < options@.len() && (forall|i: int|
            last < i < options@.len() ==> (#[trigger] options@[i])@.index()
                != options@[last]@.index()) ==> server@.options.contains_key(
            options@[last]@.index(),
        ) && server@.options[options@[last]@.index()] == options@[last]@,
        forall|index: u8| #[trigger]
            server@.options.contains_key(index) ==> exists|i: int|
                0 <= i < options@.len() && (#[trigger] options@[i])@.index() == index,
{
    crate::dhcp_server::answers::law_server_starts_empty(
        server_ip,
        options@,
        host_range,
        default_request_list@,
        last,
    );
}

/// A host is handed out exactly where the range has a free one: it is the first one, going up from
/// the preferred host and from the start of the range again. It is taken from then on, and no other
/// host is touched.
pub proof fn law_first_free_host_is_handed_out(
    range: Range<u32>,
    seed: u32,
    allocated: &mut HashSet<u32>,
    choice: Option<u32>,
    host: u32,
)
    requires
        range.start < range.end,
        call_ensures(get_host_id, (range, seed, allocated), choice),
    ensures
        ({
            let before = old(allocated)@;
            let preferred = range.start + seed as int % (range.end - range.start);
            &&& choice is None <==> forall|taken: u32|
                range.start <= taken < range.end ==> #[trigger] before.contains(taken)
            &&& choice matches Some(chosen) ==> {
                &&& range.start <= chosen < range.end
                &&& !before.contains(chosen)
                &&& chosen >= preferred ==> forall|taken: u32|
                    preferred <= taken < chosen ==> #[trigger] before.contains(taken)
                &&& chosen < preferred ==> forall|taken: u32|
                    preferred <= taken < range.end || range.start <= taken < chosen
                        ==> #[trigger] before.contains(taken)
            }
            &&& final(allocated)@.contains(host) <==> before.contains(host) || choice == Some(host)
        }),
{
    crate::dhcp_server::host_pool::law_no_free_host_is_skipped(
        range,
        seed,
        old(allocated)@,
        choice,
    );
}

/// The host that a search finds is the one that is then handed out.
pub proof fn law_found_host_is_handed_out(
    range: Range<u32>,
    seed: u32,
    seen: HashSet<u32>,
    found: Option<u32>,
    allocated: &mut HashSet<u32>,
    choice: Option<u32>,
)
    requires
        range.start < range.end,
        call_ensures(find_free_host, (range, seed, &seen), found),
        call_ensures(get_host_id, (range, seed, allocated), choice),
        seen@ == old(allocated)@,
    ensures
        found == choice,
{
    crate::dhcp_server::host_pool::law_choice_is_determined(range, seed, seen@, found, choice);
}

/// One address is seen. It is passed over where none of its labels is the name of the interface.
/// Else it stays, and spares the configured address from being added, exactly where it has the
/// configured prefix length and one of its attributes is the configured address; and every other
/// address of the interface is deleted, and leaves the configured one to be added.
pub proof fn law_address_is_kept_or_deleted(
    walk: &mut AddressWalk,
    addr: AddressMessage,
    verdict: AddressVerdict,
    after: AddressWalk,
    needed: bool,
)
    requires
        call_ensures(AddressWalk::visit, (walk, &addr), verdict),
        after == *final(walk),
        call_ensures(AddressWalk::need_create, (&after,), needed),
    ensures
        ({
            let goal = old(walk).goal();
            let labelled = exists|i: int|
                0 <= i < addr.attributes@.len() && (#[trigger] addr.attributes@[i] matches
                    AddressAttribute::Label(label) && label@ == goal.link_name);
            let configured = addr.prefix_len == goal.prefix_length && exists|i: int|
                0 <= i < addr.attributes@.len() && #[trigger] addr.attributes@[i]
                    == AddressAttribute::Address(goal.ip);
            &&& final(walk).goal() == goal
            &&& !labelled ==> verdict == AddressVerdict::Ignore && needed == old(walk).pending()
            &&& labelled && configured ==> verdict == AddressVerdict::Keep && !needed
            &&& labelled && !configured ==> verdict == AddressVerdict::Delete && needed
            &&& final(walk).pending() == needed
        }),
{
    crate::dhcp_server::interface::law_only_the_configured_address_stays(
        old(walk).goal(),
        old(walk).pending(),
        addr,
    );
}

/// A walk looks for the address that it was given, and starts with that address to be added.
pub proof fn law_walk_looks_for_what_it_was_given(
    link_name: String,
    ip: IpAddr,
    prefix_length: u8,
    walk: AddressWalk,
)
    requires
        call_ensures(AddressWalk::new, (link_name, ip, prefix_length), walk),
    ensures
        walk.goal().link_name == link_name@,
        walk.goal().ip == ip,
        walk.goal().prefix_length == prefix_length,
        walk.pending(),
{
    crate::dhcp_server::interface::law_walk_starts_in_need(walk.goal());
}

/// A service announces that it starts, that it runs, and that it has stopped without a message,
/// each at its stage, and takes the stages in their order.
pub proof fn law_stage_is_announced(
    course: &mut ServiceCourse,
    stage: ServiceStage,
    status: ServiceStatus,
    told: ServiceStatus,
)
    requires
        call_ensures(ServiceCourse::step, (course, stage), status),
        call_ensures(announced_status, (stage,), told),
    ensures
        status == told,
        stage == ServiceStage::Entered ==> status == ServiceStatus::Staring,
        stage == ServiceStage::Listening ==> status == ServiceStatus::Running,
        stage == ServiceStage::LoopEnded ==> status == (ServiceStatus::Stop { message: None }),
        final(course).reached() == old(course).reached().push(stage),
        final(course).is_served() == old(course).is_served(),
{
}

/// A service may reach the loop's end only where its configuration gives a server.
pub proof fn law_course_is_as_configured(
    config: DhcpServerIpv4Config,
    start: ServiceCourse,
    course: ServiceCourse,
    stage: ServiceStage,
    possible: bool,
    ended: bool,
)
    requires
        call_ensures(ServiceCourse::new, (&config,), start),
        course.wf(),
        course.is_served() == start.is_served(),
        call_ensures(ServiceCourse::may_reach, (&course, stage), possible),
        call_ensures(ServiceCourse::has_ended, (&course,), ended),
    ensures
        start.reached().len() == 0,
        start.wf(),
        possible <==> match stage {
            ServiceStage::Entered => course.reached().len() == 0,
            ServiceStage::Listening => course.reached().len() == 1,
            ServiceStage::LoopEnded => course.reached().len() == 2 && config.network_mask <= 32,
        },
        ended <==> course.reached().len() == if config.network_mask <= 32 {
            3int
        } else {
            2int
        },
{
    crate::dhcp_server::laws::law_stages_come_in_order(course, stage);
    let whole = crate::dhcp_server::service::service_course(course.is_served());
    assert(course.reached().len() == whole.len() ==> course.reached() =~= whole);
}

/// The address of a host has the network bits of the server, and counts the host in the others.
pub proof fn law_host_has_its_address(inet: Ipv4Inet, host: u32, address: Ipv4Addr)
    requires
        inet.network_length <= 32,
        call_ensures(Ipv4Inet::nth_host, (&inet, host), address),
    ensures
        ({
            let size = vstd::arithmetic::power2::pow2((32 - inet.network_length) as nat) as int;
            &&& address as int / size == inet.address as int / size
            &&& address as int % size == host as int % size
        }),
{
    crate::net::law_host_address_splits_at_the_prefix(inet, host);
}

/// The option that is looked up by its number is the first one of the message that has it.
pub proof fn law_first_option_is_found(
    frame: DhcpEthFrame,
    index: u8,
    option: Option<DhcpOptions>,
    at: int,
)
    requires
        call_ensures(
            crate::dhcp_server::frame::DhcpOptionFrame::has_option,
            (&frame.options, index),
            option,
        ),
    ensures
        0 <= at < frame.options.options@.len() && frame.options.options@[at]@.index() == index && (
        forall|i: int| 0 <= i < at ==> (#[trigger] frame.options.options@[i])@.index() != index)
            ==> option is Some && option->0@ == frame.options.options@[at]@,
        option is None <==> forall|i: int|
            0 <= i < frame.options.options@.len() ==> (
            #[trigger] frame.options.options@[i])@.index() != index,
{
    let models = crate::dhcp_server::frame::option_models(frame.options.options@);
    assert forall|i: int| 0 <= i < models.len() implies #[trigger] models[i]
        == frame.options.options@[i]@ by {}
    crate::dhcp_server::frame::law_lookup_finds_the_first(models, index);
    if option is None {
        assert forall|i: int| 0 <= i < frame.options.options@.len() implies (
        #[trigger] frame.options.options@[i])@.index() != index by {
            assert(models[i].index() != index);
        }
    }
    if 0 <= at < models.len() && models[at].index() == index && (forall|i: int|
        0 <= i < at ==> (#[trigger] frame.options.options@[i])@.index() != index) {
        assert forall|i: int| 0 <= i < at implies (#[trigger] models[i]).index() != index by {
            assert(frame.options.options@[i]@.index() != index);
        }
    }
}

/// The server listens on port 67, and clients on port 68.
pub proof fn law_ports_are_those_of_the_protocol()
    ensures
        SERVER_PORT == 67,
        CLIENT_PORT == 68,
{
}

/// A client asks for a broadcast by the highest bit of its flags.
pub proof fn law_highest_flag_asks_for_broadcast(frame: DhcpEthFrame, broadcast: bool)
    requires
        call_ensures(DhcpEthFrame::is_broaddcast, (&frame,), broadcast),
    ensures
        broadcast <==> frame.flags & 0x8000u16 != 0,
{
    crate::dhcp_server::frame::law_broadcast_is_the_highest_bit(frame@);
}

} // verus!
