//! What a client is told, spelled out on the message that it sent and on the state of the server.

use crate::dhcp_server::frame::{
    DhcpEthFrame, DhcpOptionMessageType, DhcpOptions, FrameModel, OptionModel,
};
use crate::dhcp_server::service::DhcpReply;
use crate::dhcp_server::status::{Lease, ServerModel};
use crate::net::{Ipv4Inet, MacAddr};
use std::ops::Range;
use vstd::prelude::*;

verus! {

/// A client that lists the options that it wants is told every configured one of them, in the order
/// of its list and as often as the list names it, and nothing that it does not list, but for two
/// things: an answer to a request starts with a lease time of 40 seconds exactly where the list
/// does not ask for the lease time, and an offer ends with the address of the server. The first
/// list of a message is the one that counts.
pub proof fn law_listed_options_are_sent(
    server: ServerModel,
    frame: FrameModel,
    at: int,
    list: Seq<u8>,
    seed: u32,
    now: u128,
    next: ServerModel,
    offer: FrameModel,
)
    requires
        0 <= at < frame.options.len(),
        frame.options[at] == OptionModel::ParameterRequestList(list),
        forall|i: int|
            0 <= i < at ==> match #[trigger] frame.options[i] {
                OptionModel::ParameterRequestList(_) => false,
                OptionModel::Other { index, .. } => index != 55,
                _ => true,
            },
        server.offers(frame, seed, now, next, offer),
    ensures
        ({
            let options = server.ack(frame).options;
            let lead: int = if list.contains(51) {
                0
            } else {
                1
            };
            let known = |index: u8| server.options.contains_key(index);
            &&& options.len() == lead + list.filter(known).len()
            &&& !list.contains(51) ==> options[0] == OptionModel::AddressLeaseTime(40)
            &&& forall|i: int|
                0 <= i < list.len() && server.options.contains_key(#[trigger] list[i])
                    ==> options[lead + list.take(i).filter(known).len()] == server.options[list[i]]
            &&& offer.options.len() == list.filter(known).len() + 1
            &&& offer.options.last() == OptionModel::ServerIdentifier(server.server_ip.address)
            &&& forall|i: int|
                0 <= i < list.len() && server.options.contains_key(#[trigger] list[i])
                    ==> offer.options[list.take(i).filter(known).len() as int]
                    == server.options[list[i]]
        }),
{
    crate::dhcp_server::frame::law_lookup_finds_the_first(frame.options, 55);
    assert(frame.options[at].index() == 55);
    assert forall|i: int| 0 <= i < at implies (#[trigger] frame.options[i]).index() != 55 by {}
    assert(server.requested(frame) == Some(list));
    lemma_configured_keeps_order(server, list);
}

/// A client that lists no options is told the same as one that lists the default ones.
pub proof fn law_default_options_are_sent(
    server: ServerModel,
    frame: FrameModel,
    seed: u32,
    now: u128,
    next: ServerModel,
    offer: FrameModel,
)
    requires
        forall|i: int|
            0 <= i < frame.options.len() ==> match #[trigger] frame.options[i] {
                OptionModel::ParameterRequestList(_) => false,
                OptionModel::Other { index, .. } => index != 55,
                _ => true,
            },
        server.offers(frame, seed, now, next, offer),
    ensures
        ({
            let list = server.default_request_list;
            let options = server.ack(frame).options;
            let lead: int = if list.contains(51) {
                0
            } else {
                1
            };
            let known = |index: u8| server.options.contains_key(index);
            &&& options.len() == lead + list.filter(known).len()
            &&& !list.contains(51) ==> options[0] == OptionModel::AddressLeaseTime(40)
            &&& forall|i: int|
                0 <= i < list.len() && server.options.contains_key(#[trigger] list[i])
                    ==> options[lead + list.take(i).filter(known).len()] == server.options[list[i]]
            &&& offer.options.len() == list.filter(known).len() + 1
            &&& offer.options.last() == OptionModel::ServerIdentifier(server.server_ip.address)
            &&& forall|i: int|
                0 <= i < list.len() && server.options.contains_key(#[trigger] list[i])
                    ==> offer.options[list.take(i).filter(known).len() as int]
                    == server.options[list[i]]
        }),
{
    crate::dhcp_server::frame::law_lookup_finds_the_first(frame.options, 55);
    assert forall|i: int| 0 <= i < frame.options.len() implies (#[trigger] frame.options[i]).index()
        != 55 by {}
    assert(server.requested(frame) == Some(server.default_request_list));
    lemma_configured_keeps_order(server, server.default_request_list);
}

/// A client that has something else in the place of its list is told no option in answer to a
/// request, and only the address of the server in an offer.
pub proof fn law_garbled_list_gets_no_options(
    server: ServerModel,
    frame: FrameModel,
    at: int,
    payload: Seq<u8>,
    seed: u32,
    now: u128,
    next: ServerModel,
    offer: FrameModel,
)
    requires
        0 <= at < frame.options.len(),
        frame.options[at] == (OptionModel::Other { index: 55, payload }),
        forall|i: int|
            0 <= i < at ==> match #[trigger] frame.options[i] {
                OptionModel::ParameterRequestList(_) => false,
                OptionModel::Other { index, .. } => index != 55,
                _ => true,
            },
        server.offers(frame, seed, now, next, offer),
    ensures
        server.ack(frame).options.len() == 0,
        offer.options == seq![OptionModel::ServerIdentifier(server.server_ip.address)],
{
    crate::dhcp_server::frame::law_lookup_finds_the_first(frame.options, 55);
    assert(frame.options[at].index() == 55);
    assert forall|i: int| 0 <= i < at implies (#[trigger] frame.options[i]).index() != 55 by {}
}

/// An answer to a request confirms the address of a client that has one, and refuses any other
/// client. Either way it repeats the exchange and the client, and says nothing else.
pub proof fn law_request_is_confirmed_or_refused(server: ServerModel, frame: FrameModel)
    ensures
        ({
            let answer = server.ack(frame);
            &&& server.leases.contains_key(frame.chaddr) ==> answer.message_type
                == DhcpOptionMessageType::Ack && answer.yiaddr == server.leases[frame.chaddr].ip
            &&& !server.leases.contains_key(frame.chaddr) ==> answer.message_type
                == DhcpOptionMessageType::Nak && answer.yiaddr == 0
            &&& answer.op == 2
            &&& answer.htype == 1
            &&& answer.hlen == 6
            &&& answer.hops == 0
            &&& answer.xid == frame.xid
            &&& answer.secs == frame.secs
            &&& answer.flags == frame.flags
            &&& answer.ciaddr == 0
            &&& answer.siaddr == 0
            &&& answer.giaddr == 0
            &&& answer.chaddr == frame.chaddr
            &&& answer.sname.len() == 64
            &&& forall|i: int| 0 <= i < 64 ==> answer.sname[i] == 0
            &&& answer.file.len() == 128
            &&& forall|i: int| 0 <= i < 128 ==> answer.file[i] == 0
            &&& answer.magic_cookie == frame.magic_cookie
            &&& answer.end == seq![255u8]
        }),
{
}

/// A request moves the end of the client's lease to twelve hours from then on, and touches nothing
/// else. The request of a client without a lease touches nothing at all.
pub proof fn law_request_only_moves_the_end(
    server: ServerModel,
    client: MacAddr,
    now: u128,
    other: MacAddr,
)
    requires
        now + 43_200_000_000_000 <= u128::MAX,
    ensures
        ({
            let next = server.after_request(client, now);
            &&& next.leases.contains_key(other) <==> server.leases.contains_key(other)
            &&& server.leases.contains_key(other) && other != client ==> next.leases[other]
                == server.leases[other]
            &&& server.leases.contains_key(client) ==> next.leases[client].ip
                == server.leases[client].ip && next.leases[client].expire == now
                + 43_200_000_000_000
            &&& !server.leases.contains_key(client) ==> next == server
            &&& next.allocated == server.allocated
            &&& next.options == server.options
            &&& next.server_ip == server.server_ip
            &&& next.host_range == server.host_range
            &&& next.default_request_list == server.default_request_list
        }),
{
}

/// An offer names the address that the client has from then on. A client that had one is offered
/// that one, and nothing changes. Any other client is lent the first free host, going up from the
/// one that its seed prefers and from the start of the range again, for twelve hours; no other
/// lease and no other host changes. The offer repeats the exchange and the client, and says nothing
/// else but its options.
pub proof fn law_offer_lends_the_first_free_host(
    server: ServerModel,
    frame: FrameModel,
    seed: u32,
    now: u128,
    next: ServerModel,
    offer: FrameModel,
)
    requires
        server.offers(frame, seed, now, next, offer),
        now + 43_200_000_000_000 <= u128::MAX,
    ensures
        next.leases.contains_key(frame.chaddr),
        next.leases[frame.chaddr].ip == offer.yiaddr,
        server.leases.contains_key(frame.chaddr) ==> next == server,
        !server.leases.contains_key(frame.chaddr) ==> exists|host: u32|
            {
                let start = server.host_range.start;
                let end = server.host_range.end;
                let preferred = start + seed as int % (end - start);
                &&& start <= host < end
                &&& !#[trigger] server.allocated.contains(host)
                &&& host >= preferred ==> forall|taken: u32|
                    preferred <= taken < host ==> #[trigger] server.allocated.contains(taken)
                &&& host < preferred ==> forall|taken: u32|
                    preferred <= taken < end || start <= taken < host
                        ==> #[trigger] server.allocated.contains(taken)
                &&& next.allocated == server.allocated.insert(host)
                &&& offer.yiaddr == server.server_ip.host_address(host)
            },
        !server.leases.contains_key(frame.chaddr) ==> next.leases == server.leases.insert(
            frame.chaddr,
            Lease { ip: offer.yiaddr, expire: (now + 43_200_000_000_000) as u128 },
        ),
        next.options == server.options,
        next.server_ip == server.server_ip,
        next.host_range == server.host_range,
        next.default_request_list == server.default_request_list,
        offer.message_type == DhcpOptionMessageType::Offer,
        offer.op == 2,
        offer.htype == 1,
        offer.hlen == 6,
        offer.hops == 0,
        offer.xid == frame.xid,
        offer.secs == frame.secs,
        offer.flags == frame.flags,
        offer.ciaddr == 0,
        offer.siaddr == 0,
        offer.giaddr == 0,
        offer.chaddr == frame.chaddr,
        offer.sname.len() == 64,
        forall|i: int| 0 <= i < 64 ==> offer.sname[i] == 0,
        offer.file.len() == 128,
        forall|i: int| 0 <= i < 128 ==> offer.file[i] == 0,
        offer.magic_cookie == frame.magic_cookie,
        offer.end == seq![255u8],
{
    if !server.leases.contains_key(frame.chaddr) {
        let host = choose|host: u32| #[trigger]
            crate::dhcp_server::host_pool::nearest_free(
                server.host_range,
                seed,
                server.allocated,
                Some(host),
            ) && next == server.lend(
                frame.chaddr,
                host,
                (now + crate::dhcp_server::status::RENT_NANOS) as u128,
            );
        crate::dhcp_server::host_pool::law_no_free_host_is_skipped(
            server.host_range,
            seed,
            server.allocated,
            Some(host),
        );
        assert(!server.allocated.contains(host));
    }
}

/// An address can be offered exactly to a client that has one, and to every client while some host
/// of the range is not handed out.
pub proof fn law_offer_needs_a_free_host(server: ServerModel, client: MacAddr)
    ensures
        server.can_offer(client) <==> server.leases.contains_key(client) || exists|host: u32|
            server.host_range.start <= host < server.host_range.end
                && !#[trigger] server.allocated.contains(host),
{
    if exists|host: u32|
        server.host_range.start <= host < server.host_range.end
            && !#[trigger] server.allocated.contains(host) {
        let host = choose|host: u32|
            server.host_range.start <= host < server.host_range.end
                && !#[trigger] server.allocated.contains(host);
        assert(crate::dhcp_server::host_pool::is_free(
            server.host_range,
            server.allocated,
            host,
        ));
    }
}

/// A search for outdated leases drops those whose end has come, and touches nothing else.
pub proof fn law_search_only_drops_leases(server: ServerModel, now: u128, client: MacAddr)
    ensures
        ({
            let next = server.expired(now);
            &&& next.leases.contains_key(client) <==> server.leases.contains_key(client)
                && server.leases[client].expire > now
            &&& next.leases.contains_key(client) ==> next.leases[client] == server.leases[client]
            &&& next.allocated == server.allocated
            &&& next.options == server.options
            &&& next.server_ip == server.server_ip
            &&& next.host_range == server.host_range
            &&& next.default_request_list == server.default_request_list
        }),
{
}

/// A server starts with what it is configured with, has lent nothing and handed no host out, and is
/// sound wherever its network exists. Of the options with one number it has the last one.
pub proof fn law_server_starts_empty(
    server_ip: Ipv4Inet,
    options: Seq<DhcpOptions>,
    host_range: Range<u32>,
    default_request_list: Seq<u8>,
    last: int,
)
    ensures
        ({
            let server = ServerModel::fresh(
                server_ip,
                crate::dhcp_server::frame::option_models(options),
                host_range,
                default_request_list,
            );
            &&& server.leases == Map::<MacAddr, Lease>::empty()
            &&& server.allocated == Set::<u32>::empty()
            &&& server.server_ip == server_ip
            &&& server.host_range == host_range
            &&& server.default_request_list == default_request_list
            &&& server_ip.network_length <= 32 ==> server.wf()
            &&& 0 <= last < options.len() && (forall|i: int|
                last < i < options.len() ==> (#[trigger] options[i])@.index()
                    != options[last]@.index()) ==> server.options.contains_key(
                options[last]@.index(),
            ) && server.options[options[last]@.index()] == options[last]@
            &&& forall|index: u8| #[trigger]
                server.options.contains_key(index) ==> exists|i: int|
                    0 <= i < options.len() && (#[trigger] options[i])@.index() == index
        }),
{
    let models = crate::dhcp_server::frame::option_models(options);
    assert forall|i: int| 0 <= i < models.len() implies #[trigger] models[i] == options[i]@ by {}
    if 0 <= last < options.len() && (forall|i: int|
        last < i < options.len() ==> (#[trigger] options[i])@.index() != options[last]@.index()) {
        assert forall|i: int| last < i < models.len() implies (#[trigger] models[i]).index()
            != models[last].index() by {
            assert(options[i]@.index() != options[last]@.index());
        }
        crate::dhcp_server::laws::law_last_configured_option_counts(models, last);
    }
    assert forall|index: u8| #[trigger]
        ServerModel::by_index(models).contains_key(index) implies exists|i: int|
        0 <= i < options.len() && (#[trigger] options[i])@.index() == index by {
        if forall|i: int| 0 <= i < options.len() ==> (#[trigger] options[i])@.index() != index {
            assert forall|i: int| 0 <= i < models.len() implies (#[trigger] models[i]).index()
                != index by {
                assert(options[i]@.index() != index);
            }
            crate::dhcp_server::laws::law_unconfigured_index_stays_empty(models, index);
        }
    }
}

/// A message is answered exactly where it comes from a client that searches for an address or
/// requests one, whatever else it says. A search is answered with an offer to everyone, and leaves
/// the client with a lease for the address in the offer. A request is answered with a confirmation
/// or a refusal: to everyone where the client has set the highest bit of its flags, and else to the
/// address in the answer, at the port that the request came from. Every other message changes
/// nothing.
pub proof fn law_searches_and_requests_are_answered(
    server: ServerModel,
    frame: DhcpEthFrame,
    seed: u32,
    msg_port: u16,
    now: u128,
    next: ServerModel,
    reply: Option<DhcpReply>,
)
    requires
        crate::dhcp_server::service::responds(
            server,
            crate::dhcp_server::service::decoded(Some(frame)),
            seed,
            msg_port,
            now,
            next,
            crate::dhcp_server::service::sent(reply),
        ),
    ensures
        reply is Some <==> frame.op == 1 && (frame.options.message_type
            == DhcpOptionMessageType::Discover || frame.options.message_type
            == DhcpOptionMessageType::Request),
        frame.op == 1 && frame.options.message_type == DhcpOptionMessageType::Discover ==> {
            &&& reply is Some
            &&& reply->0.address == 0xffff_ffff
            &&& reply->0.port == 68
            &&& reply->0.payload.options.message_type == DhcpOptionMessageType::Offer
            &&& next.leases.contains_key(frame.chaddr)
            &&& next.leases[frame.chaddr].ip == reply->0.payload.yiaddr
            &&& server.offers(frame@, seed, now, next, reply->0.payload@)
        },
        frame.op == 1 && frame.options.message_type == DhcpOptionMessageType::Request ==> {
            &&& reply is Some
            &&& server.leases.contains_key(frame.chaddr) ==> {
                &&& reply->0.payload.options.message_type == DhcpOptionMessageType::Ack
                &&& reply->0.payload.yiaddr == server.leases[frame.chaddr].ip
            }
            &&& !server.leases.contains_key(frame.chaddr) ==> {
                &&& reply->0.payload.options.message_type == DhcpOptionMessageType::Nak
                &&& reply->0.payload.yiaddr == 0
            }
            &&& frame.flags & 0x8000u16 != 0 ==> reply->0.address == 0xffff_ffff && reply->0.port
                == 68
            &&& frame.flags & 0x8000u16 == 0 ==> reply->0.address == reply->0.payload.yiaddr
                && reply->0.port == msg_port
            &&& reply->0.payload@ == server.ack(frame@)
            &&& next == server.after_request(frame.chaddr, now)
        },
        reply is None ==> next == server,
{
    crate::dhcp_server::frame::law_broadcast_is_the_highest_bit(server.ack(frame@));
}

/// What does not decode to a message is passed over.
pub proof fn law_noise_is_passed_over(
    server: ServerModel,
    seed: u32,
    msg_port: u16,
    now: u128,
    next: ServerModel,
    reply: Option<DhcpReply>,
)
    requires
        crate::dhcp_server::service::responds(
            server,
            crate::dhcp_server::service::decoded(None),
            seed,
            msg_port,
            now,
            next,
            crate::dhcp_server::service::sent(reply),
        ),
    ensures
        reply is None,
        next == server,
{
}

/// Every message can be dealt with, but for one of a client that is of another kind than a search,
/// an offer, a request or a release, and for the search of a client without a lease once all hosts
/// of the range are handed out.
pub proof fn law_messages_that_can_be_dealt_with(server: ServerModel, dhcp: Option<DhcpEthFrame>)
    ensures
        crate::dhcp_server::service::can_handle(
            server,
            crate::dhcp_server::service::decoded(dhcp),
        ) <==> match dhcp {
            None => true,
            Some(frame) => frame.op != 1 || match frame.options.message_type {
                DhcpOptionMessageType::Discover => server.leases.contains_key(frame.chaddr)
                    || exists|host: u32|
                    server.host_range.start <= host < server.host_range.end
                        && !#[trigger] server.allocated.contains(host),
                DhcpOptionMessageType::Offer
                | DhcpOptionMessageType::Request
                | DhcpOptionMessageType::Release => true,
                _ => false,
            },
        },
{
    if let Some(frame) = dhcp {
        law_offer_needs_a_free_host(server, frame.chaddr);
    }
}

/// What is sent is what the answer holds, to where the answer says.
pub proof fn law_reply_says_its_fields(reply: DhcpReply)
    ensures
        reply@.payload == reply.payload@,
        reply@.address == reply.address,
        reply@.port == reply.port,
{
}

/// Each configured option of a list comes behind those that the list names before it.
proof fn lemma_configured_keeps_order(server: ServerModel, list: Seq<u8>)
    ensures
        ({
            let known = |index: u8| server.options.contains_key(index);
            &&& server.configured(list).len() == list.filter(known).len()
            &&& forall|i: int|
                0 <= i < list.len() && server.options.contains_key(#[trigger] list[i]) ==> {
                    let place = list.take(i).filter(known).len() as int;
                    &&& place < list.filter(known).len()
                    &&& server.configured(list)[place] == server.options[list[i]]
                }
        }),
    decreases list.len(),
{
    let known = |index: u8| server.options.contains_key(index);
    assert forall|i: int| 0 <= i < list.len() && server.options.contains_key(#[trigger] list[i])
        implies ({
        let place = list.take(i).filter(known).len() as int;
        &&& place < list.filter(known).len()
        &&& server.configured(list)[place] == server.options[list[i]]
    }) by {
        lemma_filter_place(list, known, i);
    }
}

/// A member that is kept comes behind those that are kept of what stands before it.
proof fn lemma_filter_place(list: Seq<u8>, keep: spec_fn(u8) -> bool, i: int)
    requires
        0 <= i < list.len(),
        keep(list[i]),
    ensures
        list.take(i).filter(keep).len() < list.filter(keep).len(),
        list.filter(keep)[list.take(i).filter(keep).len() as int] == list[i],
    decreases list.len(),
{
    reveal(Seq::filter);
    let shorter = list.drop_last();
    if i == list.len() - 1 {
        assert(list.take(i) =~= shorter);
    } else {
        lemma_filter_place(shorter, keep, i);
        assert(shorter.take(i) =~= list.take(i));
    }
}

} // verus!
