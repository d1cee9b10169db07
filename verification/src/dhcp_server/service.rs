//! What the running server does: how it is set up from its configuration, how each message of a
//! client is answered, and when the loop that serves clients ends.

use crate::clock::LONGEST_NANOS;
use crate::dhcp_server::frame::{
    DhcpEthFrame, DhcpOptionMessageType, DhcpOptions, FrameModel,
};
use crate::dhcp_server::status::{DhcpServerStatus, ServerModel, RENT_NANOS};
use crate::net::{IpAddr, Ipv4Addr, Ipv4Inet, BROADCAST};
use std::ops::Range;
use vstd::prelude::*;

verus! {

/// The port that the server listens on.
pub const SERVER_PORT: u16 = 67;

/// The port that clients listen on.
pub const CLIENT_PORT: u16 = 68;

/// How many seconds pass between two searches for leases that have run out.
pub const IP_EXPIRE_INTERVAL: u64 = 60 * 10;

/// The `op` of a message from a client to a server.
pub const BOOT_REQUEST: u8 = 1;

/// The configuration of a server.
#[derive(Debug)]
pub struct DhcpServerIpv4Config {
    pub options: Vec<DhcpOptions>,
    pub server_ip_addr: Ipv4Addr,
    pub network_mask: u8,
    pub host_range: Range<u32>,
}

impl DhcpServerIpv4Config {
    /// The configured network exists, and so a server for it.
    pub open spec fn is_served(self) -> bool {
        self.network_mask <= 32
    }

    /// The address of the server within its network, or `None` where the prefix is longer than an
    /// address.
    pub fn get_ipv4_inet(&self) -> (inet: Option<Ipv4Inet>)
        ensures
            inet is Some <==> self.is_served(),
            inet matches Some(inet) ==> inet == (Ipv4Inet {
                address: self.server_ip_addr,
                network_length: self.network_mask,
            }),
    {
        Ipv4Inet::new(self.server_ip_addr, self.network_mask)
    }

    /// The address, with its prefix length, that the interface of the server has to have.
    pub fn interface_address(&self) -> (address: (IpAddr, u8))
        ensures
            address == (IpAddr::V4(self.server_ip_addr), self.network_mask),
    {
        (IpAddr::V4(self.server_ip_addr), self.network_mask)
    }

    /// The server that the configuration asks for. There is none where the configured network does
    /// not exist, and then nothing is ever served.
    pub fn into_server(self, default_request_list: Vec<u8>) -> (server: Option<DhcpServerStatus>)
        ensures
            server is Some <==> self.is_served(),
            server matches Some(server) ==> {
                &&& server@.wf()
                &&& server.measured_by().was_started()
                &&& server@ == ServerModel::fresh(
                    Ipv4Inet {
                        address: self.server_ip_addr,
                        network_length: self.network_mask,
                    },
                    crate::dhcp_server::frame::option_models(self.options@),
                    self.host_range,
                    default_request_list@,
                )
            },
    {
        match self.get_ipv4_inet() {
            Some(server_ip) => Some(
                DhcpServerStatus::new(
                    server_ip,
                    self.options,
                    self.host_range,
                    default_request_list,
                ),
            ),
            None => None,
        }
    }
}

/// An answer, and where it is sent to.
#[derive(Debug, PartialEq, Eq)]
pub struct DhcpReply {
    pub payload: DhcpEthFrame,
    pub address: Ipv4Addr,
    pub port: u16,
}

/// What an answer says, and where it is sent to.
pub struct ReplyModel {
    pub payload: FrameModel,
    pub address: Ipv4Addr,
    pub port: u16,
}

impl View for DhcpReply {
    type V = ReplyModel;

    open spec fn view(&self) -> ReplyModel {
        ReplyModel { payload: self.payload@, address: self.address, port: self.port }
    }
}

/// The kinds of message that the server knows what to do with.
pub open spec fn is_implemented(message_type: DhcpOptionMessageType) -> bool {
    ||| message_type == DhcpOptionMessageType::Discover
    ||| message_type == DhcpOptionMessageType::Offer
    ||| message_type == DhcpOptionMessageType::Request
    ||| message_type == DhcpOptionMessageType::Release
}

/// What a datagram decodes to, if it does.
pub open spec fn decoded(dhcp: Option<DhcpEthFrame>) -> Option<FrameModel> {
    match dhcp {
        Some(frame) => Some(frame@),
        None => None,
    }
}

/// What is sent, if anything is.
pub open spec fn sent(reply: Option<DhcpReply>) -> Option<ReplyModel> {
    match reply {
        Some(reply) => Some(reply@),
        None => None,
    }
}

/// The server can deal with a message: it is of no concern, or it is of a kind that the server
/// knows, and an address is left for a client in search of one.
pub open spec fn can_handle(server: ServerModel, dhcp: Option<FrameModel>) -> bool {
    dhcp matches Some(frame) ==> (frame.op == BOOT_REQUEST ==> {
        &&& is_implemented(frame.message_type)
        &&& frame.message_type == DhcpOptionMessageType::Discover ==> server.can_offer(
            frame.chaddr,
        )
    })
}

/// Where the answer to a request is sent to: to everyone where the client asked for that, and
/// else to the address that the answer carries, at the port that the request came from.
pub open spec fn ack_destination(payload: FrameModel, msg_port: u16) -> (Ipv4Addr, u16) {
    if payload.is_broadcast() {
        (BROADCAST, CLIENT_PORT)
    } else {
        (payload.yiaddr, msg_port)
    }
}

/// `next` and `reply` are what a message at the moment `now` leads to. A client in search of an
/// address gets an offer, sent to everyone. A request is answered. Every other message, and what is
/// no message from a client, is passed over.
pub open spec fn responds(
    server: ServerModel,
    dhcp: Option<FrameModel>,
    seed: u32,
    msg_port: u16,
    now: u128,
    next: ServerModel,
    reply: Option<ReplyModel>,
) -> bool {
    match dhcp {
        Some(frame) => {
            if frame.op == BOOT_REQUEST && frame.message_type == DhcpOptionMessageType::Discover {
                &&& reply is Some
                &&& server.offers(frame, seed, now, next, reply->0.payload)
                &&& reply->0.address == BROADCAST
                &&& reply->0.port == CLIENT_PORT
            } else if frame.op == BOOT_REQUEST && frame.message_type
                == DhcpOptionMessageType::Request {
                &&& next == server.after_request(frame.chaddr, now)
                &&& reply is Some
                &&& reply->0.payload == server.ack(frame)
                &&& (reply->0.address, reply->0.port) == ack_destination(server.ack(frame), msg_port)
            } else {
                next == server && reply is None
            }
        },
        None => next == server && reply is None,
    }
}

/// Whether the server can deal with a message.
pub fn accepts(dhcp_status: &DhcpServerStatus, dhcp: &Option<DhcpEthFrame>) -> (accepted: bool)
    ensures
        accepted == can_handle(dhcp_status@, decoded(*dhcp)),
{
    match dhcp {
        None => true,
        Some(frame) => {
            if frame.op != BOOT_REQUEST {
                return true;
            }
            match frame.options.message_type {
                DhcpOptionMessageType::Discover => dhcp_status.can_offer(frame.chaddr),
                DhcpOptionMessageType::Offer
                | DhcpOptionMessageType::Request
                | DhcpOptionMessageType::Release => true,
                _ => false,
            }
        },
    }
}

/// Deals with a message from port `msg_port` at the moment `now`.
pub fn handle_dhcp_message_at(
    dhcp_status: &mut DhcpServerStatus,
    dhcp: Option<DhcpEthFrame>,
    seed: u32,
    msg_port: u16,
    now: u128,
) -> (reply: Option<DhcpReply>)
    requires
        old(dhcp_status)@.wf(),
        can_handle(old(dhcp_status)@, decoded(dhcp)),
        now + RENT_NANOS <= u128::MAX,
    ensures
        responds(
            old(dhcp_status)@,
            decoded(dhcp),
            seed,
            msg_port,
            now,
            final(dhcp_status)@,
            sent(reply),
        ),
        final(dhcp_status)@.wf(),
        final(dhcp_status).measured_by() == old(dhcp_status).measured_by(),
{
    let dhcp: DhcpEthFrame = match dhcp {
        Some(dhcp) => dhcp,
        None => {
            return None;
        },
    };
    if dhcp.op != BOOT_REQUEST {
        return None;
    }
    match dhcp.options.message_type {
        DhcpOptionMessageType::Discover => {
            let payload = dhcp_status.gen_offer_at(dhcp, seed, now);
            Some(DhcpReply { payload, address: BROADCAST, port: CLIENT_PORT })
        },
        DhcpOptionMessageType::Request => {
            match dhcp_status.gen_ack_at(dhcp, now) {
                Some(payload) => {
                    if payload.is_broaddcast() {
                        Some(DhcpReply { payload, address: BROADCAST, port: CLIENT_PORT })
                    } else {
                        let address: Ipv4Addr = payload.yiaddr;
                        Some(DhcpReply { payload, address, port: msg_port })
                    }
                },
                None => None,
            }
        },
        _ => None,
    }
}

/// Deals with a message from port `msg_port`.
///
/// The seed is the checksum of the client's hardware address. Which moment a lease starts at is up
/// to the clock of the server.
pub fn handle_dhcp_message(
    dhcp_status: &mut DhcpServerStatus,
    dhcp: Option<DhcpEthFrame>,
    seed: u32,
    msg_port: u16,
) -> (reply: Option<DhcpReply>)
    requires
        old(dhcp_status)@.wf(),
        can_handle(old(dhcp_status)@, decoded(dhcp)),
    ensures
        exists|now: u128|
            now <= LONGEST_NANOS && old(dhcp_status).measured_by().reads(
                now,
            ) && #[trigger] responds(
                old(dhcp_status)@,
                decoded(dhcp),
                seed,
                msg_port,
                now,
                final(dhcp_status)@,
                sent(reply),
            ),
        final(dhcp_status)@.wf(),
        final(dhcp_status).measured_by() == old(dhcp_status).measured_by(),
{
    let now: u128 = dhcp_status.now();
    handle_dhcp_message_at(dhcp_status, dhcp, seed, msg_port, now)
}

/// How far a service has come.
#[derive(Clone, Debug, PartialEq, Eq)]
pub enum ServiceStatus {
    Staring,
    Running,
    Stopping,
    Stop { message: Option<String> },
}

/// The moments at which the service announces how far it has come.
#[derive(Clone, Copy, Debug, PartialEq, Eq, Structural)]
pub enum ServiceStage {
    /// The service was asked for.
    Entered,
    /// Messages are being received.
    Listening,
    /// The loop that serves clients has ended.
    LoopEnded,
}

/// The status that belongs to a stage.
pub open spec fn announced(stage: ServiceStage) -> ServiceStatus {
    match stage {
        ServiceStage::Entered => ServiceStatus::Staring,
        ServiceStage::Listening => ServiceStatus::Running,
        ServiceStage::LoopEnded => ServiceStatus::Stop { message: None },
    }
}

/// The stages of a service that runs to its end, in this order, by whether there is a server.
/// Without one there is no loop, so that none ends.
pub open spec fn service_course(served: bool) -> Seq<ServiceStage> {
    if served {
        seq![ServiceStage::Entered, ServiceStage::Listening, ServiceStage::LoopEnded]
    } else {
        seq![ServiceStage::Entered, ServiceStage::Listening]
    }
}

/// What is announced at the given stages, in this order.
pub open spec fn announcements(stages: Seq<ServiceStage>) -> Seq<ServiceStatus> {
    stages.map_values(|stage: ServiceStage| announced(stage))
}

/// The status that the service announces at a stage.
pub fn announced_status(stage: ServiceStage) -> (status: ServiceStatus)
    ensures
        status == announced(stage),
{
    match stage {
        ServiceStage::Entered => ServiceStatus::Staring,
        ServiceStage::Listening => ServiceStatus::Running,
        ServiceStage::LoopEnded => ServiceStatus::Stop { message: None },
    }
}

/// The course of one service.
#[derive(Debug)]
pub struct ServiceCourse {
    served: bool,
    last: Option<ServiceStage>,
}

impl ServiceCourse {
    /// There is a server.
    pub closed spec fn is_served(self) -> bool {
        self.served
    }

    /// The stages that the service has reached so far.
    pub closed spec fn reached(self) -> Seq<ServiceStage> {
        match self.last {
            None => seq![],
            Some(ServiceStage::Entered) => seq![ServiceStage::Entered],
            Some(ServiceStage::Listening) => seq![ServiceStage::Entered, ServiceStage::Listening],
            Some(ServiceStage::LoopEnded) => seq![
                ServiceStage::Entered,
                ServiceStage::Listening,
                ServiceStage::LoopEnded,
            ],
        }
    }

    /// The service has kept to the course.
    pub open spec fn wf(self) -> bool {
        self.reached().is_prefix_of(service_course(self.is_served()))
    }

    /// The stage is the next one of the course.
    pub open spec fn comes_next(self, stage: ServiceStage) -> bool {
        self.reached().push(stage).is_prefix_of(service_course(self.is_served()))
    }

    /// The course of a service with the given configuration, which has reached no stage yet.
    pub fn new(config: &DhcpServerIpv4Config) -> (course: ServiceCourse)
        ensures
            course.wf(),
            course.is_served() == config.is_served(),
            course.reached() == Seq::<ServiceStage>::empty(),
    {
        ServiceCourse { served: config.get_ipv4_inet().is_some(), last: None }
    }

    /// Whether a stage is the next one.
    pub fn may_reach(&self, stage: ServiceStage) -> (possible: bool)
        requires
            self.wf(),
        ensures
            possible == self.comes_next(stage),
    {
        let ghost course = service_course(self.is_served());
        let ghost count = self.reached().len() as int;
        let possible: bool = match (self.last, stage) {
            (None, ServiceStage::Entered) => true,
            (Some(ServiceStage::Entered), ServiceStage::Listening) => true,
            (Some(ServiceStage::Listening), ServiceStage::LoopEnded) => self.served,
            _ => false,
        };
        proof {
            assert(self.reached().push(stage)[count] == stage);
            if possible {
                assert(self.reached().push(stage) =~= course.take(count + 1));
            } else if self.comes_next(stage) {
                assert(course[count] == stage);
            }
        }
        possible
    }

    /// Whether the service has run to its end.
    pub fn has_ended(&self) -> (ended: bool)
        requires
            self.wf(),
        ensures
            ended == (self.reached() == service_course(self.is_served())),
    {
        let ghost course = service_course(self.is_served());
        let ended: bool = match self.last {
            Some(ServiceStage::Listening) => !self.served,
            Some(ServiceStage::LoopEnded) => true,
            _ => false,
        };
        assert(ended ==> self.reached() =~= course);
        assert(!ended ==> self.reached().len() != course.len());
        ended
    }

    /// Reaches the next stage, and tells what is announced there.
    pub fn step(&mut self, stage: ServiceStage) -> (status: ServiceStatus)
        requires
            old(self).wf(),
            old(self).comes_next(stage),
        ensures
            status == announced(stage),
            final(self).wf(),
            final(self).is_served() == old(self).is_served(),
            final(self).reached() == old(self).reached().push(stage),
            announcements(final(self).reached()) == announcements(old(self).reached()).push(
                status,
            ),
    {
        let ghost before = self.reached();
        let ghost course = service_course(self.is_served());
        let ghost count = before.len() as int;
        proof {
            assert(before.push(stage)[count] == stage);
            assert(course[count] == stage);
        }
        self.last = Some(stage);
        assert(self.reached() =~= before.push(stage));
        assert(announcements(before.push(stage)) =~= announcements(before).push(announced(stage)));
        announced_status(stage)
    }
}

/// What the loop that serves clients wakes up for.
#[derive(Debug, PartialEq, Eq)]
pub enum ServiceEvent {
    /// A datagram was received: the message that it holds, if it holds one, the checksum of the
    /// client's hardware address, and the port that it came from.
    Message { dhcp: Option<DhcpEthFrame>, seed: u32, msg_port: u16 },
    /// No datagram will be received any more.
    MessagesClosed,
    /// The time between two searches for outdated leases has passed.
    LeaseTimer,
    /// The status of the service was changed to the given one.
    StatusChanged(ServiceStatus),
    /// The status of the service can not be watched any more.
    StatusLost,
}

/// What the loop that serves clients does next.
#[derive(Debug, PartialEq, Eq)]
pub enum ServiceStep {
    /// Send an answer and go on.
    Answer(DhcpReply),
    /// Wake up again after so many seconds, and go on.
    RearmTimer { after: u64 },
    /// Go on.
    Continue,
    /// Leave the loop.
    Exit,
}

/// The service has been told to stop.
pub open spec fn is_stopped(status: ServiceStatus) -> bool {
    status is Stopping || status is Stop
}

/// The loop ends with this event: it is told to, or it can not be told anything any more.
pub open spec fn ends_loop(event: ServiceEvent) -> bool {
    match event {
        ServiceEvent::MessagesClosed | ServiceEvent::StatusLost => true,
        ServiceEvent::StatusChanged(status) => is_stopped(status),
        ServiceEvent::Message { .. } | ServiceEvent::LeaseTimer => false,
    }
}

/// The server can deal with an event.
pub open spec fn can_serve(server: ServerModel, event: ServiceEvent) -> bool {
    event matches ServiceEvent::Message { dhcp, .. } ==> can_handle(server, decoded(dhcp))
}

/// `next` and `step` are what an event at the moment `now` leads to. A message is dealt with, and
/// its answer sent. When the time has come, outdated leases are dropped. Nothing else touches the
/// server, and the loop ends with an event that ends it and with no other.
pub open spec fn serves(
    server: ServerModel,
    event: ServiceEvent,
    now: u128,
    next: ServerModel,
    step: ServiceStep,
) -> bool {
    match event {
        ServiceEvent::Message { dhcp, seed, msg_port } => match step {
            ServiceStep::Answer(reply) => responds(
                server,
                decoded(dhcp),
                seed,
                msg_port,
                now,
                next,
                Some(reply@),
            ),
            ServiceStep::Continue => responds(
                server,
                decoded(dhcp),
                seed,
                msg_port,
                now,
                next,
                None,
            ),
            _ => false,
        },
        ServiceEvent::LeaseTimer => next == server.expired(now) && step
            == (ServiceStep::RearmTimer { after: IP_EXPIRE_INTERVAL }),
        ServiceEvent::MessagesClosed
        | ServiceEvent::StatusLost
        | ServiceEvent::StatusChanged(_) => next == server && step == if ends_loop(event) {
            ServiceStep::Exit
        } else {
            ServiceStep::Continue
        },
    }
}

/// What the loop does on an event at the moment `now`.
pub fn serve_event_at(dhcp_status: &mut DhcpServerStatus, event: ServiceEvent, now: u128) -> (step:
    ServiceStep)
    requires
        old(dhcp_status)@.wf(),
        can_serve(old(dhcp_status)@, event),
        now + RENT_NANOS <= u128::MAX,
    ensures
        serves(old(dhcp_status)@, event, now, final(dhcp_status)@, step),
        final(dhcp_status)@.wf(),
        final(dhcp_status).measured_by() == old(dhcp_status).measured_by(),
{
    match event {
        ServiceEvent::Message { dhcp, seed, msg_port } => {
            match handle_dhcp_message_at(dhcp_status, dhcp, seed, msg_port, now) {
                Some(reply) => ServiceStep::Answer(reply),
                None => ServiceStep::Continue,
            }
        },
        ServiceEvent::MessagesClosed => ServiceStep::Exit,
        ServiceEvent::LeaseTimer => {
            dhcp_status.expire_check_at(now);
            ServiceStep::RearmTimer { after: IP_EXPIRE_INTERVAL }
        },
        ServiceEvent::StatusChanged(status) => match status {
            ServiceStatus::Stopping | ServiceStatus::Stop { .. } => ServiceStep::Exit,
            _ => ServiceStep::Continue,
        },
        ServiceEvent::StatusLost => ServiceStep::Exit,
    }
}

/// What the loop does on an event.
///
/// Which moment that is, is up to the clock of the server.
pub fn serve_event(dhcp_status: &mut DhcpServerStatus, event: ServiceEvent) -> (step: ServiceStep)
    requires
        old(dhcp_status)@.wf(),
        can_serve(old(dhcp_status)@, event),
    ensures
        exists|now: u128|
            now <= LONGEST_NANOS && old(dhcp_status).measured_by().reads(now) && #[trigger] serves(
                old(dhcp_status)@,
                event,
                now,
                final(dhcp_status)@,
                step,
            ),
        final(dhcp_status)@.wf(),
        final(dhcp_status).measured_by() == old(dhcp_status).measured_by(),
{
    let now: u128 = dhcp_status.now();
    serve_event_at(dhcp_status, event, now)
}

} // verus!
