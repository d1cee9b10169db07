use landscape::dhcp_server::frame::{
    DhcpEthFrame, DhcpOptionFrame, DhcpOptionMessageType, DhcpOptions,
};
use landscape::dhcp_server::interface::{
    AddressAttribute, AddressMessage, AddressVerdict, AddressWalk,
};
use landscape::dhcp_server::service::{
    accepts, announced_status, handle_dhcp_message, handle_dhcp_message_at, serve_event, serve_event_at,
    DhcpServerIpv4Config, ServiceCourse, ServiceEvent, ServiceStage, ServiceStatus, ServiceStep,
};
use landscape::dhcp_server::status::{DhcpServerStatus, RENT_NANOS};
use landscape::net::{IpAddr, Ipv4Inet};

fn ip(a: u8, b: u8, c: u8, d: u8) -> u32 {
    u32::from_be_bytes([a, b, c, d])
}

fn config(network_mask: u8) -> DhcpServerIpv4Config {
    DhcpServerIpv4Config {
        options: vec![DhcpOptions::AddressLeaseTime(600)],
        server_ip_addr: ip(10, 0, 0, 1),
        network_mask,
        host_range: 100..102,
    }
}

fn server() -> DhcpServerStatus {
    config(24).into_server(vec![51]).unwrap()
}

fn message(op: u8, message_type: DhcpOptionMessageType, flags: u16) -> Option<DhcpEthFrame> {
    Some(DhcpEthFrame {
        op,
        htype: 1,
        hlen: 6,
        hops: 0,
        xid: 77,
        secs: 0,
        flags,
        ciaddr: 0,
        yiaddr: 0,
        siaddr: 0,
        giaddr: 0,
        chaddr: 0xbeef,
        sname: vec![],
        file: vec![],
        magic_cookie: 1,
        options: DhcpOptionFrame { message_type, options: vec![], end: vec![255] },
    })
}

#[test]
fn a_configuration_with_too_long_a_prefix_gives_no_server() {
    assert!(config(33).into_server(vec![]).is_none());
    assert_eq!(config(33).get_ipv4_inet(), None);
    assert_eq!(
        config(32).get_ipv4_inet(),
        Some(Ipv4Inet { address: ip(10, 0, 0, 1), network_length: 32 })
    );
    assert_eq!(config(24).interface_address(), (IpAddr::V4(ip(10, 0, 0, 1)), 24));
}

#[test]
fn a_discovering_client_gets_an_offer_sent_to_everyone() {
    let mut status = server();
    let discover = message(1, DhcpOptionMessageType::Discover, 0);
    assert!(accepts(&status, &discover));
    let reply = handle_dhcp_message(&mut status, discover, 1, 1068).unwrap();
    assert_eq!(reply.address, ip(255, 255, 255, 255));
    assert_eq!(reply.port, 68);
    assert_eq!(reply.payload.options.message_type, DhcpOptionMessageType::Offer);
    assert_eq!(reply.payload.yiaddr, ip(10, 0, 0, 101));
    assert_eq!(
        reply.payload.options.options,
        vec![DhcpOptions::AddressLeaseTime(600), DhcpOptions::ServerIdentifier(ip(10, 0, 0, 1))]
    );
}

#[test]
fn a_request_is_answered_where_the_client_listens() {
    let mut status = server();
    handle_dhcp_message(&mut status, message(1, DhcpOptionMessageType::Discover, 0), 0, 68);

    let request = message(1, DhcpOptionMessageType::Request, 0x7fff);
    let reply = handle_dhcp_message(&mut status, request, 0, 1068).unwrap();
    assert_eq!((reply.address, reply.port), (ip(10, 0, 0, 100), 1068));
    assert_eq!(reply.payload.options.message_type, DhcpOptionMessageType::Ack);

    let request = message(1, DhcpOptionMessageType::Request, 0x8000);
    let reply = handle_dhcp_message(&mut status, request, 0, 1068).unwrap();
    assert_eq!((reply.address, reply.port), (ip(255, 255, 255, 255), 68));
    assert_eq!(reply.payload.yiaddr, ip(10, 0, 0, 100));
}

#[test]
fn a_refusal_goes_to_the_unspecified_address_unless_broadcast() {
    let mut status = server();
    let request = message(1, DhcpOptionMessageType::Request, 0);
    let reply = handle_dhcp_message_at(&mut status, request, 0, 1068, 0).unwrap();
    assert_eq!((reply.address, reply.port), (0, 1068));
    assert_eq!(reply.payload.options.message_type, DhcpOptionMessageType::Nak);
}

#[test]
fn what_is_no_message_from_a_client_is_passed_over() {
    let mut status = server();
    assert!(accepts(&status, &None));
    assert_eq!(handle_dhcp_message(&mut status, None, 0, 68), None);
    for op in [0, 2, 3, 255] {
        let stray = message(op, DhcpOptionMessageType::Decline, 0);
        assert!(accepts(&status, &stray));
        assert_eq!(handle_dhcp_message(&mut status, stray, 0, 68), None);
    }
    for quiet in [DhcpOptionMessageType::Release, DhcpOptionMessageType::Offer] {
        let quiet = message(1, quiet, 0);
        assert!(accepts(&status, &quiet));
        assert_eq!(handle_dhcp_message(&mut status, quiet, 0, 68), None);
    }
}

#[test]
fn a_release_does_not_end_the_lease() {
    let mut status = server();
    handle_dhcp_message(&mut status, message(1, DhcpOptionMessageType::Discover, 0), 0, 68);
    handle_dhcp_message(&mut status, message(1, DhcpOptionMessageType::Release, 0), 0, 68);
    let request = message(1, DhcpOptionMessageType::Request, 0);
    let reply = handle_dhcp_message(&mut status, request, 0, 68).unwrap();
    assert_eq!(reply.payload.options.message_type, DhcpOptionMessageType::Ack);
}

#[test]
fn messages_without_an_implementation_are_not_accepted() {
    let status = server();
    for message_type in [
        DhcpOptionMessageType::Decline,
        DhcpOptionMessageType::Ack,
        DhcpOptionMessageType::Nak,
        DhcpOptionMessageType::Inform,
        DhcpOptionMessageType::ForceRenew,
        DhcpOptionMessageType::LeaseQuery,
        DhcpOptionMessageType::LeaseUnassigned,
        DhcpOptionMessageType::LeaseUnknown,
        DhcpOptionMessageType::LeaseActive,
        DhcpOptionMessageType::BulkLeaseQuery,
        DhcpOptionMessageType::LeaseQueryDone,
        DhcpOptionMessageType::ActiveLeaseQuery,
        DhcpOptionMessageType::LeaseQueryStatus,
        DhcpOptionMessageType::Tls,
    ] {
        assert!(!accepts(&status, &message(1, message_type, 0)));
    }
}

#[test]
fn a_discovering_client_is_not_accepted_once_the_range_is_used_up() {
    let mut status = server();
    for client in [1, 2] {
        let mut discover = message(1, DhcpOptionMessageType::Discover, 0);
        discover.as_mut().unwrap().chaddr = client;
        assert!(accepts(&status, &discover));
        handle_dhcp_message(&mut status, discover, 0, 68);
    }
    assert!(!accepts(&status, &message(1, DhcpOptionMessageType::Discover, 0)));
    assert!(accepts(&status, &message(1, DhcpOptionMessageType::Request, 0)));
}

#[test]
fn the_loop_ends_when_it_is_told_to() {
    let mut status = server();
    assert_eq!(serve_event(&mut status, ServiceEvent::MessagesClosed), ServiceStep::Exit);
    assert_eq!(serve_event(&mut status, ServiceEvent::StatusLost), ServiceStep::Exit);
    assert_eq!(
        serve_event(&mut status, ServiceEvent::StatusChanged(ServiceStatus::Stopping)),
        ServiceStep::Exit
    );
    let stop = ServiceStatus::Stop { message: Some("done".to_string()) };
    assert_eq!(serve_event(&mut status, ServiceEvent::StatusChanged(stop)), ServiceStep::Exit);
    assert_eq!(
        serve_event(&mut status, ServiceEvent::StatusChanged(ServiceStatus::Staring)),
        ServiceStep::Continue
    );
    assert_eq!(
        serve_event(&mut status, ServiceEvent::StatusChanged(ServiceStatus::Running)),
        ServiceStep::Continue
    );
}

fn event(message_type: DhcpOptionMessageType) -> ServiceEvent {
    ServiceEvent::Message { dhcp: message(1, message_type, 0), seed: 0, msg_port: 68 }
}

#[test]
fn the_loop_answers_and_drops_outdated_leases() {
    let mut status = server();
    let step = serve_event_at(&mut status, event(DhcpOptionMessageType::Discover), 0);
    let offered = match step {
        ServiceStep::Answer(reply) => reply.payload.yiaddr,
        unexpected => panic!("{unexpected:?}"),
    };
    assert_eq!(offered, ip(10, 0, 0, 100));

    let before = RENT_NANOS - 1;
    assert_eq!(
        serve_event_at(&mut status, ServiceEvent::LeaseTimer, before),
        ServiceStep::RearmTimer { after: 600 }
    );
    match serve_event_at(&mut status, event(DhcpOptionMessageType::Request), before) {
        ServiceStep::Answer(reply) => assert_eq!(reply.payload.yiaddr, offered),
        unexpected => panic!("{unexpected:?}"),
    }

    serve_event_at(&mut status, ServiceEvent::LeaseTimer, before + RENT_NANOS);
    match serve_event(&mut status, event(DhcpOptionMessageType::Request)) {
        ServiceStep::Answer(reply) => {
            assert_eq!(reply.payload.options.message_type, DhcpOptionMessageType::Nak)
        }
        unexpected => panic!("{unexpected:?}"),
    }
    assert_eq!(
        serve_event(&mut status, event(DhcpOptionMessageType::Release)),
        ServiceStep::Continue
    );
    let noise = ServiceEvent::Message { dhcp: None, seed: 0, msg_port: 9 };
    assert_eq!(serve_event(&mut status, noise), ServiceStep::Continue);
}

#[test]
fn an_address_never_passes_to_another_client() {
    let mut status = server();
    let mut owners = Vec::new();
    for client in [1, 2] {
        let mut dhcp = message(1, DhcpOptionMessageType::Discover, 0);
        dhcp.as_mut().unwrap().chaddr = client;
        let discover = ServiceEvent::Message { dhcp, seed: 0, msg_port: 68 };
        match serve_event_at(&mut status, discover, 0) {
            ServiceStep::Answer(reply) => owners.push(reply.payload.yiaddr),
            unexpected => panic!("{unexpected:?}"),
        }
        serve_event_at(&mut status, ServiceEvent::LeaseTimer, RENT_NANOS);
    }
    assert_eq!(owners, vec![ip(10, 0, 0, 100), ip(10, 0, 0, 101)]);
}

#[test]
fn the_service_announces_its_stages() {
    assert_eq!(announced_status(ServiceStage::Entered), ServiceStatus::Staring);
    assert_eq!(announced_status(ServiceStage::Listening), ServiceStatus::Running);
    assert_eq!(
        announced_status(ServiceStage::LoopEnded),
        ServiceStatus::Stop { message: None }
    );
}

#[test]
fn a_service_keeps_to_its_course() {
    for served in [true, false] {
        let mut course = ServiceCourse::new(&config(if served { 24 } else { 33 }));
        assert!(!course.may_reach(ServiceStage::Listening));
        assert!(course.may_reach(ServiceStage::Entered));
        assert_eq!(course.step(ServiceStage::Entered), ServiceStatus::Staring);
        assert!(!course.may_reach(ServiceStage::Entered));
        assert!(!course.may_reach(ServiceStage::LoopEnded));
        assert!(!course.has_ended());
        assert!(course.may_reach(ServiceStage::Listening));
        assert_eq!(course.step(ServiceStage::Listening), ServiceStatus::Running);
        assert_eq!(course.has_ended(), !served);
        assert_eq!(course.may_reach(ServiceStage::LoopEnded), served);
        if served {
            let stop = ServiceStatus::Stop { message: None };
            assert_eq!(course.step(ServiceStage::LoopEnded), stop);
            assert!(course.has_ended());
            assert!(!course.may_reach(ServiceStage::Entered));
        }
    }
}

#[test]
fn a_settled_interface_is_left_alone() {
    let mut walk = walk();
    for addr in [address("br0", 1, 24), address("eth0", 7, 8), address("br0", 1, 24)] {
        assert_ne!(walk.visit(&addr), AddressVerdict::Delete);
    }
    assert!(!walk.need_create());
}

fn address(link: &str, last_octet: u8, prefix_len: u8) -> AddressMessage {
    AddressMessage {
        prefix_len,
        attributes: vec![
            AddressAttribute::Other,
            AddressAttribute::Address(IpAddr::V4(ip(10, 0, 0, last_octet))),
            AddressAttribute::Label(link.to_string()),
        ],
    }
}

fn walk() -> AddressWalk {
    AddressWalk::new("br0".to_string(), IpAddr::V4(ip(10, 0, 0, 1)), 24)
}

#[test]
fn a_bare_interface_gets_the_address() {
    let mut walk = walk();
    assert!(walk.need_create());
    assert_eq!(walk.visit(&address("eth0", 1, 24)), AddressVerdict::Ignore);
    assert!(walk.need_create());
}

#[test]
fn the_configured_address_stays() {
    let mut walk = walk();
    assert_eq!(walk.visit(&address("br0", 1, 24)), AddressVerdict::Keep);
    assert_eq!(walk.visit(&address("eth0", 9, 16)), AddressVerdict::Ignore);
    assert!(!walk.need_create());
}

#[test]
fn another_address_of_the_interface_is_deleted() {
    let mut walk = walk();
    assert_eq!(walk.visit(&address("br0", 2, 24)), AddressVerdict::Delete);
    assert!(walk.need_create());
    assert_eq!(walk.visit(&address("br0", 1, 16)), AddressVerdict::Delete);
    assert!(walk.need_create());
    let v6 = AddressMessage {
        prefix_len: 24,
        attributes: vec![
            AddressAttribute::Label("br0".to_string()),
            AddressAttribute::Address(IpAddr::V6(1)),
        ],
    };
    assert_eq!(walk.visit(&v6), AddressVerdict::Delete);
    assert!(walk.need_create());
}

#[test]
fn the_last_address_of_the_interface_decides() {
    let mut first = walk();
    first.visit(&address("br0", 2, 24));
    first.visit(&address("br0", 1, 24));
    assert!(!first.need_create());
    let mut second = walk();
    second.visit(&address("br0", 1, 24));
    second.visit(&address("br0", 2, 24));
    assert!(second.need_create());
}

#[test]
fn an_address_without_a_label_is_passed_over() {
    let mut walk = walk();
    let unlabelled = AddressMessage {
        prefix_len: 24,
        attributes: vec![AddressAttribute::Address(IpAddr::V4(ip(10, 0, 0, 1)))],
    };
    assert_eq!(walk.visit(&unlabelled), AddressVerdict::Ignore);
    assert!(walk.need_create());
}
