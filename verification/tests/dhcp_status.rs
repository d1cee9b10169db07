use landscape::dhcp_server::frame::{
    DhcpEthFrame, DhcpOptionFrame, DhcpOptionMessageType, DhcpOptions,
};
use landscape::dhcp_server::status::{DhcpServerStatus, DEFAULT_RENT_TIME, RENT_NANOS};
use landscape::net::Ipv4Inet;
use std::ops::Range;

fn ip(a: u8, b: u8, c: u8, d: u8) -> u32 {
    u32::from_be_bytes([a, b, c, d])
}

fn other(index: u8, payload: &[u8]) -> DhcpOptions {
    DhcpOptions::Other { index, payload: payload.to_vec() }
}

fn frame(
    message_type: DhcpOptionMessageType,
    chaddr: u64,
    options: Vec<DhcpOptions>,
) -> DhcpEthFrame {
    DhcpEthFrame {
        op: 1,
        htype: 1,
        hlen: 6,
        hops: 3,
        xid: 0x1234_5678,
        secs: 9,
        flags: 0x8000,
        ciaddr: ip(1, 2, 3, 4),
        yiaddr: ip(5, 6, 7, 8),
        siaddr: ip(9, 9, 9, 9),
        giaddr: ip(8, 8, 8, 8),
        chaddr,
        sname: vec![7; 3],
        file: vec![8; 5],
        magic_cookie: 0x6382_5363,
        options: DhcpOptionFrame { message_type, options, end: vec![255, 0] },
    }
}

fn discover(chaddr: u64) -> DhcpEthFrame {
    frame(DhcpOptionMessageType::Discover, chaddr, vec![])
}

fn request(chaddr: u64) -> DhcpEthFrame {
    frame(DhcpOptionMessageType::Request, chaddr, vec![])
}

fn server(host_range: Range<u32>) -> DhcpServerStatus {
    let server_ip = Ipv4Inet::new(ip(192, 168, 5, 1), 24).unwrap();
    let options = vec![
        other(1, &[255, 255, 255, 0]),
        other(3, &[192, 168, 5, 254]),
        other(6, &[1, 1, 1, 1]),
        other(3, &[192, 168, 5, 1]),
    ];
    DhcpServerStatus::new(server_ip, options, host_range, vec![1, 3, 6, 15, 51])
}

#[test]
fn an_offer_is_a_reply_with_the_address_of_the_preferred_host() {
    let mut status = server(10..20);
    let offer = status.gen_offer(discover(0xa1), 23);
    let expected = DhcpEthFrame {
        op: 2,
        htype: 1,
        hlen: 6,
        hops: 0,
        xid: 0x1234_5678,
        secs: 9,
        flags: 0x8000,
        ciaddr: 0,
        yiaddr: ip(192, 168, 5, 13),
        siaddr: 0,
        giaddr: 0,
        chaddr: 0xa1,
        sname: vec![0; 64],
        file: vec![0; 128],
        magic_cookie: 0x6382_5363,
        options: DhcpOptionFrame {
            message_type: DhcpOptionMessageType::Offer,
            options: vec![
                other(1, &[255, 255, 255, 0]),
                other(3, &[192, 168, 5, 1]),
                other(6, &[1, 1, 1, 1]),
                DhcpOptions::ServerIdentifier(ip(192, 168, 5, 1)),
            ],
            end: vec![255],
        },
    };
    assert_eq!(offer, expected);
}

#[test]
fn the_requested_options_come_in_the_order_of_the_list() {
    let mut status = server(10..20);
    let list = DhcpOptions::ParameterRequestList(vec![6, 99, 1, 6]);
    let ask = frame(DhcpOptionMessageType::Discover, 0xa1, vec![other(12, b"host"), list]);
    let offer = status.gen_offer(ask, 0);
    assert_eq!(
        offer.options.options,
        vec![
            other(6, &[1, 1, 1, 1]),
            other(1, &[255, 255, 255, 0]),
            other(6, &[1, 1, 1, 1]),
            DhcpOptions::ServerIdentifier(ip(192, 168, 5, 1)),
        ]
    );
}

#[test]
fn the_first_list_of_a_message_counts() {
    let mut status = server(10..20);
    let ask = frame(
        DhcpOptionMessageType::Discover,
        0xa1,
        vec![
            DhcpOptions::ParameterRequestList(vec![1]),
            DhcpOptions::ParameterRequestList(vec![6]),
        ],
    );
    let offer = status.gen_offer(ask, 0);
    assert_eq!(offer.options.options[0], other(1, &[255, 255, 255, 0]));
    assert_eq!(offer.options.options.len(), 2);
}

#[test]
fn something_else_in_place_of_the_list_asks_for_nothing() {
    let mut status = server(10..20);
    let odd = vec![other(55, &[1, 3])];
    let offer =
        status.gen_offer(frame(DhcpOptionMessageType::Discover, 0xa1, odd.clone()), 0);
    assert_eq!(
        offer.options.options,
        vec![DhcpOptions::ServerIdentifier(ip(192, 168, 5, 1))]
    );
    let ack = status.gen_ack(frame(DhcpOptionMessageType::Request, 0xa1, odd)).unwrap();
    assert_eq!(ack.options.options, vec![]);
}

#[test]
fn an_offer_repeats_whatever_the_seed() {
    let mut status = server(10..20);
    let first = status.gen_offer_at(discover(0xa1), 4, 0);
    let second = status.gen_offer_at(discover(0xa1), 7, 1_000);
    assert_eq!(first.yiaddr, ip(192, 168, 5, 14));
    assert_eq!(second.yiaddr, first.yiaddr);
    // the repeated offer took no host and did not start the lease anew
    let third = status.gen_offer_at(discover(0xa2), 7, 0);
    assert_eq!(third.yiaddr, ip(192, 168, 5, 17));
    status.expire_check_at(RENT_NANOS);
    assert_eq!(
        status.gen_ack_at(request(0xa1), RENT_NANOS).unwrap().options.message_type,
        DhcpOptionMessageType::Nak
    );
}

#[test]
fn clients_get_different_addresses() {
    let mut status = server(10..20);
    let mut seen = Vec::new();
    for client in 0..10u64 {
        assert!(status.can_offer(client));
        let offer = status.gen_offer(discover(client), 5);
        assert!(!seen.contains(&offer.yiaddr));
        seen.push(offer.yiaddr);
    }
    assert!(!status.can_offer(10));
    assert!(status.can_offer(3));
    assert_eq!(seen[0], ip(192, 168, 5, 15));
    assert_eq!(seen[9], ip(192, 168, 5, 14));
}

#[test]
fn an_empty_range_offers_nothing() {
    assert!(!server(10..10).can_offer(1));
    assert!(!server(Range { start: 11, end: 10 }).can_offer(1));
}

#[test]
fn a_request_confirms_what_was_offered() {
    let mut status = server(10..20);
    let offer = status.gen_offer(discover(0xa1), 2);
    let ack = status.gen_ack(request(0xa1)).unwrap();
    assert_eq!(ack.options.message_type, DhcpOptionMessageType::Ack);
    assert_eq!(ack.yiaddr, offer.yiaddr);
    assert_eq!(ack.op, 2);
    assert_eq!(ack.xid, 0x1234_5678);
    // the list asks for the lease time, which is not configured, so none is sent
    assert_eq!(
        ack.options.options,
        vec![
            other(1, &[255, 255, 255, 0]),
            other(3, &[192, 168, 5, 1]),
            other(6, &[1, 1, 1, 1]),
        ]
    );
    assert_eq!(ack.options.end, vec![255]);
}

#[test]
fn an_unasked_lease_time_comes_first() {
    let mut status = server(10..20);
    status.gen_offer(discover(0xa1), 2);
    let list = DhcpOptions::ParameterRequestList(vec![6]);
    let ack = status.gen_ack(frame(DhcpOptionMessageType::Request, 0xa1, vec![list])).unwrap();
    assert_eq!(
        ack.options.options,
        vec![DhcpOptions::AddressLeaseTime(40), other(6, &[1, 1, 1, 1])]
    );
}

#[test]
fn an_unknown_client_is_refused() {
    let mut status = server(10..20);
    let nak = status.gen_ack(request(0xa1)).unwrap();
    assert_eq!(nak.options.message_type, DhcpOptionMessageType::Nak);
    assert_eq!(nak.yiaddr, 0);
    // refusing takes nothing
    assert_eq!(status.gen_offer(discover(0xa2), 0).yiaddr, ip(192, 168, 5, 10));
}

#[test]
fn leases_run_out_after_twelve_hours() {
    assert_eq!(DEFAULT_RENT_TIME, 43_200);
    assert_eq!(RENT_NANOS, 43_200_000_000_000);
    let mut status = server(10..20);
    status.gen_offer_at(discover(0xa1), 0, 500);
    status.gen_offer_at(discover(0xa2), 0, 501);
    status.expire_check_at(500 + RENT_NANOS - 1);
    assert_eq!(
        status.gen_offer_at(discover(0xa1), 9, 500 + RENT_NANOS).yiaddr,
        ip(192, 168, 5, 10)
    );
    status.expire_check_at(500 + RENT_NANOS);
    let late = 500 + RENT_NANOS;
    let nak = status.gen_ack_at(request(0xa1), late).unwrap();
    assert_eq!(nak.options.message_type, DhcpOptionMessageType::Nak);
    let ack = status.gen_ack_at(request(0xa2), late).unwrap();
    assert_eq!(ack.options.message_type, DhcpOptionMessageType::Ack);
    assert_eq!(ack.yiaddr, ip(192, 168, 5, 11));
}

#[test]
fn a_request_starts_the_lease_anew() {
    let mut status = server(10..20);
    status.gen_offer_at(discover(0xa1), 0, 0);
    status.gen_ack_at(request(0xa1), RENT_NANOS / 2);
    status.expire_check_at(RENT_NANOS);
    let ack = status.gen_ack_at(request(0xa1), RENT_NANOS).unwrap();
    assert_eq!(ack.options.message_type, DhcpOptionMessageType::Ack);
    status.expire_check_at(2 * RENT_NANOS);
    let nak = status.gen_ack_at(request(0xa1), 2 * RENT_NANOS).unwrap();
    assert_eq!(nak.options.message_type, DhcpOptionMessageType::Nak);
}

#[test]
fn hosts_of_dropped_leases_stay_taken() {
    let mut status = server(10..12);
    status.gen_offer_at(discover(0xa1), 0, 0);
    status.expire_check_at(RENT_NANOS);
    assert_eq!(status.gen_offer_at(discover(0xa1), 0, RENT_NANOS).yiaddr, ip(192, 168, 5, 11));
    status.expire_check_at(2 * RENT_NANOS);
    assert!(!status.can_offer(0xa1));
}

#[test]
fn fresh_leases_survive_a_search_by_the_clock() {
    let mut status = server(10..20);
    let offer = status.gen_offer(discover(0xa1), 6);
    status.expire_check();
    assert_eq!(status.gen_ack(request(0xa1)).unwrap().yiaddr, offer.yiaddr);
}

#[test]
fn a_lease_by_the_clock_runs_out_too() {
    let mut status = server(10..20);
    status.gen_offer(discover(0xa1), 6);
    // no test takes as long as a minute
    status.expire_check_at(RENT_NANOS + 60_000_000_000);
    let nak = status.gen_ack(request(0xa1)).unwrap();
    assert_eq!(nak.options.message_type, DhcpOptionMessageType::Nak);
}

#[test]
fn of_two_searches_only_the_later_moment_counts() {
    let mut twice = server(10..20);
    let mut once = server(10..20);
    for status in [&mut twice, &mut once] {
        for (client, moment) in [(1, 0), (2, 50), (3, 100)] {
            status.gen_offer_at(discover(client), 0, moment);
        }
    }
    twice.expire_check_at(RENT_NANOS);
    twice.expire_check_at(RENT_NANOS + 50);
    twice.expire_check_at(RENT_NANOS);
    once.expire_check_at(RENT_NANOS + 50);
    for client in [1, 2, 3] {
        let late = RENT_NANOS + 50;
        let expected = once.gen_ack_at(request(client), late);
        assert_eq!(twice.gen_ack_at(request(client), late), expected);
    }
}

#[test]
fn clients_do_not_interfere() {
    let mut status = server(10..20);
    let first = status.gen_offer_at(discover(1), 0, 0);
    status.gen_offer_at(discover(2), 0, 10);
    status.gen_ack_at(request(2), 20);
    status.gen_ack_at(request(3), 30);
    status.expire_check_at(RENT_NANOS - 1);
    assert_eq!(status.gen_ack_at(request(1), 40).unwrap().yiaddr, first.yiaddr);
    let mut again = server(10..20);
    again.gen_offer_at(discover(1), 0, 0);
    again.gen_offer_at(discover(2), 0, 10);
    again.gen_ack_at(request(2), 20);
    again.expire_check_at(RENT_NANOS);
    assert_eq!(again.gen_ack_at(request(1), 40).unwrap().yiaddr, 0);
}

#[test]
fn addresses_repeat_only_where_the_range_is_larger_than_the_network() {
    let tiny = Ipv4Inet::new(ip(10, 0, 0, 1), 31).unwrap();
    let mut status = DhcpServerStatus::new(tiny, vec![], 0..3, vec![]);
    let addresses: Vec<u32> =
        (0..3u64).map(|client| status.gen_offer(discover(client), 0).yiaddr).collect();
    assert_eq!(addresses, vec![ip(10, 0, 0, 0), ip(10, 0, 0, 1), ip(10, 0, 0, 0)]);
}
