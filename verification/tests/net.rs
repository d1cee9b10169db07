use landscape::net::Ipv4Inet;

fn ip(a: u8, b: u8, c: u8, d: u8) -> u32 {
    u32::from_be_bytes([a, b, c, d])
}

#[test]
fn prefixes_up_to_the_length_of_an_address_are_accepted() {
    assert_eq!(
        Ipv4Inet::new(ip(192, 168, 5, 1), 24),
        Some(Ipv4Inet { address: ip(192, 168, 5, 1), network_length: 24 })
    );
    assert!(Ipv4Inet::new(ip(192, 168, 5, 1), 0).is_some());
    assert!(Ipv4Inet::new(ip(192, 168, 5, 1), 32).is_some());
    assert_eq!(Ipv4Inet::new(ip(192, 168, 5, 1), 33), None);
    assert_eq!(Ipv4Inet::new(ip(192, 168, 5, 1), 255), None);
}

#[test]
fn hosts_count_from_the_first_address_of_the_network() {
    let inet = Ipv4Inet::new(ip(192, 168, 5, 77), 24).unwrap();
    assert_eq!(inet.nth_host(0), ip(192, 168, 5, 0));
    assert_eq!(inet.nth_host(100), ip(192, 168, 5, 100));
    assert_eq!(inet.nth_host(255), ip(192, 168, 5, 255));
}

#[test]
fn hosts_wrap_round_within_the_network() {
    let inet = Ipv4Inet::new(ip(192, 168, 5, 77), 24).unwrap();
    assert_eq!(inet.nth_host(256), ip(192, 168, 5, 0));
    assert_eq!(inet.nth_host(257 + 256 * 1000), ip(192, 168, 5, 1));
    let top = Ipv4Inet::new(ip(255, 255, 255, 250), 28).unwrap();
    assert_eq!(top.nth_host(0), ip(255, 255, 255, 240));
    assert_eq!(top.nth_host(18), ip(255, 255, 255, 242));
    assert_eq!(top.nth_host(u32::MAX), ip(255, 255, 255, 255));
}

#[test]
fn the_extreme_networks_have_hosts_too() {
    let all = Ipv4Inet::new(ip(10, 1, 2, 3), 0).unwrap();
    assert_eq!(all.nth_host(ip(9, 8, 7, 6)), ip(9, 8, 7, 6));
    let one = Ipv4Inet::new(ip(10, 1, 2, 3), 32).unwrap();
    assert_eq!(one.nth_host(12_345), ip(10, 1, 2, 3));
}

#[test]
fn hosts_less_than_a_network_apart_differ() {
    let inet = Ipv4Inet::new(ip(10, 0, 0, 1), 29).unwrap();
    for low in 0..20u32 {
        for high in low + 1..low + 8 {
            assert_ne!(inet.nth_host(low), inet.nth_host(high));
        }
    }
}
