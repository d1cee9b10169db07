use landscape::dhcp_server::host_pool::{find_free_host, get_host_id};
use std::collections::HashSet;

#[test]
fn test_ip_alloc() {
    let host_size = 1..8;
    let mut seed = 2;
    let mut allocated_host = HashSet::new();
    allocated_host.insert(5);

    let index = get_host_id(host_size.clone(), seed, &mut allocated_host);
    println!("index: {index:?}, {allocated_host:?}");
    assert_eq!(index, Some(3));

    let index = get_host_id(host_size.clone(), seed, &mut allocated_host);
    println!("index: {index:?}, {allocated_host:?}");
    assert_eq!(index, Some(4));
    seed = 0;
    let index = get_host_id(host_size.clone(), seed, &mut allocated_host);
    println!("index: {index:?}, {allocated_host:?}");
    assert_eq!(index, Some(1));

    let index = get_host_id(host_size.clone(), seed, &mut allocated_host);
    println!("index: {index:?}, {allocated_host:?}");
    assert_eq!(index, Some(2));

    let index = get_host_id(host_size.clone(), seed, &mut allocated_host);
    println!("index: {index:?}, {allocated_host:?}");
    assert_eq!(index, Some(6));

    let index = get_host_id(host_size.clone(), seed, &mut allocated_host);
    println!("index: {index:?}, {allocated_host:?}");
    assert_eq!(index, Some(7));

    let index = get_host_id(host_size.clone(), seed, &mut allocated_host);
    println!("index: {index:?}, {allocated_host:?}");
    assert_eq!(index, None);

    let index = get_host_id(host_size.clone(), seed, &mut allocated_host);
    println!("index: {index:?}, {allocated_host:?}");
    assert_eq!(index, None);

    let index = get_host_id(host_size.clone(), seed, &mut allocated_host);
    println!("index: {index:?}, {allocated_host:?}");
    assert_eq!(index, None);

    let index = get_host_id(host_size.clone(), seed, &mut allocated_host);
    println!("index: {index:?}, {allocated_host:?}");
    assert_eq!(index, None);
    assert_eq!(allocated_host, HashSet::from([1, 2, 3, 4, 5, 6, 7]));
}

#[test]
fn test_ip_alloc_same_seed_large_then_2_lap() {
    let host_size = 1..254;
    let seed = 1398943828;
    let mut allocated_host = HashSet::new();

    let index = get_host_id(host_size.clone(), seed, &mut allocated_host);
    println!("index: {index:?}, {allocated_host:?}");
    assert_eq!(index, Some(63));
    let index = get_host_id(host_size.clone(), seed, &mut allocated_host);
    println!("index: {index:?}, {allocated_host:?}");
    assert_eq!(index, Some(64));

    let index = get_host_id(host_size.clone(), 2060278997, &mut allocated_host);
    println!("index: {index:?}, {allocated_host:?}");
    assert_eq!(index, Some(65));
    assert_eq!(allocated_host.len(), 3);
}

#[test]
fn search_wraps_round_at_the_end_of_the_range() {
    let mut allocated_host = HashSet::from([19]);
    // 19 is preferred, and the last of the range
    assert_eq!(get_host_id(10..20, 9, &mut allocated_host), Some(10));
    assert_eq!(get_host_id(10..20, 9, &mut allocated_host), Some(11));
}

#[test]
fn a_range_of_one_host_serves_once() {
    let mut allocated_host = HashSet::new();
    assert_eq!(get_host_id(7..8, 123_456, &mut allocated_host), Some(7));
    assert_eq!(get_host_id(7..8, 123_456, &mut allocated_host), None);
}

#[test]
fn the_widest_range_is_searched_without_overflow() {
    let mut allocated_host = HashSet::from([u32::MAX - 1]);
    assert_eq!(get_host_id(0..u32::MAX, u32::MAX - 1, &mut allocated_host), Some(0));
    assert_eq!(get_host_id(0..u32::MAX, u32::MAX - 1, &mut allocated_host), Some(1));
}

#[test]
fn searching_takes_nothing() {
    let allocated_host = HashSet::from([4]);
    assert_eq!(find_free_host(3..6, 1, &allocated_host), Some(5));
    assert_eq!(find_free_host(3..6, 1, &allocated_host), Some(5));
}

#[test]
fn a_run_hands_out_every_host_once() {
    let mut allocated_host = HashSet::new();
    let mut seen = Vec::new();
    let mut seed: u32 = 17;
    for _ in 0..50 {
        seed = seed.wrapping_mul(1_664_525).wrapping_add(1_013_904_223);
        let host = get_host_id(100..150, seed, &mut allocated_host).unwrap();
        assert!((100..150).contains(&host));
        assert!(!seen.contains(&host));
        seen.push(host);
    }
    assert_eq!(get_host_id(100..150, seed, &mut allocated_host), None);
}
