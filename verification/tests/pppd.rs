use landscape::pppd_client::course::{
    actions_on, pppd_args, PppdAction, PppdCourse, PppdEvent, PppdStatus,
};
use landscape::pppd_client::wan::{RouteInfo, RouteType, WanAction, WanAddress, WanWatch};
use landscape::pppd_client::watch::{check_stop, ChildState, PppdWatch, StopSignal, WatchStep};
use std::collections::HashSet;

#[test]
fn the_watch_ends_with_the_process() {
    let mut watch = PppdWatch::new();
    assert_eq!(watch.check_child(ChildState::Running), WatchStep::Continue);
    assert_eq!(watch.check_child(ChildState::Exited), WatchStep::Leave);
}

#[test]
fn the_fifth_failure_in_a_row_ends_the_watch() {
    let mut watch = PppdWatch::new();
    for _ in 0..4 {
        assert_eq!(watch.check_child(ChildState::Unknown), WatchStep::Continue);
    }
    assert_eq!(watch.check_child(ChildState::Unknown), WatchStep::Leave);
}

#[test]
fn a_look_that_succeeds_forgets_the_failures() {
    let mut watch = PppdWatch::new();
    for _ in 0..10 {
        for _ in 0..4 {
            assert_eq!(watch.check_child(ChildState::Unknown), WatchStep::Continue);
        }
        assert_eq!(watch.check_child(ChildState::Running), WatchStep::Continue);
    }
}

#[test]
fn the_watch_ends_when_asked_to_and_when_nobody_can_ask() {
    assert_eq!(check_stop(StopSignal::Empty), WatchStep::Continue);
    assert_eq!(check_stop(StopSignal::Received), WatchStep::Leave);
    assert_eq!(check_stop(StopSignal::Closed), WatchStep::Leave);
}

#[test]
fn a_course_ends_stopped() {
    let stop = PppdAction::Announce(PppdStatus::Stop);
    assert_eq!(
        actions_on(PppdEvent::Entered, true),
        vec![
            PppdAction::Announce(PppdStatus::Staring),
            PppdAction::Announce(PppdStatus::Running)
        ]
    );
    assert_eq!(
        actions_on(PppdEvent::ConfigWritten, true),
        vec![PppdAction::WatchAddress, PppdAction::Launch]
    );
    assert_eq!(actions_on(PppdEvent::ConfigFailed, true), vec![stop]);
    assert_eq!(actions_on(PppdEvent::LaunchFailed, true), vec![PppdAction::Unblock]);
    assert_eq!(
        actions_on(PppdEvent::WatchEnded, true),
        vec![PppdAction::KillChild, PppdAction::Unblock, PppdAction::DeleteConfig]
    );
    assert_eq!(actions_on(PppdEvent::Unblocked, true), vec![PppdAction::DelRoute, stop]);
    assert_eq!(actions_on(PppdEvent::Unblocked, false), vec![stop]);
}

#[test]
fn the_process_is_called_with_its_configuration() {
    assert_eq!(pppd_args(&"ppp0".to_string()), vec!["nodetach", "call", "ppp0"]);
}

fn address(ifindex: u32, addresses: &[u32]) -> Option<WanAddress> {
    Some(WanAddress { ifindex, addresses: addresses.iter().copied().collect::<HashSet<u32>>() })
}

#[test]
fn a_new_address_is_taken_up_once() {
    let mut watch = WanWatch::new("ppp0".to_string(), true);
    assert_eq!(watch.on_address(None), vec![]);
    let actions = watch.on_address(address(4, &[77]));
    let route =
        RouteInfo { iface_name: "ppp0".to_string(), weight: 1, route: RouteType::PPP };
    assert_eq!(
        actions,
        vec![WanAction::AddWanIp { ifindex: 4, ip: 77 }, WanAction::AddRoute(route)]
    );
    assert_eq!(watch.on_address(address(4, &[77])), vec![]);
    assert_eq!(watch.on_address(None), vec![]);
    assert_eq!(watch.on_address(address(4, &[77])), vec![]);
}

#[test]
fn a_change_of_interface_or_address_is_taken_up() {
    let mut watch = WanWatch::new("ppp0".to_string(), false);
    watch.on_address(address(4, &[77]));
    assert_eq!(
        watch.on_address(address(5, &[77])),
        vec![
            WanAction::AddWanIp { ifindex: 5, ip: 77 },
            WanAction::DelRoute { iface_name: "ppp0".to_string() }
        ]
    );
    assert_eq!(watch.on_address(address(5, &[78])).len(), 2);
    assert_eq!(watch.on_address(address(5, &[78, 79])).len(), 4);
    assert_eq!(watch.on_address(address(5, &[79])).len(), 2);
    assert_eq!(watch.on_address(address(5, &[])), vec![]);
    assert_eq!(watch.on_address(address(5, &[79])).len(), 2);
}

#[test]
fn every_address_is_taken_up_with_a_route_action_behind_it() {
    let mut watch = WanWatch::new("ppp0".to_string(), false);
    let actions = watch.on_address(address(9, &[1, 2, 3]));
    let mut ips = Vec::new();
    for pair in actions.chunks(2) {
        match &pair[0] {
            WanAction::AddWanIp { ifindex: 9, ip } => ips.push(*ip),
            unexpected => panic!("{unexpected:?}"),
        }
        assert_eq!(pair[1], WanAction::DelRoute { iface_name: "ppp0".to_string() });
    }
    ips.sort();
    assert_eq!(ips, vec![1, 2, 3]);
}

fn run(as_router: bool, events: &[PppdEvent]) -> Vec<PppdAction> {
    let mut course = PppdCourse::new(as_router);
    let mut actions = Vec::new();
    for event in events {
        assert!(!course.has_ended());
        assert!(course.may_follow(*event));
        actions.extend(course.step(*event));
    }
    assert!(course.has_ended());
    for event in [
        PppdEvent::Entered,
        PppdEvent::ConfigWritten,
        PppdEvent::ConfigFailed,
        PppdEvent::LaunchFailed,
        PppdEvent::WatchEnded,
        PppdEvent::Unblocked,
    ] {
        assert!(!course.may_follow(event));
    }
    actions
}

#[test]
fn a_course_is_taken_step_by_step() {
    let staring = PppdAction::Announce(PppdStatus::Staring);
    let running = PppdAction::Announce(PppdStatus::Running);
    let stop = PppdAction::Announce(PppdStatus::Stop);
    assert_eq!(
        run(true, &[PppdEvent::Entered, PppdEvent::ConfigFailed]),
        vec![staring, running, stop]
    );
    assert_eq!(
        run(
            true,
            &[
                PppdEvent::Entered,
                PppdEvent::ConfigWritten,
                PppdEvent::WatchEnded,
                PppdEvent::Unblocked
            ]
        ),
        vec![
            staring,
            running,
            PppdAction::WatchAddress,
            PppdAction::Launch,
            PppdAction::KillChild,
            PppdAction::Unblock,
            PppdAction::DeleteConfig,
            PppdAction::DelRoute,
            stop
        ]
    );
    assert_eq!(
        run(
            false,
            &[
                PppdEvent::Entered,
                PppdEvent::ConfigWritten,
                PppdEvent::LaunchFailed,
                PppdEvent::Unblocked
            ]
        ),
        vec![
            staring,
            running,
            PppdAction::WatchAddress,
            PppdAction::Launch,
            PppdAction::Unblock,
            stop
        ]
    );
    assert_eq!(
        run(false, &[PppdEvent::Entered, PppdEvent::ConfigWritten, PppdEvent::Unblocked]),
        vec![staring, running, PppdAction::WatchAddress, PppdAction::Launch, stop]
    );
}

#[test]
fn events_out_of_order_do_not_follow() {
    let mut course = PppdCourse::new(true);
    assert!(!course.may_follow(PppdEvent::ConfigWritten));
    course.step(PppdEvent::Entered);
    assert!(!course.may_follow(PppdEvent::Entered));
    assert!(!course.may_follow(PppdEvent::WatchEnded));
    assert!(!course.may_follow(PppdEvent::Unblocked));
    course.step(PppdEvent::ConfigWritten);
    assert!(!course.may_follow(PppdEvent::ConfigFailed));
    course.step(PppdEvent::LaunchFailed);
    assert!(!course.may_follow(PppdEvent::WatchEnded));
    assert!(!course.has_ended());
}

#[test]
fn a_round_joins_both_looks() {
    let mut watch = PppdWatch::new();
    assert_eq!(watch.look(ChildState::Running, StopSignal::Empty), WatchStep::Continue);
    assert_eq!(watch.look(ChildState::Running, StopSignal::Received), WatchStep::Leave);
    assert_eq!(watch.look(ChildState::Running, StopSignal::Closed), WatchStep::Leave);
    assert_eq!(watch.look(ChildState::Exited, StopSignal::Empty), WatchStep::Leave);
    for _ in 0..4 {
        assert_eq!(watch.look(ChildState::Unknown, StopSignal::Empty), WatchStep::Continue);
    }
    assert_eq!(watch.look(ChildState::Unknown, StopSignal::Empty), WatchStep::Leave);
}
