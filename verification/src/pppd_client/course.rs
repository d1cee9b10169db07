//! The course of one connection, from the moment that it is asked for until it has ended.

use vstd::prelude::*;

verus! {

/// How far the service has come.
#[derive(Clone, Copy, Debug, PartialEq, Eq, Structural)]
pub enum PppdStatus {
    Staring,
    Running,
    Stopping,
    Stop,
}

/// What can happen on the way.
#[derive(Clone, Copy, Debug, PartialEq, Eq, Structural)]
pub enum PppdEvent {
    /// The connection is asked for.
    Entered,
    /// The configuration of `pppd` was written.
    ConfigWritten,
    /// The configuration of `pppd` could not be written.
    ConfigFailed,
    /// The process could not be launched.
    LaunchFailed,
    /// The watch over the process has ended.
    WatchEnded,
    /// Whoever waited for the connection to end was woken up.
    Unblocked,
}

/// What is done about it.
#[derive(Clone, Copy, Debug, PartialEq, Eq, Structural)]
pub enum PppdAction {
    /// Announce how far the service has come.
    Announce(PppdStatus),
    /// Start to watch the address of the connection.
    WatchAddress,
    /// Launch the process, and watch over it.
    Launch,
    /// Kill the process.
    KillChild,
    /// Wake up whoever waits for the connection to end.
    Unblock,
    /// Delete the configuration of `pppd`.
    DeleteConfig,
    /// Take the route through the connection away.
    DelRoute,
}

/// What is done on an event, in this order, where the connection is the default route or not.
pub open spec fn plan(event: PppdEvent, as_router: bool) -> Seq<PppdAction> {
    match event {
        PppdEvent::Entered => seq![
            PppdAction::Announce(PppdStatus::Staring),
            PppdAction::Announce(PppdStatus::Running),
        ],
        PppdEvent::ConfigWritten => seq![PppdAction::WatchAddress, PppdAction::Launch],
        PppdEvent::ConfigFailed => seq![PppdAction::Announce(PppdStatus::Stop)],
        PppdEvent::LaunchFailed => seq![PppdAction::Unblock],
        PppdEvent::WatchEnded => seq![
            PppdAction::KillChild,
            PppdAction::Unblock,
            PppdAction::DeleteConfig,
        ],
        PppdEvent::Unblocked => if as_router {
            seq![PppdAction::DelRoute, PppdAction::Announce(PppdStatus::Stop)]
        } else {
            seq![PppdAction::Announce(PppdStatus::Stop)]
        },
    }
}

/// What is done on an event, in this order.
pub fn actions_on(event: PppdEvent, as_router: bool) -> (actions: Vec<PppdAction>)
    ensures
        actions@ == plan(event, as_router),
{
    let mut actions: Vec<PppdAction> = Vec::new();
    match event {
        PppdEvent::Entered => {
            actions.push(PppdAction::Announce(PppdStatus::Staring));
            actions.push(PppdAction::Announce(PppdStatus::Running));
        },
        PppdEvent::ConfigWritten => {
            actions.push(PppdAction::WatchAddress);
            actions.push(PppdAction::Launch);
        },
        PppdEvent::ConfigFailed => {
            actions.push(PppdAction::Announce(PppdStatus::Stop));
        },
        PppdEvent::LaunchFailed => {
            actions.push(PppdAction::Unblock);
        },
        PppdEvent::WatchEnded => {
            actions.push(PppdAction::KillChild);
            actions.push(PppdAction::Unblock);
            actions.push(PppdAction::DeleteConfig);
        },
        PppdEvent::Unblocked => {
            if as_router {
                actions.push(PppdAction::DelRoute);
            }
            actions.push(PppdAction::Announce(PppdStatus::Stop));
        },
    }
    assert(actions@ =~= plan(event, as_router));
    actions
}

/// How far a course has come.
#[derive(Clone, Copy, Debug, PartialEq, Eq, Structural)]
pub enum PppdStage {
    /// Nothing has happened yet.
    Created,
    /// The configuration is to be written.
    Configuring,
    /// The process is to be launched, or runs.
    Connecting,
    /// The process is gone, and whoever waits for that is to be woken up.
    Closing,
    /// Nothing is to happen any more.
    Ended,
}

/// Where an event leads to, or `None` where it can not follow. Whoever waits is woken up too where
/// the thread that runs the process is lost without a word.
pub open spec fn stage_next(stage: PppdStage, event: PppdEvent) -> Option<PppdStage> {
    match (stage, event) {
        (PppdStage::Created, PppdEvent::Entered) => Some(PppdStage::Configuring),
        (PppdStage::Configuring, PppdEvent::ConfigWritten) => Some(PppdStage::Connecting),
        (PppdStage::Configuring, PppdEvent::ConfigFailed) => Some(PppdStage::Ended),
        (PppdStage::Connecting, PppdEvent::LaunchFailed) => Some(PppdStage::Closing),
        (PppdStage::Connecting, PppdEvent::WatchEnded) => Some(PppdStage::Closing),
        (PppdStage::Connecting, PppdEvent::Unblocked) => Some(PppdStage::Ended),
        (PppdStage::Closing, PppdEvent::Unblocked) => Some(PppdStage::Ended),
        _ => None,
    }
}

/// Where the given events lead to, or `None` where they can not follow one another.
pub open spec fn stage_after(events: Seq<PppdEvent>) -> Option<PppdStage>
    decreases events.len(),
{
    if events.len() == 0 {
        Some(PppdStage::Created)
    } else {
        match stage_after(events.drop_last()) {
            Some(stage) => stage_next(stage, events.last()),
            None => None,
        }
    }
}

/// All that is done on the given events.
pub open spec fn done(events: Seq<PppdEvent>, as_router: bool) -> Seq<PppdAction>
    decreases events.len(),
{
    if events.len() == 0 {
        seq![]
    } else {
        done(events.drop_last(), as_router) + plan(events.last(), as_router)
    }
}

/// One course.
pub struct PppdCourse {
    stage: PppdStage,
    as_router: bool,
    events: Ghost<Seq<PppdEvent>>,
}

impl PppdCourse {
    /// The connection is the default route.
    pub closed spec fn routes(self) -> bool {
        self.as_router
    }

    /// What has happened so far.
    pub closed spec fn events(self) -> Seq<PppdEvent> {
        self.events@
    }

    /// How far the course has come.
    pub closed spec fn stage(self) -> PppdStage {
        self.stage
    }

    /// The course is where its events have led it to.
    pub open spec fn wf(self) -> bool {
        stage_after(self.events()) == Some(self.stage())
    }

    /// A course in which nothing has happened yet.
    pub fn new(as_router: bool) -> (course: PppdCourse)
        ensures
            course.wf(),
            course.routes() == as_router,
            course.events() == Seq::<PppdEvent>::empty(),
            course.stage() == PppdStage::Created,
    {
        PppdCourse { stage: PppdStage::Created, as_router, events: Ghost(Seq::empty()) }
    }

    /// Where an event would lead to, or `None` where it can not follow.
    fn next(&self, event: PppdEvent) -> (next: Option<PppdStage>)
        ensures
            next == stage_next(self.stage(), event),
    {
        match (self.stage, event) {
            (PppdStage::Created, PppdEvent::Entered) => Some(PppdStage::Configuring),
            (PppdStage::Configuring, PppdEvent::ConfigWritten) => Some(PppdStage::Connecting),
            (PppdStage::Configuring, PppdEvent::ConfigFailed) => Some(PppdStage::Ended),
            (PppdStage::Connecting, PppdEvent::LaunchFailed) => Some(PppdStage::Closing),
            (PppdStage::Connecting, PppdEvent::WatchEnded) => Some(PppdStage::Closing),
            (PppdStage::Connecting, PppdEvent::Unblocked) => Some(PppdStage::Ended),
            (PppdStage::Closing, PppdEvent::Unblocked) => Some(PppdStage::Ended),
            _ => None,
        }
    }

    /// Whether an event can follow on what has happened so far.
    pub fn may_follow(&self, event: PppdEvent) -> (possible: bool)
        ensures
            possible == (stage_next(self.stage(), event) is Some),
    {
        self.next(event).is_some()
    }

    /// Whether nothing is to happen any more.
    pub fn has_ended(&self) -> (ended: bool)
        ensures
            ended == (self.stage() == PppdStage::Ended),
    {
        self.stage == PppdStage::Ended
    }

    /// Takes the course on by one event, and tells what is done about it.
    pub fn step(&mut self, event: PppdEvent) -> (actions: Vec<PppdAction>)
        requires
            old(self).wf(),
            stage_next(old(self).stage(), event) is Some,
        ensures
            actions@ == plan(event, old(self).routes()),
            final(self).wf(),
            Some(final(self).stage()) == stage_next(old(self).stage(), event),
            final(self).events() == old(self).events().push(event),
            final(self).routes() == old(self).routes(),
            done(final(self).events(), final(self).routes()) == done(
                old(self).events(),
                old(self).routes(),
            ) + actions@,
    {
        let ghost before = self.events@;
        if let Some(stage) = self.next(event) {
            self.stage = stage;
        }
        self.events = Ghost(before.push(event));
        assert(before.push(event).drop_last() =~= before);
        actions_on(event, self.as_router)
    }
}

/// The events of a course that has ended: the configuration could not be written, or the process
/// could not be launched, or the watch over it has ended, or the thread that runs it was lost.
pub open spec fn is_whole_course(events: Seq<PppdEvent>) -> bool {
    ||| events == seq![PppdEvent::Entered, PppdEvent::ConfigFailed]
    ||| events == seq![
        PppdEvent::Entered,
        PppdEvent::ConfigWritten,
        PppdEvent::LaunchFailed,
        PppdEvent::Unblocked,
    ]
    ||| events == seq![
        PppdEvent::Entered,
        PppdEvent::ConfigWritten,
        PppdEvent::WatchEnded,
        PppdEvent::Unblocked,
    ]
    ||| events == seq![PppdEvent::Entered, PppdEvent::ConfigWritten, PppdEvent::Unblocked]
}

/// A course goes from one stage to the next by exactly these events, and nothing follows on one
/// that has ended.
pub proof fn law_courses_are_whole(events: Seq<PppdEvent>, more: PppdEvent)
    ensures
        stage_after(events) == Some(PppdStage::Created) <==> events == Seq::<PppdEvent>::empty(),
        stage_after(events) == Some(PppdStage::Configuring) <==> events == seq![PppdEvent::Entered],
        stage_after(events) == Some(PppdStage::Connecting) <==> events == seq![
            PppdEvent::Entered,
            PppdEvent::ConfigWritten,
        ],
        stage_after(events) == Some(PppdStage::Closing) <==> events == seq![
            PppdEvent::Entered,
            PppdEvent::ConfigWritten,
            PppdEvent::LaunchFailed,
        ] || events == seq![
            PppdEvent::Entered,
            PppdEvent::ConfigWritten,
            PppdEvent::WatchEnded,
        ],
        stage_after(events) == Some(PppdStage::Ended) <==> events == seq![
            PppdEvent::Entered,
            PppdEvent::ConfigFailed,
        ] || events == seq![
            PppdEvent::Entered,
            PppdEvent::ConfigWritten,
            PppdEvent::LaunchFailed,
            PppdEvent::Unblocked,
        ] || events == seq![
            PppdEvent::Entered,
            PppdEvent::ConfigWritten,
            PppdEvent::WatchEnded,
            PppdEvent::Unblocked,
        ] || events == seq![PppdEvent::Entered, PppdEvent::ConfigWritten, PppdEvent::Unblocked],
        stage_after(events) == Some(PppdStage::Ended) ==> stage_after(events.push(more)) is None,
{
    reveal_with_fuel(stage_after, 5);
    lemma_events_of_stage(events);
    assert(events.push(more).drop_last() =~= events);
    let first = seq![PppdEvent::Entered];
    let second = seq![PppdEvent::Entered, PppdEvent::ConfigWritten];
    assert(first.drop_last() =~= Seq::empty());
    assert(second.drop_last() =~= first);
    if events == seq![PppdEvent::Entered, PppdEvent::ConfigFailed] {
        assert(events.drop_last() =~= first);
    }
    if events.len() == 3 && events.take(2) == second {
        assert(events.drop_last() =~= second);
    }
    if events.len() == 4 && events.take(2) == second {
        assert(events.drop_last().drop_last() =~= second);
    }
    assert forall|whole: Seq<PppdEvent>|
        whole.len() >= 2 && whole[0] == PppdEvent::Entered && whole[1]
            == PppdEvent::ConfigWritten implies #[trigger] whole.take(2) == second by {
        assert(whole.take(2) =~= second);
    }
    assert(events.len() >= 2 ==> events.take(2).len() == 2);
}

/// A course that has gone through some events, and then through one more, stands where the last one
/// has led it to.
pub proof fn law_course_adds_up(events: Seq<PppdEvent>, event: PppdEvent)
    ensures
        stage_after(events.push(event)) == (match stage_after(events) {
            Some(stage) => stage_next(stage, event),
            None => None,
        }),
{
    assert(events.push(event).drop_last() =~= events);
}

/// All that is done in the course of a connection, in this order. The service announces that it
/// starts and that it runs. Where the configuration could not be written it announces that it has
/// stopped, and that is all. Else the address is watched and the process launched. Where the watch
/// over the process ends, the process is killed, whoever waits is woken up and the configuration is
/// deleted; where the process could not be launched, whoever waits is woken up; and where its
/// thread is lost, nothing is done about that. At the end the route is taken away, exactly where
/// the connection is the default route, and the service announces that it has stopped.
pub proof fn law_course_is_carried_out(as_router: bool)
    ensures
        done(seq![PppdEvent::Entered, PppdEvent::ConfigFailed], as_router) == seq![
            PppdAction::Announce(PppdStatus::Staring),
            PppdAction::Announce(PppdStatus::Running),
            PppdAction::Announce(PppdStatus::Stop),
        ],
        done(
            seq![
                PppdEvent::Entered,
                PppdEvent::ConfigWritten,
                PppdEvent::LaunchFailed,
                PppdEvent::Unblocked,
            ],
            as_router,
        ) == seq![
            PppdAction::Announce(PppdStatus::Staring),
            PppdAction::Announce(PppdStatus::Running),
            PppdAction::WatchAddress,
            PppdAction::Launch,
            PppdAction::Unblock,
        ] + if as_router {
            seq![PppdAction::DelRoute, PppdAction::Announce(PppdStatus::Stop)]
        } else {
            seq![PppdAction::Announce(PppdStatus::Stop)]
        },
        done(
            seq![
                PppdEvent::Entered,
                PppdEvent::ConfigWritten,
                PppdEvent::WatchEnded,
                PppdEvent::Unblocked,
            ],
            as_router,
        ) == seq![
            PppdAction::Announce(PppdStatus::Staring),
            PppdAction::Announce(PppdStatus::Running),
            PppdAction::WatchAddress,
            PppdAction::Launch,
            PppdAction::KillChild,
            PppdAction::Unblock,
            PppdAction::DeleteConfig,
        ] + if as_router {
            seq![PppdAction::DelRoute, PppdAction::Announce(PppdStatus::Stop)]
        } else {
            seq![PppdAction::Announce(PppdStatus::Stop)]
        },
        done(
            seq![PppdEvent::Entered, PppdEvent::ConfigWritten, PppdEvent::Unblocked],
            as_router,
        ) == seq![
            PppdAction::Announce(PppdStatus::Staring),
            PppdAction::Announce(PppdStatus::Running),
            PppdAction::WatchAddress,
            PppdAction::Launch,
        ] + if as_router {
            seq![PppdAction::DelRoute, PppdAction::Announce(PppdStatus::Stop)]
        } else {
            seq![PppdAction::Announce(PppdStatus::Stop)]
        },
{
    reveal_with_fuel(done, 5);
    let first = seq![PppdEvent::Entered];
    let second = first.push(PppdEvent::ConfigWritten);
    assert(first.drop_last() =~= Seq::empty());
    assert(second.drop_last() =~= first);
    assert(seq![PppdEvent::Entered, PppdEvent::ConfigFailed].drop_last() =~= first);
    assert(seq![
        PppdEvent::Entered,
        PppdEvent::ConfigWritten,
        PppdEvent::Unblocked,
    ].drop_last() =~= second);
    let failed = second.push(PppdEvent::LaunchFailed);
    assert(failed.drop_last() =~= second);
    assert(seq![
        PppdEvent::Entered,
        PppdEvent::ConfigWritten,
        PppdEvent::LaunchFailed,
        PppdEvent::Unblocked,
    ].drop_last() =~= failed);
    let watched = second.push(PppdEvent::WatchEnded);
    assert(watched.drop_last() =~= second);
    assert(seq![
        PppdEvent::Entered,
        PppdEvent::ConfigWritten,
        PppdEvent::WatchEnded,
        PppdEvent::Unblocked,
    ].drop_last() =~= watched);
}

/// Every course ends with the announcement that the service has stopped, and makes it only there.
/// The process is launched exactly where the configuration was written. The process is killed and
/// the configuration deleted exactly where the watch over the process has ended, and the route is
/// taken away exactly where the configuration was written and the connection is the default route.
pub proof fn law_course_ends_stopped(events: Seq<PppdEvent>, as_router: bool)
    requires
        stage_after(events) == Some(PppdStage::Ended),
    ensures
        ({
            let actions = done(events, as_router);
            let stop = PppdAction::Announce(PppdStatus::Stop);
            let written = events.contains(PppdEvent::ConfigWritten);
            let watched = events.contains(PppdEvent::WatchEnded);
            &&& actions.len() > 0
            &&& actions.last() == stop
            &&& !actions.drop_last().contains(stop)
            &&& actions.contains(PppdAction::Launch) <==> written
            &&& actions.contains(PppdAction::KillChild) <==> watched
            &&& actions.contains(PppdAction::DeleteConfig) <==> watched
            &&& actions.contains(PppdAction::DelRoute) <==> written && as_router
        }),
{
    reveal_with_fuel(done, 5);
    lemma_events_of_stage(events);
    let actions = done(events, as_router);
    let stop = PppdAction::Announce(PppdStatus::Stop);
    let start = seq![
        PppdAction::Announce(PppdStatus::Staring),
        PppdAction::Announce(PppdStatus::Running),
    ];
    let run = seq![PppdAction::WatchAddress, PppdAction::Launch];
    if events.len() == 2 {
        assert(events.drop_last() =~= seq![PppdEvent::Entered]);
        assert(actions =~= start.push(stop));
    } else {
        let middle = if events.len() == 3 {
            Seq::empty()
        } else {
            plan(events[2], as_router)
        };
        let end = plan(PppdEvent::Unblocked, as_router);
        assert(events[1] == PppdEvent::ConfigWritten);
        if events.len() == 3 {
            assert(events.drop_last().drop_last() =~= seq![PppdEvent::Entered]);
        } else {
            assert(events.drop_last().drop_last().drop_last() =~= seq![PppdEvent::Entered]);
        }
        assert(actions =~= start + run + middle + end);
        assert(actions[3] == PppdAction::Launch);
        if events.len() == 4 && events[2] == PppdEvent::WatchEnded {
            assert(actions[4] == PppdAction::KillChild);
            assert(actions[6] == PppdAction::DeleteConfig);
        }
        if as_router {
            assert(actions[actions.len() - 2] == PppdAction::DelRoute);
        }
    }
}

/// The events that lead to a stage.
proof fn lemma_events_of_stage(events: Seq<PppdEvent>)
    ensures
        match stage_after(events) {
            Some(PppdStage::Created) => events == Seq::<PppdEvent>::empty(),
            Some(PppdStage::Configuring) => events == seq![PppdEvent::Entered],
            Some(PppdStage::Connecting) => events == seq![
                PppdEvent::Entered,
                PppdEvent::ConfigWritten,
            ],
            Some(PppdStage::Closing) => events == seq![
                PppdEvent::Entered,
                PppdEvent::ConfigWritten,
                PppdEvent::LaunchFailed,
            ] || events == seq![
                PppdEvent::Entered,
                PppdEvent::ConfigWritten,
                PppdEvent::WatchEnded,
            ],
            Some(PppdStage::Ended) => is_whole_course(events),
            None => true,
        },
    decreases events.len(),
{
    if events.len() == 0 {
        assert(events =~= Seq::empty());
    } else {
        let shorter = events.drop_last();
        lemma_events_of_stage(shorter);
        assert(events =~= shorter.push(events.last()));
        match stage_after(events) {
            Some(PppdStage::Configuring) => {
                assert(events =~= seq![PppdEvent::Entered]);
            },
            Some(PppdStage::Connecting) => {
                assert(events =~= seq![PppdEvent::Entered, PppdEvent::ConfigWritten]);
            },
            Some(PppdStage::Closing) => {
                assert(events =~= seq![
                    PppdEvent::Entered,
                    PppdEvent::ConfigWritten,
                    events.last(),
                ]);
            },
            Some(PppdStage::Ended) => {
                if events.last() == PppdEvent::ConfigFailed {
                    assert(events =~= seq![PppdEvent::Entered, PppdEvent::ConfigFailed]);
                } else if events.len() == 3 {
                    assert(events =~= seq![
                        PppdEvent::Entered,
                        PppdEvent::ConfigWritten,
                        PppdEvent::Unblocked,
                    ]);
                } else {
                    assert(events =~= seq![
                        PppdEvent::Entered,
                        PppdEvent::ConfigWritten,
                        shorter.last(),
                        PppdEvent::Unblocked,
                    ]);
                }
            },
            _ => {},
        }
    }
}

/// The command line of the process: it stays in the foreground and reads the configuration that
/// goes by the name of the interface.
pub fn pppd_args(ppp_iface_name: &String) -> (args: Vec<String>)
    ensures
        args@.len() == 3,
        args@[0]@ == "nodetach"@,
        args@[1]@ == "call"@,
        args@[2]@ == ppp_iface_name@,
{
    let mut args: Vec<String> = Vec::new();
    args.push("nodetach".to_string());
    args.push("call".to_string());
    args.push(ppp_iface_name.clone());
    args
}

/// Each event has its actions, in this order, and the course remembers that it has happened.
pub proof fn law_event_is_carried_out(
    course: &mut PppdCourse,
    event: PppdEvent,
    actions: Vec<PppdAction>,
    told: Vec<PppdAction>,
)
    requires
        call_ensures(PppdCourse::step, (course, event), actions),
        call_ensures(actions_on, (event, old(course).routes()), told),
    ensures
        actions@ == told@,
        final(course).events() == old(course).events().push(event),
        final(course).routes() == old(course).routes(),
        match event {
            PppdEvent::Entered => actions@ == seq![
                PppdAction::Announce(PppdStatus::Staring),
                PppdAction::Announce(PppdStatus::Running),
            ],
            PppdEvent::ConfigWritten => actions@ == seq![
                PppdAction::WatchAddress,
                PppdAction::Launch,
            ],
            PppdEvent::ConfigFailed => actions@ == seq![PppdAction::Announce(PppdStatus::Stop)],
            PppdEvent::LaunchFailed => actions@ == seq![PppdAction::Unblock],
            PppdEvent::WatchEnded => actions@ == seq![
                PppdAction::KillChild,
                PppdAction::Unblock,
                PppdAction::DeleteConfig,
            ],
            PppdEvent::Unblocked => {
                &&& actions@.last() == PppdAction::Announce(PppdStatus::Stop)
                &&& old(course).routes() ==> actions@.len() == 2 && actions@[0]
                    == PppdAction::DelRoute
                &&& !old(course).routes() ==> actions@.len() == 1
            },
        },
{
}

/// An event may follow exactly where it belongs: the connection is asked for once and first; then
/// the configuration is written or is not; where it is, the process may fail to launch, or the
/// watch over it ends, once; and whoever waits is woken up last, once. A course has ended where it
/// has come to that, or where the configuration could not be written.
pub proof fn law_events_follow_in_order(
    course: PppdCourse,
    event: PppdEvent,
    possible: bool,
    ended: bool,
)
    requires
        course.wf(),
        call_ensures(PppdCourse::may_follow, (&course, event), possible),
        call_ensures(PppdCourse::has_ended, (&course,), ended),
    ensures
        ({
            let events = course.events();
            &&& possible <==> match event {
                PppdEvent::Entered => events.len() == 0,
                PppdEvent::ConfigWritten | PppdEvent::ConfigFailed => events.len() == 1,
                PppdEvent::LaunchFailed | PppdEvent::WatchEnded => events.len() == 2 && events[1]
                    == PppdEvent::ConfigWritten,
                PppdEvent::Unblocked => events.len() >= 2 && events[1] == PppdEvent::ConfigWritten
                    && events.last() != PppdEvent::Unblocked,
            }
            &&& ended <==> events.len() > 0 && (events.last() == PppdEvent::Unblocked
                || events.last() == PppdEvent::ConfigFailed)
        }),
{
    lemma_events_of_stage(course.events());
}

/// The process stays in the foreground and reads the configuration of the interface, by its name.
pub proof fn law_process_reads_its_configuration(name: String, args: Vec<String>)
    requires
        call_ensures(pppd_args, (&name,), args),
    ensures
        args@.len() == 3,
        args@[0]@ == "nodetach"@,
        args@[1]@ == "call"@,
        args@[2]@ == name@,
{
}

} // verus!
