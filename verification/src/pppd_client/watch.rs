//! The watch over the `pppd` process.

use vstd::prelude::*;

verus! {

/// How many seconds pass between two looks at the process.
pub const WATCH_INTERVAL: u64 = 1;

/// A look that fails ends the watch once more than this many before it have failed in a row.
pub const MAX_CHECK_ERRORS: u32 = 3;

/// What a look at the process has shown.
#[derive(Clone, Copy, Debug, PartialEq, Eq, Structural)]
pub enum ChildState {
    /// The process has ended.
    Exited,
    /// The process runs.
    Running,
    /// The state of the process could not be found out.
    Unknown,
}

/// What a look at the request to stop has shown.
#[derive(Clone, Copy, Debug, PartialEq, Eq, Structural)]
pub enum StopSignal {
    /// Nobody has asked to stop.
    Empty,
    /// Stop was asked for.
    Received,
    /// Nobody can ask to stop any more.
    Closed,
}

/// What the watch does next.
#[derive(Clone, Copy, Debug, PartialEq, Eq, Structural)]
pub enum WatchStep {
    /// Go on.
    Continue,
    /// End the watch.
    Leave,
}

/// The failures in a row after one more look, or `None` where the watch ends.
pub open spec fn failures_next(failures: nat, child: ChildState) -> Option<nat> {
    match child {
        ChildState::Exited => None,
        ChildState::Running => Some(0),
        ChildState::Unknown => if failures > MAX_CHECK_ERRORS {
            None
        } else {
            Some(failures + 1)
        },
    }
}

/// The failures in a row after the given looks, or `None` where the watch has ended on the way.
pub open spec fn failures_after(looks: Seq<ChildState>) -> Option<nat>
    decreases looks.len(),
{
    if looks.len() == 0 {
        Some(0)
    } else {
        match failures_after(looks.drop_last()) {
            Some(failures) => failures_next(failures, looks.last()),
            None => None,
        }
    }
}

/// What one round of the watch has shown.
#[derive(Clone, Copy, Debug, PartialEq, Eq, Structural)]
pub struct Look {
    pub child: ChildState,
    pub signal: StopSignal,
}

/// The failures in a row after one more round, or `None` where the watch ends: the look at the
/// process ends it, or somebody has asked to stop or never can.
pub open spec fn round_next(failures: nat, look: Look) -> Option<nat> {
    if look.signal == StopSignal::Empty {
        failures_next(failures, look.child)
    } else {
        None
    }
}

/// The failures in a row after the given rounds, or `None` where the watch has ended on the way.
pub open spec fn rounds_after(looks: Seq<Look>) -> Option<nat>
    decreases looks.len(),
{
    if looks.len() == 0 {
        Some(0)
    } else {
        match rounds_after(looks.drop_last()) {
            Some(failures) => round_next(failures, looks.last()),
            None => None,
        }
    }
}

/// What the rounds have shown of the process.
pub open spec fn children(looks: Seq<Look>) -> Seq<ChildState> {
    looks.map_values(|look: Look| look.child)
}

/// The watch over one process.
#[derive(Debug)]
pub struct PppdWatch {
    check_error_times: u32,
}

impl PppdWatch {
    /// How many looks have failed since the last one that did not.
    pub closed spec fn failures(self) -> nat {
        self.check_error_times as nat
    }

    /// A watch that has not looked yet.
    pub fn new() -> (watch: PppdWatch)
        ensures
            watch.failures() == 0,
            failures_after(seq![]) == Some(watch.failures()),
            rounds_after(seq![]) == Some(watch.failures()),
    {
        PppdWatch { check_error_times: 0 }
    }

    /// What follows from a look at the process.
    pub fn check_child(&mut self, child: ChildState) -> (step: WatchStep)
        ensures
            match failures_next(old(self).failures(), child) {
                Some(failures) => step == WatchStep::Continue && final(self).failures()
                    == failures,
                None => step == WatchStep::Leave && final(self).failures() == old(
                    self,
                ).failures(),
            },
    {
        match child {
            ChildState::Exited => WatchStep::Leave,
            ChildState::Running => {
                self.check_error_times = 0;
                WatchStep::Continue
            },
            ChildState::Unknown => {
                if self.check_error_times > MAX_CHECK_ERRORS {
                    return WatchStep::Leave;
                }
                self.check_error_times = self.check_error_times + 1;
                WatchStep::Continue
            },
        }
    }

    /// One round of the watch: a look at the process, and then, where the watch goes on, one at the
    /// request to stop.
    pub fn look(&mut self, child: ChildState, signal: StopSignal) -> (step: WatchStep)
        ensures
            step == WatchStep::Leave <==> failures_next(old(self).failures(), child) is None
                || signal != StopSignal::Empty,
            step == WatchStep::Continue <==> round_next(
                old(self).failures(),
                Look { child, signal },
            ) is Some,
            final(self).failures() == (match failures_next(old(self).failures(), child) {
                Some(failures) => failures,
                None => old(self).failures(),
            }),
    {
        match self.check_child(child) {
            WatchStep::Leave => WatchStep::Leave,
            WatchStep::Continue => check_stop(signal),
        }
    }
}

/// What follows from a look at the request to stop.
pub fn check_stop(signal: StopSignal) -> (step: WatchStep)
    ensures
        step == WatchStep::Continue <==> signal == StopSignal::Empty,
        step == WatchStep::Leave <==> signal != StopSignal::Empty,
{
    match signal {
        StopSignal::Empty => WatchStep::Continue,
        StopSignal::Received | StopSignal::Closed => WatchStep::Leave,
    }
}

/// The looks up to number `last` end with so many failures in a row that the watch ends.
pub open spec fn gives_up_at(looks: Seq<ChildState>, last: int) -> bool {
    &&& MAX_CHECK_ERRORS + 1 <= last < looks.len()
    &&& forall|i: int|
        last - MAX_CHECK_ERRORS - 1 <= i <= last ==> #[trigger] looks[i] == ChildState::Unknown
}

/// A watch that has made some looks, and then makes one more, stands as if it had made them all
/// from the start.
pub proof fn law_watch_adds_up(looks: Seq<ChildState>, child: ChildState)
    ensures
        failures_after(looks.push(child)) == (match failures_after(looks) {
            Some(failures) => failures_next(failures, child),
            None => None,
        }),
{
    assert(looks.push(child).drop_last() =~= looks);
}

/// A watch that has gone through some rounds, and then goes through one more, stands as if it had
/// gone through them all from the start.
pub proof fn law_rounds_add_up(looks: Seq<Look>, look: Look)
    ensures
        rounds_after(looks.push(look)) == (match rounds_after(looks) {
            Some(failures) => round_next(failures, look),
            None => None,
        }),
{
    assert(looks.push(look).drop_last() =~= looks);
}

/// The watch ends exactly where, after some number of rounds, the process was seen to have ended,
/// the last five looks at it have failed, or somebody has asked to stop or never can.
pub proof fn law_watch_ends_on_exit_failures_or_stop(looks: Seq<Look>)
    ensures
        rounds_after(looks) is None <==> exists|count: int|
            1 <= count <= looks.len() && {
                ||| (#[trigger] looks.take(count)).last().child == ChildState::Exited
                ||| looks.take(count).last().signal == StopSignal::Received
                ||| looks.take(count).last().signal == StopSignal::Closed
                ||| count >= 5 && forall|k: int|
                    count - 5 <= k < count ==> (#[trigger] looks[k]).child == ChildState::Unknown
            },
{
    let seen = children(looks);
    lemma_rounds_split(looks);
    lemma_watch_gives_up(seen);
    assert forall|count: int| 1 <= count <= looks.len() implies (
    #[trigger] looks.take(count)).last() == looks[count - 1] by {}
    if failures_after(seen) is None {
        let i = choose|i: int|
            0 <= i < seen.len() && ((#[trigger] seen[i]) == ChildState::Exited || gives_up_at(
                seen,
                i,
            ));
        assert(looks.take(i + 1).last().child == seen[i]);
        if gives_up_at(seen, i) {
            assert forall|k: int| i - 4 <= k <= i implies (#[trigger] looks[k]).child
                == ChildState::Unknown by {
                assert(seen[k] == ChildState::Unknown);
            }
        }
    } else {
        assert forall|count: int| 1 <= count <= looks.len() implies (
        #[trigger] looks.take(count)).last().child != ChildState::Exited && !(count >= 5 && forall|
            k: int,
        |
            count - 5 <= k < count ==> (#[trigger] looks[k]).child == ChildState::Unknown) by {
            assert(seen[count - 1] == looks[count - 1].child);
            if count >= 5 && forall|k: int|
                count - 5 <= k < count ==> (#[trigger] looks[k]).child == ChildState::Unknown {
                assert(gives_up_at(seen, count - 1));
            }
        }
        if exists|i: int|
            0 <= i < looks.len() && (#[trigger] looks[i]).signal != StopSignal::Empty {
            let i = choose|i: int|
                0 <= i < looks.len() && (#[trigger] looks[i]).signal != StopSignal::Empty;
            assert(looks.take(i + 1).last() == looks[i]);
        }
    }
}

/// The watch goes on exactly where the looks at the process let it and nobody has asked to stop.
proof fn lemma_rounds_split(looks: Seq<Look>)
    ensures
        rounds_after(looks) is Some <==> failures_after(children(looks)) is Some && forall|i: int|
            0 <= i < looks.len() ==> (#[trigger] looks[i]).signal == StopSignal::Empty,
        rounds_after(looks) is Some ==> rounds_after(looks) == failures_after(children(looks)),
    decreases looks.len(),
{
    if looks.len() > 0 {
        let shorter = looks.drop_last();
        lemma_rounds_split(shorter);
        assert(children(looks).drop_last() =~= children(shorter));
        assert(children(looks).last() == looks.last().child);
        assert(looks[looks.len() - 1] == looks.last());
        assert(forall|i: int| 0 <= i < shorter.len() ==> shorter[i] == #[trigger] looks[i]);
        assert(forall|i: int| 0 <= i < shorter.len() ==> looks[i] == #[trigger] shorter[i]);
    }
}

/// Left to itself, the watch ends exactly where, after some number of looks, the process was seen
/// to have ended, or the last five looks have failed.
pub proof fn law_watch_ends_on_exit_or_five_failures(looks: Seq<ChildState>)
    ensures
        failures_after(looks) is None <==> exists|count: int|
            1 <= count <= looks.len() && {
                ||| (#[trigger] looks.take(count)).last() == ChildState::Exited
                ||| count >= 5 && forall|k: int|
                    count - 5 <= k < count ==> #[trigger] looks[k] == ChildState::Unknown
            },
{
    lemma_watch_gives_up(looks);
    if failures_after(looks) is None {
        let i = choose|i: int|
            0 <= i < looks.len() && ((#[trigger] looks[i]) == ChildState::Exited || gives_up_at(
                looks,
                i,
            ));
        assert(looks.take(i + 1).last() == looks[i]);
    } else {
        assert forall|count: int| 1 <= count <= looks.len() implies (
        #[trigger] looks.take(count)).last() != ChildState::Exited && !gives_up_at(
            looks,
            count - 1,
        ) by {
            assert(looks.take(count).last() == looks[count - 1]);
        }
    }
}

/// Left to itself, the watch ends exactly where a look shows that the process has ended, or is one
/// failure too many.
proof fn lemma_watch_gives_up(looks: Seq<ChildState>)
    ensures
        failures_after(looks) is None <==> exists|i: int|
            0 <= i < looks.len() && ((#[trigger] looks[i]) == ChildState::Exited || gives_up_at(
                looks,
                i,
            )),
    decreases looks.len(),
{
    law_failures_are_trailing(looks);
    if looks.len() > 0 {
        let shorter = looks.drop_last();
        let last = looks.len() - 1;
        lemma_watch_gives_up(shorter);
        law_failures_are_trailing(shorter);
        assert forall|i: int| 0 <= i < last implies gives_up_at(shorter, i) == gives_up_at(looks, i) by {
            assert(forall|k: int| 0 <= k < last ==> shorter[k] == looks[k]);
            if gives_up_at(shorter, i) {
                assert forall|k: int| i - MAX_CHECK_ERRORS - 1 <= k <= i implies #[trigger] looks[k]
                    == ChildState::Unknown by {
                    assert(shorter[k] == ChildState::Unknown);
                }
            }
        }
        if failures_after(shorter) is None {
            let i = choose|i: int|
                0 <= i < shorter.len() && ((#[trigger] shorter[i]) == ChildState::Exited
                    || gives_up_at(shorter, i));
            assert(looks[i] == shorter[i]);
        } else {
            let failures = failures_after(shorter)->0;
            assert forall|i: int| 0 <= i < last implies (#[trigger] looks[i]) != ChildState::Exited
                && !gives_up_at(looks, i) by {
                assert(shorter[i] == looks[i]);
            }
            if failures_after(looks) is None {
                assert(looks[last] == looks.last());
                if looks[last] == ChildState::Unknown {
                    assert forall|k: int|
                        last - MAX_CHECK_ERRORS - 1 <= k <= last implies #[trigger] looks[k]
                        == ChildState::Unknown by {
                        if k < last {
                            assert(shorter[k] == ChildState::Unknown);
                        }
                    }
                    assert(gives_up_at(looks, last));
                }
            } else {
                assert(looks[last] != ChildState::Exited);
                if gives_up_at(looks, last) {
                    assert(looks[last] == ChildState::Unknown);
                    if failures <= MAX_CHECK_ERRORS {
                        let stop = last - 1 - failures;
                        assert(looks[stop] == ChildState::Unknown);
                        assert(shorter[stop] == looks[stop]);
                    }
                }
            }
        }
    }
}

/// While the watch goes on, its count is the number of failed looks at the end.
pub proof fn law_failures_are_trailing(looks: Seq<ChildState>)
    ensures
        failures_after(looks) matches Some(failures) ==> {
            &&& failures <= looks.len()
            &&& forall|i: int|
                looks.len() - failures <= i < looks.len() ==> #[trigger] looks[i]
                    == ChildState::Unknown
            &&& failures < looks.len() ==> looks[looks.len() - 1 - failures]
                != ChildState::Unknown
        },
    decreases looks.len(),
{
    if looks.len() > 0 {
        let shorter = looks.drop_last();
        law_failures_are_trailing(shorter);
        if let Some(failures) = failures_after(looks) {
            if looks.last() == ChildState::Unknown {
                assert forall|i: int|
                    looks.len() - failures <= i < looks.len() implies #[trigger] looks[i]
                    == ChildState::Unknown by {
                    if i < looks.len() - 1 {
                        assert(shorter[i] == ChildState::Unknown);
                    }
                }
                if failures < looks.len() {
                    assert(shorter[looks.len() - 1 - failures] == looks[looks.len() - 1
                        - failures]);
                }
            }
        }
    }
}

/// One round of the watch ends it exactly where the process has ended, where the look fails and
/// four before it have failed in a row, or where somebody has asked to stop or never can. A look
/// that shows the process running starts the count anew, and one that fails without ending the
/// watch raises it by one.
pub proof fn law_round_ends_or_counts(
    watch: &mut PppdWatch,
    child: ChildState,
    signal: StopSignal,
    step: WatchStep,
)
    requires
        call_ensures(PppdWatch::look, (watch, child, signal), step),
    ensures
        step == WatchStep::Leave <==> {
            ||| child == ChildState::Exited
            ||| child == ChildState::Unknown && old(watch).failures() >= 4
            ||| signal == StopSignal::Received
            ||| signal == StopSignal::Closed
        },
        final(watch).failures() == match child {
            ChildState::Exited => old(watch).failures(),
            ChildState::Running => 0,
            ChildState::Unknown => if old(watch).failures() >= 4 {
                old(watch).failures()
            } else {
                old(watch).failures() + 1
            },
        },
{
}

/// A process whose state can not be found out is given up after as many seconds as looks have to
/// fail for that, which are five.
pub proof fn law_lost_process_is_given_up_in_seconds()
    ensures
        WATCH_INTERVAL * (MAX_CHECK_ERRORS + 2) == 5,
        WATCH_INTERVAL == 1,
{
}

/// A look at the process alone does to the count what a round does, and goes on exactly where a
/// round in which nobody asks to stop does.
pub proof fn law_look_is_a_round_without_signal(
    one: &mut PppdWatch,
    other: &mut PppdWatch,
    child: ChildState,
    step: WatchStep,
    round: WatchStep,
)
    requires
        *old(one) == *old(other),
        call_ensures(PppdWatch::check_child, (one, child), step),
        call_ensures(PppdWatch::look, (other, child, StopSignal::Empty), round),
    ensures
        step == round,
        final(one).failures() == final(other).failures(),
{
}

} // verus!
