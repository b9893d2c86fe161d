//! The order of startup: launch the companion, then give it a fixed time to
//! come up, then declare startup complete.

use crate::launcher::{
    Host, LaunchDirective, LaunchDirectiveView, LaunchEvent, LaunchOutcome, Launcher,
    LauncherState, SpawnRequest, SpawnRequestView,
};
use crate::resolver::{candidates_of, Resolver};
use vstd::prelude::*;

verus! {

/// The time, in seconds, that startup waits after the launch.
pub const GRACE_PERIOD_SECS: u64 = 2;

/// What the sequencer asks for next.
#[derive(Debug, PartialEq, Eq)]
pub enum StartupDirective {
    /// Tell me whether this location exists.
    Probe(String),
    /// Spawn this process and tell me whether that worked.
    Spawn(SpawnRequest),
    /// Block for this many seconds.
    Wait(u64),
    /// Startup is complete; this is how the launch went.
    Complete(LaunchOutcome),
    /// The spawn failed; end the run.
    Abort,
}

/// The view of a `StartupDirective`.
pub enum StartupDirectiveView {
    Probe(Seq<char>),
    Spawn(SpawnRequestView),
    Wait(u64),
    Complete(LaunchOutcome),
    Abort,
}

impl View for StartupDirective {
    type V = StartupDirectiveView;

    open spec fn view(&self) -> StartupDirectiveView {
        match *self {
            StartupDirective::Probe(location) => StartupDirectiveView::Probe(location@),
            StartupDirective::Spawn(request) => StartupDirectiveView::Spawn(request@),
            StartupDirective::Wait(seconds) => StartupDirectiveView::Wait(seconds),
            StartupDirective::Complete(outcome) => StartupDirectiveView::Complete(outcome),
            StartupDirective::Abort => StartupDirectiveView::Abort,
        }
    }
}

/// What came of the sequencer's request.
#[derive(Debug, Clone, Copy, PartialEq, Eq)]
pub enum StartupEvent {
    /// The probed location exists, or does not.
    Probed(bool),
    /// The spawn succeeded, or failed.
    Spawned(bool),
    /// The wait is over.
    Waited,
}

/// The state of startup: the launch, and whether the wait after it is over.
pub struct SequencerState {
    pub launcher: LauncherState,
    pub waited: bool,
}

impl SequencerState {
    /// Startup that has done nothing yet.
    pub open spec fn start(candidates: Seq<Seq<char>>, cwd: Seq<char>) -> SequencerState {
        SequencerState { launcher: LauncherState::start(candidates, cwd), waited: false }
    }

    /// The request in this state: the launcher's while the launch runs, then
    /// the wait, whichever way the launch ended, then completion. A failed
    /// spawn ends the run without a wait.
    pub open spec fn directive(self) -> StartupDirectiveView {
        match self.launcher.directive() {
            LaunchDirectiveView::Probe(location) => StartupDirectiveView::Probe(location),
            LaunchDirectiveView::Spawn(request) => StartupDirectiveView::Spawn(request),
            LaunchDirectiveView::Finished(outcome) => if self.waited {
                StartupDirectiveView::Complete(outcome)
            } else {
                StartupDirectiveView::Wait(GRACE_PERIOD_SECS)
            },
            LaunchDirectiveView::Abort => StartupDirectiveView::Abort,
        }
    }

    /// The state after `event`. An event that answers no outstanding request
    /// changes nothing.
    pub open spec fn handle(self, event: StartupEvent) -> SequencerState {
        match event {
            StartupEvent::Probed(exists) => SequencerState {
                launcher: self.launcher.handle(LaunchEvent::Probed(exists)),
                ..self
            },
            StartupEvent::Spawned(succeeded) => SequencerState {
                launcher: self.launcher.handle(LaunchEvent::Spawned(succeeded)),
                ..self
            },
            StartupEvent::Waited => if self.launcher.outcome().is_some() {
                SequencerState { waited: true, ..self }
            } else {
                self
            },
        }
    }

    /// A bound on the requests still to come before the final one.
    pub open spec fn remaining(self) -> nat {
        self.launcher.remaining() + (if self.waited {
            0nat
        } else {
            1nat
        })
    }

    /// The requests made from this state on, the final one included, when
    /// every request is answered by `host`.
    pub open spec fn run(self, host: Host) -> Seq<StartupDirectiveView>
        decreases self.remaining(),
    {
        match self.directive() {
            StartupDirectiveView::Probe(location) => seq![self.directive()] + self.handle(
                StartupEvent::Probed(host.present.contains(location)),
            ).run(host),
            StartupDirectiveView::Spawn(_) => seq![self.directive()] + self.handle(
                StartupEvent::Spawned(host.spawn_succeeds),
            ).run(host),
            StartupDirectiveView::Wait(_) => seq![self.directive()] + self.handle(
                StartupEvent::Waited,
            ).run(host),
            _ => seq![self.directive()],
        }
    }
}

/// The waits among `trace`, in order, each by its length in seconds.
pub open spec fn waits(trace: Seq<StartupDirectiveView>) -> Seq<u64>
    decreases trace.len(),
{
    if trace.len() == 0 {
        seq![]
    } else {
        let first = match trace[0] {
            StartupDirectiveView::Wait(seconds) => seq![seconds],
            _ => seq![],
        };
        first + waits(trace.drop_first())
    }
}

/// What startup makes of one request of the launcher: probes and spawns are
/// passed on, the end of the launch becomes the wait and then completion, and
/// a failed spawn ends the run.
pub open spec fn sequenced(directive: LaunchDirectiveView) -> Seq<StartupDirectiveView> {
    match directive {
        LaunchDirectiveView::Probe(location) => seq![StartupDirectiveView::Probe(location)],
        LaunchDirectiveView::Spawn(request) => seq![StartupDirectiveView::Spawn(request)],
        LaunchDirectiveView::Finished(outcome) => seq![
            StartupDirectiveView::Wait(GRACE_PERIOD_SECS),
            StartupDirectiveView::Complete(outcome),
        ],
        LaunchDirectiveView::Abort => seq![StartupDirectiveView::Abort],
    }
}

/// What startup makes of a launcher's requests, one after the other.
pub open spec fn sequenced_trace(trace: Seq<LaunchDirectiveView>) -> Seq<StartupDirectiveView>
    decreases trace.len(),
{
    if trace.len() == 0 {
        seq![]
    } else {
        sequenced(trace[0]) + sequenced_trace(trace.drop_first())
    }
}

proof fn lemma_sequenced_cons(first: LaunchDirectiveView, rest: Seq<LaunchDirectiveView>)
    ensures
        sequenced_trace(seq![first] + rest) == sequenced(first) + sequenced_trace(rest),
{
    assert((seq![first] + rest).drop_first() =~= rest);
}

proof fn lemma_waits_cons(first: StartupDirectiveView, rest: Seq<StartupDirectiveView>)
    ensures
        waits(seq![first] + rest) == (match first {
            StartupDirectiveView::Wait(seconds) => seq![seconds],
            _ => seq![],
        }) + waits(rest),
{
    assert((seq![first] + rest).drop_first() =~= rest);
}

proof fn lemma_waits_final(last: StartupDirectiveView)
    requires
        !(last is Wait),
    ensures
        waits(seq![last]) == Seq::<u64>::empty(),
{
    lemma_waits_cons(last, seq![]);
    assert(seq![last] + Seq::<StartupDirectiveView>::empty() =~= seq![last]);
    assert(waits(Seq::<StartupDirectiveView>::empty()) =~= seq![]);
}

/// Startup runs the launch to its end before anything else: its requests are
/// the launcher's, in the launcher's order, with the end of the launch
/// replaced by the wait and completion.
pub proof fn startup_follows_launch(launcher: LauncherState, host: Host)
    ensures
        (SequencerState { launcher, waited: false }).run(host) == sequenced_trace(
            launcher.run(host),
        ),
    decreases launcher.remaining(),
{
    let state = SequencerState { launcher, waited: false };
    let first = launcher.directive();
    match first {
        LaunchDirectiveView::Probe(location) => {
            let next = launcher.handle(LaunchEvent::Probed(host.present.contains(location)));
            startup_follows_launch(next, host);
            lemma_sequenced_cons(first, next.run(host));
            assert(state.run(host) =~= sequenced_trace(launcher.run(host)));
        },
        LaunchDirectiveView::Spawn(_) => {
            let next = launcher.handle(LaunchEvent::Spawned(host.spawn_succeeds));
            startup_follows_launch(next, host);
            lemma_sequenced_cons(first, next.run(host));
            assert(state.run(host) =~= sequenced_trace(launcher.run(host)));
        },
        _ => {
            let waited = state.handle(StartupEvent::Waited);
            assert(first is Finished ==> waited.run(host) =~= seq![waited.directive()]);
            lemma_sequenced_cons(first, seq![]);
            assert(seq![first] + Seq::<LaunchDirectiveView>::empty() =~= seq![first]);
            assert(sequenced_trace(Seq::<LaunchDirectiveView>::empty()) =~= seq![]);
            assert(state.run(host) =~= sequenced_trace(launcher.run(host)));
        },
    }
}

proof fn lemma_startup_run(launcher: LauncherState, host: Host)
    ensures
        ({
            let launch = launcher.run(host);
            let trace = (SequencerState { launcher, waited: false }).run(host);
            &&& launch.len() > 0
            &&& match launch.last() {
                LaunchDirectiveView::Finished(outcome) => {
                    &&& trace.len() >= 2
                    &&& trace[trace.len() - 2] == StartupDirectiveView::Wait(GRACE_PERIOD_SECS)
                    &&& trace.last() == StartupDirectiveView::Complete(outcome)
                    &&& waits(trace) == seq![GRACE_PERIOD_SECS]
                },
                LaunchDirectiveView::Abort => {
                    &&& trace.len() >= 1
                    &&& trace.last() == StartupDirectiveView::Abort
                    &&& waits(trace) == Seq::<u64>::empty()
                },
                _ => false,
            }
        }),
    decreases launcher.remaining(),
{
    let state = SequencerState { launcher, waited: false };
    let first = launcher.directive();
    match first {
        LaunchDirectiveView::Probe(location) => {
            let next = launcher.handle(LaunchEvent::Probed(host.present.contains(location)));
            lemma_startup_run(next, host);
            lemma_waits_cons(state.directive(), (SequencerState { launcher: next, waited: false }).run(host));
        },
        LaunchDirectiveView::Spawn(_) => {
            let next = launcher.handle(LaunchEvent::Spawned(host.spawn_succeeds));
            lemma_startup_run(next, host);
            lemma_waits_cons(state.directive(), (SequencerState { launcher: next, waited: false }).run(host));
        },
        LaunchDirectiveView::Finished(outcome) => {
            let waited = state.handle(StartupEvent::Waited);
            assert(waited.run(host) =~= seq![waited.directive()]);
            lemma_waits_final(waited.directive());
            lemma_waits_cons(state.directive(), waited.run(host));
        },
        LaunchDirectiveView::Abort => {
            assert(state.run(host) =~= seq![state.directive()]);
            lemma_waits_final(state.directive());
        },
    }
}

/// However the launch ends, as `Started` or as `NotFound`, startup then waits
/// once, for the full grace period, and completes with the launch's outcome.
pub proof fn grace_period_is_always_waited(
    candidates: Seq<Seq<char>>,
    cwd: Seq<char>,
    host: Host,
    outcome: LaunchOutcome,
)
    requires
        LauncherState::start(candidates, cwd).run(host).last() == LaunchDirectiveView::Finished(
            outcome,
        ),
    ensures
        ({
            let trace = SequencerState::start(candidates, cwd).run(host);
            &&& waits(trace) == seq![GRACE_PERIOD_SECS]
            &&& trace.len() >= 2
            &&& trace[trace.len() - 2] == StartupDirectiveView::Wait(GRACE_PERIOD_SECS)
            &&& trace.last() == StartupDirectiveView::Complete(outcome)
        }),
{
    lemma_startup_run(LauncherState::start(candidates, cwd), host);
}

/// A failed spawn ends the run at once: startup neither waits nor completes.
pub proof fn failed_spawn_aborts_startup(candidates: Seq<Seq<char>>, cwd: Seq<char>, host: Host)
    requires
        LauncherState::start(candidates, cwd).run(host).last() == LaunchDirectiveView::Abort,
    ensures
        SequencerState::start(candidates, cwd).run(host).last() == StartupDirectiveView::Abort,
        waits(SequencerState::start(candidates, cwd).run(host)) == Seq::<u64>::empty(),
{
    lemma_startup_run(LauncherState::start(candidates, cwd), host);
}

/// Startup in progress. It performs no I/O: it names what is to be done and
/// is told what came of it.
pub struct Sequencer {
    launcher: Launcher,
    waited: bool,
}

impl View for Sequencer {
    type V = SequencerState;

    closed spec fn view(&self) -> SequencerState {
        SequencerState { launcher: self.launcher@, waited: self.waited }
    }
}

impl Sequencer {
    /// Startup that begins by driving `launcher`.
    pub fn new(launcher: Launcher) -> (sequencer: Sequencer)
        ensures
            sequencer@ == (SequencerState { launcher: launcher@, waited: false }),
    {
        Sequencer { launcher, waited: false }
    }

    /// Startup for the executable at `exe_location`, run from `cwd`.
    pub fn for_executable(exe_location: &str, cwd: &str) -> (sequencer: Sequencer)
        ensures
            sequencer@ == SequencerState::start(candidates_of(exe_location@), cwd@),
    {
        Sequencer::new(Launcher::new(Resolver::for_executable(exe_location, cwd)))
    }

    /// What to do next.
    pub fn directive(&self) -> (directive: StartupDirective)
        ensures
            directive@ == self@.directive(),
    {
        match self.launcher.directive() {
            LaunchDirective::Probe(location) => StartupDirective::Probe(location),
            LaunchDirective::Spawn(request) => StartupDirective::Spawn(request),
            LaunchDirective::Finished(outcome) => if self.waited {
                StartupDirective::Complete(outcome)
            } else {
                StartupDirective::Wait(GRACE_PERIOD_SECS)
            },
            LaunchDirective::Abort => StartupDirective::Abort,
        }
    }

    /// Takes what came of the outstanding request.
    pub fn handle(&mut self, event: StartupEvent)
        ensures
            final(self)@ == old(self)@.handle(event),
    {
        match event {
            StartupEvent::Probed(exists) => {
                self.launcher.handle(LaunchEvent::Probed(exists));
            },
            StartupEvent::Spawned(succeeded) => {
                self.launcher.handle(LaunchEvent::Spawned(succeeded));
            },
            StartupEvent::Waited => {
                if self.launcher.outcome().is_some() {
                    self.waited = true;
                }
            },
        }
    }
}

} // verus!
