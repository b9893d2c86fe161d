//! Launching the companion: find its entry point, make sure it is there, and
//! have it spawned.

use crate::path::joined;
use crate::resolver::{outcome, resolved, Resolution, ResolutionView, Resolver, ResolverState};
use vstd::prelude::*;

verus! {

/// The command that runs the companion's entry point. It is looked up on the
/// executable search path.
pub const INTERPRETER: &'static str = "node";

/// How a launch ended.
#[derive(Debug, Clone, Copy, PartialEq, Eq)]
pub enum LaunchOutcome {
    /// The companion was spawned.
    Started,
    /// There is nothing at the resolved path; nothing was spawned.
    NotFound,
}

/// A process to spawn.
#[derive(Debug, PartialEq, Eq)]
pub struct SpawnRequest {
    /// The command to run.
    pub program: String,
    /// Its arguments.
    pub args: Vec<String>,
    /// Whether the child shares the parent's standard streams.
    pub inherit_stdio: bool,
}

/// The view of a `SpawnRequest`.
pub struct SpawnRequestView {
    pub program: Seq<char>,
    pub args: Seq<Seq<char>>,
    pub inherit_stdio: bool,
}

impl View for SpawnRequest {
    type V = SpawnRequestView;

    open spec fn view(&self) -> SpawnRequestView {
        SpawnRequestView {
            program: self.program@,
            args: self.args.deep_view(),
            inherit_stdio: self.inherit_stdio,
        }
    }
}

/// The request that launches the entry point at `path`: the interpreter with
/// `path` as its only argument, on the parent's standard streams.
pub open spec fn spawn_request_for(path: Seq<char>) -> SpawnRequestView {
    SpawnRequestView { program: INTERPRETER@, args: seq![path], inherit_stdio: true }
}

/// The request that launches the entry point at `path`.
pub fn spawn_request(path: &str) -> (request: SpawnRequest)
    ensures
        request@ == spawn_request_for(path@),
{
    let mut args: Vec<String> = Vec::new();
    args.push(path.to_owned());
    assert(args.deep_view() =~= seq![path@]);
    SpawnRequest { program: INTERPRETER.to_owned(), args, inherit_stdio: true }
}

/// What a launcher asks for next.
#[derive(Debug, PartialEq, Eq)]
pub enum LaunchDirective {
    /// Tell me whether this location exists.
    Probe(String),
    /// Spawn this process and tell me whether that worked.
    Spawn(SpawnRequest),
    /// The launch is over.
    Finished(LaunchOutcome),
    /// The spawn failed; the run cannot go on.
    Abort,
}

/// The view of a `LaunchDirective`.
pub enum LaunchDirectiveView {
    Probe(Seq<char>),
    Spawn(SpawnRequestView),
    Finished(LaunchOutcome),
    Abort,
}

impl View for LaunchDirective {
    type V = LaunchDirectiveView;

    open spec fn view(&self) -> LaunchDirectiveView {
        match *self {
            LaunchDirective::Probe(location) => LaunchDirectiveView::Probe(location@),
            LaunchDirective::Spawn(request) => LaunchDirectiveView::Spawn(request@),
            LaunchDirective::Finished(outcome) => LaunchDirectiveView::Finished(outcome),
            LaunchDirective::Abort => LaunchDirectiveView::Abort,
        }
    }
}

/// What came of a launcher's request.
#[derive(Debug, Clone, Copy, PartialEq, Eq)]
pub enum LaunchEvent {
    /// The probed location exists, or does not.
    Probed(bool),
    /// The spawn succeeded, or failed.
    Spawned(bool),
}

/// The state of a launch.
pub enum LauncherState {
    /// The entry point is being resolved, or was resolved and its presence is
    /// being checked.
    Locating(ResolverState),
    /// The entry point at this path is there and is to be spawned.
    Spawning(Seq<char>),
    /// The launch is over.
    Finished(LaunchOutcome),
    /// The spawn failed.
    Failed,
}

impl LauncherState {
    /// A launch that has done nothing yet.
    pub open spec fn start(candidates: Seq<Seq<char>>, cwd: Seq<char>) -> LauncherState {
        LauncherState::Locating(ResolverState::start(candidates, cwd))
    }

    /// The request in this state. While the resolver probes, its probe; once
    /// it has settled on a path, the probe of that path's location; then the
    /// spawn; then the outcome.
    pub open spec fn directive(self) -> LaunchDirectiveView {
        match self {
            LauncherState::Locating(resolver) => match resolver.directive() {
                ResolutionView::Probe(location) => LaunchDirectiveView::Probe(location),
                ResolutionView::Settled(path) => LaunchDirectiveView::Probe(
                    joined(resolver.cwd, path),
                ),
            },
            LauncherState::Spawning(path) => LaunchDirectiveView::Spawn(spawn_request_for(path)),
            LauncherState::Finished(outcome) => LaunchDirectiveView::Finished(outcome),
            LauncherState::Failed => LaunchDirectiveView::Abort,
        }
    }

    /// The state after `event`. An event that answers no outstanding request
    /// changes nothing.
    pub open spec fn handle(self, event: LaunchEvent) -> LauncherState {
        match (self, event) {
            (LauncherState::Locating(resolver), LaunchEvent::Probed(exists)) => {
                match resolver.directive() {
                    ResolutionView::Probe(_) => LauncherState::Locating(resolver.report(exists)),
                    ResolutionView::Settled(path) => if exists {
                        LauncherState::Spawning(path)
                    } else {
                        LauncherState::Finished(LaunchOutcome::NotFound)
                    },
                }
            },
            (LauncherState::Spawning(_), LaunchEvent::Spawned(succeeded)) => if succeeded {
                LauncherState::Finished(LaunchOutcome::Started)
            } else {
                LauncherState::Failed
            },
            _ => self,
        }
    }

    /// How the launch ended, once it has.
    pub open spec fn outcome(self) -> Option<LaunchOutcome> {
        match self {
            LauncherState::Finished(outcome) => Some(outcome),
            _ => None,
        }
    }

    /// A bound on the requests still to come before the final one.
    pub open spec fn remaining(self) -> nat {
        match self {
            LauncherState::Locating(resolver) => resolver.pending.len() + (if resolver.settled.is_none() {
                3nat
            } else {
                2nat
            }),
            LauncherState::Spawning(_) => 1,
            _ => 0,
        }
    }

    /// The requests made from this state on, the final one included, when
    /// every request is answered by `host`.
    pub open spec fn run(self, host: Host) -> Seq<LaunchDirectiveView>
        decreases self.remaining(),
    {
        match self.directive() {
            LaunchDirectiveView::Probe(location) => seq![self.directive()] + self.handle(
                LaunchEvent::Probed(host.present.contains(location)),
            ).run(host),
            LaunchDirectiveView::Spawn(_) => seq![self.directive()] + self.handle(
                LaunchEvent::Spawned(host.spawn_succeeds),
            ).run(host),
            _ => seq![self.directive()],
        }
    }
}

/// The surroundings of a launch, as far as the launch can tell them apart:
/// the locations that exist, and whether a spawn succeeds.
pub struct Host {
    pub present: Set<Seq<char>>,
    pub spawn_succeeds: bool,
}

/// The spawn requests among `trace`, in order.
pub open spec fn spawn_requests(trace: Seq<LaunchDirectiveView>) -> Seq<SpawnRequestView>
    decreases trace.len(),
{
    if trace.len() == 0 {
        seq![]
    } else {
        let first = match trace[0] {
            LaunchDirectiveView::Spawn(request) => seq![request],
            _ => seq![],
        };
        first + spawn_requests(trace.drop_first())
    }
}

/// How a launch ends once the presence of the resolved path is known.
pub open spec fn launch_end(found: bool, spawn_succeeds: bool) -> LaunchDirectiveView {
    if !found {
        LaunchDirectiveView::Finished(LaunchOutcome::NotFound)
    } else if spawn_succeeds {
        LaunchDirectiveView::Finished(LaunchOutcome::Started)
    } else {
        LaunchDirectiveView::Abort
    }
}

proof fn lemma_spawn_requests_cons(first: LaunchDirectiveView, rest: Seq<LaunchDirectiveView>)
    ensures
        spawn_requests(seq![first] + rest) == (match first {
            LaunchDirectiveView::Spawn(request) => seq![request],
            _ => seq![],
        }) + spawn_requests(rest),
{
    assert((seq![first] + rest).drop_first() =~= rest);
}

proof fn lemma_spawn_requests_final(last: LaunchDirectiveView)
    requires
        !(last is Spawn),
    ensures
        spawn_requests(seq![last]) == Seq::<SpawnRequestView>::empty(),
{
    lemma_spawn_requests_cons(last, seq![]);
    assert(seq![last] + Seq::<LaunchDirectiveView>::empty() =~= seq![last]);
    assert(spawn_requests(Seq::<LaunchDirectiveView>::empty()) =~= seq![]);
}

proof fn lemma_spawning_run(path: Seq<char>, host: Host)
    ensures
        ({
            let trace = LauncherState::Spawning(path).run(host);
            &&& trace.len() == 2
            &&& trace[0] == LaunchDirectiveView::Spawn(spawn_request_for(path))
            &&& trace.last() == launch_end(true, host.spawn_succeeds)
            &&& spawn_requests(trace) == seq![spawn_request_for(path)]
        }),
{
    let state = LauncherState::Spawning(path);
    let next = state.handle(LaunchEvent::Spawned(host.spawn_succeeds));
    assert(next.run(host) =~= seq![next.directive()]);
    lemma_spawn_requests_final(next.directive());
    lemma_spawn_requests_cons(state.directive(), next.run(host));
}

proof fn lemma_locating_run(resolver: ResolverState, host: Host)
    ensures
        ({
            let trace = LauncherState::Locating(resolver).run(host);
            let path = outcome(resolver, host.present);
            let found = host.present.contains(joined(resolver.cwd, path));
            let check = LaunchDirectiveView::Probe(joined(resolver.cwd, path));
            &&& trace.last() == launch_end(found, host.spawn_succeeds)
            &&& if found {
                &&& trace.len() >= 3
                &&& trace[trace.len() - 3] == check
                &&& trace[trace.len() - 2] == LaunchDirectiveView::Spawn(spawn_request_for(path))
                &&& spawn_requests(trace) == seq![spawn_request_for(path)]
            } else {
                &&& trace.len() >= 2
                &&& trace[trace.len() - 2] == check
                &&& spawn_requests(trace) == Seq::<SpawnRequestView>::empty()
            }
        }),
    decreases resolver.pending.len() + (if resolver.settled.is_none() { 1nat } else { 0nat }),
{
    let state = LauncherState::Locating(resolver);
    match resolver.directive() {
        ResolutionView::Probe(location) => {
            let next = resolver.report(host.present.contains(location));
            lemma_locating_run(next, host);
            lemma_spawn_requests_cons(state.directive(), LauncherState::Locating(next).run(host));
        },
        ResolutionView::Settled(path) => {
            let found = host.present.contains(joined(resolver.cwd, path));
            let next = state.handle(LaunchEvent::Probed(found));
            if found {
                lemma_spawning_run(path, host);
            } else {
                assert(next.run(host) =~= seq![next.directive()]);
                lemma_spawn_requests_final(next.directive());
            }
            lemma_spawn_requests_cons(state.directive(), next.run(host));
        },
    }
}

/// A launch whose resolved path is absent never asks for a spawn: its last
/// request is the probe of that path's location under the working directory,
/// and it ends as `NotFound`.
pub proof fn absent_path_is_not_spawned(candidates: Seq<Seq<char>>, cwd: Seq<char>, host: Host)
    requires
        !host.present.contains(joined(cwd, resolved(candidates, cwd, host.present))),
    ensures
        ({
            let trace = LauncherState::start(candidates, cwd).run(host);
            let path = resolved(candidates, cwd, host.present);
            &&& spawn_requests(trace) == Seq::<SpawnRequestView>::empty()
            &&& trace.len() >= 2
            &&& trace[trace.len() - 2] == LaunchDirectiveView::Probe(joined(cwd, path))
            &&& trace.last() == LaunchDirectiveView::Finished(LaunchOutcome::NotFound)
        }),
{
    lemma_locating_run(ResolverState::start(candidates, cwd), host);
}

/// A launch whose resolved path is present asks for exactly one spawn: the
/// interpreter with that path as its sole argument, right after the probe
/// that found the path. It ends as `Started` where the spawn succeeds, and
/// aborts the run where it fails.
pub proof fn present_path_is_spawned_once(candidates: Seq<Seq<char>>, cwd: Seq<char>, host: Host)
    requires
        host.present.contains(joined(cwd, resolved(candidates, cwd, host.present))),
    ensures
        ({
            let trace = LauncherState::start(candidates, cwd).run(host);
            let path = resolved(candidates, cwd, host.present);
            &&& spawn_requests(trace) == seq![spawn_request_for(path)]
            &&& trace.len() >= 3
            &&& trace[trace.len() - 3] == LaunchDirectiveView::Probe(joined(cwd, path))
            &&& trace[trace.len() - 2] == LaunchDirectiveView::Spawn(spawn_request_for(path))
            &&& trace.last() == if host.spawn_succeeds {
                LaunchDirectiveView::Finished(LaunchOutcome::Started)
            } else {
                LaunchDirectiveView::Abort
            }
        }),
{
    lemma_locating_run(ResolverState::start(candidates, cwd), host);
}

enum Progress {
    Locating,
    Spawning(String),
    Finished(LaunchOutcome),
    Failed,
}

/// A launch in progress. It performs no I/O: it names what is to be done and
/// is told what came of it.
pub struct Launcher {
    resolver: Resolver,
    progress: Progress,
}

impl View for Launcher {
    type V = LauncherState;

    closed spec fn view(&self) -> LauncherState {
        match self.progress {
            Progress::Locating => LauncherState::Locating(self.resolver@),
            Progress::Spawning(path) => LauncherState::Spawning(path@),
            Progress::Finished(outcome) => LauncherState::Finished(outcome),
            Progress::Failed => LauncherState::Failed,
        }
    }
}

impl Launcher {
    /// A launch that starts by driving `resolver`.
    pub fn new(resolver: Resolver) -> (launcher: Launcher)
        ensures
            launcher@ == LauncherState::Locating(resolver@),
    {
        Launcher { resolver, progress: Progress::Locating }
    }

    /// What to do next.
    pub fn directive(&self) -> (directive: LaunchDirective)
        ensures
            directive@ == self@.directive(),
    {
        match &self.progress {
            Progress::Locating => match self.resolver.directive() {
                Resolution::Probe(location) => LaunchDirective::Probe(location),
                Resolution::Settled(path) => LaunchDirective::Probe(
                    self.resolver.locate(path.as_str()),
                ),
            },
            Progress::Spawning(path) => LaunchDirective::Spawn(spawn_request(path.as_str())),
            Progress::Finished(outcome) => LaunchDirective::Finished(*outcome),
            Progress::Failed => LaunchDirective::Abort,
        }
    }

    /// How the launch ended, once it has.
    pub fn outcome(&self) -> (outcome: Option<LaunchOutcome>)
        ensures
            outcome == self@.outcome(),
    {
        match &self.progress {
            Progress::Finished(outcome) => Some(*outcome),
            _ => None,
        }
    }

    /// Takes what came of the outstanding request.
    pub fn handle(&mut self, event: LaunchEvent)
        ensures
            final(self)@ == old(self)@.handle(event),
    {
        match event {
            LaunchEvent::Probed(exists) => {
                if let Progress::Locating = &self.progress {
                    match self.resolver.directive() {
                        Resolution::Probe(_) => {
                            self.resolver.report(exists);
                        },
                        Resolution::Settled(path) => {
                            if exists {
                                self.progress = Progress::Spawning(path);
                            } else {
                                self.progress = Progress::Finished(LaunchOutcome::NotFound);
                            }
                        },
                    }
                }
            },
            LaunchEvent::Spawned(succeeded) => {
                if let Progress::Spawning(_) = &self.progress {
                    if succeeded {
                        self.progress = Progress::Finished(LaunchOutcome::Started);
                    } else {
                        self.progress = Progress::Failed;
                    }
                }
            },
        }
    }
}

} // verus!
