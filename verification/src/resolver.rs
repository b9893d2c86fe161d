//! Where the companion's entry point lives.

use crate::path::{ancestor, ancestor_of, join, joined, parent, parent_of};
use vstd::prelude::*;

verus! {

/// The entry point, relative to the directory a layout designates.
pub const ENTRY_POINT: &'static str = "server/src/index.js";

/// Installed layout: the entry point sits beside the binary.
pub const INSTALLED_DEPTH: usize = 0;

/// Development tree: the entry point sits four levels above the binary's
/// directory.
pub const DEV_TREE_DEPTH: usize = 4;

/// The candidate a layout yields for an executable at `exe`: the entry point
/// under the directory `depth` levels above the one that holds the binary.
/// `None` where the path is not that deep.
pub open spec fn candidate_of(exe: Seq<char>, depth: nat) -> Option<Seq<char>> {
    match parent_of(exe) {
        Some(binary_dir) => match ancestor_of(binary_dir, depth) {
            Some(base) => Some(joined(base, ENTRY_POINT@)),
            None => None,
        },
        None => None,
    }
}

/// The candidate of one layout, if it can be formed.
pub fn candidate(exe_location: &str, depth: usize) -> (path: Option<String>)
    ensures
        path.deep_view() == candidate_of(exe_location@, depth as nat),
{
    match parent(exe_location) {
        Some(binary_dir) => match ancestor(binary_dir.as_str(), depth) {
            Some(base) => Some(join(base.as_str(), ENTRY_POINT)),
            None => None,
        },
        None => None,
    }
}

/// A candidate as a list: itself where it could be formed, nothing otherwise.
pub open spec fn formed(candidate: Option<Seq<char>>) -> Seq<Seq<char>> {
    match candidate {
        Some(path) => seq![path],
        None => seq![],
    }
}

/// The candidates for an executable at `exe`, highest priority first: the
/// installed layout, then the development tree. A layout whose candidate
/// cannot be formed contributes none.
pub open spec fn candidates_of(exe: Seq<char>) -> Seq<Seq<char>> {
    formed(candidate_of(exe, INSTALLED_DEPTH as nat)) + formed(
        candidate_of(exe, DEV_TREE_DEPTH as nat),
    )
}

/// The candidates for the executable at `exe_location`, in priority order.
/// The list depends on `exe_location` alone.
pub fn candidate_paths(exe_location: &str) -> (paths: Vec<String>)
    ensures
        paths.deep_view() == candidates_of(exe_location@),
{
    let mut paths: Vec<String> = Vec::new();
    if let Some(path) = candidate(exe_location, INSTALLED_DEPTH) {
        paths.push(path);
    }
    if let Some(path) = candidate(exe_location, DEV_TREE_DEPTH) {
        paths.push(path);
    }
    assert(paths.deep_view() =~= candidates_of(exe_location@));
    paths
}

/// The candidate list is fixed by the executable's path, and ordered. Where
/// that path has a parent directory, the installed layout's candidate can be
/// formed and comes first; the development tree's candidate follows it where
/// the path is deep enough, and nothing else does.
pub proof fn candidates_are_ordered(exe: Seq<char>)
    requires
        parent_of(exe).is_some(),
    ensures
        ({
            let list = candidates_of(exe);
            let installed = joined(parent_of(exe).unwrap(), ENTRY_POINT@);
            &&& candidate_of(exe, INSTALLED_DEPTH as nat) == Some(installed)
            &&& 1 <= list.len() <= 2
            &&& list[0] == installed
            &&& match candidate_of(exe, DEV_TREE_DEPTH as nat) {
                Some(dev_tree) => list.len() == 2 && list[1] == dev_tree,
                None => list.len() == 1,
            }
        }),
{
}

/// The path that resolution yields when `present` is the set of locations
/// that exist: the first candidate found at its location under `cwd`, and the
/// relative entry point where there is none.
pub open spec fn resolved(
    candidates: Seq<Seq<char>>,
    cwd: Seq<char>,
    present: Set<Seq<char>>,
) -> Seq<char>
    decreases candidates.len(),
{
    if candidates.len() == 0 {
        ENTRY_POINT@
    } else if present.contains(joined(cwd, candidates[0])) {
        candidates[0]
    } else {
        resolved(candidates.drop_first(), cwd, present)
    }
}

/// What a resolver asks for next.
#[derive(Debug, PartialEq, Eq)]
pub enum Resolution {
    /// Tell me whether this location exists.
    Probe(String),
    /// Resolution is over; this is the path.
    Settled(String),
}

/// The view of a `Resolution`.
pub enum ResolutionView {
    Probe(Seq<char>),
    Settled(Seq<char>),
}

impl View for Resolution {
    type V = ResolutionView;

    open spec fn view(&self) -> ResolutionView {
        match *self {
            Resolution::Probe(location) => ResolutionView::Probe(location@),
            Resolution::Settled(path) => ResolutionView::Settled(path@),
        }
    }
}

/// The state of a resolution: the candidates not yet dismissed, the directory
/// against which relative paths are taken, and the candidate that was found,
/// once one was.
pub struct ResolverState {
    pub pending: Seq<Seq<char>>,
    pub cwd: Seq<char>,
    pub settled: Option<Seq<char>>,
}

impl ResolverState {
    /// A resolution that has probed nothing yet.
    pub open spec fn start(candidates: Seq<Seq<char>>, cwd: Seq<char>) -> ResolverState {
        ResolverState { pending: candidates, cwd, settled: None }
    }

    /// Whether a probe is outstanding.
    pub open spec fn probing(self) -> bool {
        self.settled.is_none() && self.pending.len() > 0
    }

    /// The request in this state: the path once it is known, the location of
    /// the first pending candidate before that, and the relative entry point
    /// when every candidate has been dismissed.
    pub open spec fn directive(self) -> ResolutionView {
        match self.settled {
            Some(path) => ResolutionView::Settled(path),
            None => if self.pending.len() > 0 {
                ResolutionView::Probe(joined(self.cwd, self.pending[0]))
            } else {
                ResolutionView::Settled(ENTRY_POINT@)
            },
        }
    }

    /// The state after the outstanding probe was answered. Where no probe is
    /// outstanding the answer changes nothing.
    pub open spec fn report(self, exists: bool) -> ResolverState {
        if !self.probing() {
            self
        } else if exists {
            ResolverState { settled: Some(self.pending[0]), ..self }
        } else {
            ResolverState { pending: self.pending.drop_first(), ..self }
        }
    }

    /// The requests made from this state on, the final one included, when
    /// every probe is answered from `present`.
    pub open spec fn run(self, present: Set<Seq<char>>) -> Seq<ResolutionView>
        decreases self.pending.len() + (if self.settled.is_none() { 1nat } else { 0nat }),
    {
        match self.directive() {
            ResolutionView::Probe(location) => seq![self.directive()] + self.report(
                present.contains(location),
            ).run(present),
            ResolutionView::Settled(_) => seq![self.directive()],
        }
    }
}

/// The path a resolution in state `state` ends on when every probe is
/// answered from `present`.
pub open spec fn outcome(state: ResolverState, present: Set<Seq<char>>) -> Seq<char> {
    match state.settled {
        Some(path) => path,
        None => resolved(state.pending, state.cwd, present),
    }
}

/// A run ends by settling, and on the path that `outcome` names.
pub proof fn run_settles_on_outcome(state: ResolverState, present: Set<Seq<char>>)
    ensures
        state.run(present).len() > 0,
        state.run(present).last() == ResolutionView::Settled(outcome(state, present)),
    decreases state.pending.len() + (if state.settled.is_none() { 1nat } else { 0nat }),
{
    if state.probing() {
        let next = state.report(present.contains(joined(state.cwd, state.pending[0])));
        run_settles_on_outcome(next, present);
    }
}

/// Candidates are probed lazily and in priority order: the requests before
/// the last are probes of the candidates' locations, one after the other from
/// the first, and each probed candidate but the last of them is absent.
pub proof fn run_probes_in_order(
    candidates: Seq<Seq<char>>,
    cwd: Seq<char>,
    present: Set<Seq<char>>,
)
    ensures
        ({
            let trace = ResolverState::start(candidates, cwd).run(present);
            &&& 1 <= trace.len() <= candidates.len() + 1
            &&& forall|i: int|
                0 <= i < trace.len() - 1 ==> trace[i] == ResolutionView::Probe(
                    joined(cwd, candidates[i]),
                )
            &&& forall|i: int|
                0 <= i < trace.len() - 2 ==> !present.contains(joined(cwd, candidates[i]))
        }),
    decreases candidates.len(),
{
    let state = ResolverState::start(candidates, cwd);
    let trace = state.run(present);
    if candidates.len() > 0 {
        let exists = present.contains(joined(cwd, candidates[0]));
        let next = state.report(exists);
        if exists {
            assert(next.run(present) =~= seq![next.directive()]);
        } else {
            let rest = candidates.drop_first();
            assert(next == ResolverState::start(rest, cwd));
            run_probes_in_order(rest, cwd, present);
            let tail = next.run(present);
            assert forall|i: int| 0 <= i < trace.len() - 1 implies trace[i]
                == ResolutionView::Probe(joined(cwd, candidates[i])) by {
                if i > 0 {
                    assert(trace[i] == tail[i - 1]);
                    assert(rest[i - 1] == candidates[i]);
                }
            }
            assert forall|i: int| 0 <= i < trace.len() - 2 implies !present.contains(
                joined(cwd, candidates[i]),
            ) by {
                if i > 0 {
                    assert(rest[i - 1] == candidates[i]);
                }
            }
        }
    }
}

/// The first candidate that is present is the one resolved, whatever comes
/// after it.
pub proof fn first_present_candidate_is_resolved(
    candidates: Seq<Seq<char>>,
    cwd: Seq<char>,
    present: Set<Seq<char>>,
    index: int,
)
    requires
        0 <= index < candidates.len(),
        present.contains(joined(cwd, candidates[index])),
        forall|i: int| 0 <= i < index ==> !present.contains(joined(cwd, candidates[i])),
    ensures
        resolved(candidates, cwd, present) == candidates[index],
    decreases candidates.len(),
{
    if index > 0 {
        let rest = candidates.drop_first();
        assert(!present.contains(joined(cwd, candidates[0])));
        assert(rest[index - 1] == candidates[index]);
        assert forall|i: int| 0 <= i < index - 1 implies !present.contains(
            joined(cwd, rest[i]),
        ) by {
            assert(rest[i] == candidates[i + 1]);
        }
        first_present_candidate_is_resolved(rest, cwd, present, index - 1);
    }
}

/// Where the installed layout's candidate is present it is the path resolved,
/// whether or not the development tree's candidate is present too.
pub proof fn installed_layout_has_priority(
    exe: Seq<char>,
    cwd: Seq<char>,
    present: Set<Seq<char>>,
)
    requires
        candidate_of(exe, INSTALLED_DEPTH as nat).is_some(),
        present.contains(joined(cwd, candidate_of(exe, INSTALLED_DEPTH as nat).unwrap())),
    ensures
        resolved(candidates_of(exe), cwd, present) == candidate_of(
            exe,
            INSTALLED_DEPTH as nat,
        ).unwrap(),
{
    first_present_candidate_is_resolved(candidates_of(exe), cwd, present, 0);
}

/// Where no candidate is present the path resolved is the entry point taken
/// relative to the working directory: the bare relative path, whose location
/// is that path under `cwd`.
pub proof fn no_candidate_resolves_to_fallback(
    candidates: Seq<Seq<char>>,
    cwd: Seq<char>,
    present: Set<Seq<char>>,
)
    requires
        forall|i: int| 0 <= i < candidates.len() ==> !present.contains(joined(cwd, candidates[i])),
    ensures
        resolved(candidates, cwd, present) == ENTRY_POINT@,
    decreases candidates.len(),
{
    if candidates.len() > 0 {
        let rest = candidates.drop_first();
        assert(!present.contains(joined(cwd, candidates[0])));
        assert forall|i: int| 0 <= i < rest.len() implies !present.contains(
            joined(cwd, rest[i]),
        ) by {
            assert(rest[i] == candidates[i + 1]);
        }
        no_candidate_resolves_to_fallback(rest, cwd, present);
    }
}

/// A resolution in progress. It performs no I/O: it names the location to
/// probe and is told the answer.
pub struct Resolver {
    candidates: Vec<String>,
    cwd: String,
    cursor: usize,
    settled: Option<String>,
}

impl View for Resolver {
    type V = ResolverState;

    closed spec fn view(&self) -> ResolverState {
        ResolverState {
            pending: if self.cursor <= self.candidates.len() {
                self.candidates.deep_view().skip(self.cursor as int)
            } else {
                Seq::empty()
            },
            cwd: self.cwd@,
            settled: self.settled.deep_view(),
        }
    }
}

impl Resolver {
    /// A resolver over `candidates`, highest priority first, that takes
    /// relative paths against `cwd`.
    pub fn new(candidates: Vec<String>, cwd: String) -> (resolver: Resolver)
        ensures
            resolver@ == ResolverState::start(candidates.deep_view(), cwd@),
    {
        let resolver = Resolver { candidates, cwd, cursor: 0, settled: None };
        assert(resolver@.pending =~= candidates.deep_view());
        resolver
    }

    /// A resolver for the executable at `exe_location`.
    pub fn for_executable(exe_location: &str, cwd: &str) -> (resolver: Resolver)
        ensures
            resolver@ == ResolverState::start(candidates_of(exe_location@), cwd@),
    {
        Resolver::new(candidate_paths(exe_location), cwd.to_owned())
    }

    /// Where `path` is to be looked for: `path` taken against the working
    /// directory.
    pub fn locate(&self, path: &str) -> (location: String)
        ensures
            location@ == joined(self@.cwd, path@),
    {
        join(self.cwd.as_str(), path)
    }

    /// What to do next.
    pub fn directive(&self) -> (directive: Resolution)
        ensures
            directive@ == self@.directive(),
    {
        match &self.settled {
            Some(path) => Resolution::Settled(path.clone()),
            None => if self.cursor < self.candidates.len() {
                Resolution::Probe(self.locate(self.candidates[self.cursor].as_str()))
            } else {
                Resolution::Settled(ENTRY_POINT.to_owned())
            },
        }
    }

    /// Takes the answer to the outstanding probe.
    pub fn report(&mut self, exists: bool)
        ensures
            final(self)@ == old(self)@.report(exists),
    {
        if self.settled.is_none() && self.cursor < self.candidates.len() {
            if exists {
                self.settled = Some(self.candidates[self.cursor].clone());
            } else {
                self.cursor = self.cursor + 1;
                assert(self@.pending =~= old(self)@.pending.drop_first());
            }
        }
    }
}

} // verus!
