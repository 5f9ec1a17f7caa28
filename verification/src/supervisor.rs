//! The orchestration state machine of one supervision run.
//!
//! A run moves through the phases `Loading`, `Spawning`, `Waiting` and
//! `Done`, never branching back. During `Spawning`, every loaded spec is
//! attempted independently: a spec missing a required field is skipped,
//! a spec whose path has no parent directory is recorded as failed, and
//! for every other spec a [`SpawnRequest`] is handed out for the
//! embedding to start; the embedding reports back whether the OS created
//! the process. One failing spec never aborts the processing of the
//! others. Successfully started children are registered in the
//! [`ChildRegistry`] in spawn completion order, and the `Waiting` phase
//! hands every registered handle out exactly once to be waited on.

use vstd::prelude::*;

use crate::process_spec::{
    MissingField, ProcessSpecView, RawSpec, RawSpecView, resolve_spec, spec_resolve,
};
use crate::registry::ChildRegistry;
use crate::spawner::{
    SpawnError, SpawnRequest, build_request, has_usable_parent, parent_of, request_matches,
};

verus! {

/// One named configuration entry, as the loader hands it over.
pub struct NamedSpec {
    pub name: String,
    pub raw: RawSpec,
}

/// What one spec came to during the Spawning phase.
pub enum SpecOutcome {
    /// A required field was missing; no spawn was attempted.
    Skipped(MissingField),
    /// A spawn was attempted, or rejected for an invalid path, and no
    /// process came of it.
    Failed(SpawnError),
    /// A child process was started and registered under this handle.
    Spawned(usize),
}

/// The handles of the successful outcomes, in order.
pub open spec fn success_handles(os: Seq<SpecOutcome>) -> Seq<usize>
    decreases os.len(),
{
    if os.len() == 0 {
        Seq::empty()
    } else {
        success_handles(os.drop_last()) + match os.last() {
            SpecOutcome::Spawned(h) => seq![h],
            _ => Seq::empty(),
        }
    }
}

/// How many specs spawned successfully.
pub open spec fn count_successes(os: Seq<SpecOutcome>) -> nat {
    success_handles(os).len()
}

/// Only a successful spec registers a handle, and exactly its own one:
/// a skipped or failed spec contributes nothing to the registry.
pub proof fn lemma_only_successes_register(os: Seq<SpecOutcome>, o: SpecOutcome)
    ensures
        !(o is Spawned) ==> success_handles(os.push(o)) == success_handles(os),
        o matches SpecOutcome::Spawned(h) ==> success_handles(os.push(o)) == success_handles(
            os,
        ).push(h),
{
    assert(os.push(o).drop_last() =~= os);
    assert(os.push(o).last() == o);
    if o is Spawned {
        assert(success_handles(os) + seq![o->Spawned_0] =~= success_handles(os).push(
            o->Spawned_0,
        ));
    } else {
        assert(success_handles(os) + Seq::<usize>::empty() =~= success_handles(os));
    }
}

proof fn lemma_success_handles_len(os: Seq<SpecOutcome>)
    ensures
        success_handles(os).len() <= os.len(),
    decreases os.len(),
{
    if os.len() > 0 {
        lemma_success_handles_len(os.drop_last());
    }
}

/// A launch request handed out for entry `(name, raw)` is faithful to
/// it: the entry resolves, its path has a non-empty parent directory,
/// and the request carries its path, its split argument vector and its
/// hide flag, rooted in exactly that parent directory.
pub open spec fn launch_ok(name: Seq<char>, raw: RawSpecView, req: SpawnRequest) -> bool {
    &&& spec_resolve(name, raw) matches Result::Ok(p) && {
        &&& has_usable_parent(p.path)
        &&& parent_of(p.path) matches Option::Some(dir) && request_matches(req, p, dir)
    }
}

/// The phases of a run, in order; there is no way back.
#[derive(PartialEq, Eq, Structural, Clone, Copy, Debug)]
pub enum Phase {
    Loading,
    Spawning,
    Waiting,
    Done,
}

/// What the embedding is to do next during the Spawning phase.
pub enum SpawnStep {
    /// Start this request for the named spec, then report the outcome
    /// through `report_success` or `report_failure`.
    Launch(String, SpawnRequest),
    /// The named spec lacked a required field and was skipped.
    Skip(String, MissingField),
    /// The named spec was rejected before any OS call and recorded as
    /// failed.
    Fail(String, SpawnError),
    /// Every spec has been attempted; the run is now Waiting.
    Finished,
}

/// The supervisor: owns the loaded specs, the registry of live
/// children, and the record of per-spec outcomes.
pub struct Supervisor {
    phase: Phase,
    specs: Vec<NamedSpec>,
    next: usize,
    pending: bool,
    outcomes: Ghost<Seq<SpecOutcome>>,
    registry: ChildRegistry,
    issued: usize,
}

impl Supervisor {
    /// The current phase.
    pub closed spec fn phase(&self) -> Phase {
        self.phase
    }

    /// The outcomes recorded so far, one per processed spec, in order.
    pub closed spec fn outcomes(&self) -> Seq<SpecOutcome> {
        self.outcomes@
    }

    /// The registered child handles, in spawn completion order.
    pub closed spec fn children(&self) -> Seq<usize> {
        self.registry@
    }

    /// How many specs were loaded.
    pub closed spec fn total(&self) -> nat {
        self.specs@.len()
    }

    /// How many specs have been fully processed.
    pub closed spec fn processed(&self) -> nat {
        self.next as nat
    }

    /// Whether a handed-out launch request still awaits its report.
    pub closed spec fn pending(&self) -> bool {
        self.pending
    }

    /// Name and raw record of the spec at position `i`.
    pub closed spec fn spec_at(&self, i: int) -> (Seq<char>, RawSpecView) {
        (self.specs@[i].name@, self.specs@[i].raw@)
    }

    /// The supervisor's invariant: outcomes track processed specs one to
    /// one, the registry holds exactly the handles of the successes, and
    /// handles are issued as consecutive indices.
    pub closed spec fn wf(&self) -> bool {
        &&& self.outcomes@.len() == self.next as int
        &&& self.next <= self.specs@.len()
        &&& (!(self.phase is Done) ==> self.registry@ == success_handles(self.outcomes@))
        &&& self.issued as int == count_successes(self.outcomes@)
        &&& (forall|k: int| 0 <= k < self.registry@.len() ==> self.registry@[k] == k)
        &&& (self.phase is Loading ==> self.next == 0 && self.specs@.len() == 0 && !self.pending)
        &&& (self.phase is Waiting ==> self.next == self.specs@.len() && !self.pending)
        &&& (self.phase is Done ==> self.next == self.specs@.len() && !self.pending
            && self.registry@.len() == 0)
        &&& (self.pending ==> self.phase is Spawning && self.next < self.specs@.len())
    }

    /// A fresh supervisor, about to load its specs.
    pub fn new() -> (s: Supervisor)
        ensures
            s.wf(),
            s.phase() is Loading,
            s.outcomes() == Seq::<SpecOutcome>::empty(),
            s.children() == Seq::<usize>::empty(),
            s.total() == 0,
    {
        let s = Supervisor {
            phase: Phase::Loading,
            specs: Vec::new(),
            next: 0,
            pending: false,
            outcomes: Ghost(Seq::empty()),
            registry: ChildRegistry::new(),
            issued: 0,
        };
        proof {
            assert(success_handles(Seq::<SpecOutcome>::empty()) == Seq::<usize>::empty());
        }
        s
    }

    /// Accept the loaded specs and enter the Spawning phase. A failure
    /// to load at all is fatal to the run and never reaches this point.
    pub fn load(&mut self, specs: Vec<NamedSpec>)
        requires
            old(self).wf(),
            old(self).phase() is Loading,
        ensures
            final(self).wf(),
            final(self).phase() is Spawning,
            !final(self).pending(),
            final(self).total() == specs@.len(),
            final(self).processed() == 0,
            final(self).outcomes() == old(self).outcomes(),
            final(self).children() == old(self).children(),
            forall|i: int|
                0 <= i < specs@.len() ==> final(self).spec_at(i) == (specs@[i].name@, specs@[i].raw@),
    {
        self.specs = specs;
        self.phase = Phase::Spawning;
    }

    /// Process the next spec: skip it for a missing field, reject it as
    /// failed exactly when its path has no non-empty parent directory,
    /// hand out its launch request otherwise, or — once every spec has
    /// been attempted — move to the Waiting phase, at which point the
    /// registry holds exactly one handle per success.
    #[verifier::rlimit(60)]
    pub fn process_next(&mut self) -> (r: SpawnStep)
        requires
            old(self).wf(),
            old(self).phase() is Spawning,
            !old(self).pending(),
        ensures
            final(self).wf(),
            final(self).total() == old(self).total(),
            forall|i: int|
                0 <= i < final(self).total() ==> final(self).spec_at(i) == old(self).spec_at(i),
            r is Finished ==> {
                &&& old(self).processed() == old(self).total()
                &&& final(self).phase() is Waiting
                &&& final(self).outcomes() == old(self).outcomes()
                &&& final(self).children() == old(self).children()
                &&& final(self).children().len() == count_successes(final(self).outcomes())
            },
            !(r is Finished) ==> old(self).processed() < old(self).total(),
            r matches SpawnStep::Skip(name, reason) ==> {
                &&& final(self).phase() is Spawning
                &&& !final(self).pending()
                &&& final(self).processed() == old(self).processed() + 1
                &&& final(self).outcomes() == old(self).outcomes().push(
                    SpecOutcome::Skipped(reason),
                )
                &&& final(self).children() == old(self).children()
                &&& name@ == old(self).spec_at(old(self).processed() as int).0
                &&& spec_resolve(
                    old(self).spec_at(old(self).processed() as int).0,
                    old(self).spec_at(old(self).processed() as int).1,
                ) matches Result::Err(f) && f == reason
            },
            r matches SpawnStep::Fail(name, err) ==> {
                &&& final(self).phase() is Spawning
                &&& !final(self).pending()
                &&& final(self).processed() == old(self).processed() + 1
                &&& final(self).outcomes() == old(self).outcomes().push(SpecOutcome::Failed(err))
                &&& final(self).children() == old(self).children()
                &&& name@ == old(self).spec_at(old(self).processed() as int).0
                &&& err is InvalidPath
                &&& spec_resolve(
                    old(self).spec_at(old(self).processed() as int).0,
                    old(self).spec_at(old(self).processed() as int).1,
                ) matches Result::Ok(p) && !has_usable_parent(p.path)
            },
            r matches SpawnStep::Launch(name, req) ==> {
                &&& final(self).phase() is Spawning
                &&& final(self).pending()
                &&& final(self).processed() == old(self).processed()
                &&& final(self).outcomes() == old(self).outcomes()
                &&& final(self).children() == old(self).children()
                &&& name@ == old(self).spec_at(old(self).processed() as int).0
                &&& launch_ok(
                    old(self).spec_at(old(self).processed() as int).0,
                    old(self).spec_at(old(self).processed() as int).1,
                    req,
                )
            },
    {
        if self.next == self.specs.len() {
            self.phase = Phase::Waiting;
            return SpawnStep::Finished;
        }
        let name = self.specs[self.next].name.clone();
        let resolved = resolve_spec(self.specs[self.next].name.as_str(), &self.specs[self.next].raw);
        match resolved {
            Result::Err(reason) => {
                proof {
                    lemma_only_successes_register(self.outcomes@, SpecOutcome::Skipped(reason));
                }
                self.outcomes = Ghost(self.outcomes@.push(SpecOutcome::Skipped(reason)));
                self.next = self.next + 1;
                SpawnStep::Skip(name, reason)
            },
            Result::Ok(p) => {
                match build_request(&p) {
                    Result::Err(err) => {
                        proof {
                            lemma_only_successes_register(
                                self.outcomes@,
                                SpecOutcome::Failed(err),
                            );
                            let rv = spec_resolve(
                                self.specs@[self.next as int].name@,
                                self.specs@[self.next as int].raw@,
                            );
                            assert(rv == Result::<ProcessSpecView, MissingField>::Ok(p@));
                            assert(!has_usable_parent(rv->Ok_0.path));
                        }
                        self.outcomes = Ghost(self.outcomes@.push(SpecOutcome::Failed(err)));
                        self.next = self.next + 1;
                        SpawnStep::Fail(name, err)
                    },
                    Result::Ok(req) => {
                        proof {
                            let rv = spec_resolve(
                                self.specs@[self.next as int].name@,
                                self.specs@[self.next as int].raw@,
                            );
                            assert(rv == Result::<ProcessSpecView, MissingField>::Ok(p@));
                            assert(has_usable_parent(rv->Ok_0.path));
                            let dir0 = parent_of(p@.path)->Some_0;
                            assert(parent_of(rv->Ok_0.path) == Option::Some(dir0));
                            assert(request_matches(req, rv->Ok_0, dir0));
                            assert(launch_ok(
                                self.specs@[self.next as int].name@,
                                self.specs@[self.next as int].raw@,
                                req,
                            ));
                        }
                        self.pending = true;
                        SpawnStep::Launch(name, req)
                    },
                }
            },
        }
    }

    /// The embedding reports that the pending launch request produced a
    /// live process: the child is registered, after all earlier ones,
    /// under the returned handle.
    pub fn report_success(&mut self) -> (h: usize)
        requires
            old(self).wf(),
            old(self).pending(),
        ensures
            final(self).wf(),
            final(self).phase() is Spawning,
            !final(self).pending(),
            final(self).total() == old(self).total(),
            forall|i: int|
                0 <= i < final(self).total() ==> final(self).spec_at(i) == old(self).spec_at(i),
            final(self).processed() == old(self).processed() + 1,
            final(self).outcomes() == old(self).outcomes().push(SpecOutcome::Spawned(h)),
            final(self).children() == old(self).children().push(h),
            h == old(self).children().len(),
    {
        let total = self.specs.len();
        proof {
            lemma_success_handles_len(self.outcomes@);
            lemma_only_successes_register(self.outcomes@, SpecOutcome::Spawned(self.issued));
            assert(self.next < total);
            assert(self.issued as int <= self.next as int);
        }
        let h = self.issued;
        self.outcomes = Ghost(self.outcomes@.push(SpecOutcome::Spawned(h)));
        self.registry.append(h);
        self.issued = self.issued + 1;
        self.next = self.next + 1;
        self.pending = false;
        h
    }

    /// The embedding reports that the pending launch request failed at
    /// the OS: the failure is recorded and nothing is registered.
    pub fn report_failure(&mut self, err: SpawnError)
        requires
            old(self).wf(),
            old(self).pending(),
        ensures
            final(self).wf(),
            final(self).phase() is Spawning,
            !final(self).pending(),
            final(self).total() == old(self).total(),
            forall|i: int|
                0 <= i < final(self).total() ==> final(self).spec_at(i) == old(self).spec_at(i),
            final(self).processed() == old(self).processed() + 1,
            final(self).outcomes() == old(self).outcomes().push(SpecOutcome::Failed(err)),
            final(self).children() == old(self).children(),
    {
        let total = self.specs.len();
        proof {
            lemma_only_successes_register(self.outcomes@, SpecOutcome::Failed(err));
            assert(self.next < total);
        }
        self.outcomes = Ghost(self.outcomes@.push(SpecOutcome::Failed(err)));
        self.next = self.next + 1;
        self.pending = false;
    }

    /// The Waiting phase's single barrier: hand out every registered
    /// handle exactly once, in spawn completion order, to be waited on;
    /// the run is Done once each has been. Handles are consecutive
    /// indices into the embedding's own list of children.
    pub fn drain_for_wait(&mut self) -> (r: Vec<usize>)
        requires
            old(self).wf(),
            old(self).phase() is Waiting,
        ensures
            final(self).wf(),
            final(self).phase() is Done,
            final(self).outcomes() == old(self).outcomes(),
            final(self).children() == Seq::<usize>::empty(),
            r@ == old(self).children(),
            r@.len() == count_successes(old(self).outcomes()),
            forall|k: int| 0 <= k < r@.len() ==> r@[k] == k,
    {
        let r = self.registry.drain();
        self.phase = Phase::Done;
        r
    }
}

/// While the supervisor's invariant holds, the registry's contents are
/// exactly the handles of the specs that spawned successfully — in
/// particular, once the Spawning phase has completed, the registry's
/// size equals the number of successes.
pub proof fn lemma_registry_counts_successes(s: &Supervisor)
    requires
        s.wf(),
        !(s.phase() is Done),
    ensures
        s.children() == success_handles(s.outcomes()),
        s.children().len() == count_successes(s.outcomes()),
{
}

} // verus!
