//! Watch/rebuild supervision logic.
//!
//! Filesystem notifications arrive in debounced batches. A batch is
//! filtered by event kind: only creations, content modifications, renames
//! and removals are relevant; metadata-only changes never trigger a
//! rebuild. At most one rebuild runs at a time: a relevant batch that
//! arrives while a rebuild is active is coalesced into one pending
//! rebuild, started when the active one finishes. A failed rebuild is
//! tolerated: the supervisor goes back to watching exactly as after a
//! successful one.

use vstd::prelude::*;

verus! {

/// Kind of a filesystem creation event.
#[derive(Clone, Copy, PartialEq, Eq, Structural, Debug)]
pub enum FsCreateKind {
    File,
    Folder,
    Any,
    Other,
}

/// Kind of a filesystem modification event. Only the top-level
/// distinction matters to the rebuild decision; the finer detail of a
/// data change, rename mode or metadata field is not read.
#[derive(Clone, Copy, PartialEq, Eq, Structural, Debug)]
pub enum FsModifyKind {
    /// Content changed.
    Data,
    /// Timestamps, permissions or other metadata changed.
    Metadata,
    /// Renamed or moved.
    Name,
    Any,
    Other,
}

/// Kind of a filesystem removal event.
#[derive(Clone, Copy, PartialEq, Eq, Structural, Debug)]
pub enum FsRemoveKind {
    File,
    Folder,
    Any,
    Other,
}

/// Kind of a filesystem change event, as the notification backend
/// classifies it.
#[derive(Clone, Copy, PartialEq, Eq, Structural, Debug)]
pub enum FsEventKind {
    Any,
    Access,
    Create(FsCreateKind),
    Modify(FsModifyKind),
    Remove(FsRemoveKind),
    Other,
}

/// Whether an event of this kind should trigger a rebuild: creations,
/// content modifications, renames and removals are relevant;
/// metadata-only modifications, accesses and unclassified events are not.
pub open spec fn spec_relevant_event(k: FsEventKind) -> bool {
    match k {
        FsEventKind::Create(ck) => match ck {
            FsCreateKind::File => true,
            FsCreateKind::Folder => true,
            FsCreateKind::Any => true,
            FsCreateKind::Other => false,
        },
        FsEventKind::Modify(mk) => match mk {
            FsModifyKind::Name => true,
            FsModifyKind::Data => true,
            FsModifyKind::Metadata => false,
            FsModifyKind::Any => true,
            FsModifyKind::Other => false,
        },
        FsEventKind::Remove(rk) => match rk {
            FsRemoveKind::File => true,
            FsRemoveKind::Folder => true,
            FsRemoveKind::Any => true,
            FsRemoveKind::Other => false,
        },
        _ => false,
    }
}

/// Decides whether one event should trigger a rebuild.
pub fn is_relevant_event(event_kind: &FsEventKind) -> (r: bool)
    ensures
        r == spec_relevant_event(*event_kind),
{
    match event_kind {
        FsEventKind::Create(create_kind) => match create_kind {
            FsCreateKind::File => true,
            FsCreateKind::Folder => true,
            FsCreateKind::Any => true,
            FsCreateKind::Other => false,
        },
        FsEventKind::Modify(modify_kind) => match modify_kind {
            FsModifyKind::Name => true,
            FsModifyKind::Data => true,
            FsModifyKind::Metadata => false,
            FsModifyKind::Any => true,
            FsModifyKind::Other => false,
        },
        FsEventKind::Remove(remove_kind) => match remove_kind {
            FsRemoveKind::File => true,
            FsRemoveKind::Folder => true,
            FsRemoveKind::Any => true,
            FsRemoveKind::Other => false,
        },
        _ => false,
    }
}

/// The relevant events of a batch, in delivery order.
pub open spec fn spec_filter_relevant(events: Seq<FsEventKind>) -> Seq<FsEventKind>
    decreases events.len(),
{
    if events.len() == 0 {
        Seq::empty()
    } else if spec_relevant_event(events.last()) {
        spec_filter_relevant(events.drop_last()).push(events.last())
    } else {
        spec_filter_relevant(events.drop_last())
    }
}

/// The filtered batch is empty exactly when no event of the batch is
/// relevant.
pub proof fn lemma_filter_relevant_empty_iff(events: Seq<FsEventKind>)
    ensures
        spec_filter_relevant(events).len() == 0 <==> (forall|i: int|
            0 <= i < events.len() ==> !spec_relevant_event(events[i])),
    decreases events.len(),
{
    if events.len() > 0 {
        lemma_filter_relevant_empty_iff(events.drop_last());
        assert(forall|i: int|
            0 <= i < events.len() - 1 ==> events.drop_last()[i] == events[i]);
    }
}

/// Keeps the relevant events of a batch, in delivery order.
pub fn filter_relevant(events: &Vec<FsEventKind>) -> (r: Vec<FsEventKind>)
    ensures
        r@ == spec_filter_relevant(events@),
{
    let mut r: Vec<FsEventKind> = Vec::new();
    let mut i: usize = 0;
    while i < events.len()
        invariant
            i <= events.len(),
            r@ == spec_filter_relevant(events@.take(i as int)),
        decreases events.len() - i,
    {
        proof {
            assert(events@.take(i + 1).drop_last() =~= events@.take(i as int));
            assert(events@.take(i + 1).last() == events@[i as int]);
        }
        if is_relevant_event(&events[i]) {
            r.push(events[i]);
        }
        i = i + 1;
    }
    proof {
        assert(events@.take(events@.len() as int) =~= events@);
    }
    r
}

/// Decides whether a debounced batch triggers a rebuild: it does exactly
/// when at least one event in it is relevant.
pub fn should_rebuild(events: &Vec<FsEventKind>) -> (r: bool)
    ensures
        r == (spec_filter_relevant(events@).len() > 0),
        r == (exists|i: int| 0 <= i < events@.len() && spec_relevant_event(events@[i])),
{
    proof {
        lemma_filter_relevant_empty_iff(events@);
    }
    let relevant = filter_relevant(events);
    relevant.len() > 0
}

/// What the supervisor is doing between steps.
#[derive(Clone, Copy, PartialEq, Eq, Structural, Debug)]
pub enum SupervisorState {
    /// Waiting for the next debounced batch.
    Watching,
    /// A rebuild is running.
    Rebuilding,
}

/// What the caller must do after a supervisor step.
#[derive(Clone, Copy, PartialEq, Eq, Structural, Debug)]
pub enum SupervisorAction {
    /// Run one rebuild, then report back with `on_rebuild_finished`.
    StartRebuild,
    /// Nothing to do; keep waiting for events.
    Wait,
}

/// Serializes rebuilds against incoming debounced batches: at most one
/// rebuild runs at a time, and relevant batches that arrive during a
/// rebuild coalesce into a single pending one.
#[derive(Clone, Copy, PartialEq, Eq, Structural, Debug)]
pub struct Supervisor {
    pub state: SupervisorState,
    /// A relevant batch arrived while a rebuild was running; one more
    /// rebuild is owed when the running one finishes.
    pub pending: bool,
}

/// A pending rebuild exists only while a rebuild is running.
pub open spec fn supervisor_wf(s: Supervisor) -> bool {
    s.pending ==> s.state is Rebuilding
}

/// The supervisor's transition on a debounced batch: an irrelevant batch
/// changes nothing; a relevant one starts a rebuild when none is running,
/// and otherwise marks one pending.
pub open spec fn spec_on_batch(s: Supervisor, events: Seq<FsEventKind>) -> (Supervisor, SupervisorAction) {
    if spec_filter_relevant(events).len() == 0 {
        (s, SupervisorAction::Wait)
    } else if s.state is Watching {
        (Supervisor { state: SupervisorState::Rebuilding, pending: false }, SupervisorAction::StartRebuild)
    } else {
        (Supervisor { state: SupervisorState::Rebuilding, pending: true }, SupervisorAction::Wait)
    }
}

/// The supervisor's transition when a rebuild finishes: with a batch
/// pending the next rebuild starts at once, otherwise the supervisor
/// goes back to watching. The outcome of the finished rebuild plays no
/// part: the transition ignores `success`.
pub open spec fn spec_on_rebuild_finished(s: Supervisor, success: bool) -> (Supervisor, SupervisorAction) {
    if s.pending {
        (Supervisor { state: SupervisorState::Rebuilding, pending: false }, SupervisorAction::StartRebuild)
    } else {
        (Supervisor { state: SupervisorState::Watching, pending: false }, SupervisorAction::Wait)
    }
}

impl Supervisor {
    /// A fresh supervisor: watching, nothing pending.
    pub fn new() -> (s: Supervisor)
        ensures
            s.state is Watching,
            !s.pending,
            supervisor_wf(s),
    {
        Supervisor { state: SupervisorState::Watching, pending: false }
    }

    /// Feed one debounced batch to the supervisor; the returned action
    /// says whether the caller must run a rebuild now.
    pub fn on_batch(&mut self, events: &Vec<FsEventKind>) -> (a: SupervisorAction)
        requires
            supervisor_wf(*old(self)),
        ensures
            (*final(self), a) == spec_on_batch(*old(self), events@),
            supervisor_wf(*final(self)),
    {
        if should_rebuild(events) {
            match self.state {
                SupervisorState::Watching => {
                    self.state = SupervisorState::Rebuilding;
                    self.pending = false;
                    SupervisorAction::StartRebuild
                },
                SupervisorState::Rebuilding => {
                    self.pending = true;
                    SupervisorAction::Wait
                },
            }
        } else {
            SupervisorAction::Wait
        }
    }

    /// Report that the rebuild started earlier has finished. `success`
    /// says whether it succeeded; either way the supervisor keeps
    /// running, and a pending batch starts the next rebuild at once.
    pub fn on_rebuild_finished(&mut self, success: bool) -> (a: SupervisorAction)
        requires
            supervisor_wf(*old(self)),
            old(self).state is Rebuilding,
        ensures
            (*final(self), a) == spec_on_rebuild_finished(*old(self), success),
            supervisor_wf(*final(self)),
    {
        if self.pending {
            self.pending = false;
            SupervisorAction::StartRebuild
        } else {
            self.state = SupervisorState::Watching;
            SupervisorAction::Wait
        }
    }
}

/// A batch with no relevant event — a metadata-only change, for one —
/// never triggers a rebuild and leaves the supervisor untouched.
pub proof fn lemma_irrelevant_batch_no_rebuild(s: Supervisor, events: Seq<FsEventKind>)
    requires
        forall|i: int| 0 <= i < events.len() ==> !spec_relevant_event(events[i]),
    ensures
        spec_on_batch(s, events) == (s, SupervisorAction::Wait),
{
    lemma_filter_relevant_empty_iff(events);
}

/// However many relevant events a debounced batch holds — five as well
/// as one — it is a single supervisor step and starts at most one
/// rebuild, exactly one when the supervisor was watching.
pub proof fn lemma_batch_coalesces(s: Supervisor, events: Seq<FsEventKind>)
    requires
        exists|i: int| 0 <= i < events.len() && spec_relevant_event(events[i]),
    ensures
        s.state is Watching ==> spec_on_batch(s, events).1 == SupervisorAction::StartRebuild,
        s.state is Rebuilding ==> spec_on_batch(s, events).1 == SupervisorAction::Wait,
        spec_on_batch(s, events).0.state is Rebuilding,
{
    lemma_filter_relevant_empty_iff(events);
}

/// A rebuild failure is tolerated: the supervisor transitions after a
/// failed rebuild exactly as after a successful one, and never reaches a
/// terminal state.
pub proof fn lemma_failure_tolerated(s: Supervisor)
    ensures
        spec_on_rebuild_finished(s, false) == spec_on_rebuild_finished(s, true),
        spec_on_rebuild_finished(s, false).0.state is Watching
            || spec_on_rebuild_finished(s, false).0.state is Rebuilding,
        supervisor_wf(spec_on_rebuild_finished(s, false).0),
{
}


/// One thing that can happen to the supervisor: a debounced batch
/// arrives, or the running rebuild finishes with the given outcome.
pub ghost enum SupervisorEvent {
    Batch(Seq<FsEventKind>),
    Finished(bool),
}

/// The supervisor's transition on one event.
pub open spec fn spec_step(s: Supervisor, ev: SupervisorEvent) -> (Supervisor, SupervisorAction) {
    match ev {
        SupervisorEvent::Batch(events) => spec_on_batch(s, events),
        SupervisorEvent::Finished(success) => spec_on_rebuild_finished(s, success),
    }
}

/// The supervisor after a run of events.
pub open spec fn spec_run(s: Supervisor, evs: Seq<SupervisorEvent>) -> Supervisor
    decreases evs.len(),
{
    if evs.len() == 0 {
        s
    } else {
        spec_step(spec_run(s, evs.drop_last()), evs.last()).0
    }
}

/// How many rebuilds a run of events starts.
pub open spec fn spec_starts(s: Supervisor, evs: Seq<SupervisorEvent>) -> int
    decreases evs.len(),
{
    if evs.len() == 0 {
        0
    } else {
        spec_starts(s, evs.drop_last()) + if spec_step(
            spec_run(s, evs.drop_last()),
            evs.last(),
        ).1 is StartRebuild {
            1int
        } else {
            0int
        }
    }
}

/// How many rebuilds a run of events finishes.
pub open spec fn spec_finishes(evs: Seq<SupervisorEvent>) -> int
    decreases evs.len(),
{
    if evs.len() == 0 {
        0
    } else {
        spec_finishes(evs.drop_last()) + if evs.last() is Finished {
            1int
        } else {
            0int
        }
    }
}

/// A run is valid when a rebuild finishes only while one is running.
pub open spec fn trace_valid(s: Supervisor, evs: Seq<SupervisorEvent>) -> bool
    decreases evs.len(),
{
    evs.len() == 0 || (trace_valid(s, evs.drop_last()) && (evs.last() is Finished
        ==> spec_run(s, evs.drop_last()).state is Rebuilding))
}

/// Every supervisor step keeps the supervisor well-formed.
pub proof fn lemma_step_wf(s: Supervisor, ev: SupervisorEvent)
    requires
        supervisor_wf(s),
    ensures
        supervisor_wf(spec_step(s, ev).0),
{
}

/// Rebuilds are serialized: along any valid run from a fresh
/// supervisor, the rebuilds started but not yet finished number exactly
/// one while a rebuild is running and zero otherwise — never more than
/// one at a time, however the batches and finishes interleave.
pub proof fn lemma_rebuilds_serialized(s: Supervisor, evs: Seq<SupervisorEvent>)
    requires
        supervisor_wf(s),
        s.state is Watching,
        trace_valid(s, evs),
    ensures
        supervisor_wf(spec_run(s, evs)),
        spec_starts(s, evs) - spec_finishes(evs) == (if spec_run(s, evs).state is Rebuilding {
            1int
        } else {
            0int
        }),
    decreases evs.len(),
{
    if evs.len() > 0 {
        lemma_rebuilds_serialized(s, evs.drop_last());
        let prev = spec_run(s, evs.drop_last());
        lemma_step_wf(prev, evs.last());
        match evs.last() {
            SupervisorEvent::Batch(events) => {
                lemma_filter_relevant_empty_iff(events);
            },
            SupervisorEvent::Finished(success) => {
                assert(prev.state is Rebuilding);
            },
        }
    }
}

} // verus!
