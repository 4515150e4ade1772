//! The process record and its lifecycle state machine.
//!
//! A record describes one scheduled unit: the executable name it was created
//! from, its lifecycle state, and the identifier of the operating-system
//! process backing it once one has been spawned. Two actors mutate a record:
//! the scheduling engine (start, stop, resume) and the exit monitor (observe
//! termination). Every transition is total and leaves an `Exited` record
//! unchanged, so the two actors can race benignly.

use vstd::prelude::*;

verus! {

/// Lifecycle state of one scheduled unit.
///
/// `New -> Running -> {Stopped <-> Running} -> Exited`; `Exited` is terminal.
#[derive(Clone, Copy, PartialEq, Eq, Structural, Debug)]
pub enum ProcessState {
    New,
    Running,
    Stopped,
    Exited,
}

/// One scheduled unit: an executable name, its lifecycle state, and the
/// identifier of the backing operating-system process once spawned.
///
/// `failed` marks a record whose spawn failed: it is permanently inert, is
/// skipped by every policy step, and counts as settled for completion.
#[verifier::ext_equal]
pub struct ProcessRecord {
    pub name: String,
    pub state: ProcessState,
    pub pid: Option<i32>,
    pub failed: bool,
}

/// A record is well formed when it has a process identifier exactly from the
/// moment it leaves `New`, and a failed spawn never left `New`.
pub open spec fn wf(r: ProcessRecord) -> bool {
    &&& (r.state is New <==> r.pid is None)
    &&& (r.failed ==> r.state is New)
}

/// A settled record needs no further scheduling: it has exited, or its spawn
/// failed and it is permanently inert.
pub open spec fn settled(r: ProcessRecord) -> bool {
    r.state is Exited || r.failed
}

/// Result of a successful spawn: the record enters `Running` and takes the
/// identifier of the new operating-system process.
pub open spec fn spawn_ok_step(r: ProcessRecord, p: i32) -> ProcessRecord {
    ProcessRecord { state: ProcessState::Running, pid: Some(p), ..r }
}

/// Result of a failed spawn: the record stays in `New` and becomes inert.
pub open spec fn spawn_fail_step(r: ProcessRecord) -> ProcessRecord {
    ProcessRecord { failed: true, ..r }
}

/// Result of a stop request: preempts a `Running` record, leaves every other
/// state (in particular `Exited`) unchanged.
pub open spec fn stop_step(r: ProcessRecord) -> ProcessRecord {
    if r.state is Running {
        ProcessRecord { state: ProcessState::Stopped, ..r }
    } else {
        r
    }
}

/// Result of a resume request: wakes a `Stopped` record, leaves every other
/// state (in particular `Exited`) unchanged.
pub open spec fn resume_step(r: ProcessRecord) -> ProcessRecord {
    if r.state is Stopped {
        ProcessRecord { state: ProcessState::Running, ..r }
    } else {
        r
    }
}

/// Result of an exit observation: a record with a live handle whose process
/// was seen to terminate becomes `Exited`; any other observation changes
/// nothing.
pub open spec fn exit_obs_step(r: ProcessRecord, exited: bool) -> ProcessRecord {
    if exited && r.pid is Some {
        ProcessRecord { state: ProcessState::Exited, ..r }
    } else {
        r
    }
}

impl ProcessRecord {
    /// A fresh record for the executable `name`, not yet spawned.
    pub fn new(name: String) -> (r: ProcessRecord)
        ensures
            r == (ProcessRecord { name, state: ProcessState::New, pid: None, failed: false }),
            wf(r),
            !settled(r),
    {
        ProcessRecord { name, state: ProcessState::New, pid: None, failed: false }
    }

    /// Record the outcome of a spawn attempt: `Some(p)` enters `Running` with
    /// identifier `p`, `None` marks the record permanently inert.
    pub fn apply_spawn_result(&mut self, pid: Option<i32>)
        requires
            old(self).state is New,
            !old(self).failed,
        ensures
            *final(self) == (match pid {
                Some(p) => spawn_ok_step(*old(self), p),
                None => spawn_fail_step(*old(self)),
            }),
            wf(*old(self)) ==> wf(*final(self)),
    {
        match pid {
            Some(p) => {
                self.state = ProcessState::Running;
                self.pid = Some(p);
            }
            None => {
                self.failed = true;
            }
        }
    }

    /// Request preemption. Total: on a record that is not `Running` — in
    /// particular one already `Exited` — this changes nothing.
    pub fn request_stop(&mut self)
        ensures
            *final(self) == stop_step(*old(self)),
            wf(*old(self)) ==> wf(*final(self)),
    {
        if self.state == ProcessState::Running {
            self.state = ProcessState::Stopped;
        }
    }

    /// Request resumption. Total: on a record that is not `Stopped` — in
    /// particular one already `Exited` — this changes nothing.
    pub fn request_resume(&mut self)
        ensures
            *final(self) == resume_step(*old(self)),
            wf(*old(self)) ==> wf(*final(self)),
    {
        if self.state == ProcessState::Stopped {
            self.state = ProcessState::Running;
        }
    }

    /// Record an exit observation made on the backing process. Total: without
    /// a live handle, or when the process was not seen to terminate, this
    /// changes nothing; an `Exited` record stays `Exited`.
    pub fn observe_exit(&mut self, exited: bool)
        ensures
            *final(self) == exit_obs_step(*old(self), exited),
            wf(*old(self)) ==> wf(*final(self)),
    {
        if exited && self.pid.is_some() {
            self.state = ProcessState::Exited;
        }
    }

    /// Whether this record needs no further scheduling.
    pub fn is_settled(&self) -> (b: bool)
        ensures
            b == settled(*self),
    {
        self.state == ProcessState::Exited || self.failed
    }
}

/// `Exited` is terminal: no stop request, resume request or exit observation
/// changes an exited record in any way, for any interleaving of the two
/// actors that issue them.
pub proof fn lemma_exited_is_terminal(r: ProcessRecord, exited: bool)
    requires
        r.state is Exited,
    ensures
        stop_step(r) == r,
        resume_step(r) == r,
        exit_obs_step(r, exited) == r,
{
    assert(exit_obs_step(r, exited) =~= r);
}

/// Stop and resume requests are idempotent on a settled record: a record that
/// has exited or is inert after a failed spawn is never changed by them.
pub proof fn lemma_settled_stop_resume_noop(r: ProcessRecord)
    requires
        wf(r),
        settled(r),
    ensures
        stop_step(r) == r,
        resume_step(r) == r,
        settled(stop_step(r)),
        settled(resume_step(r)),
{
}

} // verus!
