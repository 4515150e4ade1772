//! The scheduling engine: FCFS and round-robin over a set of process records.
//!
//! The engine is a state machine. `step` inspects the records and answers with
//! the next operating-system action the driver must perform (spawn a process,
//! let it run for one quantum and stop it, resume it, wait for it, poll it, or
//! pause between sweeps). The driver performs the action and reports its
//! outcome back through the matching `on_*` method. A concurrently running
//! exit monitor reports terminations through `monitor_observe` at any point
//! between two calls; every contract here tolerates that interleaving.

use vstd::prelude::*;

use crate::process::{
    exit_obs_step, resume_step, settled, spawn_fail_step, spawn_ok_step, stop_step, wf,
    ProcessRecord, ProcessState,
};

verus! {

/// Scheduling policy: first-come-first-served or round-robin.
#[derive(Clone, Copy, PartialEq, Eq, Structural, Debug)]
pub enum Policy {
    Fcfs,
    Rr,
}

/// Where the engine stands in its own loop.
///
/// `Sweep`: visiting records in order and issuing start/run/resume actions.
/// `Poll`: after a full round-robin sweep, checking each live record for
/// termination. `Done`: every record is settled; the run is over.
#[derive(Clone, Copy, PartialEq, Eq, Structural, Debug)]
pub enum Phase {
    Sweep,
    Poll,
    Done,
}

/// One operating-system action the driver must perform on the engine's
/// behalf, together with everything needed to perform it.
#[derive(Clone, Copy, PartialEq, Eq, Structural, Debug)]
pub enum Action {
    /// Spawn the executable of record `idx`; report with `on_spawned`.
    Spawn { idx: usize },
    /// Block until process `pid` terminates; report with `on_wait_returned`.
    WaitExit { idx: usize, pid: i32 },
    /// Let process `pid` run for `quantum_ms` milliseconds, then send it a
    /// stop signal; report with `on_stopped`.
    RunQuantum { idx: usize, pid: i32, quantum_ms: u64 },
    /// Send process `pid` a continue signal; report with `on_resumed`. The
    /// very next `step` then grants the resumed record its quantum.
    Resume { idx: usize, pid: i32 },
    /// Check without blocking whether process `pid` has terminated; report
    /// with `on_polled`.
    PollExit { idx: usize, pid: i32 },
    /// Sleep briefly between sweeps to avoid spinning; nothing to report.
    Pause,
    /// Every record is settled; the scheduling run is complete.
    Finished,
}

/// The scheduling engine. It owns the records; the driver and the exit
/// monitor reach them only through the methods below.
pub struct Scheduler {
    pub records: Vec<ProcessRecord>,
    pub policy: Policy,
    pub quantum_ms: u64,
    pub pos: usize,
    pub phase: Phase,
}

/// Every record has exited or is inert after a failed spawn: nothing is left
/// to schedule.
pub open spec fn all_settled(s: Seq<ProcessRecord>) -> bool {
    forall|i: int| 0 <= i < s.len() ==> settled(s[i])
}

/// Index of the first record at or after `i` that still needs scheduling, or
/// the length of `s` if there is none.
pub open spec fn first_unsettled(s: Seq<ProcessRecord>, i: int) -> int
    decreases s.len() - i,
{
    if 0 <= i < s.len() {
        if !settled(s[i]) {
            i
        } else {
            first_unsettled(s, i + 1)
        }
    } else {
        s.len() as int
    }
}

/// A record the exit monitor and the end-of-sweep check must poll: it has a
/// live handle and has not yet been seen to exit.
pub open spec fn needs_poll(r: ProcessRecord) -> bool {
    r.pid is Some && r.state !is Exited
}

/// Index of the first record at or after `i` that needs polling, or the
/// length of `s` if there is none.
pub open spec fn first_pollable(s: Seq<ProcessRecord>, i: int) -> int
    decreases s.len() - i,
{
    if 0 <= i < s.len() {
        if needs_poll(s[i]) {
            i
        } else {
            first_pollable(s, i + 1)
        }
    } else {
        s.len() as int
    }
}

pub proof fn lemma_first_unsettled_props(s: Seq<ProcessRecord>, i: int)
    requires
        0 <= i <= s.len(),
    ensures
        i <= first_unsettled(s, i) <= s.len(),
        forall|j: int| i <= j < first_unsettled(s, i) ==> settled(#[trigger] s[j]),
        first_unsettled(s, i) < s.len() ==> !settled(s[first_unsettled(s, i)]),
        forall|j: int| i <= j < s.len() && !settled(#[trigger] s[j]) ==> first_unsettled(s, i) <= j,
    decreases s.len() - i,
{
    if i < s.len() && settled(s[i]) {
        lemma_first_unsettled_props(s, i + 1);
    }
}

pub proof fn lemma_first_pollable_props(s: Seq<ProcessRecord>, i: int)
    requires
        0 <= i <= s.len(),
    ensures
        i <= first_pollable(s, i) <= s.len(),
        forall|j: int| i <= j < first_pollable(s, i) ==> !needs_poll(#[trigger] s[j]),
        first_pollable(s, i) < s.len() ==> needs_poll(s[first_pollable(s, i)]),
    decreases s.len() - i,
{
    if i < s.len() && !needs_poll(s[i]) {
        lemma_first_pollable_props(s, i + 1);
    }
}

/// What `step` answers and where it leaves the engine: the new phase, the new
/// position, and the action handed to the driver. The records themselves are
/// never changed by `step`.
pub open spec fn step_spec(s: Scheduler) -> (Phase, int, Action) {
    let rs = s.records@;
    let n = rs.len() as int;
    if s.phase is Done {
        (Phase::Done, s.pos as int, Action::Finished)
    } else if s.phase is Sweep {
        let j = first_unsettled(rs, s.pos as int);
        if j < n {
            match rs[j].state {
                ProcessState::New => (Phase::Sweep, j, Action::Spawn { idx: j as usize }),
                ProcessState::Running => if s.policy is Fcfs {
                    (
                        Phase::Sweep,
                        j,
                        Action::WaitExit { idx: j as usize, pid: rs[j].pid->0 },
                    )
                } else {
                    (
                        Phase::Sweep,
                        j,
                        Action::RunQuantum {
                            idx: j as usize,
                            pid: rs[j].pid->0,
                            quantum_ms: s.quantum_ms,
                        },
                    )
                },
                ProcessState::Stopped => (
                    Phase::Sweep,
                    j,
                    Action::Resume { idx: j as usize, pid: rs[j].pid->0 },
                ),
                // an unsettled record is never `Exited`; this arm is unreachable
                ProcessState::Exited => (Phase::Sweep, j, Action::Pause),
            }
        } else if s.policy is Fcfs {
            (Phase::Done, n, Action::Finished)
        } else {
            poll_spec(s, 0)
        }
    } else {
        poll_spec(s, s.pos as int)
    }
}

/// The end-of-sweep part of `step_spec`: poll the next live record, and once
/// all are polled either finish (everything settled) or pause and start the
/// next sweep at the front of the list.
pub open spec fn poll_spec(s: Scheduler, from: int) -> (Phase, int, Action) {
    let rs = s.records@;
    let n = rs.len() as int;
    let k = first_pollable(rs, from);
    if k < n {
        (Phase::Poll, k, Action::PollExit { idx: k as usize, pid: rs[k].pid->0 })
    } else if all_settled(rs) {
        (Phase::Done, n, Action::Finished)
    } else {
        (Phase::Sweep, 0, Action::Pause)
    }
}

impl Scheduler {
    /// Engine well-formedness, established by `new` and preserved by every
    /// method, under any interleaving with the exit monitor.
    pub open spec fn inv(self) -> bool {
        let s = self.records@;
        &&& forall|i: int| 0 <= i < s.len() ==> wf(#[trigger] s[i])
        &&& self.pos <= s.len()
        &&& (self.policy is Fcfs ==> self.fcfs_inv())
        &&& (self.policy is Rr ==> self.rr_inv())
        &&& (self.phase is Done ==> all_settled(s))
    }

    /// Under FCFS the engine runs single file: everything before the cursor
    /// is settled, everything after it has never been started, nothing is
    /// ever preempted.
    pub open spec fn fcfs_inv(self) -> bool {
        let s = self.records@;
        &&& self.phase !is Poll
        &&& forall|i: int| 0 <= i < self.pos ==> settled(#[trigger] s[i])
        &&& forall|i: int|
            self.pos < i < s.len() ==> (#[trigger] s[i].state is New && !s[i].failed)
        &&& forall|i: int| 0 <= i < s.len() ==> #[trigger] s[i].state !is Stopped
    }

    /// Under round-robin at most one record is ever `Running`, and it is the
    /// one the sweep currently visits.
    pub open spec fn rr_inv(self) -> bool {
        let s = self.records@;
        forall|i: int|
            0 <= i < s.len() && #[trigger] s[i].state is Running ==> self.phase is Sweep && i
                == self.pos
    }

    /// A fresh engine over one record per name, in list order, all `New`,
    /// positioned at the front of its first sweep.
    pub fn new(names: &Vec<String>, policy: Policy, quantum_ms: u64) -> (s: Scheduler)
        ensures
            s.inv(),
            s.policy == policy,
            s.quantum_ms == quantum_ms,
            s.phase is Sweep,
            s.pos == 0,
            s.records@.len() == names@.len(),
            forall|i: int|
                0 <= i < names@.len() ==> #[trigger] s.records@[i] == (ProcessRecord {
                    name: names@[i],
                    state: ProcessState::New,
                    pid: None,
                    failed: false,
                }),
    {
        let mut records: Vec<ProcessRecord> = Vec::new();
        let mut k: usize = 0;
        while k < names.len()
            invariant
                k <= names@.len(),
                records@.len() == k,
                forall|i: int|
                    0 <= i < k ==> #[trigger] records@[i] == (ProcessRecord {
                        name: names@[i],
                        state: ProcessState::New,
                        pid: None,
                        failed: false,
                    }),
            decreases names@.len() - k,
        {
            records.push(ProcessRecord::new(names[k].clone()));
            k = k + 1;
        }
        Scheduler { records, policy, quantum_ms, pos: 0, phase: Phase::Sweep }
    }

    /// Decide the next action. The records are only read; the engine's own
    /// cursor and phase move exactly as `step_spec` says.
    pub fn step(&mut self) -> (a: Action)
        requires
            old(self).inv(),
        ensures
            final(self).inv(),
            final(self).records == old(self).records,
            final(self).policy == old(self).policy,
            final(self).quantum_ms == old(self).quantum_ms,
            final(self).phase == step_spec(*old(self)).0,
            final(self).pos as int == step_spec(*old(self)).1,
            a == step_spec(*old(self)).2,
    {
        if self.phase == Phase::Done {
            return Action::Finished;
        }
        if self.phase == Phase::Sweep {
            let j = scan_unsettled(&self.records, self.pos);
            proof {
                lemma_first_unsettled_props(self.records@, self.pos as int);
            }
            if j < self.records.len() {
                self.pos = j;
                let st = self.records[j].state;
                let p = self.records[j].pid;
                if st == ProcessState::New {
                    return Action::Spawn { idx: j };
                } else if st == ProcessState::Running {
                    if self.policy == Policy::Fcfs {
                        return Action::WaitExit { idx: j, pid: p.unwrap() };
                    } else {
                        return Action::RunQuantum {
                            idx: j,
                            pid: p.unwrap(),
                            quantum_ms: self.quantum_ms,
                        };
                    }
                } else {
                    return Action::Resume { idx: j, pid: p.unwrap() };
                }
            } else if self.policy == Policy::Fcfs {
                self.pos = self.records.len();
                self.phase = Phase::Done;
                return Action::Finished;
            } else {
                return self.poll_from(0);
            }
        }
        let from = self.pos;
        self.poll_from(from)
    }

    /// Poll part of `step`: find the next live record to check, or close the
    /// sweep (finish, or pause and restart at the front).
    fn poll_from(&mut self, from: usize) -> (a: Action)
        requires
            old(self).inv(),
            old(self).policy is Rr,
            from <= old(self).records@.len(),
            forall|i: int|
                0 <= i < old(self).records@.len() ==> #[trigger] old(self).records@[i].state
                    !is Running,
        ensures
            final(self).inv(),
            final(self).records == old(self).records,
            final(self).policy == old(self).policy,
            final(self).quantum_ms == old(self).quantum_ms,
            final(self).phase == poll_spec(*old(self), from as int).0,
            final(self).pos as int == poll_spec(*old(self), from as int).1,
            a == poll_spec(*old(self), from as int).2,
    {
        let k = scan_pollable(&self.records, from);
        proof {
            lemma_first_pollable_props(self.records@, from as int);
        }
        if k < self.records.len() {
            self.phase = Phase::Poll;
            self.pos = k;
            let p = self.records[k].pid;
            Action::PollExit { idx: k, pid: p.unwrap() }
        } else if check_all_settled(&self.records) {
            self.phase = Phase::Done;
            self.pos = self.records.len();
            Action::Finished
        } else {
            self.phase = Phase::Sweep;
            self.pos = 0;
            Action::Pause
        }
    }

    /// Record the outcome of a `Spawn` action on the record under the cursor:
    /// the process identifier on success, or `None` when the spawn failed and
    /// the record becomes permanently inert.
    pub fn on_spawned(&mut self, pid: Option<i32>)
        requires
            old(self).inv(),
            old(self).phase is Sweep,
            old(self).pos < old(self).records@.len(),
            old(self).records@[old(self).pos as int].state is New,
            !old(self).records@[old(self).pos as int].failed,
        ensures
            final(self).inv(),
            final(self).policy == old(self).policy,
            final(self).quantum_ms == old(self).quantum_ms,
            final(self).phase is Sweep,
            final(self).pos == old(self).pos,
            final(self).records@ == old(self).records@.update(
                old(self).pos as int,
                match pid {
                    Some(p) => spawn_ok_step(old(self).records@[old(self).pos as int], p),
                    None => spawn_fail_step(old(self).records@[old(self).pos as int]),
                },
            ),
    {
        let i = self.pos;
        let rec = &mut self.records[i];
        rec.apply_spawn_result(pid);
    }

    /// Record that a `RunQuantum` action finished: its quantum elapsed and the
    /// stop signal was sent. The record — unless the monitor already saw it
    /// exit — is now `Stopped`, and the sweep moves past it.
    pub fn on_stopped(&mut self)
        requires
            old(self).inv(),
            old(self).policy is Rr,
            old(self).phase is Sweep,
            old(self).pos < old(self).records@.len(),
            old(self).records@[old(self).pos as int].state is Running || old(
                self,
            ).records@[old(self).pos as int].state is Exited,
        ensures
            final(self).inv(),
            final(self).policy == old(self).policy,
            final(self).quantum_ms == old(self).quantum_ms,
            final(self).phase is Sweep,
            final(self).pos == old(self).pos + 1,
            final(self).records@ == old(self).records@.update(
                old(self).pos as int,
                stop_step(old(self).records@[old(self).pos as int]),
            ),
    {
        let i = self.pos;
        let n = self.records.len();
        let rec = &mut self.records[i];
        rec.request_stop();
        proof {
            assert(i < n);
        }
        self.pos = i + 1;
    }

    /// Record that a `Resume` action was performed: the continue signal went
    /// out, and the record under the cursor — unless the monitor already saw
    /// it exit — is `Running` again. The cursor stays put, so the next `step`
    /// grants this record one quantum at once: a resumed record always runs
    /// before the sweep moves on.
    pub fn on_resumed(&mut self)
        requires
            old(self).inv(),
            old(self).policy is Rr,
            old(self).phase is Sweep,
            old(self).pos < old(self).records@.len(),
            old(self).records@[old(self).pos as int].state is Stopped || old(
                self,
            ).records@[old(self).pos as int].state is Exited,
        ensures
            final(self).inv(),
            final(self).policy == old(self).policy,
            final(self).quantum_ms == old(self).quantum_ms,
            final(self).phase is Sweep,
            final(self).pos == old(self).pos,
            final(self).records@ == old(self).records@.update(
                old(self).pos as int,
                resume_step(old(self).records@[old(self).pos as int]),
            ),
    {
        let i = self.pos;
        let rec = &mut self.records[i];
        rec.request_resume();
    }

    /// Record that a `WaitExit` action returned: under FCFS the awaited
    /// process has terminated and its record is `Exited`.
    pub fn on_wait_returned(&mut self)
        requires
            old(self).inv(),
            old(self).policy is Fcfs,
            old(self).phase is Sweep,
            old(self).pos < old(self).records@.len(),
            old(self).records@[old(self).pos as int].pid is Some,
        ensures
            final(self).inv(),
            final(self).policy == old(self).policy,
            final(self).quantum_ms == old(self).quantum_ms,
            final(self).phase is Sweep,
            final(self).pos == old(self).pos,
            final(self).records@ == old(self).records@.update(
                old(self).pos as int,
                exit_obs_step(old(self).records@[old(self).pos as int], true),
            ),
    {
        let i = self.pos;
        let rec = &mut self.records[i];
        rec.observe_exit(true);
    }

    /// Record the outcome of a `PollExit` action on the record under the
    /// cursor, then move to the next record to poll.
    pub fn on_polled(&mut self, exited: bool)
        requires
            old(self).inv(),
            old(self).phase is Poll,
            old(self).pos < old(self).records@.len(),
            old(self).records@[old(self).pos as int].pid is Some,
        ensures
            final(self).inv(),
            final(self).policy == old(self).policy,
            final(self).quantum_ms == old(self).quantum_ms,
            final(self).phase is Poll,
            final(self).pos == old(self).pos + 1,
            final(self).records@ == old(self).records@.update(
                old(self).pos as int,
                exit_obs_step(old(self).records@[old(self).pos as int], exited),
            ),
    {
        let i = self.pos;
        let n = self.records.len();
        let rec = &mut self.records[i];
        rec.observe_exit(exited);
        proof {
            assert(i < n);
        }
        self.pos = i + 1;
    }

    /// The exit monitor's entry point: record an observation made on record
    /// `i`'s process, at any moment between two engine calls. Never moves the
    /// engine's own cursor or phase, and never unsettles a record.
    pub fn monitor_observe(&mut self, i: usize, exited: bool)
        requires
            old(self).inv(),
            i < old(self).records@.len(),
        ensures
            final(self).inv(),
            final(self).policy == old(self).policy,
            final(self).quantum_ms == old(self).quantum_ms,
            final(self).phase == old(self).phase,
            final(self).pos == old(self).pos,
            final(self).records@ == old(self).records@.update(
                i as int,
                exit_obs_step(old(self).records@[i as int], exited),
            ),
    {
        let rec = &mut self.records[i];
        rec.observe_exit(exited);
    }

    /// Number of records under this engine.
    pub fn len(&self) -> (n: usize)
        ensures
            n == self.records@.len(),
    {
        self.records.len()
    }

    /// Lifecycle state of record `i`.
    pub fn state_of(&self, i: usize) -> (st: ProcessState)
        requires
            i < self.records@.len(),
        ensures
            st == self.records@[i as int].state,
    {
        self.records[i].state
    }

    /// Process identifier of record `i`, if one was spawned.
    pub fn pid_of(&self, i: usize) -> (p: Option<i32>)
        requires
            i < self.records@.len(),
        ensures
            p == self.records@[i as int].pid,
    {
        self.records[i].pid
    }

    /// Whether record `i` is permanently inert after a failed spawn.
    pub fn is_inert(&self, i: usize) -> (b: bool)
        requires
            i < self.records@.len(),
        ensures
            b == self.records@[i as int].failed,
    {
        self.records[i].failed
    }

    /// Executable name of record `i`.
    pub fn name_of(&self, i: usize) -> (n: &String)
        requires
            i < self.records@.len(),
        ensures
            n == self.records@[i as int].name,
    {
        &self.records[i].name
    }

    /// Whether the scheduling run is over.
    pub fn is_finished(&self) -> (b: bool)
        ensures
            b == (self.phase is Done),
    {
        self.phase == Phase::Done
    }
}

impl Scheduler {
    /// The records the exit monitor must poll in one pass, in list order:
    /// exactly those with a live handle not yet seen to exit, each paired
    /// with its process identifier.
    pub fn monitor_targets(&self) -> (t: Vec<(usize, i32)>)
        ensures
            forall|k: int|
                0 <= k < t@.len() ==> (#[trigger] t@[k]).0 < self.records@.len() && needs_poll(
                    self.records@[t@[k].0 as int],
                ) && self.records@[t@[k].0 as int].pid == Some(t@[k].1),
            forall|k1: int, k2: int| 0 <= k1 < k2 < t@.len() ==> t@[k1].0 < t@[k2].0,
            forall|i: int|
                0 <= i < self.records@.len() && needs_poll(#[trigger] self.records@[i])
                    ==> exists|k: int| 0 <= k < t@.len() && (#[trigger] t@[k]).0 == i,
    {
        let mut t: Vec<(usize, i32)> = Vec::new();
        let mut i: usize = 0;
        while i < self.records.len()
            invariant
                i <= self.records@.len(),
                forall|k: int|
                    0 <= k < t@.len() ==> (#[trigger] t@[k]).0 < i && needs_poll(
                        self.records@[t@[k].0 as int],
                    ) && self.records@[t@[k].0 as int].pid == Some(t@[k].1),
                forall|k1: int, k2: int| 0 <= k1 < k2 < t@.len() ==> t@[k1].0 < t@[k2].0,
                forall|j: int|
                    0 <= j < i && needs_poll(#[trigger] self.records@[j]) ==> exists|k: int|
                        0 <= k < t@.len() && (#[trigger] t@[k]).0 == j,
            decreases self.records@.len() - i,
        {
            let live = self.records[i].pid.is_some() && self.records[i].state
                != ProcessState::Exited;
            if live {
                let p = self.records[i].pid.unwrap();
                let ghost told = t@;
                t.push((i, p));
                proof {
                    assert forall|j: int|
                        0 <= j < i + 1 && needs_poll(#[trigger] self.records@[j])
                            implies exists|k: int|
                            0 <= k < t@.len() && (#[trigger] t@[k]).0 == j by {
                        if j == i {
                            assert(t@[t@.len() - 1].0 == j);
                        } else {
                            let k = choose|k: int|
                                0 <= k < told.len() && (#[trigger] told[k]).0 == j;
                            assert(t@[k].0 == j);
                        }
                    }
                }
            }
            i = i + 1;
        }
        t
    }
}

/// Under FCFS execution is single file: whenever some record is `Running`,
/// every earlier record is settled, every later record has never been
/// started, and no other record is `Running`. Records therefore enter
/// `Running` in list order, one at a time.
pub proof fn lemma_fcfs_single_file(s: Scheduler)
    requires
        s.inv(),
        s.policy is Fcfs,
    ensures
        forall|i: int, j: int|
            0 <= i < s.records@.len() && 0 <= j < s.records@.len() && (#[trigger] s.records@[i].state)
                is Running && (#[trigger] s.records@[j].state) is Running ==> i == j,
        forall|i: int, j: int|
            0 <= i < j < s.records@.len() && (#[trigger] s.records@[j].state) is Running ==> settled(
                #[trigger] s.records@[i],
            ),
        forall|i: int, j: int|
            0 <= j < i < s.records@.len() && (#[trigger] s.records@[j].state) is Running ==> (
            #[trigger] s.records@[i].state) is New,
{
    assert forall|j: int|
        0 <= j < s.records@.len() && (#[trigger] s.records@[j].state) is Running implies j
        == s.pos by {
        assert(wf(s.records@[j]));
    }
}

/// Under round-robin at most one record is ever `Running`, and it is exactly
/// the record the sweep currently visits; outside a sweep nothing runs.
pub proof fn lemma_rr_mutual_exclusion(s: Scheduler)
    requires
        s.inv(),
        s.policy is Rr,
    ensures
        forall|i: int, j: int|
            0 <= i < s.records@.len() && 0 <= j < s.records@.len() && (#[trigger] s.records@[i].state)
                is Running && (#[trigger] s.records@[j].state) is Running ==> i == j,
        forall|i: int|
            0 <= i < s.records@.len() && (#[trigger] s.records@[i].state) is Running ==> s.phase
                is Sweep && i == s.pos,
{
}

/// Round-robin hands out the processor only in bursts of one configured
/// quantum: every `RunQuantum` action carries exactly `quantum_ms`, names the
/// record under the cursor, and round-robin never issues a blocking wait.
pub proof fn lemma_rr_burst_bounded(s: Scheduler)
    requires
        s.inv(),
        s.policy is Rr,
    ensures
        step_spec(s).2 matches Action::RunQuantum { idx, pid, quantum_ms } ==> quantum_ms
            == s.quantum_ms && idx as int == step_spec(s).1,
        step_spec(s).2 !is WaitExit,
{
    vstd::std_specs::vec::axiom_spec_len(&s.records);
    if s.phase is Sweep {
        lemma_first_unsettled_props(s.records@, s.pos as int);
    }
}

/// Within a sweep no waiting record is passed over: every record between the
/// cursor and the record the engine turns to next is settled, and the engine
/// turns to the lowest-indexed unsettled record. Together with the cursor
/// advancing one visited record at a time, each sweep serves every unsettled
/// record exactly once, so none is starved.
pub proof fn lemma_sweep_no_skip(s: Scheduler)
    requires
        s.inv(),
        s.phase is Sweep,
    ensures
        forall|i: int|
            s.pos <= i < first_unsettled(s.records@, s.pos as int) ==> settled(
                #[trigger] s.records@[i],
            ),
        forall|i: int|
            s.pos <= i < s.records@.len() && !settled(#[trigger] s.records@[i])
                ==> first_unsettled(s.records@, s.pos as int) <= i,
        first_unsettled(s.records@, s.pos as int) < s.records@.len() ==> step_spec(s).1
            == first_unsettled(s.records@, s.pos as int) && !settled(
            s.records@[first_unsettled(s.records@, s.pos as int)],
        ),
{
    lemma_first_unsettled_props(s.records@, s.pos as int);
}

/// The engine declares the run finished only when every record is settled —
/// exited, or permanently inert after a failed spawn — and once the engine is
/// in its final phase it always answers `Finished`.
pub proof fn lemma_finished_means_settled(s: Scheduler)
    requires
        s.inv(),
    ensures
        step_spec(s).2 is Finished ==> all_settled(s.records@),
        s.phase is Done ==> step_spec(s).2 is Finished,
{
    if s.phase is Sweep {
        lemma_first_unsettled_props(s.records@, s.pos as int);
    }
}

/// Engine events still owed to record `r` in the current sweep before the
/// cursor can move past it: a `New` record takes a spawn outcome, a quantum
/// and a stop; a `Stopped` one a resumption, a quantum and a stop; a
/// `Running` one a quantum and a stop; a settled one nothing.
pub open spec fn visit_cost(r: ProcessRecord) -> int {
    if settled(r) {
        0
    } else if r.state is New {
        3
    } else if r.state is Stopped {
        2
    } else {
        1
    }
}

/// Events left in the current sweep from position `from` on: one cursor move
/// per record plus each record's remaining visits. Every outcome the driver
/// reports strictly shrinks it and the monitor never grows it (see the
/// progress lemmas below), so a sweep is over after boundedly many events and
/// no waiting record is starved within a pass.
pub open spec fn pass_debt(s: Seq<ProcessRecord>, from: int) -> int
    decreases s.len() - from,
{
    if 0 <= from < s.len() {
        1 + visit_cost(s[from]) + pass_debt(s, from + 1)
    } else {
        0
    }
}

proof fn lemma_pass_debt_congruent(s1: Seq<ProcessRecord>, s2: Seq<ProcessRecord>, from: int)
    requires
        s1.len() == s2.len(),
        forall|j: int| from <= j < s1.len() ==> s1[j] == s2[j],
    ensures
        pass_debt(s1, from) == pass_debt(s2, from),
    decreases s1.len() - from,
{
    if 0 <= from < s1.len() {
        lemma_pass_debt_congruent(s1, s2, from + 1);
    }
}

proof fn lemma_pass_debt_update(s: Seq<ProcessRecord>, from: int, i: int, r: ProcessRecord)
    requires
        0 <= from <= i < s.len(),
    ensures
        pass_debt(s.update(i, r), from) == pass_debt(s, from) - visit_cost(s[i]) + visit_cost(r),
    decreases i - from,
{
    let s2 = s.update(i, r);
    if from == i {
        lemma_pass_debt_congruent(s, s2, from + 1);
    } else {
        lemma_pass_debt_update(s, from + 1, i, r);
    }
}

/// The sweep debt is never negative and a sweep over the whole list owes at
/// most four events per record.
pub proof fn lemma_pass_debt_bounds(s: Seq<ProcessRecord>, from: int)
    requires
        0 <= from <= s.len(),
    ensures
        0 <= pass_debt(s, from) <= 4 * (s.len() - from),
    decreases s.len() - from,
{
    if from < s.len() {
        lemma_pass_debt_bounds(s, from + 1);
    }
}

/// Moving the cursor forward — as the engine's scan over settled records
/// does — never adds events to the sweep.
pub proof fn lemma_pass_debt_monotone(s: Seq<ProcessRecord>, i: int, j: int)
    requires
        0 <= i <= j <= s.len(),
    ensures
        pass_debt(s, j) <= pass_debt(s, i),
    decreases j - i,
{
    if i < j {
        lemma_pass_debt_monotone(s, i + 1, j);
        lemma_pass_debt_bounds(s, i + 1);
    }
}

/// A spawn outcome strictly shrinks the sweep debt, whether the spawn
/// succeeded or failed.
pub proof fn lemma_spawn_progress(s: Seq<ProcessRecord>, pos: int, p: Option<i32>)
    requires
        0 <= pos < s.len(),
        s[pos].state is New,
        !s[pos].failed,
    ensures
        pass_debt(
            s.update(
                pos,
                match p {
                    Some(q) => spawn_ok_step(s[pos], q),
                    None => spawn_fail_step(s[pos]),
                },
            ),
            pos,
        ) < pass_debt(s, pos),
{
    lemma_pass_debt_update(
        s,
        pos,
        pos,
        match p {
            Some(q) => spawn_ok_step(s[pos], q),
            None => spawn_fail_step(s[pos]),
        },
    );
    lemma_pass_debt_bounds(s, pos);
}

/// A reported resumption strictly shrinks the sweep debt; if the monitor saw
/// the record exit in the meantime the debt already shrank and the resumption
/// leaves it unchanged.
pub proof fn lemma_resume_progress(s: Seq<ProcessRecord>, pos: int)
    requires
        0 <= pos < s.len(),
        s[pos].state is Stopped || s[pos].state is Exited,
    ensures
        s[pos].state is Stopped && !s[pos].failed ==> pass_debt(
            s.update(pos, resume_step(s[pos])),
            pos,
        ) < pass_debt(s, pos),
        s[pos].state is Exited ==> pass_debt(s.update(pos, resume_step(s[pos])), pos)
            == pass_debt(s, pos),
{
    lemma_pass_debt_update(s, pos, pos, resume_step(s[pos]));
}

/// A reported stop ends the record's visit: the cursor moves past it and the
/// sweep debt strictly shrinks.
pub proof fn lemma_stop_progress(s: Seq<ProcessRecord>, pos: int)
    requires
        0 <= pos < s.len(),
        s[pos].state is Running || s[pos].state is Exited,
    ensures
        pass_debt(s.update(pos, stop_step(s[pos])), pos + 1) < pass_debt(s, pos),
{
    lemma_pass_debt_congruent(s.update(pos, stop_step(s[pos])), s, pos + 1);
    lemma_pass_debt_bounds(s, pos + 1);
}

/// The exit monitor never adds work to a sweep: observing a termination can
/// only settle a record, wherever the cursor stands.
pub proof fn lemma_monitor_never_adds_work(
    s: Seq<ProcessRecord>,
    i: int,
    from: int,
    exited: bool,
)
    requires
        0 <= from <= s.len(),
        0 <= i < s.len(),
    ensures
        pass_debt(s.update(i, exit_obs_step(s[i], exited)), from) <= pass_debt(s, from),
{
    if i < from {
        lemma_pass_debt_congruent(s.update(i, exit_obs_step(s[i], exited)), s, from);
    } else {
        lemma_pass_debt_update(s, from, i, exit_obs_step(s[i], exited));
    }
}

/// First index at or after `from` whose record still needs scheduling.
fn scan_unsettled(records: &Vec<ProcessRecord>, from: usize) -> (j: usize)
    requires
        from <= records@.len(),
    ensures
        j == first_unsettled(records@, from as int),
{
    let mut k: usize = from;
    while k < records.len()
        invariant
            from <= k <= records@.len(),
            first_unsettled(records@, from as int) == first_unsettled(records@, k as int),
        decreases records@.len() - k,
    {
        if !records[k].is_settled() {
            return k;
        }
        k = k + 1;
    }
    k
}

/// First index at or after `from` whose record needs polling.
fn scan_pollable(records: &Vec<ProcessRecord>, from: usize) -> (j: usize)
    requires
        from <= records@.len(),
    ensures
        j == first_pollable(records@, from as int),
{
    let mut k: usize = from;
    while k < records.len()
        invariant
            from <= k <= records@.len(),
            first_pollable(records@, from as int) == first_pollable(records@, k as int),
        decreases records@.len() - k,
    {
        let live = records[k].pid.is_some() && records[k].state != ProcessState::Exited;
        if live {
            return k;
        }
        k = k + 1;
    }
    k
}

/// Whether every record is settled — the completion check both policies rely
/// on.
pub fn check_all_settled(records: &Vec<ProcessRecord>) -> (b: bool)
    ensures
        b == all_settled(records@),
{
    let mut k: usize = 0;
    while k < records.len()
        invariant
            k <= records@.len(),
            forall|i: int| 0 <= i < k ==> settled(#[trigger] records@[i]),
        decreases records@.len() - k,
    {
        if !records[k].is_settled() {
            return false;
        }
        k = k + 1;
    }
    true
}

} // verus!
