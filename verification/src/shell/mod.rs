//! The simulator's shell: the commands it understands and what each one
//! does to the process table, the scheduler and the statistics.
//!
//! The shell decides and records; it never formats. Every operation returns
//! a plain value that says what happened, for the caller to put into words.

pub mod command;

pub use command::parse_command;
pub use command::Command;

use vstd::prelude::*;

use crate::process::clock_millis;
use crate::process::ManagerState;
use crate::process::Process;
use crate::process::ProcessManager;
use crate::process::ProcessState;
use crate::scheduler::laws::lemma_dispatched_stays_tracked;
use crate::scheduler::metrics::SchedulerStats;
use crate::scheduler::metrics::StatsModel;
use crate::scheduler::model::SchedulerState;
use crate::scheduler::model::LOWEST_LEVEL;
use crate::scheduler::MLFQScheduler;

verus! {

/// The identifier of the first process, which the shell creates for itself
/// and which cannot be killed.
pub const INIT_PID: u32 = 1;

/// The lowest priority that `nice` accepts.
pub const MAX_PRIORITY: u8 = 3;

/// An operation was refused because a counter, a total or the space of
/// identifiers is used up. Nothing was changed.
#[derive(Debug, Clone, Copy, PartialEq, Eq, Structural)]
pub struct Exhausted;

/// What `run` found.
#[derive(Debug, Clone, Copy, PartialEq, Eq, Structural)]
pub enum RunOutcome {
    /// The process is now running.
    Started,
    /// The process is terminated and cannot run.
    IsTerminated,
    /// There is no such process.
    NotFound,
}

/// What `unblock` found.
#[derive(Debug, Clone, Copy, PartialEq, Eq, Structural)]
pub enum UnblockOutcome {
    /// The process was blocked, is ready now and was promoted.
    Unblocked,
    /// The process is not blocked.
    NotBlocked,
    /// There is no such process.
    NotFound,
}

/// What `kill` found.
#[derive(Debug, Clone, Copy, PartialEq, Eq, Structural)]
pub enum KillOutcome {
    /// The process is terminated and left the scheduler.
    Killed,
    /// The first process cannot be killed.
    InitProtected,
    /// There is no such process.
    NotFound,
}

/// What `nice` found.
#[derive(Debug, Clone, Copy, PartialEq, Eq, Structural)]
pub enum NiceOutcome {
    /// The priority was changed from `old_priority`.
    Changed { old_priority: u8 },
    /// The priority asked for is above 3.
    OutOfRange,
    /// There is no such process.
    NotFound,
}

/// What one scheduling cycle did.
#[derive(Debug, Clone, Copy, PartialEq, Eq, Structural)]
pub struct CycleReport {
    /// The process that ran.
    pub pid: u32,
    /// How long it ran.
    pub quantum: u32,
    /// The queue under which it was tracked while it ran.
    pub queue: usize,
    /// The queue that it joined afterwards.
    pub new_queue: usize,
}

/// The shell: a process table, a scheduler and statistics, driven together.
pub struct Shell {
    manager: ProcessManager,
    scheduler: MLFQScheduler,
    stats: SchedulerStats,
    running: bool,
}

/// What a [`Shell`] holds.
pub struct ShellState {
    pub manager: ManagerState,
    pub scheduler: SchedulerState,
    pub stats: StatsModel,
    /// Whether the shell still takes commands.
    pub running: bool,
}

impl View for Shell {
    type V = ShellState;

    closed spec fn view(&self) -> ShellState {
        ShellState {
            manager: self.manager@,
            scheduler: self.scheduler@,
            stats: self.stats@,
            running: self.running,
        }
    }
}

impl ShellState {
    /// The invariant of every shell: those of its process table and of its
    /// scheduler.
    pub open spec fn wf(self) -> bool {
        self.manager.wf() && self.scheduler.wf()
    }

    /// A shell started at time `now`: the first process exists, waits at the
    /// lowest priority and is enrolled in the statistics.
    pub open spec fn started(now: i64) -> Self {
        ShellState {
            manager: (ManagerState { table: Map::empty(), next_pid: 1, running: None }).created(
                0,
                now,
            ),
            scheduler: SchedulerState::initial().enqueue(INIT_PID, LOWEST_LEVEL),
            stats: StatsModel::initial().created(INIT_PID),
            running: true,
        }
    }

    /// `ppid` can be a parent: it is a process, or it is the first process.
    pub open spec fn knows_parent(self, ppid: u32) -> bool {
        self.manager.table.contains_key(ppid) || ppid == INIT_PID
    }

    /// One more process can be created and enrolled.
    pub open spec fn room_to_create(self) -> bool {
        self.manager.next_pid < u32::MAX && self.stats.processes_created < u32::MAX
    }

    /// After `fork` at time `now`: a new process with parent `ppid` exists,
    /// waits at the lowest priority and is enrolled.
    pub open spec fn forked(self, ppid: u32, now: i64) -> Self {
        ShellState {
            manager: self.manager.created(ppid, now),
            scheduler: self.scheduler.enqueue(self.manager.next_pid, LOWEST_LEVEL),
            stats: self.stats.created(self.manager.next_pid),
            ..self
        }
    }

    /// `pid` is a process that is not terminated.
    pub open spec fn can_run(self, pid: u32) -> bool {
        self.manager.table.contains_key(pid) && self.manager.table[pid].state
            != ProcessState::Terminated
    }

    /// After `run`: the process is marked as running, it is in the running
    /// state, and one context switch is counted for it.
    pub open spec fn ran(self, pid: u32) -> Self {
        ShellState {
            manager: self.manager.marked_running(pid),
            stats: self.stats.switched(pid),
            ..self
        }
    }

    /// After `block`: the process was asked to enter the blocked state.
    pub open spec fn blocked(self, pid: u32) -> Self {
        ShellState { manager: self.manager.moved(pid, ProcessState::Blocked, 0), ..self }
    }

    /// `pid` is a blocked process.
    pub open spec fn is_blocked(self, pid: u32) -> bool {
        self.manager.table.contains_key(pid) && self.manager.table[pid].state
            == ProcessState::Blocked
    }

    /// After `unblock`: the process is ready and the scheduler promoted it.
    pub open spec fn unblocked(self, pid: u32) -> Self {
        ShellState {
            manager: self.manager.moved(pid, ProcessState::Ready, 0),
            scheduler: self.scheduler.promote(pid),
            ..self
        }
    }

    /// The statistics can take the termination of the process `pid` at time
    /// `now`: its whole execution time and then its waiting time.
    pub open spec fn room_to_kill(self, pid: u32, now: i64) -> bool {
        let process = self.manager.table[pid];
        &&& self.stats.room_for_execution(pid, process.total_time as u64)
        &&& self.stats.executed(pid, process.total_time as u64).room_for_termination(
            pid,
            process.turnaround_at(now),
        )
    }

    /// After `kill` at time `now`: the statistics hold the execution time of
    /// the process and its termination, with the turnaround as of `now` and
    /// the response time, or zero if it never ran; the process is terminated
    /// and the scheduler no longer tracks it.
    pub open spec fn killed(self, pid: u32, now: i64) -> Self {
        let process = self.manager.table[pid];
        ShellState {
            manager: self.manager.moved(pid, ProcessState::Terminated, now),
            scheduler: self.scheduler.retire(pid),
            stats: self.stats.executed(pid, process.total_time as u64).terminated(
                pid,
                process.turnaround_at(now),
                match process.response() {
                    Some(response) => response,
                    None => 0,
                },
            ),
            ..self
        }
    }

    /// The statistics can take the queue change that `nice` makes, if it
    /// makes one.
    pub open spec fn room_to_renice(self, pid: u32) -> bool {
        self.scheduler.tracks(pid) ==> self.stats.room_for_queue_change(pid)
    }

    /// After `nice`: the process has the new priority; if the scheduler
    /// tracks it, it waits at the tail of the queue of that number and one
    /// queue change is counted for it.
    pub open spec fn reniced(self, pid: u32, priority: u8) -> Self {
        let process = Process { priority, ..self.manager.table[pid] };
        if self.scheduler.tracks(pid) {
            ShellState {
                manager: self.manager.rewritten(pid, process),
                scheduler: self.scheduler.retire(pid).enqueue(pid, priority as usize),
                stats: self.stats.queue_changed(pid),
                ..self
            }
        } else {
            ShellState { manager: self.manager.rewritten(pid, process), ..self }
        }
    }

    /// The process that the next scheduling cycle runs, with its quantum: the
    /// one that the scheduler dispatches, if the process table has it.
    pub open spec fn next_up(self) -> Option<(u32, u32)> {
        match self.scheduler.dispatch_result() {
            Some((pid, quantum)) => if self.manager.table.contains_key(pid) {
                Some((pid, quantum))
            } else {
                None
            },
            None => None,
        }
    }

    /// The statistics can take one cycle of `pid` with `quantum`: a context
    /// switch, the execution time, a tick and a queue change.
    pub open spec fn room_to_cycle(self, pid: u32, quantum: u32) -> bool {
        &&& self.stats.room_for_switch(pid)
        &&& self.stats.room_for_execution(pid, quantum as u64)
        &&& self.stats.total_ticks < u64::MAX
        &&& self.stats.room_for_queue_change(pid)
    }

    /// The process after it ran for `quantum`: its execution time has grown
    /// by the quantum, up to the limit of the field, and it is ready again,
    /// unless it is terminated.
    pub open spec fn after_quantum(process: Process, quantum: u32) -> Process {
        (Process {
            total_time: if process.total_time + quantum > u32::MAX {
                u32::MAX
            } else {
                (process.total_time + quantum) as u32
            },
            ..process.moved_to(ProcessState::Running, 0)
        }).moved_to(ProcessState::Ready, 0)
    }

    /// After a scheduling cycle: the scheduler has dispatched; if it found a
    /// process that the table has, that process ran its quantum, the
    /// statistics count a context switch, the execution time, a tick and a
    /// queue change, and the scheduler has demoted the process if it used
    /// its full quantum and promoted it if not.
    pub open spec fn cycled(self, use_full_quantum: bool) -> Self {
        match self.next_up() {
            Some((pid, quantum)) => ShellState {
                manager: self.manager.rewritten(
                    pid,
                    Self::after_quantum(self.manager.table[pid], quantum),
                ),
                scheduler: if use_full_quantum {
                    self.scheduler.dispatch().demote(pid)
                } else {
                    self.scheduler.dispatch().promote(pid)
                },
                stats: self.stats.switched(pid).executed(
                    pid,
                    quantum as u64,
                ).ticked().queue_changed(pid),
                ..self
            },
            None => ShellState { scheduler: self.scheduler.dispatch(), ..self },
        }
    }

    /// What a scheduling cycle reports: the process, its quantum, the queue
    /// under which it was tracked while it ran and the queue that it joined
    /// afterwards.
    pub open spec fn cycle_report(self, use_full_quantum: bool) -> Option<CycleReport> {
        match self.next_up() {
            Some((pid, quantum)) => Some(
                CycleReport {
                    pid,
                    quantum,
                    queue: self.scheduler.dispatch().index[pid],
                    new_queue: self.cycled(use_full_quantum).scheduler.index[pid],
                },
            ),
            None => None,
        }
    }
}

impl Shell {
    /// A shell started at the time that the system clock shows.
    pub fn new() -> (shell: Self)
        ensures
            exists|now: i64| shell@ == #[trigger] ShellState::started(now),
            shell@.wf(),
    {
        Shell::new_at(clock_millis())
    }

    /// A shell started at time `now`, with the first process created,
    /// enqueued and enrolled.
    pub fn new_at(now: i64) -> (shell: Self)
        ensures
            shell@ == ShellState::started(now),
            shell@.wf(),
    {
        let mut manager = ProcessManager::new();
        let mut scheduler = MLFQScheduler::new();
        let mut stats = SchedulerStats::new();
        let init_pid = manager.create_process_at(0, now);
        scheduler.add_process(init_pid);
        stats.record_process_created(init_pid);
        Shell { manager, scheduler, stats, running: true }
    }

    /// The process table, for reading.
    pub fn manager(&self) -> (manager: &ProcessManager)
        ensures
            manager@ == self@.manager,
    {
        &self.manager
    }

    /// The scheduler, for reading.
    pub fn scheduler(&self) -> (scheduler: &MLFQScheduler)
        ensures
            scheduler@ == self@.scheduler,
    {
        &self.scheduler
    }

    /// The statistics, for reading.
    pub fn stats(&self) -> (stats: &SchedulerStats)
        ensures
            stats@ == self@.stats,
    {
        &self.stats
    }

    /// Whether the shell still takes commands.
    pub fn is_running(&self) -> (running: bool)
        ensures
            running == self@.running,
    {
        self.running
    }

    /// The number of processes created so far, the first one included.
    pub fn process_count(&self) -> (count: usize)
        ensures
            count == self@.manager.table.len(),
            self@.wf() ==> count == self@.manager.next_pid - 1,
    {
        self.manager.process_count()
    }

    /// `fork`, at the time that the system clock shows. See [`Shell::fork_at`].
    pub fn fork(&mut self, ppid: u32) -> (result: Result<Option<u32>, Exhausted>)
        requires
            old(self)@.wf(),
        ensures
            final(self)@.wf(),
            match result {
                Ok(Some(pid)) => old(self)@.knows_parent(ppid) && old(self)@.room_to_create() && pid
                    == old(self)@.manager.next_pid && exists|now: i64|
                    final(self)@ == #[trigger] old(self)@.forked(ppid, now),
                Ok(None) => !old(self)@.knows_parent(ppid) && final(self)@ == old(self)@,
                Err(_) => old(self)@.knows_parent(ppid)
                    && !old(self)@.room_to_create()
                    && final(self)@ == old(self)@,
            },
    {
        self.fork_at(ppid, clock_millis())
    }

    /// `fork`: creates a process with parent `ppid` at time `now`, enqueues
    /// it at the lowest priority and enrols it. Returns its identifier, or
    /// `None` if `ppid` is neither a process nor the first identifier.
    pub fn fork_at(&mut self, ppid: u32, now: i64) -> (result: Result<Option<u32>, Exhausted>)
        requires
            old(self)@.wf(),
        ensures
            final(self)@.wf(),
            match result {
                Ok(Some(pid)) => old(self)@.knows_parent(ppid) && old(self)@.room_to_create() && pid
                    == old(self)@.manager.next_pid && final(self)@ == old(self)@.forked(ppid, now),
                Ok(None) => !old(self)@.knows_parent(ppid) && final(self)@ == old(self)@,
                Err(_) => old(self)@.knows_parent(ppid)
                    && !old(self)@.room_to_create()
                    && final(self)@ == old(self)@,
            },
    {
        if self.manager.get_process(ppid).is_none() && ppid != INIT_PID {
            return Ok(None);
        }
        if self.manager.process_count() >= 0xFFFF_FFFE || self.stats.processes_created
            == u32::MAX {
            return Err(Exhausted);
        }
        let new_pid = self.manager.create_process_at(ppid, now);
        self.scheduler.add_process(new_pid);
        self.stats.record_process_created(new_pid);
        Ok(Some(new_pid))
    }

    /// `run`: marks the process `pid` as the running one, puts it into the
    /// running state and counts a context switch for it. A terminated
    /// process cannot run.
    pub fn run(&mut self, pid: u32) -> (result: Result<RunOutcome, Exhausted>)
        requires
            old(self)@.wf(),
        ensures
            final(self)@.wf(),
            match result {
                Ok(RunOutcome::Started) => old(self)@.can_run(pid)
                    && old(self)@.stats.room_for_switch(pid)
                    && final(self)@ == old(self)@.ran(pid),
                Ok(RunOutcome::IsTerminated) => old(self)@.manager.table.contains_key(pid)
                    && !old(self)@.can_run(pid)
                    && final(self)@ == old(self)@,
                Ok(RunOutcome::NotFound) => !old(self)@.manager.table.contains_key(pid)
                    && final(self)@ == old(self)@,
                Err(_) => old(self)@.can_run(pid) && !old(self)@.stats.room_for_switch(pid)
                    && final(self)@ == old(self)@,
            },
    {
        match self.manager.get_process(pid) {
            None => Ok(RunOutcome::NotFound),
            Some(process) => {
                if process.state == ProcessState::Terminated {
                    return Ok(RunOutcome::IsTerminated);
                }
                if !self.stats.can_record_context_switch(pid) {
                    return Err(Exhausted);
                }
                self.manager.set_running_process(pid);
                self.stats.record_context_switch(pid);
                Ok(RunOutcome::Started)
            },
        }
    }

    /// `block`: asks the process `pid` to enter the blocked state. Returns
    /// whether there is such a process. A terminated process stays
    /// terminated.
    pub fn block(&mut self, pid: u32) -> (found: bool)
        requires
            old(self)@.wf(),
        ensures
            final(self)@.wf(),
            found == old(self)@.manager.table.contains_key(pid),
            final(self)@ == old(self)@.blocked(pid),
    {
        match self.manager.get_process_mut(pid) {
            Some(process) => {
                process.set_state_at(ProcessState::Blocked, 0);
                true
            },
            None => false,
        }
    }

    /// `unblock`: makes a blocked process ready and lets the scheduler
    /// promote it.
    pub fn unblock(&mut self, pid: u32) -> (outcome: UnblockOutcome)
        requires
            old(self)@.wf(),
        ensures
            final(self)@.wf(),
            match outcome {
                UnblockOutcome::Unblocked => old(self)@.is_blocked(pid)
                    && final(self)@ == old(self)@.unblocked(pid),
                UnblockOutcome::NotBlocked => old(self)@.manager.table.contains_key(pid)
                    && !old(self)@.is_blocked(pid)
                    && final(self)@ == old(self)@,
                UnblockOutcome::NotFound => !old(self)@.manager.table.contains_key(pid)
                    && final(self)@ == old(self)@,
            },
    {
        let blocked = match self.manager.get_process(pid) {
            Some(process) => process.state == ProcessState::Blocked,
            None => {
                return UnblockOutcome::NotFound;
            },
        };
        if !blocked {
            return UnblockOutcome::NotBlocked;
        }
        if let Some(process) = self.manager.get_process_mut(pid) {
            process.set_state_at(ProcessState::Ready, 0);
        }
        self.scheduler.process_yielded_early(pid);
        UnblockOutcome::Unblocked
    }

    /// `kill`, at the time that the system clock shows. See [`Shell::kill_at`].
    pub fn kill(&mut self, pid: u32) -> (result: Result<KillOutcome, Exhausted>)
        requires
            old(self)@.wf(),
        ensures
            final(self)@.wf(),
            match result {
                Ok(KillOutcome::Killed) => pid != INIT_PID && old(self)@.manager.table.contains_key(
                    pid,
                ) && exists|now: i64|
                    old(self)@.room_to_kill(pid, now)
                        && final(self)@ == #[trigger] old(self)@.killed(pid, now),
                Ok(KillOutcome::InitProtected) => pid == INIT_PID && final(self)@ == old(self)@,
                Ok(KillOutcome::NotFound) => pid != INIT_PID
                    && !old(self)@.manager.table.contains_key(pid)
                    && final(self)@ == old(self)@,
                Err(_) => pid != INIT_PID
                    && old(self)@.manager.table.contains_key(pid)
                    && final(self)@
                    == old(self)@ && exists|now: i64| !#[trigger] old(self)@.room_to_kill(pid, now),
            },
    {
        self.kill_at(pid, clock_millis())
    }

    /// `kill`: terminates the process `pid` at time `now`. The statistics
    /// record its execution time and its termination, the process table
    /// marks it terminated and the scheduler stops tracking it. The first
    /// process cannot be killed.
    pub fn kill_at(&mut self, pid: u32, now: i64) -> (result: Result<KillOutcome, Exhausted>)
        requires
            old(self)@.wf(),
        ensures
            final(self)@.wf(),
            match result {
                Ok(KillOutcome::Killed) => pid != INIT_PID && old(self)@.manager.table.contains_key(
                    pid,
                ) && old(self)@.room_to_kill(pid, now) && final(self)@ == old(self)@.killed(
                    pid,
                    now,
                ),
                Ok(KillOutcome::InitProtected) => pid == INIT_PID && final(self)@ == old(self)@,
                Ok(KillOutcome::NotFound) => pid != INIT_PID
                    && !old(self)@.manager.table.contains_key(pid)
                    && final(self)@ == old(self)@,
                Err(_) => pid != INIT_PID
                    && old(self)@.manager.table.contains_key(pid)
                    && !old(self)@.room_to_kill(pid, now)
                    && final(self)@ == old(self)@,
            },
    {
        if pid == INIT_PID {
            return Ok(KillOutcome::InitProtected);
        }
        let (turnaround, response, execution) = match self.manager.get_process(pid) {
            Some(process) => (
                process.turnaround_time_at(now),
                match process.response_time() {
                    Some(response) => response,
                    None => 0,
                },
                process.total_time as u64,
            ),
            None => {
                return Ok(KillOutcome::NotFound);
            },
        };
        let room = match self.stats.get_process_metrics(pid) {
            Some(metrics) => execution <= u64::MAX - self.stats.total_execution_time && execution
                <= u64::MAX - metrics.execution_time && self.stats.processes_terminated
                < u32::MAX && turnaround.saturating_sub(metrics.execution_time + execution)
                <= u64::MAX - self.stats.total_waiting_time,
            None => true,
        };
        if !room {
            return Err(Exhausted);
        }
        self.stats.record_execution_time(pid, execution);
        self.stats.record_process_terminated(pid, turnaround, response);
        self.manager.terminate_process_at(pid, now);
        self.scheduler.remove_process(pid);
        Ok(KillOutcome::Killed)
    }

    /// `nice`: sets the priority of the process `pid`, from 0 to 3. If the
    /// scheduler tracks the process, it moves to the tail of the queue of
    /// that number and a queue change is counted for it.
    pub fn nice(&mut self, pid: u32, priority: u8) -> (result: Result<NiceOutcome, Exhausted>)
        requires
            old(self)@.wf(),
        ensures
            final(self)@.wf(),
            match result {
                Ok(NiceOutcome::Changed { old_priority }) => priority <= MAX_PRIORITY
                    && old(self)@.manager.table.contains_key(pid)
                    && old(self)@.room_to_renice(pid)
                    && old_priority == old(self)@.manager.table[pid].priority && final(self)@
                    == old(self)@.reniced(pid, priority),
                Ok(NiceOutcome::OutOfRange) => priority > MAX_PRIORITY
                    && final(self)@ == old(self)@,
                Ok(NiceOutcome::NotFound) => priority <= MAX_PRIORITY
                    && !old(self)@.manager.table.contains_key(pid)
                    && final(self)@ == old(self)@,
                Err(_) => priority <= MAX_PRIORITY && old(self)@.manager.table.contains_key(pid)
                    && !old(self)@.room_to_renice(pid) && final(self)@ == old(self)@,
            },
    {
        if priority > MAX_PRIORITY {
            return Ok(NiceOutcome::OutOfRange);
        }
        if self.manager.get_process(pid).is_none() {
            return Ok(NiceOutcome::NotFound);
        }
        let scheduled = self.scheduler.get_process_queue(pid).is_some();
        if scheduled && !self.stats.can_record_queue_change(pid) {
            return Err(Exhausted);
        }
        let mut old_priority: u8 = 0;
        if let Some(process) = self.manager.get_process_mut(pid) {
            old_priority = process.priority;
            process.priority = priority;
        }
        if scheduled {
            self.scheduler.remove_process(pid);
            self.scheduler.add_process_to_queue(pid, priority as usize);
            self.stats.record_queue_change(pid);
        }
        Ok(NiceOutcome::Changed { old_priority })
    }

    /// One scheduling cycle. The scheduler dispatches; the process that it
    /// returns runs its whole quantum; the statistics count a context
    /// switch, the execution time, a tick and a queue change; then the
    /// scheduler demotes the process if `use_full_quantum` holds and
    /// promotes it if not, and the process is ready again. `None` is
    /// returned when nothing was ready, or when the process table does not
    /// know the identifier that the scheduler returned: the scheduler has
    /// still dispatched.
    pub fn schedule_cycle(&mut self, use_full_quantum: bool) -> (result: Result<
        Option<CycleReport>,
        Exhausted,
    >)
        requires
            old(self)@.wf(),
        ensures
            final(self)@.wf(),
            match result {
                Ok(report) => report == old(self)@.cycle_report(use_full_quantum) && final(self)@
                    == old(self)@.cycled(use_full_quantum) && (old(self)@.next_up() matches Some(
                    (pid, quantum),
                ) ==> old(self)@.room_to_cycle(pid, quantum)),
                Err(_) => final(self)@ == old(self)@ && (old(self)@.next_up() matches Some(
                    (pid, quantum),
                ) && !old(self)@.room_to_cycle(pid, quantum)),
            },
    {
        let next = match self.scheduler.peek_next() {
            Some((pid, quantum)) => if self.manager.get_process(pid).is_some() {
                Some((pid, quantum))
            } else {
                None
            },
            None => None,
        };
        match next {
            Some((pid, quantum)) => {
                if !(self.stats.can_record_context_switch(pid)
                    && self.stats.can_record_execution_time(pid, quantum as u64)
                    && self.stats.total_ticks < u64::MAX && self.stats.can_record_queue_change(
                    pid,
                )) {
                    return Err(Exhausted);
                }
                proof {
                    lemma_dispatched_stays_tracked(self@.scheduler);
                }
                let _ = self.scheduler.next_process();
                if let Some(process) = self.manager.get_process_mut(pid) {
                    process.set_state_at(ProcessState::Running, 0);
                    process.total_time = process.total_time.saturating_add(quantum);
                    process.set_state_at(ProcessState::Ready, 0);
                }
                self.stats.record_context_switch(pid);
                self.stats.record_execution_time(pid, quantum as u64);
                self.stats.record_tick();
                let queue = match self.scheduler.get_process_queue(pid) {
                    Some(level) => level,
                    None => LOWEST_LEVEL,
                };
                if use_full_quantum {
                    self.scheduler.process_used_full_quantum(pid);
                } else {
                    self.scheduler.process_yielded_early(pid);
                }
                self.stats.record_queue_change(pid);
                let new_queue = match self.scheduler.get_process_queue(pid) {
                    Some(level) => level,
                    None => if use_full_quantum {
                        LOWEST_LEVEL
                    } else {
                        0
                    },
                };
                Ok(Some(CycleReport { pid, quantum, queue, new_queue }))
            },
            None => {
                let _ = self.scheduler.next_process();
                Ok(None)
            },
        }
    }

    /// `reset_stats`: the statistics forget everything.
    pub fn reset_stats(&mut self)
        requires
            old(self)@.wf(),
        ensures
            final(self)@.wf(),
            final(self)@ == (ShellState { stats: StatsModel::initial(), ..old(self)@ }),
    {
        self.stats.reset();
    }

    /// `exit`: the shell takes no more commands.
    pub fn exit(&mut self)
        requires
            old(self)@.wf(),
        ensures
            final(self)@.wf(),
            final(self)@ == (ShellState { running: false, ..old(self)@ }),
    {
        self.running = false;
    }
}

impl Default for Shell {
    fn default() -> (shell: Self)
        ensures
            exists|now: i64| shell@ == #[trigger] ShellState::started(now),
            shell@.wf(),
    {
        Self::new()
    }
}

} // verus!
