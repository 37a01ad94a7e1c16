//! Simulated processes and the table that owns them.
//!
//! A process is a record: identity, lifecycle state, placeholder machine
//! context and time bookkeeping. Times are milliseconds since the Unix
//! epoch. The manager is the table of every process ever created; it hands
//! out identifiers once and never deletes a process.

use std::collections::hash_map::Entry;
use std::collections::HashMap;
use vstd::prelude::*;

verus! {

/// The lifecycle state of a process.
#[derive(Debug, Clone, Copy, PartialEq, Eq, Hash, Structural)]
pub enum ProcessState {
    Ready,
    Running,
    Blocked,
    Terminated,
}

/// Placeholder processor registers.
#[derive(Debug)]
pub struct Registers {
    pub rax: u64,
    pub rbx: u64,
    pub rcx: u64,
    pub rdx: u64,
    pub rsi: u64,
    pub rdi: u64,
    pub rbp: u64,
    pub rsp: u64,
}

impl Registers {
    /// All registers zero but the stack pointer, which starts at `0x1000`.
    pub open spec fn initial() -> Self {
        Registers { rax: 0, rbx: 0, rcx: 0, rdx: 0, rsi: 0, rdi: 0, rbp: 0, rsp: 0x1000 }
    }
}

impl Default for Registers {
    fn default() -> (registers: Self)
        ensures
            registers == Registers::initial(),
    {
        Registers { rax: 0, rbx: 0, rcx: 0, rdx: 0, rsi: 0, rdi: 0, rbp: 0, rsp: 0x1000 }
    }
}

impl Clone for Registers {
    fn clone(&self) -> (copy: Self)
        ensures
            copy == *self,
    {
        Registers {
            rax: self.rax,
            rbx: self.rbx,
            rcx: self.rcx,
            rdx: self.rdx,
            rsi: self.rsi,
            rdi: self.rdi,
            rbp: self.rbp,
            rsp: self.rsp,
        }
    }
}

/// Placeholder memory layout of a process.
#[derive(Debug)]
pub struct MemoryContext {
    pub page_table_base: u64,
    pub heap_start: u64,
    pub heap_size: usize,
    pub stack_start: u64,
    pub stack_size: usize,
}

impl MemoryContext {
    /// The layout that every new process starts with.
    pub open spec fn initial() -> Self {
        MemoryContext {
            page_table_base: 0,
            heap_start: 0x2000,
            heap_size: 0x1000,
            stack_start: 0x10000,
            stack_size: 0x2000,
        }
    }
}

impl Default for MemoryContext {
    fn default() -> (context: Self)
        ensures
            context == MemoryContext::initial(),
    {
        MemoryContext {
            page_table_base: 0,
            heap_start: 0x2000,
            heap_size: 0x1000,
            stack_start: 0x10000,
            stack_size: 0x2000,
        }
    }
}

impl Clone for MemoryContext {
    fn clone(&self) -> (copy: Self)
        ensures
            copy == *self,
    {
        MemoryContext {
            page_table_base: self.page_table_base,
            heap_start: self.heap_start,
            heap_size: self.heap_size,
            stack_start: self.stack_start,
            stack_size: self.stack_size,
        }
    }
}

/// The time from `from` to `to` in milliseconds, zero if `to` is the earlier.
pub open spec fn elapsed(from: i64, to: i64) -> u64 {
    if to >= from {
        (to - from) as u64
    } else {
        0
    }
}

/// Computes [`elapsed`].
fn elapsed_between(from: i64, to: i64) -> (span: u64)
    ensures
        span == elapsed(from, to),
{
    if to >= from {
        (to as i128 - from as i128) as u64
    } else {
        0
    }
}

/// Reads the system clock: milliseconds since the Unix epoch.
///
/// The body calls `chrono::Utc::now` and takes `DateTime::timestamp_millis`
/// of the result. Nothing is claimed of the value: two readings may be
/// equal, and the later one may be the smaller. chrono itself gives up when
/// the system clock reads a time before 1970.
#[verifier::external_body]
pub(crate) fn clock_millis() -> i64 {
    chrono::Utc::now().timestamp_millis()
}

/// Process control block.
#[derive(Debug)]
pub struct Process {
    pub pid: u32,
    /// Identifier of the parent, 0 for the root.
    pub ppid: u32,
    pub state: ProcessState,
    /// A hint from 0 (highest) to 3; the scheduler's queues do not follow it.
    pub priority: u8,
    pub program_counter: u64,
    pub registers: Registers,
    pub memory_context: MemoryContext,
    /// The quantum granted, in milliseconds.
    pub time_allocated: u32,
    /// What has been used of the quantum.
    pub time_used: u32,
    /// Execution time over the whole life of the process.
    pub total_time: u32,
    pub creation_time: i64,
    pub termination_time: Option<i64>,
    pub queue_entry_time: i64,
}

impl Clone for Process {
    fn clone(&self) -> (copy: Self)
        ensures
            copy == *self,
    {
        Process {
            pid: self.pid,
            ppid: self.ppid,
            state: self.state,
            priority: self.priority,
            program_counter: self.program_counter,
            registers: self.registers.clone(),
            memory_context: self.memory_context.clone(),
            time_allocated: self.time_allocated,
            time_used: self.time_used,
            total_time: self.total_time,
            creation_time: self.creation_time,
            termination_time: self.termination_time,
            queue_entry_time: self.queue_entry_time,
        }
    }
}

impl Process {
    /// The process `pid` as it is when created at time `now`: ready, at the
    /// lowest priority, with no time used.
    pub open spec fn fresh(pid: u32, ppid: u32, now: i64) -> Self {
        Process {
            pid,
            ppid,
            state: ProcessState::Ready,
            priority: 3,
            program_counter: 0,
            registers: Registers::initial(),
            memory_context: MemoryContext::initial(),
            time_allocated: 0,
            time_used: 0,
            total_time: 0,
            creation_time: now,
            termination_time: None,
            queue_entry_time: now,
        }
    }

    /// The termination time is set exactly when the process is terminated.
    pub open spec fn wf(self) -> bool {
        self.termination_time is Some <==> self.state == ProcessState::Terminated
    }

    /// The process after a request at time `now` to enter `new_state`. A
    /// terminated process stays as it is. Entering `Terminated` stamps the
    /// termination time.
    pub open spec fn moved_to(self, new_state: ProcessState, now: i64) -> Self {
        if self.state == ProcessState::Terminated {
            self
        } else if new_state == ProcessState::Terminated {
            Process { state: new_state, termination_time: Some(now), ..self }
        } else {
            Process { state: new_state, ..self }
        }
    }

    /// Time from creation to termination, or to `now` while the process lives.
    pub open spec fn turnaround_at(self, now: i64) -> u64 {
        match self.termination_time {
            Some(end) => elapsed(self.creation_time, end),
            None => elapsed(self.creation_time, now),
        }
    }

    /// Time from creation to the entry into the queue, defined once the
    /// process has run at all.
    pub open spec fn response(self) -> Option<u64> {
        if self.total_time > 0 {
            Some(elapsed(self.creation_time, self.queue_entry_time))
        } else {
            None
        }
    }

    /// Turnaround less execution time, and zero where that would be negative.
    pub open spec fn waiting_at(self, now: i64) -> u64 {
        if self.turnaround_at(now) >= self.total_time {
            (self.turnaround_at(now) - self.total_time) as u64
        } else {
            0
        }
    }

    /// Termination is final: whatever state a terminated process is asked
    /// to enter, and when, it stays as it is. And no request breaks the rule
    /// that the termination time is set exactly when the process is
    /// terminated.
    pub proof fn lemma_termination_is_final(self, new_state: ProcessState, now: i64)
        ensures
            self.state == ProcessState::Terminated ==> self.moved_to(new_state, now) == self,
            self.wf() ==> self.moved_to(new_state, now).wf(),
            self.moved_to(new_state, now).state == ProcessState::Terminated <==> (self.state
                == ProcessState::Terminated || new_state == ProcessState::Terminated),
    {
    }

    /// A new process, created at the time that the system clock shows.
    pub fn new(pid: u32, ppid: u32) -> (process: Self)
        ensures
            process == Process::fresh(pid, ppid, process.creation_time),
            process.wf(),
    {
        Process::new_at(pid, ppid, clock_millis())
    }

    /// A new process, created at time `now`.
    pub fn new_at(pid: u32, ppid: u32, now: i64) -> (process: Self)
        ensures
            process == Process::fresh(pid, ppid, now),
            process.wf(),
    {
        Process {
            pid,
            ppid,
            state: ProcessState::Ready,
            priority: 3,
            program_counter: 0,
            registers: Registers::default(),
            memory_context: MemoryContext::default(),
            time_allocated: 0,
            time_used: 0,
            total_time: 0,
            creation_time: now,
            termination_time: None,
            queue_entry_time: now,
        }
    }

    /// Requests the state `new_state`. The termination time, where one is
    /// stamped, is read from the system clock.
    pub fn set_state(&mut self, new_state: ProcessState)
        ensures
            exists|now: i64| *final(self) == #[trigger] old(self).moved_to(new_state, now),
            new_state != ProcessState::Terminated ==> *final(self) == old(self).moved_to(
                new_state,
                0,
            ),
            old(self).wf() ==> final(self).wf(),
    {
        if new_state == ProcessState::Terminated {
            let now = clock_millis();
            self.set_state_at(new_state, now);
        } else {
            self.set_state_at(new_state, 0);
        }
    }

    /// Requests the state `new_state` at time `now`.
    pub fn set_state_at(&mut self, new_state: ProcessState, now: i64)
        ensures
            *final(self) == old(self).moved_to(new_state, now),
            old(self).wf() ==> final(self).wf(),
    {
        if self.state != ProcessState::Terminated {
            self.state = new_state;
            if new_state == ProcessState::Terminated {
                self.termination_time = Some(now);
            }
        }
    }

    /// Turnaround time: for a terminated process the time from creation to
    /// termination, for a living one the time from creation to the reading
    /// of the system clock.
    pub fn turnaround_time(&self) -> (turnaround: u64)
        ensures
            exists|now: i64| turnaround == #[trigger] self.turnaround_at(now),
            self.termination_time is Some ==> turnaround == self.turnaround_at(0),
    {
        match self.termination_time {
            Some(_) => self.turnaround_time_at(0),
            None => self.turnaround_time_at(clock_millis()),
        }
    }

    /// Turnaround time as of `now`.
    pub fn turnaround_time_at(&self, now: i64) -> (turnaround: u64)
        ensures
            turnaround == self.turnaround_at(now),
    {
        match self.termination_time {
            Some(end) => elapsed_between(self.creation_time, end),
            None => elapsed_between(self.creation_time, now),
        }
    }

    /// Response time, once the process has accumulated execution time.
    pub fn response_time(&self) -> (response: Option<u64>)
        ensures
            response == self.response(),
    {
        if self.total_time > 0 {
            Some(elapsed_between(self.creation_time, self.queue_entry_time))
        } else {
            None
        }
    }

    /// Waiting time, with the turnaround of [`Process::turnaround_time`].
    pub fn waiting_time(&self) -> (waiting: u64)
        ensures
            exists|now: i64| waiting == #[trigger] self.waiting_at(now),
            self.termination_time is Some ==> waiting == self.waiting_at(0),
    {
        match self.termination_time {
            Some(_) => self.waiting_time_at(0),
            None => self.waiting_time_at(clock_millis()),
        }
    }

    /// Waiting time as of `now`.
    pub fn waiting_time_at(&self, now: i64) -> (waiting: u64)
        ensures
            waiting == self.waiting_at(now),
    {
        self.turnaround_time_at(now).saturating_sub(self.total_time as u64)
    }

    /// Whether the quantum granted is used up.
    pub fn quantum_expired(&self) -> (expired: bool)
        ensures
            expired == (self.time_used >= self.time_allocated),
    {
        self.time_used >= self.time_allocated
    }

    /// Starts a new quantum: nothing of it is used.
    pub fn reset_quantum(&mut self)
        ensures
            *final(self) == (Process { time_used: 0, ..*old(self) }),
    {
        self.time_used = 0;
    }
}

/// The table of all processes ever created.
pub struct ProcessManager {
    processes: HashMap<u32, Process>,
    next_pid: u32,
    current_process_id: Option<u32>,
}

/// What a [`ProcessManager`] holds.
pub struct ManagerState {
    /// Every process created so far, under its identifier.
    pub table: Map<u32, Process>,
    /// The identifier that the next process will get.
    pub next_pid: u32,
    /// The identifier marked as running, if any. It need not be in the table.
    pub running: Option<u32>,
}

/// The test that a process is not terminated.
pub open spec fn is_active() -> spec_fn(Process) -> bool {
    |p: Process| p.state != ProcessState::Terminated
}

impl ManagerState {
    /// Identifiers are handed out from 1 upwards and never taken back: the
    /// table holds exactly the identifiers below `next_pid`.
    pub open spec fn wf(self) -> bool {
        &&& self.next_pid >= 1
        &&& forall|pid: u32| self.table.contains_key(pid) <==> 1 <= pid < self.next_pid
    }

    /// The processes with identifiers from `from` up to, not including, `to`,
    /// in ascending order of identifier.
    pub open spec fn listed(self, from: int, to: int) -> Seq<Process>
        decreases to - from,
    {
        if to <= from {
            Seq::empty()
        } else {
            self.listed(from, to - 1).push(self.table[(to - 1) as u32])
        }
    }

    /// All processes, in ascending order of identifier.
    pub open spec fn all(self) -> Seq<Process> {
        self.listed(1, self.next_pid as int)
    }

    /// The processes that are not terminated, in ascending order of identifier.
    pub open spec fn active(self) -> Seq<Process> {
        self.all().filter(is_active())
    }

    /// The table after a process with parent `ppid` was created at time
    /// `now`: it has the next identifier, and the one after is next.
    pub open spec fn created(self, ppid: u32, now: i64) -> Self {
        ManagerState {
            table: self.table.insert(self.next_pid, Process::fresh(self.next_pid, ppid, now)),
            next_pid: (self.next_pid + 1) as u32,
            ..self
        }
    }

    /// The table with `process` in the place of the process `pid`.
    pub open spec fn rewritten(self, pid: u32, process: Process) -> Self {
        ManagerState { table: self.table.insert(pid, process), ..self }
    }

    /// The table after the process `pid` was asked at time `now` to enter
    /// `state`; the same table if there is no such process.
    pub open spec fn moved(self, pid: u32, state: ProcessState, now: i64) -> Self {
        if self.table.contains_key(pid) {
            self.rewritten(pid, self.table[pid].moved_to(state, now))
        } else {
            self
        }
    }

    /// The table after `pid` was marked as running: the mark is set whether
    /// or not there is such a process, and the process, if there is one, was
    /// asked to run.
    pub open spec fn marked_running(self, pid: u32) -> Self {
        ManagerState { running: Some(pid), ..self.moved(pid, ProcessState::Running, 0) }
    }

    /// The process marked as running, if it is in the table.
    pub open spec fn running_process(self) -> Option<Process> {
        match self.running {
            Some(pid) => if self.table.contains_key(pid) {
                Some(self.table[pid])
            } else {
                None
            },
            None => None,
        }
    }
}

impl View for ProcessManager {
    type V = ManagerState;

    closed spec fn view(&self) -> ManagerState {
        ManagerState {
            table: self.processes@,
            next_pid: self.next_pid,
            running: self.current_process_id,
        }
    }
}

/// A finite set that holds exactly the identifiers from 1 up to, not
/// including, `next` has `next - 1` elements.
proof fn lemma_table_size(ids: Set<u32>, next: u32)
    requires
        ids.finite(),
        next >= 1,
        forall|pid: u32| ids.contains(pid) <==> 1 <= pid < next,
    ensures
        ids.len() == next - 1,
    decreases next,
{
    if next == 1 {
        assert(ids =~= Set::<u32>::empty());
    } else {
        let last = (next - 1) as u32;
        lemma_table_size(ids.remove(last), last);
    }
}

/// Looks up `pid` for writing.
fn lookup_mut(table: &mut HashMap<u32, Process>, pid: u32) -> (found: Option<&mut Process>)
    ensures
        match found {
            Some(process) => old(table)@.contains_key(pid) && *process == old(table)@[pid]
                && final(table)@ == old(table)@.insert(pid, *final(process)),
            None => !old(table)@.contains_key(pid) && final(table)@ == old(table)@,
        },
{
    match table.entry(pid) {
        Entry::Occupied(entry) => Some(entry.into_mut()),
        Entry::Vacant(_) => None,
    }
}

impl ProcessManager {
    /// An empty table; the first process will be number 1.
    pub fn new() -> (manager: Self)
        ensures
            manager@ == (ManagerState { table: Map::empty(), next_pid: 1, running: None }),
            manager@.wf(),
    {
        ProcessManager { processes: HashMap::new(), next_pid: 1, current_process_id: None }
    }

    /// Creates a process with parent `ppid` at the time that the system
    /// clock shows, and returns its identifier: the next unused one. There
    /// must be an identifier left: [`ProcessManager::process_count`] is below
    /// `u32::MAX - 1`.
    pub fn create_process(&mut self, ppid: u32) -> (pid: u32)
        requires
            old(self)@.wf(),
            old(self)@.next_pid < u32::MAX,
        ensures
            pid == old(self)@.next_pid,
            !old(self)@.table.contains_key(pid),
            final(self)@.table.contains_key(pid),
            final(self)@ == old(self)@.created(ppid, final(self)@.table[pid].creation_time),
            final(self)@.wf(),
    {
        self.create_process_at(ppid, clock_millis())
    }

    /// Creates a process with parent `ppid` at time `now`, and returns its
    /// identifier: the next unused one. There must be an identifier left:
    /// [`ProcessManager::process_count`] is below `u32::MAX - 1`.
    pub fn create_process_at(&mut self, ppid: u32, now: i64) -> (pid: u32)
        requires
            old(self)@.wf(),
            old(self)@.next_pid < u32::MAX,
        ensures
            pid == old(self)@.next_pid,
            !old(self)@.table.contains_key(pid),
            final(self)@ == old(self)@.created(ppid, now),
            final(self)@.wf(),
    {
        let pid = self.next_pid;
        self.next_pid += 1;
        let process = Process::new_at(pid, ppid, now);
        self.processes.insert(pid, process);
        pid
    }

    /// The process `pid`, if there is one.
    pub fn get_process(&self, pid: u32) -> (found: Option<&Process>)
        ensures
            match found {
                Some(process) => self@.table.contains_key(pid) && *process == self@.table[pid],
                None => !self@.table.contains_key(pid),
            },
    {
        self.processes.get(&pid)
    }

    /// The process `pid` for writing, if there is one. What the caller
    /// writes is what the table holds afterwards.
    pub fn get_process_mut(&mut self, pid: u32) -> (found: Option<&mut Process>)
        ensures
            match found {
                Some(process) => old(self)@.table.contains_key(pid) && *process == old(
                    self,
                )@.table[pid] && final(self)@ == old(self)@.rewritten(pid, *final(process)),
                None => !old(self)@.table.contains_key(pid) && final(self)@ == old(self)@,
            },
            old(self)@.wf() ==> final(self)@.wf(),
    {
        lookup_mut(&mut self.processes, pid)
    }

    /// Terminates the process `pid` at the time that the system clock shows.
    /// Returns whether there is such a process. The process stays in the
    /// table; one that was terminated before is left as it was.
    pub fn terminate_process(&mut self, pid: u32) -> (found: bool)
        ensures
            found == old(self)@.table.contains_key(pid),
            exists|now: i64|
                final(self)@ == #[trigger] old(self)@.moved(pid, ProcessState::Terminated, now),
            old(self)@.wf() ==> final(self)@.wf(),
    {
        self.terminate_process_at(pid, clock_millis())
    }

    /// Terminates the process `pid` at time `now`. Returns whether there is
    /// such a process.
    pub fn terminate_process_at(&mut self, pid: u32, now: i64) -> (found: bool)
        ensures
            found == old(self)@.table.contains_key(pid),
            final(self)@ == old(self)@.moved(pid, ProcessState::Terminated, now),
            old(self)@.wf() ==> final(self)@.wf(),
    {
        if let Some(process) = self.get_process_mut(pid) {
            process.set_state_at(ProcessState::Terminated, now);
            return true;
        }
        false
    }

    /// All processes, in ascending order of identifier.
    pub fn all_processes(&self) -> (all: Vec<&Process>)
        requires
            self@.wf(),
        ensures
            all@.len() == self@.all().len(),
            all@.len() == self@.next_pid - 1,
            forall|i: int| 0 <= i < all@.len() ==> *(#[trigger] all@[i]) == self@.all()[i],
            forall|i: int|
                0 <= i < all@.len() ==> *(#[trigger] all@[i]) == self@.table[(i + 1) as u32],
    {
        let mut all: Vec<&Process> = Vec::new();
        let mut pid: u32 = 1;
        while pid < self.next_pid
            invariant
                self@.wf(),
                1 <= pid <= self.next_pid,
                all@.len() == pid - 1,
                all@.len() == self@.listed(1, pid as int).len(),
                forall|i: int|
                    0 <= i < all@.len() ==> *(#[trigger] all@[i]) == self@.listed(1, pid as int)[i],
                forall|i: int|
                    0 <= i < all@.len() ==> *(#[trigger] all@[i]) == self@.table[(i + 1) as u32],
            decreases self.next_pid - pid,
        {
            assert(self@.table.contains_key(pid));
            if let Some(process) = self.processes.get(&pid) {
                all.push(process);
            }
            pid += 1;
        }
        all
    }

    /// The processes that are not terminated, in ascending order of identifier.
    pub fn active_processes(&self) -> (active: Vec<&Process>)
        requires
            self@.wf(),
        ensures
            active@.len() == self@.active().len(),
            forall|i: int| 0 <= i < active@.len() ==> *(#[trigger] active@[i]) == self@.active()[i],
    {
        let mut active: Vec<&Process> = Vec::new();
        let mut pid: u32 = 1;
        while pid < self.next_pid
            invariant
                self@.wf(),
                1 <= pid <= self.next_pid,
                active@.len() == self@.listed(1, pid as int).filter(is_active()).len(),
                forall|i: int|
                    0 <= i < active@.len() ==> *(#[trigger] active@[i]) == self@.listed(
                        1,
                        pid as int,
                    ).filter(is_active())[i],
            decreases self.next_pid - pid,
        {
            proof {
                reveal(Seq::filter);
                assert(self@.listed(1, pid as int + 1).drop_last() == self@.listed(1, pid as int));
            }
            if let Some(process) = self.processes.get(&pid) {
                if process.state != ProcessState::Terminated {
                    active.push(process);
                }
            }
            pid += 1;
        }
        active
    }

    /// Marks `pid` as running, whether or not there is such a process, and
    /// moves the process, if there is one, to the running state.
    pub fn set_running_process(&mut self, pid: u32)
        ensures
            final(self)@ == old(self)@.marked_running(pid),
            old(self)@.wf() ==> final(self)@.wf(),
    {
        self.current_process_id = Some(pid);
        if let Some(process) = self.get_process_mut(pid) {
            process.set_state_at(ProcessState::Running, 0);
        }
    }

    /// The process marked as running, if it is in the table.
    pub fn get_running_process(&self) -> (found: Option<&Process>)
        ensures
            match found {
                Some(process) => self@.running_process() == Some(*process),
                None => self@.running_process() is None,
            },
    {
        match self.current_process_id {
            Some(pid) => self.get_process(pid),
            None => None,
        }
    }

    /// The process marked as running, for writing.
    pub fn get_running_process_mut(&mut self) -> (found: Option<&mut Process>)
        ensures
            match found {
                Some(process) => old(self)@.running_process() == Some(*process) && final(self)@
                    == old(self)@.rewritten(old(self)@.running->0, *final(process)),
                None => old(self)@.running_process() is None && final(self)@ == old(self)@,
            },
            old(self)@.wf() ==> final(self)@.wf(),
    {
        match self.current_process_id {
            Some(pid) => self.get_process_mut(pid),
            None => None,
        }
    }

    /// Marks no process as running. The table is untouched.
    pub fn clear_running_process(&mut self)
        ensures
            final(self)@ == (ManagerState { running: None, ..old(self)@ }),
    {
        self.current_process_id = None;
    }

    /// The number of processes created so far.
    pub fn process_count(&self) -> (count: usize)
        ensures
            count == self@.table.len(),
            self@.wf() ==> count == self@.next_pid - 1,
    {
        proof {
            if self@.wf() {
                lemma_table_size(self@.table.dom(), self@.next_pid);
            }
        }
        self.processes.len()
    }
}

} // verus!
