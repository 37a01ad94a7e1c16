//! Statistics of a scheduling run: one record per process and the totals of
//! the whole system. The engine only observes: it is told what happened and
//! never touches the scheduler or the processes.

use std::collections::hash_map::Entry;
use std::collections::HashMap;
use vstd::prelude::*;
use vstd::std_specs::hash::spec_keys_iter;
use vstd::std_specs::iter::IteratorSpec;

verus! {

/// What was measured of one process. Times are in milliseconds.
#[derive(Debug)]
pub struct ProcessMetrics {
    pub pid: u32,
    /// Time from creation to termination.
    pub turnaround_time: u64,
    /// Time from creation to the first run.
    pub response_time: u64,
    /// Turnaround less execution time, never negative.
    pub waiting_time: u64,
    /// Time spent running.
    pub execution_time: u64,
    /// How often the process was switched in.
    pub context_switches: u32,
    /// How often the process changed queue.
    pub queue_changes: u32,
}

impl ProcessMetrics {
    /// The record of `pid` with nothing measured yet.
    pub open spec fn zeroed(pid: u32) -> Self {
        ProcessMetrics {
            pid,
            turnaround_time: 0,
            response_time: 0,
            waiting_time: 0,
            execution_time: 0,
            context_switches: 0,
            queue_changes: 0,
        }
    }

    /// The record once the process has terminated with the given turnaround
    /// and response times: both are stored as given, and the waiting time is
    /// the turnaround less the execution time measured so far, or zero where
    /// the execution time is the larger.
    pub open spec fn finalized(self, turnaround: u64, response: u64) -> Self {
        ProcessMetrics {
            turnaround_time: turnaround,
            response_time: response,
            waiting_time: waiting_of(turnaround, self.execution_time),
            ..self
        }
    }

    /// A record of `pid` with nothing measured yet.
    pub fn new(pid: u32) -> (metrics: Self)
        ensures
            metrics == ProcessMetrics::zeroed(pid),
    {
        ProcessMetrics {
            pid,
            turnaround_time: 0,
            response_time: 0,
            waiting_time: 0,
            execution_time: 0,
            context_switches: 0,
            queue_changes: 0,
        }
    }
}

impl Clone for ProcessMetrics {
    fn clone(&self) -> (copy: Self)
        ensures
            copy == *self,
    {
        ProcessMetrics {
            pid: self.pid,
            turnaround_time: self.turnaround_time,
            response_time: self.response_time,
            waiting_time: self.waiting_time,
            execution_time: self.execution_time,
            context_switches: self.context_switches,
            queue_changes: self.queue_changes,
        }
    }
}

/// Waiting time: `turnaround - execution`, and zero where that is negative.
pub open spec fn waiting_of(turnaround: u64, execution: u64) -> u64 {
    if turnaround >= execution {
        (turnaround - execution) as u64
    } else {
        0
    }
}

/// `std::time::Instant`, a reading of the monotonic clock. Nothing inside
/// it is visible here: the statistics keep one and never look at it.
#[verifier::external_type_specification]
#[verifier::external_body]
pub struct ExInstant(std::time::Instant);

/// Reads the monotonic clock.
///
/// The body calls `std::time::Instant::now`. Nothing is claimed of the reading.
#[verifier::external_body]
fn instant_now() -> std::time::Instant {
    std::time::Instant::now()
}

/// System-wide scheduler statistics.
#[derive(Debug)]
pub struct SchedulerStats {
    /// The record of each enrolled process.
    pub process_metrics: HashMap<u32, ProcessMetrics>,
    /// Context switches, all processes together.
    pub total_context_switches: u64,
    /// Ticks counted.
    pub total_ticks: u64,
    /// Processes enrolled.
    pub processes_created: u32,
    /// Terminations recorded.
    pub processes_terminated: u32,
    /// Execution time, all processes together.
    pub total_execution_time: u64,
    /// Waiting time, all terminated processes together.
    pub total_waiting_time: u64,
    /// The queue depths sampled so far, oldest first.
    pub queue_depth_samples: Vec<[usize; 4]>,
    /// When the statistics were started or last reset.
    pub start_time: std::time::Instant,
}

/// What a [`SchedulerStats`] has counted: everything but the moment at which
/// the counting started.
pub struct StatsModel {
    pub metrics: Map<u32, ProcessMetrics>,
    pub total_context_switches: u64,
    pub total_ticks: u64,
    pub processes_created: u32,
    pub processes_terminated: u32,
    pub total_execution_time: u64,
    pub total_waiting_time: u64,
    pub samples: Seq<[usize; 4]>,
}

impl StatsModel {
    /// Nothing enrolled, nothing counted, nothing sampled.
    pub open spec fn initial() -> Self {
        StatsModel {
            metrics: Map::empty(),
            total_context_switches: 0,
            total_ticks: 0,
            processes_created: 0,
            processes_terminated: 0,
            total_execution_time: 0,
            total_waiting_time: 0,
            samples: Seq::empty(),
        }
    }

    /// `pid` has a record.
    pub open spec fn enrolled(self, pid: u32) -> bool {
        self.metrics.contains_key(pid)
    }

    /// The statistics after `pid` was enrolled: it has a zeroed record, which
    /// replaces any that it had, and one more process counts as created.
    pub open spec fn created(self, pid: u32) -> Self {
        StatsModel {
            metrics: self.metrics.insert(pid, ProcessMetrics::zeroed(pid)),
            processes_created: (self.processes_created + 1) as u32,
            ..self
        }
    }

    /// The statistics after one context switch of `pid`: one more for the
    /// record and for the system if `pid` is enrolled, and no change if not.
    pub open spec fn switched(self, pid: u32) -> Self {
        if self.enrolled(pid) {
            StatsModel {
                metrics: self.metrics.insert(
                    pid,
                    ProcessMetrics {
                        context_switches: (self.metrics[pid].context_switches + 1) as u32,
                        ..self.metrics[pid]
                    },
                ),
                total_context_switches: (self.total_context_switches + 1) as u64,
                ..self
            }
        } else {
            self
        }
    }

    /// The statistics after one queue change of `pid`: one more for the
    /// record if `pid` is enrolled, and no change if not.
    pub open spec fn queue_changed(self, pid: u32) -> Self {
        if self.enrolled(pid) {
            StatsModel {
                metrics: self.metrics.insert(
                    pid,
                    ProcessMetrics {
                        queue_changes: (self.metrics[pid].queue_changes + 1) as u32,
                        ..self.metrics[pid]
                    },
                ),
                ..self
            }
        } else {
            self
        }
    }

    /// The statistics after `pid` ran for `time`: that much more execution
    /// time for the record and for the system if `pid` is enrolled, and no
    /// change if not.
    pub open spec fn executed(self, pid: u32, time: u64) -> Self {
        if self.enrolled(pid) {
            StatsModel {
                metrics: self.metrics.insert(
                    pid,
                    ProcessMetrics {
                        execution_time: (self.metrics[pid].execution_time + time) as u64,
                        ..self.metrics[pid]
                    },
                ),
                total_execution_time: (self.total_execution_time + time) as u64,
                ..self
            }
        } else {
            self
        }
    }

    /// The statistics after `pid` terminated: its record is finalized, its
    /// waiting time joins the total and one more termination is counted, if
    /// `pid` is enrolled; no change if not.
    pub open spec fn terminated(self, pid: u32, turnaround: u64, response: u64) -> Self {
        if self.enrolled(pid) {
            StatsModel {
                metrics: self.metrics.insert(
                    pid,
                    self.metrics[pid].finalized(turnaround, response),
                ),
                processes_terminated: (self.processes_terminated + 1) as u32,
                total_waiting_time: (self.total_waiting_time + waiting_of(
                    turnaround,
                    self.metrics[pid].execution_time,
                )) as u64,
                ..self
            }
        } else {
            self
        }
    }

    /// The statistics after one more sample of the queue depths.
    pub open spec fn sampled(self, depths: [usize; 4]) -> Self {
        StatsModel { samples: self.samples.push(depths), ..self }
    }

    /// The statistics after one more tick.
    pub open spec fn ticked(self) -> Self {
        StatsModel { total_ticks: (self.total_ticks + 1) as u64, ..self }
    }

    /// One more context switch of `pid` can be counted: neither the counter
    /// of the system nor that of the record is at its limit.
    pub open spec fn room_for_switch(self, pid: u32) -> bool {
        self.enrolled(pid) ==> self.total_context_switches < u64::MAX
            && self.metrics[pid].context_switches < u32::MAX
    }

    /// One more queue change of `pid` can be counted.
    pub open spec fn room_for_queue_change(self, pid: u32) -> bool {
        self.enrolled(pid) ==> self.metrics[pid].queue_changes < u32::MAX
    }

    /// `time` more of execution can be added for `pid`: neither the total
    /// of the system nor that of the record passes its limit.
    pub open spec fn room_for_execution(self, pid: u32, time: u64) -> bool {
        self.enrolled(pid) ==> self.total_execution_time + time <= u64::MAX
            && self.metrics[pid].execution_time + time <= u64::MAX
    }

    /// The termination of `pid` with the given turnaround can be counted:
    /// the counter of terminations is not at its limit and the waiting time
    /// fits the total.
    pub open spec fn room_for_termination(self, pid: u32, turnaround: u64) -> bool {
        self.enrolled(pid) ==> self.processes_terminated < u32::MAX && self.total_waiting_time
            + waiting_of(turnaround, self.metrics[pid].execution_time) <= u64::MAX
    }

    /// The turnaround times of all records, added up.
    pub open spec fn turnaround_total(self) -> nat {
        sum_over(self.metrics, self.metrics.dom(), turnaround_of(), id_space())
    }

    /// The response times of all records, added up.
    pub open spec fn response_total(self) -> nat {
        sum_over(self.metrics, self.metrics.dom(), response_of(), id_space())
    }

    /// The depths of queue `queue` in all samples, added up.
    pub open spec fn depth_total(self, queue: int) -> nat {
        depth_sum(self.samples, queue)
    }

    /// Average turnaround time: the turnaround times of all records over
    /// the number of terminations.
    pub open spec fn turnaround_average(self) -> (nat, nat) {
        average_of(self.turnaround_total(), self.processes_terminated as nat)
    }

    /// Average response time: the response times of all records over the
    /// number of terminations.
    pub open spec fn response_average(self) -> (nat, nat) {
        average_of(self.response_total(), self.processes_terminated as nat)
    }

    /// Average waiting time: the total waiting time over the number of
    /// terminations.
    pub open spec fn waiting_average(self) -> (nat, nat) {
        average_of(self.total_waiting_time as nat, self.processes_terminated as nat)
    }

    /// Execution time per tick.
    pub open spec fn execution_per_tick(self) -> (nat, nat) {
        average_of(self.total_execution_time as nat, self.total_ticks as nat)
    }

    /// Context switches per tick.
    pub open spec fn switches_per_tick(self) -> (nat, nat) {
        average_of(self.total_context_switches as nat, self.total_ticks as nat)
    }

    /// Average depth of queue `queue`: its depths in all samples over the
    /// number of samples.
    pub open spec fn depth_average(self, queue: int) -> (nat, nat) {
        average_of(self.depth_total(queue), self.samples.len())
    }
}

/// The quotient `total / count` as dividend and divisor, and `0 / 1` where
/// the count is zero: an average over nothing is zero.
pub open spec fn average_of(total: nat, count: nat) -> (nat, nat) {
    if count == 0 {
        (0, 1)
    } else {
        (total, count)
    }
}

/// A quotient of two counts, kept exact. The divisor is never zero.
#[derive(Debug, Clone, Copy, PartialEq, Eq, Structural)]
pub struct Quotient {
    pub dividend: u128,
    pub divisor: u64,
}

impl View for Quotient {
    type V = (nat, nat);

    open spec fn view(&self) -> (nat, nat) {
        (self.dividend as nat, self.divisor as nat)
    }
}

/// The average `total / count`, zero where the count is zero.
fn average(total: u128, count: u64) -> (quotient: Quotient)
    ensures
        quotient@ == average_of(total as nat, count as nat),
        quotient.divisor > 0,
{
    if count == 0 {
        Quotient { dividend: 0, divisor: 1 }
    } else {
        Quotient { dividend: total, divisor: count }
    }
}

/// The number of identifiers there are: they run from 0 to `u32::MAX`.
pub open spec fn id_space() -> nat {
    0x1_0000_0000
}

/// The turnaround time of a record.
pub open spec fn turnaround_of() -> spec_fn(ProcessMetrics) -> nat {
    |m: ProcessMetrics| m.turnaround_time as nat
}

/// The response time of a record.
pub open spec fn response_of() -> spec_fn(ProcessMetrics) -> nat {
    |m: ProcessMetrics| m.response_time as nat
}

/// The sum of `field` over the records whose identifier is in `ids` and
/// below `bound`.
pub open spec fn sum_over(
    metrics: Map<u32, ProcessMetrics>,
    ids: Set<u32>,
    field: spec_fn(ProcessMetrics) -> nat,
    bound: nat,
) -> nat
    decreases bound,
{
    if bound == 0 {
        0
    } else {
        let id = (bound - 1) as u32;
        sum_over(metrics, ids, field, (bound - 1) as nat) + if ids.contains(id) {
            field(metrics[id])
        } else {
            0
        }
    }
}

/// The sum of `field` over the records of the identifiers that `ids` lists.
pub open spec fn sum_along(
    metrics: Map<u32, ProcessMetrics>,
    ids: Seq<u32>,
    field: spec_fn(ProcessMetrics) -> nat,
) -> nat
    decreases ids.len(),
{
    if ids.len() == 0 {
        0
    } else {
        sum_along(metrics, ids.drop_last(), field) + field(metrics[ids.last()])
    }
}

/// The depths of queue `queue` in `samples`, added up.
pub open spec fn depth_sum(samples: Seq<[usize; 4]>, queue: int) -> nat
    decreases samples.len(),
{
    if samples.len() == 0 {
        0
    } else {
        depth_sum(samples.drop_last(), queue) + samples.last()[queue] as nat
    }
}

/// One more identifier in the set adds its record to the sum.
proof fn lemma_sum_over_insert(
    metrics: Map<u32, ProcessMetrics>,
    ids: Set<u32>,
    field: spec_fn(ProcessMetrics) -> nat,
    bound: nat,
    id: u32,
)
    requires
        !ids.contains(id),
        bound <= id_space(),
    ensures
        sum_over(metrics, ids.insert(id), field, bound) == sum_over(metrics, ids, field, bound)
            + if id < bound {
            field(metrics[id])
        } else {
            0
        },
    decreases bound,
{
    if bound > 0 {
        lemma_sum_over_insert(metrics, ids, field, (bound - 1) as nat, id);
    }
}

/// Over no identifiers the sum is zero.
proof fn lemma_sum_over_nothing(
    metrics: Map<u32, ProcessMetrics>,
    field: spec_fn(ProcessMetrics) -> nat,
    bound: nat,
)
    ensures
        sum_over(metrics, Set::empty(), field, bound) == 0,
    decreases bound,
{
    if bound > 0 {
        lemma_sum_over_nothing(metrics, field, (bound - 1) as nat);
    }
}

/// The order in which the identifiers are listed does not matter: a list
/// without repetitions adds up to the sum over the set that it lists.
pub proof fn lemma_sum_along_any_order(
    metrics: Map<u32, ProcessMetrics>,
    ids: Seq<u32>,
    field: spec_fn(ProcessMetrics) -> nat,
)
    requires
        ids.no_duplicates(),
    ensures
        sum_along(metrics, ids, field) == sum_over(metrics, ids.to_set(), field, id_space()),
    decreases ids.len(),
{
    if ids.len() == 0 {
        assert(ids.to_set() =~= Set::<u32>::empty());
        lemma_sum_over_nothing(metrics, field, id_space());
    } else {
        let rest = ids.drop_last();
        let id = ids.last();
        lemma_sum_along_any_order(metrics, rest, field);
        assert(ids.to_set() =~= rest.to_set().insert(id)) by {
            assert forall|x: u32| ids.to_set().contains(x) <==> rest.to_set().insert(id).contains(
                x,
            ) by {
                if ids.contains(x) {
                    let i = choose|i: int| 0 <= i < ids.len() && ids[i] == x;
                    if i < rest.len() {
                        assert(rest[i] == x);
                    }
                }
            }
        }
        lemma_sum_over_insert(metrics, rest.to_set(), field, id_space(), id);
    }
}

impl View for SchedulerStats {
    type V = StatsModel;

    open spec fn view(&self) -> StatsModel {
        StatsModel {
            metrics: self.process_metrics@,
            total_context_switches: self.total_context_switches,
            total_ticks: self.total_ticks,
            processes_created: self.processes_created,
            processes_terminated: self.processes_terminated,
            total_execution_time: self.total_execution_time,
            total_waiting_time: self.total_waiting_time,
            samples: self.queue_depth_samples@,
        }
    }
}

/// The identifiers that have a record, each once, in no particular order.
fn enrolled_ids(table: &HashMap<u32, ProcessMetrics>) -> (ids: Vec<u32>)
    ensures
        ids@.no_duplicates(),
        ids@.to_set() == table@.dom(),
{
    let ghost listed = spec_keys_iter(table).remaining().unref();
    let mut ids: Vec<u32> = Vec::new();
    for id in it: table.keys()
        invariant
            it.seq().unref() == listed,
            ids@ == listed.take(it.index()),
    {
        ids.push(*id);
    }
    assert(listed.take(listed.len() as int) == listed);
    ids
}

/// Looks up the record of `pid` for writing.
fn record_mut(table: &mut HashMap<u32, ProcessMetrics>, pid: u32) -> (found: Option<
    &mut ProcessMetrics,
>)
    ensures
        match found {
            Some(metrics) => old(table)@.contains_key(pid) && *metrics == old(table)@[pid]
                && final(table)@ == old(table)@.insert(pid, *final(metrics)),
            None => !old(table)@.contains_key(pid) && final(table)@ == old(table)@,
        },
{
    match table.entry(pid) {
        Entry::Occupied(entry) => Some(entry.into_mut()),
        Entry::Vacant(_) => None,
    }
}

impl SchedulerStats {
    /// Statistics with nothing counted, started now.
    pub fn new() -> (stats: Self)
        ensures
            stats@ == StatsModel::initial(),
    {
        SchedulerStats {
            process_metrics: HashMap::new(),
            total_context_switches: 0,
            total_ticks: 0,
            processes_created: 0,
            processes_terminated: 0,
            total_execution_time: 0,
            total_waiting_time: 0,
            queue_depth_samples: Vec::new(),
            start_time: instant_now(),
        }
    }

    /// Enrols `pid` with a zeroed record and counts one more process
    /// created. A record that `pid` had before is replaced.
    pub fn record_process_created(&mut self, pid: u32)
        requires
            old(self).processes_created < u32::MAX,
        ensures
            final(self)@ == old(self)@.created(pid),
            final(self).start_time == old(self).start_time,
    {
        self.processes_created += 1;
        self.process_metrics.insert(pid, ProcessMetrics::new(pid));
    }

    /// Counts one context switch for `pid` and for the system. A `pid` that
    /// is not enrolled changes nothing.
    pub fn record_context_switch(&mut self, pid: u32)
        requires
            old(self)@.room_for_switch(pid),
        ensures
            final(self)@ == old(self)@.switched(pid),
            final(self).start_time == old(self).start_time,
    {
        if let Some(metrics) = record_mut(&mut self.process_metrics, pid) {
            metrics.context_switches += 1;
            self.total_context_switches += 1;
        }
    }

    /// Counts one queue change for `pid`. A `pid` that is not enrolled
    /// changes nothing.
    pub fn record_queue_change(&mut self, pid: u32)
        requires
            old(self)@.room_for_queue_change(pid),
        ensures
            final(self)@ == old(self)@.queue_changed(pid),
            final(self).start_time == old(self).start_time,
    {
        if let Some(metrics) = record_mut(&mut self.process_metrics, pid) {
            metrics.queue_changes += 1;
        }
    }

    /// Adds `time` to the execution time of `pid` and of the system. A `pid`
    /// that is not enrolled changes nothing.
    pub fn record_execution_time(&mut self, pid: u32, time: u64)
        requires
            old(self)@.room_for_execution(pid, time),
        ensures
            final(self)@ == old(self)@.executed(pid, time),
            final(self).start_time == old(self).start_time,
    {
        if let Some(metrics) = record_mut(&mut self.process_metrics, pid) {
            metrics.execution_time += time;
            self.total_execution_time += time;
        }
    }

    /// Records that `pid` terminated with the given turnaround and response
    /// times. The record stores both as given, its waiting time becomes the
    /// turnaround less the execution time measured, or zero where that would
    /// be negative; the waiting time joins the system total and one more
    /// termination is counted. A second call for the same `pid` overwrites
    /// the three times of the record. A `pid` that is not enrolled changes
    /// nothing.
    pub fn record_process_terminated(&mut self, pid: u32, turnaround: u64, response: u64)
        requires
            old(self)@.room_for_termination(pid, turnaround),
        ensures
            final(self)@ == old(self)@.terminated(pid, turnaround, response),
            old(self)@.enrolled(pid) ==> final(self)@.metrics[pid].waiting_time == waiting_of(
                turnaround,
                old(self)@.metrics[pid].execution_time,
            ) && 0 <= final(self)@.metrics[pid].waiting_time <= turnaround,
            final(self).start_time == old(self).start_time,
    {
        if let Some(metrics) = record_mut(&mut self.process_metrics, pid) {
            metrics.turnaround_time = turnaround;
            metrics.response_time = response;
            metrics.waiting_time = turnaround.saturating_sub(metrics.execution_time);
            self.total_waiting_time += metrics.waiting_time;
            self.processes_terminated += 1;
        }
    }

    /// Appends one sample of the four queue depths.
    pub fn sample_queue_depths(&mut self, depths: [usize; 4])
        ensures
            final(self)@ == old(self)@.sampled(depths),
            final(self).start_time == old(self).start_time,
    {
        self.queue_depth_samples.push(depths);
    }

    /// Counts one tick.
    pub fn record_tick(&mut self)
        requires
            old(self).total_ticks < u64::MAX,
        ensures
            final(self)@ == old(self)@.ticked(),
            final(self).start_time == old(self).start_time,
    {
        self.total_ticks += 1;
    }

    /// The record of `pid`, if it is enrolled.
    pub fn get_process_metrics(&self, pid: u32) -> (found: Option<&ProcessMetrics>)
        ensures
            match found {
                Some(metrics) => self@.enrolled(pid) && *metrics == self@.metrics[pid],
                None => !self@.enrolled(pid),
            },
    {
        self.process_metrics.get(&pid)
    }

    /// Whether [`SchedulerStats::record_context_switch`] can count one more
    /// switch of `pid`.
    pub fn can_record_context_switch(&self, pid: u32) -> (room: bool)
        ensures
            room == self@.room_for_switch(pid),
    {
        match self.process_metrics.get(&pid) {
            Some(metrics) => self.total_context_switches < u64::MAX && metrics.context_switches
                < u32::MAX,
            None => true,
        }
    }

    /// Whether [`SchedulerStats::record_queue_change`] can count one more
    /// queue change of `pid`.
    pub fn can_record_queue_change(&self, pid: u32) -> (room: bool)
        ensures
            room == self@.room_for_queue_change(pid),
    {
        match self.process_metrics.get(&pid) {
            Some(metrics) => metrics.queue_changes < u32::MAX,
            None => true,
        }
    }

    /// Whether [`SchedulerStats::record_execution_time`] can add `time` for
    /// `pid`.
    pub fn can_record_execution_time(&self, pid: u32, time: u64) -> (room: bool)
        ensures
            room == self@.room_for_execution(pid, time),
    {
        match self.process_metrics.get(&pid) {
            Some(metrics) => time <= u64::MAX - self.total_execution_time && time <= u64::MAX
                - metrics.execution_time,
            None => true,
        }
    }

    /// Whether [`SchedulerStats::record_process_terminated`] can count the
    /// termination of `pid` with the given turnaround.
    pub fn can_record_process_terminated(&self, pid: u32, turnaround: u64) -> (room: bool)
        ensures
            room == self@.room_for_termination(pid, turnaround),
    {
        match self.process_metrics.get(&pid) {
            Some(metrics) => self.processes_terminated < u32::MAX && turnaround.saturating_sub(
                metrics.execution_time,
            ) <= u64::MAX - self.total_waiting_time,
            None => true,
        }
    }

    /// The turnaround times of all records, added up. The record of a
    /// process that has not terminated holds zero and adds nothing.
    pub fn total_turnaround_time(&self) -> (total: u128)
        ensures
            total == self@.turnaround_total(),
    {
        let ids = enrolled_ids(&self.process_metrics);
        let mut total: u128 = 0;
        let mut i: usize = 0;
        while i < ids.len()
            invariant
                i <= ids@.len(),
                ids@.to_set() == self@.metrics.dom(),
                total == sum_along(self@.metrics, ids@.take(i as int), turnaround_of()),
                total <= i * u64::MAX,
            decreases ids@.len() - i,
        {
            proof {
                assert(ids@.take(i + 1).drop_last() == ids@.take(i as int));
            }
            if let Some(metrics) = self.process_metrics.get(&ids[i]) {
                if metrics.turnaround_time > 0 {
                    total += metrics.turnaround_time as u128;
                }
            }
            i += 1;
        }
        proof {
            assert(ids@.take(i as int) == ids@);
            lemma_sum_along_any_order(self@.metrics, ids@, turnaround_of());
        }
        total
    }

    /// The response times of all records, added up.
    pub fn total_response_time(&self) -> (total: u128)
        ensures
            total == self@.response_total(),
    {
        let ids = enrolled_ids(&self.process_metrics);
        let mut total: u128 = 0;
        let mut i: usize = 0;
        while i < ids.len()
            invariant
                i <= ids@.len(),
                ids@.to_set() == self@.metrics.dom(),
                total == sum_along(self@.metrics, ids@.take(i as int), response_of()),
                total <= i * u64::MAX,
            decreases ids@.len() - i,
        {
            proof {
                assert(ids@.take(i + 1).drop_last() == ids@.take(i as int));
            }
            if let Some(metrics) = self.process_metrics.get(&ids[i]) {
                if metrics.response_time > 0 {
                    total += metrics.response_time as u128;
                }
            }
            i += 1;
        }
        proof {
            assert(ids@.take(i as int) == ids@);
            lemma_sum_along_any_order(self@.metrics, ids@, response_of());
        }
        total
    }

    /// The depths of queue `queue_idx` in all samples, added up. Where
    /// there are samples, `queue_idx` must be one of the four queues.
    pub fn total_queue_depth(&self, queue_idx: usize) -> (total: u128)
        requires
            queue_idx < 4 || self@.samples.len() == 0,
        ensures
            total == self@.depth_total(queue_idx as int),
    {
        let mut total: u128 = 0;
        let mut i: usize = 0;
        while i < self.queue_depth_samples.len()
            invariant
                queue_idx < 4 || self.queue_depth_samples@.len() == 0,
                i <= self.queue_depth_samples@.len(),
                total == depth_sum(self.queue_depth_samples@.take(i as int), queue_idx as int),
                total <= i * u64::MAX,
            decreases self.queue_depth_samples@.len() - i,
        {
            proof {
                assert(self.queue_depth_samples@.take(i + 1).drop_last()
                    == self.queue_depth_samples@.take(i as int));
            }
            total += self.queue_depth_samples[i][queue_idx] as u128;
            i += 1;
        }
        proof {
            assert(self.queue_depth_samples@.take(i as int) == self.queue_depth_samples@);
        }
        total
    }

    /// Average turnaround time over the terminated processes, zero if none
    /// has terminated.
    pub fn turnaround_average(&self) -> (quotient: Quotient)
        ensures
            quotient@ == self@.turnaround_average(),
            quotient.divisor > 0,
    {
        average(self.total_turnaround_time(), self.processes_terminated as u64)
    }

    /// Average response time over the terminated processes, zero if none
    /// has terminated.
    pub fn response_average(&self) -> (quotient: Quotient)
        ensures
            quotient@ == self@.response_average(),
            quotient.divisor > 0,
    {
        average(self.total_response_time(), self.processes_terminated as u64)
    }

    /// Average waiting time over the terminated processes, zero if none has
    /// terminated.
    pub fn waiting_average(&self) -> (quotient: Quotient)
        ensures
            quotient@ == self@.waiting_average(),
            quotient.divisor > 0,
    {
        average(self.total_waiting_time as u128, self.processes_terminated as u64)
    }

    /// Execution time per tick, zero if no tick was counted. Processor
    /// utilization in percent is a hundred times this.
    pub fn execution_per_tick(&self) -> (quotient: Quotient)
        ensures
            quotient@ == self@.execution_per_tick(),
            quotient.divisor > 0,
    {
        average(self.total_execution_time as u128, self.total_ticks)
    }

    /// Context switches per tick, zero if no tick was counted.
    pub fn switches_per_tick(&self) -> (quotient: Quotient)
        ensures
            quotient@ == self@.switches_per_tick(),
            quotient.divisor > 0,
    {
        average(self.total_context_switches as u128, self.total_ticks)
    }

    /// Average sampled depth of queue `queue_idx`, zero if there is no
    /// sample. Where there are samples, `queue_idx` must be one of the four
    /// queues.
    pub fn depth_average(&self, queue_idx: usize) -> (quotient: Quotient)
        requires
            queue_idx < 4 || self@.samples.len() == 0,
        ensures
            quotient@ == self@.depth_average(queue_idx as int),
            quotient.divisor > 0,
    {
        average(self.total_queue_depth(queue_idx), self.queue_depth_samples.len() as u64)
    }

    /// Forgets every record, count and sample, and starts anew now.
    pub fn reset(&mut self)
        ensures
            final(self)@ == StatsModel::initial(),
    {
        self.process_metrics.clear();
        self.total_context_switches = 0;
        self.total_ticks = 0;
        self.processes_created = 0;
        self.processes_terminated = 0;
        self.total_execution_time = 0;
        self.total_waiting_time = 0;
        self.queue_depth_samples.clear();
        self.start_time = instant_now();
    }
}

impl Clone for SchedulerStats {
    /// Statistics with the same counts, records and samples, started at the
    /// same moment.
    fn clone(&self) -> (copy: Self)
        ensures
            copy@ == self@,
            copy.start_time == self.start_time,
    {
        let mut samples: Vec<[usize; 4]> = Vec::new();
        let mut i: usize = 0;
        while i < self.queue_depth_samples.len()
            invariant
                i <= self.queue_depth_samples.len(),
                samples@ == self.queue_depth_samples@.take(i as int),
            decreases self.queue_depth_samples.len() - i,
        {
            samples.push(self.queue_depth_samples[i]);
            i += 1;
        }
        assert(self.queue_depth_samples@.take(i as int) == self.queue_depth_samples@);
        SchedulerStats {
            process_metrics: self.process_metrics.clone(),
            total_context_switches: self.total_context_switches,
            total_ticks: self.total_ticks,
            processes_created: self.processes_created,
            processes_terminated: self.processes_terminated,
            total_execution_time: self.total_execution_time,
            total_waiting_time: self.total_waiting_time,
            queue_depth_samples: samples,
            start_time: self.start_time,
        }
    }
}

impl Default for SchedulerStats {
    fn default() -> (stats: Self)
        ensures
            stats@ == StatsModel::initial(),
    {
        Self::new()
    }
}

} // verus!
