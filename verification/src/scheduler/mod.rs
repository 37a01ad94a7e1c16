//! The multi-level feedback queue scheduler.
//!
//! Four FIFO queues of process identifiers, a reverse index from identifier
//! to queue number, fixed time quanta per queue, and a periodic boost that
//! bounds starvation. The scheduler knows identifiers only, never processes.

pub mod laws;
pub mod metrics;
pub mod model;
pub mod programs;

pub use metrics::ProcessMetrics;
pub use metrics::SchedulerStats;

use std::collections::HashMap;
use std::collections::VecDeque;
use vstd::prelude::*;

use laws::lemma_advance_wf;
use laws::lemma_boost_wf;
use laws::lemma_enqueue_wf;
use laws::lemma_retire_wf;
use laws::lemma_take_choice_wf;
use model::agrees;
use model::index_boosted;
use model::lemma_without_absent;
use model::quantum_of;
use model::queues_boosted;
use model::queues_with;
use model::queues_without;
use model::ready_level;
use model::without;
use model::SchedulerState;
use model::LEVELS;
use model::LOWEST_LEVEL;

verus! {

/// Multi-level feedback queue scheduler.
///
/// Its state is the [`SchedulerState`] that `@` gives; every operation is one
/// transition of that model, and every state is well formed.
#[derive(Debug)]
pub struct MLFQScheduler {
    queues: [VecDeque<u32>; 4],
    time_quantums: [u32; 4],
    process_queue_map: HashMap<u32, usize>,
    boost_interval: u32,
    current_ticks: u32,
    current_pid: Option<u32>,
    time_remaining: u32,
}

/// The contents of the four queues, highest priority first.
spec fn contents(queues: [VecDeque<u32>; 4]) -> Seq<Seq<u32>> {
    Seq::new(LEVELS as nat, |n: int| queues[n]@)
}

/// The quantum table holds the quantum of each level.
spec fn quanta_fixed(quanta: [u32; 4]) -> bool {
    forall|n: int| 0 <= n < LEVELS ==> #[trigger] quanta[n] == quantum_of(n)
}

/// Deletes every occurrence of `pid` from one queue, keeping the order of the rest.
fn delete_from(queue: &mut VecDeque<u32>, pid: u32)
    ensures
        final(queue)@ == without(old(queue)@, pid),
{
    let ghost start = queue@;
    let n = queue.len();
    let mut i: usize = 0;
    while i < n
        invariant
            i <= n,
            n == start.len(),
            queue@ == start.skip(i as int) + without(start.take(i as int), pid),
        decreases n - i,
    {
        let head = queue.pop_front();
        if let Some(p) = head {
            if p != pid {
                queue.push_back(p);
            }
        }
        proof {
            let prefix = start.take(i as int + 1);
            assert(prefix.drop_last() == start.take(i as int));
        }
        i += 1;
    }
}

/// Moves `pid` to the tail of queue `level`, from wherever it waits.
fn place(
    queues: &mut [VecDeque<u32>; 4],
    index: &mut HashMap<u32, usize>,
    pid: u32,
    level: usize,
)
    requires
        level < LEVELS,
        agrees(contents(*old(queues)), old(index)@),
    ensures
        contents(*final(queues)) == queues_with(
            queues_without(contents(*old(queues)), pid),
            level as int,
            pid,
        ),
        final(index)@ == old(index)@.insert(pid, level),
{
    detach(queues, index, pid);
    queues[level].push_back(pid);
    index.insert(pid, level);
}

/// Deletes `pid` from the reverse index and from the queue that holds it.
fn detach(queues: &mut [VecDeque<u32>; 4], index: &mut HashMap<u32, usize>, pid: u32)
    requires
        agrees(contents(*old(queues)), old(index)@),
    ensures
        contents(*final(queues)) == queues_without(contents(*old(queues)), pid),
        final(index)@ == old(index)@.remove(pid),
{
    let ghost before = contents(*queues);
    let found = index.remove(&pid);
    if let Some(level) = found {
        delete_from(&mut queues[level], pid);
        proof {
            assert forall|n: int| 0 <= n < LEVELS implies #[trigger] contents(*queues)[n]
                == without(before[n], pid) by {
                if n != level {
                    lemma_without_absent(before[n], pid);
                }
            }
        }
    } else {
        proof {
            assert forall|n: int| 0 <= n < LEVELS implies #[trigger] contents(*queues)[n]
                == without(before[n], pid) by {
                lemma_without_absent(before[n], pid);
            }
        }
    }
}

/// The first `upto` queues laid end to end.
spec fn merged(queues: Seq<Seq<u32>>, upto: int) -> Seq<u32>
    decreases upto,
{
    if upto <= 0 {
        Seq::empty()
    } else {
        merged(queues, upto - 1) + queues[upto - 1]
    }
}

/// The reverse index in which every identifier of `top` is at level 0 and
/// every other entry is as in `index`.
spec fn lifted(index: Map<u32, usize>, top: Seq<u32>) -> Map<u32, usize> {
    Map::new(
        |id: u32| index.contains_key(id),
        |id: u32|
            if top.contains(id) {
                0usize
            } else {
                index[id]
            },
    )
}

/// Moves every identifier of queues 1, 2 and 3 to the tail of queue 0, queue
/// by queue and head first, and indexes each at level 0.
fn lift_all(queues: &mut [VecDeque<u32>; 4], index: &mut HashMap<u32, usize>)
    requires
        agrees(contents(*old(queues)), old(index)@),
    ensures
        contents(*final(queues)) == queues_boosted(contents(*old(queues))),
        final(index)@ == index_boosted(contents(*old(queues)), old(index)@),
{
    let ghost q = contents(*queues);
    let ghost idx = index@;
    proof {
        assert(merged(q, 1) == q[0]) by {
            reveal_with_fuel(merged, 2);
        }
    }
    let mut level: usize = 1;
    while level < 4
        invariant
            1 <= level <= 4,
            agrees(q, idx),
            queues[0]@ == merged(q, level as int),
            forall|n: int| 1 <= n < level ==> (#[trigger] queues[n])@ == Seq::<u32>::empty(),
            forall|n: int| level <= n < LEVELS ==> (#[trigger] queues[n])@ == q[n],
            index@ == lifted(idx, queues[0]@),
        decreases 4 - level,
    {
        let ghost moved = 0int;
        loop
            invariant
                1 <= level < 4,
                agrees(q, idx),
                0 <= moved <= q[level as int].len(),
                queues[0]@ == merged(q, level as int) + q[level as int].take(moved),
                queues[level as int]@ == q[level as int].skip(moved),
                forall|n: int| 1 <= n < level ==> (#[trigger] queues[n])@ == Seq::<u32>::empty(),
                forall|n: int| level < n < LEVELS ==> (#[trigger] queues[n])@ == q[n],
                index@ == lifted(idx, queues[0]@),
            ensures
                queues[0]@ == merged(q, level as int + 1),
                forall|n: int| 1 <= n <= level ==> (#[trigger] queues[n])@ == Seq::<u32>::empty(),
                forall|n: int| level < n < LEVELS ==> (#[trigger] queues[n])@ == q[n],
                index@ == lifted(idx, queues[0]@),
            decreases q[level as int].len() - moved,
        {
            let ghost top = queues[0]@;
            let head = queues[level].pop_front();
            match head {
                Some(pid) => {
                    queues[0].push_back(pid);
                    index.insert(pid, 0);
                    proof {
                        assert(index@ =~= lifted(idx, top.push(pid))) by {
                            assert forall|id: u32| top.push(pid).contains(id) <==> (top.contains(id)
                                || id == pid) by {
                                if top.contains(id) {
                                    let i = choose|i: int| 0 <= i < top.len() && top[i] == id;
                                    assert(top.push(pid)[i] == id);
                                }
                                if id == pid {
                                    assert(top.push(pid)[top.len() as int] == id);
                                }
                            }
                        }
                        moved = moved + 1;
                    }
                },
                None => {
                    break ;
                },
            }
        }
        level += 1;
    }
    proof {
        reveal_with_fuel(merged, 5);
    }
}

/// Takes the head of the first queue that is not empty.
fn pop_ready(queues: &mut [VecDeque<u32>; 4]) -> (popped: Option<(usize, u32)>)
    ensures
        match ready_level(contents(*old(queues))) {
            Some(level) => popped == Some((level as usize, contents(*old(queues))[level][0]))
                && contents(*final(queues)) == contents(*old(queues)).update(
                level,
                contents(*old(queues))[level].drop_first(),
            ),
            None => popped is None && contents(*final(queues)) == contents(*old(queues)),
        },
{
    let ghost before = contents(*queues);
    let mut level: usize = 0;
    while level < 4
        invariant
            level <= 4,
            before == contents(*old(queues)),
            forall|n: int| 0 <= n < LEVELS ==> (#[trigger] queues[n])@ == before[n],
            forall|n: int| 0 <= n < level ==> (#[trigger] before[n]).len() == 0,
        decreases 4 - level,
    {
        let head = queues[level].pop_front();
        if let Some(pid) = head {
            return Some((level, pid));
        }
        level += 1;
    }
    None
}

/// Four empty queues.
fn empty_queues() -> (queues: [VecDeque<u32>; 4])
    ensures
        contents(queues) == SchedulerState::initial().queues,
{
    let queues = [VecDeque::new(), VecDeque::new(), VecDeque::new(), VecDeque::new()];
    queues
}

impl View for MLFQScheduler {
    type V = SchedulerState;

    closed spec fn view(&self) -> SchedulerState {
        SchedulerState {
            queues: contents(self.queues),
            index: self.process_queue_map@,
            boost_interval: self.boost_interval,
            ticks: self.current_ticks,
            current: self.current_pid,
            remaining: self.time_remaining,
        }
    }
}

impl MLFQScheduler {
    #[verifier::type_invariant]
    spec fn inv(self) -> bool {
        &&& self@.wf()
        &&& quanta_fixed(self.time_quantums)
    }

    /// A scheduler with four empty queues, a boost every 100 ticks and the
    /// tick counter at zero.
    pub fn new() -> (scheduler: Self)
        ensures
            scheduler@ == SchedulerState::initial(),
            scheduler@.wf(),
    {
        MLFQScheduler {
            queues: empty_queues(),
            time_quantums: [8, 16, 32, 64],
            process_queue_map: HashMap::new(),
            boost_interval: 100,
            current_ticks: 0,
            current_pid: None,
            time_remaining: 0,
        }
    }

    /// Enqueues `pid` at the lowest priority. If it is tracked already it
    /// leaves its queue first, so that it never waits twice.
    pub fn add_process(&mut self, pid: u32)
        ensures
            final(self)@ == old(self)@.enqueue(pid, LOWEST_LEVEL),
            final(self)@.wf(),
    {
        self.move_process_to_queue(pid, 3);
    }

    /// Enqueues `pid` at the tail of queue `queue`, after taking it out of
    /// the queue that holds it. A queue number above 3 changes nothing.
    pub fn add_process_to_queue(&mut self, pid: u32, queue: usize)
        ensures
            final(self)@ == old(self)@.enqueue(pid, queue),
            final(self)@.wf(),
    {
        self.move_process_to_queue(pid, queue);
    }

    /// Stops tracking `pid`: it leaves its queue and the reverse index. An
    /// identifier that is not tracked changes nothing.
    pub fn remove_process(&mut self, pid: u32)
        ensures
            final(self)@ == old(self)@.retire(pid),
            final(self)@.wf(),
    {
        proof {
            use_type_invariant(&*self);
            lemma_retire_wf(self@, pid);
        }
        let mut queues = empty_queues();
        let mut index = HashMap::new();
        std::mem::swap(&mut self.queues, &mut queues);
        std::mem::swap(&mut self.process_queue_map, &mut index);
        detach(&mut queues, &mut index, pid);
        std::mem::swap(&mut self.process_queue_map, &mut index);
        std::mem::swap(&mut self.queues, &mut queues);
    }

    fn move_process_to_queue(&mut self, pid: u32, new_queue: usize)
        ensures
            final(self)@ == old(self)@.enqueue(pid, new_queue),
            final(self)@.wf(),
    {
        proof {
            use_type_invariant(&*self);
            lemma_enqueue_wf(self@, pid, new_queue);
        }
        if new_queue < 4 {
            let mut queues = empty_queues();
            let mut index = HashMap::new();
            std::mem::swap(&mut self.queues, &mut queues);
            std::mem::swap(&mut self.process_queue_map, &mut index);
            place(&mut queues, &mut index, pid, new_queue);
            std::mem::swap(&mut self.process_queue_map, &mut index);
            std::mem::swap(&mut self.queues, &mut queues);
        }
    }

    fn priority_boost(&mut self)
        ensures
            final(self)@ == old(self)@.boost(),
            final(self)@.wf(),
    {
        proof {
            use_type_invariant(&*self);
            lemma_boost_wf(self@);
        }
        let mut queues = empty_queues();
        let mut index = HashMap::new();
        std::mem::swap(&mut self.queues, &mut queues);
        std::mem::swap(&mut self.process_queue_map, &mut index);
        lift_all(&mut queues, &mut index);
        std::mem::swap(&mut self.process_queue_map, &mut index);
        std::mem::swap(&mut self.queues, &mut queues);
    }

    /// Dispatches the next process. The tick counter advances by one; at a
    /// nonzero multiple of the boost interval every waiting identifier moves
    /// to queue 0 first. Then the head of the lowest-numbered queue that is
    /// not empty leaves it and is returned with the quantum of that queue.
    /// `None` means that nothing is ready.
    pub fn next_process(&mut self) -> (dispatched: Option<(u32, u32)>)
        ensures
            dispatched == old(self)@.dispatch_result(),
            final(self)@ == old(self)@.dispatch(),
            final(self)@.wf(),
    {
        proof {
            use_type_invariant(&*self);
            lemma_advance_wf(self@);
            lemma_take_choice_wf(self@.advance());
        }
        self.current_ticks = self.current_ticks.wrapping_add(1);
        if self.current_ticks > 0 && self.current_ticks % self.boost_interval == 0 {
            self.priority_boost();
        }
        proof {
            use_type_invariant(&*self);
        }
        let mut queues = empty_queues();
        std::mem::swap(&mut self.queues, &mut queues);
        let popped = pop_ready(&mut queues);
        std::mem::swap(&mut self.queues, &mut queues);
        match popped {
            Some((level, pid)) => {
                let quantum = self.time_quantums[level];
                self.current_pid = Some(pid);
                self.time_remaining = quantum;
                Some((pid, quantum))
            },
            None => {
                self.current_pid = None;
                None
            },
        }
    }

    /// What the next dispatch will return, without dispatching: the answer
    /// of [`MLFQScheduler::next_process`] in the present state.
    pub fn peek_next(&self) -> (next: Option<(u32, u32)>)
        ensures
            next == self@.dispatch_result(),
            self@.wf(),
    {
        proof {
            use_type_invariant(self);
        }
        let ticks = self.current_ticks.wrapping_add(1);
        let boost = ticks > 0 && ticks % self.boost_interval == 0;
        let ghost before = self@.queues;
        let ghost after = self@.advance().queues;
        let mut level: usize = 0;
        while level < 4
            invariant
                level <= 4,
                self@.wf(),
                quanta_fixed(self.time_quantums),
                boost == self@.boost_due(),
                before == self@.queues,
                after == self@.advance().queues,
                forall|n: int| 0 <= n < level ==> (#[trigger] before[n]).len() == 0,
            decreases 4 - level,
        {
            if self.queues[level].len() > 0 {
                let pid = self.queues[level][0];
                let quantum = if boost {
                    self.time_quantums[0]
                } else {
                    self.time_quantums[level]
                };
                return Some((pid, quantum));
            }
            level += 1;
        }
        None
    }

    /// Feedback for a process that ran its whole quantum: it joins the tail
    /// of the next lower-priority queue, or of queue 3 again if it is there.
    /// An identifier that is not tracked changes nothing.
    pub fn process_used_full_quantum(&mut self, pid: u32)
        ensures
            final(self)@ == old(self)@.demote(pid),
            final(self)@.wf(),
    {
        if let Some(current_queue) = self.get_process_queue(pid) {
            if current_queue < 3 {
                self.move_process_to_queue(pid, current_queue + 1);
            } else {
                self.move_process_to_queue(pid, 3);
            }
        }
    }

    /// Feedback for a process that gave up the processor early: it joins the
    /// tail of the next higher-priority queue, or of queue 0 again if it is
    /// there. An identifier that is not tracked changes nothing.
    pub fn process_yielded_early(&mut self, pid: u32)
        ensures
            final(self)@ == old(self)@.promote(pid),
            final(self)@.wf(),
    {
        if let Some(current_queue) = self.get_process_queue(pid) {
            if current_queue > 0 {
                self.move_process_to_queue(pid, current_queue - 1);
            } else {
                self.move_process_to_queue(pid, 0);
            }
        }
    }

    /// Takes `ticks` off the running quantum, stopping at zero.
    pub fn tick(&mut self, ticks: u32)
        ensures
            final(self)@ == old(self)@.consume(ticks),
            final(self)@.wf(),
    {
        proof {
            use_type_invariant(&*self);
        }
        self.time_remaining = self.time_remaining.saturating_sub(ticks);
    }

    /// Whether the running quantum is used up.
    pub fn is_quantum_expired(&self) -> (expired: bool)
        ensures
            expired == (self@.remaining == 0),
            self@.wf(),
    {
        proof {
            use_type_invariant(self);
        }
        self.time_remaining == 0
    }

    /// The identifier dispatched last, if any.
    pub fn current_process(&self) -> (current: Option<u32>)
        ensures
            current == self@.current,
            self@.wf(),
    {
        proof {
            use_type_invariant(self);
        }
        self.current_pid
    }

    /// The length of each queue, highest priority first.
    pub fn queue_lengths(&self) -> (lengths: [usize; 4])
        ensures
            self@.wf(),
            forall|n: int| 0 <= n < LEVELS ==> #[trigger] lengths[n] == self@.queues[n].len(),
    {
        proof {
            use_type_invariant(self);
        }
        [self.queues[0].len(), self.queues[1].len(), self.queues[2].len(), self.queues[3].len()]
    }

    /// The queue number under which `pid` is tracked, if it is tracked.
    pub fn get_process_queue(&self, pid: u32) -> (queue: Option<usize>)
        ensures
            self@.wf(),
            queue == self@.level_of(pid),
    {
        proof {
            use_type_invariant(self);
        }
        match self.process_queue_map.get(&pid) {
            Some(level) => Some(*level),
            None => None,
        }
    }

    /// What is left of the running quantum.
    pub fn time_remaining(&self) -> (remaining: u32)
        ensures
            remaining == self@.remaining,
            self@.wf(),
    {
        proof {
            use_type_invariant(self);
        }
        self.time_remaining
    }

    /// The tick counter.
    pub fn current_ticks(&self) -> (ticks: u32)
        ensures
            ticks == self@.ticks,
            self@.wf(),
    {
        proof {
            use_type_invariant(self);
        }
        self.current_ticks
    }

    /// Sets the tick counter, and nothing else.
    pub fn set_current_ticks(&mut self, ticks: u32)
        ensures
            final(self)@ == (SchedulerState { ticks, ..old(self)@ }),
            final(self)@.wf(),
    {
        proof {
            use_type_invariant(&*self);
        }
        self.current_ticks = ticks;
    }

    /// The number of ticks between two boosts.
    pub fn boost_interval(&self) -> (interval: u32)
        ensures
            interval == self@.boost_interval,
            interval > 0,
            self@.wf(),
    {
        proof {
            use_type_invariant(self);
        }
        self.boost_interval
    }

    /// The quantum of each queue, highest priority first.
    pub fn time_quantums(&self) -> (quanta: [u32; 4])
        ensures
            forall|n: int| 0 <= n < LEVELS ==> #[trigger] quanta[n] == quantum_of(n),
            self@.wf(),
    {
        proof {
            use_type_invariant(self);
        }
        self.time_quantums
    }

    /// Empties the queues and the reverse index, clears the current
    /// identifier and sets remaining time and tick counter to zero.
    pub fn reset(&mut self)
        ensures
            final(self)@ == old(self)@.clear(),
            final(self)@.wf(),
    {
        proof {
            use_type_invariant(&*self);
        }
        self.queues = empty_queues();
        let mut index = HashMap::new();
        std::mem::swap(&mut self.process_queue_map, &mut index);
        index.clear();
        std::mem::swap(&mut self.process_queue_map, &mut index);
        self.current_pid = None;
        self.time_remaining = 0;
        self.current_ticks = 0;
    }
}

impl Clone for MLFQScheduler {
    /// A scheduler in the same state.
    fn clone(&self) -> (copy: Self)
        ensures
            copy@ == self@,
            copy@.wf(),
    {
        proof {
            use_type_invariant(self);
        }
        let queues = [
            self.queues[0].clone(),
            self.queues[1].clone(),
            self.queues[2].clone(),
            self.queues[3].clone(),
        ];
        proof {
            assert(contents(queues) =~= contents(self.queues));
        }
        MLFQScheduler {
            queues,
            time_quantums: self.time_quantums,
            process_queue_map: self.process_queue_map.clone(),
            boost_interval: self.boost_interval,
            current_ticks: self.current_ticks,
            current_pid: self.current_pid,
            time_remaining: self.time_remaining,
        }
    }
}

impl Default for MLFQScheduler {
    fn default() -> (scheduler: Self)
        ensures
            scheduler@ == SchedulerState::initial(),
            scheduler@.wf(),
    {
        Self::new()
    }
}

} // verus!
