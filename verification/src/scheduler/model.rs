//! The mathematical model of the scheduler: four FIFO queues of process
//! identifiers, the reverse index from identifier to queue number, and the
//! transitions between such states.

use vstd::prelude::*;

verus! {

/// Number of priority levels. Level 0 is the highest priority, level 3 the lowest.
pub const LEVELS: usize = 4;

/// The level that new work joins by default.
pub const LOWEST_LEVEL: usize = 3;

/// The time quantum granted to a process dispatched from `level`.
pub open spec fn quantum_of(level: int) -> u32 {
    if level == 0 {
        8
    } else if level == 1 {
        16
    } else if level == 2 {
        32
    } else {
        64
    }
}

/// The queue `q` with every occurrence of `id` deleted and the order of the
/// other identifiers kept.
pub open spec fn without(q: Seq<u32>, id: u32) -> Seq<u32>
    decreases q.len(),
{
    if q.len() == 0 {
        q
    } else if q.last() == id {
        without(q.drop_last(), id)
    } else {
        without(q.drop_last(), id).push(q.last())
    }
}

/// `a` stands in front of `b` in the queue `q`.
pub open spec fn before_in(q: Seq<u32>, a: u32, b: u32) -> bool {
    exists|i: int, j: int| 0 <= i < j < q.len() && q[i] == a && q[j] == b
}

/// Deleting `id` keeps exactly the other identifiers.
pub proof fn lemma_without_contains(q: Seq<u32>, id: u32, x: u32)
    ensures
        without(q, id).contains(x) <==> (q.contains(x) && x != id),
    decreases q.len(),
{
    if q.len() > 0 {
        let rest = q.drop_last();
        lemma_without_contains(rest, id, x);
        if q.contains(x) && x != id {
            let i = choose|i: int| 0 <= i < q.len() && q[i] == x;
            if i < q.len() - 1 {
                assert(rest[i] == x);
                let w = without(rest, id);
                let k = choose|k: int| 0 <= k < w.len() && w[k] == x;
                if q.last() != id {
                    assert(w.push(q.last())[k] == x);
                }
            } else {
                let w = without(rest, id);
                assert(w.push(q.last())[w.len() as int] == x);
            }
        }
    }
}

/// Deleting an identifier that does not occur changes nothing.
pub proof fn lemma_without_absent(q: Seq<u32>, id: u32)
    requires
        !q.contains(id),
    ensures
        without(q, id) == q,
    decreases q.len(),
{
    if q.len() > 0 {
        let rest = q.drop_last();
        lemma_without_absent(rest, id);
    }
}

/// Deleting an identifier never reorders the others.
pub proof fn lemma_without_keeps_order(q: Seq<u32>, id: u32, a: u32, b: u32)
    requires
        a != id,
        b != id,
    ensures
        before_in(without(q, id), a, b) <==> before_in(q, a, b),
    decreases q.len(),
{
    if q.len() > 0 {
        let rest = q.drop_last();
        let w = without(rest, id);
        lemma_without_keeps_order(rest, id, a, b);
        lemma_without_contains(rest, id, a);
        if before_in(q, a, b) {
            let (i, j) = choose|i: int, j: int| 0 <= i < j < q.len() && q[i] == a && q[j] == b;
            if j < q.len() - 1 {
                assert(rest[i] == a && rest[j] == b);
                let (k, l) = choose|k: int, l: int| 0 <= k < l < w.len() && w[k] == a && w[l] == b;
                if q.last() != id {
                    assert(w.push(q.last())[k] == a && w.push(q.last())[l] == b);
                }
            } else {
                assert(rest[i] == a);
                let k = choose|k: int| 0 <= k < w.len() && w[k] == a;
                assert(w.push(b)[k] == a && w.push(b)[w.len() as int] == b);
            }
        }
    }
}

/// Deleting an identifier from a queue without repetitions leaves no repetitions.
pub proof fn lemma_without_no_duplicates(q: Seq<u32>, id: u32)
    requires
        q.no_duplicates(),
    ensures
        without(q, id).no_duplicates(),
    decreases q.len(),
{
    if q.len() > 0 {
        let rest = q.drop_last();
        lemma_without_no_duplicates(rest, id);
        if q.last() != id {
            lemma_without_contains(rest, id, q.last());
        }
    }
}

/// The queues with `id` deleted from every one of them.
pub open spec fn queues_without(queues: Seq<Seq<u32>>, id: u32) -> Seq<Seq<u32>> {
    Seq::new(queues.len(), |n: int| without(queues[n], id))
}

/// The queues with `id` appended to the tail of queue `level`.
pub open spec fn queues_with(queues: Seq<Seq<u32>>, level: int, id: u32) -> Seq<Seq<u32>> {
    queues.update(level, queues[level].push(id))
}

/// The queues after a boost: queue 0 followed by the former contents of
/// queues 1, 2 and 3 in that order, and the lower queues empty.
pub open spec fn queues_boosted(queues: Seq<Seq<u32>>) -> Seq<Seq<u32>> {
    seq![
        queues[0] + queues[1] + queues[2] + queues[3],
        Seq::<u32>::empty(),
        Seq::<u32>::empty(),
        Seq::<u32>::empty(),
    ]
}

/// Where queue `level` begins in the merged queue of a boost: the number of
/// identifiers in the queues of higher priority.
pub open spec fn offset_of(queues: Seq<Seq<u32>>, level: int) -> int {
    (if level > 0 {
        queues[0].len() as int
    } else {
        0
    }) + (if level > 1 {
        queues[1].len() as int
    } else {
        0
    }) + (if level > 2 {
        queues[2].len() as int
    } else {
        0
    })
}

/// The reverse index after a boost: every identifier that waits in a queue
/// is at level 0, every other entry is untouched.
pub open spec fn index_boosted(queues: Seq<Seq<u32>>, index: Map<u32, usize>) -> Map<u32, usize> {
    Map::new(
        |id: u32| index.contains_key(id),
        |id: u32|
            if queues_boosted(queues)[0].contains(id) {
                0usize
            } else {
                index[id]
            },
    )
}

/// The lowest-numbered queue that is not empty, if there is one.
pub open spec fn ready_level(queues: Seq<Seq<u32>>) -> Option<int> {
    if queues[0].len() > 0 {
        Some(0)
    } else if queues[1].len() > 0 {
        Some(1)
    } else if queues[2].len() > 0 {
        Some(2)
    } else if queues[3].len() > 0 {
        Some(3)
    } else {
        None
    }
}

/// The queues and the reverse index fit together: there are four queues, no
/// identifier waits twice, and every waiting identifier is indexed under the
/// number of the queue that holds it. An indexed identifier may wait in no
/// queue at all: it has been dispatched and not yet enqueued again.
pub open spec fn agrees(queues: Seq<Seq<u32>>, index: Map<u32, usize>) -> bool {
    &&& queues.len() == LEVELS
    &&& forall|id: u32| index.contains_key(id) ==> #[trigger] index[id] < LEVELS
    &&& forall|n: int| 0 <= n < LEVELS ==> #[trigger] queues[n].no_duplicates()
    &&& forall|n: int, i: int|
        0 <= n < LEVELS && 0 <= i < queues[n].len() ==> index.contains_key(
            #[trigger] queues[n][i],
        ) && index[queues[n][i]] == n
}

/// The state of a scheduler.
pub struct SchedulerState {
    /// The four queues, highest priority first; the head of each is at position 0.
    pub queues: Seq<Seq<u32>>,
    /// The reverse index: each tracked identifier and its queue number.
    pub index: Map<u32, usize>,
    /// The number of ticks between two boosts.
    pub boost_interval: u32,
    /// The tick counter.
    pub ticks: u32,
    /// The identifier dispatched last, if any.
    pub current: Option<u32>,
    /// What is left of the running quantum.
    pub remaining: u32,
}

impl SchedulerState {
    /// The invariant of every scheduler state.
    pub open spec fn wf(self) -> bool {
        &&& agrees(self.queues, self.index)
        &&& self.index.dom().finite()
        &&& self.boost_interval > 0
    }

    /// The state of a new scheduler.
    pub open spec fn initial() -> Self {
        SchedulerState {
            queues: seq![
                Seq::<u32>::empty(),
                Seq::<u32>::empty(),
                Seq::<u32>::empty(),
                Seq::<u32>::empty(),
            ],
            index: Map::empty(),
            boost_interval: 100,
            ticks: 0,
            current: None,
            remaining: 0,
        }
    }

    /// `id` is tracked: the reverse index has an entry for it.
    pub open spec fn tracks(self, id: u32) -> bool {
        self.index.contains_key(id)
    }

    /// The queue number of `id`, if it is tracked.
    pub open spec fn level_of(self, id: u32) -> Option<usize> {
        if self.index.contains_key(id) {
            Some(self.index[id])
        } else {
            None
        }
    }

    /// `id` waits in queue `level`.
    pub open spec fn waits_at(self, id: u32, level: int) -> bool {
        0 <= level < LEVELS && self.queues[level].contains(id)
    }

    /// `id` waits in one of the queues.
    pub open spec fn is_queued(self, id: u32) -> bool {
        exists|level: int| self.waits_at(id, level)
    }

    /// `id` is tracked but waits in no queue: it was dispatched and has not
    /// been enqueued again.
    pub open spec fn in_flight(self, id: u32) -> bool {
        self.tracks(id) && !self.is_queued(id)
    }

    /// `a` and `b` wait in the same queue, `a` in front of `b`.
    pub open spec fn ahead(self, a: u32, b: u32) -> bool {
        exists|level: int| 0 <= level < LEVELS && before_in(#[trigger] self.queues[level], a, b)
    }

    /// Enqueueing: `id` leaves whatever queue holds it and joins the tail of
    /// queue `level`. A level out of range changes nothing.
    pub open spec fn enqueue(self, id: u32, level: usize) -> Self {
        if level < LEVELS {
            SchedulerState {
                queues: queues_with(queues_without(self.queues, id), level as int, id),
                index: self.index.insert(id, level),
                ..self
            }
        } else {
            self
        }
    }

    /// Retirement: `id` is deleted from its queue and from the reverse index.
    pub open spec fn retire(self, id: u32) -> Self {
        SchedulerState {
            queues: queues_without(self.queues, id),
            index: self.index.remove(id),
            ..self
        }
    }

    /// The level one step less urgent than `level`, never beyond the lowest.
    pub open spec fn level_below(level: usize) -> usize {
        if level < LOWEST_LEVEL {
            (level + 1) as usize
        } else {
            LOWEST_LEVEL
        }
    }

    /// The level one step more urgent than `level`, never above the highest.
    pub open spec fn level_above(level: usize) -> usize {
        if level > 0 {
            (level - 1) as usize
        } else {
            0
        }
    }

    /// Demotion: a tracked `id` joins the tail of the next lower-priority
    /// queue, or of the lowest queue again if it is there already.
    pub open spec fn demote(self, id: u32) -> Self {
        if self.tracks(id) {
            self.enqueue(id, Self::level_below(self.index[id]))
        } else {
            self
        }
    }

    /// Promotion: a tracked `id` joins the tail of the next higher-priority
    /// queue, or of the highest queue again if it is there already.
    pub open spec fn promote(self, id: u32) -> Self {
        if self.tracks(id) {
            self.enqueue(id, Self::level_above(self.index[id]))
        } else {
            self
        }
    }

    /// Boost: every waiting identifier moves to queue 0.
    pub open spec fn boost(self) -> Self {
        SchedulerState {
            queues: queues_boosted(self.queues),
            index: index_boosted(self.queues, self.index),
            ..self
        }
    }

    /// The tick counter after one more tick. It wraps to 0 past `u32::MAX`.
    pub open spec fn next_tick(self) -> u32 {
        if self.ticks == u32::MAX {
            0
        } else {
            (self.ticks + 1) as u32
        }
    }

    /// The coming tick is a boost point: a nonzero multiple of the interval.
    pub open spec fn boost_due(self) -> bool {
        self.next_tick() > 0 && self.next_tick() as int % self.boost_interval as int == 0
    }

    /// The first half of a dispatch: the tick counter advances by one, and
    /// at a boost point the boost takes place.
    pub open spec fn advance(self) -> Self {
        let ticked = SchedulerState { ticks: self.next_tick(), ..self };
        if self.boost_due() {
            ticked.boost()
        } else {
            ticked
        }
    }

    /// The second half of a dispatch: the identifier chosen with its quantum,
    /// or `None` when every queue is empty.
    pub open spec fn choice(self) -> Option<(u32, u32)> {
        match ready_level(self.queues) {
            Some(level) => Some((self.queues[level][0], quantum_of(level))),
            None => None,
        }
    }

    /// The state after the choice: the head of the first queue that is not
    /// empty has left it and runs with a full quantum. The reverse index keeps
    /// its entry. When nothing is ready, only the current identifier is cleared.
    pub open spec fn take_choice(self) -> Self {
        match ready_level(self.queues) {
            Some(level) => SchedulerState {
                queues: self.queues.update(level, self.queues[level].drop_first()),
                current: Some(self.queues[level][0]),
                remaining: quantum_of(level),
                ..self
            },
            None => SchedulerState { current: None, ..self },
        }
    }

    /// What a dispatch returns.
    pub open spec fn dispatch_result(self) -> Option<(u32, u32)> {
        self.advance().choice()
    }

    /// The choice falls on `id`.
    pub open spec fn picks(self, id: u32) -> bool {
        self.choice() matches Some((picked, _)) && picked == id
    }

    /// A dispatch from this state returns `id`.
    pub open spec fn serves(self, id: u32) -> bool {
        self.advance().picks(id)
    }

    /// The state after a dispatch.
    pub open spec fn dispatch(self) -> Self {
        self.advance().take_choice()
    }

    /// The running quantum shrinks by `elapsed`, and stops at zero.
    pub open spec fn consume(self, elapsed: u32) -> Self {
        SchedulerState {
            remaining: if self.remaining >= elapsed {
                (self.remaining - elapsed) as u32
            } else {
                0
            },
            ..self
        }
    }

    /// Reset: queues, reverse index, current identifier, remaining time and
    /// tick counter are as in a new scheduler; the boost interval stays.
    pub open spec fn clear(self) -> Self {
        SchedulerState { boost_interval: self.boost_interval, ..Self::initial() }
    }
}

/// One call of a scheduler operation.
pub enum Operation {
    /// `add_process(id)`
    Add(u32),
    /// `add_process_to_queue(id, queue)`
    AddToQueue(u32, usize),
    /// `remove_process(id)`
    Remove(u32),
    /// `next_process()`
    Dispatch,
    /// `process_used_full_quantum(id)`
    UsedFullQuantum(u32),
    /// `process_yielded_early(id)`
    YieldedEarly(u32),
    /// `tick(elapsed)`
    Tick(u32),
    /// `set_current_ticks(ticks)`
    SetTicks(u32),
    /// `reset()`
    Reset,
}

impl Operation {
    /// The operation is directed at `id`. A reset is directed at every identifier.
    pub open spec fn names(self, id: u32) -> bool {
        match self {
            Operation::Add(p) => p == id,
            Operation::AddToQueue(p, _) => p == id,
            Operation::Remove(p) => p == id,
            Operation::UsedFullQuantum(p) => p == id,
            Operation::YieldedEarly(p) => p == id,
            Operation::Reset => true,
            Operation::Dispatch => false,
            Operation::Tick(_) => false,
            Operation::SetTicks(_) => false,
        }
    }

    /// The operation takes `id` out of the scheduler: it removes `id`, or it
    /// is a reset.
    pub open spec fn withdraws(self, id: u32) -> bool {
        self == Operation::Remove(id) || self is Reset
    }

    /// The operation writes the tick counter other than by counting one tick.
    pub open spec fn rewinds(self) -> bool {
        self is Reset || self is SetTicks
    }
}

impl SchedulerState {
    /// The state after one operation.
    pub open spec fn step(self, op: Operation) -> Self {
        match op {
            Operation::Add(id) => self.enqueue(id, LOWEST_LEVEL),
            Operation::AddToQueue(id, level) => self.enqueue(id, level),
            Operation::Remove(id) => self.retire(id),
            Operation::Dispatch => self.dispatch(),
            Operation::UsedFullQuantum(id) => self.demote(id),
            Operation::YieldedEarly(id) => self.promote(id),
            Operation::Tick(elapsed) => self.consume(elapsed),
            Operation::SetTicks(ticks) => SchedulerState { ticks, ..self },
            Operation::Reset => self.clear(),
        }
    }

    /// The state after the operations `ops`, first to last.
    pub open spec fn run(self, ops: Seq<Operation>) -> Self
        decreases ops.len(),
    {
        if ops.len() == 0 {
            self
        } else {
            self.run(ops.drop_last()).step(ops.last())
        }
    }

    /// Operation number `k` of `ops`, run from this state, is a dispatch that
    /// returns `id`.
    pub open spec fn serves_at(self, ops: Seq<Operation>, k: int, id: u32) -> bool {
        &&& 0 <= k < ops.len()
        &&& ops[k] is Dispatch
        &&& self.run(ops.take(k)).serves(id)
    }

    /// Queues 1, 2 and 3 are empty.
    pub open spec fn lower_queues_empty(self) -> bool {
        forall|level: int| 1 <= level < LEVELS ==> (#[trigger] self.queues[level]).len() == 0
    }

    /// The number of identifiers that wait, all queues together.
    pub open spec fn queued_count(self) -> nat {
        self.queues[0].len() + self.queues[1].len() + self.queues[2].len() + self.queues[3].len()
    }

    /// The identifiers that wait in a queue.
    pub open spec fn queued_ids(self) -> Set<u32> {
        Set::new(|id: u32| self.is_queued(id))
    }

    /// The identifiers that are tracked and wait in no queue.
    pub open spec fn in_flight_ids(self) -> Set<u32> {
        Set::new(|id: u32| self.in_flight(id))
    }

    /// The state after `n` demotions of `id` in a row.
    pub open spec fn demote_times(self, id: u32, n: nat) -> Self
        decreases n,
    {
        if n == 0 {
            self
        } else {
            self.demote_times(id, (n - 1) as nat).demote(id)
        }
    }

    /// The state after `n` promotions of `id` in a row.
    pub open spec fn promote_times(self, id: u32, n: nat) -> Self
        decreases n,
    {
        if n == 0 {
            self
        } else {
            self.promote_times(id, (n - 1) as nat).promote(id)
        }
    }
}

/// The number of dispatches among `ops`.
pub open spec fn dispatch_count(ops: Seq<Operation>) -> nat
    decreases ops.len(),
{
    if ops.len() == 0 {
        0
    } else if ops.last() is Dispatch {
        dispatch_count(ops.drop_last()) + 1
    } else {
        dispatch_count(ops.drop_last())
    }
}

} // verus!
