//! What holds of every scheduler state and of every run of the scheduler.

use vstd::arithmetic::div_mod::lemma_fundamental_div_mod;
use vstd::arithmetic::div_mod::lemma_mod_bound;
use vstd::arithmetic::div_mod::lemma_mod_multiples_basic;
use vstd::prelude::*;
use vstd::set_lib::lemma_set_disjoint_lens;

use super::model::agrees;
use super::model::before_in;
use super::model::dispatch_count;
use super::model::lemma_without_contains;
use super::model::lemma_without_keeps_order;
use super::model::lemma_without_no_duplicates;
use super::model::offset_of;
use super::model::quantum_of;
use super::model::queues_boosted;
use super::model::queues_without;
use super::model::ready_level;
use super::model::Operation;
use super::model::SchedulerState;
use super::model::LEVELS;
use super::model::LOWEST_LEVEL;

verus! {

/// Deleting an identifier keeps queues and reverse index in agreement,
/// whether or not the index entry is deleted too.
pub proof fn lemma_without_agrees(queues: Seq<Seq<u32>>, index: Map<u32, usize>, id: u32)
    requires
        agrees(queues, index),
    ensures
        agrees(queues_without(queues, id), index),
        agrees(queues_without(queues, id), index.remove(id)),
        forall|n: int| 0 <= n < LEVELS ==> !(#[trigger] queues_without(queues, id)[n]).contains(id),
{
    let after = queues_without(queues, id);
    assert forall|n: int|
        0 <= n < LEVELS implies #[trigger] after[n].no_duplicates() && !after[n].contains(id) by {
        lemma_without_no_duplicates(queues[n], id);
        lemma_without_contains(queues[n], id, id);
    }
    assert forall|n: int, i: int|
        0 <= n < LEVELS && 0 <= i < after[n].len() implies index.contains_key(
        #[trigger] after[n][i],
    ) && index[after[n][i]] == n && after[n][i] != id by {
        let x = after[n][i];
        lemma_without_contains(queues[n], id, x);
    }
}

/// Enqueueing keeps a state well formed.
pub proof fn lemma_enqueue_wf(s: SchedulerState, id: u32, level: usize)
    requires
        s.wf(),
    ensures
        s.enqueue(id, level).wf(),
{
    if level < LEVELS {
        let t = s.enqueue(id, level);
        let mid = queues_without(s.queues, id);
        lemma_without_agrees(s.queues, s.index, id);
        assert forall|n: int| 0 <= n < LEVELS implies #[trigger] t.queues[n].no_duplicates() by {
            assert(mid[n].no_duplicates());
        }
    }
}

/// Retirement keeps a state well formed.
pub proof fn lemma_retire_wf(s: SchedulerState, id: u32)
    requires
        s.wf(),
    ensures
        s.retire(id).wf(),
{
    lemma_without_agrees(s.queues, s.index, id);
}

/// Demotion and promotion keep a state well formed.
pub proof fn lemma_feedback_wf(s: SchedulerState, id: u32)
    requires
        s.wf(),
    ensures
        s.demote(id).wf(),
        s.promote(id).wf(),
{
    if s.tracks(id) {
        lemma_enqueue_wf(s, id, SchedulerState::level_below(s.index[id]));
        lemma_enqueue_wf(s, id, SchedulerState::level_above(s.index[id]));
    }
}

/// In a well-formed state the queues share no identifier.
pub proof fn lemma_queues_disjoint(s: SchedulerState, id: u32, m: int, n: int)
    requires
        s.wf(),
        s.waits_at(id, m),
        s.waits_at(id, n),
    ensures
        m == n,
        s.tracks(id),
        s.index[id] == m,
{
}

/// In the merged queue of a boost, position `k` of queue `level` is `k`
/// places after the beginning of that queue.
pub proof fn lemma_merged_holds(queues: Seq<Seq<u32>>, level: int, k: int)
    requires
        queues.len() == LEVELS,
        0 <= level < LEVELS,
        0 <= k < queues[level].len(),
    ensures
        offset_of(queues, level) + k < queues_boosted(queues)[0].len(),
        queues_boosted(queues)[0][offset_of(queues, level) + k] == queues[level][k],
{
}

/// Every position of the merged queue of a boost comes from one position
/// of one queue: the lemma returns the queue and the position.
pub proof fn lemma_merged_source(queues: Seq<Seq<u32>>, i: int) -> (source: (int, int))
    requires
        queues.len() == LEVELS,
        0 <= i < queues_boosted(queues)[0].len(),
    ensures
        0 <= source.0 < LEVELS,
        0 <= source.1 < queues[source.0].len(),
        i == offset_of(queues, source.0) + source.1,
        queues_boosted(queues)[0][i] == queues[source.0][source.1],
{
    let l0 = queues[0].len() as int;
    let l1 = queues[1].len() as int;
    let l2 = queues[2].len() as int;
    if i < l0 {
        (0, i)
    } else if i < l0 + l1 {
        (1, i - l0)
    } else if i < l0 + l1 + l2 {
        (2, i - l0 - l1)
    } else {
        (3, i - l0 - l1 - l2)
    }
}

/// A boost keeps a state well formed.
pub proof fn lemma_boost_wf(s: SchedulerState)
    requires
        s.wf(),
    ensures
        s.boost().wf(),
{
    let t = s.boost();
    let top = t.queues[0];
    assert forall|i: int, j: int|
        0 <= i < top.len() && 0 <= j < top.len() && i != j implies top[i] != top[j] by {
        let (n, k) = lemma_merged_source(s.queues, i);
        if top[i] == top[j] {
            assert(s.queues[n].no_duplicates());
        }
    }
    assert(t.index.dom() =~= s.index.dom());
}

/// The first half of a dispatch keeps a state well formed.
pub proof fn lemma_advance_wf(s: SchedulerState)
    requires
        s.wf(),
    ensures
        s.advance().wf(),
{
    let ticked = SchedulerState { ticks: s.next_tick(), ..s };
    lemma_boost_wf(ticked);
}

/// Taking the head of the first ready queue keeps a state well formed.
pub proof fn lemma_take_choice_wf(s: SchedulerState)
    requires
        s.wf(),
    ensures
        s.take_choice().wf(),
{
    let t = s.take_choice();
    match ready_level(s.queues) {
        Some(level) => {
            assert forall|n: int|
                0 <= n < LEVELS implies #[trigger] t.queues[n].no_duplicates() by {
                assert(s.queues[n].no_duplicates());
            }
        },
        None => {},
    }
}

/// A dispatch keeps a state well formed.
pub proof fn lemma_dispatch_wf(s: SchedulerState)
    requires
        s.wf(),
    ensures
        s.dispatch().wf(),
{
    lemma_advance_wf(s);
    lemma_take_choice_wf(s.advance());
}

/// Every operation keeps a state well formed.
pub proof fn lemma_step_wf(s: SchedulerState, op: Operation)
    requires
        s.wf(),
    ensures
        s.step(op).wf(),
{
    match op {
        Operation::Add(id) => lemma_enqueue_wf(s, id, LOWEST_LEVEL),
        Operation::AddToQueue(id, level) => lemma_enqueue_wf(s, id, level),
        Operation::Remove(id) => lemma_retire_wf(s, id),
        Operation::Dispatch => lemma_dispatch_wf(s),
        Operation::UsedFullQuantum(id) => lemma_feedback_wf(s, id),
        Operation::YieldedEarly(id) => lemma_feedback_wf(s, id),
        Operation::Tick(_) => {},
        Operation::SetTicks(_) => {},
        Operation::Reset => {},
    }
}

/// Every run of operations keeps a state well formed.
pub proof fn lemma_run_wf(s: SchedulerState, ops: Seq<Operation>)
    requires
        s.wf(),
    ensures
        s.run(ops).wf(),
    decreases ops.len(),
{
    if ops.len() > 0 {
        lemma_run_wf(s, ops.drop_last());
        lemma_step_wf(s.run(ops.drop_last()), ops.last());
    }
}

/// Priority: a dispatch returns the head of a queue only when every queue of
/// higher priority is empty at the moment of the choice, which is after the
/// tick and, at a boost point, after the boost. It returns nothing only when
/// all queues are empty. Away from a boost point the queues at the moment of
/// the choice are the queues before the call.
pub proof fn lemma_dispatch_respects_priority(s: SchedulerState)
    requires
        s.wf(),
    ensures
        !s.boost_due() ==> s.advance().queues == s.queues,
        match s.dispatch_result() {
            Some((id, quantum)) => exists|level: int|
                0 <= level < LEVELS && (#[trigger] s.advance().queues[level]).len() > 0
                    && s.advance().queues[level][0] == id && quantum == quantum_of(level) && (
                forall|higher: int|
                    0 <= higher < level ==> (#[trigger] s.advance().queues[higher]).len() == 0),
            None => forall|level: int|
                0 <= level < LEVELS ==> (#[trigger] s.advance().queues[level]).len() == 0,
        },
{
    let at_choice = s.advance().queues;
    if let Some(level) = ready_level(at_choice) {
        assert(at_choice[level].len() > 0);
    }
}

/// Demotion floor: `n` demotions in a row take a tracked identifier `n`
/// levels down and never past queue 3.
pub proof fn lemma_demotion_floor(s: SchedulerState, id: u32, n: nat)
    requires
        s.wf(),
        s.tracks(id),
    ensures
        s.demote_times(id, n).wf(),
        s.demote_times(id, n).level_of(id) == Some(
            if s.index[id] + n < LOWEST_LEVEL {
                (s.index[id] + n) as usize
            } else {
                LOWEST_LEVEL
            },
        ),
        s.demote_times(id, n).waits_at(id, s.demote_times(id, n).index[id] as int) || n == 0,
    decreases n,
{
    if n > 0 {
        let before = s.demote_times(id, (n - 1) as nat);
        lemma_demotion_floor(s, id, (n - 1) as nat);
        lemma_feedback_wf(before, id);
        lemma_enqueue_waits(before, id, SchedulerState::level_below(before.index[id]));
    }
}

/// Promotion ceiling: `n` promotions in a row take a tracked identifier `n`
/// levels up and never above queue 0.
pub proof fn lemma_promotion_ceiling(s: SchedulerState, id: u32, n: nat)
    requires
        s.wf(),
        s.tracks(id),
    ensures
        s.promote_times(id, n).wf(),
        s.promote_times(id, n).level_of(id) == Some(
            if s.index[id] >= n {
                (s.index[id] - n) as usize
            } else {
                0usize
            },
        ),
        s.promote_times(id, n).waits_at(id, s.promote_times(id, n).index[id] as int) || n == 0,
    decreases n,
{
    if n > 0 {
        let before = s.promote_times(id, (n - 1) as nat);
        lemma_promotion_ceiling(s, id, (n - 1) as nat);
        lemma_feedback_wf(before, id);
        lemma_enqueue_waits(before, id, SchedulerState::level_above(before.index[id]));
    }
}

/// After enqueueing at a level in range, the identifier waits at the tail of
/// that queue and in no other.
pub proof fn lemma_enqueue_waits(s: SchedulerState, id: u32, level: usize)
    requires
        s.wf(),
        level < LEVELS,
    ensures
        s.enqueue(id, level).waits_at(id, level as int),
        s.enqueue(id, level).queues[level as int].last() == id,
        forall|other: int| s.enqueue(id, level).waits_at(id, other) ==> other == level,
{
    let t = s.enqueue(id, level);
    let q = t.queues[level as int];
    assert(q[q.len() - 1] == id);
    lemma_enqueue_wf(s, id, level);
}

/// Conservation: every waiting identifier is tracked and waits exactly once,
/// in the queue that the reverse index names. The tracked identifiers are
/// those that wait and those in flight, so the size of the reverse index is
/// the sum of the queue lengths plus the number in flight; with nothing in
/// flight the two are equal.
pub proof fn lemma_conservation(s: SchedulerState)
    requires
        s.wf(),
    ensures
        forall|id: u32, level: int| #[trigger]
            s.waits_at(id, level) ==> s.tracks(id) && s.index[id] == level,
        forall|level: int, i: int, j: int|
            0 <= level < LEVELS && 0 <= i < s.queues[level].len() && 0 <= j < s.queues[level].len()
                && i != j ==> s.queues[level][i] != s.queues[level][j],
        s.queued_ids().finite(),
        s.in_flight_ids().finite(),
        s.queued_ids().disjoint(s.in_flight_ids()),
        s.index.dom() == s.queued_ids() + s.in_flight_ids(),
        s.queued_ids().len() == s.queued_count(),
        s.index.dom().len() == s.queued_count() + s.in_flight_ids().len(),
        (forall|id: u32| s.tracks(id) ==> s.is_queued(id)) ==> s.index.dom().len()
            == s.queued_count(),
{
    assert forall|level: int, i: int, j: int|
        0 <= level < LEVELS && 0 <= i < s.queues[level].len() && 0 <= j < s.queues[level].len()
            && i != j implies s.queues[level][i] != s.queues[level][j] by {
        assert(s.queues[level].no_duplicates());
    }
    let s0 = s.queues[0].to_set();
    let s1 = s.queues[1].to_set();
    let s2 = s.queues[2].to_set();
    let s3 = s.queues[3].to_set();
    s.queues[0].unique_seq_to_set();
    s.queues[1].unique_seq_to_set();
    s.queues[2].unique_seq_to_set();
    s.queues[3].unique_seq_to_set();
    lemma_set_disjoint_lens(s0, s1);
    lemma_set_disjoint_lens(s0 + s1, s2);
    lemma_set_disjoint_lens(s0 + s1 + s2, s3);
    assert(s.queued_ids() =~= s0 + s1 + s2 + s3) by {
        assert forall|id: u32| s.queued_ids().contains(id) <==> (s0 + s1 + s2 + s3).contains(
            id,
        ) by {
            if (s0 + s1 + s2 + s3).contains(id) {
                assert(s.waits_at(id, 0) || s.waits_at(id, 1) || s.waits_at(id, 2) || s.waits_at(
                    id,
                    3,
                ));
            }
        }
    }
    assert(s.in_flight_ids() =~= s.index.dom().difference(s.queued_ids()));
    assert(s.index.dom() =~= s.queued_ids() + s.in_flight_ids());
    lemma_set_disjoint_lens(s.queued_ids(), s.in_flight_ids());
    if forall|id: u32| s.tracks(id) ==> s.is_queued(id) {
        assert(s.in_flight_ids() =~= Set::<u32>::empty());
    }
}

/// An identifier enqueued into a queue stands behind every identifier that
/// waits there already.
pub proof fn lemma_enqueue_behind(s: SchedulerState, a: u32, b: u32, level: usize)
    requires
        s.wf(),
        s.waits_at(a, level as int),
        a != b,
    ensures
        s.enqueue(b, level).ahead(a, b),
{
    let mid = queues_without(s.queues, b);
    lemma_without_contains(s.queues[level as int], b, a);
    let i = choose|i: int| 0 <= i < mid[level as int].len() && mid[level as int][i] == a;
    let t = s.enqueue(b, level);
    let q = t.queues[level as int];
    assert(q[i] == a && q[mid[level as int].len() as int] == b);
}

/// Enqueueing or retiring another identifier leaves `a` in front of `b`.
proof fn lemma_without_keeps_ahead(s: SchedulerState, other: u32, a: u32, b: u32)
    requires
        s.wf(),
        s.ahead(a, b),
        other != a,
        other != b,
    ensures
        s.retire(other).ahead(a, b),
        forall|level: usize| s.enqueue(other, level).ahead(a, b),
{
    let n = choose|n: int| 0 <= n < LEVELS && before_in(#[trigger] s.queues[n], a, b);
    let mid = queues_without(s.queues, other);
    lemma_without_keeps_order(s.queues[n], other, a, b);
    assert(before_in(s.retire(other).queues[n], a, b));
    assert forall|level: usize| s.enqueue(other, level).ahead(a, b) by {
        let t = s.enqueue(other, level);
        if level < LEVELS {
            if n == level {
                let (i, j) = choose|i: int, j: int|
                    0 <= i < j < mid[n].len() && mid[n][i] == a && mid[n][j] == b;
                assert(t.queues[n][i] == a && t.queues[n][j] == b);
            }
            assert(before_in(t.queues[n], a, b));
        }
    }
}

/// A boost leaves `a` in front of `b`.
proof fn lemma_boost_keeps_ahead(s: SchedulerState, a: u32, b: u32)
    requires
        s.wf(),
        s.ahead(a, b),
    ensures
        s.boost().ahead(a, b),
{
    let n = choose|n: int| 0 <= n < LEVELS && before_in(#[trigger] s.queues[n], a, b);
    let (i, j) = choose|i: int, j: int|
        0 <= i < j < s.queues[n].len() && s.queues[n][i] == a && s.queues[n][j] == b;
    lemma_merged_holds(s.queues, n, i);
    lemma_merged_holds(s.queues, n, j);
    assert(before_in(s.boost().queues[0], a, b));
}

/// Taking the head of the first ready queue leaves `a` in front of `b`,
/// unless the head taken is `a`; it is never `b`.
proof fn lemma_take_choice_keeps_ahead(s: SchedulerState, a: u32, b: u32)
    requires
        s.wf(),
        s.ahead(a, b),
    ensures
        s.take_choice().ahead(a, b) || s.picks(a),
        !s.picks(b),
{
    let n = choose|n: int| 0 <= n < LEVELS && before_in(#[trigger] s.queues[n], a, b);
    let (i, j) = choose|i: int, j: int|
        0 <= i < j < s.queues[n].len() && s.queues[n][i] == a && s.queues[n][j] == b;
    match ready_level(s.queues) {
        Some(level) => {
            let head = s.queues[level][0];
            if head == b {
                assert(s.queues[n].no_duplicates());
            }
            if head != a {
                if level == n {
                    let rest = s.queues[n].drop_first();
                    assert(rest[i - 1] == a && rest[j - 1] == b);
                    assert(before_in(s.take_choice().queues[n], a, b));
                } else {
                    assert(before_in(s.take_choice().queues[n], a, b));
                }
            }
        },
        None => {},
    }
}

/// First in, first out, one operation at a time: while `a` stands in front
/// of `b` in a queue, no operation directed at neither of them changes that,
/// except the dispatch that returns `a`. No such operation returns `b`.
pub proof fn lemma_step_keeps_order(s: SchedulerState, op: Operation, a: u32, b: u32)
    requires
        s.wf(),
        s.ahead(a, b),
        !op.names(a),
        !op.names(b),
    ensures
        s.step(op).ahead(a, b) || (op is Dispatch && s.serves(a)),
        !(op is Dispatch && s.serves(b)),
{
    let n = choose|n: int| 0 <= n < LEVELS && before_in(#[trigger] s.queues[n], a, b);
    match op {
        Operation::Add(id) => lemma_without_keeps_ahead(s, id, a, b),
        Operation::AddToQueue(id, level) => lemma_without_keeps_ahead(s, id, a, b),
        Operation::Remove(id) => lemma_without_keeps_ahead(s, id, a, b),
        Operation::UsedFullQuantum(id) => lemma_without_keeps_ahead(s, id, a, b),
        Operation::YieldedEarly(id) => lemma_without_keeps_ahead(s, id, a, b),
        Operation::Tick(_) => {
            assert(before_in(s.step(op).queues[n], a, b));
        },
        Operation::SetTicks(_) => {
            assert(before_in(s.step(op).queues[n], a, b));
        },
        Operation::Reset => {},
        Operation::Dispatch => {
            let ticked = SchedulerState { ticks: s.next_tick(), ..s };
            lemma_boost_keeps_ahead(ticked, a, b);
            lemma_advance_wf(s);
            lemma_take_choice_keeps_ahead(s.advance(), a, b);
        },
    }
}

/// First in, first out: if `a` stands in front of `b` in a queue, then in
/// any run of operations directed at neither of them, whatever happens to
/// the other queues, a dispatch returns `b` only after a dispatch has
/// returned `a`.
pub proof fn lemma_first_in_first_out(
    s: SchedulerState,
    ops: Seq<Operation>,
    a: u32,
    b: u32,
    k: int,
)
    requires
        s.wf(),
        s.ahead(a, b),
        forall|i: int| 0 <= i < ops.len() ==> !(#[trigger] ops[i]).names(a) && !ops[i].names(b),
        s.serves_at(ops, k, b),
    ensures
        exists|j: int| 0 <= j < k && s.serves_at(ops, j, a),
{
    lemma_order_until_served(s, ops, a, b, k);
    lemma_run_wf(s, ops.take(k));
    if s.run(ops.take(k)).ahead(a, b) {
        lemma_step_keeps_order(s.run(ops.take(k)), ops[k], a, b);
    }
}

/// After the first `n` operations of such a run `a` still stands in front of
/// `b`, or one of those operations was a dispatch that returned `a`.
proof fn lemma_order_until_served(s: SchedulerState, ops: Seq<Operation>, a: u32, b: u32, n: int)
    requires
        s.wf(),
        s.ahead(a, b),
        forall|i: int| 0 <= i < ops.len() ==> !(#[trigger] ops[i]).names(a) && !ops[i].names(b),
        0 <= n <= ops.len(),
    ensures
        s.run(ops.take(n)).ahead(a, b) || exists|j: int| 0 <= j < n && s.serves_at(ops, j, a),
    decreases n,
{
    if n > 0 {
        lemma_order_until_served(s, ops, a, b, n - 1);
        let before = s.run(ops.take(n - 1));
        assert(ops.take(n).drop_last() == ops.take(n - 1));
        lemma_run_wf(s, ops.take(n - 1));
        if before.ahead(a, b) {
            lemma_step_keeps_order(before, ops[n - 1], a, b);
            if !before.step(ops[n - 1]).ahead(a, b) {
                assert(s.serves_at(ops, n - 1, a));
            }
        }
    }
}

/// A dispatch at a boost point leaves nothing waiting below queue 0: every
/// identifier that waited before it is indexed at level 0 and waits in queue
/// 0, unless it is the one that the dispatch returns.
pub proof fn lemma_boost_point_lifts_all(s: SchedulerState)
    requires
        s.wf(),
        s.boost_due(),
    ensures
        s.dispatch().lower_queues_empty(),
        forall|id: u32| #[trigger]
            s.is_queued(id) ==> s.dispatch().level_of(id) == Some(0usize) && (s.dispatch().waits_at(
                id,
                0,
            ) || s.serves(id)),
{
    let lifted = s.advance();
    let top = lifted.queues[0];
    assert forall|id: u32| #[trigger] s.is_queued(id) implies s.dispatch().level_of(id) == Some(
        0usize,
    ) && (s.dispatch().waits_at(id, 0) || s.serves(id)) by {
        let n = choose|n: int| s.waits_at(id, n);
        let i = choose|i: int| 0 <= i < s.queues[n].len() && s.queues[n][i] == id;
        let p = offset_of(s.queues, n) + i;
        if p > 0 {
            assert(top.drop_first()[p - 1] == id);
        }
    }
}

/// Counting from any tick, a nonzero multiple of the interval comes within
/// `interval` ticks: `d` ticks later.
pub proof fn lemma_boost_point_within_interval(ticks: u32, interval: u32) -> (d: int)
    requires
        interval > 0,
    ensures
        1 <= d <= interval,
        (ticks + d) % (interval as int) == 0,
{
    let m = interval as int;
    let t = ticks as int;
    let d = m - t % m;
    lemma_mod_bound(t, m);
    lemma_fundamental_div_mod(t, m);
    lemma_mod_multiples_basic(t / m + 1, m);
    assert(t + d == (t / m + 1) * m) by (nonlinear_arith)
        requires
            t == m * (t / m) + (t % m),
            d == m - t % m,
    ;
    d
}

/// A run that neither resets nor sets the tick counter counts one tick for
/// each dispatch, as long as the counter does not wrap.
pub proof fn lemma_run_counts_ticks(s: SchedulerState, ops: Seq<Operation>)
    requires
        forall|i: int| 0 <= i < ops.len() ==> !(#[trigger] ops[i]).rewinds(),
        s.ticks + dispatch_count(ops) <= u32::MAX,
    ensures
        s.run(ops).ticks == s.ticks + dispatch_count(ops),
        s.run(ops).boost_interval == s.boost_interval,
    decreases ops.len(),
{
    if ops.len() > 0 {
        let rest = ops.drop_last();
        lemma_run_counts_ticks(s, rest);
    }
}

/// A run with at least `d` dispatches has a `d`-th one.
proof fn lemma_nth_dispatch(ops: Seq<Operation>, d: nat)
    requires
        1 <= d <= dispatch_count(ops),
    ensures
        exists|k: int|
            0 <= k < ops.len() && ops[k] is Dispatch && dispatch_count(#[trigger] ops.take(k)) == d
                - 1,
    decreases ops.len(),
{
    let rest = ops.drop_last();
    if dispatch_count(rest) >= d {
        lemma_nth_dispatch(rest, d);
        let k = choose|k: int|
            0 <= k < rest.len() && rest[k] is Dispatch && dispatch_count(#[trigger] rest.take(k))
                == d - 1;
        assert(rest.take(k) == ops.take(k));
    }
}

/// Starvation bound: from any state, in a run that neither resets nor sets
/// the tick counter, one of the first `boost_interval` dispatches falls on a
/// boost point, provided the counter does not wrap on the way. After that
/// dispatch nothing waits below queue 0: every identifier that waited before
/// it waits in queue 0, unless that dispatch returned it.
pub proof fn lemma_starvation_bound(s: SchedulerState, ops: Seq<Operation>)
    requires
        s.wf(),
        s.ticks + s.boost_interval <= u32::MAX,
        forall|i: int| 0 <= i < ops.len() ==> !(#[trigger] ops[i]).rewinds(),
        dispatch_count(ops) >= s.boost_interval,
    ensures
        exists|k: int|
            0 <= k < ops.len() && ops[k] is Dispatch && dispatch_count(#[trigger] ops.take(k))
                < s.boost_interval && s.run(ops.take(k)).boost_due() && s.run(
                ops.take(k + 1),
            ).lower_queues_empty() && (forall|id: u32| #[trigger]
                s.run(ops.take(k)).is_queued(id) ==> s.run(ops.take(k + 1)).waits_at(id, 0)
                    || s.serves_at(ops, k, id)),
{
    let d = lemma_boost_point_within_interval(s.ticks, s.boost_interval);
    lemma_nth_dispatch(ops, d as nat);
    let k = choose|k: int|
        0 <= k < ops.len() && ops[k] is Dispatch && dispatch_count(#[trigger] ops.take(k)) == d
            - 1;
    let prefix = ops.take(k);
    lemma_run_counts_ticks(s, prefix);
    lemma_run_wf(s, prefix);
    let before = s.run(prefix);
    assert(ops.take(k + 1).drop_last() == prefix);
    lemma_boost_point_lifts_all(before);
}

/// An identifier that waits keeps waiting through every operation that
/// does not take it out of the scheduler, except the dispatch that returns
/// it.
pub proof fn lemma_step_keeps_waiting(s: SchedulerState, op: Operation, id: u32)
    requires
        s.wf(),
        s.is_queued(id),
        !op.withdraws(id),
    ensures
        s.step(op).is_queued(id) || (op is Dispatch && s.serves(id)),
{
    let n = choose|n: int| s.waits_at(id, n);
    let i = choose|i: int| 0 <= i < s.queues[n].len() && s.queues[n][i] == id;
    lemma_queues_disjoint(s, id, n, n);
    match op {
        Operation::Add(other) => lemma_enqueue_keeps_waiting(s, other, LOWEST_LEVEL, id),
        Operation::AddToQueue(other, level) => lemma_enqueue_keeps_waiting(s, other, level, id),
        Operation::Remove(other) => lemma_without_keeps_waiting(s, other, id),
        Operation::UsedFullQuantum(other) => {
            if s.tracks(other) {
                lemma_enqueue_keeps_waiting(
                    s,
                    other,
                    SchedulerState::level_below(s.index[other]),
                    id,
                );
            }
        },
        Operation::YieldedEarly(other) => {
            if s.tracks(other) {
                lemma_enqueue_keeps_waiting(
                    s,
                    other,
                    SchedulerState::level_above(s.index[other]),
                    id,
                );
            }
        },
        Operation::Tick(elapsed) => {
            assert(s.step(op).waits_at(id, n));
        },
        Operation::SetTicks(ticks) => {
            assert(s.step(op).waits_at(id, n));
        },
        Operation::Reset => {},
        Operation::Dispatch => {
            let ticked = SchedulerState { ticks: s.next_tick(), ..s };
            lemma_advance_wf(s);
            let t = s.advance();
            if s.boost_due() {
                assert(ticked.is_queued(id)) by {
                    assert(ticked.waits_at(id, n));
                }
                lemma_boost_point_lifts_all(s);
                if s.dispatch().waits_at(id, 0) {
                    assert(s.dispatch().is_queued(id));
                }
            } else {
                assert(t.queues == s.queues);
                match ready_level(t.queues) {
                    Some(level) => {
                        if level == n {
                            if i > 0 {
                                assert(t.queues[n].drop_first()[i - 1] == id);
                                assert(s.dispatch().waits_at(id, n));
                            }
                        } else {
                            assert(s.dispatch().queues[n][i] == id);
                            assert(s.dispatch().waits_at(id, n));
                        }
                    },
                    None => {},
                }
            }
        },
    }
}

/// Enqueueing any identifier leaves `id` waiting.
proof fn lemma_enqueue_keeps_waiting(s: SchedulerState, other: u32, level: usize, id: u32)
    requires
        s.wf(),
        s.is_queued(id),
    ensures
        s.enqueue(other, level).is_queued(id),
{
    if other != id {
        lemma_without_keeps_waiting(s, other, id);
    } else if level < LEVELS {
        lemma_enqueue_waits(s, id, level);
    }
}

/// Enqueueing or retiring another identifier leaves `id` waiting.
proof fn lemma_without_keeps_waiting(s: SchedulerState, other: u32, id: u32)
    requires
        s.wf(),
        s.is_queued(id),
        other != id,
    ensures
        s.retire(other).is_queued(id),
        forall|level: usize| s.enqueue(other, level).is_queued(id),
{
    let n = choose|n: int| s.waits_at(id, n);
    let mid = queues_without(s.queues, other);
    lemma_without_contains(s.queues[n], other, id);
    assert(s.retire(other).waits_at(id, n));
    assert forall|level: usize| s.enqueue(other, level).is_queued(id) by {
        let t = s.enqueue(other, level);
        if level < LEVELS {
            let i = choose|i: int| 0 <= i < mid[n].len() && mid[n][i] == id;
            if n == level {
                assert(t.queues[n][i] == id);
            }
            assert(t.waits_at(id, n));
        }
    }
}

/// After the first `n` operations of a run that never takes `id` out of the
/// scheduler, a waiting `id` still waits, or one of those operations was a
/// dispatch that returned it.
pub proof fn lemma_waits_until_served(s: SchedulerState, ops: Seq<Operation>, id: u32, n: int)
    requires
        s.wf(),
        s.is_queued(id),
        forall|i: int| 0 <= i < ops.len() ==> !(#[trigger] ops[i]).withdraws(id),
        0 <= n <= ops.len(),
    ensures
        s.run(ops.take(n)).is_queued(id) || exists|j: int| 0 <= j < n && s.serves_at(ops, j, id),
    decreases n,
{
    if n > 0 {
        lemma_waits_until_served(s, ops, id, n - 1);
        let before = s.run(ops.take(n - 1));
        assert(ops.take(n).drop_last() == ops.take(n - 1));
        lemma_run_wf(s, ops.take(n - 1));
        if before.is_queued(id) {
            lemma_step_keeps_waiting(before, ops[n - 1], id);
            if !before.step(ops[n - 1]).is_queued(id) {
                assert(s.serves_at(ops, n - 1, id));
            }
        }
    }
}

/// No starvation: an identifier that waits in any queue waits in queue 0 or
/// has been returned by a dispatch once the run has counted `boost_interval`
/// ticks, whether or not it was demoted or promoted on the way. The run
/// must not remove the identifier, must neither reset nor set the tick
/// counter, and must not wrap it.
pub proof fn lemma_no_starvation(s: SchedulerState, ops: Seq<Operation>, id: u32)
    requires
        s.wf(),
        s.is_queued(id),
        s.ticks + s.boost_interval <= u32::MAX,
        forall|i: int|
            0 <= i < ops.len() ==> !(#[trigger] ops[i]).withdraws(id) && !ops[i].rewinds(),
        dispatch_count(ops) >= s.boost_interval,
    ensures
        exists|k: int|
            0 <= k < ops.len() && dispatch_count(#[trigger] ops.take(k)) < s.boost_interval && (
            s.run(ops.take(k + 1)).waits_at(id, 0) || exists|j: int|
                0 <= j <= k && s.serves_at(ops, j, id)),
{
    lemma_starvation_bound(s, ops);
    let k = choose|k: int|
        0 <= k < ops.len() && ops[k] is Dispatch && dispatch_count(#[trigger] ops.take(k))
            < s.boost_interval && s.run(ops.take(k)).boost_due() && s.run(
            ops.take(k + 1),
        ).lower_queues_empty() && (forall|id: u32| #[trigger]
            s.run(ops.take(k)).is_queued(id) ==> s.run(ops.take(k + 1)).waits_at(id, 0)
                || s.serves_at(ops, k, id));
    lemma_waits_until_served(s, ops, id, k);
}

/// The identifier that a dispatch returns stays tracked, under the number
/// of the queue that it left.
pub proof fn lemma_dispatched_stays_tracked(s: SchedulerState)
    requires
        s.wf(),
    ensures
        match s.dispatch_result() {
            Some((id, quantum)) => s.dispatch().tracks(id) && quantum == quantum_of(
                s.dispatch().index[id] as int,
            ) && !s.dispatch().is_queued(id),
            None => true,
        },
{
    lemma_advance_wf(s);
    let t = s.advance();
    match ready_level(t.queues) {
        Some(level) => {
            let id = t.queues[level][0];
            let after = s.dispatch();
            if after.is_queued(id) {
                assert(t.queues[level].no_duplicates());
            }
        },
        None => {},
    }
}

} // verus!
