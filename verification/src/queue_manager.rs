//! The dispatcher: every incoming task goes to one worker, chosen uniformly
//! at random.  A worker's inbound channel is held here as a queue that is
//! open or closed; what came first stays first.

use vstd::multiset::Multiset;
use vstd::prelude::*;
use crate::reddit_api_task::RedditAPITask;

verus! {

/// A worker's inbound channel as the dispatcher sees it.
#[derive(Debug, PartialEq, Eq)]
pub struct WorkerQueue {
    /// Whether the worker still receives.
    pub open: bool,
    /// The tasks that were delivered and not yet taken, oldest first.
    pub pending: Vec<RedditAPITask>,
}

/// `choice` names one of `num_workers` workers for each of `count` items.
pub open spec fn valid_choice(choice: Seq<int>, count: nat, num_workers: int) -> bool {
    &&& choice.len() == count
    &&& forall|i: int| 0 <= i < choice.len() ==> 0 <= #[trigger] choice[i] < num_workers
}

/// The items that `choice` sends to `worker`, in the order of submission.
pub open spec fn assigned<T>(items: Seq<T>, choice: Seq<int>, worker: int) -> Seq<T>
    decreases items.len(),
{
    if items.len() == 0 || choice.len() != items.len() {
        Seq::empty()
    } else if choice.last() == worker {
        assigned(items.drop_last(), choice.drop_last(), worker).push(items.last())
    } else {
        assigned(items.drop_last(), choice.drop_last(), worker)
    }
}

/// The items that `choice` sends to a worker whose queue is closed, in the
/// order of submission.
pub open spec fn undelivered<T>(items: Seq<T>, choice: Seq<int>, open: Seq<bool>) -> Seq<T>
    decreases items.len(),
{
    if items.len() == 0 || choice.len() != items.len() {
        Seq::empty()
    } else if 0 <= choice.last() < open.len() && !open[choice.last()] {
        undelivered(items.drop_last(), choice.drop_last(), open).push(items.last())
    } else {
        undelivered(items.drop_last(), choice.drop_last(), open)
    }
}

/// What the open ones of the first `count` queues receive, taken together.
pub open spec fn delivered<T>(
    items: Seq<T>,
    choice: Seq<int>,
    open: Seq<bool>,
    count: int,
) -> Multiset<T>
    decreases count,
{
    if count <= 0 {
        Multiset::empty()
    } else if 0 <= count - 1 < open.len() && open[count - 1] {
        delivered(items, choice, open, count - 1).add(
            assigned(items, choice, count - 1).to_multiset(),
        )
    } else {
        delivered(items, choice, open, count - 1)
    }
}

/// The tasks that wait in the first `count` queues, taken together.
pub open spec fn waiting(workers: Seq<WorkerQueue>, count: int) -> Multiset<RedditAPITask>
    decreases count,
{
    if count <= 0 || count > workers.len() {
        Multiset::empty()
    } else {
        waiting(workers, count - 1).add(workers[count - 1].pending@.to_multiset())
    }
}

/// Which queues are open.
pub open spec fn open_flags(workers: Seq<WorkerQueue>) -> Seq<bool> {
    workers.map_values(|queue: WorkerQueue| queue.open)
}

/// `after` is `before` once `items` went where `choice` says: an open
/// queue gets its share appended, a closed one stays as it was.
pub open spec fn routed(
    before: Seq<WorkerQueue>,
    after: Seq<WorkerQueue>,
    items: Seq<RedditAPITask>,
    choice: Seq<int>,
) -> bool {
    &&& after.len() == before.len()
    &&& forall|w: int|
        0 <= w < before.len() ==> {
            &&& (#[trigger] after[w]).open == before[w].open
            &&& after[w].pending@ == before[w].pending@ + (if before[w].open {
                assigned(items, choice, w)
            } else {
                Seq::empty()
            })
        }
}

proof fn lemma_delivered_step<T>(items: Seq<T>, choice: Seq<int>, open: Seq<bool>, bound: int)
    requires
        items.len() > 0,
        choice.len() == items.len(),
        0 <= choice.last() < open.len(),
        0 <= bound <= open.len(),
    ensures
        delivered(items, choice, open, bound) == if choice.last() < bound && open[choice.last()] {
            delivered(items.drop_last(), choice.drop_last(), open, bound).insert(items.last())
        } else {
            delivered(items.drop_last(), choice.drop_last(), open, bound)
        },
    decreases bound,
{
    broadcast use vstd::seq_lib::to_multiset_build;

    if bound > 0 {
        lemma_delivered_step(items, choice, open, bound - 1);
        let front = delivered(items.drop_last(), choice.drop_last(), open, bound - 1);
        let share = assigned(items.drop_last(), choice.drop_last(), bound - 1).to_multiset();
        if open[bound - 1] {
            if choice.last() == bound - 1 {
                assert(front.add(share.insert(items.last())) =~= front.add(share).insert(
                    items.last(),
                ));
            } else if choice.last() < bound - 1 && open[choice.last()] {
                assert(front.insert(items.last()).add(share) =~= front.add(share).insert(
                    items.last(),
                ));
            }
        }
    }
}

proof fn lemma_nothing_to_deliver<T>(items: Seq<T>, choice: Seq<int>, open: Seq<bool>, bound: int)
    requires
        items.len() == 0,
    ensures
        delivered(items, choice, open, bound) == Multiset::<T>::empty(),
        items.to_multiset() == Multiset::<T>::empty(),
    decreases bound,
{
    assert(items.to_multiset() =~= Multiset::<T>::empty()) by {
        items.to_multiset_ensures();
        assert(items.to_multiset().len() == 0);
    }
    if bound > 0 {
        lemma_nothing_to_deliver(items, choice, open, bound - 1);
        assert(assigned(items, choice, bound - 1) == items);
        assert(Multiset::<T>::empty().add(Multiset::<T>::empty()) =~= Multiset::<T>::empty());
    }
}

/// No submission is lost or doubled: what the open queues receive, together
/// with what a closed queue made the dispatcher drop, holds each item as
/// often as the submissions do.
pub proof fn lemma_no_task_lost_or_doubled<T>(items: Seq<T>, choice: Seq<int>, open: Seq<bool>)
    requires
        valid_choice(choice, items.len(), open.len() as int),
    ensures
        delivered(items, choice, open, open.len() as int).add(
            undelivered(items, choice, open).to_multiset(),
        ) == items.to_multiset(),
    decreases items.len(),
{
    broadcast use vstd::seq_lib::to_multiset_build;

    if items.len() == 0 {
        lemma_nothing_to_deliver(items, choice, open, open.len() as int);
        assert(undelivered(items, choice, open) == items);
        assert(Multiset::<T>::empty().add(Multiset::<T>::empty()) =~= Multiset::<T>::empty());
    } else {
        let front = items.drop_last();
        let front_choice = choice.drop_last();
        lemma_no_task_lost_or_doubled(front, front_choice, open);
        lemma_delivered_step(items, choice, open, open.len() as int);
        assert(front.push(items.last()) =~= items);
        assert(items.to_multiset() == front.to_multiset().insert(items.last()));
        let reached = delivered(front, front_choice, open, open.len() as int);
        let lost = undelivered(front, front_choice, open).to_multiset();
        if open[choice.last()] {
            assert(undelivered(items, choice, open) == undelivered(front, front_choice, open));
            assert(reached.insert(items.last()).add(lost) =~= reached.add(lost).insert(
                items.last(),
            ));
        } else {
            assert(undelivered(items, choice, open) == undelivered(
                front,
                front_choice,
                open,
            ).push(items.last()));
            assert(reached.add(lost.insert(items.last())) =~= reached.add(lost).insert(
                items.last(),
            ));
        }
    }
}

/// Every submission reaches exactly one worker: where all queues are open,
/// the workers' shares taken together hold each item as often as the
/// submissions do, and each item is in the share of the worker chosen for
/// it.
pub proof fn lemma_each_task_reaches_one_worker<T>(
    items: Seq<T>,
    choice: Seq<int>,
    open: Seq<bool>,
)
    requires
        open.len() >= 1,
        valid_choice(choice, items.len(), open.len() as int),
        forall|w: int| 0 <= w < open.len() ==> open[w],
    ensures
        delivered(items, choice, open, open.len() as int) == items.to_multiset(),
        forall|i: int|
            0 <= i < items.len() ==> assigned(items, choice, #[trigger] choice[i]).contains(
                items[i],
            ),
    decreases items.len(),
{
    lemma_no_task_lost_or_doubled(items, choice, open);
    lemma_open_queues_lose_nothing(items, choice, open);
    lemma_nothing_to_deliver(Seq::<T>::empty(), choice, open, 0);
    assert(items.to_multiset().add(Multiset::<T>::empty()) =~= items.to_multiset());
    assert(delivered(items, choice, open, open.len() as int).add(Multiset::<T>::empty())
        =~= delivered(items, choice, open, open.len() as int));
    if items.len() > 0 {
        let front = items.drop_last();
        let front_choice = choice.drop_last();
        lemma_each_task_reaches_one_worker(front, front_choice, open);
        assert forall|i: int| 0 <= i < items.len() implies assigned(
            items,
            choice,
            #[trigger] choice[i],
        ).contains(items[i]) by {
            let share = assigned(front, front_choice, choice[i]);
            if i == items.len() - 1 {
                assert(share.push(items.last()).last() == items[i]);
            } else {
                assert(front_choice[i] == choice[i]);
                assert(share.contains(front[i]));
                let k = choose|k: int| 0 <= k < share.len() && share[k] == front[i];
                if choice.last() == choice[i] {
                    assert(share.push(items.last())[k] == items[i]);
                }
            }
        }
    }
}

/// What waits in the queues after routing is what waited before and what
/// was delivered.
pub proof fn lemma_routed_queues_hold_the_delivered(
    before: Seq<WorkerQueue>,
    after: Seq<WorkerQueue>,
    items: Seq<RedditAPITask>,
    choice: Seq<int>,
    count: int,
)
    requires
        routed(before, after, items, choice),
        0 <= count <= before.len(),
    ensures
        waiting(after, count) == waiting(before, count).add(
            delivered(items, choice, open_flags(before), count),
        ),
    decreases count,
{
    let open = open_flags(before);
    if count == 0 {
        assert(Multiset::<RedditAPITask>::empty().add(Multiset::empty())
            =~= Multiset::<RedditAPITask>::empty());
    } else {
        lemma_routed_queues_hold_the_delivered(before, after, items, choice, count - 1);
        let w = count - 1;
        let held = waiting(before, w);
        let reached = delivered(items, choice, open, w);
        let old_queue = before[w].pending@.to_multiset();
        assert(after[w].open == before[w].open);
        if before[w].open {
            let share = assigned(items, choice, w);
            vstd::seq_lib::lemma_multiset_commutative(before[w].pending@, share);
            assert(held.add(reached).add(old_queue.add(share.to_multiset())) =~= held.add(
                old_queue,
            ).add(reached.add(share.to_multiset())));
        } else {
            assert(before[w].pending@ + Seq::<RedditAPITask>::empty() == before[w].pending@);
            assert(held.add(reached).add(old_queue) =~= held.add(old_queue).add(reached));
        }
    }
}

/// Routing keeps every task: what waits in all the queues afterwards,
/// together with what was dropped, is what waited before together with
/// the submissions.
pub proof fn lemma_routing_keeps_every_task(
    before: Seq<WorkerQueue>,
    after: Seq<WorkerQueue>,
    items: Seq<RedditAPITask>,
    choice: Seq<int>,
    num_workers: int,
)
    requires
        num_workers <= before.len(),
        valid_choice(choice, items.len(), num_workers),
        routed(before, after, items, choice),
    ensures
        waiting(after, after.len() as int).add(
            undelivered(items, choice, open_flags(before)).to_multiset(),
        ) == waiting(before, before.len() as int).add(items.to_multiset()),
{
    let open = open_flags(before);
    let count = before.len() as int;
    lemma_routed_queues_hold_the_delivered(before, after, items, choice, count);
    lemma_no_task_lost_or_doubled(items, choice, open);
    let held = waiting(before, count);
    let reached = delivered(items, choice, open, count);
    let lost = undelivered(items, choice, open).to_multiset();
    assert(held.add(reached).add(lost) =~= held.add(reached.add(lost)));
}

/// With every queue open nothing is left undelivered.
pub proof fn lemma_open_queues_lose_nothing<T>(items: Seq<T>, choice: Seq<int>, open: Seq<bool>)
    requires
        forall|w: int| 0 <= w < open.len() ==> open[w],
    ensures
        undelivered(items, choice, open) == Seq::<T>::empty(),
    decreases items.len(),
{
    if items.len() > 0 && choice.len() == items.len() {
        lemma_open_queues_lose_nothing(items.drop_last(), choice.drop_last(), open);
    }
}

/// `rand::Rng::gen_range` on the thread's generator, with the bounds 0 and
/// `bound`: some index below `bound`.  Which one is left open.
#[verifier::external_body]
fn random_below(bound: usize) -> (index: usize)
    requires
        bound > 0,
    ensures
        index < bound,
{
    rand::Rng::gen_range(&mut rand::thread_rng(), 0, bound)
}

/// Picks the worker for the next task, uniformly at random.
pub fn pick_worker(num_workers: usize) -> (worker: usize)
    requires
        num_workers >= 1,
    ensures
        worker < num_workers,
{
    random_below(num_workers)
}

/// Hands each incoming task to one of the first `num_workers` queues, chosen
/// at random.  A task whose queue is closed is dropped: it is returned for
/// the log, and is neither retried nor given to another worker.
pub fn queue_manager(
    incoming: Vec<RedditAPITask>,
    workers: &mut Vec<WorkerQueue>,
    num_workers: usize,
) -> (dropped: Vec<RedditAPITask>)
    requires
        1 <= num_workers <= old(workers).len(),
    ensures
        exists|choice: Seq<int>|
            {
                &&& valid_choice(choice, incoming@.len(), num_workers as int)
                &&& #[trigger] routed(old(workers)@, final(workers)@, incoming@, choice)
                &&& dropped@ == undelivered(incoming@, choice, open_flags(old(workers)@))
            },
{
    let mut dropped: Vec<RedditAPITask> = Vec::new();
    let ghost mut choice: Seq<int> = Seq::empty();
    assert(incoming@.take(0) == Seq::<RedditAPITask>::empty());
    for task in it: incoming
        invariant
            1 <= num_workers <= old(workers).len(),
            valid_choice(choice, it.index() as nat, num_workers as int),
            routed(old(workers)@, workers@, incoming@.take(it.index() as int), choice),
            dropped@ == undelivered(
                incoming@.take(it.index() as int),
                choice,
                open_flags(old(workers)@),
            ),
    {
        let worker = pick_worker(num_workers);
        let ghost sent = incoming@.take(it.index() as int);
        let ghost seen = workers@;
        proof {
            assert(incoming@.take(it.index() + 1).drop_last() == sent);
            assert(choice.push(worker as int).drop_last() == choice);
        }
        if workers[worker].open {
            workers[worker].pending.push(task);
        } else {
            dropped.push(task);
        }
        proof {
            choice = choice.push(worker as int);
        }
    }
    assert(incoming@.take(incoming@.len() as int) == incoming@);
    dropped
}

} // verus!
