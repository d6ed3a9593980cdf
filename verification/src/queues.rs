//! What a tick makes of the queues of a loader, for given answers of the
//! asset server, and the facts about it that the laws of the loader rest on.

use vstd::prelude::*;
use bevy::asset::HandleUntyped;
use crate::cells::{Entry, Handles};
use crate::state::LoadState;

verus! {

/// What the server said of a load that was just started: the handle it
/// gave, and the state it reported at once.
pub type Answer = (HandleUntyped, LoadState);

/// How many of the polled loads have come to an end.
pub open spec fn finished_count(polled: Seq<LoadState>) -> nat
    decreases polled.len(),
{
    if polled.len() == 0 {
        0
    } else {
        finished_count(polled.drop_last()) + if polled.last().finished() {
            1nat
        } else {
            0nat
        }
    }
}

/// The entries of `work` whose poll did not find them finished, in order.
pub open spec fn still_loading(work: Seq<Entry>, polled: Seq<LoadState>) -> Seq<Entry>
    recommends
        work.len() == polled.len(),
    decreases polled.len(),
{
    if polled.len() == 0 {
        Seq::empty()
    } else {
        let before = still_loading(work.drop_last(), polled.drop_last());
        if polled.last().finished() {
            before
        } else {
            before.push(work.last())
        }
    }
}

/// `complete` after the entries of `work` whose poll found them finished
/// were put into it, oldest first.
pub open spec fn landed(complete: Handles, work: Seq<Entry>, polled: Seq<LoadState>) -> Handles
    recommends
        work.len() == polled.len(),
    decreases polled.len(),
{
    if polled.len() == 0 {
        complete
    } else {
        let before = landed(complete, work.drop_last(), polled.drop_last());
        if polled.last().finished() {
            before.insert(work.last().0, work.last().1)
        } else {
            before
        }
    }
}

/// How many of the loads that were just started need no waiting for.
pub open spec fn early_count(started: Seq<Answer>) -> nat
    decreases started.len(),
{
    if started.len() == 0 {
        0
    } else {
        early_count(started.drop_last()) + if started.last().1.in_progress() {
            0nat
        } else {
            1nat
        }
    }
}

/// The requests whose load has to be waited for, each with its handle, in order.
pub open spec fn dispatched(requests: Seq<Seq<char>>, started: Seq<Answer>) -> Seq<Entry>
    recommends
        requests.len() == started.len(),
    decreases started.len(),
{
    if started.len() == 0 {
        Seq::empty()
    } else {
        let before = dispatched(requests.drop_last(), started.drop_last());
        if started.last().1.in_progress() {
            before.push((requests.last(), started.last().0))
        } else {
            before
        }
    }
}

/// A load of `path` was polled and found finished.
pub open spec fn found_finished(
    work: Seq<Entry>,
    polled: Seq<LoadState>,
    path: Seq<char>,
) -> bool {
    exists|j: int| 0 <= j < work.len() && (#[trigger] work[j]).0 == path && polled[j].finished()
}

/// Every polled load has come to an end.
pub open spec fn all_finished(polled: Seq<LoadState>) -> bool {
    forall|i: int| 0 <= i < polled.len() ==> (#[trigger] polled[i]).finished()
}

/// Every started load has to be waited for.
pub open spec fn all_in_progress(started: Seq<Answer>) -> bool {
    forall|i: int| 0 <= i < started.len() ==> (#[trigger] started[i]).1.in_progress()
}

/// No started load has to be waited for.
pub open spec fn none_in_progress(started: Seq<Answer>) -> bool {
    forall|i: int| 0 <= i < started.len() ==> !(#[trigger] started[i]).1.in_progress()
}

/// No more polled loads are finished than were polled.
pub proof fn lemma_finished_count_bound(polled: Seq<LoadState>)
    ensures
        finished_count(polled) <= polled.len(),
    decreases polled.len(),
{
    if polled.len() > 0 {
        lemma_finished_count_bound(polled.drop_last());
    }
}

/// No more started loads are resolved at once than were started.
pub proof fn lemma_early_count_bound(started: Seq<Answer>)
    ensures
        early_count(started) <= started.len(),
    decreases started.len(),
{
    if started.len() > 0 {
        lemma_early_count_bound(started.drop_last());
    }
}

/// Each polled load either stays in the work queue or is counted as finished.
pub proof fn lemma_settle_counts(work: Seq<Entry>, polled: Seq<LoadState>)
    requires
        work.len() == polled.len(),
    ensures
        still_loading(work, polled).len() + finished_count(polled) == polled.len(),
    decreases polled.len(),
{
    if polled.len() > 0 {
        lemma_settle_counts(work.drop_last(), polled.drop_last());
    }
}

/// Each started load either joins the work queue or is counted as resolved at once.
pub proof fn lemma_dispatch_counts(requests: Seq<Seq<char>>, started: Seq<Answer>)
    requires
        requests.len() == started.len(),
    ensures
        dispatched(requests, started).len() + early_count(started) == started.len(),
    decreases started.len(),
{
    if started.len() > 0 {
        lemma_dispatch_counts(requests.drop_last(), started.drop_last());
    }
}

/// When every polled load has come to an end, all are counted and none
/// stays in the work queue.
pub proof fn lemma_all_finished(work: Seq<Entry>, polled: Seq<LoadState>)
    requires
        work.len() == polled.len(),
        all_finished(polled),
    ensures
        finished_count(polled) == polled.len(),
        still_loading(work, polled) == Seq::<Entry>::empty(),
    decreases polled.len(),
{
    if polled.len() > 0 {
        assert(polled.last() == polled[polled.len() - 1]);
        let rest = polled.drop_last();
        assert forall|i: int| 0 <= i < rest.len() implies (#[trigger] rest[i]).finished() by {
            assert(rest[i] == polled[i]);
        }
        lemma_all_finished(work.drop_last(), polled.drop_last());
    }
}

/// When no started load has to be waited for, all are counted and none
/// joins the work queue.
pub proof fn lemma_none_in_progress(requests: Seq<Seq<char>>, started: Seq<Answer>)
    requires
        requests.len() == started.len(),
        none_in_progress(started),
    ensures
        early_count(started) == started.len(),
        dispatched(requests, started) == Seq::<Entry>::empty(),
    decreases started.len(),
{
    if started.len() > 0 {
        assert(started.last() == started[started.len() - 1]);
        let rest = started.drop_last();
        assert forall|i: int| 0 <= i < rest.len() implies !(#[trigger] rest[i]).1.in_progress() by {
            assert(rest[i] == started[i]);
        }
        lemma_none_in_progress(requests.drop_last(), started.drop_last());
    }
}

/// When every started load has to be waited for, none is counted as
/// resolved at once and each joins the work queue, in order.
pub proof fn lemma_all_in_progress(requests: Seq<Seq<char>>, started: Seq<Answer>)
    requires
        requests.len() == started.len(),
        all_in_progress(started),
    ensures
        early_count(started) == 0,
        dispatched(requests, started).len() == requests.len(),
        forall|i: int|
            0 <= i < requests.len() ==> #[trigger] dispatched(requests, started)[i] == (
                requests[i],
                started[i].0,
            ),
    decreases started.len(),
{
    if started.len() > 0 {
        assert(started.last() == started[started.len() - 1]);
        let rest = started.drop_last();
        assert forall|i: int| 0 <= i < rest.len() implies (#[trigger] rest[i]).1.in_progress() by {
            assert(rest[i] == started[i]);
        }
        lemma_all_in_progress(requests.drop_last(), started.drop_last());
    }
}

/// Each load that stays in the work queue was there before, after those
/// that stay before it, and was not found finished.
pub proof fn lemma_still_loading_origin(work: Seq<Entry>, polled: Seq<LoadState>, k: int)
    requires
        work.len() == polled.len(),
        0 <= k < still_loading(work, polled).len(),
    ensures
        exists|j: int|
            k <= j < work.len() && still_loading(work, polled)[k] == #[trigger] work[j]
                && !polled[j].finished(),
    decreases polled.len(),
{
    let before = still_loading(work.drop_last(), polled.drop_last());
    if k < before.len() {
        lemma_still_loading_origin(work.drop_last(), polled.drop_last(), k);
        let j = choose|j: int|
            k <= j < work.drop_last().len() && before[k] == #[trigger] work.drop_last()[j]
                && !polled.drop_last()[j].finished();
        assert(still_loading(work, polled)[k] == work[j] && !polled[j].finished());
    } else {
        lemma_settle_counts(work.drop_last(), polled.drop_last());
        lemma_finished_count_bound(polled.drop_last());
        let j = work.len() - 1;
        assert(still_loading(work, polled)[k] == work[j] && !polled[j].finished());
    }
}

/// Two loads that stay in the work queue had different paths if no two
/// loads in the queue had the same.
pub proof fn lemma_still_loading_distinct(work: Seq<Entry>, polled: Seq<LoadState>, a: int, b: int)
    requires
        work.len() == polled.len(),
        0 <= a < b < still_loading(work, polled).len(),
        forall|i: int, j: int| 0 <= i < j < work.len() ==> work[i].0 != work[j].0,
    ensures
        still_loading(work, polled)[a].0 != still_loading(work, polled)[b].0,
    decreases polled.len(),
{
    let before = still_loading(work.drop_last(), polled.drop_last());
    if b < before.len() {
        let rest = work.drop_last();
        assert forall|i: int, j: int| 0 <= i < j < rest.len() implies rest[i].0 != rest[j].0 by {
            assert(work[i].0 != work[j].0);
        }
        lemma_still_loading_distinct(work.drop_last(), polled.drop_last(), a, b);
    } else {
        lemma_still_loading_origin(work.drop_last(), polled.drop_last(), a);
        let from = choose|from: int|
            a <= from < work.drop_last().len() && before[a] == #[trigger] work.drop_last()[from]
                && !polled.drop_last()[from].finished();
        assert(work[from].0 != work[work.len() - 1].0);
    }
}

/// The completion queue holds a path after a poll exactly when it held it
/// before or a load of that path was found finished.
pub proof fn lemma_landed_paths(
    complete: Handles,
    work: Seq<Entry>,
    polled: Seq<LoadState>,
    path: Seq<char>,
)
    requires
        work.len() == polled.len(),
    ensures
        landed(complete, work, polled).contains_key(path) <==> complete.contains_key(path)
            || found_finished(work, polled, path),
    decreases polled.len(),
{
    if polled.len() > 0 {
        let last = work.len() - 1;
        lemma_landed_paths(complete, work.drop_last(), polled.drop_last(), path);
        if landed(complete, work, polled).contains_key(path) && !complete.contains_key(path) {
            if landed(complete, work.drop_last(), polled.drop_last()).contains_key(path) {
                let j = choose|j: int|
                    0 <= j < work.drop_last().len() && (#[trigger] work.drop_last()[j]).0 == path
                        && polled.drop_last()[j].finished();
                assert(work[j].0 == path && polled[j].finished());
            } else {
                assert(work[last].0 == path && polled[last].finished());
            }
        }
        if found_finished(work, polled, path) {
            let j = choose|j: int|
                0 <= j < work.len() && (#[trigger] work[j]).0 == path && polled[j].finished();
            if j < last {
                assert(work.drop_last()[j].0 == path && polled.drop_last()[j].finished());
            }
        }
    }
}

/// Each load that joins the work queue is that of a queued request, after
/// those that join before it, and has the handle that the server gave for it.
pub proof fn lemma_dispatched_origin(requests: Seq<Seq<char>>, started: Seq<Answer>, k: int)
    requires
        requests.len() == started.len(),
        0 <= k < dispatched(requests, started).len(),
    ensures
        exists|i: int|
            k <= i < requests.len() && dispatched(requests, started)[k] == (
                #[trigger] requests[i],
                started[i].0,
            ) && started[i].1.in_progress(),
    decreases started.len(),
{
    let before = dispatched(requests.drop_last(), started.drop_last());
    if k < before.len() {
        lemma_dispatched_origin(requests.drop_last(), started.drop_last(), k);
        let i = choose|i: int|
            k <= i < requests.drop_last().len() && before[k] == (
                #[trigger] requests.drop_last()[i],
                started.drop_last()[i].0,
            ) && started.drop_last()[i].1.in_progress();
        assert(dispatched(requests, started)[k] == (requests[i], started[i].0)
            && started[i].1.in_progress());
    } else {
        lemma_dispatch_counts(requests.drop_last(), started.drop_last());
        lemma_early_count_bound(started.drop_last());
        let i = requests.len() - 1;
        assert(dispatched(requests, started)[k] == (requests[i], started[i].0)
            && started[i].1.in_progress());
    }
}

/// Two loads that join the work queue have different paths if no two
/// queued requests had the same.
pub proof fn lemma_dispatched_distinct(
    requests: Seq<Seq<char>>,
    started: Seq<Answer>,
    a: int,
    b: int,
)
    requires
        requests.len() == started.len(),
        0 <= a < b < dispatched(requests, started).len(),
        forall|i: int, j: int| 0 <= i < j < requests.len() ==> requests[i] != requests[j],
    ensures
        dispatched(requests, started)[a].0 != dispatched(requests, started)[b].0,
    decreases started.len(),
{
    let before = dispatched(requests.drop_last(), started.drop_last());
    if b < before.len() {
        let rest = requests.drop_last();
        assert forall|i: int, j: int| 0 <= i < j < rest.len() implies rest[i] != rest[j] by {
            assert(requests[i] != requests[j]);
        }
        lemma_dispatched_distinct(requests.drop_last(), started.drop_last(), a, b);
    } else {
        lemma_dispatched_origin(requests.drop_last(), started.drop_last(), a);
        let from = choose|from: int|
            a <= from < requests.drop_last().len() && before[a] == (
                #[trigger] requests.drop_last()[from],
                started.drop_last()[from].0,
            ) && started.drop_last()[from].1.in_progress();
        assert(requests[from] != requests[requests.len() - 1]);
    }
}

} // verus!
