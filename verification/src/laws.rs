//! Laws of the loader: what holds of every loader across several
//! operations, proved from what each operation is said to do.

use vstd::prelude::*;
use crate::model::LoaderView;
use crate::queues::{
    all_finished, all_in_progress, dispatched, early_count, finished_count, lemma_all_finished,
    lemma_all_in_progress, lemma_dispatch_counts, lemma_dispatched_distinct,
    lemma_dispatched_origin, lemma_early_count_bound, lemma_finished_count_bound,
    lemma_landed_paths, lemma_none_in_progress, lemma_settle_counts, lemma_still_loading_distinct,
    lemma_still_loading_origin, none_in_progress, Answer,
};
use crate::state::{LoadState, State};

verus! {

/// A loader is empty exactly when its pending count is zero.
pub proof fn lemma_empty_iff_nothing_pending(loader: LoaderView)
    ensures
        loader.is_empty() <==> loader.pending == 0,
{
}

/// A loader that was just made has no total and nothing pending, is not
/// done, and reports a progress of one of one.
pub proof fn lemma_fresh_loader()
    ensures
        LoaderView::fresh().wf(),
        LoaderView::fresh().total == 0,
        LoaderView::fresh().pending == 0,
        LoaderView::fresh().is_empty(),
        !LoaderView::fresh().is_done(),
        LoaderView::fresh().accepts_requests(),
        LoaderView::fresh().progress() == (1nat, 1nat),
{
}

/// Enqueueing some paths adds them to the queue, in order, and as many to
/// the pending count, and changes nothing else.
pub proof fn lemma_enqueue_all(loader: LoaderView, paths: Seq<Seq<char>>)
    ensures
        loader.after_enqueue_all(paths) == (LoaderView {
            requests: loader.requests + paths,
            pending: loader.pending + paths.len(),
            ..loader
        }),
        loader.wf() && loader.accepts_requests() ==> loader.after_enqueue_all(paths).wf(),
    decreases paths.len(),
{
    if paths.len() == 0 {
        assert(loader.requests + paths =~= loader.requests);
    } else {
        lemma_enqueue_all(loader, paths.drop_last());
        let before = loader.requests + paths.drop_last();
        assert(before.push(paths.last()) =~= loader.requests + paths);
    }
}

/// Enqueueing `n` paths into a new loader and submitting them gives a
/// total of `n` and a pending count of `n`.
pub proof fn lemma_enqueue_then_submit(paths: Seq<Seq<char>>)
    ensures
        LoaderView::fresh().after_enqueue_all(paths).accepts_requests(),
        LoaderView::fresh().after_enqueue_all(paths).after_submit().wf(),
        LoaderView::fresh().after_enqueue_all(paths).after_submit().total == paths.len(),
        LoaderView::fresh().after_enqueue_all(paths).after_submit().pending == paths.len(),
        LoaderView::fresh().after_enqueue_all(paths).after_submit().state == State::Loading,
{
    lemma_enqueue_all(LoaderView::fresh(), paths);
}

/// Once a batch is submitted the loader accepts no request, whatever is
/// ticked or taken, until it is reset; a reset loader accepts requests.
pub proof fn lemma_submit_closes_until_reset(
    loader: LoaderView,
    polled: Seq<LoadState>,
    started: Seq<Answer>,
    path: Seq<char>,
)
    requires
        loader.accepts_requests(),
    ensures
        !loader.after_submit().accepts_requests(),
        !loader.after_submit().after_tick(polled, started).accepts_requests(),
        !loader.after_submit().after_take(path).accepts_requests(),
        loader.after_submit().after_reset().accepts_requests(),
{
}

/// A tick and a take leave a loader that accepts no request as one that
/// accepts none, and no operation changes the total of a submitted batch
/// but a reset.
pub proof fn lemma_batch_stays_closed(
    loader: LoaderView,
    polled: Seq<LoadState>,
    started: Seq<Answer>,
    path: Seq<char>,
)
    requires
        !loader.accepts_requests(),
    ensures
        !loader.after_tick(polled, started).accepts_requests(),
        !loader.after_take(path).accepts_requests(),
        loader.after_tick(polled, started).total == loader.total,
        loader.after_take(path).total == loader.total,
{
}

/// A tick never raises the pending count: it lowers it by the number of
/// loads found finished and of loads resolved at once.
pub proof fn lemma_tick_never_adds_pending(
    loader: LoaderView,
    polled: Seq<LoadState>,
    started: Seq<Answer>,
)
    requires
        loader.wf(),
        polled.len() == loader.work.len(),
        started.len() == loader.requests.len(),
    ensures
        loader.after_tick(polled, started).wf(),
        loader.after_tick(polled, started).pending <= loader.pending,
        loader.after_tick(polled, started).pending == loader.pending - finished_count(polled)
            - early_count(started),
{
    lemma_finished_count_bound(polled);
    lemma_early_count_bound(started);
    lemma_settle_counts(loader.work, polled);
    lemma_dispatch_counts(loader.requests, started);
}

/// A tick changes the state in one way only: a submitted batch with
/// pending requests is done when the tick leaves none pending. An idle
/// loader stays idle and a batch that is done stays done.
pub proof fn lemma_tick_moves_only_to_done(
    loader: LoaderView,
    polled: Seq<LoadState>,
    started: Seq<Answer>,
)
    requires
        loader.wf(),
        polled.len() == loader.work.len(),
        started.len() == loader.requests.len(),
    ensures
        loader.after_tick(polled, started).state == (if loader.state == State::Loading
            && loader.pending > 0 && loader.after_tick(polled, started).pending == 0 {
            State::Done
        } else {
            loader.state
        }),
        loader.after_tick(polled, started).is_done() ==> loader.after_tick(
            polled,
            started,
        ).pending == 0,
{
    lemma_finished_count_bound(polled);
    lemma_early_count_bound(started);
    lemma_settle_counts(loader.work, polled);
    lemma_dispatch_counts(loader.requests, started);
}

/// When the asset server reports every load as ended, one tick leaves
/// nothing pending, and a submitted batch that had requests pending is
/// done.
pub proof fn lemma_all_ended_leaves_nothing_pending(
    loader: LoaderView,
    polled: Seq<LoadState>,
    started: Seq<Answer>,
)
    requires
        loader.wf(),
        polled.len() == loader.work.len(),
        started.len() == loader.requests.len(),
        all_finished(polled),
        none_in_progress(started),
    ensures
        loader.after_tick(polled, started).pending == 0,
        loader.after_tick(polled, started).work.len() == 0,
        loader.after_tick(polled, started).requests.len() == 0,
        loader.state == State::Loading && loader.pending > 0 ==> loader.after_tick(
            polled,
            started,
        ).is_done(),
{
    lemma_all_finished(loader.work, polled);
    lemma_none_in_progress(loader.requests, started);
    lemma_tick_moves_only_to_done(loader, polled, started);
}

/// A batch of at least one path, submitted from a new loader, is done
/// after one tick when the asset server reports no load as in progress at
/// its start: nothing is pending, and no handle is kept.
pub proof fn lemma_batch_resolved_at_start_is_done(paths: Seq<Seq<char>>, started: Seq<Answer>)
    requires
        paths.len() > 0,
        started.len() == paths.len(),
        none_in_progress(started),
    ensures
        ({
            let submitted = LoaderView::fresh().after_enqueue_all(paths).after_submit();
            let ended = submitted.after_tick(Seq::empty(), started);
            &&& ended.wf()
            &&& ended.pending == 0
            &&& ended.is_done()
            &&& ended.total == paths.len()
            &&& forall|path: Seq<char>| !ended.is_loaded(path)
        }),
{
    let submitted = LoaderView::fresh().after_enqueue_all(paths).after_submit();
    lemma_enqueue_all(LoaderView::fresh(), paths);
    assert(submitted.requests =~= paths);
    assert(submitted.after_settle(Seq::empty()) =~= submitted);
    lemma_tick_never_adds_pending(submitted, Seq::empty(), started);
    lemma_all_ended_leaves_nothing_pending(submitted, Seq::empty(), started);
}

/// A batch of at least one path runs to its end in two ticks when the
/// asset server first reports every load as in progress and then every
/// load as finished: nothing is pending, the batch is done, its total is
/// the number of paths, and a handle can be taken for each path.
pub proof fn lemma_batch_runs_to_done(
    paths: Seq<Seq<char>>,
    started: Seq<Answer>,
    polled: Seq<LoadState>,
)
    requires
        paths.len() > 0,
        started.len() == paths.len(),
        polled.len() == paths.len(),
        all_in_progress(started),
        all_finished(polled),
    ensures
        ({
            let submitted = LoaderView::fresh().after_enqueue_all(paths).after_submit();
            let loading = submitted.after_tick(Seq::empty(), started);
            let ended = loading.after_tick(polled, Seq::empty());
            &&& loading.pending == paths.len()
            &&& !loading.is_done()
            &&& ended.wf()
            &&& ended.pending == 0
            &&& ended.is_done()
            &&& ended.total == paths.len()
            &&& forall|i: int| 0 <= i < paths.len() ==> ended.is_loaded(#[trigger] paths[i])
        }),
{
    let submitted = LoaderView::fresh().after_enqueue_all(paths).after_submit();
    let loading = submitted.after_tick(Seq::empty(), started);
    let ended = loading.after_tick(polled, Seq::empty());
    lemma_enqueue_all(LoaderView::fresh(), paths);
    assert(submitted.requests =~= paths);
    assert(submitted.after_settle(Seq::empty()) =~= submitted);
    lemma_all_in_progress(paths, started);
    assert(loading.work =~= dispatched(paths, started));
    lemma_tick_never_adds_pending(submitted, Seq::empty(), started);
    lemma_tick_never_adds_pending(loading, polled, Seq::empty());
    lemma_all_ended_leaves_nothing_pending(loading, polled, Seq::empty());
    assert forall|i: int| 0 <= i < paths.len() implies ended.is_loaded(#[trigger] paths[i]) by {
        lemma_landed_paths(loading.complete, loading.work, polled, paths[i]);
        assert(loading.work[i].0 == paths[i] && polled[i].finished());
    }
}

/// A tick of a loader with nothing pending changes nothing; so once a
/// batch is done, further ticks leave it as it is.
pub proof fn lemma_tick_with_nothing_pending(
    loader: LoaderView,
    polled: Seq<LoadState>,
    started: Seq<Answer>,
)
    requires
        loader.wf(),
        polled.len() == loader.work.len(),
        started.len() == loader.requests.len(),
        loader.pending == 0,
    ensures
        loader.after_tick(polled, started) == loader,
{
    assert(polled.len() == 0);
    assert(started.len() == 0);
    assert(loader.work =~= Seq::empty());
    assert(loader.requests =~= Seq::empty());
    assert(loader.after_settle(polled) =~= loader);
    assert(loader.after_tick(polled, started) =~= loader);
}

/// A handle is taken at most once: a take gives the handle that the
/// loader holds for the path, and a second take of the same path gives
/// nothing, until the path is loaded anew.
pub proof fn lemma_take_at_most_once(loader: LoaderView, path: Seq<char>)
    ensures
        loader.is_loaded(path) ==> loader.taken(path) == Some(loader.complete[path]),
        !loader.is_loaded(path) ==> loader.taken(path).is_none(),
        !loader.after_take(path).is_loaded(path),
        loader.after_take(path).taken(path).is_none(),
        loader.after_take(path).after_take(path) == loader.after_take(path),
{
    assert(loader.complete.remove(path).remove(path) =~= loader.complete.remove(path));
}

/// A reset of a loader that is not idle gives a loader like a new one: it
/// is empty, has no total, is not done, and accepts requests.
pub proof fn lemma_reset_gives_fresh(loader: LoaderView)
    requires
        !loader.accepts_requests(),
    ensures
        loader.after_reset() == LoaderView::fresh(),
        loader.after_reset().wf(),
        loader.after_reset().is_empty(),
        loader.after_reset().total == 0,
        !loader.after_reset().is_done(),
        loader.after_reset().accepts_requests(),
{
}

/// When a batch is submitted with no load in flight, its pending requests
/// are part of its total; so they are in a new loader and after a reset.
pub proof fn lemma_submit_within_total(loader: LoaderView)
    requires
        loader.wf(),
        loader.accepts_requests(),
        loader.work.len() == 0,
    ensures
        loader.after_submit().within_total(),
        loader.after_reset().within_total(),
        LoaderView::fresh().within_total(),
{
}

/// Pending requests that are part of the total stay so whatever is ticked
/// or taken.
pub proof fn lemma_stays_within_total(
    loader: LoaderView,
    polled: Seq<LoadState>,
    started: Seq<Answer>,
    path: Seq<char>,
)
    requires
        loader.wf(),
        loader.within_total(),
        polled.len() == loader.work.len(),
        started.len() == loader.requests.len(),
    ensures
        loader.after_tick(polled, started).within_total(),
        loader.after_take(path).within_total(),
{
    lemma_tick_never_adds_pending(loader, polled, started);
}

/// A poll leaves no path in two places if none was before.
pub proof fn lemma_settle_keeps_apart(loader: LoaderView, polled: Seq<LoadState>)
    requires
        loader.paths_apart(),
        polled.len() == loader.work.len(),
    ensures
        loader.after_settle(polled).paths_apart(),
{
    let next = loader.after_settle(polled);
    assert forall|i: int, j: int| 0 <= i < j < next.work.len() implies next.work[i].0
        != next.work[j].0 by {
        lemma_still_loading_origin(loader.work, polled, i);
        lemma_still_loading_distinct(loader.work, polled, i, j);
    }
    assert forall|i: int, j: int|
        0 <= i < next.requests.len() && 0 <= j < next.work.len() implies next.requests[i]
        != next.work[j].0 by {
        lemma_still_loading_origin(loader.work, polled, j);
    }
    assert forall|i: int| 0 <= i < next.requests.len() implies !next.complete.contains_key(
        #[trigger] next.requests[i],
    ) by {
        lemma_landed_paths(loader.complete, loader.work, polled, next.requests[i]);
    }
    assert forall|j: int| 0 <= j < next.work.len() implies !next.complete.contains_key(
        (#[trigger] next.work[j]).0,
    ) by {
        lemma_still_loading_origin(loader.work, polled, j);
        let from = choose|from: int|
            j <= from < loader.work.len() && next.work[j] == #[trigger] loader.work[from]
                && !polled[from].finished();
        lemma_landed_paths(loader.complete, loader.work, polled, next.work[j].0);
        if next.complete.contains_key(next.work[j].0) {
            let other = choose|other: int|
                0 <= other < loader.work.len() && (#[trigger] loader.work[other]).0
                    == next.work[j].0 && polled[other].finished();
            assert(other != from);
            if other < from {
                assert(loader.work[other].0 != loader.work[from].0);
            } else {
                assert(loader.work[from].0 != loader.work[other].0);
            }
        }
    }
}

/// Handing the queued requests to the server leaves no path in two places
/// if none was before.
pub proof fn lemma_dispatch_keeps_apart(loader: LoaderView, started: Seq<Answer>)
    requires
        loader.paths_apart(),
        started.len() == loader.requests.len(),
    ensures
        loader.after_dispatch(started).paths_apart(),
{
    let next = loader.after_dispatch(started);
    let joined = dispatched(loader.requests, started);
    let kept = loader.work.len();
    assert forall|j: int| 0 <= j < next.work.len() implies (j < kept && next.work[j]
        == loader.work[j]) || (j >= kept && exists|i: int|
        0 <= i < loader.requests.len() && (#[trigger] next.work[j]).0
            == #[trigger] loader.requests[i]) by {
        if j >= kept {
            lemma_dispatched_origin(loader.requests, started, j - kept);
            let i = choose|i: int|
                j - kept <= i < loader.requests.len() && joined[j - kept] == (
                    #[trigger] loader.requests[i],
                    started[i].0,
                ) && started[i].1.in_progress();
            assert(next.work[j].0 == loader.requests[i]);
        }
    }
    assert forall|i: int, j: int| 0 <= i < j < next.work.len() implies next.work[i].0
        != next.work[j].0 by {
        if j < kept {
            assert(loader.work[i].0 != loader.work[j].0);
        } else if i < kept {
            let from = choose|from: int|
                0 <= from < loader.requests.len() && (#[trigger] next.work[j]).0
                    == #[trigger] loader.requests[from];
            assert(loader.requests[from] != loader.work[i].0);
        } else {
            lemma_dispatched_distinct(loader.requests, started, i - kept, j - kept);
        }
    }
    assert forall|j: int| 0 <= j < next.work.len() implies !next.complete.contains_key(
        (#[trigger] next.work[j]).0,
    ) by {
        if j >= kept {
            let from = choose|from: int|
                0 <= from < loader.requests.len() && (#[trigger] next.work[j]).0
                    == #[trigger] loader.requests[from];
            assert(!loader.complete.contains_key(loader.requests[from]));
        } else {
            assert(!loader.complete.contains_key(loader.work[j].0));
        }
    }
}

/// A loader that tracks no path in two places goes on doing so: after a
/// tick, a take, a submission and a reset, and after a path is enqueued
/// that it did not track.
pub proof fn lemma_paths_stay_apart(
    loader: LoaderView,
    polled: Seq<LoadState>,
    started: Seq<Answer>,
    path: Seq<char>,
)
    requires
        loader.paths_apart(),
        polled.len() == loader.work.len(),
        started.len() == loader.requests.len(),
    ensures
        LoaderView::fresh().paths_apart(),
        loader.after_settle(polled).paths_apart(),
        loader.after_dispatch(started).paths_apart(),
        loader.after_tick(polled, started).paths_apart(),
        loader.after_take(path).paths_apart(),
        loader.after_submit().paths_apart(),
        loader.after_reset().paths_apart(),
        !loader.tracks(path) ==> loader.after_enqueue(path).paths_apart(),
{
    lemma_settle_keeps_apart(loader, polled);
    lemma_dispatch_keeps_apart(loader, started);
    lemma_dispatch_keeps_apart(loader.after_settle(polled), started);
    if !loader.tracks(path) {
        let next = loader.after_enqueue(path);
        assert forall|i: int, j: int| 0 <= i < j < next.requests.len() implies next.requests[i]
            != next.requests[j] by {
            if j == loader.requests.len() {
                assert(loader.requests[i] != path);
            }
        }
        assert forall|i: int, j: int|
            0 <= i < next.requests.len() && 0 <= j < next.work.len() implies next.requests[i]
            != next.work[j].0 by {
            if i == loader.requests.len() {
                assert(loader.work[j].0 != path);
            }
        }
    }
}

} // verus!
