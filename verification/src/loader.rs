//! The batch loader.

use vstd::prelude::*;
use vstd::std_specs::iter::IteratorSpec;
use std::collections::HashMap;
use std::sync::atomic::AtomicUsize;
use bevy::asset::{AssetServer, HandleUntyped};
use parking_lot::{Mutex, RwLock};
use crate::backend::{load_state, start_load};
use crate::cells::{
    completed_clear, completed_has, completed_held, completed_insert, completed_remove,
    count_held, count_mut, count_now, entries, new_completed, new_counter, new_requests,
    new_state_lock, new_work, requests_held, requests_mut, state_held, state_mut, state_now,
    work_held, work_mut,
};
use crate::laws::{
    lemma_tick_moves_only_to_done, lemma_tick_never_adds_pending, lemma_tick_with_nothing_pending,
};
use crate::model::LoaderView;
use crate::queues::{
    dispatched, lemma_dispatch_counts, lemma_settle_counts, still_loading, Answer,
};
use crate::progress::Ratio;
use crate::state::{ContractViolation, LoadState, State};

verus! {

/// The next item of an iterator that runs through a known sequence.
fn next_item<I: Iterator>(iter: &mut I) -> (item: Option<I::Item>)
    requires
        (*old(iter)).obeys_prophetic_iter_laws(),
    ensures
        (*final(iter)).obeys_prophetic_iter_laws(),
        (*old(iter)).remaining().len() > 0 ==> item == Some((*old(iter)).remaining()[0])
            && (*final(iter)).remaining() == (*old(iter)).remaining().drop_first(),
        (*old(iter)).remaining().len() == 0 ==> item.is_none() && (*final(iter)).remaining() == (
        *old(iter)).remaining(),
{
    iter.next()
}

/// Loads a group of assets together and tells when all of them have come
/// to an end, so that nobody has to poll each asset.
///
/// A loader starts idle. Requests are added with [`Loader::enqueue`] and
/// handed to the asset server as one batch with [`Loader::submit`]. Each
/// [`Loader::tick`] then polls the server; once [`Loader::is_done`] holds,
/// the handles can be had with [`Loader::take`]. [`Loader::reset`] forgets
/// the batch and makes the loader idle again.
#[derive(Debug)]
pub struct Loader {
    /// Phase of the batch.
    state: RwLock<State>,
    /// Number of requests that have not come to an end.
    count: AtomicUsize,
    /// Number of requests in the batch, fixed when it is submitted.
    total: usize,
    /// Paths not yet handed to the asset server.
    request_queue: Mutex<Vec<String>>,
    /// Loads that the asset server is working on.
    work_queue: Mutex<Vec<(String, HandleUntyped)>>,
    /// Handles of the loads that were seen to finish, until they are taken.
    complete_queue: Mutex<HashMap<String, HandleUntyped>>,
}

impl View for Loader {
    type V = LoaderView;

    closed spec fn view(&self) -> LoaderView {
        LoaderView {
            state: state_held(self.state),
            total: self.total as nat,
            pending: count_held(self.count) as nat,
            requests: requests_held(self.request_queue),
            work: work_held(self.work_queue),
            complete: completed_held(self.complete_queue),
        }
    }
}

impl Default for Loader {
    /// An empty, idle loader.
    fn default() -> (loader: Loader)
        ensures
            loader@ == LoaderView::fresh(),
            loader.wf(),
    {
        Loader {
            state: new_state_lock(State::Ready),
            count: new_counter(0),
            total: 0,
            request_queue: new_requests(),
            work_queue: new_work(),
            complete_queue: new_completed(),
        }
    }
}

impl Loader {
    /// What holds of every loader that this module hands out.
    pub open spec fn wf(&self) -> bool {
        self@.wf()
    }

    /// An empty, idle loader.
    pub fn new() -> (loader: Loader)
        ensures
            loader@ == LoaderView::fresh(),
            loader.wf(),
    {
        Loader::default()
    }

    /// Makes the loader idle again, so that a new batch can be enqueued.
    /// The pending requests and the handles not yet taken are forgotten; the
    /// asset server is not told, and may go on loading. An idle loader is
    /// left as it is.
    pub fn reset(&mut self)
        ensures
            final(self)@ == old(self)@.after_reset(),
            old(self).wf() ==> final(self).wf(),
    {
        if state_now(&self.state) != State::Ready {
            requests_mut(&mut self.request_queue).clear();
            work_mut(&mut self.work_queue).clear();
            *count_mut(&mut self.count) = 0;
            self.total = 0;
            completed_clear(&mut self.complete_queue);
            *state_mut(&mut self.state) = State::Ready;
        }
    }

    /// Adds a request for the asset at `path` to the batch.
    ///
    /// The loader has to be idle: see [`Loader::try_enqueue`] for a call
    /// that tests it.
    pub fn enqueue(&mut self, path: &str)
        requires
            old(self).wf(),
            old(self)@.state == State::Ready,
            old(self)@.pending < usize::MAX,
        ensures
            final(self)@ == old(self)@.after_enqueue(path@),
            final(self).wf(),
    {
        requests_mut(&mut self.request_queue).push(path.to_owned());
        let count = count_mut(&mut self.count);
        *count = *count + 1;
    }

    /// Adds a request for the asset at `path` to the batch if the loader is
    /// idle, and says so if it is not.
    pub fn try_enqueue(&mut self, path: &str) -> (outcome: Result<(), ContractViolation>)
        requires
            old(self).wf(),
            old(self)@.pending < usize::MAX,
        ensures
            final(self).wf(),
            old(self)@.state == State::Ready ==> outcome == Ok::<(), ContractViolation>(())
                && final(self)@ == old(self)@.after_enqueue(path@),
            old(self)@.state != State::Ready ==> outcome == Err::<(), ContractViolation>(
                ContractViolation::NotReady,
            ) && final(self)@ == old(self)@,
    {
        if state_now(&self.state) == State::Ready {
            self.enqueue(path);
            Ok(())
        } else {
            Err(ContractViolation::NotReady)
        }
    }

    /// Submits the batch: its total is fixed at the number of queued
    /// requests, and no request can be added until the loader is reset.
    ///
    /// The loader has to be idle: see [`Loader::try_submit`] for a call that
    /// tests it.
    pub fn submit(&mut self)
        requires
            old(self).wf(),
            old(self)@.state == State::Ready,
        ensures
            final(self)@ == old(self)@.after_submit(),
            final(self).wf(),
    {
        self.total = requests_mut(&mut self.request_queue).len();
        *state_mut(&mut self.state) = State::Loading;
    }

    /// Submits the batch if the loader is idle, and says so if it is not.
    pub fn try_submit(&mut self) -> (outcome: Result<(), ContractViolation>)
        requires
            old(self).wf(),
        ensures
            final(self).wf(),
            old(self)@.state == State::Ready ==> outcome == Ok::<(), ContractViolation>(())
                && final(self)@ == old(self)@.after_submit(),
            old(self)@.state != State::Ready ==> outcome == Err::<(), ContractViolation>(
                ContractViolation::NotReady,
            ) && final(self)@ == old(self)@,
    {
        if state_now(&self.state) == State::Ready {
            self.submit();
            Ok(())
        } else {
            Err(ContractViolation::NotReady)
        }
    }

    /// Takes the handle of the load of `path` out of the loader, if that
    /// load was seen to finish and the handle was not taken before. The
    /// loader then holds no handle for `path`.
    pub fn take(&mut self, path: &str) -> (handle: Option<HandleUntyped>)
        ensures
            handle == old(self)@.taken(path@),
            final(self)@ == old(self)@.after_take(path@),
            old(self).wf() ==> final(self).wf(),
    {
        completed_remove(&mut self.complete_queue, path)
    }

    /// Brings the loader up to date with a poll of its loads in flight:
    /// `polled[i]` is the state that the asset server reported for the
    /// `i`-th entry of the work queue. A load that was loaded or has failed
    /// leaves the work queue for the completion queue and is no longer
    /// pending; when the last pending request of a submitted batch goes
    /// this way the batch is done.
    pub fn settle(&mut self, polled: &Vec<LoadState>)
        requires
            old(self).wf(),
            polled.len() == old(self)@.work.len(),
        ensures
            final(self)@ == old(self)@.after_settle(polled@),
            final(self).wf(),
    {
        let ghost before = self@;
        let mut kept: usize = 0;
        let mut seen: usize = 0;
        proof {
            assert(before.work.take(0) =~= Seq::empty());
            assert(polled@.take(0) =~= Seq::empty());
            assert(before.work.skip(0) =~= before.work);
            assert(self@ =~= before.settled_up_to(polled@, 0));
        }
        while seen < polled.len()
            invariant
                before.wf(),
                polled.len() == before.work.len(),
                seen <= polled.len(),
                kept == still_loading(
                    before.work.take(seen as int),
                    polled@.take(seen as int),
                ).len(),
                self@ == before.settled_up_to(polled@, seen as int),
            decreases polled.len() - seen,
        {
            let ghost work_seen = before.work.take(seen as int);
            let ghost polled_seen = polled@.take(seen as int);
            let ghost work_next = before.work.take(seen + 1);
            let ghost polled_next = polled@.take(seen + 1);
            proof {
                lemma_settle_counts(work_seen, polled_seen);
                assert(work_next.drop_last() =~= work_seen);
                assert(polled_next.drop_last() =~= polled_seen);
                assert(work_next.last() == before.work[seen as int]);
                assert(polled_next.last() == polled@[seen as int]);
            }
            if polled[seen].is_finished() {
                let work = work_mut(&mut self.work_queue);
                let ghost held = work@;
                let (path, handle) = work.remove(kept);
                proof {
                    assert(entries(held)[kept as int] == (path@, handle));
                    assert(entries(work@) =~= entries(held).remove(kept as int));
                }
                completed_insert(&mut self.complete_queue, path, handle);
                self.resolve_one();
                proof {
                    assert(self@.work =~= still_loading(work_next, polled_next) + before.work.skip(
                        seen + 1,
                    ));
                }
            } else {
                kept = kept + 1;
                proof {
                    assert(self@.work =~= still_loading(work_next, polled_next) + before.work.skip(
                        seen + 1,
                    ));
                }
            }
            seen = seen + 1;
            proof {
                assert(self@ =~= before.settled_up_to(polled@, seen as int));
            }
        }
        proof {
            assert(before.work.take(seen as int) =~= before.work);
            assert(polled@.take(seen as int) =~= polled@);
            assert(before.work.skip(seen as int) =~= Seq::empty());
            lemma_settle_counts(before.work, polled@);
            assert(self@ =~= before.after_settle(polled@));
        }
    }

    /// Brings the loader up to date with the start of its queued requests:
    /// `started[i]` is the handle that the asset server gave for the `i`-th
    /// queued path, with the state it reported at once. The request queue is
    /// emptied in one step. A load that is in progress joins the work queue;
    /// any other is no longer pending, and its handle is dropped; when the
    /// last pending request of a submitted batch goes this way the batch is
    /// done.
    pub fn dispatch(&mut self, started: Vec<Answer>)
        requires
            old(self).wf(),
            started.len() == old(self)@.requests.len(),
        ensures
            final(self)@ == old(self)@.after_dispatch(started@),
            final(self).wf(),
    {
        let ghost before = self@;
        let mut requests: Vec<String> = Vec::new();
        core::mem::swap(requests_mut(&mut self.request_queue), &mut requests);
        let ghost queued = requests@;
        let mut paths = requests.into_iter();
        let mut answers = started.into_iter();
        let ghost mut seen: int = 0;
        proof {
            assert(requests_held(self.request_queue) =~= Seq::empty());
            assert(queued.len() == before.requests.len());
            assert forall|i: int| 0 <= i < queued.len() implies queued[i]@
                == before.requests[i] by {
                assert(requests.deep_view()[i] == queued[i]@);
            }
            assert(before.requests.take(0) =~= Seq::empty());
            assert(started@.take(0) =~= Seq::empty());
            assert(self@ =~= before.dispatched_up_to(started@, 0));
        }
        loop
            invariant
                before.wf(),
                started.len() == before.requests.len(),
                queued.len() == before.requests.len(),
                forall|i: int|
                    0 <= i < queued.len() ==> (#[trigger] queued[i])@ == before.requests[i],
                0 <= seen <= started.len(),
                paths.remaining() == queued.skip(seen),
                answers.remaining() == started@.skip(seen),
                self@ == before.dispatched_up_to(started@, seen),
            ensures
                seen == started.len(),
                self@ == before.dispatched_up_to(started@, seen),
            decreases started.len() - seen,
        {
            let path = match next_item(&mut paths) {
                Some(path) => path,
                None => {
                    break ;
                },
            };
            let (handle, state) = match next_item(&mut answers) {
                Some(answer) => answer,
                None => {
                    break ;
                },
            };
            let ghost requests_seen = before.requests.take(seen);
            let ghost started_seen = started@.take(seen);
            let ghost requests_next = before.requests.take(seen + 1);
            let ghost started_next = started@.take(seen + 1);
            proof {
                lemma_dispatch_counts(requests_seen, started_seen);
                assert(requests_next.drop_last() =~= requests_seen);
                assert(started_next.drop_last() =~= started_seen);
                assert(requests_next.last() == before.requests[seen]);
                assert(started_next.last() == started@[seen]);
                assert(path == queued[seen]);
                assert((handle, state) == started@[seen]);
            }
            if state.is_in_progress() {
                let work = work_mut(&mut self.work_queue);
                let ghost held = work@;
                work.push((path, handle));
                proof {
                    assert(entries(work@) =~= entries(held).push((path@, handle)));
                }
            } else {
                self.resolve_one();
            }
            proof {
                seen = seen + 1;
                assert(self@.work =~= before.work + dispatched(requests_next, started_next));
                assert(self@ =~= before.dispatched_up_to(started@, seen));
            }
        }
        proof {
            assert(before.requests.take(seen) =~= before.requests);
            assert(started@.take(seen) =~= started@);
            lemma_dispatch_counts(before.requests, started@);
            assert(self@ =~= before.after_dispatch(started@));
        }
    }

    /// Counts one pending request as resolved. A submitted batch whose last
    /// pending request this was is done.
    fn resolve_one(&mut self)
        requires
            count_held(old(self).count) > 0,
        ensures
            count_held(final(self).count) == count_held(old(self).count) - 1,
            state_held(final(self).state) == (if state_held(old(self).state) == State::Loading
                && count_held(old(self).count) == 1 {
                State::Done
            } else {
                state_held(old(self).state)
            }),
            final(self).total == old(self).total,
            final(self).request_queue == old(self).request_queue,
            final(self).work_queue == old(self).work_queue,
            final(self).complete_queue == old(self).complete_queue,
    {
        let count = count_mut(&mut self.count);
        *count = *count - 1;
        let none_left = *count == 0;
        if none_left && state_now(&self.state) == State::Loading {
            *state_mut(&mut self.state) = State::Done;
        }
    }

    /// Asks the asset server for the state of each load in flight, oldest
    /// first.
    fn poll(&mut self, asset_server: &AssetServer) -> (polled: Vec<LoadState>)
        ensures
            final(self)@ == old(self)@,
            polled.len() == old(self)@.work.len(),
    {
        let mut polled: Vec<LoadState> = Vec::new();
        let mut i: usize = 0;
        while i < work_mut(&mut self.work_queue).len()
            invariant
                self@ == old(self)@,
                i <= self@.work.len(),
                polled.len() == i,
            decreases self@.work.len() - i,
        {
            let state = load_state(asset_server, &work_mut(&mut self.work_queue)[i].1);
            polled.push(state);
            i = i + 1;
        }
        polled
    }

    /// Asks the asset server to load each queued path, oldest first, and
    /// for the state of each load as soon as it has begun.
    fn start(&mut self, asset_server: &AssetServer) -> (started: Vec<Answer>)
        ensures
            final(self)@ == old(self)@,
            started.len() == old(self)@.requests.len(),
    {
        let mut started: Vec<Answer> = Vec::new();
        let mut i: usize = 0;
        while i < requests_mut(&mut self.request_queue).len()
            invariant
                self@ == old(self)@,
                i <= self@.requests.len(),
                started.len() == i,
            decreases self@.requests.len() - i,
        {
            let requests = requests_mut(&mut self.request_queue);
            let handle = start_load(asset_server, requests[i].as_str());
            let state = load_state(asset_server, &handle);
            started.push((handle, state));
            i = i + 1;
        }
        started
    }

    /// Brings the loader up to date with the asset server. The loads in
    /// flight are polled and those that have come to an end are settled;
    /// then the queued requests are handed to the server. A submitted batch
    /// is done when the tick brings its pending count to zero.
    ///
    /// What the server answers is its own affair, so the loader ends as
    /// [`LoaderView::after_tick`] says for some answers, one for each load in
    /// flight and one for each queued request.
    pub fn tick(&mut self, asset_server: &AssetServer)
        requires
            old(self).wf(),
        ensures
            final(self).wf(),
            exists|polled: Seq<LoadState>, started: Seq<Answer>|
                polled.len() == old(self)@.work.len() && started.len() == old(self)@.requests.len()
                    && final(self)@ == #[trigger] old(self)@.after_tick(polled, started),
            final(self)@.pending <= old(self)@.pending,
            final(self)@.total == old(self)@.total,
            final(self)@.requests.len() == 0,
            final(self)@.state == (if old(self)@.state == State::Loading && old(self)@.pending > 0
                && final(self)@.pending == 0 {
                State::Done
            } else {
                old(self)@.state
            }),
            old(self)@.pending == 0 ==> final(self)@ == old(self)@,
    {
        let polled = self.poll(asset_server);
        self.settle(&polled);
        let started = self.start(asset_server);
        let ghost answers = started@;
        self.dispatch(started);
        proof {
            assert(self@ == old(self)@.after_tick(polled@, answers));
            lemma_tick_never_adds_pending(old(self)@, polled@, answers);
            lemma_tick_moves_only_to_done(old(self)@, polled@, answers);
            if old(self)@.pending == 0 {
                lemma_tick_with_nothing_pending(old(self)@, polled@, answers);
            }
        }
    }

    /// The phase of the batch.
    pub fn state(&self) -> (state: State)
        ensures
            state == self@.state,
    {
        state_now(&self.state)
    }

    /// Whether no request is pending.
    pub fn is_empty(&self) -> (empty: bool)
        ensures
            empty == self@.is_empty(),
    {
        self.pending_count() == 0
    }

    /// The number of requests in the batch; 0 until it is submitted.
    pub fn total_count(&self) -> (total: usize)
        ensures
            total == self@.total,
    {
        self.total
    }

    /// The number of requests that have not come to an end.
    pub fn pending_count(&self) -> (pending: usize)
        ensures
            pending == self@.pending,
    {
        count_now(&self.count)
    }

    /// The part of the batch that has come to an end: the requests no
    /// longer pending, of the total. It counts a request only when it has
    /// come to an end, so it is a lower bound. Before a batch is submitted,
    /// and for an empty batch, it is one of one.
    ///
    /// The pending requests have to be part of the total, as they are when
    /// no tick came between the first request and the submission: see
    /// [`LoaderView::within_total`].
    pub fn progress(&self) -> (ratio: Ratio)
        requires
            self@.within_total(),
        ensures
            ratio.counts() == self@.progress(),
            ratio.proper(),
    {
        let remain = count_now(&self.count);
        if self.total > 0 {
            Ratio { part: self.total - remain, whole: self.total }
        } else {
            Ratio::full()
        }
    }

    /// The part of the batch that is at least under way: one more than the
    /// requests no longer pending, of the total, while some but not all
    /// requests are pending; else one of one.
    pub fn upper_progress(&self) -> (ratio: Ratio)
        ensures
            ratio.counts() == self@.upper_progress(),
            ratio.proper(),
    {
        let total = self.total;
        let remain = count_now(&self.count);
        if 0 < remain && remain < total {
            Ratio { part: total - remain + 1, whole: total }
        } else {
            Ratio::full()
        }
    }

    /// Whether the batch is done.
    pub fn is_done(&self) -> (done: bool)
        ensures
            done == self@.is_done(),
    {
        state_now(&self.state) == State::Done
    }

    /// Whether the load of `path` was seen to finish and its handle was not
    /// yet taken.
    pub fn is_loaded(&self, path: &str) -> (loaded: bool)
        ensures
            loaded == self@.is_loaded(path@),
    {
        completed_has(&self.complete_queue, path)
    }
}

} // verus!
