//! The mathematical view of a loader, and what each operation makes of it.

use vstd::prelude::*;
use bevy::asset::HandleUntyped;
use crate::cells::{Entry, Handles};
use crate::queues::{dispatched, early_count, finished_count, landed, still_loading, Answer};
use crate::state::{LoadState, State};

verus! {

/// A loader, seen as plain mathematical values.
#[verifier::ext_equal]
pub struct LoaderView {
    /// Phase of the batch.
    pub state: State,
    /// Number of requests in the batch, fixed when it is submitted.
    pub total: nat,
    /// Number of requests that have not come to an end.
    pub pending: nat,
    /// Paths not yet handed to the server, oldest first.
    pub requests: Seq<Seq<char>>,
    /// Loads handed to the server and not yet seen to finish, oldest first.
    pub work: Seq<Entry>,
    /// Handles of the loads that were seen to finish and not yet taken.
    pub complete: Handles,
}

impl LoaderView {
    /// The view of a loader that was just made.
    pub open spec fn fresh() -> LoaderView {
        LoaderView {
            state: State::Ready,
            total: 0,
            pending: 0,
            requests: Seq::empty(),
            work: Seq::empty(),
            complete: Map::empty(),
        }
    }

    /// What holds of every loader: each pending request is queued or in
    /// flight, an idle loader has no total, a batch that is done has
    /// nothing pending, and a submitted batch with nothing pending is done
    /// unless it was submitted empty.
    pub open spec fn wf(self) -> bool {
        &&& self.pending == self.requests.len() + self.work.len()
        &&& self.state == State::Ready ==> self.total == 0
        &&& self.state == State::Done ==> self.pending == 0
        &&& self.state == State::Loading && self.pending == 0 ==> self.total == 0
    }

    /// No request is pending.
    pub open spec fn is_empty(self) -> bool {
        self.pending == 0
    }

    /// The batch is done.
    pub open spec fn is_done(self) -> bool {
        self.state == State::Done
    }

    /// The load of `path` was seen to finish and its handle not yet taken.
    pub open spec fn is_loaded(self, path: Seq<char>) -> bool {
        self.complete.contains_key(path)
    }

    /// The loader tracks `path`: it is queued, in flight, or has a handle
    /// that was not yet taken.
    pub open spec fn tracks(self, path: Seq<char>) -> bool {
        ||| exists|i: int| 0 <= i < self.requests.len() && self.requests[i] == path
        ||| exists|j: int| 0 <= j < self.work.len() && self.work[j].0 == path
        ||| self.complete.contains_key(path)
    }

    /// No path is tracked in two places: none is queued twice or in flight
    /// twice, and none is at once in two of the three queues.
    pub open spec fn paths_apart(self) -> bool {
        &&& forall|i: int, j: int|
            0 <= i < j < self.requests.len() ==> self.requests[i] != self.requests[j]
        &&& forall|i: int, j: int| 0 <= i < j < self.work.len() ==> self.work[i].0 != self.work[j].0
        &&& forall|i: int, j: int|
            0 <= i < self.requests.len() && 0 <= j < self.work.len() ==> self.requests[i]
                != self.work[j].0
        &&& forall|i: int|
            0 <= i < self.requests.len() ==> !self.complete.contains_key(
                #[trigger] self.requests[i],
            )
        &&& forall|j: int|
            0 <= j < self.work.len() ==> !self.complete.contains_key((#[trigger] self.work[j]).0)
    }

    /// Requests can be enqueued and the batch submitted.
    pub open spec fn accepts_requests(self) -> bool {
        self.state == State::Ready
    }

    /// The pending requests are part of the total, if there is one.
    pub open spec fn within_total(self) -> bool {
        self.total > 0 ==> self.pending <= self.total
    }

    /// The part of the batch that has come to an end, as two counts: the
    /// requests no longer pending, and the total. With no total it is one
    /// of one.
    pub open spec fn progress(self) -> (nat, nat)
        recommends
            self.within_total(),
    {
        if self.total > 0 {
            ((self.total - self.pending) as nat, self.total)
        } else {
            (1, 1)
        }
    }

    /// The part of the batch that is at least under way, as two counts: one
    /// more than the requests no longer pending, and the total. With nothing
    /// pending, or nothing but pending requests, it is one of one.
    pub open spec fn upper_progress(self) -> (nat, nat) {
        if 0 < self.pending < self.total {
            ((self.total - self.pending + 1) as nat, self.total)
        } else {
            (1, 1)
        }
    }

    /// The loader after `path` was enqueued.
    pub open spec fn after_enqueue(self, path: Seq<char>) -> LoaderView {
        LoaderView { requests: self.requests.push(path), pending: self.pending + 1, ..self }
    }

    /// The loader after each of `paths` was enqueued, in order.
    pub open spec fn after_enqueue_all(self, paths: Seq<Seq<char>>) -> LoaderView
        decreases paths.len(),
    {
        if paths.len() == 0 {
            self
        } else {
            self.after_enqueue_all(paths.drop_last()).after_enqueue(paths.last())
        }
    }

    /// The loader after its batch was submitted.
    pub open spec fn after_submit(self) -> LoaderView {
        LoaderView { total: self.requests.len(), state: State::Loading, ..self }
    }

    /// The loader after a reset: unchanged when idle, else as new.
    pub open spec fn after_reset(self) -> LoaderView {
        if self.state == State::Ready {
            self
        } else {
            LoaderView::fresh()
        }
    }

    /// The handle that taking `path` gives, if any.
    pub open spec fn taken(self, path: Seq<char>) -> Option<HandleUntyped> {
        if self.complete.contains_key(path) {
            Some(self.complete[path])
        } else {
            None
        }
    }

    /// The loader after `path` was taken.
    pub open spec fn after_take(self, path: Seq<char>) -> LoaderView {
        LoaderView { complete: self.complete.remove(path), ..self }
    }

    /// The loader after its loads in flight were polled, `polled[i]` being
    /// the state found for `work[i]`. Each finished load leaves the work
    /// queue for the completion queue and is no longer pending; a submitted
    /// batch is done when its last pending request goes this way.
    pub open spec fn after_settle(self, polled: Seq<LoadState>) -> LoaderView
        recommends
            polled.len() == self.work.len(),
    {
        let finished = finished_count(polled);
        LoaderView {
            state: if self.state == State::Loading && finished > 0 && self.pending == finished {
                State::Done
            } else {
                self.state
            },
            pending: (self.pending - finished) as nat,
            work: still_loading(self.work, polled),
            complete: landed(self.complete, self.work, polled),
            ..self
        }
    }

    /// The loader after its queued requests were handed to the server,
    /// `started[i]` being the server's answer for `requests[i]`. A load in
    /// progress joins the work queue; any other is no longer pending, and
    /// its handle is kept nowhere. A submitted batch is done when its last
    /// pending request goes this way.
    pub open spec fn after_dispatch(self, started: Seq<Answer>) -> LoaderView
        recommends
            started.len() == self.requests.len(),
    {
        let early = early_count(started);
        LoaderView {
            state: if self.state == State::Loading && early > 0 && self.pending == early {
                State::Done
            } else {
                self.state
            },
            pending: (self.pending - early) as nat,
            requests: Seq::empty(),
            work: self.work + dispatched(self.requests, started),
            ..self
        }
    }

    /// The loader after one tick: the loads in flight are polled, then the
    /// queued requests are handed to the server. A submitted batch is done
    /// when the tick brings its pending count to zero; no tick changes the
    /// state in any other way.
    pub open spec fn after_tick(self, polled: Seq<LoadState>, started: Seq<Answer>) -> LoaderView
        recommends
            polled.len() == self.work.len(),
            started.len() == self.requests.len(),
    {
        self.after_settle(polled).after_dispatch(started)
    }

    /// The loader while its loads in flight are polled, when the first
    /// `seen` of them have been dealt with and the others not yet.
    pub open spec fn settled_up_to(self, polled: Seq<LoadState>, seen: int) -> LoaderView
        recommends
            polled.len() == self.work.len(),
            0 <= seen <= polled.len(),
    {
        let part = LoaderView { work: self.work.take(seen), ..self }.after_settle(
            polled.take(seen),
        );
        LoaderView { work: part.work + self.work.skip(seen), ..part }
    }

    /// The loader while its queued requests are handed to the server, when
    /// the first `seen` of them have been dealt with; the queue itself is
    /// already empty.
    pub open spec fn dispatched_up_to(self, started: Seq<Answer>, seen: int) -> LoaderView
        recommends
            started.len() == self.requests.len(),
            0 <= seen <= started.len(),
    {
        LoaderView { requests: self.requests.take(seen), ..self }.after_dispatch(started.take(seen))
    }
}

} // verus!
