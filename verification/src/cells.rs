//! The cells a loader keeps its fields in: a read-write lock for the
//! state, an atomic counter for the pending requests, and a mutex around
//! each queue.
//!
//! Verus sees nothing inside a lock or an atomic, so what each cell holds
//! has a name, and the functions below say over those names what the
//! calls into `parking_lot` and `std` do. A loader writes to its cells
//! only while it is borrowed mutably, through `get_mut`, which needs no
//! locking; between two writes the contents of a cell cannot change, and so
//! they are a function of the cell's value. Readers, which share the
//! loader, lock the cell or load from it atomically.

use vstd::prelude::*;
use std::collections::HashMap;
use std::sync::atomic::AtomicUsize;
use bevy::asset::HandleUntyped;
use parking_lot::{Mutex, RwLock};
use crate::state::State;

verus! {

/// The mutex of `lock_api`, which `parking_lot::Mutex` is an alias of.
#[verifier::external_type_specification]
#[verifier::external_body]
#[verifier::reject_recursive_types(R)]
#[verifier::reject_recursive_types(T)]
pub struct ExMutex<R, T: ?Sized>(parking_lot::lock_api::Mutex<R, T>);

/// The read-write lock of `lock_api`, which `parking_lot::RwLock` is an alias of.
#[verifier::external_type_specification]
#[verifier::external_body]
#[verifier::reject_recursive_types(R)]
#[verifier::reject_recursive_types(T)]
pub struct ExRwLock<R, T: ?Sized>(parking_lot::lock_api::RwLock<R, T>);

/// The raw mutex that `parking_lot::Mutex` is built on.
#[verifier::external_type_specification]
#[verifier::external_body]
pub struct ExRawMutex(parking_lot::RawMutex);

/// The raw lock that `parking_lot::RwLock` is built on.
#[verifier::external_type_specification]
#[verifier::external_body]
pub struct ExRawRwLock(parking_lot::RawRwLock);

/// A path and the handle of its load.
pub type Entry = (Seq<char>, HandleUntyped);

/// Handles by path.
pub type Handles = Map<Seq<char>, HandleUntyped>;

/// The state that a state lock holds.
pub uninterp spec fn state_held(lock: RwLock<State>) -> State;

/// The number that a counter holds.
pub uninterp spec fn count_held(counter: AtomicUsize) -> usize;

/// The paths that a request queue holds, oldest first.
pub uninterp spec fn requests_held(queue: Mutex<Vec<String>>) -> Seq<Seq<char>>;

/// The entries that a work queue holds, oldest first.
pub uninterp spec fn work_held(queue: Mutex<Vec<(String, HandleUntyped)>>) -> Seq<Entry>;

/// The handles that a completion queue holds, by path.
pub uninterp spec fn completed_held(queue: Mutex<HashMap<String, HandleUntyped>>) -> Handles;

/// What a vector of work entries holds, each path by its characters.
pub open spec fn entries(v: Seq<(String, HandleUntyped)>) -> Seq<Entry> {
    v.map_values(|e: (String, HandleUntyped)| (e.0@, e.1))
}

/// `RwLock::new`: a lock that holds `state`.
#[verifier::external_body]
pub(crate) fn new_state_lock(state: State) -> (lock: RwLock<State>)
    ensures
        state_held(lock) == state,
{
    RwLock::new(state)
}

/// `RwLock::read`: the state that the lock holds.
#[verifier::external_body]
pub(crate) fn state_now(lock: &RwLock<State>) -> (state: State)
    ensures
        state == state_held(*lock),
{
    *lock.read()
}

/// `RwLock::get_mut`: a reference to the state that the lock holds; what is
/// left behind it is what the lock holds afterwards.
#[verifier::external_body]
pub(crate) fn state_mut(lock: &mut RwLock<State>) -> (state: &mut State)
    ensures
        *state == state_held(*old(lock)),
        state_held(*final(lock)) == *final(state),
{
    lock.get_mut()
}

/// `AtomicUsize::new`: a counter that holds `n`.
#[verifier::external_body]
pub(crate) fn new_counter(n: usize) -> (counter: AtomicUsize)
    ensures
        count_held(counter) == n,
{
    AtomicUsize::new(n)
}

/// `AtomicUsize::load`: the number that the counter holds.
#[verifier::external_body]
pub(crate) fn count_now(counter: &AtomicUsize) -> (n: usize)
    ensures
        n == count_held(*counter),
{
    counter.load(std::sync::atomic::Ordering::Acquire)
}

/// `AtomicUsize::get_mut`: a reference to the number that the counter
/// holds; what is left behind it is what the counter holds afterwards.
#[verifier::external_body]
pub(crate) fn count_mut(counter: &mut AtomicUsize) -> (n: &mut usize)
    ensures
        *n == count_held(*old(counter)),
        count_held(*final(counter)) == *final(n),
{
    counter.get_mut()
}

/// `Mutex::new`: a request queue that holds no path.
#[verifier::external_body]
pub(crate) fn new_requests() -> (queue: Mutex<Vec<String>>)
    ensures
        requests_held(queue) == Seq::<Seq<char>>::empty(),
{
    Mutex::new(Vec::new())
}

/// `Mutex::get_mut`: a reference to the vector of paths that the queue
/// holds; what is left behind it is what the queue holds afterwards.
#[verifier::external_body]
pub(crate) fn requests_mut(queue: &mut Mutex<Vec<String>>) -> (paths: &mut Vec<String>)
    ensures
        paths.deep_view() == requests_held(*old(queue)),
        requests_held(*final(queue)) == final(paths).deep_view(),
{
    queue.get_mut()
}

/// `Mutex::new`: a work queue that holds no entry.
#[verifier::external_body]
pub(crate) fn new_work() -> (queue: Mutex<Vec<(String, HandleUntyped)>>)
    ensures
        work_held(queue) == Seq::<Entry>::empty(),
{
    Mutex::new(Vec::new())
}

/// `Mutex::get_mut`: a reference to the vector of entries that the queue
/// holds; what is left behind it is what the queue holds afterwards.
#[verifier::external_body]
pub(crate) fn work_mut(queue: &mut Mutex<Vec<(String, HandleUntyped)>>) -> (work: &mut Vec<
    (String, HandleUntyped),
>)
    ensures
        entries(work@) == work_held(*old(queue)),
        work_held(*final(queue)) == entries(final(work)@),
{
    queue.get_mut()
}

/// `Mutex::new` and `HashMap::new`: a completion queue that holds no handle.
#[verifier::external_body]
pub(crate) fn new_completed() -> (queue: Mutex<HashMap<String, HandleUntyped>>)
    ensures
        completed_held(queue) == Handles::empty(),
{
    Mutex::new(HashMap::new())
}

/// `Mutex::lock` and `HashMap::contains_key`: whether the queue holds a
/// handle for `path`.
#[verifier::external_body]
pub(crate) fn completed_has(queue: &Mutex<HashMap<String, HandleUntyped>>, path: &str) -> (found:
    bool)
    ensures
        found == completed_held(*queue).contains_key(path@),
{
    queue.lock().contains_key(path)
}

/// `Mutex::get_mut` and `HashMap::insert`: the queue then holds `handle`
/// for `path`, in place of any handle it held for that path, and is
/// otherwise as before.
#[verifier::external_body]
pub(crate) fn completed_insert(
    queue: &mut Mutex<HashMap<String, HandleUntyped>>,
    path: String,
    handle: HandleUntyped,
)
    ensures
        completed_held(*final(queue)) == completed_held(*old(queue)).insert(path@, handle),
{
    queue.get_mut().insert(path, handle);
}

/// `Mutex::get_mut` and `HashMap::remove`: the handle that the queue held
/// for `path`, if it held one; the queue then holds none for that path and
/// is otherwise as before.
#[verifier::external_body]
pub(crate) fn completed_remove(queue: &mut Mutex<HashMap<String, HandleUntyped>>, path: &str) -> (
    handle: Option<HandleUntyped>)
    ensures
        handle == (if completed_held(*old(queue)).contains_key(path@) {
            Some(completed_held(*old(queue))[path@])
        } else {
            None
        }),
        completed_held(*final(queue)) == completed_held(*old(queue)).remove(path@),
{
    queue.get_mut().remove(path)
}

/// `Mutex::get_mut` and `HashMap::clear`: the queue then holds no handle.
#[verifier::external_body]
pub(crate) fn completed_clear(queue: &mut Mutex<HashMap<String, HandleUntyped>>)
    ensures
        completed_held(*final(queue)) == Handles::empty(),
{
    queue.get_mut().clear();
}

} // verus!
