use bevy::asset::{HandleId, HandleUntyped};
use bevy_bootloader::{ContractViolation, LoadState, Loader, Ratio, State};

fn handle(path: &str) -> HandleUntyped {
    HandleUntyped::weak(HandleId::from(path))
}

fn answer(path: &str, state: LoadState) -> (HandleUntyped, LoadState) {
    (handle(path), state)
}

fn submitted(paths: &[&str]) -> Loader {
    let mut loader = Loader::new();
    for path in paths {
        loader.enqueue(path);
    }
    loader.submit();
    loader
}

fn in_flight(paths: &[&str]) -> Loader {
    let mut loader = submitted(paths);
    loader.settle(&vec![]);
    loader.dispatch(paths.iter().map(|path| answer(path, LoadState::Loading)).collect());
    loader
}

#[test]
fn empty() {
    let mut loader = Loader::new();
    loader.submit();
    assert!(loader.is_empty());
    assert_eq!(loader.pending_count(), 0);
}

#[test]
fn enqueue() {
    let mut loader = Loader::new();
    loader.enqueue("dummy");
    loader.submit();
    assert!(!loader.is_empty());
    assert_eq!(loader.pending_count(), 1);
}

#[test]
fn new_loader_is_idle_and_empty() {
    let loader = Loader::new();
    assert_eq!(loader.state(), State::Ready);
    assert_eq!(loader.total_count(), 0);
    assert_eq!(loader.pending_count(), 0);
    assert!(loader.is_empty());
    assert!(!loader.is_done());
    assert!(!loader.is_loaded("a"));
    assert_eq!(loader.progress(), Ratio { part: 1, whole: 1 });
}

#[test]
fn default_loader_is_like_new() {
    let loader = Loader::default();
    assert_eq!(loader.state(), State::Ready);
    assert_eq!(loader.total_count(), 0);
    assert_eq!(loader.pending_count(), 0);
}

#[test]
fn empty_iff_nothing_pending() {
    let mut loader = Loader::new();
    assert_eq!(loader.is_empty(), loader.pending_count() == 0);
    loader.enqueue("a");
    assert_eq!(loader.is_empty(), loader.pending_count() == 0);
    loader.submit();
    assert_eq!(loader.is_empty(), loader.pending_count() == 0);
    loader.settle(&vec![]);
    loader.dispatch(vec![answer("a", LoadState::Loaded)]);
    assert_eq!(loader.is_empty(), loader.pending_count() == 0);
    assert!(loader.is_empty());
}

#[test]
fn total_is_zero_until_submit() {
    let mut loader = Loader::new();
    loader.enqueue("a");
    loader.enqueue("b");
    assert_eq!(loader.total_count(), 0);
    assert_eq!(loader.pending_count(), 2);
    assert_eq!(loader.state(), State::Ready);
}

#[test]
fn submit_fixes_total_and_pending() {
    let loader = submitted(&["a", "b", "c"]);
    assert_eq!(loader.total_count(), 3);
    assert_eq!(loader.pending_count(), 3);
    assert_eq!(loader.state(), State::Loading);
    assert!(!loader.is_done());
}

#[test]
fn enqueue_after_submit_is_refused_until_reset() {
    let mut loader = submitted(&["a"]);
    assert_eq!(loader.try_enqueue("b"), Err(ContractViolation::NotReady));
    assert_eq!(loader.pending_count(), 1);
    assert_eq!(loader.total_count(), 1);
    loader.reset();
    assert_eq!(loader.try_enqueue("b"), Ok(()));
    assert_eq!(loader.pending_count(), 1);
}

#[test]
fn submit_after_submit_is_refused_until_reset() {
    let mut loader = Loader::new();
    loader.enqueue("a");
    assert_eq!(loader.try_submit(), Ok(()));
    assert_eq!(loader.total_count(), 1);
    assert_eq!(loader.try_submit(), Err(ContractViolation::NotReady));
    assert_eq!(loader.state(), State::Loading);
    loader.reset();
    assert_eq!(loader.try_submit(), Ok(()));
    assert_eq!(loader.total_count(), 0);
}

#[test]
fn enqueue_and_submit_are_refused_when_done() {
    let mut loader = in_flight(&["a"]);
    loader.settle(&vec![LoadState::Loaded]);
    assert!(loader.is_done());
    assert_eq!(loader.try_enqueue("b"), Err(ContractViolation::NotReady));
    assert_eq!(loader.try_submit(), Err(ContractViolation::NotReady));
    assert!(loader.is_done());
}

#[test]
fn three_requests_two_finish_then_the_last() {
    let mut loader = submitted(&["a", "b", "c"]);
    assert_eq!(loader.total_count(), 3);
    assert_eq!(loader.pending_count(), 3);

    loader.settle(&vec![]);
    loader.dispatch(vec![
        answer("a", LoadState::Loading),
        answer("b", LoadState::NotLoaded),
        answer("c", LoadState::Loading),
    ]);
    assert_eq!(loader.pending_count(), 3);
    assert!(!loader.is_loaded("a"));

    loader.settle(&vec![LoadState::Loaded, LoadState::Loading, LoadState::Failed]);
    loader.dispatch(vec![]);
    assert_eq!(loader.pending_count(), 1);
    assert!(loader.is_loaded("a"));
    assert!(!loader.is_loaded("b"));
    assert!(loader.is_loaded("c"));
    assert!(!loader.is_done());

    loader.settle(&vec![LoadState::Loaded]);
    loader.dispatch(vec![]);
    assert_eq!(loader.pending_count(), 0);
    assert!(loader.is_loaded("b"));
    assert!(loader.is_done());
    assert_eq!(loader.total_count(), 3);
}

#[test]
fn load_that_is_loaded_at_once_still_counts() {
    let mut loader = submitted(&["a", "b"]);
    loader.settle(&vec![]);
    loader.dispatch(vec![answer("a", LoadState::Loaded), answer("b", LoadState::Loading)]);
    assert_eq!(loader.pending_count(), 1);
    assert!(!loader.is_loaded("a"));
    assert!(loader.take("a").is_none());
    assert!(!loader.is_done());

    loader.settle(&vec![LoadState::Loaded]);
    loader.dispatch(vec![]);
    assert_eq!(loader.pending_count(), 0);
    assert!(loader.is_done());
    assert!(loader.is_loaded("b"));
}

#[test]
fn load_that_failed_or_was_released_at_once_still_counts() {
    let mut loader = submitted(&["a", "b", "c"]);
    loader.settle(&vec![]);
    loader.dispatch(vec![
        answer("a", LoadState::Failed),
        answer("b", LoadState::Unloaded),
        answer("c", LoadState::NotLoaded),
    ]);
    assert_eq!(loader.pending_count(), 1);
    assert!(!loader.is_loaded("a"));
    assert!(!loader.is_loaded("b"));
    assert!(!loader.is_done());
}

#[test]
fn batch_resolved_at_once_is_done() {
    let mut loader = submitted(&["a"]);
    loader.settle(&vec![]);
    loader.dispatch(vec![answer("a", LoadState::Loaded)]);
    assert_eq!(loader.pending_count(), 0);
    assert!(loader.is_empty());
    assert!(loader.is_done());
    assert_eq!(loader.state(), State::Done);
    assert!(!loader.is_loaded("a"));
    loader.settle(&vec![]);
    loader.dispatch(vec![]);
    assert!(loader.is_done());
    assert_eq!(loader.total_count(), 1);
}

#[test]
fn batch_is_done_whichever_way_each_request_ends_at_once() {
    let mut loader = submitted(&["a", "b", "c"]);
    loader.settle(&vec![]);
    loader.dispatch(vec![
        answer("a", LoadState::Failed),
        answer("b", LoadState::Unloaded),
        answer("c", LoadState::Loaded),
    ]);
    assert_eq!(loader.pending_count(), 0);
    assert!(loader.is_done());
}

#[test]
fn batch_is_done_when_its_last_request_ends_at_once() {
    let mut loader = Loader::new();
    loader.enqueue("a");
    loader.settle(&vec![]);
    loader.dispatch(vec![answer("a", LoadState::Loading)]);
    loader.enqueue("b");
    loader.submit();
    assert_eq!(loader.pending_count(), 2);

    loader.settle(&vec![LoadState::Loaded]);
    assert_eq!(loader.pending_count(), 1);
    assert!(!loader.is_done());
    loader.dispatch(vec![answer("b", LoadState::Loaded)]);
    assert_eq!(loader.pending_count(), 0);
    assert!(loader.is_done());
    assert!(loader.is_loaded("a"));
    assert!(!loader.is_loaded("b"));
}

#[test]
fn idle_loader_is_not_done_by_a_tick() {
    let mut loader = Loader::new();
    loader.enqueue("a");
    loader.enqueue("b");
    loader.settle(&vec![]);
    loader.dispatch(vec![answer("a", LoadState::Loading), answer("b", LoadState::Loaded)]);
    assert_eq!(loader.pending_count(), 1);
    assert_eq!(loader.state(), State::Ready);

    loader.settle(&vec![LoadState::Loaded]);
    loader.dispatch(vec![]);
    assert_eq!(loader.pending_count(), 0);
    assert_eq!(loader.state(), State::Ready);
    assert!(!loader.is_done());
    assert!(loader.is_loaded("a"));

    assert_eq!(loader.try_submit(), Ok(()));
    assert_eq!(loader.state(), State::Loading);
    assert_eq!(loader.total_count(), 0);
    assert!(!loader.is_done());
}

#[test]
fn empty_batch_is_never_done() {
    let mut loader = submitted(&[]);
    loader.settle(&vec![]);
    loader.dispatch(vec![]);
    assert!(loader.is_empty());
    assert!(!loader.is_done());
    assert_eq!(loader.state(), State::Loading);
}

#[test]
fn released_load_in_flight_is_still_waited_for() {
    let mut loader = in_flight(&["a"]);
    loader.settle(&vec![LoadState::Unloaded]);
    assert_eq!(loader.pending_count(), 1);
    assert!(!loader.is_loaded("a"));
    assert!(!loader.is_done());
    loader.settle(&vec![LoadState::NotLoaded]);
    assert_eq!(loader.pending_count(), 1);
}

#[test]
fn pending_never_increases_over_ticks() {
    let mut loader = submitted(&["a", "b", "c", "d"]);
    let mut last = loader.pending_count();
    assert_eq!(last, 4);

    loader.settle(&vec![]);
    loader.dispatch(vec![
        answer("a", LoadState::Loading),
        answer("b", LoadState::Loaded),
        answer("c", LoadState::Loading),
        answer("d", LoadState::Loading),
    ]);
    assert!(loader.pending_count() <= last);
    last = loader.pending_count();
    assert_eq!(last, 3);

    loader.settle(&vec![LoadState::Loading, LoadState::Loading, LoadState::Loading]);
    loader.dispatch(vec![]);
    assert!(loader.pending_count() <= last);
    last = loader.pending_count();
    assert_eq!(last, 3);

    loader.settle(&vec![LoadState::Loading, LoadState::Failed, LoadState::Loading]);
    loader.dispatch(vec![]);
    assert!(loader.pending_count() <= last);
    last = loader.pending_count();
    assert_eq!(last, 2);

    loader.settle(&vec![LoadState::Loaded, LoadState::Loaded]);
    loader.dispatch(vec![]);
    assert!(loader.pending_count() <= last);
    assert_eq!(loader.pending_count(), 0);
    assert_eq!(loader.total_count(), 4);
}

#[test]
fn all_finished_makes_the_batch_done_and_stays_so() {
    let mut loader = in_flight(&["a", "b"]);
    assert!(!loader.is_done());
    loader.settle(&vec![LoadState::Loaded, LoadState::Failed]);
    loader.dispatch(vec![]);
    assert_eq!(loader.pending_count(), 0);
    assert!(loader.is_done());

    for _ in 0..3 {
        loader.settle(&vec![]);
        loader.dispatch(vec![]);
        assert_eq!(loader.pending_count(), 0);
        assert_eq!(loader.total_count(), 2);
        assert!(loader.is_done());
        assert!(loader.is_loaded("a"));
        assert!(loader.is_loaded("b"));
    }
}

#[test]
fn work_queue_keeps_its_order() {
    let mut loader = in_flight(&["a", "b", "c"]);
    loader.settle(&vec![LoadState::Loading, LoadState::Loaded, LoadState::Loading]);
    assert!(loader.is_loaded("b"));
    loader.settle(&vec![LoadState::Loading, LoadState::Loaded]);
    assert!(loader.is_loaded("c"));
    assert!(!loader.is_loaded("a"));
    loader.settle(&vec![LoadState::Failed]);
    assert!(loader.is_loaded("a"));
    assert!(loader.is_done());
}

#[test]
fn take_gives_the_handle_once() {
    let mut loader = in_flight(&["a", "b"]);
    loader.settle(&vec![LoadState::Loaded, LoadState::Loaded]);
    assert!(loader.is_done());

    let taken = loader.take("a");
    assert_eq!(taken.map(|taken| taken.id), Some(HandleId::from("a")));
    assert!(!loader.is_loaded("a"));
    assert!(loader.take("a").is_none());
    assert!(loader.is_loaded("b"));
    assert_eq!(loader.take("b").map(|taken| taken.id), Some(HandleId::from("b")));
    assert!(loader.take("b").is_none());
    assert!(loader.is_done());
    assert_eq!(loader.total_count(), 2);
}

#[test]
fn take_of_unknown_or_unfinished_path_gives_nothing() {
    let mut loader = in_flight(&["a"]);
    assert!(loader.take("a").is_none());
    assert!(loader.take("zzz").is_none());
    assert_eq!(loader.pending_count(), 1);
}

#[test]
fn later_load_of_a_path_replaces_its_handle() {
    let mut loader = submitted(&["a", "a"]);
    loader.settle(&vec![]);
    loader.dispatch(vec![
        (HandleUntyped::weak(HandleId::from("first")), LoadState::Loading),
        (HandleUntyped::weak(HandleId::from("second")), LoadState::Loading),
    ]);
    loader.settle(&vec![LoadState::Loaded, LoadState::Loaded]);
    assert!(loader.is_done());
    assert_eq!(loader.take("a").map(|taken| taken.id), Some(HandleId::from("second")));
    assert!(loader.take("a").is_none());
}

#[test]
fn reset_from_done_gives_a_loader_like_new() {
    let mut loader = in_flight(&["a", "b"]);
    loader.settle(&vec![LoadState::Loaded, LoadState::Loaded]);
    assert!(loader.is_done());

    loader.reset();
    assert_eq!(loader.state(), State::Ready);
    assert!(loader.is_empty());
    assert_eq!(loader.total_count(), 0);
    assert_eq!(loader.pending_count(), 0);
    assert!(!loader.is_done());
    assert!(!loader.is_loaded("a"));
    assert!(loader.take("b").is_none());

    loader.enqueue("c");
    loader.enqueue("d");
    loader.submit();
    assert_eq!(loader.total_count(), 2);
    assert_eq!(loader.pending_count(), 2);
    loader.settle(&vec![]);
    loader.dispatch(vec![answer("c", LoadState::Loading), answer("d", LoadState::Loading)]);
    loader.settle(&vec![LoadState::Loaded, LoadState::Failed]);
    assert!(loader.is_done());
    assert!(loader.is_loaded("c"));
    assert!(loader.is_loaded("d"));
}

#[test]
fn reset_while_loading_forgets_the_batch() {
    let mut loader = in_flight(&["a", "b"]);
    loader.settle(&vec![LoadState::Loaded, LoadState::Loading]);
    assert_eq!(loader.pending_count(), 1);
    loader.reset();
    assert_eq!(loader.state(), State::Ready);
    assert_eq!(loader.pending_count(), 0);
    assert_eq!(loader.total_count(), 0);
    assert!(!loader.is_loaded("a"));
    loader.settle(&vec![]);
    loader.dispatch(vec![]);
    assert_eq!(loader.pending_count(), 0);
}

#[test]
fn reset_of_an_idle_loader_changes_nothing() {
    let mut loader = Loader::new();
    loader.enqueue("a");
    loader.reset();
    assert_eq!(loader.state(), State::Ready);
    assert_eq!(loader.pending_count(), 1);
    loader.submit();
    assert_eq!(loader.total_count(), 1);
}

#[test]
fn tick_before_submit_moves_requests_out_of_the_batch() {
    let mut loader = Loader::new();
    loader.enqueue("a");
    loader.settle(&vec![]);
    loader.dispatch(vec![answer("a", LoadState::Loading)]);
    assert_eq!(loader.pending_count(), 1);
    loader.enqueue("b");
    loader.submit();
    assert_eq!(loader.total_count(), 1);
    assert_eq!(loader.pending_count(), 2);
}

#[test]
fn progress_counts_finished_requests() {
    let mut loader = submitted(&["a", "b", "c", "d"]);
    assert_eq!(loader.progress(), Ratio { part: 0, whole: 4 });
    loader.settle(&vec![]);
    loader.dispatch(vec![
        answer("a", LoadState::Loading),
        answer("b", LoadState::Loading),
        answer("c", LoadState::Loading),
        answer("d", LoadState::Loaded),
    ]);
    assert_eq!(loader.progress(), Ratio { part: 1, whole: 4 });
    loader.settle(&vec![LoadState::Loaded, LoadState::Loading, LoadState::Failed]);
    assert_eq!(loader.progress(), Ratio { part: 3, whole: 4 });
    loader.settle(&vec![LoadState::Loaded]);
    assert_eq!(loader.progress(), Ratio { part: 4, whole: 4 });
}

#[test]
fn progress_of_an_empty_batch_is_full() {
    let loader = submitted(&[]);
    assert_eq!(loader.progress(), Ratio { part: 1, whole: 1 });
}

#[test]
fn progress_before_submit_is_full() {
    let mut loader = Loader::new();
    loader.enqueue("a");
    assert_eq!(loader.progress(), Ratio { part: 1, whole: 1 });
}

#[test]
fn load_state_classes() {
    assert!(!LoadState::NotLoaded.is_finished());
    assert!(!LoadState::Loading.is_finished());
    assert!(LoadState::Loaded.is_finished());
    assert!(LoadState::Failed.is_finished());
    assert!(!LoadState::Unloaded.is_finished());

    assert!(LoadState::NotLoaded.is_in_progress());
    assert!(LoadState::Loading.is_in_progress());
    assert!(!LoadState::Loaded.is_in_progress());
    assert!(!LoadState::Failed.is_in_progress());
    assert!(!LoadState::Unloaded.is_in_progress());
}
