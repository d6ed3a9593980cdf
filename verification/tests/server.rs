use std::time::{Duration, Instant};

use bevy::asset::{AssetServer, FileAssetIo};
use bevy::tasks::TaskPool;
use bevy_bootloader::{Loader, State};

fn server() -> AssetServer {
    AssetServer::new(FileAssetIo::new("no_such_assets"), TaskPool::new())
}

#[test]
fn tick_of_a_new_loader_changes_nothing() {
    let server = server();
    let mut loader = Loader::new();
    loader.tick(&server);
    assert_eq!(loader.state(), State::Ready);
    assert_eq!(loader.pending_count(), 0);
    assert_eq!(loader.total_count(), 0);
    assert!(!loader.is_done());
}

#[test]
fn tick_of_an_empty_batch_changes_nothing() {
    let server = server();
    let mut loader = Loader::new();
    loader.submit();
    loader.tick(&server);
    loader.tick(&server);
    assert_eq!(loader.state(), State::Loading);
    assert!(loader.is_empty());
    assert!(!loader.is_done());
}

#[test]
fn ticks_bring_a_failing_batch_to_its_end() {
    let server = server();
    let mut loader = Loader::new();
    loader.enqueue("missing.png");
    loader.enqueue("absent.ogg");
    loader.submit();
    assert_eq!(loader.total_count(), 2);

    let begun = Instant::now();
    let mut last = loader.pending_count();
    while loader.pending_count() > 0 && begun.elapsed() < Duration::from_secs(10) {
        loader.tick(&server);
        assert!(loader.pending_count() <= last);
        last = loader.pending_count();
        std::hint::spin_loop();
    }

    assert_eq!(loader.pending_count(), 0);
    assert!(loader.is_empty());
    assert_eq!(loader.total_count(), 2);
    assert!(loader.is_done());
    assert_eq!(loader.state(), State::Done);
    // A handle is kept for taking exactly when its load was waited for.
    for path in ["missing.png", "absent.ogg"] {
        let loaded = loader.is_loaded(path);
        assert_eq!(loader.take(path).is_some(), loaded);
        assert!(!loader.is_loaded(path));
    }

    loader.tick(&server);
    assert!(loader.is_done());
    assert_eq!(loader.pending_count(), 0);
    assert_eq!(loader.total_count(), 2);
}

#[test]
fn ticks_leave_an_idle_loader_idle() {
    let server = server();
    let mut loader = Loader::new();
    loader.enqueue("missing.png");

    let begun = Instant::now();
    while loader.pending_count() > 0 && begun.elapsed() < Duration::from_secs(10) {
        loader.tick(&server);
        std::hint::spin_loop();
    }

    assert_eq!(loader.pending_count(), 0);
    assert_eq!(loader.state(), State::Ready);
    assert!(!loader.is_done());
    assert_eq!(loader.total_count(), 0);
}
