use bevy::asset::{HandleId, HandleUntyped};
use bevy_bootloader::{update_boot, BootUpdate, LoadState, Loader, Ratio};

fn loading(paths: &[&str]) -> Loader {
    let mut loader = Loader::new();
    for path in paths {
        loader.enqueue(path);
    }
    loader.submit();
    loader.settle(&vec![]);
    loader.dispatch(
        paths
            .iter()
            .map(|path| (HandleUntyped::weak(HandleId::from(*path)), LoadState::Loading))
            .collect(),
    );
    loader
}

#[test]
fn full_ratio_is_one_of_one() {
    assert_eq!(Ratio::full(), Ratio { part: 1, whole: 1 });
}

#[test]
fn upper_progress_is_full_while_all_are_pending() {
    let loader = loading(&["a", "b", "c", "d"]);
    assert_eq!(loader.upper_progress(), Ratio { part: 1, whole: 1 });
}

#[test]
fn upper_progress_counts_one_more_than_finished() {
    let mut loader = loading(&["a", "b", "c", "d"]);
    loader.settle(&vec![
        LoadState::Loaded,
        LoadState::Loading,
        LoadState::Loading,
        LoadState::Loading,
    ]);
    assert_eq!(loader.upper_progress(), Ratio { part: 2, whole: 4 });
    loader.settle(&vec![LoadState::Loaded, LoadState::Loading, LoadState::Loading]);
    assert_eq!(loader.upper_progress(), Ratio { part: 3, whole: 4 });
    loader.settle(&vec![LoadState::Loading, LoadState::Failed]);
    assert_eq!(loader.upper_progress(), Ratio { part: 4, whole: 4 });
}

#[test]
fn upper_progress_is_full_with_nothing_pending() {
    let mut loader = loading(&["a"]);
    loader.settle(&vec![LoadState::Loaded]);
    assert_eq!(loader.upper_progress(), Ratio { part: 1, whole: 1 });
}

#[test]
fn upper_progress_is_full_before_submit() {
    let mut loader = Loader::new();
    assert_eq!(loader.upper_progress(), Ratio { part: 1, whole: 1 });
    loader.enqueue("a");
    assert_eq!(loader.upper_progress(), Ratio { part: 1, whole: 1 });
}

#[test]
fn upper_progress_is_never_below_progress() {
    let mut loader = loading(&["a", "b", "c"]);
    loader.settle(&vec![LoadState::Loaded, LoadState::Loading, LoadState::Loading]);
    let lower = loader.progress();
    let upper = loader.upper_progress();
    assert_eq!(lower, Ratio { part: 1, whole: 3 });
    assert_eq!(upper, Ratio { part: 2, whole: 3 });
    assert!(lower.part * upper.whole <= upper.part * lower.whole);
}

#[test]
fn boot_shows_upper_progress_until_done() {
    let mut loader = loading(&["a", "b"]);
    assert_eq!(update_boot(&loader), BootUpdate::Progress(Ratio { part: 1, whole: 1 }));
    loader.settle(&vec![LoadState::Loaded, LoadState::Loading]);
    assert_eq!(update_boot(&loader), BootUpdate::Progress(Ratio { part: 2, whole: 2 }));
    loader.settle(&vec![LoadState::Failed]);
    assert!(loader.is_done());
    assert_eq!(update_boot(&loader), BootUpdate::Finish);
}

#[test]
fn boot_of_an_idle_loader_shows_full_progress() {
    let loader = Loader::new();
    assert_eq!(update_boot(&loader), BootUpdate::Progress(Ratio { part: 1, whole: 1 }));
}
