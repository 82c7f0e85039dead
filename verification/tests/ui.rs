//! The launcher window's decisions: keys, hints, listing, watching.

use weft_core::model::LaunchSpec;
use weft_core::provider::{Action, ResultItem, Tier, UninstallSpec, WatchSpec};
use weft_core::ui::{
    row_hints, shown_count, ui_rows, ui_step, watch_tick, watched_specs, UiAction, UiKey, UiState,
    WATCH_QUIET_SECS,
};

fn state(rows: usize, selected: Option<usize>, pending: Option<usize>) -> UiState {
    UiState { rows, selected, pending }
}

#[test]
fn enter_launches_selection_or_confirms_pending() {
    let (s, a) = ui_step(state(3, Some(1), None), UiKey::Enter, &vec![false; 3]);
    assert_eq!(a, UiAction::Activate(1));
    assert_eq!(s, state(3, Some(1), None));
    let (s, a) = ui_step(state(3, Some(1), Some(2)), UiKey::Enter, &vec![false; 3]);
    assert_eq!(a, UiAction::Uninstall(2));
    assert_eq!(s.pending, None);
    let (_, a) = ui_step(state(0, None, None), UiKey::Enter, &vec![]);
    assert_eq!(a, UiAction::Nothing);
}

#[test]
fn escape_cancels_then_hides() {
    let (s, a) = ui_step(state(2, Some(0), Some(0)), UiKey::Escape, &vec![true, false]);
    assert_eq!(a, UiAction::Cancel);
    let (_, a) = ui_step(s, UiKey::Escape, &vec![true, false]);
    assert_eq!(a, UiAction::Hide);
}

#[test]
fn typing_cancels_pending_and_requeries() {
    let (s, a) = ui_step(state(2, Some(0), Some(0)), UiKey::Typed, &vec![true, false]);
    assert_eq!(a, UiAction::Requery);
    assert_eq!(s.pending, None);
    assert_eq!(ui_rows(5), state(5, Some(0), None));
    assert_eq!(ui_rows(0), state(0, None, None));
}

#[test]
fn ctrl_delete_asks_only_where_safe() {
    let u = vec![true, false];
    let (s, a) = ui_step(state(2, Some(0), None), UiKey::CtrlDelete, &u);
    assert_eq!(a, UiAction::AskConfirm(0));
    assert_eq!(s.pending, Some(0));
    let (s, a) = ui_step(state(2, Some(1), None), UiKey::CtrlDelete, &u);
    assert_eq!(a, UiAction::Refuse);
    assert_eq!(s.pending, None);
}

#[test]
fn arrows_stay_within_rows() {
    let u = vec![false; 2];
    assert_eq!(ui_step(state(2, None, None), UiKey::Down, &u).1, UiAction::Select(0));
    assert_eq!(ui_step(state(2, Some(0), None), UiKey::Down, &u).1, UiAction::Select(1));
    assert_eq!(ui_step(state(2, Some(1), None), UiKey::Down, &u).1, UiAction::Nothing);
    assert_eq!(ui_step(state(2, Some(1), None), UiKey::Up, &u).1, UiAction::Select(0));
    assert_eq!(ui_step(state(2, Some(0), None), UiKey::Up, &u).1, UiAction::Nothing);
    assert_eq!(ui_step(state(2, None, None), UiKey::Up, &u).1, UiAction::Nothing);
}

#[test]
fn click_during_confirmation_cancels() {
    let u = vec![true; 2];
    assert_eq!(ui_step(state(2, Some(0), Some(0)), UiKey::RowActivated(1), &u).1, UiAction::Cancel);
    assert_eq!(ui_step(state(2, Some(0), None), UiKey::RowActivated(1), &u).1, UiAction::Activate(1));
}

fn item(action: Action, uninstall: Option<UninstallSpec>) -> ResultItem {
    ResultItem {
        id: "x".into(),
        title: "X".into(),
        subtitle: None,
        icon: None,
        action,
        uninstall,
        tier: Tier::Primary,
        score: 1,
    }
}

#[test]
fn row_hints_name_the_verb_and_the_safe_uninstall() {
    let launch = item(Action::Launch(LaunchSpec::Exec(vec!["x".into()])), None);
    assert_eq!(row_hints(&launch), vec!["↵ lancer".to_owned()]);
    let copy = item(Action::CopyText("161".into()), None);
    assert_eq!(row_hints(&copy), vec!["↵ copier".to_owned()]);
    let open = item(
        Action::OpenPath("/home/u/a.txt".into()),
        Some(UninstallSpec::Flatpak("org.x.X".into())),
    );
    assert_eq!(row_hints(&open), vec!["↵ ouvrir".to_owned(), "⌦ désinstaller".to_owned()]);
}

#[test]
fn listing_caps_only_real_queries() {
    assert_eq!(shown_count(20, true, 8), 20);
    assert_eq!(shown_count(20, false, 8), 8);
    assert_eq!(shown_count(3, false, 8), 3);
}

#[test]
fn index_rebuilds_after_quiet() {
    assert!(!watch_tick(false, 100));
    assert!(!watch_tick(true, WATCH_QUIET_SECS - 1));
    assert!(watch_tick(true, WATCH_QUIET_SECS));
    let specs = vec![
        WatchSpec { path: "/a".into(), recursive: true },
        WatchSpec { path: "/b".into(), recursive: false },
        WatchSpec { path: "/c".into(), recursive: true },
    ];
    let kept = watched_specs(specs, &vec![true, false, true]);
    let paths: Vec<&str> = kept.iter().map(|s| s.path.as_str()).collect();
    assert_eq!(paths, vec!["/a", "/c"]);
}
