//! The launcher window's decisions, apart from drawing: what each key
//! does, which hints a row shows, how many results are listed, and when
//! the watched sources call for a rebuilt index.
//!
//! Everything is keyboard driven: arrows move the selection, Enter
//! launches (or confirms a pending uninstall), Escape cancels or hides,
//! Ctrl+Delete asks to uninstall the selected row where that is safe.
use vstd::prelude::*;

use crate::provider::{Action, ResultItem, WatchSpec};
use crate::windows::texts;
use vstd::string::StringExecFns;

verus! {

/// Seconds of quiet after a change in a watched directory before the
/// index is rebuilt (an installation writes many files in a burst).
pub const WATCH_QUIET_SECS: u64 = 5;

/// What the window shows: `rows` results, the selected one, and the row
/// whose uninstall waits for confirmation.
#[derive(Debug, Clone, Copy, PartialEq, Eq, Structural)]
pub struct UiState {
    pub rows: usize,
    pub selected: Option<usize>,
    pub pending: Option<usize>,
}

/// What the user did.
#[derive(Debug, Clone, Copy, PartialEq, Eq, Structural)]
pub enum UiKey {
    Enter,
    Escape,
    /// The search text changed.
    Typed,
    CtrlDelete,
    Up,
    Down,
    /// A row was clicked.
    RowActivated(usize),
}

/// What the window is to do.
#[derive(Debug, Clone, Copy, PartialEq, Eq, Structural)]
pub enum UiAction {
    Nothing,
    /// Activate the hit of this row.
    Activate(usize),
    /// Hide the window (it stays resident).
    Hide,
    /// Show "Désinstaller « … » ?" for this row.
    AskConfirm(usize),
    /// Show that the selected app cannot be uninstalled from the launcher.
    Refuse,
    /// Run the uninstall confirmed for this row.
    Uninstall(usize),
    /// Hide the confirmation bar.
    Cancel,
    /// Query again with the new text (the rows change: see `ui_rows`).
    Requery,
    /// Select this row and scroll to it.
    Select(usize),
}

/// Row `i` exists and has a safe uninstall method.
pub open spec fn can_uninstall(uninstallable: Seq<bool>, i: usize) -> bool {
    i < uninstallable.len() && uninstallable[i as int]
}

/// The selection after an arrow: one row down (from before the first row
/// when nothing is selected) or up, when that row exists.
pub open spec fn moved(s: UiState, down: bool) -> Option<usize> {
    let current: int = match s.selected {
        Some(i) => i as int,
        None => -1,
    };
    let target = if down { current + 1 } else { current - 1 };
    if 0 <= target < s.rows {
        Some(target as usize)
    } else {
        None
    }
}

/// The window's transition for a key: Enter confirms a pending uninstall,
/// else activates the selected row; Escape cancels a pending confirmation,
/// else hides the window; typing cancels it and queries again; a click
/// during a confirmation cancels it; Ctrl+Delete asks for confirmation
/// only on a row with an uninstall method; the arrows move the selection
/// within the rows.
pub open spec fn ui_transition(s: UiState, key: UiKey, uninstallable: Seq<bool>) -> (UiState, UiAction) {
    match key {
        UiKey::Enter => match s.pending {
            Some(p) => (UiState { pending: None, ..s }, UiAction::Uninstall(p)),
            None => match s.selected {
                Some(i) => (s, UiAction::Activate(i)),
                None => (s, UiAction::Nothing),
            },
        },
        UiKey::Escape => match s.pending {
            Some(_) => (UiState { pending: None, ..s }, UiAction::Cancel),
            None => (s, UiAction::Hide),
        },
        UiKey::Typed => (UiState { pending: None, ..s }, UiAction::Requery),
        UiKey::RowActivated(i) => match s.pending {
            Some(_) => (UiState { pending: None, ..s }, UiAction::Cancel),
            None => if i < s.rows {
                (s, UiAction::Activate(i))
            } else {
                (s, UiAction::Nothing)
            },
        },
        UiKey::CtrlDelete => match s.selected {
            Some(i) => if can_uninstall(uninstallable, i) {
                (UiState { pending: Some(i), ..s }, UiAction::AskConfirm(i))
            } else {
                (s, UiAction::Refuse)
            },
            None => (s, UiAction::Nothing),
        },
        UiKey::Up => match moved(s, false) {
            Some(t) => (UiState { selected: Some(t), ..s }, UiAction::Select(t)),
            None => (s, UiAction::Nothing),
        },
        UiKey::Down => match moved(s, true) {
            Some(t) => (UiState { selected: Some(t), ..s }, UiAction::Select(t)),
            None => (s, UiAction::Nothing),
        },
    }
}

/// The arrows move the selection by exactly one row and never leave the
/// rows: Up from row `i > 0` selects row `i - 1`, Down from row `i` selects
/// row `i + 1` when there is one (row 0 when nothing is selected); at the
/// first or last row they do nothing. Nothing else changes.
pub proof fn lemma_arrows_move_one_row(s: UiState, u: Seq<bool>, i: usize)
    ensures
        s.selected == Some(i) && 1 <= i < s.rows ==> ui_transition(s, UiKey::Up, u) == (
            UiState { rows: s.rows, selected: Some((i - 1) as usize), pending: s.pending },
            UiAction::Select((i - 1) as usize),
        ),
        s.selected == Some(i) && i + 1 < s.rows ==> ui_transition(s, UiKey::Down, u) == (
            UiState { rows: s.rows, selected: Some((i + 1) as usize), pending: s.pending },
            UiAction::Select((i + 1) as usize),
        ),
        s.selected is None && s.rows > 0 ==> ui_transition(s, UiKey::Down, u) == (
            UiState { rows: s.rows, selected: Some(0usize), pending: s.pending },
            UiAction::Select(0usize),
        ),
        s.selected == Some(0usize) ==> ui_transition(s, UiKey::Up, u) == (s, UiAction::Nothing),
        s.selected is None ==> ui_transition(s, UiKey::Up, u) == (s, UiAction::Nothing),
        s.selected == Some(i) && i + 1 == s.rows ==> ui_transition(s, UiKey::Down, u) == (s, UiAction::Nothing),
{
}

/// Enter confirms a pending uninstall (of the row asked for) and clears
/// it; without one it activates the selected row and changes nothing.
/// Escape clears a pending confirmation, else hides the window. Typing
/// always clears it and queries again.
pub proof fn lemma_enter_escape_typing(s: UiState, u: Seq<bool>, i: usize)
    ensures
        s.pending == Some(i) ==> ui_transition(s, UiKey::Enter, u) == (
            UiState { rows: s.rows, selected: s.selected, pending: None },
            UiAction::Uninstall(i),
        ),
        s.pending is None && s.selected == Some(i) ==> ui_transition(s, UiKey::Enter, u) == (
            s,
            UiAction::Activate(i),
        ),
        s.pending is Some ==> ui_transition(s, UiKey::Escape, u) == (
            UiState { rows: s.rows, selected: s.selected, pending: None },
            UiAction::Cancel,
        ),
        s.pending is None ==> ui_transition(s, UiKey::Escape, u) == (s, UiAction::Hide),
        ui_transition(s, UiKey::Typed, u) == (
            UiState { rows: s.rows, selected: s.selected, pending: None },
            UiAction::Requery,
        ),
{
}

/// Ctrl+Delete asks for confirmation exactly on a selected row that has a
/// safe uninstall method, and records that row as pending; on any other
/// selected row it refuses and changes nothing.
pub proof fn lemma_ctrl_delete_only_where_safe(s: UiState, u: Seq<bool>, i: usize)
    ensures
        s.selected == Some(i) && i < u.len() && u[i as int] ==> ui_transition(s, UiKey::CtrlDelete, u) == (
            UiState { rows: s.rows, selected: s.selected, pending: Some(i) },
            UiAction::AskConfirm(i),
        ),
        s.selected == Some(i) && !(i < u.len() && u[i as int]) ==> ui_transition(s, UiKey::CtrlDelete, u) == (
            s,
            UiAction::Refuse,
        ),
{
}

/// The next state and action for `key` in `state`; `uninstallable[i]`
/// tells whether row `i` has a safe uninstall method.
pub fn ui_step(state: UiState, key: UiKey, uninstallable: &Vec<bool>) -> (r: (UiState, UiAction))
    ensures
        r == ui_transition(state, key, uninstallable@),
{
    match key {
        UiKey::Enter => match state.pending {
            Some(p) => (UiState { pending: None, ..state }, UiAction::Uninstall(p)),
            None => match state.selected {
                Some(i) => (state, UiAction::Activate(i)),
                None => (state, UiAction::Nothing),
            },
        },
        UiKey::Escape => match state.pending {
            Some(_) => (UiState { pending: None, ..state }, UiAction::Cancel),
            None => (state, UiAction::Hide),
        },
        UiKey::Typed => (UiState { pending: None, ..state }, UiAction::Requery),
        UiKey::RowActivated(i) => match state.pending {
            Some(_) => (UiState { pending: None, ..state }, UiAction::Cancel),
            None => if i < state.rows {
                (state, UiAction::Activate(i))
            } else {
                (state, UiAction::Nothing)
            },
        },
        UiKey::CtrlDelete => match state.selected {
            Some(i) => if i < uninstallable.len() && uninstallable[i] {
                (UiState { pending: Some(i), ..state }, UiAction::AskConfirm(i))
            } else {
                (state, UiAction::Refuse)
            },
            None => (state, UiAction::Nothing),
        },
        UiKey::Up => match state.selected {
            Some(i) => if i >= 1 && i - 1 < state.rows {
                (UiState { selected: Some(i - 1), ..state }, UiAction::Select(i - 1))
            } else {
                (state, UiAction::Nothing)
            },
            None => (state, UiAction::Nothing),
        },
        UiKey::Down => {
            let target: usize = match state.selected {
                Some(i) => if i < state.rows {
                    i + 1
                } else {
                    state.rows
                },
                None => 0,
            };
            if target < state.rows {
                (UiState { selected: Some(target), ..state }, UiAction::Select(target))
            } else {
                (state, UiAction::Nothing)
            }
        },
    }
}

/// The window after a new query listed `rows` results: the first one is
/// selected, ready for Enter; no confirmation is pending.
pub fn ui_rows(rows: usize) -> (r: UiState)
    ensures
        r.rows == rows,
        r.selected == (if rows > 0 { Some(0usize) } else { None::<usize> }),
        r.pending is None,
{
    UiState { rows, selected: if rows > 0 { Some(0) } else { None }, pending: None }
}

/// How many of `total` results are listed: all of them for the empty
/// query (browsing), else at most `max_results`.
pub fn shown_count(total: usize, query_empty: bool, max_results: usize) -> (r: usize)
    ensures
        r == (if query_empty || total <= max_results { total } else { max_results }),
{
    if query_empty || total <= max_results {
        total
    } else {
        max_results
    }
}

/// The verb of the Enter hint for an action.
pub open spec fn verb(action: Action) -> Seq<char> {
    match action {
        Action::CopyText(_) => "copier"@,
        Action::OpenPath(_) => "ouvrir"@,
        Action::Launch(_) => "lancer"@,
    }
}

/// The keyboard hints of a row: what Enter does, and the uninstall hint
/// only where uninstalling is safe.
pub fn row_hints(item: &ResultItem) -> (r: Vec<String>)
    ensures
        texts(r@) == seq!["↵ "@ + verb(item.action)] + (if item.uninstall is Some {
            seq!["⌦ désinstaller"@]
        } else {
            Seq::<Seq<char>>::empty()
        }),
{
    let v = match &item.action {
        Action::CopyText(_) => "copier",
        Action::OpenPath(_) => "ouvrir",
        Action::Launch(_) => "lancer",
    };
    let mut enter = String::from_str("↵ ");
    enter.append(v);
    let mut r: Vec<String> = Vec::new();
    r.push(enter);
    if item.uninstall.is_some() {
        r.push(String::from_str("⌦ désinstaller"));
    }
    assert(texts(r@) =~= seq!["↵ "@ + verb(item.action)] + (if item.uninstall is Some {
        seq!["⌦ désinstaller"@]
    } else {
        Seq::<Seq<char>>::empty()
    }));
    r
}

/// Rebuild the index on this tick of the timer: something changed, and
/// the watched directories have been quiet for `WATCH_QUIET_SECS`.
pub fn watch_tick(dirty: bool, quiet_secs: u64) -> (r: bool)
    ensures
        r == (dirty && quiet_secs >= WATCH_QUIET_SECS),
{
    dirty && quiet_secs >= WATCH_QUIET_SECS
}

/// The specs whose directory exists (`is_dir[i]` for `specs[i]`), in order.
pub open spec fn existing_specs(specs: Seq<WatchSpec>, is_dir: Seq<bool>) -> Seq<WatchSpec>
    decreases specs.len(),
{
    if specs.len() == 0 {
        Seq::empty()
    } else {
        let rest = existing_specs(specs.drop_last(), is_dir);
        let i = specs.len() - 1;
        if i < is_dir.len() && is_dir[i] {
            rest.push(specs.last())
        } else {
            rest
        }
    }
}

/// The watch specs to register: those whose path is a directory, in order
/// (a source that is not installed has nothing to watch).
pub fn watched_specs(specs: Vec<WatchSpec>, is_dir: &Vec<bool>) -> (r: Vec<WatchSpec>)
    ensures
        r@ == existing_specs(specs@, is_dir@),
{
    let mut r: Vec<WatchSpec> = Vec::new();
    let mut i: usize = 0;
    while i < specs.len()
        invariant
            i <= specs@.len(),
            r@ == existing_specs(specs@.take(i as int), is_dir@),
        decreases specs@.len() - i,
    {
        proof {
            assert(specs@.take(i + 1).drop_last() =~= specs@.take(i as int));
        }
        if i < is_dir.len() && is_dir[i] {
            let s = WatchSpec { path: specs[i].path.clone(), recursive: specs[i].recursive };
            assert(s == specs@[i as int]);
            r.push(s);
        }
        i = i + 1;
    }
    assert(specs@.take(specs@.len() as int) =~= specs@);
    r
}

} // verus!
