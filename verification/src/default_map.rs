//! The compiled-in default map: every chord, the action it fires, and the context it fires in.

use vstd::prelude::*;

use crate::action::{Action, Context};
use crate::chord::{
    alt, chord_text, ctrl, is_canonical, law_a_chord_label_is_read_back, none, parse_chord_spec,
    shift, KeyCode, KeyEvent, KeyModifiers,
};
use crate::keys::{is_unbindable_spec, lookup_spec};
use crate::rebinding::{
    collisions, law_no_collision_means_one_action_per_key,
    law_without_collisions_every_key_fires_its_own_action, place_of,
};

verus! {

broadcast use vstd::seq_lib::group_seq_properties;

/// One row of a binding table: a context, the chord that fires in it, the action it fires, and
/// whether that chord is wired to the action yet.
#[derive(Clone, Copy, Debug, PartialEq, Eq, Structural)]
pub struct Binding {
    pub context: Context,
    pub code: KeyCode,
    pub modifiers: KeyModifiers,
    pub action: Action,
    pub built: bool,
}

/// A row whose chord fires its action.
#[verifier::allow_in_spec]
pub fn binding(
    context: Context,
    code: KeyCode,
    modifiers: KeyModifiers,
    action: Action,
) -> Binding
    returns
        (Binding { context, code, modifiers, action, built: true }),
{
    Binding { context, code, modifiers, action, built: true }
}

/// A row that reserves its chord without firing anything yet.
#[verifier::allow_in_spec]
pub fn binding_not_built(
    context: Context,
    code: KeyCode,
    modifiers: KeyModifiers,
    action: Action,
) -> Binding
    returns
        (Binding { context, code, modifiers, action, built: false }),
{
    Binding { context, code, modifiers, action, built: false }
}

/// The default rows of the `global` context, in order.
pub open spec fn global_rows() -> Seq<Binding> {
    seq![
        binding(Context::Global, KeyCode::Char('?'), none(), Action::OpenHelp),
        binding(Context::Global, KeyCode::Char('q'), none(), Action::Quit),
        binding(Context::Global, KeyCode::Char('!'), none(), Action::OpenLauncher),
        binding(Context::Global, KeyCode::Char(';'), none(), Action::OpenActionPalette),
        binding(Context::Global, KeyCode::Char('m'), none(), Action::OpenManagementPalette),
        binding(Context::Global, KeyCode::Char('/'), none(), Action::EnterFilter),
        binding(Context::Global, KeyCode::Char('r'), none(), Action::RefreshAll),
        binding(Context::Global, KeyCode::F(5), none(), Action::RefreshAll),
        binding(Context::Global, KeyCode::Char('R'), shift(), Action::RefreshSelection),
        binding(Context::Global, KeyCode::Char('b'), none(), Action::RederiveDefaultBranches),
        binding(Context::Global, KeyCode::Char('w'), none(), Action::ExpandWarning),
        binding(Context::Global, KeyCode::Char('t'), none(), Action::ToggleWorktrees),
        binding(Context::Global, KeyCode::Char('s'), none(), Action::OpenSetPicker),
        binding(Context::Global, KeyCode::Tab, none(), Action::OpenSetPicker),
        binding(Context::Global, KeyCode::Char('o'), none(), Action::OpenSortMenu),
        binding(Context::Global, KeyCode::Char('1'), none(), Action::SwitchToSet(1)),
        binding(Context::Global, KeyCode::Char('2'), none(), Action::SwitchToSet(2)),
        binding(Context::Global, KeyCode::Char('3'), none(), Action::SwitchToSet(3)),
        binding(Context::Global, KeyCode::Char('4'), none(), Action::SwitchToSet(4)),
        binding(Context::Global, KeyCode::Char('5'), none(), Action::SwitchToSet(5)),
        binding(Context::Global, KeyCode::Char('6'), none(), Action::SwitchToSet(6)),
        binding(Context::Global, KeyCode::Char('7'), none(), Action::SwitchToSet(7)),
        binding(Context::Global, KeyCode::Char('8'), none(), Action::SwitchToSet(8)),
        binding(Context::Global, KeyCode::Char('9'), none(), Action::SwitchToSet(9)),
        binding(Context::Global, KeyCode::Char('r'), ctrl(), Action::ReloadConfig),
        binding(Context::Global, KeyCode::Char('e'), none(), Action::EditConfig),
        binding(Context::Global, KeyCode::BackTab, none(), Action::MoveFocusBetweenListAndDetail),
        binding(Context::Global, KeyCode::Esc, none(), Action::Unwind),
    ]
}

fn global_bindings() -> (rows: Vec<Binding>)
    ensures
        rows@ == global_rows(),
{
    vec![
        binding(Context::Global, KeyCode::Char('?'), none(), Action::OpenHelp),
        binding(Context::Global, KeyCode::Char('q'), none(), Action::Quit),
        binding(Context::Global, KeyCode::Char('!'), none(), Action::OpenLauncher),
        binding(Context::Global, KeyCode::Char(';'), none(), Action::OpenActionPalette),
        binding(Context::Global, KeyCode::Char('m'), none(), Action::OpenManagementPalette),
        binding(Context::Global, KeyCode::Char('/'), none(), Action::EnterFilter),
        binding(Context::Global, KeyCode::Char('r'), none(), Action::RefreshAll),
        binding(Context::Global, KeyCode::F(5), none(), Action::RefreshAll),
        binding(Context::Global, KeyCode::Char('R'), shift(), Action::RefreshSelection),
        binding(Context::Global, KeyCode::Char('b'), none(), Action::RederiveDefaultBranches),
        binding(Context::Global, KeyCode::Char('w'), none(), Action::ExpandWarning),
        binding(Context::Global, KeyCode::Char('t'), none(), Action::ToggleWorktrees),
        binding(Context::Global, KeyCode::Char('s'), none(), Action::OpenSetPicker),
        binding(Context::Global, KeyCode::Tab, none(), Action::OpenSetPicker),
        binding(Context::Global, KeyCode::Char('o'), none(), Action::OpenSortMenu),
        binding(Context::Global, KeyCode::Char('1'), none(), Action::SwitchToSet(1)),
        binding(Context::Global, KeyCode::Char('2'), none(), Action::SwitchToSet(2)),
        binding(Context::Global, KeyCode::Char('3'), none(), Action::SwitchToSet(3)),
        binding(Context::Global, KeyCode::Char('4'), none(), Action::SwitchToSet(4)),
        binding(Context::Global, KeyCode::Char('5'), none(), Action::SwitchToSet(5)),
        binding(Context::Global, KeyCode::Char('6'), none(), Action::SwitchToSet(6)),
        binding(Context::Global, KeyCode::Char('7'), none(), Action::SwitchToSet(7)),
        binding(Context::Global, KeyCode::Char('8'), none(), Action::SwitchToSet(8)),
        binding(Context::Global, KeyCode::Char('9'), none(), Action::SwitchToSet(9)),
        binding(Context::Global, KeyCode::Char('r'), ctrl(), Action::ReloadConfig),
        binding(Context::Global, KeyCode::Char('e'), none(), Action::EditConfig),
        binding(Context::Global, KeyCode::BackTab, none(), Action::MoveFocusBetweenListAndDetail),
        binding(Context::Global, KeyCode::Esc, none(), Action::Unwind),
    ]
}

/// The default rows of the `list` context, in order.
pub open spec fn list_rows() -> Seq<Binding> {
    seq![
        binding(Context::List, KeyCode::Char('j'), none(), Action::MoveDown),
        binding(Context::List, KeyCode::Down, none(), Action::MoveDown),
        binding(Context::List, KeyCode::Char('k'), none(), Action::MoveUp),
        binding(Context::List, KeyCode::Up, none(), Action::MoveUp),
        binding(Context::List, KeyCode::Char('g'), none(), Action::FirstRow),
        binding(Context::List, KeyCode::Char('G'), shift(), Action::LastRow),
        binding(Context::List, KeyCode::Char('d'), ctrl(), Action::HalfPageDown),
        binding(Context::List, KeyCode::PageDown, none(), Action::HalfPageDown),
        binding(Context::List, KeyCode::Char('u'), ctrl(), Action::HalfPageUp),
        binding(Context::List, KeyCode::PageUp, none(), Action::HalfPageUp),
        binding(Context::List, KeyCode::Char(' '), none(), Action::ToggleSelection),
        binding(Context::List, KeyCode::Char('v'), none(), Action::AnchorRange),
        binding(Context::List, KeyCode::Char('a'), none(), Action::SelectAllVisible),
        binding(Context::List, KeyCode::Char('A'), shift(), Action::ClearSelection),
        binding(Context::List, KeyCode::Char('/'), alt(), Action::ClearFilter),
        binding(Context::List, KeyCode::Enter, none(), Action::OpenDetail),
        binding(Context::List, KeyCode::Char('d'), none(), Action::DismissVanished),
        binding(Context::List, KeyCode::Char('n'), none(), Action::NextFailed),
        binding(Context::List, KeyCode::Char('N'), shift(), Action::PreviousFailed),
    ]
}

fn list_bindings() -> (rows: Vec<Binding>)
    ensures
        rows@ == list_rows(),
{
    vec![
        binding(Context::List, KeyCode::Char('j'), none(), Action::MoveDown),
        binding(Context::List, KeyCode::Down, none(), Action::MoveDown),
        binding(Context::List, KeyCode::Char('k'), none(), Action::MoveUp),
        binding(Context::List, KeyCode::Up, none(), Action::MoveUp),
        binding(Context::List, KeyCode::Char('g'), none(), Action::FirstRow),
        binding(Context::List, KeyCode::Char('G'), shift(), Action::LastRow),
        binding(Context::List, KeyCode::Char('d'), ctrl(), Action::HalfPageDown),
        binding(Context::List, KeyCode::PageDown, none(), Action::HalfPageDown),
        binding(Context::List, KeyCode::Char('u'), ctrl(), Action::HalfPageUp),
        binding(Context::List, KeyCode::PageUp, none(), Action::HalfPageUp),
        binding(Context::List, KeyCode::Char(' '), none(), Action::ToggleSelection),
        binding(Context::List, KeyCode::Char('v'), none(), Action::AnchorRange),
        binding(Context::List, KeyCode::Char('a'), none(), Action::SelectAllVisible),
        binding(Context::List, KeyCode::Char('A'), shift(), Action::ClearSelection),
        binding(Context::List, KeyCode::Char('/'), alt(), Action::ClearFilter),
        binding(Context::List, KeyCode::Enter, none(), Action::OpenDetail),
        binding(Context::List, KeyCode::Char('d'), none(), Action::DismissVanished),
        binding(Context::List, KeyCode::Char('n'), none(), Action::NextFailed),
        binding(Context::List, KeyCode::Char('N'), shift(), Action::PreviousFailed),
    ]
}

/// The default rows of the `detail` context, in order.
pub open spec fn detail_rows() -> Seq<Binding> {
    seq![
        binding(Context::Detail, KeyCode::Char('j'), none(), Action::ScrollDown),
        binding(Context::Detail, KeyCode::Down, none(), Action::ScrollDown),
        binding(Context::Detail, KeyCode::Char('k'), none(), Action::ScrollUp),
        binding(Context::Detail, KeyCode::Up, none(), Action::ScrollUp),
        binding(Context::Detail, KeyCode::Char('g'), none(), Action::Top),
        binding(Context::Detail, KeyCode::Char('G'), shift(), Action::Bottom),
        binding(Context::Detail, KeyCode::Char('d'), ctrl(), Action::HalfPageDown),
        binding(Context::Detail, KeyCode::Char('u'), ctrl(), Action::HalfPageUp),
        binding(Context::Detail, KeyCode::Esc, none(), Action::ClosePane),
        binding(Context::Detail, KeyCode::Tab, none(), Action::ReturnFocusToList),
    ]
}

fn detail_bindings() -> (rows: Vec<Binding>)
    ensures
        rows@ == detail_rows(),
{
    vec![
        binding(Context::Detail, KeyCode::Char('j'), none(), Action::ScrollDown),
        binding(Context::Detail, KeyCode::Down, none(), Action::ScrollDown),
        binding(Context::Detail, KeyCode::Char('k'), none(), Action::ScrollUp),
        binding(Context::Detail, KeyCode::Up, none(), Action::ScrollUp),
        binding(Context::Detail, KeyCode::Char('g'), none(), Action::Top),
        binding(Context::Detail, KeyCode::Char('G'), shift(), Action::Bottom),
        binding(Context::Detail, KeyCode::Char('d'), ctrl(), Action::HalfPageDown),
        binding(Context::Detail, KeyCode::Char('u'), ctrl(), Action::HalfPageUp),
        binding(Context::Detail, KeyCode::Esc, none(), Action::ClosePane),
        binding(Context::Detail, KeyCode::Tab, none(), Action::ReturnFocusToList),
    ]
}

/// The default rows of the `input` context, in order.
pub open spec fn input_rows() -> Seq<Binding> {
    seq![
        binding(Context::Input, KeyCode::Enter, none(), Action::Apply),
        binding(Context::Input, KeyCode::Enter, alt(), Action::InsertNewline),
        binding(Context::Input, KeyCode::Char('s'), alt(), Action::ToggleShell),
        binding(Context::Input, KeyCode::Char('/'), alt(), Action::ClearFilter),
        binding(Context::Input, KeyCode::Esc, none(), Action::Cancel),
        binding(Context::Input, KeyCode::Up, none(), Action::PreviousEntry),
        binding(Context::Input, KeyCode::Char('k'), ctrl(), Action::PreviousEntry),
        binding(Context::Input, KeyCode::Down, none(), Action::NextEntry),
        binding(Context::Input, KeyCode::Char('j'), ctrl(), Action::NextEntry),
        binding(Context::Input, KeyCode::Tab, none(), Action::AcceptCompletion),
        binding(Context::Input, KeyCode::Backspace, none(), Action::DeletePreviousChar),
        binding(Context::Input, KeyCode::Char('w'), ctrl(), Action::DeletePreviousWord),
        binding(Context::Input, KeyCode::Char('u'), ctrl(), Action::ClearLine),
        binding(Context::Input, KeyCode::Char('o'), ctrl(), Action::OpenInEditor),
        binding(Context::Input, KeyCode::Left, none(), Action::MoveCursorLeft),
        binding(Context::Input, KeyCode::Right, none(), Action::MoveCursorRight),
        binding(Context::Input, KeyCode::Char('b'), alt(), Action::MoveCursorWordLeft),
        binding(Context::Input, KeyCode::Char('f'), alt(), Action::MoveCursorWordRight),
        binding(Context::Input, KeyCode::Char('a'), ctrl(), Action::MoveCursorToLineStart),
        binding(Context::Input, KeyCode::Home, none(), Action::MoveCursorToLineStart),
        binding(Context::Input, KeyCode::Char('e'), ctrl(), Action::MoveCursorToLineEnd),
        binding(Context::Input, KeyCode::End, none(), Action::MoveCursorToLineEnd),
    ]
}

fn input_bindings() -> (rows: Vec<Binding>)
    ensures
        rows@ == input_rows(),
{
    vec![
        binding(Context::Input, KeyCode::Enter, none(), Action::Apply),
        binding(Context::Input, KeyCode::Enter, alt(), Action::InsertNewline),
        binding(Context::Input, KeyCode::Char('s'), alt(), Action::ToggleShell),
        binding(Context::Input, KeyCode::Char('/'), alt(), Action::ClearFilter),
        binding(Context::Input, KeyCode::Esc, none(), Action::Cancel),
        binding(Context::Input, KeyCode::Up, none(), Action::PreviousEntry),
        binding(Context::Input, KeyCode::Char('k'), ctrl(), Action::PreviousEntry),
        binding(Context::Input, KeyCode::Down, none(), Action::NextEntry),
        binding(Context::Input, KeyCode::Char('j'), ctrl(), Action::NextEntry),
        binding(Context::Input, KeyCode::Tab, none(), Action::AcceptCompletion),
        binding(Context::Input, KeyCode::Backspace, none(), Action::DeletePreviousChar),
        binding(Context::Input, KeyCode::Char('w'), ctrl(), Action::DeletePreviousWord),
        binding(Context::Input, KeyCode::Char('u'), ctrl(), Action::ClearLine),
        binding(Context::Input, KeyCode::Char('o'), ctrl(), Action::OpenInEditor),
        binding(Context::Input, KeyCode::Left, none(), Action::MoveCursorLeft),
        binding(Context::Input, KeyCode::Right, none(), Action::MoveCursorRight),
        binding(Context::Input, KeyCode::Char('b'), alt(), Action::MoveCursorWordLeft),
        binding(Context::Input, KeyCode::Char('f'), alt(), Action::MoveCursorWordRight),
        binding(Context::Input, KeyCode::Char('a'), ctrl(), Action::MoveCursorToLineStart),
        binding(Context::Input, KeyCode::Home, none(), Action::MoveCursorToLineStart),
        binding(Context::Input, KeyCode::Char('e'), ctrl(), Action::MoveCursorToLineEnd),
        binding(Context::Input, KeyCode::End, none(), Action::MoveCursorToLineEnd),
    ]
}

/// The default rows of the `overlay` context, in order.
pub open spec fn overlay_rows() -> Seq<Binding> {
    seq![
        binding(Context::Overlay, KeyCode::Char('j'), none(), Action::ScrollDown),
        binding(Context::Overlay, KeyCode::Down, none(), Action::ScrollDown),
        binding(Context::Overlay, KeyCode::Char('k'), none(), Action::ScrollUp),
        binding(Context::Overlay, KeyCode::Up, none(), Action::ScrollUp),
        binding(Context::Overlay, KeyCode::Char('g'), none(), Action::Top),
        binding(Context::Overlay, KeyCode::Char('G'), shift(), Action::Bottom),
        binding(Context::Overlay, KeyCode::Char('d'), ctrl(), Action::HalfPageDown),
        binding(Context::Overlay, KeyCode::Char('u'), ctrl(), Action::HalfPageUp),
        binding(Context::Overlay, KeyCode::Enter, none(), Action::Choose),
        binding(Context::Overlay, KeyCode::Esc, none(), Action::Close),
        binding(Context::Overlay, KeyCode::Char('q'), none(), Action::Close),
        binding(Context::Overlay, KeyCode::Char('/'), none(), Action::Search),
    ]
}

fn overlay_bindings() -> (rows: Vec<Binding>)
    ensures
        rows@ == overlay_rows(),
{
    vec![
        binding(Context::Overlay, KeyCode::Char('j'), none(), Action::ScrollDown),
        binding(Context::Overlay, KeyCode::Down, none(), Action::ScrollDown),
        binding(Context::Overlay, KeyCode::Char('k'), none(), Action::ScrollUp),
        binding(Context::Overlay, KeyCode::Up, none(), Action::ScrollUp),
        binding(Context::Overlay, KeyCode::Char('g'), none(), Action::Top),
        binding(Context::Overlay, KeyCode::Char('G'), shift(), Action::Bottom),
        binding(Context::Overlay, KeyCode::Char('d'), ctrl(), Action::HalfPageDown),
        binding(Context::Overlay, KeyCode::Char('u'), ctrl(), Action::HalfPageUp),
        binding(Context::Overlay, KeyCode::Enter, none(), Action::Choose),
        binding(Context::Overlay, KeyCode::Esc, none(), Action::Close),
        binding(Context::Overlay, KeyCode::Char('q'), none(), Action::Close),
        binding(Context::Overlay, KeyCode::Char('/'), none(), Action::Search),
    ]
}

/// The default rows of the `confirm` context, in order.
pub open spec fn confirm_rows() -> Seq<Binding> {
    seq![
        binding(Context::Confirm, KeyCode::Char('y'), none(), Action::Run),
        binding(Context::Confirm, KeyCode::Char('n'), none(), Action::Decline),
        binding(Context::Confirm, KeyCode::Esc, none(), Action::Decline),
    ]
}

fn confirm_bindings() -> (rows: Vec<Binding>)
    ensures
        rows@ == confirm_rows(),
{
    vec![
        binding(Context::Confirm, KeyCode::Char('y'), none(), Action::Run),
        binding(Context::Confirm, KeyCode::Char('n'), none(), Action::Decline),
        binding(Context::Confirm, KeyCode::Esc, none(), Action::Decline),
    ]
}

/// The default rows of the `sort` context, in order.
pub open spec fn sort_rows() -> Seq<Binding> {
    seq![
        binding(Context::Sort, KeyCode::Char('n'), none(), Action::SortByName),
        binding(Context::Sort, KeyCode::Char('b'), none(), Action::SortByBranch),
        binding(Context::Sort, KeyCode::Char('s'), none(), Action::SortBySync),
        binding(Context::Sort, KeyCode::Char('a'), none(), Action::SortByBase),
        binding(Context::Sort, KeyCode::Char('d'), none(), Action::SortByDirty),
        binding(Context::Sort, KeyCode::Char('t'), none(), Action::SortByState),
        binding(Context::Sort, KeyCode::Char('0'), none(), Action::SortNatural),
        binding(Context::Sort, KeyCode::Esc, none(), Action::CloseSortMenu),
        binding(Context::Sort, KeyCode::Char('o'), none(), Action::CloseSortMenu),
    ]
}

fn sort_bindings() -> (rows: Vec<Binding>)
    ensures
        rows@ == sort_rows(),
{
    vec![
        binding(Context::Sort, KeyCode::Char('n'), none(), Action::SortByName),
        binding(Context::Sort, KeyCode::Char('b'), none(), Action::SortByBranch),
        binding(Context::Sort, KeyCode::Char('s'), none(), Action::SortBySync),
        binding(Context::Sort, KeyCode::Char('a'), none(), Action::SortByBase),
        binding(Context::Sort, KeyCode::Char('d'), none(), Action::SortByDirty),
        binding(Context::Sort, KeyCode::Char('t'), none(), Action::SortByState),
        binding(Context::Sort, KeyCode::Char('0'), none(), Action::SortNatural),
        binding(Context::Sort, KeyCode::Esc, none(), Action::CloseSortMenu),
        binding(Context::Sort, KeyCode::Char('o'), none(), Action::CloseSortMenu),
    ]
}

/// The whole default map, context by context.
pub open spec fn default_rows() -> Seq<Binding> {
    global_rows() + list_rows() + detail_rows() + input_rows() + overlay_rows() + confirm_rows() + sort_rows()
}

/// The whole default map.
pub fn default_bindings() -> (rows: Vec<Binding>)
    ensures
        rows@ == default_rows(),
{
    let mut rows: Vec<Binding> = global_bindings();
    let mut list = list_bindings();
    rows.append(&mut list);
    let mut detail = detail_bindings();
    rows.append(&mut detail);
    let mut input = input_bindings();
    rows.append(&mut input);
    let mut overlay = overlay_bindings();
    rows.append(&mut overlay);
    let mut confirm = confirm_bindings();
    rows.append(&mut confirm);
    let mut sort = sort_bindings();
    rows.append(&mut sort);
    rows
}

/// The action each default key fires, by context.
spec fn default_action(context: Context, code: KeyCode, modifiers: KeyModifiers) -> Action {
    match context {
        Context::Global => if code == KeyCode::Char('?') && modifiers == none() {
            Action::OpenHelp
        } else if code == KeyCode::Char('q') && modifiers == none() {
            Action::Quit
        } else if code == KeyCode::Char('!') && modifiers == none() {
            Action::OpenLauncher
        } else if code == KeyCode::Char(';') && modifiers == none() {
            Action::OpenActionPalette
        } else if code == KeyCode::Char('m') && modifiers == none() {
            Action::OpenManagementPalette
        } else if code == KeyCode::Char('/') && modifiers == none() {
            Action::EnterFilter
        } else if code == KeyCode::Char('r') && modifiers == none() {
            Action::RefreshAll
        } else if code == KeyCode::F(5) && modifiers == none() {
            Action::RefreshAll
        } else if code == KeyCode::Char('R') && modifiers == shift() {
            Action::RefreshSelection
        } else if code == KeyCode::Char('b') && modifiers == none() {
            Action::RederiveDefaultBranches
        } else if code == KeyCode::Char('w') && modifiers == none() {
            Action::ExpandWarning
        } else if code == KeyCode::Char('t') && modifiers == none() {
            Action::ToggleWorktrees
        } else if code == KeyCode::Char('s') && modifiers == none() {
            Action::OpenSetPicker
        } else if code == KeyCode::Tab && modifiers == none() {
            Action::OpenSetPicker
        } else if code == KeyCode::Char('o') && modifiers == none() {
            Action::OpenSortMenu
        } else if code == KeyCode::Char('1') && modifiers == none() {
            Action::SwitchToSet(1)
        } else if code == KeyCode::Char('2') && modifiers == none() {
            Action::SwitchToSet(2)
        } else if code == KeyCode::Char('3') && modifiers == none() {
            Action::SwitchToSet(3)
        } else if code == KeyCode::Char('4') && modifiers == none() {
            Action::SwitchToSet(4)
        } else if code == KeyCode::Char('5') && modifiers == none() {
            Action::SwitchToSet(5)
        } else if code == KeyCode::Char('6') && modifiers == none() {
            Action::SwitchToSet(6)
        } else if code == KeyCode::Char('7') && modifiers == none() {
            Action::SwitchToSet(7)
        } else if code == KeyCode::Char('8') && modifiers == none() {
            Action::SwitchToSet(8)
        } else if code == KeyCode::Char('9') && modifiers == none() {
            Action::SwitchToSet(9)
        } else if code == KeyCode::Char('r') && modifiers == ctrl() {
            Action::ReloadConfig
        } else if code == KeyCode::Char('e') && modifiers == none() {
            Action::EditConfig
        } else if code == KeyCode::BackTab && modifiers == none() {
            Action::MoveFocusBetweenListAndDetail
        } else {
            Action::Unwind
        },
        Context::List => if code == KeyCode::Char('j') && modifiers == none() {
            Action::MoveDown
        } else if code == KeyCode::Down && modifiers == none() {
            Action::MoveDown
        } else if code == KeyCode::Char('k') && modifiers == none() {
            Action::MoveUp
        } else if code == KeyCode::Up && modifiers == none() {
            Action::MoveUp
        } else if code == KeyCode::Char('g') && modifiers == none() {
            Action::FirstRow
        } else if code == KeyCode::Char('G') && modifiers == shift() {
            Action::LastRow
        } else if code == KeyCode::Char('d') && modifiers == ctrl() {
            Action::HalfPageDown
        } else if code == KeyCode::PageDown && modifiers == none() {
            Action::HalfPageDown
        } else if code == KeyCode::Char('u') && modifiers == ctrl() {
            Action::HalfPageUp
        } else if code == KeyCode::PageUp && modifiers == none() {
            Action::HalfPageUp
        } else if code == KeyCode::Char(' ') && modifiers == none() {
            Action::ToggleSelection
        } else if code == KeyCode::Char('v') && modifiers == none() {
            Action::AnchorRange
        } else if code == KeyCode::Char('a') && modifiers == none() {
            Action::SelectAllVisible
        } else if code == KeyCode::Char('A') && modifiers == shift() {
            Action::ClearSelection
        } else if code == KeyCode::Char('/') && modifiers == alt() {
            Action::ClearFilter
        } else if code == KeyCode::Enter && modifiers == none() {
            Action::OpenDetail
        } else if code == KeyCode::Char('d') && modifiers == none() {
            Action::DismissVanished
        } else if code == KeyCode::Char('n') && modifiers == none() {
            Action::NextFailed
        } else {
            Action::PreviousFailed
        },
        Context::Detail => if code == KeyCode::Char('j') && modifiers == none() {
            Action::ScrollDown
        } else if code == KeyCode::Down && modifiers == none() {
            Action::ScrollDown
        } else if code == KeyCode::Char('k') && modifiers == none() {
            Action::ScrollUp
        } else if code == KeyCode::Up && modifiers == none() {
            Action::ScrollUp
        } else if code == KeyCode::Char('g') && modifiers == none() {
            Action::Top
        } else if code == KeyCode::Char('G') && modifiers == shift() {
            Action::Bottom
        } else if code == KeyCode::Char('d') && modifiers == ctrl() {
            Action::HalfPageDown
        } else if code == KeyCode::Char('u') && modifiers == ctrl() {
            Action::HalfPageUp
        } else if code == KeyCode::Esc && modifiers == none() {
            Action::ClosePane
        } else {
            Action::ReturnFocusToList
        },
        Context::Input => if code == KeyCode::Enter && modifiers == none() {
            Action::Apply
        } else if code == KeyCode::Enter && modifiers == alt() {
            Action::InsertNewline
        } else if code == KeyCode::Char('s') && modifiers == alt() {
            Action::ToggleShell
        } else if code == KeyCode::Char('/') && modifiers == alt() {
            Action::ClearFilter
        } else if code == KeyCode::Esc && modifiers == none() {
            Action::Cancel
        } else if code == KeyCode::Up && modifiers == none() {
            Action::PreviousEntry
        } else if code == KeyCode::Char('k') && modifiers == ctrl() {
            Action::PreviousEntry
        } else if code == KeyCode::Down && modifiers == none() {
            Action::NextEntry
        } else if code == KeyCode::Char('j') && modifiers == ctrl() {
            Action::NextEntry
        } else if code == KeyCode::Tab && modifiers == none() {
            Action::AcceptCompletion
        } else if code == KeyCode::Backspace && modifiers == none() {
            Action::DeletePreviousChar
        } else if code == KeyCode::Char('w') && modifiers == ctrl() {
            Action::DeletePreviousWord
        } else if code == KeyCode::Char('u') && modifiers == ctrl() {
            Action::ClearLine
        } else if code == KeyCode::Char('o') && modifiers == ctrl() {
            Action::OpenInEditor
        } else if code == KeyCode::Left && modifiers == none() {
            Action::MoveCursorLeft
        } else if code == KeyCode::Right && modifiers == none() {
            Action::MoveCursorRight
        } else if code == KeyCode::Char('b') && modifiers == alt() {
            Action::MoveCursorWordLeft
        } else if code == KeyCode::Char('f') && modifiers == alt() {
            Action::MoveCursorWordRight
        } else if code == KeyCode::Char('a') && modifiers == ctrl() {
            Action::MoveCursorToLineStart
        } else if code == KeyCode::Home && modifiers == none() {
            Action::MoveCursorToLineStart
        } else if code == KeyCode::Char('e') && modifiers == ctrl() {
            Action::MoveCursorToLineEnd
        } else {
            Action::MoveCursorToLineEnd
        },
        Context::Overlay => if code == KeyCode::Char('j') && modifiers == none() {
            Action::ScrollDown
        } else if code == KeyCode::Down && modifiers == none() {
            Action::ScrollDown
        } else if code == KeyCode::Char('k') && modifiers == none() {
            Action::ScrollUp
        } else if code == KeyCode::Up && modifiers == none() {
            Action::ScrollUp
        } else if code == KeyCode::Char('g') && modifiers == none() {
            Action::Top
        } else if code == KeyCode::Char('G') && modifiers == shift() {
            Action::Bottom
        } else if code == KeyCode::Char('d') && modifiers == ctrl() {
            Action::HalfPageDown
        } else if code == KeyCode::Char('u') && modifiers == ctrl() {
            Action::HalfPageUp
        } else if code == KeyCode::Enter && modifiers == none() {
            Action::Choose
        } else if code == KeyCode::Esc && modifiers == none() {
            Action::Close
        } else if code == KeyCode::Char('q') && modifiers == none() {
            Action::Close
        } else {
            Action::Search
        },
        Context::Confirm => if code == KeyCode::Char('y') && modifiers == none() {
            Action::Run
        } else if code == KeyCode::Char('n') && modifiers == none() {
            Action::Decline
        } else {
            Action::Decline
        },
        Context::Sort => if code == KeyCode::Char('n') && modifiers == none() {
            Action::SortByName
        } else if code == KeyCode::Char('b') && modifiers == none() {
            Action::SortByBranch
        } else if code == KeyCode::Char('s') && modifiers == none() {
            Action::SortBySync
        } else if code == KeyCode::Char('a') && modifiers == none() {
            Action::SortByBase
        } else if code == KeyCode::Char('d') && modifiers == none() {
            Action::SortByDirty
        } else if code == KeyCode::Char('t') && modifiers == none() {
            Action::SortByState
        } else if code == KeyCode::Char('0') && modifiers == none() {
            Action::SortNatural
        } else if code == KeyCode::Esc && modifiers == none() {
            Action::CloseSortMenu
        } else {
            Action::CloseSortMenu
        },
    }
}

/// What holds of every default row.
spec fn is_sound(row: Binding) -> bool {
    &&& row.built
    &&& is_canonical(row.code, row.modifiers)
    &&& !is_unbindable_spec(row.code, row.modifiers)
    &&& !(row.modifiers.control && row.modifiers.shift)
    &&& row.action == default_action(row.context, row.code, row.modifiers)
}

proof fn lemma_global_rows(i: int)
    requires
        0 <= i < global_rows().len(),
    ensures
        is_sound(global_rows()[i]),
{
    let rows = global_rows();
    assert(is_sound(rows[0]));
    assert(is_sound(rows[1]));
    assert(is_sound(rows[2]));
    assert(is_sound(rows[3]));
    assert(is_sound(rows[4]));
    assert(is_sound(rows[5]));
    assert(is_sound(rows[6]));
    assert(is_sound(rows[7]));
    assert(is_sound(rows[8]));
    assert(is_sound(rows[9]));
    assert(is_sound(rows[10]));
    assert(is_sound(rows[11]));
    assert(is_sound(rows[12]));
    assert(is_sound(rows[13]));
    assert(is_sound(rows[14]));
    assert(is_sound(rows[15]));
    assert(is_sound(rows[16]));
    assert(is_sound(rows[17]));
    assert(is_sound(rows[18]));
    assert(is_sound(rows[19]));
    assert(is_sound(rows[20]));
    assert(is_sound(rows[21]));
    assert(is_sound(rows[22]));
    assert(is_sound(rows[23]));
    assert(is_sound(rows[24]));
    assert(is_sound(rows[25]));
    assert(is_sound(rows[26]));
    assert(is_sound(rows[27]));
}

proof fn lemma_list_rows(i: int)
    requires
        0 <= i < list_rows().len(),
    ensures
        is_sound(list_rows()[i]),
{
    let rows = list_rows();
    assert(is_sound(rows[0]));
    assert(is_sound(rows[1]));
    assert(is_sound(rows[2]));
    assert(is_sound(rows[3]));
    assert(is_sound(rows[4]));
    assert(is_sound(rows[5]));
    assert(is_sound(rows[6]));
    assert(is_sound(rows[7]));
    assert(is_sound(rows[8]));
    assert(is_sound(rows[9]));
    assert(is_sound(rows[10]));
    assert(is_sound(rows[11]));
    assert(is_sound(rows[12]));
    assert(is_sound(rows[13]));
    assert(is_sound(rows[14]));
    assert(is_sound(rows[15]));
    assert(is_sound(rows[16]));
    assert(is_sound(rows[17]));
    assert(is_sound(rows[18]));
}

proof fn lemma_detail_rows(i: int)
    requires
        0 <= i < detail_rows().len(),
    ensures
        is_sound(detail_rows()[i]),
{
    let rows = detail_rows();
    assert(is_sound(rows[0]));
    assert(is_sound(rows[1]));
    assert(is_sound(rows[2]));
    assert(is_sound(rows[3]));
    assert(is_sound(rows[4]));
    assert(is_sound(rows[5]));
    assert(is_sound(rows[6]));
    assert(is_sound(rows[7]));
    assert(is_sound(rows[8]));
    assert(is_sound(rows[9]));
}

proof fn lemma_input_rows(i: int)
    requires
        0 <= i < input_rows().len(),
    ensures
        is_sound(input_rows()[i]),
{
    let rows = input_rows();
    assert(is_sound(rows[0]));
    assert(is_sound(rows[1]));
    assert(is_sound(rows[2]));
    assert(is_sound(rows[3]));
    assert(is_sound(rows[4]));
    assert(is_sound(rows[5]));
    assert(is_sound(rows[6]));
    assert(is_sound(rows[7]));
    assert(is_sound(rows[8]));
    assert(is_sound(rows[9]));
    assert(is_sound(rows[10]));
    assert(is_sound(rows[11]));
    assert(is_sound(rows[12]));
    assert(is_sound(rows[13]));
    assert(is_sound(rows[14]));
    assert(is_sound(rows[15]));
    assert(is_sound(rows[16]));
    assert(is_sound(rows[17]));
    assert(is_sound(rows[18]));
    assert(is_sound(rows[19]));
    assert(is_sound(rows[20]));
    assert(is_sound(rows[21]));
}

proof fn lemma_overlay_rows(i: int)
    requires
        0 <= i < overlay_rows().len(),
    ensures
        is_sound(overlay_rows()[i]),
{
    let rows = overlay_rows();
    assert(is_sound(rows[0]));
    assert(is_sound(rows[1]));
    assert(is_sound(rows[2]));
    assert(is_sound(rows[3]));
    assert(is_sound(rows[4]));
    assert(is_sound(rows[5]));
    assert(is_sound(rows[6]));
    assert(is_sound(rows[7]));
    assert(is_sound(rows[8]));
    assert(is_sound(rows[9]));
    assert(is_sound(rows[10]));
    assert(is_sound(rows[11]));
}

proof fn lemma_confirm_rows(i: int)
    requires
        0 <= i < confirm_rows().len(),
    ensures
        is_sound(confirm_rows()[i]),
{
    let rows = confirm_rows();
    assert(is_sound(rows[0]));
    assert(is_sound(rows[1]));
    assert(is_sound(rows[2]));
}

proof fn lemma_sort_rows(i: int)
    requires
        0 <= i < sort_rows().len(),
    ensures
        is_sound(sort_rows()[i]),
{
    let rows = sort_rows();
    assert(is_sound(rows[0]));
    assert(is_sound(rows[1]));
    assert(is_sound(rows[2]));
    assert(is_sound(rows[3]));
    assert(is_sound(rows[4]));
    assert(is_sound(rows[5]));
    assert(is_sound(rows[6]));
    assert(is_sound(rows[7]));
    assert(is_sound(rows[8]));
}

proof fn lemma_default_row(i: int)
    requires
        0 <= i < default_rows().len(),
    ensures
        is_sound(default_rows()[i]),
{
    if i < global_rows().len() {
        lemma_global_rows(i);
    } else {
        if i - global_rows().len() < list_rows().len() {
            lemma_list_rows(i - global_rows().len());
        } else {
            if i - global_rows().len() - list_rows().len() < detail_rows().len() {
                lemma_detail_rows(i - global_rows().len() - list_rows().len());
            } else {
                if i - global_rows().len() - list_rows().len() - detail_rows().len() < input_rows().len() {
                    lemma_input_rows(i - global_rows().len() - list_rows().len() - detail_rows().len());
                } else {
                    if i - global_rows().len() - list_rows().len() - detail_rows().len() - input_rows().len() < overlay_rows().len() {
                        lemma_overlay_rows(i - global_rows().len() - list_rows().len() - detail_rows().len() - input_rows().len());
                    } else {
                        if i - global_rows().len() - list_rows().len() - detail_rows().len() - input_rows().len() - overlay_rows().len() < confirm_rows().len() {
                            lemma_confirm_rows(i - global_rows().len() - list_rows().len() - detail_rows().len() - input_rows().len() - overlay_rows().len());
                        } else {
                            lemma_sort_rows(i - global_rows().len() - list_rows().len() - detail_rows().len() - input_rows().len() - overlay_rows().len() - confirm_rows().len());
                        }
                    }
                }
            }
        }
    }
}

/// The default map is sound: every row is built, every chord is one a user can type back, none
/// is permanently unbindable, and none combines Ctrl with Shift, a form most terminals cannot
/// tell from Ctrl alone.
pub proof fn law_every_default_row_is_sound(i: int)
    requires
        0 <= i < default_rows().len(),
    ensures
        ({
            let row = default_rows()[i];
            &&& row.built
            &&& is_canonical(row.code, row.modifiers)
            &&& parse_chord_spec(chord_text(row.code, row.modifiers)) == Some(
                (row.code, row.modifiers),
            )
            &&& !is_unbindable_spec(row.code, row.modifiers)
            &&& !(row.modifiers.control && row.modifiers.shift)
        }),
{
    lemma_default_row(i);
    let row = default_rows()[i];
    law_a_chord_label_is_read_back(row.code, row.modifiers);
}

/// The default map carries no collision: no key means two things in one context.
pub proof fn law_the_default_map_has_no_collision()
    ensures
        collisions(default_rows()).len() == 0,
{
    let rows = default_rows();
    law_no_collision_means_one_action_per_key(rows);
    assert forall|i: int, j: int|
        #![trigger rows[i], rows[j]]
        0 <= i < rows.len() && 0 <= j < rows.len() && place_of(rows[i]) == place_of(
            rows[j],
        ) implies rows[i].action == rows[j].action by {
        lemma_default_row(i);
        lemma_default_row(j);
    }
}


/// What the default map fires for a chord in a context.
pub open spec fn by_default(
    context: Context,
    code: KeyCode,
    modifiers: KeyModifiers,
) -> Option<Action> {
    lookup_spec(default_rows(), context, KeyEvent { code, modifiers })
}

proof fn lemma_by_default(i: int)
    requires
        0 <= i < default_rows().len(),
    ensures
        ({
            let row = default_rows()[i];
            by_default(row.context, row.code, row.modifiers) == Some(row.action)
        }),
{
    law_the_default_map_has_no_collision();
    lemma_default_row(i);
    law_without_collisions_every_key_fires_its_own_action(default_rows(), i);
}

/// In the default map the digit keys switch to the Set of their own number.
pub proof fn law_a_digit_switches_to_the_set_of_its_number(n: u8)
    requires
        1 <= n <= 9,
    ensures
        by_default(
            Context::Global,
            KeyCode::Char((('0' as u32 + n) as u32) as char),
            none(),
        ) == Some(Action::SwitchToSet(n)),
{
    lemma_by_default(14 + n);
}

/// What the default map fires globally.
pub proof fn law_the_default_keys_of_global()
    ensures
        global_rows().len() == 28,
        by_default(Context::Global, KeyCode::Char('?'), none()) == Some(Action::OpenHelp),
        by_default(Context::Global, KeyCode::Char('q'), none()) == Some(Action::Quit),
        by_default(Context::Global, KeyCode::Char('!'), none()) == Some(Action::OpenLauncher),
        by_default(Context::Global, KeyCode::Char(';'), none()) == Some(Action::OpenActionPalette),
        by_default(Context::Global, KeyCode::Char('m'), none()) == Some(Action::OpenManagementPalette),
        by_default(Context::Global, KeyCode::Char('/'), none()) == Some(Action::EnterFilter),
        by_default(Context::Global, KeyCode::Char('r'), none()) == Some(Action::RefreshAll),
        by_default(Context::Global, KeyCode::F(5), none()) == Some(Action::RefreshAll),
        by_default(Context::Global, KeyCode::Char('R'), shift()) == Some(Action::RefreshSelection),
        by_default(Context::Global, KeyCode::Char('b'), none()) == Some(Action::RederiveDefaultBranches),
        by_default(Context::Global, KeyCode::Char('w'), none()) == Some(Action::ExpandWarning),
        by_default(Context::Global, KeyCode::Char('t'), none()) == Some(Action::ToggleWorktrees),
        by_default(Context::Global, KeyCode::Char('s'), none()) == Some(Action::OpenSetPicker),
        by_default(Context::Global, KeyCode::Tab, none()) == Some(Action::OpenSetPicker),
        by_default(Context::Global, KeyCode::Char('o'), none()) == Some(Action::OpenSortMenu),
        by_default(Context::Global, KeyCode::Char('1'), none()) == Some(Action::SwitchToSet(1)),
        by_default(Context::Global, KeyCode::Char('2'), none()) == Some(Action::SwitchToSet(2)),
        by_default(Context::Global, KeyCode::Char('3'), none()) == Some(Action::SwitchToSet(3)),
        by_default(Context::Global, KeyCode::Char('4'), none()) == Some(Action::SwitchToSet(4)),
        by_default(Context::Global, KeyCode::Char('5'), none()) == Some(Action::SwitchToSet(5)),
        by_default(Context::Global, KeyCode::Char('6'), none()) == Some(Action::SwitchToSet(6)),
        by_default(Context::Global, KeyCode::Char('7'), none()) == Some(Action::SwitchToSet(7)),
        by_default(Context::Global, KeyCode::Char('8'), none()) == Some(Action::SwitchToSet(8)),
        by_default(Context::Global, KeyCode::Char('9'), none()) == Some(Action::SwitchToSet(9)),
        by_default(Context::Global, KeyCode::Char('r'), ctrl()) == Some(Action::ReloadConfig),
        by_default(Context::Global, KeyCode::Char('e'), none()) == Some(Action::EditConfig),
        by_default(Context::Global, KeyCode::BackTab, none()) == Some(Action::MoveFocusBetweenListAndDetail),
        by_default(Context::Global, KeyCode::Esc, none()) == Some(Action::Unwind),
{
    lemma_by_default(0);
    lemma_by_default(1);
    lemma_by_default(2);
    lemma_by_default(3);
    lemma_by_default(4);
    lemma_by_default(5);
    lemma_by_default(6);
    lemma_by_default(7);
    lemma_by_default(8);
    lemma_by_default(9);
    lemma_by_default(10);
    lemma_by_default(11);
    lemma_by_default(12);
    lemma_by_default(13);
    lemma_by_default(14);
    lemma_by_default(15);
    lemma_by_default(16);
    lemma_by_default(17);
    lemma_by_default(18);
    lemma_by_default(19);
    lemma_by_default(20);
    lemma_by_default(21);
    lemma_by_default(22);
    lemma_by_default(23);
    lemma_by_default(24);
    lemma_by_default(25);
    lemma_by_default(26);
    lemma_by_default(27);
}

/// What the default map fires in the list.
pub proof fn law_the_default_keys_of_list()
    ensures
        list_rows().len() == 19,
        by_default(Context::List, KeyCode::Char('j'), none()) == Some(Action::MoveDown),
        by_default(Context::List, KeyCode::Down, none()) == Some(Action::MoveDown),
        by_default(Context::List, KeyCode::Char('k'), none()) == Some(Action::MoveUp),
        by_default(Context::List, KeyCode::Up, none()) == Some(Action::MoveUp),
        by_default(Context::List, KeyCode::Char('g'), none()) == Some(Action::FirstRow),
        by_default(Context::List, KeyCode::Char('G'), shift()) == Some(Action::LastRow),
        by_default(Context::List, KeyCode::Char('d'), ctrl()) == Some(Action::HalfPageDown),
        by_default(Context::List, KeyCode::PageDown, none()) == Some(Action::HalfPageDown),
        by_default(Context::List, KeyCode::Char('u'), ctrl()) == Some(Action::HalfPageUp),
        by_default(Context::List, KeyCode::PageUp, none()) == Some(Action::HalfPageUp),
        by_default(Context::List, KeyCode::Char(' '), none()) == Some(Action::ToggleSelection),
        by_default(Context::List, KeyCode::Char('v'), none()) == Some(Action::AnchorRange),
        by_default(Context::List, KeyCode::Char('a'), none()) == Some(Action::SelectAllVisible),
        by_default(Context::List, KeyCode::Char('A'), shift()) == Some(Action::ClearSelection),
        by_default(Context::List, KeyCode::Char('/'), alt()) == Some(Action::ClearFilter),
        by_default(Context::List, KeyCode::Enter, none()) == Some(Action::OpenDetail),
        by_default(Context::List, KeyCode::Char('d'), none()) == Some(Action::DismissVanished),
        by_default(Context::List, KeyCode::Char('n'), none()) == Some(Action::NextFailed),
        by_default(Context::List, KeyCode::Char('N'), shift()) == Some(Action::PreviousFailed),
{
    lemma_by_default(28);
    lemma_by_default(29);
    lemma_by_default(30);
    lemma_by_default(31);
    lemma_by_default(32);
    lemma_by_default(33);
    lemma_by_default(34);
    lemma_by_default(35);
    lemma_by_default(36);
    lemma_by_default(37);
    lemma_by_default(38);
    lemma_by_default(39);
    lemma_by_default(40);
    lemma_by_default(41);
    lemma_by_default(42);
    lemma_by_default(43);
    lemma_by_default(44);
    lemma_by_default(45);
    lemma_by_default(46);
}

/// What the default map fires in the detail pane.
pub proof fn law_the_default_keys_of_detail()
    ensures
        detail_rows().len() == 10,
        by_default(Context::Detail, KeyCode::Char('j'), none()) == Some(Action::ScrollDown),
        by_default(Context::Detail, KeyCode::Down, none()) == Some(Action::ScrollDown),
        by_default(Context::Detail, KeyCode::Char('k'), none()) == Some(Action::ScrollUp),
        by_default(Context::Detail, KeyCode::Up, none()) == Some(Action::ScrollUp),
        by_default(Context::Detail, KeyCode::Char('g'), none()) == Some(Action::Top),
        by_default(Context::Detail, KeyCode::Char('G'), shift()) == Some(Action::Bottom),
        by_default(Context::Detail, KeyCode::Char('d'), ctrl()) == Some(Action::HalfPageDown),
        by_default(Context::Detail, KeyCode::Char('u'), ctrl()) == Some(Action::HalfPageUp),
        by_default(Context::Detail, KeyCode::Esc, none()) == Some(Action::ClosePane),
        by_default(Context::Detail, KeyCode::Tab, none()) == Some(Action::ReturnFocusToList),
{
    lemma_by_default(47);
    lemma_by_default(48);
    lemma_by_default(49);
    lemma_by_default(50);
    lemma_by_default(51);
    lemma_by_default(52);
    lemma_by_default(53);
    lemma_by_default(54);
    lemma_by_default(55);
    lemma_by_default(56);
}

/// What the default map fires in an input.
pub proof fn law_the_default_keys_of_input()
    ensures
        input_rows().len() == 22,
        by_default(Context::Input, KeyCode::Enter, none()) == Some(Action::Apply),
        by_default(Context::Input, KeyCode::Enter, alt()) == Some(Action::InsertNewline),
        by_default(Context::Input, KeyCode::Char('s'), alt()) == Some(Action::ToggleShell),
        by_default(Context::Input, KeyCode::Char('/'), alt()) == Some(Action::ClearFilter),
        by_default(Context::Input, KeyCode::Esc, none()) == Some(Action::Cancel),
        by_default(Context::Input, KeyCode::Up, none()) == Some(Action::PreviousEntry),
        by_default(Context::Input, KeyCode::Char('k'), ctrl()) == Some(Action::PreviousEntry),
        by_default(Context::Input, KeyCode::Down, none()) == Some(Action::NextEntry),
        by_default(Context::Input, KeyCode::Char('j'), ctrl()) == Some(Action::NextEntry),
        by_default(Context::Input, KeyCode::Tab, none()) == Some(Action::AcceptCompletion),
        by_default(Context::Input, KeyCode::Backspace, none()) == Some(Action::DeletePreviousChar),
        by_default(Context::Input, KeyCode::Char('w'), ctrl()) == Some(Action::DeletePreviousWord),
        by_default(Context::Input, KeyCode::Char('u'), ctrl()) == Some(Action::ClearLine),
        by_default(Context::Input, KeyCode::Char('o'), ctrl()) == Some(Action::OpenInEditor),
        by_default(Context::Input, KeyCode::Left, none()) == Some(Action::MoveCursorLeft),
        by_default(Context::Input, KeyCode::Right, none()) == Some(Action::MoveCursorRight),
        by_default(Context::Input, KeyCode::Char('b'), alt()) == Some(Action::MoveCursorWordLeft),
        by_default(Context::Input, KeyCode::Char('f'), alt()) == Some(Action::MoveCursorWordRight),
        by_default(Context::Input, KeyCode::Char('a'), ctrl()) == Some(Action::MoveCursorToLineStart),
        by_default(Context::Input, KeyCode::Home, none()) == Some(Action::MoveCursorToLineStart),
        by_default(Context::Input, KeyCode::Char('e'), ctrl()) == Some(Action::MoveCursorToLineEnd),
        by_default(Context::Input, KeyCode::End, none()) == Some(Action::MoveCursorToLineEnd),
{
    lemma_by_default(57);
    lemma_by_default(58);
    lemma_by_default(59);
    lemma_by_default(60);
    lemma_by_default(61);
    lemma_by_default(62);
    lemma_by_default(63);
    lemma_by_default(64);
    lemma_by_default(65);
    lemma_by_default(66);
    lemma_by_default(67);
    lemma_by_default(68);
    lemma_by_default(69);
    lemma_by_default(70);
    lemma_by_default(71);
    lemma_by_default(72);
    lemma_by_default(73);
    lemma_by_default(74);
    lemma_by_default(75);
    lemma_by_default(76);
    lemma_by_default(77);
    lemma_by_default(78);
}

/// What the default map fires in an overlay.
pub proof fn law_the_default_keys_of_overlay()
    ensures
        overlay_rows().len() == 12,
        by_default(Context::Overlay, KeyCode::Char('j'), none()) == Some(Action::ScrollDown),
        by_default(Context::Overlay, KeyCode::Down, none()) == Some(Action::ScrollDown),
        by_default(Context::Overlay, KeyCode::Char('k'), none()) == Some(Action::ScrollUp),
        by_default(Context::Overlay, KeyCode::Up, none()) == Some(Action::ScrollUp),
        by_default(Context::Overlay, KeyCode::Char('g'), none()) == Some(Action::Top),
        by_default(Context::Overlay, KeyCode::Char('G'), shift()) == Some(Action::Bottom),
        by_default(Context::Overlay, KeyCode::Char('d'), ctrl()) == Some(Action::HalfPageDown),
        by_default(Context::Overlay, KeyCode::Char('u'), ctrl()) == Some(Action::HalfPageUp),
        by_default(Context::Overlay, KeyCode::Enter, none()) == Some(Action::Choose),
        by_default(Context::Overlay, KeyCode::Esc, none()) == Some(Action::Close),
        by_default(Context::Overlay, KeyCode::Char('q'), none()) == Some(Action::Close),
        by_default(Context::Overlay, KeyCode::Char('/'), none()) == Some(Action::Search),
{
    lemma_by_default(79);
    lemma_by_default(80);
    lemma_by_default(81);
    lemma_by_default(82);
    lemma_by_default(83);
    lemma_by_default(84);
    lemma_by_default(85);
    lemma_by_default(86);
    lemma_by_default(87);
    lemma_by_default(88);
    lemma_by_default(89);
    lemma_by_default(90);
}

/// What the default map fires in a confirmation.
pub proof fn law_the_default_keys_of_confirm()
    ensures
        confirm_rows().len() == 3,
        by_default(Context::Confirm, KeyCode::Char('y'), none()) == Some(Action::Run),
        by_default(Context::Confirm, KeyCode::Char('n'), none()) == Some(Action::Decline),
        by_default(Context::Confirm, KeyCode::Esc, none()) == Some(Action::Decline),
{
    lemma_by_default(91);
    lemma_by_default(92);
    lemma_by_default(93);
}

/// What the default map fires in the sort menu.
pub proof fn law_the_default_keys_of_sort()
    ensures
        sort_rows().len() == 9,
        by_default(Context::Sort, KeyCode::Char('n'), none()) == Some(Action::SortByName),
        by_default(Context::Sort, KeyCode::Char('b'), none()) == Some(Action::SortByBranch),
        by_default(Context::Sort, KeyCode::Char('s'), none()) == Some(Action::SortBySync),
        by_default(Context::Sort, KeyCode::Char('a'), none()) == Some(Action::SortByBase),
        by_default(Context::Sort, KeyCode::Char('d'), none()) == Some(Action::SortByDirty),
        by_default(Context::Sort, KeyCode::Char('t'), none()) == Some(Action::SortByState),
        by_default(Context::Sort, KeyCode::Char('0'), none()) == Some(Action::SortNatural),
        by_default(Context::Sort, KeyCode::Esc, none()) == Some(Action::CloseSortMenu),
        by_default(Context::Sort, KeyCode::Char('o'), none()) == Some(Action::CloseSortMenu),
{
    lemma_by_default(94);
    lemma_by_default(95);
    lemma_by_default(96);
    lemma_by_default(97);
    lemma_by_default(98);
    lemma_by_default(99);
    lemma_by_default(100);
    lemma_by_default(101);
    lemma_by_default(102);
}

} // verus!
