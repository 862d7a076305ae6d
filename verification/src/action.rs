//! What a key press means: the contexts keys are looked up in, the actions they fire, and the
//! names and words both go by.

use vstd::prelude::*;

use crate::text::same;

verus! {

broadcast use {vstd::string::group_string_axioms, vstd::seq_lib::group_seq_properties};

/// The seven named contexts. `Global` is live only while `List` or `Detail` has focus.
#[derive(Clone, Copy, Debug, PartialEq, Eq, Structural)]
pub enum Context {
    Global,
    List,
    Detail,
    Input,
    Overlay,
    Confirm,
    /// The sort menu, open over the table and waiting on one column key.
    Sort,
}

/// What a key press means, independent of how it is bound. One variant per distinct behaviour;
/// several contexts share a variant.
#[derive(Clone, Copy, Debug, PartialEq, Eq, Structural)]
pub enum Action {
    OpenHelp,
    Quit,
    OpenLauncher,
    OpenActionPalette,
    OpenManagementPalette,
    EnterFilter,
    RefreshAll,
    RefreshSelection,
    RederiveDefaultBranches,
    ExpandWarning,
    /// Flips the session's own show-Worktrees state.
    ToggleWorktrees,
    OpenSetPicker,
    OpenSortMenu,
    /// `1` to `9`: which Set to switch to.
    SwitchToSet(u8),
    ReloadConfig,
    EditConfig,
    MoveFocusBetweenListAndDetail,
    Unwind,
    MoveDown,
    MoveUp,
    FirstRow,
    LastRow,
    HalfPageDown,
    HalfPageUp,
    ToggleSelection,
    AnchorRange,
    SelectAllVisible,
    ClearSelection,
    /// Clears a committed Filter directly, leaving everything else as it is.
    ClearFilter,
    OpenDetail,
    DismissVanished,
    NextFailed,
    PreviousFailed,
    ScrollDown,
    ScrollUp,
    Top,
    Bottom,
    ClosePane,
    ReturnFocusToList,
    /// Any printable character not bound otherwise is text for the focused field.
    Text(char),
    Apply,
    Cancel,
    PreviousEntry,
    NextEntry,
    AcceptCompletion,
    /// Deletes the character immediately before the cursor.
    DeletePreviousChar,
    DeletePreviousWord,
    ClearLine,
    OpenInEditor,
    /// A literal newline in the one field that holds more than one line.
    InsertNewline,
    /// Toggles the ad hoc command field's own shell mode for the run about to happen.
    ToggleShell,
    MoveCursorLeft,
    MoveCursorRight,
    MoveCursorWordLeft,
    MoveCursorWordRight,
    MoveCursorToLineStart,
    MoveCursorToLineEnd,
    Choose,
    Close,
    /// Enters the help overlay's own search mode.
    Search,
    Run,
    Decline,
    SortByName,
    SortByBranch,
    SortBySync,
    SortByBase,
    SortByDirty,
    SortByState,
    SortNatural,
    CloseSortMenu,
}

/// The words for an action, as every surface that names one shows them.
pub open spec fn description_text(action: Action) -> Seq<char> {
    match action {
        Action::OpenHelp => "Open the help overlay"@,
        Action::Quit => "Quit"@,
        Action::OpenLauncher => "Open the Launcher palette"@,
        Action::OpenActionPalette => "Open the Action palette"@,
        Action::OpenManagementPalette => "Open the Action palette filtered to management operations"@,
        Action::EnterFilter => "Enter a Filter"@,
        Action::RefreshAll => "Refresh everything"@,
        Action::RefreshSelection => "Refresh the Selection"@,
        Action::RederiveDefaultBranches => "Re-derive default branches over the Selection"@,
        Action::ExpandWarning => "Expand the warning slot"@,
        Action::ToggleWorktrees => "Toggle Worktree rows"@,
        Action::OpenSetPicker => "Open the Set picker"@,
        Action::OpenSortMenu => "Open the sort menu"@,
        Action::SwitchToSet(_) => "Switch to the Nth declared Set"@,
        Action::ReloadConfig => "Reload config"@,
        Action::EditConfig => "Edit config.toml in `$EDITOR`"@,
        Action::MoveFocusBetweenListAndDetail => "Move focus between list and detail"@,
        Action::Unwind => "Unwind one level"@,
        Action::MoveDown => "Move down"@,
        Action::MoveUp => "Move up"@,
        Action::FirstRow => "First row"@,
        Action::LastRow => "Last row"@,
        Action::HalfPageDown => "Half page down"@,
        Action::HalfPageUp => "Half page up"@,
        Action::ToggleSelection => "Toggle this row's Selection"@,
        Action::AnchorRange => "Anchor a range at the cursor, extended with `j` and `k`"@,
        Action::SelectAllVisible => "Select every listed row, not just this screenful"@,
        Action::ClearSelection => "Clear the Selection"@,
        Action::ClearFilter => "Clear the committed Filter"@,
        Action::OpenDetail => "Open the detail pane"@,
        Action::DismissVanished => "Dismiss a Vanished row"@,
        Action::NextFailed => "Next failed row"@,
        Action::PreviousFailed => "Previous failed row"@,
        Action::ScrollDown => "Scroll down"@,
        Action::ScrollUp => "Scroll up"@,
        Action::Top => "Top"@,
        Action::Bottom => "Bottom"@,
        Action::ClosePane => "Close the pane and return focus to the list"@,
        Action::ReturnFocusToList => "Return focus to the list and leave the pane open"@,
        Action::Text(_) => "Text"@,
        Action::Apply => "Apply the Filter, or run the highlighted entry. In the Filter line it **always** commits and never accepts a completion ([filter.md](filter.md))"@,
        Action::Cancel => "Cancel"@,
        Action::PreviousEntry => "Previous entry"@,
        Action::NextEntry => "Next entry"@,
        Action::AcceptCompletion => "Accept the highlighted completion (the Filter line only)"@,
        Action::DeletePreviousChar => "Delete the previous character"@,
        Action::DeletePreviousWord => "Delete the previous word"@,
        Action::ClearLine => "Clear the line"@,
        Action::OpenInEditor => "Open the field in `$EDITOR`"@,
        Action::InsertNewline => "Insert a newline (the ad hoc command field only)"@,
        Action::ToggleShell => "Toggle shell mode (the ad hoc command field only)"@,
        Action::MoveCursorLeft => "Move the cursor left"@,
        Action::MoveCursorRight => "Move the cursor right"@,
        Action::MoveCursorWordLeft => "Move the cursor back one word"@,
        Action::MoveCursorWordRight => "Move the cursor forward one word"@,
        Action::MoveCursorToLineStart => "Move the cursor to the start of the line"@,
        Action::MoveCursorToLineEnd => "Move the cursor to the end of the line"@,
        Action::Choose => "Choose (Set picker only)"@,
        Action::Close => "Close"@,
        Action::Search => "Search"@,
        Action::Run => "Run"@,
        Action::Decline => "Decline"@,
        Action::SortByName => "Sort by name"@,
        Action::SortByBranch => "Sort by branch"@,
        Action::SortBySync => "Sort by sync"@,
        Action::SortByBase => "Sort by base"@,
        Action::SortByDirty => "Sort by dirty"@,
        Action::SortByState => "Sort by state"@,
        Action::SortNatural => "Restore the natural grouped order"@,
        Action::CloseSortMenu => "Close the sort menu without reordering"@,
    }
}

/// The words for an action. Deriving them from the [`Action`] rather than storing them per
/// binding keeps a mislabelled binding from carrying a stale text.
pub fn description(action: Action) -> (words: &'static str)
    ensures
        words@ == description_text(action),
{
    match action {
        Action::OpenHelp => "Open the help overlay",
        Action::Quit => "Quit",
        Action::OpenLauncher => "Open the Launcher palette",
        Action::OpenActionPalette => "Open the Action palette",
        Action::OpenManagementPalette => "Open the Action palette filtered to management operations",
        Action::EnterFilter => "Enter a Filter",
        Action::RefreshAll => "Refresh everything",
        Action::RefreshSelection => "Refresh the Selection",
        Action::RederiveDefaultBranches => "Re-derive default branches over the Selection",
        Action::ExpandWarning => "Expand the warning slot",
        Action::ToggleWorktrees => "Toggle Worktree rows",
        Action::OpenSetPicker => "Open the Set picker",
        Action::OpenSortMenu => "Open the sort menu",
        Action::SwitchToSet(_) => "Switch to the Nth declared Set",
        Action::ReloadConfig => "Reload config",
        Action::EditConfig => "Edit config.toml in `$EDITOR`",
        Action::MoveFocusBetweenListAndDetail => "Move focus between list and detail",
        Action::Unwind => "Unwind one level",
        Action::MoveDown => "Move down",
        Action::MoveUp => "Move up",
        Action::FirstRow => "First row",
        Action::LastRow => "Last row",
        Action::HalfPageDown => "Half page down",
        Action::HalfPageUp => "Half page up",
        Action::ToggleSelection => "Toggle this row's Selection",
        Action::AnchorRange => "Anchor a range at the cursor, extended with `j` and `k`",
        Action::SelectAllVisible => "Select every listed row, not just this screenful",
        Action::ClearSelection => "Clear the Selection",
        Action::ClearFilter => "Clear the committed Filter",
        Action::OpenDetail => "Open the detail pane",
        Action::DismissVanished => "Dismiss a Vanished row",
        Action::NextFailed => "Next failed row",
        Action::PreviousFailed => "Previous failed row",
        Action::ScrollDown => "Scroll down",
        Action::ScrollUp => "Scroll up",
        Action::Top => "Top",
        Action::Bottom => "Bottom",
        Action::ClosePane => "Close the pane and return focus to the list",
        Action::ReturnFocusToList => "Return focus to the list and leave the pane open",
        Action::Text(_) => "Text",
        Action::Apply => "Apply the Filter, or run the highlighted entry. In the Filter line it **always** commits and never accepts a completion ([filter.md](filter.md))",
        Action::Cancel => "Cancel",
        Action::PreviousEntry => "Previous entry",
        Action::NextEntry => "Next entry",
        Action::AcceptCompletion => "Accept the highlighted completion (the Filter line only)",
        Action::DeletePreviousChar => "Delete the previous character",
        Action::DeletePreviousWord => "Delete the previous word",
        Action::ClearLine => "Clear the line",
        Action::OpenInEditor => "Open the field in `$EDITOR`",
        Action::InsertNewline => "Insert a newline (the ad hoc command field only)",
        Action::ToggleShell => "Toggle shell mode (the ad hoc command field only)",
        Action::MoveCursorLeft => "Move the cursor left",
        Action::MoveCursorRight => "Move the cursor right",
        Action::MoveCursorWordLeft => "Move the cursor back one word",
        Action::MoveCursorWordRight => "Move the cursor forward one word",
        Action::MoveCursorToLineStart => "Move the cursor to the start of the line",
        Action::MoveCursorToLineEnd => "Move the cursor to the end of the line",
        Action::Choose => "Choose (Set picker only)",
        Action::Close => "Close",
        Action::Search => "Search",
        Action::Run => "Run",
        Action::Decline => "Decline",
        Action::SortByName => "Sort by name",
        Action::SortByBranch => "Sort by branch",
        Action::SortBySync => "Sort by sync",
        Action::SortByBase => "Sort by base",
        Action::SortByDirty => "Sort by dirty",
        Action::SortByState => "Sort by state",
        Action::SortNatural => "Restore the natural grouped order",
        Action::CloseSortMenu => "Close the sort menu without reordering",
    }
}

/// An action's stable name in a `[keys]` block. `Text` and `SwitchToSet` have none: `Text` never
/// occupies a row to rebind, and the nine `SwitchToSet` rows are positional.
pub open spec fn action_name_text(action: Action) -> Option<Seq<char>> {
    match action {
        Action::OpenHelp => Some("open_help"@),
        Action::Quit => Some("quit"@),
        Action::OpenLauncher => Some("open_launcher"@),
        Action::OpenActionPalette => Some("open_action_palette"@),
        Action::OpenManagementPalette => Some("open_management_palette"@),
        Action::EnterFilter => Some("enter_filter"@),
        Action::RefreshAll => Some("refresh_all"@),
        Action::RefreshSelection => Some("refresh_selection"@),
        Action::RederiveDefaultBranches => Some("rederive_default_branches"@),
        Action::ExpandWarning => Some("expand_warning"@),
        Action::ToggleWorktrees => Some("toggle_worktrees"@),
        Action::OpenSetPicker => Some("open_set_picker"@),
        Action::OpenSortMenu => Some("open_sort_menu"@),
        Action::SwitchToSet(_) => None,
        Action::ReloadConfig => Some("reload_config"@),
        Action::EditConfig => Some("edit_config"@),
        Action::MoveFocusBetweenListAndDetail => Some("move_focus_between_list_and_detail"@),
        Action::Unwind => Some("unwind"@),
        Action::MoveDown => Some("move_down"@),
        Action::MoveUp => Some("move_up"@),
        Action::FirstRow => Some("first_row"@),
        Action::LastRow => Some("last_row"@),
        Action::HalfPageDown => Some("half_page_down"@),
        Action::HalfPageUp => Some("half_page_up"@),
        Action::ToggleSelection => Some("toggle_selection"@),
        Action::AnchorRange => Some("anchor_range"@),
        Action::SelectAllVisible => Some("select_all_visible"@),
        Action::ClearSelection => Some("clear_selection"@),
        Action::ClearFilter => Some("clear_filter"@),
        Action::OpenDetail => Some("open_detail"@),
        Action::DismissVanished => Some("dismiss_vanished"@),
        Action::NextFailed => Some("next_failed"@),
        Action::PreviousFailed => Some("previous_failed"@),
        Action::ScrollDown => Some("scroll_down"@),
        Action::ScrollUp => Some("scroll_up"@),
        Action::Top => Some("top"@),
        Action::Bottom => Some("bottom"@),
        Action::ClosePane => Some("close_pane"@),
        Action::ReturnFocusToList => Some("return_focus_to_list"@),
        Action::Text(_) => None,
        Action::Apply => Some("apply"@),
        Action::Cancel => Some("cancel"@),
        Action::PreviousEntry => Some("previous_entry"@),
        Action::NextEntry => Some("next_entry"@),
        Action::AcceptCompletion => Some("accept_completion"@),
        Action::DeletePreviousChar => Some("delete_previous_char"@),
        Action::DeletePreviousWord => Some("delete_previous_word"@),
        Action::ClearLine => Some("clear_line"@),
        Action::OpenInEditor => Some("open_in_editor"@),
        Action::InsertNewline => Some("insert_newline"@),
        Action::ToggleShell => Some("toggle_shell"@),
        Action::MoveCursorLeft => Some("move_cursor_left"@),
        Action::MoveCursorRight => Some("move_cursor_right"@),
        Action::MoveCursorWordLeft => Some("move_cursor_word_left"@),
        Action::MoveCursorWordRight => Some("move_cursor_word_right"@),
        Action::MoveCursorToLineStart => Some("move_cursor_to_line_start"@),
        Action::MoveCursorToLineEnd => Some("move_cursor_to_line_end"@),
        Action::Choose => Some("choose"@),
        Action::Close => Some("close"@),
        Action::Search => Some("search"@),
        Action::Run => Some("run"@),
        Action::Decline => Some("decline"@),
        Action::SortByName => Some("sort_by_name"@),
        Action::SortByBranch => Some("sort_by_branch"@),
        Action::SortBySync => Some("sort_by_sync"@),
        Action::SortByBase => Some("sort_by_base"@),
        Action::SortByDirty => Some("sort_by_dirty"@),
        Action::SortByState => Some("sort_by_state"@),
        Action::SortNatural => Some("sort_natural"@),
        Action::CloseSortMenu => Some("close_sort_menu"@),
    }
}

/// This action's stable name in a `[keys]` block, distinct from [`description`]'s prose.
pub fn action_name(action: Action) -> (name: Option<&'static str>)
    ensures
        name is Some <==> action_name_text(action) is Some,
        name matches Some(name) ==> Some(name@) == action_name_text(action),
{
    match action {
        Action::OpenHelp => Some("open_help"),
        Action::Quit => Some("quit"),
        Action::OpenLauncher => Some("open_launcher"),
        Action::OpenActionPalette => Some("open_action_palette"),
        Action::OpenManagementPalette => Some("open_management_palette"),
        Action::EnterFilter => Some("enter_filter"),
        Action::RefreshAll => Some("refresh_all"),
        Action::RefreshSelection => Some("refresh_selection"),
        Action::RederiveDefaultBranches => Some("rederive_default_branches"),
        Action::ExpandWarning => Some("expand_warning"),
        Action::ToggleWorktrees => Some("toggle_worktrees"),
        Action::OpenSetPicker => Some("open_set_picker"),
        Action::OpenSortMenu => Some("open_sort_menu"),
        Action::SwitchToSet(_) => None,
        Action::ReloadConfig => Some("reload_config"),
        Action::EditConfig => Some("edit_config"),
        Action::MoveFocusBetweenListAndDetail => Some("move_focus_between_list_and_detail"),
        Action::Unwind => Some("unwind"),
        Action::MoveDown => Some("move_down"),
        Action::MoveUp => Some("move_up"),
        Action::FirstRow => Some("first_row"),
        Action::LastRow => Some("last_row"),
        Action::HalfPageDown => Some("half_page_down"),
        Action::HalfPageUp => Some("half_page_up"),
        Action::ToggleSelection => Some("toggle_selection"),
        Action::AnchorRange => Some("anchor_range"),
        Action::SelectAllVisible => Some("select_all_visible"),
        Action::ClearSelection => Some("clear_selection"),
        Action::ClearFilter => Some("clear_filter"),
        Action::OpenDetail => Some("open_detail"),
        Action::DismissVanished => Some("dismiss_vanished"),
        Action::NextFailed => Some("next_failed"),
        Action::PreviousFailed => Some("previous_failed"),
        Action::ScrollDown => Some("scroll_down"),
        Action::ScrollUp => Some("scroll_up"),
        Action::Top => Some("top"),
        Action::Bottom => Some("bottom"),
        Action::ClosePane => Some("close_pane"),
        Action::ReturnFocusToList => Some("return_focus_to_list"),
        Action::Text(_) => None,
        Action::Apply => Some("apply"),
        Action::Cancel => Some("cancel"),
        Action::PreviousEntry => Some("previous_entry"),
        Action::NextEntry => Some("next_entry"),
        Action::AcceptCompletion => Some("accept_completion"),
        Action::DeletePreviousChar => Some("delete_previous_char"),
        Action::DeletePreviousWord => Some("delete_previous_word"),
        Action::ClearLine => Some("clear_line"),
        Action::OpenInEditor => Some("open_in_editor"),
        Action::InsertNewline => Some("insert_newline"),
        Action::ToggleShell => Some("toggle_shell"),
        Action::MoveCursorLeft => Some("move_cursor_left"),
        Action::MoveCursorRight => Some("move_cursor_right"),
        Action::MoveCursorWordLeft => Some("move_cursor_word_left"),
        Action::MoveCursorWordRight => Some("move_cursor_word_right"),
        Action::MoveCursorToLineStart => Some("move_cursor_to_line_start"),
        Action::MoveCursorToLineEnd => Some("move_cursor_to_line_end"),
        Action::Choose => Some("choose"),
        Action::Close => Some("close"),
        Action::Search => Some("search"),
        Action::Run => Some("run"),
        Action::Decline => Some("decline"),
        Action::SortByName => Some("sort_by_name"),
        Action::SortByBranch => Some("sort_by_branch"),
        Action::SortBySync => Some("sort_by_sync"),
        Action::SortByBase => Some("sort_by_base"),
        Action::SortByDirty => Some("sort_by_dirty"),
        Action::SortByState => Some("sort_by_state"),
        Action::SortNatural => Some("sort_natural"),
        Action::CloseSortMenu => Some("close_sort_menu"),
    }
}


/// A context's name in a `[keys.<context>]` table.
pub open spec fn context_name_text(context: Context) -> Seq<char> {
    match context {
        Context::Global => "global"@,
        Context::List => "list"@,
        Context::Detail => "detail"@,
        Context::Input => "input"@,
        Context::Overlay => "overlay"@,
        Context::Confirm => "confirm"@,
        Context::Sort => "sort"@,
    }
}

/// This context's name in a `[keys.<context>]` table, the inverse of [`parse_context_name`].
pub fn context_name(context: Context) -> (name: &'static str)
    ensures
        name@ == context_name_text(context),
{
    match context {
        Context::Global => "global",
        Context::List => "list",
        Context::Detail => "detail",
        Context::Input => "input",
        Context::Overlay => "overlay",
        Context::Confirm => "confirm",
        Context::Sort => "sort",
    }
}

/// A context's name as an error message spells it.
pub open spec fn context_label_text(context: Context) -> Seq<char> {
    match context {
        Context::Global => "Global"@,
        Context::List => "List"@,
        Context::Detail => "Detail"@,
        Context::Input => "Input"@,
        Context::Overlay => "Overlay"@,
        Context::Confirm => "Confirm"@,
        Context::Sort => "Sort"@,
    }
}

/// This context's name as an error message spells it.
pub fn context_label(context: Context) -> (label: &'static str)
    ensures
        label@ == context_label_text(context),
{
    match context {
        Context::Global => "Global",
        Context::List => "List",
        Context::Detail => "Detail",
        Context::Input => "Input",
        Context::Overlay => "Overlay",
        Context::Confirm => "Confirm",
        Context::Sort => "Sort",
    }
}

/// The context that goes by `name`, where one does.
pub open spec fn context_named(name: Seq<char>) -> Option<Context> {
    if name == "global"@ {
        Some(Context::Global)
    } else if name == "list"@ {
        Some(Context::List)
    } else if name == "detail"@ {
        Some(Context::Detail)
    } else if name == "input"@ {
        Some(Context::Input)
    } else if name == "overlay"@ {
        Some(Context::Overlay)
    } else if name == "confirm"@ {
        Some(Context::Confirm)
    } else if name == "sort"@ {
        Some(Context::Sort)
    } else {
        None
    }
}

/// The [`Context`] named `name` in a `[keys.<context>]` table, or `None` where no context goes
/// by that name.
pub fn parse_context_name(name: &str) -> (context: Option<Context>)
    ensures
        context == context_named(name@),
        context matches Some(context) ==> name@ == context_name_text(context),
        context is None ==> forall|other: Context| name@ != #[trigger] context_name_text(other),
{
    if same(name, "global") {
        return Some(Context::Global);
    }
    if same(name, "list") {
        return Some(Context::List);
    }
    if same(name, "detail") {
        return Some(Context::Detail);
    }
    if same(name, "input") {
        return Some(Context::Input);
    }
    if same(name, "overlay") {
        return Some(Context::Overlay);
    }
    if same(name, "confirm") {
        return Some(Context::Confirm);
    }
    if same(name, "sort") {
        return Some(Context::Sort);
    }
    None
}

/// No two contexts share a name.
pub proof fn law_context_names_are_distinct(a: Context, b: Context)
    requires
        context_name_text(a) == context_name_text(b),
    ensures
        a == b,
{
    reveal_strlit("global");
    reveal_strlit("list");
    reveal_strlit("detail");
    reveal_strlit("input");
    reveal_strlit("overlay");
    reveal_strlit("confirm");
    reveal_strlit("sort");
    let name = context_name_text(a);
    assert(name.len() > 3 && name[0] == context_name_text(b)[0] && name[3] == context_name_text(
        b,
    )[3]);
}

/// A context's name is read back as that context, and no other name is.
pub proof fn law_a_context_name_is_read_back(context: Context, name: Seq<char>)
    ensures
        context_named(name) == Some(context) <==> name == context_name_text(context),
{
    if name == context_name_text(context) {
        law_context_names_are_distinct(context, context_named(name)->0);
    }
}

/// The letters that tell one action's name from another's, as one number.
spec fn fingerprint(name: Seq<char>) -> int {
    let n = name.len();
    n + 0x100 * (name[0] as int) + 0x1_0000 * (name[n - 2] as int) + 0x100_0000 * (name[n - 3] as int)
}

/// The fingerprint of each action's name.
spec fn fingerprint_of(action: Action) -> int {
    match action {
        Action::OpenHelp => 1701605129,
        Action::Quit => 1969844484,
        Action::OpenLauncher => 1751478029,
        Action::OpenActionPalette => 1953787667,
        Action::OpenManagementPalette => 1953787671,
        Action::EnterFilter => 1952802060,
        Action::RefreshAll => 1634497035,
        Action::RefreshSelection => 1768911377,
        Action::RederiveDefaultBranches => 1751478809,
        Action::ExpandWarning => 1768842510,
        Action::ToggleWorktrees => 1701147664,
        Action::OpenSetPicker => 1801809679,
        Action::OpenSortMenu => 1701736206,
        Action::ReloadConfig => 1718186509,
        Action::EditConfig => 1718183179,
        Action::MoveFocusBetweenListAndDetail => 1634299170,
        Action::Unwind => 1768846598,
        Action::MoveDown => 1870097673,
        Action::MoveUp => 1601531143,
        Action::FirstRow => 1919903241,
        Action::LastRow => 1919904776,
        Action::HalfPageDown => 1870096398,
        Action::HalfPageUp => 1601529868,
        Action::ToggleSelection => 1768911888,
        Action::AnchorRange => 1852268812,
        Action::SelectAllVisible => 1651274514,
        Action::ClearSelection => 1768907535,
        Action::ClearFilter => 1952801548,
        Action::OpenDetail => 1634299659,
        Action::DismissVanished => 1751475216,
        Action::NextFailed => 1818586635,
        Action::PreviousFailed => 1818587151,
        Action::ScrollDown => 1870099211,
        Action::ScrollUp => 1601532681,
        Action::Top => 1953461251,
        Action::Bottom => 1953456646,
        Action::ClosePane => 1634624266,
        Action::ReturnFocusToList => 1769173524,
        Action::Apply => 1886150917,
        Action::Cancel => 1667588870,
        Action::PreviousEntry => 1953656846,
        Action::NextEntry => 1953656330,
        Action::AcceptCompletion => 1768907025,
        Action::DeletePreviousChar => 1751213076,
        Action::DeletePreviousWord => 1869767700,
        Action::ClearLine => 1768841994,
        Action::OpenInEditor => 1953459982,
        Action::InsertNewline => 1768843534,
        Action::ToggleShell => 1701606412,
        Action::MoveCursorLeft => 1701211408,
        Action::MoveCursorRight => 1734896913,
        Action::MoveCursorWordLeft => 1701211413,
        Action::MoveCursorWordRight => 1734896918,
        Action::MoveCursorToLineStart => 1634888985,
        Action::MoveCursorToLineEnd => 1701735703,
        Action::Choose => 1869832966,
        Action::Close => 1869832965,
        Action::Search => 1919120134,
        Action::Run => 1920299523,
        Action::Decline => 1768842247,
        Action::SortByName => 1634562828,
        Action::SortByBranch => 1852011278,
        Action::SortBySync => 2037281548,
        Action::SortByBase => 1634956044,
        Action::SortByDirty => 1920234253,
        Action::SortByState => 1635021581,
        Action::SortNatural => 1918989068,
        Action::CloseSortMenu => 1701733135,
        Action::SwitchToSet(_) => 0,
        Action::Text(_) => 0,
    }
}

proof fn lemma_fingerprint(action: Action)
    requires
        action_name_text(action) is Some,
    ensures
        fingerprint(action_name_text(action)->0) == fingerprint_of(action),
{
    match action {
        Action::OpenHelp => {
            reveal_strlit("open_help");
        },
        Action::Quit => {
            reveal_strlit("quit");
        },
        Action::OpenLauncher => {
            reveal_strlit("open_launcher");
        },
        Action::OpenActionPalette => {
            reveal_strlit("open_action_palette");
        },
        Action::OpenManagementPalette => {
            reveal_strlit("open_management_palette");
        },
        Action::EnterFilter => {
            reveal_strlit("enter_filter");
        },
        Action::RefreshAll => {
            reveal_strlit("refresh_all");
        },
        Action::RefreshSelection => {
            reveal_strlit("refresh_selection");
        },
        Action::RederiveDefaultBranches => {
            reveal_strlit("rederive_default_branches");
        },
        Action::ExpandWarning => {
            reveal_strlit("expand_warning");
        },
        Action::ToggleWorktrees => {
            reveal_strlit("toggle_worktrees");
        },
        Action::OpenSetPicker => {
            reveal_strlit("open_set_picker");
        },
        Action::OpenSortMenu => {
            reveal_strlit("open_sort_menu");
        },
        Action::ReloadConfig => {
            reveal_strlit("reload_config");
        },
        Action::EditConfig => {
            reveal_strlit("edit_config");
        },
        Action::MoveFocusBetweenListAndDetail => {
            reveal_strlit("move_focus_between_list_and_detail");
        },
        Action::Unwind => {
            reveal_strlit("unwind");
        },
        Action::MoveDown => {
            reveal_strlit("move_down");
        },
        Action::MoveUp => {
            reveal_strlit("move_up");
        },
        Action::FirstRow => {
            reveal_strlit("first_row");
        },
        Action::LastRow => {
            reveal_strlit("last_row");
        },
        Action::HalfPageDown => {
            reveal_strlit("half_page_down");
        },
        Action::HalfPageUp => {
            reveal_strlit("half_page_up");
        },
        Action::ToggleSelection => {
            reveal_strlit("toggle_selection");
        },
        Action::AnchorRange => {
            reveal_strlit("anchor_range");
        },
        Action::SelectAllVisible => {
            reveal_strlit("select_all_visible");
        },
        Action::ClearSelection => {
            reveal_strlit("clear_selection");
        },
        Action::ClearFilter => {
            reveal_strlit("clear_filter");
        },
        Action::OpenDetail => {
            reveal_strlit("open_detail");
        },
        Action::DismissVanished => {
            reveal_strlit("dismiss_vanished");
        },
        Action::NextFailed => {
            reveal_strlit("next_failed");
        },
        Action::PreviousFailed => {
            reveal_strlit("previous_failed");
        },
        Action::ScrollDown => {
            reveal_strlit("scroll_down");
        },
        Action::ScrollUp => {
            reveal_strlit("scroll_up");
        },
        Action::Top => {
            reveal_strlit("top");
        },
        Action::Bottom => {
            reveal_strlit("bottom");
        },
        Action::ClosePane => {
            reveal_strlit("close_pane");
        },
        Action::ReturnFocusToList => {
            reveal_strlit("return_focus_to_list");
        },
        Action::Apply => {
            reveal_strlit("apply");
        },
        Action::Cancel => {
            reveal_strlit("cancel");
        },
        Action::PreviousEntry => {
            reveal_strlit("previous_entry");
        },
        Action::NextEntry => {
            reveal_strlit("next_entry");
        },
        Action::AcceptCompletion => {
            reveal_strlit("accept_completion");
        },
        Action::DeletePreviousChar => {
            reveal_strlit("delete_previous_char");
        },
        Action::DeletePreviousWord => {
            reveal_strlit("delete_previous_word");
        },
        Action::ClearLine => {
            reveal_strlit("clear_line");
        },
        Action::OpenInEditor => {
            reveal_strlit("open_in_editor");
        },
        Action::InsertNewline => {
            reveal_strlit("insert_newline");
        },
        Action::ToggleShell => {
            reveal_strlit("toggle_shell");
        },
        Action::MoveCursorLeft => {
            reveal_strlit("move_cursor_left");
        },
        Action::MoveCursorRight => {
            reveal_strlit("move_cursor_right");
        },
        Action::MoveCursorWordLeft => {
            reveal_strlit("move_cursor_word_left");
        },
        Action::MoveCursorWordRight => {
            reveal_strlit("move_cursor_word_right");
        },
        Action::MoveCursorToLineStart => {
            reveal_strlit("move_cursor_to_line_start");
        },
        Action::MoveCursorToLineEnd => {
            reveal_strlit("move_cursor_to_line_end");
        },
        Action::Choose => {
            reveal_strlit("choose");
        },
        Action::Close => {
            reveal_strlit("close");
        },
        Action::Search => {
            reveal_strlit("search");
        },
        Action::Run => {
            reveal_strlit("run");
        },
        Action::Decline => {
            reveal_strlit("decline");
        },
        Action::SortByName => {
            reveal_strlit("sort_by_name");
        },
        Action::SortByBranch => {
            reveal_strlit("sort_by_branch");
        },
        Action::SortBySync => {
            reveal_strlit("sort_by_sync");
        },
        Action::SortByBase => {
            reveal_strlit("sort_by_base");
        },
        Action::SortByDirty => {
            reveal_strlit("sort_by_dirty");
        },
        Action::SortByState => {
            reveal_strlit("sort_by_state");
        },
        Action::SortNatural => {
            reveal_strlit("sort_natural");
        },
        Action::CloseSortMenu => {
            reveal_strlit("close_sort_menu");
        },
        _ => {},
    }
}

/// No two actions share a name.
pub proof fn law_action_names_are_distinct(a: Action, b: Action)
    requires
        action_name_text(a) is Some,
        action_name_text(a) == action_name_text(b),
    ensures
        a == b,
{
    lemma_fingerprint(a);
    lemma_fingerprint(b);
}


/// The name each action goes by in a `[keys]` block; the Set switches and typed text go by none.
pub proof fn law_the_name_each_action_goes_by(n: u8, c: char)
    ensures
        action_name_text(Action::OpenHelp) == Some("open_help"@),
        action_name_text(Action::Quit) == Some("quit"@),
        action_name_text(Action::OpenLauncher) == Some("open_launcher"@),
        action_name_text(Action::OpenActionPalette) == Some("open_action_palette"@),
        action_name_text(Action::OpenManagementPalette) == Some("open_management_palette"@),
        action_name_text(Action::EnterFilter) == Some("enter_filter"@),
        action_name_text(Action::RefreshAll) == Some("refresh_all"@),
        action_name_text(Action::RefreshSelection) == Some("refresh_selection"@),
        action_name_text(Action::RederiveDefaultBranches) == Some("rederive_default_branches"@),
        action_name_text(Action::ExpandWarning) == Some("expand_warning"@),
        action_name_text(Action::ToggleWorktrees) == Some("toggle_worktrees"@),
        action_name_text(Action::OpenSetPicker) == Some("open_set_picker"@),
        action_name_text(Action::OpenSortMenu) == Some("open_sort_menu"@),
        action_name_text(Action::ReloadConfig) == Some("reload_config"@),
        action_name_text(Action::EditConfig) == Some("edit_config"@),
        action_name_text(Action::MoveFocusBetweenListAndDetail) == Some("move_focus_between_list_and_detail"@),
        action_name_text(Action::Unwind) == Some("unwind"@),
        action_name_text(Action::MoveDown) == Some("move_down"@),
        action_name_text(Action::MoveUp) == Some("move_up"@),
        action_name_text(Action::FirstRow) == Some("first_row"@),
        action_name_text(Action::LastRow) == Some("last_row"@),
        action_name_text(Action::HalfPageDown) == Some("half_page_down"@),
        action_name_text(Action::HalfPageUp) == Some("half_page_up"@),
        action_name_text(Action::ToggleSelection) == Some("toggle_selection"@),
        action_name_text(Action::AnchorRange) == Some("anchor_range"@),
        action_name_text(Action::SelectAllVisible) == Some("select_all_visible"@),
        action_name_text(Action::ClearSelection) == Some("clear_selection"@),
        action_name_text(Action::ClearFilter) == Some("clear_filter"@),
        action_name_text(Action::OpenDetail) == Some("open_detail"@),
        action_name_text(Action::DismissVanished) == Some("dismiss_vanished"@),
        action_name_text(Action::NextFailed) == Some("next_failed"@),
        action_name_text(Action::PreviousFailed) == Some("previous_failed"@),
        action_name_text(Action::ScrollDown) == Some("scroll_down"@),
        action_name_text(Action::ScrollUp) == Some("scroll_up"@),
        action_name_text(Action::Top) == Some("top"@),
        action_name_text(Action::Bottom) == Some("bottom"@),
        action_name_text(Action::ClosePane) == Some("close_pane"@),
        action_name_text(Action::ReturnFocusToList) == Some("return_focus_to_list"@),
        action_name_text(Action::Apply) == Some("apply"@),
        action_name_text(Action::Cancel) == Some("cancel"@),
        action_name_text(Action::PreviousEntry) == Some("previous_entry"@),
        action_name_text(Action::NextEntry) == Some("next_entry"@),
        action_name_text(Action::AcceptCompletion) == Some("accept_completion"@),
        action_name_text(Action::DeletePreviousChar) == Some("delete_previous_char"@),
        action_name_text(Action::DeletePreviousWord) == Some("delete_previous_word"@),
        action_name_text(Action::ClearLine) == Some("clear_line"@),
        action_name_text(Action::OpenInEditor) == Some("open_in_editor"@),
        action_name_text(Action::InsertNewline) == Some("insert_newline"@),
        action_name_text(Action::ToggleShell) == Some("toggle_shell"@),
        action_name_text(Action::MoveCursorLeft) == Some("move_cursor_left"@),
        action_name_text(Action::MoveCursorRight) == Some("move_cursor_right"@),
        action_name_text(Action::MoveCursorWordLeft) == Some("move_cursor_word_left"@),
        action_name_text(Action::MoveCursorWordRight) == Some("move_cursor_word_right"@),
        action_name_text(Action::MoveCursorToLineStart) == Some("move_cursor_to_line_start"@),
        action_name_text(Action::MoveCursorToLineEnd) == Some("move_cursor_to_line_end"@),
        action_name_text(Action::Choose) == Some("choose"@),
        action_name_text(Action::Close) == Some("close"@),
        action_name_text(Action::Search) == Some("search"@),
        action_name_text(Action::Run) == Some("run"@),
        action_name_text(Action::Decline) == Some("decline"@),
        action_name_text(Action::SortByName) == Some("sort_by_name"@),
        action_name_text(Action::SortByBranch) == Some("sort_by_branch"@),
        action_name_text(Action::SortBySync) == Some("sort_by_sync"@),
        action_name_text(Action::SortByBase) == Some("sort_by_base"@),
        action_name_text(Action::SortByDirty) == Some("sort_by_dirty"@),
        action_name_text(Action::SortByState) == Some("sort_by_state"@),
        action_name_text(Action::SortNatural) == Some("sort_natural"@),
        action_name_text(Action::CloseSortMenu) == Some("close_sort_menu"@),
        action_name_text(Action::SwitchToSet(n)) is None,
        action_name_text(Action::Text(c)) is None,
{
}

/// The words that describe each action.
pub proof fn law_the_words_that_describe_each_action(n: u8, c: char)
    ensures
        description_text(Action::OpenHelp) == "Open the help overlay"@,
        description_text(Action::Quit) == "Quit"@,
        description_text(Action::OpenLauncher) == "Open the Launcher palette"@,
        description_text(Action::OpenActionPalette) == "Open the Action palette"@,
        description_text(Action::OpenManagementPalette)
            == "Open the Action palette filtered to management operations"@,
        description_text(Action::EnterFilter) == "Enter a Filter"@,
        description_text(Action::RefreshAll) == "Refresh everything"@,
        description_text(Action::RefreshSelection) == "Refresh the Selection"@,
        description_text(Action::RederiveDefaultBranches)
            == "Re-derive default branches over the Selection"@,
        description_text(Action::ExpandWarning) == "Expand the warning slot"@,
        description_text(Action::ToggleWorktrees) == "Toggle Worktree rows"@,
        description_text(Action::OpenSetPicker) == "Open the Set picker"@,
        description_text(Action::OpenSortMenu) == "Open the sort menu"@,
        description_text(Action::SwitchToSet(n)) == "Switch to the Nth declared Set"@,
        description_text(Action::ReloadConfig) == "Reload config"@,
        description_text(Action::EditConfig) == "Edit config.toml in `$EDITOR`"@,
        description_text(Action::MoveFocusBetweenListAndDetail)
            == "Move focus between list and detail"@,
        description_text(Action::Unwind) == "Unwind one level"@,
        description_text(Action::MoveDown) == "Move down"@,
        description_text(Action::MoveUp) == "Move up"@,
        description_text(Action::FirstRow) == "First row"@,
        description_text(Action::LastRow) == "Last row"@,
        description_text(Action::HalfPageDown) == "Half page down"@,
        description_text(Action::HalfPageUp) == "Half page up"@,
        description_text(Action::ToggleSelection) == "Toggle this row's Selection"@,
        description_text(Action::AnchorRange)
            == "Anchor a range at the cursor, extended with `j` and `k`"@,
        description_text(Action::SelectAllVisible)
            == "Select every listed row, not just this screenful"@,
        description_text(Action::ClearSelection) == "Clear the Selection"@,
        description_text(Action::ClearFilter) == "Clear the committed Filter"@,
        description_text(Action::OpenDetail) == "Open the detail pane"@,
        description_text(Action::DismissVanished) == "Dismiss a Vanished row"@,
        description_text(Action::NextFailed) == "Next failed row"@,
        description_text(Action::PreviousFailed) == "Previous failed row"@,
        description_text(Action::ScrollDown) == "Scroll down"@,
        description_text(Action::ScrollUp) == "Scroll up"@,
        description_text(Action::Top) == "Top"@,
        description_text(Action::Bottom) == "Bottom"@,
        description_text(Action::ClosePane) == "Close the pane and return focus to the list"@,
        description_text(Action::ReturnFocusToList)
            == "Return focus to the list and leave the pane open"@,
        description_text(Action::Text(c)) == "Text"@,
        description_text(Action::Apply)
            == "Apply the Filter, or run the highlighted entry. In the Filter line it **always** commits and never accepts a completion ([filter.md](filter.md))"@,
        description_text(Action::Cancel) == "Cancel"@,
        description_text(Action::PreviousEntry) == "Previous entry"@,
        description_text(Action::NextEntry) == "Next entry"@,
        description_text(Action::AcceptCompletion)
            == "Accept the highlighted completion (the Filter line only)"@,
        description_text(Action::DeletePreviousChar) == "Delete the previous character"@,
        description_text(Action::DeletePreviousWord) == "Delete the previous word"@,
        description_text(Action::ClearLine) == "Clear the line"@,
        description_text(Action::OpenInEditor) == "Open the field in `$EDITOR`"@,
        description_text(Action::InsertNewline)
            == "Insert a newline (the ad hoc command field only)"@,
        description_text(Action::ToggleShell)
            == "Toggle shell mode (the ad hoc command field only)"@,
        description_text(Action::MoveCursorLeft) == "Move the cursor left"@,
        description_text(Action::MoveCursorRight) == "Move the cursor right"@,
        description_text(Action::MoveCursorWordLeft) == "Move the cursor back one word"@,
        description_text(Action::MoveCursorWordRight) == "Move the cursor forward one word"@,
        description_text(Action::MoveCursorToLineStart)
            == "Move the cursor to the start of the line"@,
        description_text(Action::MoveCursorToLineEnd) == "Move the cursor to the end of the line"@,
        description_text(Action::Choose) == "Choose (Set picker only)"@,
        description_text(Action::Close) == "Close"@,
        description_text(Action::Search) == "Search"@,
        description_text(Action::Run) == "Run"@,
        description_text(Action::Decline) == "Decline"@,
        description_text(Action::SortByName) == "Sort by name"@,
        description_text(Action::SortByBranch) == "Sort by branch"@,
        description_text(Action::SortBySync) == "Sort by sync"@,
        description_text(Action::SortByBase) == "Sort by base"@,
        description_text(Action::SortByDirty) == "Sort by dirty"@,
        description_text(Action::SortByState) == "Sort by state"@,
        description_text(Action::SortNatural) == "Restore the natural grouped order"@,
        description_text(Action::CloseSortMenu) == "Close the sort menu without reordering"@,
{
}

/// A context's label is its name, spelled with a capital.
pub proof fn law_a_contexts_label_is_its_name_with_a_capital(context: Context)
    ensures
        ({
            let name = context_name_text(context);
            let label = context_label_text(context);
            &&& name.len() > 0
            &&& label.len() == name.len()
            &&& label[0] as u32 + 32 == name[0] as u32
            &&& label.skip(1) == name.skip(1)
        }),
{
    reveal_strlit("global");
    reveal_strlit("Global");
    assert("Global"@.skip(1) =~= "global"@.skip(1));
    reveal_strlit("list");
    reveal_strlit("List");
    assert("List"@.skip(1) =~= "list"@.skip(1));
    reveal_strlit("detail");
    reveal_strlit("Detail");
    assert("Detail"@.skip(1) =~= "detail"@.skip(1));
    reveal_strlit("input");
    reveal_strlit("Input");
    assert("Input"@.skip(1) =~= "input"@.skip(1));
    reveal_strlit("overlay");
    reveal_strlit("Overlay");
    assert("Overlay"@.skip(1) =~= "overlay"@.skip(1));
    reveal_strlit("confirm");
    reveal_strlit("Confirm");
    assert("Confirm"@.skip(1) =~= "confirm"@.skip(1));
    reveal_strlit("sort");
    reveal_strlit("Sort");
    assert("Sort"@.skip(1) =~= "sort"@.skip(1));
}

/// Each context's name is the word it is known by.
pub proof fn law_the_name_of_each_context()
    ensures
        context_name_text(Context::Global) == "global"@,
        context_name_text(Context::List) == "list"@,
        context_name_text(Context::Detail) == "detail"@,
        context_name_text(Context::Input) == "input"@,
        context_name_text(Context::Overlay) == "overlay"@,
        context_name_text(Context::Confirm) == "confirm"@,
        context_name_text(Context::Sort) == "sort"@,
{
}

} // verus!
