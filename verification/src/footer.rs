//! The footer line, derived from the binding table on every frame, never a literal binding.

use vstd::prelude::*;

use crate::action::{Action, Context};
use crate::chord::{chord_label, chord_text};
use crate::default_map::{confirm_rows, default_rows, detail_rows, global_rows, list_rows, Binding};
use crate::degrade;
use crate::degrade::{indices, selection, Priority};
use crate::keys::{first_row, BindingTable};
use crate::paint::{painted_view, plain, push_plain, Painted, PaintedView, Role};
use crate::text::{join, joined};

verus! {

broadcast use {vstd::string::group_string_axioms, vstd::seq_lib::group_seq_properties};

/// The gap between two items.
pub const SEPARATOR: &'static str = "  ";

/// What stands for the items a width left out.
pub const ELLIPSIS: &'static str = " ...";

/// One hint's chord text and its label, kept apart so each is painted in a role of its own.
#[derive(Clone, Debug, PartialEq, Eq)]
pub struct Hint {
    pub key: String,
    pub label: String,
}

impl View for Hint {
    type V = (Seq<char>, Seq<char>);

    open spec fn view(&self) -> (Seq<char>, Seq<char>) {
        (self.key@, self.label@)
    }
}

/// A hint as one text: the key, and the label behind it where it has one.
pub open spec fn hint_text(hint: (Seq<char>, Seq<char>)) -> Seq<char> {
    if hint.1.len() == 0 {
        hint.0
    } else {
        hint.0 + " "@ + hint.1
    }
}

impl Hint {
    /// This hint as one text.
    pub fn text(&self) -> (text: String)
        ensures
            text@ == hint_text(self@),
    {
        if self.label.as_str().is_empty() {
            self.key.clone()
        } else {
            self.key.clone().concat(" ").concat(self.label.as_str())
        }
    }

    fn copy(&self) -> (copy: Hint)
        ensures
            copy@ == self@,
    {
        Hint { key: self.key.clone(), label: self.label.clone() }
    }
}

/// One item of the footer: its hint, when it drops, and whether what it names is built.
#[derive(Clone, Debug, PartialEq, Eq)]
pub struct Item {
    pub hint: Hint,
    pub priority: Priority,
    pub built: bool,
}

/// An [`Item`] as plain values.
pub struct ItemView {
    pub hint: (Seq<char>, Seq<char>),
    pub priority: Priority,
    pub built: bool,
}

impl View for Item {
    type V = ItemView;

    open spec fn view(&self) -> ItemView {
        ItemView { hint: self.hint@, priority: self.priority, built: self.built }
    }
}

/// The items as plain values.
pub open spec fn items_view(items: Seq<Item>) -> Seq<ItemView> {
    items.map_values(|item: Item| item@)
}

/// The key `action` is shown under: its first chord in `context`.
pub open spec fn key_of(rows: Seq<Binding>, context: Context, action: Action) -> Seq<char> {
    let row = first_row(rows, context, action)->0;
    chord_text(row.code, row.modifiers)
}

/// One action's hint.
pub open spec fn hint_of(
    rows: Seq<Binding>,
    context: Context,
    action: Action,
    label: Seq<char>,
    priority: Priority,
) -> ItemView {
    ItemView {
        hint: (key_of(rows, context, action), label),
        priority,
        built: first_row(rows, context, action)->0.built,
    }
}

/// Two actions' hint: both chords around a slash, built only where both are.
pub open spec fn combined_hint_of(
    rows: Seq<Binding>,
    context: Context,
    first: Action,
    second: Action,
    label: Seq<char>,
    priority: Priority,
) -> ItemView {
    ItemView {
        hint: (key_of(rows, context, first) + "/"@ + key_of(rows, context, second), label),
        priority,
        built: first_row(rows, context, first)->0.built && first_row(
            rows,
            context,
            second,
        )->0.built,
    }
}

/// `action` has a chord in `context`.
pub open spec fn is_bound(rows: Seq<Binding>, context: Context, action: Action) -> bool {
    first_row(rows, context, action) is Some
}

/// Every action the footer of `context` names has a chord, and `context` has a footer at all.
pub open spec fn has_footer(rows: Seq<Binding>, context: Context) -> bool {
    match context {
        Context::List => {
            &&& is_bound(rows, Context::List, Action::MoveDown)
            &&& is_bound(rows, Context::List, Action::MoveUp)
            &&& is_bound(rows, Context::List, Action::ToggleSelection)
            &&& is_bound(rows, Context::List, Action::OpenDetail)
            &&& shared_hints_bound(rows)
        },
        Context::Detail => {
            &&& is_bound(rows, Context::Detail, Action::ScrollDown)
            &&& is_bound(rows, Context::Detail, Action::ScrollUp)
            &&& shared_hints_bound(rows)
        },
        Context::Confirm => {
            &&& is_bound(rows, Context::Confirm, Action::Run)
            &&& is_bound(rows, Context::Confirm, Action::Decline)
        },
        _ => false,
    }
}

/// The `global` actions both the list's and the detail pane's footers name have chords.
pub open spec fn shared_hints_bound(rows: Seq<Binding>) -> bool {
    &&& is_bound(rows, Context::Global, Action::EnterFilter)
    &&& is_bound(rows, Context::Global, Action::OpenLauncher)
    &&& is_bound(rows, Context::Global, Action::OpenActionPalette)
    &&& is_bound(rows, Context::Global, Action::RefreshAll)
    &&& is_bound(rows, Context::Global, Action::OpenHelp)
}

/// The footer's items in display order, unbuilt ones included. Drop order in the list: refresh
/// first, movement second, then detail, filter, select, the launcher and action pair, and help
/// pinned last; the detail pane's is the same without the two hints it has no use for.
pub open spec fn footer_items(rows: Seq<Binding>, context: Context) -> Seq<ItemView> {
    match context {
        Context::List => seq![
            combined_hint_of(
                rows,
                Context::List,
                Action::MoveDown,
                Action::MoveUp,
                "move"@,
                Priority::Drop(2),
            ),
            hint_of(rows, Context::List, Action::ToggleSelection, "select"@, Priority::Drop(5)),
            hint_of(rows, Context::List, Action::OpenDetail, "detail"@, Priority::Drop(3)),
            hint_of(rows, Context::Global, Action::EnterFilter, "filter"@, Priority::Drop(4)),
            hint_of(rows, Context::Global, Action::OpenLauncher, "launcher"@, Priority::Drop(6)),
            hint_of(rows, Context::Global, Action::OpenActionPalette, "action"@, Priority::Drop(6)),
            hint_of(rows, Context::Global, Action::RefreshAll, "refresh"@, Priority::Drop(1)),
            hint_of(rows, Context::Global, Action::OpenHelp, "help"@, Priority::Pinned),
        ],
        Context::Detail => seq![
            combined_hint_of(
                rows,
                Context::Detail,
                Action::ScrollDown,
                Action::ScrollUp,
                "scroll"@,
                Priority::Drop(2),
            ),
            hint_of(rows, Context::Global, Action::EnterFilter, "filter"@, Priority::Drop(3)),
            hint_of(rows, Context::Global, Action::OpenLauncher, "launcher"@, Priority::Drop(4)),
            hint_of(rows, Context::Global, Action::OpenActionPalette, "action"@, Priority::Drop(4)),
            hint_of(rows, Context::Global, Action::RefreshAll, "refresh"@, Priority::Drop(1)),
            hint_of(rows, Context::Global, Action::OpenHelp, "help"@, Priority::Pinned),
        ],
        Context::Confirm => seq![
            hint_of(rows, Context::Confirm, Action::Run, "run"@, Priority::Pinned),
            hint_of(rows, Context::Confirm, Action::Decline, "cancel"@, Priority::Pinned),
        ],
        _ => Seq::empty(),
    }
}

fn chord_of(table: &BindingTable, context: Context, action: Action) -> (key: String)
    requires
        is_bound(table.rows(), context, action),
    ensures
        key@ == key_of(table.rows(), context, action),
{
    let (code, modifiers) = table.primary_chord(context, action).unwrap();
    chord_label(code, modifiers)
}

/// One item's chord, read from `table` rather than typed here, paired with its short label and
/// whether it is built.
pub fn hint_item(
    table: &BindingTable,
    context: Context,
    action: Action,
    label: &str,
    priority: Priority,
) -> (item: Item)
    requires
        is_bound(table.rows(), context, action),
    ensures
        item@ == hint_of(table.rows(), context, action, label@, priority),
{
    Item {
        hint: Hint { key: chord_of(table, context, action), label: label.to_owned() },
        priority,
        built: table.is_built(context, action),
    }
}

/// Two actions' chords joined with `/` as one key, e.g. `j/k`, paired with a combined label.
/// Built only when both halves are.
pub fn combined_hint_item(
    table: &BindingTable,
    context: Context,
    first: Action,
    second: Action,
    label: &str,
    priority: Priority,
) -> (item: Item)
    requires
        is_bound(table.rows(), context, first),
        is_bound(table.rows(), context, second),
    ensures
        item@ == combined_hint_of(table.rows(), context, first, second, label@, priority),
{
    Item {
        hint: Hint {
            key: chord_of(table, context, first).concat("/").concat(
                chord_of(table, context, second).as_str(),
            ),
            label: label.to_owned(),
        },
        priority,
        built: table.is_built(context, first) && table.is_built(context, second),
    }
}

/// The list context's content, in display order.
pub fn list_items(table: &BindingTable) -> (items: Vec<Item>)
    requires
        has_footer(table.rows(), Context::List),
    ensures
        items_view(items@) == footer_items(table.rows(), Context::List),
{
    let items = vec![
        combined_hint_item(
            table,
            Context::List,
            Action::MoveDown,
            Action::MoveUp,
            "move",
            Priority::Drop(2),
        ),
        hint_item(table, Context::List, Action::ToggleSelection, "select", Priority::Drop(5)),
        hint_item(table, Context::List, Action::OpenDetail, "detail", Priority::Drop(3)),
        hint_item(table, Context::Global, Action::EnterFilter, "filter", Priority::Drop(4)),
        hint_item(table, Context::Global, Action::OpenLauncher, "launcher", Priority::Drop(6)),
        hint_item(table, Context::Global, Action::OpenActionPalette, "action", Priority::Drop(6)),
        hint_item(table, Context::Global, Action::RefreshAll, "refresh", Priority::Drop(1)),
        hint_item(table, Context::Global, Action::OpenHelp, "help", Priority::Pinned),
    ];
    proof {
        assert(items_view(items@) =~= footer_items(table.rows(), Context::List));
    }
    items
}

/// The detail context's content, in display order.
pub fn detail_items(table: &BindingTable) -> (items: Vec<Item>)
    requires
        has_footer(table.rows(), Context::Detail),
    ensures
        items_view(items@) == footer_items(table.rows(), Context::Detail),
{
    let items = vec![
        combined_hint_item(
            table,
            Context::Detail,
            Action::ScrollDown,
            Action::ScrollUp,
            "scroll",
            Priority::Drop(2),
        ),
        hint_item(table, Context::Global, Action::EnterFilter, "filter", Priority::Drop(3)),
        hint_item(table, Context::Global, Action::OpenLauncher, "launcher", Priority::Drop(4)),
        hint_item(table, Context::Global, Action::OpenActionPalette, "action", Priority::Drop(4)),
        hint_item(table, Context::Global, Action::RefreshAll, "refresh", Priority::Drop(1)),
        hint_item(table, Context::Global, Action::OpenHelp, "help", Priority::Pinned),
    ];
    proof {
        assert(items_view(items@) =~= footer_items(table.rows(), Context::Detail));
    }
    items
}

/// The confirm context's content: both hints pinned.
pub fn confirm_items(table: &BindingTable) -> (items: Vec<Item>)
    requires
        has_footer(table.rows(), Context::Confirm),
    ensures
        items_view(items@) == footer_items(table.rows(), Context::Confirm),
{
    let items = vec![
        hint_item(table, Context::Confirm, Action::Run, "run", Priority::Pinned),
        hint_item(table, Context::Confirm, Action::Decline, "cancel", Priority::Pinned),
    ];
    proof {
        assert(items_view(items@) =~= footer_items(table.rows(), Context::Confirm));
    }
    items
}

/// The footer's content at some width: the surviving hints in display order, plus whether the
/// ellipsis was reserved for a dropped one.
#[derive(Clone, Debug, PartialEq, Eq)]
pub struct FooterLine {
    pub hints: Vec<Hint>,
    pub truncated: bool,
}

/// The hints as plain text.
pub open spec fn hints_view(hints: Seq<Hint>) -> Seq<(Seq<char>, Seq<char>)> {
    hints.map_values(|hint: Hint| hint@)
}

impl View for FooterLine {
    type V = (Seq<(Seq<char>, Seq<char>)>, bool);

    open spec fn view(&self) -> (Seq<(Seq<char>, Seq<char>)>, bool) {
        (hints_view(self.hints@), self.truncated)
    }
}

/// The text of a footer line.
pub open spec fn footer_text(line: (Seq<(Seq<char>, Seq<char>)>, bool)) -> Seq<char> {
    joined(line.0.map_values(|hint: (Seq<char>, Seq<char>)| hint_text(hint)), SEPARATOR@) + if line.1 {
        ELLIPSIS@
    } else {
        Seq::empty()
    }
}

impl FooterLine {
    /// The text of this line.
    pub fn text(&self) -> (text: String)
        ensures
            text@ == footer_text(self@),
    {
        let mut texts: Vec<String> = Vec::new();
        let mut i: usize = 0;
        while i < self.hints.len()
            invariant
                i <= self.hints.len(),
                texts@.len() == i,
                forall|k: int|
                    0 <= k < i ==> #[trigger] texts@[k]@ == hint_text(self.hints@[k]@),
            decreases self.hints.len() - i,
        {
            texts.push(self.hints[i].text());
            i = i + 1;
        }
        proof {
            assert(texts.deep_view() =~= hints_view(self.hints@).map_values(
                |hint: (Seq<char>, Seq<char>)| hint_text(hint),
            ));
        }
        let mut text = join(&texts, SEPARATOR);
        if self.truncated {
            text.append(ELLIPSIS);
        }
        text
    }
}

/// The items as the width rule sees them.
pub open spec fn ladder(items: Seq<ItemView>) -> Seq<(Seq<char>, Priority)> {
    items.map_values(|item: ItemView| (hint_text(item.hint), item.priority))
}

/// The footer line `items` make in `width` columns.
pub open spec fn budgeted(items: Seq<ItemView>, width: nat) -> (Seq<(Seq<char>, Seq<char>)>, bool) {
    let (kept, truncated) = selection(ladder(items), width, SEPARATOR@, ELLIPSIS@);
    (kept.map_values(|i: int| items[i].hint), truncated)
}

/// Selects `items` into at most `width` columns, by [`degrade::budget`]'s rule.
pub fn budget(items: &Vec<Item>, width: usize) -> (line: FooterLine)
    ensures
        line@ == budgeted(items_view(items@), width as nat),
{
    let mut plain_items: Vec<degrade::Item> = Vec::new();
    let mut i: usize = 0;
    while i < items.len()
        invariant
            i <= items.len(),
            plain_items@.len() == i,
            forall|k: int|
                0 <= k < i ==> (#[trigger] plain_items@[k])@ == (
                    hint_text(items@[k].hint@),
                    items@[k].priority,
                ),
        decreases items.len() - i,
    {
        plain_items.push(
            degrade::Item { content: items[i].hint.text(), priority: items[i].priority },
        );
        i = i + 1;
    }
    proof {
        assert(degrade::items_view(plain_items@) =~= ladder(items_view(items@)));
    }
    let line = degrade::budget(&plain_items, width, SEPARATOR, ELLIPSIS);
    let mut hints: Vec<Hint> = Vec::new();
    let mut k: usize = 0;
    while k < line.kept.len()
        invariant
            k <= line.kept.len(),
            hints@.len() == k,
            plain_items@.len() == items@.len(),
            forall|j: int|
                0 <= j < line.kept@.len() ==> #[trigger] line.kept@[j] < plain_items.len(),
            forall|j: int|
                0 <= j < k ==> (#[trigger] hints@[j])@ == items@[line.kept@[j] as int].hint@,
        decreases line.kept.len() - k,
    {
        hints.push(items[line.kept[k]].hint.copy());
        k = k + 1;
    }
    proof {
        let viewed = items_view(items@);
        assert(hints_view(hints@) =~= indices(line.kept@).map_values(|i: int| viewed[i].hint));
    }
    FooterLine { hints, truncated: line.truncated }
}

/// The items that are built, in order.
pub open spec fn built_items(items: Seq<ItemView>) -> Seq<ItemView>
    decreases items.len(),
{
    if items.len() == 0 {
        items
    } else if items.last().built {
        built_items(items.drop_last()).push(items.last())
    } else {
        built_items(items.drop_last())
    }
}

fn keep_built(items: Vec<Item>) -> (kept: Vec<Item>)
    ensures
        items_view(kept@) == built_items(items_view(items@)),
{
    let ghost all = items_view(items@);
    let mut kept: Vec<Item> = Vec::new();
    let mut i: usize = 0;
    proof {
        assert(items_view(kept@) =~= Seq::<ItemView>::empty());
    }
    while i < items.len()
        invariant
            i <= items.len(),
            all == items_view(items@),
            items_view(kept@) == built_items(all.take(i as int)),
        decreases items.len() - i,
    {
        proof {
            assert(all.take(i + 1).drop_last() =~= all.take(i as int));
            assert(all.take(i + 1).last() == items@[i as int]@);
        }
        if items[i].built {
            let item = Item {
                hint: items[i].hint.copy(),
                priority: items[i].priority,
                built: true,
            };
            let ghost before = kept@;
            kept.push(item);
            proof {
                assert(items_view(kept@) =~= items_view(before).push(item@));
            }
        }
        i = i + 1;
    }
    proof {
        assert(all.take(i as int) =~= all);
    }
    kept
}

/// What the footer of `context` shows in `width` columns: only built bindings, at any width.
pub open spec fn footer_shows(rows: Seq<Binding>, context: Context, width: nat) -> (
    Seq<(Seq<char>, Seq<char>)>,
    bool,
) {
    budgeted(built_items(footer_items(rows, context)), width)
}

fn bound(table: &BindingTable, context: Context, action: Action) -> (found: bool)
    ensures
        found == is_bound(table.rows(), context, action),
{
    table.primary_chord(context, action).is_some()
}

fn shared_bound(table: &BindingTable) -> (found: bool)
    ensures
        found == shared_hints_bound(table.rows()),
{
    bound(table, Context::Global, Action::EnterFilter) && bound(
        table,
        Context::Global,
        Action::OpenLauncher,
    ) && bound(table, Context::Global, Action::OpenActionPalette) && bound(
        table,
        Context::Global,
        Action::RefreshAll,
    ) && bound(table, Context::Global, Action::OpenHelp)
}

/// Whether `context` has a footer and every action it names still has a chord in `table`: what
/// [`footer_line`], [`render`] and [`draw`] ask for.
pub fn is_drawable(table: &BindingTable, context: Context) -> (drawable: bool)
    ensures
        drawable == has_footer(table.rows(), context),
{
    match context {
        Context::List => bound(table, Context::List, Action::MoveDown) && bound(
            table,
            Context::List,
            Action::MoveUp,
        ) && bound(table, Context::List, Action::ToggleSelection) && bound(
            table,
            Context::List,
            Action::OpenDetail,
        ) && shared_bound(table),
        Context::Detail => bound(table, Context::Detail, Action::ScrollDown) && bound(
            table,
            Context::Detail,
            Action::ScrollUp,
        ) && shared_bound(table),
        Context::Confirm => bound(table, Context::Confirm, Action::Run) && bound(
            table,
            Context::Confirm,
            Action::Decline,
        ),
        _ => false,
    }
}

/// The selection for `context` at `width` columns, read off `table`. `List`, `Detail` and
/// `Confirm` have a footer; the other contexts have none.
pub fn footer_line(table: &BindingTable, context: Context, width: u16) -> (line: FooterLine)
    requires
        has_footer(table.rows(), context),
    ensures
        line@ == footer_shows(table.rows(), context, width as nat),
{
    let items = match context {
        Context::List => list_items(table),
        Context::Detail => detail_items(table),
        _ => confirm_items(table),
    };
    budget(&keep_built(items), width as usize)
}

/// The footer text for `context` at `width` columns.
pub fn render(table: &BindingTable, context: Context, width: u16) -> (text: String)
    requires
        has_footer(table.rows(), context),
    ensures
        text@ == footer_text(footer_shows(table.rows(), context, width as nat)),
{
    footer_line(table, context, width).text()
}

/// The runs one hint paints: its key in `accent`, its label in `dim`.
pub open spec fn hint_runs(hint: (Seq<char>, Seq<char>)) -> Seq<PaintedView> {
    if hint.1.len() == 0 {
        seq![plain(hint.0, Role::Accent)]
    } else {
        seq![plain(hint.0, Role::Accent), plain(" "@, Role::Dim), plain(hint.1, Role::Dim)]
    }
}

/// The runs some hints paint, separators between them.
pub open spec fn hints_runs(hints: Seq<(Seq<char>, Seq<char>)>) -> Seq<PaintedView>
    decreases hints.len(),
{
    if hints.len() == 0 {
        Seq::empty()
    } else if hints.len() == 1 {
        hint_runs(hints[0])
    } else {
        hints_runs(hints.drop_last()).push(plain(SEPARATOR@, Role::Dim)) + hint_runs(hints.last())
    }
}

/// The runs a footer line paints, from the left edge of its row.
pub open spec fn footer_runs(line: (Seq<(Seq<char>, Seq<char>)>, bool)) -> Seq<PaintedView> {
    if line.1 {
        hints_runs(line.0).push(plain(ELLIPSIS@, Role::Dim))
    } else {
        hints_runs(line.0)
    }
}

/// `context`'s footer as the runs to paint along its row: each hint's key in `accent` and its
/// label in `dim`, the separators and the ellipsis in `dim` alongside the labels.
pub fn draw(table: &BindingTable, context: Context, width: u16) -> (runs: Vec<Painted>)
    requires
        has_footer(table.rows(), context),
    ensures
        painted_view(runs@) == footer_runs(footer_shows(table.rows(), context, width as nat)),
{
    let line = footer_line(table, context, width);
    let ghost hints = hints_view(line.hints@);
    let mut runs: Vec<Painted> = Vec::new();
    let mut i: usize = 0;
    proof {
        assert(painted_view(runs@) =~= Seq::<PaintedView>::empty());
    }
    while i < line.hints.len()
        invariant
            i <= line.hints.len(),
            hints == hints_view(line.hints@),
            painted_view(runs@) == hints_runs(hints.take(i as int)),
        decreases line.hints.len() - i,
    {
        let ghost before = painted_view(runs@);
        if i > 0 {
            push_plain(&mut runs, SEPARATOR, Role::Dim);
        }
        let ghost separated = painted_view(runs@);
        let hint = &line.hints[i];
        push_plain(&mut runs, hint.key.as_str(), Role::Accent);
        if !hint.label.as_str().is_empty() {
            push_plain(&mut runs, " ", Role::Dim);
            push_plain(&mut runs, hint.label.as_str(), Role::Dim);
        }
        proof {
            assert(painted_view(runs@) =~= separated + hint_runs(hint@));
            let now = hints.take(i + 1);
            assert(now.drop_last() =~= hints.take(i as int));
            assert(now.last() == hint@);
            if i == 0 {
                assert(painted_view(runs@) =~= hint_runs(now[0]));
            }
        }
        i = i + 1;
    }
    proof {
        assert(hints.take(i as int) =~= hints);
    }
    if line.truncated {
        push_plain(&mut runs, ELLIPSIS, Role::Dim);
    }
    runs
}

/// The texts of runs, one after another.
pub open spec fn runs_text(runs: Seq<PaintedView>) -> Seq<char>
    decreases runs.len(),
{
    if runs.len() == 0 {
        Seq::empty()
    } else {
        runs_text(runs.drop_last()) + runs.last().text
    }
}

pub proof fn lemma_runs_text_concat(a: Seq<PaintedView>, b: Seq<PaintedView>)
    ensures
        runs_text(a + b) == runs_text(a) + runs_text(b),
    decreases b.len(),
{
    if b.len() == 0 {
        assert(a + b =~= a);
    } else {
        assert((a + b).drop_last() =~= a + b.drop_last());
        lemma_runs_text_concat(a, b.drop_last());
    }
}

proof fn lemma_hint_runs_text(hint: (Seq<char>, Seq<char>))
    ensures
        runs_text(hint_runs(hint)) == hint_text(hint),
{
    let runs = hint_runs(hint);
    let nothing = Seq::<PaintedView>::empty();
    assert(runs_text(nothing) =~= Seq::<char>::empty());
    if hint.1.len() == 0 {
        assert(runs.drop_last() =~= nothing);
        assert(runs_text(runs) =~= hint.0);
    } else {
        let two = runs.drop_last();
        assert(two.drop_last() =~= seq![plain(hint.0, Role::Accent)]);
        assert(two.drop_last().drop_last() =~= nothing);
        assert(two.last().text == " "@);
        assert(runs.last().text == hint.1);
        assert(runs_text(two.drop_last()) =~= hint.0);
        assert(runs_text(two) =~= hint.0 + " "@);
    }
}

proof fn lemma_hints_runs_text(hints: Seq<(Seq<char>, Seq<char>)>)
    ensures
        runs_text(hints_runs(hints)) == joined(
            hints.map_values(|hint: (Seq<char>, Seq<char>)| hint_text(hint)),
            SEPARATOR@,
        ),
    decreases hints.len(),
{
    let texts = hints.map_values(|hint: (Seq<char>, Seq<char>)| hint_text(hint));
    if hints.len() == 1 {
        lemma_hint_runs_text(hints[0]);
    } else if hints.len() > 1 {
        let rest = hints.drop_last();
        lemma_hints_runs_text(rest);
        lemma_hint_runs_text(hints.last());
        let separated = hints_runs(rest).push(plain(SEPARATOR@, Role::Dim));
        assert(separated.drop_last() =~= hints_runs(rest));
        lemma_runs_text_concat(separated, hint_runs(hints.last()));
        assert(texts.drop_last() =~= rest.map_values(
            |hint: (Seq<char>, Seq<char>)| hint_text(hint),
        ));
    }
}

/// What the footer paints reads exactly as the text it renders to.
pub proof fn law_the_painted_footer_reads_as_the_rendered_one(
    line: (Seq<(Seq<char>, Seq<char>)>, bool),
)
    ensures
        runs_text(footer_runs(line)) == footer_text(line),
{
    lemma_hints_runs_text(line.0);
    if line.1 {
        assert(footer_runs(line).drop_last() =~= hints_runs(line.0));
    } else {
        assert(footer_text(line) =~= joined(
            line.0.map_values(|hint: (Seq<char>, Seq<char>)| hint_text(hint)),
            SEPARATOR@,
        ));
    }
}

proof fn lemma_a_row_binds_its_action(rows: Seq<Binding>, i: int)
    requires
        0 <= i < rows.len(),
    ensures
        is_bound(rows, rows[i].context, rows[i].action),
    decreases rows.len(),
{
    if !(rows[0].context == rows[i].context && rows[0].action == rows[i].action) {
        lemma_a_row_binds_its_action(rows.drop_first(), i - 1);
    }
}

/// Over the default map every context that has a footer has one: each action a footer names has
/// a chord.
pub proof fn law_the_default_map_has_every_footer(context: Context)
    requires
        context == Context::List || context == Context::Detail || context == Context::Confirm,
    ensures
        has_footer(default_rows(), context),
{
    let rows = default_rows();
    assert(rows[0] == global_rows()[0]);
    assert(rows[2] == global_rows()[2]);
    assert(rows[3] == global_rows()[3]);
    assert(rows[5] == global_rows()[5]);
    assert(rows[6] == global_rows()[6]);
    assert(rows[28] == list_rows()[0]);
    assert(rows[30] == list_rows()[2]);
    assert(rows[38] == list_rows()[10]);
    assert(rows[43] == list_rows()[15]);
    assert(rows[47] == detail_rows()[0]);
    assert(rows[49] == detail_rows()[2]);
    assert(rows[91] == confirm_rows()[0]);
    assert(rows[92] == confirm_rows()[1]);
    lemma_a_row_binds_its_action(rows, 0);
    lemma_a_row_binds_its_action(rows, 2);
    lemma_a_row_binds_its_action(rows, 3);
    lemma_a_row_binds_its_action(rows, 5);
    lemma_a_row_binds_its_action(rows, 6);
    lemma_a_row_binds_its_action(rows, 28);
    lemma_a_row_binds_its_action(rows, 30);
    lemma_a_row_binds_its_action(rows, 38);
    lemma_a_row_binds_its_action(rows, 43);
    lemma_a_row_binds_its_action(rows, 47);
    lemma_a_row_binds_its_action(rows, 49);
    lemma_a_row_binds_its_action(rows, 91);
    lemma_a_row_binds_its_action(rows, 92);
}

proof fn lemma_items_stay_built(items: Seq<ItemView>)
    ensures
        forall|i: int| 0 <= i < built_items(items).len() ==> (#[trigger] built_items(items)[i]).built,
    decreases items.len(),
{
    if items.len() > 0 {
        lemma_items_stay_built(items.drop_last());
    }
}

/// At no width does a footer show a hint whose action is not built: every hint shown is that of
/// a built item.
pub proof fn law_a_footer_never_advertises_an_unbuilt_binding(
    rows: Seq<Binding>,
    context: Context,
    width: nat,
    at: int,
)
    requires
        0 <= at < footer_shows(rows, context, width).0.len(),
    ensures
        exists|i: int|
            0 <= i < built_items(footer_items(rows, context)).len() && (
            #[trigger] built_items(footer_items(rows, context))[i]).built && built_items(
                footer_items(rows, context),
            )[i].hint == footer_shows(rows, context, width).0[at],
{
    let items = built_items(footer_items(rows, context));
    lemma_items_stay_built(footer_items(rows, context));
    let kept = selection(ladder(items), width, SEPARATOR@, ELLIPSIS@).0;
    let floor = degrade::first_fitting(ladder(items), 1, width, SEPARATOR@, ELLIPSIS@);
    degrade::lemma_surviving(ladder(items), 0);
    degrade::lemma_surviving(ladder(items), floor);
    degrade::lemma_surviving(ladder(items), 256);
    let i = kept[at];
    assert(0 <= i < ladder(items).len());
    assert(items[i].hint == footer_shows(rows, context, width).0[at]);
}

proof fn lemma_kept_in_range(items: Seq<ItemView>, width: nat)
    ensures
        ({
            let kept = selection(ladder(items), width, SEPARATOR@, ELLIPSIS@).0;
            forall|k: int| 0 <= k < kept.len() ==> 0 <= #[trigger] kept[k] < items.len()
        }),
{
    let floor = degrade::first_fitting(ladder(items), 1, width, SEPARATOR@, ELLIPSIS@);
    degrade::lemma_surviving(ladder(items), 0);
    degrade::lemma_surviving(ladder(items), floor);
    degrade::lemma_surviving(ladder(items), 256);
}

/// The footer is never wider than the width it was given, ellipsis and all, whatever it is bound
/// to.
pub proof fn law_the_footer_never_overruns_its_width(
    rows: Seq<Binding>,
    context: Context,
    width: nat,
)
    ensures
        footer_text(footer_shows(rows, context, width)).len() <= width,
{
    let items = built_items(footer_items(rows, context));
    let selected = selection(ladder(items), width, SEPARATOR@, ELLIPSIS@);
    lemma_kept_in_range(items, width);
    degrade::law_a_line_never_overruns_its_width(ladder(items), width, SEPARATOR@, ELLIPSIS@);
    assert(footer_shows(rows, context, width).0.map_values(
        |hint: (Seq<char>, Seq<char>)| hint_text(hint),
    ) =~= degrade::texts_at(ladder(items), selected.0));
}

proof fn lemma_built_items(items: Seq<ItemView>)
    ensures
        forall|i: int|
            0 <= i < built_items(items).len() ==> items.contains(#[trigger] built_items(items)[i]),
        forall|i: int|
            0 <= i < items.len() && (#[trigger] items[i]).built ==> built_items(items).contains(
                items[i],
            ),
    decreases items.len(),
{
    if items.len() > 0 {
        let rest = items.drop_last();
        lemma_built_items(rest);
        let now = built_items(items);
        assert forall|i: int| 0 <= i < now.len() implies items.contains(#[trigger] now[i]) by {
            if i < built_items(rest).len() {
                let k = choose|k: int| 0 <= k < rest.len() && rest[k] == built_items(rest)[i];
                assert(items[k] == now[i]);
            } else {
                assert(items[items.len() - 1] == now[i]);
            }
        }
        assert forall|i: int| 0 <= i < items.len() && (#[trigger] items[i]).built implies now.contains(
            items[i],
        ) by {
            if i < rest.len() {
                assert(rest[i] == items[i]);
                let k = choose|k: int|
                    0 <= k < built_items(rest).len() && built_items(rest)[k] == rest[i];
                assert(now[k] == items[i]);
            } else {
                assert(now[now.len() - 1] == items[i]);
            }
        }
    }
}

/// Where one hint is shown, so is every built hint of its rank.
proof fn lemma_a_rank_is_shown_whole(
    items: Seq<ItemView>,
    width: nat,
    label: Seq<char>,
    priority: Priority,
    other: ItemView,
)
    requires
        forall|i: int|
            0 <= i < items.len() && (#[trigger] items[i]).hint.1 == label ==> items[i].priority
                == priority,
        items.contains(other),
        other.priority == priority,
        exists|k: int|
            0 <= k < budgeted(items, width).0.len() && (#[trigger] budgeted(items, width).0[k]).1
                == label,
    ensures
        budgeted(items, width).0.contains(other.hint),
{
    let shown = budgeted(items, width).0;
    let kept = selection(ladder(items), width, SEPARATOR@, ELLIPSIS@).0;
    lemma_kept_in_range(items, width);
    let k = choose|k: int| 0 <= k < shown.len() && (#[trigger] shown[k]).1 == label;
    let at = kept[k];
    assert(items[at].hint == shown[k]);
    let j = choose|j: int| 0 <= j < items.len() && items[j] == other;
    assert(ladder(items)[at].1 == ladder(items)[j].1);
    degrade::law_a_shared_rank_drops_together(
        ladder(items),
        width,
        SEPARATOR@,
        ELLIPSIS@,
        at,
        j,
    );
    assert(kept.contains(at));
    let m = choose|m: int| 0 <= m < kept.len() && kept[m] == j;
    assert(shown[m] == other.hint);
}

/// The labels of a footer's hints are told apart by their own text.
proof fn lemma_labels()
    ensures
        "launcher"@ != "action"@,
        "launcher"@ != "move"@,
        "launcher"@ != "select"@,
        "launcher"@ != "detail"@,
        "launcher"@ != "filter"@,
        "launcher"@ != "refresh"@,
        "launcher"@ != "help"@,
        "launcher"@ != "scroll"@,
        "action"@ != "move"@,
        "action"@ != "select"@,
        "action"@ != "detail"@,
        "action"@ != "filter"@,
        "action"@ != "refresh"@,
        "action"@ != "help"@,
        "action"@ != "scroll"@,
{
    reveal_strlit("launcher");
    reveal_strlit("action");
    reveal_strlit("move");
    reveal_strlit("select");
    reveal_strlit("detail");
    reveal_strlit("filter");
    reveal_strlit("refresh");
    reveal_strlit("help");
    reveal_strlit("scroll");
    assert("action"@[0] == 'a');
    assert("launcher"@.len() == 8);
    assert("select"@[0] == 's');
    assert("detail"@[0] == 'd');
    assert("filter"@[0] == 'f');
    assert("scroll"@[0] == 's');
}

/// A hint labelled `label` stands among those shown.
pub open spec fn shows_label(shown: Seq<(Seq<char>, Seq<char>)>, label: Seq<char>) -> bool {
    exists|k: int| 0 <= k < shown.len() && (#[trigger] shown[k]).1 == label
}

/// The launcher and the action hint are shown together or not at all, at any width: neither key
/// vanishes while the other stays, as long as both are built.
pub proof fn law_the_launcher_and_action_hints_are_shown_together(
    rows: Seq<Binding>,
    context: Context,
    width: nat,
)
    requires
        context == Context::List || context == Context::Detail,
        first_row(rows, Context::Global, Action::OpenLauncher)->0.built,
        first_row(rows, Context::Global, Action::OpenActionPalette)->0.built,
    ensures
        ({
            let shown = footer_shows(rows, context, width).0;
            shows_label(shown, "launcher"@) <==> shows_label(shown, "action"@)
        }),
{
    let all = footer_items(rows, context);
    let items = built_items(all);
    let shown = footer_shows(rows, context, width).0;
    let rank = if context == Context::List {
        Priority::Drop(6)
    } else {
        Priority::Drop(4)
    };
    let launcher = hint_of(rows, Context::Global, Action::OpenLauncher, "launcher"@, rank);
    let action = hint_of(rows, Context::Global, Action::OpenActionPalette, "action"@, rank);
    lemma_labels();
    lemma_built_items(all);
    if context == Context::List {
        assert(all[4] == launcher);
        assert(all[5] == action);
    } else {
        assert(all[2] == launcher);
        assert(all[3] == action);
    }
    assert(items.contains(launcher));
    assert(items.contains(action));
    assert forall|i: int|
        0 <= i < items.len() && (#[trigger] items[i]).hint.1 == "launcher"@ implies items[i].priority
        == rank by {
        let k = choose|k: int| 0 <= k < all.len() && all[k] == items[i];
        assert(all[k].hint.1 == "launcher"@);
    }
    assert forall|i: int|
        0 <= i < items.len() && (#[trigger] items[i]).hint.1 == "action"@ implies items[i].priority
        == rank by {
        let k = choose|k: int| 0 <= k < all.len() && all[k] == items[i];
        assert(all[k].hint.1 == "action"@);
    }
    if shows_label(shown, "launcher"@) {
        lemma_a_rank_is_shown_whole(items, width, "launcher"@, rank, action);
        let m = choose|m: int| 0 <= m < shown.len() && shown[m] == action.hint;
        assert(shown[m].1 == "action"@);
    }
    if shows_label(shown, "action"@) {
        lemma_a_rank_is_shown_whole(items, width, "action"@, rank, launcher);
        let m = choose|m: int| 0 <= m < shown.len() && shown[m] == launcher.hint;
        assert(shown[m].1 == "launcher"@);
    }
}


/// A footer hint's own label and rank, by its place, and the action or actions it names.
pub open spec fn names_action(
    rows: Seq<Binding>,
    item: ItemView,
    context: Context,
    action: Action,
    label: Seq<char>,
    priority: Priority,
) -> bool {
    &&& first_row(rows, context, action) matches Some(row) ==> item.hint.0 == chord_text(
        row.code,
        row.modifiers,
    ) && item.built == row.built
    &&& item.hint.1 == label
    &&& item.priority == priority
}

/// Two actions in one hint, their chords around a slash.
pub open spec fn names_both(
    rows: Seq<Binding>,
    item: ItemView,
    context: Context,
    first: Action,
    second: Action,
    label: Seq<char>,
    priority: Priority,
) -> bool {
    &&& first_row(rows, context, first) matches Some(one) ==> (first_row(
        rows,
        context,
        second,
    ) matches Some(other) ==> item.hint.0 == chord_text(one.code, one.modifiers) + "/"@
        + chord_text(other.code, other.modifiers) && item.built == (one.built && other.built))
    &&& item.hint.1 == label
    &&& item.priority == priority
}

/// What each footer names, in order, and when each hint gives way: in the list refresh first, then
/// movement, detail, filter, selection, the launcher and action pair together, and help never; the
/// detail pane's is the same without the hints it has no use for; a confirmation gives way to
/// nothing.
pub proof fn law_what_each_footer_names(rows: Seq<Binding>)
    ensures
        ({
            let list = footer_items(rows, Context::List);
            &&& list.len() == 8
            &&& names_both(
                rows,
                list[0],
                Context::List,
                Action::MoveDown,
                Action::MoveUp,
                "move"@,
                Priority::Drop(2),
            )
            &&& names_action(
                rows,
                list[1],
                Context::List,
                Action::ToggleSelection,
                "select"@,
                Priority::Drop(5),
            )
            &&& names_action(
                rows,
                list[2],
                Context::List,
                Action::OpenDetail,
                "detail"@,
                Priority::Drop(3),
            )
            &&& names_action(
                rows,
                list[3],
                Context::Global,
                Action::EnterFilter,
                "filter"@,
                Priority::Drop(4),
            )
            &&& names_action(
                rows,
                list[4],
                Context::Global,
                Action::OpenLauncher,
                "launcher"@,
                Priority::Drop(6),
            )
            &&& names_action(
                rows,
                list[5],
                Context::Global,
                Action::OpenActionPalette,
                "action"@,
                Priority::Drop(6),
            )
            &&& names_action(
                rows,
                list[6],
                Context::Global,
                Action::RefreshAll,
                "refresh"@,
                Priority::Drop(1),
            )
            &&& names_action(
                rows,
                list[7],
                Context::Global,
                Action::OpenHelp,
                "help"@,
                Priority::Pinned,
            )
        }),
        ({
            let list = footer_items(rows, Context::List);
            let detail = footer_items(rows, Context::Detail);
            &&& detail.len() == 6
            &&& names_both(
                rows,
                detail[0],
                Context::Detail,
                Action::ScrollDown,
                Action::ScrollUp,
                "scroll"@,
                Priority::Drop(2),
            )
            &&& forall|i: int|
                1 <= i < 6 ==> (#[trigger] detail[i]).hint == list[i + 2].hint && detail[i].built
                    == list[i + 2].built
            &&& detail[1].priority == Priority::Drop(3)
            &&& detail[2].priority == Priority::Drop(4)
            &&& detail[3].priority == Priority::Drop(4)
            &&& detail[4].priority == Priority::Drop(1)
            &&& detail[5].priority == Priority::Pinned
        }),
        ({
            let confirm = footer_items(rows, Context::Confirm);
            &&& confirm.len() == 2
            &&& names_action(
                rows,
                confirm[0],
                Context::Confirm,
                Action::Run,
                "run"@,
                Priority::Pinned,
            )
            &&& names_action(
                rows,
                confirm[1],
                Context::Confirm,
                Action::Decline,
                "cancel"@,
                Priority::Pinned,
            )
        }),
{
    let list = footer_items(rows, Context::List);
    let detail = footer_items(rows, Context::Detail);
    assert(detail[1].hint == list[3].hint && detail[2].hint == list[4].hint && detail[3].hint
        == list[5].hint && detail[4].hint == list[6].hint && detail[5].hint == list[7].hint);
    assert(detail[1].built == list[3].built && detail[2].built == list[4].built && detail[3].built
        == list[5].built && detail[4].built == list[6].built && detail[5].built == list[7].built);
}

/// A footer can be drawn exactly where its context has one and every action it names has a chord.
pub proof fn law_a_footer_is_drawable_where_its_actions_are_bound(rows: Seq<Binding>)
    ensures
        has_footer(rows, Context::List) <==> first_row(
            rows,
            Context::List,
            Action::MoveDown,
        ) is Some && first_row(rows, Context::List, Action::MoveUp) is Some && first_row(
            rows,
            Context::List,
            Action::ToggleSelection,
        ) is Some && first_row(rows, Context::List, Action::OpenDetail) is Some && first_row(
            rows,
            Context::Global,
            Action::EnterFilter,
        ) is Some && first_row(rows, Context::Global, Action::OpenLauncher) is Some && first_row(
            rows,
            Context::Global,
            Action::OpenActionPalette,
        ) is Some && first_row(rows, Context::Global, Action::RefreshAll) is Some && first_row(
            rows,
            Context::Global,
            Action::OpenHelp,
        ) is Some,
        has_footer(rows, Context::Detail) <==> first_row(
            rows,
            Context::Detail,
            Action::ScrollDown,
        ) is Some && first_row(rows, Context::Detail, Action::ScrollUp) is Some && first_row(
            rows,
            Context::Global,
            Action::EnterFilter,
        ) is Some && first_row(rows, Context::Global, Action::OpenLauncher) is Some && first_row(
            rows,
            Context::Global,
            Action::OpenActionPalette,
        ) is Some && first_row(rows, Context::Global, Action::RefreshAll) is Some && first_row(
            rows,
            Context::Global,
            Action::OpenHelp,
        ) is Some,
        has_footer(rows, Context::Confirm) <==> first_row(
            rows,
            Context::Confirm,
            Action::Run,
        ) is Some && first_row(rows, Context::Confirm, Action::Decline) is Some,
{
}

/// What a footer shows are its built hints that the width rule keeps, in order, one text each, and
/// whether the rule left any out.
pub proof fn law_a_footer_shows_the_built_hints_that_fit(
    rows: Seq<Binding>,
    context: Context,
    width: nat,
)
    ensures
        ({
            let items = built_items(footer_items(rows, context));
            let texts = items.map_values(
                |item: ItemView| (hint_text(item.hint), item.priority),
            );
            let (kept, truncated) = selection(texts, width, SEPARATOR@, " ..."@);
            let shown = footer_shows(rows, context, width);
            &&& shown.0.len() == kept.len()
            &&& forall|k: int| 0 <= k < kept.len() ==> shown.0[k] == items[#[trigger] kept[k]].hint
            &&& shown.1 == truncated
        }),
{
}

/// Only built items are left, all of them, in order.
pub proof fn law_only_unbuilt_items_are_left_out(items: Seq<ItemView>)
    ensures
        built_items(items) == items.filter(|item: ItemView| item.built),
    decreases items.len(),
{
    reveal(Seq::filter);
    if items.len() > 0 {
        law_only_unbuilt_items_are_left_out(items.drop_last());
    }
    assert(built_items(items) =~= items.filter(|item: ItemView| item.built));
}

/// A hint is its key in `accent` and, where it has one, its label behind a space in `dim`.
pub proof fn law_a_hint_is_its_key_and_its_label(key: Seq<char>, label: Seq<char>)
    ensures
        label.len() == 0 ==> hint_text((key, label)) == key && hint_runs((key, label)) == seq![
            plain(key, Role::Accent),
        ],
        label.len() > 0 ==> hint_text((key, label)) == key + " "@ + label && hint_runs((key, label))
            == seq![plain(key, Role::Accent), plain(" "@, Role::Dim), plain(label, Role::Dim)],
{
}

/// One more hint is painted behind the others with a separator in `dim` between, and an ellipsis
/// behind them all where some are left out.
pub proof fn law_hints_are_painted_between_separators(
    hints: Seq<(Seq<char>, Seq<char>)>,
    hint: (Seq<char>, Seq<char>),
)
    ensures
        footer_runs((seq![hint], false)) == hint_runs(hint),
        hints.len() > 0 ==> footer_runs((hints.push(hint), false)) == footer_runs((hints, false))
            + seq![plain(SEPARATOR@, Role::Dim)] + hint_runs(hint),
        footer_runs((hints, true)) == footer_runs((hints, false)) + seq![plain(" ..."@, Role::Dim)],
{
    if hints.len() > 0 {
        assert(hints.push(hint).drop_last() =~= hints);
        assert(footer_runs((hints.push(hint), false)) =~= footer_runs((hints, false)) + seq![
            plain(SEPARATOR@, Role::Dim),
        ] + hint_runs(hint));
    }
    assert(footer_runs((hints, true)) =~= footer_runs((hints, false)) + seq![
        plain(" ..."@, Role::Dim),
    ]);
}

/// What stands between two hints, and behind them where some are left out.
pub proof fn law_the_words_between_hints()
    ensures
        SEPARATOR@ == "  "@,
        ELLIPSIS@ == " ..."@,
{
}

} // verus!
