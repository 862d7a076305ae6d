//! What a surface paints: runs of text, each in one role, laid out one after another.

use vstd::prelude::*;

verus! {

/// What a colour stands for. A theme gives each of these a style; no surface names a colour.
#[derive(Clone, Copy, Debug, PartialEq, Eq, Structural)]
pub enum Role {
    Text,
    Dim,
    Accent,
    Okay,
    Warn,
    Danger,
    Behind,
    Border,
    BorderFocused,
}

impl Role {
    /// Every role, in order.
    pub open spec fn all_spec() -> Seq<Role> {
        seq![
            Role::Text,
            Role::Dim,
            Role::Accent,
            Role::Okay,
            Role::Warn,
            Role::Danger,
            Role::Behind,
            Role::Border,
            Role::BorderFocused,
        ]
    }

    /// Every role, in order.
    pub fn all() -> (roles: Vec<Role>)
        ensures
            roles@ == Role::all_spec(),
    {
        vec![
            Role::Text,
            Role::Dim,
            Role::Accent,
            Role::Okay,
            Role::Warn,
            Role::Danger,
            Role::Behind,
            Role::Border,
            Role::BorderFocused,
        ]
    }
}

/// Text in one style, painted where the run before it ended.
#[derive(Clone, Debug, PartialEq, Eq)]
pub struct Painted {
    pub text: String,
    pub role: Role,
    pub bold: bool,
}

/// A [`Painted`] run as plain values.
pub struct PaintedView {
    pub text: Seq<char>,
    pub role: Role,
    pub bold: bool,
}

impl View for Painted {
    type V = PaintedView;

    open spec fn view(&self) -> PaintedView {
        PaintedView { text: self.text@, role: self.role, bold: self.bold }
    }
}

/// The runs as plain values.
pub open spec fn painted_view(runs: Seq<Painted>) -> Seq<PaintedView> {
    runs.map_values(|run: Painted| run@)
}

/// A run of ordinary weight.
pub open spec fn plain(text: Seq<char>, role: Role) -> PaintedView {
    PaintedView { text, role, bold: false }
}

/// Adds a run of ordinary weight behind `runs`.
pub fn push_plain(runs: &mut Vec<Painted>, text: &str, role: Role)
    ensures
        painted_view(final(runs)@) == painted_view(old(runs)@).push(plain(text@, role)),
{
    let run = Painted { text: text.to_owned(), role, bold: false };
    let ghost before = runs@;
    runs.push(run);
    proof {
        assert(painted_view(runs@) =~= painted_view(before).push(run@));
    }
}

/// Runs painted along one row, from the cell at `x` on.
#[derive(Clone, Debug, PartialEq, Eq)]
pub struct PlacedRow {
    pub x: u16,
    pub y: u16,
    pub runs: Vec<Painted>,
}

/// A [`PlacedRow`] as plain values.
pub struct PlacedRowView {
    pub x: u16,
    pub y: u16,
    pub runs: Seq<PaintedView>,
}

impl View for PlacedRow {
    type V = PlacedRowView;

    open spec fn view(&self) -> PlacedRowView {
        PlacedRowView { x: self.x, y: self.y, runs: painted_view(self.runs@) }
    }
}

/// The rows as plain values.
pub open spec fn rows_view(rows: Seq<PlacedRow>) -> Seq<PlacedRowView> {
    rows.map_values(|row: PlacedRow| row@)
}

/// Adds a row behind `rows`.
pub fn push_row(rows: &mut Vec<PlacedRow>, x: u16, y: u16, runs: Vec<Painted>)
    ensures
        rows_view(final(rows)@) == rows_view(old(rows)@).push(
            PlacedRowView { x, y, runs: painted_view(runs@) },
        ),
{
    let row = PlacedRow { x, y, runs };
    let ghost before = rows@;
    rows.push(row);
    proof {
        assert(rows_view(rows@) =~= rows_view(before).push(row@));
    }
}

/// One run of ordinary weight.
pub fn one_run(text: &str, role: Role) -> (runs: Vec<Painted>)
    ensures
        painted_view(runs@) == seq![plain(text@, role)],
{
    let mut runs: Vec<Painted> = Vec::new();
    proof {
        assert(painted_view(runs@) =~= Seq::<PaintedView>::empty());
    }
    push_plain(&mut runs, text, role);
    runs
}

/// An area of the screen, in cells.
#[derive(Clone, Copy, Debug, PartialEq, Eq, Structural)]
pub struct Rect {
    pub x: u16,
    pub y: u16,
    pub width: u16,
    pub height: u16,
}

/// The smaller of two columns or rows.
pub open spec fn at_most(value: int, limit: int) -> int {
    if value < limit {
        value
    } else {
        limit
    }
}

/// `value`, and `floor` at least.
pub open spec fn at_least(value: int, floor: int) -> int {
    if value < floor {
        floor
    } else {
        value
    }
}

/// `value` less `amount`, never below zero.
pub open spec fn less(value: int, amount: int) -> int {
    if value < amount {
        0
    } else {
        value - amount
    }
}

/// The area inside a one-cell frame drawn into `area`.
pub open spec fn interior(area: Rect) -> Rect {
    let right = at_most(area.x + area.width, u16::MAX as int);
    let bottom = at_most(area.y + area.height, u16::MAX as int);
    Rect {
        x: at_most(at_most(area.x + 1, u16::MAX as int), right) as u16,
        y: at_most(at_most(area.y + 1, u16::MAX as int), bottom) as u16,
        width: less(area.width as int, 2) as u16,
        height: less(area.height as int, 2) as u16,
    }
}

/// `ratatui`'s `Block::inner` of a block with all four borders and nothing else: one cell goes
/// on every side, a width or height below two becomes zero, and the corner moves right and down
/// by one, never past the area's own far edge.
#[verifier::external_body]
pub(crate) fn block_inner(area: Rect) -> (inner: Rect)
    ensures
        inner == interior(area),
{
    let area = ratatui::layout::Rect {
        x: area.x,
        y: area.y,
        width: area.width,
        height: area.height,
    };
    let inner = ratatui::widgets::Block::bordered().inner(area);
    Rect { x: inner.x, y: inner.y, width: inner.width, height: inner.height }
}

/// The content area inside a frame drawn into `area`.
pub fn bordered_interior(area: Rect) -> (inner: Rect)
    ensures
        inner == interior(area),
{
    block_inner(area)
}

/// A frame's interior lies inside the area it is drawn into, and is empty exactly where the area
/// is under three cells wide or high.
pub proof fn law_the_interior_lies_inside_the_frame(area: Rect)
    requires
        area.x + area.width <= u16::MAX,
        area.y + area.height <= u16::MAX,
    ensures
        ({
            let inner = interior(area);
            &&& area.x <= inner.x
            &&& area.y <= inner.y
            &&& inner.x + inner.width <= area.x + area.width
            &&& inner.y + inner.height <= area.y + area.height
            &&& inner.width == 0 <==> area.width < 3
            &&& inner.height == 0 <==> area.height < 3
        }),
{
}

/// A frame takes one cell on each side: what is left starts one cell in and is two cells narrower
/// and lower, or empty where there is no room for it.
pub proof fn law_a_frame_takes_one_cell_on_each_side(area: Rect)
    requires
        area.x + area.width <= u16::MAX,
        area.y + area.height <= u16::MAX,
    ensures
        area.width >= 1 ==> interior(area).x == area.x + 1,
        area.width >= 2 ==> interior(area).width == area.width - 2,
        area.width < 2 ==> interior(area).width == 0,
        area.height >= 1 ==> interior(area).y == area.y + 1,
        area.height >= 2 ==> interior(area).height == area.height - 2,
        area.height < 2 ==> interior(area).height == 0,
{
}

/// Every role is listed, once, in the order it is declared in.
pub proof fn law_every_role_is_listed_once(role: Role)
    ensures
        Role::all_spec().contains(role),
        Role::all_spec().len() == 9,
        Role::all_spec()[0] == Role::Text,
        Role::all_spec()[1] == Role::Dim,
        Role::all_spec()[2] == Role::Accent,
        Role::all_spec()[3] == Role::Okay,
        Role::all_spec()[4] == Role::Warn,
        Role::all_spec()[5] == Role::Danger,
        Role::all_spec()[6] == Role::Behind,
        Role::all_spec()[7] == Role::Border,
        Role::all_spec()[8] == Role::BorderFocused,
{
    let all = Role::all_spec();
    assert(all[0] == Role::Text && all[1] == Role::Dim && all[2] == Role::Accent && all[3]
        == Role::Okay && all[4] == Role::Warn && all[5] == Role::Danger && all[6] == Role::Behind
        && all[7] == Role::Border && all[8] == Role::BorderFocused);
}

/// A plain run is its text in its role, not bold.
pub proof fn law_a_plain_run_is_not_bold(text: Seq<char>, role: Role)
    ensures
        plain(text, role).text == text,
        plain(text, role).role == role,
        !plain(text, role).bold,
{
}

/// The bounds on a column or row: the smaller of two, the larger of two, and a difference that
/// stops at zero.
pub proof fn law_columns_are_kept_in_bounds(value: nat, bound: nat)
    ensures
        value <= bound ==> at_most(value as int, bound as int) == value && at_least(
            value as int,
            bound as int,
        ) == bound && less(value as int, bound as int) == 0,
        value >= bound ==> at_most(value as int, bound as int) == bound && at_least(
            value as int,
            bound as int,
        ) == value && less(value as int, bound as int) + bound == value,
{
}

} // verus!
