//! The help overlay: generated from the same table as the footer, current context first then
//! `global`, then a glyph legend, scrolling, and searched by a typed query.

use vstd::prelude::*;

use crate::action::{Action, Context};
use crate::default_map::Binding;
use crate::glyphs::{GlyphSet, Meaning};
use crate::keys::{described, described_global, lines_view, BindingTable};
use crate::paint::{
    bordered_interior, interior, less, one_run, painted_view, plain, push_plain, push_row,
    rows_view, Painted, PaintedView, PlacedRow, PlacedRowView, Rect, Role,
};
use crate::scroll::{scroll_after, scrolled};
use crate::text::{
    all_ascii, contains, law_an_empty_query_matches_everything,
    law_the_case_of_a_query_does_not_matter, lower, lowered, matches_query, pad, padded,
    same_ignoring_case,
};

verus! {

broadcast use {vstd::string::group_string_axioms, vstd::seq_lib::group_seq_properties};

/// The title the overlay draws into its own top border.
pub const BORDER_TITLE: &'static str = " help (esc or q closes) ";

/// What the list says where a query matches nothing.
pub const NO_MATCHES_MESSAGE: &'static str = "no matches";

/// The `global` section's own heading.
pub const GLOBAL_HEADING: &'static str = "Global";

/// The legend section's own heading.
pub const LEGEND_HEADING: &'static str = "Glyphs";

/// What stands ahead of the typed query on its own line.
pub const QUERY_PROMPT: &'static str = "/ ";

/// What separates a line's two columns.
pub const COLUMN_GAP: &'static str = "  ";

/// `repon <version>`, what the bottom border carries.
pub fn version_title(version: &str) -> (title: String)
    ensures
        title@ == "repon "@ + version@,
{
    "repon ".to_owned().concat(version)
}

/// One line the overlay can show: a section heading, a blank row between two sections, a
/// keybinding row, or a legend row naming what one glyph means.
#[derive(Debug, Clone, PartialEq, Eq)]
pub enum HelpLine {
    Heading(&'static str),
    Blank,
    Binding { keys: String, description: &'static str },
    Legend { glyph: String, meaning: &'static str },
}

/// A [`HelpLine`] as plain text.
pub enum HelpLineView {
    Heading(Seq<char>),
    Blank,
    Binding { keys: Seq<char>, description: Seq<char> },
    Legend { glyph: Seq<char>, meaning: Seq<char> },
}

impl View for HelpLine {
    type V = HelpLineView;

    open spec fn view(&self) -> HelpLineView {
        match *self {
            HelpLine::Heading(text) => HelpLineView::Heading(text@),
            HelpLine::Blank => HelpLineView::Blank,
            HelpLine::Binding { keys, description } => HelpLineView::Binding {
                keys: keys@,
                description: description@,
            },
            HelpLine::Legend { glyph, meaning } => HelpLineView::Legend {
                glyph: glyph@,
                meaning: meaning@,
            },
        }
    }
}

/// The lines as plain text.
pub open spec fn help_view(lines: Seq<HelpLine>) -> Seq<HelpLineView> {
    lines.map_values(|line: HelpLine| line@)
}

/// The prose for one row-interior [`Meaning`].
pub open spec fn meaning_prose(meaning: Meaning) -> Seq<char> {
    match meaning {
        Meaning::Fresh => "Fresh (gutter)"@,
        Meaning::Stale => "Stale (gutter)"@,
        Meaning::Unknown => "Unknown (gutter)"@,
        Meaning::Failed => "Failed (gutter)"@,
        Meaning::Loading => "Loading (gutter, and a cell)"@,
        Meaning::InSync => "in sync"@,
        Meaning::Clean => "clean, a known zero"@,
        Meaning::NoUpstream => "no upstream, or no branch at all"@,
        Meaning::NoRemote => "no remote at all"@,
        Meaning::Ahead => "ahead by n"@,
        Meaning::Behind => "behind by n"@,
        Meaning::Changed => "n changed files"@,
        Meaning::ChildRow => "child row"@,
        Meaning::Checked => "checked (the Selection's own marker)"@,
        Meaning::Truncated => "truncated"@,
    }
}

/// The prose for one row-interior [`Meaning`].
pub fn meaning_text(meaning: Meaning) -> (text: &'static str)
    ensures
        text@ == meaning_prose(meaning),
{
    match meaning {
        Meaning::Fresh => "Fresh (gutter)",
        Meaning::Stale => "Stale (gutter)",
        Meaning::Unknown => "Unknown (gutter)",
        Meaning::Failed => "Failed (gutter)",
        Meaning::Loading => "Loading (gutter, and a cell)",
        Meaning::InSync => "in sync",
        Meaning::Clean => "clean, a known zero",
        Meaning::NoUpstream => "no upstream, or no branch at all",
        Meaning::NoRemote => "no remote at all",
        Meaning::Ahead => "ahead by n",
        Meaning::Behind => "behind by n",
        Meaning::Changed => "n changed files",
        Meaning::ChildRow => "child row",
        Meaning::Checked => "checked (the Selection's own marker)",
        Meaning::Truncated => "truncated",
    }
}

/// The current-context section's own heading.
pub open spec fn context_heading_text(context: Context) -> Seq<char> {
    match context {
        Context::Global => GLOBAL_HEADING@,
        Context::List => "List"@,
        Context::Detail => "Detail"@,
        Context::Input => "Input"@,
        Context::Overlay => "Overlay"@,
        Context::Confirm => "Confirm"@,
        Context::Sort => "Sort"@,
    }
}

/// The current-context section's own heading.
pub fn context_heading(context: Context) -> (heading: &'static str)
    ensures
        heading@ == context_heading_text(context),
{
    match context {
        Context::Global => GLOBAL_HEADING,
        Context::List => "List",
        Context::Detail => "Detail",
        Context::Input => "Input",
        Context::Overlay => "Overlay",
        Context::Confirm => "Confirm",
        Context::Sort => "Sort",
    }
}

/// Two-column rows as keybinding lines.
pub open spec fn as_bindings(rows: Seq<(Seq<char>, Seq<char>)>) -> Seq<HelpLineView> {
    rows.map_values(
        |row: (Seq<char>, Seq<char>)| HelpLineView::Binding { keys: row.0, description: row.1 },
    )
}

/// Two-column rows as legend lines.
pub open spec fn as_legend(rows: Seq<(Seq<char>, Seq<char>)>) -> Seq<HelpLineView> {
    rows.map_values(
        |row: (Seq<char>, Seq<char>)| HelpLineView::Legend { glyph: row.0, meaning: row.1 },
    )
}

fn bindings_to_lines(rows: Vec<(String, &'static str)>) -> (lines: Vec<HelpLine>)
    ensures
        help_view(lines@) == as_bindings(lines_view(rows@)),
{
    let mut lines: Vec<HelpLine> = Vec::new();
    let mut i: usize = 0;
    while i < rows.len()
        invariant
            i <= rows.len(),
            lines@.len() == i,
            forall|k: int|
                0 <= k < i ==> (#[trigger] lines@[k])@ == (HelpLineView::Binding {
                    keys: rows@[k].0@,
                    description: rows@[k].1@,
                }),
        decreases rows.len() - i,
    {
        lines.push(HelpLine::Binding { keys: rows[i].0.clone(), description: rows[i].1 });
        i = i + 1;
    }
    proof {
        assert(help_view(lines@) =~= as_bindings(lines_view(rows@)));
    }
    lines
}

fn legend_to_lines(rows: Vec<(String, &'static str)>) -> (lines: Vec<HelpLine>)
    ensures
        help_view(lines@) == as_legend(lines_view(rows@)),
{
    let mut lines: Vec<HelpLine> = Vec::new();
    let mut i: usize = 0;
    while i < rows.len()
        invariant
            i <= rows.len(),
            lines@.len() == i,
            forall|k: int|
                0 <= k < i ==> (#[trigger] lines@[k])@ == (HelpLineView::Legend {
                    glyph: rows@[k].0@,
                    meaning: rows@[k].1@,
                }),
        decreases rows.len() - i,
    {
        lines.push(HelpLine::Legend { glyph: rows[i].0.clone(), meaning: rows[i].1 });
        i = i + 1;
    }
    proof {
        assert(help_view(lines@) =~= as_legend(lines_view(rows@)));
    }
    lines
}

/// Whether a frame is drawn as a bordered panel or, where it is too small for a border and any
/// content, as flush content.
#[derive(Debug, Clone, Copy, PartialEq, Eq, Structural)]
pub enum HelpLayout {
    Bordered,
    Degraded,
}

impl HelpLayout {
    /// The shape a frame is drawn in: bordered from three cells each way on.
    pub open spec fn of(frame_area: Rect) -> HelpLayout {
        if frame_area.width < 3 || frame_area.height < 3 {
            HelpLayout::Degraded
        } else {
            HelpLayout::Bordered
        }
    }

    /// The area content lines go into.
    pub open spec fn area(self, frame_area: Rect) -> Rect {
        match self {
            HelpLayout::Bordered => interior(frame_area),
            HelpLayout::Degraded => frame_area,
        }
    }

    /// Decides between the two shapes from `frame_area` alone.
    pub fn compute(frame_area: Rect) -> (layout: HelpLayout)
        ensures
            layout == HelpLayout::of(frame_area),
    {
        if frame_area.width < 3 || frame_area.height < 3 {
            HelpLayout::Degraded
        } else {
            HelpLayout::Bordered
        }
    }

    /// The area content lines draw into: one cell inset from the border on every side, or the
    /// whole frame where there is no border.
    pub fn content_area(self, frame_area: Rect) -> (area: Rect)
        ensures
            area == self.area(frame_area),
    {
        match self {
            HelpLayout::Bordered => bordered_interior(frame_area),
            HelpLayout::Degraded => frame_area,
        }
    }
}

/// The characters that render `meaning`, in table order.
pub open spec fn glyphs_for(marks: Seq<(Meaning, char)>, meaning: Meaning) -> Seq<char>
    decreases marks.len(),
{
    if marks.len() == 0 {
        Seq::empty()
    } else {
        let earlier = glyphs_for(marks.drop_last(), meaning);
        if marks.last().0 == meaning {
            earlier.push(marks.last().1)
        } else {
            earlier
        }
    }
}

/// One legend row per meaning: its glyphs joined, and its prose.
pub open spec fn legend(marks: Seq<(Meaning, char)>) -> Seq<(Seq<char>, Seq<char>)> {
    Meaning::all_spec().map_values(
        |meaning: Meaning| (glyphs_for(marks, meaning), meaning_prose(meaning)),
    )
}

/// `lines` with a section behind them: its heading and content, a blank row ahead of the heading
/// where anything stands above it, and nothing at all where it has no content.
pub open spec fn with_section(
    lines: Seq<HelpLineView>,
    heading: Seq<char>,
    content: Seq<HelpLineView>,
) -> Seq<HelpLineView> {
    if content.len() == 0 {
        lines
    } else if lines.len() == 0 {
        seq![HelpLineView::Heading(heading)] + content
    } else {
        lines + seq![HelpLineView::Blank, HelpLineView::Heading(heading)] + content
    }
}

/// Three sections as one list of lines.
pub open spec fn assembled(
    own_heading: Seq<char>,
    own: Seq<HelpLineView>,
    global: Seq<HelpLineView>,
    glyphs: Seq<HelpLineView>,
) -> Seq<HelpLineView> {
    with_section(
        with_section(with_section(Seq::empty(), own_heading, own), GLOBAL_HEADING@, global),
        LEGEND_HEADING@,
        glyphs,
    )
}

/// The rows of which either column holds `query`, whatever the case of either.
pub open spec fn matching_rows(rows: Seq<(Seq<char>, Seq<char>)>, query: Seq<char>) -> Seq<
    (Seq<char>, Seq<char>),
>
    decreases rows.len(),
{
    if rows.len() == 0 {
        rows
    } else {
        let earlier = matching_rows(rows.drop_last(), query);
        let row = rows.last();
        if matches_query(row.0, query) || matches_query(row.1, query) {
            earlier.push(row)
        } else {
            earlier
        }
    }
}

/// The overlay's whole content, no query typed.
pub open spec fn help_lines(
    rows: Seq<Binding>,
    context: Context,
    marks: Seq<(Meaning, char)>,
) -> Seq<HelpLineView> {
    assembled(
        context_heading_text(context),
        as_bindings(described(rows, context)),
        as_bindings(described_global(rows, context)),
        as_legend(legend(marks)),
    )
}

/// The overlay's content narrowed to `query`.
pub open spec fn filtered_help(
    rows: Seq<Binding>,
    context: Context,
    marks: Seq<(Meaning, char)>,
    query: Seq<char>,
) -> Seq<HelpLineView> {
    assembled(
        context_heading_text(context),
        as_bindings(matching_rows(described(rows, context), query)),
        as_bindings(matching_rows(described_global(rows, context), query)),
        as_legend(matching_rows(legend(marks), query)),
    )
}

/// Whether either of two lowercase columns holds a lowercase query.
pub fn either_contains(first: &str, second: &str, query: &str) -> (found: bool)
    ensures
        found == (crate::text::contains_text(first@, query@) || crate::text::contains_text(
            second@,
            query@,
        )),
{
    contains(first, query) || contains(second, query)
}

fn keep_matching(rows: Vec<(String, &'static str)>, query: &str) -> (kept: Vec<
    (String, &'static str),
>)
    ensures
        lines_view(kept@) == matching_rows(lines_view(rows@), query@),
{
    let ghost all = lines_view(rows@);
    let wanted = lower(query);
    let mut kept: Vec<(String, &'static str)> = Vec::new();
    let mut i: usize = 0;
    proof {
        assert(lines_view(kept@) =~= Seq::<(Seq<char>, Seq<char>)>::empty());
    }
    while i < rows.len()
        invariant
            i <= rows.len(),
            all == lines_view(rows@),
            wanted@ == lowered(query@),
            lines_view(kept@) == matching_rows(all.take(i as int), query@),
        decreases rows.len() - i,
    {
        proof {
            assert(all.take(i + 1).drop_last() =~= all.take(i as int));
            assert(all.take(i + 1).last() == (rows@[i as int].0@, rows@[i as int].1@));
        }
        if either_contains(
            lower(rows[i].0.as_str()).as_str(),
            lower(rows[i].1).as_str(),
            wanted.as_str(),
        ) {
            let ghost before = kept@;
            let row = (rows[i].0.clone(), rows[i].1);
            kept.push(row);
            proof {
                assert(lines_view(kept@) =~= lines_view(before).push((row.0@, row.1@)));
            }
        }
        i = i + 1;
    }
    proof {
        assert(all.take(i as int) =~= all);
    }
    kept
}

fn push_section(lines: &mut Vec<HelpLine>, heading: &'static str, content: Vec<HelpLine>)
    ensures
        help_view(final(lines)@) == with_section(
            help_view(old(lines)@),
            heading@,
            help_view(content@),
        ),
{
    let mut content = content;
    let ghost above = lines@;
    let ghost below = content@;
    if content.len() == 0 {
        return ;
    }
    if lines.len() > 0 {
        lines.push(HelpLine::Blank);
    }
    lines.push(HelpLine::Heading(heading));
    lines.append(&mut content);
    proof {
        let heading_view = HelpLineView::Heading(heading@);
        if above.len() == 0 {
            assert(help_view(lines@) =~= seq![heading_view] + help_view(below));
        } else {
            assert(help_view(lines@) =~= help_view(above) + seq![HelpLineView::Blank, heading_view]
                + help_view(below));
        }
    }
}

/// The overlay's own two modes: reading is its resting shape, searching is `/`'s own.
#[derive(Debug, Clone, Copy, PartialEq, Eq, Structural)]
pub enum Mode {
    Reading,
    Searching,
}

/// The overlay's own scroll position, mode and query; everything else is derived fresh from the
/// binding table and the live glyph set.
#[derive(Debug, Clone, PartialEq, Eq)]
pub struct HelpOverlay {
    scroll: u16,
    query: String,
    mode: Mode,
}

/// Which end of a border's run a title stands at.
#[derive(Clone, Copy, Debug, PartialEq, Eq, Structural)]
pub enum Alignment {
    Left,
    Right,
}

/// A title written into a border's run.
#[derive(Debug, Clone, PartialEq, Eq)]
pub struct BorderTitle {
    pub text: String,
    pub alignment: Alignment,
}

/// The frame the overlay is drawn in: the area it goes round the inside of, the characters of its
/// eight parts, the role they take, and the titles in its top and its bottom run.
#[derive(Debug, Clone, PartialEq, Eq)]
pub struct HelpFrame {
    pub area: Rect,
    pub parts: [char; 8],
    pub role: Role,
    pub top: BorderTitle,
    pub bottom: BorderTitle,
}

/// What the overlay shows: the shape it is drawn in, the frame where it has one, the area its
/// content goes into, and the rows to paint there in order, each cut off at the area's right edge.
#[derive(Debug, Clone, PartialEq, Eq)]
pub struct HelpPlan {
    pub layout: HelpLayout,
    pub frame: Option<HelpFrame>,
    pub area: Rect,
    pub rows: Vec<PlacedRow>,
}

/// The first column of a line, or nothing for a heading or a blank.
pub open spec fn first_column(line: HelpLineView) -> Seq<char> {
    match line {
        HelpLineView::Binding { keys, .. } => keys,
        HelpLineView::Legend { glyph, .. } => glyph,
        HelpLineView::Heading(_) => Seq::empty(),
        HelpLineView::Blank => Seq::empty(),
    }
}

/// The width of the widest first column.
pub open spec fn gutter_width(lines: Seq<HelpLineView>) -> nat
    decreases lines.len(),
{
    if lines.len() == 0 {
        0
    } else {
        let earlier = gutter_width(lines.drop_last());
        let width = first_column(lines.last()).len();
        if width > earlier {
            width
        } else {
            earlier
        }
    }
}

/// The runs a two-column line paints: the first column in `accent`, padded to the gutter, the
/// second in `dim`.
pub open spec fn column_runs(first: Seq<char>, second: Seq<char>, gutter: nat) -> Seq<PaintedView> {
    seq![
        plain(padded(first, gutter as int), Role::Accent),
        plain(COLUMN_GAP@, Role::Dim),
        plain(second, Role::Dim),
    ]
}

/// The runs a line paints.
pub open spec fn line_runs(line: HelpLineView, gutter: nat) -> Seq<PaintedView> {
    match line {
        HelpLineView::Binding { keys, description } => column_runs(keys, description, gutter),
        HelpLineView::Legend { glyph, meaning } => column_runs(glyph, meaning, gutter),
        HelpLineView::Heading(text) => seq![
            PaintedView { text, role: Role::Accent, bold: true },
        ],
        HelpLineView::Blank => Seq::empty(),
    }
}

/// How many of `count` lines a list `height` rows high shows from `scroll` on.
pub open spec fn lines_shown(count: int, scroll: int, height: int) -> int {
    let left = less(count, scroll);
    if left < height {
        left
    } else {
        height
    }
}

/// The rows the list paints: the lines from `scroll` on, one to a row, as many as fit; or the
/// message that nothing matches.
pub open spec fn list_rows(
    visible: Seq<HelpLineView>,
    gutter: nat,
    scroll: int,
    area: Rect,
    height: int,
) -> Seq<PlacedRowView> {
    if visible.len() == 0 {
        seq![
            PlacedRowView {
                x: area.x,
                y: area.y,
                runs: seq![plain(NO_MATCHES_MESSAGE@, Role::Dim)],
            },
        ]
    } else {
        Seq::new(
            lines_shown(visible.len() as int, scroll, height) as nat,
            |row: int|
                PlacedRowView {
                    x: area.x,
                    y: (area.y + row) as u16,
                    runs: line_runs(visible[scroll + row], gutter),
                },
        )
    }
}

impl HelpOverlay {
    pub closed spec fn scroll_spec(&self) -> nat {
        self.scroll as nat
    }

    pub closed spec fn query_spec(&self) -> Seq<char> {
        self.query@
    }

    pub closed spec fn searching(&self) -> bool {
        self.mode == Mode::Searching
    }

    /// The query line is on screen.
    pub open spec fn query_line_shown(&self) -> bool {
        self.searching() || self.query_spec().len() > 0
    }

    /// How many rows the list has inside `frame_area`.
    pub open spec fn list_height(&self, frame_area: Rect) -> int {
        let height = HelpLayout::of(frame_area).area(frame_area).height as int;
        if self.query_line_shown() {
            less(height, 1)
        } else {
            height
        }
    }

    /// The rows the overlay paints inside `frame_area`: the list, then the query line where it is
    /// shown.
    pub open spec fn planned_rows(
        &self,
        frame_area: Rect,
        context: Context,
        rows: Seq<Binding>,
        marks: Seq<(Meaning, char)>,
    ) -> Seq<PlacedRowView> {
        let area = HelpLayout::of(frame_area).area(frame_area);
        let list = list_rows(
            filtered_help(rows, context, marks, self.query_spec()),
            gutter_width(help_lines(rows, context, marks)),
            self.scroll_spec() as int,
            area,
            self.list_height(frame_area),
        );
        if self.query_line_shown() {
            list.push(
                PlacedRowView {
                    x: area.x,
                    y: (area.y + self.list_height(frame_area)) as u16,
                    runs: seq![plain(QUERY_PROMPT@ + self.query_spec(), Role::Text)],
                },
            )
        } else {
            list
        }
    }

    /// A fresh overlay: reading, at the top, nothing typed.
    pub fn new() -> (overlay: Self)
        ensures
            overlay.scroll_spec() == 0,
            overlay.query_spec() == Seq::<char>::empty(),
            !overlay.searching(),
    {
        HelpOverlay { scroll: 0, query: String::new(), mode: Mode::Reading }
    }

    /// One line per action live in `context`, as `(keys, description)`, current context first
    /// then `global`.
    pub fn content(table: &BindingTable, context: Context) -> (lines: Vec<(String, &'static str)>)
        ensures
            lines_view(lines@) == described(table.rows(), context) + described_global(
                table.rows(),
                context,
            ),
    {
        table.describe(context)
    }

    fn glyph_text(marks: &Vec<(Meaning, char)>, meaning: Meaning) -> (text: String)
        ensures
            text@ == glyphs_for(marks@, meaning),
    {
        let mut text = String::new();
        let mut i: usize = 0;
        while i < marks.len()
            invariant
                i <= marks.len(),
                text@ == glyphs_for(marks@.take(i as int), meaning),
            decreases marks.len() - i,
        {
            proof {
                assert(marks@.take(i + 1).drop_last() =~= marks@.take(i as int));
            }
            if marks[i].0 == meaning {
                text.push(marks[i].1);
            }
            i = i + 1;
        }
        proof {
            assert(marks@.take(i as int) =~= marks@);
        }
        text
    }

    /// One row per row-interior [`Meaning`]: every glyph that renders it joined into one text,
    /// and its prose.
    pub fn legend_rows(glyphs: &GlyphSet) -> (rows: Vec<(String, &'static str)>)
        ensures
            lines_view(rows@) == legend(glyphs.interior()),
    {
        let marks = glyphs.row_interior();
        let meanings = Meaning::all();
        let mut rows: Vec<(String, &'static str)> = Vec::new();
        let mut i: usize = 0;
        while i < meanings.len()
            invariant
                i <= meanings.len(),
                meanings@ == Meaning::all_spec(),
                marks@ == glyphs.interior(),
                rows@.len() == i,
                forall|k: int|
                    0 <= k < i ==> (#[trigger] rows@[k]).0@ == glyphs_for(marks@, meanings@[k])
                        && rows@[k].1@ == meaning_prose(meanings@[k]),
            decreases meanings.len() - i,
        {
            rows.push((HelpOverlay::glyph_text(&marks, meanings[i]), meaning_text(meanings[i])));
            i = i + 1;
        }
        proof {
            assert(lines_view(rows@) =~= legend(glyphs.interior()));
        }
        rows
    }

    /// Three sections folded into one list: each section's own heading immediately followed by
    /// its content, a blank row above every heading but the first, and a section without content
    /// left out entirely.
    fn assemble_sections(
        own_heading: &'static str,
        own: Vec<HelpLine>,
        global: Vec<HelpLine>,
        glyphs: Vec<HelpLine>,
    ) -> (lines: Vec<HelpLine>)
        ensures
            help_view(lines@) == assembled(
                own_heading@,
                help_view(own@),
                help_view(global@),
                help_view(glyphs@),
            ),
    {
        let mut lines: Vec<HelpLine> = Vec::new();
        proof {
            assert(help_view(lines@) =~= Seq::<HelpLineView>::empty());
        }
        push_section(&mut lines, own_heading, own);
        push_section(&mut lines, GLOBAL_HEADING, global);
        push_section(&mut lines, LEGEND_HEADING, glyphs);
        lines
    }

    /// The overlay's full content with no query typed: `context`'s own bindings, the `global`
    /// bindings live alongside it, and one legend row per meaning.
    pub fn lines(table: &BindingTable, context: Context, glyphs: &GlyphSet) -> (lines: Vec<
        HelpLine,
    >)
        ensures
            help_view(lines@) == help_lines(table.rows(), context, glyphs.interior()),
    {
        HelpOverlay::assemble_sections(
            context_heading(context),
            bindings_to_lines(table.describe_own(context)),
            bindings_to_lines(table.describe_global(context)),
            legend_to_lines(HelpOverlay::legend_rows(glyphs)),
        )
    }

    /// [`Self::lines`] narrowed to `query`: a row matches on either of its columns, a
    /// case-insensitive substring. An empty query matches everything.
    pub fn filtered_lines(
        table: &BindingTable,
        context: Context,
        glyphs: &GlyphSet,
        query: &str,
    ) -> (lines: Vec<HelpLine>)
        ensures
            help_view(lines@) == filtered_help(
                table.rows(),
                context,
                glyphs.interior(),
                query@,
            ),
    {
        HelpOverlay::assemble_sections(
            context_heading(context),
            bindings_to_lines(keep_matching(table.describe_own(context), query)),
            bindings_to_lines(keep_matching(table.describe_global(context), query)),
            legend_to_lines(keep_matching(HelpOverlay::legend_rows(glyphs), query)),
        )
    }

    /// How many lines [`Self::filtered_lines`] has for `query`.
    pub fn visible_len(
        table: &BindingTable,
        context: Context,
        glyphs: &GlyphSet,
        query: &str,
    ) -> (count: usize)
        ensures
            count == filtered_help(table.rows(), context, glyphs.interior(), query@).len(),
    {
        let lines = HelpOverlay::filtered_lines(table, context, glyphs, query);
        proof {
            assert(help_view(lines@).len() == lines@.len());
        }
        lines.len()
    }

    /// Whether the query line has a row to draw into at all: while searching, or with a query
    /// still committed from an earlier search.
    pub fn shows_query_line(&self) -> (shown: bool)
        ensures
            shown == self.query_line_shown(),
    {
        self.mode == Mode::Searching || !self.query.as_str().is_empty()
    }

    /// The overlay's real interior height for `frame_area`, one row shorter only while the query
    /// line is shown.
    pub fn viewport_height(&self, frame_area: Rect) -> (height: u16)
        ensures
            height == self.list_height(frame_area),
    {
        let height: u16 = HelpLayout::compute(frame_area).content_area(frame_area).height;
        if self.shows_query_line() {
            height.saturating_sub(1)
        } else {
            height
        }
    }

    /// The query typed so far.
    pub fn query(&self) -> (query: &str)
        ensures
            query@ == self.query_spec(),
    {
        self.query.as_str()
    }

    /// How far the list is scrolled.
    pub fn scroll(&self) -> (scroll: u16)
        ensures
            scroll == self.scroll_spec(),
    {
        self.scroll
    }

    /// Whether the overlay is in search mode.
    pub fn is_searching(&self) -> (searching: bool)
        ensures
            searching == self.searching(),
    {
        self.mode == Mode::Searching
    }

    /// `/`: enters search mode without disturbing whatever query already exists.
    pub fn enter_search(&mut self)
        ensures
            final(self).searching(),
            final(self).query_spec() == old(self).query_spec(),
            final(self).scroll_spec() == old(self).scroll_spec(),
    {
        self.mode = Mode::Searching;
    }

    /// `Esc` from search mode: leaves it and clears the query.
    pub fn cancel_search(&mut self)
        ensures
            !final(self).searching(),
            final(self).query_spec() == Seq::<char>::empty(),
            final(self).scroll_spec() == 0,
    {
        self.mode = Mode::Reading;
        self.query = String::new();
        self.scroll = 0;
    }

    /// `Enter` from search mode: leaves it but keeps the query applied.
    pub fn commit_search(&mut self)
        ensures
            !final(self).searching(),
            final(self).query_spec() == old(self).query_spec(),
            final(self).scroll_spec() == old(self).scroll_spec(),
    {
        self.mode = Mode::Reading;
    }

    /// Appends one typed character to the query and snaps the scroll back to the top.
    pub fn push_query_char(&mut self, c: char)
        ensures
            final(self).searching() == old(self).searching(),
            final(self).query_spec() == old(self).query_spec().push(c),
            final(self).scroll_spec() == 0,
    {
        self.query.push(c);
        self.scroll = 0;
    }

    /// `Backspace`: drops the last character of the query. Inert on an empty one.
    pub fn pop_query_char(&mut self)
        ensures
            final(self).searching() == old(self).searching(),
            old(self).query_spec().len() == 0 ==> final(self).query_spec() == old(
                self,
            ).query_spec(),
            old(self).query_spec().len() > 0 ==> final(self).query_spec() == old(
                self,
            ).query_spec().drop_last(),
            final(self).scroll_spec() == 0,
    {
        let count: usize = self.query.as_str().unicode_len();
        if count > 0 {
            let kept = self.query.as_str().substring_char(0, count - 1).to_owned();
            self.query = kept;
        }
        self.scroll = 0;
    }

    /// Folds one of the overlay's own scroll actions into the current offset.
    pub fn apply(&mut self, action: Action, content_len: usize, viewport_height: u16)
        ensures
            final(self).searching() == old(self).searching(),
            final(self).query_spec() == old(self).query_spec(),
            final(self).scroll_spec() == scrolled(
                old(self).scroll_spec() as int,
                action,
                content_len as int,
                viewport_height as int,
            ),
    {
        self.scroll = scroll_after(self.scroll, action, content_len, viewport_height);
    }
}

fn width_of(line: &HelpLine) -> (width: usize)
    ensures
        width == first_column(line@).len(),
{
    match line {
        HelpLine::Binding { keys, .. } => keys.as_str().unicode_len(),
        HelpLine::Legend { glyph, .. } => glyph.as_str().unicode_len(),
        HelpLine::Heading(_) => 0,
        HelpLine::Blank => 0,
    }
}

fn widest(lines: &Vec<HelpLine>) -> (width: usize)
    ensures
        width == gutter_width(help_view(lines@)),
{
    let ghost all = help_view(lines@);
    let mut width: usize = 0;
    let mut i: usize = 0;
    while i < lines.len()
        invariant
            i <= lines.len(),
            all == help_view(lines@),
            width == gutter_width(all.take(i as int)),
        decreases lines.len() - i,
    {
        proof {
            assert(all.take(i + 1).drop_last() =~= all.take(i as int));
            assert(all.take(i + 1).last() == lines@[i as int]@);
        }
        let own: usize = width_of(&lines[i]);
        if own > width {
            width = own;
        }
        i = i + 1;
    }
    proof {
        assert(all.take(i as int) =~= all);
    }
    width
}

fn paint_columns(first: &str, second: &str, gutter: usize) -> (runs: Vec<Painted>)
    ensures
        painted_view(runs@) == column_runs(first@, second@, gutter as nat),
{
    let mut runs = one_run(pad(first, gutter).as_str(), Role::Accent);
    push_plain(&mut runs, COLUMN_GAP, Role::Dim);
    push_plain(&mut runs, second, Role::Dim);
    proof {
        assert(painted_view(runs@) =~= column_runs(first@, second@, gutter as nat));
    }
    runs
}

fn paint_line(line: &HelpLine, gutter: usize) -> (runs: Vec<Painted>)
    ensures
        painted_view(runs@) == line_runs(line@, gutter as nat),
{
    match line {
        HelpLine::Binding { keys, description } => paint_columns(
            keys.as_str(),
            description,
            gutter,
        ),
        HelpLine::Legend { glyph, meaning } => paint_columns(glyph.as_str(), meaning, gutter),
        HelpLine::Heading(text) => {
            let run = Painted { text: (*text).to_owned(), role: Role::Accent, bold: true };
            let runs: Vec<Painted> = vec![run];
            proof {
                assert(painted_view(runs@) =~= line_runs(line@, gutter as nat));
            }
            runs
        },
        HelpLine::Blank => {
            let runs: Vec<Painted> = Vec::new();
            proof {
                assert(painted_view(runs@) =~= Seq::<PaintedView>::empty());
            }
            runs
        },
    }
}

impl HelpOverlay {
    /// What the overlay paints into `frame_area`: the bordered panel or, where the frame is too
    /// small, flush content; the panel's border always in the focused role, the overlay's own title
    /// in its top run and the version, right-aligned, in its bottom one; the headings and rows
    /// above the query line, which takes the
    /// interior's own last row while it is shown. Each line's first column is padded to one
    /// width, taken from the whole unfiltered content so it never shifts as the query narrows
    /// the list.
    pub fn draw(
        &self,
        frame_area: Rect,
        context: Context,
        table: &BindingTable,
        glyphs: &GlyphSet,
        version: &str,
    ) -> (plan: HelpPlan)
        requires
            frame_area.y + frame_area.height <= u16::MAX,
        ensures
            plan.layout == HelpLayout::of(frame_area),
            plan.frame is Some <==> plan.layout == HelpLayout::Bordered,
            plan.frame matches Some(frame) ==> {
                &&& frame.area == frame_area
                &&& frame.parts@ == glyphs.border.parts_spec()
                &&& frame.role == Role::BorderFocused
                &&& frame.top.text@ == BORDER_TITLE@
                &&& frame.top.alignment == Alignment::Left
                &&& frame.bottom.text@ == "repon "@ + version@
                &&& frame.bottom.alignment == Alignment::Right
            },
            plan.area == HelpLayout::of(frame_area).area(frame_area),
            rows_view(plan.rows@) == self.planned_rows(
                frame_area,
                context,
                table.rows(),
                glyphs.interior(),
            ),
    {
        let layout = HelpLayout::compute(frame_area);
        let area = layout.content_area(frame_area);
        let height: u16 = self.viewport_height(frame_area);
        let visible = HelpOverlay::filtered_lines(table, context, glyphs, self.query.as_str());
        let ghost shown = help_view(visible@);
        let mut rows: Vec<PlacedRow> = Vec::new();
        proof {
            assert(rows_view(rows@) =~= Seq::<PlacedRowView>::empty());
        }
        let ghost gutter_spec = gutter_width(
            help_lines(table.rows(), context, glyphs.interior()),
        );
        if visible.len() == 0 {
            push_row(&mut rows, area.x, area.y, one_run(NO_MATCHES_MESSAGE, Role::Dim));
        } else {
            let gutter: usize = widest(&HelpOverlay::lines(table, context, glyphs));
            let start: usize = self.scroll as usize;
            let mut row: usize = 0;
            while row < height as usize && start + row < visible.len()
                invariant
                    start == self.scroll,
                    row <= height,
                    row == 0 || start + row <= visible.len(),
                    shown == help_view(visible@),
                    shown.len() > 0,
                    gutter == gutter_spec,
                    area.y + height <= u16::MAX,
                    rows_view(rows@) == list_rows(
                        shown,
                        gutter_spec,
                        start as int,
                        area,
                        row as int,
                    ),
                decreases height - row,
            {
                let ghost before = rows_view(rows@);
                push_row(&mut rows, area.x, area.y + row as u16, paint_line(&visible[start + row], gutter));
                proof {
                    assert(rows_view(rows@) =~= list_rows(
                        shown,
                        gutter_spec,
                        start as int,
                        area,
                        row + 1,
                    ));
                }
                row = row + 1;
            }
            proof {
                assert(rows_view(rows@) =~= list_rows(
                    shown,
                    gutter_spec,
                    start as int,
                    area,
                    height as int,
                ));
            }
        }
        if self.shows_query_line() {
            let line = QUERY_PROMPT.to_owned().concat(self.query.as_str());
            push_row(&mut rows, area.x, area.y + height, one_run(line.as_str(), Role::Text));
        }
        let frame = match layout {
            HelpLayout::Bordered => Some(
                HelpFrame {
                    area: frame_area,
                    parts: glyphs.border.parts(),
                    role: Role::BorderFocused,
                    top: BorderTitle {
                        text: BORDER_TITLE.to_owned(),
                        alignment: Alignment::Left,
                    },
                    bottom: BorderTitle {
                        text: version_title(version),
                        alignment: Alignment::Right,
                    },
                },
            ),
            HelpLayout::Degraded => None,
        };
        HelpPlan { layout, frame, area, rows }
    }
}

impl Default for HelpOverlay {
    fn default() -> (overlay: Self)
        ensures
            overlay.scroll_spec() == 0,
            overlay.query_spec() == Seq::<char>::empty(),
            !overlay.searching(),
    {
        HelpOverlay::new()
    }
}


proof fn lemma_an_empty_query_keeps_every_row(rows: Seq<(Seq<char>, Seq<char>)>)
    ensures
        matching_rows(rows, Seq::empty()) == rows,
    decreases rows.len(),
{
    if rows.len() > 0 {
        lemma_an_empty_query_keeps_every_row(rows.drop_last());
        law_an_empty_query_matches_everything(rows.last().0);
        assert(rows.drop_last().push(rows.last()) =~= rows);
    }
}

/// With nothing typed the overlay shows its whole content.
pub proof fn law_an_empty_query_shows_everything(
    rows: Seq<Binding>,
    context: Context,
    marks: Seq<(Meaning, char)>,
)
    ensures
        filtered_help(rows, context, marks, Seq::empty()) == help_lines(rows, context, marks),
{
    lemma_an_empty_query_keeps_every_row(described(rows, context));
    lemma_an_empty_query_keeps_every_row(described_global(rows, context));
    lemma_an_empty_query_keeps_every_row(legend(marks));
}

proof fn lemma_the_case_of_a_query_keeps_the_same_rows(
    rows: Seq<(Seq<char>, Seq<char>)>,
    query: Seq<char>,
    other: Seq<char>,
)
    requires
        all_ascii(query),
        same_ignoring_case(query, other),
    ensures
        matching_rows(rows, query) == matching_rows(rows, other),
    decreases rows.len(),
{
    if rows.len() > 0 {
        lemma_the_case_of_a_query_keeps_the_same_rows(rows.drop_last(), query, other);
        law_the_case_of_a_query_does_not_matter(rows.last().0, query, other);
        law_the_case_of_a_query_does_not_matter(rows.last().1, query, other);
    }
}

/// A query in ASCII letters keeps the same lines in whatever case it is typed.
pub proof fn law_the_case_of_a_query_keeps_the_same_lines(
    rows: Seq<Binding>,
    context: Context,
    marks: Seq<(Meaning, char)>,
    query: Seq<char>,
    other: Seq<char>,
)
    requires
        all_ascii(query),
        same_ignoring_case(query, other),
    ensures
        filtered_help(rows, context, marks, query) == filtered_help(rows, context, marks, other),
{
    lemma_the_case_of_a_query_keeps_the_same_rows(described(rows, context), query, other);
    lemma_the_case_of_a_query_keeps_the_same_rows(described_global(rows, context), query, other);
    lemma_the_case_of_a_query_keeps_the_same_rows(legend(marks), query, other);
}

/// A line of two columns.
pub open spec fn is_row(line: HelpLineView) -> bool {
    line is Binding || line is Legend
}

/// Every heading stands over a row of its own, a blank separates it from what is above it, and
/// nothing else is blank.
pub open spec fn well_sectioned(lines: Seq<HelpLineView>) -> bool {
    &&& lines.len() > 0 ==> lines[0] is Heading && is_row(lines.last())
    &&& forall|i: int|
        0 <= i < lines.len() && (#[trigger] lines[i]) is Heading ==> i + 1 < lines.len() && is_row(
            lines[i + 1],
        )
    &&& forall|i: int|
        0 < i < lines.len() && (#[trigger] lines[i]) is Heading ==> lines[i - 1] is Blank
    &&& forall|i: int|
        0 <= i < lines.len() && (#[trigger] lines[i]) is Blank ==> i + 1 < lines.len() && lines[i
            + 1] is Heading
}

#[verifier::rlimit(40)]
proof fn lemma_a_section_keeps_the_shape(
    lines: Seq<HelpLineView>,
    heading: Seq<char>,
    content: Seq<HelpLineView>,
)
    requires
        well_sectioned(lines),
        forall|i: int| 0 <= i < content.len() ==> is_row(#[trigger] content[i]),
    ensures
        well_sectioned(with_section(lines, heading, content)),
{
    let result = with_section(lines, heading, content);
    if content.len() > 0 {
        let n = lines.len() as int;
        let above = if n == 0 {
            0int
        } else {
            n + 1
        };
        assert(result.len() == above + 1 + content.len());
        assert(result[above] == HelpLineView::Heading(heading));
        assert forall|i: int| above < i < result.len() implies is_row(#[trigger] result[i]) by {
            assert(result[i] == content[i - above - 1]);
        }
        assert forall|i: int| 0 <= i < n implies #[trigger] result[i] == lines[i] by {}
        assert forall|i: int|
            0 <= i < result.len() && (#[trigger] result[i]) is Heading implies i + 1 < result.len()
            && is_row(result[i + 1]) by {
            if i < n {
                assert(lines[i] is Heading);
                assert(result[i + 1] == lines[i + 1]);
            }
        }
        assert forall|i: int|
            0 <= i < result.len() && (#[trigger] result[i]) is Blank implies i + 1 < result.len()
            && result[i + 1] is Heading by {
            if i < n {
                assert(lines[i] is Blank);
                assert(result[i + 1] == lines[i + 1]);
            }
        }
        assert forall|i: int|
            0 < i < result.len() && (#[trigger] result[i]) is Heading implies result[i
            - 1] is Blank by {
            if i < n {
                assert(lines[i] is Heading);
                assert(result[i - 1] == lines[i - 1]);
            }
        }
    }
}

/// Whatever the query leaves, every heading stands over at least one row, a blank row sets it
/// off from the section above it, and no section is empty.
pub proof fn law_no_heading_stands_over_nothing(
    rows: Seq<Binding>,
    context: Context,
    marks: Seq<(Meaning, char)>,
    query: Seq<char>,
)
    ensures
        well_sectioned(filtered_help(rows, context, marks, query)),
{
    let own = as_bindings(matching_rows(described(rows, context), query));
    let global = as_bindings(matching_rows(described_global(rows, context), query));
    let glyphs = as_legend(matching_rows(legend(marks), query));
    let heading = context_heading_text(context);
    let first = with_section(Seq::empty(), heading, own);
    let second = with_section(first, GLOBAL_HEADING@, global);
    lemma_a_section_keeps_the_shape(Seq::empty(), heading, own);
    lemma_a_section_keeps_the_shape(first, GLOBAL_HEADING@, global);
    lemma_a_section_keeps_the_shape(second, LEGEND_HEADING@, glyphs);
}

/// Every row a query keeps is one of the rows it was given.
proof fn lemma_matching_rows_come_from_the_rows(
    rows: Seq<(Seq<char>, Seq<char>)>,
    query: Seq<char>,
)
    ensures
        forall|i: int|
            0 <= i < matching_rows(rows, query).len() ==> rows.contains(
                #[trigger] matching_rows(rows, query)[i],
            ),
    decreases rows.len(),
{
    if rows.len() > 0 {
        let rest = rows.drop_last();
        lemma_matching_rows_come_from_the_rows(rest, query);
        let kept = matching_rows(rows, query);
        assert forall|i: int| 0 <= i < kept.len() implies rows.contains(#[trigger] kept[i]) by {
            if i < matching_rows(rest, query).len() {
                assert(kept[i] == matching_rows(rest, query)[i]);
                let k = choose|k: int| 0 <= k < rest.len() && rest[k] == kept[i];
                assert(rows[k] == kept[i]);
            } else {
                assert(rows[rows.len() - 1] == kept[i]);
            }
        }
    }
}

proof fn lemma_gutter_bounds_each_line(lines: Seq<HelpLineView>, i: int)
    requires
        0 <= i < lines.len(),
    ensures
        first_column(lines[i]).len() <= gutter_width(lines),
    decreases lines.len(),
{
    if i < lines.len() - 1 {
        lemma_gutter_bounds_each_line(lines.drop_last(), i);
    }
}

proof fn lemma_section_lines(
    lines: Seq<HelpLineView>,
    heading: Seq<char>,
    content: Seq<HelpLineView>,
)
    ensures
        forall|i: int|
            0 <= i < lines.len() ==> with_section(lines, heading, content).contains(
                #[trigger] lines[i],
            ),
        forall|i: int|
            0 <= i < content.len() ==> with_section(lines, heading, content).contains(
                #[trigger] content[i],
            ),
        forall|i: int|
            0 <= i < with_section(lines, heading, content).len() && is_row(
                #[trigger] with_section(lines, heading, content)[i],
            ) ==> lines.contains(with_section(lines, heading, content)[i]) || content.contains(
                with_section(lines, heading, content)[i],
            ),
{
    let result = with_section(lines, heading, content);
    let n = lines.len() as int;
    let above = if n == 0 {
        0int
    } else {
        n + 1
    };
    assert forall|i: int| 0 <= i < n implies result.contains(#[trigger] lines[i]) by {
        assert(result[i] == lines[i]);
    }
    if content.len() > 0 {
        assert forall|i: int| 0 <= i < content.len() implies result.contains(
            #[trigger] content[i],
        ) by {
            assert(result[above + 1 + i] == content[i]);
        }
        assert forall|i: int| 0 <= i < result.len() && is_row(#[trigger] result[i]) implies
            lines.contains(result[i]) || content.contains(result[i]) by {
            if i < n {
                assert(result[i] == lines[i]);
            } else if i > above {
                assert(result[i] == content[i - above - 1]);
            }
        }
    }
}

/// Every line of two columns that a query leaves is padded to the same gutter, so every second
/// column starts at the same column whatever the query.
pub proof fn law_every_description_starts_at_the_same_column(
    rows: Seq<Binding>,
    context: Context,
    marks: Seq<(Meaning, char)>,
    query: Seq<char>,
    i: int,
)
    requires
        0 <= i < filtered_help(rows, context, marks, query).len(),
        is_row(filtered_help(rows, context, marks, query)[i]),
    ensures
        ({
            let gutter = gutter_width(help_lines(rows, context, marks));
            let line = filtered_help(rows, context, marks, query)[i];
            padded(first_column(line), gutter as int).len() == gutter
        }),
{
    let all = help_lines(rows, context, marks);
    let line = filtered_help(rows, context, marks, query)[i];
    let heading = context_heading_text(context);
    let own = described(rows, context);
    let global = described_global(rows, context);
    let glyphs = legend(marks);
    let one = with_section(Seq::empty(), heading, as_bindings(own));
    let two = with_section(one, GLOBAL_HEADING@, as_bindings(global));
    lemma_section_lines(Seq::empty(), heading, as_bindings(own));
    lemma_section_lines(one, GLOBAL_HEADING@, as_bindings(global));
    lemma_section_lines(two, LEGEND_HEADING@, as_legend(glyphs));
    let own_kept = matching_rows(own, query);
    let global_kept = matching_rows(global, query);
    let glyphs_kept = matching_rows(glyphs, query);
    let one_kept = with_section(Seq::empty(), heading, as_bindings(own_kept));
    let two_kept = with_section(one_kept, GLOBAL_HEADING@, as_bindings(global_kept));
    lemma_section_lines(Seq::empty(), heading, as_bindings(own_kept));
    lemma_section_lines(one_kept, GLOBAL_HEADING@, as_bindings(global_kept));
    lemma_section_lines(two_kept, LEGEND_HEADING@, as_legend(glyphs_kept));
    lemma_matching_rows_come_from_the_rows(own, query);
    lemma_matching_rows_come_from_the_rows(global, query);
    lemma_matching_rows_come_from_the_rows(glyphs, query);
    assert(all.contains(line)) by {
        if as_legend(glyphs_kept).contains(line) {
            let k = choose|k: int|
                0 <= k < as_legend(glyphs_kept).len() && as_legend(glyphs_kept)[k] == line;
            assert(glyphs.contains(glyphs_kept[k]));
            let at = choose|at: int| 0 <= at < glyphs.len() && glyphs[at] == glyphs_kept[k];
            assert(as_legend(glyphs)[at] == line);
        } else {
            assert(two_kept.contains(line));
            let y = choose|y: int| 0 <= y < two_kept.len() && two_kept[y] == line;
            if as_bindings(global_kept).contains(line) {
                let k = choose|k: int|
                    0 <= k < as_bindings(global_kept).len() && as_bindings(global_kept)[k] == line;
                assert(global.contains(global_kept[k]));
                let at = choose|at: int| 0 <= at < global.len() && global[at] == global_kept[k];
                assert(as_bindings(global)[at] == line);
                assert(two.contains(line));
                let z = choose|z: int| 0 <= z < two.len() && two[z] == line;
                assert(all.contains(two[z]));
            } else {
                assert(one_kept.contains(line));
                let x = choose|x: int| 0 <= x < one_kept.len() && one_kept[x] == line;
                assert(as_bindings(own_kept).contains(line));
                let k = choose|k: int|
                    0 <= k < as_bindings(own_kept).len() && as_bindings(own_kept)[k] == line;
                assert(own.contains(own_kept[k]));
                let at = choose|at: int| 0 <= at < own.len() && own[at] == own_kept[k];
                assert(as_bindings(own)[at] == line);
                assert(one.contains(line));
                let w = choose|w: int| 0 <= w < one.len() && one[w] == line;
                assert(two.contains(one[w]));
                let z = choose|z: int| 0 <= z < two.len() && two[z] == line;
                assert(all.contains(two[z]));
            }
        }
    }
    let at = choose|at: int| 0 <= at < all.len() && all[at] == line;
    lemma_gutter_bounds_each_line(all, at);
}

/// A row is kept where either of its columns, lowercased, holds the lowercased query, and the rows
/// kept stay in order.
pub proof fn law_a_row_is_kept_where_either_column_matches(
    rows: Seq<(Seq<char>, Seq<char>)>,
    query: Seq<char>,
)
    ensures
        matching_rows(rows, query) == rows.filter(
            |row: (Seq<char>, Seq<char>)|
                crate::text::contains_text(lowered(row.0), lowered(query))
                    || crate::text::contains_text(lowered(row.1), lowered(query)),
        ),
    decreases rows.len(),
{
    reveal(Seq::filter);
    let holds = |row: (Seq<char>, Seq<char>)|
        crate::text::contains_text(lowered(row.0), lowered(query)) || crate::text::contains_text(
            lowered(row.1),
            lowered(query),
        );
    if rows.len() > 0 {
        law_a_row_is_kept_where_either_column_matches(rows.drop_last(), query);
    }
    assert(matching_rows(rows, query) =~= rows.filter(holds));
}

/// The context's own section comes first, then `Global`, then `Glyphs`: each under its heading, a
/// blank row between two of them, and one with nothing in it left out whole.
pub proof fn law_the_sections_stand_in_order(
    own_heading: Seq<char>,
    own: Seq<HelpLineView>,
    global: Seq<HelpLineView>,
    glyphs: Seq<HelpLineView>,
)
    ensures
        ({
            let lines = assembled(own_heading, own, global, glyphs);
            &&& own.len() > 0 && global.len() > 0 && glyphs.len() > 0 ==> lines == seq![HelpLineView::Heading(own_heading)] + own + seq![HelpLineView::Blank, HelpLineView::Heading("Global"@)] + global + seq![HelpLineView::Blank, HelpLineView::Heading("Glyphs"@)] + glyphs
            &&& own.len() > 0 && global.len() > 0 && glyphs.len() == 0 ==> lines == seq![HelpLineView::Heading(own_heading)] + own + seq![HelpLineView::Blank, HelpLineView::Heading("Global"@)] + global
            &&& own.len() > 0 && global.len() == 0 && glyphs.len() > 0 ==> lines == seq![HelpLineView::Heading(own_heading)] + own + seq![HelpLineView::Blank, HelpLineView::Heading("Glyphs"@)] + glyphs
            &&& own.len() > 0 && global.len() == 0 && glyphs.len() == 0 ==> lines == seq![HelpLineView::Heading(own_heading)] + own
            &&& own.len() == 0 && global.len() > 0 && glyphs.len() > 0 ==> lines == seq![HelpLineView::Heading("Global"@)] + global + seq![HelpLineView::Blank, HelpLineView::Heading("Glyphs"@)] + glyphs
            &&& own.len() == 0 && global.len() > 0 && glyphs.len() == 0 ==> lines == seq![HelpLineView::Heading("Global"@)] + global
            &&& own.len() == 0 && global.len() == 0 && glyphs.len() > 0 ==> lines == seq![HelpLineView::Heading("Glyphs"@)] + glyphs
            &&& own.len() == 0 && global.len() == 0 && glyphs.len() == 0 ==> lines == Seq::<HelpLineView>::empty()
        }),
{
    let lines = assembled(own_heading, own, global, glyphs);
    if own.len() > 0 && global.len() > 0 && glyphs.len() > 0 {
        assert(lines =~= seq![HelpLineView::Heading(own_heading)] + own + seq![HelpLineView::Blank, HelpLineView::Heading("Global"@)] + global + seq![HelpLineView::Blank, HelpLineView::Heading("Glyphs"@)] + glyphs);
    }
    if own.len() > 0 && global.len() > 0 && glyphs.len() == 0 {
        assert(lines =~= seq![HelpLineView::Heading(own_heading)] + own + seq![HelpLineView::Blank, HelpLineView::Heading("Global"@)] + global);
    }
    if own.len() > 0 && global.len() == 0 && glyphs.len() > 0 {
        assert(lines =~= seq![HelpLineView::Heading(own_heading)] + own + seq![HelpLineView::Blank, HelpLineView::Heading("Glyphs"@)] + glyphs);
    }
    if own.len() == 0 && global.len() > 0 && glyphs.len() > 0 {
        assert(lines =~= seq![HelpLineView::Heading("Global"@)] + global + seq![HelpLineView::Blank, HelpLineView::Heading("Glyphs"@)] + glyphs);
    }
}

/// What each section of a searched overlay holds: the context's own rows, the rows everything
/// hears, and the legend, each narrowed by the query and none of them empty for any other reason.
pub proof fn law_what_each_section_holds(
    rows: Seq<Binding>,
    context: Context,
    marks: Seq<(Meaning, char)>,
    query: Seq<char>,
)
    ensures
        filtered_help(rows, context, marks, query) == assembled(
            context_heading_text(context),
            as_bindings(matching_rows(described(rows, context), query)),
            as_bindings(matching_rows(described_global(rows, context), query)),
            as_legend(matching_rows(legend(marks), query)),
        ),
        forall|row: (Seq<char>, Seq<char>)|
            as_bindings(seq![row]) == seq![
                HelpLineView::Binding { keys: row.0, description: row.1 },
            ],
        forall|row: (Seq<char>, Seq<char>)|
            as_legend(seq![row]) == seq![HelpLineView::Legend { glyph: row.0, meaning: row.1 }],
{
    assert forall|row: (Seq<char>, Seq<char>)|
        as_bindings(seq![row]) == seq![
            HelpLineView::Binding { keys: row.0, description: row.1 },
        ] by {
        assert(as_bindings(seq![row]) =~= seq![
            HelpLineView::Binding { keys: row.0, description: row.1 },
        ]);
    }
    assert forall|row: (Seq<char>, Seq<char>)|
        as_legend(seq![row]) == seq![HelpLineView::Legend { glyph: row.0, meaning: row.1 }] by {
        assert(as_legend(seq![row]) =~= seq![
            HelpLineView::Legend { glyph: row.0, meaning: row.1 },
        ]);
    }
}

proof fn lemma_glyphs_for(marks: Seq<(Meaning, char)>, meaning: Meaning)
    ensures
        glyphs_for(marks, meaning) == marks.filter(
            |mark: (Meaning, char)| mark.0 == meaning,
        ).map_values(|mark: (Meaning, char)| mark.1),
    decreases marks.len(),
{
    reveal(Seq::filter);
    let own = |mark: (Meaning, char)| mark.0 == meaning;
    let glyph = |mark: (Meaning, char)| mark.1;
    if marks.len() > 0 {
        lemma_glyphs_for(marks.drop_last(), meaning);
    }
    assert(glyphs_for(marks, meaning) =~= marks.filter(own).map_values(glyph));
}

/// The legend has one row for each meaning, in the order of the meanings: every glyph that stands
/// for it, in the table's order, and the words for it.
pub proof fn law_the_legend_explains_every_meaning(marks: Seq<(Meaning, char)>, i: int)
    requires
        0 <= i < Meaning::all_spec().len(),
    ensures
        legend(marks).len() == Meaning::all_spec().len(),
        legend(marks)[i].0 == marks.filter(
            |mark: (Meaning, char)| mark.0 == Meaning::all_spec()[i],
        ).map_values(|mark: (Meaning, char)| mark.1),
        legend(marks)[i].1 == meaning_prose(Meaning::all_spec()[i]),
{
    let meaning = Meaning::all_spec()[i];
    lemma_glyphs_for(marks, meaning);
    assert(legend(marks)[i] == (glyphs_for(marks, meaning), meaning_prose(meaning)));
    assert((|mark: (Meaning, char)| mark.0 == meaning) =~= (|mark: (Meaning, char)|
        mark.0 == Meaning::all_spec()[i]));
}

/// The words each meaning is explained in.
pub proof fn law_the_words_for_each_meaning()
    ensures
        meaning_prose(Meaning::Fresh) == "Fresh (gutter)"@,
        meaning_prose(Meaning::Stale) == "Stale (gutter)"@,
        meaning_prose(Meaning::Unknown) == "Unknown (gutter)"@,
        meaning_prose(Meaning::Failed) == "Failed (gutter)"@,
        meaning_prose(Meaning::Loading) == "Loading (gutter, and a cell)"@,
        meaning_prose(Meaning::InSync) == "in sync"@,
        meaning_prose(Meaning::Clean) == "clean, a known zero"@,
        meaning_prose(Meaning::NoUpstream) == "no upstream, or no branch at all"@,
        meaning_prose(Meaning::NoRemote) == "no remote at all"@,
        meaning_prose(Meaning::Ahead) == "ahead by n"@,
        meaning_prose(Meaning::Behind) == "behind by n"@,
        meaning_prose(Meaning::Changed) == "n changed files"@,
        meaning_prose(Meaning::ChildRow) == "child row"@,
        meaning_prose(Meaning::Checked) == "checked (the Selection's own marker)"@,
        meaning_prose(Meaning::Truncated) == "truncated"@,
{
}

/// The heading over each context's own rows.
pub proof fn law_the_heading_of_each_context()
    ensures
        context_heading_text(Context::Global) == "Global"@,
        context_heading_text(Context::List) == "List"@,
        context_heading_text(Context::Detail) == "Detail"@,
        context_heading_text(Context::Input) == "Input"@,
        context_heading_text(Context::Overlay) == "Overlay"@,
        context_heading_text(Context::Confirm) == "Confirm"@,
        context_heading_text(Context::Sort) == "Sort"@,
{
}

/// The gutter is as wide as the widest first column, and no wider.
pub proof fn law_the_gutter_is_the_widest_first_column(lines: Seq<HelpLineView>)
    ensures
        forall|i: int|
            0 <= i < lines.len() ==> ((#[trigger] lines[i]) matches HelpLineView::Binding {
                keys,
                ..
            } ==> keys.len() <= gutter_width(lines)),
        forall|i: int|
            0 <= i < lines.len() ==> ((#[trigger] lines[i]) matches HelpLineView::Legend {
                glyph,
                ..
            } ==> glyph.len() <= gutter_width(lines)),
        gutter_width(lines) > 0 ==> exists|i: int|
            0 <= i < lines.len() && match #[trigger] lines[i] {
                HelpLineView::Binding { keys, .. } => keys.len() == gutter_width(lines),
                HelpLineView::Legend { glyph, .. } => glyph.len() == gutter_width(lines),
                _ => false,
            },
    decreases lines.len(),
{
    if lines.len() > 0 {
        let rest = lines.drop_last();
        law_the_gutter_is_the_widest_first_column(rest);
        assert forall|i: int| 0 <= i < lines.len() implies first_column(#[trigger] lines[i]).len()
            <= gutter_width(lines) by {
            lemma_gutter_bounds_each_line(lines, i);
        }
        if gutter_width(lines) > 0 {
            if first_column(lines.last()).len() == gutter_width(lines) {
                let last = lines.len() - 1;
                assert(lines[last] == lines.last());
            } else {
                let i = choose|i: int|
                    0 <= i < rest.len() && match #[trigger] rest[i] {
                        HelpLineView::Binding { keys, .. } => keys.len() == gutter_width(rest),
                        HelpLineView::Legend { glyph, .. } => glyph.len() == gutter_width(rest),
                        _ => false,
                    };
                assert(lines[i] == rest[i]);
            }
        }
    }
}

/// How each kind of line is painted: a row's first column in `accent` with spaces up to the gutter,
/// two spaces and its second column in `dim`; a heading in bold `accent`; a blank not at all.
pub proof fn law_how_each_line_is_painted(first: Seq<char>, second: Seq<char>, gutter: nat)
    ensures
        ({
            let runs = seq![
                PaintedView { text: padded(first, gutter as int), role: Role::Accent, bold: false },
                PaintedView { text: "  "@, role: Role::Dim, bold: false },
                PaintedView { text: second, role: Role::Dim, bold: false },
            ];
            &&& line_runs(
                HelpLineView::Binding { keys: first, description: second },
                gutter,
            ) == runs
            &&& line_runs(HelpLineView::Legend { glyph: first, meaning: second }, gutter) == runs
        }),
        line_runs(HelpLineView::Heading(first), gutter) == seq![
            PaintedView { text: first, role: Role::Accent, bold: true },
        ],
        line_runs(HelpLineView::Blank, gutter).len() == 0,
{
}

/// The list shows its lines from the scroll position on, one to a row from the top of its area,
/// until the lines or the rows end; with no line to show it says that nothing matches.
pub proof fn law_the_list_shows_its_lines_from_the_scroll_on(
    visible: Seq<HelpLineView>,
    gutter: nat,
    scroll: nat,
    area: Rect,
    height: nat,
    row: nat,
)
    requires
        area.y + height <= u16::MAX,
    ensures
        ({
            let rows = list_rows(visible, gutter, scroll as int, area, height as int);
            &&& visible.len() == 0 ==> rows == seq![
                PlacedRowView {
                    x: area.x,
                    y: area.y,
                    runs: seq![plain("no matches"@, Role::Dim)],
                },
            ]
            &&& visible.len() > 0 ==> (row < rows.len() <==> row < height && scroll + row
                < visible.len())
            &&& visible.len() > 0 && row < rows.len() ==> rows[row as int] == (PlacedRowView {
                x: area.x,
                y: (area.y + row) as u16,
                runs: line_runs(visible[(scroll + row) as int], gutter),
            })
        }),
{
}

/// A frame of three cells each way or more is drawn with a border and its content one cell inside
/// it; a smaller one is content through and through.
pub proof fn law_a_small_frame_has_no_border(frame_area: Rect)
    requires
        frame_area.x + frame_area.width <= u16::MAX,
        frame_area.y + frame_area.height <= u16::MAX,
    ensures
        ({
            let area = HelpLayout::of(frame_area).area(frame_area);
            &&& frame_area.width >= 3 && frame_area.height >= 3 <==> HelpLayout::of(frame_area)
                == HelpLayout::Bordered
            &&& frame_area.width >= 3 && frame_area.height >= 3 ==> area.x == frame_area.x + 1
                && area.y == frame_area.y + 1 && area.width == frame_area.width - 2 && area.height
                == frame_area.height - 2
            &&& frame_area.width < 3 || frame_area.height < 3 ==> area == frame_area
        }),
{
}

/// The query line is there while a query is typed or applied: it takes the last row of the content
/// area, behind its prompt, and leaves the list the rows above it. Without it the list has them
/// all.
pub proof fn law_the_query_line_takes_the_last_row(
    overlay: HelpOverlay,
    frame_area: Rect,
    context: Context,
    rows: Seq<Binding>,
    marks: Seq<(Meaning, char)>,
)
    requires
        frame_area.y + frame_area.height <= u16::MAX,
        frame_area.height > 0,
    ensures
        ({
            let area = HelpLayout::of(frame_area).area(frame_area);
            let shown = overlay.searching() || overlay.query_spec().len() > 0;
            let planned = overlay.planned_rows(frame_area, context, rows, marks);
            let height = if shown {
                area.height - 1
            } else {
                area.height as int
            };
            let list = list_rows(
                filtered_help(rows, context, marks, overlay.query_spec()),
                gutter_width(help_lines(rows, context, marks)),
                overlay.scroll_spec() as int,
                area,
                height,
            );
            &&& overlay.list_height(frame_area) == height
            &&& !shown ==> planned == list
            &&& shown ==> planned == list.push(
                PlacedRowView {
                    x: area.x,
                    y: (area.y + area.height - 1) as u16,
                    runs: seq![plain("/ "@ + overlay.query_spec(), Role::Text)],
                },
            )
        }),
{
}

/// The overlay's own words: the title of its frame, the headings of its shared sections, and the
/// prompt of its query line.
pub proof fn law_the_words_of_the_overlay()
    ensures
        BORDER_TITLE@ == " help (esc or q closes) "@,
        GLOBAL_HEADING@ == "Global"@,
        LEGEND_HEADING@ == "Glyphs"@,
        QUERY_PROMPT@ == "/ "@,
        COLUMN_GAP@ == "  "@,
        NO_MATCHES_MESSAGE@ == "no matches"@,
{
}

} // verus!
