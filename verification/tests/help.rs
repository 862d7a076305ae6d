use ratatui::buffer::Buffer;
use ratatui::layout::{Alignment as Side, Rect};
use ratatui::style::{Color, Modifier, Style};
use ratatui::symbols::border;
use ratatui::text::Line;
use ratatui::widgets::{Block, Borders, Widget};
use repon::action::{description, Action, Context};
use repon::chord::{none, KeyCode};
use repon::default_map::binding_not_built;
use repon::glyphs::{GlyphSet, Meaning};
use repon::help::{
    context_heading, either_contains, meaning_text, version_title, Alignment, HelpLayout,
    HelpLine, HelpOverlay, BORDER_TITLE, GLOBAL_HEADING, LEGEND_HEADING, NO_MATCHES_MESSAGE,
};
use repon::keys::BindingTable;
use repon::paint::Role;
use repon::rebinding::merge;

const VERSION: &str = "1.2.3";

/// The smallest frame with room for a border and one cell of content.
const MIN_BORDERED_WIDTH: u16 = 3;
const MIN_BORDERED_HEIGHT: u16 = 3;

/// A frame with room for everything.
const ROOMY_FRAME: Rect = Rect::new(0, 0, 100, 40);

fn default_table() -> BindingTable {
    BindingTable::compiled_default()
}

fn full_glyphs() -> &'static GlyphSet {
    Box::leak(Box::new(GlyphSet::full()))
}

fn ascii_glyphs() -> &'static GlyphSet {
    Box::leak(Box::new(GlyphSet::ascii()))
}

fn color(role: Role) -> Color {
    match role {
        Role::Text => Color::Reset,
        Role::Dim => Color::DarkGray,
        Role::Accent => Color::Cyan,
        Role::Okay => Color::Green,
        Role::Warn => Color::Yellow,
        Role::Danger => Color::Red,
        Role::Behind => Color::Magenta,
        Role::Border => Color::Gray,
        Role::BorderFocused => Color::Blue,
    }
}

fn lib(area: Rect) -> repon::paint::Rect {
    repon::paint::Rect { x: area.x, y: area.y, width: area.width, height: area.height }
}

fn out(area: repon::paint::Rect) -> Rect {
    Rect::new(area.x, area.y, area.width, area.height)
}

fn side(alignment: Alignment) -> Side {
    match alignment {
        Alignment::Left => Side::Left,
        Alignment::Right => Side::Right,
    }
}

/// A block framed by the eight parts `slots`.
fn framed(slots: &[String]) -> Block<'_> {
    Block::default().borders(Borders::ALL).border_set(border::Set {
        top_left: &slots[0],
        top_right: &slots[1],
        bottom_left: &slots[2],
        bottom_right: &slots[3],
        vertical_left: &slots[4],
        vertical_right: &slots[5],
        horizontal_top: &slots[6],
        horizontal_bottom: &slots[7],
    })
}

fn content_area_of(frame: Rect) -> Rect {
    out(HelpLayout::compute(lib(frame)).content_area(lib(frame)))
}

/// The overlay painted into a frame of its own.
fn render(
    overlay: &HelpOverlay,
    width: u16,
    height: u16,
    context: Context,
    table: &BindingTable,
) -> Buffer {
    let frame = Rect::new(0, 0, width, height);
    let mut buf = Buffer::empty(frame);
    let plan = overlay.draw(lib(frame), context, table, full_glyphs(), VERSION);
    if let Some(panel) = &plan.frame {
        let slots: Vec<String> = panel.parts.iter().map(|part| part.to_string()).collect();
        framed(&slots)
            .border_style(Style::new().fg(color(panel.role)))
            .title(Line::from(panel.top.text.as_str()).alignment(side(panel.top.alignment)))
            .title_bottom(
                Line::from(panel.bottom.text.as_str()).alignment(side(panel.bottom.alignment)),
            )
            .render(out(panel.area), &mut buf);
    }
    let end = out(plan.area).right();
    for row in &plan.rows {
        let mut x = row.x;
        for run in &row.runs {
            let mut style = Style::new().fg(color(run.role));
            if run.bold {
                style = style.add_modifier(Modifier::BOLD);
            }
            x = buf.set_stringn(x, row.y, &run.text, end.saturating_sub(x) as usize, style).0;
        }
    }
    buf
}

/// The leftmost column of row `y` where `text` starts.
fn find_text_start_x(buf: &Buffer, area: Rect, y: u16, text: &str) -> u16 {
    let want: Vec<char> = text.chars().collect();
    for x in area.x..area.right() {
        let got: Vec<char> = (x..area.right())
            .take(want.len())
            .map(|cx| buf[(cx, y)].symbol().chars().next().unwrap_or(' '))
            .collect();
        if got == want {
            return x;
        }
    }
    panic!("text {text:?} not found on row {y} within {area:?}");
}

/// The content area's list portion: one row shorter while the query line is shown.
fn list_area(overlay: &HelpOverlay, frame: Rect) -> Rect {
    let content_area = content_area_of(frame);
    let height = if overlay.shows_query_line() {
        content_area.height - 1
    } else {
        content_area.height
    };
    Rect::new(content_area.x, content_area.y, content_area.width, height)
}

/// A line's own leading character, whichever variant it is.
fn leading_char(line: &HelpLine) -> char {
    let text = match line {
        HelpLine::Heading(text) => text,
        HelpLine::Binding { keys, .. } => keys.as_str(),
        HelpLine::Legend { glyph, .. } => glyph.as_str(),
        HelpLine::Blank => panic!("expected a real line, not the blank separator"),
    };
    text.chars().next().expect("expected a non-empty line")
}

#[test]
fn content_is_exactly_the_tables_own_describe_with_no_reformatting() {
    let table = default_table();
    assert_eq!(
        HelpOverlay::content(&table, Context::List),
        table.describe(Context::List)
    );
}

#[test]
fn content_shows_the_current_contexts_own_actions_before_global() {
    let lines = HelpOverlay::content(&default_table(), Context::List);
    let own = lines
        .iter()
        .position(|(_, description)| *description == "Move down")
        .expect("List's own Move down must appear");
    let global = lines
        .iter()
        .position(|(_, description)| *description == "Quit")
        .expect("Global's Quit must appear alongside List");
    assert!(own < global, "expected List before global, got {lines:?}");
}

#[test]
fn content_omits_bindings_not_live_in_the_given_context() {
    let lines = HelpOverlay::content(&default_table(), Context::Confirm);
    assert!(
        !lines
            .iter()
            .any(|(_, description)| *description == "Move down")
    );
    assert!(!lines.iter().any(|(_, description)| *description == "Quit"));
    assert!(lines.iter().any(|(_, description)| *description == "Run"));
}

#[test]
fn visible_len_matches_filtered_lines_own_length_for_every_query() {
    let table = default_table();
    for query in ["", "move", "zzz-nothing-matches-this-zzz"] {
        assert_eq!(
            HelpOverlay::visible_len(&table, Context::List, full_glyphs(), query),
            HelpOverlay::filtered_lines(&table, Context::List, full_glyphs(), query).len()
        );
    }
}

#[test]
fn legend_rows_has_exactly_one_row_per_meaning_variant() {
    let rows = HelpOverlay::legend_rows(full_glyphs());
    assert_eq!(rows.len(), Meaning::all().len());
}

#[test]
fn legend_glyphs_are_read_from_the_live_glyph_set_and_differ_between_full_and_ascii() {
    let full_rows = HelpOverlay::legend_rows(full_glyphs());
    let ascii_rows = HelpOverlay::legend_rows(ascii_glyphs());

    let full_in_sync = full_rows
        .iter()
        .find(|(_, meaning)| *meaning == meaning_text(Meaning::InSync))
        .expect("full legend must carry InSync")
        .0
        .clone();
    let ascii_in_sync = ascii_rows
        .iter()
        .find(|(_, meaning)| *meaning == meaning_text(Meaning::InSync))
        .expect("ascii legend must carry InSync")
        .0
        .clone();

    assert_eq!(full_in_sync, full_glyphs().in_sync.to_string());
    assert_eq!(ascii_in_sync, ascii_glyphs().in_sync.to_string());
    assert_ne!(
        full_in_sync, ascii_in_sync,
        "expected the full and ascii legends to render InSync differently, got the same \
         glyph {full_in_sync:?} for both"
    );
}

#[test]
fn the_loading_legend_row_joins_every_spinner_frame_the_live_table_carries() {
    let full_rows = HelpOverlay::legend_rows(full_glyphs());
    let (glyph, _) = full_rows
        .iter()
        .find(|(_, meaning)| *meaning == meaning_text(Meaning::Loading))
        .expect("full legend must carry Loading");
    let expected: String = full_glyphs().loading.iter().collect();
    assert_eq!(*glyph, expected);

    let ascii_rows = HelpOverlay::legend_rows(ascii_glyphs());
    let (ascii_glyph, _) = ascii_rows
        .iter()
        .find(|(_, meaning)| *meaning == meaning_text(Meaning::Loading))
        .expect("ascii legend must carry Loading");
    let ascii_expected: String = ascii_glyphs().loading.iter().collect();
    assert_eq!(*ascii_glyph, ascii_expected);
}

#[test]
fn a_query_matching_a_binding_keeps_it_and_drops_bindings_that_do_not_match() {
    let table = default_table();
    let lines = HelpOverlay::filtered_lines(&table, Context::List, full_glyphs(), "move");
    assert!(lines.iter().any(|line| matches!(
        line,
        HelpLine::Binding { description, .. } if *description == "Move down"
    )));
    assert!(!lines.iter().any(|line| matches!(
        line,
        HelpLine::Binding { description, .. } if *description == "Toggle this row's Selection"
    )));
}

#[test]
fn a_query_matches_the_key_column_as_well_as_the_description() {
    let table = default_table();
    let lines = HelpOverlay::filtered_lines(&table, Context::List, full_glyphs(), "g");
    assert!(lines.iter().any(|line| matches!(
        line,
        HelpLine::Binding { description, .. } if *description == "First row"
    )));
}

#[test]
fn a_query_also_narrows_the_legend_to_glyph_or_meaning_matches() {
    let table = default_table();
    let lines = HelpOverlay::filtered_lines(&table, Context::List, full_glyphs(), "child row");
    let legend_rows: Vec<&HelpLine> = lines
        .iter()
        .filter(|line| matches!(line, HelpLine::Legend { .. }))
        .collect();
    assert_eq!(
        legend_rows.len(),
        1,
        "expected exactly ChildRow to survive: {lines:?}"
    );
    assert!(matches!(
        legend_rows[0],
        HelpLine::Legend { meaning, .. } if *meaning == "child row"
    ));
    assert!(
        lines
            .iter()
            .any(|line| matches!(line, HelpLine::Heading(text) if *text == LEGEND_HEADING)),
        "the legend heading must survive alongside its one surviving row"
    );
}

#[test]
fn an_empty_query_matches_every_binding_and_every_legend_row() {
    let table = default_table();
    let unfiltered = HelpOverlay::lines(&table, Context::List, full_glyphs());
    let filtered = HelpOverlay::filtered_lines(&table, Context::List, full_glyphs(), "");
    assert_eq!(unfiltered, filtered);
}

#[test]
fn a_query_matching_no_binding_and_no_legend_row_leaves_the_legend_heading_out_too() {
    let table = default_table();
    let lines = HelpOverlay::filtered_lines(
        &table,
        Context::List,
        full_glyphs(),
        "zzz-nothing-matches-this-zzz",
    );
    assert!(lines.is_empty(), "expected nothing to match, got {lines:?}");
}

#[test]
fn a_query_matching_nothing_renders_the_no_matches_message() {
    let mut overlay = HelpOverlay::default();
    overlay.enter_search();
    for c in "zzz-z".chars() {
        overlay.push_query_char(c);
    }
    let terminal = render(
        &overlay,
        ROOMY_FRAME.width,
        ROOMY_FRAME.height,
        Context::List,
        &default_table(),
    );
    let buf = &terminal;
    let area = list_area(&overlay, ROOMY_FRAME);
    let row_text: String = (area.x..area.right())
        .map(|x| buf[(x, area.y)].symbol())
        .collect();
    assert!(
        row_text.contains(NO_MATCHES_MESSAGE),
        "expected {NO_MATCHES_MESSAGE:?} on the first list row, got {row_text:?}"
    );
}

#[test]
fn an_unfiltered_overlay_never_renders_the_no_matches_message() {
    let overlay = HelpOverlay::default();
    let terminal = render(
        &overlay,
        ROOMY_FRAME.width,
        ROOMY_FRAME.height,
        Context::List,
        &default_table(),
    );
    let buf = &terminal;
    let area = list_area(&overlay, ROOMY_FRAME);
    let row_text: String = (area.x..area.right())
        .map(|x| buf[(x, area.y)].symbol())
        .collect();
    assert!(!row_text.contains(NO_MATCHES_MESSAGE));
}

#[test]
fn the_typed_query_renders_on_the_overlays_own_last_row_while_searching() {
    let mut overlay = HelpOverlay::default();
    overlay.enter_search();
    for c in "move".chars() {
        overlay.push_query_char(c);
    }
    let terminal = render(
        &overlay,
        ROOMY_FRAME.width,
        ROOMY_FRAME.height,
        Context::List,
        &default_table(),
    );
    let buf = &terminal;
    let content_area = content_area_of(ROOMY_FRAME);
    let last_row = content_area.bottom() - 1;
    let row_text: String = (content_area.x..content_area.right())
        .map(|x| buf[(x, last_row)].symbol())
        .collect();
    assert!(
        row_text.contains("/ move"),
        "expected the query line to show what was typed on the interior's last row, got \
         {row_text:?}"
    );
}

#[test]
fn a_fresh_overlay_in_reading_mode_draws_no_query_line() {
    let overlay = HelpOverlay::default();
    assert!(!overlay.shows_query_line());
    let terminal = render(
        &overlay,
        ROOMY_FRAME.width,
        ROOMY_FRAME.height,
        Context::List,
        &default_table(),
    );
    let buf = &terminal;
    let content_area = content_area_of(ROOMY_FRAME);
    let first_row: String = (content_area.x..content_area.right())
        .map(|x| buf[(x, content_area.y)].symbol())
        .collect();
    assert!(
        !first_row.trim_start().starts_with('/'),
        "expected no query prompt on a fresh overlay's own first row, got {first_row:?}"
    );
}

#[test]
fn a_fresh_overlay_opens_in_reading_mode() {
    let overlay = HelpOverlay::default();
    assert!(!overlay.is_searching());
    assert_eq!(overlay.query(), "");
}

#[test]
fn enter_search_switches_to_searching_without_disturbing_an_existing_query() {
    let mut overlay = HelpOverlay::default();
    overlay.enter_search();
    overlay.push_query_char('m');
    overlay.commit_search();
    assert!(!overlay.is_searching());
    assert_eq!(overlay.query(), "m");

    overlay.enter_search();
    assert!(overlay.is_searching());
    assert_eq!(overlay.query(), "m");
}

#[test]
fn cancel_search_returns_to_reading_mode_and_clears_the_query() {
    let mut overlay = HelpOverlay::default();
    overlay.enter_search();
    overlay.push_query_char('m');
    overlay.cancel_search();
    assert!(!overlay.is_searching());
    assert_eq!(overlay.query(), "");
}

#[test]
fn commit_search_returns_to_reading_mode_and_keeps_the_query() {
    let mut overlay = HelpOverlay::default();
    overlay.enter_search();
    overlay.push_query_char('m');
    overlay.push_query_char('v');
    overlay.commit_search();
    assert!(!overlay.is_searching());
    assert_eq!(overlay.query(), "mv");
}

#[test]
fn typing_snaps_the_scroll_back_to_the_top() {
    let mut overlay = HelpOverlay::default();
    overlay.apply(Action::ScrollDown, 20, 5);
    assert_eq!(overlay.scroll(), 1);
    overlay.enter_search();
    overlay.push_query_char('m');
    assert_eq!(overlay.scroll(), 0);
}

#[test]
fn help_scroll_down_then_up_returns_to_the_top() {
    let mut overlay = HelpOverlay::default();
    overlay.apply(Action::ScrollDown, 20, 5);
    overlay.apply(Action::ScrollDown, 20, 5);
    assert_eq!(overlay.scroll(), 2);
    overlay.apply(Action::ScrollUp, 20, 5);
    assert_eq!(overlay.scroll(), 1);
}

#[test]
fn help_scroll_up_from_the_top_stays_at_the_top() {
    let mut overlay = HelpOverlay::default();
    overlay.apply(Action::ScrollUp, 20, 5);
    assert_eq!(overlay.scroll(), 0);
}

#[test]
fn help_scroll_down_never_passes_the_last_line_reaching_the_viewport() {
    let mut overlay = HelpOverlay::default();
    for _ in 0..50 {
        overlay.apply(Action::ScrollDown, 20, 5);
    }
    assert_eq!(
        overlay.scroll(), 15,
        "20 lines in a 5-row viewport clamps at 15"
    );
}

#[test]
fn help_top_and_bottom_jump_to_the_clamped_ends() {
    let mut overlay = HelpOverlay::default();
    overlay.apply(Action::Bottom, 20, 5);
    assert_eq!(overlay.scroll(), 15);
    overlay.apply(Action::Top, 20, 5);
    assert_eq!(overlay.scroll(), 0);
}

#[test]
fn an_action_this_overlay_does_not_own_leaves_the_scroll_untouched() {
    let mut overlay = HelpOverlay::default();
    overlay.apply(Action::ScrollDown, 20, 5);
    let scroll_before = overlay.scroll();
    overlay.apply(Action::Close, 20, 5);
    assert_eq!(overlay.scroll(), scroll_before);
}

#[test]
fn viewport_height_in_reading_mode_with_no_query_only_pays_for_the_border() {
    let overlay = HelpOverlay::default();
    let frame = Rect::new(0, 0, 100, 15);
    let interior = content_area_of(frame).height;
    assert_eq!(overlay.viewport_height(lib(frame)), interior);
}

#[test]
fn viewport_height_while_searching_pays_for_the_query_row_too() {
    let mut overlay = HelpOverlay::default();
    overlay.enter_search();
    let frame = Rect::new(0, 0, 100, 15);
    let interior = content_area_of(frame).height;
    assert_eq!(overlay.viewport_height(lib(frame)), interior - 1);
}

#[test]
fn scrolling_past_the_end_still_shows_the_last_line_inside_the_border() {
    let table = default_table();
    let context = Context::List;
    let lines = HelpOverlay::lines(&table, context, full_glyphs());
    let content_len = lines.len();
    let frame = Rect::new(0, 0, 100, 15);

    let mut overlay = HelpOverlay::default();
    let viewport_height = overlay.viewport_height(lib(frame));
    assert!(
        (viewport_height as usize) < content_len,
        "fixture sanity: List's real content must exceed a 15-row frame's own interior"
    );
    for _ in 0..content_len {
        overlay.apply(Action::ScrollDown, content_len, viewport_height);
    }

    let terminal = render(&overlay, frame.width, frame.height, context, &table);
    let buf = &terminal;
    let last_line = lines.last().expect("expected at least one content line");
    let last_text = match last_line {
        HelpLine::Binding { description, .. } => description,
        HelpLine::Legend { meaning, .. } => meaning,
        HelpLine::Heading(text) => text,
        HelpLine::Blank => panic!(
            "fixture sanity: the legend always has at least one row, so the last line is \
             never the blank separator above a heading"
        ),
    };
    let area = list_area(&overlay, frame);
    let last_row_y = area.bottom() - 1;
    let row_text: String = (area.x..area.right())
        .map(|x| buf[(x, last_row_y)].symbol())
        .collect();
    assert!(
        row_text.contains(last_text),
        "expected the last content line {last_text:?} on the panel's own last visible \
         row, got {row_text:?}"
    );
}

#[test]
fn draw_paints_a_lines_keys_in_accent_and_its_description_in_dim() {
    let overlay = HelpOverlay::default();
    let table = default_table();
    let terminal = render(
        &overlay,
        ROOMY_FRAME.width,
        ROOMY_FRAME.height,
        Context::List,
        &table,
    );

    let buf = &terminal;
    let lines = HelpOverlay::lines(&table, Context::List, full_glyphs());
    let (row, first_keys, first_description) = lines
        .iter()
        .enumerate()
        .find_map(|(row, line)| match line {
            HelpLine::Binding { keys, description } => Some((row, keys, *description)),
            _ => None,
        })
        .expect("expected at least one binding row");
    let area = list_area(&overlay, ROOMY_FRAME);
    let y = area.y + row as u16;
    assert!(!first_keys.is_empty(), "expected a non-empty first key");
    assert_eq!(
        buf[(area.x, y)].fg,
        color(Role::Accent),
        "expected the first binding row's keys painted in the theme's accent role"
    );

    let value_x = find_text_start_x(buf, area, y, first_description);
    assert!(!first_description.is_empty());
    assert_eq!(
        buf[(value_x, y)].fg,
        color(Role::Dim),
        "expected the first binding row's description painted in the theme's dim role"
    );
}

#[test]
fn the_legend_heading_paints_one_solid_colour_unlike_a_binding_rows_own_two_tone_line() {
    let overlay = HelpOverlay::default();
    let table = default_table();
    let terminal = render(
        &overlay,
        ROOMY_FRAME.width,
        ROOMY_FRAME.height,
        Context::List,
        &table,
    );
    let buf = &terminal;
    let area = list_area(&overlay, ROOMY_FRAME);

    let lines = HelpOverlay::lines(&table, Context::List, full_glyphs());
    let heading_index = lines
        .iter()
        .position(|line| matches!(line, HelpLine::Heading(text) if *text == LEGEND_HEADING))
        .expect("expected a legend heading line");
    let heading_y = area.y + heading_index as u16;
    let heading_row: String = (area.x..area.right())
        .map(|x| buf[(x, heading_y)].symbol())
        .collect();
    assert!(heading_row.contains(LEGEND_HEADING));

    let heading_start_x = find_text_start_x(buf, area, heading_y, LEGEND_HEADING);
    assert!(
        buf[(heading_start_x, heading_y)]
            .modifier
            .contains(ratatui::style::Modifier::BOLD),
        "expected the legend heading painted bold, unlike any binding or legend row"
    );

    let binding_index = lines
        .iter()
        .position(|line| matches!(line, HelpLine::Binding { .. }))
        .expect("expected at least one binding row");
    let binding_y = area.y + binding_index as u16;
    assert!(
        !buf[(area.x, binding_y)]
            .modifier
            .contains(ratatui::style::Modifier::BOLD),
        "expected an ordinary binding row's key cell to carry no bold modifier"
    );
}

#[test]
fn the_three_sections_appear_in_order_each_under_its_own_heading_with_a_blank_row_between() {
    let table = default_table();
    let context = Context::List;
    let lines = HelpOverlay::lines(&table, context, full_glyphs());

    let own_heading = lines
        .iter()
        .position(
            |line| matches!(line, HelpLine::Heading(text) if *text == context_heading(context)),
        )
        .expect("expected the current context's own heading");
    let global_heading = lines
        .iter()
        .position(|line| matches!(line, HelpLine::Heading(text) if *text == GLOBAL_HEADING))
        .expect("expected List's own `global` section, live alongside it");
    let legend_heading = lines
        .iter()
        .position(|line| matches!(line, HelpLine::Heading(text) if *text == LEGEND_HEADING))
        .expect("expected a legend heading");
    assert!(
        own_heading < global_heading && global_heading < legend_heading,
        "expected {}, then {GLOBAL_HEADING}, then {LEGEND_HEADING}, got {lines:?}",
        context_heading(context)
    );

    assert_eq!(
        own_heading, 0,
        "expected no blank row above the very first heading"
    );
    assert!(
        matches!(lines[global_heading - 1], HelpLine::Blank),
        "expected a blank row between the own-context section and {GLOBAL_HEADING}'s own \
         heading, got {:?}",
        lines[global_heading - 1]
    );
    assert!(
        matches!(lines[legend_heading - 1], HelpLine::Blank),
        "expected a blank row between the `global` section and {LEGEND_HEADING}'s own \
         heading, got {:?}",
        lines[legend_heading - 1]
    );

    assert!(
        lines[own_heading + 1..global_heading - 1]
            .iter()
            .all(|line| matches!(line, HelpLine::Binding { .. })),
        "expected only binding rows between the own-context heading and the blank row \
         above {GLOBAL_HEADING}, got {lines:?}"
    );
    assert!(
        !lines[own_heading + 1..global_heading - 1].is_empty(),
        "expected at least one of List's own bindings"
    );
    assert!(
        lines[global_heading + 1..legend_heading - 1]
            .iter()
            .all(|line| matches!(line, HelpLine::Binding { .. })),
        "expected only binding rows between {GLOBAL_HEADING}'s own heading and the blank \
         row above {LEGEND_HEADING}, got {lines:?}"
    );
    assert!(
        !lines[global_heading + 1..legend_heading - 1].is_empty(),
        "expected at least one `global` binding"
    );
    assert!(
        lines[legend_heading + 1..]
            .iter()
            .all(|line| matches!(line, HelpLine::Legend { .. })),
        "expected only legend rows after the legend heading"
    );
    assert!(
        !lines[legend_heading + 1..].is_empty(),
        "expected at least one legend row"
    );
}

#[test]
fn a_context_with_no_global_section_shows_no_global_heading() {
    let table = default_table();
    let lines = HelpOverlay::lines(&table, Context::Confirm, full_glyphs());
    assert!(
        !lines
            .iter()
            .any(|line| matches!(line, HelpLine::Heading(text) if *text == GLOBAL_HEADING)),
        "expected Confirm, where global is suspended, to carry no {GLOBAL_HEADING} \
         heading, got {lines:?}"
    );
}

#[test]
fn the_bottom_border_carries_the_crates_own_version_right_aligned() {
    let overlay = HelpOverlay::default();
    let table = default_table();
    let terminal = render(
        &overlay,
        ROOMY_FRAME.width,
        ROOMY_FRAME.height,
        Context::List,
        &table,
    );

    let buf = &terminal;
    let outer = ROOMY_FRAME;
    let bottom_y = outer.bottom() - 1;
    let expected = version_title(VERSION);
    let expected_len = expected.chars().count() as u16;
    let start_x = outer.right() - 1 - expected_len;
    let got: String = (start_x..outer.right() - 1)
        .map(|x| buf[(x, bottom_y)].symbol())
        .collect();
    assert_eq!(
        got, expected,
        "expected the version right-aligned on the bottom border, ending one cell before \
         the right corner"
    );
}

#[test]
fn content_draws_at_the_blocks_own_interior_origin_not_over_the_border_in_reading_mode() {
    let overlay = HelpOverlay::default();
    let table = default_table();
    let terminal = render(
        &overlay,
        ROOMY_FRAME.width,
        ROOMY_FRAME.height,
        Context::List,
        &table,
    );

    let buf = &terminal;
    let glyphs = full_glyphs();
    assert_eq!(
        buf[(ROOMY_FRAME.x, ROOMY_FRAME.y)].symbol(),
        glyphs.border.top_left.to_string(),
        "expected the border's own corner untouched by content"
    );

    let lines = HelpOverlay::lines(&table, Context::List, full_glyphs());
    let first_char = leading_char(&lines[0]);
    assert_eq!(
        buf[(ROOMY_FRAME.x + 1, ROOMY_FRAME.y + 1)].symbol(),
        first_char.to_string(),
        "expected the first line's first character at the block's own interior origin"
    );
}

#[test]
fn the_query_line_takes_the_interiors_own_last_row_while_content_keeps_the_origin() {
    let mut overlay = HelpOverlay::default();
    overlay.enter_search();
    let table = default_table();
    let terminal = render(
        &overlay,
        ROOMY_FRAME.width,
        ROOMY_FRAME.height,
        Context::List,
        &table,
    );

    let buf = &terminal;
    let lines = HelpOverlay::lines(&table, Context::List, full_glyphs());
    let first_char = leading_char(&lines[0]);
    assert_eq!(
        buf[(ROOMY_FRAME.x + 1, ROOMY_FRAME.y + 1)].symbol(),
        first_char.to_string(),
        "expected the first content line's own leading character still at the block's own \
         interior origin while searching"
    );

    let content_area = content_area_of(ROOMY_FRAME);
    let last_row = content_area.bottom() - 1;
    assert_eq!(
        buf[(content_area.x, last_row)].symbol(),
        "/",
        "expected the query line's own leading mark on the interior's own last row"
    );
}

#[test]
fn every_lines_description_starts_at_the_same_column_regardless_of_its_own_keys_length() {
    let overlay = HelpOverlay::default();
    let table = default_table();
    let context = Context::List;
    let lines = HelpOverlay::lines(&table, context, full_glyphs());
    let bindings: Vec<(usize, &str, &str)> = lines
        .iter()
        .enumerate()
        .filter_map(|(row, line)| match line {
            HelpLine::Binding { keys, description } => Some((row, keys.as_str(), *description)),
            _ => None,
        })
        .collect();
    let (shortest_row, _, shortest_description) = *bindings
        .iter()
        .min_by_key(|(_, keys, _)| keys.chars().count())
        .expect("expected at least one binding row");
    let (longest_row, longest_keys, longest_description) = *bindings
        .iter()
        .max_by_key(|(_, keys, _)| keys.chars().count())
        .expect("expected at least one binding row");
    assert!(
        bindings
            .iter()
            .any(|(_, keys, _)| keys.chars().count() < longest_keys.chars().count()),
        "fixture sanity: List's own content must have two lines of different key length"
    );

    let terminal = render(
        &overlay,
        ROOMY_FRAME.width,
        ROOMY_FRAME.height,
        context,
        &table,
    );
    let buf = &terminal;
    let area = list_area(&overlay, ROOMY_FRAME);

    let shortest_y = area.y + shortest_row as u16;
    let longest_y = area.y + longest_row as u16;
    let shortest_x = find_text_start_x(buf, area, shortest_y, shortest_description);
    let longest_x = find_text_start_x(buf, area, longest_y, longest_description);
    assert_eq!(
        shortest_x, longest_x,
        "expected both descriptions to start at the same column regardless of their own \
         line's key length"
    );
}

#[test]
fn the_gutter_stays_the_same_width_in_a_much_wider_frame_rather_than_stretching_to_fill_it() {
    let overlay = HelpOverlay::default();
    let table = default_table();
    let context = Context::List;
    let lines = HelpOverlay::lines(&table, context, full_glyphs());
    let (first_row, first_description) = lines
        .iter()
        .enumerate()
        .find_map(|(row, line)| match line {
            HelpLine::Binding { description, .. } => Some((row, *description)),
            _ => None,
        })
        .expect("expected at least one binding row");

    let narrower = render(&overlay, 100, 40, context, &table);
    let narrower_area = list_area(&overlay, Rect::new(0, 0, 100, 40));
    let narrower_x = find_text_start_x(
        &narrower,
        narrower_area,
        narrower_area.y + first_row as u16,
        first_description,
    );

    let wider = render(&overlay, 200, 40, context, &table);
    let wider_area = list_area(&overlay, Rect::new(0, 0, 200, 40));
    let wider_x = find_text_start_x(
        &wider,
        wider_area,
        wider_area.y + first_row as u16,
        first_description,
    );

    assert_eq!(
        narrower_x, wider_x,
        "expected the gutter width to stay fixed rather than stretch with a wider frame"
    );
}

#[test]
fn degrades_below_the_height_a_border_and_one_content_row_need_both_sides_of_the_boundary() {
    let ample_width = 40;

    let just_tall_enough = Rect::new(0, 0, ample_width, MIN_BORDERED_HEIGHT);
    assert_eq!(HelpLayout::compute(lib(just_tall_enough)), HelpLayout::Bordered);

    let one_row_short = Rect::new(0, 0, ample_width, MIN_BORDERED_HEIGHT - 1);
    assert_eq!(HelpLayout::compute(lib(one_row_short)), HelpLayout::Degraded);
}

#[test]
fn degrades_below_the_width_a_border_and_one_content_column_need_both_sides_of_the_boundary() {
    let ample_height = 20;

    let just_wide_enough = Rect::new(0, 0, MIN_BORDERED_WIDTH, ample_height);
    assert_eq!(HelpLayout::compute(lib(just_wide_enough)), HelpLayout::Bordered);

    let one_column_short = Rect::new(0, 0, MIN_BORDERED_WIDTH - 1, ample_height);
    assert_eq!(HelpLayout::compute(lib(one_column_short)), HelpLayout::Degraded);
}

#[test]
fn a_too_small_frame_degrades_to_flush_content_with_no_border_in_reading_mode() {
    let overlay = HelpOverlay::default();
    let table = default_table();
    let tiny_frame = Rect::new(0, 0, 20, MIN_BORDERED_HEIGHT - 1);
    let terminal = render(
        &overlay,
        tiny_frame.width,
        tiny_frame.height,
        Context::List,
        &table,
    );

    let buf = &terminal;
    let lines = HelpOverlay::lines(&table, Context::List, full_glyphs());
    let first_char = leading_char(&lines[0]);
    assert_eq!(buf[(0, 0)].symbol(), first_char.to_string());
}

#[test]
fn a_too_small_frame_degrades_to_flush_query_line_with_no_border_while_searching() {
    let mut overlay = HelpOverlay::default();
    overlay.enter_search();
    let table = default_table();
    let tiny_frame = Rect::new(0, 0, 20, MIN_BORDERED_HEIGHT - 1);
    let terminal = render(
        &overlay,
        tiny_frame.width,
        tiny_frame.height,
        Context::List,
        &table,
    );

    let buf = &terminal;
    let query_y = tiny_frame.bottom() - 1;
    assert_eq!(buf[(0, query_y)].symbol(), "/");
}

#[test]
fn content_excludes_a_currently_unbuilt_binding() {
    let unbuilt_context = Context::List;
    let unbuilt_action = Action::DismissVanished;
    let table = BindingTable::from_bindings(vec![binding_not_built(
        unbuilt_context,
        KeyCode::Char('x'),
        none(),
        unbuilt_action,
    )]);
    let unbuilt_description = description(unbuilt_action);
    let lines = HelpOverlay::content(&table, unbuilt_context);
    assert!(
        !lines.iter().any(|(_, described)| *described == unbuilt_description),
        "expected {unbuilt_description:?}, unbuilt in this table, to be absent, got: {lines:?}"
    );
}

#[test]
fn content_reflects_whatever_table_it_is_handed_rather_than_a_fixed_default() {
    let mut context_table = toml::Table::new();
    context_table.insert("anchor_range".to_string(), toml::Value::String("x".to_string()));
    let mut document_keys = toml::Table::new();
    document_keys.insert("list".to_string(), toml::Value::Table(context_table));
    let (rebound, _) = merge(&document_keys).expect("expected the merge to succeed");

    let rows = HelpOverlay::content(&rebound, Context::List);
    assert!(
        rows.iter().any(|(keys, description)| keys == "x"
            && *description == "Anchor a range at the cursor, extended with `j` and `k`"),
        "expected the rebound key to appear in the overlay's own content, got: {rows:?}"
    );
    assert!(
        !rows.iter().any(|(keys, _)| keys == "v"),
        "the old default key must not still appear once it has been rebound, got: {rows:?}"
    );
}

#[test]
fn draws_the_house_styles_border_and_a_title_naming_the_overlay_and_its_close_keys() {
    let overlay = HelpOverlay::default();
    let table = default_table();
    let buf = render(
        &overlay,
        ROOMY_FRAME.width,
        ROOMY_FRAME.height,
        Context::List,
        &table,
    );
    let border = full_glyphs().border;
    let right = ROOMY_FRAME.right() - 1;
    let bottom = ROOMY_FRAME.bottom() - 1;
    assert_eq!(buf[(0, 0)].symbol(), border.top_left.to_string());
    assert_eq!(buf[(right, 0)].symbol(), border.top_right.to_string());
    assert_eq!(buf[(0, bottom)].symbol(), border.bottom_left.to_string());
    assert_eq!(buf[(right, bottom)].symbol(), border.bottom_right.to_string());
    for y in 1..bottom {
        assert_eq!(buf[(0, y)].symbol(), border.vertical.to_string());
        assert_eq!(buf[(right, y)].symbol(), border.vertical.to_string());
    }
    let top: String = (1..right).map(|x| buf[(x, 0)].symbol()).collect();
    assert!(top.starts_with(BORDER_TITLE), "{top:?}");
    let behind: String = top.chars().skip(BORDER_TITLE.chars().count()).collect();
    assert!(behind.chars().all(|c| c == border.horizontal), "{behind:?}");
}

#[test]
fn no_heading_ever_stands_over_nothing() {
    let table = default_table();
    for query in ["move", "child row", "quit", "g", "\u{00E9}"] {
        let lines = HelpOverlay::filtered_lines(&table, Context::List, full_glyphs(), query);
        for (at, line) in lines.iter().enumerate() {
            if matches!(line, HelpLine::Heading(_)) {
                assert!(
                    matches!(
                        lines.get(at + 1),
                        Some(HelpLine::Binding { .. }) | Some(HelpLine::Legend { .. })
                    ),
                    "{query:?}: {lines:?}"
                );
            }
        }
    }
}

#[test]
fn a_query_matches_whatever_its_case() {
    let table = default_table();
    assert_eq!(
        HelpOverlay::filtered_lines(&table, Context::List, full_glyphs(), "MOVE"),
        HelpOverlay::filtered_lines(&table, Context::List, full_glyphs(), "move")
    );
    assert!(either_contains("ctrl+d", "half page down", "down"));
    assert!(either_contains("ctrl+d", "half page down", "ctrl"));
    assert!(!either_contains("ctrl+d", "half page down", "up"));
    assert!(!either_contains("ctrl+d", "half page down", "DOWN"));
}

#[test]
fn backspace_takes_the_querys_last_character_and_is_inert_on_an_empty_one() {
    let mut overlay = HelpOverlay::new();
    overlay.enter_search();
    overlay.push_query_char('a');
    overlay.push_query_char('\u{00E9}');
    overlay.pop_query_char();
    assert_eq!(overlay.query(), "a");
    overlay.pop_query_char();
    overlay.pop_query_char();
    assert_eq!(overlay.query(), "");
    assert!(overlay.is_searching());
}

#[test]
fn every_context_has_a_heading_and_every_meaning_its_prose() {
    let headings: Vec<&str> = [
        Context::Global,
        Context::List,
        Context::Detail,
        Context::Input,
        Context::Overlay,
        Context::Confirm,
        Context::Sort,
    ]
    .into_iter()
    .map(context_heading)
    .collect();
    assert_eq!(headings, vec!["Global", "List", "Detail", "Input", "Overlay", "Confirm", "Sort"]);
    let prose: Vec<&str> = Meaning::all().into_iter().map(meaning_text).collect();
    assert_eq!(prose.len(), 15);
    for (at, text) in prose.iter().enumerate() {
        assert!(!prose[at + 1..].contains(text));
    }
}

#[test]
fn the_plan_names_the_frame_its_role_and_both_titles() {
    let overlay = HelpOverlay::default();
    let table = default_table();
    let plan = overlay.draw(lib(ROOMY_FRAME), Context::List, &table, full_glyphs(), VERSION);
    let panel = plan.frame.expect("a roomy frame has a border");
    assert_eq!(panel.area, lib(ROOMY_FRAME));
    assert_eq!(panel.parts, full_glyphs().border.parts());
    assert_eq!(panel.role, Role::BorderFocused);
    assert_eq!(panel.top.text, BORDER_TITLE);
    assert_eq!(panel.top.alignment, Alignment::Left);
    assert_eq!(panel.bottom.text, "repon 1.2.3");
    assert_eq!(panel.bottom.alignment, Alignment::Right);

    let tiny = Rect::new(0, 0, 20, MIN_BORDERED_HEIGHT - 1);
    let flush = overlay.draw(lib(tiny), Context::List, &table, full_glyphs(), VERSION);
    assert_eq!(flush.layout, HelpLayout::Degraded);
    assert_eq!(flush.frame, None);
}

#[test]
fn a_query_in_another_case_keeps_the_same_lines() {
    let table = default_table();
    let lines = |query: &str| {
        HelpOverlay::filtered_lines(&table, Context::List, full_glyphs(), query)
    };
    assert!(!lines("quit").is_empty());
    for query in ["QUIT", "Quit", "qUiT"] {
        assert_eq!(lines(query), lines("quit"));
    }
}
