use ratatui::buffer::Buffer;
use ratatui::layout::{Position, Rect};
use ratatui::style::{Color, Style};
use repon::edit_buffer::Motion;
use repon::filter_line::{
    caret_x, split_at_cursor, warn_split, Caret, FilterLine, Trigger, VocabularyEntry,
    COMPLETION_MAX_ROWS, PROMPT_WIDTH, QUERY_PLACEHOLDER,
};
use repon::glyphs::GlyphSet;
use repon::paint::Role;

/// What every cell of a frame shows where only its place matters.
const FRAME_MARK: &str = "#";

fn entry(key: &str, values: &[&str]) -> VocabularyEntry {
    VocabularyEntry {
        key: key.to_string(),
        values: values.iter().map(|value| value.to_string()).collect(),
    }
}

/// A vocabulary with free-text keys and keys that have values of their own.
fn vocabulary() -> Vec<VocabularyEntry> {
    vec![
        entry("name", &[]),
        entry("branch", &[]),
        entry("path", &[]),
        entry("kind", &["repo", "worktree", "submodule"]),
        entry("is", &["dirty", "clean"]),
        entry("sync", &["ahead", "behind", "diverged"]),
        entry("unknown", &["no-default-branch", "no-remote"]),
        entry("has", &["stash", "conflict"]),
        entry("tag", &[]),
        entry("remote", &[]),
        entry("age", &[]),
        entry("set", &[]),
        entry("state", &["fresh", "stale"]),
    ]
}

/// The byte ranges of the terms whose key is known and whose value is not.
fn unrecognised(text: &str) -> Vec<(usize, usize)> {
    let mut ranges = Vec::new();
    let mut at = 0;
    for term in text.split(' ') {
        if let Some((key, value)) = term.split_once(':') {
            if let Some(known) = vocabulary().into_iter().find(|entry| entry.key == key) {
                let named = known.values.is_empty() || known.values.iter().any(|v| v == value);
                if value.is_empty() || !named {
                    ranges.push((at, at + term.len()));
                }
            }
        }
        at += term.len() + 1;
    }
    ranges
}

fn color(role: Role) -> Color {
    match role {
        Role::Text => Color::Reset,
        Role::Dim => Color::DarkGray,
        Role::Accent => Color::Cyan,
        Role::Okay => Color::Green,
        Role::Warn => Color::Yellow,
        Role::Danger => Color::Red,
        Role::Behind => Color::Magenta,
        Role::Border => Color::Gray,
        Role::BorderFocused => Color::Blue,
    }
}

fn lib(area: Rect) -> repon::paint::Rect {
    repon::paint::Rect { x: area.x, y: area.y, width: area.width, height: area.height }
}

fn out(area: repon::paint::Rect) -> Rect {
    Rect::new(area.x, area.y, area.width, area.height)
}

/// The line painted into a row of its own, and where that left the caret.
fn draw_with_cursor(line: &FilterLine, width: u16) -> (Buffer, Position) {
    let area = Rect::new(0, 0, width, 1);
    let mut buf = Buffer::empty(area);
    let plan = line
        .draw(lib(area), &unrecognised(line.live_text()))
        .expect("an area with a column paints something");
    let mut x = area.x;
    let mut ends = Vec::new();
    for run in &plan.runs {
        let room = plan.room(x) as usize;
        x = buf.set_stringn(x, 0, &run.text, room, Style::new().fg(color(run.role))).0;
        ends.push(x);
    }
    let advisory = &plan.advisory;
    buf.set_stringn(plan.advisory_x, 0, &advisory.text, 1, Style::new().fg(color(advisory.role)));
    (buf, Position::new(caret_x(&plan, lib(area), &ends), 0))
}

fn draw_to_buffer(line: &FilterLine) -> Buffer {
    draw_with_cursor(line, 40).0
}

fn row_text(buf: &Buffer) -> String {
    (0..buf.area.width)
        .map(|x| buf[(x, 0)].symbol().to_string())
        .collect()
}

fn typed(text: &str) -> FilterLine {
    let mut line = FilterLine::new("");
    for c in text.chars() {
        line.type_char(c);
    }
    line
}

fn every_key_entry() -> Vec<String> {
    vocabulary()
        .into_iter()
        .map(|entry| format!("{}:", entry.key))
        .collect()
}

/// The completion list painted inside a frame over the whole of `area`, the frame drawn from the
/// eight `parts`.
fn draw_framed(line: &FilterLine, area: Rect, parts: &[char; 8]) -> Buffer {
    let mut buf = Buffer::empty(area);
    let (right, bottom) = (area.right() - 1, area.bottom() - 1);
    for x in 1..right {
        buf[(x, 0)].set_char(parts[6]);
        buf[(x, bottom)].set_char(parts[7]);
    }
    for y in 1..bottom {
        buf[(0, y)].set_char(parts[4]);
        buf[(right, y)].set_char(parts[5]);
    }
    buf[(0, 0)].set_char(parts[0]);
    buf[(right, 0)].set_char(parts[1]);
    buf[(0, bottom)].set_char(parts[2]);
    buf[(right, bottom)].set_char(parts[3]);
    for row in line.draw_completions(lib(area), &vocabulary()) {
        let room = right.saturating_sub(row.x) as usize;
        buf.set_stringn(row.x, row.y, &row.text, room, Style::new().fg(color(Role::Text)));
    }
    buf
}

fn draw_completions_to_buffer(line: &FilterLine, area: Rect) -> Buffer {
    let mark = FRAME_MARK.chars().next().expect("a mark is one character");
    draw_framed(line, area, &[mark; 8])
}

/// Row `row` of the interior inside a frame drawn over the whole of `area`, trailing blanks
/// trimmed.
fn interior_row_text(buf: &Buffer, area: Rect, row: u16) -> String {
    ((area.x + 1)..(area.right() - 1))
        .map(|x| buf[(x, area.y + 1 + row)].symbol().to_string())
        .collect::<String>()
        .trim_end()
        .to_string()
}

#[test]
fn shows_placeholder_only_while_empty_and_in_the_dim_role() {
    let empty = FilterLine::new("");
    let empty_buf = draw_to_buffer(&empty);
    assert!(
        row_text(&empty_buf).starts_with(QUERY_PLACEHOLDER),
        "expected the placeholder on an empty Filter line: {:?}",
        row_text(&empty_buf)
    );
    assert_eq!(
        empty_buf[(0, 0)].fg,
        color(Role::Dim),
        "the placeholder must paint in the dim role"
    );

    let mut typed = FilterLine::new("");
    typed.type_char('k');
    let typed_buf = draw_to_buffer(&typed);
    assert!(
        !row_text(&typed_buf).contains("filter repos"),
        "the placeholder must not linger once there is typed text: {:?}",
        row_text(&typed_buf)
    );
    assert!(row_text(&typed_buf).starts_with("/ k"));
    assert_eq!(
        typed_buf[(0, 0)].fg,
        color(Role::Text),
        "typed text must paint in the text role, not dim"
    );
}

#[test]
fn the_caret_sits_right_after_the_prompt_while_the_line_is_empty() {
    let line = FilterLine::new("");
    let (_, cursor) = draw_with_cursor(&line, 40);
    assert_eq!(cursor, Position::new(PROMPT_WIDTH, 0));
}

#[test]
fn the_caret_sits_at_the_end_of_the_typed_text() {
    let line = typed("kind:worktree");
    let (_, cursor) = draw_with_cursor(&line, 40);
    assert_eq!(
        cursor,
        Position::new(PROMPT_WIDTH + "kind:worktree".len() as u16, 0)
    );
}

#[test]
fn the_caret_advances_by_one_column_per_typed_character() {
    let mut line = typed("kind");
    let (_, before) = draw_with_cursor(&line, 40);
    line.type_char(':');
    let (_, after) = draw_with_cursor(&line, 40);
    assert_eq!(after.x, before.x + 1);
}

#[test]
fn the_caret_clamps_at_the_advisory_column_when_typed_text_overflows_the_line() {
    let line = typed(&"x".repeat(50));
    let (_, cursor) = draw_with_cursor(&line, 10);
    assert_eq!(
        cursor.x, 9,
        "width 10's advisory column is index 9; the caret must not run past it"
    );
}

#[test]
fn the_advisory_slot_is_a_space_at_the_lines_own_right_end_when_every_term_is_recognised() {
    for width in [15, 24, 40] {
        let line = typed("kind:worktree");
        let buf = draw_with_cursor(&line, width).0;
        let last = buf.area.width - 1;
        assert_eq!(
            buf[(last, 0)].symbol(),
            " ",
            "width {width}: advisory column {last} must be a space when nothing is \
             unrecognised"
        );
    }
}

#[test]
fn the_advisory_slot_carries_a_question_mark_when_a_term_is_unrecognised() {
    for width in [15, 24, 40] {
        let line = typed("is:banana");
        let buf = draw_with_cursor(&line, width).0;
        let last = buf.area.width - 1;
        assert_eq!(
            buf[(last, 0)].symbol(),
            "?",
            "width {width}: advisory column {last} must carry `?` for `is:banana`"
        );
        assert_eq!(
            buf[(last, 0)].fg,
            color(Role::Warn),
            "the `?` itself paints in the warn role"
        );
    }
}

#[test]
fn an_empty_value_on_a_known_key_also_trips_the_advisory() {
    let line = typed("is:");
    let buf = draw_to_buffer(&line);
    let last = buf.area.width - 1;
    assert_eq!(buf[(last, 0)].symbol(), "?");
}

#[test]
fn an_unrecognised_key_reinterpreted_as_a_name_term_does_not_trip_the_advisory() {
    let line = typed("kimd:repo");
    let buf = draw_to_buffer(&line);
    let last = buf.area.width - 1;
    assert_eq!(buf[(last, 0)].symbol(), " ");
}

#[test]
fn the_offending_term_paints_warn_and_the_rest_of_the_line_stays_in_text() {
    let line = typed("kind:repo is:banana name:x");
    let buf = draw_to_buffer(&line);

    let prefix_and_first_term = PROMPT_WIDTH as usize + "kind:repo".len();
    for x in PROMPT_WIDTH as usize..prefix_and_first_term {
        assert_eq!(
            buf[(x as u16, 0)].fg,
            color(Role::Text),
            "the recognised term at column {x} must stay in the text role"
        );
    }

    let offender_start = prefix_and_first_term + 1; // the space between terms
    let offender_end = offender_start + "is:banana".len();
    for x in offender_start..offender_end {
        assert_eq!(
            buf[(x as u16, 0)].fg,
            color(Role::Warn),
            "`is:banana` at column {x} must paint in the warn role"
        );
    }

    for x in offender_end..buf.area.width as usize - 1 {
        assert_eq!(
            buf[(x as u16, 0)].fg,
            color(Role::Text),
            "text after the offending term at column {x} must return to the text role"
        );
    }
}

#[test]
fn typed_text_never_overwrites_the_reserved_advisory_column() {
    let line = typed("abcd");
    let buf = draw_to_buffer(&line);
    let last = buf.area.width - 1;
    assert_eq!(buf[(last, 0)].symbol(), " ");
}

#[test]
fn opens_prefilled_with_the_committed_filters_own_text() {
    let line = FilterLine::new("kind:worktree");
    assert_eq!(line.live_text(), "kind:worktree");
}

#[test]
fn typing_appends_and_narrows_live() {
    let mut line = FilterLine::new("");
    for c in "kind:worktree".chars() {
        line.type_char(c);
    }
    assert_eq!(line.live_text(), "kind:worktree");
}

#[test]
fn delete_previous_char_removes_the_last_character() {
    let mut line = FilterLine::new("");
    for c in "kind:worktree".chars() {
        line.type_char(c);
    }

    line.delete_previous_char();

    assert_eq!(line.live_text(), "kind:worktre");
}

#[test]
fn delete_previous_char_on_an_empty_buffer_does_not_panic_and_leaves_it_empty() {
    let mut line = FilterLine::new("");

    line.delete_previous_char();

    assert_eq!(line.live_text(), "");
    assert!(line.live_text().is_empty());
}

#[test]
fn filter_line_delete_previous_word_removes_one_trailing_whitespace_delimited_word() {
    let mut line = FilterLine::new("");
    for c in "kind:worktree is:dirty".chars() {
        line.type_char(c);
    }
    line.delete_previous_word();
    assert_eq!(line.live_text(), "kind:worktree ");
}

#[test]
fn filter_line_delete_previous_word_cuts_on_a_character_boundary_after_a_multi_byte_whitespace() {
    let mut line = FilterLine::new("");
    for c in "café\u{00A0}naïve".chars() {
        line.type_char(c);
    }

    line.delete_previous_word();

    assert_eq!(line.live_text(), "café\u{00A0}");

    for c in "naïve\u{2003}encore".chars() {
        line.type_char(c);
    }

    line.delete_previous_word();

    assert_eq!(line.live_text(), "café\u{00A0}naïve\u{2003}");
}

#[test]
fn clear_line_empties_the_buffer() {
    let mut line = FilterLine::new("kind:worktree");
    line.clear_line();
    assert_eq!(line.live_text(), "");
    assert!(line.live_text().is_empty());
}

#[test]
fn an_empty_term_offers_every_key() {
    assert_eq!(typed("").completions(&vocabulary()), every_key_entry());
    assert_eq!(typed("kind:repo ").completions(&vocabulary()), every_key_entry());
}

#[test]
fn a_bare_colon_offers_every_key() {
    assert_eq!(typed(":").completions(&vocabulary()), every_key_entry());
    assert_eq!(typed("-:").completions(&vocabulary()), every_key_entry());
}

#[test]
fn a_known_key_up_to_or_past_its_colon_offers_that_keys_own_values() {
    let kind_values: Vec<String> = vocabulary()
        .into_iter()
        .find(|entry| entry.key == "kind")
        .expect("`kind` is in the vocabulary")
        .values
        .iter()
        .map(|v| v.to_string())
        .collect();

    assert_eq!(typed("kind:").completions(&vocabulary()), kind_values);
    assert_eq!(typed("KIND:").completions(&vocabulary()), kind_values);
    assert_eq!(typed("-kind:").completions(&vocabulary()), kind_values);
    assert_eq!(typed("kind:wor").completions(&vocabulary()), kind_values);
}

#[test]
fn anything_else_offers_nothing() {
    assert!(typed("kin").completions(&vocabulary()).is_empty());
    assert!(typed("kind").completions(&vocabulary()).is_empty());
    assert!(typed("somerepo").completions(&vocabulary()).is_empty());
    assert!(typed("kimd:repo").completions(&vocabulary()).is_empty());
}

#[test]
fn a_free_text_keys_own_values_list_is_empty_so_its_list_still_vanishes() {
    assert!(typed("name:").completions(&vocabulary()).is_empty());
    assert!(typed("branch:something").completions(&vocabulary()).is_empty());
}

#[test]
fn tab_accepts_the_highlighted_key_and_appends_its_own_colon() {
    let mut line = typed("");
    line.accept_highlighted_completion(&vocabulary());
    assert_eq!(line.live_text(), "name:");
}

#[test]
fn tab_accepts_the_highlighted_value_after_moving_to_it() {
    let mut line = typed("kind:");
    line.move_completion_highlight(1, &vocabulary());
    line.accept_highlighted_completion(&vocabulary());
    assert_eq!(line.live_text(), "kind:worktree");
}

#[test]
fn accepting_a_value_after_a_comma_keeps_the_earlier_alternatives() {
    let mut line = typed("sync:ahead,");
    line.move_completion_highlight(1, &vocabulary()); // "ahead" -> "behind"
    line.accept_highlighted_completion(&vocabulary());
    assert_eq!(line.live_text(), "sync:ahead,behind");
}

#[test]
fn accepting_a_key_preserves_a_leading_negation() {
    let mut line = typed("-");
    line.accept_highlighted_completion(&vocabulary());
    assert_eq!(line.live_text(), "-name:");
}

#[test]
fn the_completion_list_offers_the_term_the_caret_sits_in_rather_than_the_last_one() {
    let kind_values: Vec<String> = vocabulary()
        .into_iter()
        .find(|entry| entry.key == "kind")
        .expect("`kind` is in the vocabulary")
        .values
        .iter()
        .map(|v| v.to_string())
        .collect();

    let mut line = typed("kind: is:dirty");
    assert!(
        line.completions(&vocabulary()) != kind_values,
        "with the caret at the end the last term is what is completed"
    );
    line.move_cursor(Motion::WordLeft);
    line.move_cursor(Motion::Left);
    assert_eq!(line.completions(&vocabulary()), kind_values);
}

#[test]
fn accepting_a_completion_leaves_the_text_after_the_caret_alone() {
    let mut line = typed("kind: is:dirty");
    line.move_cursor(Motion::WordLeft);
    line.move_cursor(Motion::Left);
    line.accept_highlighted_completion(&vocabulary());
    assert_eq!(line.live_text(), "kind:repo is:dirty");
    line.type_char('!');
    assert_eq!(
        line.live_text(),
        "kind:repo! is:dirty",
        "the caret follows what was accepted rather than jumping to the end"
    );
}

#[test]
fn moving_the_caret_resets_the_completion_highlight() {
    let mut line = typed("kind:");
    line.move_completion_highlight(1, &vocabulary());
    line.move_cursor(Motion::LineStart);
    line.move_cursor(Motion::LineEnd);
    line.accept_highlighted_completion(&vocabulary());
    assert_eq!(
        line.live_text(),
        "kind:repo",
        "the highlight is back on the first candidate"
    );
}

#[test]
fn typing_and_deleting_act_at_the_caret_rather_than_at_the_end_of_the_line() {
    let mut line = typed("kind:repo is:dirty");
    line.move_cursor(Motion::WordLeft);
    line.type_char('-');
    assert_eq!(line.live_text(), "kind:repo -is:dirty");

    line.delete_previous_char();
    assert_eq!(line.live_text(), "kind:repo is:dirty");

    line.delete_previous_word();
    assert_eq!(line.live_text(), "is:dirty");
}

#[test]
fn the_caret_sits_at_the_cursor_rather_than_after_the_last_character() {
    let mut line = typed("café");
    line.move_cursor(Motion::Left);
    let (buf, cursor) = draw_with_cursor(&line, 40);
    assert_eq!(
        cursor,
        Position::new(PROMPT_WIDTH + 3, 0),
        "\"caf\" is three columns after the prompt, whatever `é` costs in bytes"
    );
    assert!(
        row_text(&buf).starts_with("/ café"),
        "the text after the caret must still be painted: {:?}",
        row_text(&buf)
    );

    line.move_cursor(Motion::LineStart);
    let (_, cursor) = draw_with_cursor(&line, 40);
    assert_eq!(cursor, Position::new(PROMPT_WIDTH, 0));
}

#[test]
fn the_caret_lands_inside_a_warn_painted_term_at_the_cursor() {
    let mut line = typed("nope:x");
    line.move_cursor(Motion::Left);
    let (buf, cursor) = draw_with_cursor(&line, 40);
    assert_eq!(cursor, Position::new(PROMPT_WIDTH + 5, 0));
    assert!(
        row_text(&buf).starts_with("/ nope:x"),
        "both halves of the split segment must be painted: {:?}",
        row_text(&buf)
    );
}

#[test]
fn move_completion_highlight_clamps_at_both_ends_rather_than_wrapping() {
    let mut line = typed("kind:");
    let len = line.completions(&vocabulary()).len();
    assert_eq!(len, 3, "kind: repo, worktree, submodule");

    line.move_completion_highlight(-1, &vocabulary());
    line.accept_highlighted_completion(&vocabulary());
    assert_eq!(
        line.live_text(),
        "kind:repo",
        "moving above the first row must clamp to it, not wrap to the last"
    );

    let mut line = typed("kind:");
    line.move_completion_highlight(10, &vocabulary());
    line.accept_highlighted_completion(&vocabulary());
    assert_eq!(
        line.live_text(),
        "kind:submodule",
        "moving past the last row must clamp to it, not wrap to the first"
    );
}

#[test]
fn a_further_keystroke_resets_the_highlight() {
    let mut line = typed("kind:");
    line.move_completion_highlight(2, &vocabulary()); // "submodule", the last of three
    line.type_char('w');
    line.accept_highlighted_completion(&vocabulary());
    assert_eq!(
        line.live_text(),
        "kind:repo",
        "the highlight must reset to the first row rather than keep pointing at \
         \"submodule\", and accepting overwrites the \"w\" just typed along with it"
    );
}

#[test]
fn draw_completions_insets_its_rows_one_cell_from_the_frame() {
    let mut line = typed("kind:");
    line.move_completion_highlight(1, &vocabulary());
    let area = Rect::new(0, 0, 40, 5);
    let buf = draw_completions_to_buffer(&line, area);

    assert_eq!(interior_row_text(&buf, area, 0), "  repo");
    assert_eq!(interior_row_text(&buf, area, 1), "> worktree");
    assert_eq!(interior_row_text(&buf, area, 2), "  submodule");
}

#[test]
fn the_completion_overlay_is_the_row_cap_plus_its_two_border_rows() {
    let line = typed("");
    assert!(
        line.completions(&vocabulary()).len() > COMPLETION_MAX_ROWS,
        "this needs more candidates than the cap to mean anything"
    );
    let content = Rect::new(3, 2, 40, 20);
    let overlay = line
        .completion_area(lib(content), &vocabulary()).map(out)
        .expect("an empty term offers every key");

    assert_eq!(overlay.height as usize, COMPLETION_MAX_ROWS + 2);
    assert_eq!(overlay.y, content.bottom() - overlay.height);
    assert_eq!(overlay.x, content.x);
    assert_eq!(overlay.width, content.width);
}

#[test]
fn a_completion_list_shorter_than_the_cap_frames_only_the_rows_it_has() {
    let line = typed("kind:");
    assert_eq!(line.completions(&vocabulary()).len(), 3);
    let overlay = line
        .completion_area(lib(Rect::new(0, 0, 40, 20)), &vocabulary()).map(out)
        .expect("`kind:` offers its own three values");

    assert_eq!(overlay.height, 5);
}

#[test]
fn there_is_no_completion_overlay_when_the_term_offers_nothing() {
    let line = typed("brackets");
    assert!(line.completions(&vocabulary()).is_empty());
    assert!(line.completion_area(lib(Rect::new(0, 0, 40, 20)), &vocabulary()).is_none());
}

#[test]
fn a_list_area_too_short_for_an_interior_draws_no_completion_overlay() {
    let line = typed("kind:");
    assert!(line.completion_area(lib(Rect::new(0, 0, 40, 2)), &vocabulary()).is_none());
}

#[test]
fn draw_completions_marks_only_the_highlighted_row() {
    let mut line = typed("kind:");
    line.move_completion_highlight(1, &vocabulary());
    let area = Rect::new(0, 0, 40, 5);
    let buf = draw_completions_to_buffer(&line, area);

    assert_eq!(interior_row_text(&buf, area, 0), "  repo");
    assert_eq!(interior_row_text(&buf, area, 1), "> worktree");
    assert_eq!(interior_row_text(&buf, area, 2), "  submodule");
}

#[test]
fn scrolling_past_the_eight_row_cap_brings_a_later_key_into_view() {
    let mut line = typed("");
    let keys = every_key_entry();
    assert!(
        keys.len() > COMPLETION_MAX_ROWS,
        "this test needs more keys than the cap to mean anything"
    );

    for _ in 0..COMPLETION_MAX_ROWS {
        line.move_completion_highlight(1, &vocabulary());
    }
    let area = Rect::new(0, 0, 40, COMPLETION_MAX_ROWS as u16 + 2);
    let buf = draw_completions_to_buffer(&line, area);
    assert_eq!(
        interior_row_text(&buf, area, COMPLETION_MAX_ROWS as u16 - 1),
        format!("> {}", keys[8]),
        "the window must have scrolled down by one row to keep the ninth key visible"
    );
}

#[test]
fn drawing_into_a_zero_width_area_does_not_panic() {
    let line = typed("kind:repo");
    assert!(line.draw(lib(Rect::new(0, 0, 0, 1)), &Vec::new()).is_none());
}

#[test]
fn a_candidate_wider_than_the_interior_never_paints_over_the_frames_right_border() {
    let line = typed("unknown:");
    let area = Rect::new(0, 0, 12, 4);
    let widest = line
        .completions(&vocabulary())
        .iter()
        .map(|candidate| candidate.chars().count() + 2)
        .max()
        .expect("`unknown:` offers its own values");
    assert!(widest > (area.width - 2) as usize);

    let buf = draw_completions_to_buffer(&line, area);
    for y in 0..area.height {
        assert_eq!(buf[(area.width - 1, y)].symbol(), FRAME_MARK, "row {y}");
    }
}

#[test]
fn draw_completions_frames_the_list_with_the_active_glyph_tables_own_border() {
    for glyphs in [GlyphSet::full(), GlyphSet::ascii()] {
        let line = typed("kind:");
        let area = Rect::new(0, 0, 40, 5);
        let buf = draw_framed(&line, area, &glyphs.border.parts());
        let border = glyphs.border;
        for x in 0..40u16 {
            for y in 0..5u16 {
                let expected = match (x, y) {
                    (0, 0) => border.top_left,
                    (39, 0) => border.top_right,
                    (0, 4) => border.bottom_left,
                    (39, 4) => border.bottom_right,
                    (_, 0) | (_, 4) => border.horizontal,
                    (0, _) | (39, _) => border.vertical,
                    _ => continue,
                };
                assert_eq!(buf[(x, y)].symbol(), expected.to_string(), "({x}, {y})");
            }
        }
    }
}

#[test]
fn the_highlighted_candidate_is_always_in_view() {
    let mut line = typed("");
    let count = line.completions(&vocabulary()).len();
    let area = lib(Rect::new(0, 0, 40, COMPLETION_MAX_ROWS as u16 + 2));
    for step in 0..count {
        let rows = line.draw_completions(area, &vocabulary());
        assert_eq!(line.highlighted_row(), step);
        let marked: Vec<&str> = rows
            .iter()
            .map(|row| row.text.as_str())
            .filter(|text| text.starts_with("> "))
            .collect();
        assert_eq!(marked, vec![format!("> {}", every_key_entry()[step])]);
        line.move_completion_highlight(1, &vocabulary());
    }
}

#[test]
fn the_trigger_names_its_candidates_and_where_they_go() {
    let (trigger, at) = typed("kind:repo -sync:ahead,be").trigger(&vocabulary());
    assert!(matches!(trigger, Trigger::Values(_)));
    assert_eq!(at, "kind:repo -sync:ahead,".len());
    let (trigger, at) = typed("kind:repo -").trigger(&vocabulary());
    assert!(matches!(trigger, Trigger::Keys(_)));
    assert_eq!(at, "kind:repo -".len());
    let (trigger, _) = typed("plain").trigger(&vocabulary());
    assert!(matches!(trigger, Trigger::Nothing));
    assert!(trigger.candidates().is_empty());
}

#[test]
fn a_text_splits_into_its_warned_terms_and_what_lies_between() {
    assert_eq!(warn_split("ab cd ef", &vec![(3, 5)]), vec![("ab ", false), ("cd", true), (" ef", false)]);
    assert_eq!(warn_split("ab", &vec![(0, 2)]), vec![("ab", true)]);
    assert_eq!(warn_split("\u{00E9}", &Vec::new()), vec![("\u{00E9}", false)]);
    assert!(warn_split("", &Vec::new()).is_empty());
}

#[test]
fn a_segment_splits_only_where_the_cursor_stands_inside_it() {
    assert_eq!(split_at_cursor("caf\u{00E9}s", 8, 3), ("caf\u{00E9}", "s"));
    assert_eq!(split_at_cursor("abc", 3, 3), ("", "abc"));
    assert_eq!(split_at_cursor("abc", 6, 3), ("abc", ""));
    assert_eq!(split_at_cursor("abc", 0, 3), ("abc", ""));
}

#[test]
fn what_stands_before_the_caret_is_what_it_was_read_from() {
    let mut line = typed("kind:repo");
    line.move_cursor(Motion::Left);
    assert_eq!(line.before_caret(), "kind:rep");
    assert_eq!(line.live_text(), "kind:repo");
}

#[test]
fn the_caret_of_an_empty_line_stays_inside_the_narrowest_areas() {
    let line = FilterLine::new("");
    for (width, column) in [(1, 0), (2, 1), (3, 2), (4, 2), (40, 2)] {
        let area = repon::paint::Rect { x: 7, y: 0, width, height: 1 };
        let plan = line.draw(area, &Vec::new()).expect("an area with a column");
        assert_eq!(plan.caret, Caret::Column(column), "width {width}");
        assert_eq!(caret_x(&plan, area, &Vec::new()), 7 + column, "width {width}");
        assert_eq!(draw_with_cursor(&line, width).1, Position::new(column, 0));
    }
    let nothing = repon::paint::Rect { x: 7, y: 0, width: 0, height: 1 };
    assert_eq!(line.draw(nothing, &Vec::new()), None);
}

#[test]
fn the_caret_never_passes_the_advisory_column_and_no_run_reaches_it() {
    let area = repon::paint::Rect { x: 5, y: 0, width: 10, height: 1 };
    let mut line = typed("kind:worktree");
    let plan = line.draw(area, &Vec::new()).expect("an area with a column");
    assert_eq!(plan.advisory_x, 14);
    assert_eq!(plan.room(5), 9);
    assert_eq!(plan.room(13), 1);
    assert_eq!(plan.room(14), 0);
    assert_eq!(plan.room(20), 0);
    assert_eq!(plan.caret, Caret::BehindRuns(1));
    assert_eq!(caret_x(&plan, area, &vec![7, 11]), 11);
    assert_eq!(caret_x(&plan, area, &vec![7, 14]), 14);
    assert_eq!(caret_x(&plan, area, &vec![7, 60]), 14);
    assert_eq!(caret_x(&plan, area, &vec![7]), 14);
    line.move_cursor(Motion::LineStart);
    let plan = line.draw(area, &Vec::new()).expect("an area with a column");
    assert_eq!(caret_x(&plan, area, &vec![7, 7, 14]), 7);
    for width in 1..6 {
        let (_, cursor) = draw_with_cursor(&typed("kind:worktree"), width);
        assert_eq!(cursor, Position::new(width - 1, 0));
    }
}

#[test]
fn what_a_completion_overwrites_is_named_in_bytes() {
    let (trigger, at) = typed("\u{e9} ").trigger(&vocabulary());
    assert!(matches!(trigger, Trigger::Keys(_)));
    assert_eq!(at, 3);
    let (_, at) = typed("\u{e9} kind:w").trigger(&vocabulary());
    assert_eq!(at, "\u{e9} kind:".len());
}
