use std::collections::{HashMap, HashSet};

use ratatui::backend::TestBackend;
use ratatui::symbols::border;
use ratatui::text::Span;
use ratatui::widgets::{Block, Borders};
use ratatui::Terminal;
use repon::glyphs::{disjoint, Border, BorderScratch, GlyphSet, Glyphs, Meaning};
use repon::paint::{bordered_interior, Rect};

fn full() -> GlyphSet {
    GlyphSet::full()
}

fn ascii() -> GlyphSet {
    GlyphSet::ascii()
}

/// The eight parts of a frame, each as text.
fn slots_of(border: &Border) -> Vec<String> {
    border.parts().iter().map(|part| part.to_string()).collect()
}

/// A block framed by the eight parts `slots`.
fn framed(slots: &[String]) -> Block<'_> {
    Block::default().borders(Borders::ALL).border_set(border::Set {
        top_left: &slots[0],
        top_right: &slots[1],
        bottom_left: &slots[2],
        bottom_right: &slots[3],
        vertical_left: &slots[4],
        vertical_right: &slots[5],
        horizontal_top: &slots[6],
        horizontal_bottom: &slots[7],
    })
}

/// No two distinct meanings render as the same glyph.
fn assert_row_interior_is_injective(label: &str, set: &GlyphSet) {
    let glyphs = set.row_interior();
    for i in 0..glyphs.len() {
        for j in (i + 1)..glyphs.len() {
            let (meaning_a, glyph_a) = glyphs[i];
            let (meaning_b, glyph_b) = glyphs[j];
            if meaning_a == meaning_b {
                // Every loading frame shares the one Loading meaning.
                continue;
            }
            assert_ne!(
                glyph_a, glyph_b,
                "{label} glyph table: {meaning_a:?} and {meaning_b:?} both render as {glyph_a:?}"
            );
        }
    }
}

#[test]
fn the_full_table_never_lets_two_meanings_share_a_glyph() {
    assert_row_interior_is_injective("full", &full());
}

#[test]
fn the_ascii_table_never_lets_two_meanings_share_a_glyph() {
    assert_row_interior_is_injective("ascii", &ascii());
}

#[test]
fn a_character_present_in_both_tables_carries_the_same_meaning_in_each() {
    let in_full: HashMap<char, Meaning> = full()
        .row_interior()
        .into_iter()
        .map(|(m, c)| (c, m))
        .collect();

    for (ascii_meaning, glyph) in ascii().row_interior() {
        if let Some(&full_meaning) = in_full.get(&glyph) {
            assert_eq!(
                full_meaning, ascii_meaning,
                "'{glyph}' means {full_meaning:?} in the full table and {ascii_meaning:?} in the ascii table"
            );
        }
    }
}

#[test]
fn both_tables_define_glyphs_for_the_same_set_of_meanings() {
    let in_full: HashSet<Meaning> = full().row_interior().into_iter().map(|(m, _)| m).collect();
    let in_ascii: HashSet<Meaning> = ascii().row_interior().into_iter().map(|(m, _)| m).collect();

    assert_eq!(
        in_full, in_ascii,
        "the full and ascii tables define glyphs for a different set of meanings"
    );
}

#[test]
fn the_full_spinner_is_the_canonical_ten_frame_dots_set_with_no_blank_frame() {
    assert_eq!(full().loading.len(), 10);
    assert_eq!(
        full().loading,
        vec!['⠋', '⠙', '⠹', '⠸', '⠼', '⠴', '⠦', '⠧', '⠇', '⠏']
    );
    assert!(
        !full().loading.contains(&'\u{2800}'),
        "the full spinner must not contain U+2800, the blank braille frame, which would \
         render as Fresh's space"
    );
}

#[test]
fn the_dropped_submodule_marker_appears_in_neither_table() {
    let dropped = '\u{2219}';
    assert!(
        !full().all_glyphs().contains(&dropped),
        "'{dropped}' reappeared in the full table"
    );
    assert!(
        !ascii().all_glyphs().contains(&dropped),
        "'{dropped}' reappeared in the ascii table"
    );
}

#[test]
fn running_the_row_interior_disjointness_check_over_the_ascii_frame_table_fails() {
    let frame_glyphs = [
        ascii().border.top_left,
        ascii().border.top_right,
        ascii().border.bottom_left,
        ascii().border.bottom_right,
        ascii().border.horizontal,
        ascii().border.vertical,
    ];
    assert!(
        !disjoint(&ascii().value_core(), &frame_glyphs),
        "expected the ascii frame to collide with the row interior's value glyphs, which \
         is the collision the frame's exemption exists to permit"
    );
}

#[test]
fn the_ascii_border_shares_its_horizontal_rule_with_the_no_upstream_value_mark_and_that_is_permitted()
 {
    assert_eq!(
        ascii().border.horizontal, ascii().no_upstream,
        "the specific known collision the frame's exemption from row-interior \
         disjointness covers"
    );
}

#[test]
fn the_ascii_border_shares_its_corner_glyph_with_the_checked_value_mark_and_that_is_permitted()
{
    assert_eq!(
        ascii().border.top_left, ascii().checked,
        "the specific known collision the frame's exemption from row-interior \
         disjointness covers"
    );
}

#[test]
fn the_truncated_value_mark_is_the_same_dollar_character_in_both_tables_and_collides_with_neither_frame()
 {
    assert_eq!(full().truncated, '$');
    assert_eq!(ascii().truncated, '$');
    assert_ne!(
        ascii().border.top_left, ascii().truncated,
        "the ascii border's corner must not collide with the truncation mark the way it \
         does, permitted, with `Checked`"
    );
    assert_ne!(
        ascii().border.horizontal, ascii().truncated,
        "the ascii border's horizontal rule must not collide with the truncation mark"
    );
}

#[test]
fn the_ascii_frames_four_corners_collapse_onto_one_character() {
    let corners = [
        ascii().border.top_left,
        ascii().border.top_right,
        ascii().border.bottom_left,
        ascii().border.bottom_right,
    ];
    assert!(
        corners.iter().all(|&corner| corner == '+'),
        "expected every ascii corner to collapse onto '+', got {corners:?}"
    );
}

#[test]
fn the_ascii_spinners_middle_frame_shares_the_border_verticals_glyph_and_that_is_the_accepted_one_beat_in_three_artefact()
 {
    assert_eq!(
        ascii().loading[1], '|',
        "expected the ascii spinner's middle frame to be '|', the one that meets the border"
    );
    assert_eq!(
        ascii().border.vertical, ascii().loading[1],
        "the specific accepted collision: one beat in three, only while a row holds no \
         values at all"
    );
}

#[test]
fn for_config_selects_the_table_the_glyphs_key_names() {
    assert_eq!(GlyphSet::for_config(Glyphs::Full), full());
    assert_eq!(GlyphSet::for_config(Glyphs::Ascii), ascii());
}

#[test]
fn the_two_tables_frame_a_panel_with_different_characters() {
    for (label, full, ascii) in [
        ("top left", full().border.top_left, ascii().border.top_left),
        ("top right", full().border.top_right, ascii().border.top_right),
        (
            "bottom left",
            full().border.bottom_left,
            ascii().border.bottom_left,
        ),
        (
            "bottom right",
            full().border.bottom_right,
            ascii().border.bottom_right,
        ),
        (
            "horizontal",
            full().border.horizontal,
            ascii().border.horizontal,
        ),
        ("vertical", full().border.vertical, ascii().border.vertical),
    ] {
        assert_ne!(
            full, ascii,
            "the two tables draw the same {label}, so nothing on screen degrades when \
             `glyphs = \"ascii\"` is set"
        );
    }
}

#[test]
fn every_glyph_in_both_tables_measures_one_column_under_the_renderers_width_function() {
    for (label, set) in [("full", full()), ("ascii", ascii())] {
        for glyph in set.all_glyphs() {
            let rendered = glyph.to_string();
            assert_eq!(
                Span::raw(rendered.as_str()).width(),
                1,
                "{label} glyph {glyph:?} does not measure one column"
            );
        }
    }
}

#[test]
fn the_bordered_block_draws_every_cell_of_the_frame_from_this_tables_own_characters() {
    for (label, table) in [("full", full()), ("ascii", ascii())] {
        let area = ratatui::layout::Rect::new(0, 0, 12, 5);
        let mut terminal = Terminal::new(TestBackend::new(12, 5)).expect("create test terminal");
        let slots = slots_of(&table.border);
        terminal
            .draw(|frame| frame.render_widget(framed(&slots), area))
            .expect("draw the frame");
        let buffer = terminal.backend().buffer();
        let border = table.border;
        for x in 0..12u16 {
            for y in 0..5u16 {
                let expected = match (x, y) {
                    (0, 0) => border.top_left,
                    (11, 0) => border.top_right,
                    (0, 4) => border.bottom_left,
                    (11, 4) => border.bottom_right,
                    (_, 0) | (_, 4) => border.horizontal,
                    (0, _) | (11, _) => border.vertical,
                    _ => ' ',
                };
                assert_eq!(buffer[(x, y)].symbol(), expected.to_string(), "{label} ({x}, {y})");
            }
        }
    }
}

#[test]
fn the_frame_inset_is_the_same_under_either_table() {
    for (x, y, width, height) in [(0, 0, 40, 10), (3, 7, 88, 24), (0, 0, 2, 2)] {
        let area = ratatui::layout::Rect::new(x, y, width, height);
        let full_slots = slots_of(&full().border);
        let ascii_slots = slots_of(&ascii().border);
        let inner = framed(&full_slots).inner(area);
        assert_eq!(inner, framed(&ascii_slots).inner(area));
        assert_eq!(
            bordered_interior(Rect { x, y, width, height }),
            Rect { x: inner.x, y: inner.y, width: inner.width, height: inner.height }
        );
    }
}

#[test]
fn a_frame_too_small_for_an_interior_has_an_empty_one() {
    assert_eq!(
        bordered_interior(Rect { x: 4, y: 5, width: 1, height: 0 }),
        Rect { x: 5, y: 5, width: 0, height: 0 }
    );
    assert_eq!(
        bordered_interior(Rect { x: 4, y: 5, width: 0, height: 9 }),
        Rect { x: 4, y: 6, width: 0, height: 7 }
    );
}

#[test]
fn gutter_and_value_marks_never_meet() {
    for table in [full(), ascii()] {
        assert!(disjoint(&table.gutter_core(), &table.value_core()));
        assert!(disjoint(&table.loading, &table.value_core()));
    }
}

#[test]
fn every_meaning_has_a_glyph_in_both_tables() {
    for table in [full(), ascii()] {
        for meaning in Meaning::all() {
            assert!(table.row_interior().iter().any(|(named, _)| *named == meaning), "{meaning:?}");
        }
    }
}

#[test]
fn a_new_scratch_holds_eight_empty_slots() {
    assert_eq!(BorderScratch::new().slots, [[0u8; 4]; 8]);
    let scratch: BorderScratch = Default::default();
    assert_eq!(scratch.slots, [[0u8; 4]; 8]);
}
