use ratatui::buffer::Buffer;
use ratatui::layout::Rect;
use ratatui::style::{Color, Style};
use ratatui::widgets::{Block, Clear, Widget};
use repon::environment::Environment;
use repon::launcher::{Launcher, Source};
use repon::launcher_palette::{
    matching, LauncherPalette, MIN_POPUP_HEIGHT, MIN_POPUP_WIDTH,
    NO_LAUNCHERS_CONFIGURED_MESSAGE, NO_MATCHES_MESSAGE,
};
use repon::paint::Role;

fn launcher(name: &str) -> Launcher {
    Launcher {
        name: name.to_string(),
        source: Source::Args(vec!["true".to_string()]),
        shell: false,
        env: Environment::new(),
    }
}

fn color(role: Role) -> Color {
    match role {
        Role::Text => Color::Reset,
        Role::Dim => Color::DarkGray,
        Role::Accent => Color::Cyan,
        Role::Okay => Color::Green,
        Role::Warn => Color::Yellow,
        Role::Danger => Color::Red,
        Role::Behind => Color::Magenta,
        Role::Border => Color::Gray,
        Role::BorderFocused => Color::Blue,
    }
}

fn lib(area: Rect) -> repon::paint::Rect {
    repon::paint::Rect { x: area.x, y: area.y, width: area.width, height: area.height }
}

fn out(area: repon::paint::Rect) -> Rect {
    Rect::new(area.x, area.y, area.width, area.height)
}

fn row_text(buf: &Buffer, y: u16, width: u16) -> String {
    (0..width)
        .map(|x| buf[(x, y)].symbol().to_string())
        .collect()
}

/// The frame every palette below is drawn over.
fn frame_area() -> Rect {
    Rect::new(0, 0, 40, 10)
}

fn popup_of(
    palette: &LauncherPalette,
    frame: Rect,
    launchers: &Vec<Launcher>,
    entity_name: &str,
) -> Rect {
    out(palette.popup_area(lib(frame), launchers, entity_name))
}

/// The palette painted over a frame filled with `beneath`.
fn draw_over(
    palette: &LauncherPalette,
    launchers: &Vec<Launcher>,
    entity_name: &str,
    beneath: &str,
) -> Buffer {
    let mut buf = Buffer::empty(frame_area());
    for y in 0..frame_area().height {
        buf.set_string(0, y, beneath.repeat(frame_area().width as usize), Style::new());
    }
    let popup = popup_of(palette, frame_area(), launchers, entity_name);
    let plan = palette.draw(lib(popup), launchers, entity_name);
    Clear.render(popup, &mut buf);
    Block::bordered()
        .border_style(Style::new().fg(color(plan.border_role)))
        .title(plan.title.clone())
        .render(popup, &mut buf);
    let query = &plan.query;
    buf.set_string(query.x, query.y, &query.text, Style::new().fg(color(plan.query_role)));
    if let Some(message) = &plan.message {
        let style = Style::new().fg(color(plan.message_role));
        buf.set_string(message.x, message.y, &message.text, style);
    }
    for entry in &plan.entries {
        buf.set_string(entry.x, entry.y, &entry.text, Style::new());
    }
    buf
}

fn draw_to_buffer(
    palette: &LauncherPalette,
    launchers: &Vec<Launcher>,
    entity_name: &str,
) -> Buffer {
    draw_over(palette, launchers, entity_name, " ")
}

fn popup_interior(palette: &LauncherPalette, launchers: &Vec<Launcher>, entity_name: &str) -> Rect {
    let popup = popup_of(palette, frame_area(), launchers, entity_name);
    Rect {
        x: popup.x + 1,
        y: popup.y + 1,
        width: popup.width.saturating_sub(2),
        height: popup.height.saturating_sub(2),
    }
}

#[test]
fn matching_is_case_insensitive_substring_and_empty_query_matches_everything() {
    let launchers = vec![launcher("lazygit"), launcher("tuicr")];

    assert_eq!(
        matching(&launchers, "LAZY")
            .iter()
            .map(|l| l.name.as_str())
            .collect::<Vec<_>>(),
        vec!["lazygit"]
    );
    assert_eq!(matching(&launchers, "").len(), 2);
    assert!(matching(&launchers, "nothing-named-this").is_empty());
}

#[test]
fn a_query_naming_an_action_never_matches_any_launcher_palette_entry() {
    let launchers = vec![launcher("lazygit"), launcher("tuicr")];
    let action_only_name = "reinstall";

    assert!(matching(&launchers, action_only_name).is_empty());
}

#[test]
fn draw_lists_every_match_in_order_with_none_dropped_or_duplicated() {
    let launchers = vec![
        launcher("alpha"),
        launcher("beta"),
        launcher("gamma"),
        launcher("delta"),
    ];
    let palette = LauncherPalette::new();
    let buf = draw_to_buffer(&palette, &launchers, "repo-a");
    let interior = popup_interior(&palette, &launchers, "repo-a");

    let rendered: Vec<String> = (interior.y..interior.y + interior.height)
        .map(|y| row_text(&buf, y, 40))
        .collect();
    let occurrences = |name: &str| rendered.iter().filter(|line| line.contains(name)).count();
    for name in ["alpha", "beta", "gamma", "delta"] {
        assert_eq!(
            occurrences(name),
            1,
            "expected {name:?} to appear exactly once, got: {rendered:?}"
        );
    }
    let position = |name: &str| {
        rendered
            .iter()
            .position(|line| line.contains(name))
            .unwrap_or_else(|| panic!("{name:?} missing from {rendered:?}"))
    };
    assert!(
        position("alpha") < position("beta")
            && position("beta") < position("gamma")
            && position("gamma") < position("delta"),
        "expected file order alpha, beta, gamma, delta, got: {rendered:?}"
    );
}

#[test]
fn draw_marks_only_the_cursor_row() {
    let launchers = vec![launcher("alpha"), launcher("beta"), launcher("gamma")];
    let mut palette = LauncherPalette::new();
    palette.move_highlight(2, &launchers);

    let buf = draw_to_buffer(&palette, &launchers, "repo-a");
    let interior = popup_interior(&palette, &launchers, "repo-a");
    assert!(row_text(&buf, interior.y + 3, 40).contains("> gamma"));
    assert!(!row_text(&buf, interior.y, 40).contains('>'));
    assert!(!row_text(&buf, interior.y + 1, 40).contains('>'));
    assert!(!row_text(&buf, interior.y + 2, 40).contains('>'));
}

#[test]
fn draw_names_the_one_entity_a_choice_would_act_on_in_the_border_title() {
    let launchers = vec![launcher("lazygit")];
    let palette = LauncherPalette::new();
    let buf = draw_to_buffer(&palette, &launchers, "worktree-name");
    let popup = popup_of(&palette, frame_area(), &launchers, "worktree-name");

    assert!(
        row_text(&buf, popup.y, 40).contains("worktree-name"),
        "expected the border title to name the one Entity the choice would act on"
    );
}

#[test]
fn the_launcher_palette_reuses_an_existing_role_rather_than_a_new_tenth_one() {
    assert_eq!(
        Role::all().len(),
        9,
        "the Launcher palette's border must be one of the existing nine roles"
    );
}

#[test]
fn move_highlight_clamps_at_both_ends_rather_than_wrapping() {
    let launchers = vec![launcher("a"), launcher("b")];
    let mut palette = LauncherPalette::new();

    palette.move_highlight(-1, &launchers);
    assert_eq!(palette.highlighted(&launchers).unwrap().name, "a");

    palette.move_highlight(1, &launchers);
    assert_eq!(palette.highlighted(&launchers).unwrap().name, "b");

    palette.move_highlight(1, &launchers);
    assert_eq!(
        palette.highlighted(&launchers).unwrap().name,
        "b",
        "moving past the last entry must clamp, not wrap back to the first"
    );
}

#[test]
fn typing_a_character_that_narrows_the_match_list_clamps_a_cursor_sitting_past_the_new_end() {
    let launchers = vec![launcher("aa"), launcher("ab"), launcher("cc")];
    let mut palette = LauncherPalette::new();
    palette.move_highlight(1, &launchers); // cursor -> 1 ("ab"), among all three

    palette.type_char('a', &launchers); // narrows to ["aa", "ab"]; cursor 1 still valid
    assert_eq!(palette.highlighted(&launchers).unwrap().name, "ab");

    palette.type_char('b', &launchers); // narrows to ["ab"] alone; cursor must clamp to 0
    assert_eq!(palette.highlighted(&launchers).unwrap().name, "ab");
}

#[test]
fn delete_previous_char_removes_the_last_character_and_re_narrows_the_match_list() {
    let launchers = vec![launcher("reinstall"), launcher("deploy")];
    let mut palette = LauncherPalette::new();
    for c in "reinstallx".chars() {
        palette.type_char(c, &launchers);
    }
    assert_eq!(
        palette.matches(&launchers).len(),
        0,
        "\"reinstallx\" must match no configured launcher"
    );

    palette.delete_previous_char(&launchers);

    assert_eq!(
        palette.matches(&launchers).len(),
        1,
        "removing the trailing \"x\" must restore the \"reinstall\" match"
    );
}

#[test]
fn delete_previous_char_on_an_empty_query_does_not_panic_and_leaves_it_empty() {
    let launchers = vec![launcher("reinstall")];
    let mut palette = LauncherPalette::new();

    palette.delete_previous_char(&launchers);

    assert_eq!(
        palette.matches(&launchers).len(),
        1,
        "an empty query still matches everything"
    );
}

#[test]
fn launcher_palette_delete_previous_word_removes_one_trailing_whitespace_delimited_word() {
    let launchers = vec![launcher("reinstall")];
    let mut palette = LauncherPalette::new();
    for c in "re install".chars() {
        palette.type_char(c, &launchers);
    }

    palette.delete_previous_word(&launchers);

    assert_eq!(
        palette.matches(&launchers).len(),
        0,
        "query is now just \"re \" (with a trailing space), which is not a substring of \
         \"reinstall\""
    );
}

#[test]
fn launcher_palette_delete_previous_word_cuts_on_a_character_boundary_after_a_multi_byte_whitespace() {
    let launchers = vec![launcher("café\u{00A0}naïve")];
    let mut palette = LauncherPalette::new();
    for c in "café\u{00A0}naïve".chars() {
        palette.type_char(c, &launchers);
    }

    palette.delete_previous_word(&launchers);

    assert_eq!(palette.text(), "café\u{00A0}");

    for c in "naïve\u{2003}encore".chars() {
        palette.type_char(c, &launchers);
    }

    palette.delete_previous_word(&launchers);

    assert_eq!(palette.text(), "café\u{00A0}naïve\u{2003}");
}

#[test]
fn delete_previous_word_renarrows_the_match_list_to_the_shortened_query() {
    let launchers = vec![
        launcher("café\u{00A0}naïve"),
        launcher("café\u{00A0}encore"),
        launcher("zzz"),
    ];
    let mut palette = LauncherPalette::new();
    for c in "café\u{00A0}naïve".chars() {
        palette.type_char(c, &launchers);
    }
    assert_eq!(palette.matches(&launchers).len(), 1);

    palette.delete_previous_word(&launchers);

    let matched: Vec<&str> = palette
        .matches(&launchers)
        .iter()
        .map(|entry| entry.name.as_str())
        .collect();
    assert_eq!(
        matched,
        vec!["café\u{00A0}naïve", "café\u{00A0}encore"],
        "the query is now \"café\u{00A0}\": one whole word gone, neither one character \
         nor the whole query"
    );
}

#[test]
fn clear_line_empties_the_query_and_restores_every_match() {
    let launchers = vec![launcher("lazygit"), launcher("tuicr")];
    let mut palette = LauncherPalette::new();
    palette.type_char('l', &launchers);
    assert_eq!(palette.matches(&launchers).len(), 1);

    palette.clear_line(&launchers);

    assert_eq!(palette.matches(&launchers).len(), 2);
}

#[test]
fn choose_returns_the_highlighted_launcher_cloned() {
    let launchers = vec![launcher("lazygit"), launcher("tuicr")];
    let mut palette = LauncherPalette::new();
    palette.move_highlight(1, &launchers);

    let chosen = palette.chosen(&launchers).expect("a highlighted entry");

    assert_eq!(chosen.name, "tuicr");
}

#[test]
fn choose_with_no_match_at_all_returns_none() {
    let launchers = vec![launcher("lazygit")];
    let mut palette = LauncherPalette::new();
    palette.type_char('z', &launchers);
    palette.type_char('z', &launchers);

    assert!(palette.chosen(&launchers).is_none());
}

#[test]
fn an_empty_launcher_list_leaves_the_cursor_at_zero_and_draws_nothing_for_every_movement_action()
 {
    let mut palette = LauncherPalette::new();
    for delta in [-1isize, 0, 1] {
        palette.move_highlight(delta, &Vec::new());
        assert!(palette.highlighted(&Vec::new()).is_none());
    }
    assert!(palette.chosen(&Vec::new()).is_none());

    let buf = draw_to_buffer(&palette, &Vec::new(), "repo-a");
    let interior = popup_interior(&palette, &Vec::new(), "repo-a");
    assert!(
        row_text(&buf, interior.y + 1, 40).contains(NO_LAUNCHERS_CONFIGURED_MESSAGE),
        "an empty Launcher list must say so and name where to declare one, rather than \
         rendering an empty interior"
    );
}

#[test]
fn the_typed_query_is_visible_and_updates_as_characters_are_added_and_removed() {
    let launchers = vec![launcher("lazygit"), launcher("tuicr")];
    let mut palette = LauncherPalette::new();

    let empty = draw_to_buffer(&palette, &launchers, "repo-a");
    let empty_interior = popup_interior(&palette, &launchers, "repo-a");
    assert!(
        !row_text(&empty, empty_interior.y, 40).contains("zzq"),
        "an unopened query must not already show text nobody typed"
    );

    for c in "zzq".chars() {
        palette.type_char(c, &launchers);
    }
    let typed = draw_to_buffer(&palette, &launchers, "repo-a");
    let typed_interior = popup_interior(&palette, &launchers, "repo-a");
    assert!(
        row_text(&typed, typed_interior.y, 40).contains("zzq"),
        "expected the typed query on the interior's first row: {:?}",
        row_text(&typed, typed_interior.y, 40)
    );

    palette.delete_previous_word(&launchers);
    let cleared = draw_to_buffer(&palette, &launchers, "repo-a");
    let cleared_interior = popup_interior(&palette, &launchers, "repo-a");
    assert!(
        !row_text(&cleared, cleared_interior.y, 40).contains("zzq"),
        "removing the typed characters must remove them from the query row too: {:?}",
        row_text(&cleared, cleared_interior.y, 40)
    );
}

#[test]
fn a_query_matching_no_launcher_says_so_without_leaving_stale_rows() {
    let launchers = vec![launcher("lazygit"), launcher("tuicr")];
    let mut palette = LauncherPalette::new();
    for c in "zzq".chars() {
        palette.type_char(c, &launchers);
    }

    let buf = draw_to_buffer(&palette, &launchers, "repo-a");
    let interior = popup_interior(&palette, &launchers, "repo-a");
    let message_row = interior.y + 1;

    assert!(
        row_text(&buf, message_row, 40).contains(NO_MATCHES_MESSAGE),
        "expected the no-matches message, got: {:?}",
        row_text(&buf, message_row, 40)
    );
    for name in ["lazygit", "tuicr"] {
        for y in interior.y..interior.y + interior.height {
            assert!(
                !row_text(&buf, y, 40).contains(name),
                "a no-matches render must not also list a stale row for {name:?}"
            );
        }
    }
}

#[test]
fn no_matches_and_nothing_configured_render_differently_from_each_other() {
    let some_launchers = vec![launcher("lazygit")];
    let mut no_match = LauncherPalette::new();
    for c in "zzq".chars() {
        no_match.type_char(c, &some_launchers);
    }
    let nothing_configured = LauncherPalette::new();

    let no_match_buf = draw_to_buffer(&no_match, &some_launchers, "repo-a");
    let no_match_interior = popup_interior(&no_match, &some_launchers, "repo-a");
    let nothing_configured_buf = draw_to_buffer(&nothing_configured, &Vec::new(), "repo-a");
    let nothing_configured_interior = popup_interior(&nothing_configured, &Vec::new(), "repo-a");

    assert_ne!(
        row_text(&no_match_buf, no_match_interior.y + 1, 40),
        row_text(
            &nothing_configured_buf,
            nothing_configured_interior.y + 1,
            40
        ),
        "a query matching nothing and an empty Launcher list must render differently"
    );
}

#[test]
fn clearing_the_query_restores_the_full_list_on_screen() {
    let launchers = vec![launcher("lazygit"), launcher("tuicr")];
    let mut palette = LauncherPalette::new();
    palette.type_char('l', &launchers);
    let narrowed = draw_to_buffer(&palette, &launchers, "repo-a");
    let narrowed_interior = popup_interior(&palette, &launchers, "repo-a");
    assert!(!row_text(&narrowed, narrowed_interior.y + 2, 40).contains("tuicr"));

    palette.clear_line(&launchers);

    let restored = draw_to_buffer(&palette, &launchers, "repo-a");
    let restored_interior = popup_interior(&palette, &launchers, "repo-a");
    assert!(row_text(&restored, restored_interior.y + 1, 40).contains("lazygit"));
    assert!(row_text(&restored, restored_interior.y + 2, 40).contains("tuicr"));
}

#[test]
fn the_popup_is_clamped_to_fit_and_read_at_the_88_column_narrow_screen() {
    let launchers = vec![launcher("a-fairly-long-launcher-name-for-this-fixture")];
    let palette = LauncherPalette::new();
    let narrow_frame = Rect::new(0, 0, 88, 24);

    let popup = popup_of(&palette, narrow_frame, &launchers, "repo-a");

    assert!(
        popup.x + popup.width <= narrow_frame.width
            && popup.y + popup.height <= narrow_frame.height,
        "the popup must fit entirely inside the 88-column narrow screen, got {popup:?}"
    );
    assert!(
        popup.width >= MIN_POPUP_WIDTH && popup.height >= MIN_POPUP_HEIGHT,
        "the popup must still read as a palette, not shrink to nothing, got {popup:?}"
    );
}

#[test]
fn a_table_taller_than_the_popup_does_not_make_the_popup_taller_than_the_frame() {
    let launchers: Vec<Launcher> = (0..200)
        .map(|i| launcher(&format!("launcher-{i}")))
        .collect();
    let palette = LauncherPalette::new();
    let frame = frame_area();

    let popup = popup_of(&palette, frame, &launchers, "repo-a");

    assert!(
        popup.height <= frame.height,
        "a 200-entry Launcher list must not grow the popup past the frame's own \
         height, got {popup:?} against frame height {}",
        frame.height
    );

    let _ = draw_to_buffer(&palette, &launchers, "repo-a");
}

#[test]
fn draw_paints_the_border_in_the_themes_border_focused_colour() {
    let launchers = vec![launcher("lazygit")];
    let palette = LauncherPalette::new();
    let buf = draw_to_buffer(&palette, &launchers, "repo-a");
    let popup = popup_of(&palette, frame_area(), &launchers, "repo-a");
    assert_eq!(buf[(popup.x, popup.y)].fg, color(Role::BorderFocused));
}

#[test]
fn stripped_of_colour_the_highlighted_row_is_still_distinguishable_by_its_own_marker() {
    let launchers = vec![launcher("lazygit"), launcher("tuicr")];
    let mut palette = LauncherPalette::new();
    palette.move_highlight(1, &launchers);
    let buf = draw_to_buffer(&palette, &launchers, "repo-a");
    let interior = popup_interior(&palette, &launchers, "repo-a");
    assert!(
        row_text(&buf, interior.y + 2, 40).contains("> tuicr"),
        "the highlighted row must read as highlighted from its text alone: {:?}",
        row_text(&buf, interior.y + 2, 40)
    );
    assert!(!row_text(&buf, interior.y + 1, 40).contains('>'));
}

#[test]
fn the_popup_does_not_take_the_whole_frame_the_corners_stay_as_drawn_underneath() {
    let launchers = vec![launcher("lazygit")];
    let palette = LauncherPalette::new();
    let buf = draw_over(&palette, &launchers, "repo-a", "#");
    assert_eq!(buf[(0, 0)].symbol(), "#");
    assert_eq!(buf[(39, 9)].symbol(), "#");
}

#[test]
fn clear_is_rendered_under_the_popup_so_a_stale_cell_from_beneath_does_not_bleed_through() {
    let launchers = vec![launcher("lazygit")];
    let palette = LauncherPalette::new();
    let buf = draw_over(&palette, &launchers, "repo-a", "#");
    let interior = popup_interior(&palette, &launchers, "repo-a");
    let trailing_x = interior.x + 2;
    assert!(trailing_x < interior.x + interior.width);
    assert_ne!(buf[(trailing_x, interior.y)].symbol(), "#");
}

#[test]
fn the_popup_is_its_content_with_a_frame_round_it_in_the_middle_of_the_frame() {
    let launchers = vec![launcher("a-launcher-with-a-name-of-34-bytes"), launcher("b")];
    let palette = LauncherPalette::new();
    let frame = repon::paint::Rect { x: 0, y: 0, width: 100, height: 25 };
    assert_eq!(palette.popup_dimensions(frame, &launchers, "repo-a"), (38, 5));
    let popup = palette.popup_area(frame, &launchers, "repo-a");
    assert_eq!((popup.x, popup.y, popup.width, popup.height), (31, 10, 38, 5));
}

#[test]
fn a_message_or_a_long_entity_name_widens_the_popup_too() {
    let frame = repon::paint::Rect { x: 0, y: 0, width: 100, height: 25 };
    let palette = LauncherPalette::new();
    assert_eq!(
        palette.popup_dimensions(frame, &Vec::new(), "x"),
        (NO_LAUNCHERS_CONFIGURED_MESSAGE.len() as u16 + 2, MIN_POPUP_HEIGHT)
    );
    let name = "n".repeat(60);
    assert_eq!(palette.popup_dimensions(frame, &vec![launcher("b")], &name), (64, 4));
}

#[test]
fn only_as_many_matches_as_fit_below_the_query_are_listed() {
    let launchers: Vec<Launcher> = (0..20).map(|i| launcher(&format!("launcher-{i}"))).collect();
    let palette = LauncherPalette::new();
    let popup = repon::paint::Rect { x: 0, y: 0, width: 30, height: 6 };
    let plan = palette.draw(popup, &launchers, "repo-a");
    let texts: Vec<(u16, &str)> =
        plan.entries.iter().map(|entry| (entry.y, entry.text.as_str())).collect();
    assert_eq!(texts, vec![(2, "> launcher-0"), (3, "  launcher-1"), (4, "  launcher-2")]);
    assert_eq!((plan.query.x, plan.query.y, plan.query.text.as_str()), (1, 1, "! "));
    assert_eq!(plan.title, " repo-a ");
    assert!(plan.message.is_none());
}

#[test]
fn a_query_matches_whatever_its_case_beyond_ascii_too() {
    let launchers = vec![launcher("\u{00C9}diteur"), launcher("stra\u{00DF}e")];
    let names = |query: &str| -> Vec<String> {
        matching(&launchers, query).iter().map(|found| found.name.clone()).collect()
    };
    assert_eq!(names("\u{00E9}D"), vec!["\u{00C9}diteur"]);
    assert_eq!(names("STRA\u{1E9E}E"), vec!["stra\u{00DF}e"]);
}

#[test]
fn the_popup_stays_inside_a_frame_too_small_for_a_palette() {
    let launchers = vec![launcher("lazygit")];
    let palette = LauncherPalette::new();
    let popup = popup_of(&palette, Rect::new(0, 0, 20, 10), &launchers, "repo-a");
    assert_eq!(popup, Rect::new(0, 3, 20, 4));
    let popup = popup_of(&palette, Rect::new(3, 5, 30, 2), &launchers, "repo-a");
    assert_eq!(popup, Rect::new(6, 5, 24, 2));
    let popup = popup_of(&palette, Rect::new(3, 5, 0, 0), &launchers, "repo-a");
    assert_eq!(popup, Rect::new(3, 5, 0, 0));
}

#[test]
fn the_popup_is_centred_and_keeps_its_size_over_every_frame() {
    let launchers = vec![launcher("lazygit"), launcher("tuicr")];
    let palette = LauncherPalette::new();
    for (left, top) in [(0, 0), (7, 11), (65_400, 65_500)] {
        for width in 0..60 {
            for height in 0..9 {
                let frame = repon::paint::Rect { x: left, y: top, width, height };
                let popup = palette.popup_area(frame, &launchers, "repo-a");
                let (wide, high) = (width.min(24), height.min(5));
                assert_eq!((popup.width, popup.height), (wide, high), "{frame:?}");
                let x = left + (width - wide + 1) / 2;
                let y = top + (height - high + 1) / 2;
                assert_eq!((popup.x, popup.y), (x, y), "{frame:?}");
            }
        }
    }
}

#[test]
fn a_frame_that_reaches_past_the_last_column_is_cut_off_there() {
    let launchers = vec![launcher("lazygit")];
    let palette = LauncherPalette::new();
    let frame = repon::paint::Rect { x: 65_530, y: 65_534, width: 100, height: 50 };
    let popup = palette.popup_area(frame, &launchers, "repo-a");
    assert_eq!((popup.x, popup.y, popup.width, popup.height), (65_530, 65_534, 5, 1));
    let frame = repon::paint::Rect { x: 65_500, y: 65_525, width: 100, height: 50 };
    let popup = palette.popup_area(frame, &launchers, "repo-a");
    assert_eq!((popup.x, popup.y, popup.width, popup.height), (65_506, 65_528, 24, 4));
}

#[test]
fn content_wider_than_any_frame_fills_the_one_there_is() {
    let palette = LauncherPalette::new();
    let frame = repon::paint::Rect { x: 0, y: 0, width: 100, height: 25 };
    let name = "n".repeat(65_536);
    assert_eq!(palette.popup_dimensions(frame, &vec![launcher("b")], &name), (100, 4));
    assert_eq!(palette.popup_dimensions(frame, &vec![launcher(&name)], "a"), (100, 4));
}

#[test]
fn a_query_in_another_case_keeps_the_same_launchers() {
    let launchers = vec![launcher("LazyGit"), launcher("tuicr"), launcher("GITUI")];
    let names = |query: &str| -> Vec<String> {
        matching(&launchers, query).iter().map(|found| found.name.clone()).collect()
    };
    assert_eq!(names("git"), vec!["LazyGit", "GITUI"]);
    for query in ["GIT", "Git", "gIt"] {
        assert_eq!(names(query), names("git"));
    }
}
