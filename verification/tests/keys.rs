use repon::action::{action_name, context_name, description, parse_context_name, Action, Context};
use repon::chord::{
    alt, chord_label, ctrl, none, parse_chord, printable, shift, KeyCode, KeyEvent, KeyModifiers,
};
use repon::default_map::{binding, binding_not_built, default_bindings, Binding};
use repon::keys::{any_binding_is_permanently_unbindable, is_unbindable, BindingTable};

fn press(code: KeyCode, modifiers: KeyModifiers) -> KeyEvent {
    KeyEvent::new(code, modifiers)
}

fn dispatch(context: Context, key: KeyEvent) -> Option<Action> {
    BindingTable::compiled_default().dispatch(context, key)
}

fn primary_chord(context: Context, action: Action) -> Option<(KeyCode, KeyModifiers)> {
    BindingTable::compiled_default().primary_chord(context, action)
}

fn describe(context: Context) -> Vec<(String, &'static str)> {
    BindingTable::compiled_default().describe(context)
}

fn single_unbuilt_binding_table(
    context: Context,
    code: KeyCode,
    modifiers: KeyModifiers,
    action: Action,
) -> BindingTable {
    BindingTable::from_bindings(vec![binding_not_built(context, code, modifiers, action)])
}

/// Keys of the `global` context that no other context binds for itself.
fn global_probe_keys() -> [(KeyCode, KeyModifiers); 6] {
    [
        (KeyCode::Char('!'), none()),
        (KeyCode::Char(';'), none()),
        (KeyCode::Char('/'), none()),
        (KeyCode::Char('r'), none()),
        (KeyCode::Char('s'), none()),
        (KeyCode::Char('r'), ctrl()),
    ]
}

#[test]
fn global_quit_is_bound_to_q_while_the_list_is_focused() {
    assert_eq!(
        dispatch(Context::List, press(KeyCode::Char('q'), none())),
        Some(Action::Quit)
    );
}

#[test]
fn global_help_is_bound_to_question_mark_while_the_detail_pane_is_focused() {
    assert_eq!(
        dispatch(Context::Detail, press(KeyCode::Char('?'), none())),
        Some(Action::OpenHelp)
    );
}

#[test]
fn list_move_down_binds_both_j_and_the_down_arrow() {
    assert_eq!(
        dispatch(Context::List, press(KeyCode::Char('j'), none())),
        Some(Action::MoveDown)
    );
    assert_eq!(
        dispatch(Context::List, press(KeyCode::Down, none())),
        Some(Action::MoveDown)
    );
}

#[test]
fn list_last_row_only_fires_when_g_is_shifted() {
    assert_eq!(
        dispatch(Context::List, press(KeyCode::Char('G'), shift())),
        Some(Action::LastRow)
    );
    assert_eq!(
        dispatch(Context::List, press(KeyCode::Char('G'), none())),
        None
    );
}

#[test]
fn list_half_page_down_and_up_bind_both_the_control_chord_and_the_page_key() {
    assert_eq!(
        dispatch(Context::List, press(KeyCode::Char('d'), ctrl())),
        Some(Action::HalfPageDown)
    );
    assert_eq!(
        dispatch(Context::List, press(KeyCode::PageDown, none())),
        Some(Action::HalfPageDown)
    );
    assert_eq!(
        dispatch(Context::List, press(KeyCode::Char('u'), ctrl())),
        Some(Action::HalfPageUp)
    );
    assert_eq!(
        dispatch(Context::List, press(KeyCode::PageUp, none())),
        Some(Action::HalfPageUp)
    );
}

#[test]
fn global_quit_fires_only_from_the_bare_q() {
    assert_eq!(
        dispatch(Context::List, press(KeyCode::Char('q'), none())),
        Some(Action::Quit)
    );
}

#[test]
fn ctrl_c_and_ctrl_z_are_unbound_in_every_context() {
    for code in [KeyCode::Char('c'), KeyCode::Char('z')] {
        for context in [
            Context::Global,
            Context::List,
            Context::Detail,
            Context::Input,
            Context::Overlay,
            Context::Confirm,
            Context::Sort,
        ] {
            assert_eq!(
                dispatch(context, press(code, ctrl())),
                None,
                "expected {code:?} with Ctrl to dispatch nothing in {context:?}"
            );
        }
    }
}

#[test]
fn each_digit_key_switches_to_its_own_set_number() {
    for n in 1..=9u8 {
        let c = char::from_digit(u32::from(n), 10).expect("1..=9 is a single ASCII digit");
        assert_eq!(
            dispatch(Context::Global, press(KeyCode::Char(c), none())),
            Some(Action::SwitchToSet(n)),
            "expected {c:?} to switch to Set {n}"
        );
    }
}

#[test]
fn detail_context_binds_its_own_esc_over_globals_unwind() {
    assert_eq!(
        dispatch(Context::Detail, press(KeyCode::Esc, none())),
        Some(Action::ClosePane)
    );
}

#[test]
fn global_bindings_never_dispatch_while_input_is_focused() {
    for (code, modifiers) in global_probe_keys() {
        let action = dispatch(Context::Input, press(code, modifiers));
        if modifiers.control {
            assert_eq!(
                action, None,
                "expected {code:?} to be silently unbound in Input, got {action:?}"
            );
        } else {
            assert!(
                matches!(action, Some(Action::Text(_))),
                "expected {code:?} to fall through to Text in Input, got {action:?}"
            );
        }
    }
}

#[test]
fn global_move_focus_between_list_and_detail_never_dispatches_outside_list_and_detail() {
    for context in [Context::Overlay, Context::Confirm] {
        assert_eq!(
            dispatch(context, press(KeyCode::BackTab, none())),
            None,
            "{context:?} must not reach Global's Shift+Tab binding"
        );
    }
}

#[test]
fn global_bindings_never_dispatch_while_overlay_is_focused() {
    for (code, modifiers) in global_probe_keys() {
        let action = dispatch(Context::Overlay, press(code, modifiers));
        if code == KeyCode::Char('/') && modifiers == none() {
            assert_eq!(
                action,
                Some(Action::Search),
                "expected `/` to reach Overlay's own Search binding, not Global's"
            );
        } else {
            assert_eq!(
                action, None,
                "{code:?} must not reach a Global action while Overlay is focused"
            );
        }
    }
}

#[test]
fn global_bindings_never_dispatch_while_confirm_is_focused() {
    for (code, modifiers) in global_probe_keys() {
        assert_eq!(
            dispatch(Context::Confirm, press(code, modifiers)),
            None,
            "{code:?} must not reach a Global action while Confirm is focused"
        );
    }
}

#[test]
fn live_in_list() {
    assert_eq!(
        dispatch(Context::List, press(KeyCode::Char('?'), none())),
        Some(Action::OpenHelp)
    );
}

#[test]
fn live_in_detail() {
    assert_eq!(
        dispatch(Context::Detail, press(KeyCode::Char('?'), none())),
        Some(Action::OpenHelp)
    );
}

#[test]
fn suspended_in_input() {
    assert_eq!(
        dispatch(Context::Input, press(KeyCode::Char('?'), none())),
        Some(Action::Text('?'))
    );
}

#[test]
fn suspended_in_overlay() {
    assert_eq!(dispatch(Context::Overlay, press(KeyCode::Char('?'), none())), None);
}

#[test]
fn suspended_in_confirm() {
    assert_eq!(dispatch(Context::Confirm, press(KeyCode::Char('?'), none())), None);
}

#[test]
fn alt_slash_dispatches_clear_filter_in_the_input_context_where_global_is_suspended() {
    assert_eq!(
        dispatch(Context::Input, press(KeyCode::Char('/'), alt())),
        Some(Action::ClearFilter)
    );
}

#[test]
fn alt_slash_still_dispatches_clear_filter_in_the_list_context_unchanged() {
    assert_eq!(
        dispatch(Context::List, press(KeyCode::Char('/'), alt())),
        Some(Action::ClearFilter)
    );
}

#[test]
fn fires_edit_config_in_list() {
    assert_eq!(
        dispatch(Context::List, press(KeyCode::Char('e'), none())),
        Some(Action::EditConfig)
    );
}

#[test]
fn fires_edit_config_in_detail() {
    assert_eq!(
        dispatch(Context::Detail, press(KeyCode::Char('e'), none())),
        Some(Action::EditConfig)
    );
}

#[test]
fn is_plain_text_in_input_rather_than_the_global_action() {
    assert_eq!(
        dispatch(Context::Input, press(KeyCode::Char('e'), none())),
        Some(Action::Text('e'))
    );
}

#[test]
fn is_unbound_in_overlay() {
    assert_eq!(dispatch(Context::Overlay, press(KeyCode::Char('e'), none())), None);
}

#[test]
fn is_unbound_in_confirm() {
    assert_eq!(dispatch(Context::Confirm, press(KeyCode::Char('e'), none())), None);
}

#[test]
fn overlay_binds_its_own_scroll_choose_and_close_keys() {
    let cases = [
        (press(KeyCode::Char('j'), none()), Action::ScrollDown),
        (press(KeyCode::Char('k'), none()), Action::ScrollUp),
        (press(KeyCode::Char('g'), none()), Action::Top),
        (press(KeyCode::Char('G'), shift()), Action::Bottom),
        (press(KeyCode::Char('d'), ctrl()), Action::HalfPageDown),
        (press(KeyCode::Char('u'), ctrl()), Action::HalfPageUp),
        (press(KeyCode::Enter, none()), Action::Choose),
        (press(KeyCode::Esc, none()), Action::Close),
        (press(KeyCode::Char('q'), none()), Action::Close),
    ];
    for (key, expected) in cases {
        assert_eq!(dispatch(Context::Overlay, key), Some(expected));
    }
}

#[test]
fn input_treats_an_arbitrary_printable_character_as_text_not_an_action() {
    for c in ['x', 'Q', '@', '5', ' '] {
        let modifiers = if c.is_ascii_uppercase() { shift() } else { none() };
        assert_eq!(
            dispatch(Context::Input, press(KeyCode::Char(c), modifiers)),
            Some(Action::Text(c))
        );
    }
}

#[test]
fn input_every_reserved_key_still_does_its_reserved_thing() {
    let cases = [
        (press(KeyCode::Enter, none()), Action::Apply),
        (press(KeyCode::Esc, none()), Action::Cancel),
        (press(KeyCode::Up, none()), Action::PreviousEntry),
        (press(KeyCode::Char('k'), ctrl()), Action::PreviousEntry),
        (press(KeyCode::Down, none()), Action::NextEntry),
        (press(KeyCode::Char('j'), ctrl()), Action::NextEntry),
        (press(KeyCode::Tab, none()), Action::AcceptCompletion),
        (press(KeyCode::Backspace, none()), Action::DeletePreviousChar),
        (press(KeyCode::Char('w'), ctrl()), Action::DeletePreviousWord),
        (press(KeyCode::Char('u'), ctrl()), Action::ClearLine),
        (press(KeyCode::Char('o'), ctrl()), Action::OpenInEditor),
    ];
    for (key, expected) in cases {
        assert_eq!(dispatch(Context::Input, key), Some(expected));
    }
}

#[test]
fn input_moves_the_cursor_by_character_by_word_and_to_either_end_of_the_line() {
    let cases = [
        (press(KeyCode::Left, none()), Action::MoveCursorLeft),
        (press(KeyCode::Right, none()), Action::MoveCursorRight),
        (press(KeyCode::Char('b'), alt()), Action::MoveCursorWordLeft),
        (press(KeyCode::Char('f'), alt()), Action::MoveCursorWordRight),
        (
            press(KeyCode::Char('a'), ctrl()),
            Action::MoveCursorToLineStart,
        ),
        (press(KeyCode::Home, none()), Action::MoveCursorToLineStart),
        (press(KeyCode::Char('e'), ctrl()), Action::MoveCursorToLineEnd),
        (press(KeyCode::End, none()), Action::MoveCursorToLineEnd),
    ];
    for (key, expected) in cases {
        assert_eq!(dispatch(Context::Input, key), Some(expected));
    }
}

#[test]
fn alt_enter_inserts_a_newline_while_plain_enter_still_applies() {
    assert_eq!(
        dispatch(Context::Input, press(KeyCode::Enter, alt())),
        Some(Action::InsertNewline)
    );
    assert_eq!(
        dispatch(Context::Input, press(KeyCode::Enter, none())),
        Some(Action::Apply)
    );
}

#[test]
fn alt_s_toggles_shell_mode() {
    assert_eq!(
        dispatch(Context::Input, press(KeyCode::Char('s'), alt())),
        Some(Action::ToggleShell)
    );
}

#[test]
fn an_unbound_alt_chord_is_still_text_in_the_input_context() {
    assert_eq!(
        dispatch(Context::Input, press(KeyCode::Char('x'), alt())),
        Some(Action::Text('x'))
    );
}

#[test]
fn confirm_every_reserved_key_still_does_its_reserved_thing() {
    assert_eq!(
        dispatch(Context::Confirm, press(KeyCode::Char('y'), none())),
        Some(Action::Run)
    );
    assert_eq!(
        dispatch(Context::Confirm, press(KeyCode::Char('n'), none())),
        Some(Action::Decline)
    );
    assert_eq!(
        dispatch(Context::Confirm, press(KeyCode::Esc, none())),
        Some(Action::Decline)
    );
}

#[test]
fn confirm_ignores_every_other_key_including_enter() {
    for key in [
        press(KeyCode::Enter, none()),
        press(KeyCode::Char('x'), none()),
        press(KeyCode::Char('Y'), shift()),
    ] {
        assert_eq!(dispatch(Context::Confirm, key), None);
    }
}

#[test]
fn chord_label_formats_a_plain_letter_a_space_and_a_ctrl_chord() {
    assert_eq!(chord_label(KeyCode::Char('j'), none()), "j");
    assert_eq!(chord_label(KeyCode::Char(' '), none()), "space");
    assert_eq!(chord_label(KeyCode::Char('r'), ctrl()), "ctrl-r");
    assert_eq!(chord_label(KeyCode::Enter, none()), "enter");
}

#[test]
fn primary_chord_prefers_the_letter_over_its_arrow_key_alternate() {
    assert_eq!(
        primary_chord(Context::List, Action::MoveDown),
        Some((KeyCode::Char('j'), none()))
    );
}

#[test]
fn primary_chord_is_none_for_an_action_not_bound_in_that_context() {
    assert_eq!(
        primary_chord(Context::Detail, Action::ToggleSelection),
        None
    );
}

#[test]
fn describe_collapses_a_multi_key_action_into_one_entry() {
    let rows = describe(Context::List);
    let move_down = rows
        .iter()
        .find(|(_, description)| *description == "Move down")
        .expect("Move down must be described");
    assert_eq!(move_down.0, "j, down");
}

#[test]
fn describe_lists_the_current_contexts_own_actions_before_globals() {
    let rows = describe(Context::List);
    let own = rows
        .iter()
        .position(|(_, description)| *description == "Move down")
        .expect("List's own Move down must appear");
    let global = rows
        .iter()
        .position(|(_, description)| *description == "Quit")
        .expect("Global's Quit must appear alongside List");
    assert!(
        own < global,
        "expected the current context's own actions before global's, got order {rows:?}"
    );
}

#[test]
fn describe_never_pulls_in_global_for_a_context_where_global_is_suspended() {
    let rows = describe(Context::Confirm);
    assert_eq!(
        rows,
        vec![("y".to_string(), "Run"), ("n, esc".to_string(), "Decline"),]
    );
}

#[test]
fn describe_of_global_itself_does_not_duplicate_its_own_rows() {
    let rows = describe(Context::Global);
    let quit_entries = rows
        .iter()
        .filter(|(_, description)| *description == "Quit")
        .count();
    assert_eq!(quit_entries, 1);
}

#[test]
fn select_all_visible_s_description_does_not_read_as_this_screenful() {
    let text = description(Action::SelectAllVisible);
    assert_eq!(text, "Select every listed row, not just this screenful");
    assert!(
        !text.contains("visible"),
        "description {text:?} still uses \"visible\", the word a screenful can misread"
    );
}

#[test]
fn dispatch_never_fires_a_chord_bound_only_to_an_unbuilt_binding() {
    let table = single_unbuilt_binding_table(
        Context::List,
        KeyCode::Char('x'),
        none(),
        Action::DismissVanished,
    );

    assert_eq!(
        table.dispatch(Context::List, press(KeyCode::Char('x'), none())),
        None,
        "an unbuilt binding's own chord must not dispatch in its own context"
    );
    assert_eq!(
        table.dispatch(Context::Global, press(KeyCode::Char('x'), none())),
        None,
        "an unbuilt List binding must not fall through to Global either"
    );
}

#[test]
fn describe_excludes_every_currently_unbuilt_binding() {
    let table = single_unbuilt_binding_table(
        Context::List,
        KeyCode::Char('x'),
        none(),
        Action::DismissVanished,
    );

    let rows = table.describe(Context::List);
    assert!(
        !rows
            .iter()
            .any(|(_, desc)| *desc == description(Action::DismissVanished)),
        "an unbuilt action must not appear in describe(): {rows:?}"
    );
}

#[test]
fn parse_chord_reads_a_function_key_including_one_a_compiled_binding_uses() {
    assert_eq!(parse_chord("f5"), Some((KeyCode::F(5), none())));
    assert_eq!(chord_label(KeyCode::F(5), none()), "f5");
    assert_eq!(parse_chord("f24"), Some((KeyCode::F(24), none())));
    assert_eq!(
        parse_chord("f25"),
        None,
        "F25 is out of crossterm's F-key range"
    );
}

#[test]
fn parse_chord_rejects_text_that_names_no_chord() {
    for garbage in ["", "asdf", "ctrl-", "ctrl-asdf", "fx", "shift-r"] {
        assert_eq!(
            parse_chord(garbage),
            None,
            "expected {garbage:?} to be unparseable"
        );
    }
}

#[test]
fn parse_context_name_is_the_inverse_of_context_name_for_all_seven_contexts() {
    for context in [
        Context::Global,
        Context::List,
        Context::Detail,
        Context::Input,
        Context::Overlay,
        Context::Confirm,
        Context::Sort,
    ] {
        assert_eq!(parse_context_name(context_name(context)), Some(context));
    }
}

#[test]
fn parse_context_name_rejects_anything_not_one_of_the_seven() {
    assert_eq!(parse_context_name("frobnicate"), None);
}

#[test]
fn no_binding_combines_control_and_shift() {
    for row in default_bindings() {
        assert!(
            !(row.modifiers.control && row.modifiers.shift),
            "{:?} is bound with both control and shift, a form most terminals cannot \
             distinguish from control alone",
            row.code
        );
    }
}

#[test]
fn every_action_in_bindings_is_nameable_except_switch_to_set() {
    for row in default_bindings() {
        let name = action_name(row.action);
        if matches!(row.action, Action::SwitchToSet(_)) {
            assert_eq!(name, None);
        } else {
            assert!(name.is_some(), "{:?} has no config action name", row.action);
        }
    }
}

#[test]
fn parse_chord_is_the_inverse_of_chord_label_for_every_compiled_binding() {
    for row in default_bindings() {
        let label = chord_label(row.code, row.modifiers);
        assert_eq!(
            parse_chord(&label),
            Some((row.code, row.modifiers)),
            "chord_label/parse_chord round trip failed for {label:?}"
        );
    }
}

#[test]
fn the_detail_context_binds_no_horizontal_scroll_key() {
    let offending: Vec<Binding> = default_bindings()
        .into_iter()
        .filter(|row| {
            row.context == Context::Detail
                && matches!(
                    row.code,
                    KeyCode::Left | KeyCode::Right | KeyCode::Char('h' | 'l')
                )
        })
        .collect();
    assert!(
        offending.is_empty(),
        "expected no Left/Right/h/l binding in the detail context, found: {offending:?}"
    );
}

#[test]
fn no_default_row_is_permanently_unbindable_and_every_one_is_built() {
    assert!(!any_binding_is_permanently_unbindable(&default_bindings()));
    for c in ['i', 'm', '['] {
        assert!(is_unbindable(KeyCode::Char(c), ctrl()));
        assert!(!is_unbindable(KeyCode::Char(c), none()));
        assert!(any_binding_is_permanently_unbindable(&vec![binding(
            Context::List,
            KeyCode::Char(c),
            ctrl(),
            Action::MoveDown,
        )]));
    }
    assert!(default_bindings().iter().all(|row| row.built));
    assert_eq!(default_bindings().len(), 103);
}

#[test]
fn a_chord_label_is_read_back_for_every_key_that_has_one() {
    let codes = [
        (KeyCode::Char('a'), none()),
        (KeyCode::Char('A'), shift()),
        (KeyCode::Char('a'), ctrl()),
        (KeyCode::Char('a'), alt()),
        (KeyCode::Char('-'), none()),
        (KeyCode::Char('\u{00E9}'), none()),
        (KeyCode::F(1), none()),
        (KeyCode::F(24), none()),
        (KeyCode::BackTab, none()),
        (KeyCode::PageUp, none()),
        (KeyCode::Home, none()),
    ];
    for (code, modifiers) in codes {
        let label = chord_label(code, modifiers);
        assert_eq!(parse_chord(&label), Some((code, modifiers)), "{label:?}");
    }
}

#[test]
fn a_chord_is_printable_unless_control_is_held() {
    assert_eq!(printable(press(KeyCode::Char('x'), none())), Some('x'));
    assert_eq!(printable(press(KeyCode::Char('X'), shift())), Some('X'));
    assert_eq!(printable(press(KeyCode::Char('x'), alt())), Some('x'));
    assert_eq!(printable(press(KeyCode::Char('x'), ctrl())), None);
    assert_eq!(printable(press(KeyCode::Enter, none())), None);
}

#[test]
fn an_unbuilt_row_has_a_chord_but_is_not_built() {
    let table = single_unbuilt_binding_table(
        Context::List,
        KeyCode::Char('x'),
        none(),
        Action::DismissVanished,
    );
    assert_eq!(
        table.primary_chord(Context::List, Action::DismissVanished),
        Some((KeyCode::Char('x'), none()))
    );
    assert!(!table.is_built(Context::List, Action::DismissVanished));
    assert!(!table.is_built(Context::List, Action::Quit));
    assert!(BindingTable::compiled_default().is_built(Context::Global, Action::Quit));
}

#[test]
fn describing_a_context_is_its_own_rows_and_then_those_of_global() {
    let table = BindingTable::compiled_default();
    for context in [Context::List, Context::Detail] {
        let mut both = table.describe_own(context);
        both.extend(table.describe_own(Context::Global));
        assert_eq!(table.describe(context), both);
        assert_eq!(table.describe_global(context), table.describe_own(Context::Global));
    }
    for context in [Context::Input, Context::Overlay, Context::Confirm, Context::Sort] {
        assert!(table.describe_global(context).is_empty());
    }
}

#[test]
fn a_function_key_is_read_only_as_its_own_label() {
    for text in ["f05", "f+5", "f0", "f024", "F5", "f 5", "f-5", "ctrl-f05", "f256", "f261"] {
        assert_eq!(parse_chord(text), None, "{text:?} is no label of a function key");
    }
    for n in 1..=24 {
        let label = chord_label(KeyCode::F(n), none());
        assert_eq!(label, format!("f{n}"));
        assert_eq!(parse_chord(&label), Some((KeyCode::F(n), none())));
    }
    assert_eq!(parse_chord("alt-f12"), Some((KeyCode::F(12), alt())));
}

#[test]
fn a_space_is_the_one_chord_with_a_second_spelling() {
    assert_eq!(parse_chord(" "), Some((KeyCode::Char(' '), none())));
    assert_eq!(parse_chord("space"), Some((KeyCode::Char(' '), none())));
    assert_eq!(chord_label(KeyCode::Char(' '), none()), "space");
}
