use repon::action::{action_name, context_name, Action, Context};
use repon::chord::{none, shift, KeyCode, KeyEvent, KeyModifiers};
use repon::default_map::{binding, binding_not_built, default_bindings, Binding};
use repon::keys::{any_binding_is_permanently_unbindable, BindingTable};
use repon::rebinding::{
    find_action_by_name, find_collisions, merge, merge_entries, merge_over, ActionEntry,
    Collision, ContextEntry, KeysError, KeysWarning, Place,
};

fn press(code: KeyCode, modifiers: KeyModifiers) -> KeyEvent {
    KeyEvent::new(code, modifiers)
}

fn keys_block(pairs: &[(&str, &[(&str, &str)])]) -> toml::Table {
    let mut document_keys = toml::Table::new();
    for (context, actions) in pairs {
        let mut context_table = toml::Table::new();
        for (action, key) in *actions {
            context_table.insert(
                (*action).to_string(),
                toml::Value::String((*key).to_string()),
            );
        }
        document_keys.insert((*context).to_string(), toml::Value::Table(context_table));
    }
    document_keys
}

fn merge_ok(pairs: &[(&str, &[(&str, &str)])]) -> (BindingTable, Vec<KeysWarning>) {
    merge(&keys_block(pairs)).expect("expected the keys block to merge")
}

#[test]
fn rebinding_an_action_removes_its_old_key_rather_than_only_adding_the_new_one() {
    let (bindings, warnings) = merge_ok(&[("list", &[("anchor_range", "x")])]);
    assert!(warnings.is_empty(), "got: {warnings:?}");

    assert_eq!(
        bindings.dispatch(Context::List, press(KeyCode::Char('x'), none())),
        Some(Action::AnchorRange),
        "the new key must fire the rebound action"
    );
    assert_eq!(
        bindings.dispatch(Context::List, press(KeyCode::Char('v'), none())),
        None,
        "the old default key must no longer fire anything, not still fire AnchorRange"
    );
}

#[test]
fn rebinding_one_action_leaves_every_other_binding_in_the_same_context_intact() {
    let (bindings, warnings) = merge_ok(&[("list", &[("anchor_range", "x")])]);
    assert!(warnings.is_empty(), "got: {warnings:?}");

    assert_eq!(
        bindings.dispatch(Context::List, press(KeyCode::Char('j'), none())),
        Some(Action::MoveDown)
    );
    assert_eq!(
        bindings.dispatch(Context::List, press(KeyCode::Char('g'), none())),
        Some(Action::FirstRow)
    );
    assert_eq!(
        bindings.dispatch(Context::List, press(KeyCode::Char('G'), shift())),
        Some(Action::LastRow)
    );
    assert_eq!(
        bindings.dispatch(Context::Global, press(KeyCode::Char('q'), none())),
        Some(Action::Quit)
    );
}

#[test]
fn rebinding_one_action_leaves_every_other_actions_default_key_untouched_even_when_the_new_key_is_unrelated()
 {
    let (bindings, warnings) = merge_ok(&[
        ("global", &[("refresh_all", "f5")]),
        ("list", &[("anchor_range", "x")]),
    ]);
    assert!(warnings.is_empty(), "got: {warnings:?}");
    assert_eq!(
        bindings.dispatch(Context::Global, press(KeyCode::F(5), none())),
        Some(Action::RefreshAll)
    );
    assert_eq!(
        bindings.dispatch(Context::Global, press(KeyCode::Char('r'), none())),
        None,
        "refresh_all's old key must be gone now it has moved to F5"
    );
    assert_eq!(
        bindings.dispatch(Context::List, press(KeyCode::Char('x'), none())),
        Some(Action::AnchorRange)
    );
    assert_eq!(
        bindings.dispatch(Context::Global, press(KeyCode::Char('R'), shift())),
        Some(Action::RefreshSelection),
        "refresh_selection, a different action, must be untouched by refresh_all's rebind"
    );
}

#[test]
fn binding_an_action_to_the_empty_string_unbinds_it() {
    let (bindings, warnings) = merge_ok(&[("list", &[("anchor_range", "")])]);
    assert!(warnings.is_empty(), "got: {warnings:?}");
    assert_eq!(
        bindings.dispatch(Context::List, press(KeyCode::Char('v'), none())),
        None
    );
}

#[test]
fn unbinding_an_action_leaves_its_former_key_bound_to_nothing_rather_than_falling_back_to_the_default()
 {
    let (bindings, _) = merge_ok(&[("list", &[("anchor_range", "")])]);
    for context in [
        Context::Global,
        Context::List,
        Context::Detail,
        Context::Overlay,
        Context::Confirm,
    ] {
        assert_eq!(
            bindings.dispatch(context, press(KeyCode::Char('v'), none())),
            None,
            "{context:?} must not resurrect the unbound key via any fallback"
        );
    }
}

#[test]
fn an_unknown_context_warns_naming_its_dotted_path_and_continues() {
    let (_, warnings) = merge_ok(&[("frobnicate", &[("anchor_range", "x")])]);
    assert_eq!(
        warnings,
        vec![KeysWarning::UnknownContext("keys.frobnicate".to_string())]
    );
}

#[test]
fn an_unknown_action_within_a_known_context_warns_naming_its_dotted_path_and_continues() {
    let (bindings, warnings) = merge_ok(&[("list", &[("frobnicate", "x")])]);
    assert_eq!(
        warnings,
        vec![KeysWarning::UnknownAction {
            context: "list".to_string(),
            action: "frobnicate".to_string(),
        }]
    );
    assert_eq!(
        bindings.dispatch(Context::List, press(KeyCode::Char('j'), none())),
        Some(Action::MoveDown)
    );
}

#[test]
fn an_unparseable_key_name_is_a_hard_error_rather_than_a_warning() {
    let result = merge(&keys_block(&[(
        "list",
        &[("anchor_range", "not-a-real-chord")],
    )]));
    let message = result
        .expect_err("an unparseable key name must be a hard error")
        .message();
    assert!(
        message.contains("not-a-real-chord"),
        "expected the offending text in the error, got: {message}"
    );
}

#[test]
fn a_well_formed_rebind_raises_no_warning_and_does_not_error() {
    let result = merge(&keys_block(&[("list", &[("anchor_range", "x")])]));
    let (_, warnings) = result.expect("a well-formed rebind must not error");
    assert!(
        warnings.is_empty(),
        "a well-formed entry must raise no warning at all, got: {warnings:?}"
    );
}

#[test]
fn a_context_value_that_is_not_a_table_is_a_hard_error() {
    let mut document_keys = toml::Table::new();
    document_keys.insert(
        "list".to_string(),
        toml::Value::String("not-a-table".to_string()),
    );
    assert!(merge(&document_keys).is_err());
}

#[test]
fn an_action_value_that_is_not_a_string_is_a_hard_error() {
    let mut context_table = toml::Table::new();
    context_table.insert("anchor_range".to_string(), toml::Value::Integer(5));
    let mut document_keys = toml::Table::new();
    document_keys.insert("list".to_string(), toml::Value::Table(context_table));
    assert!(merge(&document_keys).is_err());
}

#[test]
fn find_collisions_reports_none_over_the_compiled_default() {
    assert!(
        find_collisions(&default_bindings()).is_empty(),
        "the compiled default map must never carry a collision"
    );
}

#[test]
fn find_collisions_ignores_the_same_action_bound_to_the_same_key_twice() {
    let synthetic: Vec<Binding> = vec![
        binding(Context::List, KeyCode::Char('x'), none(), Action::MoveDown),
        binding(Context::List, KeyCode::Char('x'), none(), Action::MoveDown),
    ];
    assert!(find_collisions(&synthetic).is_empty());
}

#[test]
fn find_collisions_ignores_the_same_key_in_two_different_contexts() {
    let synthetic: Vec<Binding> = vec![
        binding(Context::List, KeyCode::Char('x'), none(), Action::MoveDown),
        binding(Context::Detail, KeyCode::Char('x'), none(), Action::ScrollUp),
    ];
    assert!(find_collisions(&synthetic).is_empty());
}

#[test]
fn rebinding_an_action_onto_a_key_another_default_action_already_holds_is_a_hard_error_naming_both_and_the_key()
 {
    let message = merge(&keys_block(&[("list", &[("toggle_selection", "j")])]))
        .expect_err("expected a collision error")
        .message();
    assert!(
        message.contains("move_down"),
        "expected MoveDown named, got: {message}"
    );
    assert!(
        message.contains("toggle_selection"),
        "expected ToggleSelection named, got: {message}"
    );
    assert!(
        message.contains('j'),
        "expected the colliding key named, got: {message}"
    );
}

#[test]
fn a_key_bound_to_three_actions_names_all_three_in_the_error_not_just_the_first_two() {
    let message = merge(&keys_block(&[(
        "list",
        &[
            ("anchor_range", "z"),
            ("toggle_selection", "z"),
            ("select_all_visible", "z"),
        ],
    )]))
    .expect_err("expected a collision error")
    .message();
    assert!(
        message.contains("anchor_range"),
        "expected AnchorRange named, got: {message}"
    );
    assert!(
        message.contains("toggle_selection"),
        "expected ToggleSelection named, got: {message}"
    );
    assert!(
        message.contains("select_all_visible"),
        "expected SelectAllVisible named, got: {message}"
    );
}

#[test]
fn two_separate_colliding_keys_are_both_named_in_one_error_not_just_the_first() {
    let message = merge(&keys_block(&[(
        "list",
        &[
            ("anchor_range", "z"),
            ("toggle_selection", "z"),
            ("select_all_visible", "y"),
            ("clear_selection", "y"),
        ],
    )]))
    .expect_err("expected a collision error")
    .message();
    assert!(message.contains('z'), "expected `z` named, got: {message}");
    assert!(message.contains('y'), "expected `y` named, got: {message}");
    assert!(
        message.contains("anchor_range") && message.contains("toggle_selection"),
        "expected both of z's colliding actions named, got: {message}"
    );
    assert!(
        message.contains("select_all_visible") && message.contains("clear_selection"),
        "expected both of y's colliding actions named, got: {message}"
    );
}

#[test]
fn two_rebinds_that_collide_only_with_each_other_are_also_a_hard_error() {
    let message = merge(&keys_block(&[(
        "list",
        &[("anchor_range", "z"), ("toggle_selection", "z")],
    )]))
    .expect_err("expected a collision error")
    .message();
    assert!(message.contains("anchor_range"));
    assert!(message.contains("toggle_selection"));
}

#[test]
fn merge_runs_the_debug_assertion_and_still_succeeds_on_a_clean_default() {
    let result = merge(&toml::Table::new());
    assert!(result.is_ok());
}

#[test]
fn debug_assert_compiled_default_has_no_collision_does_not_panic_on_the_real_default() {
    assert!(find_collisions(BindingTable::compiled_default().bindings()).is_empty());
}

#[test]
fn find_collisions_detects_two_different_actions_sharing_one_key_in_one_context() {
    let synthetic: Vec<Binding> = vec![
        binding(Context::List, KeyCode::Char('x'), none(), Action::MoveDown),
        binding(Context::List, KeyCode::Char('x'), none(), Action::MoveUp),
    ];
    let collisions = find_collisions(&synthetic);
    assert_eq!(collisions.len(), 1, "expected exactly one colliding key");
    let Collision { place, actions } = &collisions[0];
    assert_eq!(place.context, Context::List);
    assert_eq!(place.code, KeyCode::Char('x'));
    assert_eq!(place.modifiers, none());
    assert!(
        actions.contains(&Action::MoveDown) && actions.contains(&Action::MoveUp),
        "expected MoveDown and MoveUp both named, got {actions:?}"
    );
}

#[test]
fn find_collisions_names_every_action_bound_to_a_key_shared_by_three() {
    let synthetic: Vec<Binding> = vec![
        binding(Context::List, KeyCode::Char('z'), none(), Action::DismissVanished),
        binding(Context::List, KeyCode::Char('z'), none(), Action::NextFailed),
        binding(Context::List, KeyCode::Char('z'), none(), Action::PreviousFailed),
    ];
    let collisions = find_collisions(&synthetic);
    assert_eq!(collisions.len(), 1, "expected exactly one colliding key");
    let actions = &collisions[0].actions;
    assert_eq!(
        actions.len(),
        3,
        "expected all three colliding actions named, got {actions:?}"
    );
    assert!(actions.contains(&Action::DismissVanished));
    assert!(actions.contains(&Action::NextFailed));
    assert!(actions.contains(&Action::PreviousFailed));
}

#[test]
fn find_collisions_names_every_key_when_two_separate_keys_each_collide() {
    let synthetic: Vec<Binding> = vec![
        binding(Context::List, KeyCode::Char('y'), none(), Action::SelectAllVisible),
        binding(Context::List, KeyCode::Char('y'), none(), Action::ClearSelection),
        binding(Context::List, KeyCode::Char('z'), none(), Action::DismissVanished),
        binding(Context::List, KeyCode::Char('z'), none(), Action::NextFailed),
    ];
    let collisions = find_collisions(&synthetic);
    assert_eq!(
        collisions.len(),
        2,
        "expected both colliding keys reported, got {collisions:?}"
    );
    let y = collisions
        .iter()
        .find(|found| found.place.code == KeyCode::Char('y'))
        .expect("expected `y`'s collision reported");
    assert!(
        y.actions.contains(&Action::SelectAllVisible)
            && y.actions.contains(&Action::ClearSelection)
    );
    let z = collisions
        .iter()
        .find(|found| found.place.code == KeyCode::Char('z'))
        .expect("expected `z`'s collision reported");
    assert!(z.actions.contains(&Action::DismissVanished) && z.actions.contains(&Action::NextFailed));
}

#[test]
fn a_known_action_that_is_not_built_yet_warns_saying_so_rather_than_unknown_and_is_ignored() {
    let unbuilt_context = Context::List;
    let unbuilt_code = KeyCode::Char('x');
    let unbuilt_modifiers = none();
    let unbuilt_action = Action::DismissVanished;

    let mut base = BindingTable::compiled_default().bindings().clone();
    base.retain(|row| !(row.context == unbuilt_context && row.action == unbuilt_action));
    base.push(binding_not_built(
        unbuilt_context,
        unbuilt_code,
        unbuilt_modifiers,
        unbuilt_action,
    ));

    let action_name =
        action_name(unbuilt_action).expect("an unbuilt action must still have a config name");
    let context_name_text = context_name(unbuilt_context);

    let (bindings, warnings) = merge_over(
        &base,
        &keys_block(&[(context_name_text, &[(action_name, "f6")])]),
    )
    .expect("expected the keys block to merge");
    assert_eq!(
        warnings,
        vec![KeysWarning::NotBuilt {
            context: context_name_text.to_string(),
            action: action_name.to_string(),
        }]
    );
    let message = warnings[0].message();
    assert!(
        message.contains("not built yet"),
        "expected \"not built yet\" wording, got: {message:?}"
    );
    assert!(
        !message.contains("unknown"),
        "must not read as an unknown action, got: {message:?}"
    );
    assert_eq!(
        bindings.dispatch(unbuilt_context, press(KeyCode::F(6), none())),
        None,
        "the ignored binding must never dispatch"
    );
    assert_eq!(
        bindings.dispatch(unbuilt_context, press(unbuilt_code, unbuilt_modifiers)),
        None,
        "the action's own reserved chord must stay unbuilt, not become reachable"
    );
}

#[test]
fn a_permanently_unbindable_key_is_a_hard_error_naming_it() {
    for key in ["ctrl-i", "ctrl-m", "ctrl-["] {
        let error = merge(&keys_block(&[("list", &[("anchor_range", key)])]))
            .expect_err("an unbindable key must be a hard error");
        assert_eq!(
            error,
            KeysError::UnbindableKey {
                context: "list".to_string(),
                action: "anchor_range".to_string(),
                key: key.to_string(),
            }
        );
        assert_eq!(
            error.message(),
            format!("keys.list.anchor_range names a permanently unbindable key `{key}`")
        );
    }
}

#[test]
fn every_error_says_where_it_stands() {
    let mut wrong_context = toml::Table::new();
    wrong_context.insert("list".to_string(), toml::Value::Integer(5));
    assert_eq!(
        merge(&wrong_context).expect_err("no table").message(),
        "keys.list must be a table of action = \"key\" pairs"
    );
    let mut actions = toml::Table::new();
    actions.insert("anchor_range".to_string(), toml::Value::Boolean(true));
    let mut wrong_action = toml::Table::new();
    wrong_action.insert("list".to_string(), toml::Value::Table(actions));
    assert_eq!(
        merge(&wrong_action).expect_err("no string").message(),
        "keys.list.anchor_range must be a string"
    );
    assert_eq!(
        merge(&keys_block(&[("list", &[("anchor_range", "nope-x")])]))
            .expect_err("no chord")
            .message(),
        "keys.list.anchor_range names an unparseable key `nope-x`"
    );
    assert_eq!(
        KeysWarning::UnknownContext("keys.x".to_string()).message(),
        "unknown config key `keys.x`: no such keybinding context"
    );
    assert_eq!(
        KeysWarning::UnknownAction { context: "list".to_string(), action: "x".to_string() }
            .message(),
        "unknown config key `keys.list.x`: no such action in that context"
    );
}

#[test]
fn entries_of_the_right_shape_merge_without_a_table_of_toml() {
    let entries = vec![ContextEntry {
        name: "list".to_string(),
        actions: Some(vec![
            ActionEntry { name: "anchor_range".to_string(), key: Some("y".to_string()) },
            ActionEntry { name: "anchor_range".to_string(), key: Some("x".to_string()) },
        ]),
    }];
    let base = default_bindings();
    let (table, warnings) = merge_entries(&base, &entries).expect("no collision");
    assert!(warnings.is_empty());
    assert_eq!(
        table.primary_chord(Context::List, Action::AnchorRange),
        Some((KeyCode::Char('x'), none()))
    );
    assert_eq!(table.dispatch(Context::List, press(KeyCode::Char('y'), none())), None);
    for row in &base {
        if !(row.context == Context::List && row.action == Action::AnchorRange) {
            assert!(table.bindings().contains(row), "{row:?}");
        }
    }
    assert_eq!(
        find_action_by_name(&base, Context::List, "anchor_range"),
        Some((Action::AnchorRange, true))
    );
    assert_eq!(find_action_by_name(&base, Context::Detail, "anchor_range"), None);
}

#[test]
fn a_merged_table_is_sound_whatever_was_rebound() {
    let (table, _) = merge_ok(&[
        ("global", &[("quit", "ctrl-q"), ("open_help", "")]),
        ("list", &[("move_down", "n"), ("next_failed", "j")]),
    ]);
    assert!(find_collisions(table.bindings()).is_empty());
    assert!(!any_binding_is_permanently_unbindable(table.bindings()));
    assert_eq!(
        table.dispatch(Context::List, press(KeyCode::Char('j'), none())),
        Some(Action::NextFailed)
    );
    assert_eq!(table.dispatch(Context::List, press(KeyCode::Char('?'), none())), None);
}

#[test]
fn a_collision_is_reported_in_one_sentence_per_key() {
    assert_eq!(
        merge(&keys_block(&[("list", &[("toggle_selection", "j")])]))
            .expect_err("`j` already moves down")
            .message(),
        "key `j` in List is bound to `move_down` and `toggle_selection`"
    );
    let two = KeysError::Collisions(vec![
        Collision {
            place: Place { context: Context::Global, code: KeyCode::Enter, modifiers: none() },
            actions: vec![Action::Quit, Action::OpenHelp, Action::RefreshAll],
        },
        Collision {
            place: Place { context: Context::Sort, code: KeyCode::Char('x'), modifiers: none() },
            actions: vec![Action::SortByName, Action::SwitchToSet(1)],
        },
    ]);
    assert_eq!(
        two.message(),
        "key `enter` in Global is bound to `quit`, `open_help` and `refresh_all`; \
         key `x` in Sort is bound to `sort_by_name` and `<unnamed action>`"
    );
}

#[test]
fn an_entry_of_a_table_decides_its_actions_keys_and_stands_there_once() {
    let (table, warnings) = merge_ok(&[
        ("list", &[("move_down", "n"), ("move_down", "b")]),
        ("global", &[("quit", "")]),
    ]);
    assert_eq!(warnings, Vec::new());
    let keys_of = |context: Context, action: Action| -> Vec<(KeyCode, KeyModifiers)> {
        let rows = table.bindings().iter();
        rows.filter(|row| row.context == context && row.action == action)
            .map(|row| (row.code, row.modifiers))
            .collect()
    };
    assert_eq!(keys_of(Context::List, Action::MoveDown), vec![(KeyCode::Char('b'), none())]);
    assert_eq!(keys_of(Context::Global, Action::Quit), vec![]);
}
