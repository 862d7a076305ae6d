use repon::action::{Action, Context};
use repon::degrade;
use repon::degrade::Priority;
use repon::footer::{
    budget, combined_hint_item, detail_items, draw, hint_item, is_drawable, list_items, render,
    FooterLine, Hint, Item, ELLIPSIS, SEPARATOR,
};
use repon::keys::BindingTable;
use repon::paint::Role;

fn default_table() -> BindingTable {
    BindingTable::compiled_default()
}

/// A single-word hint, for the width rule alone.
fn bare(text: &str) -> Hint {
    Hint {
        key: text.to_string(),
        label: String::new(),
    }
}

#[test]
fn budget_width_checks_the_first_item_not_only_later_ones() {
    let items = vec![
        Item {
            hint: bare("XXXXXXXXXX"),
            priority: Priority::Drop(1),
            built: true,
        },
        Item {
            hint: bare("Y"),
            priority: Priority::Pinned,
            built: true,
        },
    ];
    let rendered = budget(&items, 5).text();
    assert_eq!(rendered, "Y ...");
    assert!(rendered.len() <= 5, "must never overrun the given width");
}

#[test]
fn budget_reserves_the_ellipsis_inside_the_budget_rather_than_appending_it_after_a_fit_check() {
    let items = vec![
        Item {
            hint: bare("AAAA"),
            priority: Priority::Drop(1),
            built: true,
        },
        Item {
            hint: bare("BB"),
            priority: Priority::Drop(2),
            built: true,
        },
        Item {
            hint: bare("C"),
            priority: Priority::Pinned,
            built: true,
        },
    ];
    let rendered = budget(&items, 8).text();
    assert_eq!(rendered, "C ...");
    assert!(rendered.len() <= 8, "must never overrun the given width");
}

#[test]
fn budget_drops_the_ellipsis_from_the_last_surviving_item_rather_than_dropping_that_item() {
    let items = vec![
        Item {
            hint: bare("AAAA"),
            priority: Priority::Drop(1),
            built: true,
        },
        Item {
            hint: bare("BB"),
            priority: Priority::Pinned,
            built: true,
        },
    ];
    assert_eq!(budget(&items, 5).text(), "BB");
}

#[test]
fn budget_renders_nothing_once_even_the_pinned_item_alone_cannot_fit() {
    let items = vec![Item {
        hint: bare("BB"),
        priority: Priority::Pinned,
        built: true,
    }];
    assert_eq!(budget(&items, 1).text(), "");
}

#[test]
fn budget_drops_a_shared_priority_group_together_never_one_item_alone() {
    let items = vec![
        Item {
            hint: bare("LAUNCHER"),
            priority: Priority::Drop(1),
            built: true,
        },
        Item {
            hint: bare("ACTION"),
            priority: Priority::Drop(1),
            built: true,
        },
        Item {
            hint: bare("HELP"),
            priority: Priority::Pinned,
            built: true,
        },
    ];
    assert_eq!(budget(&items, 16).text(), "HELP ...");
}

#[test]
fn launcher_and_action_hints_are_never_present_without_each_other_at_any_width() {
    let table = default_table();
    let launcher = hint_item(&table, Context::Global, Action::OpenLauncher, "launcher", Priority::Pinned)
        .hint
        .text();
    let action = hint_item(&table, Context::Global, Action::OpenActionPalette, "action", Priority::Pinned)
        .hint
        .text();
    for (context, items) in [
        (Context::List, list_items(&table)),
        (Context::Detail, detail_items(&table)),
    ] {
        let full_width = items
            .iter()
            .map(|item| item.hint.text())
            .collect::<Vec<_>>()
            .join(SEPARATOR)
            .len();
        for width in 0..=full_width {
            let rendered = budget(&items, width).text();
            let has_launcher = rendered.contains(&launcher);
            let has_action = rendered.contains(&action);
            assert_eq!(
                has_launcher, has_action,
                "{context:?} at width {width}: launcher present = {has_launcher}, action \
                 present = {has_action}, rendered {rendered:?}"
            );
        }
    }
}

#[test]
fn a_survivors_key_and_label_stay_separate_fields_after_budget_selects_it() {
    let line = budget(&list_items(&default_table()), 88);
    let move_hint = line
        .hints
        .iter()
        .find(|hint| hint.label == "move")
        .expect("the move hint must survive at full width");
    assert_eq!(move_hint.key, "j/k");
}

#[test]
fn confirm_footer_matches_the_documented_text_at_its_full_width() {
    assert_eq!(
        render(&default_table(), Context::Confirm, 15),
        "y run  n cancel"
    );
}

#[test]
fn confirm_footer_renders_nothing_once_even_the_pinned_pair_cannot_fit() {
    assert_eq!(render(&default_table(), Context::Confirm, 14), "");
}

#[test]
fn draw_writes_the_rendered_text_at_the_areas_own_row() {
    let table = default_table();
    let painted: String =
        draw(&table, Context::List, 87).iter().map(|run| run.text.as_str()).collect();
    assert_eq!(painted, render(&table, Context::List, 87));
}

#[test]
fn draw_paints_a_hints_key_in_accent_and_its_label_in_dim() {
    let table = default_table();
    let runs = draw(&table, Context::List, 40);
    assert_eq!(runs[0].role, Role::Accent);
    let rendered = render(&table, Context::List, 40);
    let first_space = rendered.find(' ').expect("the first hint has a label after its key");
    let mut column = 0;
    let label = runs
        .iter()
        .find(|run| {
            let here = column;
            column += run.text.len();
            here == first_space + 1
        })
        .expect("a run starts right behind the first hint's separating space");
    assert_eq!(label.role, Role::Dim);
    assert!(runs.iter().all(|run| !run.bold));
}

#[test]
fn the_full_footers_are_as_wide_as_their_hints_and_gaps() {
    let table = default_table();
    for (items, width) in [(list_items(&table), 87), (detail_items(&table), 61)] {
        let full = items.iter().map(|item| item.hint.text()).collect::<Vec<_>>().join(SEPARATOR);
        assert_eq!(full.len(), width);
        assert_eq!(budget(&items, width).text(), full);
        assert!(budget(&items, width - 1).text().ends_with(ELLIPSIS));
    }
}

#[test]
fn an_unbuilt_binding_is_advertised_at_no_width() {
    let mut rows = default_table().bindings().clone();
    for row in rows.iter_mut() {
        if row.action == Action::OpenLauncher {
            row.built = false;
        }
    }
    let table = BindingTable::from_bindings(rows);
    let hint = hint_item(&table, Context::Global, Action::OpenLauncher, "launcher", Priority::Pinned);
    assert!(!hint.built);
    for context in [Context::List, Context::Detail] {
        for width in 0..=100 {
            let rendered = render(&table, context, width);
            assert!(!rendered.contains(&hint.hint.text()), "{context:?} at {width}: {rendered:?}");
        }
    }
    assert!(render(&default_table(), Context::List, 100).contains(&hint.hint.text()));
}

#[test]
fn a_combined_hint_is_built_only_where_both_of_its_bindings_are() {
    let table = default_table();
    let both = combined_hint_item(
        &table,
        Context::List,
        Action::MoveDown,
        Action::MoveUp,
        "move",
        Priority::Drop(3),
    );
    assert_eq!(both.hint.text(), "j/k move");
    assert!(both.built);

    let mut rows = table.bindings().clone();
    for row in rows.iter_mut() {
        if row.action == Action::MoveUp {
            row.built = false;
        }
    }
    let partly = BindingTable::from_bindings(rows);
    let half = combined_hint_item(
        &partly,
        Context::List,
        Action::MoveDown,
        Action::MoveUp,
        "move",
        Priority::Drop(3),
    );
    assert!(!half.built);
}

#[test]
fn a_footer_line_keeps_a_hint_without_a_label_as_its_key_alone() {
    let line = FooterLine { hints: vec![bare("j"), bare("k")], truncated: true };
    assert_eq!(line.text(), "j  k ...");
}

#[test]
fn a_degraded_line_never_overruns_and_drops_the_lowest_rank_first() {
    let items = vec![
        degrade::Item { content: "one".to_string(), priority: Priority::Drop(2) },
        degrade::Item { content: "two".to_string(), priority: Priority::Drop(1) },
        degrade::Item { content: "three".to_string(), priority: Priority::Pinned },
    ];
    let shown: Vec<String> = (0..=13)
        .map(|width| {
            let line = degrade::budget(&items, width, " ", "...");
            degrade::render(&items, &line, " ", "...")
        })
        .collect();
    assert_eq!(shown[13], "one two three");
    assert_eq!(shown[12], "one three...");
    assert_eq!(shown[11], "three...");
    assert_eq!(shown[8], "three...");
    assert_eq!(shown[7], "three");
    assert_eq!(shown[5], "three");
    assert_eq!(shown[4], "");
    for (width, line) in shown.iter().enumerate() {
        assert!(line.chars().count() <= width);
    }
}

#[test]
fn a_footer_is_drawable_only_while_everything_it_names_is_bound() {
    let table = default_table();
    for context in [Context::List, Context::Detail, Context::Confirm] {
        assert!(is_drawable(&table, context));
    }
    for context in [Context::Global, Context::Input, Context::Overlay, Context::Sort] {
        assert!(!is_drawable(&table, context));
    }
    let mut rows = table.bindings().clone();
    rows.retain(|row| row.action != Action::OpenHelp);
    let without = BindingTable::from_bindings(rows);
    assert!(!is_drawable(&without, Context::List));
    assert!(!is_drawable(&without, Context::Detail));
    assert!(is_drawable(&without, Context::Confirm));
}
