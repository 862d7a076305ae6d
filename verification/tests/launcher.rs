use repon::environment::Environment;
use repon::launcher::{
    argv_or, build_command, command_from_argv, env_argv, resolve, shipped_defaults, CommandPlan,
    Document, Launcher, LauncherConfig, Source,
};

fn launcher_config(
    name: &str,
    args: Option<Vec<&str>>,
    from_env: Option<&str>,
    disabled: bool,
) -> LauncherConfig {
    LauncherConfig {
        name: name.to_string(),
        args: args.map(|args| args.into_iter().map(str::to_string).collect()),
        from_env: from_env.map(str::to_string),
        shell: false,
        env: Environment::new(),
        disabled,
    }
}

fn launcher_of(args: &[&str], shell: bool) -> Launcher {
    Launcher {
        name: "test".to_string(),
        source: Source::Args(args.iter().map(|arg| arg.to_string()).collect()),
        shell,
        env: Environment::new(),
    }
}

fn built(
    launcher: &Launcher,
    shell: Option<String>,
    contract: &Vec<(String, Option<String>)>,
) -> CommandPlan {
    let argv = launcher.source.resolve_argv(|_| None);
    build_command(launcher, &argv, shell, "/work/repo", contract)
}

/// What becomes of a variable: the last mention of its name decides.
fn value_in(command: &CommandPlan, name: &str) -> Option<Option<String>> {
    command.env.iter().rev().find(|(named, _)| named == name).map(|(_, value)| value.clone())
}

#[test]
fn an_empty_document_resolves_to_exactly_the_four_shipped_defaults() {
    let resolved = resolve(&Document::default());
    assert_eq!(resolved, shipped_defaults());
}

#[test]
fn a_shipped_launcher_is_replaced_in_place_by_a_declared_entry_of_the_same_name() {
    let mut document = Document::default();
    document.launchers.push(launcher_config(
        "lazygit",
        Some(vec!["custom-lazygit", "--flag"]),
        None,
        false,
    ));

    let resolved = resolve(&document);

    assert_eq!(
        resolved.len(),
        4,
        "replacing a shipped name must not add a fifth entry"
    );
    let names: Vec<&str> = resolved
        .iter()
        .map(|launcher| launcher.name.as_str())
        .collect();
    assert_eq!(
        names,
        vec!["lazygit", "tuicr", "editor", "shell"],
        "the replacement keeps the shipped position"
    );
    assert_eq!(
        resolved[0].source,
        Source::Args(vec!["custom-lazygit".to_string(), "--flag".to_string()])
    );
}

#[test]
fn disabling_a_shipped_launcher_drops_it_rather_than_replacing_it() {
    let mut document = Document::default();
    document
        .launchers
        .push(launcher_config("tuicr", None, None, true));

    let resolved = resolve(&document);

    assert_eq!(
        resolved.len(),
        3,
        "a disabled entry must be dropped, not kept as a fourth"
    );
    assert!(
        !resolved.iter().any(|launcher| launcher.name == "tuicr"),
        "tuicr must be gone entirely"
    );
    for name in ["lazygit", "editor", "shell"] {
        assert!(
            resolved.iter().any(|launcher| launcher.name == name),
            "disabling tuicr must not touch {name}"
        );
    }
}

#[test]
fn a_declared_entry_with_a_new_name_is_appended_rather_than_replacing_anything() {
    let mut document = Document::default();
    document
        .launchers
        .push(launcher_config("scratch", Some(vec!["true"]), None, false));

    let resolved = resolve(&document);

    assert_eq!(resolved.len(), 5);
    assert_eq!(resolved.last().unwrap().name, "scratch");
}

#[test]
fn declaring_a_disabled_entry_under_a_new_name_does_nothing() {
    let mut document = Document::default();
    document
        .launchers
        .push(launcher_config("scratch", None, None, true));

    let resolved = resolve(&document);

    assert_eq!(resolved, shipped_defaults());
}

#[test]
fn from_env_splits_a_multi_word_value_with_shell_words() {
    let source = Source::FromEnv("EDITOR".to_string());
    let argv = source.resolve_argv(|name| match name {
        "EDITOR" => Some("code --wait".to_string()),
        _ => None,
    });
    assert_eq!(argv, vec!["code".to_string(), "--wait".to_string()]);
}

#[test]
fn from_env_resolves_to_an_empty_argv_when_unset_or_blank() {
    let source = Source::FromEnv("EDITOR".to_string());
    assert_eq!(source.resolve_argv(|_| None), Vec::<String>::new());
    assert_eq!(
        source.resolve_argv(|_| Some("   ".to_string())),
        Vec::<String>::new()
    );
}

#[test]
fn editor_chain_prefers_visual_over_editor_over_the_vi_fallback() {
    let visual_and_editor_set = Source::EditorChain.resolve_argv(|name| match name {
        "VISUAL" => Some("code --wait".to_string()),
        "EDITOR" => Some("nano".to_string()),
        _ => None,
    });
    assert_eq!(
        visual_and_editor_set,
        vec!["code".to_string(), "--wait".to_string()]
    );

    let only_editor_set = Source::EditorChain.resolve_argv(|name| match name {
        "EDITOR" => Some("nano".to_string()),
        _ => None,
    });
    assert_eq!(only_editor_set, vec!["nano".to_string()]);

    let neither_set = Source::EditorChain.resolve_argv(|_| None);
    assert_eq!(neither_set, vec!["vi".to_string()]);

    let visual_blank = Source::EditorChain.resolve_argv(|name| match name {
        "VISUAL" => Some(String::new()),
        "EDITOR" => Some("nano".to_string()),
        _ => None,
    });
    assert_eq!(visual_blank, vec!["nano".to_string()]);
}

#[test]
fn shell_fallback_prefers_shell_over_the_bin_sh_fallback() {
    let shell_set = Source::ShellFallback.resolve_argv(|name| match name {
        "SHELL" => Some("/opt/homebrew/bin/zsh".to_string()),
        _ => None,
    });
    assert_eq!(shell_set, vec!["/opt/homebrew/bin/zsh".to_string()]);

    let unset = Source::ShellFallback.resolve_argv(|_| None);
    assert_eq!(unset, vec!["/bin/sh".to_string()]);
}

#[test]
fn editor_chain_treats_an_empty_editor_value_as_unset_and_falls_through_to_the_vi_fallback() {
    let editor_blank_visual_unset = Source::EditorChain.resolve_argv(|name| match name {
        "EDITOR" => Some(String::new()),
        _ => None,
    });
    assert_eq!(editor_blank_visual_unset, vec!["vi".to_string()]);
}

#[test]
fn the_shipped_launchers_stand_in_their_own_order() {
    let actual: Vec<String> =
        shipped_defaults().into_iter().map(|launcher| launcher.name).collect();
    assert_eq!(actual, vec!["lazygit", "tuicr", "editor", "shell"]);
}

#[test]
fn shell_defaulting_off_never_splits_or_interprets_argv_that_looks_like_shell_syntax() {
    let launcher = launcher_of(&["echo", "a && b; c | d`e`"], false);
    let command = built(&launcher, None, &Vec::new());

    assert_eq!(command.program, "echo");
    assert_eq!(
        command.args,
        vec!["a && b; c | d`e`"],
        "the whole hostile string must arrive as one argument, never split or interpreted"
    );
    assert_eq!(command.directory, "/work/repo");
}

#[test]
fn shell_mode_wraps_the_configured_command_in_the_users_shell_with_repon_as_its_zeroth_argument() {
    let launcher = launcher_of(&["git log --oneline -20 | less"], true);
    for (shell, expected) in [(Some("/bin/zsh".to_string()), "/bin/zsh"), (None, "/bin/sh")] {
        let command = built(&launcher, shell, &Vec::new());
        assert_eq!(command.program, expected);
        assert_eq!(
            command.args,
            vec!["-c", "git log --oneline -20 | less", "repon"],
            "`repon` must be the literal trailing argument, not the launched program's own name"
        );
    }
}

#[test]
fn a_declared_env_override_wins_over_the_guaranteed_environment_contract_pair() {
    let mut launcher = launcher_of(&["true"], false);
    launcher.env.insert("REPON_REPO_NAME".to_string(), "overridden".to_string());
    let contract = vec![
        ("REPON_REPO_NAME".to_string(), Some("repo".to_string())),
        ("REPON_BRANCH".to_string(), None),
    ];
    let command = built(&launcher, None, &contract);
    assert_eq!(value_in(&command, "REPON_REPO_NAME"), Some(Some("overridden".to_string())));
    assert_eq!(value_in(&command, "REPON_BRANCH"), Some(None));
    assert_eq!(value_in(&command, "REPON_OTHER"), None);
}

#[test]
fn a_hostile_branch_and_path_reach_the_child_only_as_literal_environment_values() {
    let hostile_branch = "feature/$(touch__pwn_c);`touch__pwn_d`";
    let hostile_path = "/work/repo;$(touch__pwn_a)`touch__pwn_b`\n-tail";
    let launcher = launcher_of(&["printenv", "REPON_BRANCH"], false);
    let contract = vec![("REPON_BRANCH".to_string(), Some(hostile_branch.to_string()))];
    let argv = launcher.source.resolve_argv(|_| None);
    let command = build_command(&launcher, &argv, None, hostile_path, &contract);

    assert_eq!(command.program, "printenv");
    assert_eq!(command.args, vec!["REPON_BRANCH"]);
    assert_eq!(command.directory, hostile_path);
    assert_eq!(
        value_in(&command, "REPON_BRANCH"),
        Some(Some(hostile_branch.to_string())),
        "REPON_BRANCH must carry the hostile value byte-for-byte, as an environment value"
    );
}

#[test]
fn several_words_reach_the_shell_joined_by_spaces() {
    let launcher = launcher_of(&["git", "log", "-1"], true);
    assert_eq!(built(&launcher, None, &Vec::new()).args, vec!["-c", "git log -1", "repon"]);
}

#[test]
fn an_empty_argv_names_an_empty_program() {
    assert_eq!(command_from_argv(&Vec::new()), (String::new(), Vec::new()));
    assert_eq!(
        command_from_argv(&vec!["vi".to_string(), "-R".to_string()]),
        ("vi".to_string(), vec!["-R".to_string()])
    );
}

#[test]
fn a_value_is_split_the_way_a_shell_would_and_an_open_quote_gives_nothing() {
    assert_eq!(
        env_argv(Some("code --wait 'a b' c\\ d".to_string())),
        Some(vec!["code".to_string(), "--wait".to_string(), "a b".to_string(), "c d".to_string()])
    );
    assert_eq!(env_argv(Some("code 'open".to_string())), None);
    assert_eq!(env_argv(Some("\u{2003} \t".to_string())), None);
    assert_eq!(env_argv(None), None);
    assert_eq!(argv_or(None, "vi"), vec!["vi"]);
    assert_eq!(argv_or(Some(vec!["nano".to_string()]), "vi"), vec!["nano"]);
}

#[test]
fn an_open_quote_falls_through_the_editor_chain() {
    let argv = Source::EditorChain.resolve_argv(|name| match name {
        "VISUAL" => Some("code 'open".to_string()),
        "EDITOR" => Some("nano -w".to_string()),
        _ => None,
    });
    assert_eq!(argv, vec!["nano", "-w"]);
}

#[test]
fn an_argument_vector_wins_over_a_variable_and_neither_gives_an_empty_argv() {
    let mut config = launcher_config("x", Some(vec!["a"]), Some("B"), false);
    assert_eq!(Launcher::from_config(&config).source, Source::Args(vec!["a".to_string()]));
    config.args = None;
    assert_eq!(Launcher::from_config(&config).source, Source::FromEnv("B".to_string()));
    config.from_env = None;
    assert_eq!(Launcher::from_config(&config).source, Source::Args(Vec::new()));
}

#[test]
fn the_last_entry_of_a_name_decides_and_no_name_stands_twice() {
    let mut document = Document::default();
    document.launchers.push(launcher_config("scratch", Some(vec!["one"]), None, false));
    document.launchers.push(launcher_config("lazygit", None, None, true));
    document.launchers.push(launcher_config("scratch", Some(vec!["two"]), None, false));
    document.launchers.push(launcher_config("lazygit", Some(vec!["again"]), None, false));
    let resolved = resolve(&document);
    let names: Vec<&str> = resolved.iter().map(|launcher| launcher.name.as_str()).collect();
    assert_eq!(names, vec!["tuicr", "editor", "shell", "scratch", "lazygit"]);
    assert_eq!(resolved[3].source, Source::Args(vec!["two".to_string()]));
    assert_eq!(resolved[4].source, Source::Args(vec!["again".to_string()]));
}

#[test]
fn a_copy_reads_as_the_launcher_it_was_made_from() {
    let mut launcher = launcher_of(&["true", "x"], true);
    launcher.env.insert("A".to_string(), "b".to_string());
    assert_eq!(launcher.copy(), launcher);
}

#[test]
fn a_source_asks_for_no_variable_but_those_it_reads() {
    let asked = |source: &Source, visual: Option<&str>| -> Vec<String> {
        let names = std::cell::RefCell::new(Vec::new());
        source.resolve_argv(|name| {
            names.borrow_mut().push(name.to_string());
            if name == "VISUAL" { visual.map(str::to_string) } else { None }
        });
        names.into_inner()
    };
    assert_eq!(asked(&Source::Args(vec!["x".to_string()]), None), Vec::<String>::new());
    assert_eq!(asked(&Source::FromEnv("PAGER".to_string()), None), vec!["PAGER"]);
    assert_eq!(asked(&Source::EditorChain, Some("vim")), vec!["VISUAL"]);
    assert_eq!(asked(&Source::EditorChain, Some("'open")), vec!["VISUAL", "EDITOR"]);
    assert_eq!(asked(&Source::EditorChain, None), vec!["VISUAL", "EDITOR"]);
    assert_eq!(asked(&Source::ShellFallback, None), vec!["SHELL"]);
}

#[test]
fn a_declared_entrys_overrides_reach_the_launcher_and_its_command_each_name_once() {
    let mut config = launcher_config("mine", Some(vec!["true"]), None, false);
    config.env.insert("B".to_string(), "1".to_string());
    config.env.insert("A".to_string(), "2".to_string());
    config.env.insert("B".to_string(), "3".to_string());
    let mut document = Document::default();
    document.launchers.push(config);
    let resolved = resolve(&document);
    let mine = resolved.last().expect("the declared Launcher");
    let pairs = vec![("A".to_string(), "2".to_string()), ("B".to_string(), "3".to_string())];
    assert_eq!(mine.env.pairs(), &pairs);
    let command = built(mine, None, &vec![("B".to_string(), None)]);
    assert_eq!(value_in(&command, "A"), Some(Some("2".to_string())));
    assert_eq!(value_in(&command, "B"), Some(Some("3".to_string())));
}
