//! Launchers: configured handoff targets a single row can hand the terminal to (lazygit, tuicr,
//! an editor, a shell): the list a configuration resolves to, and the command each one runs.

use vstd::prelude::*;

use crate::environment::{value_of, Environment};
use crate::text::{
    count_prefix, is_whitespace_spec, join, joined, lemma_prefix_len, prefix_len, same, Run,
};

verus! {

broadcast use {vstd::string::group_string_axioms, vstd::seq_lib::group_seq_properties};

/// One Launcher ready for the palette: its name, how its argv is produced, and its own
/// configured shell opt-in and environment overrides.
#[derive(Debug, Clone, PartialEq, Eq)]
pub struct Launcher {
    pub name: String,
    pub source: Source,
    pub shell: bool,
    pub env: Environment,
}

/// How a Launcher's argv is produced. `EditorChain` and `ShellFallback` exist only for the two
/// shipped defaults whose fallback chain a single variable cannot express.
#[derive(Debug, Clone, PartialEq, Eq)]
pub enum Source {
    /// A literal argv vector.
    Args(Vec<String>),
    /// Reads one named environment variable, split into words. Unset, or set blank, resolves to
    /// an empty argv.
    FromEnv(String),
    /// The first of `VISUAL`, then `EDITOR`, that is set and not blank, split into words; if
    /// neither is, the single word `vi`.
    EditorChain,
    /// `SHELL` if set and not blank, split into words; otherwise the single word `/bin/sh`.
    ShellFallback,
}

/// A [`Source`] as plain text.
pub enum SourceView {
    Args(Seq<Seq<char>>),
    FromEnv(Seq<char>),
    EditorChain,
    ShellFallback,
}

impl View for Source {
    type V = SourceView;

    open spec fn view(&self) -> SourceView {
        match *self {
            Source::Args(args) => SourceView::Args(args.deep_view()),
            Source::FromEnv(name) => SourceView::FromEnv(name@),
            Source::EditorChain => SourceView::EditorChain,
            Source::ShellFallback => SourceView::ShellFallback,
        }
    }
}

/// A [`Launcher`] as plain values.
pub struct LauncherView {
    pub name: Seq<char>,
    pub source: SourceView,
    pub shell: bool,
    pub env: Seq<(Seq<char>, Seq<char>)>,
}

impl View for Launcher {
    type V = LauncherView;

    open spec fn view(&self) -> LauncherView {
        LauncherView {
            name: self.name@,
            source: self.source@,
            shell: self.shell,
            env: self.env@,
        }
    }
}

/// The launchers as plain values.
pub open spec fn launchers_view(launchers: Seq<Launcher>) -> Seq<LauncherView> {
    launchers.map_values(|launcher: Launcher| launcher@)
}

/// The words a shell would split a command line into, or nothing where a quote stays open.
pub uninterp spec fn shell_split(line: Seq<char>) -> Option<Seq<Seq<char>>>;

/// The words, as plain text.
pub open spec fn words_view(words: Option<Vec<String>>) -> Option<Seq<Seq<char>>> {
    match words {
        Some(words) => Some(words.deep_view()),
        None => None,
    }
}

/// `shell_words::split`: the words of a command line after quote removal, `None` where it
/// answers that a quote is not closed. The same line always gives the same words.
#[verifier::external_body]
fn split_words(line: &str) -> (words: Option<Vec<String>>)
    ensures
        words_view(words) == shell_split(line@),
{
    shell_words::split(line).ok()
}

/// `value` holds nothing but whitespace.
pub open spec fn is_blank(value: Seq<char>) -> bool {
    prefix_len(value, Run::Whitespace) == value.len()
}

/// The argv a variable's value gives: nothing where it is unset, blank, or leaves a quote open.
pub open spec fn env_words(value: Option<Seq<char>>) -> Option<Seq<Seq<char>>> {
    match value {
        Some(value) => if is_blank(value) {
            None
        } else {
            shell_split(value)
        },
        None => None,
    }
}

/// A variable's value as plain text.
pub open spec fn value_view(value: Option<String>) -> Option<Seq<char>> {
    match value {
        Some(value) => Some(value@),
        None => None,
    }
}

/// A variable's value split into words, or `None` if unset, blank, or with a quote left open, so
/// every failure reads as nothing to run.
pub fn env_argv(value: Option<String>) -> (argv: Option<Vec<String>>)
    ensures
        words_view(argv) == env_words(value_view(value)),
{
    match value {
        Some(value) => {
            let blank: usize = count_prefix(value.as_str(), Run::Whitespace);
            if blank == value.as_str().unicode_len() {
                None
            } else {
                split_words(value.as_str())
            }
        },
        None => None,
    }
}

/// The words of a candidate argv, or the single word `fallback` where there is none.
pub open spec fn or_word(candidate: Option<Seq<Seq<char>>>, fallback: Seq<char>) -> Seq<Seq<char>> {
    match candidate {
        Some(words) => words,
        None => seq![fallback],
    }
}

/// `candidate`, or the single word `fallback` where there is none.
pub fn argv_or(candidate: Option<Vec<String>>, fallback: &str) -> (argv: Vec<String>)
    ensures
        argv.deep_view() == or_word(words_view(candidate), fallback@),
{
    match candidate {
        Some(argv) => argv,
        None => {
            let argv: Vec<String> = vec![fallback.to_owned()];
            proof {
                assert(argv.deep_view() =~= seq![fallback@]);
            }
            argv
        },
    }
}

/// `value` is an answer `lookup` can give for the variable named `name`.
pub open spec fn answers<F: Fn(&str) -> Option<String>>(
    lookup: F,
    name: Seq<char>,
    value: Option<Seq<char>>,
) -> bool {
    exists|key: &str, answer: Option<String>|
        key@ == name && #[trigger] lookup.ensures((key,), answer) && value_view(answer) == value
}

/// `argv` is what a single variable resolves to.
pub open spec fn resolves_variable<F: Fn(&str) -> Option<String>>(
    name: Seq<char>,
    lookup: F,
    argv: Seq<Seq<char>>,
) -> bool {
    exists|value: Option<Seq<char>>| #[trigger]
        answers(lookup, name, value) && argv == match env_words(value) {
            Some(words) => words,
            None => Seq::empty(),
        }
}

/// `argv` is what a variable resolves to, or the single word `fallback` where it gives nothing
/// to run.
pub open spec fn resolves_or<F: Fn(&str) -> Option<String>>(
    name: Seq<char>,
    fallback: Seq<char>,
    lookup: F,
    argv: Seq<Seq<char>>,
) -> bool {
    exists|value: Option<Seq<char>>| #[trigger]
        answers(lookup, name, value) && argv == or_word(env_words(value), fallback)
}

/// `argv` is what the editor chain resolves to: `VISUAL`, where that gives nothing to run
/// `EDITOR`, and where that does not either `vi`.
pub open spec fn resolves_editor<F: Fn(&str) -> Option<String>>(
    lookup: F,
    argv: Seq<Seq<char>>,
) -> bool {
    exists|visual: Option<Seq<char>>| #[trigger]
        answers(lookup, "VISUAL"@, visual) && match env_words(visual) {
            Some(words) => argv == words,
            None => resolves_or("EDITOR"@, "vi"@, lookup, argv),
        }
}

/// `argv` is what `source` resolves to under the answers `lookup` gives.
pub open spec fn resolves<F: Fn(&str) -> Option<String>>(
    source: SourceView,
    lookup: F,
    argv: Seq<Seq<char>>,
) -> bool {
    match source {
        SourceView::Args(args) => argv == args,
        SourceView::FromEnv(name) => resolves_variable(name, lookup, argv),
        SourceView::EditorChain => resolves_editor(lookup, argv),
        SourceView::ShellFallback => resolves_or("SHELL"@, "/bin/sh"@, lookup, argv),
    }
}

/// `lookup` can be asked for the variable named `name`.
pub open spec fn can_ask<F: Fn(&str) -> Option<String>>(lookup: F, name: Seq<char>) -> bool {
    forall|key: &str| key@ == name ==> #[trigger] lookup.requires((key,))
}

/// `lookup` can be asked for every variable `source` reads: none for a literal argv, the one it
/// names, `VISUAL` and, only where that gives nothing to run, `EDITOR`, or `SHELL`.
pub open spec fn can_ask_for<F: Fn(&str) -> Option<String>>(
    source: SourceView,
    lookup: F,
) -> bool {
    match source {
        SourceView::Args(_) => true,
        SourceView::FromEnv(name) => can_ask(lookup, name),
        SourceView::EditorChain => {
            &&& can_ask(lookup, "VISUAL"@)
            &&& (exists|visual: Option<Seq<char>>| #[trigger]
                answers(lookup, "VISUAL"@, visual) && env_words(visual) is None) ==> can_ask(
                lookup,
                "EDITOR"@,
            )
        },
        SourceView::ShellFallback => can_ask(lookup, "SHELL"@),
    }
}

fn copy_texts(texts: &Vec<String>) -> (copy: Vec<String>)
    ensures
        copy.deep_view() == texts.deep_view(),
{
    let mut copy: Vec<String> = Vec::new();
    let mut i: usize = 0;
    while i < texts.len()
        invariant
            i <= texts.len(),
            copy@.len() == i,
            forall|k: int| 0 <= k < i ==> (#[trigger] copy@[k])@ == texts@[k]@,
        decreases texts.len() - i,
    {
        copy.push(texts[i].clone());
        i = i + 1;
    }
    proof {
        assert(copy.deep_view() =~= texts.deep_view());
    }
    copy
}

impl Source {
    /// Resolves to argv at invocation time. `lookup` answers for the process environment, and is
    /// asked for no variable but those the source reads.
    pub fn resolve_argv<F: Fn(&str) -> Option<String>>(&self, lookup: F) -> (argv: Vec<String>)
        requires
            can_ask_for(self@, lookup),
        ensures
            resolves(self@, lookup, argv.deep_view()),
    {
        match self {
            Source::Args(args) => copy_texts(args),
            Source::FromEnv(name) => {
                let value = lookup(name.as_str());
                proof {
                    assert(answers(lookup, name@, value_view(value)));
                }
                match env_argv(value) {
                    Some(argv) => argv,
                    None => {
                        let argv: Vec<String> = Vec::new();
                        proof {
                            assert(argv.deep_view() =~= Seq::<Seq<char>>::empty());
                        }
                        argv
                    },
                }
            },
            Source::EditorChain => {
                let visual = lookup("VISUAL");
                proof {
                    assert(answers(lookup, "VISUAL"@, value_view(visual)));
                }
                match env_argv(visual) {
                    Some(argv) => argv,
                    None => {
                        let editor = lookup("EDITOR");
                        proof {
                            assert(answers(lookup, "EDITOR"@, value_view(editor)));
                        }
                        argv_or(env_argv(editor), "vi")
                    },
                }
            },
            Source::ShellFallback => {
                let shell = lookup("SHELL");
                proof {
                    assert(answers(lookup, "SHELL"@, value_view(shell)));
                }
                argv_or(env_argv(shell), "/bin/sh")
            },
        }
    }
}

/// A declared `[[launcher]]` entry.
#[derive(Debug, Clone, PartialEq, Eq)]
pub struct LauncherConfig {
    pub name: String,
    pub args: Option<Vec<String>>,
    pub from_env: Option<String>,
    pub shell: bool,
    pub env: Environment,
    pub disabled: bool,
}

/// What a configuration document says of Launchers.
#[derive(Debug, Clone, PartialEq, Eq)]
pub struct Document {
    pub launchers: Vec<LauncherConfig>,
}

impl Default for Document {
    fn default() -> (document: Self)
        ensures
            document.launchers@.len() == 0,
    {
        Document { launchers: Vec::new() }
    }
}

impl LauncherConfig {
    /// The Launcher this entry declares: its literal argv where it has one, else the variable it
    /// names, else an empty argv. A disabled entry drops the Launcher it names instead.
    pub open spec fn declares(&self) -> LauncherView {
        LauncherView {
            name: self.name@,
            source: match self.args {
                Some(args) => SourceView::Args(args.deep_view()),
                None => match self.from_env {
                    Some(name) => SourceView::FromEnv(name@),
                    None => SourceView::Args(Seq::empty()),
                },
            },
            shell: self.shell,
            env: self.env@,
        }
    }
}

/// A declared entry as plain values: the Launcher it declares, and whether it drops it instead.
pub open spec fn declared_view(entries: Seq<LauncherConfig>) -> Seq<(LauncherView, bool)> {
    entries.map_values(|entry: LauncherConfig| (entry.declares(), entry.disabled))
}

impl Launcher {
    /// The Launcher a declared entry names.
    pub fn from_config(config: &LauncherConfig) -> (launcher: Self)
        ensures
            launcher@ == config.declares(),
            launcher.name@ == config.name@,
            launcher.shell == config.shell,
            launcher.env@ == config.env@,
            config.args matches Some(args) ==> launcher.source@ == SourceView::Args(
                args.deep_view(),
            ),
            config.args is None ==> (config.from_env matches Some(name) ==> launcher.source@
                == SourceView::FromEnv(name@)),
            config.args is None && config.from_env is None ==> launcher.source@
                == SourceView::Args(Seq::empty()),
    {
        let source = match &config.args {
            Some(args) => Source::Args(copy_texts(args)),
            None => match &config.from_env {
                Some(name) => Source::FromEnv(name.clone()),
                None => {
                    let args: Vec<String> = Vec::new();
                    proof {
                        assert(args.deep_view() =~= Seq::<Seq<char>>::empty());
                    }
                    Source::Args(args)
                },
            },
        };
        Launcher {
            name: config.name.clone(),
            source,
            shell: config.shell,
            env: config.env.clone(),
        }
    }

    /// A Launcher that reads as this one.
    pub fn copy(&self) -> (copy: Launcher)
        ensures
            copy@ == self@,
    {
        let source = match &self.source {
            Source::Args(args) => Source::Args(copy_texts(args)),
            Source::FromEnv(name) => Source::FromEnv(name.clone()),
            Source::EditorChain => Source::EditorChain,
            Source::ShellFallback => Source::ShellFallback,
        };
        Launcher { name: self.name.clone(), source, shell: self.shell, env: self.env.clone() }
    }
}

/// A Launcher without a shell or overrides of its own.
pub open spec fn bare(name: Seq<char>, source: SourceView) -> LauncherView {
    LauncherView { name, source, shell: false, env: Seq::empty() }
}

/// The four Launchers that ship, in order.
pub open spec fn shipped() -> Seq<LauncherView> {
    seq![
        bare("lazygit"@, SourceView::Args(seq!["lazygit"@])),
        bare("tuicr"@, SourceView::Args(seq!["tuicr"@])),
        bare("editor"@, SourceView::EditorChain),
        bare("shell"@, SourceView::ShellFallback),
    ]
}

fn bare_launcher(name: &str, source: Source) -> (launcher: Launcher)
    ensures
        launcher@ == bare(name@, source@),
{
    Launcher { name: name.to_owned(), source, shell: false, env: Environment::new() }
}

fn one_word(word: &str) -> (source: Source)
    ensures
        source@ == SourceView::Args(seq![word@]),
{
    let args: Vec<String> = vec![word.to_owned()];
    proof {
        assert(args.deep_view() =~= seq![word@]);
    }
    Source::Args(args)
}

/// The four Launchers that ship, before a document's entries replace, drop or extend them.
pub fn shipped_defaults() -> (launchers: Vec<Launcher>)
    ensures
        launchers_view(launchers@) == shipped(),
{
    let launchers: Vec<Launcher> = vec![
        bare_launcher("lazygit", one_word("lazygit")),
        bare_launcher("tuicr", one_word("tuicr")),
        bare_launcher("editor", Source::EditorChain),
        bare_launcher("shell", Source::ShellFallback),
    ];
    proof {
        assert(launchers_view(launchers@) =~= shipped());
    }
    launchers
}

/// Where the first Launcher named `name` stands; the length of the list where none does.
pub open spec fn position(launchers: Seq<LauncherView>, name: Seq<char>) -> int
    decreases launchers.len(),
{
    if launchers.len() == 0 {
        0
    } else if launchers[0].name == name {
        0
    } else {
        1 + position(launchers.drop_first(), name)
    }
}

/// What one declared entry does to the list: it replaces the Launcher of its name in place, or
/// drops it where it is disabled; one of a new name is added behind the others, unless disabled.
pub open spec fn declare(
    launchers: Seq<LauncherView>,
    entry: (LauncherView, bool),
) -> Seq<LauncherView> {
    let at = position(launchers, entry.0.name);
    if at < launchers.len() {
        if entry.1 {
            launchers.remove(at)
        } else {
            launchers.update(at, entry.0)
        }
    } else if entry.1 {
        launchers
    } else {
        launchers.push(entry.0)
    }
}

/// The shipped Launchers with the declared entries applied in order.
pub open spec fn resolved(entries: Seq<(LauncherView, bool)>) -> Seq<LauncherView>
    decreases entries.len(),
{
    if entries.len() == 0 {
        shipped()
    } else {
        declare(resolved(entries.drop_last()), entries.last())
    }
}

fn find_named(launchers: &Vec<Launcher>, name: &str) -> (at: usize)
    ensures
        at == position(launchers_view(launchers@), name@),
        at <= launchers.len(),
{
    let ghost all = launchers_view(launchers@);
    let mut i: usize = 0;
    proof {
        assert(all.skip(0) =~= all);
    }
    while i < launchers.len()
        invariant
            i <= launchers.len(),
            all == launchers_view(launchers@),
            position(all, name@) == i + position(all.skip(i as int), name@),
        decreases launchers.len() - i,
    {
        proof {
            assert(all.skip(i as int)[0] == launchers@[i as int]@);
            assert(all.skip(i as int).drop_first() =~= all.skip(i + 1));
        }
        if same(launchers[i].name.as_str(), name) {
            return i;
        }
        i = i + 1;
    }
    i
}

/// Merges the four shipped defaults with `document`'s declared entries, in file order: an entry
/// with a name already there replaces it in place, `disabled` drops it, and an entry of a new
/// name is added behind the others, unless it is itself disabled.
pub fn resolve(document: &Document) -> (launchers: Vec<Launcher>)
    ensures
        launchers_view(launchers@) == resolved(declared_view(document.launchers@)),
        forall|i: int, k: int|
            #![trigger document.launchers@[i], launchers@[k]]
            0 <= i < document.launchers@.len() && 0 <= k < launchers@.len() && launchers@[k].name@
                == document.launchers@[i].name@ && (forall|j: int|
                i < j < document.launchers@.len() ==> (#[trigger] document.launchers@[j]).name@
                    != document.launchers@[i].name@) ==> !document.launchers@[i].disabled
                && launchers@[k].shell == document.launchers@[i].shell && launchers@[k].env@
                == document.launchers@[i].env@,
{
    let ghost entries = declared_view(document.launchers@);
    let mut launchers = shipped_defaults();
    let mut i: usize = 0;
    while i < document.launchers.len()
        invariant
            i <= document.launchers.len(),
            entries == declared_view(document.launchers@),
            launchers_view(launchers@) == resolved(entries.take(i as int)),
        decreases document.launchers.len() - i,
    {
        proof {
            assert(entries.take(i + 1).drop_last() =~= entries.take(i as int));
        }
        let declared = &document.launchers[i];
        let ghost before = launchers@;
        let at: usize = find_named(&launchers, declared.name.as_str());
        if at < launchers.len() {
            if declared.disabled {
                launchers.remove(at);
                proof {
                    assert(launchers_view(launchers@) =~= launchers_view(before).remove(at as int));
                }
            } else {
                let launcher = Launcher::from_config(declared);
                launchers[at] = launcher;
                proof {
                    assert(launchers_view(launchers@) =~= launchers_view(before).update(
                        at as int,
                        launcher@,
                    ));
                }
            }
        } else if !declared.disabled {
            let launcher = Launcher::from_config(declared);
            launchers.push(launcher);
            proof {
                assert(launchers_view(launchers@) =~= launchers_view(before).push(launcher@));
            }
        }
        i = i + 1;
    }
    proof {
        assert(entries.take(i as int) =~= entries);
        assert forall|i: int, k: int|
            #![trigger document.launchers@[i], launchers@[k]]
            0 <= i < document.launchers@.len() && 0 <= k < launchers@.len() && launchers@[k].name@
                == document.launchers@[i].name@ && (forall|j: int|
                i < j < document.launchers@.len() ==> (#[trigger] document.launchers@[j]).name@
                    != document.launchers@[i].name@) implies !document.launchers@[i].disabled
            && launchers@[k].shell == document.launchers@[i].shell && launchers@[k].env@
            == document.launchers@[i].env@ by {
            law_the_last_entry_of_a_name_decides(document.launchers@, i);
            assert(launchers_view(launchers@)[k] == launchers@[k]@);
            assert(resolved(entries).contains(launchers@[k]@));
        }
    }
    launchers
}

/// A child process to start: its program and arguments, the directory it starts in, and what
/// becomes of each named variable, the last mention of a name deciding. `None` removes one.
#[derive(Debug, Clone, PartialEq, Eq)]
pub struct CommandPlan {
    pub program: String,
    pub args: Vec<String>,
    pub directory: String,
    pub env: Vec<(String, Option<String>)>,
}

/// The program an argv names: its first word, or the empty text.
pub open spec fn program_of(argv: Seq<Seq<char>>) -> Seq<char> {
    if argv.len() == 0 {
        Seq::empty()
    } else {
        argv[0]
    }
}

/// The arguments an argv names: every word behind the first.
pub open spec fn args_of(argv: Seq<Seq<char>>) -> Seq<Seq<char>> {
    if argv.len() == 0 {
        argv
    } else {
        argv.drop_first()
    }
}

/// `argv[0]` as the program, the rest as its arguments; an empty `argv` names an empty program.
pub fn command_from_argv(argv: &Vec<String>) -> (command: (String, Vec<String>))
    ensures
        command.0@ == program_of(argv.deep_view()),
        command.1.deep_view() == args_of(argv.deep_view()),
{
    let mut args: Vec<String> = Vec::new();
    if argv.len() == 0 {
        proof {
            assert(args.deep_view() =~= argv.deep_view());
        }
        return (String::new(), args);
    }
    let mut i: usize = 1;
    while i < argv.len()
        invariant
            1 <= i <= argv.len(),
            args@.len() == i - 1,
            forall|k: int| 0 <= k < i - 1 ==> (#[trigger] args@[k])@ == argv@[k + 1]@,
        decreases argv.len() - i,
    {
        args.push(argv[i].clone());
        i = i + 1;
    }
    proof {
        assert(args.deep_view() =~= argv.deep_view().drop_first());
    }
    (argv[0].clone(), args)
}

/// Variables and what becomes of them, as plain text.
pub open spec fn changes_view(changes: Seq<(String, Option<String>)>) -> Seq<
    (Seq<char>, Option<Seq<char>>),
> {
    changes.map_values(|change: (String, Option<String>)| (change.0@, value_view(change.1)))
}

/// Overrides as changes: each sets its variable.
pub open spec fn overrides(pairs: Seq<(Seq<char>, Seq<char>)>) -> Seq<
    (Seq<char>, Option<Seq<char>>),
> {
    pairs.map_values(|pair: (Seq<char>, Seq<char>)| (pair.0, Some(pair.1)))
}

/// The command `launcher` runs from `argv` in `directory`: directly, or through the user's shell
/// with a literal `repon` as its zeroth argument, so `sh -c` does not eat the first real one.
/// `shell` is the `SHELL` variable's own value, and `contract` the variables every child is
/// promised; the Launcher's own overrides come last, so a declared one always wins.
pub fn build_command(
    launcher: &Launcher,
    argv: &Vec<String>,
    shell: Option<String>,
    directory: &str,
    contract: &Vec<(String, Option<String>)>,
) -> (plan: CommandPlan)
    ensures
        launcher.shell ==> plan.program@ == match shell {
            Some(shell) => shell@,
            None => "/bin/sh"@,
        },
        launcher.shell ==> plan.args.deep_view() == seq![
            "-c"@,
            joined(argv.deep_view(), " "@),
            "repon"@,
        ],
        !launcher.shell ==> plan.program@ == program_of(argv.deep_view()),
        !launcher.shell ==> plan.args.deep_view() == args_of(argv.deep_view()),
        plan.directory@ == directory@,
        changes_view(plan.env@) == changes_view(contract@) + overrides(launcher.env@),
        forall|name: Seq<char>| #[trigger]
            effect_on(changes_view(plan.env@), name) == match value_of(launcher.env@, name) {
                Some(value) => Some(Some(value)),
                None => effect_on(changes_view(contract@), name),
            },
{
    let (program, args) = if launcher.shell {
        let program = match shell {
            Some(shell) => shell,
            None => "/bin/sh".to_owned(),
        };
        let args: Vec<String> = vec!["-c".to_owned(), join(argv, " "), "repon".to_owned()];
        proof {
            assert(args.deep_view() =~= seq!["-c"@, joined(argv.deep_view(), " "@), "repon"@]);
        }
        (program, args)
    } else {
        command_from_argv(argv)
    };
    let mut env: Vec<(String, Option<String>)> = Vec::new();
    let mut i: usize = 0;
    while i < contract.len()
        invariant
            i <= contract.len(),
            env@.len() == i,
            forall|k: int|
                0 <= k < i ==> (#[trigger] env@[k]).0@ == contract@[k].0@ && value_view(env@[k].1)
                    == value_view(contract@[k].1),
        decreases contract.len() - i,
    {
        let value = match &contract[i].1 {
            Some(value) => Some(value.clone()),
            None => None,
        };
        env.push((contract[i].0.clone(), value));
        i = i + 1;
    }
    let own = launcher.env.pairs();
    let mut k: usize = 0;
    while k < own.len()
        invariant
            k <= own.len(),
            env@.len() == contract@.len() + k,
            forall|j: int|
                0 <= j < contract@.len() ==> (#[trigger] env@[j]).0@ == contract@[j].0@
                    && value_view(env@[j].1) == value_view(contract@[j].1),
            forall|j: int|
                contract@.len() <= j < contract@.len() + k ==> (#[trigger] env@[j]).0@
                    == own@[j - contract@.len()].0@ && value_view(env@[j].1) == Some(
                    own@[j - contract@.len()].1@,
                ),
        decreases own.len() - k,
    {
        env.push((own[k].0.clone(), Some(own[k].1.clone())));
        k = k + 1;
    }
    proof {
        assert(changes_view(env@) =~= changes_view(contract@) + overrides(launcher.env@));
        assert forall|name: Seq<char>| #[trigger]
            effect_on(changes_view(env@), name) == match value_of(launcher.env@, name) {
                Some(value) => Some(Some(value)),
                None => effect_on(changes_view(contract@), name),
            } by {
            law_a_declared_override_wins(changes_view(contract@), launcher.env@, name);
        }
    }
    CommandPlan { program, args, directory: directory.to_owned(), env }
}

/// What becomes of the variable `name`: what its last mention says, or nothing.
pub open spec fn effect_on(changes: Seq<(Seq<char>, Option<Seq<char>>)>, name: Seq<char>) -> Option<
    Option<Seq<char>>,
>
    decreases changes.len(),
{
    if changes.len() == 0 {
        None
    } else if changes.last().0 == name {
        Some(changes.last().1)
    } else {
        effect_on(changes.drop_last(), name)
    }
}

/// A declared override wins over the environment contract's own pair of the same name, and a
/// name without an override keeps what the contract says.
pub proof fn law_a_declared_override_wins(
    contract: Seq<(Seq<char>, Option<Seq<char>>)>,
    pairs: Seq<(Seq<char>, Seq<char>)>,
    name: Seq<char>,
)
    ensures
        effect_on(contract + overrides(pairs), name) == match value_of(pairs, name) {
            Some(value) => Some(Some(value)),
            None => effect_on(contract, name),
        },
    decreases pairs.len(),
{
    let changes = contract + overrides(pairs);
    if pairs.len() == 0 {
        assert(changes =~= contract);
    } else {
        assert(changes.drop_last() =~= contract + overrides(pairs.drop_last()));
        assert(changes.last() == (pairs.last().0, Some(pairs.last().1)));
        law_a_declared_override_wins(contract, pairs.drop_last(), name);
    }
}

/// No two Launchers share a name.
pub open spec fn distinct_names(launchers: Seq<LauncherView>) -> bool {
    forall|i: int, j: int|
        0 <= i < launchers.len() && 0 <= j < launchers.len() && (#[trigger] launchers[i]).name == (
        #[trigger] launchers[j]).name ==> i == j
}

proof fn lemma_position(launchers: Seq<LauncherView>, name: Seq<char>)
    ensures
        0 <= position(launchers, name) <= launchers.len(),
        position(launchers, name) < launchers.len() ==> launchers[position(launchers, name)].name
            == name,
        position(launchers, name) == launchers.len() ==> forall|i: int|
            0 <= i < launchers.len() ==> (#[trigger] launchers[i]).name != name,
    decreases launchers.len(),
{
    if launchers.len() > 0 && launchers[0].name != name {
        let rest = launchers.drop_first();
        lemma_position(rest, name);
        assert(forall|i: int| 0 < i < launchers.len() ==> rest[i - 1] == #[trigger] launchers[i]);
    }
}

proof fn lemma_shipped_names()
    ensures
        distinct_names(shipped()),
{
    reveal_strlit("lazygit");
    reveal_strlit("tuicr");
    reveal_strlit("editor");
    reveal_strlit("shell");
    assert("lazygit"@[0] == 'l' && "tuicr"@[0] == 't' && "editor"@[0] == 'e' && "shell"@[0] == 's');
}

/// Whatever a document declares, the palette never lists two Launchers of the same name.
pub proof fn law_resolved_names_are_distinct(entries: Seq<(LauncherView, bool)>)
    ensures
        distinct_names(resolved(entries)),
    decreases entries.len(),
{
    if entries.len() == 0 {
        lemma_shipped_names();
    } else {
        let before = resolved(entries.drop_last());
        let entry = entries.last();
        law_resolved_names_are_distinct(entries.drop_last());
        lemma_position(before, entry.0.name);
        let at = position(before, entry.0.name);
        let after = declare(before, entry);
        assert forall|i: int, j: int|
            0 <= i < after.len() && 0 <= j < after.len() && (#[trigger] after[i]).name == (
            #[trigger] after[j]).name implies i == j by {
            if at < before.len() && entry.1 {
                let x = if i < at {
                    i
                } else {
                    i + 1
                };
                let y = if j < at {
                    j
                } else {
                    j + 1
                };
                assert(after[i] == before[x]);
                assert(after[j] == before[y]);
            } else if at < before.len() {
                assert(before[i].name == after[i].name);
                assert(before[j].name == after[j].name);
            } else if !entry.1 {
                if i < before.len() {
                    assert(after[i] == before[i]);
                }
                if j < before.len() {
                    assert(after[j] == before[j]);
                }
            }
        }
    }
}

/// Right after an entry is applied, the list holds exactly what that entry says of its name: the
/// Launcher it declares, or none of that name where it is disabled. Every other Launcher is still
/// there, and nothing else is.
pub proof fn law_a_declared_entry_decides_its_own_name(
    launchers: Seq<LauncherView>,
    entry: (LauncherView, bool),
)
    requires
        distinct_names(launchers),
    ensures
        ({
            let after = declare(launchers, entry);
            &&& forall|other: LauncherView|
                other.name == entry.0.name ==> (#[trigger] after.contains(other) <==> !entry.1
                    && other == entry.0)
            &&& forall|other: LauncherView|
                other.name != entry.0.name ==> (#[trigger] after.contains(other)
                    <==> launchers.contains(other))
        }),
{
    let after = declare(launchers, entry);
    let name = entry.0.name;
    let at = position(launchers, name);
    lemma_position(launchers, name);
    assert forall|other: LauncherView| other.name == name implies (#[trigger] after.contains(
        other,
    ) <==> !entry.1 && other == entry.0) by {
        if after.contains(other) {
            let k = choose|k: int| 0 <= k < after.len() && after[k] == other;
            if at < launchers.len() && entry.1 {
                let x = if k < at {
                    k
                } else {
                    k + 1
                };
                assert(launchers[x] == other);
                assert(launchers[at].name == launchers[x].name);
            } else if at < launchers.len() {
                if k != at {
                    assert(launchers[k] == other);
                    assert(launchers[at].name == launchers[k].name);
                }
            } else if k < launchers.len() {
                assert(launchers[k] == other);
            }
        }
        if !entry.1 && other == entry.0 {
            if at < launchers.len() {
                assert(after[at] == other);
            } else {
                assert(after.last() == other);
            }
        }
    }
    assert forall|other: LauncherView| other.name != name implies (#[trigger] after.contains(other)
        <==> launchers.contains(other)) by {
        if after.contains(other) {
            let k = choose|k: int| 0 <= k < after.len() && after[k] == other;
            if at < launchers.len() && entry.1 {
                let x = if k < at {
                    k
                } else {
                    k + 1
                };
                assert(launchers[x] == other);
            } else {
                assert(launchers[k] == other);
            }
        }
        if launchers.contains(other) {
            let k = choose|k: int| 0 <= k < launchers.len() && launchers[k] == other;
            assert(k != at);
            if at < launchers.len() && entry.1 {
                let x = if k < at {
                    k
                } else {
                    k - 1
                };
                assert(after[x] == other);
            } else {
                assert(after[k] == other);
            }
        }
    }
}


/// `launcher` is what `entry` declares: of its name, with its shell opt-in and its overrides, and
/// with its literal argv where it gives one, else the variable it names, else nothing to run.
pub open spec fn is_declared_by(launcher: LauncherView, entry: LauncherConfig) -> bool {
    &&& launcher.name == entry.name@
    &&& launcher.shell == entry.shell
    &&& launcher.env == entry.env@
    &&& entry.args matches Some(args) ==> launcher.source == SourceView::Args(args.deep_view())
    &&& entry.args is None ==> (entry.from_env matches Some(name) ==> launcher.source
        == SourceView::FromEnv(name@))
    &&& entry.args is None && entry.from_env is None ==> launcher.source == SourceView::Args(
        Seq::empty(),
    )
}

/// The last entry of a name decides what the list holds under it: the Launcher it declares, field
/// by field, and that alone; or none where it is disabled.
pub proof fn law_the_last_entry_of_a_name_decides(entries: Seq<LauncherConfig>, i: int)
    requires
        0 <= i < entries.len(),
        forall|j: int| i < j < entries.len() ==> (#[trigger] entries[j]).name@ != entries[i].name@,
    ensures
        forall|launcher: LauncherView|
            launcher.name == entries[i].name@ ==> (#[trigger] resolved(
                declared_view(entries),
            ).contains(launcher) <==> !entries[i].disabled && is_declared_by(launcher, entries[i])),
    decreases entries.len(),
{
    let all = declared_view(entries);
    let rest = entries.drop_last();
    assert(all.drop_last() =~= declared_view(rest));
    assert(all.last() == (entries.last().declares(), entries.last().disabled));
    law_resolved_names_are_distinct(all.drop_last());
    law_a_declared_entry_decides_its_own_name(resolved(all.drop_last()), all.last());
    if i < rest.len() {
        assert(forall|j: int| 0 <= j < rest.len() ==> rest[j] == #[trigger] entries[j]);
        law_the_last_entry_of_a_name_decides(rest, i);
        assert(entries[entries.len() - 1] == entries.last());
    }
    assert forall|launcher: LauncherView| launcher.name == entries[i].name@ implies (
    #[trigger] resolved(all).contains(launcher) <==> !entries[i].disabled && is_declared_by(
        launcher,
        entries[i],
    )) by {
        if i < rest.len() {
            assert(entries.last().declares().name == entries.last().name@);
            assert(resolved(declared_view(rest)).contains(launcher) <==> resolved(all).contains(
                launcher,
            ));
        } else {
            assert(is_declared_by(launcher, entries[i]) <==> launcher == entries[i].declares());
        }
    }
}

/// The four Launchers that ship: `lazygit` and `tuicr` run the program of their own name, `editor`
/// the editor chain and `shell` the user's shell, none of them through a shell and none with an
/// override.
pub proof fn law_the_shipped_launchers()
    ensures
        shipped().len() == 4,
        forall|i: int|
            0 <= i < 4 ==> !(#[trigger] shipped()[i]).shell && shipped()[i].env.len() == 0,
        shipped()[0].name == "lazygit"@ && shipped()[0].source == SourceView::Args(
            seq!["lazygit"@],
        ),
        shipped()[1].name == "tuicr"@ && shipped()[1].source == SourceView::Args(seq!["tuicr"@]),
        shipped()[2].name == "editor"@ && shipped()[2].source == SourceView::EditorChain,
        shipped()[3].name == "shell"@ && shipped()[3].source == SourceView::ShellFallback,
{
}

/// A name that no entry declares is listed as it ships, or not at all.
pub proof fn law_an_undeclared_launcher_stays_as_it_ships(
    entries: Seq<LauncherConfig>,
    launcher: LauncherView,
)
    requires
        forall|j: int| 0 <= j < entries.len() ==> (#[trigger] entries[j]).name@ != launcher.name,
    ensures
        resolved(declared_view(entries)).contains(launcher) <==> shipped().contains(launcher),
    decreases entries.len(),
{
    let all = declared_view(entries);
    if entries.len() > 0 {
        let rest = entries.drop_last();
        assert(all.drop_last() =~= declared_view(rest));
        assert(all.last() == (entries.last().declares(), entries.last().disabled));
        assert(forall|j: int| 0 <= j < rest.len() ==> rest[j] == #[trigger] entries[j]);
        assert(entries[entries.len() - 1] == entries.last());
        law_an_undeclared_launcher_stays_as_it_ships(rest, launcher);
        law_resolved_names_are_distinct(all.drop_last());
        law_a_declared_entry_decides_its_own_name(resolved(all.drop_last()), all.last());
    }
}

/// The names of a list, in order.
pub open spec fn names_of(launchers: Seq<LauncherView>) -> Seq<Seq<char>> {
    launchers.map_values(|launcher: LauncherView| launcher.name)
}

/// An entry of a name already listed keeps that name's place, an entry of a new one comes last, and
/// a disabled entry takes its name out and leaves the others as they stood.
pub proof fn law_an_entry_keeps_the_order_of_the_names(
    launchers: Seq<LauncherView>,
    entry: (LauncherView, bool),
)
    requires
        distinct_names(launchers),
    ensures
        ({
            let before = names_of(launchers);
            let after = names_of(declare(launchers, entry));
            let name = entry.0.name;
            &&& !entry.1 && before.contains(name) ==> after == before
            &&& !entry.1 && !before.contains(name) ==> after == before.push(name)
            &&& entry.1 ==> after == before.filter(|other: Seq<char>| other != name)
        }),
{
    let before = names_of(launchers);
    let name = entry.0.name;
    let at = position(launchers, name);
    let after = names_of(declare(launchers, entry));
    lemma_position(launchers, name);
    assert(before.contains(name) <==> at < launchers.len()) by {
        if before.contains(name) {
            let k = choose|k: int| 0 <= k < before.len() && before[k] == name;
            assert(launchers[k].name == name);
        }
        if at < launchers.len() {
            assert(before[at] == name);
        }
    }
    if entry.1 {
        if at < launchers.len() {
            assert(forall|i: int, j: int|
                0 <= i < before.len() && 0 <= j < before.len() && before[i] == before[j] ==> i == j)
                by {
                assert forall|i: int, j: int|
                    0 <= i < before.len() && 0 <= j < before.len() && before[i]
                        == before[j] implies i == j by {
                    assert(launchers[i].name == launchers[j].name);
                }
            }
            lemma_filter_of_one(before, at, name);
            assert(after =~= before.remove(at));
        } else {
            lemma_filter_of_all(before, name);
            assert(after =~= before);
        }
    } else if at < launchers.len() {
        assert(after =~= before);
    } else {
        assert(after =~= before.push(name));
    }
}

proof fn lemma_filter_of_all(names: Seq<Seq<char>>, name: Seq<char>)
    requires
        !names.contains(name),
    ensures
        names.filter(|other: Seq<char>| other != name) == names,
    decreases names.len(),
{
    reveal(Seq::filter);
    if names.len() > 0 {
        let rest = names.drop_last();
        assert(names[names.len() - 1] == names.last());
        assert(!rest.contains(name)) by {
            if rest.contains(name) {
                let k = choose|k: int| 0 <= k < rest.len() && rest[k] == name;
                assert(names[k] == name);
            }
        }
        lemma_filter_of_all(rest, name);
        assert(names =~= rest.push(names.last()));
    }
}

proof fn lemma_filter_of_one(names: Seq<Seq<char>>, at: int, name: Seq<char>)
    requires
        0 <= at < names.len(),
        names[at] == name,
        forall|i: int, j: int|
            0 <= i < names.len() && 0 <= j < names.len() && names[i] == names[j] ==> i == j,
    ensures
        names.filter(|other: Seq<char>| other != name) == names.remove(at),
    decreases names.len(),
{
    reveal(Seq::filter);
    let rest = names.drop_last();
    if at == rest.len() {
        assert(!rest.contains(name)) by {
            if rest.contains(name) {
                let k = choose|k: int| 0 <= k < rest.len() && rest[k] == name;
                assert(names[k] == names[at]);
            }
        }
        lemma_filter_of_all(rest, name);
        assert(names.remove(at) =~= rest);
    } else {
        assert(forall|k: int| 0 <= k < rest.len() ==> rest[k] == #[trigger] names[k]);
        lemma_filter_of_one(rest, at, name);
        assert(names[names.len() - 1] != names[at]);
        assert(names.remove(at) =~= rest.remove(at).push(names.last()));
    }
}

/// A variable gives something to run exactly where it is set, holds more than whitespace, and
/// splits into words; what it gives is those words.
pub proof fn law_a_variable_gives_its_words(value: Seq<char>)
    ensures
        env_words(None) is None,
        (forall|i: int| 0 <= i < value.len() ==> is_whitespace_spec(#[trigger] value[i]))
            ==> env_words(Some(value)) is None,
        (exists|i: int| 0 <= i < value.len() && !is_whitespace_spec(#[trigger] value[i]))
            ==> env_words(Some(value)) == shell_split(value),
{
    lemma_prefix_len(value, Run::Whitespace);
}

/// What each source resolves to: a literal argv to itself; a variable to its words, or nothing; the
/// editor chain to `VISUAL`'s words, else to `EDITOR`'s, else to `vi`; and the shell to `SHELL`'s
/// words, else to `/bin/sh`.
pub proof fn law_what_each_source_resolves_to<F: Fn(&str) -> Option<String>>(
    source: SourceView,
    lookup: F,
    argv: Seq<Seq<char>>,
)
    requires
        resolves(source, lookup, argv),
    ensures
        source matches SourceView::Args(args) ==> argv == args,
        source matches SourceView::FromEnv(name) ==> exists|value: Option<Seq<char>>| #[trigger]
            answers(lookup, name, value) && (env_words(value) == Some(argv) || env_words(
                value,
            ) is None && argv.len() == 0),
        source is ShellFallback ==> exists|value: Option<Seq<char>>| #[trigger]
            answers(lookup, "SHELL"@, value) && (env_words(value) == Some(argv) || env_words(
                value,
            ) is None && argv == seq!["/bin/sh"@]),
        source is EditorChain ==> exists|visual: Option<Seq<char>>| #[trigger]
            answers(lookup, "VISUAL"@, visual) && (env_words(visual) == Some(argv) || env_words(
                visual,
            ) is None && exists|editor: Option<Seq<char>>| #[trigger]
                answers(lookup, "EDITOR"@, editor) && (env_words(editor) == Some(argv) || env_words(
                    editor,
                ) is None && argv == seq!["vi"@])),
{
}

/// An answer is one that the lookup can give when it is asked for that very name.
pub proof fn law_an_answer_is_the_lookups_own<F: Fn(&str) -> Option<String>>(
    lookup: F,
    key: &str,
    answer: Option<String>,
)
    requires
        lookup.ensures((key,), answer),
    ensures
        answers(
            lookup,
            key@,
            match answer {
                Some(value) => Some(value@),
                None => None,
            },
        ),
{
}

/// A program and its arguments are the words of their argv, in order; an empty argv names an empty
/// program without arguments.
pub proof fn law_an_argv_is_its_program_and_arguments(argv: Seq<Seq<char>>)
    ensures
        argv.len() > 0 ==> seq![program_of(argv)] + args_of(argv) == argv,
        argv.len() == 0 ==> program_of(argv).len() == 0 && args_of(argv).len() == 0,
{
    if argv.len() > 0 {
        assert(seq![program_of(argv)] + args_of(argv) =~= argv);
    }
}

/// What becomes of a variable is what its last mention says: set to that value, or removed; one
/// that is not mentioned stays as it is.
pub proof fn law_the_last_mention_decides(
    changes: Seq<(Seq<char>, Option<Seq<char>>)>,
    name: Seq<char>,
    i: int,
)
    ensures
        0 <= i < changes.len() && changes[i].0 == name && (forall|j: int|
            i < j < changes.len() ==> (#[trigger] changes[j]).0 != name) ==> effect_on(changes, name)
            == Some(changes[i].1),
        (forall|j: int| 0 <= j < changes.len() ==> (#[trigger] changes[j]).0 != name) ==> effect_on(
            changes,
            name,
        ) is None,
    decreases changes.len(),
{
    if changes.len() > 0 {
        let rest = changes.drop_last();
        assert(forall|j: int| 0 <= j < rest.len() ==> rest[j] == #[trigger] changes[j]);
        assert(changes[changes.len() - 1] == changes.last());
        law_the_last_mention_decides(rest, name, i);
    }
}

/// There is no answer but what the lookup gives when it is asked for that name.
pub proof fn law_every_answer_is_given_by_the_lookup<F: Fn(&str) -> Option<String>>(
    lookup: F,
    name: Seq<char>,
    value: Option<Seq<char>>,
)
    requires
        answers(lookup, name, value),
    ensures
        exists|key: &str, answer: Option<String>| #[trigger]
            lookup.ensures((key,), answer) && key@ == name && (answer is None <==> value is None)
                && (answer is Some ==> value == Some(answer->0@)),
{
    let (key, answer) = choose|key: &str, answer: Option<String>|
        key@ == name && #[trigger] lookup.ensures((key,), answer) && value_view(answer) == value;
    assert(lookup.ensures((key,), answer) && key@ == name);
}

} // verus!
