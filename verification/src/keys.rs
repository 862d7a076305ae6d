//! The live binding table: the one place a key press turns into an action, and where a `[keys]`
//! block joins the default map.

use vstd::prelude::*;

use crate::action::{description, description_text, Action, Context};
use crate::chord::{
    chord_label, chord_text, ctrl, none, printable, printable_spec, KeyCode, KeyEvent,
    KeyModifiers,
};
use crate::default_map::{default_bindings, default_rows, Binding};
use crate::text::{join, joined, same};

verus! {

broadcast use {vstd::string::group_string_axioms, vstd::seq_lib::group_seq_properties};

/// The chords no binding may name: a terminal delivers each of these as Tab, Enter or Esc, or as
/// the letter with Ctrl, depending on what it supports.
pub open spec fn is_unbindable_spec(code: KeyCode, modifiers: KeyModifiers) -> bool {
    modifiers == ctrl() && (code == KeyCode::Char('i') || code == KeyCode::Char('m') || code
        == KeyCode::Char('['))
}

/// Whether `code` under `modifiers` is one of the permanently unbindable chords.
pub fn is_unbindable(code: KeyCode, modifiers: KeyModifiers) -> (unbindable: bool)
    ensures
        unbindable == is_unbindable_spec(code, modifiers),
{
    modifiers == ctrl() && (code == KeyCode::Char('i') || code == KeyCode::Char('m') || code
        == KeyCode::Char('['))
}

/// Whether any row names a permanently unbindable chord.
pub fn any_binding_is_permanently_unbindable(rows: &Vec<Binding>) -> (found: bool)
    ensures
        found == exists|i: int|
            0 <= i < rows@.len() && is_unbindable_spec(
                #[trigger] rows@[i].code,
                rows@[i].modifiers,
            ),
{
    let mut i: usize = 0;
    while i < rows.len()
        invariant
            i <= rows.len(),
            forall|k: int|
                0 <= k < i ==> !is_unbindable_spec(#[trigger] rows@[k].code, rows@[k].modifiers),
        decreases rows.len() - i,
    {
        if is_unbindable(rows[i].code, rows[i].modifiers) {
            return true;
        }
        i = i + 1;
    }
    false
}

/// `row` answers `key` in `context`.
pub open spec fn fires(row: Binding, context: Context, key: KeyEvent) -> bool {
    row.context == context && row.code == key.code && row.modifiers == key.modifiers && row.built
}

/// The action of the first row that answers `key` in `context`.
pub open spec fn lookup_spec(rows: Seq<Binding>, context: Context, key: KeyEvent) -> Option<Action>
    decreases rows.len(),
{
    if rows.len() == 0 {
        None
    } else if fires(rows[0], context, key) {
        Some(rows[0].action)
    } else {
        lookup_spec(rows.drop_first(), context, key)
    }
}

/// What a key means while `context` has focus: `Global` is heard only behind `List` and
/// `Detail`, and `Input` takes any printable character no row claims.
pub open spec fn dispatch_spec(rows: Seq<Binding>, context: Context, key: KeyEvent) -> Option<
    Action,
> {
    let own = lookup_spec(rows, context, key);
    match context {
        Context::List | Context::Detail => if own is Some {
            own
        } else {
            lookup_spec(rows, Context::Global, key)
        },
        Context::Input => if own is Some {
            own
        } else {
            match printable_spec(key) {
                Some(c) => Some(Action::Text(c)),
                None => None,
            }
        },
        Context::Global | Context::Overlay | Context::Confirm | Context::Sort => own,
    }
}

fn lookup(rows: &Vec<Binding>, context: Context, key: KeyEvent) -> (action: Option<Action>)
    ensures
        action == lookup_spec(rows@, context, key),
{
    let mut i: usize = 0;
    proof {
        assert(rows@.skip(0) =~= rows@);
    }
    while i < rows.len()
        invariant
            i <= rows.len(),
            lookup_spec(rows@, context, key) == lookup_spec(rows@.skip(i as int), context, key),
        decreases rows.len() - i,
    {
        let row = rows[i];
        if row.context == context && row.code == key.code && row.modifiers == key.modifiers
            && row.built {
            return Some(row.action);
        }
        proof {
            assert(rows@.skip(i as int).drop_first() =~= rows@.skip(i + 1));
        }
        i = i + 1;
    }
    None
}

/// The first row bound to `action` in `context`.
pub open spec fn first_row(rows: Seq<Binding>, context: Context, action: Action) -> Option<Binding>
    decreases rows.len(),
{
    if rows.len() == 0 {
        None
    } else if rows[0].context == context && rows[0].action == action {
        Some(rows[0])
    } else {
        first_row(rows.drop_first(), context, action)
    }
}

/// The words of the rows that fire in `context`, each once, in the order they first appear.
pub open spec fn descriptions(rows: Seq<Binding>, context: Context) -> Seq<Seq<char>>
    decreases rows.len(),
{
    if rows.len() == 0 {
        Seq::empty()
    } else {
        let earlier = descriptions(rows.drop_last(), context);
        let row = rows.last();
        let words = description_text(row.action);
        if row.context == context && row.built && !earlier.contains(words) {
            earlier.push(words)
        } else {
            earlier
        }
    }
}

/// The chords of the rows that fire in `context` and go by `words`, in order.
pub open spec fn chords_for(rows: Seq<Binding>, context: Context, words: Seq<char>) -> Seq<
    Seq<char>,
>
    decreases rows.len(),
{
    if rows.len() == 0 {
        Seq::empty()
    } else {
        let earlier = chords_for(rows.drop_last(), context, words);
        let row = rows.last();
        if row.context == context && row.built && description_text(row.action) == words {
            earlier.push(chord_text(row.code, row.modifiers))
        } else {
            earlier
        }
    }
}

/// One line per distinct words: the chords that lead to them, and the words.
pub open spec fn described(rows: Seq<Binding>, context: Context) -> Seq<(Seq<char>, Seq<char>)> {
    descriptions(rows, context).map_values(
        |words: Seq<char>| (joined(chords_for(rows, context, words), ", "@), words),
    )
}

/// The described rows as plain text.
pub open spec fn lines_view(lines: Seq<(String, &'static str)>) -> Seq<(Seq<char>, Seq<char>)> {
    lines.map_values(|line: (String, &'static str)| (line.0@, line.1@))
}

/// What `context` shows from the `global` rows.
pub open spec fn described_global(rows: Seq<Binding>, context: Context) -> Seq<
    (Seq<char>, Seq<char>),
> {
    if context == Context::List || context == Context::Detail {
        described(rows, Context::Global)
    } else {
        Seq::empty()
    }
}

fn holds_text(texts: &Vec<&'static str>, wanted: &str) -> (found: bool)
    ensures
        found == texts.deep_view().contains(wanted@),
{
    let mut i: usize = 0;
    while i < texts.len()
        invariant
            i <= texts.len(),
            forall|k: int| 0 <= k < i ==> texts.deep_view()[k] != wanted@,
        decreases texts.len() - i,
    {
        if same(texts[i], wanted) {
            proof {
                assert(texts.deep_view()[i as int] == wanted@);
            }
            return true;
        }
        i = i + 1;
    }
    false
}

/// A live binding table: the default map, or the default map with a `[keys]` block merged over
/// it.
#[derive(Debug, Clone)]
pub struct BindingTable {
    rows: Vec<Binding>,
}

impl BindingTable {
    /// The rows, in table order.
    pub closed spec fn rows(&self) -> Seq<Binding> {
        self.rows@
    }

    /// A table of exactly these rows.
    pub fn from_bindings(rows: Vec<Binding>) -> (table: Self)
        ensures
            table.rows() == rows@,
    {
        BindingTable { rows }
    }

    /// The default map, what a process without a `[keys]` block runs.
    pub fn compiled_default() -> (table: Self)
        ensures
            table.rows() == default_rows(),
    {
        BindingTable { rows: default_bindings() }
    }

    /// The rows, in table order.
    pub fn bindings(&self) -> (rows: &Vec<Binding>)
        ensures
            rows@ == self.rows(),
    {
        &self.rows
    }

    /// The one place a key press becomes an [`Action`].
    pub fn dispatch(&self, context: Context, key: KeyEvent) -> (action: Option<Action>)
        ensures
            action == dispatch_spec(self.rows(), context, key),
    {
        let own = lookup(&self.rows, context, key);
        if own.is_some() {
            return own;
        }
        match context {
            Context::List | Context::Detail => lookup(&self.rows, Context::Global, key),
            Context::Input => match printable(key) {
                Some(c) => Some(Action::Text(c)),
                None => None,
            },
            Context::Global | Context::Overlay | Context::Confirm | Context::Sort => None,
        }
    }

    fn first(&self, context: Context, action: Action) -> (row: Option<Binding>)
        ensures
            row == first_row(self.rows(), context, action),
    {
        let mut i: usize = 0;
        proof {
            assert(self.rows@.skip(0) =~= self.rows@);
        }
        while i < self.rows.len()
            invariant
                i <= self.rows.len(),
                first_row(self.rows(), context, action) == first_row(
                    self.rows@.skip(i as int),
                    context,
                    action,
                ),
            decreases self.rows.len() - i,
        {
            let row = self.rows[i];
            if row.context == context && row.action == action {
                return Some(row);
            }
            proof {
                assert(self.rows@.skip(i as int).drop_first() =~= self.rows@.skip(i + 1));
            }
            i = i + 1;
        }
        None
    }

    /// The first chord bound to `action` in `context`, in table order.
    pub fn primary_chord(&self, context: Context, action: Action) -> (chord: Option<
        (KeyCode, KeyModifiers),
    >)
        ensures
            chord == match first_row(self.rows(), context, action) {
                Some(row) => Some((row.code, row.modifiers)),
                None => None,
            },
    {
        match self.first(context, action) {
            Some(row) => Some((row.code, row.modifiers)),
            None => None,
        }
    }

    /// Whether `action` is built in `context`: `false` both for a row marked unbuilt and for no
    /// row at all.
    pub fn is_built(&self, context: Context, action: Action) -> (built: bool)
        ensures
            built == match first_row(self.rows(), context, action) {
                Some(row) => row.built,
                None => false,
            },
    {
        match self.first(context, action) {
            Some(row) => row.built,
            None => false,
        }
    }

    fn distinct_descriptions(&self, context: Context) -> (order: Vec<&'static str>)
        ensures
            order.deep_view() == descriptions(self.rows(), context),
    {
        let mut order: Vec<&'static str> = Vec::new();
        let mut i: usize = 0;
        while i < self.rows.len()
            invariant
                i <= self.rows.len(),
                order.deep_view() == descriptions(self.rows@.take(i as int), context),
            decreases self.rows.len() - i,
        {
            let row = self.rows[i];
            proof {
                assert(self.rows@.take(i + 1).drop_last() =~= self.rows@.take(i as int));
            }
            if row.context == context && row.built {
                let words = description(row.action);
                if !holds_text(&order, words) {
                    let ghost earlier = order.deep_view();
                    order.push(words);
                    proof {
                        assert(order.deep_view() =~= earlier.push(words@));
                    }
                }
            }
            i = i + 1;
        }
        proof {
            assert(self.rows@.take(i as int) =~= self.rows@);
        }
        order
    }

    fn chord_labels_for(&self, context: Context, words: &str) -> (keys: Vec<String>)
        ensures
            keys.deep_view() == chords_for(self.rows(), context, words@),
    {
        let mut keys: Vec<String> = Vec::new();
        let mut i: usize = 0;
        while i < self.rows.len()
            invariant
                i <= self.rows.len(),
                keys.deep_view() == chords_for(self.rows@.take(i as int), context, words@),
            decreases self.rows.len() - i,
        {
            let row = self.rows[i];
            proof {
                assert(self.rows@.take(i + 1).drop_last() =~= self.rows@.take(i as int));
            }
            if row.context == context && row.built && same(description(row.action), words) {
                let label = chord_label(row.code, row.modifiers);
                let ghost earlier = keys.deep_view();
                keys.push(label);
                proof {
                    assert(keys.deep_view() =~= earlier.push(label@));
                }
            }
            i = i + 1;
        }
        proof {
            assert(self.rows@.take(i as int) =~= self.rows@);
        }
        keys
    }

    /// One line per distinct action live in `context` alone, in table order, its keys joined
    /// with `, ` where it is bound to more than one.
    fn describe_rows(&self, context: Context) -> (lines: Vec<(String, &'static str)>)
        ensures
            lines_view(lines@) == described(self.rows(), context),
    {
        let order = self.distinct_descriptions(context);
        let mut lines: Vec<(String, &'static str)> = Vec::new();
        let mut i: usize = 0;
        while i < order.len()
            invariant
                i <= order.len(),
                order.deep_view() == descriptions(self.rows(), context),
                lines@.len() == i,
                forall|k: int|
                    0 <= k < i ==> lines_view(lines@)[k] == #[trigger] described(
                        self.rows(),
                        context,
                    )[k],
            decreases order.len() - i,
        {
            let words = order[i];
            let keys = self.chord_labels_for(context, words);
            let label = join(&keys, ", ");
            let ghost before = lines@;
            lines.push((label, words));
            proof {
                assert(order.deep_view()[i as int] == words@);
                assert forall|k: int| 0 <= k < i + 1 implies lines_view(lines@)[k]
                    == #[trigger] described(self.rows(), context)[k] by {
                    if k < i {
                        assert(lines_view(lines@)[k] == lines_view(before)[k]);
                    }
                }
            }
            i = i + 1;
        }
        proof {
            assert(lines_view(lines@) =~= described(self.rows(), context));
        }
        lines
    }

    /// Every distinct action live in `context` alone, with no `global` merge, as
    /// `(keys, description)`. Carries only built bindings.
    pub fn describe_own(&self, context: Context) -> (lines: Vec<(String, &'static str)>)
        ensures
            lines_view(lines@) == described(self.rows(), context),
    {
        self.describe_rows(context)
    }

    /// The `global` bindings live alongside `context`, empty for every context but `List` and
    /// `Detail`.
    pub fn describe_global(&self, context: Context) -> (lines: Vec<(String, &'static str)>)
        ensures
            lines_view(lines@) == described_global(self.rows(), context),
    {
        if context == Context::List || context == Context::Detail {
            self.describe_rows(Context::Global)
        } else {
            let lines: Vec<(String, &'static str)> = Vec::new();
            proof {
                assert(lines_view(lines@) =~= Seq::<(Seq<char>, Seq<char>)>::empty());
            }
            lines
        }
    }

    /// Every distinct action live in `context`, current context first then `global` where it is
    /// live alongside it.
    pub fn describe(&self, context: Context) -> (lines: Vec<(String, &'static str)>)
        ensures
            lines_view(lines@) == described(self.rows(), context) + described_global(
                self.rows(),
                context,
            ),
    {
        let mut lines = self.describe_own(context);
        let mut global = self.describe_global(context);
        let ghost own = lines@;
        let ghost rest = global@;
        lines.append(&mut global);
        proof {
            assert(lines_view(own + rest) =~= lines_view(own) + lines_view(rest));
        }
        lines
    }
}


/// The rows that are built, in order.
pub open spec fn built_rows(rows: Seq<Binding>) -> Seq<Binding>
    decreases rows.len(),
{
    if rows.len() == 0 {
        rows
    } else if rows.last().built {
        built_rows(rows.drop_last()).push(rows.last())
    } else {
        built_rows(rows.drop_last())
    }
}

/// The rows of one context, in order.
pub open spec fn rows_in(rows: Seq<Binding>, context: Context) -> Seq<Binding>
    decreases rows.len(),
{
    if rows.len() == 0 {
        rows
    } else if rows.last().context == context {
        rows_in(rows.drop_last(), context).push(rows.last())
    } else {
        rows_in(rows.drop_last(), context)
    }
}

/// A row behind others is heard only where none of them answers.
pub proof fn lemma_lookup_push(rows: Seq<Binding>, row: Binding, context: Context, key: KeyEvent)
    ensures
        lookup_spec(rows.push(row), context, key) == if lookup_spec(rows, context, key) is Some {
            lookup_spec(rows, context, key)
        } else if fires(row, context, key) {
            Some(row.action)
        } else {
            None
        },
    decreases rows.len(),
{
    if rows.len() == 0 {
        assert(rows.push(row).drop_first() =~= rows);
    } else {
        assert(rows.push(row).drop_first() =~= rows.drop_first().push(row));
        lemma_lookup_push(rows.drop_first(), row, context, key);
    }
}

proof fn lemma_lookup_over_built(rows: Seq<Binding>, context: Context, key: KeyEvent)
    ensures
        lookup_spec(rows, context, key) == lookup_spec(built_rows(rows), context, key),
    decreases rows.len(),
{
    if rows.len() > 0 {
        let rest = rows.drop_last();
        assert(rows =~= rest.push(rows.last()));
        lemma_lookup_over_built(rest, context, key);
        lemma_lookup_push(rest, rows.last(), context, key);
        lemma_lookup_push(built_rows(rest), rows.last(), context, key);
    }
}

proof fn lemma_described_over_built(rows: Seq<Binding>, context: Context, words: Seq<char>)
    ensures
        descriptions(rows, context) == descriptions(built_rows(rows), context),
        chords_for(rows, context, words) == chords_for(built_rows(rows), context, words),
    decreases rows.len(),
{
    if rows.len() > 0 {
        let rest = rows.drop_last();
        lemma_described_over_built(rest, context, words);
        if rows.last().built {
            assert(built_rows(rows).drop_last() =~= built_rows(rest));
        }
    }
}

/// An unbuilt row is offered nowhere: no key fires it and no description lists it, exactly as if
/// the table did not hold it.
pub proof fn law_an_unbuilt_row_is_offered_nowhere(
    rows: Seq<Binding>,
    context: Context,
    key: KeyEvent,
)
    ensures
        dispatch_spec(rows, context, key) == dispatch_spec(built_rows(rows), context, key),
        described(rows, context) == described(built_rows(rows), context),
        described_global(rows, context) == described_global(built_rows(rows), context),
{
    lemma_lookup_over_built(rows, context, key);
    lemma_lookup_over_built(rows, Context::Global, key);
    assert forall|other: Context| #[trigger]
        described(rows, other) == described(built_rows(rows), other) by {
        lemma_described_over_built(rows, other, Seq::empty());
        assert forall|words: Seq<char>| #[trigger]
            chords_for(rows, other, words) == chords_for(built_rows(rows), other, words) by {
            lemma_described_over_built(rows, other, words);
        }
        assert(described(rows, other) =~= described(built_rows(rows), other));
    }
}

proof fn lemma_lookup_over_own(rows: Seq<Binding>, context: Context, key: KeyEvent)
    ensures
        lookup_spec(rows, context, key) == lookup_spec(rows_in(rows, context), context, key),
    decreases rows.len(),
{
    if rows.len() > 0 {
        let rest = rows.drop_last();
        assert(rows =~= rest.push(rows.last()));
        lemma_lookup_over_own(rest, context, key);
        lemma_lookup_push(rest, rows.last(), context, key);
        lemma_lookup_push(rows_in(rest, context), rows.last(), context, key);
    }
}

/// Every other context is suspended while one has focus: a key means what the focused context's
/// own rows say, and only behind `List` and `Detail` are the `Global` rows heard, where the
/// focused context's own rows are silent.
pub proof fn law_only_list_and_detail_hear_global(
    rows: Seq<Binding>,
    context: Context,
    key: KeyEvent,
)
    ensures
        context != Context::List && context != Context::Detail ==> dispatch_spec(
            rows,
            context,
            key,
        ) == dispatch_spec(rows_in(rows, context), context, key),
        context == Context::List || context == Context::Detail ==> dispatch_spec(
            rows,
            context,
            key,
        ) == {
            let own = dispatch_spec(rows_in(rows, context), context, key);
            if own is Some {
                own
            } else {
                dispatch_spec(rows_in(rows, Context::Global), Context::Global, key)
            }
        },
{
    lemma_lookup_over_own(rows, context, key);
    lemma_lookup_over_own(rows, Context::Global, key);
    if context == Context::List || context == Context::Detail {
        lemma_none_of_another_context(rows, context, Context::Global, key);
    }
}

/// Rows of one context never answer in another.
proof fn lemma_none_of_another_context(
    rows: Seq<Binding>,
    context: Context,
    other: Context,
    key: KeyEvent,
)
    requires
        context != other,
    ensures
        lookup_spec(rows_in(rows, context), other, key) is None,
    decreases rows.len(),
{
    if rows.len() > 0 {
        let rest = rows.drop_last();
        lemma_none_of_another_context(rest, context, other, key);
        if rows.last().context == context {
            lemma_lookup_push(rows_in(rest, context), rows.last(), other, key);
        }
    }
}

/// What `lookup_spec` finds is the action of a row that answers the key, and where it finds
/// nothing no row does.
pub proof fn lemma_lookup_finds_a_row(rows: Seq<Binding>, context: Context, key: KeyEvent)
    ensures
        lookup_spec(rows, context, key) matches Some(action) ==> exists|i: int|
            0 <= i < rows.len() && fires(#[trigger] rows[i], context, key) && rows[i].action
                == action,
        lookup_spec(rows, context, key) is None ==> forall|i: int|
            0 <= i < rows.len() ==> !fires(#[trigger] rows[i], context, key),
    decreases rows.len(),
{
    if rows.len() > 0 {
        if fires(rows[0], context, key) {
            assert(rows[0].action == lookup_spec(rows, context, key)->0);
        } else {
            let rest = rows.drop_first();
            lemma_lookup_finds_a_row(rest, context, key);
            if let Some(action) = lookup_spec(rows, context, key) {
                let i = choose|i: int|
                    0 <= i < rest.len() && fires(#[trigger] rest[i], context, key) && rest[i].action
                        == action;
                assert(rows[i + 1] == rest[i]);
            } else {
                assert forall|i: int| 0 <= i < rows.len() implies !fires(
                    #[trigger] rows[i],
                    context,
                    key,
                ) by {
                    if i > 0 {
                        assert(rest[i - 1] == rows[i]);
                    }
                }
            }
        }
    }
}


/// Row `k` is the first that is built and binds `key` in `context`.
pub open spec fn first_bound(
    rows: Seq<Binding>,
    context: Context,
    key: KeyEvent,
    k: int,
) -> bool {
    &&& 0 <= k < rows.len()
    &&& binds(rows[k], context, key)
    &&& forall|j: int| 0 <= j < k ==> !binds(#[trigger] rows[j], context, key)
}

/// `row` is built and binds `key`, code and modifiers alike, in `context`.
pub open spec fn binds(row: Binding, context: Context, key: KeyEvent) -> bool {
    &&& row.built
    &&& row.context == context
    &&& row.code == key.code
    &&& row.modifiers == key.modifiers
}

/// A key fires the first built row of its context that binds exactly it, and nothing where there
/// is none.
pub proof fn law_a_key_fires_the_first_row_that_binds_it(
    rows: Seq<Binding>,
    context: Context,
    key: KeyEvent,
)
    ensures
        match lookup_spec(rows, context, key) {
            Some(action) => exists|k: int| #[trigger]
                first_bound(rows, context, key, k) && rows[k].action == action,
            None => forall|k: int| 0 <= k < rows.len() ==> !binds(#[trigger] rows[k], context, key),
        },
    decreases rows.len(),
{
    if rows.len() > 0 {
        let rest = rows.drop_first();
        if fires(rows[0], context, key) {
            assert(first_bound(rows, context, key, 0));
        } else {
            law_a_key_fires_the_first_row_that_binds_it(rest, context, key);
            match lookup_spec(rest, context, key) {
                Some(action) => {
                    let k = choose|k: int| #[trigger]
                        first_bound(rest, context, key, k) && rest[k].action == action;
                    assert forall|j: int| 0 <= j < k + 1 implies !binds(
                        #[trigger] rows[j],
                        context,
                        key,
                    ) by {
                        if j > 0 {
                            assert(rest[j - 1] == rows[j]);
                        }
                    }
                    assert(first_bound(rows, context, key, k + 1));
                },
                None => {
                    assert forall|k: int| 0 <= k < rows.len() implies !binds(
                        #[trigger] rows[k],
                        context,
                        key,
                    ) by {
                        if k > 0 {
                            assert(rest[k - 1] == rows[k]);
                        }
                    }
                },
            }
        }
    }
}

/// What a key means while a context has focus: what the context's own rows say; behind the list
/// and the detail pane, where those are silent, what the global rows say; in an input, where they
/// are silent, the character it types, which every character key does but one held with Ctrl; and
/// nothing otherwise.
pub proof fn law_what_a_key_means(rows: Seq<Binding>, context: Context, key: KeyEvent)
    ensures
        ({
            let own = lookup_spec(rows, context, key);
            let global = lookup_spec(rows, Context::Global, key);
            let meant = dispatch_spec(rows, context, key);
            &&& own is Some ==> meant == own
            &&& own is None && (context == Context::List || context == Context::Detail) ==> meant
                == global
            &&& own is None && context == Context::Input ==> {
                &&& meant is Some <==> key.code is Char && !key.modifiers.control
                &&& meant matches Some(action) ==> action == Action::Text(key.code->Char_0)
            }
            &&& own is None && context != Context::List && context != Context::Detail && context
                != Context::Input ==> meant is None
        }),
{
}

/// The chords that no table may bind: Ctrl alone with `i`, `m` or `[`.
pub proof fn law_only_three_chords_are_unbindable(code: KeyCode, modifiers: KeyModifiers)
    ensures
        is_unbindable_spec(code, modifiers) <==> modifiers.control && !modifiers.shift
            && !modifiers.alt && !modifiers.super_key && !modifiers.hyper && !modifiers.meta && (
        code == KeyCode::Char('i') || code == KeyCode::Char('m') || code == KeyCode::Char('[')),
{
}

/// The chord shown for an action, and whether it is built, are those of the first row of the
/// context that names it, built or not.
pub proof fn law_an_action_is_shown_by_its_first_row(
    rows: Seq<Binding>,
    context: Context,
    action: Action,
)
    ensures
        match first_row(rows, context, action) {
            Some(row) => exists|k: int|
                0 <= k < rows.len() && row == #[trigger] rows[k] && rows[k].context == context
                    && rows[k].action == action && forall|j: int|
                    0 <= j < k ==> !((#[trigger] rows[j]).context == context && rows[j].action
                        == action),
            None => forall|k: int|
                0 <= k < rows.len() ==> !((#[trigger] rows[k]).context == context && rows[k].action
                    == action),
        },
    decreases rows.len(),
{
    if rows.len() > 0 && !(rows[0].context == context && rows[0].action == action) {
        let rest = rows.drop_first();
        law_an_action_is_shown_by_its_first_row(rest, context, action);
        match first_row(rest, context, action) {
            Some(row) => {
                let k = choose|k: int|
                    0 <= k < rest.len() && row == #[trigger] rest[k] && rest[k].context == context
                        && rest[k].action == action && forall|j: int|
                        0 <= j < k ==> !((#[trigger] rest[j]).context == context && rest[j].action
                            == action);
                assert(rows[k + 1] == row);
                assert forall|j: int| 0 <= j < k + 1 implies !((#[trigger] rows[j]).context
                    == context && rows[j].action == action) by {
                    if j > 0 {
                        assert(rest[j - 1] == rows[j]);
                    }
                }
            },
            None => {
                assert forall|k: int| 0 <= k < rows.len() implies !((#[trigger] rows[k]).context
                    == context && rows[k].action == action) by {
                    if k > 0 {
                        assert(rest[k - 1] == rows[k]);
                    }
                }
            },
        }
    }
}

/// `words` describe a built row of `context`.
pub open spec fn describes_a_row(
    rows: Seq<Binding>,
    context: Context,
    words: Seq<char>,
) -> bool {
    exists|k: int|
        0 <= k < rows.len() && (#[trigger] rows[k]).built && rows[k].context == context
            && description_text(rows[k].action) == words
}

/// A context's descriptions are those of its built rows, each once.
pub proof fn law_every_built_row_is_described_once(rows: Seq<Binding>, context: Context)
    ensures
        descriptions(rows, context).no_duplicates(),
        forall|words: Seq<char>| #[trigger]
            descriptions(rows, context).contains(words) <==> describes_a_row(rows, context, words),
    decreases rows.len(),
{
    let all = descriptions(rows, context);
    if rows.len() > 0 {
        let rest = rows.drop_last();
        let earlier = descriptions(rest, context);
        let row = rows.last();
        law_every_built_row_is_described_once(rest, context);
        assert(forall|k: int| 0 <= k < rest.len() ==> rest[k] == #[trigger] rows[k]);
        assert(rows[rows.len() - 1] == row);
        assert forall|words: Seq<char>| #[trigger]
            all.contains(words) <==> describes_a_row(rows, context, words) by {
            assert(earlier.contains(words) <==> describes_a_row(rest, context, words));
            if describes_a_row(rest, context, words) {
                let k = choose|k: int|
                    0 <= k < rest.len() && (#[trigger] rest[k]).built && rest[k].context == context
                        && description_text(rest[k].action) == words;
                assert(rows[k].built);
            }
            if describes_a_row(rows, context, words) {
                let k = choose|k: int|
                    0 <= k < rows.len() && (#[trigger] rows[k]).built && rows[k].context == context
                        && description_text(rows[k].action) == words;
                if k < rest.len() {
                    assert(rest[k].built);
                    let at = choose|at: int| 0 <= at < earlier.len() && earlier[at] == words;
                    assert(all[at] == words);
                } else if !earlier.contains(words) {
                    assert(all.last() == words);
                } else {
                    let at = choose|at: int| 0 <= at < earlier.len() && earlier[at] == words;
                    assert(all[at] == words);
                }
            }
            if all.contains(words) && !earlier.contains(words) {
                let at = choose|at: int| 0 <= at < all.len() && all[at] == words;
                if at < earlier.len() {
                    assert(earlier[at] == words);
                }
                assert(words == description_text(row.action));
                assert(rows[rows.len() - 1].built);
            }
        }
    } else {
        assert(forall|words: Seq<char>| !all.contains(words));
    }
}

/// Descriptions stand in the order their rows first come: a row added behind a table can only add
/// its own words, and only at the end.
pub proof fn law_descriptions_stand_in_the_order_of_their_rows(
    rows: Seq<Binding>,
    row: Binding,
    context: Context,
)
    ensures
        ({
            let before = descriptions(rows, context);
            let after = descriptions(rows.push(row), context);
            &&& before.len() <= after.len() <= before.len() + 1
            &&& after.take(before.len() as int) == before
            &&& after.len() > before.len() ==> after.last() == description_text(row.action)
                && row.built && row.context == context
        }),
{
    assert(rows.push(row).drop_last() =~= rows);
    let before = descriptions(rows, context);
    let after = descriptions(rows.push(row), context);
    assert(after.take(before.len() as int) =~= before);
}

/// The chords listed for some words are the labels of the built rows they describe, in table order
/// and none left out.
pub proof fn law_a_description_lists_the_chords_of_its_rows(
    rows: Seq<Binding>,
    context: Context,
    words: Seq<char>,
)
    ensures
        chords_for(rows, context, words) == rows.filter(
            |row: Binding|
                row.built && row.context == context && description_text(row.action) == words,
        ).map_values(|row: Binding| chord_text(row.code, row.modifiers)),
    decreases rows.len(),
{
    let wanted = |row: Binding|
        row.built && row.context == context && description_text(row.action) == words;
    let label = |row: Binding| chord_text(row.code, row.modifiers);
    reveal(Seq::filter);
    if rows.len() > 0 {
        law_a_description_lists_the_chords_of_its_rows(rows.drop_last(), context, words);
        assert(rows.filter(wanted).map_values(label) =~= chords_for(rows, context, words));
    } else {
        assert(rows.filter(wanted).map_values(label) =~= chords_for(rows, context, words));
    }
}

/// A context is described by its own built rows, the chords of each line joined with a comma;
/// the global rows are described beside the list and the detail pane alone, where they are heard.
pub proof fn law_a_context_is_described_by_what_it_hears(
    rows: Seq<Binding>,
    context: Context,
    i: int,
)
    requires
        0 <= i < descriptions(rows, context).len(),
    ensures
        described(rows, context).len() == descriptions(rows, context).len(),
        described(rows, context)[i].1 == descriptions(rows, context)[i],
        described(rows, context)[i].0 == joined(
            chords_for(rows, context, descriptions(rows, context)[i]),
            ", "@,
        ),
        context == Context::List || context == Context::Detail ==> described_global(rows, context)
            == described(rows, Context::Global),
        context != Context::List && context != Context::Detail ==> described_global(
            rows,
            context,
        ).len() == 0,
{
}

} // verus!
