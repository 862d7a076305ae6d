//! User-configurable rebinding: a `[keys]` block merged over a binding table by action name,
//! and the collisions that refuse it.

use vstd::prelude::*;

use crate::action::{
    action_name, action_name_text, context_label, context_label_text, context_name_text,
    law_context_names_are_distinct, parse_context_name, Action, Context,
};
use crate::chord::{
    chord_label, chord_text, parse_chord, parse_chord_spec, KeyCode, KeyEvent, KeyModifiers,
};
use crate::default_map::{binding, default_rows, Binding};
use crate::keys::{
    fires, is_unbindable, is_unbindable_spec, lemma_lookup_finds_a_row, lookup_spec, BindingTable,
};
use crate::text::{join, joined, same};

verus! {

broadcast use {vstd::string::group_string_axioms, vstd::seq_lib::group_seq_properties};

/// A key in a context, whatever it fires.
#[derive(Clone, Copy, Debug, PartialEq, Eq, Structural)]
pub struct Place {
    pub context: Context,
    pub code: KeyCode,
    pub modifiers: KeyModifiers,
}

/// Where `row` is bound.
#[verifier::allow_in_spec]
pub fn place_of(row: Binding) -> Place
    returns
        (Place { context: row.context, code: row.code, modifiers: row.modifiers }),
{
    Place { context: row.context, code: row.code, modifiers: row.modifiers }
}

/// A key bound to more than one distinct action in the same context.
#[derive(Debug, Clone, PartialEq, Eq)]
pub struct Collision {
    pub place: Place,
    pub actions: Vec<Action>,
}

impl View for Collision {
    type V = (Place, Seq<Action>);

    open spec fn view(&self) -> (Place, Seq<Action>) {
        (self.place, self.actions@)
    }
}

/// The places `rows` bind, each once, in the order they first appear.
pub open spec fn places(rows: Seq<Binding>) -> Seq<Place>
    decreases rows.len(),
{
    if rows.len() == 0 {
        Seq::empty()
    } else {
        let earlier = places(rows.drop_last());
        let place = place_of(rows.last());
        if earlier.contains(place) {
            earlier
        } else {
            earlier.push(place)
        }
    }
}

/// The actions `rows` bind at `place`, each once, in the order they first appear.
pub open spec fn actions_at(rows: Seq<Binding>, place: Place) -> Seq<Action>
    decreases rows.len(),
{
    if rows.len() == 0 {
        Seq::empty()
    } else {
        let earlier = actions_at(rows.drop_last(), place);
        let row = rows.last();
        if place_of(row) == place && !earlier.contains(row.action) {
            earlier.push(row.action)
        } else {
            earlier
        }
    }
}

/// The collisions at the places listed, in order.
pub open spec fn collisions_among(rows: Seq<Binding>, listed: Seq<Place>) -> Seq<
    (Place, Seq<Action>),
>
    decreases listed.len(),
{
    if listed.len() == 0 {
        Seq::empty()
    } else {
        let earlier = collisions_among(rows, listed.drop_last());
        let actions = actions_at(rows, listed.last());
        if actions.len() > 1 {
            earlier.push((listed.last(), actions))
        } else {
            earlier
        }
    }
}

/// Every place bound to more than one distinct action, with all of those actions.
pub open spec fn collisions(rows: Seq<Binding>) -> Seq<(Place, Seq<Action>)> {
    collisions_among(rows, places(rows))
}

/// The collisions as plain values.
pub open spec fn collisions_view(found: Seq<Collision>) -> Seq<(Place, Seq<Action>)> {
    found.map_values(|collision: Collision| collision@)
}

fn holds_place(listed: &Vec<Place>, place: Place) -> (found: bool)
    ensures
        found == listed@.contains(place),
{
    let mut i: usize = 0;
    while i < listed.len()
        invariant
            i <= listed.len(),
            forall|k: int| 0 <= k < i ==> listed@[k] != place,
        decreases listed.len() - i,
    {
        if listed[i] == place {
            return true;
        }
        i = i + 1;
    }
    false
}

fn holds_action(listed: &Vec<Action>, action: Action) -> (found: bool)
    ensures
        found == listed@.contains(action),
{
    let mut i: usize = 0;
    while i < listed.len()
        invariant
            i <= listed.len(),
            forall|k: int| 0 <= k < i ==> listed@[k] != action,
        decreases listed.len() - i,
    {
        if listed[i] == action {
            return true;
        }
        i = i + 1;
    }
    false
}

fn list_places(rows: &Vec<Binding>) -> (listed: Vec<Place>)
    ensures
        listed@ == places(rows@),
{
    let mut listed: Vec<Place> = Vec::new();
    let mut i: usize = 0;
    while i < rows.len()
        invariant
            i <= rows.len(),
            listed@ == places(rows@.take(i as int)),
        decreases rows.len() - i,
    {
        let place = place_of(rows[i]);
        proof {
            assert(rows@.take(i + 1).drop_last() =~= rows@.take(i as int));
        }
        if !holds_place(&listed, place) {
            listed.push(place);
        }
        i = i + 1;
    }
    proof {
        assert(rows@.take(i as int) =~= rows@);
    }
    listed
}

fn list_actions_at(rows: &Vec<Binding>, place: Place) -> (listed: Vec<Action>)
    ensures
        listed@ == actions_at(rows@, place),
{
    let mut listed: Vec<Action> = Vec::new();
    let mut i: usize = 0;
    while i < rows.len()
        invariant
            i <= rows.len(),
            listed@ == actions_at(rows@.take(i as int), place),
        decreases rows.len() - i,
    {
        let row = rows[i];
        proof {
            assert(rows@.take(i + 1).drop_last() =~= rows@.take(i as int));
        }
        if place_of(row) == place && !holds_action(&listed, row.action) {
            listed.push(row.action);
        }
        i = i + 1;
    }
    proof {
        assert(rows@.take(i as int) =~= rows@);
    }
    listed
}

/// Every key, in table order, bound to more than one distinct action in the same context, each
/// with all of its colliding actions in table order; empty if every key in every context is
/// claimed by at most one action.
pub fn find_collisions(rows: &Vec<Binding>) -> (found: Vec<Collision>)
    ensures
        collisions_view(found@) == collisions(rows@),
{
    let listed = list_places(rows);
    let mut found: Vec<Collision> = Vec::new();
    let mut i: usize = 0;
    proof {
        assert(collisions_view(found@) =~= Seq::<(Place, Seq<Action>)>::empty());
    }
    while i < listed.len()
        invariant
            i <= listed.len(),
            listed@ == places(rows@),
            collisions_view(found@) == collisions_among(rows@, listed@.take(i as int)),
        decreases listed.len() - i,
    {
        let actions = list_actions_at(rows, listed[i]);
        proof {
            assert(listed@.take(i + 1).drop_last() =~= listed@.take(i as int));
        }
        if actions.len() > 1 {
            let collision = Collision { place: listed[i], actions };
            let ghost before = found@;
            found.push(collision);
            proof {
                assert(collisions_view(found@) =~= collisions_view(before).push(collision@));
            }
        }
        i = i + 1;
    }
    proof {
        assert(listed@.take(i as int) =~= listed@);
    }
    found
}

/// An action's name between backticks.
pub open spec fn quoted_name(action: Action) -> Seq<char> {
    "`"@ + match action_name_text(action) {
        Some(name) => name,
        None => "<unnamed action>"@,
    } + "`"@
}

/// The actions' names joined for a human sentence: `` `a` and `b` `` for two, `` `a`, `b` and
/// `c` `` for more.
pub open spec fn name_list(actions: Seq<Action>) -> Seq<char> {
    if actions.len() == 0 {
        Seq::empty()
    } else if actions.len() == 1 {
        quoted_name(actions[0])
    } else {
        joined(
            actions.drop_last().map_values(|action: Action| quoted_name(action)),
            ", "@,
        ) + " and "@ + quoted_name(actions.last())
    }
}

/// One collision as a sentence.
pub open spec fn collision_sentence(collision: (Place, Seq<Action>)) -> Seq<char> {
    "key `"@ + chord_text(collision.0.code, collision.0.modifiers) + "` in "@
        + context_label_text(collision.0.context) + " is bound to "@ + name_list(collision.1)
}

/// Every collision, one sentence each.
pub open spec fn collisions_text(found: Seq<(Place, Seq<Action>)>) -> Seq<char> {
    joined(
        found.map_values(|collision: (Place, Seq<Action>)| collision_sentence(collision)),
        "; "@,
    )
}

fn quote_name(action: Action) -> (quoted: String)
    ensures
        quoted@ == quoted_name(action),
{
    let name = match action_name(action) {
        Some(name) => name,
        None => "<unnamed action>",
    };
    "`".to_owned().concat(name).concat("`")
}

fn action_name_list(actions: &Vec<Action>) -> (names: String)
    ensures
        names@ == name_list(actions@),
{
    if actions.len() == 0 {
        return String::new();
    }
    let last: usize = actions.len() - 1;
    if last == 0 {
        return quote_name(actions[0]);
    }
    let mut quoted: Vec<String> = Vec::new();
    let mut i: usize = 0;
    while i < last
        invariant
            i <= last,
            last == actions.len() - 1,
            quoted@.len() == i,
            forall|k: int| 0 <= k < i ==> #[trigger] quoted@[k]@ == quoted_name(actions@[k]),
        decreases last - i,
    {
        quoted.push(quote_name(actions[i]));
        i = i + 1;
    }
    proof {
        assert(quoted.deep_view() =~= actions@.drop_last().map_values(
            |action: Action| quoted_name(action),
        ));
    }
    join(&quoted, ", ").concat(" and ").concat(quote_name(actions[last]).as_str())
}

fn collisions_message(found: &Vec<Collision>) -> (message: String)
    ensures
        message@ == collisions_text(collisions_view(found@)),
{
    let mut sentences: Vec<String> = Vec::new();
    let mut i: usize = 0;
    while i < found.len()
        invariant
            i <= found.len(),
            sentences@.len() == i,
            forall|k: int|
                0 <= k < i ==> #[trigger] sentences@[k]@ == collision_sentence(found@[k]@),
        decreases found.len() - i,
    {
        let collision = &found[i];
        let chord = chord_label(collision.place.code, collision.place.modifiers);
        let names = action_name_list(&collision.actions);
        let sentence = "key `".to_owned().concat(chord.as_str()).concat("` in ").concat(
            context_label(collision.place.context),
        ).concat(" is bound to ").concat(names.as_str());
        sentences.push(sentence);
        i = i + 1;
    }
    proof {
        assert(sentences.deep_view() =~= collisions_view(found@).map_values(
            |collision: (Place, Seq<Action>)| collision_sentence(collision),
        ));
    }
    join(&sentences, "; ")
}


/// A load-time condition from merging `[keys]` that does not stop the program.
#[derive(Debug, Clone, PartialEq, Eq)]
pub enum KeysWarning {
    /// A `[keys.<name>]` table whose `<name>` is not one of the seven contexts, by its dotted
    /// path.
    UnknownContext(String),
    /// A key inside a known `[keys.<context>]` table that names no action of that context's.
    UnknownAction { context: String, action: String },
    /// A known action that is not built yet.
    NotBuilt { context: String, action: String },
}

/// A [`KeysWarning`] as plain text.
pub enum KeysWarningView {
    UnknownContext(Seq<char>),
    UnknownAction { context: Seq<char>, action: Seq<char> },
    NotBuilt { context: Seq<char>, action: Seq<char> },
}

impl View for KeysWarning {
    type V = KeysWarningView;

    open spec fn view(&self) -> KeysWarningView {
        match *self {
            KeysWarning::UnknownContext(path) => KeysWarningView::UnknownContext(path@),
            KeysWarning::UnknownAction { context, action } => KeysWarningView::UnknownAction {
                context: context@,
                action: action@,
            },
            KeysWarning::NotBuilt { context, action } => KeysWarningView::NotBuilt {
                context: context@,
                action: action@,
            },
        }
    }
}

/// `keys.<context>.<action>`.
pub open spec fn dotted_path(context: Seq<char>, action: Seq<char>) -> Seq<char> {
    "keys."@ + context + "."@ + action
}

fn path_to(context: &str, action: &str) -> (path: String)
    ensures
        path@ == dotted_path(context@, action@),
{
    "keys.".to_owned().concat(context).concat(".").concat(action)
}

impl KeysWarningView {
    /// The line a warning shows.
    pub open spec fn text(self) -> Seq<char> {
        match self {
            KeysWarningView::UnknownContext(path) => "unknown config key `"@ + path
                + "`: no such keybinding context"@,
            KeysWarningView::UnknownAction { context, action } => "unknown config key `"@
                + dotted_path(context, action) + "`: no such action in that context"@,
            KeysWarningView::NotBuilt { context, action } => "config key `"@ + dotted_path(
                context,
                action,
            ) + "` names an action that is not built yet"@,
        }
    }
}

impl KeysWarning {
    /// The line this warning shows.
    pub fn message(&self) -> (message: String)
        ensures
            message@ == self@.text(),
    {
        match self {
            KeysWarning::UnknownContext(path) => "unknown config key `".to_owned().concat(
                path.as_str(),
            ).concat("`: no such keybinding context"),
            KeysWarning::UnknownAction { context, action } => "unknown config key `".to_owned().concat(
                path_to(context.as_str(), action.as_str()).as_str(),
            ).concat("`: no such action in that context"),
            KeysWarning::NotBuilt { context, action } => "config key `".to_owned().concat(
                path_to(context.as_str(), action.as_str()).as_str(),
            ).concat("` names an action that is not built yet"),
        }
    }
}

/// Why a `[keys]` block is refused outright.
#[derive(Debug, Clone, PartialEq, Eq)]
pub enum KeysError {
    /// A context's own value is no table.
    NotATable { context: String },
    /// An action's own value is no string.
    NotAString { context: String, action: String },
    /// A key name that names no chord.
    UnparseableKey { context: String, action: String, key: String },
    /// A key name that names a permanently unbindable chord.
    UnbindableKey { context: String, action: String, key: String },
    /// Keys left bound to two or more actions in the same context.
    Collisions(Vec<Collision>),
}

/// A [`KeysError`] as plain values.
pub enum KeysErrorView {
    NotATable { context: Seq<char> },
    NotAString { context: Seq<char>, action: Seq<char> },
    UnparseableKey { context: Seq<char>, action: Seq<char>, key: Seq<char> },
    UnbindableKey { context: Seq<char>, action: Seq<char>, key: Seq<char> },
    Collisions(Seq<(Place, Seq<Action>)>),
}

impl View for KeysError {
    type V = KeysErrorView;

    open spec fn view(&self) -> KeysErrorView {
        match *self {
            KeysError::NotATable { context } => KeysErrorView::NotATable { context: context@ },
            KeysError::NotAString { context, action } => KeysErrorView::NotAString {
                context: context@,
                action: action@,
            },
            KeysError::UnparseableKey { context, action, key } => KeysErrorView::UnparseableKey {
                context: context@,
                action: action@,
                key: key@,
            },
            KeysError::UnbindableKey { context, action, key } => KeysErrorView::UnbindableKey {
                context: context@,
                action: action@,
                key: key@,
            },
            KeysError::Collisions(found) => KeysErrorView::Collisions(collisions_view(found@)),
        }
    }
}

impl KeysErrorView {
    /// The line an error shows.
    pub open spec fn text(self) -> Seq<char> {
        match self {
            KeysErrorView::NotATable { context } => "keys."@ + context
                + " must be a table of action = \"key\" pairs"@,
            KeysErrorView::NotAString { context, action } => dotted_path(context, action)
                + " must be a string"@,
            KeysErrorView::UnparseableKey { context, action, key } => dotted_path(context, action)
                + " names an unparseable key `"@ + key + "`"@,
            KeysErrorView::UnbindableKey { context, action, key } => dotted_path(context, action)
                + " names a permanently unbindable key `"@ + key + "`"@,
            KeysErrorView::Collisions(found) => collisions_text(found),
        }
    }
}

impl KeysError {
    /// The line this error shows.
    pub fn message(&self) -> (message: String)
        ensures
            message@ == self@.text(),
    {
        match self {
            KeysError::NotATable { context } => "keys.".to_owned().concat(context.as_str()).concat(
                " must be a table of action = \"key\" pairs",
            ),
            KeysError::NotAString { context, action } => path_to(
                context.as_str(),
                action.as_str(),
            ).concat(" must be a string"),
            KeysError::UnparseableKey { context, action, key } => path_to(
                context.as_str(),
                action.as_str(),
            ).concat(" names an unparseable key `").concat(key.as_str()).concat("`"),
            KeysError::UnbindableKey { context, action, key } => path_to(
                context.as_str(),
                action.as_str(),
            ).concat(" names a permanently unbindable key `").concat(key.as_str()).concat("`"),
            KeysError::Collisions(found) => collisions_message(found),
        }
    }
}

/// One entry of a `[keys.<context>]` table: an action's name and its key, `None` where the value
/// is no string.
#[derive(Debug, Clone, PartialEq, Eq)]
pub struct ActionEntry {
    pub name: String,
    pub key: Option<String>,
}

/// One entry of a `[keys]` block: a context's name and its table, `None` where the value is no
/// table.
#[derive(Debug, Clone, PartialEq, Eq)]
pub struct ContextEntry {
    pub name: String,
    pub actions: Option<Vec<ActionEntry>>,
}

impl View for ActionEntry {
    type V = (Seq<char>, Option<Seq<char>>);

    open spec fn view(&self) -> (Seq<char>, Option<Seq<char>>) {
        (
            self.name@,
            match self.key {
                Some(key) => Some(key@),
                None => None,
            },
        )
    }
}

/// The entries of a context's table as plain text.
pub open spec fn actions_view(entries: Seq<ActionEntry>) -> Seq<(Seq<char>, Option<Seq<char>>)> {
    entries.map_values(|entry: ActionEntry| entry@)
}

impl View for ContextEntry {
    type V = (Seq<char>, Option<Seq<(Seq<char>, Option<Seq<char>>)>>);

    open spec fn view(&self) -> (Seq<char>, Option<Seq<(Seq<char>, Option<Seq<char>>)>>) {
        (
            self.name@,
            match self.actions {
                Some(actions) => Some(actions_view(actions@)),
                None => None,
            },
        )
    }
}

/// The entries of a `[keys]` block as plain text.
pub open spec fn block_view(entries: Seq<ContextEntry>) -> Seq<
    (Seq<char>, Option<Seq<(Seq<char>, Option<Seq<char>>)>>),
> {
    entries.map_values(|entry: ContextEntry| entry@)
}

/// No name stands twice in a block, nor twice in one of its tables.
pub open spec fn names_once(
    block: Seq<(Seq<char>, Option<Seq<(Seq<char>, Option<Seq<char>>)>>)>,
) -> bool {
    &&& forall|i: int, j: int|
        0 <= i < block.len() && 0 <= j < block.len() && (#[trigger] block[i]).0 == (
        #[trigger] block[j]).0 ==> i == j
    &&& forall|i: int, j: int, k: int|
        #![trigger block[i].1->0[j], block[i].1->0[k]]
        0 <= i < block.len() && block[i].1 is Some && 0 <= j < block[i].1->0.len() && 0 <= k
            < block[i].1->0.len() && block[i].1->0[j].0 == block[i].1->0[k].0 ==> j == k
}

/// What a merge has built up so far.
pub struct Merging {
    pub rows: Seq<Binding>,
    pub warnings: Seq<KeysWarningView>,
}

/// The first of `base`'s rows in `context` whose action goes by `name`.
pub open spec fn row_named(base: Seq<Binding>, context: Context, name: Seq<char>) -> Option<Binding>
    decreases base.len(),
{
    if base.len() == 0 {
        None
    } else if base[0].context == context && action_name_text(base[0].action) == Some(name) {
        Some(base[0])
    } else {
        row_named(base.drop_first(), context, name)
    }
}

/// `rows` without those bound to `action` in `context`.
pub open spec fn without(rows: Seq<Binding>, context: Context, action: Action) -> Seq<Binding>
    decreases rows.len(),
{
    if rows.len() == 0 {
        rows
    } else {
        let earlier = without(rows.drop_last(), context, action);
        if rows.last().context == context && rows.last().action == action {
            earlier
        } else {
            earlier.push(rows.last())
        }
    }
}

/// What one entry of a `[keys.<context>]` table does to a merge.
pub open spec fn apply_action(
    base: Seq<Binding>,
    state: Merging,
    context_text: Seq<char>,
    context: Context,
    entry: (Seq<char>, Option<Seq<char>>),
) -> Result<Merging, KeysErrorView> {
    let (name, value) = entry;
    match row_named(base, context, name) {
        None => Ok(
            Merging {
                rows: state.rows,
                warnings: state.warnings.push(
                    KeysWarningView::UnknownAction { context: context_text, action: name },
                ),
            },
        ),
        Some(row) => if !row.built {
            Ok(
                Merging {
                    rows: state.rows,
                    warnings: state.warnings.push(
                        KeysWarningView::NotBuilt { context: context_text, action: name },
                    ),
                },
            )
        } else {
            match value {
                None => Err(KeysErrorView::NotAString { context: context_text, action: name }),
                Some(key) => {
                    let kept = without(state.rows, context, row.action);
                    if key.len() == 0 {
                        Ok(Merging { rows: kept, warnings: state.warnings })
                    } else {
                        match parse_chord_spec(key) {
                            None => Err(
                                KeysErrorView::UnparseableKey {
                                    context: context_text,
                                    action: name,
                                    key,
                                },
                            ),
                            Some((code, modifiers)) => if is_unbindable_spec(code, modifiers) {
                                Err(
                                    KeysErrorView::UnbindableKey {
                                        context: context_text,
                                        action: name,
                                        key,
                                    },
                                )
                            } else {
                                Ok(
                                    Merging {
                                        rows: kept.push(
                                            binding(context, code, modifiers, row.action),
                                        ),
                                        warnings: state.warnings,
                                    },
                                )
                            },
                        }
                    }
                },
            }
        },
    }
}

/// What the entries of a `[keys.<context>]` table do to a merge, in order.
pub open spec fn apply_actions(
    base: Seq<Binding>,
    state: Merging,
    context_text: Seq<char>,
    context: Context,
    entries: Seq<(Seq<char>, Option<Seq<char>>)>,
) -> Result<Merging, KeysErrorView>
    decreases entries.len(),
{
    if entries.len() == 0 {
        Ok(state)
    } else {
        match apply_actions(base, state, context_text, context, entries.drop_last()) {
            Ok(state) => apply_action(base, state, context_text, context, entries.last()),
            Err(error) => Err(error),
        }
    }
}

/// What one entry of a `[keys]` block does to a merge: a name that is no context's is warned
/// about, and a context whose value is no table refuses the block.
pub open spec fn apply_context(
    base: Seq<Binding>,
    state: Merging,
    entry: (Seq<char>, Option<Seq<(Seq<char>, Option<Seq<char>>)>>),
) -> Result<Merging, KeysErrorView> {
    if exists|context: Context| #[trigger] context_name_text(context) == entry.0 {
        let context = choose|context: Context| #[trigger] context_name_text(context) == entry.0;
        match entry.1 {
            None => Err(KeysErrorView::NotATable { context: entry.0 }),
            Some(entries) => apply_actions(base, state, entry.0, context, entries),
        }
    } else {
        Ok(
            Merging {
                rows: state.rows,
                warnings: state.warnings.push(
                    KeysWarningView::UnknownContext("keys."@ + entry.0),
                ),
            },
        )
    }
}

/// What the entries of a `[keys]` block do to a merge, in order.
pub open spec fn apply_block(
    base: Seq<Binding>,
    block: Seq<(Seq<char>, Option<Seq<(Seq<char>, Option<Seq<char>>)>>)>,
) -> Result<Merging, KeysErrorView>
    decreases block.len(),
{
    if block.len() == 0 {
        Ok(Merging { rows: base, warnings: Seq::empty() })
    } else {
        match apply_block(base, block.drop_last()) {
            Ok(state) => apply_context(base, state, block.last()),
            Err(error) => Err(error),
        }
    }
}

/// What merging `block` over `base` gives: the rows and warnings its entries leave, unless a key
/// ends up bound to two actions in one context.
pub open spec fn merged(
    base: Seq<Binding>,
    block: Seq<(Seq<char>, Option<Seq<(Seq<char>, Option<Seq<char>>)>>)>,
) -> Result<Merging, KeysErrorView> {
    match apply_block(base, block) {
        Ok(state) => if collisions(state.rows).len() > 0 {
            Err(KeysErrorView::Collisions(collisions(state.rows)))
        } else {
            Ok(state)
        },
        Err(error) => Err(error),
    }
}

/// The warnings as plain text.
pub open spec fn warnings_view(warnings: Seq<KeysWarning>) -> Seq<KeysWarningView> {
    warnings.map_values(|warning: KeysWarning| warning@)
}

fn find_row_named(base: &Vec<Binding>, context: Context, name: &str) -> (row: Option<Binding>)
    ensures
        row == row_named(base@, context, name@),
{
    let mut i: usize = 0;
    proof {
        assert(base@.skip(0) =~= base@);
    }
    while i < base.len()
        invariant
            i <= base.len(),
            row_named(base@, context, name@) == row_named(base@.skip(i as int), context, name@),
        decreases base.len() - i,
    {
        let row = base[i];
        if row.context == context {
            if let Some(own) = action_name(row.action) {
                if same(own, name) {
                    return Some(row);
                }
            }
        }
        proof {
            assert(base@.skip(i as int).drop_first() =~= base@.skip(i + 1));
        }
        i = i + 1;
    }
    None
}

/// The action named `name` among `base`'s own rows for `context`, paired with whether that row
/// is built.
pub fn find_action_by_name(base: &Vec<Binding>, context: Context, name: &str) -> (found: Option<
    (Action, bool),
>)
    ensures
        found == match row_named(base@, context, name@) {
            Some(row) => Some((row.action, row.built)),
            None => None,
        },
{
    match find_row_named(base, context, name) {
        Some(row) => Some((row.action, row.built)),
        None => None,
    }
}

fn remove_bound_to(rows: &Vec<Binding>, context: Context, action: Action) -> (kept: Vec<Binding>)
    ensures
        kept@ == without(rows@, context, action),
{
    let mut kept: Vec<Binding> = Vec::new();
    let mut i: usize = 0;
    while i < rows.len()
        invariant
            i <= rows.len(),
            kept@ == without(rows@.take(i as int), context, action),
        decreases rows.len() - i,
    {
        let row = rows[i];
        proof {
            assert(rows@.take(i + 1).drop_last() =~= rows@.take(i as int));
        }
        if !(row.context == context && row.action == action) {
            kept.push(row);
        }
        i = i + 1;
    }
    proof {
        assert(rows@.take(i as int) =~= rows@);
    }
    kept
}

/// `state` is what has been merged so far, as the executable merge holds it.
spec fn holds_state(rows: Seq<Binding>, warnings: Seq<KeysWarning>, state: Merging) -> bool {
    &&& rows == state.rows
    &&& warnings_view(warnings) == state.warnings
}

fn merge_action(
    base: &Vec<Binding>,
    rows: &mut Vec<Binding>,
    warnings: &mut Vec<KeysWarning>,
    context_text: &String,
    context: Context,
    entry: &ActionEntry,
) -> (outcome: Result<(), KeysError>)
    ensures
        match apply_action(
            base@,
            Merging { rows: old(rows)@, warnings: warnings_view(old(warnings)@) },
            context_text@,
            context,
            entry@,
        ) {
            Ok(state) => outcome is Ok && holds_state(final(rows)@, final(warnings)@, state),
            Err(error) => outcome is Err && outcome->Err_0@ == error,
        },
{
    let ghost earlier = warnings@;
    let (action, built) = match find_action_by_name(base, context, entry.name.as_str()) {
        Some(found) => found,
        None => {
            let warning = KeysWarning::UnknownAction {
                context: context_text.clone(),
                action: entry.name.clone(),
            };
            warnings.push(warning);
            proof {
                assert(warnings_view(warnings@) =~= warnings_view(earlier).push(warning@));
            }
            return Ok(());
        },
    };
    if !built {
        let warning = KeysWarning::NotBuilt {
            context: context_text.clone(),
            action: entry.name.clone(),
        };
        warnings.push(warning);
        proof {
            assert(warnings_view(warnings@) =~= warnings_view(earlier).push(warning@));
        }
        return Ok(());
    }
    let key = match &entry.key {
        Some(key) => key,
        None => {
            return Err(
                KeysError::NotAString { context: context_text.clone(), action: entry.name.clone() },
            );
        },
    };
    let mut kept = remove_bound_to(rows, context, action);
    if key.as_str().is_empty() {
        *rows = kept;
        return Ok(());
    }
    match parse_chord(key.as_str()) {
        None => Err(
            KeysError::UnparseableKey {
                context: context_text.clone(),
                action: entry.name.clone(),
                key: key.clone(),
            },
        ),
        Some((code, modifiers)) => if is_unbindable(code, modifiers) {
            Err(
                KeysError::UnbindableKey {
                    context: context_text.clone(),
                    action: entry.name.clone(),
                    key: key.clone(),
                },
            )
        } else {
            kept.push(binding(context, code, modifiers, action));
            *rows = kept;
            Ok(())
        },
    }
}


fn merge_context(
    base: &Vec<Binding>,
    rows: &mut Vec<Binding>,
    warnings: &mut Vec<KeysWarning>,
    entry: &ContextEntry,
) -> (outcome: Result<(), KeysError>)
    ensures
        match apply_context(
            base@,
            Merging { rows: old(rows)@, warnings: warnings_view(old(warnings)@) },
            entry@,
        ) {
            Ok(state) => outcome is Ok && holds_state(final(rows)@, final(warnings)@, state),
            Err(error) => outcome is Err && outcome->Err_0@ == error,
        },
{
    let ghost start = Merging { rows: rows@, warnings: warnings_view(warnings@) };
    let ghost earlier = warnings@;
    let context = match parse_context_name(entry.name.as_str()) {
        Some(context) => context,
        None => {
            let warning = KeysWarning::UnknownContext(
                "keys.".to_owned().concat(entry.name.as_str()),
            );
            warnings.push(warning);
            proof {
                assert(warnings_view(warnings@) =~= warnings_view(earlier).push(warning@));
            }
            return Ok(());
        },
    };
    proof {
        let chosen = choose|other: Context| #[trigger] context_name_text(other) == entry.name@;
        law_context_names_are_distinct(context, chosen);
    }
    let entries = match &entry.actions {
        Some(entries) => entries,
        None => {
            return Err(KeysError::NotATable { context: entry.name.clone() });
        },
    };
    let ghost all = actions_view(entries@);
    let mut i: usize = 0;
    proof {
        assert(all.take(0) =~= Seq::<(Seq<char>, Option<Seq<char>>)>::empty());
    }
    while i < entries.len()
        invariant
            i <= entries.len(),
            all == actions_view(entries@),
            match apply_actions(base@, start, entry.name@, context, all.take(i as int)) {
                Ok(state) => holds_state(rows@, warnings@, state),
                Err(_) => false,
            },
            start == (Merging { rows: old(rows)@, warnings: warnings_view(old(warnings)@) }),
            entry@.1 == Some(all),
            apply_context(base@, start, entry@) == apply_actions(
                base@,
                start,
                entry.name@,
                context,
                all,
            ),
        decreases entries.len() - i,
    {
        proof {
            assert(all.take(i + 1).drop_last() =~= all.take(i as int));
            assert(all.take(i + 1).last() == entries@[i as int]@);
        }
        let outcome = merge_action(base, rows, warnings, &entry.name, context, &entries[i]);
        if outcome.is_err() {
            proof {
                lemma_a_refused_action_refuses_the_table(
                    base@,
                    start,
                    entry.name@,
                    context,
                    all,
                    i + 1,
                );
            }
            return outcome;
        }
        i = i + 1;
    }
    proof {
        assert(all.take(i as int) =~= all);
    }
    Ok(())
}

/// Once an entry refuses a context's table, the entries behind it change nothing.
proof fn lemma_a_refused_action_refuses_the_table(
    base: Seq<Binding>,
    state: Merging,
    context_text: Seq<char>,
    context: Context,
    entries: Seq<(Seq<char>, Option<Seq<char>>)>,
    count: int,
)
    requires
        0 <= count <= entries.len(),
        apply_actions(base, state, context_text, context, entries.take(count)) is Err,
    ensures
        apply_actions(base, state, context_text, context, entries) == apply_actions(
            base,
            state,
            context_text,
            context,
            entries.take(count),
        ),
    decreases entries.len(),
{
    if count == entries.len() {
        assert(entries.take(count) =~= entries);
    } else {
        let shorter = entries.drop_last();
        assert(shorter.take(count) =~= entries.take(count));
        lemma_a_refused_action_refuses_the_table(
            base,
            state,
            context_text,
            context,
            shorter,
            count,
        );
    }
}

/// Once an entry refuses a block, the entries behind it change nothing.
proof fn lemma_a_refused_context_refuses_the_block(
    base: Seq<Binding>,
    block: Seq<(Seq<char>, Option<Seq<(Seq<char>, Option<Seq<char>>)>>)>,
    count: int,
)
    requires
        0 <= count <= block.len(),
        apply_block(base, block.take(count)) is Err,
    ensures
        apply_block(base, block) == apply_block(base, block.take(count)),
    decreases block.len(),
{
    if count == block.len() {
        assert(block.take(count) =~= block);
    } else {
        let shorter = block.drop_last();
        assert(shorter.take(count) =~= block.take(count));
        lemma_a_refused_context_refuses_the_block(base, shorter, count);
    }
}

/// Merges the entries of a `[keys]` block over `base`: one table per context, keyed on the
/// action name, so rebinding one action leaves every other binding, in every context, untouched.
/// Binding an action to the empty string unbinds it outright. An unknown context or action name
/// warns and is otherwise ignored; a key name that is unparseable or unbindable, or a value of
/// the wrong type, is an error, and so are two or more actions left bound to the same key in the
/// same context.
pub fn merge_entries(base: &Vec<Binding>, entries: &Vec<ContextEntry>) -> (outcome: Result<
    (BindingTable, Vec<KeysWarning>),
    KeysError,
>)
    ensures
        match merged(base@, block_view(entries@)) {
            Ok(state) => outcome is Ok && outcome->Ok_0.0.rows() == state.rows && warnings_view(
                outcome->Ok_0.1@,
            ) == state.warnings,
            Err(error) => outcome is Err && outcome->Err_0@ == error,
        },
{
    let ghost block = block_view(entries@);
    let mut rows: Vec<Binding> = copy_rows(base);
    let mut warnings: Vec<KeysWarning> = Vec::new();
    let mut i: usize = 0;
    proof {
        assert(block.take(0) =~= Seq::empty());
        assert(warnings_view(warnings@) =~= Seq::<KeysWarningView>::empty());
    }
    while i < entries.len()
        invariant
            i <= entries.len(),
            block == block_view(entries@),
            match apply_block(base@, block.take(i as int)) {
                Ok(state) => holds_state(rows@, warnings@, state),
                Err(_) => false,
            },
        decreases entries.len() - i,
    {
        proof {
            assert(block.take(i + 1).drop_last() =~= block.take(i as int));
            assert(block.take(i + 1).last() == entries@[i as int]@);
        }
        let outcome = merge_context(base, &mut rows, &mut warnings, &entries[i]);
        if let Err(error) = outcome {
            proof {
                lemma_a_refused_context_refuses_the_block(base@, block, i + 1);
            }
            return Err(error);
        }
        i = i + 1;
    }
    proof {
        assert(block.take(i as int) =~= block);
    }
    let found = find_collisions(&rows);
    proof {
        assert(collisions_view(found@).len() == found@.len());
    }
    if found.len() > 0 {
        return Err(KeysError::Collisions(found));
    }
    Ok((BindingTable::from_bindings(rows), warnings))
}

fn copy_rows(rows: &Vec<Binding>) -> (copy: Vec<Binding>)
    ensures
        copy@ == rows@,
{
    let mut copy: Vec<Binding> = Vec::new();
    let mut i: usize = 0;
    while i < rows.len()
        invariant
            i <= rows.len(),
            copy@ == rows@.take(i as int),
        decreases rows.len() - i,
    {
        copy.push(rows[i]);
        i = i + 1;
    }
    copy
}

/// A table of `toml`: keys and values in the order the table iterates over them.
#[verifier::external_type_specification]
#[verifier::external_body]
#[verifier::reject_recursive_types(K)]
#[verifier::reject_recursive_types(V)]
pub struct ExTomlMap<K, V>(toml::map::Map<K, V>);

/// A value of `toml`.
#[verifier::external_type_specification]
#[verifier::external_body]
pub struct ExTomlValue(toml::Value);

/// What a `[keys]` table holds: its keys in the order the table iterates over them, each with
/// the string entries of its own table.
pub uninterp spec fn keys_block(table: toml::map::Map<String, toml::Value>) -> Seq<
    (Seq<char>, Option<Seq<(Seq<char>, Option<Seq<char>>)>>),
>;

/// `toml`'s `Map::iter`, over the table and over each table in it: hands out every entry as
/// plain text, a value that is no table, or no string inside one, as `None`
/// (`Value::as_table`, `Value::as_str`). A map holds each of its keys once.
#[verifier::external_body]
fn entries_of(table: &toml::map::Map<String, toml::Value>) -> (entries: Vec<ContextEntry>)
    ensures
        block_view(entries@) == keys_block(*table),
        names_once(block_view(entries@)),
{
    let action = |(name, value): (&String, &toml::Value)| ActionEntry {
        name: name.clone(),
        key: value.as_str().map(str::to_owned),
    };
    let context = |(name, value): (&String, &toml::Value)| ContextEntry {
        name: name.clone(),
        actions: value.as_table().map(|inner| inner.iter().map(action).collect()),
    };
    table.iter().map(context).collect()
}

/// Merges a `[keys]` block over `base`; see [`merge_entries`].
pub fn merge_over(
    base: &Vec<Binding>,
    document_keys: &toml::map::Map<String, toml::Value>,
) -> (outcome: Result<(BindingTable, Vec<KeysWarning>), KeysError>)
    ensures
        match merged(base@, keys_block(*document_keys)) {
            Ok(state) => outcome is Ok && outcome->Ok_0.0.rows() == state.rows && warnings_view(
                outcome->Ok_0.1@,
            ) == state.warnings,
            Err(error) => outcome is Err && outcome->Err_0@ == error,
        },
        names_once(keys_block(*document_keys)),
{
    merge_entries(base, &entries_of(document_keys))
}

/// Merges a `[keys]` block over the default map; see [`merge_entries`].
pub fn merge(document_keys: &toml::map::Map<String, toml::Value>) -> (outcome: Result<
    (BindingTable, Vec<KeysWarning>),
    KeysError,
>)
    ensures
        match merged(default_rows(), keys_block(*document_keys)) {
            Ok(state) => outcome is Ok && outcome->Ok_0.0.rows() == state.rows && warnings_view(
                outcome->Ok_0.1@,
            ) == state.warnings,
            Err(error) => outcome is Err && outcome->Err_0@ == error,
        },
        names_once(keys_block(*document_keys)),
{
    merge_over(BindingTable::compiled_default().bindings(), document_keys)
}


/// `places` lists where each row is bound, and nothing else.
proof fn lemma_places(rows: Seq<Binding>)
    ensures
        forall|i: int| 0 <= i < rows.len() ==> places(rows).contains(place_of(#[trigger] rows[i])),
    decreases rows.len(),
{
    if rows.len() > 0 {
        let rest = rows.drop_last();
        lemma_places(rest);
        assert forall|i: int| 0 <= i < rows.len() implies places(rows).contains(
            place_of(#[trigger] rows[i]),
        ) by {
            if i < rows.len() - 1 {
                assert(rest[i] == rows[i]);
                let at = choose|at: int|
                    0 <= at < places(rest).len() && places(rest)[at] == place_of(rows[i]);
                assert(places(rows)[at] == place_of(rows[i]));
            } else if !places(rest).contains(place_of(rows.last())) {
                assert(places(rows).last() == place_of(rows.last()));
            }
        }
    }
}

/// `actions_at` lists what each row at `place` fires, each action once.
proof fn lemma_actions_at(rows: Seq<Binding>, place: Place)
    ensures
        actions_at(rows, place).no_duplicates(),
        forall|i: int|
            0 <= i < rows.len() && place_of(#[trigger] rows[i]) == place ==> actions_at(
                rows,
                place,
            ).contains(rows[i].action),
        forall|action: Action|
            #![trigger actions_at(rows, place).contains(action)]
            actions_at(rows, place).contains(action) ==> exists|i: int|
                0 <= i < rows.len() && place_of(#[trigger] rows[i]) == place && rows[i].action
                    == action,
    decreases rows.len(),
{
    if rows.len() > 0 {
        let rest = rows.drop_last();
        let earlier = actions_at(rest, place);
        let now = actions_at(rows, place);
        lemma_actions_at(rest, place);
        assert forall|i: int|
            0 <= i < rows.len() && place_of(#[trigger] rows[i]) == place implies now.contains(
            rows[i].action,
        ) by {
            if i < rows.len() - 1 {
                assert(rest[i] == rows[i]);
                let at = choose|at: int| 0 <= at < earlier.len() && earlier[at] == rows[i].action;
                assert(now[at] == rows[i].action);
            } else if !earlier.contains(rows.last().action) {
                assert(now.last() == rows.last().action);
            }
        }
        assert forall|action: Action| now.contains(action) implies exists|i: int|
            0 <= i < rows.len() && place_of(#[trigger] rows[i]) == place && rows[i].action
                == action by {
            if earlier.contains(action) {
                let i = choose|i: int|
                    0 <= i < rest.len() && place_of(#[trigger] rest[i]) == place && rest[i].action
                        == action;
                assert(rows[i] == rest[i]);
            } else {
                assert(rows[rows.len() - 1] == rows.last());
            }
        }
    }
}

/// A place that `collisions_among` leaves out holds at most one action.
proof fn lemma_collisions_among(rows: Seq<Binding>, listed: Seq<Place>)
    ensures
        collisions_among(rows, listed).len() == 0 <==> forall|i: int|
            0 <= i < listed.len() ==> actions_at(rows, #[trigger] listed[i]).len() <= 1,
    decreases listed.len(),
{
    if listed.len() > 0 {
        let rest = listed.drop_last();
        lemma_collisions_among(rows, rest);
        if forall|i: int| 0 <= i < listed.len() ==> actions_at(rows, #[trigger] listed[i]).len()
            <= 1 {
            assert forall|i: int| 0 <= i < rest.len() implies actions_at(
                rows,
                #[trigger] rest[i],
            ).len() <= 1 by {
                assert(listed[i] == rest[i]);
            }
            assert(listed[listed.len() - 1] == listed.last());
        }
        if collisions_among(rows, listed).len() == 0 {
            assert forall|i: int| 0 <= i < listed.len() implies actions_at(
                rows,
                #[trigger] listed[i],
            ).len() <= 1 by {
                if i < rest.len() {
                    assert(rest[i] == listed[i]);
                }
            }
        }
    }
}

/// Each place `places` lists is where some row is bound.
proof fn lemma_places_are_bound(rows: Seq<Binding>)
    ensures
        forall|at: int|
            0 <= at < places(rows).len() ==> exists|i: int|
                0 <= i < rows.len() && place_of(#[trigger] rows[i]) == #[trigger] places(rows)[at],
    decreases rows.len(),
{
    if rows.len() > 0 {
        let rest = rows.drop_last();
        lemma_places_are_bound(rest);
        assert forall|at: int| 0 <= at < places(rows).len() implies exists|i: int|
            0 <= i < rows.len() && place_of(#[trigger] rows[i]) == #[trigger] places(rows)[at] by {
            if at < places(rest).len() {
                let i = choose|i: int|
                    0 <= i < rest.len() && place_of(#[trigger] rest[i]) == places(rest)[at];
                assert(rows[i] == rest[i]);
            } else {
                assert(rows[rows.len() - 1] == rows.last());
            }
        }
    }
}

/// No collision is found exactly where rows bound to the same key in the same context all fire
/// the same action.
pub proof fn law_no_collision_means_one_action_per_key(rows: Seq<Binding>)
    ensures
        collisions(rows).len() == 0 <==> forall|i: int, j: int|
            #![trigger rows[i], rows[j]]
            0 <= i < rows.len() && 0 <= j < rows.len() && place_of(rows[i]) == place_of(rows[j])
                ==> rows[i].action == rows[j].action,
{
    lemma_places(rows);
    lemma_places_are_bound(rows);
    lemma_collisions_among(rows, places(rows));
    if collisions(rows).len() == 0 {
        assert forall|i: int, j: int|
            #![trigger rows[i], rows[j]]
            0 <= i < rows.len() && 0 <= j < rows.len() && place_of(rows[i]) == place_of(
                rows[j],
            ) implies rows[i].action == rows[j].action by {
            let place = place_of(rows[i]);
            let at = choose|at: int| 0 <= at < places(rows).len() && places(rows)[at] == place;
            let held = actions_at(rows, places(rows)[at]);
            lemma_actions_at(rows, place);
            assert(held.contains(rows[i].action));
            assert(held.contains(rows[j].action));
            assert(held.len() <= 1);
        }
    }
    if forall|i: int, j: int|
        #![trigger rows[i], rows[j]]
        0 <= i < rows.len() && 0 <= j < rows.len() && place_of(rows[i]) == place_of(rows[j])
            ==> rows[i].action == rows[j].action {
        assert forall|at: int| 0 <= at < places(rows).len() implies actions_at(
            rows,
            #[trigger] places(rows)[at],
        ).len() <= 1 by {
            let place = places(rows)[at];
            let held = actions_at(rows, place);
            lemma_actions_at(rows, place);
            if held.len() > 1 {
                assert(held.contains(held[0]));
                assert(held.contains(held[1]));
            }
        }
    }
}

/// In a table without collisions every built row's key fires that row's own action, wherever
/// the row stands.
pub proof fn law_without_collisions_every_key_fires_its_own_action(rows: Seq<Binding>, i: int)
    requires
        collisions(rows).len() == 0,
        0 <= i < rows.len(),
        rows[i].built,
    ensures
        lookup_spec(
            rows,
            rows[i].context,
            KeyEvent { code: rows[i].code, modifiers: rows[i].modifiers },
        ) == Some(rows[i].action),
{
    let key = KeyEvent { code: rows[i].code, modifiers: rows[i].modifiers };
    law_no_collision_means_one_action_per_key(rows);
    lemma_lookup_finds_a_row(rows, rows[i].context, key);
    assert(fires(rows[i], rows[i].context, key));
}


/// The rows bound to `action` in `context`, in order.
pub open spec fn bound_rows(rows: Seq<Binding>, context: Context, action: Action) -> Seq<Binding>
    decreases rows.len(),
{
    if rows.len() == 0 {
        rows
    } else {
        let earlier = bound_rows(rows.drop_last(), context, action);
        if rows.last().context == context && rows.last().action == action {
            earlier.push(rows.last())
        } else {
            earlier
        }
    }
}

/// An entry named `name` in `context`'s table rebinds `action`: the name is a built action's.
pub open spec fn rebinds(
    base: Seq<Binding>,
    context: Context,
    name: Seq<char>,
    action: Action,
) -> bool {
    row_named(base, context, name) matches Some(row) && row.built && row.action == action
}

/// Some entry of `block` rebinds `action` in `context`.
pub open spec fn block_rebinds(
    base: Seq<Binding>,
    block: Seq<(Seq<char>, Option<Seq<(Seq<char>, Option<Seq<char>>)>>)>,
    context: Context,
    action: Action,
) -> bool {
    exists|i: int, j: int|
        #![trigger block[i].1->0[j]]
        0 <= i < block.len() && block[i].0 == context_name_text(context) && block[i].1 is Some && 0
            <= j < block[i].1->0.len() && rebinds(base, context, block[i].1->0[j].0, action)
}

proof fn lemma_without(rows: Seq<Binding>, context: Context, action: Action)
    ensures
        bound_rows(without(rows, context, action), context, action).len() == 0,
        forall|c: Context, a: Action|
            c != context || a != action ==> #[trigger] bound_rows(
                without(rows, context, action),
                c,
                a,
            ) == bound_rows(rows, c, a),
    decreases rows.len(),
{
    if rows.len() > 0 {
        let rest = rows.drop_last();
        let kept = without(rest, context, action);
        lemma_without(rest, context, action);
        assert(kept.push(rows.last()).drop_last() =~= kept);
        assert forall|c: Context, a: Action| c != context || a != action implies #[trigger] bound_rows(
            without(rows, context, action),
            c,
            a,
        ) == bound_rows(rows, c, a) by {
            assert(bound_rows(kept, c, a) == bound_rows(rest, c, a));
        }
    }
}

/// One entry of a `[keys.<context>]` table moves at most the action it names: that action is
/// left bound to exactly the key given, or to nothing for an empty one, and every other binding
/// of every context stays as it was. An entry that names no built action moves nothing.
pub proof fn law_an_entry_moves_only_the_action_it_names(
    base: Seq<Binding>,
    state: Merging,
    context_text: Seq<char>,
    context: Context,
    entry: (Seq<char>, Option<Seq<char>>),
)
    ensures
        apply_action(base, state, context_text, context, entry) matches Ok(next) ==> {
            &&& forall|c: Context, a: Action|
                (c != context || !rebinds(base, context, entry.0, a)) ==> #[trigger] bound_rows(
                    next.rows,
                    c,
                    a,
                ) == bound_rows(state.rows, c, a)
            &&& forall|a: Action|
                rebinds(base, context, entry.0, a) ==> #[trigger] bound_rows(next.rows, context, a)
                    == if (entry.1->0).len() == 0 {
                    Seq::empty()
                } else {
                    let (code, modifiers) = parse_chord_spec(entry.1->0)->0;
                    seq![binding(context, code, modifiers, a)]
                }
        },
{
    if let Ok(next) = apply_action(base, state, context_text, context, entry) {
        if let Some(row) = row_named(base, context, entry.0) {
            if row.built {
                let kept = without(state.rows, context, row.action);
                lemma_without(state.rows, context, row.action);
                let key = entry.1->0;
                if key.len() > 0 {
                    let (code, modifiers) = parse_chord_spec(key)->0;
                    let added = binding(context, code, modifiers, row.action);
                    assert(next.rows.drop_last() =~= kept);
                    assert(next.rows.last() == added);
                    assert forall|c: Context, a: Action|
                        c != context || !rebinds(
                            base,
                            context,
                            entry.0,
                            a,
                        ) implies #[trigger] bound_rows(next.rows, c, a) == bound_rows(
                        state.rows,
                        c,
                        a,
                    ) by {
                        assert(bound_rows(kept, c, a) == bound_rows(state.rows, c, a));
                    }
                    assert(bound_rows(next.rows, context, row.action) =~= seq![added]);
                }
            }
        }
    }
}

proof fn lemma_a_table_moves_only_what_it_rebinds(
    base: Seq<Binding>,
    state: Merging,
    context_text: Seq<char>,
    context: Context,
    entries: Seq<(Seq<char>, Option<Seq<char>>)>,
    c: Context,
    a: Action,
)
    requires
        c != context || forall|j: int|
            0 <= j < entries.len() ==> !rebinds(base, context, (#[trigger] entries[j]).0, a),
    ensures
        apply_actions(base, state, context_text, context, entries) matches Ok(next) ==> bound_rows(
            next.rows,
            c,
            a,
        ) == bound_rows(state.rows, c, a),
    decreases entries.len(),
{
    if entries.len() > 0 {
        let rest = entries.drop_last();
        assert(forall|j: int| 0 <= j < rest.len() ==> rest[j] == #[trigger] entries[j]);
        lemma_a_table_moves_only_what_it_rebinds(
            base,
            state,
            context_text,
            context,
            rest,
            c,
            a,
        );
        if let Ok(mid) = apply_actions(base, state, context_text, context, rest) {
            law_an_entry_moves_only_the_action_it_names(
                base,
                mid,
                context_text,
                context,
                entries.last(),
            );
            assert(entries.last() == entries[entries.len() - 1]);
        }
    }
}

proof fn lemma_context_of(name: Seq<char>, context: Context)
    requires
        name == context_name_text(context),
    ensures
        (choose|other: Context| #[trigger] context_name_text(other) == name) == context,
{
    let chosen = choose|other: Context| #[trigger] context_name_text(other) == name;
    law_context_names_are_distinct(context, chosen);
}

proof fn lemma_a_block_moves_only_what_it_rebinds(
    base: Seq<Binding>,
    block: Seq<(Seq<char>, Option<Seq<(Seq<char>, Option<Seq<char>>)>>)>,
    c: Context,
    a: Action,
)
    requires
        !block_rebinds(base, block, c, a),
    ensures
        apply_block(base, block) matches Ok(next) ==> bound_rows(next.rows, c, a) == bound_rows(
            base,
            c,
            a,
        ),
    decreases block.len(),
{
    if block.len() > 0 {
        let rest = block.drop_last();
        let last = block.last();
        assert(forall|i: int| 0 <= i < rest.len() ==> rest[i] == #[trigger] block[i]);
        assert(!block_rebinds(base, rest, c, a)) by {
            if block_rebinds(base, rest, c, a) {
                let (i, j) = choose|i: int, j: int|
                    #![trigger rest[i].1->0[j]]
                    0 <= i < rest.len() && rest[i].0 == context_name_text(c) && rest[i].1 is Some
                        && 0 <= j < rest[i].1->0.len() && rebinds(base, c, rest[i].1->0[j].0, a);
                assert(block[i].1->0[j] == rest[i].1->0[j]);
            }
        }
        lemma_a_block_moves_only_what_it_rebinds(base, rest, c, a);
        if let Ok(state) = apply_block(base, rest) {
            if exists|context: Context| #[trigger] context_name_text(context) == last.0 {
                let context = choose|context: Context| #[trigger] context_name_text(context)
                    == last.0;
                if let Some(entries) = last.1 {
                    if c == context {
                        assert forall|j: int| 0 <= j < entries.len() implies !rebinds(
                            base,
                            context,
                            (#[trigger] entries[j]).0,
                            a,
                        ) by {
                            assert(block[block.len() - 1].1->0[j] == entries[j]);
                        }
                    }
                    lemma_a_table_moves_only_what_it_rebinds(
                        base,
                        state,
                        last.0,
                        context,
                        entries,
                        c,
                        a,
                    );
                }
            }
        }
    }
}

/// Merging leaves every binding the block does not rebind exactly as it was, in every context.
pub proof fn law_merging_leaves_every_other_binding_alone(
    base: Seq<Binding>,
    block: Seq<(Seq<char>, Option<Seq<(Seq<char>, Option<Seq<char>>)>>)>,
    context: Context,
    action: Action,
)
    requires
        !block_rebinds(base, block, context, action),
    ensures
        merged(base, block) matches Ok(state) ==> bound_rows(state.rows, context, action)
            == bound_rows(base, context, action),
{
    lemma_a_block_moves_only_what_it_rebinds(base, block, context, action);
}

/// The last entry to rebind an action decides its keys: exactly the key that entry gives, or
/// none for an empty one. Nothing of what the action was bound to before is left.
pub proof fn law_the_last_entry_decides(
    base: Seq<Binding>,
    block: Seq<(Seq<char>, Option<Seq<(Seq<char>, Option<Seq<char>>)>>)>,
    context: Context,
    action: Action,
    i: int,
    j: int,
)
    requires
        0 <= i < block.len(),
        block[i].0 == context_name_text(context),
        block[i].1 is Some,
        0 <= j < block[i].1->0.len(),
        rebinds(base, context, block[i].1->0[j].0, action),
        forall|k: int|
            j < k < block[i].1->0.len() ==> !rebinds(
                base,
                context,
                (#[trigger] block[i].1->0[k]).0,
                action,
            ),
        !block_rebinds(base, block.skip(i + 1), context, action),
    ensures
        merged(base, block) matches Ok(state) ==> bound_rows(state.rows, context, action) == ({
            let key = block[i].1->0[j].1->0;
            if key.len() == 0 {
                Seq::empty()
            } else {
                let (code, modifiers) = parse_chord_spec(key)->0;
                seq![binding(context, code, modifiers, action)]
            }
        }),
{
    lemma_the_last_entry_decides(base, block, context, action, i, j);
}

proof fn lemma_row_named_goes_by_the_name(base: Seq<Binding>, context: Context, name: Seq<char>)
    ensures
        row_named(base, context, name) matches Some(row) ==> action_name_text(row.action) == Some(
            name,
        ),
    decreases base.len(),
{
    if base.len() > 0 {
        lemma_row_named_goes_by_the_name(base.drop_first(), context, name);
    }
}

/// In a block that names nothing twice, such as a table holds, the entry that rebinds an action
/// decides its keys: exactly the key it gives, or none for an empty one.
pub proof fn law_the_entry_of_a_table_decides(
    base: Seq<Binding>,
    block: Seq<(Seq<char>, Option<Seq<(Seq<char>, Option<Seq<char>>)>>)>,
    context: Context,
    action: Action,
    i: int,
    j: int,
)
    requires
        names_once(block),
        0 <= i < block.len(),
        block[i].0 == context_name_text(context),
        block[i].1 is Some,
        0 <= j < block[i].1->0.len(),
        rebinds(base, context, block[i].1->0[j].0, action),
    ensures
        merged(base, block) matches Ok(state) ==> bound_rows(state.rows, context, action) == ({
            let key = block[i].1->0[j].1->0;
            if key.len() == 0 {
                Seq::empty()
            } else {
                let (code, modifiers) = parse_chord_spec(key)->0;
                seq![binding(context, code, modifiers, action)]
            }
        }),
{
    let entries = block[i].1->0;
    assert forall|k: int| j < k < entries.len() implies !rebinds(
        base,
        context,
        (#[trigger] entries[k]).0,
        action,
    ) by {
        if rebinds(base, context, entries[k].0, action) {
            lemma_row_named_goes_by_the_name(base, context, entries[j].0);
            lemma_row_named_goes_by_the_name(base, context, entries[k].0);
            assert(block[i].1->0[j].0 == block[i].1->0[k].0);
        }
    }
    let rest = block.skip(i + 1);
    if block_rebinds(base, rest, context, action) {
        let (a, b) = choose|a: int, b: int|
            #![trigger rest[a].1->0[b]]
            0 <= a < rest.len() && rest[a].0 == context_name_text(context) && rest[a].1 is Some && 0
                <= b < rest[a].1->0.len() && rebinds(base, context, rest[a].1->0[b].0, action);
        assert(rest[a] == block[i + 1 + a]);
        assert(block[i].0 == block[i + 1 + a].0);
    }
    law_the_last_entry_decides(base, block, context, action, i, j);
}

/// The rows the entry at `j` leaves for the action it rebinds.
spec fn left_by(
    entries: Seq<(Seq<char>, Option<Seq<char>>)>,
    j: int,
    context: Context,
    action: Action,
) -> Seq<Binding> {
    let key = entries[j].1->0;
    if key.len() == 0 {
        Seq::empty()
    } else {
        let (code, modifiers) = parse_chord_spec(key)->0;
        seq![binding(context, code, modifiers, action)]
    }
}

proof fn lemma_the_last_action_entry_decides(
    base: Seq<Binding>,
    state: Merging,
    context_text: Seq<char>,
    context: Context,
    entries: Seq<(Seq<char>, Option<Seq<char>>)>,
    action: Action,
    j: int,
)
    requires
        0 <= j < entries.len(),
        rebinds(base, context, entries[j].0, action),
        forall|k: int|
            j < k < entries.len() ==> !rebinds(
                base,
                context,
                (#[trigger] entries[k]).0,
                action,
            ),
    ensures
        apply_actions(base, state, context_text, context, entries) matches Ok(next) ==> bound_rows(
            next.rows,
            context,
            action,
        ) == left_by(entries, j, context, action),
    decreases entries.len(),
{
    let rest = entries.drop_last();
    if let Ok(mid) = apply_actions(base, state, context_text, context, rest) {
        law_an_entry_moves_only_the_action_it_names(
            base,
            mid,
            context_text,
            context,
            entries.last(),
        );
        if j < rest.len() {
            assert(forall|k: int| 0 <= k < rest.len() ==> rest[k] == #[trigger] entries[k]);
            lemma_the_last_action_entry_decides(
                base,
                state,
                context_text,
                context,
                rest,
                action,
                j,
            );
            assert(entries.last() == entries[entries.len() - 1]);
        }
    }
}

proof fn lemma_the_last_entry_decides(
    base: Seq<Binding>,
    block: Seq<(Seq<char>, Option<Seq<(Seq<char>, Option<Seq<char>>)>>)>,
    context: Context,
    action: Action,
    i: int,
    j: int,
)
    requires
        0 <= i < block.len(),
        block[i].0 == context_name_text(context),
        block[i].1 is Some,
        0 <= j < block[i].1->0.len(),
        rebinds(base, context, block[i].1->0[j].0, action),
        forall|k: int|
            j < k < block[i].1->0.len() ==> !rebinds(
                base,
                context,
                (#[trigger] block[i].1->0[k]).0,
                action,
            ),
        !block_rebinds(base, block.skip(i + 1), context, action),
    ensures
        apply_block(base, block) matches Ok(state) ==> bound_rows(state.rows, context, action)
            == left_by(block[i].1->0, j, context, action),
    decreases block.len(),
{
    let rest = block.drop_last();
    let last = block.last();
    lemma_context_of(block[i].0, context);
    if let Ok(state) = apply_block(base, rest) {
        if i == block.len() - 1 {
            lemma_the_last_action_entry_decides(
                base,
                state,
                last.0,
                context,
                last.1->0,
                action,
                j,
            );
        } else {
            assert(rest[i] == block[i]);
            assert(rest.skip(i + 1) =~= block.skip(i + 1).drop_last());
            assert(!block_rebinds(base, rest.skip(i + 1), context, action)) by {
                let tail = rest.skip(i + 1);
                if block_rebinds(base, tail, context, action) {
                    let (x, y) = choose|x: int, y: int|
                        #![trigger tail[x].1->0[y]]
                        0 <= x < tail.len() && tail[x].0 == context_name_text(context)
                            && tail[x].1 is Some && 0 <= y < tail[x].1->0.len() && rebinds(
                            base,
                            context,
                            tail[x].1->0[y].0,
                            action,
                        );
                    assert(block.skip(i + 1)[x].1->0[y] == tail[x].1->0[y]);
                }
            }
            lemma_the_last_entry_decides(base, rest, context, action, i, j);
            if exists|other: Context| #[trigger] context_name_text(other) == last.0 {
                let other = choose|other: Context| #[trigger] context_name_text(other) == last.0;
                if let Some(entries) = last.1 {
                    if other == context {
                        assert forall|k: int| 0 <= k < entries.len() implies !rebinds(
                            base,
                            context,
                            (#[trigger] entries[k]).0,
                            action,
                        ) by {
                            let at = block.len() - 1 - (i + 1);
                            assert(block.skip(i + 1)[at].1->0[k] == entries[k]);
                        }
                    }
                    lemma_a_table_moves_only_what_it_rebinds(
                        base,
                        state,
                        last.0,
                        other,
                        entries,
                        context,
                        action,
                    );
                }
            }
        }
    }
}

/// No row names a permanently unbindable chord.
pub open spec fn all_bindable(rows: Seq<Binding>) -> bool {
    forall|i: int|
        0 <= i < rows.len() ==> !is_unbindable_spec((#[trigger] rows[i]).code, rows[i].modifiers)
}

proof fn lemma_without_stays_bindable(rows: Seq<Binding>, context: Context, action: Action)
    requires
        all_bindable(rows),
    ensures
        all_bindable(without(rows, context, action)),
    decreases rows.len(),
{
    if rows.len() > 0 {
        let rest = rows.drop_last();
        assert(forall|i: int| 0 <= i < rest.len() ==> rest[i] == #[trigger] rows[i]);
        assert(rows[rows.len() - 1] == rows.last());
        lemma_without_stays_bindable(rest, context, action);
    }
}

proof fn lemma_a_table_stays_bindable(
    base: Seq<Binding>,
    state: Merging,
    context_text: Seq<char>,
    context: Context,
    entries: Seq<(Seq<char>, Option<Seq<char>>)>,
)
    requires
        all_bindable(state.rows),
    ensures
        apply_actions(base, state, context_text, context, entries) matches Ok(next)
            ==> all_bindable(next.rows),
    decreases entries.len(),
{
    if entries.len() > 0 {
        lemma_a_table_stays_bindable(base, state, context_text, context, entries.drop_last());
        if let Ok(mid) = apply_actions(base, state, context_text, context, entries.drop_last()) {
            if let Some(row) = row_named(base, context, entries.last().0) {
                lemma_without_stays_bindable(mid.rows, context, row.action);
            }
        }
    }
}

proof fn lemma_a_block_stays_bindable(
    base: Seq<Binding>,
    block: Seq<(Seq<char>, Option<Seq<(Seq<char>, Option<Seq<char>>)>>)>,
)
    requires
        all_bindable(base),
    ensures
        apply_block(base, block) matches Ok(state) ==> all_bindable(state.rows),
    decreases block.len(),
{
    if block.len() > 0 {
        lemma_a_block_stays_bindable(base, block.drop_last());
        if let Ok(state) = apply_block(base, block.drop_last()) {
            if let Some(entries) = block.last().1 {
                let context = choose|context: Context| #[trigger] context_name_text(context)
                    == block.last().0;
                lemma_a_table_stays_bindable(base, state, block.last().0, context, entries);
            }
        }
    }
}

/// A merged table carries no collision, and names no permanently unbindable chord where the
/// table it was merged over names none.
pub proof fn law_a_merged_table_is_sound(
    base: Seq<Binding>,
    block: Seq<(Seq<char>, Option<Seq<(Seq<char>, Option<Seq<char>>)>>)>,
)
    requires
        all_bindable(base),
    ensures
        merged(base, block) matches Ok(state) ==> collisions(state.rows).len() == 0
            && all_bindable(state.rows),
{
    lemma_a_block_stays_bindable(base, block);
}


/// Row `k` is the first of `base`'s rows in `context` whose action goes by `name`.
pub open spec fn first_named(
    base: Seq<Binding>,
    context: Context,
    name: Seq<char>,
    k: int,
) -> bool {
    &&& 0 <= k < base.len()
    &&& base[k].context == context
    &&& action_name_text(base[k].action) == Some(name)
    &&& forall|j: int|
        0 <= j < k ==> !((#[trigger] base[j]).context == context && action_name_text(base[j].action)
            == Some(name))
}

/// No row of `base` in `context` goes by `name`.
pub open spec fn none_named(base: Seq<Binding>, context: Context, name: Seq<char>) -> bool {
    forall|j: int|
        0 <= j < base.len() ==> !((#[trigger] base[j]).context == context && action_name_text(
            base[j].action,
        ) == Some(name))
}

/// An entry means the first row of its context that goes by its name, and none where no row does.
pub proof fn law_an_entry_means_the_first_row_of_its_name(
    base: Seq<Binding>,
    context: Context,
    name: Seq<char>,
)
    ensures
        match row_named(base, context, name) {
            Some(row) => exists|k: int| #[trigger]
                first_named(base, context, name, k) && row == base[k],
            None => none_named(base, context, name),
        },
    decreases base.len(),
{
    if base.len() > 0 {
        let rest = base.drop_first();
        if base[0].context == context && action_name_text(base[0].action) == Some(name) {
            assert(first_named(base, context, name, 0));
        } else {
            law_an_entry_means_the_first_row_of_its_name(rest, context, name);
            match row_named(rest, context, name) {
                Some(row) => {
                    let k = choose|k: int| #[trigger]
                        first_named(rest, context, name, k) && row == rest[k];
                    assert forall|j: int| 0 <= j < k + 1 implies !((
                    #[trigger] base[j]).context == context && action_name_text(base[j].action)
                        == Some(name)) by {
                        if j > 0 {
                            assert(rest[j - 1] == base[j]);
                        }
                    }
                    assert(first_named(base, context, name, k + 1));
                },
                None => {
                    assert forall|j: int| 0 <= j < base.len() implies !((
                    #[trigger] base[j]).context == context && action_name_text(base[j].action)
                        == Some(name)) by {
                        if j > 0 {
                            assert(rest[j - 1] == base[j]);
                        }
                    }
                },
            }
        }
    }
}

proof fn lemma_first_named_is_one(
    base: Seq<Binding>,
    context: Context,
    name: Seq<char>,
    a: int,
    b: int,
)
    requires
        first_named(base, context, name, a),
        first_named(base, context, name, b),
    ensures
        a == b,
{
}

/// Ctrl alone, held with `i`, `m` or `[`: what a terminal may deliver as Tab, Enter or Esc.
pub open spec fn is_tab_enter_or_esc(code: KeyCode, modifiers: KeyModifiers) -> bool {
    &&& modifiers.control
    &&& !modifiers.shift && !modifiers.alt && !modifiers.super_key && !modifiers.hyper
        && !modifiers.meta
    &&& code == KeyCode::Char('i') || code == KeyCode::Char('m') || code == KeyCode::Char('[')
}

/// `key` can be bound: it is empty, which unbinds, or it names a chord a terminal can tell apart.
pub open spec fn can_be_bound(key: Seq<char>) -> bool {
    key.len() == 0 || (parse_chord_spec(key) matches Some((code, modifiers))
        && !is_tab_enter_or_esc(code, modifiers))
}

/// The entry can be applied: where it names a built action it gives a string, and one that can be
/// bound.
pub open spec fn can_be_applied(
    base: Seq<Binding>,
    context: Context,
    entry: (Seq<char>, Option<Seq<char>>),
) -> bool {
    forall|k: int| #[trigger]
        first_named(base, context, entry.0, k) && base[k].built ==> (entry.1 matches Some(key)
            && can_be_bound(key))
}

/// `error` says what is wrong with an entry that names a built action.
pub open spec fn faults(
    base: Seq<Binding>,
    context_text: Seq<char>,
    context: Context,
    entry: (Seq<char>, Option<Seq<char>>),
    error: KeysErrorView,
) -> bool {
    &&& exists|k: int| #[trigger] first_named(base, context, entry.0, k) && base[k].built
    &&& match error {
        KeysErrorView::NotATable { .. } => false,
        KeysErrorView::NotAString { context: named, action } => named == context_text && action
            == entry.0 && entry.1 is None,
        KeysErrorView::UnparseableKey { context: named, action, key } => named == context_text
            && action == entry.0 && entry.1 == Some(key) && key.len() > 0 && parse_chord_spec(
            key,
        ) is None,
        KeysErrorView::UnbindableKey { context: named, action, key } => named == context_text
            && action == entry.0 && entry.1 == Some(key) && key.len() > 0 && (parse_chord_spec(
            key,
        ) matches Some((code, modifiers)) && is_tab_enter_or_esc(code, modifiers)),
        KeysErrorView::Collisions(_) => false,
    }
}

/// `warning` says why an entry did nothing: its name is no action's of its context, or that of one
/// that is not built.
pub open spec fn warns(
    base: Seq<Binding>,
    context_text: Seq<char>,
    context: Context,
    entry: (Seq<char>, Option<Seq<char>>),
    warning: KeysWarningView,
) -> bool {
    ||| warning == KeysWarningView::UnknownAction { context: context_text, action: entry.0 }
        && none_named(base, context, entry.0)
    ||| warning == KeysWarningView::NotBuilt { context: context_text, action: entry.0 } && exists|
        k: int,
    | #[trigger]
        first_named(base, context, entry.0, k) && !base[k].built
}

proof fn lemma_one_entry(
    base: Seq<Binding>,
    state: Merging,
    context_text: Seq<char>,
    context: Context,
    entry: (Seq<char>, Option<Seq<char>>),
)
    ensures
        match apply_action(base, state, context_text, context, entry) {
            Ok(next) => {
                &&& can_be_applied(base, context, entry)
                &&& forall|warning: KeysWarningView| #[trigger]
                    next.warnings.contains(warning) <==> state.warnings.contains(warning) || warns(
                        base,
                        context_text,
                        context,
                        entry,
                        warning,
                    )
            },
            Err(error) => !can_be_applied(base, context, entry) && faults(
                base,
                context_text,
                context,
                entry,
                error,
            ),
        },
{
    let name = entry.0;
    law_an_entry_means_the_first_row_of_its_name(base, context, name);
    let result = apply_action(base, state, context_text, context, entry);
    match row_named(base, context, name) {
        None => {
            let warning = KeysWarningView::UnknownAction { context: context_text, action: name };
            lemma_pushed(state.warnings, warning);
            assert(forall|k: int| !#[trigger] first_named(base, context, name, k));
        },
        Some(row) => {
            let k = choose|k: int| #[trigger]
                first_named(base, context, name, k) && row == base[k];
            assert forall|j: int| #[trigger] first_named(base, context, name, j) implies j == k by {
                lemma_first_named_is_one(base, context, name, j, k);
            }
            assert(!none_named(base, context, name)) by {
                assert(base[k].context == context);
            }
            if !row.built {
                let warning = KeysWarningView::NotBuilt { context: context_text, action: name };
                lemma_pushed(state.warnings, warning);
            } else {
                assert(first_named(base, context, name, k) && base[k].built);
                if let Some(key) = entry.1 {
                    if let Some((code, modifiers)) = parse_chord_spec(key) {
                        assert(is_unbindable_spec(code, modifiers) <==> is_tab_enter_or_esc(
                            code,
                            modifiers,
                        ));
                    }
                }
            }
        },
    }
}

proof fn lemma_pushed(warnings: Seq<KeysWarningView>, warning: KeysWarningView)
    ensures
        forall|other: KeysWarningView| #[trigger]
            warnings.push(warning).contains(other) <==> warnings.contains(other) || other
                == warning,
{
    let after = warnings.push(warning);
    assert forall|other: KeysWarningView| #[trigger]
        after.contains(other) <==> warnings.contains(other) || other == warning by {
        if after.contains(other) {
            let k = choose|k: int| 0 <= k < after.len() && after[k] == other;
            if k < warnings.len() {
                assert(warnings[k] == other);
            }
        }
        if warnings.contains(other) {
            let k = choose|k: int| 0 <= k < warnings.len() && warnings[k] == other;
            assert(after[k] == other);
        }
        assert(after[warnings.len() as int] == warning);
    }
}

/// Some entry of a table warns so.
pub open spec fn table_warns(
    base: Seq<Binding>,
    context_text: Seq<char>,
    context: Context,
    entries: Seq<(Seq<char>, Option<Seq<char>>)>,
    warning: KeysWarningView,
) -> bool {
    exists|j: int|
        0 <= j < entries.len() && warns(
            base,
            context_text,
            context,
            #[trigger] entries[j],
            warning,
        )
}

/// Some entry of a table is at fault so.
pub open spec fn table_faults(
    base: Seq<Binding>,
    context_text: Seq<char>,
    context: Context,
    entries: Seq<(Seq<char>, Option<Seq<char>>)>,
    error: KeysErrorView,
) -> bool {
    exists|j: int|
        0 <= j < entries.len() && faults(
            base,
            context_text,
            context,
            #[trigger] entries[j],
            error,
        )
}

/// Every entry of a table can be applied.
pub open spec fn table_can_be_applied(
    base: Seq<Binding>,
    context: Context,
    entries: Seq<(Seq<char>, Option<Seq<char>>)>,
) -> bool {
    forall|j: int| 0 <= j < entries.len() ==> can_be_applied(base, context, #[trigger] entries[j])
}

proof fn lemma_one_table(
    base: Seq<Binding>,
    state: Merging,
    context_text: Seq<char>,
    context: Context,
    entries: Seq<(Seq<char>, Option<Seq<char>>)>,
)
    ensures
        match apply_actions(base, state, context_text, context, entries) {
            Ok(next) => {
                &&& table_can_be_applied(base, context, entries)
                &&& forall|warning: KeysWarningView| #[trigger]
                    next.warnings.contains(warning) <==> state.warnings.contains(warning)
                        || table_warns(base, context_text, context, entries, warning)
            },
            Err(error) => !table_can_be_applied(base, context, entries) && table_faults(
                base,
                context_text,
                context,
                entries,
                error,
            ),
        },
    decreases entries.len(),
{
    if entries.len() > 0 {
        let rest = entries.drop_last();
        let last = entries.last();
        assert(forall|j: int| 0 <= j < rest.len() ==> rest[j] == #[trigger] entries[j]);
        assert(entries[entries.len() - 1] == last);
        lemma_one_table(base, state, context_text, context, rest);
        match apply_actions(base, state, context_text, context, rest) {
            Ok(mid) => {
                lemma_one_entry(base, mid, context_text, context, last);
                match apply_action(base, mid, context_text, context, last) {
                    Ok(next) => {
                        assert forall|j: int| 0 <= j < entries.len() implies can_be_applied(
                            base,
                            context,
                            #[trigger] entries[j],
                        ) by {
                            if j < rest.len() {
                                assert(can_be_applied(base, context, rest[j]));
                            }
                        }
                        assert forall|warning: KeysWarningView| #[trigger]
                            next.warnings.contains(warning) <==> state.warnings.contains(warning)
                                || table_warns(base, context_text, context, entries, warning) by {
                            if table_warns(base, context_text, context, rest, warning) {
                                let j = choose|j: int|
                                    0 <= j < rest.len() && warns(
                                        base,
                                        context_text,
                                        context,
                                        #[trigger] rest[j],
                                        warning,
                                    );
                                assert(warns(base, context_text, context, entries[j], warning));
                            }
                            if table_warns(base, context_text, context, entries, warning) {
                                let j = choose|j: int|
                                    0 <= j < entries.len() && warns(
                                        base,
                                        context_text,
                                        context,
                                        #[trigger] entries[j],
                                        warning,
                                    );
                                if j < rest.len() {
                                    assert(warns(base, context_text, context, rest[j], warning));
                                }
                            }
                            assert(mid.warnings.contains(warning) <==> state.warnings.contains(
                                warning,
                            ) || table_warns(base, context_text, context, rest, warning));
                        }
                    },
                    Err(error) => {
                        assert(faults(
                            base,
                            context_text,
                            context,
                            entries[entries.len() - 1],
                            error,
                        ));
                    },
                }
            },
            Err(error) => {
                let j = choose|j: int|
                    0 <= j < rest.len() && faults(
                        base,
                        context_text,
                        context,
                        #[trigger] rest[j],
                        error,
                    );
                assert(faults(base, context_text, context, entries[j], error));
                let bad = choose|bad: int|
                    0 <= bad < rest.len() && !can_be_applied(base, context, #[trigger] rest[bad]);
                assert(!can_be_applied(base, context, entries[bad]));
            },
        }
    }
}

/// A block's own entry can be applied: where its name is a context's its value is a table, and
/// every entry of that can be applied.
pub open spec fn context_can_be_applied(
    base: Seq<Binding>,
    entry: (Seq<char>, Option<Seq<(Seq<char>, Option<Seq<char>>)>>),
) -> bool {
    forall|context: Context| #[trigger]
        context_name_text(context) == entry.0 ==> (entry.1 matches Some(entries)
            && table_can_be_applied(base, context, entries))
}

/// `error` says what is wrong with a block's own entry.
pub open spec fn context_faults(
    base: Seq<Binding>,
    entry: (Seq<char>, Option<Seq<(Seq<char>, Option<Seq<char>>)>>),
    error: KeysErrorView,
) -> bool {
    exists|context: Context| #[trigger]
        context_name_text(context) == entry.0 && match entry.1 {
            None => error == KeysErrorView::NotATable { context: entry.0 },
            Some(entries) => table_faults(base, entry.0, context, entries, error),
        }
}

/// `warning` says why a block's own entry, or one of its table's, did nothing.
pub open spec fn context_warns(
    base: Seq<Binding>,
    entry: (Seq<char>, Option<Seq<(Seq<char>, Option<Seq<char>>)>>),
    warning: KeysWarningView,
) -> bool {
    ||| warning == KeysWarningView::UnknownContext("keys."@ + entry.0) && forall|context: Context|
        #[trigger] context_name_text(context) != entry.0
    ||| exists|context: Context| #[trigger]
        context_name_text(context) == entry.0 && (entry.1 matches Some(entries) && table_warns(
            base,
            entry.0,
            context,
            entries,
            warning,
        ))
}

proof fn lemma_one_context(
    base: Seq<Binding>,
    state: Merging,
    entry: (Seq<char>, Option<Seq<(Seq<char>, Option<Seq<char>>)>>),
)
    ensures
        match apply_context(base, state, entry) {
            Ok(next) => {
                &&& context_can_be_applied(base, entry)
                &&& forall|warning: KeysWarningView| #[trigger]
                    next.warnings.contains(warning) <==> state.warnings.contains(warning)
                        || context_warns(base, entry, warning)
            },
            Err(error) => !context_can_be_applied(base, entry) && context_faults(
                base,
                entry,
                error,
            ),
        },
{
    if exists|context: Context| #[trigger] context_name_text(context) == entry.0 {
        let chosen = choose|context: Context| #[trigger] context_name_text(context) == entry.0;
        assert forall|context: Context| #[trigger]
            context_name_text(context) == entry.0 implies context == chosen by {
            law_context_names_are_distinct(context, chosen);
        }
        if let Some(entries) = entry.1 {
            lemma_one_table(base, state, entry.0, chosen, entries);
        }
        assert(context_name_text(chosen) == entry.0);
    } else {
        lemma_pushed(state.warnings, KeysWarningView::UnknownContext("keys."@ + entry.0));
    }
}

proof fn lemma_one_block(
    base: Seq<Binding>,
    block: Seq<(Seq<char>, Option<Seq<(Seq<char>, Option<Seq<char>>)>>)>,
)
    ensures
        match apply_block(base, block) {
            Ok(state) => {
                &&& forall|i: int|
                    0 <= i < block.len() ==> context_can_be_applied(base, #[trigger] block[i])
                &&& forall|warning: KeysWarningView| #[trigger]
                    state.warnings.contains(warning) <==> exists|i: int|
                        0 <= i < block.len() && context_warns(base, #[trigger] block[i], warning)
            },
            Err(error) => {
                &&& exists|i: int|
                    0 <= i < block.len() && !context_can_be_applied(base, #[trigger] block[i])
                &&& exists|i: int|
                    0 <= i < block.len() && context_faults(base, #[trigger] block[i], error)
            },
        },
    decreases block.len(),
{
    if block.len() > 0 {
        let rest = block.drop_last();
        let last = block.last();
        assert(forall|j: int| 0 <= j < rest.len() ==> rest[j] == #[trigger] block[j]);
        assert(block[block.len() - 1] == last);
        lemma_one_block(base, rest);
        match apply_block(base, rest) {
            Ok(mid) => {
                lemma_one_context(base, mid, last);
                match apply_context(base, mid, last) {
                    Ok(state) => {
                        assert forall|i: int| 0 <= i < block.len() implies context_can_be_applied(
                            base,
                            #[trigger] block[i],
                        ) by {
                            if i < rest.len() {
                                assert(context_can_be_applied(base, rest[i]));
                            }
                        }
                        assert forall|warning: KeysWarningView| #[trigger]
                            state.warnings.contains(warning) <==> exists|i: int|
                                0 <= i < block.len() && context_warns(
                                    base,
                                    #[trigger] block[i],
                                    warning,
                                ) by {
                            if mid.warnings.contains(warning) {
                                let i = choose|i: int|
                                    0 <= i < rest.len() && context_warns(
                                        base,
                                        #[trigger] rest[i],
                                        warning,
                                    );
                                assert(context_warns(base, block[i], warning));
                            }
                            if exists|i: int|
                                0 <= i < block.len() && context_warns(
                                    base,
                                    #[trigger] block[i],
                                    warning,
                                ) {
                                let i = choose|i: int|
                                    0 <= i < block.len() && context_warns(
                                        base,
                                        #[trigger] block[i],
                                        warning,
                                    );
                                if i < rest.len() {
                                    assert(context_warns(base, rest[i], warning));
                                    assert(mid.warnings.contains(warning));
                                }
                            }
                        }
                    },
                    Err(error) => {
                        assert(context_faults(base, block[block.len() - 1], error));
                        assert(!context_can_be_applied(base, block[block.len() - 1]));
                    },
                }
            },
            Err(error) => {
                let i = choose|i: int|
                    0 <= i < rest.len() && context_faults(base, #[trigger] rest[i], error);
                assert(context_faults(base, block[i], error));
                let bad = choose|bad: int|
                    0 <= bad < rest.len() && !context_can_be_applied(base, #[trigger] rest[bad]);
                assert(!context_can_be_applied(base, block[bad]));
            },
        }
    } else {
        assert(forall|warning: KeysWarningView|
            !Seq::<KeysWarningView>::empty().contains(warning));
    }
}

/// A merge succeeds whenever it should: every named context's value is a table, every entry that
/// names a built action gives a string that is empty or names a chord other than `ctrl-i`,
/// `ctrl-m` and `ctrl-[`, and no two rows left bind one key of one context to two actions. It
/// never succeeds otherwise.
pub proof fn law_a_merge_succeeds_exactly_where_it_should(
    base: Seq<Binding>,
    block: Seq<(Seq<char>, Option<Seq<(Seq<char>, Option<Seq<char>>)>>)>,
)
    ensures
        apply_block(base, block) is Ok <==> forall|i: int|
            0 <= i < block.len() ==> context_can_be_applied(base, #[trigger] block[i]),
        apply_block(base, block) matches Ok(left) ==> (merged(base, block) is Ok <==> forall|
            i: int,
            j: int,
        |
            #![trigger left.rows[i], left.rows[j]]
            0 <= i < left.rows.len() && 0 <= j < left.rows.len() && left.rows[i].context
                == left.rows[j].context && left.rows[i].code == left.rows[j].code
                && left.rows[i].modifiers == left.rows[j].modifiers ==> left.rows[i].action
                == left.rows[j].action),
        merged(base, block) is Ok ==> merged(base, block) == apply_block(base, block),
        apply_block(base, block) is Err ==> merged(base, block) == apply_block(base, block),
{
    lemma_one_block(base, block);
    if let Ok(left) = apply_block(base, block) {
        law_no_collision_means_one_action_per_key(left.rows);
        let rows = left.rows;
        assert forall|i: int, j: int|
            #![trigger rows[i], rows[j]]
            0 <= i < rows.len() && 0 <= j < rows.len() implies (place_of(rows[i]) == place_of(
            rows[j],
        ) <==> rows[i].context == rows[j].context && rows[i].code == rows[j].code
            && rows[i].modifiers == rows[j].modifiers) by {}
    }
}

/// A refused block is refused for an entry it holds: the error names the entry's own context and
/// action, and what it says is wrong with the value is; or it lists the collisions that are left.
pub proof fn law_a_refusal_names_the_entry_at_fault(
    base: Seq<Binding>,
    block: Seq<(Seq<char>, Option<Seq<(Seq<char>, Option<Seq<char>>)>>)>,
    error: KeysErrorView,
)
    requires
        merged(base, block) == Err::<Merging, KeysErrorView>(error),
    ensures
        error is Collisions || exists|i: int|
            0 <= i < block.len() && context_faults(base, #[trigger] block[i], error),
{
    lemma_one_block(base, block);
}

/// A merge warns of exactly the entries that do nothing: a name that is no context's, a name that
/// is no action's of its context, and the name of an action that is not built.
pub proof fn law_a_merge_warns_of_what_it_passes_over(
    base: Seq<Binding>,
    block: Seq<(Seq<char>, Option<Seq<(Seq<char>, Option<Seq<char>>)>>)>,
    warning: KeysWarningView,
)
    ensures
        merged(base, block) matches Ok(state) ==> (state.warnings.contains(warning) <==> exists|
            i: int,
        | 0 <= i < block.len() && context_warns(base, #[trigger] block[i], warning)),
{
    lemma_one_block(base, block);
}

proof fn lemma_collisions_found(rows: Seq<Binding>, listed: Seq<Place>)
    ensures
        forall|place: Place, actions: Seq<Action>| #[trigger]
            collisions_among(rows, listed).contains((place, actions)) <==> listed.contains(place)
                && actions == actions_at(rows, place) && actions.len() > 1,
    decreases listed.len(),
{
    let found = collisions_among(rows, listed);
    if listed.len() > 0 {
        let rest = listed.drop_last();
        let earlier = collisions_among(rows, rest);
        lemma_collisions_found(rows, rest);
        assert forall|place: Place, actions: Seq<Action>| #[trigger]
            found.contains((place, actions)) <==> listed.contains(place) && actions == actions_at(
                rows,
                place,
            ) && actions.len() > 1 by {
            assert(earlier.contains((place, actions)) <==> rest.contains(place) && actions
                == actions_at(rows, place) && actions.len() > 1);
            assert(listed.contains(place) <==> rest.contains(place) || place == listed.last()) by {
                if listed.contains(place) {
                    let k = choose|k: int| 0 <= k < listed.len() && listed[k] == place;
                    if k < rest.len() {
                        assert(rest[k] == place);
                    }
                }
                if rest.contains(place) {
                    let k = choose|k: int| 0 <= k < rest.len() && rest[k] == place;
                    assert(listed[k] == place);
                }
                assert(listed[listed.len() - 1] == listed.last());
            }
            if found.contains((place, actions)) {
                let k = choose|k: int| 0 <= k < found.len() && found[k] == (place, actions);
                if k < earlier.len() {
                    assert(earlier[k] == (place, actions));
                }
            }
            if earlier.contains((place, actions)) {
                let k = choose|k: int| 0 <= k < earlier.len() && earlier[k] == (place, actions);
                assert(found[k] == (place, actions));
            }
            if place == listed.last() && actions == actions_at(rows, place) && actions.len() > 1 {
                assert(found.last() == (place, actions));
            }
        }
    } else {
        assert(forall|place: Place, actions: Seq<Action>| !found.contains((place, actions)));
    }
}

/// A collision is listed for exactly the keys that two rows of one context bind to different
/// actions, with every action bound there, each once.
pub proof fn law_a_collision_lists_what_is_bound_at_its_key(
    rows: Seq<Binding>,
    place: Place,
    actions: Seq<Action>,
)
    ensures
        collisions(rows).contains((place, actions)) ==> {
            &&& actions.no_duplicates()
            &&& actions.len() > 1
            &&& forall|action: Action| #[trigger]
                actions.contains(action) <==> exists|i: int|
                    0 <= i < rows.len() && (#[trigger] rows[i]).context == place.context
                        && rows[i].code == place.code && rows[i].modifiers == place.modifiers
                        && rows[i].action == action
        },
        (exists|i: int, j: int|
            #![trigger rows[i], rows[j]]
            0 <= i < rows.len() && 0 <= j < rows.len() && rows[i].context == place.context
                && rows[j].context == place.context && rows[i].code == place.code && rows[j].code
                == place.code && rows[i].modifiers == place.modifiers && rows[j].modifiers
                == place.modifiers && rows[i].action != rows[j].action) ==> collisions(
            rows,
        ).contains((place, actions_at(rows, place))),
{
    let held = actions_at(rows, place);
    lemma_places(rows);
    lemma_actions_at(rows, place);
    lemma_collisions_found(rows, places(rows));
    if collisions(rows).contains((place, actions)) {
        assert forall|action: Action| #[trigger]
            actions.contains(action) <==> exists|i: int|
                0 <= i < rows.len() && (#[trigger] rows[i]).context == place.context && rows[i].code
                    == place.code && rows[i].modifiers == place.modifiers && rows[i].action
                    == action by {
            if held.contains(action) {
                let i = choose|i: int|
                    0 <= i < rows.len() && place_of(#[trigger] rows[i]) == place && rows[i].action
                        == action;
                assert(rows[i].context == place.context);
            }
            if exists|i: int|
                0 <= i < rows.len() && (#[trigger] rows[i]).context == place.context && rows[i].code
                    == place.code && rows[i].modifiers == place.modifiers && rows[i].action
                    == action {
                let i = choose|i: int|
                    0 <= i < rows.len() && (#[trigger] rows[i]).context == place.context
                        && rows[i].code == place.code && rows[i].modifiers == place.modifiers
                        && rows[i].action == action;
                assert(place_of(rows[i]) == place);
            }
        }
    }
    if exists|i: int, j: int|
        #![trigger rows[i], rows[j]]
        0 <= i < rows.len() && 0 <= j < rows.len() && rows[i].context == place.context
            && rows[j].context == place.context && rows[i].code == place.code && rows[j].code
            == place.code && rows[i].modifiers == place.modifiers && rows[j].modifiers
            == place.modifiers && rows[i].action != rows[j].action {
        let (i, j) = choose|i: int, j: int|
            #![trigger rows[i], rows[j]]
            0 <= i < rows.len() && 0 <= j < rows.len() && rows[i].context == place.context
                && rows[j].context == place.context && rows[i].code == place.code && rows[j].code
                == place.code && rows[i].modifiers == place.modifiers && rows[j].modifiers
                == place.modifiers && rows[i].action != rows[j].action;
        assert(place_of(rows[i]) == place && place_of(rows[j]) == place);
        assert(held.contains(rows[i].action));
        assert(held.contains(rows[j].action));
        assert(held.len() > 1) by {
            let a = choose|a: int| 0 <= a < held.len() && held[a] == rows[i].action;
            let b = choose|b: int| 0 <= b < held.len() && held[b] == rows[j].action;
            assert(a != b);
        }
        assert(places(rows).contains(place));
    }
}

/// What each warning says: which key of the configuration it passes over, and why.
pub proof fn law_the_words_for_each_warning(context: Seq<char>, action: Seq<char>)
    ensures
        KeysWarningView::UnknownContext(context).text() == "unknown config key `"@ + context
            + "`: no such keybinding context"@,
        (KeysWarningView::UnknownAction { context, action }).text() == "unknown config key `"@ + (
        "keys."@ + context + "."@ + action) + "`: no such action in that context"@,
        (KeysWarningView::NotBuilt { context, action }).text() == "config key `"@ + ("keys."@
            + context + "."@ + action) + "` names an action that is not built yet"@,
{
}

/// What each error says: which key of the configuration is at fault, and why.
pub proof fn law_the_words_for_each_error(
    context: Seq<char>,
    action: Seq<char>,
    key: Seq<char>,
)
    ensures
        (KeysErrorView::NotATable { context }).text() == "keys."@ + context
            + " must be a table of action = \"key\" pairs"@,
        (KeysErrorView::NotAString { context, action }).text() == ("keys."@ + context + "."@
            + action) + " must be a string"@,
        (KeysErrorView::UnparseableKey { context, action, key }).text() == ("keys."@ + context
            + "."@ + action) + " names an unparseable key `"@ + key + "`"@,
        (KeysErrorView::UnbindableKey { context, action, key }).text() == ("keys."@ + context
            + "."@ + action) + " names a permanently unbindable key `"@ + key + "`"@,
{
}

/// A collision names its key, its context and every action bound there: each by its own name
/// between backticks, the last behind `and` and the others between commas.
pub proof fn law_a_collision_is_told_in_one_sentence(
    place: Place,
    actions: Seq<Action>,
    first: Action,
    last: Action,
)
    ensures
        KeysErrorView::Collisions(seq![(place, actions)]).text() == "key `"@ + chord_text(
            place.code,
            place.modifiers,
        ) + "` in "@ + context_label_text(place.context) + " is bound to "@ + name_list(actions),
        action_name_text(first) matches Some(name) ==> name_list(seq![first]) == "`"@ + name
            + "`"@,
        action_name_text(first) is None ==> name_list(seq![first]) == "`"@
            + "<unnamed action>"@ + "`"@,
        name_list(seq![first, last]) == name_list(seq![first]) + " and "@ + name_list(seq![last]),
        actions.len() > 0 ==> name_list(actions.push(last)) == joined(
            actions.map_values(|action: Action| name_list(seq![action])),
            ", "@,
        ) + " and "@ + name_list(seq![last]),
{
    let one = seq![(place, actions)];
    let sentences = one.map_values(
        |collision: (Place, Seq<Action>)| collision_sentence(collision),
    );
    assert(sentences =~= seq![collision_sentence((place, actions))]);
    assert(joined(sentences, "; "@) == collision_sentence((place, actions)));
    let pair = seq![first, last];
    assert(pair.drop_last() =~= seq![first]);
    let names = pair.drop_last().map_values(|action: Action| quoted_name(action));
    assert(names =~= seq![quoted_name(first)]);
    assert(joined(names, ", "@) == quoted_name(first));
    if actions.len() > 0 {
        let more = actions.push(last);
        assert(more.drop_last() =~= actions);
        assert(actions.map_values(|action: Action| quoted_name(action)) =~= actions.map_values(
            |action: Action| name_list(seq![action]),
        ));
    }
}

/// Collisions are told one behind the other.
pub proof fn law_collisions_are_told_one_behind_the_other(
    found: Seq<(Place, Seq<Action>)>,
    collision: (Place, Seq<Action>),
)
    requires
        found.len() > 0,
    ensures
        KeysErrorView::Collisions(found.push(collision)).text() == KeysErrorView::Collisions(
            found,
        ).text() + "; "@ + KeysErrorView::Collisions(seq![collision]).text(),
{
    let sentence = |collision: (Place, Seq<Action>)| collision_sentence(collision);
    assert(found.push(collision).map_values(sentence).drop_last() =~= found.map_values(sentence));
    assert(found.push(collision).map_values(sentence).last() == collision_sentence(collision));
    assert(seq![collision].map_values(sentence) =~= seq![collision_sentence(collision)]);
    assert(joined(seq![collision_sentence(collision)], "; "@) == collision_sentence(collision));
}

} // verus!
