//! The Filter line: the edit buffer a Filter is typed into, the completion list built from the
//! term under the cursor, and how both are painted.

use vstd::prelude::*;
use vstd::utf8::encode_utf8;

use crate::edit_buffer::{
    landing, lemma_landing_in_range, term_start_in, word_start_in, EditBuffer, Motion,
};
use crate::footer::{lemma_runs_text_concat, runs_text};
use crate::list_viewport::{followed, law_the_window_holds_the_cursor, offset_following_cursor};
use crate::paint::{
    at_least, at_most, block_inner, interior, less, one_run, painted_view, plain, push_plain, Painted, PaintedView,
    Rect, Role,
};
use crate::launcher_palette::{clamped, placed_view, row_below, PlacedText};
use crate::text::{
    after_last, boundary, byte_index, byte_len, eq_ignore_ascii_case, find_after_last, find_char,
    index_of, is_whitespace_spec, law_a_character_is_found_where_it_first_stands,
    law_the_rest_starts_behind_the_last, lemma_boundary_ends, lemma_boundary_in_part,
    lemma_boundary_range, lemma_boundary_seam, lemma_part_bytes, lemma_part_of_part,
    lemma_slices_join, lemma_suffix_len, lemma_whole_slice, same, same_ignoring_case, slice,
    slice_of, suffix_len, Run,
};

verus! {

broadcast use {vstd::string::group_string_axioms, vstd::seq_lib::group_seq_properties};

/// The prompt and the space after it: the caret's own column while nothing is typed.
pub const PROMPT_WIDTH: u16 = 2;

/// The completion list's own cap, whatever the terminal's height.
pub const COMPLETION_MAX_ROWS: usize = 8;

/// What the line shows while nothing is typed.
pub const QUERY_PLACEHOLDER: &'static str = "/ filter repos";

/// What stands ahead of the typed text.
pub const PROMPT: &'static str = "/ ";

/// One key of the Filter language, and the values it takes; free text where it lists none.
#[derive(Debug, Clone, PartialEq, Eq)]
pub struct VocabularyEntry {
    pub key: String,
    pub values: Vec<String>,
}

impl View for VocabularyEntry {
    type V = (Seq<char>, Seq<Seq<char>>);

    open spec fn view(&self) -> (Seq<char>, Seq<Seq<char>>) {
        (self.key@, self.values.deep_view())
    }
}

/// The vocabulary as plain text.
pub open spec fn vocabulary_view(vocabulary: Seq<VocabularyEntry>) -> Seq<
    (Seq<char>, Seq<Seq<char>>),
> {
    vocabulary.map_values(|entry: VocabularyEntry| entry@)
}

/// What the term under the cursor offers: nothing, every key, or one recognised key's own
/// values, each already formatted for insertion.
#[derive(Debug, Clone, PartialEq, Eq)]
pub enum Trigger {
    Nothing,
    Keys(Vec<String>),
    Values(Vec<String>),
}

/// A [`Trigger`] as plain text.
pub enum TriggerView {
    Nothing,
    Keys(Seq<Seq<char>>),
    Values(Seq<Seq<char>>),
}

impl View for Trigger {
    type V = TriggerView;

    open spec fn view(&self) -> TriggerView {
        match *self {
            Trigger::Nothing => TriggerView::Nothing,
            Trigger::Keys(keys) => TriggerView::Keys(keys.deep_view()),
            Trigger::Values(values) => TriggerView::Values(values.deep_view()),
        }
    }
}

impl TriggerView {
    /// What it offers.
    pub open spec fn candidates(self) -> Seq<Seq<char>> {
        match self {
            TriggerView::Nothing => Seq::empty(),
            TriggerView::Keys(keys) => keys,
            TriggerView::Values(values) => values,
        }
    }
}

impl Trigger {
    /// What it offers.
    pub fn candidates(self) -> (candidates: Vec<String>)
        ensures
            candidates.deep_view() == self@.candidates(),
    {
        match self {
            Trigger::Nothing => {
                let none: Vec<String> = Vec::new();
                proof {
                    assert(none.deep_view() =~= Seq::<Seq<char>>::empty());
                }
                none
            },
            Trigger::Keys(keys) => keys,
            Trigger::Values(values) => values,
        }
    }
}

/// Every key with its colon.
pub open spec fn key_candidates(vocabulary: Seq<(Seq<char>, Seq<Seq<char>>)>) -> Seq<Seq<char>> {
    vocabulary.map_values(|entry: (Seq<char>, Seq<Seq<char>>)| entry.0 + ":"@)
}

/// The first entry whose key is `key`, whatever the case of its letters.
pub open spec fn entry_named(
    vocabulary: Seq<(Seq<char>, Seq<Seq<char>>)>,
    key: Seq<char>,
) -> Option<(Seq<char>, Seq<Seq<char>>)>
    decreases vocabulary.len(),
{
    if vocabulary.len() == 0 {
        None
    } else if same_ignoring_case(vocabulary[0].0, key) {
        Some(vocabulary[0])
    } else {
        entry_named(vocabulary.drop_first(), key)
    }
}

/// How many characters of `before` stand ahead of the term's body: its start, and the `-` that
/// negates it where it has one.
pub open spec fn body_start_in(before: Seq<char>) -> int {
    let start = term_start_in(before);
    if start < before.len() && before[start] == '-' {
        start + 1
    } else {
        start
    }
}

/// What the term that ends `before` offers, and how many characters of `before` stand ahead of
/// what accepting a candidate overwrites. An empty body or a bare `:` offers every key; a known
/// key up to or past its `:` offers that key's values, over what follows the last comma;
/// anything else offers nothing.
pub open spec fn trigger_in(
    before: Seq<char>,
    vocabulary: Seq<(Seq<char>, Seq<Seq<char>>)>,
) -> (TriggerView, int) {
    let start = body_start_in(before);
    let body = before.skip(start);
    let colon = index_of(body, ':');
    if body.len() == 0 || body == ":"@ {
        (TriggerView::Keys(key_candidates(vocabulary)), start)
    } else if colon == body.len() {
        (TriggerView::Nothing, start)
    } else {
        match entry_named(vocabulary, body.take(colon)) {
            Some(entry) => (
                TriggerView::Values(entry.1),
                start + colon + 1 + after_last(body.skip(colon + 1), ','),
            ),
            None => (TriggerView::Nothing, start),
        }
    }
}

/// Byte ranges of `text` from `from` on, in order, apart, and each on character boundaries.
pub open spec fn in_order(text: Seq<char>, ranges: Seq<(usize, usize)>, from: int) -> bool
    decreases ranges.len(),
{
    ranges.len() > 0 ==> {
        let (start, end) = ranges[0];
        &&& from <= start <= end
        &&& boundary(text, start as int)
        &&& boundary(text, end as int)
        &&& in_order(text, ranges.drop_first(), end as int)
    }
}

/// `text` from `from` on, cut at the ends of `ranges`, each piece with whether it lies in one.
pub open spec fn segments(text: Seq<char>, ranges: Seq<(usize, usize)>, from: int) -> Seq<
    (Seq<char>, bool),
>
    decreases ranges.len(),
{
    let len = encode_utf8(text).len() as int;
    if ranges.len() == 0 {
        if from < len {
            seq![(slice_of(text, from, len), false)]
        } else {
            Seq::empty()
        }
    } else {
        let (start, end) = ranges[0];
        let ahead = if start > from {
            seq![(slice_of(text, from, start as int), false)]
        } else {
            Seq::empty()
        };
        ahead + seq![(slice_of(text, start as int, end as int), true)] + segments(
            text,
            ranges.drop_first(),
            end as int,
        )
    }
}

/// Pieces of text as plain values.
pub open spec fn segments_view(pieces: Seq<(&str, bool)>) -> Seq<(Seq<char>, bool)> {
    pieces.map_values(|piece: (&str, bool)| (piece.0@, piece.1))
}

/// Splits `text` at `warn_ranges`' own boundaries, pairing each piece with whether it falls
/// inside one of them.
pub fn warn_split<'a>(text: &'a str, warn_ranges: &Vec<(usize, usize)>) -> (pieces: Vec<
    (&'a str, bool),
>)
    requires
        in_order(text@, warn_ranges@, 0),
    ensures
        segments_view(pieces@) == segments(text@, warn_ranges@, 0),
{
    let len: usize = byte_len(text);
    let mut pieces: Vec<(&'a str, bool)> = Vec::new();
    let mut from: usize = 0;
    let mut i: usize = 0;
    proof {
        assert(warn_ranges@.skip(0) =~= warn_ranges@);
        assert(segments_view(pieces@) =~= Seq::<(Seq<char>, bool)>::empty());
        lemma_boundary_ends(text@);
    }
    while i < warn_ranges.len()
        invariant
            i <= warn_ranges.len(),
            len == encode_utf8(text@).len(),
            boundary(text@, from as int),
            boundary(text@, len as int),
            in_order(text@, warn_ranges@.skip(i as int), from as int),
            segments(text@, warn_ranges@, 0) == segments_view(pieces@) + segments(
                text@,
                warn_ranges@.skip(i as int),
                from as int,
            ),
        decreases warn_ranges.len() - i,
    {
        let (start, end) = warn_ranges[i];
        let ghost before = pieces@;
        let ghost rest = warn_ranges@.skip(i as int);
        proof {
            assert(rest[0] == (start, end));
            assert(rest.drop_first() =~= warn_ranges@.skip(i + 1));
        }
        if start > from {
            pieces.push((slice(text, from, start), false));
        }
        pieces.push((slice(text, start, end), true));
        proof {
            let ahead = if start > from {
                seq![(slice_of(text@, from as int, start as int), false)]
            } else {
                Seq::empty()
            };
            assert(segments_view(pieces@) =~= segments_view(before) + ahead + seq![
                (slice_of(text@, start as int, end as int), true),
            ]);
            let behind = segments(text@, rest.drop_first(), end as int);
            assert(segments_view(before) + (ahead + seq![
                (slice_of(text@, start as int, end as int), true),
            ] + behind) =~= segments_view(pieces@) + behind);
        }
        from = end;
        i = i + 1;
    }
    let ghost before = pieces@;
    proof {
        lemma_boundary_range(text@, from as int);
    }
    if from < len {
        pieces.push((slice(text, from, len), false));
    }
    proof {
        assert(warn_ranges@.skip(i as int) =~= Seq::empty());
        let behind = segments(text@, warn_ranges@.skip(i as int), from as int);
        assert(segments_view(pieces@) =~= segments_view(before) + behind);
    }
    pieces
}

/// The cursor stands inside a piece that starts at `offset`: ahead of one of its characters.
pub open spec fn cursor_inside(piece: Seq<char>, cursor: int, offset: int) -> bool {
    offset <= cursor < offset + encode_utf8(piece).len()
}

/// `segment`, which starts at byte `offset` of the whole typed text, split where `cursor` falls
/// inside it; a cursor outside the segment leaves the whole of it in the head.
pub fn split_at_cursor<'a>(segment: &'a str, cursor: usize, offset: usize) -> (parts: (
    &'a str,
    &'a str,
))
    requires
        cursor_inside(segment@, cursor as int, offset as int) ==> boundary(
            segment@,
            cursor - offset,
        ),
    ensures
        cursor_inside(segment@, cursor as int, offset as int) ==> parts.0@ == slice_of(
            segment@,
            0,
            cursor - offset,
        ) && parts.1@ == slice_of(
            segment@,
            cursor - offset,
            encode_utf8(segment@).len() as int,
        ),
        !cursor_inside(segment@, cursor as int, offset as int) ==> parts.0@ == segment@
            && parts.1@ == Seq::<char>::empty(),
{
    let len: usize = byte_len(segment);
    if offset <= cursor && cursor - offset < len {
        let at: usize = cursor - offset;
        proof {
            lemma_boundary_ends(segment@);
        }
        (slice(segment, 0, at), slice(segment, at, len))
    } else {
        proof {
            reveal_strlit("");
        }
        (segment, "")
    }
}

/// The role a piece is painted in.
pub open spec fn piece_role(warn: bool) -> Role {
    if warn {
        Role::Warn
    } else {
        Role::Text
    }
}

/// The runs pieces paint, from byte `offset` on: each in its own role, the one the cursor stands
/// in cut in two there.
pub open spec fn piece_runs(pieces: Seq<(Seq<char>, bool)>, cursor: int, offset: int) -> Seq<
    PaintedView,
>
    decreases pieces.len(),
{
    if pieces.len() == 0 {
        Seq::empty()
    } else {
        let (text, warn) = pieces[0];
        let len = encode_utf8(text).len() as int;
        let own = if cursor_inside(text, cursor, offset) {
            seq![
                plain(slice_of(text, 0, cursor - offset), piece_role(warn)),
                plain(slice_of(text, cursor - offset, len), piece_role(warn)),
            ]
        } else {
            seq![plain(text, piece_role(warn))]
        };
        own + piece_runs(pieces.drop_first(), cursor, offset + len)
    }
}

/// How many of those runs stand ahead of the cursor.
pub open spec fn runs_ahead(pieces: Seq<(Seq<char>, bool)>, cursor: int, offset: int) -> nat
    decreases pieces.len(),
{
    if pieces.len() == 0 {
        0
    } else if cursor_inside(pieces[0].0, cursor, offset) {
        1
    } else {
        1 + runs_ahead(
            pieces.drop_first(),
            cursor,
            offset + encode_utf8(pieces[0].0).len() as int,
        )
    }
}

/// Where the caret goes: a column of its own, or right behind the first runs painted.
#[derive(Debug, Clone, Copy, PartialEq, Eq, Structural)]
pub enum Caret {
    /// So many columns from the left edge.
    Column(u16),
    /// Where painting the prompt and so many runs behind it ends.
    BehindRuns(usize),
}

/// What the line paints: its runs from the left edge up to the advisory column, what goes into
/// that column, and where the caret goes, never past it.
#[derive(Debug, Clone, PartialEq, Eq)]
pub struct LinePlan {
    pub advisory_x: u16,
    pub runs: Vec<Painted>,
    pub advisory: Painted,
    pub caret: Caret,
}

impl LinePlan {
    /// How many columns a run that starts at column `x` may take: those ahead of the advisory
    /// column.
    pub fn room(&self, x: u16) -> (columns: u16)
        ensures
            columns == less(self.advisory_x as int, x as int),
    {
        self.advisory_x.saturating_sub(x)
    }
}

/// The column of the caret in `area`, `ends` holding the column where painting each run ended:
/// the one the plan names, or the one where painting the runs ahead of the caret ended. It stands
/// on the advisory column where they would take it further, or where the room ran out before all
/// of them were painted.
pub open spec fn caret_column(caret: Caret, area: Rect, ends: Seq<u16>) -> int {
    let advisory = area.x + area.width - 1;
    match caret {
        Caret::Column(column) => at_most(area.x + column, advisory),
        Caret::BehindRuns(count) => if count < ends.len() {
            at_most(at_least(ends[count as int] as int, area.x as int), advisory)
        } else {
            advisory
        },
    }
}

/// The column the caret stands in, inside `area` and never past its advisory column, however long
/// the typed text. `ends` holds the column where painting each run of the plan ended.
pub fn caret_x(plan: &LinePlan, area: Rect, ends: &Vec<u16>) -> (x: u16)
    requires
        area.width > 0,
        plan.advisory_x == area.x + area.width - 1,
    ensures
        x == caret_column(plan.caret, area, ends@),
        area.x <= x <= plan.advisory_x,
{
    let reached: u16 = match plan.caret {
        Caret::Column(column) => if column < area.width {
            area.x + column
        } else {
            plan.advisory_x
        },
        Caret::BehindRuns(count) => if count < ends.len() {
            ends[count]
        } else {
            plan.advisory_x
        },
    };
    if reached < area.x {
        area.x
    } else if reached < plan.advisory_x {
        reached
    } else {
        plan.advisory_x
    }
}

/// The Filter line's own edit buffer, and the row its completion list highlights.
#[derive(Debug, Clone, PartialEq, Eq)]
pub struct FilterLine {
    input: EditBuffer,
    highlight: usize,
    completion_offset: usize,
}

fn all_keys(vocabulary: &Vec<VocabularyEntry>) -> (keys: Vec<String>)
    ensures
        keys.deep_view() == key_candidates(vocabulary_view(vocabulary@)),
{
    let mut keys: Vec<String> = Vec::new();
    let mut i: usize = 0;
    while i < vocabulary.len()
        invariant
            i <= vocabulary.len(),
            keys@.len() == i,
            forall|k: int| 0 <= k < i ==> (#[trigger] keys@[k])@ == vocabulary@[k].key@ + ":"@,
        decreases vocabulary.len() - i,
    {
        keys.push(vocabulary[i].key.clone().concat(":"));
        i = i + 1;
    }
    proof {
        assert(keys.deep_view() =~= key_candidates(vocabulary_view(vocabulary@)));
    }
    keys
}

fn copy_values(values: &Vec<String>) -> (copy: Vec<String>)
    ensures
        copy.deep_view() == values.deep_view(),
{
    let mut copy: Vec<String> = Vec::new();
    let mut i: usize = 0;
    while i < values.len()
        invariant
            i <= values.len(),
            copy@.len() == i,
            forall|k: int| 0 <= k < i ==> (#[trigger] copy@[k])@ == values@[k]@,
        decreases values.len() - i,
    {
        copy.push(values[i].clone());
        i = i + 1;
    }
    proof {
        assert(copy.deep_view() =~= values.deep_view());
    }
    copy
}

fn values_of(vocabulary: &Vec<VocabularyEntry>, key: &str) -> (values: Option<Vec<String>>)
    ensures
        match entry_named(vocabulary_view(vocabulary@), key@) {
            Some(entry) => values is Some && values->0.deep_view() == entry.1,
            None => values is None,
        },
{
    let ghost all = vocabulary_view(vocabulary@);
    let mut i: usize = 0;
    proof {
        assert(all.skip(0) =~= all);
    }
    while i < vocabulary.len()
        invariant
            i <= vocabulary.len(),
            all == vocabulary_view(vocabulary@),
            entry_named(all, key@) == entry_named(all.skip(i as int), key@),
        decreases vocabulary.len() - i,
    {
        proof {
            assert(all.skip(i as int)[0] == vocabulary@[i as int]@);
            assert(all.skip(i as int).drop_first() =~= all.skip(i + 1));
        }
        if eq_ignore_ascii_case(vocabulary[i].key.as_str(), key) {
            return Some(copy_values(&vocabulary[i].values));
        }
        i = i + 1;
    }
    None
}

/// What a term trigger offers and overwrites stays inside the text before the cursor.
pub proof fn lemma_trigger_in_range(
    before: Seq<char>,
    vocabulary: Seq<(Seq<char>, Seq<Seq<char>>)>,
)
    ensures
        0 <= body_start_in(before) <= before.len(),
        body_start_in(before) <= trigger_in(before, vocabulary).1 <= before.len(),
{
    lemma_landing_in_range(before, Seq::empty(), Motion::Left);
    let body = before.skip(body_start_in(before));
    lemma_index_of_in_range(body, ':');
    let colon = index_of(body, ':');
    if colon < body.len() {
        lemma_after_last_in_range(body.skip(colon + 1), ',');
    }
}

proof fn lemma_index_of_in_range(s: Seq<char>, c: char)
    ensures
        0 <= index_of(s, c) <= s.len(),
        index_of(s, c) < s.len() ==> s[index_of(s, c)] == c,
    decreases s.len(),
{
    if s.len() > 0 && s[0] != c {
        lemma_index_of_in_range(s.drop_first(), c);
    }
}

proof fn lemma_after_last_in_range(s: Seq<char>, c: char)
    ensures
        0 <= after_last(s, c) <= s.len(),
    decreases s.len(),
{
    if s.len() > 0 && s.last() != c {
        lemma_after_last_in_range(s.drop_last(), c);
    }
}

impl FilterLine {
    pub closed spec fn wf(&self) -> bool {
        self.input.wf()
    }

    pub closed spec fn before(&self) -> Seq<char> {
        self.input.before()
    }

    pub closed spec fn after(&self) -> Seq<char> {
        self.input.after()
    }

    pub closed spec fn highlight_spec(&self) -> nat {
        self.highlight as nat
    }

    pub closed spec fn offset_spec(&self) -> nat {
        self.completion_offset as nat
    }

    /// The typed text.
    pub open spec fn typed(&self) -> Seq<char> {
        self.before() + self.after()
    }

    /// The completion list stands at its top.
    pub open spec fn completion_reset(&self) -> bool {
        self.highlight_spec() == 0 && self.offset_spec() == 0
    }

    /// What the term under the cursor offers.
    pub open spec fn offered(&self, vocabulary: Seq<(Seq<char>, Seq<Seq<char>>)>) -> Seq<
        Seq<char>,
    > {
        trigger_in(self.before(), vocabulary).0.candidates()
    }

    /// Opens prefilled with the committed Filter's own text and the cursor at the end.
    pub fn new(committed: &str) -> (line: Self)
        ensures
            line.wf(),
            line.before() == committed@,
            line.after() == Seq::<char>::empty(),
            line.completion_reset(),
    {
        FilterLine {
            input: EditBuffer::from_text(committed.to_owned()),
            highlight: 0,
            completion_offset: 0,
        }
    }

    /// Any printable character: inserted at the cursor.
    pub fn type_char(&mut self, c: char)
        requires
            old(self).wf(),
        ensures
            final(self).wf(),
            final(self).before() == old(self).before().push(c),
            final(self).after() == old(self).after(),
            final(self).completion_reset(),
    {
        self.input.insert_char(c);
        self.reset_completion();
    }

    /// `Backspace`: deletes the character immediately before the cursor.
    pub fn delete_previous_char(&mut self)
        requires
            old(self).wf(),
        ensures
            final(self).wf(),
            old(self).before().len() == 0 ==> final(self).before() == old(self).before(),
            old(self).before().len() > 0 ==> final(self).before() == old(
                self,
            ).before().drop_last(),
            final(self).after() == old(self).after(),
            final(self).completion_reset(),
    {
        self.input.delete_previous_char();
        self.reset_completion();
    }

    /// `Ctrl+W`: deletes one whitespace-delimited word ending at the cursor.
    pub fn delete_previous_word(&mut self)
        requires
            old(self).wf(),
        ensures
            final(self).wf(),
            final(self).before() == old(self).before().take(word_start_in(old(self).before())),
            final(self).after() == old(self).after(),
            final(self).completion_reset(),
    {
        self.input.delete_previous_word();
        self.reset_completion();
    }

    /// `Ctrl+U`: clears the line.
    pub fn clear_line(&mut self)
        ensures
            final(self).wf(),
            final(self).before() == Seq::<char>::empty(),
            final(self).after() == Seq::<char>::empty(),
            final(self).completion_reset(),
    {
        self.input.clear();
        self.reset_completion();
    }

    /// Moves the caret, and resets the completion for whatever term the caret now sits in.
    pub fn move_cursor(&mut self, motion: Motion)
        requires
            old(self).wf(),
        ensures
            final(self).wf(),
            final(self).typed() == old(self).typed(),
            final(self).before().len() == landing(old(self).before(), old(self).after(), motion),
            final(self).completion_reset(),
    {
        self.input.move_cursor(motion);
        self.reset_completion();
    }

    fn reset_completion(&mut self)
        ensures
            final(self).wf() == old(self).wf(),
            final(self).before() == old(self).before(),
            final(self).after() == old(self).after(),
            final(self).completion_reset(),
    {
        self.highlight = 0;
        self.completion_offset = 0;
    }

    /// The live text, what the live Filter is parsed from.
    pub fn live_text(&self) -> (text: &str)
        requires
            self.wf(),
        ensures
            text@ == self.typed(),
    {
        self.input.as_str()
    }

    /// The text the caret follows.
    pub fn before_caret(&self) -> (text: &str)
        requires
            self.wf(),
        ensures
            text@ == self.before(),
    {
        self.input.before_cursor()
    }

    /// The current term's own [`Trigger`], and how many characters stand ahead of what accepting
    /// a candidate overwrites.
    fn trigger_place(&self, vocabulary: &Vec<VocabularyEntry>) -> (found: (Trigger, usize))
        requires
            self.wf(),
        ensures
            found.0@ == trigger_in(self.before(), vocabulary_view(vocabulary@)).0,
            found.1 == trigger_in(self.before(), vocabulary_view(vocabulary@)).1,
            found.1 <= self.before().len(),
    {
        proof {
            lemma_trigger_in_range(self.before(), vocabulary_view(vocabulary@));
            lemma_landing_in_range(self.before(), Seq::empty(), Motion::Left);
        }
        let before = self.input.before_cursor();
        let count: usize = before.unicode_len();
        let term = self.input.term_under_cursor();
        let start: usize = count - term.unicode_len();
        let body_start: usize = if start < count && before.get_char(start) == '-' {
            start + 1
        } else {
            start
        };
        let body = before.substring_char(body_start, count);
        proof {
            assert(body@ =~= before@.skip(body_start_in(before@)));
        }
        if body.is_empty() || same(body, ":") {
            return (Trigger::Keys(all_keys(vocabulary)), body_start);
        }
        let len: usize = body.unicode_len();
        let colon: usize = find_char(body, ':');
        if colon == len {
            return (Trigger::Nothing, body_start);
        }
        let key = body.substring_char(0, colon);
        proof {
            assert(key@ =~= body@.take(colon as int));
        }
        match values_of(vocabulary, key) {
            Some(values) => {
                let value_text = body.substring_char(colon + 1, len);
                proof {
                    assert(value_text@ =~= body@.skip(colon + 1));
                }
                let fragment: usize = colon + 1 + find_after_last(value_text, ',');
                (Trigger::Values(values), body_start + fragment)
            },
            None => (Trigger::Nothing, body_start),
        }
    }

    /// The current term's own [`Trigger`], and the byte index from which accepting a candidate
    /// overwrites the text: right after a leading `-` for a key completion, or right after the
    /// value's own last comma (or the `:` if there is no comma yet) for a value completion.
    pub fn trigger(&self, vocabulary: &Vec<VocabularyEntry>) -> (found: (Trigger, usize))
        requires
            self.wf(),
        ensures
            found.0@ == trigger_in(self.before(), vocabulary_view(vocabulary@)).0,
            found.1 == encode_utf8(
                self.before().take(trigger_in(self.before(), vocabulary_view(vocabulary@)).1),
            ).len(),
    {
        let (trigger, ahead) = self.trigger_place(vocabulary);
        (trigger, byte_index(self.input.before_cursor(), ahead))
    }

    /// The completion list's current candidates, formatted for display and for insertion.
    pub fn completions(&self, vocabulary: &Vec<VocabularyEntry>) -> (candidates: Vec<String>)
        requires
            self.wf(),
        ensures
            candidates.deep_view() == self.offered(vocabulary_view(vocabulary@)),
    {
        self.trigger(vocabulary).0.candidates()
    }

    /// The row the completion list highlights.
    pub fn highlighted_row(&self) -> (row: usize)
        ensures
            row == self.highlight_spec(),
    {
        self.highlight
    }

    /// Moves the highlight by `delta`, clamped at both ends rather than wrapping, the window
    /// following it.
    pub fn move_completion_highlight(&mut self, delta: isize, vocabulary: &Vec<VocabularyEntry>)
        requires
            old(self).wf(),
        ensures
            final(self).wf(),
            final(self).before() == old(self).before(),
            final(self).after() == old(self).after(),
            ({
                let count = old(self).offered(vocabulary_view(vocabulary@)).len() as int;
                let moved = clamped(old(self).highlight_spec() + delta, count);
                &&& final(self).highlight_spec() == moved
                &&& final(self).offset_spec() == followed(
                    old(self).offset_spec() as int,
                    moved,
                    COMPLETION_MAX_ROWS as int,
                    count,
                )
            }),
    {
        let candidates = self.completions(vocabulary);
        proof {
            assert(candidates.deep_view().len() == candidates@.len());
        }
        let count: usize = candidates.len();
        if count == 0 {
            self.highlight = 0;
            self.completion_offset = 0;
            return ;
        }
        let moved: i128 = self.highlight as i128 + delta as i128;
        if moved < 0 {
            self.highlight = 0;
        } else if moved > (count - 1) as i128 {
            self.highlight = count - 1;
        } else {
            self.highlight = moved as usize;
        }
        self.completion_offset = offset_following_cursor(
            self.completion_offset,
            self.highlight,
            COMPLETION_MAX_ROWS,
            count,
        );
    }

    /// `Tab`: replaces the term under the cursor, or the value fragment being typed, with the
    /// highlighted candidate, leaving whatever follows the caret alone, then resets the
    /// highlight. With nothing highlighted the line stays as it is.
    pub fn accept_highlighted_completion(&mut self, vocabulary: &Vec<VocabularyEntry>)
        requires
            old(self).wf(),
        ensures
            final(self).wf(),
            ({
                let offered = old(self).offered(vocabulary_view(vocabulary@));
                let start = trigger_in(old(self).before(), vocabulary_view(vocabulary@)).1;
                if old(self).highlight_spec() < offered.len() {
                    &&& final(self).before() == old(self).before().take(start)
                        + offered[old(self).highlight_spec() as int]
                    &&& final(self).after() == old(self).after()
                    &&& final(self).completion_reset()
                } else {
                    *final(self) == *old(self)
                }
            }),
    {
        let (trigger, start) = self.trigger(vocabulary);
        let candidates = trigger.candidates();
        proof {
            assert(candidates.deep_view().len() == candidates@.len());
        }
        if self.highlight < candidates.len() {
            proof {
                lemma_trigger_in_range(self.before(), vocabulary_view(vocabulary@));
                assert(self.input.is_boundary(start as int));
            }
            self.input.replace_before_cursor(start, candidates[self.highlight].as_str());
            self.reset_completion();
        }
    }

    /// What the line paints at `area`'s own row: the prompt and the typed text, an unrecognised
    /// term in `warn`, or the placeholder in `dim` while nothing is typed; the rightmost column
    /// is the fixed advisory slot, `?` in `warn` where any term is unrecognised and a plain space
    /// otherwise. `unrecognised` names the byte ranges of the terms the Filter language does not
    /// know. The caret stands right behind the prompt while nothing is typed and behind the runs
    /// ahead of the cursor otherwise; [`caret_x`] gives its column. An area without a column
    /// paints nothing.
    pub fn draw(&self, area: Rect, unrecognised: &Vec<(usize, usize)>) -> (plan: Option<LinePlan>)
        requires
            self.wf(),
            area.x + area.width <= u16::MAX,
            in_order(self.typed(), unrecognised@, 0),
        ensures
            plan is None <==> area.width == 0,
            plan matches Some(plan) ==> plan.advisory_x == area.x + area.width - 1,
            plan matches Some(plan) ==> self.typed().len() == 0 ==> {
                &&& painted_view(plan.runs@) == seq![plain(QUERY_PLACEHOLDER@, Role::Dim)]
                &&& plan.caret is Column
                &&& plan.caret->Column_0 == at_most(PROMPT_WIDTH as int, area.width - 1)
                &&& plan.advisory@ == plain(" "@, Role::Dim)
            },
            plan matches Some(plan) ==> self.typed().len() > 0 ==> ({
                let pieces = segments(self.typed(), unrecognised@, 0);
                let cursor = encode_utf8(self.before()).len() as int;
                &&& painted_view(plan.runs@) == seq![plain(PROMPT@, Role::Text)] + piece_runs(
                    pieces,
                    cursor,
                    0,
                )
                &&& plan.caret is BehindRuns
                &&& plan.caret->BehindRuns_0 == runs_ahead(pieces, cursor, 0)
                &&& plan.advisory@ == if unrecognised@.len() == 0 {
                    plain(" "@, Role::Dim)
                } else {
                    plain("?"@, Role::Warn)
                }
            }),
    {
        if area.width == 0 {
            return None;
        }
        let advisory_x: u16 = area.x + (area.width - 1);
        if self.input.is_empty() {
            return Some(
                LinePlan {
                    advisory_x,
                    runs: one_run(QUERY_PLACEHOLDER, Role::Dim),
                    advisory: Painted { text: " ".to_owned(), role: Role::Dim, bold: false },
                    caret: Caret::Column(
                        if PROMPT_WIDTH < area.width {
                            PROMPT_WIDTH
                        } else {
                            area.width - 1
                        },
                    ),
                },
            );
        }
        let text = self.input.as_str();
        let cursor: usize = self.input.cursor();
        let pieces = warn_split(text, unrecognised);
        let ghost all = segments_view(pieces@);
        let mut runs = one_run(PROMPT, Role::Text);
        let mut offset: usize = 0;
        let mut ahead: usize = 0;
        let mut passed = false;
        let mut i: usize = 0;
        let total: usize = byte_len(text);
        proof {
            lemma_boundary_seam(self.before(), self.after());
            lemma_boundary_ends(text@);
            lemma_pieces_cover(text@, unrecognised@, 0);
            assert(all.skip(0) =~= all);
        }
        while i < pieces.len()
            invariant
                i <= pieces.len(),
                all == segments_view(pieces@),
                pieces_cover(text@, all.skip(i as int), offset as int),
                boundary(text@, cursor as int),
                painted_view(runs@) + piece_runs(all.skip(i as int), cursor as int, offset as int)
                    == seq![plain(PROMPT@, Role::Text)] + piece_runs(all, cursor as int, 0),
                !passed ==> ahead + runs_ahead(
                    all.skip(i as int),
                    cursor as int,
                    offset as int,
                ) == runs_ahead(all, cursor as int, 0),
                passed ==> ahead == runs_ahead(all, cursor as int, 0) && cursor < offset,
                ahead <= i,
                total == encode_utf8(text@).len(),
            decreases pieces.len() - i,
        {
            let (segment, warn) = pieces[i];
            let role = if warn {
                Role::Warn
            } else {
                Role::Text
            };
            let ghost rest = all.skip(i as int);
            proof {
                assert(rest[0] == (segment@, warn));
                assert(rest.drop_first() =~= all.skip(i + 1));
                lemma_boundary_range(text@, offset + encode_utf8(segment@).len());
                if cursor_inside(segment@, cursor as int, offset as int) {
                    lemma_boundary_in_part(
                        text@,
                        offset as int,
                        offset + encode_utf8(segment@).len(),
                        cursor as int,
                    );
                }
            }
            let ghost painted = painted_view(runs@);
            let len: usize = byte_len(segment);
            let (head, tail) = split_at_cursor(segment, cursor, offset);
            push_plain(&mut runs, head, role);
            let inside = offset <= cursor && cursor - offset < len;
            if inside {
                push_plain(&mut runs, tail, role);
            }
            if !passed {
                ahead = ahead + 1;
            }
            proof {
                let own = if inside {
                    seq![plain(head@, role), plain(tail@, role)]
                } else {
                    seq![plain(head@, role)]
                };
                assert(painted_view(runs@) =~= painted + own);
                let behind = piece_runs(rest.drop_first(), cursor as int, offset + len);
                assert(painted + (own + behind) =~= painted_view(runs@) + behind);
            }
            if inside {
                passed = true;
            }
            offset = offset + len;
            i = i + 1;
        }
        proof {
            assert(all.skip(i as int) =~= Seq::empty());
            assert(painted_view(runs@) + Seq::<PaintedView>::empty() =~= painted_view(runs@));
        }
        let advisory = if unrecognised.len() == 0 {
            Painted { text: " ".to_owned(), role: Role::Dim, bold: false }
        } else {
            Painted { text: "?".to_owned(), role: Role::Warn, bold: false }
        };
        Some(LinePlan { advisory_x, runs, advisory, caret: Caret::BehindRuns(ahead) })
    }

    /// The framed completion block's own area inside `content_area`: anchored to its bottom,
    /// as high as the candidates up to the cap and the frame's two rows; nothing where there is
    /// nothing to offer or no room for a framed row.
    pub fn completion_area(&self, content_area: Rect, vocabulary: &Vec<VocabularyEntry>) -> (area:
        Option<Rect>)
        requires
            self.wf(),
        ensures
            area == completion_rect(
                self.offered(vocabulary_view(vocabulary@)).len() as int,
                content_area,
            ),
    {
        let candidates = self.completions(vocabulary);
        proof {
            assert(candidates.deep_view().len() == candidates@.len());
        }
        let rows: u16 = if candidates.len() < COMPLETION_MAX_ROWS {
            candidates.len() as u16
        } else {
            COMPLETION_MAX_ROWS as u16
        };
        if rows == 0 {
            return None;
        }
        let framed: u16 = rows + 2;
        let height: u16 = if framed < content_area.height {
            framed
        } else {
            content_area.height
        };
        if height < 3 {
            return None;
        }
        let bottom: u16 = content_area.y.saturating_add(content_area.height);
        Some(
            Rect {
                x: content_area.x,
                y: bottom - height,
                width: content_area.width,
                height,
            },
        )
    }

    /// The completion rows painted into `area`, in `text`: one candidate per interior row from
    /// the list's own window on, the highlighted one marked `> `, each cut off at the interior's
    /// own width.
    pub fn draw_completions(&self, area: Rect, vocabulary: &Vec<VocabularyEntry>) -> (rows: Vec<
        PlacedText,
    >)
        requires
            self.wf(),
        ensures
            placed_view(rows@) == completion_rows(
                self.offered(vocabulary_view(vocabulary@)),
                self.highlight_spec() as int,
                self.offset_spec() as int,
                interior(area),
            ),
    {
        let inside = block_inner(area);
        let candidates = self.completions(vocabulary);
        let ghost offered = self.offered(vocabulary_view(vocabulary@));
        proof {
            assert(candidates.deep_view().len() == candidates@.len());
        }
        let mut rows: Vec<PlacedText> = Vec::new();
        let start: usize = self.completion_offset;
        let mut row: usize = 0;
        proof {
            assert(placed_view(rows@) =~= completion_rows_shown(
                offered,
                self.highlight_spec() as int,
                start as int,
                inside,
                0,
            ));
        }
        while row < inside.height as usize && start < candidates.len() && row < candidates.len()
            - start
            invariant
                start == self.offset_spec(),
                candidates.deep_view() == offered,
                candidates.deep_view().len() == candidates@.len(),
                inside == interior(area),
                row <= inside.height,
                row == 0 || start + row <= candidates@.len(),
                placed_view(rows@) == completion_rows_shown(
                    offered,
                    self.highlight_spec() as int,
                    start as int,
                    inside,
                    row as int,
                ),
            decreases inside.height - row,
        {
            let marker = if start + row == self.highlight {
                "> "
            } else {
                "  "
            };
            let text = PlacedText {
                x: inside.x,
                y: inside.y.saturating_add(row as u16),
                text: marker.to_owned().concat(candidates[start + row].as_str()),
            };
            let ghost before = rows@;
            rows.push(text);
            proof {
                assert(offered[start + row] == candidates@[start + row]@);
                assert(placed_view(rows@) =~= placed_view(before).push(text@));
                assert(placed_view(rows@) =~= completion_rows_shown(
                    offered,
                    self.highlight_spec() as int,
                    start as int,
                    inside,
                    row + 1,
                ));
            }
            row = row + 1;
        }
        proof {
            assert(placed_view(rows@) =~= completion_rows(
                offered,
                self.highlight_spec() as int,
                start as int,
                inside,
            ));
        }
        rows
    }
}

/// The framed completion block for `count` candidates, anchored to the bottom of `content_area`.
pub open spec fn completion_rect(count: int, content_area: Rect) -> Option<Rect> {
    let rows = at_most(count, COMPLETION_MAX_ROWS as int);
    let height = at_most(rows + 2, content_area.height as int);
    if rows == 0 || height < 3 {
        None
    } else {
        let bottom = at_most(content_area.y + content_area.height, u16::MAX as int);
        Some(
            Rect {
                x: content_area.x,
                y: (bottom - height) as u16,
                width: content_area.width,
                height: height as u16,
            },
        )
    }
}

/// The first `count` completion rows.
pub open spec fn completion_rows_shown(
    offered: Seq<Seq<char>>,
    highlight: int,
    start: int,
    inside: Rect,
    count: int,
) -> Seq<(u16, u16, Seq<char>)> {
    Seq::new(
        count as nat,
        |row: int|
            (
                inside.x,
                row_below(inside.y, row),
                if start + row == highlight {
                    "> "@ + offered[start + row]
                } else {
                    "  "@ + offered[start + row]
                },
            ),
    )
}

/// The completion rows: the candidates from `start` on, as many as the interior holds.
pub open spec fn completion_rows(
    offered: Seq<Seq<char>>,
    highlight: int,
    start: int,
    inside: Rect,
) -> Seq<(u16, u16, Seq<char>)> {
    completion_rows_shown(
        offered,
        highlight,
        start,
        inside,
        if start < offered.len() {
            at_most(offered.len() - start, inside.height as int)
        } else {
            0
        },
    )
}

/// The pieces lie one behind the other in `text` from byte `from` to its end, each on character
/// boundaries.
pub open spec fn pieces_cover(text: Seq<char>, pieces: Seq<(Seq<char>, bool)>, from: int) -> bool
    decreases pieces.len(),
{
    if pieces.len() == 0 {
        from == encode_utf8(text).len()
    } else {
        let to = from + encode_utf8(pieces[0].0).len();
        &&& boundary(text, from)
        &&& boundary(text, to)
        &&& pieces[0].0 == slice_of(text, from, to)
        &&& pieces_cover(text, pieces.drop_first(), to)
    }
}

proof fn lemma_pieces_cover(text: Seq<char>, ranges: Seq<(usize, usize)>, from: int)
    requires
        in_order(text, ranges, from),
        boundary(text, from),
    ensures
        pieces_cover(text, segments(text, ranges, from), from),
    decreases ranges.len(),
{
    let len = encode_utf8(text).len() as int;
    let pieces = segments(text, ranges, from);
    lemma_boundary_ends(text);
    lemma_boundary_range(text, from);
    if ranges.len() == 0 {
        if from < len {
            lemma_part_bytes(text, from, len);
            let nothing = Seq::<(Seq<char>, bool)>::empty();
            assert(pieces_cover(text, nothing, len));
            assert(pieces.drop_first() =~= nothing);
        }
    } else {
        let (start, end) = ranges[0];
        let behind = segments(text, ranges.drop_first(), end as int);
        let warned = seq![(slice_of(text, start as int, end as int), true)] + behind;
        lemma_pieces_cover(text, ranges.drop_first(), end as int);
        lemma_part_bytes(text, start as int, end as int);
        assert(warned.drop_first() =~= behind);
        assert(pieces_cover(text, warned, start as int));
        if start > from {
            lemma_part_bytes(text, from, start as int);
            assert(pieces.drop_first() =~= warned);
        } else {
            assert(pieces =~= warned);
        }
    }
}

proof fn lemma_one_run_text(run: PaintedView)
    ensures
        runs_text(seq![run]) == run.text,
{
    let runs = seq![run];
    let nothing = Seq::<PaintedView>::empty();
    assert(runs_text(nothing) =~= Seq::<char>::empty());
    assert(runs.drop_last() =~= nothing);
    assert(runs_text(runs) =~= run.text);
}

proof fn lemma_piece_runs_text(
    text: Seq<char>,
    pieces: Seq<(Seq<char>, bool)>,
    cursor: int,
    from: int,
)
    requires
        pieces_cover(text, pieces, from),
        boundary(text, from),
        boundary(text, cursor),
    ensures
        runs_text(piece_runs(pieces, cursor, from)) == slice_of(
            text,
            from,
            encode_utf8(text).len() as int,
        ),
        runs_ahead(pieces, cursor, from) <= piece_runs(pieces, cursor, from).len(),
        from <= cursor ==> runs_text(
            piece_runs(pieces, cursor, from).take(runs_ahead(pieces, cursor, from) as int),
        ) == slice_of(text, from, cursor),
    decreases pieces.len(),
{
    let len = encode_utf8(text).len() as int;
    let runs = piece_runs(pieces, cursor, from);
    let nothing = Seq::<PaintedView>::empty();
    assert(runs_text(nothing) =~= Seq::<char>::empty());
    lemma_boundary_ends(text);
    lemma_boundary_range(text, from);
    lemma_boundary_range(text, cursor);
    if pieces.len() == 0 {
        lemma_whole_slice(text, from);
        assert(runs.take(0) =~= nothing);
    } else {
        let (piece, warn) = pieces[0];
        let to = from + encode_utf8(piece).len();
        let role = piece_role(warn);
        let behind = piece_runs(pieces.drop_first(), cursor, to);
        lemma_boundary_range(text, to);
        lemma_piece_runs_text(text, pieces.drop_first(), cursor, to);
        lemma_slices_join(text, from, to, len);
        if cursor_inside(piece, cursor, from) {
            let head = plain(slice_of(piece, 0, cursor - from), role);
            let tail = plain(slice_of(piece, cursor - from, to - from), role);
            let own = seq![head, tail];
            lemma_part_of_part(text, from, to, 0, cursor - from);
            lemma_part_of_part(text, from, to, cursor - from, to - from);
            lemma_slices_join(text, from, cursor, to);
            lemma_runs_text_concat(own, behind);
            lemma_one_run_text(head);
            lemma_one_run_text(tail);
            lemma_runs_text_concat(seq![head], seq![tail]);
            assert(own =~= seq![head] + seq![tail]);
            assert(runs =~= own + behind);
            assert(runs.take(1) =~= seq![head]);
        } else {
            let own = seq![plain(piece, role)];
            lemma_runs_text_concat(own, behind);
            lemma_one_run_text(plain(piece, role));
            assert(runs =~= own + behind);
            if from <= cursor {
                let ahead = runs_ahead(pieces.drop_first(), cursor, to);
                assert(runs.take(1 + ahead as int) =~= own + behind.take(ahead as int));
                lemma_runs_text_concat(own, behind.take(ahead as int));
                lemma_slices_join(text, from, to, cursor);
            }
        }
    }
}

/// What the line paints reads as the prompt and the whole typed text, and what it paints ahead of
/// the caret as the prompt and the text before the cursor, however the text is cut at its
/// unrecognised terms.
pub proof fn law_the_caret_stands_where_the_cursor_does(
    before: Seq<char>,
    after: Seq<char>,
    unrecognised: Seq<(usize, usize)>,
)
    requires
        in_order(before + after, unrecognised, 0),
    ensures
        ({
            let pieces = segments(before + after, unrecognised, 0);
            let cursor = encode_utf8(before).len() as int;
            let runs = seq![plain(PROMPT@, Role::Text)] + piece_runs(pieces, cursor, 0);
            let ahead = runs_ahead(pieces, cursor, 0) as int;
            &&& runs_text(runs) == PROMPT@ + (before + after)
            &&& 0 <= ahead < runs.len()
            &&& runs_text(runs.take(1 + ahead)) == PROMPT@ + before
        }),
{
    let text = before + after;
    let pieces = segments(text, unrecognised, 0);
    let cursor = encode_utf8(before).len() as int;
    let prompt = seq![plain(PROMPT@, Role::Text)];
    let runs = prompt + piece_runs(pieces, cursor, 0);
    let ahead = runs_ahead(pieces, cursor, 0) as int;
    lemma_boundary_ends(text);
    lemma_boundary_seam(before, after);
    lemma_pieces_cover(text, unrecognised, 0);
    lemma_piece_runs_text(text, pieces, cursor, 0);
    lemma_whole_slice(text, 0);
    lemma_one_run_text(plain(PROMPT@, Role::Text));
    lemma_runs_text_concat(prompt, piece_runs(pieces, cursor, 0));
    assert(runs.take(1 + ahead) =~= prompt + piece_runs(pieces, cursor, 0).take(ahead));
    lemma_runs_text_concat(prompt, piece_runs(pieces, cursor, 0).take(ahead));
}

/// The completion block is anchored to the bottom of the content area, as wide as it, never taller
/// than it nor than the row cap with its two border rows, and never a frame with no row inside.
pub proof fn law_the_completion_block_stays_inside_its_area(count: nat, content_area: Rect)
    requires
        content_area.y + content_area.height <= u16::MAX,
    ensures
        completion_rect(count as int, content_area) is None <==> count == 0 || content_area.height
            < 3,
        completion_rect(count as int, content_area) matches Some(area) ==> {
            &&& area.x == content_area.x
            &&& area.width == content_area.width
            &&& content_area.y <= area.y
            &&& area.y + area.height == content_area.y + content_area.height
            &&& 3 <= area.height <= COMPLETION_MAX_ROWS + 2
            &&& area.height <= count + 2
        },
{
}

/// However far the highlight is moved, it stands on a candidate inside the window the list shows.
pub proof fn law_the_highlighted_completion_is_in_view(
    offset: nat,
    highlight: nat,
    delta: int,
    count: nat,
)
    requires
        0 < count,
    ensures
        ({
            let moved = clamped(highlight + delta, count as int);
            let next = followed(offset as int, moved, COMPLETION_MAX_ROWS as int, count as int);
            0 <= next <= moved < next + COMPLETION_MAX_ROWS && moved < count
        }),
{
    law_the_window_holds_the_cursor(
        offset as int,
        clamped(highlight + delta, count as int),
        COMPLETION_MAX_ROWS as int,
        count as int,
    );
}

proof fn lemma_entry_named(vocabulary: Seq<(Seq<char>, Seq<Seq<char>>)>, key: Seq<char>)
    ensures
        match entry_named(vocabulary, key) {
            Some(entry) => exists|k: int|
                0 <= k < vocabulary.len() && entry == #[trigger] vocabulary[k]
                    && same_ignoring_case(vocabulary[k].0, key) && forall|j: int|
                    0 <= j < k ==> !same_ignoring_case((#[trigger] vocabulary[j]).0, key),
            None => forall|k: int|
                0 <= k < vocabulary.len() ==> !same_ignoring_case((#[trigger] vocabulary[k]).0, key),
        },
    decreases vocabulary.len(),
{
    if vocabulary.len() > 0 && !same_ignoring_case(vocabulary[0].0, key) {
        let rest = vocabulary.drop_first();
        lemma_entry_named(rest, key);
        match entry_named(rest, key) {
            Some(entry) => {
                let k = choose|k: int|
                    0 <= k < rest.len() && entry == #[trigger] rest[k] && same_ignoring_case(
                        rest[k].0,
                        key,
                    ) && forall|j: int|
                        0 <= j < k ==> !same_ignoring_case((#[trigger] rest[j]).0, key);
                assert(vocabulary[k + 1] == entry);
                assert forall|j: int| 0 <= j < k + 1 implies !same_ignoring_case(
                    (#[trigger] vocabulary[j]).0,
                    key,
                ) by {
                    if j > 0 {
                        assert(rest[j - 1] == vocabulary[j]);
                    }
                }
            },
            None => {
                assert forall|k: int| 0 <= k < vocabulary.len() implies !same_ignoring_case(
                    (#[trigger] vocabulary[k]).0,
                    key,
                ) by {
                    if k > 0 {
                        assert(rest[k - 1] == vocabulary[k]);
                    }
                }
            },
        }
    }
}

/// Where the body of the term that starts at `term` begins: behind the `-` that negates it, where
/// it has one.
pub open spec fn behind_the_minus(before: Seq<char>, term: int) -> int {
    if term < before.len() && before[term] == '-' {
        term + 1
    } else {
        term
    }
}

/// `term` is where the term that ends `before` starts: nothing from there on is whitespace, and
/// what stands ahead of it, if anything does, is.
pub open spec fn term_starts_at(before: Seq<char>, term: int) -> bool {
    &&& 0 <= term <= before.len()
    &&& forall|i: int| term <= i < before.len() ==> !is_whitespace_spec(#[trigger] before[i])
    &&& term > 0 ==> is_whitespace_spec(before[term - 1])
}

/// The text from `body` up to `colon` is a key: the `:` there is the first from `body` on.
pub open spec fn key_ends_at(before: Seq<char>, body: int, colon: int) -> bool {
    &&& body <= colon < before.len()
    &&& before[colon] == ':'
    &&& forall|i: int| body <= i < colon ==> #[trigger] before[i] != ':'
}

proof fn lemma_the_term_start(before: Seq<char>, term: int)
    requires
        term_starts_at(before, term),
    ensures
        term_start_in(before) == term,
        body_start_in(before) == behind_the_minus(before, term),
{
    lemma_suffix_len(before, Run::Word);
    let start = before.len() - suffix_len(before, Run::Word);
    if start < term {
        assert(Run::Word.holds(before[term - 1]));
    }
    if term < start {
        assert(!Run::Word.holds(before[start - 1]));
    }
}

/// Every key is offered, each with its colon, exactly where nothing but a `:` of the term is
/// typed; accepting one overwrites the term, the `-` that negates it left alone.
pub proof fn law_a_term_not_begun_offers_every_key(
    before: Seq<char>,
    vocabulary: Seq<(Seq<char>, Seq<Seq<char>>)>,
    term: int,
)
    requires
        term_starts_at(before, term),
    ensures
        ({
            let body = behind_the_minus(before, term);
            let (offer, start) = trigger_in(before, vocabulary);
            &&& offer is Keys <==> body == before.len() || body + 1 == before.len() && before[body]
                == ':'
            &&& offer matches TriggerView::Keys(keys) ==> {
                &&& start == body
                &&& keys.len() == vocabulary.len()
                &&& forall|k: int|
                    0 <= k < keys.len() ==> #[trigger] keys[k] == vocabulary[k].0 + ":"@
            }
        }),
{
    reveal_strlit(":");
    lemma_the_term_start(before, term);
    let body = behind_the_minus(before, term);
    let rest = before.skip(body);
    assert(rest == ":"@ <==> rest.len() == 1 && rest[0] == ':') by {
        if rest.len() == 1 && rest[0] == ':' {
            assert(rest =~= ":"@);
        }
    }
    if rest.len() == 1 {
        assert(rest[0] == before[body]);
    }
}

/// A known key's own values are offered exactly behind that key's `:`, whatever the case of its
/// letters; of two entries of one key the first is meant. What accepting one overwrites holds no
/// comma, and right ahead of it stands a comma or the key's own `:`, so every value already
/// completed by a comma stays.
pub proof fn law_a_known_key_offers_its_values(
    before: Seq<char>,
    vocabulary: Seq<(Seq<char>, Seq<Seq<char>>)>,
    term: int,
    colon: int,
)
    requires
        term_starts_at(before, term),
        key_ends_at(before, behind_the_minus(before, term), colon),
        before.len() > behind_the_minus(before, term) + 1,
    ensures
        ({
            let body = behind_the_minus(before, term);
            let key = before.subrange(body, colon);
            let (offer, start) = trigger_in(before, vocabulary);
            &&& offer is Values <==> exists|k: int|
                0 <= k < vocabulary.len() && same_ignoring_case((#[trigger] vocabulary[k]).0, key)
            &&& offer is Values || offer is Nothing
            &&& offer matches TriggerView::Values(values) ==> {
                &&& colon < start <= before.len()
                &&& forall|i: int| start <= i < before.len() ==> #[trigger] before[i] != ','
                &&& start == colon + 1 || before[start - 1] == ','
                &&& forall|k: int|
                    0 <= k < vocabulary.len() && same_ignoring_case(
                        (#[trigger] vocabulary[k]).0,
                        key,
                    ) && (forall|j: int|
                        0 <= j < k ==> !same_ignoring_case((#[trigger] vocabulary[j]).0, key))
                        ==> values == vocabulary[k].1
            }
        }),
{
    reveal_strlit(":");
    lemma_the_term_start(before, term);
    let body = behind_the_minus(before, term);
    let rest = before.skip(body);
    let at = index_of(rest, ':');
    let key = before.subrange(body, colon);
    law_a_character_is_found_where_it_first_stands(rest, ':');
    assert(rest[colon - body] == ':');
    if at < colon - body {
        assert(before[body + at] == rest[at]);
    }
    assert(at == colon - body);
    assert(rest.take(at) =~= key);
    lemma_entry_named(vocabulary, key);
    let value = rest.skip(at + 1);
    law_the_rest_starts_behind_the_last(value, ',');
    let start = trigger_in(before, vocabulary).1;
    if let Some(entry) = entry_named(vocabulary, key) {
        assert forall|i: int| start <= i < before.len() implies #[trigger] before[i] != ',' by {
            assert(value[i - colon - 1] == before[i]);
        }
        if start > colon + 1 {
            assert(value[start - colon - 2] == before[start - 1]);
        }
        let n = choose|k: int|
            0 <= k < vocabulary.len() && entry == #[trigger] vocabulary[k] && same_ignoring_case(
                vocabulary[k].0,
                key,
            ) && forall|j: int|
                0 <= j < k ==> !same_ignoring_case((#[trigger] vocabulary[j]).0, key);
        assert(same_ignoring_case(vocabulary[n].0, key));
        assert forall|k: int|
            0 <= k < vocabulary.len() && same_ignoring_case((#[trigger] vocabulary[k]).0, key) && (
            forall|j: int| 0 <= j < k ==> !same_ignoring_case((#[trigger] vocabulary[j]).0, key))
            implies entry.1 == vocabulary[k].1 by {
            if k < n {
                assert(!same_ignoring_case(vocabulary[k].0, key));
            }
            if n < k {
                assert(!same_ignoring_case(vocabulary[n].0, key));
            }
        }
    }
}

/// A term without a `:` offers nothing once a character of it is typed.
pub proof fn law_a_plain_word_offers_nothing(
    before: Seq<char>,
    vocabulary: Seq<(Seq<char>, Seq<Seq<char>>)>,
    term: int,
)
    requires
        term_starts_at(before, term),
        behind_the_minus(before, term) < before.len(),
        forall|i: int|
            behind_the_minus(before, term) <= i < before.len() ==> #[trigger] before[i] != ':',
    ensures
        trigger_in(before, vocabulary).0 is Nothing,
{
    reveal_strlit(":");
    lemma_the_term_start(before, term);
    let body = behind_the_minus(before, term);
    let rest = before.skip(body);
    law_a_character_is_found_where_it_first_stands(rest, ':');
    assert(rest[0] == before[body]);
    if index_of(rest, ':') < rest.len() {
        assert(before[body + index_of(rest, ':')] == ':');
    }
}

/// What a term offers, and nothing else, is what its trigger lists.
pub proof fn law_a_trigger_offers_its_list(offer: TriggerView)
    ensures
        offer matches TriggerView::Keys(keys) ==> offer.candidates() == keys,
        offer matches TriggerView::Values(values) ==> offer.candidates() == values,
        offer is Nothing ==> offer.candidates().len() == 0,
{
}

/// Where piece `k` of `pieces` starts, the first of them starting at byte `from`.
pub open spec fn piece_at(pieces: Seq<(Seq<char>, bool)>, from: int, k: int) -> int
    decreases k,
{
    if k <= 0 {
        from
    } else {
        piece_at(pieces, from, k - 1) + encode_utf8(pieces[k - 1].0).len()
    }
}

proof fn lemma_piece_at_behind(
    first: Seq<(Seq<char>, bool)>,
    rest: Seq<(Seq<char>, bool)>,
    from: int,
    k: int,
)
    requires
        0 <= k <= rest.len(),
    ensures
        piece_at(first + rest, from, first.len() + k) == piece_at(
            rest,
            piece_at(first + rest, from, first.len() as int),
            k,
        ),
    decreases k,
{
    if k > 0 {
        lemma_piece_at_behind(first, rest, from, k - 1);
        assert((first + rest)[first.len() + k - 1] == rest[k - 1]);
    }
}

proof fn lemma_later_ranges_start_later(
    text: Seq<char>,
    ranges: Seq<(usize, usize)>,
    from: int,
    r: int,
)
    requires
        in_order(text, ranges, from),
        0 <= r < ranges.len(),
    ensures
        from <= ranges[r].0 <= ranges[r].1,
    decreases ranges.len(),
{
    if r > 0 {
        lemma_later_ranges_start_later(text, ranges.drop_first(), ranges[0].1 as int, r - 1);
    }
}

/// The typed text is cut so that a piece marked as unrecognised is exactly one of the ranges, and a
/// piece that is not marked holds something and lies apart from every range.
pub proof fn law_exactly_the_unrecognised_ranges_are_marked(
    text: Seq<char>,
    ranges: Seq<(usize, usize)>,
    from: int,
    k: int,
)
    requires
        in_order(text, ranges, from),
        boundary(text, from),
        0 <= k < segments(text, ranges, from).len(),
    ensures
        ({
            let pieces = segments(text, ranges, from);
            let start = piece_at(pieces, from, k);
            let end = start + encode_utf8(pieces[k].0).len();
            &&& pieces[k].1 ==> exists|r: int|
                0 <= r < ranges.len() && (#[trigger] ranges[r]).0 == start && ranges[r].1 == end
            &&& !pieces[k].1 ==> start < end && forall|r: int|
                0 <= r < ranges.len() ==> (#[trigger] ranges[r]).1 <= start || end <= ranges[r].0
        }),
    decreases ranges.len(),
{
    let pieces = segments(text, ranges, from);
    let len = encode_utf8(text).len() as int;
    lemma_boundary_ends(text);
    lemma_boundary_range(text, from);
    if ranges.len() == 0 {
        lemma_part_bytes(text, from, len);
    } else {
        let (start, end) = ranges[0];
        let ahead = if start > from {
            seq![(slice_of(text, from, start as int), false)]
        } else {
            Seq::empty()
        };
        let own = seq![(slice_of(text, start as int, end as int), true)];
        let later = ranges.drop_first();
        let behind = segments(text, later, end as int);
        let first = ahead + own;
        assert(pieces =~= first + behind);
        lemma_part_bytes(text, start as int, end as int);
        if start > from {
            lemma_part_bytes(text, from, start as int);
        }
        assert(piece_at(pieces, from, 0) == from);
        assert(piece_at(pieces, from, 1) == from + encode_utf8(pieces[0].0).len());
        assert(piece_at(pieces, from, ahead.len() as int) == start);
        assert(piece_at(pieces, from, first.len() as int) == end);
        assert(first.len() == ahead.len() + 1);
        assert forall|r: int| 0 <= r < ranges.len() implies start <= (#[trigger] ranges[r]).0 by {
            if r > 0 {
                lemma_later_ranges_start_later(text, later, end as int, r - 1);
                assert(ranges[r] == later[r - 1]);
            }
        }
        if k >= first.len() {
            let j = k - first.len();
            law_exactly_the_unrecognised_ranges_are_marked(text, later, end as int, j);
            lemma_piece_at_behind(first, behind, from, j);
            assert(pieces[k] == behind[j]);
            let at = piece_at(behind, end as int, j);
            let to = at + encode_utf8(behind[j].0).len();
            if behind[j].1 {
                let r = choose|r: int|
                    0 <= r < later.len() && (#[trigger] later[r]).0 == at && later[r].1 == to;
                assert(ranges[r + 1] == later[r]);
            } else {
                lemma_piece_at_grows(behind, end as int, j);
                assert forall|r: int| 0 <= r < ranges.len() implies (#[trigger] ranges[r]).1 <= at
                    || to <= ranges[r].0 by {
                    if r > 0 {
                        assert(ranges[r] == later[r - 1]);
                    }
                }
            }
        } else if k == ahead.len() {
            assert(pieces[k] == own[0]);
            assert(ranges[0].0 == start);
        } else {
            assert(pieces[k] == ahead[0]);
        }
    }
}

proof fn lemma_piece_at_grows(pieces: Seq<(Seq<char>, bool)>, from: int, k: int)
    ensures
        from <= piece_at(pieces, from, k),
    decreases k,
{
    if k > 0 {
        lemma_piece_at_grows(pieces, from, k - 1);
    }
}

/// The text of the pieces that are marked, or of those that are not.
pub open spec fn marked_text(pieces: Seq<(Seq<char>, bool)>, marked: bool) -> Seq<char>
    decreases pieces.len(),
{
    if pieces.len() == 0 {
        Seq::empty()
    } else if pieces.last().1 == marked {
        marked_text(pieces.drop_last(), marked) + pieces.last().0
    } else {
        marked_text(pieces.drop_last(), marked)
    }
}

proof fn lemma_marked_text_first(pieces: Seq<(Seq<char>, bool)>, marked: bool)
    requires
        pieces.len() > 0,
    ensures
        marked_text(pieces, marked) == if pieces[0].1 == marked {
            pieces[0].0 + marked_text(pieces.drop_first(), marked)
        } else {
            marked_text(pieces.drop_first(), marked)
        },
    decreases pieces.len(),
{
    let rest = pieces.drop_first();
    if pieces.len() == 1 {
        assert(pieces.drop_last() =~= Seq::empty());
        assert(rest =~= Seq::empty());
        assert(Seq::<char>::empty() + pieces[0].0 =~= pieces[0].0 + Seq::<char>::empty());
    } else {
        lemma_marked_text_first(pieces.drop_last(), marked);
        assert(pieces.drop_last().drop_first() =~= rest.drop_last());
        assert(rest.last() == pieces.last());
        assert(marked_text(pieces, marked) =~= if pieces[0].1 == marked {
            pieces[0].0 + marked_text(rest, marked)
        } else {
            marked_text(rest, marked)
        });
    }
}

/// The text of the runs painted in `role`, one behind the other.
pub open spec fn text_in(runs: Seq<PaintedView>, role: Role) -> Seq<char>
    decreases runs.len(),
{
    if runs.len() == 0 {
        Seq::empty()
    } else if runs.last().role == role {
        text_in(runs.drop_last(), role) + runs.last().text
    } else {
        text_in(runs.drop_last(), role)
    }
}

proof fn lemma_text_in_concat(a: Seq<PaintedView>, b: Seq<PaintedView>, role: Role)
    ensures
        text_in(a + b, role) == text_in(a, role) + text_in(b, role),
    decreases b.len(),
{
    if b.len() == 0 {
        assert(a + b =~= a);
        assert(text_in(a, role) + Seq::<char>::empty() =~= text_in(a, role));
    } else {
        assert((a + b).drop_last() =~= a + b.drop_last());
        lemma_text_in_concat(a, b.drop_last(), role);
        assert(text_in(a, role) + (text_in(b.drop_last(), role) + b.last().text) =~= (text_in(
            a,
            role,
        ) + text_in(b.drop_last(), role)) + b.last().text);
    }
}

proof fn lemma_text_in_one(run: PaintedView, role: Role)
    ensures
        text_in(seq![run], role) == if run.role == role {
            run.text
        } else {
            Seq::empty()
        },
{
    let runs = seq![run];
    assert(runs.drop_last() =~= Seq::<PaintedView>::empty());
    assert(text_in(runs.drop_last(), role) =~= Seq::<char>::empty());
    assert(Seq::<char>::empty() + run.text =~= run.text);
}

/// What one piece paints, cut or not, is its text in its own role.
proof fn lemma_one_piece_in(
    text: Seq<char>,
    piece: Seq<char>,
    own_role: Role,
    cursor: int,
    from: int,
    role: Role,
)
    requires
        piece == slice_of(text, from, from + encode_utf8(piece).len()),
        boundary(text, from),
        boundary(text, from + encode_utf8(piece).len()),
        boundary(text, cursor),
        cursor_inside(piece, cursor, from),
    ensures
        ({
            let to = from + encode_utf8(piece).len();
            text_in(
                seq![
                    plain(slice_of(piece, 0, cursor - from), own_role),
                    plain(slice_of(piece, cursor - from, to - from), own_role),
                ],
                role,
            ) == if own_role == role {
                piece
            } else {
                Seq::empty()
            }
        }),
{
    let to = from + encode_utf8(piece).len();
    let head = plain(slice_of(piece, 0, cursor - from), own_role);
    let tail = plain(slice_of(piece, cursor - from, to - from), own_role);
    lemma_boundary_in_part(text, from, to, cursor);
    lemma_boundary_ends(piece);
    lemma_slices_join(piece, 0, cursor - from, to - from);
    lemma_whole_slice(piece, 0);
    lemma_text_in_one(head, role);
    lemma_text_in_one(tail, role);
    lemma_text_in_concat(seq![head], seq![tail], role);
    assert(seq![head, tail] =~= seq![head] + seq![tail]);
    assert(Seq::<char>::empty() + Seq::<char>::empty() =~= Seq::<char>::empty());
}

/// What is painted in `warn` is the text of the pieces that are marked, and what is painted in
/// `text` that of the others, wherever the cursor cuts; no other role paints anything.
pub proof fn law_only_marked_pieces_are_painted_in_warn(
    text: Seq<char>,
    pieces: Seq<(Seq<char>, bool)>,
    cursor: int,
    from: int,
    role: Role,
)
    requires
        pieces_cover(text, pieces, from),
        boundary(text, from),
        boundary(text, cursor),
    ensures
        text_in(piece_runs(pieces, cursor, from), role) == if role == Role::Warn {
            marked_text(pieces, true)
        } else if role == Role::Text {
            marked_text(pieces, false)
        } else {
            Seq::empty()
        },
    decreases pieces.len(),
{
    let runs = piece_runs(pieces, cursor, from);
    if pieces.len() == 0 {
        assert(text_in(runs, role) =~= Seq::<char>::empty());
    } else {
        let (piece, warn) = pieces[0];
        let to = from + encode_utf8(piece).len();
        let own_role = if warn {
            Role::Warn
        } else {
            Role::Text
        };
        let behind = piece_runs(pieces.drop_first(), cursor, to);
        law_only_marked_pieces_are_painted_in_warn(text, pieces.drop_first(), cursor, to, role);
        lemma_marked_text_first(pieces, true);
        lemma_marked_text_first(pieces, false);
        let own = if cursor_inside(piece, cursor, from) {
            seq![
                plain(slice_of(piece, 0, cursor - from), own_role),
                plain(slice_of(piece, cursor - from, to - from), own_role),
            ]
        } else {
            seq![plain(piece, own_role)]
        };
        assert(runs == own + behind);
        if cursor_inside(piece, cursor, from) {
            lemma_one_piece_in(text, piece, own_role, cursor, from, role);
        } else {
            lemma_text_in_one(plain(piece, own_role), role);
        }
        lemma_text_in_concat(own, behind, role);
        assert(Seq::<char>::empty() + text_in(behind, role) =~= text_in(behind, role));
    }
}

/// The completion list shows the candidates from the window's first on, one to a row of the
/// interior and none beside it, and marks the highlighted one alone.
pub proof fn law_the_completion_list_shows_its_window(
    offered: Seq<Seq<char>>,
    highlight: int,
    start: int,
    inside: Rect,
)
    requires
        0 <= start,
        inside.y + inside.height <= u16::MAX,
    ensures
        ({
            let rows = completion_rows(offered, highlight, start, inside);
            &&& rows.len() <= inside.height
            &&& rows.len() < inside.height ==> start + rows.len() >= offered.len()
            &&& start < offered.len() ==> start + rows.len() <= offered.len()
            &&& start >= offered.len() ==> rows.len() == 0
            &&& forall|r: int|
                0 <= r < rows.len() ==> (#[trigger] rows[r]).0 == inside.x && rows[r].1 == inside.y
                    + r && rows[r].2 == if start + r == highlight {
                    "> "@ + offered[start + r]
                } else {
                    "  "@ + offered[start + r]
                }
        }),
{
}

/// The caret stands in the column the plan names, or where painting the run ahead of it ended,
/// whichever the plan says; never ahead of the line's first column and never behind its last, where
/// it also stands when that run was not painted.
pub proof fn law_where_the_caret_stands(area: Rect, column: u16, count: usize, ends: Seq<u16>)
    requires
        0 < area.width,
        area.x + area.width <= u16::MAX,
    ensures
        ({
            let last = area.x + area.width - 1;
            let named = caret_column(Caret::Column(column), area, ends);
            let behind = caret_column(Caret::BehindRuns(count), area, ends);
            &&& column < area.width ==> named == area.x + column
            &&& column >= area.width ==> named == last
            &&& count < ends.len() && area.x <= ends[count as int] <= last ==> behind
                == ends[count as int]
            &&& count < ends.len() && ends[count as int] < area.x ==> behind == area.x
            &&& count < ends.len() && ends[count as int] > last ==> behind == last
            &&& count >= ends.len() ==> behind == last
        }),
{
}

/// The line's own words and measures: its prompt, as wide as it says, the hint in an empty one, and
/// how many candidates it lists at once.
pub proof fn law_the_words_and_measures_of_the_line()
    ensures
        PROMPT@ == "/ "@,
        PROMPT_WIDTH == PROMPT@.len(),
        QUERY_PLACEHOLDER@ == "/ filter repos"@,
        COMPLETION_MAX_ROWS == 8,
        piece_role(true) == Role::Warn,
        piece_role(false) == Role::Text,
{
    reveal_strlit("/ ");
}

/// The completion block has a row for each candidate up to eight, inside its frame, where the
/// content area is high enough for them, and fills that area where it is not.
pub proof fn law_how_high_the_completion_block_is(count: nat, content_area: Rect)
    requires
        0 < count,
        3 <= content_area.height,
        content_area.y + content_area.height <= u16::MAX,
    ensures
        completion_rect(count as int, content_area) matches Some(area) && {
            &&& count <= 8 && count + 2 <= content_area.height ==> area.height == count + 2
            &&& count > 8 && 10 <= content_area.height ==> area.height == 10
            &&& count + 2 > content_area.height && content_area.height <= 10 ==> area.height
                == content_area.height
        },
{
}

/// A completion list that is reset highlights its first candidate and shows it from the top.
pub proof fn law_a_reset_list_starts_over(line: FilterLine)
    ensures
        line.completion_reset() <==> line.highlight_spec() == 0 && line.offset_spec() == 0,
{
}

} // verus!
