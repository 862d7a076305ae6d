//! The one buffer every text field edits through: the typed text and the cursor's own byte
//! index into it.

use vstd::prelude::*;
use vstd::utf8::{decode_utf8, encode_utf8, is_char_boundary};

use crate::text::{
    byte_index, byte_len, count_prefix, count_suffix, cut_at, is_whitespace_spec,
    lemma_boundary_after, lemma_boundary_in_range, lemma_decode_parts, lemma_prefix_len,
    lemma_suffix_len, prefix_len, suffix_len, Run,
};

verus! {

broadcast use {vstd::string::group_string_axioms, vstd::seq_lib::group_seq_properties};

/// A text field's own buffer: what has been typed, and where the caret sits in it.
///
/// The cursor is a byte index into `text`, never past its end and never inside a character.
#[derive(Debug, Clone, PartialEq, Eq)]
pub struct EditBuffer {
    text: String,
    cursor: usize,
}

/// Where one of the six motion chords takes the cursor.
#[derive(Debug, Clone, Copy, PartialEq, Eq, Structural)]
pub enum Motion {
    Left,
    Right,
    WordLeft,
    WordRight,
    LineStart,
    LineEnd,
}

/// How many characters of `before` stand ahead of its last whitespace-delimited term.
pub open spec fn term_start_in(before: Seq<char>) -> int {
    before.len() - suffix_len(before, Run::Word)
}

/// How many characters of `before` stand ahead of its last word, once the whitespace that ends
/// `before` is left out.
pub open spec fn word_start_in(before: Seq<char>) -> int {
    term_start_in(before.take(before.len() - suffix_len(before, Run::Whitespace)))
}

/// How many characters of `after` the first word ends behind, the whitespace ahead of it
/// counted in.
pub open spec fn word_end_in(after: Seq<char>) -> int {
    let gap = prefix_len(after, Run::Whitespace) as int;
    gap + prefix_len(after.skip(gap), Run::Word)
}

/// How many characters of `before` stand ahead of its last line.
pub open spec fn line_start_in(before: Seq<char>) -> int {
    before.len() - suffix_len(before, Run::Line)
}

/// How many characters of `after` its first line holds.
pub open spec fn line_end_in(after: Seq<char>) -> int {
    prefix_len(after, Run::Line) as int
}

/// Where `motion` takes a cursor that stands between `before` and `after`, in characters from
/// the start of the text.
pub open spec fn landing(before: Seq<char>, after: Seq<char>, motion: Motion) -> int {
    match motion {
        Motion::Left => if before.len() == 0 {
            0
        } else {
            before.len() - 1
        },
        Motion::Right => if after.len() == 0 {
            before.len() as int
        } else {
            before.len() as int + 1
        },
        Motion::WordLeft => word_start_in(before),
        Motion::WordRight => before.len() + word_end_in(after),
        Motion::LineStart => line_start_in(before),
        Motion::LineEnd => before.len() + line_end_in(after),
    }
}

/// Every place a motion can name lies inside the text.
pub proof fn lemma_landing_in_range(before: Seq<char>, after: Seq<char>, motion: Motion)
    ensures
        0 <= landing(before, after, motion) <= before.len() + after.len(),
        0 <= term_start_in(before) <= before.len(),
        0 <= word_start_in(before) <= before.len(),
        0 <= line_start_in(before) <= before.len(),
        0 <= word_end_in(after) <= after.len(),
        0 <= line_end_in(after) <= after.len(),
{
    lemma_suffix_len(before, Run::Word);
    lemma_suffix_len(before, Run::Whitespace);
    lemma_suffix_len(before, Run::Line);
    lemma_suffix_len(before.take(before.len() - suffix_len(before, Run::Whitespace)), Run::Word);
    lemma_prefix_len(after, Run::Whitespace);
    lemma_prefix_len(after, Run::Line);
    lemma_prefix_len(after.skip(prefix_len(after, Run::Whitespace) as int), Run::Word);
}

impl EditBuffer {
    /// The cursor stands on a character boundary of the text.
    pub closed spec fn wf(&self) -> bool {
        is_char_boundary(encode_utf8(self.text@), self.cursor as int)
    }

    /// The characters ahead of the cursor.
    pub closed spec fn before(&self) -> Seq<char> {
        decode_utf8(encode_utf8(self.text@).subrange(0, self.cursor as int))
    }

    /// The characters from the cursor on.
    pub closed spec fn after(&self) -> Seq<char> {
        let bytes = encode_utf8(self.text@);
        decode_utf8(bytes.subrange(self.cursor as int, bytes.len() as int))
    }

    /// The whole text.
    pub open spec fn content(&self) -> Seq<char> {
        self.before() + self.after()
    }

    /// What the two fields hold, said over the two parts.
    proof fn lemma_parts(&self)
        requires
            self.wf(),
        ensures
            self.text@ == self.before() + self.after(),
            self.cursor == encode_utf8(self.before()).len(),
    {
        let bytes = encode_utf8(self.text@);
        vstd::utf8::encode_utf8_valid_utf8(self.text@);
        lemma_boundary_in_range(bytes, self.cursor as int);
        vstd::utf8::valid_utf8_split(bytes, self.cursor as int);
        vstd::utf8::decode_utf8_split(bytes, self.cursor as int);
        vstd::utf8::encode_utf8_decode_utf8(self.text@);
        vstd::utf8::decode_utf8_encode_utf8(bytes.subrange(0, self.cursor as int));
    }

    /// A text cut in two with the cursor at the seam is well formed, and the two parts are what
    /// stands before and after the cursor.
    proof fn lemma_from_parts(&self, before: Seq<char>, after: Seq<char>)
        requires
            self.text@ == before + after,
            self.cursor == encode_utf8(before).len(),
        ensures
            self.wf(),
            self.before() == before,
            self.after() == after,
    {
        lemma_boundary_after(before, after);
        lemma_decode_parts(before, after);
    }

    fn from_parts(before: &str, after: &str) -> (buffer: EditBuffer)
        ensures
            buffer.wf(),
            buffer.before() == before@,
            buffer.after() == after@,
    {
        let mut text = before.to_owned();
        text.append(after);
        let buffer = EditBuffer { text, cursor: byte_len(before) };
        proof {
            buffer.lemma_from_parts(before@, after@);
        }
        buffer
    }

    /// An empty buffer, the state a field opens in with nothing typed.
    pub fn new() -> (buffer: Self)
        ensures
            buffer.wf(),
            buffer.before() == Seq::<char>::empty(),
            buffer.after() == Seq::<char>::empty(),
    {
        EditBuffer::from_text(String::new())
    }

    /// A buffer holding `text` with the cursor at its end.
    pub fn from_text(text: String) -> (buffer: Self)
        ensures
            buffer.wf(),
            buffer.before() == text@,
            buffer.after() == Seq::<char>::empty(),
    {
        let cursor: usize = byte_len(text.as_str());
        let buffer = EditBuffer { text, cursor };
        proof {
            assert(text@ + Seq::<char>::empty() =~= text@);
            buffer.lemma_from_parts(text@, Seq::empty());
        }
        buffer
    }

    /// The whole typed text, embedded newlines included.
    pub fn as_str(&self) -> (text: &str)
        requires
            self.wf(),
        ensures
            text@ == self.content(),
    {
        proof {
            self.lemma_parts();
        }
        self.text.as_str()
    }

    pub fn is_empty(&self) -> (empty: bool)
        requires
            self.wf(),
        ensures
            empty == (self.content().len() == 0),
    {
        self.as_str().is_empty()
    }

    /// The cursor's own byte index.
    pub fn cursor(&self) -> (index: usize)
        requires
            self.wf(),
        ensures
            index == encode_utf8(self.before()).len(),
    {
        proof {
            self.lemma_parts();
        }
        self.cursor
    }

    fn parts(&self) -> (parts: (&str, &str))
        requires
            self.wf(),
        ensures
            parts.0@ == self.before(),
            parts.1@ == self.after(),
    {
        let parts = cut_at(self.text.as_str(), self.cursor);
        proof {
            self.lemma_from_parts(parts.0@, parts.1@);
        }
        parts
    }

    /// The text the caret follows.
    pub fn before_cursor(&self) -> (text: &str)
        requires
            self.wf(),
        ensures
            text@ == self.before(),
    {
        self.parts().0
    }

    /// The text the caret precedes.
    pub fn after_cursor(&self) -> (text: &str)
        requires
            self.wf(),
        ensures
            text@ == self.after(),
    {
        self.parts().1
    }

    /// Any printable character: inserted at the cursor, which then follows it.
    pub fn insert_char(&mut self, character: char)
        requires
            old(self).wf(),
        ensures
            final(self).wf(),
            final(self).before() == old(self).before().push(character),
            final(self).after() == old(self).after(),
    {
        let (before, after) = self.parts();
        let mut before = before.to_owned();
        before.push(character);
        *self = EditBuffer::from_parts(before.as_str(), after);
    }

    /// A whole paste, inserted at the cursor in one piece with the cursor left after it.
    pub fn insert_str(&mut self, text: &str)
        requires
            old(self).wf(),
        ensures
            final(self).wf(),
            final(self).before() == old(self).before() + text@,
            final(self).after() == old(self).after(),
    {
        let (before, after) = self.parts();
        let mut before = before.to_owned();
        before.append(text);
        *self = EditBuffer::from_parts(before.as_str(), after);
    }

    /// Replaces the whole buffer, cursor at the end of what replaced it.
    pub fn set_text(&mut self, text: String)
        ensures
            final(self).wf(),
            final(self).before() == text@,
            final(self).after() == Seq::<char>::empty(),
    {
        *self = EditBuffer::from_text(text);
    }

    /// `Ctrl+U`: clears the line, cursor back to the start.
    pub fn clear(&mut self)
        ensures
            final(self).wf(),
            final(self).before() == Seq::<char>::empty(),
            final(self).after() == Seq::<char>::empty(),
    {
        *self = EditBuffer::new();
    }

    /// Keeps the first `count` characters ahead of the cursor and everything after it.
    fn keep_before(&mut self, count: usize)
        requires
            old(self).wf(),
            count <= old(self).before().len(),
        ensures
            final(self).wf(),
            final(self).before() == old(self).before().take(count as int),
            final(self).after() == old(self).after(),
    {
        let (before, after) = self.parts();
        let kept = before.substring_char(0, count);
        *self = EditBuffer::from_parts(kept, after);
    }

    /// `Backspace`: deletes the character immediately before the cursor and leaves whatever
    /// follows the cursor alone. Inert on a cursor already at the start.
    pub fn delete_previous_char(&mut self)
        requires
            old(self).wf(),
        ensures
            final(self).wf(),
            old(self).before().len() == 0 ==> final(self).before() == old(self).before(),
            old(self).before().len() > 0 ==> final(self).before() == old(
                self,
            ).before().drop_last(),
            final(self).after() == old(self).after(),
    {
        let count: usize = self.before_cursor().unicode_len();
        if count > 0 {
            self.keep_before(count - 1);
        }
    }

    /// `Ctrl+W`: deletes one whitespace-delimited word ending at the cursor, leaving the
    /// whitespace that preceded it and whatever follows the cursor, and cutting back to the
    /// start of the text when no whitespace precedes the word.
    pub fn delete_previous_word(&mut self)
        requires
            old(self).wf(),
        ensures
            final(self).wf(),
            final(self).before() == old(self).before().take(word_start_in(old(self).before())),
            final(self).after() == old(self).after(),
    {
        let count: usize = self.word_start_before_cursor();
        self.keep_before(count);
    }

    /// Moves the cursor, clamped at both ends.
    pub fn move_cursor(&mut self, motion: Motion)
        requires
            old(self).wf(),
        ensures
            final(self).wf(),
            final(self).content() == old(self).content(),
            final(self).before().len() == landing(old(self).before(), old(self).after(), motion),
    {
        let (before, after) = self.parts();
        let ahead: usize = before.unicode_len();
        let whole: usize = self.text.as_str().unicode_len();
        proof {
            self.lemma_parts();
            lemma_landing_in_range(self.before(), self.after(), motion);
        }
        let target: usize = match motion {
            Motion::Left => if ahead == 0 {
                0
            } else {
                ahead - 1
            },
            Motion::Right => if ahead == whole {
                ahead
            } else {
                ahead + 1
            },
            Motion::WordLeft => self.word_start_before_cursor(),
            Motion::WordRight => ahead + self.word_end_after_cursor(),
            Motion::LineStart => self.line_start_before_cursor(),
            Motion::LineEnd => ahead + self.line_end_after_cursor(),
        };
        let ghost content = self.text@;
        self.cursor = byte_index(self.text.as_str(), target);
        proof {
            assert(content.take(target as int) + content.skip(target as int) =~= content);
            self.lemma_from_parts(content.take(target as int), content.skip(target as int));
        }
    }

    /// The start of the term under the cursor: one past the last run of whitespace before the
    /// cursor, or `0` if there is none, as a byte index. Whitespace right before the cursor is
    /// not trimmed away first, so a cursor after a space answers with its own index.
    pub fn term_start(&self) -> (index: usize)
        requires
            self.wf(),
        ensures
            index == encode_utf8(self.before().take(term_start_in(self.before()))).len(),
            self.is_boundary(index as int),
    {
        let before = self.before_cursor();
        let tail: usize = count_suffix(before, Run::Word);
        let start: usize = before.unicode_len() - tail;
        proof {
            self.lemma_boundary(start as int);
        }
        byte_index(before, start)
    }

    /// The term [`Self::term_start`] starts, ending at the cursor rather than at the buffer's
    /// own end.
    pub fn term_under_cursor(&self) -> (term: &str)
        requires
            self.wf(),
        ensures
            term@ == self.before().skip(term_start_in(self.before())),
    {
        let before = self.before_cursor();
        let tail: usize = count_suffix(before, Run::Word);
        let count: usize = before.unicode_len();
        before.substring_char(count - tail, count)
    }

    /// `index` is the byte index of a character ahead of the cursor, or the cursor itself.
    pub open spec fn is_boundary(&self, index: int) -> bool {
        exists|count: int|
            0 <= count <= self.before().len() && index == #[trigger] encode_utf8(
                self.before().take(count),
            ).len()
    }

    proof fn lemma_boundary(&self, count: int)
        requires
            0 <= count <= self.before().len(),
        ensures
            self.is_boundary(encode_utf8(self.before().take(count)).len() as int),
    {
    }

    /// Overwrites `start` up to the cursor with `replacement`, leaving what follows the cursor
    /// untouched and the cursor after the inserted text.
    pub fn replace_before_cursor(&mut self, start: usize, replacement: &str)
        requires
            old(self).wf(),
            old(self).is_boundary(start as int),
        ensures
            final(self).wf(),
            forall|count: int|
                0 <= count <= old(self).before().len() && start == (#[trigger] encode_utf8(
                    old(self).before().take(count),
                )).len() ==> final(self).before() == old(self).before().take(count) + replacement@,
            final(self).after() == old(self).after(),
    {
        let (before, after) = self.parts();
        let ghost count = choose|count: int|
            0 <= count <= before@.len() && start == #[trigger] encode_utf8(
                before@.take(count),
            ).len();
        proof {
            assert(before@.take(count) + before@.skip(count) =~= before@);
            lemma_boundary_after(before@.take(count), before@.skip(count));
        }
        let (kept, dropped) = cut_at(before, start);
        proof {
            assert forall|n: int|
                0 <= n <= before@.len() && start == (#[trigger] encode_utf8(
                    before@.take(n),
                )).len() implies kept@ == before@.take(n) by {
                assert(before@.take(n) + before@.skip(n) =~= before@);
                lemma_decode_parts(before@.take(n), before@.skip(n));
                lemma_decode_parts(kept@, dropped@);
            }
        }
        let mut kept = kept.to_owned();
        kept.append(replacement);
        *self = EditBuffer::from_parts(kept.as_str(), after);
    }

    /// Where [`Motion::LineStart`] lands: right after the nearest newline before the cursor, or
    /// at the start when there is none.
    fn line_start_before_cursor(&self) -> (count: usize)
        requires
            self.wf(),
        ensures
            count == line_start_in(self.before()),
    {
        let before = self.before_cursor();
        let tail: usize = count_suffix(before, Run::Line);
        before.unicode_len() - tail
    }

    /// How far [`Motion::LineEnd`] moves: to the nearest newline at or after the cursor, or to
    /// the end when there is none.
    fn line_end_after_cursor(&self) -> (count: usize)
        requires
            self.wf(),
        ensures
            count == line_end_in(self.after()),
    {
        count_prefix(self.after_cursor(), Run::Line)
    }

    /// Where the word before the cursor starts, whitespace between the two skipped first: both
    /// `Ctrl+W`'s cut and [`Motion::WordLeft`]'s landing place.
    fn word_start_before_cursor(&self) -> (count: usize)
        requires
            self.wf(),
        ensures
            count == word_start_in(self.before()),
            count <= self.before().len(),
    {
        let before = self.before_cursor();
        let gap: usize = count_suffix(before, Run::Whitespace);
        let end: usize = before.unicode_len() - gap;
        let trimmed = before.substring_char(0, end);
        let word: usize = count_suffix(trimmed, Run::Word);
        end - word
    }

    /// How far the word after the cursor ends, separators under the cursor skipped first.
    fn word_end_after_cursor(&self) -> (count: usize)
        requires
            self.wf(),
        ensures
            count == word_end_in(self.after()),
    {
        let after = self.after_cursor();
        let gap: usize = count_prefix(after, Run::Whitespace);
        let whole: usize = after.unicode_len();
        let rest = after.substring_char(gap, whole);
        let word: usize = count_prefix(rest, Run::Word);
        proof {
            assert(rest@ =~= after@.skip(gap as int));
        }
        gap + word
    }
}

impl Default for EditBuffer {
    fn default() -> (buffer: Self)
        ensures
            buffer.wf(),
            buffer.before() == Seq::<char>::empty(),
            buffer.after() == Seq::<char>::empty(),
    {
        EditBuffer::new()
    }
}


/// `Ctrl+W` cuts back to exactly where [`Motion::WordLeft`] would have landed.
pub proof fn law_the_cut_is_the_word_motion(before: Seq<char>, after: Seq<char>)
    ensures
        before.take(word_start_in(before)).len() == landing(before, after, Motion::WordLeft),
{
    lemma_landing_in_range(before, after, Motion::WordLeft);
}

/// `Ctrl+W` removes one whole word and the whitespace between it and the cursor, and no more:
/// what is left is empty or ends in whitespace, and something goes whenever anything stands
/// before the cursor.
pub proof fn law_the_cut_takes_one_word(before: Seq<char>) -> (word_end: int)
    ensures
        ({
            let start = word_start_in(before);
            &&& 0 <= start <= word_end <= before.len()
            &&& start > 0 ==> Run::Whitespace.holds(before[start - 1])
            &&& forall|i: int| start <= i < word_end ==> Run::Word.holds(#[trigger] before[i])
            &&& forall|i: int|
                word_end <= i < before.len() ==> Run::Whitespace.holds(#[trigger] before[i])
            &&& before.len() > 0 ==> start < before.len()
            &&& start == word_end ==> start == 0
        }),
{
    let end = before.len() - suffix_len(before, Run::Whitespace);
    let trimmed = before.take(end);
    lemma_suffix_len(before, Run::Whitespace);
    lemma_suffix_len(trimmed, Run::Word);
    let start = word_start_in(before);
    assert forall|i: int| start <= i < end implies Run::Word.holds(#[trigger] before[i]) by {
        assert(trimmed[i] == before[i]);
    }
    if start > 0 {
        assert(trimmed[start - 1] == before[start - 1]);
        assert(Run::Word.holds(before[end - 1]));
    }
    end
}

/// The term under the cursor holds no whitespace, and starts the text or follows whitespace.
pub proof fn law_a_term_is_delimited_by_whitespace(before: Seq<char>)
    ensures
        ({
            let start = term_start_in(before);
            &&& 0 <= start <= before.len()
            &&& start > 0 ==> Run::Whitespace.holds(before[start - 1])
            &&& forall|i: int| start <= i < before.len() ==> Run::Word.holds(#[trigger] before[i])
        }),
{
    lemma_suffix_len(before, Run::Word);
}

/// A character typed and then deleted leaves the buffer as it was.
pub proof fn law_backspace_undoes_typing(before: Seq<char>, character: char)
    ensures
        before.push(character).drop_last() == before,
{
    assert(before.push(character).drop_last() =~= before);
}

/// A step right after a step left, or left after right, comes back to where it started unless
/// the first step was stopped by the edge of the text.
pub proof fn law_left_and_right_undo_each_other(before: Seq<char>, after: Seq<char>)
    ensures
        before.len() > 0 ==> ({
            let at = landing(before, after, Motion::Left);
            let text = before + after;
            landing(text.take(at), text.skip(at), Motion::Right) == before.len()
        }),
        after.len() > 0 ==> ({
            let at = landing(before, after, Motion::Right);
            let text = before + after;
            landing(text.take(at), text.skip(at), Motion::Left) == before.len()
        }),
{
}

/// Both line motions stay on the cursor's own line, and each lands on that line's end: the
/// start of the text or just after a newline, the end of the text or just before one.
pub proof fn law_line_motions_land_on_the_lines_own_ends(before: Seq<char>, after: Seq<char>)
    ensures
        ({
            let start = landing(before, after, Motion::LineStart);
            let end = landing(before, after, Motion::LineEnd);
            let text = before + after;
            &&& 0 <= start <= before.len() <= end <= text.len()
            &&& start > 0 ==> text[start - 1] == '\n'
            &&& end < text.len() ==> text[end] == '\n'
            &&& forall|i: int| start <= i < end ==> #[trigger] text[i] != '\n'
        }),
{
    lemma_suffix_len(before, Run::Line);
    lemma_prefix_len(after, Run::Line);
    let start = landing(before, after, Motion::LineStart);
    let end = landing(before, after, Motion::LineEnd);
    let text = before + after;
    assert forall|i: int| start <= i < end implies #[trigger] text[i] != '\n' by {
        if i < before.len() {
            assert(Run::Line.holds(before[i]));
        } else {
            assert(Run::Line.holds(after[i - before.len()]));
        }
    }
}

/// Moving right by a word stops right behind that word: at the end of the text, or on the
/// whitespace that ends it.
pub proof fn law_word_right_stops_behind_a_word(after: Seq<char>)
    ensures
        ({
            let end = word_end_in(after);
            &&& 0 <= end <= after.len()
            &&& end < after.len() ==> Run::Whitespace.holds(after[end])
            &&& end > 0 && end < after.len() ==> Run::Word.holds(after[end - 1])
            &&& after.len() > 0 ==> end > 0
        }),
{
    let gap = prefix_len(after, Run::Whitespace) as int;
    let rest = after.skip(gap);
    lemma_prefix_len(after, Run::Whitespace);
    lemma_prefix_len(rest, Run::Word);
    let end = word_end_in(after);
    if gap < after.len() {
        assert(rest[0] == after[gap]);
    }
    if end < after.len() {
        assert(rest[end - gap] == after[end]);
        if end > gap {
            assert(rest[end - gap - 1] == after[end - 1]);
        }
    }
}

/// Left and right move by one character and stop at the ends of the text; a word motion lands
/// where the word it crosses begins or ends, whatever whitespace lies between it and the cursor.
pub proof fn law_where_each_motion_lands(before: Seq<char>, after: Seq<char>) -> (gap: (int, int))
    ensures
        before.len() > 0 ==> landing(before, after, Motion::Left) == before.len() - 1,
        before.len() == 0 ==> landing(before, after, Motion::Left) == 0,
        after.len() > 0 ==> landing(before, after, Motion::Right) == before.len() + 1,
        after.len() == 0 ==> landing(before, after, Motion::Right) == before.len(),
        ({
            let start = landing(before, after, Motion::WordLeft);
            let end = gap.0;
            &&& 0 <= start <= end <= before.len()
            &&& start == end ==> end == 0
            &&& start > 0 ==> Run::Whitespace.holds(before[start - 1])
            &&& forall|i: int| start <= i < end ==> Run::Word.holds(#[trigger] before[i])
            &&& forall|i: int|
                end <= i < before.len() ==> Run::Whitespace.holds(#[trigger] before[i])
        }),
        ({
            let end = landing(before, after, Motion::WordRight) - before.len();
            let start = gap.1;
            &&& 0 <= start <= end <= after.len()
            &&& start == end ==> end == after.len()
            &&& end < after.len() ==> Run::Whitespace.holds(after[end])
            &&& forall|i: int| start <= i < end ==> Run::Word.holds(#[trigger] after[i])
            &&& forall|i: int| 0 <= i < start ==> Run::Whitespace.holds(#[trigger] after[i])
        }),
{
    let end = law_the_cut_takes_one_word(before);
    let start = prefix_len(after, Run::Whitespace) as int;
    let rest = after.skip(start);
    lemma_prefix_len(after, Run::Whitespace);
    lemma_prefix_len(rest, Run::Word);
    let stop = word_end_in(after);
    assert forall|i: int| start <= i < stop implies Run::Word.holds(#[trigger] after[i]) by {
        assert(rest[i - start] == after[i]);
    }
    if start < after.len() {
        assert(rest[0] == after[start]);
    }
    if stop < after.len() {
        assert(rest[stop - start] == after[stop]);
    }
    (end, start)
}

/// Whitespace and words share no character and leave none out, and a line holds every character
/// but the newline.
pub proof fn law_every_character_is_whitespace_or_part_of_a_word(c: char)
    ensures
        Run::Whitespace.holds(c) == is_whitespace_spec(c),
        Run::Word.holds(c) == !is_whitespace_spec(c),
        Run::Line.holds(c) == (c != '\n'),
{
}

} // verus!
