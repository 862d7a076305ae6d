//! The two vetted glyph tables, `full` and `ascii`: what each character drawn in a row means,
//! and the frame every panel is drawn from.
//!
//! Two obligations hold over the row interior, the gutter marks, the value marks and the loading
//! frames: no table lets two meanings share a character, and a character both tables hold means
//! the same in each. The panel frame is outside them and may collapse shapes onto one character.

use vstd::prelude::*;

use crate::text::chars_of;

verus! {

broadcast use {vstd::string::group_string_axioms, vstd::seq_lib::group_seq_properties};

/// How long one spinner frame is shown, in milliseconds: a full rotation of the ten takes 800.
pub const FULL_SPINNER_INTERVAL_MILLIS: u64 = 80;

/// Which table the configuration names.
#[derive(Clone, Copy, Debug, PartialEq, Eq, Structural)]
pub enum Glyphs {
    Full,
    Ascii,
}

/// One panel border's four corners plus its two straight runs.
#[derive(Clone, Copy, Debug, PartialEq, Eq, Structural)]
pub struct Border {
    pub top_left: char,
    pub top_right: char,
    pub bottom_left: char,
    pub bottom_right: char,
    pub horizontal: char,
    pub vertical: char,
}

impl Border {
    /// Every character this frame draws.
    pub open spec fn chars_spec(self) -> Seq<char> {
        seq![
            self.top_left,
            self.top_right,
            self.bottom_left,
            self.bottom_right,
            self.horizontal,
            self.vertical,
        ]
    }

    /// Every character this frame draws.
    pub fn chars(&self) -> (chars: [char; 6])
        ensures
            chars@ == self.chars_spec(),
    {
        [
            self.top_left,
            self.top_right,
            self.bottom_left,
            self.bottom_right,
            self.horizontal,
            self.vertical,
        ]
    }

    /// The character of each of the eight parts a frame is drawn from: the four corners, the
    /// left and right runs, the top and bottom runs.
    pub open spec fn parts_spec(self) -> Seq<char> {
        seq![
            self.top_left,
            self.top_right,
            self.bottom_left,
            self.bottom_right,
            self.vertical,
            self.vertical,
            self.horizontal,
            self.horizontal,
        ]
    }

    /// The character of each of the eight parts a frame is drawn from.
    pub fn parts(&self) -> (parts: [char; 8])
        ensures
            parts@ == self.parts_spec(),
    {
        [
            self.top_left,
            self.top_right,
            self.bottom_left,
            self.bottom_right,
            self.vertical,
            self.vertical,
            self.horizontal,
            self.horizontal,
        ]
    }
}

/// One named meaning a row interior glyph renders, gutter or value alike.
#[derive(Clone, Copy, Debug, PartialEq, Eq, Hash, Structural)]
pub enum Meaning {
    Fresh,
    Stale,
    Unknown,
    Failed,
    InSync,
    Clean,
    NoUpstream,
    NoRemote,
    Ahead,
    Behind,
    Changed,
    ChildRow,
    Checked,
    Truncated,
    Loading,
}

impl Meaning {
    /// Every meaning, in order.
    pub open spec fn all_spec() -> Seq<Meaning> {
        seq![
            Meaning::Fresh,
            Meaning::Stale,
            Meaning::Unknown,
            Meaning::Failed,
            Meaning::InSync,
            Meaning::Clean,
            Meaning::NoUpstream,
            Meaning::NoRemote,
            Meaning::Ahead,
            Meaning::Behind,
            Meaning::Changed,
            Meaning::ChildRow,
            Meaning::Checked,
            Meaning::Truncated,
            Meaning::Loading,
        ]
    }

    /// Every meaning, in order.
    pub fn all() -> (meanings: Vec<Meaning>)
        ensures
            meanings@ == Meaning::all_spec(),
    {
        vec![
            Meaning::Fresh,
            Meaning::Stale,
            Meaning::Unknown,
            Meaning::Failed,
            Meaning::InSync,
            Meaning::Clean,
            Meaning::NoUpstream,
            Meaning::NoRemote,
            Meaning::Ahead,
            Meaning::Behind,
            Meaning::Changed,
            Meaning::ChildRow,
            Meaning::Checked,
            Meaning::Truncated,
            Meaning::Loading,
        ]
    }
}

/// One table: a character for every meaning, the frames of the loading spinner, the panel frame,
/// and what stands for output left out of a capture.
#[derive(Clone, Debug, PartialEq, Eq)]
pub struct GlyphSet {
    pub fresh: char,
    pub stale: char,
    pub unknown: char,
    pub failed: char,
    pub in_sync: char,
    pub clean: char,
    pub no_upstream: char,
    pub no_remote: char,
    pub ahead: char,
    pub behind: char,
    pub changed: char,
    pub child_row: char,
    pub checked: char,
    pub truncated: char,
    pub loading: Vec<char>,
    pub border: Border,
    pub capture_elision: &'static str,
}

/// Each frame of the spinner with what it means.
pub open spec fn loading_marks(frames: Seq<char>) -> Seq<(Meaning, char)> {
    frames.map_values(|frame: char| (Meaning::Loading, frame))
}

impl GlyphSet {
    /// The gutter marks and what they mean.
    pub open spec fn gutter_marks(self) -> Seq<(Meaning, char)> {
        seq![
            (Meaning::Fresh, self.fresh),
            (Meaning::Stale, self.stale),
            (Meaning::Unknown, self.unknown),
            (Meaning::Failed, self.failed),
        ]
    }

    /// The value marks and what they mean.
    pub open spec fn value_marks(self) -> Seq<(Meaning, char)> {
        seq![
            (Meaning::InSync, self.in_sync),
            (Meaning::Clean, self.clean),
            (Meaning::NoUpstream, self.no_upstream),
            (Meaning::NoRemote, self.no_remote),
            (Meaning::Ahead, self.ahead),
            (Meaning::Behind, self.behind),
            (Meaning::Changed, self.changed),
            (Meaning::ChildRow, self.child_row),
            (Meaning::Checked, self.checked),
            (Meaning::Truncated, self.truncated),
        ]
    }

    /// Every glyph this table draws inside the row interior, with what it means.
    pub open spec fn interior(self) -> Seq<(Meaning, char)> {
        self.gutter_marks() + self.value_marks() + loading_marks(self.loading@)
    }

    /// Every glyph this table draws inside the row interior, paired with the meaning it renders.
    pub fn row_interior(&self) -> (glyphs: Vec<(Meaning, char)>)
        ensures
            glyphs@ == self.interior(),
    {
        let mut glyphs: Vec<(Meaning, char)> = vec![
            (Meaning::Fresh, self.fresh),
            (Meaning::Stale, self.stale),
            (Meaning::Unknown, self.unknown),
            (Meaning::Failed, self.failed),
            (Meaning::InSync, self.in_sync),
            (Meaning::Clean, self.clean),
            (Meaning::NoUpstream, self.no_upstream),
            (Meaning::NoRemote, self.no_remote),
            (Meaning::Ahead, self.ahead),
            (Meaning::Behind, self.behind),
            (Meaning::Changed, self.changed),
            (Meaning::ChildRow, self.child_row),
            (Meaning::Checked, self.checked),
            (Meaning::Truncated, self.truncated),
        ];
        let ghost marks = glyphs@;
        proof {
            assert(marks =~= self.gutter_marks() + self.value_marks());
        }
        let mut i: usize = 0;
        while i < self.loading.len()
            invariant
                i <= self.loading.len(),
                glyphs@ == marks + loading_marks(self.loading@.take(i as int)),
            decreases self.loading.len() - i,
        {
            glyphs.push((Meaning::Loading, self.loading[i]));
            i = i + 1;
        }
        proof {
            assert(self.loading@.take(i as int) =~= self.loading@);
        }
        glyphs
    }

    /// The characters of some marks.
    pub open spec fn chars_of_marks(marks: Seq<(Meaning, char)>) -> Seq<char> {
        marks.map_values(|mark: (Meaning, char)| mark.1)
    }

    /// Every glyph in this table, row interior and frame alike.
    pub fn all_glyphs(&self) -> (glyphs: Vec<char>)
        ensures
            glyphs@ == Self::chars_of_marks(self.interior()) + self.border.chars_spec()
                + self.capture_elision@,
    {
        let interior = self.row_interior();
        let mut glyphs: Vec<char> = Vec::new();
        let mut i: usize = 0;
        while i < interior.len()
            invariant
                i <= interior.len(),
                glyphs@ == Self::chars_of_marks(interior@.take(i as int)),
            decreases interior.len() - i,
        {
            glyphs.push(interior[i].1);
            i = i + 1;
        }
        proof {
            assert(interior@.take(i as int) =~= interior@);
        }
        let border = self.border.chars();
        let mut k: usize = 0;
        while k < 6
            invariant
                k <= 6,
                border@ == self.border.chars_spec(),
                glyphs@ == Self::chars_of_marks(self.interior()) + border@.take(k as int),
            decreases 6 - k,
        {
            glyphs.push(border[k]);
            k = k + 1;
        }
        proof {
            assert(border@.take(6) =~= border@);
        }
        let mut elision = chars_of(self.capture_elision);
        glyphs.append(&mut elision);
        glyphs
    }

    /// This table's gutter marks, the loading frames left out.
    pub fn gutter_core(&self) -> (core: [char; 4])
        ensures
            core@ == Self::chars_of_marks(self.gutter_marks()),
    {
        let core = [
            self.fresh,
            self.stale,
            self.unknown,
            self.failed,
        ];
        proof {
            assert(core@ =~= Self::chars_of_marks(self.gutter_marks()));
        }
        core
    }

    /// This table's value marks.
    pub fn value_core(&self) -> (core: [char; 10])
        ensures
            core@ == Self::chars_of_marks(self.value_marks()),
    {
        let core = [
            self.in_sync,
            self.clean,
            self.no_upstream,
            self.no_remote,
            self.ahead,
            self.behind,
            self.changed,
            self.child_row,
            self.checked,
            self.truncated,
        ];
        proof {
            assert(core@ =~= Self::chars_of_marks(self.value_marks()));
        }
        core
    }

    /// `self` is the full table.
    pub open spec fn is_full(self) -> bool {
        &&& self.fresh == ' '
        &&& self.stale == '~'
        &&& self.unknown == '?'
        &&& self.failed == '!'
        &&& self.in_sync == '≡'
        &&& self.clean == '·'
        &&& self.no_upstream == '-'
        &&& self.no_remote == '∅'
        &&& self.ahead == '↑'
        &&& self.behind == '↓'
        &&& self.changed == '●'
        &&& self.child_row == '└'
        &&& self.checked == '✓'
        &&& self.truncated == '$'
        &&& self.loading@ == seq!['⠋', '⠙', '⠹', '⠸', '⠼', '⠴', '⠦', '⠧', '⠇', '⠏']
        &&& self.border.top_left == '╭'
        &&& self.border.top_right == '╮'
        &&& self.border.bottom_left == '╰'
        &&& self.border.bottom_right == '╯'
        &&& self.border.horizontal == '─'
        &&& self.border.vertical == '│'
        &&& self.capture_elision@ == "···"@
    }

    /// The table for a terminal font that covers it: the ten-frame `dots` spinner, and a rounded frame.
    pub fn full() -> (glyphs: GlyphSet)
        ensures
            glyphs.is_full(),
    {
        GlyphSet {
            fresh: ' ',
            stale: '~',
            unknown: '?',
            failed: '!',
            in_sync: '≡',
            clean: '·',
            no_upstream: '-',
            no_remote: '∅',
            ahead: '↑',
            behind: '↓',
            changed: '●',
            child_row: '└',
            checked: '✓',
            truncated: '$',
            loading: vec!['⠋', '⠙', '⠹', '⠸', '⠼', '⠴', '⠦', '⠧', '⠇', '⠏'],
            border: Border {
                top_left: '╭',
                top_right: '╮',
                bottom_left: '╰',
                bottom_right: '╯',
                horizontal: '─',
                vertical: '│',
            },
            capture_elision: "···",
        }
    }

    /// `self` is the ascii table.
    pub open spec fn is_ascii(self) -> bool {
        &&& self.fresh == ' '
        &&& self.stale == '~'
        &&& self.unknown == '?'
        &&& self.failed == '!'
        &&& self.in_sync == '='
        &&& self.clean == '.'
        &&& self.no_upstream == '-'
        &&& self.no_remote == 'x'
        &&& self.ahead == '>'
        &&& self.behind == '<'
        &&& self.changed == '*'
        &&& self.child_row == '`'
        &&& self.checked == '+'
        &&& self.truncated == '$'
        &&& self.loading@ == seq!['\\', '|', '/']
        &&& self.border.top_left == '+'
        &&& self.border.top_right == '+'
        &&& self.border.bottom_left == '+'
        &&& self.border.bottom_right == '+'
        &&& self.border.horizontal == '-'
        &&& self.border.vertical == '|'
        &&& self.capture_elision@ == "..."@
    }

    /// The table every terminal font covers. Its spinner leaves out `-`, which means no upstream.
    pub fn ascii() -> (glyphs: GlyphSet)
        ensures
            glyphs.is_ascii(),
    {
        GlyphSet {
            fresh: ' ',
            stale: '~',
            unknown: '?',
            failed: '!',
            in_sync: '=',
            clean: '.',
            no_upstream: '-',
            no_remote: 'x',
            ahead: '>',
            behind: '<',
            changed: '*',
            child_row: '`',
            checked: '+',
            truncated: '$',
            loading: vec!['\\', '|', '/'],
            border: Border {
                top_left: '+',
                top_right: '+',
                bottom_left: '+',
                bottom_right: '+',
                horizontal: '-',
                vertical: '|',
            },
            capture_elision: "...",
        }
    }

    /// The table [`Glyphs`] selects.
    pub fn for_config(glyphs: Glyphs) -> (table: GlyphSet)
        ensures
            glyphs == Glyphs::Full ==> table.is_full(),
            glyphs == Glyphs::Ascii ==> table.is_ascii(),
    {
        match glyphs {
            Glyphs::Full => GlyphSet::full(),
            Glyphs::Ascii => GlyphSet::ascii(),
        }
    }
}

/// Room for the UTF-8 encodings of the eight parts of a frame, for a border whose characters are
/// borrowed as text.
#[derive(Debug)]
pub struct BorderScratch {
    pub slots: [[u8; 4]; 8],
}

impl BorderScratch {
    /// Room for a frame, all of it zero.
    pub fn new() -> (scratch: Self)
        ensures
            forall|i: int, k: int|
                0 <= i < 8 && 0 <= k < 4 ==> #[trigger] scratch.slots@[i]@[k] == 0,
    {
        BorderScratch {
            slots: [
                [0, 0, 0, 0],
                [0, 0, 0, 0],
                [0, 0, 0, 0],
                [0, 0, 0, 0],
                [0, 0, 0, 0],
                [0, 0, 0, 0],
                [0, 0, 0, 0],
                [0, 0, 0, 0],
            ],
        }
    }
}

impl Default for BorderScratch {
    fn default() -> (scratch: Self)
        ensures
            forall|i: int, k: int|
                0 <= i < 8 && 0 <= k < 4 ==> #[trigger] scratch.slots@[i]@[k] == 0,
    {
        BorderScratch::new()
    }
}

/// No character stands in both.
pub open spec fn disjoint_spec(a: Seq<char>, b: Seq<char>) -> bool {
    forall|i: int, j: int|
        0 <= i < a.len() && 0 <= j < b.len() ==> #[trigger] a[i] != #[trigger] b[j]
}

/// Whether no character stands in both.
pub fn disjoint(a: &[char], b: &[char]) -> (apart: bool)
    ensures
        apart == disjoint_spec(a@, b@),
{
    let mut i: usize = 0;
    while i < a.len()
        invariant
            i <= a@.len(),
            forall|x: int, y: int|
                0 <= x < i && 0 <= y < b@.len() ==> #[trigger] a@[x] != #[trigger] b@[y],
        decreases a@.len() - i,
    {
        let mut j: usize = 0;
        while j < b.len()
            invariant
                i < a@.len(),
                j <= b@.len(),
                forall|y: int| 0 <= y < j ==> a@[i as int] != #[trigger] b@[y],
            decreases b@.len() - j,
        {
            if a[i] == b[j] {
                return false;
            }
            j = j + 1;
        }
        i = i + 1;
    }
    true
}

/// No two entries share a character.
pub open spec fn injective(marks: Seq<(Meaning, char)>) -> bool {
    forall|i: int, j: int|
        0 <= i < marks.len() && 0 <= j < marks.len() && (#[trigger] marks[i]).1 == (
        #[trigger] marks[j]).1 ==> i == j
}

/// In neither table do two meanings share a character, so every character drawn inside a row
/// means one thing.
pub proof fn law_no_two_meanings_share_a_glyph(table: GlyphSet)
    requires
        table.is_full() || table.is_ascii(),
    ensures
        injective(table.interior()),
{
}

/// A character both tables hold means the same in each.
pub proof fn law_a_shared_glyph_means_the_same(full: GlyphSet, ascii: GlyphSet, i: int, j: int)
    requires
        full.is_full(),
        ascii.is_ascii(),
        0 <= i < full.interior().len(),
        0 <= j < ascii.interior().len(),
        full.interior()[i].1 == ascii.interior()[j].1,
    ensures
        full.interior()[i].0 == ascii.interior()[j].0,
{
}

/// Both tables give every meaning a glyph.
pub proof fn law_every_meaning_has_a_glyph(table: GlyphSet, meaning: Meaning)
    requires
        table.is_full() || table.is_ascii(),
    ensures
        exists|i: int|
            0 <= i < table.interior().len() && (#[trigger] table.interior()[i]).0 == meaning,
{
    let marks = table.interior();
    assert(marks.len() >= 15);
    assert(marks[0].0 == Meaning::Fresh);
    assert(marks[1].0 == Meaning::Stale);
    assert(marks[2].0 == Meaning::Unknown);
    assert(marks[3].0 == Meaning::Failed);
    assert(marks[4].0 == Meaning::InSync);
    assert(marks[5].0 == Meaning::Clean);
    assert(marks[6].0 == Meaning::NoUpstream);
    assert(marks[7].0 == Meaning::NoRemote);
    assert(marks[8].0 == Meaning::Ahead);
    assert(marks[9].0 == Meaning::Behind);
    assert(marks[10].0 == Meaning::Changed);
    assert(marks[11].0 == Meaning::ChildRow);
    assert(marks[12].0 == Meaning::Checked);
    assert(marks[13].0 == Meaning::Truncated);
    assert(marks[14].0 == Meaning::Loading);
}

/// In neither table does a gutter mark or a loading frame share a character with a value mark.
pub proof fn law_gutter_and_value_marks_are_disjoint(table: GlyphSet)
    requires
        table.is_full() || table.is_ascii(),
    ensures
        disjoint_spec(
            GlyphSet::chars_of_marks(table.gutter_marks()),
            GlyphSet::chars_of_marks(table.value_marks()),
        ),
        disjoint_spec(table.loading@, GlyphSet::chars_of_marks(table.value_marks())),
{
}

/// What the full table draws: every mark of a row with the one character that stands for it, ten
/// loading frames, and a rounded frame.
pub proof fn law_what_the_full_table_draws(table: GlyphSet)
    requires
        table.is_full(),
    ensures
        ({
            let marks = table.interior();
            &&& marks.len() == 24
            &&& marks[0] == (Meaning::Fresh, ' ')
            &&& marks[1] == (Meaning::Stale, '~')
            &&& marks[2] == (Meaning::Unknown, '?')
            &&& marks[3] == (Meaning::Failed, '!')
            &&& marks[4] == (Meaning::InSync, '≡')
            &&& marks[5] == (Meaning::Clean, '·')
            &&& marks[6] == (Meaning::NoUpstream, '-')
            &&& marks[7] == (Meaning::NoRemote, '∅')
            &&& marks[8] == (Meaning::Ahead, '↑')
            &&& marks[9] == (Meaning::Behind, '↓')
            &&& marks[10] == (Meaning::Changed, '●')
            &&& marks[11] == (Meaning::ChildRow, '└')
            &&& marks[12] == (Meaning::Checked, '✓')
            &&& marks[13] == (Meaning::Truncated, '$')
            &&& marks[14] == (Meaning::Loading, '⠋')
            &&& marks[15] == (Meaning::Loading, '⠙')
            &&& marks[16] == (Meaning::Loading, '⠹')
            &&& marks[17] == (Meaning::Loading, '⠸')
            &&& marks[18] == (Meaning::Loading, '⠼')
            &&& marks[19] == (Meaning::Loading, '⠴')
            &&& marks[20] == (Meaning::Loading, '⠦')
            &&& marks[21] == (Meaning::Loading, '⠧')
            &&& marks[22] == (Meaning::Loading, '⠇')
            &&& marks[23] == (Meaning::Loading, '⠏')
        }),
        table.border.chars_spec() == seq!['╭', '╮', '╰', '╯', '─', '│'],
        table.capture_elision@ == "···"@,
{
}

/// What the ascii table draws: every mark of a row with the one ASCII character that stands for
/// it, three loading frames, and a square frame.
pub proof fn law_what_the_ascii_table_draws(table: GlyphSet)
    requires
        table.is_ascii(),
    ensures
        ({
            let marks = table.interior();
            &&& marks.len() == 17
            &&& marks[0] == (Meaning::Fresh, ' ')
            &&& marks[1] == (Meaning::Stale, '~')
            &&& marks[2] == (Meaning::Unknown, '?')
            &&& marks[3] == (Meaning::Failed, '!')
            &&& marks[4] == (Meaning::InSync, '=')
            &&& marks[5] == (Meaning::Clean, '.')
            &&& marks[6] == (Meaning::NoUpstream, '-')
            &&& marks[7] == (Meaning::NoRemote, 'x')
            &&& marks[8] == (Meaning::Ahead, '>')
            &&& marks[9] == (Meaning::Behind, '<')
            &&& marks[10] == (Meaning::Changed, '*')
            &&& marks[11] == (Meaning::ChildRow, '`')
            &&& marks[12] == (Meaning::Checked, '+')
            &&& marks[13] == (Meaning::Truncated, '$')
            &&& marks[14] == (Meaning::Loading, '\\')
            &&& marks[15] == (Meaning::Loading, '|')
            &&& marks[16] == (Meaning::Loading, '/')
        }),
        table.border.chars_spec() == seq!['+', '+', '+', '+', '-', '|'],
        table.capture_elision@ == "..."@,
{
}

/// A frame of any table has its own corner in each corner, its vertical run on both sides and its
/// horizontal run above and below.
pub proof fn law_each_part_of_a_frame(border: Border)
    ensures
        border.parts_spec().len() == 8,
        border.parts_spec()[0] == border.top_left,
        border.parts_spec()[1] == border.top_right,
        border.parts_spec()[2] == border.bottom_left,
        border.parts_spec()[3] == border.bottom_right,
        border.parts_spec()[4] == border.vertical,
        border.parts_spec()[5] == border.vertical,
        border.parts_spec()[6] == border.horizontal,
        border.parts_spec()[7] == border.horizontal,
        border.chars_spec().len() == 6,
        border.chars_spec()[0] == border.top_left,
        border.chars_spec()[1] == border.top_right,
        border.chars_spec()[2] == border.bottom_left,
        border.chars_spec()[3] == border.bottom_right,
        border.chars_spec()[4] == border.horizontal,
        border.chars_spec()[5] == border.vertical,
{
}

/// In any table each mark of a row is drawn with the character of its own field, gutter first,
/// then values, then the loading frames in order, and nothing else is.
pub proof fn law_each_mark_is_drawn_from_its_field(table: GlyphSet)
    ensures
        ({
            let marks = table.interior();
            &&& marks.len() == 14 + table.loading@.len()
            &&& marks[0] == (Meaning::Fresh, table.fresh)
            &&& marks[1] == (Meaning::Stale, table.stale)
            &&& marks[2] == (Meaning::Unknown, table.unknown)
            &&& marks[3] == (Meaning::Failed, table.failed)
            &&& marks[4] == (Meaning::InSync, table.in_sync)
            &&& marks[5] == (Meaning::Clean, table.clean)
            &&& marks[6] == (Meaning::NoUpstream, table.no_upstream)
            &&& marks[7] == (Meaning::NoRemote, table.no_remote)
            &&& marks[8] == (Meaning::Ahead, table.ahead)
            &&& marks[9] == (Meaning::Behind, table.behind)
            &&& marks[10] == (Meaning::Changed, table.changed)
            &&& marks[11] == (Meaning::ChildRow, table.child_row)
            &&& marks[12] == (Meaning::Checked, table.checked)
            &&& marks[13] == (Meaning::Truncated, table.truncated)
            &&& forall|i: int|
                0 <= i < table.loading@.len() ==> marks[14 + i] == (
                    Meaning::Loading,
                    #[trigger] table.loading@[i],
                )
            &&& marks.take(4) == table.gutter_marks()
            &&& marks.subrange(4, 14) == table.value_marks()
        }),
{
    let marks = table.interior();
    assert(marks.take(4) =~= table.gutter_marks());
    assert(marks.subrange(4, 14) =~= table.value_marks());
}

/// Every meaning is listed, once, in the order it is declared in.
pub proof fn law_every_meaning_is_listed_once(meaning: Meaning)
    ensures
        Meaning::all_spec().contains(meaning),
        Meaning::all_spec().len() == 15,
        Meaning::all_spec()[0] == Meaning::Fresh,
        Meaning::all_spec()[1] == Meaning::Stale,
        Meaning::all_spec()[2] == Meaning::Unknown,
        Meaning::all_spec()[3] == Meaning::Failed,
        Meaning::all_spec()[4] == Meaning::InSync,
        Meaning::all_spec()[5] == Meaning::Clean,
        Meaning::all_spec()[6] == Meaning::NoUpstream,
        Meaning::all_spec()[7] == Meaning::NoRemote,
        Meaning::all_spec()[8] == Meaning::Ahead,
        Meaning::all_spec()[9] == Meaning::Behind,
        Meaning::all_spec()[10] == Meaning::Changed,
        Meaning::all_spec()[11] == Meaning::ChildRow,
        Meaning::all_spec()[12] == Meaning::Checked,
        Meaning::all_spec()[13] == Meaning::Truncated,
        Meaning::all_spec()[14] == Meaning::Loading,
{
    let all = Meaning::all_spec();
    assert(all[0] == Meaning::Fresh);
    assert(all[1] == Meaning::Stale);
    assert(all[2] == Meaning::Unknown);
    assert(all[3] == Meaning::Failed);
    assert(all[4] == Meaning::InSync);
    assert(all[5] == Meaning::Clean);
    assert(all[6] == Meaning::NoUpstream);
    assert(all[7] == Meaning::NoRemote);
    assert(all[8] == Meaning::Ahead);
    assert(all[9] == Meaning::Behind);
    assert(all[10] == Meaning::Changed);
    assert(all[11] == Meaning::ChildRow);
    assert(all[12] == Meaning::Checked);
    assert(all[13] == Meaning::Truncated);
    assert(all[14] == Meaning::Loading);
}

/// Ten frames of the full spinner take eight tenths of a second.
pub proof fn law_how_long_the_spinner_takes(table: GlyphSet)
    requires
        table.is_full(),
    ensures
        table.loading@.len() * FULL_SPINNER_INTERVAL_MILLIS == 800,
{
}

/// Two lists are disjoint exactly where no character stands in both.
pub proof fn law_disjoint_lists_share_no_character(a: Seq<char>, b: Seq<char>)
    ensures
        disjoint_spec(a, b) <==> forall|c: char| !(#[trigger] a.contains(c) && b.contains(c)),
{
    if forall|c: char| !(#[trigger] a.contains(c) && b.contains(c)) {
        assert forall|i: int, j: int| 0 <= i < a.len() && 0 <= j < b.len() implies #[trigger] a[i]
            != #[trigger] b[j] by {
            assert(a.contains(a[i]));
            assert(b.contains(b[j]));
        }
    }
}

} // verus!
