//! Text as a sequence of characters: the byte arithmetic of UTF-8, and the searches and joins
//! the rest of the crate is written in terms of.

use vstd::prelude::*;
use vstd::utf8::{decode_utf8, encode_scalar, encode_utf8, is_char_boundary, valid_utf8};

verus! {

broadcast use {vstd::string::group_string_axioms, vstd::seq_lib::group_seq_properties};

/// A character with Unicode's `White_Space` property.
pub open spec fn is_whitespace_spec(c: char) -> bool {
    ||| '\u{9}' <= c <= '\u{d}'
    ||| c == ' '
    ||| c == '\u{85}'
    ||| c == '\u{a0}'
    ||| c == '\u{1680}'
    ||| '\u{2000}' <= c <= '\u{200a}'
    ||| c == '\u{2028}'
    ||| c == '\u{2029}'
    ||| c == '\u{202f}'
    ||| c == '\u{205f}'
    ||| c == '\u{3000}'
}

/// Whether `c` separates words.
pub fn is_whitespace(c: char) -> (found: bool)
    ensures
        found == is_whitespace_spec(c),
{
    ('\u{9}' <= c && c <= '\u{d}') || c == ' ' || c == '\u{85}' || c == '\u{a0}' || c == '\u{1680}'
        || ('\u{2000}' <= c && c <= '\u{200a}') || c == '\u{2028}' || c == '\u{2029}' || c
        == '\u{202f}' || c == '\u{205f}' || c == '\u{3000}'
}

/// The runs of characters the editing operations skip over or stop at.
#[derive(Clone, Copy, Debug, PartialEq, Eq, Structural)]
pub enum Run {
    /// Characters that separate words.
    Whitespace,
    /// Characters that make words up.
    Word,
    /// Characters that are not a newline.
    Line,
}

impl Run {
    pub open spec fn holds(self, c: char) -> bool {
        match self {
            Run::Whitespace => is_whitespace_spec(c),
            Run::Word => !is_whitespace_spec(c),
            Run::Line => c != '\n',
        }
    }

    /// Whether `c` can stand in this run.
    pub fn admits(self, c: char) -> (admitted: bool)
        ensures
            admitted == self.holds(c),
    {
        match self {
            Run::Whitespace => is_whitespace(c),
            Run::Word => !is_whitespace(c),
            Run::Line => c != '\n',
        }
    }
}

/// How many characters at the start of `s` belong to `run`.
pub open spec fn prefix_len(s: Seq<char>, run: Run) -> nat
    decreases s.len(),
{
    if s.len() == 0 || !run.holds(s[0]) {
        0
    } else {
        1 + prefix_len(s.drop_first(), run)
    }
}

/// How many characters at the end of `s` belong to `run`.
pub open spec fn suffix_len(s: Seq<char>, run: Run) -> nat
    decreases s.len(),
{
    if s.len() == 0 || !run.holds(s.last()) {
        0
    } else {
        1 + suffix_len(s.drop_last(), run)
    }
}

/// A prefix run stays inside the text, is made of the run's characters, and stops at the first
/// character outside it.
pub proof fn lemma_prefix_len(s: Seq<char>, run: Run)
    ensures
        prefix_len(s, run) <= s.len(),
        forall|i: int| 0 <= i < prefix_len(s, run) ==> run.holds(#[trigger] s[i]),
        prefix_len(s, run) < s.len() ==> !run.holds(s[prefix_len(s, run) as int]),
    decreases s.len(),
{
    if s.len() != 0 && run.holds(s[0]) {
        let rest = s.drop_first();
        lemma_prefix_len(rest, run);
        assert forall|i: int| 0 <= i < prefix_len(s, run) implies run.holds(#[trigger] s[i]) by {
            if i > 0 {
                assert(rest[i - 1] == s[i]);
            }
        }
        if prefix_len(s, run) < s.len() {
            assert(rest[prefix_len(rest, run) as int] == s[prefix_len(s, run) as int]);
        }
    }
}

/// A suffix run stays inside the text, is made of the run's characters, and starts right after
/// the last character outside it.
pub proof fn lemma_suffix_len(s: Seq<char>, run: Run)
    ensures
        suffix_len(s, run) <= s.len(),
        forall|i: int| s.len() - suffix_len(s, run) <= i < s.len() ==> run.holds(#[trigger] s[i]),
        suffix_len(s, run) < s.len() ==> !run.holds(s[s.len() - suffix_len(s, run) - 1]),
    decreases s.len(),
{
    if s.len() != 0 && run.holds(s.last()) {
        let rest = s.drop_last();
        lemma_suffix_len(rest, run);
        assert forall|i: int| s.len() - suffix_len(s, run) <= i < s.len() implies run.holds(
            #[trigger] s[i],
        ) by {
            if i < s.len() - 1 {
                assert(rest[i] == s[i]);
            }
        }
        if suffix_len(s, run) < s.len() {
            assert(rest[rest.len() - suffix_len(rest, run) - 1] == s[s.len() - suffix_len(s, run)
                - 1]);
        }
    }
}

/// The characters of `s`, in order.
pub fn chars_of(s: &str) -> (chars: Vec<char>)
    ensures
        chars@ == s@,
{
    let mut chars: Vec<char> = Vec::new();
    for c in it: s.chars()
        invariant
            it.seq() == s@,
            chars@ == s@.take(it.index() as int),
    {
        chars.push(c);
    }
    chars
}

/// [`prefix_len`] of `s`.
pub fn count_prefix(s: &str, run: Run) -> (count: usize)
    ensures
        count == prefix_len(s@, run),
        count <= s@.len(),
{
    let chars = chars_of(s);
    let mut count: usize = 0;
    proof {
        assert(s@.skip(0) =~= s@);
    }
    while count < chars.len() && run.admits(chars[count])
        invariant
            chars@ == s@,
            count <= chars.len(),
            prefix_len(s@, run) == count + prefix_len(s@.skip(count as int), run),
        decreases chars.len() - count,
    {
        proof {
            assert(s@.skip(count as int).drop_first() =~= s@.skip(count + 1));
        }
        count = count + 1;
    }
    count
}

/// [`suffix_len`] of `s`.
pub fn count_suffix(s: &str, run: Run) -> (count: usize)
    ensures
        count == suffix_len(s@, run),
        count <= s@.len(),
{
    let chars = chars_of(s);
    let mut end: usize = chars.len();
    proof {
        assert(s@.take(end as int) =~= s@);
    }
    while end > 0 && run.admits(chars[end - 1])
        invariant
            chars@ == s@,
            end <= chars.len(),
            suffix_len(s@, run) == chars.len() - end + suffix_len(s@.take(end as int), run),
        decreases end,
    {
        proof {
            assert(s@.take(end as int).drop_last() =~= s@.take(end - 1));
        }
        end = end - 1;
    }
    chars.len() - end
}


/// Encoding a concatenation is concatenating the encodings.
pub proof fn lemma_encode_concat(a: Seq<char>, b: Seq<char>)
    ensures
        encode_utf8(a + b) == encode_utf8(a) + encode_utf8(b),
    decreases a.len(),
{
    if a.len() == 0 {
        assert(a + b =~= b);
    } else {
        assert((a + b).drop_first() =~= a.drop_first() + b);
        lemma_encode_concat(a.drop_first(), b);
        assert(encode_utf8(a + b) =~= encode_utf8(a) + encode_utf8(b));
    }
}

/// The end of any leading part of a text is a character boundary of the whole.
pub proof fn lemma_boundary_after(a: Seq<char>, b: Seq<char>)
    ensures
        is_char_boundary(encode_utf8(a + b), encode_utf8(a).len() as int),
    decreases a.len(),
{
    vstd::utf8::encode_utf8_valid_utf8(a + b);
    if a.len() > 0 {
        let rest = a.drop_first();
        let whole = encode_utf8(a + b);
        assert((a + b).drop_first() =~= rest + b);
        assert((a + b)[0] == a[0]);
        vstd::utf8::encode_utf8_first_scalar(a + b);
        assert(vstd::utf8::pop_first_scalar(whole) =~= encode_utf8(rest + b));
        lemma_boundary_after(rest, b);
        lemma_encode_concat(a, b);
    }
}

/// Cutting the encoding of a concatenation at its seam gives the two parts back.
pub proof fn lemma_decode_parts(a: Seq<char>, b: Seq<char>)
    ensures
        ({
            let bytes = encode_utf8(a + b);
            let cut = encode_utf8(a).len() as int;
            &&& 0 <= cut <= bytes.len()
            &&& decode_utf8(bytes.subrange(0, cut)) == a
            &&& decode_utf8(bytes.subrange(cut, bytes.len() as int)) == b
        }),
{
    lemma_encode_concat(a, b);
    let bytes = encode_utf8(a + b);
    let cut = encode_utf8(a).len() as int;
    assert(bytes.subrange(0, cut) =~= encode_utf8(a));
    assert(bytes.subrange(cut, bytes.len() as int) =~= encode_utf8(b));
    vstd::utf8::encode_utf8_decode_utf8(a);
    vstd::utf8::encode_utf8_decode_utf8(b);
}

/// Texts with the same encoding are the same text.
pub proof fn lemma_encode_injective(a: Seq<char>, b: Seq<char>)
    requires
        encode_utf8(a) == encode_utf8(b),
    ensures
        a == b,
{
    vstd::utf8::encode_utf8_decode_utf8(a);
    vstd::utf8::encode_utf8_decode_utf8(b);
}

/// The length of `s` in bytes.
pub fn byte_len(s: &str) -> (len: usize)
    ensures
        len == encode_utf8(s@).len(),
{
    s.as_bytes().len()
}

/// The byte index of the character at index `chars`.
pub fn byte_index(s: &str, chars: usize) -> (index: usize)
    requires
        chars <= s@.len(),
    ensures
        index == encode_utf8(s@.take(chars as int)).len(),
        is_char_boundary(encode_utf8(s@), index as int),
{
    proof {
        assert(s@.subrange(0, chars as int) =~= s@.take(chars as int));
        assert(s@.take(chars as int) + s@.skip(chars as int) =~= s@);
        lemma_boundary_after(s@.take(chars as int), s@.skip(chars as int));
    }
    byte_len(s.substring_char(0, chars))
}

/// The text before and after a byte index on a character boundary.
pub fn cut_at(s: &str, index: usize) -> (parts: (&str, &str))
    requires
        is_char_boundary(encode_utf8(s@), index as int),
    ensures
        parts.0@ + parts.1@ == s@,
        encode_utf8(parts.0@).len() == index,
{
    let parts = s.split_at(index);
    proof {
        let bytes = encode_utf8(s@);
        vstd::utf8::encode_utf8_valid_utf8(s@);
        lemma_boundary_in_range(bytes, index as int);
        vstd::utf8::decode_utf8_split(bytes, index as int);
        vstd::utf8::encode_utf8_decode_utf8(s@);
        vstd::utf8::encode_utf8_decode_utf8(parts.0@);
        vstd::utf8::encode_utf8_decode_utf8(parts.1@);
    }
    parts
}

/// A character boundary lies inside the text or at its end.
pub proof fn lemma_boundary_in_range(bytes: Seq<u8>, index: int)
    requires
        valid_utf8(bytes),
        is_char_boundary(bytes, index),
    ensures
        0 <= index <= bytes.len(),
{
}

/// Whether two texts hold the same characters.
pub fn same(a: &str, b: &str) -> (equal: bool)
    ensures
        equal == (a@ == b@),
{
    let x = a.as_bytes();
    let y = b.as_bytes();
    if x.len() != y.len() {
        return false;
    }
    let mut i: usize = 0;
    while i < x.len()
        invariant
            x@ == encode_utf8(a@),
            y@ == encode_utf8(b@),
            x@.len() == y@.len(),
            i <= x@.len(),
            x@.take(i as int) == y@.take(i as int),
        decreases x@.len() - i,
    {
        if x[i] != y[i] {
            return false;
        }
        proof {
            assert(x@.take(i + 1) =~= x@.take(i as int).push(x@[i as int]));
            assert(y@.take(i + 1) =~= y@.take(i as int).push(y@[i as int]));
        }
        i = i + 1;
    }
    proof {
        assert(x@.take(i as int) =~= x@);
        assert(y@.take(i as int) =~= y@);
        lemma_encode_injective(a@, b@);
    }
    true
}


/// `needle` stands somewhere in `haystack`.
pub open spec fn contains_text(haystack: Seq<char>, needle: Seq<char>) -> bool {
    exists|at: int|
        0 <= at <= haystack.len() - needle.len() && #[trigger] haystack.subrange(
            at,
            at + needle.len(),
        ) == needle
}

/// Whether `needle` stands somewhere in `haystack`.
pub fn contains(haystack: &str, needle: &str) -> (found: bool)
    ensures
        found == contains_text(haystack@, needle@),
{
    let hay = chars_of(haystack);
    let pin = chars_of(needle);
    if pin.len() > hay.len() {
        return false;
    }
    let last: usize = hay.len() - pin.len();
    let mut at: usize = 0;
    while at <= last
        invariant
            hay@ == haystack@,
            pin@ == needle@,
            hay.len() == last + pin.len(),
            at <= last + 1,
            forall|k: int|
                0 <= k < at ==> #[trigger] haystack@.subrange(k, k + needle@.len()) != needle@,
        decreases last + 1 - at,
    {
        let mut matched: usize = 0;
        while matched < pin.len() && hay[at + matched] == pin[matched]
            invariant
                hay@ == haystack@,
                pin@ == needle@,
                hay.len() == last + pin.len(),
                at <= last,
                matched <= pin.len(),
                forall|k: int| 0 <= k < matched ==> hay@[at + k] == #[trigger] pin@[k],
            decreases pin.len() - matched,
        {
            matched = matched + 1;
        }
        let ghost window = haystack@.subrange(at as int, at + needle@.len());
        if matched == pin.len() {
            assert(window =~= needle@);
            return true;
        }
        assert(window[matched as int] != needle@[matched as int]);
        if at == last {
            return false;
        }
        at = at + 1;
    }
    false
}

/// An ASCII capital as its small letter; any other character as it is.
pub open spec fn ascii_small(c: char) -> char {
    if 'A' <= c <= 'Z' {
        ((c as u32 + 32) as u32) as char
    } else {
        c
    }
}

/// The two texts differ at most in the case of their ASCII letters.
pub open spec fn same_ignoring_case(a: Seq<char>, b: Seq<char>) -> bool {
    &&& a.len() == b.len()
    &&& forall|i: int| 0 <= i < a.len() ==> ascii_small(#[trigger] a[i]) == ascii_small(b[i])
}

fn to_ascii_small(c: char) -> (small: char)
    ensures
        small == ascii_small(c),
{
    if 'A' <= c && c <= 'Z' {
        (c as u8 + 32) as char
    } else {
        c
    }
}

/// Whether two texts differ at most in the case of their ASCII letters.
pub fn eq_ignore_ascii_case(a: &str, b: &str) -> (equal: bool)
    ensures
        equal == same_ignoring_case(a@, b@),
{
    let x = chars_of(a);
    let y = chars_of(b);
    if x.len() != y.len() {
        return false;
    }
    let mut i: usize = 0;
    while i < x.len()
        invariant
            x@ == a@,
            y@ == b@,
            x@.len() == y@.len(),
            i <= x@.len(),
            forall|k: int| 0 <= k < i ==> ascii_small(#[trigger] x@[k]) == ascii_small(y@[k]),
        decreases x@.len() - i,
    {
        if to_ascii_small(x[i]) != to_ascii_small(y[i]) {
            return false;
        }
        i = i + 1;
    }
    true
}

/// `parts` in order with `separator` between each two.
pub open spec fn joined(parts: Seq<Seq<char>>, separator: Seq<char>) -> Seq<char>
    decreases parts.len(),
{
    if parts.len() == 0 {
        Seq::empty()
    } else if parts.len() == 1 {
        parts[0]
    } else {
        joined(parts.drop_last(), separator) + separator + parts.last()
    }
}

/// [`joined`] over the texts of `parts`.
pub fn join(parts: &Vec<String>, separator: &str) -> (whole: String)
    ensures
        whole@ == joined(parts.deep_view(), separator@),
{
    let mut whole = String::new();
    let mut i: usize = 0;
    while i < parts.len()
        invariant
            i <= parts.len(),
            whole@ == joined(parts.deep_view().take(i as int), separator@),
        decreases parts.len() - i,
    {
        if i > 0 {
            whole.append(separator);
        }
        whole.append(parts[i].as_str());
        proof {
            let now = parts.deep_view().take(i + 1);
            assert(now.drop_last() =~= parts.deep_view().take(i as int));
            assert(now.last() == parts@[i as int]@);
            if i == 0 {
                assert(whole@ =~= now[0]);
            }
        }
        i = i + 1;
    }
    proof {
        assert(parts.deep_view().take(i as int) =~= parts.deep_view());
    }
    whole
}

/// The character of a digit below ten.
pub open spec fn digit(d: nat) -> char {
    ((d + 48) as u32) as char
}

/// `n` written in base ten, without leading zeros.
pub open spec fn decimal(n: nat) -> Seq<char>
    decreases n,
{
    if n < 10 {
        seq![digit(n)]
    } else {
        decimal(n / 10).push(digit(n % 10))
    }
}

/// The text that holds `c` alone.
pub fn one_char(c: char) -> (s: String)
    ensures
        s@ == seq![c],
{
    let mut s = String::new();
    s.push(c);
    s
}

/// `n` in base ten.
pub fn to_decimal(n: u64) -> (s: String)
    ensures
        s@ == decimal(n as nat),
    decreases n,
{
    let last = (48 + (n % 10) as u8) as char;
    if n < 10 {
        one_char(last)
    } else {
        let mut s = to_decimal(n / 10);
        s.push(last);
        s
    }
}

/// `String::push` of std appends one character to the text.
pub assume_specification[ String::push ](s: &mut String, c: char)
    ensures
        final(s)@ == old(s)@.push(c),
;

/// `s` in lowercase, as std's Unicode tables have it.
pub uninterp spec fn lowercase_of(s: Seq<char>) -> Seq<char>;

/// Every character of `s` is an ASCII one.
pub open spec fn all_ascii(s: Seq<char>) -> bool {
    forall|i: int| 0 <= i < s.len() ==> (#[trigger] s[i]) as nat <= 127
}

/// `s` with each ASCII capital as its small letter.
pub open spec fn ascii_lowered(s: Seq<char>) -> Seq<char> {
    s.map_values(|c: char| ascii_small(c))
}

/// `str::to_lowercase` of std: the same text always has the same lowercase, and that of a text of
/// ASCII characters has each capital as its small letter and everything else as it is.
pub assume_specification[ str::to_lowercase ](s: &str) -> (res: String)
    ensures
        res@ == lowercase_of(s@),
        all_ascii(s@) ==> res@ == ascii_lowered(s@),
;

/// `s` in lowercase.
pub open spec fn lowered(s: Seq<char>) -> Seq<char> {
    if all_ascii(s) {
        ascii_lowered(s)
    } else {
        lowercase_of(s)
    }
}

/// [`lowered`] of `s`.
pub fn lower(s: &str) -> (lower: String)
    ensures
        lower@ == lowered(s@),
{
    s.to_lowercase()
}

/// `text` holds `query`, whatever the case of either.
pub open spec fn matches_query(text: Seq<char>, query: Seq<char>) -> bool {
    contains_text(lowered(text), lowered(query))
}

/// Every text holds an empty query.
pub proof fn law_an_empty_query_matches_everything(text: Seq<char>)
    ensures
        matches_query(text, Seq::empty()),
{
    let hay = lowered(text);
    let query = lowered(Seq::<char>::empty());
    assert(hay.subrange(0, 0int + query.len()) =~= query);
}

/// Two ASCII texts that differ at most in the case of their letters have the same lowercase.
proof fn lemma_lowered_ignores_case(a: Seq<char>, b: Seq<char>)
    requires
        all_ascii(a),
        same_ignoring_case(a, b),
    ensures
        all_ascii(b),
        lowered(a) == lowered(b),
{
    assert forall|i: int| 0 <= i < b.len() implies (#[trigger] b[i]) as nat <= 127 by {
        assert(a[i] as nat <= 127);
        assert(ascii_small(a[i]) == ascii_small(b[i]));
    }
    assert(ascii_lowered(a) =~= ascii_lowered(b));
}

/// A query in ASCII letters finds the same texts in whatever case it is typed.
pub proof fn law_the_case_of_a_query_does_not_matter(
    text: Seq<char>,
    query: Seq<char>,
    other: Seq<char>,
)
    requires
        all_ascii(query),
        same_ignoring_case(query, other),
    ensures
        matches_query(text, query) == matches_query(text, other),
{
    lemma_lowered_ignores_case(query, other);
}

/// A text in ASCII letters is found by the same queries in whatever case it is written.
pub proof fn law_the_case_of_a_text_does_not_matter(
    text: Seq<char>,
    other: Seq<char>,
    query: Seq<char>,
)
    requires
        all_ascii(text),
        same_ignoring_case(text, other),
    ensures
        matches_query(text, query) == matches_query(other, query),
{
    lemma_lowered_ignores_case(text, other);
}

/// Among ASCII texts a query is found exactly where the text holds it, letter for letter, in some
/// case.
pub proof fn law_a_match_is_the_query_in_some_case(text: Seq<char>, query: Seq<char>)
    requires
        all_ascii(text),
        all_ascii(query),
    ensures
        matches_query(text, query) <==> exists|at: int|
            0 <= at <= text.len() - query.len() && same_ignoring_case(
                #[trigger] text.subrange(at, at + query.len()),
                query,
            ),
{
    let hay = lowered(text);
    let needle = lowered(query);
    if matches_query(text, query) {
        let at = choose|at: int|
            0 <= at <= hay.len() - needle.len() && #[trigger] hay.subrange(at, at + needle.len())
                == needle;
        let part = text.subrange(at, at + query.len());
        assert forall|i: int| 0 <= i < part.len() implies ascii_small(#[trigger] part[i])
            == ascii_small(query[i]) by {
            assert(hay.subrange(at, at + needle.len())[i] == needle[i]);
        }
        assert(same_ignoring_case(part, query));
    }
    if exists|at: int|
        0 <= at <= text.len() - query.len() && same_ignoring_case(
            #[trigger] text.subrange(at, at + query.len()),
            query,
        ) {
        let at = choose|at: int|
            0 <= at <= text.len() - query.len() && same_ignoring_case(
                #[trigger] text.subrange(at, at + query.len()),
                query,
            );
        let part = text.subrange(at, at + query.len());
        assert forall|i: int| 0 <= i < needle.len() implies hay.subrange(
            at,
            at + needle.len(),
        )[i] == #[trigger] needle[i] by {
            assert(ascii_small(part[i]) == ascii_small(query[i]));
        }
        assert(hay.subrange(at, at + needle.len()) =~= needle);
    }
}

/// `s` followed by as many spaces as bring it to `width` characters.
pub open spec fn padded(s: Seq<char>, width: int) -> Seq<char> {
    s + Seq::new(
        if s.len() < width {
            (width - s.len()) as nat
        } else {
            0
        },
        |i: int| ' ',
    )
}

/// [`padded`] to `width` characters.
pub fn pad(s: &str, width: usize) -> (wide: String)
    ensures
        wide@ == padded(s@, width as int),
{
    let mut wide = s.to_owned();
    let mut count: usize = s.unicode_len();
    while count < width
        invariant
            s@.len() <= count,
            count <= width || count == s@.len(),
            wide@ == s@ + Seq::new((count - s@.len()) as nat, |i: int| ' '),
        decreases width - count,
    {
        wide.push(' ');
        count = count + 1;
    }
    wide
}

/// Where `c` first stands in `s`; the length of `s` where it does not.
pub open spec fn index_of(s: Seq<char>, c: char) -> int
    decreases s.len(),
{
    if s.len() == 0 || s[0] == c {
        0
    } else {
        1 + index_of(s.drop_first(), c)
    }
}

/// Where the text behind the last `c` of `s` starts; zero where `s` holds none.
pub open spec fn after_last(s: Seq<char>, c: char) -> int
    decreases s.len(),
{
    if s.len() == 0 {
        0
    } else if s.last() == c {
        s.len() as int
    } else {
        after_last(s.drop_last(), c)
    }
}

/// [`index_of`] in `s`.
pub fn find_char(s: &str, c: char) -> (index: usize)
    ensures
        index == index_of(s@, c),
        index <= s@.len(),
{
    let chars = chars_of(s);
    let mut i: usize = 0;
    proof {
        assert(s@.skip(0) =~= s@);
    }
    while i < chars.len()
        invariant
            chars@ == s@,
            i <= chars.len(),
            index_of(s@, c) == i + index_of(s@.skip(i as int), c),
        decreases chars.len() - i,
    {
        if chars[i] == c {
            return i;
        }
        proof {
            assert(s@.skip(i as int).drop_first() =~= s@.skip(i + 1));
        }
        i = i + 1;
    }
    i
}

/// [`after_last`] in `s`.
pub fn find_after_last(s: &str, c: char) -> (index: usize)
    ensures
        index == after_last(s@, c),
        index <= s@.len(),
{
    let chars = chars_of(s);
    let mut end: usize = chars.len();
    proof {
        assert(s@.take(end as int) =~= s@);
    }
    while end > 0
        invariant
            chars@ == s@,
            end <= chars.len(),
            after_last(s@, c) == after_last(s@.take(end as int), c),
        decreases end,
    {
        if chars[end - 1] == c {
            return end;
        }
        proof {
            assert(s@.take(end as int).drop_last() =~= s@.take(end - 1));
        }
        end = end - 1;
    }
    0
}

/// `index` is a byte index of `s` on a character boundary.
#[verifier::opaque]
pub open spec fn boundary(s: Seq<char>, index: int) -> bool {
    0 <= index <= encode_utf8(s).len() && is_char_boundary(encode_utf8(s), index)
}

/// The text between two byte indices of `s`.
#[verifier::opaque]
pub open spec fn slice_of(s: Seq<char>, from: int, to: int) -> Seq<char> {
    decode_utf8(encode_utf8(s).subrange(from, to))
}

/// A boundary lies inside the text or at its end.
pub proof fn lemma_boundary_range(s: Seq<char>, index: int)
    requires
        boundary(s, index),
    ensures
        0 <= index <= encode_utf8(s).len(),
{
    reveal(boundary);
}

/// Both ends of a text are boundaries of it.
pub proof fn lemma_boundary_ends(s: Seq<char>)
    ensures
        boundary(s, 0),
        boundary(s, encode_utf8(s).len() as int),
{
    reveal(boundary);
    vstd::utf8::encode_utf8_valid_utf8(s);
    vstd::utf8::is_char_boundary_start_end_of_seq(encode_utf8(s));
}

/// The seam of two texts is a boundary of the two together, and cutting there gives the first
/// one back.
pub proof fn lemma_boundary_seam(a: Seq<char>, b: Seq<char>)
    ensures
        boundary(a + b, encode_utf8(a).len() as int),
        slice_of(a + b, 0, encode_utf8(a).len() as int) == a,
{
    reveal(boundary);
    reveal(slice_of);
    lemma_boundary_after(a, b);
    lemma_encode_concat(a, b);
    lemma_decode_parts(a, b);
}

/// A part of a text between two boundaries takes the bytes between them.
pub proof fn lemma_part_bytes(s: Seq<char>, from: int, to: int)
    requires
        boundary(s, from),
        boundary(s, to),
        from <= to,
    ensures
        encode_utf8(slice_of(s, from, to)) == encode_utf8(s).subrange(from, to),
        encode_utf8(slice_of(s, from, to)).len() == to - from,
        vstd::utf8::valid_utf8(encode_utf8(s).subrange(from, to)),
{
    reveal(boundary);
    reveal(slice_of);
    let bytes = encode_utf8(s);
    let head = bytes.subrange(0, to);
    let part = bytes.subrange(from, to);
    vstd::utf8::encode_utf8_valid_utf8(s);
    vstd::utf8::valid_utf8_split(bytes, to);
    if from < to {
        vstd::utf8::is_char_boundary_iff_not_is_continuation_byte(bytes, from);
        vstd::utf8::is_char_boundary_iff_not_is_continuation_byte(head, from);
        assert(head[from] == bytes[from]);
    } else {
        vstd::utf8::is_char_boundary_start_end_of_seq(head);
    }
    vstd::utf8::valid_utf8_split(head, from);
    assert(head.subrange(from, head.len() as int) =~= part);
    vstd::utf8::decode_utf8_encode_utf8(part);
}

/// A boundary of a text is a boundary of any part of it that it lies in.
pub proof fn lemma_boundary_in_part(s: Seq<char>, from: int, to: int, index: int)
    requires
        boundary(s, from),
        boundary(s, to),
        boundary(s, index),
        from <= index <= to,
    ensures
        boundary(slice_of(s, from, to), index - from),
{
    lemma_part_bytes(s, from, to);
    reveal(boundary);
    let bytes = encode_utf8(s);
    let part = bytes.subrange(from, to);
    vstd::utf8::encode_utf8_valid_utf8(s);
    if index < to {
        vstd::utf8::is_char_boundary_iff_not_is_continuation_byte(bytes, index);
        vstd::utf8::is_char_boundary_iff_not_is_continuation_byte(part, index - from);
        assert(part[index - from] == bytes[index]);
    } else {
        vstd::utf8::is_char_boundary_start_end_of_seq(part);
    }
}

/// A part of a part is a part of the whole.
pub proof fn lemma_part_of_part(s: Seq<char>, from: int, to: int, a: int, b: int)
    requires
        boundary(s, from),
        boundary(s, to),
        from <= to,
        0 <= a <= b <= to - from,
    ensures
        slice_of(slice_of(s, from, to), a, b) == slice_of(s, from + a, from + b),
{
    lemma_part_bytes(s, from, to);
    reveal(slice_of);
    lemma_boundary_range(s, from);
    lemma_boundary_range(s, to);
    assert(encode_utf8(s).subrange(from, to).subrange(a, b) =~= encode_utf8(s).subrange(
        from + a,
        from + b,
    ));
}

/// Two neighbouring parts of a text, one after the other, are the part that spans both.
pub proof fn lemma_slices_join(s: Seq<char>, from: int, mid: int, to: int)
    requires
        boundary(s, from),
        boundary(s, mid),
        boundary(s, to),
        from <= mid <= to,
    ensures
        slice_of(s, from, mid) + slice_of(s, mid, to) == slice_of(s, from, to),
{
    lemma_part_bytes(s, from, to);
    lemma_boundary_in_part(s, from, to, mid);
    reveal(boundary);
    reveal(slice_of);
    let bytes = encode_utf8(s);
    let part = bytes.subrange(from, to);
    vstd::utf8::decode_utf8_split(part, mid - from);
    assert(part.subrange(0, mid - from) =~= bytes.subrange(from, mid));
    assert(part.subrange(mid - from, part.len() as int) =~= bytes.subrange(mid, to));
}

/// A whole text is the part from its first byte to its last, and a part without bytes is empty.
pub proof fn lemma_whole_slice(s: Seq<char>, index: int)
    requires
        0 <= index <= encode_utf8(s).len(),
    ensures
        slice_of(s, 0, encode_utf8(s).len() as int) == s,
        slice_of(s, index, index) == Seq::<char>::empty(),
{
    reveal(slice_of);
    let bytes = encode_utf8(s);
    assert(bytes.subrange(0, bytes.len() as int) =~= bytes);
    assert(bytes.subrange(index, index) =~= Seq::<u8>::empty());
    vstd::utf8::encode_utf8_decode_utf8(s);
}

/// The text between two byte indices on character boundaries.
pub fn slice<'a>(s: &'a str, from: usize, to: usize) -> (part: &'a str)
    requires
        boundary(s@, from as int),
        boundary(s@, to as int),
        from <= to,
    ensures
        part@ == slice_of(s@, from as int, to as int),
        encode_utf8(part@).len() == to - from,
{
    let ghost bytes = encode_utf8(s@);
    proof {
        lemma_boundary_ends(s@);
        lemma_part_bytes(s@, 0, to as int);
        lemma_part_bytes(s@, from as int, to as int);
        lemma_boundary_in_part(s@, 0, to as int, from as int);
        reveal(boundary);
        reveal(slice_of);
    }
    let (head, behind) = cut_at(s, to);
    proof {
        lemma_encode_concat(head@, behind@);
        assert(encode_utf8(head@) =~= bytes.subrange(0, to as int));
        vstd::utf8::encode_utf8_decode_utf8(head@);
    }
    let (ahead, part) = cut_at(head, from);
    proof {
        lemma_encode_concat(ahead@, part@);
        assert(encode_utf8(part@) =~= bytes.subrange(from as int, to as int));
        vstd::utf8::encode_utf8_decode_utf8(part@);
    }
    part
}


/// The number a row of decimal digits writes.
pub open spec fn number_read(s: Seq<char>) -> int
    decreases s.len(),
{
    if s.len() == 0 {
        0
    } else {
        number_read(s.drop_last()) * 10 + (s.last() as int - '0' as int)
    }
}

/// A number is written in decimal digits, without leading zeros, and reads back as itself.
pub proof fn law_a_number_reads_back(n: nat)
    ensures
        decimal(n).len() > 0,
        forall|i: int| 0 <= i < decimal(n).len() ==> '0' <= #[trigger] decimal(n)[i] <= '9',
        n > 0 ==> decimal(n)[0] != '0',
        number_read(decimal(n)) == n,
    decreases n,
{
    if n < 10 {
        assert(decimal(n).drop_last() =~= Seq::<char>::empty());
        assert(number_read(Seq::<char>::empty()) == 0);
        assert(number_read(decimal(n)) == number_read(decimal(n).drop_last()) * 10 + n);
    } else {
        law_a_number_reads_back(n / 10);
        let rest = decimal(n / 10);
        assert(decimal(n).drop_last() =~= rest);
        assert(decimal(n).last() == digit(n % 10));
        assert forall|i: int| 0 <= i < decimal(n).len() implies '0' <= #[trigger] decimal(n)[i]
            <= '9' by {
            if i < rest.len() {
                assert(decimal(n)[i] == rest[i]);
            }
        }
        assert(decimal(n)[0] == rest[0]);
    }
}

/// Joined parts stand one behind the other with the separator between each two, and nothing at
/// either end.
pub proof fn law_joined_parts_stand_between_separators(
    parts: Seq<Seq<char>>,
    part: Seq<char>,
    separator: Seq<char>,
)
    ensures
        joined(Seq::empty(), separator).len() == 0,
        joined(seq![part], separator) == part,
        parts.len() > 0 ==> joined(parts.push(part), separator) == joined(parts, separator)
            + separator + part,
{
    assert(parts.push(part).drop_last() =~= parts);
}

/// A padded text is the text with spaces behind it, exactly as wide as asked for, or the text
/// alone where that is wide enough.
pub proof fn law_padding_only_adds_spaces_behind(s: Seq<char>, width: nat)
    ensures
        padded(s, width as int).len() == if s.len() < width {
            width
        } else {
            s.len()
        },
        padded(s, width as int).take(s.len() as int) == s,
        forall|i: int|
            s.len() <= i < padded(s, width as int).len() ==> #[trigger] padded(s, width as int)[i]
                == ' ',
{
    assert(padded(s, width as int).take(s.len() as int) =~= s);
}

/// A text is found in another exactly where the other is some text, it, and some text.
pub proof fn law_a_text_is_found_where_it_stands(
    ahead: Seq<char>,
    needle: Seq<char>,
    behind: Seq<char>,
    haystack: Seq<char>,
)
    ensures
        contains_text(ahead + needle + behind, needle),
        contains_text(haystack, needle) ==> exists|at: int|
            0 <= at <= haystack.len() && #[trigger] haystack.take(at) + needle + haystack.skip(
                at + needle.len(),
            ) == haystack,
{
    let whole = ahead + needle + behind;
    assert(whole.subrange(ahead.len() as int, (ahead.len() + needle.len()) as int) =~= needle);
    if contains_text(haystack, needle) {
        let at = choose|at: int|
            0 <= at <= haystack.len() - needle.len() && #[trigger] haystack.subrange(
                at,
                at + needle.len(),
            ) == needle;
        assert(haystack.take(at) + needle + haystack.skip(at + needle.len()) =~= haystack) by {
            assert forall|i: int| at <= i < at + needle.len() implies haystack[i] == needle[i
                - at] by {
                assert(haystack.subrange(at, at + needle.len())[i - at] == haystack[i]);
            }
        }
    }
}

/// Whitespace is the twenty-five characters Unicode gives the `White_Space` property.
pub proof fn law_the_whitespace_characters(c: char)
    ensures
        is_whitespace_spec(c) <==> seq![
            0x9u32,
            0xa,
            0xb,
            0xc,
            0xd,
            0x20,
            0x85,
            0xa0,
            0x1680,
            0x2000,
            0x2001,
            0x2002,
            0x2003,
            0x2004,
            0x2005,
            0x2006,
            0x2007,
            0x2008,
            0x2009,
            0x200a,
            0x2028,
            0x2029,
            0x202f,
            0x205f,
            0x3000,
        ].contains(c as u32),
{
    let all = seq![
        0x9u32,
        0xa,
        0xb,
        0xc,
        0xd,
        0x20,
        0x85,
        0xa0,
        0x1680,
        0x2000,
        0x2001,
        0x2002,
        0x2003,
        0x2004,
        0x2005,
        0x2006,
        0x2007,
        0x2008,
        0x2009,
        0x200a,
        0x2028,
        0x2029,
        0x202f,
        0x205f,
        0x3000,
    ];
    assert(all[0] == 0x9 && all[1] == 0xa && all[2] == 0xb && all[3] == 0xc && all[4] == 0xd && all[5]
        == 0x20 && all[6] == 0x85 && all[7] == 0xa0 && all[8] == 0x1680 && all[9] == 0x2000
        && all[10] == 0x2001 && all[11] == 0x2002 && all[12] == 0x2003 && all[13] == 0x2004
        && all[14] == 0x2005 && all[15] == 0x2006 && all[16] == 0x2007 && all[17] == 0x2008
        && all[18] == 0x2009 && all[19] == 0x200a && all[20] == 0x2028 && all[21] == 0x2029
        && all[22] == 0x202f && all[23] == 0x205f && all[24] == 0x3000);
}

/// Texts that differ only in case agree on every character that is no ASCII letter, and on every
/// letter up to its case.
pub proof fn law_only_the_case_of_ascii_letters_is_passed_over(a: char, b: char)
    ensures
        same_ignoring_case(seq![a], seq![b]) <==> a == b || 'A' <= a <= 'Z' && b as u32 == a as u32
            + 32 || 'A' <= b <= 'Z' && a as u32 == b as u32 + 32,
{
    let x = seq![a];
    let y = seq![b];
    assert(x[0] == a && y[0] == b);
    assert(same_ignoring_case(x, y) <==> ascii_small(x[0]) == ascii_small(y[0]));
}

/// A character is found where it first stands, or behind the text that does not hold it.
pub proof fn law_a_character_is_found_where_it_first_stands(s: Seq<char>, c: char)
    ensures
        0 <= index_of(s, c) <= s.len(),
        index_of(s, c) < s.len() ==> s[index_of(s, c)] == c,
        forall|i: int| 0 <= i < index_of(s, c) ==> #[trigger] s[i] != c,
    decreases s.len(),
{
    if s.len() > 0 && s[0] != c {
        let rest = s.drop_first();
        law_a_character_is_found_where_it_first_stands(rest, c);
        assert forall|i: int| 0 <= i < index_of(s, c) implies #[trigger] s[i] != c by {
            if i > 0 {
                assert(rest[i - 1] == s[i]);
            }
        }
    }
}

/// What follows the last of a character starts right behind it, or with the text that does not hold
/// it.
pub proof fn law_the_rest_starts_behind_the_last(s: Seq<char>, c: char)
    ensures
        0 <= after_last(s, c) <= s.len(),
        after_last(s, c) > 0 ==> s[after_last(s, c) - 1] == c,
        forall|i: int| after_last(s, c) <= i < s.len() ==> #[trigger] s[i] != c,
    decreases s.len(),
{
    if s.len() > 0 && s.last() != c {
        let rest = s.drop_last();
        law_the_rest_starts_behind_the_last(rest, c);
        assert forall|i: int| after_last(s, c) <= i < s.len() implies #[trigger] s[i] != c by {
            if i < rest.len() {
                assert(rest[i] == s[i]);
            }
        }
    }
}

} // verus!
