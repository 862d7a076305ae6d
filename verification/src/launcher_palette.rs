//! The Launcher palette: this run's Launchers by name, narrowed by a typed query, one of them
//! highlighted and handed back to run against the cursor row.

use vstd::prelude::*;

use crate::edit_buffer::{word_start_in, EditBuffer};
use crate::launcher::{launchers_view, Launcher, LauncherView};
use crate::paint::{at_least, at_most, block_inner, interior, less, Rect, Role};
use crate::text::{
    all_ascii, byte_len, contains, law_the_case_of_a_query_does_not_matter, lower, lowered,
    matches_query, same_ignoring_case,
};
use vstd::utf8::encode_utf8;

verus! {

broadcast use {vstd::string::group_string_axioms, vstd::seq_lib::group_seq_properties};

/// The narrowest popup that still reads as a palette.
pub const MIN_POPUP_WIDTH: u16 = 24;

/// The lowest popup that still reads as a palette.
pub const MIN_POPUP_HEIGHT: u16 = 4;

/// What the list says where the query matches no Launcher.
pub const NO_MATCHES_MESSAGE: &'static str = "no matches";

/// What the list says where there is no Launcher at all.
pub const NO_LAUNCHERS_CONFIGURED_MESSAGE: &'static str = "no launchers; see [[launcher]]";

/// The Launchers whose own name holds `query`, whatever the case of either, in their own order.
pub open spec fn matching_launchers(launchers: Seq<LauncherView>, query: Seq<char>) -> Seq<
    LauncherView,
>
    decreases launchers.len(),
{
    if launchers.len() == 0 {
        launchers
    } else {
        let earlier = matching_launchers(launchers.drop_last(), query);
        if matches_query(launchers.last().name, query) {
            earlier.push(launchers.last())
        } else {
            earlier
        }
    }
}

/// Borrowed Launchers as plain values.
pub open spec fn borrowed_view(launchers: Seq<&Launcher>) -> Seq<LauncherView> {
    launchers.map_values(|launcher: &Launcher| launcher@)
}

/// Case-insensitive substring match against a Launcher's own name; a plain substring test never
/// reorders. An empty query matches every entry.
pub fn matching<'a>(launchers: &'a Vec<Launcher>, query: &str) -> (kept: Vec<&'a Launcher>)
    ensures
        borrowed_view(kept@) == matching_launchers(launchers_view(launchers@), query@),
{
    let ghost all = launchers_view(launchers@);
    let wanted = lower(query);
    let mut kept: Vec<&'a Launcher> = Vec::new();
    let mut i: usize = 0;
    proof {
        assert(borrowed_view(kept@) =~= Seq::<LauncherView>::empty());
    }
    while i < launchers.len()
        invariant
            i <= launchers.len(),
            all == launchers_view(launchers@),
            wanted@ == lowered(query@),
            borrowed_view(kept@) == matching_launchers(all.take(i as int), query@),
        decreases launchers.len() - i,
    {
        proof {
            assert(all.take(i + 1).drop_last() =~= all.take(i as int));
            assert(all.take(i + 1).last() == launchers@[i as int]@);
        }
        let launcher = &launchers[i];
        if contains(lower(launcher.name.as_str()).as_str(), wanted.as_str()) {
            let ghost before = kept@;
            kept.push(launcher);
            proof {
                assert(borrowed_view(kept@) =~= borrowed_view(before).push(launcher@));
            }
        }
        i = i + 1;
    }
    proof {
        assert(all.take(i as int) =~= all);
    }
    kept
}

/// The palette's own state: the typed query narrowing the list, and which of the matches is
/// highlighted.
#[derive(Debug, Clone, PartialEq, Eq)]
pub struct LauncherPalette {
    query: String,
    cursor: usize,
}

/// A highlight kept inside a list of `count` rows.
pub open spec fn clamped(cursor: int, count: int) -> int {
    if count == 0 || cursor < 0 {
        0
    } else {
        at_most(cursor, count - 1)
    }
}

/// The message shown in place of the match list, where nothing matches.
pub open spec fn empty_message(matches: int, launchers: int) -> Option<Seq<char>> {
    if matches > 0 {
        None
    } else if launchers == 0 {
        Some(NO_LAUNCHERS_CONFIGURED_MESSAGE@)
    } else {
        Some(NO_MATCHES_MESSAGE@)
    }
}

/// The length of a text in bytes.
pub open spec fn bytes(text: Seq<char>) -> int {
    encode_utf8(text).len() as int
}

/// The widest name in bytes, together with the two-column cursor marker.
pub open spec fn widest_entry(matches: Seq<LauncherView>) -> int
    decreases matches.len(),
{
    if matches.len() == 0 {
        0
    } else {
        at_least(widest_entry(matches.drop_last()), bytes(matches.last().name) + 2)
    }
}

/// The width of the popup's content: its list or message, the query behind its prompt, or the
/// title, whichever is widest.
pub open spec fn content_width(
    matches: Seq<LauncherView>,
    launchers: int,
    query: Seq<char>,
    entity_name: Seq<char>,
) -> int {
    let list = match empty_message(matches.len() as int, launchers) {
        Some(message) => bytes(message),
        None => widest_entry(matches),
    };
    at_least(at_least(list, bytes(query) + 2), bytes(entity_name) + 2)
}

/// A content size with the frame's two cells added, no smaller than `floor` and no larger than
/// `limit`, which wins where the two disagree.
pub open spec fn framed_size(content: int, floor: int, limit: int) -> int {
    at_most(at_least(content + 2, floor), limit)
}

/// Where `size` cells centred among the `length` ones from `start` on begin, and how many of them
/// there are: as many as fit, an odd remainder going ahead of them. No cell lies behind the last
/// one a cell count reaches.
pub open spec fn centered_span(start: int, length: int, size: int) -> (int, int) {
    let room = at_most(start + length, u16::MAX as int) - start;
    let kept = at_most(size, room);
    (start + (room - kept + 1) / 2, kept)
}

/// A `width` by `height` area centred in `area`.
pub open spec fn centered_rect(area: Rect, width: u16, height: u16) -> Rect {
    let (x, w) = centered_span(area.x as int, area.width as int, width as int);
    let (y, h) = centered_span(area.y as int, area.height as int, height as int);
    Rect { x: x as u16, y: y as u16, width: w as u16, height: h as u16 }
}

/// `ratatui`'s `Rect::centered` under two fixed lengths: a length that fits is kept and one that
/// does not becomes the area's own, the cells on both sides of it are the same in number, and
/// where that leaves half a cell the edges round up.
#[verifier::external_body]
fn center(area: Rect, width: u16, height: u16) -> (centered: Rect)
    ensures
        centered == centered_rect(area, width, height),
{
    let area = ratatui::layout::Rect {
        x: area.x,
        y: area.y,
        width: area.width,
        height: area.height,
    };
    let horizontal = ratatui::layout::Constraint::Length(width);
    let vertical = ratatui::layout::Constraint::Length(height);
    let centered = area.centered(horizontal, vertical);
    Rect { x: centered.x, y: centered.y, width: centered.width, height: centered.height }
}

/// Text painted from one cell on.
#[derive(Debug, Clone, PartialEq, Eq)]
pub struct PlacedText {
    pub x: u16,
    pub y: u16,
    pub text: String,
}

impl View for PlacedText {
    type V = (u16, u16, Seq<char>);

    open spec fn view(&self) -> (u16, u16, Seq<char>) {
        (self.x, self.y, self.text@)
    }
}

/// Placed texts as plain values.
pub open spec fn placed_view(texts: Seq<PlacedText>) -> Seq<(u16, u16, Seq<char>)> {
    texts.map_values(|text: PlacedText| text@)
}

/// What the palette shows inside its popup: the border and its title, the query line, the message
/// where the list is empty, each with its role, and the list rows in no role of their own.
#[derive(Debug, Clone, PartialEq, Eq)]
pub struct PalettePlan {
    pub interior: Rect,
    pub border_role: Role,
    pub title: String,
    pub query: PlacedText,
    pub query_role: Role,
    pub message: Option<PlacedText>,
    pub message_role: Role,
    pub entries: Vec<PlacedText>,
}

/// The row `offset` rows below `y`, on the last one where the count of rows ends.
pub open spec fn row_below(y: u16, offset: int) -> u16 {
    at_most(y + offset, u16::MAX as int) as u16
}

/// A list row's text: the marker, then the name.
pub open spec fn entry_text(name: Seq<char>, highlighted: bool) -> Seq<char> {
    if highlighted {
        "> "@ + name
    } else {
        "  "@ + name
    }
}

/// The list rows: the matches in order, one to a row below the query, as many as fit.
pub open spec fn entry_rows(
    matches: Seq<LauncherView>,
    cursor: int,
    inside: Rect,
    count: int,
) -> Seq<(u16, u16, Seq<char>)> {
    Seq::new(
        at_most(matches.len() as int, count) as nat,
        |row: int|
            (
                inside.x,
                row_below(inside.y, 1 + row),
                entry_text(matches[row].name, row == cursor),
            ),
    )
}

impl LauncherPalette {
    pub closed spec fn query_spec(&self) -> Seq<char> {
        self.query@
    }

    pub closed spec fn cursor_spec(&self) -> nat {
        self.cursor as nat
    }

    /// The matches under the typed query.
    pub open spec fn narrowed(&self, launchers: Seq<LauncherView>) -> Seq<LauncherView> {
        matching_launchers(launchers, self.query_spec())
    }

    /// An open palette: nothing typed, the first entry highlighted.
    pub fn new() -> (palette: Self)
        ensures
            palette.query_spec() == Seq::<char>::empty(),
            palette.cursor_spec() == 0,
    {
        LauncherPalette { query: String::new(), cursor: 0 }
    }

    /// `launchers` narrowed by the typed query, in `launchers`' own order.
    pub fn matches<'a>(&self, launchers: &'a Vec<Launcher>) -> (kept: Vec<&'a Launcher>)
        ensures
            borrowed_view(kept@) == self.narrowed(launchers_view(launchers@)),
    {
        matching(launchers, self.query.as_str())
    }

    /// The row the cursor currently sits on among the matches, if any match at all.
    pub fn highlighted<'a>(&self, launchers: &'a Vec<Launcher>) -> (found: Option<&'a Launcher>)
        ensures
            found is Some <==> self.cursor_spec() < self.narrowed(
                launchers_view(launchers@),
            ).len(),
            found matches Some(launcher) ==> launcher@ == self.narrowed(
                launchers_view(launchers@),
            )[self.cursor_spec() as int],
    {
        let matches = self.matches(launchers);
        proof {
            assert(borrowed_view(matches@).len() == matches@.len());
        }
        if self.cursor < matches.len() {
            proof {
                assert(borrowed_view(matches@)[self.cursor as int] == matches@[self.cursor as int]@);
            }
            Some(matches[self.cursor])
        } else {
            None
        }
    }

    fn clamp_cursor(&mut self, launchers: &Vec<Launcher>)
        ensures
            final(self).query_spec() == old(self).query_spec(),
            final(self).cursor_spec() == clamped(
                old(self).cursor_spec() as int,
                old(self).narrowed(launchers_view(launchers@)).len() as int,
            ),
    {
        let matches = self.matches(launchers);
        proof {
            assert(borrowed_view(matches@).len() == matches@.len());
        }
        let count: usize = matches.len();
        if count == 0 {
            self.cursor = 0;
        } else if self.cursor > count - 1 {
            self.cursor = count - 1;
        }
    }

    /// Types a character behind the query and keeps the highlight inside what is left.
    pub fn type_char(&mut self, c: char, launchers: &Vec<Launcher>)
        ensures
            final(self).query_spec() == old(self).query_spec().push(c),
            final(self).cursor_spec() == clamped(
                old(self).cursor_spec() as int,
                final(self).narrowed(launchers_view(launchers@)).len() as int,
            ),
    {
        self.query.push(c);
        self.clamp_cursor(launchers);
    }

    /// `Backspace`: deletes the last character of the query.
    pub fn delete_previous_char(&mut self, launchers: &Vec<Launcher>)
        ensures
            old(self).query_spec().len() == 0 ==> final(self).query_spec() == old(
                self,
            ).query_spec(),
            old(self).query_spec().len() > 0 ==> final(self).query_spec() == old(
                self,
            ).query_spec().drop_last(),
            final(self).cursor_spec() == clamped(
                old(self).cursor_spec() as int,
                final(self).narrowed(launchers_view(launchers@)).len() as int,
            ),
    {
        let count: usize = self.query.as_str().unicode_len();
        if count > 0 {
            let kept = self.query.as_str().substring_char(0, count - 1).to_owned();
            self.query = kept;
        }
        self.clamp_cursor(launchers);
    }

    /// `Ctrl+W`: deletes one trailing whitespace-delimited word.
    pub fn delete_previous_word(&mut self, launchers: &Vec<Launcher>)
        ensures
            final(self).query_spec() == old(self).query_spec().take(
                word_start_in(old(self).query_spec()),
            ),
            final(self).cursor_spec() == clamped(
                old(self).cursor_spec() as int,
                final(self).narrowed(launchers_view(launchers@)).len() as int,
            ),
    {
        let mut buffer = EditBuffer::from_text(self.query.clone());
        buffer.delete_previous_word();
        self.query = buffer.as_str().to_owned();
        proof {
            assert(self.query@ =~= old(self).query_spec().take(
                word_start_in(old(self).query_spec()),
            ));
        }
        self.clamp_cursor(launchers);
    }

    /// The typed query verbatim.
    pub fn text(&self) -> (text: &str)
        ensures
            text@ == self.query_spec(),
    {
        self.query.as_str()
    }

    /// `Ctrl+U`: clears the query.
    pub fn clear_line(&mut self, launchers: &Vec<Launcher>)
        ensures
            final(self).query_spec() == Seq::<char>::empty(),
            final(self).cursor_spec() == clamped(
                old(self).cursor_spec() as int,
                final(self).narrowed(launchers_view(launchers@)).len() as int,
            ),
    {
        self.query = String::new();
        self.clamp_cursor(launchers);
    }

    /// `Up`/`Down`: moves the highlight by `delta`, clamped rather than wrapping.
    pub fn move_highlight(&mut self, delta: isize, launchers: &Vec<Launcher>)
        ensures
            final(self).query_spec() == old(self).query_spec(),
            final(self).cursor_spec() == clamped(
                old(self).cursor_spec() + delta,
                old(self).narrowed(launchers_view(launchers@)).len() as int,
            ),
    {
        let matches = self.matches(launchers);
        proof {
            assert(borrowed_view(matches@).len() == matches@.len());
        }
        let count: usize = matches.len();
        if count == 0 {
            self.cursor = 0;
            return ;
        }
        let moved: i128 = self.cursor as i128 + delta as i128;
        if moved < 0 {
            self.cursor = 0;
        } else if moved > (count - 1) as i128 {
            self.cursor = count - 1;
        } else {
            self.cursor = moved as usize;
        }
    }

    /// `Enter`: the highlighted Launcher. `None` with nothing highlighted.
    pub fn chosen(&self, launchers: &Vec<Launcher>) -> (launcher: Option<Launcher>)
        ensures
            launcher is Some <==> self.cursor_spec() < self.narrowed(
                launchers_view(launchers@),
            ).len(),
            launcher matches Some(launcher) ==> launcher@ == self.narrowed(
                launchers_view(launchers@),
            )[self.cursor_spec() as int],
    {
        match self.highlighted(launchers) {
            Some(launcher) => Some(launcher.copy()),
            None => None,
        }
    }

    /// The one-line message shown in place of the match list, or `None` while the query still
    /// matches something.
    pub fn empty_state_message(matches_is_empty: bool, launchers_is_empty: bool) -> (message:
        Option<&'static str>)
        ensures
            message is None <==> !matches_is_empty,
            message matches Some(message) ==> message@ == if launchers_is_empty {
                NO_LAUNCHERS_CONFIGURED_MESSAGE@
            } else {
                NO_MATCHES_MESSAGE@
            },
    {
        if !matches_is_empty {
            return None;
        }
        if launchers_is_empty {
            Some(NO_LAUNCHERS_CONFIGURED_MESSAGE)
        } else {
            Some(NO_MATCHES_MESSAGE)
        }
    }

    /// The popup's size inside `frame_area`.
    pub open spec fn popup_size(
        &self,
        frame_area: Rect,
        launchers: Seq<LauncherView>,
        entity_name: Seq<char>,
    ) -> (int, int) {
        let matches = self.narrowed(launchers);
        (
            framed_size(
                content_width(
                    matches,
                    launchers.len() as int,
                    self.query_spec(),
                    entity_name,
                ),
                MIN_POPUP_WIDTH as int,
                frame_area.width as int,
            ),
            framed_size(
                1 + at_least(matches.len() as int, 1),
                MIN_POPUP_HEIGHT as int,
                frame_area.height as int,
            ),
        )
    }

    /// The popup's own area inside `frame_area`.
    pub open spec fn popup(
        &self,
        frame_area: Rect,
        launchers: Seq<LauncherView>,
        entity_name: Seq<char>,
    ) -> Rect {
        let (width, height) = self.popup_size(frame_area, launchers, entity_name);
        centered_rect(frame_area, width as u16, height as u16)
    }

    /// The popup's own size inside `frame_area`: its content with a frame round it, no smaller
    /// than reads as a palette, and no larger than `frame_area` whatever that takes.
    pub fn popup_dimensions(
        &self,
        frame_area: Rect,
        launchers: &Vec<Launcher>,
        entity_name: &str,
    ) -> (size: (u16, u16))
        ensures
            (size.0 as int, size.1 as int) == self.popup_size(
                frame_area,
                launchers_view(launchers@),
                entity_name@,
            ),
    {
        let matches = self.matches(launchers);
        proof {
            assert(borrowed_view(matches@).len() == matches@.len());
            assert(launchers_view(launchers@).len() == launchers@.len());
        }
        let message = LauncherPalette::empty_state_message(
            matches.len() == 0,
            launchers.len() == 0,
        );
        let list: u128 = match message {
            Some(message) => byte_len(message) as u128,
            None => widest_name(&matches),
        };
        let typed: u128 = byte_len(self.query.as_str()) as u128 + 2;
        let named: u128 = byte_len(entity_name) as u128 + 2;
        let mut content: u128 = list;
        if content < typed {
            content = typed;
        }
        if content < named {
            content = named;
        }
        let rows: u128 = 1 + if matches.len() == 0 {
            1u128
        } else {
            matches.len() as u128
        };
        (
            fit_size(content, MIN_POPUP_WIDTH, frame_area.width),
            fit_size(rows, MIN_POPUP_HEIGHT, frame_area.height),
        )
    }

    /// The popup's own rect inside `frame_area`, sized to content and clamped to the frame: it never
    /// reaches past the frame's own edges.
    pub fn popup_area(
        &self,
        frame_area: Rect,
        launchers: &Vec<Launcher>,
        entity_name: &str,
    ) -> (popup: Rect)
        ensures
            popup == self.popup(frame_area, launchers_view(launchers@), entity_name@),
            frame_area.x + frame_area.width <= u16::MAX ==> popup.width == self.popup_size(
                frame_area,
                launchers_view(launchers@),
                entity_name@,
            ).0,
            frame_area.y + frame_area.height <= u16::MAX ==> popup.height == self.popup_size(
                frame_area,
                launchers_view(launchers@),
                entity_name@,
            ).1,
            frame_area.x <= popup.x,
            popup.x + popup.width <= frame_area.x + frame_area.width,
            frame_area.y <= popup.y,
            popup.y + popup.height <= frame_area.y + frame_area.height,
    {
        let (width, height) = self.popup_dimensions(frame_area, launchers, entity_name);
        center(frame_area, width, height)
    }

    /// What the palette paints into a popup: the query line on the first interior row, then the
    /// match list or whichever message applies, `entity_name` in the border title.
    pub fn draw(&self, popup: Rect, launchers: &Vec<Launcher>, entity_name: &str) -> (plan:
        PalettePlan)
        ensures
            plan.interior == interior(popup),
            plan.border_role == Role::BorderFocused,
            plan.query_role == Role::Text,
            plan.message_role == Role::Dim,
            plan.title@ == " "@ + entity_name@ + " "@,
            plan.query@ == (
                interior(popup).x,
                interior(popup).y,
                "! "@ + self.query_spec(),
            ),
            ({
                let matches = self.narrowed(launchers_view(launchers@));
                match empty_message(matches.len() as int, launchers@.len() as int) {
                    Some(message) => plan.message is Some && plan.message->0@ == (
                        interior(popup).x,
                        row_below(interior(popup).y, 1),
                        message,
                    ),
                    None => plan.message is None,
                }
            }),
            placed_view(plan.entries@) == entry_rows(
                self.narrowed(launchers_view(launchers@)),
                self.cursor_spec() as int,
                interior(popup),
                less(interior(popup).height as int, 1),
            ),
    {
        let inside = block_inner(popup);
        let matches = self.matches(launchers);
        let ghost narrowed = self.narrowed(launchers_view(launchers@));
        proof {
            assert(borrowed_view(matches@).len() == matches@.len());
        }
        let title = " ".to_owned().concat(entity_name).concat(" ");
        let query = PlacedText {
            x: inside.x,
            y: inside.y,
            text: "! ".to_owned().concat(self.query.as_str()),
        };
        let first: u16 = inside.y.saturating_add(1);
        let message = match LauncherPalette::empty_state_message(
            matches.len() == 0,
            launchers.len() == 0,
        ) {
            Some(message) => Some(
                PlacedText { x: inside.x, y: first, text: message.to_owned() },
            ),
            None => None,
        };
        let room: u16 = inside.height.saturating_sub(1);
        let mut entries: Vec<PlacedText> = Vec::new();
        let mut row: usize = 0;
        proof {
            assert(placed_view(entries@) =~= entry_rows(
                narrowed,
                self.cursor_spec() as int,
                inside,
                0,
            ));
        }
        while row < room as usize && row < matches.len()
            invariant
                row <= room,
                row <= matches.len(),
                room <= u16::MAX,
                inside == interior(popup),
                first == row_below(inside.y, 1),
                narrowed == borrowed_view(matches@),
                placed_view(entries@) == entry_rows(
                    narrowed,
                    self.cursor_spec() as int,
                    inside,
                    row as int,
                ),
            decreases room - row,
        {
            let marker = if row == self.cursor {
                "> "
            } else {
                "  "
            };
            let entry = PlacedText {
                x: inside.x,
                y: first.saturating_add(row as u16),
                text: marker.to_owned().concat(matches[row].name.as_str()),
            };
            let ghost before = entries@;
            entries.push(entry);
            proof {
                assert(narrowed[row as int] == matches@[row as int]@);
                assert(placed_view(entries@) =~= placed_view(before).push(entry@));
                assert(placed_view(entries@) =~= entry_rows(
                    narrowed,
                    self.cursor_spec() as int,
                    inside,
                    row + 1,
                ));
            }
            row = row + 1;
        }
        proof {
            assert(placed_view(entries@) =~= entry_rows(
                narrowed,
                self.cursor_spec() as int,
                inside,
                room as int,
            ));
        }
        PalettePlan {
            interior: inside,
            border_role: Role::BorderFocused,
            title,
            query,
            query_role: Role::Text,
            message,
            message_role: Role::Dim,
            entries,
        }
    }
}

fn widest_name(matches: &Vec<&Launcher>) -> (width: u128)
    ensures
        width == widest_entry(borrowed_view(matches@)),
{
    let ghost all = borrowed_view(matches@);
    let mut width: u128 = 0;
    let mut i: usize = 0;
    while i < matches.len()
        invariant
            i <= matches.len(),
            all == borrowed_view(matches@),
            width == widest_entry(all.take(i as int)),
        decreases matches.len() - i,
    {
        proof {
            assert(all.take(i + 1).drop_last() =~= all.take(i as int));
            assert(all.take(i + 1).last() == matches@[i as int]@);
        }
        let own: u128 = byte_len(matches[i].name.as_str()) as u128 + 2;
        if own > width {
            width = own;
        }
        i = i + 1;
    }
    proof {
        assert(all.take(i as int) =~= all);
    }
    width
}

fn fit_size(content: u128, floor: u16, limit: u16) -> (size: u16)
    ensures
        size == framed_size(content as int, floor as int, limit as int),
{
    let framed: u128 = content.saturating_add(2);
    let wanted: u128 = if framed < floor as u128 {
        floor as u128
    } else {
        framed
    };
    if wanted < limit as u128 {
        wanted as u16
    } else {
        limit
    }
}

impl Default for LauncherPalette {
    fn default() -> (palette: Self)
        ensures
            palette.query_spec() == Seq::<char>::empty(),
            palette.cursor_spec() == 0,
    {
        LauncherPalette::new()
    }
}

/// The popup lies inside the frame it opens over, however small that is, however many Launchers
/// match and however long their names are; over a frame with the room for it, it is never smaller
/// than what reads as a palette, and centred to within one cell.
pub proof fn law_the_popup_fits_its_frame(
    palette: LauncherPalette,
    frame_area: Rect,
    launchers: Seq<LauncherView>,
    entity_name: Seq<char>,
)
    requires
        frame_area.x + frame_area.width <= u16::MAX,
        frame_area.y + frame_area.height <= u16::MAX,
    ensures
        ({
            let popup = palette.popup(frame_area, launchers, entity_name);
            let left = popup.x - frame_area.x;
            let right = frame_area.x + frame_area.width - (popup.x + popup.width);
            let above = popup.y - frame_area.y;
            let below = frame_area.y + frame_area.height - (popup.y + popup.height);
            &&& 0 <= right <= left <= right + 1
            &&& 0 <= below <= above <= below + 1
            &&& popup.width >= at_most(MIN_POPUP_WIDTH as int, frame_area.width as int)
            &&& popup.height >= at_most(MIN_POPUP_HEIGHT as int, frame_area.height as int)
        }),
{
}

/// A highlight kept inside the matches always names one of them, where there is any.
pub proof fn law_a_clamped_highlight_names_a_match(cursor: int, count: int)
    requires
        0 <= count,
    ensures
        count > 0 ==> 0 <= clamped(cursor, count) < count,
        count == 0 ==> clamped(cursor, count) == 0,
{
}

/// Every match is one of the Launchers, and every Launcher whose name holds the query is a
/// match.
pub proof fn law_the_matches_are_the_launchers_that_match(
    launchers: Seq<LauncherView>,
    query: Seq<char>,
)
    ensures
        forall|launcher: LauncherView| #[trigger]
            matching_launchers(launchers, query).contains(launcher) <==> launchers.contains(
                launcher,
            ) && matches_query(launcher.name, query),
    decreases launchers.len(),
{
    if launchers.len() > 0 {
        let rest = launchers.drop_last();
        let earlier = matching_launchers(rest, query);
        let kept = matching_launchers(launchers, query);
        law_the_matches_are_the_launchers_that_match(rest, query);
        assert forall|launcher: LauncherView| #[trigger]
            kept.contains(launcher) <==> launchers.contains(launcher) && matches_query(
                launcher.name,
                query,
            ) by {
            if kept.contains(launcher) {
                let k = choose|k: int| 0 <= k < kept.len() && kept[k] == launcher;
                if k < earlier.len() {
                    assert(earlier[k] == launcher);
                    assert(earlier.contains(launcher));
                    let at = choose|at: int| 0 <= at < rest.len() && rest[at] == launcher;
                    assert(launchers[at] == launcher);
                } else {
                    assert(launchers[launchers.len() - 1] == launcher);
                }
            }
            if launchers.contains(launcher) && matches_query(launcher.name, query) {
                let at = choose|at: int| 0 <= at < launchers.len() && launchers[at] == launcher;
                if at < rest.len() {
                    assert(rest[at] == launcher);
                    assert(earlier.contains(launcher));
                    let k = choose|k: int| 0 <= k < earlier.len() && earlier[k] == launcher;
                    assert(kept[k] == launcher);
                } else {
                    assert(kept.last() == launcher);
                }
            }
        }
    }
}

/// A query in ASCII letters narrows the list to the same Launchers in whatever case it is typed.
pub proof fn law_the_case_of_a_query_narrows_nothing(
    launchers: Seq<LauncherView>,
    query: Seq<char>,
    other: Seq<char>,
)
    requires
        all_ascii(query),
        same_ignoring_case(query, other),
    ensures
        matching_launchers(launchers, query) == matching_launchers(launchers, other),
    decreases launchers.len(),
{
    if launchers.len() > 0 {
        law_the_case_of_a_query_narrows_nothing(launchers.drop_last(), query, other);
        law_the_case_of_a_query_does_not_matter(launchers.last().name, query, other);
    }
}

/// A highlight inside the list stays where it is, one behind it goes to the last row and one ahead
/// of it to the first.
pub proof fn law_a_highlight_moves_only_into_the_list(cursor: int, count: int)
    requires
        0 < count,
    ensures
        0 <= cursor < count ==> clamped(cursor, count) == cursor,
        cursor >= count ==> clamped(cursor, count) == count - 1,
        cursor < 0 ==> clamped(cursor, count) == 0,
{
}

/// The matches are the Launchers whose lowercased name holds the lowercased query, each as often
/// and in the order it is declared.
pub proof fn law_the_matches_keep_their_order(launchers: Seq<LauncherView>, query: Seq<char>)
    ensures
        matching_launchers(launchers, query) == launchers.filter(
            |launcher: LauncherView|
                crate::text::contains_text(lowered(launcher.name), lowered(query)),
        ),
    decreases launchers.len(),
{
    reveal(Seq::filter);
    let holds = |launcher: LauncherView|
        crate::text::contains_text(lowered(launcher.name), lowered(query));
    if launchers.len() > 0 {
        law_the_matches_keep_their_order(launchers.drop_last(), query);
    }
    assert(matching_launchers(launchers, query) =~= launchers.filter(holds));
}

/// Where nothing matches the palette says so, and says where Launchers come from where there is
/// none to match; otherwise it says nothing.
pub proof fn law_what_an_empty_list_says(matches: nat, launchers: nat)
    ensures
        matches > 0 ==> empty_message(matches as int, launchers as int) is None,
        matches == 0 && launchers == 0 ==> empty_message(matches as int, launchers as int) == Some(
            "no launchers; see [[launcher]]"@,
        ),
        matches == 0 && launchers > 0 ==> empty_message(matches as int, launchers as int) == Some(
            "no matches"@,
        ),
{
}

proof fn lemma_widest_entry(matches: Seq<LauncherView>)
    ensures
        forall|i: int|
            0 <= i < matches.len() ==> widest_entry(matches) >= bytes(
                (#[trigger] matches[i]).name,
            ) + 2,
        matches.len() > 0 ==> exists|i: int|
            0 <= i < matches.len() && widest_entry(matches) == bytes((#[trigger] matches[i]).name)
                + 2,
    decreases matches.len(),
{
    if matches.len() > 0 {
        let rest = matches.drop_last();
        lemma_widest_entry(rest);
        assert forall|i: int| 0 <= i < matches.len() implies widest_entry(matches) >= bytes(
            (#[trigger] matches[i]).name,
        ) + 2 by {
            if i < rest.len() {
                assert(rest[i] == matches[i]);
            }
        }
        if widest_entry(matches) == bytes(matches.last().name) + 2 {
            assert(matches[matches.len() - 1] == matches.last());
        } else {
            assert(rest.len() > 0);
            let i = choose|i: int|
                0 <= i < rest.len() && widest_entry(rest) == bytes((#[trigger] rest[i]).name) + 2;
            assert(matches[i] == rest[i]);
        }
    }
}

/// The popup has a row for the query and one for each match, or for the message where there is
/// none, inside its frame; and is as wide as the widest of what it shows needs, and no wider. It is
/// smaller than that only where the frame it opens over is, and larger only to be a palette at
/// all.
pub proof fn law_the_popup_is_as_large_as_its_content(
    palette: LauncherPalette,
    frame_area: Rect,
    launchers: Seq<LauncherView>,
    entity_name: Seq<char>,
)
    ensures
        ({
            let matches = palette.narrowed(launchers);
            let (width, height) = palette.popup_size(frame_area, launchers, entity_name);
            let query = bytes(palette.query_spec());
            &&& width <= frame_area.width
            &&& height <= frame_area.height
            &&& height < frame_area.height && matches.len() > 0 ==> height == matches.len() + 3
                || height == 4 && matches.len() == 0
            &&& height < frame_area.height && matches.len() == 0 ==> height == 4
            &&& height == frame_area.height ==> height <= matches.len() + 3 || height <= 4
            &&& width < frame_area.width ==> {
                &&& width >= 24
                &&& width >= query + 4
                &&& width >= bytes(entity_name) + 4
                &&& forall|i: int|
                    0 <= i < matches.len() ==> width >= bytes((#[trigger] matches[i]).name) + 4
                &&& matches.len() == 0 && launchers.len() > 0 ==> width >= bytes("no matches"@) + 2
                &&& matches.len() == 0 && launchers.len() == 0 ==> width >= bytes(
                    "no launchers; see [[launcher]]"@,
                ) + 2
            }
            &&& width <= 24 || width <= query + 4 || width <= bytes(entity_name) + 4 || (
            matches.len() == 0 && launchers.len() > 0 && width <= bytes("no matches"@) + 2) || (
            matches.len() == 0 && launchers.len() == 0 && width <= bytes(
                "no launchers; see [[launcher]]"@,
            ) + 2) || exists|i: int|
                0 <= i < matches.len() && width <= bytes((#[trigger] matches[i]).name) + 4
        }),
{
    lemma_widest_entry(palette.narrowed(launchers));
}

/// The list shows its matches from the first on, one to a row below the query and as many as there
/// are rows for, the highlighted one behind a marker and the others behind two spaces.
pub proof fn law_each_match_has_its_own_row(
    matches: Seq<LauncherView>,
    cursor: int,
    inside: Rect,
    count: nat,
    row: int,
)
    requires
        0 <= row < matches.len(),
        row < count,
        inside.y + 1 + row <= u16::MAX,
    ensures
        ({
            let rows = entry_rows(matches, cursor, inside, count as int);
            &&& rows.len() <= count
            &&& rows.len() <= matches.len()
            &&& row < rows.len()
            &&& rows[row].0 == inside.x
            &&& rows[row].1 == inside.y + 1 + row
            &&& row == cursor ==> rows[row].2 == "> "@ + matches[row].name
            &&& row != cursor ==> rows[row].2 == "  "@ + matches[row].name
        }),
{
}

} // verus!
