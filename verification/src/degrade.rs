//! The width-degradation rule every one-line surface shares: which of its items survive in a
//! given number of columns, and whether an ellipsis says that some did not.

use vstd::prelude::*;

use crate::text::{join, joined};

verus! {

broadcast use {vstd::string::group_string_axioms, vstd::seq_lib::group_seq_properties};

/// When an item gives way: the lowest rank first, items sharing a rank together, and a pinned
/// item never.
#[derive(Clone, Copy, Debug, PartialEq, Eq, Structural)]
pub enum Priority {
    Drop(u8),
    Pinned,
}

/// One item of a line, as it is shown.
#[derive(Clone, Debug, PartialEq, Eq)]
pub struct Item {
    pub content: String,
    pub priority: Priority,
}

impl View for Item {
    type V = (Seq<char>, Priority);

    open spec fn view(&self) -> (Seq<char>, Priority) {
        (self.content@, self.priority)
    }
}

/// The items as plain text.
pub open spec fn items_view(items: Seq<Item>) -> Seq<(Seq<char>, Priority)> {
    items.map_values(|item: Item| item@)
}

/// An item of this priority is still shown once every rank below `floor` has dropped.
pub open spec fn survives(priority: Priority, floor: int) -> bool {
    match priority {
        Priority::Drop(rank) => rank >= floor,
        Priority::Pinned => true,
    }
}

/// The indices of the items that survive, in order.
pub open spec fn surviving(items: Seq<(Seq<char>, Priority)>, floor: int) -> Seq<int>
    decreases items.len(),
{
    if items.len() == 0 {
        Seq::empty()
    } else {
        let earlier = surviving(items.drop_last(), floor);
        if survives(items.last().1, floor) {
            earlier.push(items.len() - 1)
        } else {
            earlier
        }
    }
}

/// The texts at `kept`.
pub open spec fn texts_at(items: Seq<(Seq<char>, Priority)>, kept: Seq<int>) -> Seq<Seq<char>> {
    kept.map_values(|i: int| items[i].0)
}

/// The line the items at `kept` make, no ellipsis on it.
pub open spec fn line_of(
    items: Seq<(Seq<char>, Priority)>,
    kept: Seq<int>,
    separator: Seq<char>,
) -> Seq<char> {
    joined(texts_at(items, kept), separator)
}

/// The items left once every rank below `floor` has dropped fit in `width` columns together with
/// the ellipsis that says some are gone.
pub open spec fn fits_shortened(
    items: Seq<(Seq<char>, Priority)>,
    floor: int,
    width: nat,
    separator: Seq<char>,
    ellipsis: Seq<char>,
) -> bool {
    let kept = surviving(items, floor);
    kept.len() > 0 && line_of(items, kept, separator).len() + ellipsis.len() <= width
}

/// The first floor from `floor` on at which the items fit shortened, or 257 where none is.
pub open spec fn first_fitting(
    items: Seq<(Seq<char>, Priority)>,
    floor: int,
    width: nat,
    separator: Seq<char>,
    ellipsis: Seq<char>,
) -> int
    decreases 257 - floor,
{
    if floor > 256 {
        257
    } else if fits_shortened(items, floor, width, separator, ellipsis) {
        floor
    } else {
        first_fitting(items, floor + 1, width, separator, ellipsis)
    }
}

/// Which items are shown in `width` columns, and whether an ellipsis follows them: all of them
/// where they fit; else what is left after dropping as few ranks as leave room for the rest and
/// the ellipsis; else the pinned items without it; else nothing.
pub open spec fn selection(
    items: Seq<(Seq<char>, Priority)>,
    width: nat,
    separator: Seq<char>,
    ellipsis: Seq<char>,
) -> (Seq<int>, bool) {
    let all = surviving(items, 0);
    let floor = first_fitting(items, 1, width, separator, ellipsis);
    let pinned = surviving(items, 256);
    if line_of(items, all, separator).len() <= width {
        (all, false)
    } else if floor <= 256 {
        (surviving(items, floor), true)
    } else if line_of(items, pinned, separator).len() <= width {
        (pinned, false)
    } else {
        (Seq::empty(), false)
    }
}

/// The line at some width: the indices of the surviving items in display order, and whether the
/// ellipsis was reserved for a dropped one.
#[derive(Clone, Debug, PartialEq, Eq)]
pub struct Line {
    pub kept: Vec<usize>,
    pub truncated: bool,
}

/// The indices as mathematical integers.
pub open spec fn indices(kept: Seq<usize>) -> Seq<int> {
    kept.map_values(|i: usize| i as int)
}

/// The text of a selection: its items between separators, then the ellipsis where one is owed.
pub open spec fn rendered(
    items: Seq<(Seq<char>, Priority)>,
    selected: (Seq<int>, bool),
    separator: Seq<char>,
    ellipsis: Seq<char>,
) -> Seq<char> {
    line_of(items, selected.0, separator) + if selected.1 {
        ellipsis
    } else {
        Seq::empty()
    }
}

/// Every surviving index names an item, and that item survives.
pub proof fn lemma_surviving(items: Seq<(Seq<char>, Priority)>, floor: int)
    ensures
        surviving(items, floor).len() <= items.len(),
        forall|k: int|
            0 <= k < surviving(items, floor).len() ==> 0 <= #[trigger] surviving(items, floor)[k]
                < items.len() && survives(items[surviving(items, floor)[k]].1, floor),
        forall|i: int|
            0 <= i < items.len() && survives(#[trigger] items[i].1, floor) ==> surviving(
                items,
                floor,
            ).contains(i),
    decreases items.len(),
{
    if items.len() > 0 {
        let rest = items.drop_last();
        lemma_surviving(rest, floor);
        let earlier = surviving(rest, floor);
        let now = surviving(items, floor);
        assert forall|k: int| 0 <= k < now.len() implies 0 <= #[trigger] now[k] < items.len()
            && survives(items[now[k]].1, floor) by {
            if k < earlier.len() {
                assert(now[k] == earlier[k]);
                assert(rest[earlier[k]] == items[earlier[k]]);
            }
        }
        assert forall|i: int|
            0 <= i < items.len() && survives(#[trigger] items[i].1, floor) implies now.contains(
            i,
        ) by {
            if i < rest.len() {
                assert(rest[i] == items[i]);
                let k = choose|k: int| 0 <= k < earlier.len() && earlier[k] == i;
                assert(now[k] == i);
            } else {
                assert(now.last() == i);
            }
        }
    }
}

fn keep_from(items: &Vec<Item>, floor: u16) -> (kept: Vec<usize>)
    ensures
        indices(kept@) == surviving(items_view(items@), floor as int),
        forall|k: int| 0 <= k < kept@.len() ==> #[trigger] kept@[k] < items.len(),
{
    let ghost all = items_view(items@);
    let mut kept: Vec<usize> = Vec::new();
    let mut i: usize = 0;
    proof {
        assert(indices(kept@) =~= Seq::<int>::empty());
    }
    while i < items.len()
        invariant
            i <= items.len(),
            all == items_view(items@),
            indices(kept@) == surviving(all.take(i as int), floor as int),
            forall|k: int| 0 <= k < kept@.len() ==> #[trigger] kept@[k] < i,
        decreases items.len() - i,
    {
        proof {
            assert(all.take(i + 1).drop_last() =~= all.take(i as int));
            assert(all.take(i + 1).last() == items@[i as int]@);
        }
        let stays = match items[i].priority {
            Priority::Drop(rank) => rank as u16 >= floor,
            Priority::Pinned => true,
        };
        if stays {
            let ghost before = kept@;
            kept.push(i);
            proof {
                assert(indices(kept@) =~= indices(before).push(i as int));
            }
        }
        i = i + 1;
    }
    proof {
        assert(all.take(i as int) =~= all);
    }
    kept
}

/// The line the items at `kept` make.
fn line_at(items: &Vec<Item>, kept: &Vec<usize>, separator: &str) -> (line: String)
    requires
        forall|k: int| 0 <= k < kept@.len() ==> #[trigger] kept@[k] < items.len(),
    ensures
        line@ == line_of(items_view(items@), indices(kept@), separator@),
{
    let mut texts: Vec<String> = Vec::new();
    let mut k: usize = 0;
    while k < kept.len()
        invariant
            k <= kept.len(),
            texts@.len() == k,
            forall|j: int| 0 <= j < kept@.len() ==> #[trigger] kept@[j] < items.len(),
            forall|j: int|
                0 <= j < k ==> #[trigger] texts@[j]@ == items@[kept@[j] as int].content@,
        decreases kept.len() - k,
    {
        texts.push(items[kept[k]].content.clone());
        k = k + 1;
    }
    proof {
        assert(texts.deep_view() =~= texts_at(items_view(items@), indices(kept@)));
    }
    join(&texts, separator)
}

/// Selects `items` into at most `width` columns, each character taken as one column: every item
/// is width-checked including the first, the ellipsis is reserved inside the budget, items
/// sharing a rank drop together, and a pinned item never drops, only the ellipsis drops from it.
pub fn budget(items: &Vec<Item>, width: usize, separator: &str, ellipsis: &str) -> (line: Line)
    ensures
        (indices(line.kept@), line.truncated) == selection(
            items_view(items@),
            width as nat,
            separator@,
            ellipsis@,
        ),
        forall|k: int| 0 <= k < line.kept@.len() ==> #[trigger] line.kept@[k] < items.len(),
{
    let ghost all_items = items_view(items@);
    let all = keep_from(items, 0);
    if line_at(items, &all, separator).as_str().unicode_len() <= width {
        return Line { kept: all, truncated: false };
    }
    let tail: usize = ellipsis.unicode_len();
    let mut floor: u16 = 1;
    while floor <= 256
        invariant
            1 <= floor <= 257,
            all_items == items_view(items@),
            tail == ellipsis@.len(),
            line_of(all_items, surviving(all_items, 0), separator@).len() > width,
            first_fitting(all_items, 1, width as nat, separator@, ellipsis@) == first_fitting(
                all_items,
                floor as int,
                width as nat,
                separator@,
                ellipsis@,
            ),
        decreases 257 - floor,
    {
        let kept = keep_from(items, floor);
        let columns: usize = line_at(items, &kept, separator).as_str().unicode_len();
        proof {
            assert(indices(kept@).len() == kept@.len());
        }
        if kept.len() > 0 && columns <= width && tail <= width - columns {
            return Line { kept, truncated: true };
        }
        floor = floor + 1;
    }
    let pinned = keep_from(items, 256);
    if line_at(items, &pinned, separator).as_str().unicode_len() <= width {
        return Line { kept: pinned, truncated: false };
    }
    let none: Vec<usize> = Vec::new();
    proof {
        assert(indices(none@) =~= Seq::<int>::empty());
    }
    Line { kept: none, truncated: false }
}

/// The text of a line.
pub fn render(items: &Vec<Item>, line: &Line, separator: &str, ellipsis: &str) -> (text: String)
    requires
        forall|k: int| 0 <= k < line.kept@.len() ==> #[trigger] line.kept@[k] < items.len(),
    ensures
        text@ == rendered(
            items_view(items@),
            (indices(line.kept@), line.truncated),
            separator@,
            ellipsis@,
        ),
{
    let mut text = line_at(items, &line.kept, separator);
    if line.truncated {
        text.append(ellipsis);
    }
    text
}

proof fn lemma_first_fitting(
    items: Seq<(Seq<char>, Priority)>,
    floor: int,
    width: nat,
    separator: Seq<char>,
    ellipsis: Seq<char>,
)
    requires
        floor <= 257,
    ensures
        ({
            let found = first_fitting(items, floor, width, separator, ellipsis);
            &&& floor <= found <= 257
            &&& found <= 256 ==> fits_shortened(items, found, width, separator, ellipsis)
            &&& forall|other: int|
                floor <= other < found ==> !#[trigger] fits_shortened(
                    items,
                    other,
                    width,
                    separator,
                    ellipsis,
                )
        }),
    decreases 257 - floor,
{
    if floor <= 256 && !fits_shortened(items, floor, width, separator, ellipsis) {
        lemma_first_fitting(items, floor + 1, width, separator, ellipsis);
    }
}

/// The rendered line is never wider than the width it was given, ellipsis and all, whatever the
/// items.
pub proof fn law_a_line_never_overruns_its_width(
    items: Seq<(Seq<char>, Priority)>,
    width: nat,
    separator: Seq<char>,
    ellipsis: Seq<char>,
)
    ensures
        rendered(
            items,
            selection(items, width, separator, ellipsis),
            separator,
            ellipsis,
        ).len() <= width,
{
    lemma_first_fitting(items, 1, width, separator, ellipsis);
    assert(texts_at(items, Seq::empty()) =~= Seq::<Seq<char>>::empty());
}

/// Items of the same rank are shown together or not at all.
pub proof fn law_a_shared_rank_drops_together(
    items: Seq<(Seq<char>, Priority)>,
    width: nat,
    separator: Seq<char>,
    ellipsis: Seq<char>,
    i: int,
    j: int,
)
    requires
        0 <= i < items.len(),
        0 <= j < items.len(),
        items[i].1 == items[j].1,
    ensures
        ({
            let kept = selection(items, width, separator, ellipsis).0;
            kept.contains(i) <==> kept.contains(j)
        }),
{
    let floor = first_fitting(items, 1, width, separator, ellipsis);
    lemma_surviving(items, 0);
    lemma_surviving(items, floor);
    lemma_surviving(items, 256);
    let kept = selection(items, width, separator, ellipsis).0;
    assert(survives(items[i].1, 0) == survives(items[j].1, 0));
    assert(survives(items[i].1, floor) == survives(items[j].1, floor));
    assert(survives(items[i].1, 256) == survives(items[j].1, 256));
}

/// A pinned item is shown on every line that shows anything.
pub proof fn law_a_pinned_item_never_drops(
    items: Seq<(Seq<char>, Priority)>,
    width: nat,
    separator: Seq<char>,
    ellipsis: Seq<char>,
    i: int,
)
    requires
        0 <= i < items.len(),
        items[i].1 == Priority::Pinned,
    ensures
        ({
            let kept = selection(items, width, separator, ellipsis).0;
            kept.len() > 0 ==> kept.contains(i)
        }),
{
    let floor = first_fitting(items, 1, width, separator, ellipsis);
    lemma_surviving(items, 0);
    lemma_surviving(items, floor);
    lemma_surviving(items, 256);
    assert(survives(items[i].1, 0) && survives(items[i].1, floor) && survives(items[i].1, 256));
}

/// Nothing of a higher rank drops before something of a lower one: where an item is shown, so is
/// every item that outranks it.
pub proof fn law_the_lowest_rank_drops_first(
    items: Seq<(Seq<char>, Priority)>,
    width: nat,
    separator: Seq<char>,
    ellipsis: Seq<char>,
    i: int,
    j: int,
)
    requires
        0 <= i < items.len(),
        0 <= j < items.len(),
        items[i].1 matches Priority::Drop(low) && (items[j].1 matches Priority::Drop(high)
            ==> low <= high),
    ensures
        ({
            let kept = selection(items, width, separator, ellipsis).0;
            kept.contains(i) ==> kept.contains(j)
        }),
{
    let floor = first_fitting(items, 1, width, separator, ellipsis);
    lemma_surviving(items, 0);
    lemma_surviving(items, floor);
    lemma_surviving(items, 256);
    let kept = selection(items, width, separator, ellipsis).0;
    if kept.contains(i) {
        assert(survives(items[j].1, 0));
        assert(survives(items[i].1, floor) ==> survives(items[j].1, floor));
        assert(survives(items[i].1, 256) ==> survives(items[j].1, 256));
    }
}


/// The texts of the items that outlast every rank below `floor`: the pinned ones and those of a
/// rank no lower.
pub open spec fn outlasting(items: Seq<(Seq<char>, Priority)>, floor: int) -> Seq<Seq<char>>
    decreases items.len(),
{
    if items.len() == 0 {
        Seq::empty()
    } else {
        let earlier = outlasting(items.drop_last(), floor);
        match items.last().1 {
            Priority::Pinned => earlier.push(items.last().0),
            Priority::Drop(rank) => if rank >= floor {
                earlier.push(items.last().0)
            } else {
                earlier
            },
        }
    }
}

proof fn lemma_outlasting(items: Seq<(Seq<char>, Priority)>, floor: int)
    ensures
        texts_at(items, surviving(items, floor)) == outlasting(items, floor),
    decreases items.len(),
{
    let kept = surviving(items, floor);
    if items.len() > 0 {
        let rest = items.drop_last();
        lemma_outlasting(rest, floor);
        lemma_surviving(rest, floor);
        assert(texts_at(rest, surviving(rest, floor)) =~= texts_at(items, surviving(rest, floor)))
            by {
            assert forall|k: int| 0 <= k < surviving(rest, floor).len() implies rest[surviving(
                rest,
                floor,
            )[k]] == items[#[trigger] surviving(rest, floor)[k]] by {}
        }
        assert(texts_at(items, kept) =~= outlasting(items, floor));
    } else {
        assert(texts_at(items, kept) =~= outlasting(items, floor));
    }
}

proof fn lemma_surviving_in_order(items: Seq<(Seq<char>, Priority)>, floor: int)
    ensures
        forall|a: int, b: int|
            0 <= a < b < surviving(items, floor).len() ==> #[trigger] surviving(items, floor)[a]
                < #[trigger] surviving(items, floor)[b],
    decreases items.len(),
{
    if items.len() > 0 {
        lemma_surviving_in_order(items.drop_last(), floor);
        lemma_surviving(items.drop_last(), floor);
        let earlier = surviving(items.drop_last(), floor);
        let now = surviving(items, floor);
        assert forall|a: int, b: int| 0 <= a < b < now.len() implies #[trigger] now[a]
            < #[trigger] now[b] by {
            assert(now[a] == earlier[a]);
            if b < earlier.len() {
                assert(now[b] == earlier[b]);
            }
        }
    }
}

proof fn lemma_nothing_drops_below_zero(items: Seq<(Seq<char>, Priority)>)
    ensures
        surviving(items, 0) == Seq::new(items.len(), |i: int| i),
    decreases items.len(),
{
    if items.len() > 0 {
        lemma_nothing_drops_below_zero(items.drop_last());
    }
    assert(surviving(items, 0) =~= Seq::new(items.len(), |i: int| i));
}

/// Items that fit are shown whole, each in its place and without an ellipsis.
pub proof fn law_what_fits_is_shown_whole(
    items: Seq<(Seq<char>, Priority)>,
    width: nat,
    separator: Seq<char>,
    ellipsis: Seq<char>,
)
    requires
        joined(
            items.map_values(|item: (Seq<char>, Priority)| item.0),
            separator,
        ).len() <= width,
    ensures
        selection(items, width, separator, ellipsis) == (Seq::new(items.len(), |i: int| i), false),
        rendered(
            items,
            selection(items, width, separator, ellipsis),
            separator,
            ellipsis,
        ) == joined(items.map_values(|item: (Seq<char>, Priority)| item.0), separator),
{
    let texts = items.map_values(|item: (Seq<char>, Priority)| item.0);
    lemma_nothing_drops_below_zero(items);
    assert(texts_at(items, surviving(items, 0)) =~= texts);
    assert(joined(texts, separator) + Seq::<char>::empty() =~= joined(texts, separator));
}

/// No more could be shown: whatever outlasts some rank, and fits with the ellipsis behind it, is
/// shown, all of it; and the pinned items are shown wherever they fit alone.
pub proof fn law_no_more_could_be_shown(
    items: Seq<(Seq<char>, Priority)>,
    width: nat,
    separator: Seq<char>,
    ellipsis: Seq<char>,
    floor: int,
    i: int,
)
    requires
        0 <= i < items.len(),
        1 <= floor <= 256,
    ensures
        ({
            let shown = selection(items, width, separator, ellipsis).0;
            &&& joined(outlasting(items, floor), separator).len() + ellipsis.len() <= width && (
            items[i].1 matches Priority::Drop(rank) ==> rank >= floor) ==> shown.contains(i)
            &&& joined(outlasting(items, 256), separator).len() <= width && items[i].1
                == Priority::Pinned ==> shown.contains(i)
        }),
{
    let found = first_fitting(items, 1, width, separator, ellipsis);
    let shown = selection(items, width, separator, ellipsis).0;
    lemma_outlasting(items, floor);
    lemma_outlasting(items, 256);
    lemma_surviving(items, 0);
    lemma_surviving(items, found);
    lemma_surviving(items, 256);
    lemma_surviving(items, floor);
    lemma_first_fitting(items, 1, width, separator, ellipsis);
    assert(survives(items[i].1, 0));
    if joined(outlasting(items, floor), separator).len() + ellipsis.len() <= width && (
    items[i].1 matches Priority::Drop(rank) ==> rank >= floor) {
        assert(survives(items[i].1, floor));
        assert(surviving(items, floor).contains(i));
        assert(fits_shortened(items, floor, width, separator, ellipsis));
        assert(found <= floor);
        assert(survives(items[i].1, found));
    }
    if items[i].1 == Priority::Pinned {
        assert(survives(items[i].1, found) && survives(items[i].1, 256));
    }
}

/// What is shown keeps its order, and an ellipsis says that something is not: it is there only
/// where something is shown and something else is left out.
pub proof fn law_a_shortened_line_says_so(
    items: Seq<(Seq<char>, Priority)>,
    width: nat,
    separator: Seq<char>,
    ellipsis: Seq<char>,
)
    ensures
        ({
            let (shown, truncated) = selection(items, width, separator, ellipsis);
            &&& forall|a: int, b: int|
                0 <= a < b < shown.len() ==> #[trigger] shown[a] < #[trigger] shown[b]
            &&& forall|a: int| 0 <= a < shown.len() ==> 0 <= #[trigger] shown[a] < items.len()
            &&& truncated ==> 0 < shown.len() < items.len()
            &&& !truncated && 0 < shown.len() < items.len() ==> forall|a: int|
                0 <= a < shown.len() ==> items[#[trigger] shown[a]].1 == Priority::Pinned
        }),
{
    let found = first_fitting(items, 1, width, separator, ellipsis);
    let (shown, truncated) = selection(items, width, separator, ellipsis);
    lemma_surviving(items, 0);
    lemma_surviving(items, found);
    lemma_surviving(items, 256);
    lemma_surviving_in_order(items, 0);
    lemma_surviving_in_order(items, found);
    lemma_surviving_in_order(items, 256);
    lemma_first_fitting(items, 1, width, separator, ellipsis);
    lemma_nothing_drops_below_zero(items);
    if truncated && shown.len() == items.len() {
        lemma_a_full_ascent(shown, items.len());
        assert(shown =~= surviving(items, 0));
    }
    if !truncated && 0 < shown.len() < items.len() {
        assert forall|a: int| 0 <= a < shown.len() implies items[#[trigger] shown[a]].1
            == Priority::Pinned by {
            assert(survives(items[shown[a]].1, 256));
        }
    }
}

proof fn lemma_a_full_ascent(shown: Seq<int>, count: nat)
    requires
        shown.len() == count,
        forall|a: int, b: int|
            0 <= a < b < shown.len() ==> #[trigger] shown[a] < #[trigger] shown[b],
        forall|a: int| 0 <= a < shown.len() ==> 0 <= #[trigger] shown[a] < count,
    ensures
        shown == Seq::new(count, |i: int| i),
    decreases count,
{
    if count > 0 {
        let rest = shown.drop_last();
        assert forall|a: int| 0 <= a < rest.len() implies 0 <= #[trigger] rest[a] < count - 1 by {
            assert(shown[a] < shown[count - 1]);
        }
        assert(forall|a: int, b: int|
            0 <= a < b < rest.len() ==> #[trigger] rest[a] == shown[a] && #[trigger] rest[b]
                == shown[b]);
        lemma_a_full_ascent(rest, (count - 1) as nat);
        if count > 1 {
            assert(rest[count - 2] == count - 2);
            assert(shown[count - 2] < shown[count - 1]);
        }
    }
    let ascent = Seq::new(count, |i: int| i);
    assert forall|a: int| 0 <= a < shown.len() implies shown[a] == #[trigger] ascent[a] by {
        if a < count - 1 {
            assert(shown.drop_last()[a] == a);
        }
    }
    assert(shown =~= ascent);
}

/// The text of a line is what is shown, between separators, and the ellipsis where one is owed.
pub proof fn law_a_line_is_what_is_shown(
    items: Seq<(Seq<char>, Priority)>,
    shown: Seq<int>,
    separator: Seq<char>,
    ellipsis: Seq<char>,
)
    ensures
        ({
            let texts = shown.map_values(|i: int| items[i].0);
            &&& rendered(items, (shown, false), separator, ellipsis) == joined(texts, separator)
            &&& rendered(items, (shown, true), separator, ellipsis) == joined(texts, separator)
                + ellipsis
        }),
{
    let texts = shown.map_values(|i: int| items[i].0);
    assert(joined(texts, separator) + Seq::<char>::empty() =~= joined(texts, separator));
}

} // verus!
