//! The header's own five items and the width they degrade under. Priority, highest to lowest:
//! the entity count, run progress, the Filter's match count, the worktrees note, then timing.

use vstd::prelude::*;

use crate::degrade;
use crate::degrade::{items_view, rendered, selection, Item, Priority};
use crate::elapsed::{elapsed_text, format_elapsed, Elapsed};
use crate::text::{decimal, to_decimal};

verus! {

broadcast use {vstd::string::group_string_axioms, vstd::seq_lib::group_seq_properties};

/// What stands between two items.
pub const SEPARATOR: &'static str = " · ";

/// What stands for the items a width left out.
pub const ELLIPSIS: &'static str = " ...";

/// One value for each of the header's five items. `None` means the item has nothing to report
/// this frame; `entity_count` alone is never absent.
#[derive(Clone, Copy, Debug, PartialEq, Eq)]
pub struct HeaderContent {
    pub entity_count: usize,
    pub run_progress: Option<(usize, usize)>,
    pub filter_match_count: Option<usize>,
    pub worktrees_note: Option<usize>,
    pub elapsed: Option<Elapsed>,
}

impl HeaderContent {
    /// The elapsed time, where there is one, is well formed.
    pub open spec fn wf(self) -> bool {
        self.elapsed matches Some(elapsed) ==> elapsed.wf()
    }
}

/// An item where there is something to report, nothing where there is not.
pub open spec fn reported(item: Option<(Seq<char>, Priority)>) -> Seq<(Seq<char>, Priority)> {
    match item {
        Some(item) => seq![item],
        None => Seq::empty(),
    }
}

/// The items ranked below the entity count, present only where `content` carries a value.
pub open spec fn trailing(content: HeaderContent) -> Seq<(Seq<char>, Priority)> {
    reported(
        match content.run_progress {
            Some((done, total)) => Some(
                (
                    "run "@ + decimal(done as nat) + "/"@ + decimal(total as nat),
                    Priority::Drop(4),
                ),
            ),
            None => None,
        },
    ) + reported(
        match content.filter_match_count {
            Some(count) => Some(
                ("filter: "@ + decimal(count as nat) + " matches"@, Priority::Drop(3)),
            ),
            None => None,
        },
    ) + reported(
        match content.worktrees_note {
            Some(count) => Some(
                (
                    "worktrees: "@ + decimal(count as nat) + " (preference off)"@,
                    Priority::Drop(2),
                ),
            ),
            None => None,
        },
    ) + reported(
        match content.elapsed {
            Some(elapsed) => Some((elapsed_text(elapsed), Priority::Drop(1))),
            None => None,
        },
    )
}

/// The five items in priority order, highest first.
pub open spec fn header_items(content: HeaderContent) -> Seq<(Seq<char>, Priority)> {
    seq![(decimal(content.entity_count as nat) + " entities"@, Priority::Pinned)] + trailing(
        content,
    )
}

fn push_item(items: &mut Vec<Item>, content: String, priority: Priority)
    ensures
        items_view(final(items)@) == items_view(old(items)@).push((content@, priority)),
{
    let item = Item { content, priority };
    let ghost before = items@;
    items.push(item);
    proof {
        assert(items_view(items@) =~= items_view(before).push(item@));
    }
}

fn push_trailing(items: &mut Vec<Item>, content: &HeaderContent)
    requires
        content.wf(),
    ensures
        items_view(final(items)@) == items_view(old(items)@) + trailing(*content),
{
    if let Some((done, total)) = content.run_progress {
        push_item(
            items,
            "run ".to_owned().concat(to_decimal(done as u64).as_str()).concat("/").concat(
                to_decimal(total as u64).as_str(),
            ),
            Priority::Drop(4),
        );
    }
    if let Some(count) = content.filter_match_count {
        push_item(
            items,
            "filter: ".to_owned().concat(to_decimal(count as u64).as_str()).concat(" matches"),
            Priority::Drop(3),
        );
    }
    if let Some(count) = content.worktrees_note {
        push_item(
            items,
            "worktrees: ".to_owned().concat(to_decimal(count as u64).as_str()).concat(
                " (preference off)",
            ),
            Priority::Drop(2),
        );
    }
    if let Some(elapsed) = content.elapsed {
        push_item(items, format_elapsed(elapsed), Priority::Drop(1));
    }
}

/// The four items ranked below the first, present only where `content` carries a value, so an
/// absent item costs the ladder nothing.
pub fn trailing_items(content: &HeaderContent) -> (items: Vec<Item>)
    requires
        content.wf(),
    ensures
        items_view(items@) == trailing(*content),
{
    let mut items: Vec<Item> = Vec::new();
    proof {
        assert(items_view(items@) =~= Seq::<(Seq<char>, Priority)>::empty());
    }
    push_trailing(&mut items, content);
    items
}

/// The five items in priority order, highest first.
pub fn items(content: &HeaderContent) -> (items: Vec<Item>)
    requires
        content.wf(),
    ensures
        items_view(items@) == header_items(*content),
{
    let mut items: Vec<Item> = Vec::new();
    proof {
        assert(items_view(items@) =~= Seq::<(Seq<char>, Priority)>::empty());
    }
    push_item(
        &mut items,
        to_decimal(content.entity_count as u64).concat(" entities"),
        Priority::Pinned,
    );
    push_trailing(&mut items, content);
    items
}

/// The header's text in `width` columns.
pub open spec fn header_text(content: HeaderContent, width: nat) -> Seq<char> {
    rendered(
        header_items(content),
        selection(header_items(content), width, SEPARATOR@, ELLIPSIS@),
        SEPARATOR@,
        ELLIPSIS@,
    )
}

/// The header's text at `width` display columns.
pub fn render(content: &HeaderContent, width: u16) -> (text: String)
    requires
        content.wf(),
    ensures
        text@ == header_text(*content, width as nat),
{
    let items = items(content);
    let line = degrade::budget(&items, width as usize, SEPARATOR, ELLIPSIS);
    degrade::render(&items, &line, SEPARATOR, ELLIPSIS)
}

/// The header never runs past the width it is given.
pub proof fn law_the_header_never_overruns_its_width(content: HeaderContent, width: nat)
    ensures
        header_text(content, width).len() <= width,
{
    degrade::law_a_line_never_overruns_its_width(
        header_items(content),
        width,
        SEPARATOR@,
        ELLIPSIS@,
    );
}


/// How many of the header's items have something to report besides the entity count.
pub open spec fn reports(content: HeaderContent) -> int {
    (if content.run_progress is Some {
        1int
    } else {
        0
    }) + (if content.filter_match_count is Some {
        1int
    } else {
        0
    }) + (if content.worktrees_note is Some {
        1int
    } else {
        0
    }) + (if content.elapsed is Some {
        1int
    } else {
        0
    })
}

/// The header holds the entity count, pinned, and behind it each thing there is to report and
/// nothing else: run progress, the Filter's matches, the worktrees note and the time, each ranked
/// above what stands behind it, so it gives way later.
pub proof fn law_the_header_reports_what_there_is(content: HeaderContent)
    ensures
        ({
            let items = header_items(content);
            &&& items.len() == 1 + reports(content)
            &&& items[0] == (decimal(content.entity_count as nat) + " entities"@, Priority::Pinned)
            &&& content.run_progress matches Some((done, total)) ==> items[1].0 == "run "@
                + decimal(done as nat) + "/"@ + decimal(total as nat)
            &&& content.filter_match_count matches Some(count) ==> exists|i: int|
                0 < i < items.len() && (#[trigger] items[i]).0 == "filter: "@ + decimal(
                    count as nat,
                ) + " matches"@
            &&& content.worktrees_note matches Some(count) ==> exists|i: int|
                0 < i < items.len() && (#[trigger] items[i]).0 == "worktrees: "@ + decimal(
                    count as nat,
                ) + " (preference off)"@
            &&& content.elapsed matches Some(elapsed) ==> items.last().0 == elapsed_text(elapsed)
            &&& forall|i: int, j: int|
                0 < i < j < items.len() ==> ((#[trigger] items[i]).1 matches Priority::Drop(high)
                    && ((#[trigger] items[j]).1 matches Priority::Drop(low) && low < high))
            &&& forall|i: int| 0 < i < items.len() ==> (#[trigger] items[i]).1 is Drop
        }),
{
    let items = header_items(content);
    if let Some(count) = content.filter_match_count {
        let at = if content.run_progress is Some {
            2int
        } else {
            1
        };
        assert(items[at].0 == "filter: "@ + decimal(count as nat) + " matches"@);
    }
    if let Some(count) = content.worktrees_note {
        let at = 1 + (if content.run_progress is Some {
            1int
        } else {
            0
        }) + (if content.filter_match_count is Some {
            1int
        } else {
            0
        });
        assert(items[at].0 == "worktrees: "@ + decimal(count as nat) + " (preference off)"@);
    }
}

/// What the header shows is shown by the width rule every line shares, its items between ` · `.
pub proof fn law_the_header_is_a_line_of_its_items(content: HeaderContent, width: nat)
    ensures
        header_text(content, width) == rendered(
            header_items(content),
            selection(header_items(content), width, " · "@, " ..."@),
            " · "@,
            " ..."@,
        ),
{
}

} // verus!
