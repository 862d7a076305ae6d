//! The one scroll-clamp calculation the help overlay and the detail pane both need.

use vstd::prelude::*;

use crate::action::Action;
use crate::paint::{at_most, less};

verus! {

/// The furthest the content scrolls: where its last line reaches the bottom of the viewport.
pub open spec fn max_scroll(content_len: int, viewport_height: int) -> int {
    less(at_most(content_len, u16::MAX as int), viewport_height)
}

/// The scroll position after `action`.
pub open spec fn scrolled(current: int, action: Action, content_len: int, viewport_height: int) -> int {
    let last = max_scroll(content_len, viewport_height);
    match action {
        Action::ScrollDown => at_most(current + 1, last),
        Action::ScrollUp => at_most(less(current, 1), last),
        Action::Top => 0,
        Action::Bottom => last,
        Action::HalfPageDown => at_most(current + viewport_height / 2, last),
        Action::HalfPageUp => at_most(less(current, viewport_height / 2), last),
        _ => current,
    }
}

/// The actions that scroll; every other one leaves the position as it is.
pub open spec fn scrolls(action: Action) -> bool {
    match action {
        Action::ScrollDown => true,
        Action::ScrollUp => true,
        Action::Top => true,
        Action::Bottom => true,
        Action::HalfPageDown => true,
        Action::HalfPageUp => true,
        _ => false,
    }
}

fn capped_at(position: u16, last: u16) -> (capped: u16)
    ensures
        capped == at_most(position as int, last as int),
{
    if position < last {
        position
    } else {
        last
    }
}

/// `current`'s next value after folding in `action`, clamped so it can never scroll past the
/// last line reaching `viewport_height`. Every action a scrollable surface does not own leaves
/// `current` untouched.
pub fn scroll_after(current: u16, action: Action, content_len: usize, viewport_height: u16) -> (
next: u16)
    ensures
        next == scrolled(
            current as int,
            action,
            content_len as int,
            viewport_height as int,
        ),
        scrolls(action) ==> next <= max_scroll(content_len as int, viewport_height as int),
{
    let capped: u16 = if content_len > 65535 {
        65535
    } else {
        content_len as u16
    };
    let last: u16 = capped.saturating_sub(viewport_height);
    match action {
        Action::ScrollDown => if current < last {
            current + 1
        } else {
            last
        },
        Action::ScrollUp => capped_at(current.saturating_sub(1), last),
        Action::Top => 0,
        Action::Bottom => last,
        Action::HalfPageDown => if current >= last || last - current < viewport_height / 2 {
            last
        } else {
            current + viewport_height / 2
        },
        Action::HalfPageUp => capped_at(current.saturating_sub(viewport_height / 2), last),
        _ => current,
    }
}

/// Wherever the position stood, one that scrolled lies no further than where the last line
/// reaches the viewport.
pub proof fn law_scrolling_stays_within_bounds(
    current: int,
    action: Action,
    content_len: int,
    viewport_height: int,
)
    requires
        0 <= current,
        0 <= content_len,
        0 <= viewport_height,
        scrolls(action),
    ensures
        0 <= scrolled(current, action, content_len, viewport_height) <= max_scroll(
            content_len,
            viewport_height,
        ),
{
}

/// A step up undoes a step down that moved.
pub proof fn law_a_step_up_undoes_a_step_down(current: int, content_len: int, viewport_height: int)
    requires
        0 <= current < max_scroll(content_len, viewport_height),
    ensures
        scrolled(
            scrolled(current, Action::ScrollDown, content_len, viewport_height),
            Action::ScrollUp,
            content_len,
            viewport_height,
        ) == current,
{
}

/// How far each action scrolls content whose last full view starts at `last`: a line, half a
/// viewport, or all the way, never further than that, and nothing else scrolls at all. Content
/// longer than a position can count scrolls as far as one can.
pub proof fn law_how_far_each_action_scrolls(
    current: int,
    content_len: int,
    viewport_height: int,
    last: int,
    action: Action,
)
    requires
        0 <= content_len,
        0 <= viewport_height,
        0 <= current <= last,
        content_len <= u16::MAX ==> last == content_len - viewport_height || last == 0
            && content_len <= viewport_height,
        content_len > u16::MAX ==> last == u16::MAX - viewport_height || last == 0 && u16::MAX
            <= viewport_height,
    ensures
        ({
            let next = scrolled(current, action, content_len, viewport_height);
            let half = viewport_height / 2;
            &&& action == Action::ScrollDown ==> next == current + 1 || next == current && current
                == last
            &&& action == Action::ScrollUp ==> next == current - 1 || next == 0 && current == 0
            &&& action == Action::Top ==> next == 0
            &&& action == Action::Bottom ==> next == last
            &&& action == Action::HalfPageDown ==> next == current + half || next == last && last
                < current + half
            &&& action == Action::HalfPageUp ==> next == current - half || next == 0 && current
                < half
            &&& action != Action::ScrollDown && action != Action::ScrollUp && action != Action::Top
                && action != Action::Bottom && action != Action::HalfPageDown && action
                != Action::HalfPageUp ==> next == current
        }),
{
}

/// A position the content has shrunk away from comes back to its last full view with a step in
/// either direction.
pub proof fn law_a_shrunk_content_is_scrolled_back_to(
    current: int,
    content_len: int,
    viewport_height: int,
)
    requires
        0 <= viewport_height <= content_len <= u16::MAX,
        current > content_len - viewport_height,
    ensures
        scrolled(current, Action::ScrollDown, content_len, viewport_height) == content_len
            - viewport_height,
        scrolled(current, Action::HalfPageDown, content_len, viewport_height) == content_len
            - viewport_height,
        scrolled(current, Action::ScrollUp, content_len, viewport_height) == content_len
            - viewport_height,
{
}

} // verus!
