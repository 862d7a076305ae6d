use repon::action::Action;
use repon::scroll::scroll_after;

#[test]
fn scroll_scroll_down_then_up_returns_to_the_top() {
    let scroll = scroll_after(0, Action::ScrollDown, 20, 5);
    let scroll = scroll_after(scroll, Action::ScrollDown, 20, 5);
    assert_eq!(scroll, 2);
    let scroll = scroll_after(scroll, Action::ScrollUp, 20, 5);
    assert_eq!(scroll, 1);
}

#[test]
fn scroll_scroll_up_from_the_top_stays_at_the_top() {
    assert_eq!(scroll_after(0, Action::ScrollUp, 20, 5), 0);
}

#[test]
fn scroll_scroll_down_never_passes_the_last_line_reaching_the_viewport() {
    let mut scroll = 0;
    for _ in 0..50 {
        scroll = scroll_after(scroll, Action::ScrollDown, 20, 5);
    }
    assert_eq!(scroll, 15, "20 lines in a 5-row viewport clamps at 15");
}

#[test]
fn scroll_top_and_bottom_jump_to_the_clamped_ends() {
    assert_eq!(scroll_after(0, Action::Bottom, 20, 5), 15);
    assert_eq!(scroll_after(15, Action::Top, 20, 5), 0);
}

#[test]
fn an_action_this_helper_does_not_own_leaves_the_scroll_untouched() {
    let scroll = scroll_after(3, Action::Close, 20, 5);
    assert_eq!(scroll, 3);
}

#[test]
fn a_half_page_moves_by_half_the_viewport_and_clamps_at_both_ends() {
    assert_eq!(scroll_after(0, Action::HalfPageDown, 100, 10), 5);
    assert_eq!(scroll_after(88, Action::HalfPageDown, 100, 10), 90);
    assert_eq!(scroll_after(7, Action::HalfPageUp, 100, 10), 2);
    assert_eq!(scroll_after(3, Action::HalfPageUp, 100, 10), 0);
}

#[test]
fn content_longer_than_the_scroll_can_count_clamps_at_what_it_can() {
    assert_eq!(scroll_after(0, Action::Bottom, 1_000_000, 35), 65_500);
}

#[test]
fn content_shorter_than_the_viewport_never_scrolls() {
    assert_eq!(scroll_after(0, Action::ScrollDown, 3, 5), 0);
    assert_eq!(scroll_after(0, Action::Bottom, 3, 5), 0);
}

#[test]
fn a_standing_position_past_shrunken_content_comes_back_within_bounds() {
    assert_eq!(scroll_after(20, Action::ScrollUp, 10, 5), 5);
    assert_eq!(scroll_after(20, Action::HalfPageUp, 10, 5), 5);
    assert_eq!(scroll_after(20, Action::ScrollDown, 10, 5), 5);
    assert_eq!(scroll_after(20, Action::HalfPageDown, 10, 5), 5);
    assert_eq!(scroll_after(6, Action::HalfPageUp, 10, 5), 4);
}
