use repon::notice::Notice;

const SECOND: u128 = 1_000_000_000;

#[test]
fn a_notice_is_visible_short_of_its_timeout_and_gone_at_exact_equality_with_it() {
    let raised_at = 12_345;
    let timeout = 3 * SECOND;
    let notice = Notice::raised("switched to `second`".to_string(), raised_at);

    assert_eq!(
        notice.visible_at(raised_at + timeout - 1, timeout),
        Some("switched to `second`"),
        "a Notice a nanosecond short of its timeout is still on screen"
    );
    assert_eq!(
        notice.visible_at(raised_at + timeout, timeout),
        None,
        "a Notice is gone at exact equality with its timeout, not only past it"
    );
}

#[test]
fn a_zero_timeout_leaves_a_notice_on_screen_however_old_it_is() {
    let raised_at = 12_345;
    let notice = Notice::raised("switched to `second`".to_string(), raised_at);

    assert_eq!(
        notice.visible_at(raised_at + 3600 * SECOND, 0),
        Some("switched to `second`"),
        "a zero timeout disables expiry, it does not disable the Notice"
    );
}

#[test]
fn a_notice_that_is_gone_stays_gone() {
    let notice = Notice::raised("done".to_string(), 5);
    assert_eq!(notice.visible_at(15, 10), None);
    assert_eq!(notice.visible_at(16, 10), None);
    assert_eq!(notice.visible_at(u128::MAX, 10), None);
}

#[test]
fn a_clock_that_reads_earlier_than_the_notice_was_raised_shows_it() {
    let notice = Notice::raised("done".to_string(), 100);
    assert_eq!(notice.visible_at(0, 10), Some("done"));
}
