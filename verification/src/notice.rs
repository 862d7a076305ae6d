//! The Notice: a transient one-line message on the status row, the answer to a keystroke whose
//! visible effect would otherwise say nothing about what changed.

use vstd::prelude::*;

verus! {

broadcast use vstd::string::group_string_axioms;

/// A live Notice: its text and the moment it was raised, held as one value so the two can never
/// disagree. Moments are nanoseconds on the process's own monotonic clock.
#[derive(Clone, Debug, PartialEq, Eq)]
pub struct Notice {
    text: String,
    raised_at: u128,
}

impl Notice {
    /// What it says.
    pub closed spec fn text(&self) -> Seq<char> {
        self.text@
    }

    /// When it was raised.
    pub closed spec fn raised_at(&self) -> int {
        self.raised_at as int
    }

    /// It is off the screen at `now`: a timeout is set, and that much time has passed since it
    /// was raised.
    pub open spec fn expired(&self, now: int, timeout: int) -> bool {
        timeout != 0 && now - self.raised_at() >= timeout
    }

    /// Raises `text` at `raised_at`, the moment its timeout is measured from.
    pub fn raised(text: String, raised_at: u128) -> (notice: Self)
        ensures
            notice.text() == text@,
            notice.raised_at() == raised_at,
    {
        Notice { text, raised_at }
    }

    /// The text while this Notice is still on screen at `now`, `None` once `timeout` has elapsed
    /// since it was raised. A zero `timeout` turns the timer off rather than turning Notices
    /// off.
    pub fn visible_at(&self, now: u128, timeout: u128) -> (shown: Option<&str>)
        ensures
            shown is None <==> self.expired(now as int, timeout as int),
            shown is Some <==> timeout == 0 || now < self.raised_at() + timeout,
            shown matches Some(shown) ==> shown@ == self.text(),
    {
        if timeout != 0 && now.saturating_sub(self.raised_at) >= timeout {
            return None;
        }
        Some(self.text.as_str())
    }
}

/// A Notice that is gone at one moment is gone at every later one.
pub proof fn law_a_notice_stays_gone(notice: Notice, now: int, later: int, timeout: int)
    requires
        notice.expired(now, timeout),
        now <= later,
    ensures
        notice.expired(later, timeout),
{
}


/// A Notice is on screen from the moment it is raised until its timeout has passed in full, and
/// for good where there is no timeout.
pub proof fn law_a_notice_is_shown_for_its_timeout(notice: Notice, now: nat, timeout: nat)
    ensures
        timeout == 0 ==> !notice.expired(now as int, timeout as int),
        timeout > 0 ==> (notice.expired(now as int, timeout as int) <==> now >= notice.raised_at()
            + timeout),
{
}

} // verus!
