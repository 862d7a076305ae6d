//! The seconds-and-minutes elapsed-time ladder every timer shares.

use vstd::prelude::*;

use crate::text::{decimal, digit, one_char, to_decimal};

verus! {

broadcast use {vstd::string::group_string_axioms, vstd::seq_lib::group_seq_properties};

/// A span of time: whole seconds, and the nanoseconds beyond them.
#[derive(Clone, Copy, Debug, PartialEq, Eq, Structural)]
pub struct Elapsed {
    pub secs: u64,
    pub nanos: u32,
}

impl Elapsed {
    /// The nanoseconds stay below a whole second.
    pub open spec fn wf(self) -> bool {
        self.nanos < 1_000_000_000
    }

    /// A span of whole seconds.
    pub fn from_secs(secs: u64) -> (elapsed: Elapsed)
        ensures
            elapsed == (Elapsed { secs, nanos: 0 }),
            elapsed.wf(),
    {
        Elapsed { secs, nanos: 0 }
    }

    /// A span of whole milliseconds.
    pub fn from_millis(millis: u64) -> (elapsed: Elapsed)
        ensures
            elapsed.secs == millis / 1000,
            elapsed.nanos == (millis % 1000) * 1_000_000,
            elapsed.wf(),
    {
        Elapsed { secs: millis / 1000, nanos: (millis % 1000) as u32 * 1_000_000 }
    }
}

/// The text of a span in seconds with one decimal place, as std writes that floating-point
/// number.
pub uninterp spec fn tenths_text(secs: u64, nanos: u32) -> Seq<char>;

/// std's `Duration::as_secs_f64`, written with one decimal place: a function of the two numbers
/// that make the span. How a span halfway between two tenths rounds is left to std, where it
/// depends on the nearest floating-point number.
#[verifier::external_body]
fn seconds_with_tenths(secs: u64, nanos: u32) -> (text: String)
    requires
        nanos < 1_000_000_000,
    ensures
        text@ == tenths_text(secs, nanos),
{
    format!("{:.1}", std::time::Duration::new(secs, nanos).as_secs_f64())
}

/// A number below a hundred in two digits.
pub open spec fn two_digits(n: nat) -> Seq<char> {
    seq![digit(n / 10), digit(n % 10)]
}

/// A span on the seconds ladder: seconds with tenths under a minute, then minutes and seconds.
pub open spec fn seconds_ladder(elapsed: Elapsed, tenths: Seq<char>) -> Seq<char> {
    if elapsed.secs < 60 {
        tenths + "s"@
    } else {
        decimal((elapsed.secs / 60) as nat) + "m"@ + two_digits((elapsed.secs % 60) as nat) + "s"@
    }
}

/// The ladder one rung lower: plain milliseconds under a second.
pub open spec fn elapsed_ladder(elapsed: Elapsed, tenths: Seq<char>) -> Seq<char> {
    if elapsed.secs == 0 {
        decimal((elapsed.nanos / 1_000_000) as nat) + "ms"@
    } else {
        seconds_ladder(elapsed, tenths)
    }
}

/// A span on the ladder that starts at milliseconds, its tenths as std writes them.
pub open spec fn elapsed_text(elapsed: Elapsed) -> Seq<char> {
    elapsed_ladder(elapsed, tenths_text(elapsed.secs, elapsed.nanos))
}

fn in_two_digits(n: u64) -> (text: String)
    requires
        n < 100,
    ensures
        text@ == two_digits(n as nat),
{
    let mut text = one_char((48 + (n / 10) as u8) as char);
    text.push((48 + (n % 10) as u8) as char);
    text
}

/// A span on the seconds ladder, its seconds with tenths given as `tenths`.
pub fn on_the_seconds_ladder(elapsed: Elapsed, tenths: String) -> (text: String)
    ensures
        text@ == seconds_ladder(elapsed, tenths@),
{
    if elapsed.secs < 60 {
        tenths.concat("s")
    } else {
        to_decimal(elapsed.secs / 60).concat("m").concat(
            in_two_digits(elapsed.secs % 60).as_str(),
        ).concat("s")
    }
}

/// A span on the ladder that starts at milliseconds, its seconds with tenths given as `tenths`.
pub fn on_the_elapsed_ladder(elapsed: Elapsed, tenths: String) -> (text: String)
    ensures
        text@ == elapsed_ladder(elapsed, tenths@),
{
    if elapsed.secs == 0 {
        to_decimal((elapsed.nanos / 1_000_000) as u64).concat("ms")
    } else {
        on_the_seconds_ladder(elapsed, tenths)
    }
}

/// Renders `elapsed` at one decimal place of seconds under a minute, then minutes and seconds
/// beyond that, however long the elapsed time runs.
pub fn format_seconds_elapsed(elapsed: Elapsed) -> (text: String)
    requires
        elapsed.wf(),
    ensures
        text@ == seconds_ladder(elapsed, tenths_text(elapsed.secs, elapsed.nanos)),
{
    on_the_seconds_ladder(elapsed, seconds_with_tenths(elapsed.secs, elapsed.nanos))
}

/// [`format_seconds_elapsed`]'s own ladder, extended one rung lower: plain milliseconds under a
/// second.
pub fn format_elapsed(elapsed: Elapsed) -> (text: String)
    requires
        elapsed.wf(),
    ensures
        text@ == elapsed_text(elapsed),
{
    on_the_elapsed_ladder(elapsed, seconds_with_tenths(elapsed.secs, elapsed.nanos))
}


/// A span under a minute is its seconds with tenths; a longer one its minutes and, in two digits,
/// the seconds beyond them, however long it runs.
pub proof fn law_a_minute_turns_into_minutes_and_seconds(
    elapsed: Elapsed,
    tenths: Seq<char>,
    minutes: nat,
    seconds: nat,
)
    ensures
        elapsed.secs < 60 ==> seconds_ladder(elapsed, tenths) == tenths + "s"@,
        elapsed.secs >= 60 && seconds < 60 && elapsed.secs == minutes * 60 + seconds
            ==> seconds_ladder(elapsed, tenths) == decimal(minutes) + "m"@ + if seconds < 10 {
            "0"@ + decimal(seconds)
        } else {
            decimal(seconds)
        } + "s"@,
{
    if elapsed.secs >= 60 && seconds < 60 && elapsed.secs == minutes * 60 + seconds {
        reveal_strlit("0");
        assert(elapsed.secs / 60 == minutes);
        assert(elapsed.secs % 60 == seconds);
        if seconds < 10 {
            assert(two_digits(seconds) =~= "0"@ + decimal(seconds));
        } else {
            assert(decimal(seconds / 10) =~= seq![digit(seconds / 10)]);
            assert(two_digits(seconds) =~= decimal(seconds));
        }
    }
}

/// A span under a second is its whole milliseconds; from a second on the two ladders agree.
pub proof fn law_a_second_turns_into_seconds(elapsed: Elapsed, tenths: Seq<char>, millis: nat)
    ensures
        elapsed.secs > 0 ==> elapsed_ladder(elapsed, tenths) == seconds_ladder(elapsed, tenths),
        elapsed.secs == 0 && millis * 1_000_000 <= elapsed.nanos < (millis + 1) * 1_000_000
            ==> elapsed_ladder(elapsed, tenths) == decimal(millis) + "ms"@,
{
    if elapsed.secs == 0 && millis * 1_000_000 <= elapsed.nanos < (millis + 1) * 1_000_000 {
        assert(elapsed.nanos / 1_000_000 == millis);
    }
}

} // verus!
