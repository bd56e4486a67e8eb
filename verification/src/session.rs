//! The interactive session: a running total of parsed entries, measured
//! against a fixed weekly target.

use crate::parsing::{parse_time, spec_parse_time};
use vstd::prelude::*;

verus! {

/// The fixed weekly target: 45 hours of work, in minutes.
pub const WEEKLY_TARGET_MINUTES: i32 = 45 * 60;

/// Hours component of a nonnegative minute count.
pub open spec fn hours_part(minutes: int) -> int {
    minutes / 60
}

/// Minutes component of a nonnegative minute count.
pub open spec fn minutes_part(minutes: int) -> int {
    minutes % 60
}

/// Quotient by 60 with truncation toward zero, the semantics of Rust's `/` on
/// signed integers; it differs from the Euclidean quotient on negative values.
pub open spec fn trunc_div60(a: int) -> int {
    if a >= 0 {
        a / 60
    } else {
        -((-a) / 60)
    }
}

/// Remainder by 60 with truncation toward zero, the semantics of Rust's `%` on
/// signed integers: the sign follows the dividend.
pub open spec fn trunc_rem60(a: int) -> int {
    if a >= 0 {
        a % 60
    } else {
        -((-a) % 60)
    }
}

/// The running total after one line is fed: a line that parses adds its minute
/// count, any other line leaves the total as it was.
pub open spec fn spec_feed_total(total: int, line: Seq<char>) -> int {
    match spec_parse_time(line) {
        Some(v) => total + v,
        None => total,
    }
}

/// The display values that one accepted entry produces.
pub struct EntryReport {
    pub entry_hours: i32,
    pub entry_minutes: i32,
    pub total_hours: i32,
    pub total_minutes: i32,
    pub remaining_hours: i32,
    pub remaining_minutes: i32,
}

/// What one fed line did to the session.
pub enum FeedOutcome {
    /// The line was blank: the session is over.
    Ended,
    /// The line parsed; the report carries the display values.
    Accepted(EntryReport),
    /// The line did not parse; nothing changed and the session goes on.
    Rejected,
}

/// One interactive session: reads lines until a blank one, keeping the running
/// total of every entry that parsed.
pub struct SessionAccumulator {
    /// Minutes accumulated so far; never negative.
    pub total: i32,
    /// Whether a blank line has ended the session.
    pub done: bool,
}

impl SessionAccumulator {
    /// A fresh session: nothing accumulated, still reading.
    pub fn new() -> (s: Self)
        ensures
            s.total == 0,
            !s.done,
    {
        SessionAccumulator { total: 0, done: false }
    }

    /// Feeds one line, already trimmed by the caller. A blank line ends the
    /// session at once, whatever has accumulated; a line that parses as
    /// "hh:mm" adds its minutes to the total and reports the display values;
    /// any other line is rejected and changes nothing.
    ///
    /// Remaining time may go negative once the total passes the weekly
    /// target; its hour and minute components then follow Rust's
    /// truncation-toward-zero `/` and `%`, so both are reported negative.
    pub fn feed(&mut self, line: &str) -> (r: FeedOutcome)
        requires
            !old(self).done,
            0 <= old(self).total,
            old(self).total + 1499 <= i32::MAX,
        ensures
            0 <= final(self).total,
            final(self).total == spec_feed_total(old(self).total as int, line@),
            line@.len() == 0 ==> final(self).done && final(self).total == old(self).total
                && r is Ended,
            line@.len() > 0 ==> !final(self).done && (match spec_parse_time(line@) {
                Some(v) => r matches FeedOutcome::Accepted(rep)
                    && final(self).total == old(self).total + v
                    && rep.entry_hours == hours_part(v)
                    && rep.entry_minutes == minutes_part(v)
                    && rep.total_hours == hours_part(final(self).total as int)
                    && rep.total_minutes == minutes_part(final(self).total as int)
                    && rep.remaining_hours == trunc_div60(
                    WEEKLY_TARGET_MINUTES - final(self).total as int,
                )
                    && rep.remaining_minutes == trunc_rem60(
                    WEEKLY_TARGET_MINUTES - final(self).total as int,
                ),
                None => r is Rejected && final(self).total == old(self).total,
            }),
    {
        if line.is_empty() {
            self.done = true;
            return FeedOutcome::Ended;
        }
        match parse_time(line) {
            Some(minutes) => {
                self.total = self.total + minutes;
                let entry_hours = minutes / 60;
                let entry_minutes = minutes % 60;
                let total_hours = self.total / 60;
                let total_minutes = self.total % 60;
                let remaining = WEEKLY_TARGET_MINUTES - self.total;
                let remaining_hours: i32;
                let remaining_minutes: i32;
                if remaining >= 0 {
                    remaining_hours = remaining / 60;
                    remaining_minutes = remaining % 60;
                } else {
                    let overshoot = -remaining;
                    remaining_hours = -(overshoot / 60);
                    remaining_minutes = -(overshoot % 60);
                }
                FeedOutcome::Accepted(
                    EntryReport {
                        entry_hours,
                        entry_minutes,
                        total_hours,
                        total_minutes,
                        remaining_hours,
                        remaining_minutes,
                    },
                )
            },
            None => FeedOutcome::Rejected,
        }
    }

    /// The final summary: total hours, and the total's remaining minute
    /// component past those hours (the same remainder that the running-total
    /// display shows, not a countdown against the weekly target).
    pub fn final_summary(&self) -> (r: (i32, i32))
        requires
            0 <= self.total,
        ensures
            r.0 == hours_part(self.total as int),
            r.1 == minutes_part(self.total as int),
    {
        (self.total / 60, self.total % 60)
    }
}

/// Feeding the same valid token twice into a fresh session accumulates twice
/// the single-entry value.
pub proof fn lemma_feed_twice_doubles(line: Seq<char>, v: int)
    requires
        spec_parse_time(line) == Some(v),
    ensures
        spec_feed_total(spec_feed_total(0, line), line) == 2 * v,
{
}

} // verus!
