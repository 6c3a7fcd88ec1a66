//! Elapsed times written as minutes and seconds.

use vstd::prelude::*;

use std::time::Duration;

use crate::text::{append_str, decimal, decimal_string, push_char};

verus! {

/// The whole seconds in a duration, as `Duration::as_secs` gives them.
pub uninterp spec fn whole_seconds(d: Duration) -> nat;

/// The whole milliseconds in a duration, as `Duration::as_millis` gives them.
pub uninterp spec fn whole_millis(d: Duration) -> nat;

/// The whole seconds of a duration (`Duration::as_secs`).
#[verifier::external_body]
pub(crate) fn duration_secs(d: Duration) -> (r: u64)
    ensures
        r == whole_seconds(d),
{
    d.as_secs()
}

/// A duration of whole seconds (`Duration::from_secs`): as its documentation
/// says, it holds exactly `secs` seconds, so `as_secs` gives `secs` back and
/// `as_millis` gives a thousand times as many.
#[verifier::external_body]
pub(crate) fn duration_from_secs(secs: u64) -> (r: Duration)
    ensures
        whole_seconds(r) == secs,
        whole_millis(r) == secs * 1000,
{
    Duration::from_secs(secs)
}

/// The whole milliseconds of a duration (`Duration::as_millis`).
#[verifier::external_body]
pub(crate) fn duration_millis(d: Duration) -> (r: u128)
    ensures
        r == whole_millis(d),
{
    d.as_millis()
}

/// `59s` under a minute, `1m 0s` from a minute on.
pub open spec fn format_seconds_spec(total: nat) -> Seq<char> {
    let minutes = total / 60;
    let seconds = total % 60;
    if minutes == 0 {
        decimal(seconds).push('s')
    } else {
        decimal(minutes) + seq!['m', ' '] + decimal(seconds).push('s')
    }
}

/// The written time reads back as the whole number of seconds: it shows
/// minutes `m` and seconds `s` with `s` under a minute and `m * 60 + s` the
/// total, and leaves out the minutes only when there are none.  No whole
/// hours are dropped.
pub proof fn law_formatted_time_reads_back(total: nat) -> (shown: (nat, nat))
    ensures
        shown.1 < 60,
        shown.0 * 60 + shown.1 == total,
        shown.0 == 0 ==> format_seconds_spec(total) == decimal(shown.1).push('s'),
        shown.0 > 0 ==> format_seconds_spec(total) == decimal(shown.0) + seq!['m', ' ']
            + decimal(shown.1).push('s'),
{
    let m = total / 60;
    let s = total % 60;
    assert(m * 60 + s == total);
    (m, s)
}

/// A number of seconds written as minutes and seconds.
pub fn format_seconds(total: u64) -> (r: String)
    ensures
        r@ == format_seconds_spec(total as nat),
{
    let minutes = total / 60;
    let seconds = total % 60;
    if minutes == 0 {
        let mut r = decimal_string(seconds as u128);
        push_char(&mut r, 's');
        r
    } else {
        let mut r = decimal_string(minutes as u128);
        push_char(&mut r, 'm');
        push_char(&mut r, ' ');
        let s = decimal_string(seconds as u128);
        append_str(&mut r, s.as_str());
        push_char(&mut r, 's');
        assert(r@ =~= format_seconds_spec(total as nat));
        r
    }
}

/// Elapsed times written as minutes and seconds.
pub trait DurationExt {
    fn format(self) -> String;
}

impl DurationExt for Duration {
    /// The duration's whole seconds written as minutes and seconds.
    fn format(self) -> (r: String)
        ensures
            r@ == format_seconds_spec(whole_seconds(self)),
    {
        format_seconds(duration_secs(self))
    }
}

} // verus!
