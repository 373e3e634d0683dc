//! Durations and instants as the loop reads them, and the minimum of two
//! timeouts where an absent timeout is an unbounded one.

use std::time::Duration;
use std::time::Instant;
use vstd::prelude::*;

verus! {

/// `Instant` of std: a reading of the monotonic clock, carried through
/// unread.
#[verifier::external_type_specification]
#[verifier::external_body]
pub struct ExInstant(Instant);

/// What `Duration::as_nanos` of std returns: the length of a duration in
/// nanoseconds.
pub uninterp spec fn duration_nanos(d: Duration) -> nat;

/// What `Instant::saturating_duration_since` of std returns, in nanoseconds:
/// the time from `earlier` to `later`, which is zero unless `later` is the
/// later of the two.
pub uninterp spec fn saturating_nanos_since(later: Instant, earlier: Instant) -> nat;

/// `Duration::as_nanos` of std: the total number of nanoseconds that the
/// duration holds.
#[verifier::external_body]
pub(crate) fn duration_as_nanos(d: &Duration) -> (r: u128)
    ensures
        r == duration_nanos(*d),
{
    d.as_nanos()
}

/// `Duration::from_nanos` of std: the duration that lasts `nanos`
/// nanoseconds.
#[verifier::external_body]
pub(crate) fn duration_from_nanos(nanos: u64) -> (r: Duration)
    ensures
        duration_nanos(r) == nanos,
{
    Duration::from_nanos(nanos)
}

/// `Instant::saturating_duration_since` of std: the time elapsed from
/// `earlier` to `later`, or a zero duration where `earlier` is the later one.
#[verifier::external_body]
pub(crate) fn saturating_duration_since(later: Instant, earlier: Instant) -> (r: Duration)
    ensures
        duration_nanos(r) == saturating_nanos_since(later, earlier),
{
    later.saturating_duration_since(earlier)
}

/// The shorter of two timeouts, where `None` lasts forever.
pub open spec fn spec_min_timeout(a: Option<Duration>, b: Option<Duration>) -> Option<Duration> {
    match (a, b) {
        (None, _) => b,
        (Some(_), None) => a,
        (Some(x), Some(y)) => if duration_nanos(x) <= duration_nanos(y) {
            a
        } else {
            b
        },
    }
}

/// Length of a timeout in nanoseconds; `None` is an unbounded wait.
pub open spec fn timeout_nanos(t: Option<Duration>) -> Option<nat> {
    match t {
        Some(d) => Some(duration_nanos(d)),
        None => None,
    }
}

/// The smaller of two bounds, where `None` is no bound.
pub open spec fn min_bound(a: Option<nat>, b: Option<nat>) -> Option<nat> {
    match (a, b) {
        (None, _) => b,
        (Some(_), None) => a,
        (Some(x), Some(y)) => if x <= y {
            a
        } else {
            b
        },
    }
}

/// Whether a wait of `t` ends no later than a wait of `bound` does.
pub open spec fn within(t: Option<nat>, bound: Option<nat>) -> bool {
    match (t, bound) {
        (_, None) => true,
        (None, Some(_)) => false,
        (Some(x), Some(y)) => x <= y,
    }
}

/// Returns the minimum of two timeouts, taking into account that `None`
/// equates to an infinite timeout, not a zero timeout.
pub fn min_timeout(a: Option<Duration>, b: Option<Duration>) -> (r: Option<Duration>)
    ensures
        r == spec_min_timeout(a, b),
        timeout_nanos(r) == min_bound(timeout_nanos(a), timeout_nanos(b)),
{
    match a {
        None => b,
        Some(a_timeout) => match b {
            None => Some(a_timeout),
            Some(b_timeout) => {
                if duration_as_nanos(&a_timeout) <= duration_as_nanos(&b_timeout) {
                    Some(a_timeout)
                } else {
                    Some(b_timeout)
                }
            },
        },
    }
}

/// The minimum of two timeouts is the one when the other is absent, absent
/// only when both are, and for two bounded timeouts the shorter of them; it
/// never lasts longer than either, and the order of the two does not matter
/// to how long it lasts.
pub proof fn law_min_timeout(a: Option<Duration>, b: Option<Duration>)
    ensures
        spec_min_timeout(None, None) == None::<Duration>,
        spec_min_timeout(None, b) == b,
        spec_min_timeout(a, None) == a,
        a is Some && b is Some ==> spec_min_timeout(a, b) is Some && duration_nanos(
            spec_min_timeout(a, b).unwrap(),
        ) == if duration_nanos(a.unwrap()) <= duration_nanos(b.unwrap()) {
            duration_nanos(a.unwrap())
        } else {
            duration_nanos(b.unwrap())
        },
        within(timeout_nanos(spec_min_timeout(a, b)), timeout_nanos(a)),
        within(timeout_nanos(spec_min_timeout(a, b)), timeout_nanos(b)),
        timeout_nanos(spec_min_timeout(a, b)) == timeout_nanos(spec_min_timeout(b, a)),
        spec_min_timeout(a, b) is None <==> a is None && b is None,
{
}

} // verus!
