//! The integer parts of the metric formulas. The scores themselves are
//! floating-point quotients of these counts.
use vstd::prelude::*;

verus! {

/// 1 for a resource the repository has, 0 for one it lacks.
pub open spec fn spec_present(flag: bool) -> int {
    if flag {
        1
    } else {
        0
    }
}

/// How many of the four resources that ease ramp-up a repository has: a wiki,
/// discussions, pages and a README. The ramp-up score is a quarter for each.
pub fn ramp_up_count(has_wiki: bool, has_discussions: bool, has_pages: bool, has_readme: bool) -> (count: u8)
    ensures
        count == spec_present(has_wiki) + spec_present(has_discussions) + spec_present(has_pages)
            + spec_present(has_readme),
        count <= 4,
{
    let mut count: u8 = 0;
    if has_wiki {
        count = count + 1;
    }
    if has_discussions {
        count = count + 1;
    }
    if has_pages {
        count = count + 1;
    }
    if has_readme {
        count = count + 1;
    }
    count
}

/// Fifty issues of each kind are added before the quotient is taken, so that a
/// repository with few issues is neither praised nor blamed much for them.
pub const ISSUE_SMOOTHING: i32 = 50;

/// The counts behind the responsiveness score, which is the first over the
/// second: the open issues plus fifty, and that plus the closed issues plus
/// fifty. `None` when one of the three `i32` sums overflows.
pub fn responsiveness_counts(open_issues: i32, closed_issues: i32) -> (counts: Option<(i32, i32)>)
    ensures
        counts is Some <==> {
            &&& open_issues + ISSUE_SMOOTHING <= i32::MAX
            &&& closed_issues + ISSUE_SMOOTHING <= i32::MAX
            &&& i32::MIN <= open_issues + closed_issues + 2 * ISSUE_SMOOTHING <= i32::MAX
        },
        counts matches Some((open, total)) ==> {
            &&& open == open_issues + ISSUE_SMOOTHING
            &&& total == open_issues + closed_issues + 2 * ISSUE_SMOOTHING
        },
        counts matches Some((open, total)) ==> (open_issues >= 0 && closed_issues >= 0 ==> 0 < open
            <= total),
{
    let open = match open_issues.checked_add(ISSUE_SMOOTHING) {
        Some(v) => v,
        None => return None,
    };
    let closed = match closed_issues.checked_add(ISSUE_SMOOTHING) {
        Some(v) => v,
        None => return None,
    };
    match open.checked_add(closed) {
        Some(total) => Some((open, total)),
        None => None,
    }
}

} // verus!
