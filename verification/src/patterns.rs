//! The line layouts of `lmutil lmstat -a`, as regular expressions.

use vstd::prelude::*;

verus! {

/// `License server status: 27000@host` or `License Server status: 27000 on host`.
/// Groups: port, host.
pub const SERVER_STATUS: &'static str = r"(?i)license\s+server\s+status:\s*(\d+)\s*(?:@|on)\s*(\S+)";

/// `vendor daemon status: 27001 host: UP` or `Vendor daemon status: 27001@host: UP`.
/// Groups: port, daemon, status.
pub const VENDOR_DAEMON: &'static str =
    r"(?i)vendor\s+daemon\s+status:\s*(\d+)(?:\s+|@)(\S+):\s*(\S+)";

/// `   snpslmd: UP v11.19.6`. Groups: daemon, status.
pub const VENDOR_DAEMON_SIMPLE: &'static str = r"(?i)^\s+(\S+):\s+(UP|DOWN|UNSUPPORTED)\b";

/// `  vcs    2023.06 synopsys 01-jan-00 20     12    `.
/// Groups: feature, vendor, licenses issued, licenses in use.
pub const FEATURE_LINE: &'static str =
    r"^\s+(\S+)\s+(?:v?[\d.]+\s+)?(\S+)\s+(?:\d+-[\w]+-\d+|lifetime)\s+(\d+)\s+(\d+)(?:\s+\d+)?";

/// `  username hostname display start_time [feature]`.
/// Groups: user, host, display, start time, feature.
pub const USER_LINE: &'static str =
    r"^\s+(\S+)\s+(\S+:\d+|\S+)(?:\s+(\S+))?\s+(\d{2}/\d{2}/\d{4}\s+\d{2}:\d{2})(?:\s+\((\S+)\))?";

/// `Users of FEATURE:  (Total of 20 licenses issued;  Total of 12 licenses in use)`.
/// Groups: feature, licenses issued, licenses in use.
pub const FEATURE_USERS_OF: &'static str =
    r"Users of (\S+?):\s+\(Total of (\d+) licenses issued;\s+Total of (\d+) licenses in use\)";

/// `FEATURE: 20 licenses, 12 in use`. Groups: feature, licenses issued, licenses in use.
pub const FEATURE_BRIEF: &'static str = r"^(\S+?):\s+(\d+)\s+licen[cs]es?,\s+(\d+)\s+(?:in use|used)";

/// The pattern is one of the layouts above.
pub open spec fn is_line_pattern(pattern: Seq<char>) -> bool {
    ||| pattern == SERVER_STATUS@
    ||| pattern == VENDOR_DAEMON@
    ||| pattern == VENDOR_DAEMON_SIMPLE@
    ||| pattern == FEATURE_LINE@
    ||| pattern == USER_LINE@
    ||| pattern == FEATURE_USERS_OF@
    ||| pattern == FEATURE_BRIEF@
}

/// The group took part in the match, with at least one character.
pub open spec fn takes_part(groups: Seq<Option<Seq<char>>>, i: int) -> bool {
    groups[i] matches Some(text) && text.len() > 0
}

/// The group took part in the match with a run of decimal digits of any script,
/// so that no sign stands in it.
pub open spec fn is_unsigned(groups: Seq<Option<Seq<char>>>, i: int) -> bool {
    &&& takes_part(groups, i)
    &&& forall|k: int|
        0 <= k < groups[i]->0.len() ==> (#[trigger] groups[i]->0[k]) != '-' && groups[i]->0[k]
            != '+'
}

/// What the capture groups of a match hold, as the pattern writes them: a group
/// outside `(?:..)?` always takes part, `\S+` and `\d+` match at least one
/// character, and `\d` matches decimal digits alone.
pub open spec fn groups_fit(pattern: Seq<char>, groups: Seq<Option<Seq<char>>>) -> bool {
    &&& pattern == SERVER_STATUS@ ==> {
        &&& groups.len() == 3
        &&& is_unsigned(groups, 1)
        &&& takes_part(groups, 2)
    }
    &&& pattern == VENDOR_DAEMON@ ==> {
        &&& groups.len() == 4
        &&& is_unsigned(groups, 1)
        &&& takes_part(groups, 2)
        &&& takes_part(groups, 3)
    }
    &&& pattern == VENDOR_DAEMON_SIMPLE@ ==> {
        &&& groups.len() == 3
        &&& takes_part(groups, 1)
        &&& takes_part(groups, 2)
    }
    &&& pattern == FEATURE_LINE@ ==> {
        &&& groups.len() == 5
        &&& takes_part(groups, 1)
        &&& takes_part(groups, 2)
        &&& is_unsigned(groups, 3)
        &&& is_unsigned(groups, 4)
    }
    &&& pattern == USER_LINE@ ==> {
        &&& groups.len() == 6
        &&& takes_part(groups, 1)
        &&& takes_part(groups, 2)
        &&& takes_part(groups, 4)
    }
    &&& pattern == FEATURE_USERS_OF@ ==> {
        &&& groups.len() == 4
        &&& takes_part(groups, 1)
        &&& is_unsigned(groups, 2)
        &&& is_unsigned(groups, 3)
    }
    &&& pattern == FEATURE_BRIEF@ ==> {
        &&& groups.len() == 4
        &&& takes_part(groups, 1)
        &&& is_unsigned(groups, 2)
        &&& is_unsigned(groups, 3)
    }
}

} // verus!
