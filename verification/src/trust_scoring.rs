//! Progressive trust levels and the bookkeeping of authentication attempts.
//!
//! There is no instant trust: users prove their identity over time through
//! consistent patterns, and trust levels are stored under stable names.

use vstd::prelude::*;

use crate::text::same_text;

verus! {

/// Number of successful authentications required for each level
pub const AUTHS_FOR_OBSERVED: u32 = 3;

pub const AUTHS_FOR_VERIFIED: u32 = 5;

pub const AUTHS_FOR_TRUSTED: u32 = 20;

pub const AUTHS_FOR_INNER_CIRCLE: u32 = 100;

/// How many recent authentication attempts a trust score keeps.
pub const RECENT_AUTHS_LIMIT: usize = 10;

/// Trust level enum
#[derive(Debug, Clone, Copy, PartialEq, Eq, Structural)]
pub enum TrustLevel {
    Unknown,
    Observed,
    Verified,
    Trusted,
    InnerCircle,
}

/// The stored name of a trust level.
pub open spec fn level_name(level: TrustLevel) -> Seq<char> {
    match level {
        TrustLevel::Unknown => "Unknown"@,
        TrustLevel::Observed => "Observed"@,
        TrustLevel::Verified => "Verified"@,
        TrustLevel::Trusted => "Trusted"@,
        TrustLevel::InnerCircle => "InnerCircle"@,
    }
}

/// The trust level that a stored name denotes; unknown names denote
/// `Unknown`.
pub open spec fn level_of_name(name: Seq<char>) -> TrustLevel {
    if name == "Unknown"@ {
        TrustLevel::Unknown
    } else if name == "Observed"@ {
        TrustLevel::Observed
    } else if name == "Verified"@ {
        TrustLevel::Verified
    } else if name == "Trusted"@ {
        TrustLevel::Trusted
    } else if name == "InnerCircle"@ {
        TrustLevel::InnerCircle
    } else {
        TrustLevel::Unknown
    }
}

impl TrustLevel {
    /// The name under which the level is stored.
    pub fn name(&self) -> (s: &'static str)
        ensures
            s@ == level_name(*self),
    {
        match self {
            TrustLevel::Unknown => "Unknown",
            TrustLevel::Observed => "Observed",
            TrustLevel::Verified => "Verified",
            TrustLevel::Trusted => "Trusted",
            TrustLevel::InnerCircle => "InnerCircle",
        }
    }

    /// The level stored under a name; an unrecognised name reads as
    /// `Unknown`.
    pub fn from_name(name: &str) -> (level: TrustLevel)
        ensures
            level == level_of_name(name@),
    {
        if same_text(name, "Unknown") {
            TrustLevel::Unknown
        } else if same_text(name, "Observed") {
            TrustLevel::Observed
        } else if same_text(name, "Verified") {
            TrustLevel::Verified
        } else if same_text(name, "Trusted") {
            TrustLevel::Trusted
        } else if same_text(name, "InnerCircle") {
            TrustLevel::InnerCircle
        } else {
            TrustLevel::Unknown
        }
    }
}

/// Reading back the stored name of a trust level gives that level again.
pub proof fn lemma_level_name_roundtrip(level: TrustLevel)
    ensures
        level_of_name(level_name(level)) == level,
{
    reveal_strlit("Unknown");
    reveal_strlit("Observed");
    reveal_strlit("Verified");
    reveal_strlit("Trusted");
    reveal_strlit("InnerCircle");
    assert("Observed"@ != "Unknown"@) by { assert("Observed"@.len() != "Unknown"@.len()); }
    assert("Verified"@ != "Unknown"@) by { assert("Verified"@.len() != "Unknown"@.len()); }
    assert("Verified"@ != "Observed"@) by { assert("Verified"@[0] != "Observed"@[0]); }
    assert("Trusted"@ != "Unknown"@) by { assert("Trusted"@[0] != "Unknown"@[0]); }
    assert("Trusted"@ != "Observed"@) by { assert("Trusted"@.len() != "Observed"@.len()); }
    assert("Trusted"@ != "Verified"@) by { assert("Trusted"@.len() != "Verified"@.len()); }
    assert("InnerCircle"@ != "Unknown"@) by { assert("InnerCircle"@.len() != "Unknown"@.len()); }
    assert("InnerCircle"@ != "Observed"@) by { assert("InnerCircle"@.len() != "Observed"@.len()); }
    assert("InnerCircle"@ != "Verified"@) by { assert("InnerCircle"@.len() != "Verified"@.len()); }
    assert("InnerCircle"@ != "Trusted"@) by { assert("InnerCircle"@.len() != "Trusted"@.len()); }
}

/// Check if travel between locations is impossible given the whole hours
/// elapsed: the locations differ and less than one hour has passed.
pub fn is_impossible_travel(last_loc: &str, current_loc: &str, hours_elapsed: i64) -> (r: bool)
    ensures
        r == (last_loc@ != current_loc@ && hours_elapsed < 1),
{
    if same_text(last_loc, current_loc) {
        return false;
    }
    hours_elapsed < 1
}

/// Whether the impossible-travel check flags an attempt. The check runs
/// only when there was an earlier successful authentication (with the whole
/// hours since it) and both the last recorded and the current location are
/// known.
pub fn travel_flagged(
    hours_since_last_auth: Option<i64>,
    last_location: Option<&str>,
    current_location: Option<&str>,
) -> (r: bool)
    ensures
        r == match (hours_since_last_auth, last_location, current_location) {
            (Some(hours), Some(last), Some(current)) => last@ != current@ && hours < 1,
            _ => false,
        },
{
    match (hours_since_last_auth, last_location, current_location) {
        (Some(hours), Some(last), Some(current)) => is_impossible_travel(last, current, hours),
        _ => false,
    }
}

/// Count an authentication attempt: a success is counted and becomes the
/// last authentication; a failure is counted and leaves the last
/// authentication as it was.
pub fn record_attempt_outcome<T>(
    successful_auths: &mut u32,
    failed_auths: &mut u32,
    last_auth: &mut Option<T>,
    success: bool,
    now: T,
)
    requires
        success ==> *old(successful_auths) < u32::MAX,
        !success ==> *old(failed_auths) < u32::MAX,
    ensures
        success ==> {
            &&& *final(successful_auths) == *old(successful_auths) + 1
            &&& *final(failed_auths) == *old(failed_auths)
            &&& *final(last_auth) == Some(now)
        },
        !success ==> {
            &&& *final(failed_auths) == *old(failed_auths) + 1
            &&& *final(successful_auths) == *old(successful_auths)
            &&& *final(last_auth) == *old(last_auth)
        },
{
    if success {
        *successful_auths = *successful_auths + 1;
        *last_auth = Some(now);
    } else {
        *failed_auths = *failed_auths + 1;
    }
}

/// The recent attempts after one more is recorded: the newest is appended
/// and, beyond the limit, the oldest is dropped.
pub open spec fn with_recent<A>(recent: Seq<A>, attempt: A) -> Seq<A> {
    let appended = recent.push(attempt);
    if appended.len() > RECENT_AUTHS_LIMIT {
        appended.drop_first()
    } else {
        appended
    }
}

/// Record an attempt in the recent history, keeping it to the limit.
pub fn push_recent<A>(recent: &mut Vec<A>, attempt: A)
    ensures
        final(recent)@ == with_recent(old(recent)@, attempt),
{
    recent.push(attempt);
    if recent.len() > RECENT_AUTHS_LIMIT {
        recent.remove(0);
    }
}

/// A history within the limit stays within it, ends with the newest
/// attempt, and keeps the latest attempts in order.
pub proof fn lemma_recent_window<A>(recent: Seq<A>, attempt: A)
    requires
        recent.len() <= RECENT_AUTHS_LIMIT,
    ensures
        RECENT_AUTHS_LIMIT == 10,
        with_recent(recent, attempt).len() <= RECENT_AUTHS_LIMIT,
        with_recent(recent, attempt).len() == if recent.len() < 10 {
            recent.len() + 1
        } else {
            10
        },
        with_recent(recent, attempt).last() == attempt,
        with_recent(recent, attempt).is_suffix_of(recent.push(attempt)),
{
    let appended = recent.push(attempt);
    let r = with_recent(recent, attempt);
    assert(r =~= appended.subrange(appended.len() - r.len(), appended.len() as int));
}

/// Adopt a pattern as the baseline when there is none yet; an existing
/// baseline is never replaced.
pub fn adopt_baseline<A>(baseline: &mut Option<A>, candidate: Option<A>)
    ensures
        *final(baseline) == if (*old(baseline)) is None {
            candidate
        } else {
            *old(baseline)
        },
{
    if baseline.is_none() && candidate.is_some() {
        *baseline = candidate;
    }
}

/// The stored name of each trust level, and how names read back: the five
/// names read as their levels, anything else as `Unknown`.
pub proof fn lemma_level_name_table(name: Seq<char>)
    ensures
        level_name(TrustLevel::Unknown) == "Unknown"@,
        level_name(TrustLevel::Observed) == "Observed"@,
        level_name(TrustLevel::Verified) == "Verified"@,
        level_name(TrustLevel::Trusted) == "Trusted"@,
        level_name(TrustLevel::InnerCircle) == "InnerCircle"@,
        name != "Observed"@ && name != "Verified"@ && name != "Trusted"@ && name != "InnerCircle"@
            ==> level_of_name(name) == TrustLevel::Unknown,
{
}

} // verus!
