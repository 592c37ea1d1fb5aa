//! When push credentials are minted anew during a turn.
use crate::text::{lower, lower_string, parse_u64, parsed_u64, same, trim, trimmed};
use vstd::prelude::*;

verus! {

/// The usual time between two mints, in seconds: well under the life of a token.
pub const REFRESH_INTERVAL_DEFAULT: u64 = 2700;

/// The longest time that one mint may take, in seconds.
pub const REFRESH_MINT_TIMEOUT: u64 = 30;

/// The longest wait after a mint that failed, in seconds.
pub const REFRESH_RETRY_MAX: u64 = 60;

/// Whether a setting switches refreshing off.
pub open spec fn falsy(s: Seq<char>) -> bool {
    let v = lower(trim(s));
    v.len() == 0 || v == "0"@ || v == "false"@ || v == "off"@ || v == "no"@
}

/// Whether credentials are refreshed: unless a setting switches it off.
pub fn parse_refresh_enabled(raw: Option<&str>) -> (r: bool)
    ensures
        r == match raw {
            Some(s) => !falsy(s@),
            None => true,
        },
{
    match raw {
        Some(s) => {
            let t = trimmed(s);
            let v = lower_string(t.as_str());
            !(v.as_str().is_empty() || same(v.as_str(), "0") || same(v.as_str(), "false") || same(
                v.as_str(),
                "off",
            ) || same(v.as_str(), "no"))
        },
        None => true,
    }
}

/// The seconds between two mints; none where they are switched off.
pub open spec fn interval_of(raw: Option<Seq<char>>) -> Option<u64> {
    match raw {
        None => Some(REFRESH_INTERVAL_DEFAULT),
        Some(s) => match parse_u64(trim(s)) {
            Some(n) => if n == 0 {
                None
            } else {
                Some(n)
            },
            None => Some(REFRESH_INTERVAL_DEFAULT),
        },
    }
}

/// The seconds between two mints. Zero switches them off; a setting that is
/// empty or no number leaves the usual time.
pub fn parse_refresh_interval(raw: Option<&str>) -> (r: Option<u64>)
    ensures
        r == interval_of(raw.deep_view()),
{
    match raw {
        None => Some(REFRESH_INTERVAL_DEFAULT),
        Some(s) => match parsed_u64(trimmed(s).as_str()) {
            Some(n) => if n == 0 {
                None
            } else {
                Some(n)
            },
            None => Some(REFRESH_INTERVAL_DEFAULT),
        },
    }
}

/// How an attempt to mint credentials ended.
#[derive(Clone, Copy, Debug, PartialEq, Eq, Structural)]
pub enum Mint {
    Refreshed,
    /// There are no managed credentials.
    Skipped,
    Failed,
    TimedOut,
}

/// What a turn does about credentials.
#[derive(Clone, Copy, Debug, PartialEq, Eq, Structural)]
pub struct RefreshPlan {
    /// Mint before the turn starts.
    pub at_entry: bool,
    /// Mint during the turn, every so many seconds.
    pub every: Option<u64>,
}

/// What a turn does about credentials, from the two settings. Switching
/// refreshing off switches off both.
pub fn refresh_plan(enabled: Option<&str>, interval: Option<&str>) -> (r: RefreshPlan)
    ensures
        r.at_entry == match enabled {
            Some(s) => !falsy(s@),
            None => true,
        },
        r.every == if r.at_entry {
            interval_of(interval.deep_view())
        } else {
            None
        },
{
    if parse_refresh_enabled(enabled) {
        RefreshPlan { at_entry: true, every: parse_refresh_interval(interval) }
    } else {
        RefreshPlan { at_entry: false, every: None }
    }
}

/// The seconds until the next mint: the interval, or less after a failure.
pub fn next_delay(interval: u64, mint: Mint) -> (r: u64)
    ensures
        r == match mint {
            Mint::Refreshed | Mint::Skipped => interval,
            Mint::Failed | Mint::TimedOut => if interval < REFRESH_RETRY_MAX {
                interval
            } else {
                REFRESH_RETRY_MAX
            },
        },
        r <= interval,
{
    match mint {
        Mint::Refreshed | Mint::Skipped => interval,
        Mint::Failed | Mint::TimedOut => if interval < REFRESH_RETRY_MAX {
            interval
        } else {
            REFRESH_RETRY_MAX
        },
    }
}

/// Whatever the delay before the next mint is, it is the interval after one that
/// went well or had nothing to do, and after one that failed at most a minute and
/// no longer than the interval.
pub proof fn lemma_failed_mints_are_tried_again_soon(interval: u64, mint: Mint, delay: u64)
    requires
        call_ensures(next_delay, (interval, mint), delay),
    ensures
        mint == Mint::Refreshed || mint == Mint::Skipped ==> delay == interval,
        mint == Mint::Failed || mint == Mint::TimedOut ==> delay <= 60 && delay <= interval && (
        delay == 60 || delay == interval),
{
}

/// Refreshing is on unless the setting switches it off: by nothing but white space
/// or by one of four words in any case of letters. Where it is on, a turn mints at
/// its start and then at the interval that is set: zero for never, and the usual
/// one where none is set or the setting is no number. Where it is off, it never
/// mints.
pub proof fn lemma_refreshing_is_on_unless_switched_off(
    enabled: Option<&str>,
    interval: Option<&str>,
    plan: RefreshPlan,
)
    requires
        call_ensures(refresh_plan, (enabled, interval), plan),
    ensures
        ({
            let off = enabled matches Some(s) && ({
                let v = lower(trim(s@));
                v.len() == 0 || v == "0"@ || v == "false"@ || v == "off"@ || v == "no"@
            });
            &&& plan.at_entry <==> !off
            &&& off ==> plan.every is None
            &&& !off && interval is None ==> plan.every == Some(2700u64)
            &&& !off ==> (interval matches Some(s) ==> match parse_u64(trim(s@)) {
                Some(n) => if n == 0 {
                    plan.every is None
                } else {
                    plan.every == Some(n)
                },
                None => plan.every == Some(2700u64),
            })
        }),
{
}


} // verus!
