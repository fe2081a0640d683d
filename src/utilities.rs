//! The replies of the bot's utility commands.

use crate::text::{decimal, push_decimal};
use vstd::prelude::*;

verus! {

/// `Uptime: {d}d {h}h {m}m {s}s` for a run of `seconds` seconds.
pub open spec fn uptime_text(seconds: nat) -> Seq<char> {
    let days = seconds / 86400;
    let hours = (seconds / 3600) % 24;
    let minutes = (seconds / 60) % 60;
    "Uptime: "@ + decimal(days) + "d "@ + decimal(hours) + "h "@ + decimal(minutes) + "m "@
        + decimal(seconds % 60) + "s"@
}

/// The reply of the uptime command, for a bot that has run for `seconds` seconds.
pub fn uptime_reply(seconds: u64) -> (r: String)
    ensures
        r@ == uptime_text(seconds as nat),
{
    let (minutes, secs) = (seconds / 60, seconds % 60);
    let (hours, minutes) = (minutes / 60, minutes % 60);
    let (days, hours) = (hours / 24, hours % 24);
    assert(seconds / 60 / 60 == seconds / 3600) by (nonlinear_arith);
    assert(seconds / 60 / 60 / 24 == seconds / 86400) by (nonlinear_arith);
    let mut r = String::from_str("Uptime: ");
    push_decimal(&mut r, days);
    r.append("d ");
    push_decimal(&mut r, hours);
    r.append("h ");
    push_decimal(&mut r, minutes);
    r.append("m ");
    push_decimal(&mut r, secs);
    r.append("s");
    assert(r@ =~= uptime_text(seconds as nat));
    r
}

/// The reply of the age command: when the account of `user_name` was created.
pub fn age_reply(user_name: &str, created_at: &str) -> (r: String)
    ensures
        r@ == user_name@ + "'s account was created at "@ + created_at@,
{
    let mut r = String::from_str(user_name);
    r.append("'s account was created at ");
    r.append(created_at);
    r
}

} // verus!
