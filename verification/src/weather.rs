use vstd::prelude::*;
use crate::dispatch::chars_of;
use crate::suggest::{compare_texts, text_lt};
use crate::text::{utc_stamp, utc_stamp_spec};

verus! {

/// A weather alert is in force while it has no expiry or its expiry stamp
/// (`YYYY-MM-DD HH:MM:SS`, UTC) is not before the current stamp, as text.
pub open spec fn wx_in_force_spec(expires_at: Option<String>, now_stamp: Seq<char>) -> bool {
    match expires_at {
        Some(e) => !text_lt(e@, now_stamp),
        None => true,
    }
}

/// Indices (ascending), among the first `n` alerts, of those in force.
pub open spec fn wx_in_force_prefix(expiry: Seq<Option<String>>, now_stamp: Seq<char>, n: nat) -> Seq<usize>
    decreases n,
{
    if n == 0 {
        Seq::empty()
    } else {
        let p = wx_in_force_prefix(expiry, now_stamp, (n - 1) as nat);
        if wx_in_force_spec(expiry[n - 1], now_stamp) {
            p.push((n - 1) as usize)
        } else {
            p
        }
    }
}

pub fn wx_in_force(expires_at: &Option<String>, now_stamp: &str) -> (res: bool)
    ensures
        res == wx_in_force_spec(*expires_at, now_stamp@),
{
    match expires_at {
        Some(e) => {
            let a = chars_of(e.as_str());
            let b = chars_of(now_stamp);
            compare_texts(&a, &b) >= 0
        },
        None => true,
    }
}

/// The alerts the banner shows at Unix time `now_secs`: those in force
/// (expiry stamps as the alerts give them), by index.
pub fn active_wx_alerts(expiry: &Vec<Option<String>>, now_secs: i64) -> (res: Vec<usize>)
    ensures
        res@ == wx_in_force_prefix(expiry@, utc_stamp_spec(now_secs), expiry@.len() as nat),
{
    let now = utc_stamp(now_secs);
    let mut out: Vec<usize> = Vec::new();
    let mut i: usize = 0;
    while i < expiry.len()
        invariant
            i <= expiry@.len(),
            now@ == utc_stamp_spec(now_secs),
            out@ == wx_in_force_prefix(expiry@, now@, i as nat),
        decreases expiry@.len() - i,
    {
        if wx_in_force(&expiry[i], now.as_str()) {
            out.push(i);
        }
        i = i + 1;
    }
    out
}

} // verus!
