//! Load average (1-min) and humanized uptime, from `/proc/loadavg` and the
//! uptime in whole seconds.
use vstd::prelude::*;

use crate::state::{is_plain_block, Block};
use crate::text::{concat, dec, first_line, lines_of, to_chars, from_chars, u64_string, views, words, words_of};

verus! {

/// The uptime as `1d 2h 3m`, `2h 3m` or `5m`: days, hours and minutes from
/// the largest non-zero unit down.
pub open spec fn uptime_view(secs: nat) -> Seq<char> {
    let d = secs / 86400;
    let h = (secs % 86400) / 3600;
    let m = (secs % 3600) / 60;
    if d > 0 {
        dec(d) + "d "@ + dec(h) + "h "@ + dec(m) + "m"@
    } else if h > 0 {
        dec(h) + "h "@ + dec(m) + "m"@
    } else {
        dec(m) + "m"@
    }
}

/// `1d 2h 3m`-style uptime: the largest non-zero units only, e.g. `2h 3m` or
/// `5m`.
pub fn human_uptime(secs: u64) -> (r: String)
    ensures
        r@ == uptime_view(secs as nat),
{
    let d = secs / 86_400;
    let h = (secs % 86_400) / 3600;
    let m = (secs % 3600) / 60;
    if d > 0 {
        let a = u64_string(d);
        let b = concat(a.as_str(), "d ");
        let c = u64_string(h);
        let e = concat(b.as_str(), c.as_str());
        let f = concat(e.as_str(), "h ");
        let g = u64_string(m);
        let k = concat(f.as_str(), g.as_str());
        let r = concat(k.as_str(), "m");
        assert(r@ =~= dec(d as nat) + "d "@ + dec(h as nat) + "h "@ + dec(m as nat) + "m"@);
        r
    } else if h > 0 {
        let a = u64_string(h);
        let b = concat(a.as_str(), "h ");
        let c = u64_string(m);
        let e = concat(b.as_str(), c.as_str());
        let r = concat(e.as_str(), "m");
        assert(r@ =~= dec(h as nat) + "h "@ + dec(m as nat) + "m"@);
        r
    } else {
        let a = u64_string(m);
        concat(a.as_str(), "m")
    }
}

/// The 1-minute load average: the first word of the first line.
pub open spec fn load_one(text: Seq<char>) -> Option<Seq<char>> {
    match first_line(text) {
        Some(l) => if words(l).len() == 0 {
            None
        } else {
            Some(words(l)[0])
        },
        None => None,
    }
}

/// The load block from the text of `/proc/loadavg` and the uptime in
/// seconds: `<load>  up <uptime>`; nothing when the text has no first word.
pub fn produce(loadavg: &str, up_secs: u64) -> (r: Option<Block>)
    ensures
        match load_one(loadavg@) {
            Some(w) => r matches Some(b) && is_plain_block(b, w + "  up "@ + uptime_view(up_secs as nat)),
            None => r is None,
        },
{
    let text = to_chars(loadavg);
    let ls = lines_of(&text);
    if ls.len() == 0 {
        return None;
    }
    assert(views(ls@)[0] == ls@[0]@);
    let ws = words_of(&ls[0]);
    if ws.len() == 0 {
        return None;
    }
    assert(views(ws@)[0] == ws@[0]@);
    let one = from_chars(&ws[0]);
    let a = concat(one.as_str(), "  up ");
    let u = human_uptime(up_secs);
    let t = concat(a.as_str(), u.as_str());
    Some(Block::text(t.as_str()))
}

} // verus!
