//! Click events: framing the lines of the i3bar click stream, and routing a
//! click through the `[click_actions.<name>]` table.
use vstd::prelude::*;

use crate::config::ClickActionsConfig;
use crate::text::{dec, from_chars, to_chars, trim, trim_chars, u64_string};

verus! {

/// One click as sway reports it: the block's name and the mouse button.
#[derive(Clone, Debug)]
pub struct Click {
    pub name: Option<String>,
    pub button: Option<u32>,
}

/// `s` without its leading `[` and `,` characters.
pub open spec fn strip_openers(s: Seq<char>) -> Seq<char>
    decreases s.len(),
{
    if s.len() > 0 && (s[0] == '[' || s[0] == ',') {
        strip_openers(s.drop_first())
    } else {
        s
    }
}

/// `s` without its trailing `,` characters.
pub open spec fn strip_trailing_commas(s: Seq<char>) -> Seq<char>
    decreases s.len(),
{
    if s.len() > 0 && s.last() == ',' {
        strip_trailing_commas(s.drop_last())
    } else {
        s
    }
}

/// The JSON object a line of the click stream carries: leading `[`/`,` and
/// trailing `,` stripped, surrounding whitespace trimmed; nothing for a line
/// that is left empty.
pub open spec fn payload_view(line: Seq<char>) -> Option<Seq<char>> {
    let p = trim(strip_trailing_commas(trim(strip_openers(line))));
    if p.len() == 0 {
        None
    } else {
        Some(p)
    }
}

/// The object text of one stdin line of the click stream. The stream is an
/// endless array: it opens with `[` and every later event is comma-prefixed
/// (`,{...}`), with sway putting the first event on the same line as the `[`.
/// A lone `[` or a blank line carries no event.
pub fn click_payload(line: &str) -> (r: Option<String>)
    ensures
        match payload_view(line@) {
            Some(p) => r matches Some(s) && s@ == p,
            None => r is None,
        },
{
    let v = to_chars(line);
    let mut i: usize = 0;
    assert(v@.skip(0) =~= v@);
    while i < v.len() && (v[i] == '[' || v[i] == ',')
        invariant
            i <= v@.len(),
            strip_openers(v@) == strip_openers(v@.skip(i as int)),
        decreases v.len() - i,
    {
        assert(v@.skip(i as int).drop_first() =~= v@.skip(i + 1));
        i += 1;
    }
    let mut rest: Vec<char> = Vec::new();
    let mut k: usize = i;
    while k < v.len()
        invariant
            i <= k <= v@.len(),
            rest@ == v@.subrange(i as int, k as int),
        decreases v.len() - k,
    {
        rest.push(v[k]);
        assert(v@.subrange(i as int, k + 1) =~= v@.subrange(i as int, k as int).push(v@[k as int]));
        k += 1;
    }
    assert(rest@ =~= v@.skip(i as int));
    let mut t = trim_chars(&rest);
    while t.len() > 0 && t[t.len() - 1] == ','
        invariant
            strip_trailing_commas(t@) == strip_trailing_commas(trim(strip_openers(v@))),
        decreases t.len(),
    {
        let ghost before = t@;
        t.pop();
        assert(t@ =~= before.drop_last());
    }
    let p = trim_chars(&t);
    if p.len() == 0 {
        None
    } else {
        Some(from_chars(&p))
    }
}

/// The command a click runs: the table of the clicked block's name, its
/// entry for the button number (0 when the click names no button), else its
/// `*` entry; nothing when the click names no block or nothing matches.
pub open spec fn command_view(actions: Map<Seq<char>, crate::state::NameMap<String>>, click: Click) -> Option<Seq<char>> {
    match click.name {
        None => None,
        Some(n) => if !actions.contains_key(n@) {
            None
        } else {
            let table = actions[n@]@;
            let key = dec(
                match click.button {
                    Some(b) => b as nat,
                    None => 0nat,
                },
            );
            if table.contains_key(key) {
                Some(table[key]@)
            } else if table.contains_key("*"@) {
                Some(table["*"@]@)
            } else {
                None
            }
        },
    }
}

/// Route a click through `[click_actions.<name>]`: `<button> = "<command>"`,
/// the button matched as a decimal string, with `"*"` for any unlisted
/// button.
pub fn click_command(actions: &ClickActionsConfig, click: &Click) -> (r: Option<String>)
    ensures
        match command_view(actions@, *click) {
            Some(c) => r matches Some(s) && s@ == c,
            None => r is None,
        },
{
    let name = match &click.name {
        Some(n) => n,
        None => return None,
    };
    let table = match actions.get(name.as_str()) {
        Some(t) => t,
        None => return None,
    };
    let button: u64 = match click.button {
        Some(b) => b as u64,
        None => 0,
    };
    let key = u64_string(button);
    match table.get(key.as_str()) {
        Some(c) => Some(c.clone()),
        None => match table.get("*") {
            Some(c) => Some(c.clone()),
            None => None,
        },
    }
}

} // verus!
