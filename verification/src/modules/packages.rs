//! Pending-updates block from the output of an external counter
//! (`checkupdates` by default): one pending update per non-blank line.
use vstd::prelude::*;

use crate::config::Config;
use crate::icons::{glyph, Icons};
use crate::state::{icon_text_view, is_plain_block, Block};
use crate::text::{dec, lines, lines_of, to_chars, trim, trim_chars, u64_string, views};

verus! {

/// The number of lines of `ls` that are not blank.
pub open spec fn nonblank_count(ls: Seq<Seq<char>>) -> nat
    decreases ls.len(),
{
    if ls.len() == 0 {
        0
    } else {
        nonblank_count(ls.drop_last()) + if trim(ls.last()).len() > 0 {
            1nat
        } else {
            0nat
        }
    }
}

/// The pending count in the counter's output.
pub fn pending(out: &str) -> (n: u64)
    ensures
        n == nonblank_count(lines(out@)),
{
    let text = to_chars(out);
    let ls = lines_of(&text);
    let ghost l = views(ls@);
    let mut n: u64 = 0;
    let mut i: usize = 0;
    assert(l.take(0) =~= seq![]);
    while i < ls.len()
        invariant
            i <= ls@.len(),
            l == views(ls@),
            n == nonblank_count(l.take(i as int)),
            n <= i,
        decreases ls.len() - i,
    {
        let ghost t = l.take(i + 1);
        assert(t.last() == ls@[i as int]@);
        assert(t.drop_last() =~= l.take(i as int));
        if trim_chars(&ls[i]).len() > 0 {
            n += 1;
        }
        i += 1;
    }
    assert(l.take(i as int) =~= l);
    n
}

/// The packages block: with nothing pending and `hide_when_zero` an empty
/// block (which hides it); else the `packages` icon and the count, named
/// `packages`.
pub fn produce(cfg: &Config, icons: &Icons, out: &str) -> (b: Block)
    ensures
        ({
            let n = nonblank_count(lines(out@));
            if n == 0 && cfg.modules.packages.hide_when_zero {
                is_plain_block(b, seq![])
            } else {
                (b.name matches Some(nm) && nm@ == "packages"@)
                    && is_plain_block(Block { name: None, ..b }, icon_text_view(glyph(*icons, "packages"@), dec(n)))
            }
        }),
{
    let n = pending(out);
    if n == 0 && cfg.modules.packages.hide_when_zero {
        let b = Block::text("");
        proof {
            reveal_strlit("");
            assert(b.full_text@ =~= seq![]);
        }
        return b;
    }
    let t = u64_string(n);
    Block::icon_text(icons.get("packages"), t.as_str()).with_name("packages")
}

} // verus!
