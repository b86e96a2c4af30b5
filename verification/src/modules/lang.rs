//! Keyboard layout block. Sway sends no event when the layout changes through
//! xkb options, so the layout names are re-read from its input list on a
//! timer; the first input that reports an active layout wins.
use vstd::prelude::*;

use crate::config::Config;
use crate::icons::{glyph, Icons};
use crate::state::{icon_text_view, is_plain_block, Block};
use crate::text::{owned, take_chars, take_str};

verus! {

/// What `str::to_uppercase` gives for a string (the Unicode uppercase
/// mapping, which may change the length).
pub uninterp spec fn uppercase(s: Seq<char>) -> Seq<char>;

/// `str::to_uppercase` (std). Trusted: the result is `uppercase` of the
/// argument; nothing more is stated of the mapping.
#[verifier::external_body]
fn to_uppercase(s: &str) -> (r: String)
    ensures
        r@ == uppercase(s@),
{
    s.to_uppercase()
}

/// The label for a layout name: with `n == 0` the name itself, else the
/// first `n` characters of its upper-case form.
pub open spec fn shorten_view(layout: Seq<char>, n: nat) -> Seq<char> {
    if n == 0 {
        layout
    } else {
        take_chars(uppercase(layout), n)
    }
}

/// Take the first `n` chars upper-cased; the name unchanged when `n == 0`.
pub fn shorten(layout: &str, n: usize) -> (r: String)
    ensures
        r@ == shorten_view(layout@, n as nat),
{
    if n == 0 {
        return owned(layout);
    }
    let upper = to_uppercase(layout);
    take_str(upper.as_str(), n)
}

/// The layout block: the `lang` icon and the shortened name, named `lang`.
pub fn block_for(cfg: &Config, icons: &Icons, layout: &str) -> (b: Block)
    ensures
        b.name matches Some(nm) && nm@ == "lang"@,
        is_plain_block(
            Block { name: None, ..b },
            icon_text_view(glyph(*icons, "lang"@), shorten_view(layout@, cfg.modules.lang.shorten as nat)),
        ),
{
    let label = shorten(layout, cfg.modules.lang.shorten);
    let icon = icons.get("lang");
    Block::icon_text(icon, label.as_str()).with_name("lang")
}

/// The first reported active layout among the inputs, if any.
pub open spec fn first_layout(layouts: Seq<Option<String>>) -> Option<Seq<char>>
    decreases layouts.len(),
{
    if layouts.len() == 0 {
        None
    } else {
        match layouts[0] {
            Some(l) => Some(l@),
            None => first_layout(layouts.drop_first()),
        }
    }
}

/// The layout block for the inputs' active layout names (in input order):
/// the first that is reported, else the configured fallback.
pub fn lang_block(cfg: &Config, icons: &Icons, layouts: &[Option<String>]) -> (b: Block)
    ensures
        ({
            let name = match first_layout(layouts@) {
                Some(l) => l,
                None => cfg.modules.lang.fallback@,
            };
            b.name matches Some(nm) && nm@ == "lang"@ && is_plain_block(
                Block { name: None, ..b },
                icon_text_view(glyph(*icons, "lang"@), shorten_view(name, cfg.modules.lang.shorten as nat)),
            )
        }),
{
    let mut i: usize = 0;
    assert(layouts@.skip(0) =~= layouts@);
    while i < layouts.len()
        invariant
            i <= layouts@.len(),
            first_layout(layouts@) == first_layout(layouts@.skip(i as int)),
        decreases layouts.len() - i,
    {
        assert(layouts@.skip(i as int).drop_first() =~= layouts@.skip(i + 1));
        match &layouts[i] {
            Some(l) => {
                return block_for(cfg, icons, l.as_str());
            },
            None => {},
        }
        i += 1;
    }
    block_for(cfg, icons, cfg.modules.lang.fallback.as_str())
}

} // verus!
