//! Color palette resolution. `[colors]` holds literal hex values; with
//! `source = "pywal"` the unset ones are filled from pywal's palette, and what
//! is still unset then takes the static palette. Explicit values always win.
use vstd::prelude::*;

use crate::config::{color_or, ColorSource, ColorsConfig};
use crate::state::NameMap;
use crate::text::owned;

verus! {

/// pywal's `colors.json`: the `special` table (`foreground`, ...) and the
/// `colors` table (`color0` ... `color15`).
pub struct Pywal {
    pub special: NameMap<String>,
    pub colors: NameMap<String>,
}

/// The entry of `m` under `k`, if any.
pub open spec fn lookup(m: Map<Seq<char>, String>, k: Seq<char>) -> Option<String> {
    if m.contains_key(k) {
        Some(m[k])
    } else {
        None
    }
}

/// `field` unless it is unset, in which case `fill`.
pub open spec fn keep_or(field: Option<String>, fill: Option<String>) -> Option<String> {
    if field is Some {
        field
    } else {
        fill
    }
}

/// `new` is `old` with its unset slots filled from pywal's palette `p`:
/// default ← `special.foreground`, urgent ← `color1`, warn ← `color3`,
/// good ← `color2`, mute ← `color5`.
pub open spec fn filled_from_pywal(new: ColorsConfig, old: ColorsConfig, p: Pywal) -> bool {
    &&& new.source == old.source
    &&& new.default == keep_or(old.default, lookup(p.special@, "foreground"@))
    &&& new.urgent == keep_or(old.urgent, lookup(p.colors@, "color1"@))
    &&& new.warn == keep_or(old.warn, lookup(p.colors@, "color3"@))
    &&& new.good == keep_or(old.good, lookup(p.colors@, "color2"@))
    &&& new.mute == keep_or(old.mute, lookup(p.colors@, "color5"@))
}

/// `new` slot is `old` slot, or the static color `fallback` when `old` is unset.
pub open spec fn filled_slot(new: Option<String>, old: Option<String>, fallback: Seq<char>) -> bool {
    if old is Some {
        new == old
    } else {
        new matches Some(s) && s@ == fallback
    }
}

/// `new` is `old` with every unset slot given the static palette.
pub open spec fn filled_static(new: ColorsConfig, old: ColorsConfig) -> bool {
    &&& new.source == old.source
    &&& filled_slot(new.default, old.default, "#cdd6f4"@)
    &&& filled_slot(new.urgent, old.urgent, "#f38ba8"@)
    &&& filled_slot(new.warn, old.warn, "#f9e2af"@)
    &&& filled_slot(new.good, old.good, "#a6e3a1"@)
    &&& filled_slot(new.mute, old.mute, "#fab387"@)
}

fn lookup_clone(m: &NameMap<String>, key: &str) -> (r: Option<String>)
    ensures
        r == lookup(m@, key@),
{
    match m.get(key) {
        Some(v) => Some(v.clone()),
        None => None,
    }
}

/// Fill every unset slot with the matching pywal value; explicit slots stay.
pub fn apply_pywal(c: &mut ColorsConfig, p: &Pywal)
    ensures
        filled_from_pywal(*final(c), *old(c), *p),
{
    if c.default.is_none() {
        c.default = lookup_clone(&p.special, "foreground");
    }
    if c.urgent.is_none() {
        c.urgent = lookup_clone(&p.colors, "color1");
    }
    if c.warn.is_none() {
        c.warn = lookup_clone(&p.colors, "color3");
    }
    if c.good.is_none() {
        c.good = lookup_clone(&p.colors, "color2");
    }
    if c.mute.is_none() {
        c.mute = lookup_clone(&p.colors, "color5");
    }
}

/// Fill every still-unset slot with the static palette.
pub fn fill_static(c: &mut ColorsConfig)
    ensures
        filled_static(*final(c), *old(c)),
{
    if c.default.is_none() {
        c.default = Some(owned("#cdd6f4"));
    }
    if c.urgent.is_none() {
        c.urgent = Some(owned("#f38ba8"));
    }
    if c.warn.is_none() {
        c.warn = Some(owned("#f9e2af"));
    }
    if c.good.is_none() {
        c.good = Some(owned("#a6e3a1"));
    }
    if c.mute.is_none() {
        c.mute = Some(owned("#fab387"));
    }
}

/// Resolve the palette in place: with `source = "pywal"` and a loaded pywal
/// palette, unset slots are first filled from it; then every slot still unset
/// takes the static palette.
pub fn resolve(c: &mut ColorsConfig, pywal: Option<&Pywal>)
    ensures
        match pywal {
            Some(p) => if old(c).source == ColorSource::Pywal {
                exists|mid: ColorsConfig| filled_from_pywal(mid, *old(c), *p) && filled_static(*final(c), mid)
            } else {
                filled_static(*final(c), *old(c))
            },
            None => filled_static(*final(c), *old(c)),
        },
{
    if c.source == ColorSource::Pywal {
        if let Some(p) = pywal {
            apply_pywal(c, p);
        }
    }
    let ghost mid = *c;
    fill_static(c);
    assert(filled_static(*c, mid));
}

/// After filling with the static palette every slot is set, so each accessor
/// returns the slot itself.
pub proof fn lemma_filled_palette_is_complete(new: ColorsConfig, old: ColorsConfig)
    requires
        filled_static(new, old),
    ensures
        new.default is Some,
        new.urgent is Some,
        new.warn is Some,
        new.good is Some,
        new.mute is Some,
{
}

/// Filling with the static palette never changes a color the bar shows: the
/// static palette is exactly the accessors' fallback, and set slots stay.
pub proof fn lemma_static_fill_shows_same_colors(new: ColorsConfig, old: ColorsConfig)
    requires
        filled_static(new, old),
    ensures
        color_or(new.default, "#cdd6f4"@) == color_or(old.default, "#cdd6f4"@),
        color_or(new.urgent, "#f38ba8"@) == color_or(old.urgent, "#f38ba8"@),
        color_or(new.warn, "#f9e2af"@) == color_or(old.warn, "#f9e2af"@),
        color_or(new.good, "#a6e3a1"@) == color_or(old.good, "#a6e3a1"@),
        color_or(new.mute, "#fab387"@) == color_or(old.mute, "#fab387"@),
{
}

/// Filling twice is filling once: a filled palette is a fixed point.
pub proof fn lemma_static_fill_idempotent(a: ColorsConfig, b: ColorsConfig, c: ColorsConfig)
    requires
        filled_static(b, a),
        filled_static(c, b),
    ensures
        c == b,
{
}

/// Explicit values win: a slot that is set before resolution (from pywal
/// or not) is never replaced.
pub proof fn lemma_explicit_colors_win(new: ColorsConfig, mid: ColorsConfig, old: ColorsConfig, p: Pywal)
    requires
        filled_from_pywal(mid, old, p),
        filled_static(new, mid),
    ensures
        old.default is Some ==> new.default == old.default,
        old.urgent is Some ==> new.urgent == old.urgent,
        old.warn is Some ==> new.warn == old.warn,
        old.good is Some ==> new.good == old.good,
        old.mute is Some ==> new.mute == old.mute,
{
}

} // verus!
