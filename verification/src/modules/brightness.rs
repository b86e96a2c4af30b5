//! Brightness block from a backlight's `brightness` and `max_brightness`.
use vstd::prelude::*;

use crate::config::Config;
use crate::icons::{glyph, Icons};
use crate::order::by_lex;
use crate::state::{icon_text_view, is_plain_block, Block};
use crate::text::{concat, dec_int, i64_string, str_eq, strs};
use crate::util::{glob_class, matching_paths};

verus! {

/// The backlight directory: with `device = "auto"` the first entry of the
/// backlight class (its listing is `entries`), else the named device.
pub fn device_dir(cfg: &Config, entries: &[String]) -> (r: Option<String>)
    ensures
        cfg.modules.brightness.device@ == "auto"@ ==> {
            let found = matching_paths("backlight"@, "*"@, strs(entries@)).sort_by(by_lex());
            if found.len() == 0 {
                r is None
            } else {
                r matches Some(d) && d@ == found[0]
            }
        },
        cfg.modules.brightness.device@ != "auto"@ ==> (r matches Some(d) && d@
            == "/sys/class/backlight/"@ + cfg.modules.brightness.device@),
{
    if str_eq(cfg.modules.brightness.device.as_str(), "auto") {
        let found = glob_class("backlight", "*", entries);
        if found.len() == 0 {
            None
        } else {
            assert(strs(found@)[0] == found@[0]@);
            Some(found[0].clone())
        }
    } else {
        Some(concat("/sys/class/backlight/", cfg.modules.brightness.device.as_str()))
    }
}

/// The brightness icon key: low below 30 percent, mid below 70, high
/// otherwise (negative readings included).
pub open spec fn bri_icon_key(pct: int) -> Seq<char> {
    if 0 <= pct <= 29 {
        "bri_low"@
    } else if 30 <= pct <= 69 {
        "bri_mid"@
    } else {
        "bri_high"@
    }
}

/// The brightness block: nothing without a positive maximum; else the level
/// icon and `<pct>%`, where `pct` is the current over the maximum brightness
/// as a rounded percentage.
pub fn produce(icons: &Icons, max: i64, pct: i64) -> (r: Option<Block>)
    ensures
        max <= 0 ==> r is None,
        max > 0 ==> (r matches Some(b) && is_plain_block(
            b,
            icon_text_view(glyph(*icons, bri_icon_key(pct as int)), dec_int(pct as int) + "%"@),
        )),
{
    if max <= 0 {
        return None;
    }
    let icon = if 0 <= pct && pct <= 29 {
        icons.get("bri_low")
    } else if 30 <= pct && pct <= 69 {
        icons.get("bri_mid")
    } else {
        icons.get("bri_high")
    };
    let n = i64_string(pct);
    let t = concat(n.as_str(), "%");
    Some(Block::icon_text(icon, t.as_str()))
}

} // verus!
