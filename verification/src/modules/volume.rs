//! Volume block from the output of `pamixer --get-mute` and
//! `pamixer --get-volume`.
use vstd::prelude::*;

use crate::config::{color_or, Config};
use crate::icons::{glyph, Icons};
use crate::state::{icon_text_view, is_plain_block, Block};
use crate::text::{concat, dec_int, i64_string, parse_i64, parse_i64_chars, str_eq, to_chars, trim, trim_chars, trim_str};

verus! {

/// The volume icon key: low below 30 percent, mid below 70, high otherwise
/// (negative readings included).
pub open spec fn vol_icon_key(vol: int) -> Seq<char> {
    if 0 <= vol <= 29 {
        "vol_low"@
    } else if 30 <= vol <= 69 {
        "vol_mid"@
    } else {
        "vol_high"@
    }
}

/// The volume block from the helper's two answers: nothing when the volume
/// is not an integer; `Mute` in `colors.mute` when the mute answer is `true`;
/// else the level icon and `<vol>%`.
pub fn produce(cfg: &Config, icons: &Icons, mute_out: &str, vol_out: &str) -> (r: Option<Block>)
    ensures
        match parse_i64(trim(vol_out@)) {
            None => r is None,
            Some(v) => r matches Some(b) && if trim(mute_out@) == "true"@ {
                (b.color matches Some(c) && c@ == color_or(cfg.colors.mute, "#fab387"@))
                    && is_plain_block(Block { color: None, ..b }, icon_text_view(glyph(*icons, "vol_mute"@), "Mute"@))
            } else {
                is_plain_block(b, icon_text_view(glyph(*icons, vol_icon_key(v as int)), dec_int(v as int) + "%"@))
            },
        },
{
    let mute = trim_str(mute_out);
    let muted = str_eq(mute.as_str(), "true");
    let vt = trim_chars(&to_chars(vol_out));
    let vol = match parse_i64_chars(&vt) {
        Some(v) => v,
        None => return None,
    };
    if muted {
        return Some(Block::icon_text(icons.get("vol_mute"), "Mute").with_color(cfg.colors.mute()));
    }
    let icon = if 0 <= vol && vol <= 29 {
        icons.get("vol_low")
    } else if 30 <= vol && vol <= 69 {
        icons.get("vol_mid")
    } else {
        icons.get("vol_high")
    };
    let n = i64_string(vol);
    let t = concat(n.as_str(), "%");
    Some(Block::icon_text(icon, t.as_str()))
}

} // verus!
