//! Temperature block from a thermal zone's `temp` (millidegrees Celsius);
//! urgent and red from `critical` degrees up.
use vstd::prelude::*;

use crate::config::{color_or, Config};
use crate::icons::{glyph, Icons};
use crate::order::by_lex;
use crate::state::{icon_text_view, is_plain_block, Block};
use crate::text::{concat, dec_int, i64_string, str_eq, strs};
use crate::util::{div_trunc, glob_class, matching_paths, read_int, first_line_int};

verus! {

/// The `temp` file to read: with `zone = "auto"` the one of the first
/// `thermal_zone*` entry of the thermal class (its listing is `entries`),
/// else the configured path.
pub fn zone_path(cfg: &Config, entries: &[String]) -> (r: Option<String>)
    ensures
        cfg.modules.temp.zone@ == "auto"@ ==> {
            let found = matching_paths("thermal"@, "thermal_zone*"@, strs(entries@)).sort_by(by_lex());
            if found.len() == 0 {
                r is None
            } else {
                r matches Some(p) && p@ == found[0] + "/temp"@
            }
        },
        cfg.modules.temp.zone@ != "auto"@ ==> (r matches Some(p) && p@ == cfg.modules.temp.zone@),
{
    if str_eq(cfg.modules.temp.zone.as_str(), "auto") {
        let found = glob_class("thermal", "thermal_zone*", entries);
        if found.len() == 0 {
            None
        } else {
            assert(strs(found@)[0] == found@[0]@);
            Some(concat(found[0].as_str(), "/temp"))
        }
    } else {
        Some(cfg.modules.temp.zone.clone())
    }
}

/// The configured temperature icon, or the pack's `temp` glyph.
pub open spec fn temp_icon(cfg: Config, icons: Icons) -> Seq<char> {
    if cfg.modules.temp.icon@.len() == 0 {
        glyph(icons, "temp"@)
    } else {
        cfg.modules.temp.icon@
    }
}

/// `b` is the temperature block for a reading of `millic` millidegrees:
/// `<icon> <C>°C` with whole degrees truncated toward zero; from `critical`
/// degrees up it has `colors.urgent` and is urgent.
pub open spec fn temp_shows(b: Block, cfg: Config, icons: Icons, millic: int) -> bool {
    let c = div_trunc(millic, 1000);
    let text = icon_text_view(temp_icon(cfg, icons), dec_int(c) + "°C"@);
    if c >= cfg.modules.temp.critical {
        b.urgent && (b.color matches Some(col) && col@ == color_or(cfg.colors.urgent, "#f38ba8"@))
            && is_plain_block(Block { color: None, urgent: false, ..b }, text)
    } else {
        is_plain_block(b, text)
    }
}

/// The temperature block for a reading in millidegrees.
pub fn temp_block(cfg: &Config, icons: &Icons, millic: i64) -> (b: Block)
    ensures
        temp_shows(b, *cfg, *icons, millic as int),
{
    let c = millic / 1000;
    let icon = if cfg.modules.temp.icon.as_str().is_empty() {
        icons.get("temp")
    } else {
        cfg.modules.temp.icon.as_str()
    };
    let n = i64_string(c);
    let t = concat(n.as_str(), "°C");
    let mut block = Block::icon_text(icon, t.as_str());
    if c >= cfg.modules.temp.critical {
        block = block.with_color(cfg.colors.urgent()).with_urgent();
    }
    block
}

/// The temperature block from the text of the zone's `temp` file: nothing
/// when its first line is not an integer.
pub fn produce(cfg: &Config, icons: &Icons, temp_text: &str) -> (r: Option<Block>)
    ensures
        match first_line_int(temp_text@) {
            Some(m) => r matches Some(b) && temp_shows(b, *cfg, *icons, m as int),
            None => r is None,
        },
{
    match read_int(temp_text) {
        Some(m) => Some(temp_block(cfg, icons, m)),
        None => None,
    }
}

} // verus!
