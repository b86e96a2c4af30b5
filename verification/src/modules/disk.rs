//! Battery (`bat`) and filesystem (`disk`) blocks.
use vstd::prelude::*;

use crate::config::{color_or, Config, TimeFmt};
use crate::icons::{glyph, Icons};
use crate::order::by_lex;
use crate::state::{icon_text_view, is_plain_block, Block};
use crate::text::{concat, dec_int, i64_string, join, join_strings, str_eq, strs};
use crate::util::{div_trunc, glob_class, human_bytes, human_bytes_view, matching_paths};

verus! {

// ---------------------------------------------------------------------------
// Battery
// ---------------------------------------------------------------------------

/// The sysfs directory of the battery: with `device = "auto"` the first
/// `BAT*` entry of `power_supply` (its listing is `entries`), else the named
/// device.
pub fn battery_dir(cfg: &Config, entries: &[String]) -> (r: Option<String>)
    ensures
        cfg.modules.battery.device@ == "auto"@ ==> {
            let found = matching_paths("power_supply"@, "BAT*"@, strs(entries@)).sort_by(by_lex());
            if found.len() == 0 {
                r is None
            } else {
                r matches Some(d) && d@ == found[0]
            }
        },
        cfg.modules.battery.device@ != "auto"@ ==> (r matches Some(d) && d@
            == "/sys/class/power_supply/"@ + cfg.modules.battery.device@),
{
    if str_eq(cfg.modules.battery.device.as_str(), "auto") {
        let found = glob_class("power_supply", "BAT*", entries);
        if found.len() == 0 {
            None
        } else {
            assert(strs(found@)[0] == found@[0]@);
            Some(found[0].clone())
        }
    } else {
        Some(concat("/sys/class/power_supply/", cfg.modules.battery.device.as_str()))
    }
}

/// The battery's sysfs values (`None` where a file is missing or unreadable).
pub struct BatterySample {
    /// First line of `status` (`""` when unreadable).
    pub status: String,
    pub capacity: Option<i64>,
    pub energy_now: Option<i64>,
    pub energy_full: Option<i64>,
    pub charge_now: Option<i64>,
    pub charge_full: Option<i64>,
    pub power_now: Option<i64>,
    pub current_now: Option<i64>,
}

/// The discharge/charge rate: `power_now`, else `current_now`.
pub open spec fn rate_of(s: BatterySample) -> Option<i64> {
    match s.power_now {
        Some(p) => Some(p),
        None => s.current_now,
    }
}

/// The `(now, full)` pair: energy when both energy files are there, else
/// charge when both charge files are.
pub open spec fn level_of(s: BatterySample) -> Option<(i64, i64)> {
    match (s.energy_now, s.energy_full) {
        (Some(n), Some(f)) => Some((n, f)),
        _ => match (s.charge_now, s.charge_full) {
            (Some(n), Some(f)) => Some((n, f)),
            _ => None,
        },
    }
}

/// The arithmetic of the time estimate stays in `i64` for this sample.
pub open spec fn time_in_range(s: BatterySample, charging: bool) -> bool {
    match (rate_of(s), level_of(s)) {
        (Some(r), Some((n, f))) => (r > 0 && charging) ==> i64::MIN <= f - n <= i64::MAX,
        _ => true,
    }
}

/// `(hours, minutes)` left: what remains to drain (discharging) or to fill
/// (charging), over the rate, with the minutes saturated at `i64::MAX`; `None`
/// without a positive rate or a level pair.
pub open spec fn time_left(s: BatterySample, charging: bool) -> Option<(i64, i64)> {
    match (rate_of(s), level_of(s)) {
        (Some(r), Some((n, f))) => if r <= 0 {
            None
        } else {
            let remaining: int = if charging {
                if f - n > 0 { f - n } else { 0 }
            } else {
                if n > 0 { n as int } else { 0 }
            };
            let scaled = if remaining * 60 > i64::MAX { i64::MAX as int } else { remaining * 60 };
            let total = scaled / (r as int);
            Some(((total / 60) as i64, (total % 60) as i64))
        },
        _ => None,
    }
}

/// Battery time remaining, from the rate and level files (the micro-units
/// cancel, so remaining / rate is hours).
pub fn time_remaining(s: &BatterySample, charging: bool) -> (r: Option<(i64, i64)>)
    requires
        time_in_range(*s, charging),
    ensures
        r == time_left(*s, charging),
{
    let rate = match s.power_now {
        Some(p) => p,
        None => match s.current_now {
            Some(c) => c,
            None => return None,
        },
    };
    let (now, full) = match (s.energy_now, s.energy_full) {
        (Some(n), Some(f)) => (n, f),
        _ => match (s.charge_now, s.charge_full) {
            (Some(n), Some(f)) => (n, f),
            _ => {
                if rate <= 0 {
                    return None;
                }
                return None;
            },
        },
    };
    if rate <= 0 {
        return None;
    }
    let remaining: i64 = if charging {
        let d = full - now;
        if d > 0 { d } else { 0 }
    } else {
        if now > 0 { now } else { 0 }
    };
    let scaled: i64 = match remaining.checked_mul(60) {
        Some(v) => v,
        None => i64::MAX,
    };
    let total = scaled / rate;
    Some((total / 60, total % 60))
}

/// Minutes as two digits (`{:02}`): a leading zero below 10.
pub open spec fn two_digits(m: int) -> Seq<char> {
    if 0 <= m < 10 {
        seq!['0'] + dec_int(m)
    } else {
        dec_int(m)
    }
}

/// `Auto`: `2h15` (at least an hour) or `45m`; `HM`: always `H:MM`.
pub open spec fn time_view(h: i64, m: i64, fmt: TimeFmt) -> Seq<char> {
    match fmt {
        TimeFmt::Auto => if h >= 1 {
            dec_int(h as int) + "h"@ + dec_int(m as int)
        } else {
            dec_int(m as int) + "m"@
        },
        TimeFmt::HM => dec_int(h as int) + ":"@ + two_digits(m as int),
    }
}

pub fn format_time(h: i64, m: i64, fmt: TimeFmt) -> (r: String)
    ensures
        r@ == time_view(h, m, fmt),
{
    match fmt {
        TimeFmt::Auto => if h >= 1 {
            let a = i64_string(h);
            let b = concat(a.as_str(), "h");
            let c = i64_string(m);
            concat(b.as_str(), c.as_str())
        } else {
            let c = i64_string(m);
            concat(c.as_str(), "m")
        },
        TimeFmt::HM => {
            let a = i64_string(h);
            let b = concat(a.as_str(), ":");
            let c = i64_string(m);
            let mm = if 0 <= m && m < 10 {
                concat("0", c.as_str())
            } else {
                c
            };
            proof {
                reveal_strlit("0");
            }
            concat(b.as_str(), mm.as_str())
        },
    }
}

/// The charge percentage: `capacity`, else energy now over energy full (both
/// in milli-units) when full is positive.
pub open spec fn battery_pct(s: BatterySample) -> Option<int> {
    match s.capacity {
        Some(c) => Some(c as int),
        None => match (s.energy_now, s.energy_full) {
            (Some(n), Some(f)) => {
                let nm = div_trunc(n as int, 1000);
                let fm = div_trunc(f as int, 1000);
                if fm <= 0 {
                    None
                } else {
                    Some(div_trunc(nm * 100, fm))
                }
            },
            _ => None,
        },
    }
}

/// The battery icon key: charging, else by charge level.
pub open spec fn battery_icon_key(charging: bool, pct: int) -> Seq<char> {
    if charging {
        "bat_charging"@
    } else if pct >= 90 {
        "bat_full"@
    } else if pct >= 70 {
        "bat_high"@
    } else if pct >= 50 {
        "bat_mid"@
    } else if pct >= 30 {
        "bat_low"@
    } else {
        "bat_empty"@
    }
}

/// The battery text: `<pct>%`, then ` <time>` when time is shown and known.
pub open spec fn battery_text(cfg: Config, s: BatterySample, pct: int) -> Seq<char> {
    let charging = s.status@ == "Charging"@;
    let base = dec_int(pct) + "%"@;
    if cfg.modules.battery.show_time {
        match time_left(s, charging) {
            Some((h, m)) => base + " "@ + time_view(h, m, cfg.modules.battery.time_format),
            None => base,
        }
    } else {
        base
    }
}

/// The sample's arithmetic stays in `i64` for this config.
pub open spec fn battery_in_range(cfg: Config, s: BatterySample) -> bool {
    cfg.modules.battery.show_time ==> time_in_range(s, s.status@ == "Charging"@)
}

/// Whether `battery_block` can be called on this sample.
pub fn battery_fits(cfg: &Config, s: &BatterySample) -> (r: bool)
    ensures
        r == battery_in_range(*cfg, *s),
{
    if !cfg.modules.battery.show_time {
        return true;
    }
    let charging = str_eq(s.status.as_str(), "Charging");
    let rate = match s.power_now {
        Some(p) => Some(p),
        None => s.current_now,
    };
    let level = match (s.energy_now, s.energy_full) {
        (Some(n), Some(f)) => Some((n, f)),
        _ => match (s.charge_now, s.charge_full) {
            (Some(n), Some(f)) => Some((n, f)),
            _ => None,
        },
    };
    match (rate, level) {
        (Some(r), Some((n, f))) => {
            if r > 0 && charging {
                f.checked_sub(n).is_some()
            } else {
                true
            }
        },
        _ => true,
    }
}

/// The battery block: icon and percentage (and time left when configured);
/// while discharging (not charging, not full) it turns `colors.urgent` and
/// urgent at or below `crit`, else `colors.warn` at or below `warn`. Nothing
/// when no percentage can be read.
pub fn battery_block(cfg: &Config, icons: &Icons, s: &BatterySample) -> (r: Option<Block>)
    requires
        battery_in_range(*cfg, *s),
    ensures
        battery_pct(*s) is None <==> r is None,
        r matches Some(b) ==> {
            let pct = battery_pct(*s)->0;
            let charging = s.status@ == "Charging"@;
            let text = icon_text_view(glyph(*icons, battery_icon_key(charging, pct)), battery_text(*cfg, *s, pct));
            let discharging = !charging && s.status@ != "Full"@;
            if discharging && pct <= cfg.modules.battery.crit {
                b.urgent && (b.color matches Some(c) && c@ == color_or(cfg.colors.urgent, "#f38ba8"@))
                    && is_plain_block(Block { color: None, urgent: false, ..b }, text)
            } else if discharging && pct <= cfg.modules.battery.warn {
                (b.color matches Some(c) && c@ == color_or(cfg.colors.warn, "#f9e2af"@))
                    && is_plain_block(Block { color: None, ..b }, text)
            } else {
                is_plain_block(b, text)
            }
        },
{
    let pct: i64 = match s.capacity {
        Some(c) => c,
        None => match (s.energy_now, s.energy_full) {
            (Some(n), Some(f)) => {
                let nm = n / 1000;
                let fm = f / 1000;
                if fm <= 0 {
                    return None;
                }
                assert(nm * 100 <= i64::MAX && nm * 100 >= i64::MIN);
                (nm * 100) / fm
            },
            _ => return None,
        },
    };
    let charging = str_eq(s.status.as_str(), "Charging");
    let icon = if charging {
        icons.get("bat_charging")
    } else if pct >= 90 {
        icons.get("bat_full")
    } else if pct >= 70 {
        icons.get("bat_high")
    } else if pct >= 50 {
        icons.get("bat_mid")
    } else if pct >= 30 {
        icons.get("bat_low")
    } else {
        icons.get("bat_empty")
    };
    let n = i64_string(pct);
    let mut text = concat(n.as_str(), "%");
    if cfg.modules.battery.show_time {
        match time_remaining(s, charging) {
            Some((h, m)) => {
                let t = format_time(h, m, cfg.modules.battery.time_format);
                let with_space = concat(text.as_str(), " ");
                text = concat(with_space.as_str(), t.as_str());
            },
            None => {},
        }
    }
    let mut block = Block::icon_text(icon, text.as_str());
    if !charging && !str_eq(s.status.as_str(), "Full") {
        if pct <= cfg.modules.battery.crit {
            block = block.with_color(cfg.colors.urgent()).with_urgent();
        } else if pct <= cfg.modules.battery.warn {
            block = block.with_color(cfg.colors.warn());
        }
    }
    Some(block)
}

// ---------------------------------------------------------------------------
// Disk
// ---------------------------------------------------------------------------

/// One mounted filesystem's size and what is left of it.
pub struct DiskUsage {
    pub mount: String,
    /// Total and available bytes.
    pub total: u64,
    pub avail: u64,
    /// Used share of the total, in whole percent.
    pub pct: i64,
}

/// Used bytes: the total minus what is available, at least 0.
pub open spec fn used_of(total: u64, avail: u64) -> nat {
    if total >= avail {
        (total - avail) as nat
    } else {
        0
    }
}

/// The used bytes of a filesystem of `total` bytes with `avail` available.
pub fn used_bytes(total: u64, avail: u64) -> (r: u64)
    ensures
        r == used_of(total, avail),
{
    total.saturating_sub(avail)
}

/// `<mount> <used> (<pct>%)`.
pub open spec fn disk_part(u: DiskUsage) -> Seq<char> {
    u.mount@ + " "@ + human_bytes_view(used_of(u.total, u.avail)) + " ("@ + dec_int(u.pct as int) + "%)"@
}

pub open spec fn disk_parts(us: Seq<DiskUsage>) -> Seq<Seq<char>> {
    us.map_values(|u: DiskUsage| disk_part(u))
}

/// The disk block: one `<mount> <used> (<pct>%)` part per readable mount,
/// joined by two spaces; nothing when no mount could be read.
pub fn disk_block(usages: &[DiskUsage]) -> (r: Option<Block>)
    ensures
        usages@.len() == 0 <==> r is None,
        r matches Some(b) ==> is_plain_block(b, join(disk_parts(usages@), "  "@)),
{
    if usages.len() == 0 {
        return None;
    }
    let mut parts: Vec<String> = Vec::new();
    let mut i: usize = 0;
    assert(strs(parts@) =~= disk_parts(usages@).take(0));
    while i < usages.len()
        invariant
            i <= usages@.len(),
            strs(parts@) == disk_parts(usages@).take(i as int),
        decreases usages.len() - i,
    {
        let u = &usages[i];
        let a = concat(u.mount.as_str(), " ");
        let h = human_bytes(used_bytes(u.total, u.avail));
        let b = concat(a.as_str(), h.as_str());
        let c = concat(b.as_str(), " (");
        let p = i64_string(u.pct);
        let d = concat(c.as_str(), p.as_str());
        let e = concat(d.as_str(), "%)");
        let ghost before = strs(parts@);
        parts.push(e);
        assert(strs(parts@) =~= before.push(disk_part(*u)));
        assert(disk_parts(usages@).take(i + 1) =~= disk_parts(usages@).take(i as int).push(disk_part(*u)));
        i += 1;
    }
    assert(disk_parts(usages@).take(i as int) =~= disk_parts(usages@));
    let text = join_strings(&parts, "  ");
    Some(Block::text(text.as_str()))
}

} // verus!

verus! {

/// The time left is the remaining level over the rate, counted in minutes:
/// with the rate taken from `power_now` (else `current_now`) and the level
/// pair from the energy files (else the charge files), what remains is
/// `full - now` while charging and `now` otherwise (never below 0); then
/// `hours * 60 + minutes` is that amount times 60 (at most `i64::MAX`) over
/// the rate, with `0 <= minutes < 60`. There is an estimate exactly when the
/// rate is positive and a level pair is there.
pub proof fn lemma_time_left_is_level_over_rate(s: BatterySample, charging: bool)
    ensures
        ({
            let has_rate = s.power_now is Some || s.current_now is Some;
            let rate: int = if s.power_now is Some {
                s.power_now->0 as int
            } else {
                s.current_now->0 as int
            };
            let energy = s.energy_now is Some && s.energy_full is Some;
            let has_level = energy || (s.charge_now is Some && s.charge_full is Some);
            let now: int = if energy { s.energy_now->0 as int } else { s.charge_now->0 as int };
            let full: int = if energy { s.energy_full->0 as int } else { s.charge_full->0 as int };
            let left: int = if charging {
                if full > now { full - now } else { 0 }
            } else {
                if now > 0 { now } else { 0 }
            };
            let minutes: int = if left * 60 > i64::MAX { i64::MAX as int } else { left * 60 };
            &&& (time_left(s, charging) is Some <==> has_rate && rate > 0 && has_level)
            &&& (time_left(s, charging) matches Some(hm) ==> {
                &&& 0 <= hm.1 < 60
                &&& 0 <= hm.0
                &&& hm.0 * 60 + hm.1 == minutes / rate
            })
        }),
{
    match (rate_of(s), level_of(s)) {
        (Some(r), Some((n, f))) => {
            if r > 0 {
                let remaining: int = if charging {
                    if f - n > 0 { f - n } else { 0 }
                } else {
                    if n > 0 { n as int } else { 0 }
                };
                let scaled = if remaining * 60 > i64::MAX { i64::MAX as int } else { remaining * 60 };
                let total = scaled / (r as int);
                assert(0 <= scaled <= i64::MAX);
                assert(0 <= total <= scaled) by (nonlinear_arith)
                    requires
                        0 <= scaled,
                        r > 0,
                        total == scaled / (r as int),
                ;
                assert(total == (total / 60) * 60 + total % 60);
            }
        },
        _ => {},
    }
}

} // verus!
