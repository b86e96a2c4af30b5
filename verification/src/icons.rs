//! Icon resolution: a built-in pack (nerd, emoji, unicode, none) or a custom
//! pack, overlaid by `[icons.overrides]`.
use vstd::prelude::*;

use crate::config::IconsConfig;
use crate::state::NameMap;
use crate::text::{owned, str_eq};

verus! {

/// The texts of a map of strings.
pub open spec fn texts(m: Map<Seq<char>, String>) -> Map<Seq<char>, Seq<char>> {
    m.map_values(|s: String| s@)
}

/// The glyph of `key` in `icons`, or the empty string when it has none.
pub open spec fn glyph(icons: Icons, key: Seq<char>) -> Seq<char> {
    if icons@.contains_key(key) {
        icons@[key]@
    } else {
        Seq::<char>::empty()
    }
}

/// Resolved icon table: every logical key maps to a glyph.
#[derive(Debug)]
pub struct Icons {
    map: NameMap<String>,
}

impl View for Icons {
    type V = Map<Seq<char>, String>;

    closed spec fn view(&self) -> Map<Seq<char>, String> {
        self.map@
    }
}

/// The built-in pack named `name`, or `None` for a name that is not built in
/// (a custom pack, read from `packs/<name>.toml`).
pub open spec fn builtin_pack(name: Seq<char>) -> Option<Map<Seq<char>, Seq<char>>> {
    if name == "nerd"@ {
        Some(nerd_glyphs())
    } else if name == "emoji"@ {
        Some(emoji_glyphs())
    } else if name == "unicode"@ {
        Some(unicode_glyphs())
    } else if name == "none"@ {
        Some(Map::empty())
    } else {
        None
    }
}

/// The built-in pack named `name`, if there is one.
pub fn pack_map(name: &str) -> (r: Option<NameMap<String>>)
    ensures
        match builtin_pack(name@) {
            Some(g) => r matches Some(m) && texts(m@) == g,
            None => r is None,
        },
{
    if str_eq(name, "nerd") {
        Some(nerd_pack())
    } else if str_eq(name, "emoji") {
        Some(emoji_pack())
    } else if str_eq(name, "unicode") {
        Some(unicode_pack())
    } else if str_eq(name, "none") {
        let m = NameMap::new();
        assert(texts(m@) =~= Map::empty());
        Some(m)
    } else {
        None
    }
}

impl Icons {
    /// Build the table: the configured pack first, then the per-key
    /// overrides on top. `custom` is the pack to use when `cfg.pack` names no
    /// built-in pack.
    pub fn build(cfg: &IconsConfig, custom: NameMap<String>) -> (icons: Icons)
        ensures
            match builtin_pack(cfg.pack@) {
                Some(g) => texts(icons@) == g.union_prefer_right(texts(cfg.overrides@)),
                None => icons@ == custom@.union_prefer_right(cfg.overrides@),
            },
    {
        let mut map = match pack_map(cfg.pack.as_str()) {
            Some(m) => m,
            None => custom,
        };
        let ghost base = map@;
        map.overlay(&cfg.overrides);
        assert(texts(map@) =~= texts(base).union_prefer_right(texts(cfg.overrides@)));
        Icons { map }
    }

    /// Glyph for `key`, or `""` when unset (renders as nothing).
    pub fn get(&self, key: &str) -> (r: &str)
        ensures
            r@ == glyph(*self, key@),
    {
        match self.map.get(key) {
            Some(v) => v.as_str(),
            None => {
                proof {
                    reveal_strlit("");
                }
                ""
            },
        }
    }
}

/// Nerd Font glyphs.
pub open spec fn nerd_glyphs() -> Map<Seq<char>, Seq<char>> {
    map![
        "cpu"@ => "\u{F2DB}"@,
        "mem"@ => "\u{EFC5}"@,
        "temp"@ => "\u{F2C9}"@,
        "bat_charging"@ => "\u{F0E7}"@,
        "bat_full"@ => "\u{F0079}"@,
        "bat_high"@ => "\u{F0082}"@,
        "bat_mid"@ => "\u{F007E}"@,
        "bat_low"@ => "\u{F007C}"@,
        "bat_empty"@ => "\u{F007A}"@,
        "vol_mute"@ => "\u{F0581}"@,
        "vol_low"@ => "\u{F026}"@,
        "vol_mid"@ => "\u{F027}"@,
        "vol_high"@ => "\u{F028}"@,
        "bri_low"@ => "\u{F00DE}"@,
        "bri_mid"@ => "\u{F00DF}"@,
        "bri_high"@ => "\u{F00E0}"@,
        "wifi_excellent"@ => "\u{F0928}"@,
        "wifi_good"@ => "\u{F0925}"@,
        "wifi_fair"@ => "\u{F0922}"@,
        "wifi_weak"@ => "\u{F091F}"@,
        "wifi_off"@ => "\u{F092F}"@,
        "wired"@ => "\u{F0200}"@,
        "bt_off"@ => "\u{F00B2}"@,
        "bt_on"@ => "\u{F293}"@,
        "bt_connected"@ => "\u{F293}"@,
        "lang"@ => ""@,
        "net_down"@ => "\u{2193}"@,
        "net_up"@ => "\u{2191}"@,
        "packages"@ => "\u{F04D3}"@,
        "vpn"@ => "\u{F0E9D}"@,
        "music"@ => "\u{F075A}"@
    ]
}

pub fn nerd_pack() -> (r: NameMap<String>)
    ensures
        texts(r@) == nerd_glyphs(),
{
    let mut m: NameMap<String> = NameMap::new();
    m.insert("cpu", owned("\u{F2DB}"));
    m.insert("mem", owned("\u{EFC5}"));
    m.insert("temp", owned("\u{F2C9}"));
    m.insert("bat_charging", owned("\u{F0E7}"));
    m.insert("bat_full", owned("\u{F0079}"));
    m.insert("bat_high", owned("\u{F0082}"));
    m.insert("bat_mid", owned("\u{F007E}"));
    m.insert("bat_low", owned("\u{F007C}"));
    m.insert("bat_empty", owned("\u{F007A}"));
    m.insert("vol_mute", owned("\u{F0581}"));
    m.insert("vol_low", owned("\u{F026}"));
    m.insert("vol_mid", owned("\u{F027}"));
    m.insert("vol_high", owned("\u{F028}"));
    m.insert("bri_low", owned("\u{F00DE}"));
    m.insert("bri_mid", owned("\u{F00DF}"));
    m.insert("bri_high", owned("\u{F00E0}"));
    m.insert("wifi_excellent", owned("\u{F0928}"));
    m.insert("wifi_good", owned("\u{F0925}"));
    m.insert("wifi_fair", owned("\u{F0922}"));
    m.insert("wifi_weak", owned("\u{F091F}"));
    m.insert("wifi_off", owned("\u{F092F}"));
    m.insert("wired", owned("\u{F0200}"));
    m.insert("bt_off", owned("\u{F00B2}"));
    m.insert("bt_on", owned("\u{F293}"));
    m.insert("bt_connected", owned("\u{F293}"));
    m.insert("lang", owned(""));
    m.insert("net_down", owned("\u{2193}"));
    m.insert("net_up", owned("\u{2191}"));
    m.insert("packages", owned("\u{F04D3}"));
    m.insert("vpn", owned("\u{F0E9D}"));
    m.insert("music", owned("\u{F075A}"));
    assert(texts(m@) =~= nerd_glyphs());
    m
}

/// Emoji glyphs.
pub open spec fn emoji_glyphs() -> Map<Seq<char>, Seq<char>> {
    map![
        "cpu"@ => "💻"@,
        "mem"@ => "🧠"@,
        "temp"@ => "🌡"@,
        "bat_charging"@ => "🔌"@,
        "bat_full"@ => "🔋"@,
        "bat_high"@ => "🔋"@,
        "bat_mid"@ => "🔋"@,
        "bat_low"@ => "🪫"@,
        "bat_empty"@ => "🪫"@,
        "vol_mute"@ => "🔇"@,
        "vol_low"@ => "🔈"@,
        "vol_mid"@ => "🔉"@,
        "vol_high"@ => "🔊"@,
        "bri_low"@ => "🌙"@,
        "bri_mid"@ => "⛅"@,
        "bri_high"@ => "☀️"@,
        "wifi_excellent"@ => "📶"@,
        "wifi_good"@ => "📶"@,
        "wifi_fair"@ => "📶"@,
        "wifi_weak"@ => "📶"@,
        "wifi_off"@ => "📴"@,
        "wired"@ => "🌐"@,
        "bt_off"@ => "⚪"@,
        "bt_on"@ => "🔵"@,
        "bt_connected"@ => "🟦"@,
        "lang"@ => "⌨ "@,
        "net_down"@ => "⬇"@,
        "net_up"@ => "⬆"@,
        "packages"@ => "📦"@,
        "vpn"@ => "🔒"@,
        "music"@ => "🎵"@
    ]
}

pub fn emoji_pack() -> (r: NameMap<String>)
    ensures
        texts(r@) == emoji_glyphs(),
{
    let mut m: NameMap<String> = NameMap::new();
    m.insert("cpu", owned("💻"));
    m.insert("mem", owned("🧠"));
    m.insert("temp", owned("🌡"));
    m.insert("bat_charging", owned("🔌"));
    m.insert("bat_full", owned("🔋"));
    m.insert("bat_high", owned("🔋"));
    m.insert("bat_mid", owned("🔋"));
    m.insert("bat_low", owned("🪫"));
    m.insert("bat_empty", owned("🪫"));
    m.insert("vol_mute", owned("🔇"));
    m.insert("vol_low", owned("🔈"));
    m.insert("vol_mid", owned("🔉"));
    m.insert("vol_high", owned("🔊"));
    m.insert("bri_low", owned("🌙"));
    m.insert("bri_mid", owned("⛅"));
    m.insert("bri_high", owned("☀️"));
    m.insert("wifi_excellent", owned("📶"));
    m.insert("wifi_good", owned("📶"));
    m.insert("wifi_fair", owned("📶"));
    m.insert("wifi_weak", owned("📶"));
    m.insert("wifi_off", owned("📴"));
    m.insert("wired", owned("🌐"));
    m.insert("bt_off", owned("⚪"));
    m.insert("bt_on", owned("🔵"));
    m.insert("bt_connected", owned("🟦"));
    m.insert("lang", owned("⌨ "));
    m.insert("net_down", owned("⬇"));
    m.insert("net_up", owned("⬆"));
    m.insert("packages", owned("📦"));
    m.insert("vpn", owned("🔒"));
    m.insert("music", owned("🎵"));
    assert(texts(m@) =~= emoji_glyphs());
    m
}

/// Plain Unicode glyphs and short labels.
pub open spec fn unicode_glyphs() -> Map<Seq<char>, Seq<char>> {
    map![
        "cpu"@ => "CPU "@,
        "mem"@ => "MEM "@,
        "temp"@ => "T:"@,
        "bat_charging"@ => "⚡"@,
        "bat_full"@ => "▓"@,
        "bat_high"@ => "▓"@,
        "bat_mid"@ => "▒"@,
        "bat_low"@ => "░"@,
        "bat_empty"@ => "·"@,
        "vol_mute"@ => "✗"@,
        "vol_low"@ => "▁"@,
        "vol_mid"@ => "▂"@,
        "vol_high"@ => "▃"@,
        "bri_low"@ => "◐"@,
        "bri_mid"@ => "◑"@,
        "bri_high"@ => "●"@,
        "wifi_excellent"@ => "▆"@,
        "wifi_good"@ => "▄"@,
        "wifi_fair"@ => "▃"@,
        "wifi_weak"@ => "▁"@,
        "wifi_off"@ => "✗"@,
        "wired"@ => "≡"@,
        "bt_off"@ => "BT"@,
        "bt_on"@ => "◉"@,
        "bt_connected"@ => "●"@,
        "lang"@ => ""@,
        "net_down"@ => "↓"@,
        "net_up"@ => "↑"@,
        "packages"@ => "PKG "@,
        "vpn"@ => "VPN "@,
        "music"@ => "♪"@
    ]
}

pub fn unicode_pack() -> (r: NameMap<String>)
    ensures
        texts(r@) == unicode_glyphs(),
{
    let mut m: NameMap<String> = NameMap::new();
    m.insert("cpu", owned("CPU "));
    m.insert("mem", owned("MEM "));
    m.insert("temp", owned("T:"));
    m.insert("bat_charging", owned("⚡"));
    m.insert("bat_full", owned("▓"));
    m.insert("bat_high", owned("▓"));
    m.insert("bat_mid", owned("▒"));
    m.insert("bat_low", owned("░"));
    m.insert("bat_empty", owned("·"));
    m.insert("vol_mute", owned("✗"));
    m.insert("vol_low", owned("▁"));
    m.insert("vol_mid", owned("▂"));
    m.insert("vol_high", owned("▃"));
    m.insert("bri_low", owned("◐"));
    m.insert("bri_mid", owned("◑"));
    m.insert("bri_high", owned("●"));
    m.insert("wifi_excellent", owned("▆"));
    m.insert("wifi_good", owned("▄"));
    m.insert("wifi_fair", owned("▃"));
    m.insert("wifi_weak", owned("▁"));
    m.insert("wifi_off", owned("✗"));
    m.insert("wired", owned("≡"));
    m.insert("bt_off", owned("BT"));
    m.insert("bt_on", owned("◉"));
    m.insert("bt_connected", owned("●"));
    m.insert("lang", owned(""));
    m.insert("net_down", owned("↓"));
    m.insert("net_up", owned("↑"));
    m.insert("packages", owned("PKG "));
    m.insert("vpn", owned("VPN "));
    m.insert("music", owned("♪"));
    assert(texts(m@) =~= unicode_glyphs());
    m
}

} // verus!

verus! {

/// The logical icon keys every glyph pack covers.
pub open spec fn icon_keys() -> Set<Seq<char>> {
    set![
        "cpu"@, "mem"@, "temp"@, "bat_charging"@, "bat_full"@, "bat_high"@, "bat_mid"@,
        "bat_low"@, "bat_empty"@, "vol_mute"@, "vol_low"@, "vol_mid"@, "vol_high"@,
        "bri_low"@, "bri_mid"@, "bri_high"@, "wifi_excellent"@, "wifi_good"@, "wifi_fair"@,
        "wifi_weak"@, "wifi_off"@, "wired"@, "bt_off"@, "bt_on"@, "bt_connected"@, "lang"@,
        "net_down"@, "net_up"@, "packages"@, "vpn"@, "music"@
    ]
}

/// The nerd, emoji and unicode packs each give a glyph for exactly the same
/// logical keys, so switching between them leaves no key unset.
pub proof fn lemma_glyph_packs_cover_same_keys()
    ensures
        nerd_glyphs().dom() == icon_keys(),
        emoji_glyphs().dom() == icon_keys(),
        unicode_glyphs().dom() == icon_keys(),
{
    assert(nerd_glyphs().dom() =~= icon_keys());
    assert(emoji_glyphs().dom() =~= icon_keys());
    assert(unicode_glyphs().dom() =~= icon_keys());
}

} // verus!
