//! Network block. Shows every connected physical link (Wi-Fi and/or wired),
//! filtered by `modules.net.interfaces`, with SSID/signal, IPv4 address and
//! rx/tx rate. The link facts are gathered at the program's edge (sysfs,
//! `/proc/net/dev`, `iw`, `ip`); parsing their text and composing the block
//! happen here.
use vstd::prelude::*;

use crate::config::{color_or, Config, NetKind, SignalFmt};
use crate::icons::{glyph, Icons};
use crate::state::{icon_text_string, icon_text_view, is_plain_block, Block};
use crate::order::{by_pair, pair_views, sort_pairs};
use crate::text::{
    chars_eq, concat, dec_int, find, find_chars, from_chars, i64_string, join, join_strings, lines,
    lines_of, owned, parse_i64, parse_i64_chars, parse_u64, parse_u64_chars, pos, signed_digits_prefix,
    signed_digits_prefix_chars, slice_chars, str_eq, strs, to_chars, trim, trim_char, trim_char_chars,
    trim_chars, views, words, words_of,
};
use crate::util::{div_trunc, human_bytes_view, human_rate};

verus! {

/// What the edge gathered about one connected physical interface.
pub struct NetLink {
    pub dev: String,
    pub wireless: bool,
    /// Receive / transmit rate in bytes per second.
    pub rate_down: u64,
    pub rate_up: u64,
    /// IPv4 address (empty when unknown or not shown).
    pub ip: String,
    /// SSID and signal in dBm (wireless links only).
    pub ssid: String,
    pub signal: Option<i64>,
}

/// `"<icon> <text>"` with a single space between when the icon is non-empty
/// (the same rule as `Block::icon_text`, as a string).
pub fn icon_text_str(icon: &str, text: &str) -> (r: String)
    ensures
        r@ == icon_text_view(icon@, text@),
{
    icon_text_string(icon, text)
}

// ---------------------------------------------------------------------------
// `/proc/net/dev`
// ---------------------------------------------------------------------------

/// The words of `ws` that parse as `u64`, in order.
pub open spec fn parsed_u64s(ws: Seq<Seq<char>>) -> Seq<u64>
    decreases ws.len(),
{
    if ws.len() == 0 {
        seq![]
    } else {
        match parse_u64(ws[0]) {
            Some(v) => seq![v] + parsed_u64s(ws.drop_first()),
            None => parsed_u64s(ws.drop_first()),
        }
    }
}

/// The `(rx_bytes, tx_bytes)` counters of `dev` in the table lines `ls`: the
/// first line whose name (before `:`) is `dev`. A line without `:` ends the
/// search with nothing.
pub open spec fn dev_counters(ls: Seq<Seq<char>>, dev: Seq<char>) -> Option<(u64, u64)>
    decreases ls.len(),
{
    if ls.len() == 0 {
        None
    } else {
        let line = ls[0];
        let k = pos(line, ':');
        if k == line.len() {
            None
        } else if trim(line.take(k as int)) != dev {
            dev_counters(ls.drop_first(), dev)
        } else {
            let n = parsed_u64s(words(line.skip(k + 1int)));
            if n.len() > 8 {
                Some((n[0], n[8]))
            } else {
                None
            }
        }
    }
}

fn parse_u64_words(ws: &Vec<Vec<char>>) -> (r: Vec<u64>)
    ensures
        r@ == parsed_u64s(views(ws@)),
{
    let mut out: Vec<u64> = Vec::new();
    let mut i: usize = 0;
    assert(views(ws@).skip(0) =~= views(ws@));
    while i < ws.len()
        invariant
            i <= ws@.len(),
            parsed_u64s(views(ws@)) == out@ + parsed_u64s(views(ws@).skip(i as int)),
        decreases ws.len() - i,
    {
        let ghost rest = views(ws@).skip(i as int);
        assert(rest.drop_first() =~= views(ws@).skip(i + 1));
        assert(rest[0] == ws@[i as int]@);
        let ghost o = out@;
        match parse_u64_chars(&ws[i]) {
            Some(v) => {
                out.push(v);
                assert(o + (seq![v] + parsed_u64s(rest.drop_first())) =~= out@ + parsed_u64s(
                    rest.drop_first(),
                ));
            },
            None => {},
        }
        i += 1;
    }
    assert(views(ws@).skip(i as int) =~= seq![]);
    assert(out@ + seq![] =~= out@);
    out
}

/// The lines of `text` after its first two (none when it has fewer).
pub open spec fn after_header(text: Seq<char>) -> Seq<Seq<char>> {
    if lines(text).len() >= 2 {
        lines(text).skip(2)
    } else {
        seq![]
    }
}

/// `(rx_bytes, tx_bytes)` of `dev` from the text of `/proc/net/dev` (two
/// header lines, then one `name: rx... tx...` line per device; rx bytes is the
/// first number after the colon and tx bytes the ninth).
pub fn dev_bytes(dev: &str, proc_net_dev: &str) -> (r: Option<(u64, u64)>)
    ensures
        r == dev_counters(after_header(proc_net_dev@), dev@),
{
    let text = to_chars(proc_net_dev);
    let ls = lines_of(&text);
    let d = to_chars(dev);
    let mut i: usize = 2;
    if ls.len() < 2 {
        return None;
    }
    assert(views(ls@).skip(2) == after_header(proc_net_dev@));
    while i < ls.len()
        invariant
            2 <= i <= ls@.len(),
            d@ == dev@,
            views(ls@) == lines(proc_net_dev@),
            dev_counters(after_header(proc_net_dev@), dev@) == dev_counters(views(ls@).skip(i as int), dev@),
        decreases ls.len() - i,
    {
        let ghost rest = views(ls@).skip(i as int);
        assert(rest.drop_first() =~= views(ls@).skip(i + 1));
        assert(rest[0] == ls@[i as int]@);
        let line = &ls[i];
        let mut k: usize = 0;
        while k < line.len() && line[k] != ':'
            invariant
                k <= line@.len(),
                forall|m: int| 0 <= m < k ==> line@[m] != ':',
            decreases line.len() - k,
        {
            k += 1;
        }
        proof {
            lemma_pos_is(line@, ':', k as nat);
        }
        if k == line.len() {
            return None;
        }
        let name = trim_chars(&slice_chars(line, 0, k));
        if chars_eq(&name, &d) {
            let after = slice_chars(line, k + 1, line.len());
            assert(after@ =~= line@.skip(k + 1));
            let ws = words_of(&after);
            let n = parse_u64_words(&ws);
            if n.len() > 8 {
                return Some((n[0], n[8]));
            } else {
                return None;
            }
        }
        i += 1;
    }
    assert(views(ls@).skip(i as int) =~= seq![]);
    None
}

proof fn lemma_pos_is(s: Seq<char>, c: char, k: nat)
    requires
        k <= s.len(),
        forall|m: int| 0 <= m < k ==> s[m] != c,
        k < s.len() ==> s[k as int] == c,
    ensures
        pos(s, c) == k,
    decreases k,
{
    if k > 0 {
        lemma_pos_is(s.drop_first(), c, (k - 1) as nat);
    }
}


// ---------------------------------------------------------------------------
// `iw dev <dev> link`, `ip -4 -o addr show dev <dev>`
// ---------------------------------------------------------------------------

/// `(ssid, signal)` after reading the `iw` lines `ls`, given the values so
/// far. A line holding `SSID: ` sets the SSID to the rest of the line
/// (trimmed, surrounding quotes removed); otherwise a line holding `signal:`
/// sets the signal to the leading signed integer after it, when it parses.
pub open spec fn iw_fold(ls: Seq<Seq<char>>, ssid: Seq<char>, signal: Option<i64>) -> (Seq<char>, Option<i64>)
    decreases ls.len(),
{
    if ls.len() == 0 {
        (ssid, signal)
    } else {
        let t = trim(ls[0]);
        match find(t, "SSID: "@) {
            Some(i) => iw_fold(
                ls.drop_first(),
                trim_char(trim(t.skip((i + "SSID: "@.len()) as int)), '"'),
                signal,
            ),
            None => match find(t, "signal:"@) {
                Some(i) => match parse_i64(signed_digits_prefix(trim(t.skip((i + "signal:"@.len()) as int)))) {
                    Some(dbm) => iw_fold(ls.drop_first(), ssid, Some(dbm)),
                    None => iw_fold(ls.drop_first(), ssid, signal),
                },
                None => iw_fold(ls.drop_first(), ssid, signal),
            },
        }
    }
}

/// `(ssid, signal_dbm)` from the output of `iw dev <dev> link`; either may be
/// missing (empty SSID, no signal).
pub fn iw_link(out: &str) -> (r: (String, Option<i64>))
    ensures
        (r.0@, r.1) == iw_fold(lines(out@), seq![], None),
{
    let text = to_chars(out);
    let ls = lines_of(&text);
    let ssid_pat = to_chars("SSID: ");
    let sig_pat = to_chars("signal:");
    let mut ssid: Vec<char> = Vec::new();
    let mut signal: Option<i64> = None;
    let mut i: usize = 0;
    assert(views(ls@).skip(0) =~= views(ls@));
    while i < ls.len()
        invariant
            i <= ls@.len(),
            views(ls@) == lines(out@),
            ssid_pat@ == "SSID: "@,
            sig_pat@ == "signal:"@,
            iw_fold(lines(out@), seq![], None) == iw_fold(views(ls@).skip(i as int), ssid@, signal),
        decreases ls.len() - i,
    {
        let ghost rest = views(ls@).skip(i as int);
        assert(rest.drop_first() =~= views(ls@).skip(i + 1));
        assert(rest[0] == ls@[i as int]@);
        let t = trim_chars(&ls[i]);
        let tl = t.len();
        match find_chars(&t, &ssid_pat) {
            Some(idx) => {
                let after = slice_chars(&t, idx + ssid_pat.len(), tl);
                assert(after@ =~= t@.skip(idx + ssid_pat@.len()));
                ssid = trim_char_chars(&trim_chars(&after), '"');
            },
            None => match find_chars(&t, &sig_pat) {
                Some(idx) => {
                    let after = slice_chars(&t, idx + sig_pat.len(), tl);
                    assert(after@ =~= t@.skip(idx + sig_pat@.len()));
                    let num = signed_digits_prefix_chars(&trim_chars(&after));
                    match parse_i64_chars(&num) {
                        Some(dbm) => {
                            signal = Some(dbm);
                        },
                        None => {},
                    }
                },
                None => {},
            },
        }
        i += 1;
    }
    assert(views(ls@).skip(i as int) =~= seq![]);
    (from_chars(&ssid), signal)
}

/// The first IPv4 address in the lines `ls`: on a line holding `inet `, the
/// text after it up to the first `/`, when that is non-empty.
pub open spec fn first_ip4(ls: Seq<Seq<char>>) -> Option<Seq<char>>
    decreases ls.len(),
{
    if ls.len() == 0 {
        None
    } else {
        match find(ls[0], "inet "@) {
            Some(i) => {
                let rest = ls[0].skip((i + "inet "@.len()) as int);
                let addr = rest.take(pos(rest, '/') as int);
                if addr.len() > 0 {
                    Some(addr)
                } else {
                    first_ip4(ls.drop_first())
                }
            },
            None => first_ip4(ls.drop_first()),
        }
    }
}

/// The first IPv4 address (prefix length cut off) in the output of
/// `ip -4 -o addr show dev <dev>`.
pub fn ip4(out: &str) -> (r: Option<String>)
    ensures
        match first_ip4(lines(out@)) {
            Some(a) => r matches Some(s) && s@ == a,
            None => r is None,
        },
{
    let text = to_chars(out);
    let ls = lines_of(&text);
    let pat = to_chars("inet ");
    let mut i: usize = 0;
    assert(views(ls@).skip(0) =~= views(ls@));
    while i < ls.len()
        invariant
            i <= ls@.len(),
            views(ls@) == lines(out@),
            pat@ == "inet "@,
            first_ip4(lines(out@)) == first_ip4(views(ls@).skip(i as int)),
        decreases ls.len() - i,
    {
        let ghost rest_lines = views(ls@).skip(i as int);
        assert(rest_lines.drop_first() =~= views(ls@).skip(i + 1));
        assert(rest_lines[0] == ls@[i as int]@);
        let line = &ls[i];
        let ll = line.len();
        match find_chars(line, &pat) {
            Some(idx) => {
                assert(find(line@, "inet "@) == Some(idx as nat));
                let rest = slice_chars(line, idx + pat.len(), ll);
                assert(rest@ =~= line@.skip(idx + pat@.len()));
                let mut k: usize = 0;
                while k < rest.len() && rest[k] != '/'
                    invariant
                        k <= rest@.len(),
                        forall|m: int| 0 <= m < k ==> rest@[m] != '/',
                    decreases rest.len() - k,
                {
                    k += 1;
                }
                proof {
                    lemma_pos_is(rest@, '/', k as nat);
                }
                if k > 0 {
                    let addr = slice_chars(&rest, 0, k);
                    assert(addr@ =~= rest@.take(k as int));
                    assert(rest@ == line@.skip((idx + "inet "@.len()) as int));
                    assert(first_ip4(rest_lines) == Some(addr@));
                    return Some(from_chars(&addr));
                }
            },
            None => {},
        }
        i += 1;
    }
    assert(views(ls@).skip(i as int) =~= seq![]);
    None
}

// ---------------------------------------------------------------------------
// Composing the block
// ---------------------------------------------------------------------------

/// `dbm` is small enough that the percentage arithmetic stays in `i64`.
pub open spec fn signal_in_range(dbm: i64) -> bool {
    i64::MIN <= (dbm + 100) * 100 <= i64::MAX
}

/// Whether the percentage arithmetic of a dBm reading stays in `i64`.
pub fn signal_fits(dbm: i64) -> (r: bool)
    ensures
        r == signal_in_range(dbm),
{
    match dbm.checked_add(100) {
        Some(x) => x.checked_mul(100).is_some(),
        None => false,
    }
}

/// Signal percentage of a dBm reading: -100 dBm is 0 %, -40 dBm is 100 %,
/// linear in between, clamped to 0..=100.
pub open spec fn signal_pct(dbm: int) -> int {
    let p = div_trunc((dbm + 100) * 100, 60);
    if p < 0 {
        0
    } else if p > 100 {
        100
    } else {
        p
    }
}

/// The Wi-Fi icon key for a signal percentage.
pub open spec fn wifi_icon_key(pct: int) -> Seq<char> {
    if pct >= 80 {
        "wifi_excellent"@
    } else if pct >= 60 {
        "wifi_good"@
    } else if pct >= 40 {
        "wifi_fair"@
    } else if pct >= 20 {
        "wifi_weak"@
    } else {
        "wifi_off"@
    }
}

/// The signal text: `—` without a reading, else `<pct>%` or `<dbm>dBm`.
pub open spec fn signal_text(signal: Option<i64>, fmt: SignalFmt) -> Seq<char> {
    match signal {
        None => "—"@,
        Some(dbm) => match fmt {
            SignalFmt::Percent => dec_int(signal_pct(dbm as int)) + "%"@,
            SignalFmt::Dbm => dec_int(dbm as int) + "dBm"@,
        },
    }
}

/// The percentage a signal reading shows (0 without a reading).
pub open spec fn signal_value(signal: Option<i64>) -> int {
    match signal {
        None => 0,
        Some(dbm) => signal_pct(dbm as int),
    }
}

/// The icon key a signal reading shows.
pub open spec fn signal_icon_key(signal: Option<i64>) -> Seq<char> {
    match signal {
        None => "wifi_off"@,
        Some(dbm) => wifi_icon_key(signal_pct(dbm as int)),
    }
}

/// `(signal_percent, wifi_icon, display_text)` for a dBm reading.
pub fn signal_display<'a>(signal: Option<i64>, cfg: &Config, icons: &'a Icons) -> (r: (i64, &'a str, String))
    requires
        signal matches Some(d) ==> signal_in_range(d),
    ensures
        r.0 == signal_value(signal),
        r.1@ == glyph(*icons, signal_icon_key(signal)),
        r.2@ == signal_text(signal, cfg.modules.net.signal),
{
    match signal {
        None => (0, icons.get("wifi_off"), owned("—")),
        Some(dbm) => {
            let raw = (dbm + 100) * 100 / 60;
            assert(raw == div_trunc((dbm + 100) * 100, 60));
            let pct: i64 = if raw < 0 {
                0
            } else if raw > 100 {
                100
            } else {
                raw
            };
            let icon = if pct >= 80 {
                icons.get("wifi_excellent")
            } else if pct >= 60 {
                icons.get("wifi_good")
            } else if pct >= 40 {
                icons.get("wifi_fair")
            } else if pct >= 20 {
                icons.get("wifi_weak")
            } else {
                icons.get("wifi_off")
            };
            let text = match cfg.modules.net.signal {
                SignalFmt::Percent => {
                    let n = i64_string(pct);
                    concat(n.as_str(), "%")
                },
                SignalFmt::Dbm => {
                    let n = i64_string(dbm);
                    concat(n.as_str(), "dBm")
                },
            };
            (pct, icon, text)
        },
    }
}

/// The block color for a signal percentage: weak (1..=24 %) is worth a glance
/// (`colors.warn`); anything else keeps the default color.
pub open spec fn color_for_view(pct: int, cfg: Config) -> Seq<char> {
    if 0 < pct < 25 {
        color_or(cfg.colors.warn, "#f9e2af"@)
    } else {
        color_or(cfg.colors.default, "#cdd6f4"@)
    }
}

pub fn color_for(pct: i64, cfg: &Config) -> (r: &str)
    ensures
        r@ == color_for_view(pct as int, *cfg),
{
    if pct > 0 && pct < 25 {
        cfg.colors.warn()
    } else {
        cfg.colors.default_color()
    }
}

/// Bytes/sec below which a rate shows as `0B/s`: the configured KiB, saturated.
pub open spec fn threshold_view(cfg: Config) -> u64 {
    if cfg.modules.net.rate_threshold_kb * 1024 > u64::MAX {
        u64::MAX
    } else {
        (cfg.modules.net.rate_threshold_kb * 1024) as u64
    }
}

pub fn threshold_bps(cfg: &Config) -> (r: u64)
    ensures
        r == threshold_view(*cfg),
{
    match cfg.modules.net.rate_threshold_kb.checked_mul(1024) {
        Some(v) => v,
        None => u64::MAX,
    }
}

/// A rate as shown: `0B/s` below the threshold (no flickering sub-KiB
/// decimals), else the human-readable rate.
pub open spec fn rate_view(bps: u64, threshold: u64) -> Seq<char> {
    if bps < threshold {
        "0B/s"@
    } else {
        human_bytes_view(bps as nat) + "/s"@
    }
}

pub fn rate_str(bps: u64, threshold: u64) -> (r: String)
    ensures
        r@ == rate_view(bps, threshold),
{
    if bps < threshold {
        owned("0B/s")
    } else {
        human_rate(bps)
    }
}

/// `↓<down> ↑<up>`.
pub open spec fn rates_view(l: NetLink, thr: u64) -> Seq<char> {
    "↓"@ + rate_view(l.rate_down, thr) + " ↑"@ + rate_view(l.rate_up, thr)
}

fn rates_str(l: &NetLink, thr: u64) -> (r: String)
    ensures
        r@ == rates_view(*l, thr),
{
    let down = rate_str(l.rate_down, thr);
    let up = rate_str(l.rate_up, thr);
    let a = concat("↓", down.as_str());
    let b = concat(a.as_str(), " ↑");
    concat(b.as_str(), up.as_str())
}

/// The config asks for links of this kind.
pub open spec fn wants_view(cfg: Config, wireless: bool) -> bool {
    if wireless {
        cfg.modules.net.interfaces@.contains(NetKind::Wifi)
    } else {
        cfg.modules.net.interfaces@.contains(NetKind::Lan)
    }
}

/// Whether the config asks for links of this kind (`interfaces` holds
/// `"wifi"` for wireless links, `"lan"` for wired ones).
pub fn wants(cfg: &Config, wireless: bool) -> (r: bool)
    ensures
        r == wants_view(*cfg, wireless),
{
    let kinds = &cfg.modules.net.interfaces;
    let want = if wireless {
        NetKind::Wifi
    } else {
        NetKind::Lan
    };
    let mut i: usize = 0;
    while i < kinds.len()
        invariant
            i <= kinds@.len(),
            kinds@ == cfg.modules.net.interfaces@,
            want == (if wireless { NetKind::Wifi } else { NetKind::Lan }),
            forall|k: int| 0 <= k < i ==> kinds@[k] != want,
        decreases kinds.len() - i,
    {
        if kinds[i] == want {
            assert(kinds@[i as int] == want);
            assert(kinds@.contains(want));
            return true;
        }
        i += 1;
    }
    false
}

/// The parts of a link's segment, before joining: for Wi-Fi the SSID (when
/// known), the signal, the address (when shown and known) and the rates
/// (when shown); for wired links the device name, the address and the rates.
pub open spec fn segment_parts(l: NetLink, cfg: Config) -> Seq<Seq<char>> {
    let ip = if cfg.modules.net.show_ip && l.ip@.len() > 0 {
        seq![l.ip@]
    } else {
        seq![]
    };
    let rates = if cfg.modules.net.show_rate {
        seq![rates_view(l, threshold_view(cfg))]
    } else {
        seq![]
    };
    if l.wireless {
        (if l.ssid@.len() > 0 {
            seq![l.ssid@]
        } else {
            seq![]
        }) + seq![signal_text(l.signal, cfg.modules.net.signal)] + ip + rates
    } else {
        seq![l.dev@] + ip + rates
    }
}

/// One link's text: its icon, then its parts joined by two spaces.
pub open spec fn segment_view(l: NetLink, cfg: Config, icons: Icons) -> Seq<char> {
    let icon = if l.wireless {
        glyph(icons, signal_icon_key(l.signal))
    } else {
        glyph(icons, "wired"@)
    };
    icon_text_view(icon, join(segment_parts(l, cfg), "  "@))
}

fn segment(l: &NetLink, cfg: &Config, icons: &Icons) -> (r: String)
    requires
        l.signal matches Some(d) ==> signal_in_range(d),
    ensures
        r@ == segment_view(*l, *cfg, *icons),
{
    let thr = threshold_bps(cfg);
    let mut parts: Vec<String> = Vec::new();
    if l.wireless {
        let (_pct, icon, sig_text) = signal_display(l.signal, cfg, icons);
        if !l.ssid.as_str().is_empty() {
            parts.push(l.ssid.clone());
        }
        parts.push(sig_text);
        if cfg.modules.net.show_ip && !l.ip.as_str().is_empty() {
            parts.push(l.ip.clone());
        }
        if cfg.modules.net.show_rate {
            parts.push(rates_str(l, thr));
        }
        assert(strs(parts@) =~= segment_parts(*l, *cfg));
        let joined = join_strings(&parts, "  ");
        icon_text_str(icon, joined.as_str())
    } else {
        parts.push(l.dev.clone());
        if cfg.modules.net.show_ip && !l.ip.as_str().is_empty() {
            parts.push(l.ip.clone());
        }
        if cfg.modules.net.show_rate {
            parts.push(rates_str(l, thr));
        }
        assert(strs(parts@) =~= segment_parts(*l, *cfg));
        let joined = join_strings(&parts, "  ");
        icon_text_str(icons.get("wired"), joined.as_str())
    }
}

/// The segments of the wanted links, in order.
pub open spec fn segments(links: Seq<NetLink>, cfg: Config, icons: Icons) -> Seq<Seq<char>>
    decreases links.len(),
{
    if links.len() == 0 {
        seq![]
    } else {
        let rest = segments(links.drop_last(), cfg, icons);
        if wants_view(cfg, links.last().wireless) {
            rest.push(segment_view(links.last(), cfg, icons))
        } else {
            rest
        }
    }
}

/// The signal percentage of the last wanted wireless link, if any.
pub open spec fn last_wifi_pct(links: Seq<NetLink>, cfg: Config) -> Option<int>
    decreases links.len(),
{
    if links.len() == 0 {
        None
    } else if links.last().wireless && wants_view(cfg, true) {
        Some(signal_value(links.last().signal))
    } else {
        last_wifi_pct(links.drop_last(), cfg)
    }
}

/// Every link's signal reading is in range.
pub open spec fn signals_in_range(links: Seq<NetLink>) -> bool {
    forall|i: int| 0 <= i < links.len() ==> (#[trigger] links[i].signal matches Some(d) ==> signal_in_range(d))
}

/// The network block for the connected links: the wanted links' segments
/// joined by two spaces, colored by the Wi-Fi signal when a wanted wireless
/// link is present; nothing when no link is wanted.
pub fn build(cfg: &Config, icons: &Icons, links: &[NetLink]) -> (r: Option<Block>)
    requires
        signals_in_range(links@),
    ensures
        segments(links@, *cfg, *icons).len() == 0 <==> r is None,
        r matches Some(b) ==> {
            let text = join(segments(links@, *cfg, *icons), "  "@);
            match last_wifi_pct(links@, *cfg) {
                None => is_plain_block(b, text),
                Some(p) => b.color matches Some(c) && c@ == color_for_view(p, *cfg)
                    && is_plain_block(Block { color: None, ..b }, text),
            }
        },
{
    let mut segs: Vec<String> = Vec::new();
    let mut wifi_pct: Option<i64> = None;
    let mut i: usize = 0;
    assert(links@.take(0) =~= seq![]);
    assert(strs(segs@) =~= seq![]);
    while i < links.len()
        invariant
            i <= links@.len(),
            signals_in_range(links@),
            strs(segs@) == segments(links@.take(i as int), *cfg, *icons),
            match wifi_pct {
                None => last_wifi_pct(links@.take(i as int), *cfg) is None,
                Some(p) => last_wifi_pct(links@.take(i as int), *cfg) == Some(p as int),
            },
        decreases links.len() - i,
    {
        let ghost pre = links@.take(i as int);
        let ghost cur = links@.take(i + 1);
        assert(cur.drop_last() =~= pre);
        assert(cur.last() == links@[i as int]);
        let l = &links[i];
        if wants(cfg, l.wireless) {
            assert(l.signal matches Some(d) ==> signal_in_range(d));
            if l.wireless {
                let (pct, _icon, _text) = signal_display(l.signal, cfg, icons);
                wifi_pct = Some(pct);
            }
            let seg = segment(l, cfg, icons);
            let ghost before = strs(segs@);
            segs.push(seg);
            assert(strs(segs@) =~= before.push(segment_view(*l, *cfg, *icons)));
        }
        i += 1;
    }
    assert(links@.take(i as int) =~= links@);
    if segs.len() == 0 {
        return None;
    }
    let text = join_strings(&segs, "  ");
    let mut block = Block::text(text.as_str());
    match wifi_pct {
        Some(pct) => {
            block = block.with_color(color_for(pct, cfg));
        },
        None => {},
    }
    Some(block)
}

} // verus!

verus! {

// ---------------------------------------------------------------------------
// Which links to show
// ---------------------------------------------------------------------------

/// What the edge read about one entry of the network class.
pub struct NetEntry {
    pub name: String,
    /// Trimmed first line of `operstate` (empty when unreadable).
    pub operstate: String,
    /// The integer in `carrier`, when readable.
    pub carrier: Option<i64>,
    /// The canonical path of the `device` link, when it resolves.
    pub device: Option<String>,
    /// Whether the entry has a `wireless` directory.
    pub wireless: bool,
}

/// The entry is a physical link that is up: not loopback; operstate `up`
/// or carrier 1; a device that does not live under `/virtual/`.
pub open spec fn shown_link(e: NetEntry) -> bool {
    &&& e.name@ != "lo"@
    &&& e.operstate@ == "up"@ || e.carrier == Some(1i64)
    &&& e.device matches Some(d) && find(d@, "/virtual/"@) is None
}

/// `(name, wireless)` of the shown links of `es`, in list order.
pub open spec fn shown_links(es: Seq<NetEntry>) -> Seq<(Seq<char>, bool)>
    decreases es.len(),
{
    if es.len() == 0 {
        seq![]
    } else if shown_link(es.last()) {
        shown_links(es.drop_last()).push((es.last().name@, es.last().wireless))
    } else {
        shown_links(es.drop_last())
    }
}

/// `(name, wireless)` of every connected physical link, sorted by name.
pub fn physical_interfaces(entries: &[NetEntry]) -> (r: Vec<(String, bool)>)
    ensures
        r@.map_values(|p: (String, bool)| (p.0@, p.1)) == shown_links(entries@).sort_by(by_pair()),
{
    let mut found: Vec<(Vec<char>, bool)> = Vec::new();
    let virt = to_chars("/virtual/");
    let mut i: usize = 0;
    assert(entries@.take(0) =~= seq![]);
    assert(pair_views(found@) =~= seq![]);
    while i < entries.len()
        invariant
            i <= entries@.len(),
            virt@ == "/virtual/"@,
            pair_views(found@) == shown_links(entries@.take(i as int)),
        decreases entries.len() - i,
    {
        let ghost t = entries@.take(i + 1);
        assert(t.last() == entries@[i as int]);
        assert(t.drop_last() =~= entries@.take(i as int));
        let e = &entries[i];
        let up = str_eq(e.operstate.as_str(), "up") || match e.carrier {
            Some(c) => c == 1,
            None => false,
        };
        let physical = match &e.device {
            Some(d) => find_chars(&to_chars(d.as_str()), &virt).is_none(),
            None => false,
        };
        if !str_eq(e.name.as_str(), "lo") && up && physical {
            let ghost before = pair_views(found@);
            found.push((to_chars(e.name.as_str()), e.wireless));
            assert(pair_views(found@) =~= before.push((e.name@, e.wireless)));
        }
        i += 1;
    }
    assert(entries@.take(i as int) =~= entries@);
    let sorted = sort_pairs(found);
    let mut out: Vec<(String, bool)> = Vec::new();
    let mut j: usize = 0;
    assert(out@.map_values(|p: (String, bool)| (p.0@, p.1)) =~= pair_views(sorted@).take(0));
    while j < sorted.len()
        invariant
            j <= sorted@.len(),
            out@.map_values(|p: (String, bool)| (p.0@, p.1)) == pair_views(sorted@).take(j as int),
        decreases sorted.len() - j,
    {
        let ghost before = out@.map_values(|p: (String, bool)| (p.0@, p.1));
        let s = from_chars(&sorted[j].0);
        out.push((s, sorted[j].1));
        assert(out@.map_values(|p: (String, bool)| (p.0@, p.1)) =~= before.push((sorted@[j as int].0@, sorted@[j as int].1)));
        assert(pair_views(sorted@).take(j + 1) =~= pair_views(sorted@).take(j as int).push(pair_views(sorted@)[j as int]));
        j += 1;
    }
    assert(pair_views(sorted@).take(j as int) =~= pair_views(sorted@));
    out
}

} // verus!

verus! {

/// A signal reading is shown as a percentage from 0 to 100: -100 dBm and
/// weaker is 0 %, -40 dBm and stronger is 100 %.
pub proof fn lemma_signal_pct_bounds(dbm: int)
    ensures
        0 <= signal_pct(dbm) <= 100,
        dbm <= -100 ==> signal_pct(dbm) == 0,
        dbm >= -40 ==> signal_pct(dbm) == 100,
{
    let x = (dbm + 100) * 100;
    if dbm <= -100 {
        assert(x <= 0);
        assert((-x) / 60 >= 0);
    } else if dbm >= -40 {
        assert(x >= 6000);
        assert(x / 60 >= 100);
    }
}

} // verus!

verus! {

/// With `show_ip` set, every link with a known address, wireless or wired,
/// shows that address as one of its segment's parts, right after the
/// signal (Wi-Fi) or the device name (wired).
pub proof fn lemma_shown_address_is_a_part(l: NetLink, cfg: Config)
    ensures
        cfg.modules.net.show_ip && l.ip@.len() > 0 ==> segment_parts(l, cfg).contains(l.ip@),
        cfg.modules.net.show_ip && l.ip@.len() > 0 && !l.wireless ==> segment_parts(l, cfg)[1] == l.ip@,
        cfg.modules.net.show_ip && l.ip@.len() > 0 && l.wireless ==> segment_parts(l, cfg)[
            if l.ssid@.len() > 0 { 2int } else { 1int }] == l.ip@,
{
    if cfg.modules.net.show_ip && l.ip@.len() > 0 {
        let parts = segment_parts(l, cfg);
        let k: int = if !l.wireless { 1 } else if l.ssid@.len() > 0 { 2 } else { 1 };
        assert(parts[k] == l.ip@);
        assert(0 <= k < parts.len());
    }
}

} // verus!
