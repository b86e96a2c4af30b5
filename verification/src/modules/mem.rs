//! Memory block from `/proc/meminfo`: `used = total - available`.
use vstd::prelude::*;

use crate::config::{Config, MemFormat};
use crate::icons::{glyph, Icons};
use crate::state::{icon_text_view, is_plain_block, Block};
use crate::text::{
    concat, is_prefix, lines, lines_of, parse_u64, parse_u64_chars, slice_chars, starts_with,
    to_chars, trim, trim_str, views, words, words_of,
};
use crate::util::{human_bytes, human_bytes_view};

verus! {

/// The first word of `s` as a `u64`, if there is one and it parses.
pub open spec fn first_word_u64(s: Seq<char>) -> Option<u64> {
    if words(s).len() == 0 {
        None
    } else {
        parse_u64(words(s)[0])
    }
}

/// What the last line of `ls` that starts with `key` says: the first word
/// after the key as a `u64` (`None` when it does not parse), or nothing at
/// all when no line starts with the key.
pub open spec fn keyed_value(ls: Seq<Seq<char>>, key: Seq<char>) -> Option<Option<u64>>
    decreases ls.len(),
{
    if ls.len() == 0 {
        None
    } else if is_prefix(key, ls.last()) {
        Some(first_word_u64(ls.last().skip(key.len() as int)))
    } else {
        keyed_value(ls.drop_last(), key)
    }
}

/// The value of `key` in the trimmed meminfo text: that of the last line
/// with the key, when it parses.
pub open spec fn meminfo_field(text: Seq<char>, key: Seq<char>) -> Option<u64> {
    match keyed_value(lines(trim(text)), key) {
        Some(v) => v,
        None => None,
    }
}

fn first_word_u64_of(v: &[char]) -> (r: Option<u64>)
    ensures
        r == first_word_u64(v@),
{
    let ws = words_of(v);
    if ws.len() == 0 {
        None
    } else {
        assert(views(ws@)[0] == ws@[0]@);
        parse_u64_chars(&ws[0])
    }
}

/// `(total_kb, available_kb)` from the text of `/proc/meminfo`: the
/// `MemTotal:` and `MemAvailable:` values. Nothing without a total; an
/// unknown available amount counts as 0.
pub fn meminfo(text: &str) -> (r: Option<(u64, u64)>)
    ensures
        match meminfo_field(text@, "MemTotal:"@) {
            None => r is None,
            Some(t) => r == Some(
                (
                    t,
                    match meminfo_field(text@, "MemAvailable:"@) {
                        Some(a) => a,
                        None => 0u64,
                    },
                ),
            ),
        },
{
    let trimmed = trim_str(text);
    let chars = to_chars(trimmed.as_str());
    let ls = lines_of(&chars);
    let total_key = to_chars("MemTotal:");
    let avail_key = to_chars("MemAvailable:");
    let ghost l = views(ls@);
    let mut total: Option<u64> = None;
    let mut avail: Option<u64> = None;
    let mut i: usize = 0;
    assert(l.take(0) =~= seq![]);
    while i < ls.len()
        invariant
            i <= ls@.len(),
            l == views(ls@),
            l == lines(trim(text@)),
            total_key@ == "MemTotal:"@,
            avail_key@ == "MemAvailable:"@,
            total == (match keyed_value(l.take(i as int), "MemTotal:"@) {
                Some(v) => v,
                None => None,
            }),
            avail == (match keyed_value(l.take(i as int), "MemAvailable:"@) {
                Some(v) => v,
                None => None,
            }),
        decreases ls.len() - i,
    {
        let line = &ls[i];
        let ghost t = l.take(i + 1);
        assert(t.last() == line@);
        assert(t.drop_last() =~= l.take(i as int));
        if starts_with(line, &total_key) {
            let rest = slice_chars(line, total_key.len(), line.len());
            assert(rest@ =~= line@.skip(total_key@.len() as int));
            total = first_word_u64_of(&rest);
        }
        if starts_with(line, &avail_key) {
            let rest = slice_chars(line, avail_key.len(), line.len());
            assert(rest@ =~= line@.skip(avail_key@.len() as int));
            avail = first_word_u64_of(&rest);
        }
        i += 1;
    }
    assert(l.take(i as int) =~= l);
    match total {
        None => None,
        Some(t) => Some(
            (
                t,
                match avail {
                    Some(a) => a,
                    None => 0,
                },
            ),
        ),
    }
}

/// The memory block's text: the used amount (`total - available`, at least
/// 0), and with `used_total` also `/<total>`, each humanized from KiB.
pub open spec fn mem_text(fmt: MemFormat, total_kb: u64, avail_kb: u64) -> Seq<char> {
    let used_kb: nat = if total_kb >= avail_kb { (total_kb - avail_kb) as nat } else { 0 };
    let used = human_bytes_view(used_kb * 1024);
    match fmt {
        MemFormat::Used => used,
        MemFormat::UsedTotal => used + "/"@ + human_bytes_view(total_kb as nat * 1024),
    }
}

/// The configured memory icon, or the pack's `mem` glyph when none is set.
pub open spec fn mem_icon(cfg: Config, icons: Icons) -> Seq<char> {
    if cfg.modules.mem.icon@.len() == 0 {
        glyph(icons, "mem"@)
    } else {
        cfg.modules.mem.icon@
    }
}

/// The memory block: `<icon> <used>` or `<icon> <used>/<total>`.
pub fn mem_block(cfg: &Config, icons: &Icons, total_kb: u64, avail_kb: u64) -> (b: Block)
    requires
        total_kb * 1024 <= u64::MAX,
    ensures
        is_plain_block(
            b,
            icon_text_view(mem_icon(*cfg, *icons), mem_text(cfg.modules.mem.format, total_kb, avail_kb)),
        ),
{
    let used_kb = total_kb.saturating_sub(avail_kb);
    let used = human_bytes(used_kb * 1024);
    let body = match cfg.modules.mem.format {
        MemFormat::Used => used,
        MemFormat::UsedTotal => {
            let with_slash = concat(used.as_str(), "/");
            let total = human_bytes(total_kb * 1024);
            concat(with_slash.as_str(), total.as_str())
        },
    };
    let icon = if cfg.modules.mem.icon.as_str().is_empty() {
        icons.get("mem")
    } else {
        cfg.modules.mem.icon.as_str()
    };
    Block::icon_text(icon, body.as_str())
}

/// The memory block from the text of `/proc/meminfo`: nothing without a
/// `MemTotal:` value or when the total in bytes does not fit in `u64`.
pub fn produce(cfg: &Config, icons: &Icons, text: &str) -> (r: Option<Block>)
    ensures
        match meminfo_field(text@, "MemTotal:"@) {
            Some(t) if t * 1024 <= u64::MAX => r matches Some(b) && is_plain_block(
                b,
                icon_text_view(
                    mem_icon(*cfg, *icons),
                    mem_text(
                        cfg.modules.mem.format,
                        t,
                        match meminfo_field(text@, "MemAvailable:"@) {
                            Some(a) => a,
                            None => 0u64,
                        },
                    ),
                ),
            ),
            _ => r is None,
        },
{
    match meminfo(text) {
        Some((total, avail)) => {
            if total <= u64::MAX / 1024 {
                Some(mem_block(cfg, icons, total, avail))
            } else {
                None
            }
        },
        None => None,
    }
}

} // verus!

verus! {

/// The used amount shown is what is not available: it and the available
/// amount add up to the total (nothing is shown as used when more is
/// available than the total); with nothing available all of the total shows
/// as used; only the difference of the two counts matters; and `used_total`
/// appends the total to the used text.
pub proof fn lemma_mem_shows_total_minus_available(total_kb: u64, avail_kb: u64, more: u64)
    ensures
        avail_kb <= total_kb ==> exists|used_kb: nat|
            used_kb + avail_kb == total_kb && mem_text(MemFormat::Used, total_kb, avail_kb)
                == human_bytes_view(#[trigger] (used_kb * 1024)),
        avail_kb >= total_kb ==> mem_text(MemFormat::Used, total_kb, avail_kb) == human_bytes_view(0),
        mem_text(MemFormat::Used, total_kb, 0) == human_bytes_view(total_kb as nat * 1024),
        total_kb + more <= u64::MAX && avail_kb + more <= u64::MAX ==> mem_text(
            MemFormat::Used,
            (total_kb + more) as u64,
            (avail_kb + more) as u64,
        ) == mem_text(MemFormat::Used, total_kb, avail_kb),
        mem_text(MemFormat::UsedTotal, total_kb, avail_kb) == mem_text(MemFormat::Used, total_kb, avail_kb)
            + "/"@ + human_bytes_view(total_kb as nat * 1024),
{
    if avail_kb <= total_kb {
        let used_kb = (total_kb - avail_kb) as nat;
        assert(mem_text(MemFormat::Used, total_kb, avail_kb) == human_bytes_view(used_kb * 1024));
    }
}

} // verus!
