//! CPU usage block from `/proc/stat`: the busy share of the jiffies elapsed
//! since the previous sample.
use vstd::prelude::*;

use crate::config::Config;
use crate::icons::{glyph, Icons};
use crate::modules::net::parsed_u64s;
use crate::state::{icon_text_view, is_plain_block, Block};
use crate::text::{
    concat, dec, first_line, lines_of, parse_u64_chars, to_chars, u64_string, views, words, words_of,
};

verus! {

/// The numbers after the first word of the first line (the aggregate `cpu`
/// line); `None` when there is no first line or no first word.
pub open spec fn stat_fields(text: Seq<char>) -> Option<Seq<u64>> {
    match first_line(text) {
        Some(l) => if words(l).len() == 0 {
            None
        } else {
            Some(parsed_u64s(words(l).drop_first()))
        },
        None => None,
    }
}

/// The `k`-th field, 0 when absent.
pub open spec fn field(f: Seq<u64>, k: int) -> int {
    if k < f.len() {
        f[k] as int
    } else {
        0
    }
}

/// Busy jiffies: user + nice + system + irq + softirq + steal.
pub open spec fn busy_of(f: Seq<u64>) -> int {
    field(f, 0) + field(f, 1) + field(f, 2) + field(f, 5) + field(f, 6) + field(f, 7)
}

/// Total jiffies: busy + idle + iowait.
pub open spec fn total_of(f: Seq<u64>) -> int {
    busy_of(f) + field(f, 3) + field(f, 4)
}

/// The numbers of the aggregate `cpu` line of `/proc/stat`.
pub fn stat_numbers(stat: &str) -> (r: Option<Vec<u64>>)
    ensures
        match stat_fields(stat@) {
            Some(f) => r matches Some(v) && v@ == f,
            None => r is None,
        },
{
    let text = to_chars(stat);
    let ls = lines_of(&text);
    if ls.len() == 0 {
        return None;
    }
    assert(views(ls@)[0] == ls@[0]@);
    let ws = words_of(&ls[0]);
    if ws.len() == 0 {
        return None;
    }
    let mut out: Vec<u64> = Vec::new();
    let mut i: usize = 1;
    let ghost w = views(ws@);
    assert(w.drop_first().skip(0) =~= w.drop_first());
    while i < ws.len()
        invariant
            1 <= i <= ws@.len(),
            w == views(ws@),
            parsed_u64s(w.drop_first()) == out@ + parsed_u64s(w.drop_first().skip(i - 1)),
        decreases ws.len() - i,
    {
        let ghost rest = w.drop_first().skip(i - 1);
        assert(rest.drop_first() =~= w.drop_first().skip(i as int));
        assert(rest[0] == ws@[i as int]@);
        let ghost o = out@;
        match parse_u64_chars(&ws[i]) {
            Some(v) => {
                out.push(v);
                assert(o + (seq![v] + parsed_u64s(rest.drop_first())) =~= out@ + parsed_u64s(
                    rest.drop_first(),
                ));
            },
            None => {},
        }
        i += 1;
    }
    assert(w.drop_first().skip(i - 1) =~= seq![]);
    assert(out@ + seq![] =~= out@);
    Some(out)
}

/// The sums fit in `u64`.
pub open spec fn jiffies_in_range(f: Seq<u64>) -> bool {
    total_of(f) <= u64::MAX
}

fn get_or_zero(f: &Vec<u64>, k: usize) -> (r: u64)
    ensures
        r == field(f@, k as int),
{
    if k < f.len() {
        f[k]
    } else {
        0
    }
}

/// Whether the jiffies of these fields can be summed.
pub fn jiffies_fit(f: &Vec<u64>) -> (r: bool)
    ensures
        r == jiffies_in_range(f@),
{
    let a = get_or_zero(f, 0);
    let b = get_or_zero(f, 1);
    let c = get_or_zero(f, 2);
    let d = get_or_zero(f, 5);
    let e = get_or_zero(f, 6);
    let g = get_or_zero(f, 7);
    let h = get_or_zero(f, 3);
    let k = get_or_zero(f, 4);
    let s1 = match a.checked_add(b) {
        Some(v) => v,
        None => return false,
    };
    let s2 = match s1.checked_add(c) {
        Some(v) => v,
        None => return false,
    };
    let s3 = match s2.checked_add(d) {
        Some(v) => v,
        None => return false,
    };
    let s4 = match s3.checked_add(e) {
        Some(v) => v,
        None => return false,
    };
    let s5 = match s4.checked_add(g) {
        Some(v) => v,
        None => return false,
    };
    let s6 = match s5.checked_add(h) {
        Some(v) => v,
        None => return false,
    };
    s6.checked_add(k).is_some()
}

/// `(total_jiffies, busy_jiffies)` of the aggregate line's fields: busy is
/// everything that is not idle or iowait.
pub fn read_jiffies(f: &Vec<u64>) -> (r: (u64, u64))
    requires
        jiffies_in_range(f@),
    ensures
        r.0 == total_of(f@),
        r.1 == busy_of(f@),
{
    let user = get_or_zero(f, 0);
    let nice = get_or_zero(f, 1);
    let system = get_or_zero(f, 2);
    let idle = get_or_zero(f, 3);
    let iowait = get_or_zero(f, 4);
    let irq = get_or_zero(f, 5);
    let softirq = get_or_zero(f, 6);
    let steal = get_or_zero(f, 7);
    let busy = user + nice + system + irq + softirq + steal;
    let total = busy + idle + iowait;
    (total, busy)
}

/// The usage percentage between two `(total, busy)` samples, rounded to
/// nearest: `(Δbusy * 100 + Δtotal / 2) / Δtotal`; nothing when no jiffies
/// elapsed. Both differences saturate at 0.
pub open spec fn usage_pct(prev: (u64, u64), cur: (u64, u64)) -> Option<int> {
    let dt = if cur.0 >= prev.0 { cur.0 - prev.0 } else { 0 };
    let du = if cur.1 >= prev.1 { cur.1 - prev.1 } else { 0 };
    if dt > 0 {
        Some((du * 100 + dt / 2) / dt)
    } else {
        None
    }
}

/// The rounding arithmetic stays in `u64`.
pub open spec fn usage_in_range(prev: (u64, u64), cur: (u64, u64)) -> bool {
    let dt = if cur.0 >= prev.0 { cur.0 - prev.0 } else { 0 };
    let du = if cur.1 >= prev.1 { cur.1 - prev.1 } else { 0 };
    du * 100 + dt / 2 <= u64::MAX
}

/// Whether `cpu_pct` can be called on these samples.
pub fn usage_fits(prev: (u64, u64), cur: (u64, u64)) -> (r: bool)
    ensures
        r == usage_in_range(prev, cur),
{
    let dt = cur.0.saturating_sub(prev.0);
    let du = cur.1.saturating_sub(prev.1);
    match du.checked_mul(100) {
        Some(x) => x.checked_add(dt / 2).is_some(),
        None => false,
    }
}

pub fn cpu_pct(prev: (u64, u64), cur: (u64, u64)) -> (r: Option<u64>)
    requires
        usage_in_range(prev, cur),
    ensures
        match usage_pct(prev, cur) {
            Some(p) => r == Some(p as u64),
            None => r is None,
        },
{
    let dt = cur.0.saturating_sub(prev.0);
    let du = cur.1.saturating_sub(prev.1);
    if dt > 0 {
        Some((du * 100 + dt / 2) / dt)
    } else {
        None
    }
}

/// The configured CPU icon, or the pack's `cpu` glyph when none is set.
pub open spec fn cpu_icon(cfg: Config, icons: Icons) -> Seq<char> {
    if cfg.modules.cpu.icon@.len() == 0 {
        glyph(icons, "cpu"@)
    } else {
        cfg.modules.cpu.icon@
    }
}

/// The CPU block for a usage percentage: `<icon> <pct>%`.
pub fn cpu_block(cfg: &Config, icons: &Icons, pct: u64) -> (b: Block)
    ensures
        is_plain_block(b, icon_text_view(cpu_icon(*cfg, *icons), dec(pct as nat) + "%"@)),
{
    let icon = if cfg.modules.cpu.icon.as_str().is_empty() {
        icons.get("cpu")
    } else {
        cfg.modules.cpu.icon.as_str()
    };
    let n = u64_string(pct);
    let t = concat(n.as_str(), "%");
    Block::icon_text(icon, t.as_str())
}

/// The CPU meter's state: the previous `(total, busy)` sample.
pub struct CpuMeter {
    pub prev: Option<(u64, u64)>,
}

impl CpuMeter {
    /// Take a new sample: the usage since the previous sample (none for the
    /// first sample, which only sets the baseline, or when no jiffies
    /// elapsed); the sample becomes the new baseline.
    pub fn tick(&mut self, cur: (u64, u64)) -> (r: Option<u64>)
        requires
            old(self).prev matches Some(p) ==> usage_in_range(p, cur),
        ensures
            final(self).prev == Some(cur),
            match old(self).prev {
                None => r is None,
                Some(p) => match usage_pct(p, cur) {
                    Some(x) => r == Some(x as u64),
                    None => r is None,
                },
            },
    {
        let r = match self.prev {
            Some(p) => cpu_pct(p, cur),
            None => None,
        };
        self.prev = Some(cur);
        r
    }
}

} // verus!

verus! {

/// Between two readings of the aggregate line in which no counter went
/// down, the usage is a percentage: at most 100.
pub proof fn lemma_usage_is_a_percentage(f0: Seq<u64>, f1: Seq<u64>)
    requires
        forall|k: int| 0 <= k < 8 ==> field(f0, k) <= #[trigger] field(f1, k),
        jiffies_in_range(f0),
        jiffies_in_range(f1),
    ensures
        usage_pct((total_of(f0) as u64, busy_of(f0) as u64), (total_of(f1) as u64, busy_of(f1) as u64))
            matches Some(p) ==> 0 <= p <= 100,
{
    assert(field(f0, 0) <= field(f1, 0) && field(f0, 1) <= field(f1, 1) && field(f0, 2) <= field(f1, 2));
    assert(field(f0, 3) <= field(f1, 3) && field(f0, 4) <= field(f1, 4) && field(f0, 5) <= field(f1, 5));
    assert(field(f0, 6) <= field(f1, 6) && field(f0, 7) <= field(f1, 7));
    assert(0 <= field(f0, 0) && 0 <= field(f0, 3) && 0 <= field(f0, 4));
    let dt = total_of(f1) - total_of(f0);
    let du = busy_of(f1) - busy_of(f0);
    assert(0 <= du <= dt);
    if dt > 0 {
        assert((du * 100 + dt / 2) / dt <= 100) by (nonlinear_arith)
            requires
                0 <= du <= dt,
                dt > 0,
        {
            assert(du * 100 + dt / 2 < 101 * dt);
        }
    }
}

} // verus!

verus! {

/// Busy time is user, nice, system, irq, softirq and steal (fields 0, 1, 2,
/// 5, 6, 7); idle and iowait (fields 3, 4) are the rest of the total. So
/// between two readings in which only idle or iowait grew the usage is 0 %,
/// and when idle and iowait stayed put while any other counter grew it is
/// 100 %.
pub proof fn lemma_busy_and_idle_counters(f0: Seq<u64>, f1: Seq<u64>)
    ensures
        busy_of(f1) == field(f1, 0) + field(f1, 1) + field(f1, 2) + field(f1, 5) + field(f1, 6) + field(f1, 7),
        total_of(f1) == busy_of(f1) + field(f1, 3) + field(f1, 4),
        jiffies_in_range(f0) && jiffies_in_range(f1)
            && (forall|k: int| 0 <= k < 8 ==> field(f0, k) <= #[trigger] field(f1, k))
            && (forall|k: int| 0 <= k < 8 && k != 3 && k != 4 ==> field(f0, k) == #[trigger] field(f1, k))
            && (field(f0, 3) < field(f1, 3) || field(f0, 4) < field(f1, 4))
            ==> usage_pct((total_of(f0) as u64, busy_of(f0) as u64), (total_of(f1) as u64, busy_of(f1) as u64))
            == Some(0int),
        jiffies_in_range(f0) && jiffies_in_range(f1)
            && (forall|k: int| 0 <= k < 8 ==> field(f0, k) <= #[trigger] field(f1, k))
            && field(f0, 3) == field(f1, 3) && field(f0, 4) == field(f1, 4)
            && busy_of(f0) < busy_of(f1)
            ==> usage_pct((total_of(f0) as u64, busy_of(f0) as u64), (total_of(f1) as u64, busy_of(f1) as u64))
            == Some(100int),
{
    let a = jiffies_in_range(f0) && jiffies_in_range(f1)
        && (forall|k: int| 0 <= k < 8 ==> field(f0, k) <= #[trigger] field(f1, k));
    if a {
        assert(field(f0, 0) <= field(f1, 0) && field(f0, 1) <= field(f1, 1) && field(f0, 2) <= field(f1, 2));
        assert(field(f0, 3) <= field(f1, 3) && field(f0, 4) <= field(f1, 4) && field(f0, 5) <= field(f1, 5));
        assert(field(f0, 6) <= field(f1, 6) && field(f0, 7) <= field(f1, 7));
        assert(0 <= field(f0, 0) && 0 <= field(f0, 3) && 0 <= field(f0, 4));
        let dt = total_of(f1) - total_of(f0);
        let du = busy_of(f1) - busy_of(f0);
        if (forall|k: int| 0 <= k < 8 && k != 3 && k != 4 ==> field(f0, k) == #[trigger] field(f1, k))
            && (field(f0, 3) < field(f1, 3) || field(f0, 4) < field(f1, 4)) {
            assert(field(f0, 0) == field(f1, 0) && field(f0, 1) == field(f1, 1) && field(f0, 2) == field(f1, 2));
            assert(field(f0, 5) == field(f1, 5) && field(f0, 6) == field(f1, 6) && field(f0, 7) == field(f1, 7));
            assert(du == 0 && dt > 0);
            assert((dt / 2) / dt == 0) by (nonlinear_arith)
                requires
                    dt > 0,
            ;
        }
        if field(f0, 3) == field(f1, 3) && field(f0, 4) == field(f1, 4) && busy_of(f0) < busy_of(f1) {
            assert(du == dt && dt > 0);
            assert((dt * 100 + dt / 2) / dt == 100) by (nonlinear_arith)
                requires
                    dt > 0,
            {
                assert(dt * 100 + dt / 2 == 100 * dt + dt / 2);
                assert(dt / 2 < dt);
            }
        }
    }
}

} // verus!
