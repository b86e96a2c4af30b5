//! Small helpers: reading integers from sysfs/proc text, glob matching of
//! sysfs names, and human-readable byte counts.
use vstd::prelude::*;

use crate::order::{by_lex, sort_lex};
use crate::text::{
    concat, dec, digit_char, first_line, from_chars, lines_of, parse_i64, parse_i64_chars, strs,
    to_chars, trim, trim_chars, u64_dec, views,
};

verus! {

// ---------------------------------------------------------------------------
// Integers from sysfs/proc text
// ---------------------------------------------------------------------------

/// The integer on the first line of `text`, trimmed.
pub open spec fn first_line_int(text: Seq<char>) -> Option<i64> {
    match first_line(text) {
        Some(l) => parse_i64(trim(l)),
        None => None,
    }
}

/// `a / b` rounded toward zero, as Rust's integer division does.
pub open spec fn div_trunc(a: int, b: int) -> int {
    if a >= 0 {
        a / b
    } else {
        -((-a) / b)
    }
}

/// The integer a sysfs value file holds (e.g. `temp`, `capacity`): its first
/// line, trimmed, as an `i64`. `text` is the file's content.
pub fn read_int(text: &str) -> (r: Option<i64>)
    ensures
        r == first_line_int(text@),
{
    let v = to_chars(text);
    let ls = lines_of(&v);
    if ls.len() == 0 {
        return None;
    }
    assert(views(ls@)[0] == ls@[0]@);
    let t = trim_chars(&ls[0]);
    parse_i64_chars(&t)
}

/// The first line of a small sysfs/proc file, trimmed; nothing when the file
/// has no line. `text` is the file's content.
pub fn read_first_line(text: &str) -> (r: Option<String>)
    ensures
        match first_line(text@) {
            Some(l) => r matches Some(s) && s@ == trim(l),
            None => r is None,
        },
{
    let v = to_chars(text);
    let ls = lines_of(&v);
    if ls.len() == 0 {
        return None;
    }
    assert(views(ls@)[0] == ls@[0]@);
    let t = trim_chars(&ls[0]);
    Some(from_chars(&t))
}

/// A sysfs value in milli-units (e.g. temperature in millidegrees), converted
/// to the base unit, rounding toward zero.
pub fn read_milli(text: &str) -> (r: Option<i64>)
    ensures
        match first_line_int(text@) {
            Some(v) => r == Some(div_trunc(v as int, 1000) as i64),
            None => r is None,
        },
{
    match read_int(text) {
        Some(v) => Some(v / 1000),
        None => None,
    }
}

// ---------------------------------------------------------------------------
// Glob matching
// ---------------------------------------------------------------------------

/// `name` matches the pattern `p`, in which `*` stands for any run of
/// characters, `?` for any one character, and every other character for
/// itself.
pub open spec fn glob(p: Seq<char>, name: Seq<char>) -> bool
    decreases p.len(), name.len() + 2,
{
    if p.len() == 0 {
        name.len() == 0
    } else if p[0] == '*' {
        glob_from(p.drop_first(), name, 0)
    } else if p[0] == '?' {
        name.len() > 0 && glob(p.drop_first(), name.drop_first())
    } else {
        name.len() > 0 && name[0] == p[0] && glob(p.drop_first(), name.drop_first())
    }
}

/// `rest` matches `name.skip(k)` for some `k` with `from <= k <= name.len()`:
/// what a leading `*` followed by `rest` needs.
pub open spec fn glob_from(rest: Seq<char>, name: Seq<char>, from: nat) -> bool
    decreases rest.len() + 1, name.len() + 1 - from,
{
    if from > name.len() {
        false
    } else {
        glob(rest, name.skip(from as int)) || glob_from(rest, name, from + 1)
    }
}

proof fn lemma_glob_from_exists(rest: Seq<char>, name: Seq<char>, from: nat)
    ensures
        glob_from(rest, name, from) <==> exists|k: int|
            from <= k <= name.len() && #[trigger] glob(rest, name.skip(k)),
    decreases name.len() + 1 - from,
{
    if from <= name.len() {
        lemma_glob_from_exists(rest, name, from + 1);
        let f = from as int;
        if glob(rest, name.skip(f)) {
            assert(from <= f <= name.len() && glob(rest, name.skip(f)));
        }
        if glob_from(rest, name, from + 1) {
            let k = choose|k: int| from + 1 <= k <= name.len() && #[trigger] glob(rest, name.skip(k));
            assert(glob(rest, name.skip(k)));
        }
        if exists|k: int| from <= k <= name.len() && #[trigger] glob(rest, name.skip(k)) {
            let k = choose|k: int| from <= k <= name.len() && #[trigger] glob(rest, name.skip(k));
            if k > from {
                assert(glob(rest, name.skip(k)));
            }
        }
    }
}

/// A leading `*` matches when the rest of the pattern matches some suffix.
pub proof fn lemma_glob_star(p: Seq<char>, name: Seq<char>)
    requires
        p.len() > 0,
        p[0] == '*',
    ensures
        glob(p, name) <==> exists|k: int| 0 <= k <= name.len() && #[trigger] glob(p.drop_first(), name.skip(k)),
{
    lemma_glob_from_exists(p.drop_first(), name, 0);
}

/// `*` alone matches every name.
pub proof fn lemma_glob_star_matches_all(name: Seq<char>)
    ensures
        glob(seq!['*'], name),
{
    lemma_glob_star(seq!['*'], name);
    assert(name.skip(name.len() as int) =~= seq![]);
    assert(seq!['*'].drop_first() =~= seq![]);
    assert(glob(seq!['*'].drop_first(), name.skip(name.len() as int)));
}

/// `?` matches exactly one character, whatever it is.
pub proof fn lemma_glob_question(c: char, rest: Seq<char>)
    ensures
        glob(seq!['?'], seq![c]),
        glob(seq!['?'], rest) <==> rest.len() == 1,
{
    let p = seq!['?'];
    assert(p[0] == '?' && p.len() == 1);
    assert(p.drop_first() =~= seq![]);
    assert(seq![c].drop_first() =~= seq![]);
    assert(glob(p.drop_first(), seq![c].drop_first()));
    if rest.len() > 0 {
        assert(glob(p.drop_first(), rest.drop_first()) <==> rest.drop_first().len() == 0);
    }
}

/// A pattern without `*` and `?` matches exactly the name spelled like it.
pub proof fn lemma_glob_literal(p: Seq<char>, name: Seq<char>)
    requires
        !p.contains('*'),
        !p.contains('?'),
    ensures
        glob(p, name) <==> p == name,
    decreases p.len(),
{
    if p.len() == 0 {
        if name.len() == 0 {
            assert(p =~= name);
        }
    } else {
        assert(p[0] != '*' && p[0] != '?') by {
            assert(p.contains(p[0]) || true);
        }
        let q = p.drop_first();
        assert(!q.contains('*') && !q.contains('?')) by {
            if q.contains('*') {
                let j = choose|j: int| 0 <= j < q.len() && q[j] == '*';
                assert(p[j + 1] == '*');
            }
            if q.contains('?') {
                let j = choose|j: int| 0 <= j < q.len() && q[j] == '?';
                assert(p[j + 1] == '?');
            }
        }
        if name.len() > 0 {
            lemma_glob_literal(q, name.drop_first());
            if p == name {
                assert(q == name.drop_first());
            }
            if name[0] == p[0] && q == name.drop_first() {
                assert forall|i: int| 0 <= i < p.len() implies p[i] == name[i] by {
                    if i > 0 {
                        assert(p[i] == q[i - 1] && name[i] == name.drop_first()[i - 1]);
                    }
                }
                assert(p.len() == name.len());
                assert(p =~= name);
            }
        }
    }
}

/// `prefix*` (with no other `*` or `?`) matches exactly the names that start
/// with `prefix`, as the VPN link patterns `wg*`, `tun*`, ... do.
pub proof fn lemma_glob_prefix(prefix: Seq<char>, name: Seq<char>)
    requires
        !prefix.contains('*'),
        !prefix.contains('?'),
    ensures
        glob(prefix + seq!['*'], name) <==> crate::text::is_prefix(prefix, name),
    decreases prefix.len(),
{
    if prefix.len() == 0 {
        assert(prefix + seq!['*'] =~= seq!['*']);
        lemma_glob_star_matches_all(name);
        assert(name.take(0) =~= prefix);
    } else {
        let p = prefix + seq!['*'];
        assert(p[0] == prefix[0]);
        assert(prefix[0] != '*' && prefix[0] != '?') by {
            assert(prefix.contains(prefix[0]) || true);
        }
        let q = prefix.drop_first();
        assert(!q.contains('*') && !q.contains('?')) by {
            if q.contains('*') {
                let j = choose|j: int| 0 <= j < q.len() && q[j] == '*';
                assert(prefix[j + 1] == '*');
            }
            if q.contains('?') {
                let j = choose|j: int| 0 <= j < q.len() && q[j] == '?';
                assert(prefix[j + 1] == '?');
            }
        }
        assert(p.drop_first() =~= q + seq!['*']);
        if name.len() > 0 {
            lemma_glob_prefix(q, name.drop_first());
            if crate::text::is_prefix(prefix, name) {
                assert(name.drop_first().take(q.len() as int) =~= name.take(prefix.len() as int).drop_first());
            }
            if name[0] == prefix[0] && crate::text::is_prefix(q, name.drop_first()) {
                assert(name.take(prefix.len() as int) =~= seq![name[0]] + name.drop_first().take(q.len() as int));
                assert(prefix =~= seq![prefix[0]] + q);
            }
        }
    }
}

fn glob_rec(p: &[char], pi: usize, n: &[char], ni: usize) -> (r: bool)
    requires
        pi <= p@.len(),
        ni <= n@.len(),
    ensures
        r == glob(p@.skip(pi as int), n@.skip(ni as int)),
    decreases p@.len() - pi,
{
    let ghost ps = p@.skip(pi as int);
    let ghost ns = n@.skip(ni as int);
    let plen = p.len();
    let nlen = n.len();
    if pi == plen {
        return ni == nlen;
    }
    assert(ps.drop_first() =~= p@.skip(pi + 1));
    assert(ps[0] == p@[pi as int]);
    if p[pi] == '*' {
        assert(ps.len() > 0 && ps[0] == '*');
        let ghost q = ps.drop_first();
        let mut skip = ni;
        assert(ns.skip(0) =~= ns);
        while skip < nlen
            invariant
                plen == p@.len(),
                nlen == n@.len(),
                ni <= skip <= n@.len(),
                pi < p@.len(),
                ps == p@.skip(pi as int),
                ns == n@.skip(ni as int),
                q == p@.skip(pi + 1),
                glob(ps, ns) == glob_from(q, ns, (skip - ni) as nat),
            decreases n@.len() - skip,
        {
            assert(ns.skip(skip - ni) =~= n@.skip(skip as int));
            if glob_rec(p, pi + 1, n, skip) {
                return true;
            }
            skip += 1;
        }
        assert(ns.skip(skip - ni) =~= n@.skip(skip as int));
        assert(!glob_from(q, ns, (skip - ni + 1) as nat));
        glob_rec(p, pi + 1, n, skip)
    } else if p[pi] == '?' {
        if ni < nlen {
            assert(ns.drop_first() =~= n@.skip(ni + 1));
            glob_rec(p, pi + 1, n, ni + 1)
        } else {
            false
        }
    } else {
        if ni < nlen && n[ni] == p[pi] {
            assert(ns.drop_first() =~= n@.skip(ni + 1));
            glob_rec(p, pi + 1, n, ni + 1)
        } else {
            false
        }
    }
}

/// Tiny `?`/`*` glob matcher for a single path segment (sysfs names): `*`
/// matches any run of characters, `?` any one character, every other
/// character itself.
pub fn glob_match(pat: &str, name: &str) -> (r: bool)
    ensures
        r == glob(pat@, name@),
{
    let p = to_chars(pat);
    let n = to_chars(name);
    assert(p@.skip(0) =~= p@ && n@.skip(0) =~= n@);
    glob_rec(&p, 0, &n, 0)
}

/// The sysfs path of entry `name` of class `class`.
pub open spec fn class_path(class: Seq<char>, name: Seq<char>) -> Seq<char> {
    "/sys/class/"@ + class + seq!['/'] + name
}

/// The paths of the entries in `names` that match `pat`, in list order.
pub open spec fn matching_paths(class: Seq<char>, pat: Seq<char>, names: Seq<Seq<char>>) -> Seq<Seq<char>>
    decreases names.len(),
{
    if names.len() == 0 {
        seq![]
    } else {
        let rest = matching_paths(class, pat, names.drop_last());
        if glob(pat, names.last()) {
            rest.push(class_path(class, names.last()))
        } else {
            rest
        }
    }
}

/// `/sys/class/<class>/<name>` for every entry `name` of the class directory
/// (its listing is `entries`) that matches `pat`, sorted.
pub fn glob_class(class: &str, pat: &str, entries: &[String]) -> (r: Vec<String>)
    ensures
        strs(r@) == matching_paths(class@, pat@, strs(entries@)).sort_by(by_lex()),
{
    let base = concat("/sys/class/", class);
    let mut found: Vec<Vec<char>> = Vec::new();
    let mut i: usize = 0;
    assert(strs(entries@).take(0) =~= seq![]);
    assert(views(found@) =~= seq![]);
    while i < entries.len()
        invariant
            i <= entries@.len(),
            base@ == "/sys/class/"@ + class@,
            views(found@) == matching_paths(class@, pat@, strs(entries@).take(i as int)),
        decreases entries.len() - i,
    {
        let ghost names = strs(entries@).take(i + 1);
        assert(names.drop_last() =~= strs(entries@).take(i as int));
        assert(names.last() == entries@[i as int]@);
        if glob_match(pat, entries[i].as_str()) {
            let mut path = to_chars(base.as_str());
            path.push('/');
            let e = to_chars(entries[i].as_str());
            crate::text::extend_chars(&mut path, &e);
            let ghost before = views(found@);
            assert(path@ =~= class_path(class@, entries@[i as int]@));
            found.push(path);
            assert(views(found@) =~= before.push(class_path(class@, entries@[i as int]@)));
        }
        i += 1;
    }
    assert(strs(entries@).take(i as int) =~= strs(entries@));
    let sorted = sort_lex(found);
    let mut out: Vec<String> = Vec::new();
    let mut j: usize = 0;
    assert(strs(out@) =~= views(sorted@).take(0));
    while j < sorted.len()
        invariant
            j <= sorted@.len(),
            strs(out@) == views(sorted@).take(j as int),
        decreases sorted.len() - j,
    {
        let ghost before = strs(out@);
        assert(views(sorted@)[j as int] == sorted@[j as int]@);
        let s = from_chars(&sorted[j]);
        out.push(s);
        assert(strs(out@) =~= before.push(s@));
        assert(views(sorted@).take(j + 1) =~= views(sorted@).take(j as int).push(views(sorted@)[j as int]));
        j += 1;
    }
    assert(views(sorted@).take(j as int) =~= views(sorted@));
    out
}

// ---------------------------------------------------------------------------
// Human-readable sizes
// ---------------------------------------------------------------------------

/// The spacing of `f64` values around `b`: 1 below 2^53, doubling with every
/// further bit.
pub open spec fn f64_ulp(b: nat) -> nat
    decreases b,
{
    if b < 0x20_0000_0000_0000 {
        1
    } else {
        2 * f64_ulp(b / 2)
    }
}

/// `n / d` rounded to the nearest integer, ties to even.
pub open spec fn div_round_even(n: nat, d: nat) -> nat {
    let q = n / d;
    let r = n % d;
    if r * 2 > d || (r * 2 == d && q % 2 == 1) {
        q + 1
    } else {
        q
    }
}

/// `b as f64`: the nearest `f64` to `b`, ties to even.
pub open spec fn as_f64(b: nat) -> nat {
    div_round_even(b, f64_ulp(b)) * f64_ulp(b)
}

/// The binary unit of a magnitude: 0 = B, 1 = K, 2 = M, 3 = G, 4 = T.
pub open spec fn size_unit(v: nat) -> nat {
    if v >= 0x100_0000_0000 {
        4
    } else if v >= 0x4000_0000 {
        3
    } else if v >= 0x10_0000 {
        2
    } else if v >= 0x400 {
        1
    } else {
        0
    }
}

/// 1024 to the power `u`.
pub open spec fn unit_size(u: nat) -> nat {
    if u == 4 {
        0x100_0000_0000
    } else if u == 3 {
        0x4000_0000
    } else if u == 2 {
        0x10_0000
    } else if u == 1 {
        0x400
    } else {
        1
    }
}

/// The letter of a binary unit.
pub open spec fn unit_letter(u: nat) -> char {
    if u == 4 {
        'T'
    } else if u == 3 {
        'G'
    } else if u == 2 {
        'M'
    } else if u == 1 {
        'K'
    } else {
        'B'
    }
}

/// `bytes` as a human-readable size: below 1 KiB the exact count and `B`;
/// otherwise the value (as an `f64`) in the largest unit up to `T`, to one
/// decimal place rounded half to even, without a trailing `.0`, and the unit
/// letter (`4.2G`, `812M`, `0B`).
pub open spec fn human_bytes_view(bytes: nat) -> Seq<char> {
    let v = as_f64(bytes);
    let u = size_unit(v);
    if u == 0 {
        dec(bytes) + seq!['B']
    } else {
        let t = div_round_even(v * 10, unit_size(u));
        if t % 10 == 0 {
            dec(t / 10) + seq![unit_letter(u)]
        } else {
            dec(t / 10) + seq!['.', digit_char(t % 10), unit_letter(u)]
        }
    }
}

fn ulp_of(b: u64) -> (u: u64)
    ensures
        u >= 1,
        u == f64_ulp(b as nat),
        u == 1 || u * 0x10_0000_0000_0000 <= b,
    decreases b,
{
    if b < 0x20_0000_0000_0000 {
        1
    } else {
        let h = ulp_of(b / 2);
        2 * h
    }
}

fn round_even(n: u128, d: u128) -> (r: u128)
    requires
        0 < d <= 0x1_0000_0000_0000_0000,
        n < 0x1000_0000_0000_0000_0000,
    ensures
        r == div_round_even(n as nat, d as nat),
{
    let q = n / d;
    let rem = n % d;
    if rem * 2 > d || (rem * 2 == d && q % 2 == 1) {
        q + 1
    } else {
        q
    }
}

/// Humanize a byte count: e.g. `4.2G`, `812M`, `0B`.
pub fn human_bytes(bytes: u64) -> (r: String)
    ensures
        r@ == human_bytes_view(bytes as nat),
{
    let u = ulp_of(bytes) as u128;
    let q = round_even(bytes as u128, u);
    assert(q * u <= bytes + u) by (nonlinear_arith)
        requires
            q == div_round_even(bytes as nat, u as nat),
            u > 0,
    {
        let q0 = (bytes as nat) / (u as nat);
        let rm = (bytes as nat) % (u as nat);
        assert(bytes as nat == q0 * (u as nat) + rm);
        assert(q <= q0 + 1);
        assert(q0 * u <= bytes);
    }
    let v: u128 = q * u;
    let (unit, size, letter): (u64, u128, char) = if v >= 0x100_0000_0000 {
        (4, 0x100_0000_0000, 'T')
    } else if v >= 0x4000_0000 {
        (3, 0x4000_0000, 'G')
    } else if v >= 0x10_0000 {
        (2, 0x10_0000, 'M')
    } else if v >= 0x400 {
        (1, 0x400, 'K')
    } else {
        (0, 1, 'B')
    };
    if unit == 0 {
        let mut d = u64_dec(bytes);
        d.push('B');
        from_chars(&d)
    } else {
        let t = round_even(v * 10, size);
        assert(t <= v * 10) by (nonlinear_arith)
            requires
                t == div_round_even((v * 10) as nat, size as nat),
                size >= 0x400,
        {
        }
        let whole = (t / 10) as u64;
        let tenth = (t % 10) as u64;
        let mut d = u64_dec(whole);
        if tenth == 0 {
            d.push(letter);
            assert(d@ =~= dec((t / 10) as nat) + seq![letter]);
        } else {
            let b: u8 = 48 + tenth as u8;
            d.push('.');
            d.push(b as char);
            d.push(letter);
            assert(d@ =~= dec((t / 10) as nat) + seq!['.', digit_char((t % 10) as nat), letter]);
        }
        from_chars(&d)
    }
}

/// Humanize a per-second rate: e.g. `1.2M/s`, `0B/s`.
pub fn human_rate(bytes_per_sec: u64) -> (r: String)
    ensures
        r@ == human_bytes_view(bytes_per_sec as nat) + "/s"@,
{
    let h = human_bytes(bytes_per_sec);
    concat(h.as_str(), "/s")
}

} // verus!
