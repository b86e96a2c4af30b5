//! Layout template: the bar is a single string of `{module}` placeholders
//! interleaved with arbitrary literal text. The literal text between two
//! placeholders is the separator, so a template may hold as many different
//! separators as it likes (`" | "`, `" "`, `" · "`, even `""`).
use vstd::prelude::*;

use crate::text::{contains_string, strs, extend_chars, from_chars, pos, slice_chars, to_chars, trim, trim_chars};

verus! {

/// One parsed piece of the layout: a module reference or a literal separator.
#[derive(Clone, Debug)]
pub enum Token {
    /// Literal text between (or around) module placeholders, rendered verbatim.
    Sep(String),
    /// `{name}`: replaced by the named module's block when it has one.
    Module(String),
}

/// What a token stands for, on character sequences.
pub enum Piece {
    Sep(Seq<char>),
    Module(Seq<char>),
}

impl View for Token {
    type V = Piece;

    open spec fn view(&self) -> Piece {
        match self {
            Token::Sep(s) => Piece::Sep(s@),
            Token::Module(n) => Piece::Module(n@),
        }
    }
}

/// The views of a token sequence.
pub open spec fn pieces(ts: Seq<Token>) -> Seq<Piece> {
    ts.map_values(|t: Token| t@)
}

/// The literal `lit`, as a token list: nothing when it is empty.
pub open spec fn lit_tokens(lit: Seq<char>) -> Seq<Piece> {
    if lit.len() == 0 {
        seq![]
    } else {
        seq![Piece::Sep(lit)]
    }
}

/// The tokens of the template `s`, given the literal text `lit` read so far
/// and not yet emitted.
///
/// `{name}` with a non-blank trimmed name ends the pending literal and becomes
/// a module; a blank `{}` vanishes without ending the literal; a `{` with no
/// closing `}` turns the rest of the template into literal text.
pub open spec fn parse_from(s: Seq<char>, lit: Seq<char>) -> Seq<Piece>
    decreases s.len(),
{
    if s.len() == 0 {
        lit_tokens(lit)
    } else if s[0] == '{' {
        let rest = s.drop_first();
        let k = pos(rest, '}');
        if k < rest.len() {
            let name = trim(rest.take(k as int));
            if name.len() > 0 {
                lit_tokens(lit) + seq![Piece::Module(name)] + parse_from(
                    rest.skip(k + 1int),
                    seq![],
                )
            } else {
                parse_from(rest.skip(k + 1int), lit)
            }
        } else {
            lit_tokens(lit + seq!['{'] + rest)
        }
    } else {
        parse_from(s.drop_first(), lit.push(s[0]))
    }
}

/// The tokens of a layout template.
pub open spec fn parse_layout(s: Seq<char>) -> Seq<Piece> {
    parse_from(s, seq![])
}

proof fn lemma_pos_is(s: Seq<char>, c: char, k: nat)
    requires
        k <= s.len(),
        forall|m: int| 0 <= m < k ==> s[m] != c,
        k < s.len() ==> s[k as int] == c,
    ensures
        pos(s, c) == k,
    decreases k,
{
    if k > 0 {
        lemma_pos_is(s.drop_first(), c, (k - 1) as nat);
    }
}

/// Parse a layout template into tokens. `{name}` becomes `Module(name)`
/// (the name trimmed); text between placeholders becomes `Sep(text)`. An
/// unterminated `{` is literal text, and an empty `{}` is dropped without
/// splitting the literal around it (`a{}b` is the single `Sep("ab")`).
pub fn parse(layout: &str) -> (tokens: Vec<Token>)
    ensures
        pieces(tokens@) == parse_layout(layout@),
{
    let v = to_chars(layout);
    let mut tokens: Vec<Token> = Vec::new();
    let mut lit: Vec<char> = Vec::new();
    let mut i: usize = 0;
    assert(v@.skip(0) =~= v@);
    assert(pieces(tokens@) =~= seq![]);
    while i < v.len()
        invariant
            i <= v@.len(),
            v@ == layout@,
            pieces(tokens@) + parse_from(v@.skip(i as int), lit@) == parse_layout(v@),
        decreases v.len() - i,
    {
        let ghost s = v@.skip(i as int);
        let ghost t0 = pieces(tokens@);
        if v[i] == '{' {
            let ghost rest = s.drop_first();
            let mut j = i + 1;
            while j < v.len() && v[j] != '}'
                invariant
                    i < j <= v@.len(),
                    forall|m: int| i < m < j ==> v@[m] != '}',
                decreases v.len() - j,
            {
                j += 1;
            }
            let name = slice_chars(&v, i + 1, j);
            assert(name@ =~= rest.take(j - i - 1));
            proof {
                lemma_pos_is(rest, '}', (j - i - 1) as nat);
            }
            if j < v.len() {
                assert(rest.skip(j - i) =~= v@.skip(j + 1));
                let t = trim_chars(&name);
                if t.len() > 0 {
                    let ghost lit0 = lit@;
                    if lit.len() > 0 {
                        tokens.push(Token::Sep(from_chars(&lit)));
                        lit = Vec::new();
                    }
                    assert(pieces(tokens@) =~= t0 + lit_tokens(lit0));
                    let ghost t1 = pieces(tokens@);
                    tokens.push(Token::Module(from_chars(&t)));
                    assert(pieces(tokens@) =~= t1 + seq![Piece::Module(t@)]);
                    assert(lit@ =~= seq![]);
                    assert(pieces(tokens@) + parse_from(v@.skip(j + 1), lit@) =~= t0 + (lit_tokens(lit0)
                        + seq![Piece::Module(t@)] + parse_from(rest.skip(j - i), seq![])));
                } else {
                    assert(parse_from(s, lit@) == parse_from(v@.skip(j + 1), lit@));
                }
                i = j + 1;
            } else {
                assert(rest =~= name@);
                let ghost lit0 = lit@;
                lit.push('{');
                extend_chars(&mut lit, &name);
                assert(lit@ =~= lit0 + seq!['{'] + rest);
                assert(v@.skip(j as int) =~= seq![]);
                i = j;
            }
        } else {
            assert(s.drop_first() =~= v@.skip(i + 1));
            lit.push(v[i]);
            i += 1;
        }
    }
    assert(v@.skip(i as int) =~= seq![]);
    if lit.len() > 0 {
        tokens.push(Token::Sep(from_chars(&lit)));
    }
    tokens
}


/// The module names referenced by a token sequence, in order, repeats kept.
pub open spec fn modules_of(ts: Seq<Piece>) -> Seq<Seq<char>>
    decreases ts.len(),
{
    if ts.len() == 0 {
        seq![]
    } else {
        let m = modules_of(ts.drop_last());
        match ts.last() {
            Piece::Module(n) => m.push(n),
            Piece::Sep(_) => m,
        }
    }
}

/// `s` with every element after its first occurrence removed.
pub open spec fn dedup(s: Seq<Seq<char>>) -> Seq<Seq<char>>
    decreases s.len(),
{
    if s.len() == 0 {
        seq![]
    } else {
        let d = dedup(s.drop_last());
        if d.contains(s.last()) {
            d
        } else {
            d.push(s.last())
        }
    }
}

/// Module names referenced by the template, in first-occurrence order, each
/// once. These are the modules the bar runs.
pub fn module_names(tokens: &[Token]) -> (names: Vec<String>)
    ensures
        strs(names@) == dedup(modules_of(pieces(tokens@))),
{
    let mut out: Vec<String> = Vec::new();
    let mut i: usize = 0;
    assert(pieces(tokens@).take(0) =~= seq![]);
    assert(strs(out@) =~= seq![]);
    while i < tokens.len()
        invariant
            i <= tokens@.len(),
            strs(out@) == dedup(modules_of(pieces(tokens@).take(i as int))),
        decreases tokens.len() - i,
    {
        let ghost p = pieces(tokens@).take(i + 1);
        assert(p.drop_last() =~= pieces(tokens@).take(i as int));
        assert(p.last() == tokens@[i as int]@);
        match &tokens[i] {
            Token::Module(name) => {
                let ghost m = modules_of(pieces(tokens@).take(i as int));
                assert(modules_of(p) == m.push(name@));
                assert(m.push(name@).drop_last() =~= m);
                assert(dedup(m.push(name@)) == if dedup(m).contains(name@) {
                    dedup(m)
                } else {
                    dedup(m).push(name@)
                });
                if !contains_string(&out, name) {
                    let ghost o = strs(out@);
                    out.push(name.clone());
                    assert(strs(out@) =~= o.push(name@));
                }
            },
            Token::Sep(_) => {
                assert(modules_of(p) == modules_of(pieces(tokens@).take(i as int)));
            },
        }
        i += 1;
    }
    assert(pieces(tokens@).take(i as int) =~= pieces(tokens@));
    out
}

// ---------------------------------------------------------------------------
// Laws
// ---------------------------------------------------------------------------

/// Every separator is non-empty and is followed by a module or ends the list;
/// every module name is non-empty.
pub open spec fn well_formed(ts: Seq<Piece>) -> bool {
    forall|i: int|
        0 <= i < ts.len() ==> match #[trigger] ts[i] {
            Piece::Sep(x) => x.len() > 0 && (i + 1 < ts.len() ==> ts[i + 1] is Module),
            Piece::Module(n) => n.len() > 0,
        }
}

proof fn lemma_parse_from_well_formed(s: Seq<char>, lit: Seq<char>)
    ensures
        well_formed(parse_from(s, lit)),
    decreases s.len(),
{
    if s.len() == 0 {
    } else if s[0] == '{' {
        let rest = s.drop_first();
        let k = pos(rest, '}');
        if k < rest.len() {
            let name = trim(rest.take(k as int));
            lemma_parse_from_well_formed(rest.skip(k + 1int), seq![]);
            if name.len() > 0 {
                let head = lit_tokens(lit) + seq![Piece::Module(name)];
                let tail = parse_from(rest.skip(k + 1int), seq![]);
                let all = head + tail;
                assert forall|i: int| 0 <= i < all.len() implies match #[trigger] all[i] {
                    Piece::Sep(x) => x.len() > 0 && (i + 1 < all.len() ==> all[i + 1] is Module),
                    Piece::Module(n) => n.len() > 0,
                } by {
                    if i >= head.len() {
                        assert(all[i] == tail[i - head.len()]);
                        if i + 1 < all.len() {
                            assert(all[i + 1] == tail[i + 1 - head.len()]);
                        }
                    }
                }
            } else {
                lemma_parse_from_well_formed(rest.skip(k + 1int), lit);
            }
        }
    } else {
        lemma_parse_from_well_formed(s.drop_first(), lit.push(s[0]));
    }
}

/// What `parse` yields is well formed: separators are non-empty and each is
/// followed by a module (or ends the template), and module names are
/// non-empty, so blank `{}` never ghosts a module.
pub proof fn lemma_parse_well_formed(layout: Seq<char>)
    ensures
        well_formed(parse_layout(layout)),
{
    lemma_parse_from_well_formed(layout, seq![]);
}

proof fn lemma_parse_from_plain(s: Seq<char>, lit: Seq<char>)
    requires
        !s.contains('{'),
    ensures
        parse_from(s, lit) == lit_tokens(lit + s),
    decreases s.len(),
{
    if s.len() > 0 {
        assert(s[0] != '{') by {
            assert(s.contains(s[0]) || s[0] != '{');
        }
        let r = s.drop_first();
        assert(!r.contains('{')) by {
            if r.contains('{') {
                let j = choose|j: int| 0 <= j < r.len() && r[j] == '{';
                assert(s[j + 1] == '{');
            }
        }
        lemma_parse_from_plain(r, lit.push(s[0]));
        assert(lit.push(s[0]) + r =~= lit + s);
    } else {
        assert(lit + s =~= lit);
    }
}

/// A template without placeholders is one literal separator (or nothing when
/// it is empty).
pub proof fn lemma_parse_plain_text(layout: Seq<char>)
    requires
        !layout.contains('{'),
    ensures
        parse_layout(layout) == lit_tokens(layout),
{
    lemma_parse_from_plain(layout, seq![]);
    assert(seq![] + layout =~= layout);
}

/// `dedup` lists no name twice.
pub proof fn lemma_dedup_no_duplicates(s: Seq<Seq<char>>)
    ensures
        dedup(s).no_duplicates(),
    decreases s.len(),
{
    if s.len() > 0 {
        lemma_dedup_no_duplicates(s.drop_last());
    }
}

/// `dedup` keeps every name of `s` and adds none.
pub proof fn lemma_dedup_same_names(s: Seq<Seq<char>>, x: Seq<char>)
    ensures
        dedup(s).contains(x) <==> s.contains(x),
    decreases s.len(),
{
    if s.len() > 0 {
        lemma_dedup_same_names(s.drop_last(), x);
        let d = dedup(s.drop_last());
        if s.drop_last().contains(x) {
            let j = choose|j: int| 0 <= j < s.drop_last().len() && s.drop_last()[j] == x;
            assert(s[j] == x);
        }
        if s.contains(x) && !s.drop_last().contains(x) {
            let j = choose|j: int| 0 <= j < s.len() && s[j] == x;
            if j < s.len() - 1 {
                assert(s.drop_last()[j] == x);
            }
            assert(x == s.last());
        }
        if !d.contains(s.last()) {
            assert(d.push(s.last())[d.len() as int] == s.last());
            if d.contains(x) {
                let j = choose|j: int| 0 <= j < d.len() && d[j] == x;
                assert(d.push(s.last())[j] == x);
            }
            if d.push(s.last()).contains(x) {
                let j = choose|j: int| 0 <= j < d.len() + 1 && d.push(s.last())[j] == x;
                if j < d.len() {
                    assert(d[j] == x);
                }
            }
        }
    }
}

/// The modules to run are exactly the names the template references, each
/// listed once, in first-occurrence order.
pub proof fn lemma_module_names_exact(tokens: Seq<Token>, x: Seq<char>)
    ensures
        dedup(modules_of(pieces(tokens))).no_duplicates(),
        dedup(modules_of(pieces(tokens))).contains(x) <==> modules_of(pieces(tokens)).contains(x),
{
    lemma_dedup_no_duplicates(modules_of(pieces(tokens)));
    lemma_dedup_same_names(modules_of(pieces(tokens)), x);
}

} // verus!

verus! {

/// The template text of a token list: separators verbatim, modules as
/// `{name}`.
pub open spec fn render(ps: Seq<Piece>) -> Seq<char>
    decreases ps.len(),
{
    if ps.len() == 0 {
        seq![]
    } else {
        match ps[0] {
            Piece::Sep(s) => s + render(ps.drop_first()),
            Piece::Module(n) => seq!['{'] + n + seq!['}'] + render(ps.drop_first()),
        }
    }
}

/// A token list that a template can spell: well formed, separators without
/// `{`, and module names that are already trimmed and hold no `}`.
pub open spec fn writable(ps: Seq<Piece>) -> bool {
    &&& well_formed(ps)
    &&& forall|i: int|
        0 <= i < ps.len() ==> match #[trigger] ps[i] {
            Piece::Sep(s) => !s.contains('{'),
            Piece::Module(n) => trim(n) == n && !n.contains('}'),
        }
}

proof fn lemma_parse_from_literal_prefix(x: Seq<char>, rest: Seq<char>, lit: Seq<char>)
    requires
        !x.contains('{'),
    ensures
        parse_from(x + rest, lit) == parse_from(rest, lit + x),
    decreases x.len(),
{
    if x.len() == 0 {
        assert(x + rest =~= rest);
        assert(lit + x =~= lit);
    } else {
        assert(x[0] != '{') by {
            assert(x.contains(x[0]) || x[0] != '{');
        }
        let y = x.drop_first();
        assert(!y.contains('{')) by {
            if y.contains('{') {
                let j = choose|j: int| 0 <= j < y.len() && y[j] == '{';
                assert(x[j + 1] == '{');
            }
        }
        assert((x + rest)[0] == x[0]);
        assert((x + rest).drop_first() =~= y + rest);
        lemma_parse_from_literal_prefix(y, rest, lit.push(x[0]));
        assert(lit.push(x[0]) + y =~= lit + x);
    }
}

proof fn lemma_writable_tail(ps: Seq<Piece>)
    requires
        writable(ps),
        ps.len() > 0,
    ensures
        writable(ps.drop_first()),
{
    let t = ps.drop_first();
    assert forall|i: int| 0 <= i < t.len() implies match #[trigger] t[i] {
        Piece::Sep(x) => x.len() > 0 && (i + 1 < t.len() ==> t[i + 1] is Module),
        Piece::Module(n) => n.len() > 0,
    } by {
        assert(t[i] == ps[i + 1]);
        if i + 1 < t.len() {
            assert(t[i + 1] == ps[i + 2]);
        }
    }
    assert forall|i: int| 0 <= i < t.len() implies match #[trigger] t[i] {
        Piece::Sep(s) => !s.contains('{'),
        Piece::Module(n) => trim(n) == n && !n.contains('}'),
    } by {
        assert(t[i] == ps[i + 1]);
    }
}

/// Parsing a token list that starts with a module (or is empty), with the
/// literal `lit` pending, gives the pending literal and then that list.
proof fn lemma_parse_render_from(ps: Seq<Piece>, lit: Seq<char>)
    requires
        writable(ps),
        ps.len() > 0 ==> ps[0] is Module,
    ensures
        parse_from(render(ps), lit) == lit_tokens(lit) + ps,
    decreases ps.len(),
{
    if ps.len() == 0 {
        assert(lit_tokens(lit) + ps =~= lit_tokens(lit));
    } else {
        let n = ps[0]->Module_0;
        assert(match ps[0] {
            Piece::Sep(s) => !s.contains('{'),
            Piece::Module(n) => trim(n) == n && !n.contains('}'),
        });
        assert(match ps[0] {
            Piece::Sep(x) => x.len() > 0 && (1int < ps.len() ==> ps[1int] is Module),
            Piece::Module(n) => n.len() > 0,
        });
        let t = ps.drop_first();
        lemma_writable_tail(ps);
        let s = render(ps);
        let r = n + seq!['}'] + render(t);
        assert(s =~= seq!['{'] + r);
        assert(s[0] == '{');
        assert(s.drop_first() =~= r);
        assert forall|m: int| 0 <= m < n.len() implies r[m] != '}' by {
            assert(r[m] == n[m]);
            assert(n.contains(n[m]));
        }
        lemma_pos_is(r, '}', n.len());
        assert(r.take(n.len() as int) =~= n);
        assert(r.skip(n.len() + 1int) =~= render(t));
        if t.len() == 0 {
            lemma_parse_render_from(t, seq![]);
            assert(lit_tokens(seq![]) =~= seq![]);
            assert(lit_tokens(lit) + seq![Piece::Module(n)] + t =~= lit_tokens(lit) + ps);
        } else {
            match t[0] {
                Piece::Module(_) => {
                    lemma_parse_render_from(t, seq![]);
                    assert(lit_tokens(seq![]) =~= seq![]);
                    assert(lit_tokens(lit) + seq![Piece::Module(n)] + (seq![] + t) =~= lit_tokens(lit) + ps);
                },
                Piece::Sep(x) => {
                    assert(t[0] == ps[1]);
                    assert(match ps[1] {
                        Piece::Sep(s) => !s.contains('{'),
                        Piece::Module(n) => trim(n) == n && !n.contains('}'),
                    });
                    assert(match ps[1] {
                        Piece::Sep(x) => x.len() > 0 && (2int < ps.len() ==> ps[2int] is Module),
                        Piece::Module(n) => n.len() > 0,
                    });
                    let u = t.drop_first();
                    lemma_writable_tail(t);
                    assert(render(t) == x + render(u));
                    lemma_parse_from_literal_prefix(x, render(u), seq![]);
                    assert(seq![] + x =~= x);
                    if u.len() > 0 {
                        assert(u[0] == ps[2]);
                    }
                    lemma_parse_render_from(u, x);
                    assert(lit_tokens(x) =~= seq![Piece::Sep(x)]);
                    assert(lit_tokens(seq![]) =~= seq![]);
                    assert(lit_tokens(lit) + seq![Piece::Module(n)] + (seq![Piece::Sep(x)] + u)
                        =~= lit_tokens(lit) + ps);
                },
            }
        }
    }
}

/// Reading back what a template spells: a token list that a template can
/// spell is exactly what `parse` makes of its rendered text.
pub proof fn lemma_parse_render(ps: Seq<Piece>)
    requires
        writable(ps),
    ensures
        parse_layout(render(ps)) == ps,
{
    if ps.len() > 0 {
        match ps[0] {
            Piece::Module(_) => {
                lemma_parse_render_from(ps, seq![]);
                assert(lit_tokens(seq![]) + ps =~= ps);
            },
            Piece::Sep(x) => {
                assert(match ps[0] {
                    Piece::Sep(s) => !s.contains('{'),
                    Piece::Module(n) => trim(n) == n && !n.contains('}'),
                });
                assert(match ps[0] {
                    Piece::Sep(x) => x.len() > 0 && (1int < ps.len() ==> ps[1int] is Module),
                    Piece::Module(n) => n.len() > 0,
                });
                let u = ps.drop_first();
                lemma_writable_tail(ps);
                lemma_parse_from_literal_prefix(x, render(u), seq![]);
                assert(seq![] + x =~= x);
                if u.len() > 0 {
                    assert(u[0] == ps[1]);
                }
                lemma_parse_render_from(u, x);
                assert(lit_tokens(x) + u =~= ps);
            },
        }
    } else {
        lemma_parse_render_from(ps, seq![]);
        assert(lit_tokens(seq![]) + ps =~= ps);
    }
}

} // verus!
