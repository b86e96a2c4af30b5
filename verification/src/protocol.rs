//! i3bar block list: the layout template filled from the state snapshot, and
//! the plain-text rendering of it.
use vstd::prelude::*;

use crate::config::{color_or, Config, Markup, Protocol};
use crate::layout::{pieces, Piece, Token};
use crate::state::{Block, NameMap};
use crate::text::owned;

verus! {

/// One entry of the bar line: a literal separator, or the block of a module
/// (named by its layout placeholder).
pub enum Item {
    Separator(Seq<char>),
    Module(Seq<char>, Block),
}

/// The bar line for the tokens `ts`, with the separator text `pending` held
/// back until a present module follows it. A module absent from `m` produces
/// nothing; an empty separator produces nothing.
pub open spec fn plan_from(
    ts: Seq<Piece>,
    m: Map<Seq<char>, Block>,
    pending: Option<Seq<char>>,
) -> Seq<Item>
    decreases ts.len(),
{
    if ts.len() == 0 {
        seq![]
    } else {
        match ts[0] {
            Piece::Sep(s) => plan_from(ts.drop_first(), m, Some(s)),
            Piece::Module(n) => if m.contains_key(n) {
                (match pending {
                    Some(s) => if s.len() > 0 {
                        seq![Item::Separator(s)]
                    } else {
                        seq![]
                    },
                    None => seq![],
                }) + seq![Item::Module(n, m[n])] + plan_from(ts.drop_first(), m, None)
            } else {
                plan_from(ts.drop_first(), m, pending)
            },
        }
    }
}

/// The bar line for a token list and a state snapshot.
pub open spec fn plan(ts: Seq<Piece>, m: Map<Seq<char>, Block>) -> Seq<Item> {
    plan_from(ts, m, None)
}

/// `r` is `b` with the bar-wide defaults of `cfg` filled into its unset
/// color, separator, separator width and markup.
pub open spec fn styled(r: Block, b: Block, cfg: Config) -> bool {
    let dc = color_or(cfg.colors.default, "#cdd6f4"@);
    &&& r.full_text == b.full_text
    &&& r.short_text == b.short_text
    &&& r.background == b.background
    &&& r.name == b.name
    &&& r.instance == b.instance
    &&& r.urgent == b.urgent
    &&& if b.color is Some {
        r.color == b.color
    } else if dc.len() > 0 {
        r.color matches Some(c) && c@ == dc
    } else if cfg.bar.default_color@.len() > 0 {
        r.color matches Some(c) && c@ == cfg.bar.default_color@
    } else {
        r.color is None
    }
    &&& r.separator == if b.separator is Some {
        b.separator
    } else {
        Some(false)
    }
    &&& r.separator_block_width == if b.separator_block_width is Some {
        b.separator_block_width
    } else {
        Some(cfg.bar.separator_block_width)
    }
    &&& if b.markup is Some {
        r.markup == b.markup
    } else {
        match cfg.bar.markup {
            Markup::Pango => r.markup matches Some(k) && k@ == "pango"@,
            Markup::NoMarkup => r.markup is None,
        }
    }
}

/// `r` carries the placeholder name `n` unless `b` named itself.
pub open spec fn named(r: Block, b: Block, n: Seq<char>) -> bool {
    &&& r == Block { name: r.name, ..b }
    &&& match b.name {
        Some(own) => r.name == Some(own),
        None => r.name matches Some(x) && x@ == n,
    }
}

/// `r` is the rendered form of the bar-line entry `it`.
pub open spec fn renders(r: Block, it: Item, cfg: Config) -> bool {
    match it {
        Item::Separator(s) => r == (Block {
            separator: Some(false),
            separator_block_width: Some(0u32),
            ..r
        }) && crate::state::is_plain_block(
            Block { separator: None, separator_block_width: None, ..r },
            s,
        ),
        Item::Module(n, b) => exists|nb: Block| named(nb, b, n) && styled(r, nb, cfg),
    }
}

/// `bs` renders the bar line `items`, entry by entry.
pub open spec fn renders_all(bs: Seq<Block>, items: Seq<Item>, cfg: Config) -> bool {
    &&& bs.len() == items.len()
    &&& forall|i: int| 0 <= i < bs.len() ==> renders(#[trigger] bs[i], items[i], cfg)
}

/// Apply bar-wide defaults (color, native separator off, separator width,
/// markup) to a module block's unset fields.
fn style_block(b: Block, cfg: &Config) -> (r: Block)
    ensures
        styled(r, b, *cfg),
{
    let mut b = b;
    if b.color.is_none() {
        let dc = cfg.colors.default_color();
        if !dc.is_empty() {
            b.color = Some(owned(dc));
        } else if !cfg.bar.default_color.as_str().is_empty() {
            b.color = Some(cfg.bar.default_color.clone());
        }
    }
    if b.separator.is_none() {
        b.separator = Some(false);
    }
    if b.separator_block_width.is_none() {
        b.separator_block_width = Some(cfg.bar.separator_block_width);
    }
    if b.markup.is_none() {
        b.markup = match cfg.bar.markup {
            Markup::Pango => Some(owned("pango")),
            Markup::NoMarkup => None,
        };
    }
    b
}

/// The view of a pending separator.
pub open spec fn pending_view(p: Option<String>) -> Option<Seq<char>> {
    match p {
        Some(s) => Some(s@),
        None => None,
    }
}

/// Build the per-tick block list by walking the layout template.
///
/// Module placeholders are filled from `map`; literal separator text becomes a
/// separator block. A separator is held until a present module follows it, so
/// a hidden module drops the separator before it rather than leaving a
/// dangling `" | "`. A block without a name gets its placeholder name, so
/// every block can be routed by `[click_actions.<name>]`.
pub fn build_blocks(tokens: &[Token], map: &NameMap<Block>, cfg: &Config) -> (out: Vec<Block>)
    ensures
        renders_all(out@, plan(pieces(tokens@), map@), *cfg),
{
    let ghost ts = pieces(tokens@);
    let ghost m = map@;
    let mut out: Vec<Block> = Vec::new();
    let mut pending: Option<String> = None;
    let ghost mut done: Seq<Item> = seq![];
    let mut i: usize = 0;
    assert(ts.skip(0) =~= ts);
    assert(done + plan_from(ts.skip(0), m, None) =~= plan(ts, m));
    while i < tokens.len()
        invariant
            i <= tokens@.len(),
            ts == pieces(tokens@),
            m == map@,
            renders_all(out@, done, *cfg),
            done + plan_from(ts.skip(i as int), m, pending_view(pending)) == plan(ts, m),
        decreases tokens.len() - i,
    {
        let ghost rest = ts.skip(i as int);
        assert(rest.drop_first() =~= ts.skip(i + 1));
        assert(rest[0] == tokens@[i as int]@);
        match &tokens[i] {
            Token::Sep(s) => {
                pending = Some(s.clone());
            },
            Token::Module(name) => {
                let ghost pv = pending_view(pending);
                match map.get(name.as_str()) {
                    Some(found) => {
                        let mut b = found.duplicate();
                        let ghost head = match pv {
                            Some(s) => if s.len() > 0 {
                                seq![Item::Separator(s)]
                            } else {
                                seq![]
                            },
                            None => seq![],
                        };
                        let ghost before = out@;
                        match pending {
                            Some(s) => {
                                if !s.as_str().is_empty() {
                                    out.push(Block::separator(s.as_str()));
                                }
                            },
                            None => {},
                        }
                        pending = None;
                        let ghost b0 = b;
                        if b.name.is_none() {
                            b.name = Some(name.clone());
                        }
                        assert(named(b, b0, name@));
                        let sb = style_block(b, cfg);
                        out.push(sb);
                        let ghost ndone = done + head + seq![Item::Module(name@, m[name@])];
                        assert(renders_all(out@, ndone, *cfg)) by {
                            assert forall|k: int| 0 <= k < out@.len() implies renders(
                                #[trigger] out@[k],
                                ndone[k],
                                *cfg,
                            ) by {
                                if k < before.len() {
                                    assert(out@[k] == before[k]);
                                    assert(ndone[k] == done[k]);
                                } else if k == out@.len() - 1 {
                                    assert(ndone[k] == Item::Module(name@, m[name@]));
                                    assert(named(b, m[name@], name@) && styled(sb, b, *cfg));
                                }
                            }
                        }
                        assert(plan_from(rest, m, pv) == head + seq![Item::Module(name@, m[name@])]
                            + plan_from(ts.skip(i + 1), m, None));
                        assert(ndone + plan_from(ts.skip(i + 1), m, None) =~= done + plan_from(
                            rest,
                            m,
                            pv,
                        ));
                        proof {
                            done = ndone;
                        }
                    },
                    None => {},
                }
            },
        }
        i += 1;
    }
    assert(ts.skip(i as int) =~= seq![]);
    assert(done + seq![] =~= done);
    out
}

/// The placeholders of `ts` that `m` has a block for, in template order.
pub open spec fn present_modules(ts: Seq<Piece>, m: Map<Seq<char>, Block>) -> Seq<Seq<char>>
    decreases ts.len(),
{
    if ts.len() == 0 {
        seq![]
    } else {
        match ts[0] {
            Piece::Module(n) => if m.contains_key(n) {
                seq![n] + present_modules(ts.drop_first(), m)
            } else {
                present_modules(ts.drop_first(), m)
            },
            Piece::Sep(_) => present_modules(ts.drop_first(), m),
        }
    }
}

/// The module names of the module entries of a bar line, in order.
pub open spec fn item_modules(items: Seq<Item>) -> Seq<Seq<char>>
    decreases items.len(),
{
    if items.len() == 0 {
        seq![]
    } else {
        match items[0] {
            Item::Module(n, _) => seq![n] + item_modules(items.drop_first()),
            Item::Separator(_) => item_modules(items.drop_first()),
        }
    }
}

/// Every separator entry is immediately followed by a module entry.
pub open spec fn separators_lead_to_modules(items: Seq<Item>) -> bool {
    forall|i: int|
        0 <= i < items.len() && #[trigger] items[i] is Separator ==> i + 1 < items.len()
            && items[i + 1] is Module
}

proof fn lemma_item_modules_append(a: Seq<Item>, b: Seq<Item>)
    ensures
        item_modules(a + b) == item_modules(a) + item_modules(b),
    decreases a.len(),
{
    if a.len() == 0 {
        assert(a + b =~= b);
    } else {
        assert((a + b).drop_first() =~= a.drop_first() + b);
        lemma_item_modules_append(a.drop_first(), b);
        assert(item_modules(a + b) =~= item_modules(a) + item_modules(b));
    }
}

spec fn head_of(p: Option<Seq<char>>) -> Seq<Item> {
    match p {
        Some(s) => if s.len() > 0 {
            seq![Item::Separator(s)]
        } else {
            seq![]
        },
        None => seq![],
    }
}

proof fn lemma_plan_from_unfold(ts: Seq<Piece>, m: Map<Seq<char>, Block>, p: Option<Seq<char>>)
    requires
        ts.len() > 0,
    ensures
        ts[0] is Sep ==> plan_from(ts, m, p) == plan_from(ts.drop_first(), m, Some(ts[0]->Sep_0)),
        ts[0] is Module && m.contains_key(ts[0]->Module_0) ==> plan_from(ts, m, p) == head_of(p)
            + seq![Item::Module(ts[0]->Module_0, m[ts[0]->Module_0])] + plan_from(
            ts.drop_first(),
            m,
            None,
        ),
        ts[0] is Module && !m.contains_key(ts[0]->Module_0) ==> plan_from(ts, m, p) == plan_from(
            ts.drop_first(),
            m,
            p,
        ),
{
}

proof fn lemma_plan_from_separators(ts: Seq<Piece>, m: Map<Seq<char>, Block>, p: Option<Seq<char>>)
    ensures
        separators_lead_to_modules(plan_from(ts, m, p)),
    decreases ts.len(),
{
    if ts.len() > 0 {
        lemma_plan_from_unfold(ts, m, p);
        match ts[0] {
            Piece::Sep(s) => {
                lemma_plan_from_separators(ts.drop_first(), m, Some(s));
            },
            Piece::Module(n) => {
                if m.contains_key(n) {
                    lemma_plan_from_separators(ts.drop_first(), m, None);
                    let mid = head_of(p) + seq![Item::Module(n, m[n])];
                    let tail = plan_from(ts.drop_first(), m, None);
                    let all = mid + tail;
                    assert forall|i: int|
                        0 <= i < all.len() && #[trigger] all[i] is Separator implies i + 1
                        < all.len() && all[i + 1] is Module by {
                        if i >= mid.len() {
                            assert(all[i] == tail[i - mid.len()]);
                            assert(all[i + 1] == tail[i + 1 - mid.len()]);
                        }
                    }
                } else {
                    lemma_plan_from_separators(ts.drop_first(), m, p);
                }
            },
        }
    }
}

proof fn lemma_plan_from_modules(ts: Seq<Piece>, m: Map<Seq<char>, Block>, p: Option<Seq<char>>)
    ensures
        item_modules(plan_from(ts, m, p)) == present_modules(ts, m),
    decreases ts.len(),
{
    if ts.len() > 0 {
        lemma_plan_from_unfold(ts, m, p);
        match ts[0] {
            Piece::Sep(s) => {
                lemma_plan_from_modules(ts.drop_first(), m, Some(s));
            },
            Piece::Module(n) => {
                if m.contains_key(n) {
                    lemma_plan_from_modules(ts.drop_first(), m, None);
                    let head = head_of(p);
                    let one = seq![Item::Module(n, m[n])];
                    let tail = plan_from(ts.drop_first(), m, None);
                    lemma_item_modules_append(head + one, tail);
                    lemma_item_modules_append(head, one);
                    assert(item_modules(head) =~= seq![]) by {
                        reveal_with_fuel(item_modules, 2);
                        if head.len() > 0 {
                            assert(head.drop_first() =~= seq![]);
                        }
                    }
                    assert(item_modules(one) =~= seq![n]) by {
                        reveal_with_fuel(item_modules, 2);
                        assert(one.drop_first() =~= seq![]);
                    }
                    assert(seq![] + seq![n] =~= seq![n]);
                } else {
                    lemma_plan_from_modules(ts.drop_first(), m, p);
                }
            },
        }
    }
}

proof fn lemma_plan_from_entries(ts: Seq<Piece>, m: Map<Seq<char>, Block>, p: Option<Seq<char>>)
    ensures
        forall|i: int|
            0 <= i < plan_from(ts, m, p).len() ==> match #[trigger] plan_from(ts, m, p)[i] {
                Item::Module(n, b) => m.contains_key(n) && m[n] == b,
                Item::Separator(s) => s.len() > 0,
            },
    decreases ts.len(),
{
    if ts.len() > 0 {
        lemma_plan_from_unfold(ts, m, p);
        match ts[0] {
            Piece::Sep(s) => {
                lemma_plan_from_entries(ts.drop_first(), m, Some(s));
            },
            Piece::Module(n) => {
                if m.contains_key(n) {
                    lemma_plan_from_entries(ts.drop_first(), m, None);
                    let mid = head_of(p) + seq![Item::Module(n, m[n])];
                    let tail = plan_from(ts.drop_first(), m, None);
                    let all = mid + tail;
                    assert forall|i: int| 0 <= i < all.len() implies match #[trigger] all[i] {
                        Item::Module(n, b) => m.contains_key(n) && m[n] == b,
                        Item::Separator(s) => s.len() > 0,
                    } by {
                        if i >= mid.len() {
                            assert(all[i] == tail[i - mid.len()]);
                        }
                    }
                } else {
                    lemma_plan_from_entries(ts.drop_first(), m, p);
                }
            },
        }
    }
}

/// The bar line built from a template and a snapshot:
/// - shows a block for exactly the placeholders whose module has a block, in
///   template order, each with that module's block;
/// - never shows an empty separator, and every separator it shows is directly
///   followed by a module block (so a hidden module never leaves a dangling
///   separator, and the line never ends in one).
pub proof fn lemma_plan_laws(ts: Seq<Piece>, m: Map<Seq<char>, Block>)
    ensures
        item_modules(plan(ts, m)) == present_modules(ts, m),
        separators_lead_to_modules(plan(ts, m)),
        forall|i: int|
            0 <= i < plan(ts, m).len() ==> match #[trigger] plan(ts, m)[i] {
                Item::Module(n, b) => m.contains_key(n) && m[n] == b,
                Item::Separator(s) => s.len() > 0,
            },
{
    lemma_plan_from_separators(ts, m, None);
    lemma_plan_from_modules(ts, m, None);
    lemma_plan_from_entries(ts, m, None);
}

/// Plain-text mode: the `full_text` of every block, in order, as one line.
pub open spec fn plain_line(bs: Seq<Block>) -> Seq<char>
    decreases bs.len(),
{
    if bs.len() == 0 {
        seq![]
    } else {
        plain_line(bs.drop_last()) + bs.last().full_text@
    }
}

/// Append the plain-text line for `blocks` (their texts concatenated, then a
/// newline) to `out`.
pub fn write_plain(out: &mut String, blocks: &[Block])
    ensures
        final(out)@ == old(out)@ + plain_line(blocks@) + seq!['\n'],
{
    let mut i: usize = 0;
    assert(blocks@.take(0) =~= seq![]);
    assert(out@ =~= old(out)@ + plain_line(blocks@.take(0)));
    while i < blocks.len()
        invariant
            i <= blocks@.len(),
            out@ == old(out)@ + plain_line(blocks@.take(i as int)),
        decreases blocks.len() - i,
    {
        assert(blocks@.take(i + 1).drop_last() =~= blocks@.take(i as int));
        out.append(blocks[i].full_text.as_str());
        i += 1;
    }
    assert(blocks@.take(i as int) =~= blocks@);
    out.append("\n");
    proof {
        reveal_strlit("\n");
    }
}

/// The shortest interval between two rendered lines, in milliseconds.
pub const RENDER_FLOOR_MS: u64 = 20;

/// True when the bar is configured for plain text (no JSON, no colors).
pub fn is_plain(cfg: &Config) -> (r: bool)
    ensures
        r == (cfg.bar.protocol == Protocol::Plain),
{
    match cfg.bar.protocol {
        Protocol::Plain => true,
        Protocol::I3bar => false,
    }
}

} // verus!
