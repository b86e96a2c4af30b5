//! Bar state: one block per module, keyed by module name, and the map type
//! that holds them.
use vstd::prelude::*;

use crate::text::{concat, owned, str_eq};

verus! {

/// One i3bar block. Unset optional fields are left out of the JSON, so sway
/// applies its own defaults for them.
#[derive(Clone, Debug)]
pub struct Block {
    pub full_text: String,
    pub short_text: Option<String>,
    pub color: Option<String>,
    pub background: Option<String>,
    pub name: Option<String>,
    pub instance: Option<String>,
    pub urgent: bool,
    pub separator: Option<bool>,
    pub separator_block_width: Option<u32>,
    pub markup: Option<String>,
}

/// A copy of an optional string.
pub fn clone_opt(o: &Option<String>) -> (r: Option<String>)
    ensures
        r == *o,
{
    match o {
        Some(s) => Some(s.clone()),
        None => None,
    }
}

/// `b` is the unstyled block showing `text`.
pub open spec fn is_plain_block(b: Block, text: Seq<char>) -> bool {
    &&& b.full_text@ == text
    &&& b.short_text is None
    &&& b.color is None
    &&& b.background is None
    &&& b.name is None
    &&& b.instance is None
    &&& !b.urgent
    &&& b.separator is None
    &&& b.separator_block_width is None
    &&& b.markup is None
}

/// `"<icon> <text>"`, or just `text` when the icon is empty.
pub open spec fn icon_text_view(icon: Seq<char>, text: Seq<char>) -> Seq<char> {
    if icon.len() == 0 {
        text
    } else {
        icon + seq![' '] + text
    }
}

/// `"<icon> <text>"` as a string, with a single space between when the icon
/// is non-empty.
pub fn icon_text_string(icon: &str, text: &str) -> (r: String)
    ensures
        r@ == icon_text_view(icon@, text@),
{
    if icon.is_empty() {
        owned(text)
    } else {
        let with_space = concat(icon, " ");
        let r = concat(with_space.as_str(), text);
        proof {
            reveal_strlit(" ");
        }
        r
    }
}

impl Block {
    /// A plain-text block with no styling.
    pub fn text(full_text: &str) -> (b: Block)
        ensures
            is_plain_block(b, full_text@),
    {
        Block {
            full_text: owned(full_text),
            short_text: None,
            color: None,
            background: None,
            name: None,
            instance: None,
            urgent: false,
            separator: None,
            separator_block_width: None,
            markup: None,
        }
    }

    /// A literal separator between module blocks: no native separator line and
    /// no gap, so the text itself carries all spacing.
    pub fn separator(full_text: &str) -> (b: Block)
        ensures
            b == (Block {
                separator: Some(false),
                separator_block_width: Some(0u32),
                ..b
            }),
            is_plain_block(
                Block { separator: None, separator_block_width: None, ..b },
                full_text@,
            ),
    {
        let mut b = Self::text(full_text);
        b.separator = Some(false);
        b.separator_block_width = Some(0);
        b
    }

    /// `"<icon> <text>"` with a single space between when the icon is non-empty.
    pub fn icon_text(icon: &str, text: &str) -> (b: Block)
        ensures
            is_plain_block(b, icon_text_view(icon@, text@)),
    {
        let full = icon_text_string(icon, text);
        Self::text(full.as_str())
    }

    /// The block with its `name` set.
    pub fn with_name(self, name: &str) -> (b: Block)
        ensures
            b.name matches Some(n) && n@ == name@,
            b == (Block { name: b.name, ..self }),
    {
        let mut b = self;
        b.name = Some(owned(name));
        b
    }

    /// The block with its `color` set.
    pub fn with_color(self, color: &str) -> (b: Block)
        ensures
            b.color matches Some(c) && c@ == color@,
            b == (Block { color: b.color, ..self }),
    {
        let mut b = self;
        b.color = Some(owned(color));
        b
    }

    /// The block marked urgent.
    pub fn with_urgent(self) -> (b: Block)
        ensures
            b == (Block { urgent: true, ..self }),
    {
        let mut b = self;
        b.urgent = true;
        b
    }

    /// A field-by-field copy.
    pub fn duplicate(&self) -> (b: Block)
        ensures
            b == *self,
    {
        Block {
            full_text: self.full_text.clone(),
            short_text: clone_opt(&self.short_text),
            color: clone_opt(&self.color),
            background: clone_opt(&self.background),
            name: clone_opt(&self.name),
            instance: clone_opt(&self.instance),
            urgent: self.urgent,
            separator: self.separator,
            separator_block_width: self.separator_block_width,
            markup: clone_opt(&self.markup),
        }
    }
}

} // verus!

verus! {

/// The keys of an entry list are pairwise distinct.
pub open spec fn distinct_keys<V>(es: Seq<(String, V)>) -> bool {
    forall|i: int, j: int|
        0 <= i < es.len() && 0 <= j < es.len() && i != j ==> #[trigger] es[i].0@ != #[trigger] es[j].0@
}

/// The map an entry list stands for.
pub open spec fn entries_map<V>(es: Seq<(String, V)>) -> Map<Seq<char>, V>
    decreases es.len(),
{
    if es.len() == 0 {
        Map::empty()
    } else {
        entries_map(es.drop_last()).insert(es.last().0@, es.last().1)
    }
}

proof fn lemma_entries_map_dom<V>(es: Seq<(String, V)>, k: Seq<char>)
    ensures
        entries_map(es).contains_key(k) <==> exists|i: int| 0 <= i < es.len() && es[i].0@ == k,
    decreases es.len(),
{
    if es.len() > 0 {
        lemma_entries_map_dom(es.drop_last(), k);
        if entries_map(es.drop_last()).contains_key(k) {
            let i = choose|i: int| 0 <= i < es.drop_last().len() && es.drop_last()[i].0@ == k;
            assert(es[i].0@ == k);
        }
        if exists|i: int| 0 <= i < es.len() && es[i].0@ == k {
            let i = choose|i: int| 0 <= i < es.len() && es[i].0@ == k;
            if i < es.len() - 1 {
                assert(es.drop_last()[i].0@ == k);
            }
        }
    }
}

proof fn lemma_entries_map_value<V>(es: Seq<(String, V)>, i: int)
    requires
        distinct_keys(es),
        0 <= i < es.len(),
    ensures
        entries_map(es).contains_key(es[i].0@),
        entries_map(es)[es[i].0@] == es[i].1,
    decreases es.len(),
{
    if i < es.len() - 1 {
        let d = es.drop_last();
        assert(distinct_keys(d)) by {
            assert forall|a: int, b: int|
                0 <= a < d.len() && 0 <= b < d.len() && a != b implies #[trigger] d[a].0@
                != #[trigger] d[b].0@ by {
                assert(d[a] == es[a] && d[b] == es[b]);
            }
        }
        lemma_entries_map_value(d, i);
        assert(d[i] == es[i]);
        assert(es[i].0@ != es.last().0@);
    }
}

/// A map keyed by names, held as an entry list with distinct keys.
#[derive(Debug)]
pub struct NameMap<V> {
    entries: Vec<(String, V)>,
}

impl<V> View for NameMap<V> {
    type V = Map<Seq<char>, V>;

    closed spec fn view(&self) -> Map<Seq<char>, V> {
        entries_map(self.entries@)
    }
}

impl<V> NameMap<V> {
    #[verifier::type_invariant]
    closed spec fn inv(&self) -> bool {
        distinct_keys(self.entries@)
    }

    /// The number of entries, which is the size of the map.
    pub closed spec fn spec_len(&self) -> nat {
        self.entries@.len()
    }

    /// An empty map.
    pub fn new() -> (m: NameMap<V>)
        ensures
            m@ == Map::<Seq<char>, V>::empty(),
    {
        NameMap { entries: Vec::new() }
    }

    fn index_of(&self, key: &str) -> (r: Option<usize>)
        ensures
            match r {
                Some(i) => i < self.entries@.len() && self.entries@[i as int].0@ == key@,
                None => forall|i: int|
                    0 <= i < self.entries@.len() ==> self.entries@[i].0@ != key@,
            },
    {
        let mut i: usize = 0;
        while i < self.entries.len()
            invariant
                i <= self.entries@.len(),
                forall|j: int| 0 <= j < i ==> self.entries@[j].0@ != key@,
            decreases self.entries.len() - i,
        {
            if str_eq(self.entries[i].0.as_str(), key) {
                return Some(i);
            }
            i += 1;
        }
        None
    }

    /// Whether `key` has an entry.
    pub fn contains_key(&self, key: &str) -> (r: bool)
        ensures
            r == self@.contains_key(key@),
    {
        proof {
            lemma_entries_map_dom(self.entries@, key@);
        }
        self.index_of(key).is_some()
    }

    /// The value stored under `key`.
    pub fn get(&self, key: &str) -> (r: Option<&V>)
        ensures
            match r {
                Some(v) => self@.contains_key(key@) && self@[key@] == *v,
                None => !self@.contains_key(key@),
            },
    {
        proof {
            use_type_invariant(self);
            lemma_entries_map_dom(self.entries@, key@);
        }
        match self.index_of(key) {
            Some(i) => {
                proof {
                    lemma_entries_map_value(self.entries@, i as int);
                }
                Some(&self.entries[i].1)
            },
            None => None,
        }
    }

    /// Store `value` under `key`, replacing what was there.
    pub fn insert(&mut self, key: &str, value: V)
        ensures
            final(self)@ == old(self)@.insert(key@, value),
    {
        proof {
            use_type_invariant(&*self);
            lemma_entries_map_dom(self.entries@, key@);
        }
        let ghost es = self.entries@;
        let found = self.index_of(key);
        let mut entries: Vec<(String, V)> = Vec::new();
        std::mem::swap(&mut entries, &mut self.entries);
        assert(entries@ == es);
        match found {
            Some(i) => {
                let k = owned(key);
                let ghost nes = es.update(i as int, (k, value));
                proof {
                    assert(distinct_keys(nes)) by {
                        assert forall|a: int, b: int|
                            0 <= a < nes.len() && 0 <= b < nes.len() && a != b implies #[trigger] nes[a].0@
                            != #[trigger] nes[b].0@ by {
                            if a != i && b != i {
                                assert(nes[a] == es[a] && nes[b] == es[b]);
                            } else if a == i {
                                assert(nes[b] == es[b]);
                            } else {
                                assert(nes[a] == es[a]);
                            }
                        }
                    }
                    assert(entries_map(nes) =~= entries_map(es).insert(key@, value)) by {
                        assert forall|q: Seq<char>| #[trigger] entries_map(nes).contains_key(q)
                            <==> entries_map(es).insert(key@, value).contains_key(q) by {
                            lemma_entries_map_dom(nes, q);
                            lemma_entries_map_dom(es, q);
                            if exists|j: int| 0 <= j < es.len() && es[j].0@ == q {
                                let j = choose|j: int| 0 <= j < es.len() && es[j].0@ == q;
                                assert(nes[j].0@ == q);
                            }
                            if exists|j: int| 0 <= j < nes.len() && nes[j].0@ == q {
                                let j = choose|j: int| 0 <= j < nes.len() && nes[j].0@ == q;
                                if j != i {
                                    assert(es[j].0@ == q);
                                }
                            }
                        }
                        assert forall|q: Seq<char>| #[trigger] entries_map(nes).contains_key(q)
                            implies entries_map(nes)[q] == entries_map(es).insert(key@, value)[q] by {
                            lemma_entries_map_dom(nes, q);
                            let j = choose|j: int| 0 <= j < nes.len() && nes[j].0@ == q;
                            lemma_entries_map_value(nes, j);
                            if j != i {
                                assert(es[j] == nes[j]);
                                lemma_entries_map_value(es, j);
                            }
                        }
                    }
                }
                entries.set(i, (k, value));
                assert(entries@ == nes);
                self.entries = entries;
            },
            None => {
                let k = owned(key);
                entries.push((k, value));
                proof {
                    let nes = entries@;
                    assert(nes.drop_last() =~= es);
                    assert(distinct_keys(nes)) by {
                        assert forall|a: int, b: int|
                            0 <= a < nes.len() && 0 <= b < nes.len() && a != b implies #[trigger] nes[a].0@
                            != #[trigger] nes[b].0@ by {
                            if a < es.len() && b < es.len() {
                                assert(nes[a] == es[a] && nes[b] == es[b]);
                            } else if a < es.len() {
                                assert(nes[a] == es[a]);
                            } else {
                                assert(nes[b] == es[b]);
                            }
                        }
                    }
                }
                self.entries = entries;
            },
        }
    }

    /// The key of the `i`-th entry.
    pub closed spec fn key_at(&self, i: int) -> Seq<char> {
        self.entries@[i].0@
    }

    /// The number of entries. Entries `0..n` hold every key of the map, each
    /// exactly once.
    pub fn len(&self) -> (n: usize)
        ensures
            n == self.spec_len(),
            forall|i: int| 0 <= i < n ==> self@.contains_key(#[trigger] self.key_at(i)),
            forall|i: int, j: int| 0 <= i < n && 0 <= j < n && i != j ==> #[trigger] self.key_at(i) != #[trigger] self.key_at(j),
            forall|k: Seq<char>| #[trigger] self@.contains_key(k) ==> exists|i: int| 0 <= i < n && self.key_at(i) == k,
    {
        proof {
            use_type_invariant(self);
            assert forall|i: int| 0 <= i < self.entries@.len() implies self@.contains_key(#[trigger] self.key_at(i)) by {
                lemma_entries_map_value(self.entries@, i);
            }
            assert forall|k: Seq<char>| #[trigger] self@.contains_key(k) implies exists|i: int| 0 <= i < self.entries@.len() && self.key_at(i) == k by {
                lemma_entries_map_dom(self.entries@, k);
                let i = choose|i: int| 0 <= i < self.entries@.len() && self.entries@[i].0@ == k;
                assert(self.key_at(i) == k);
            }
        }
        self.entries.len()
    }

    /// The key and value of the `i`-th entry.
    pub fn entry(&self, i: usize) -> (r: (&String, &V))
        requires
            i < self.spec_len(),
        ensures
            r.0@ == self.key_at(i as int),
            self@.contains_key(r.0@),
            self@[r.0@] == *r.1,
    {
        proof {
            use_type_invariant(self);
            lemma_entries_map_value(self.entries@, i as int);
        }
        (&self.entries[i].0, &self.entries[i].1)
    }
}

} // verus!

verus! {

/// The blocks of `m` that have text to show.
pub open spec fn shown(m: Map<Seq<char>, Block>) -> Map<Seq<char>, Block> {
    Map::new(|k: Seq<char>| m.contains_key(k) && m[k].full_text@.len() > 0, |k: Seq<char>| m[k])
}

impl NameMap<String> {
    /// Copy every entry of `other` into this map, replacing what was there.
    pub fn overlay(&mut self, other: &NameMap<String>)
        ensures
            final(self)@ == old(self)@.union_prefer_right(other@),
    {
        let es = &other.entries;
        let mut i: usize = 0;
        assert(es@.take(0) =~= seq![]);
        assert(self@ =~= old(self)@.union_prefer_right(entries_map(es@.take(0))));
        while i < es.len()
            invariant
                i <= es@.len(),
                self@ == old(self)@.union_prefer_right(entries_map(es@.take(i as int))),
            decreases es.len() - i,
        {
            let ghost before = es@.take(i as int);
            assert(es@.take(i + 1).drop_last() =~= before);
            let (k, v) = (&es[i].0, &es[i].1);
            self.insert(k.as_str(), v.clone());
            assert(self@ =~= old(self)@.union_prefer_right(entries_map(es@.take(i + 1))));
            i += 1;
        }
        assert(es@.take(i as int) =~= es@);
    }
}

/// The whole bar's current blocks, keyed by module name.
pub struct BarState {
    blocks: NameMap<Block>,
}

impl View for BarState {
    type V = Map<Seq<char>, Block>;

    closed spec fn view(&self) -> Map<Seq<char>, Block> {
        self.blocks@
    }
}

impl Default for BarState {
    fn default() -> (s: BarState)
        ensures
            s@ == Map::<Seq<char>, Block>::empty(),
    {
        BarState { blocks: NameMap::new() }
    }
}

impl BarState {
    /// Publish a block under `name`. An empty `full_text` is stored too, so a
    /// module can clear its own block.
    pub fn set(&mut self, name: &str, block: Block)
        ensures
            final(self)@ == old(self)@.insert(name@, block),
    {
        self.blocks.insert(name, block);
    }

    /// All non-empty blocks keyed by module name: a module whose block is
    /// absent or empty does not appear.
    pub fn snapshot_map(&self) -> (r: NameMap<Block>)
        ensures
            r@ == shown(self@),
    {
        proof {
            use_type_invariant(&self.blocks);
        }
        let es = &self.blocks.entries;
        let mut out: NameMap<Block> = NameMap::new();
        let mut i: usize = 0;
        assert(es@.take(0) =~= seq![]);
        assert(out@ =~= shown(entries_map(es@.take(0))));
        while i < es.len()
            invariant
                i <= es@.len(),
                distinct_keys(es@),
                out@ == shown(entries_map(es@.take(i as int))),
            decreases es.len() - i,
        {
            let ghost before = es@.take(i as int);
            let ghost after = es@.take(i + 1);
            assert(after.drop_last() =~= before);
            assert(after.last() == es@[i as int]);
            proof {
                lemma_entries_map_dom(before, es@[i as int].0@);
                if exists|j: int| 0 <= j < before.len() && before[j].0@ == es@[i as int].0@ {
                    let j = choose|j: int| 0 <= j < before.len() && before[j].0@ == es@[i as int].0@;
                    assert(before[j] == es@[j]);
                }
            }
            let (k, b) = (&es[i].0, &es[i].1);
            if !b.full_text.as_str().is_empty() {
                out.insert(k.as_str(), b.duplicate());
                assert(out@ =~= shown(entries_map(after)));
            } else {
                assert(out@ =~= shown(entries_map(after)));
            }
            i += 1;
        }
        assert(es@.take(i as int) =~= es@);
        out
    }
}

/// Reading back a write: right after `set(name, block)` the snapshot shows
/// `block` under `name` exactly when its text is non-empty, and every other
/// module's entry is what it was.
pub proof fn lemma_set_then_snapshot(
    before: Map<Seq<char>, Block>,
    name: Seq<char>,
    block: Block,
    other: Seq<char>,
)
    requires
        other != name,
    ensures
        shown(before.insert(name, block)).contains_key(name) <==> block.full_text@.len() > 0,
        shown(before.insert(name, block)).contains_key(name) ==> shown(before.insert(name, block))[name] == block,
        shown(before.insert(name, block)).contains_key(other) == shown(before).contains_key(other),
        shown(before).contains_key(other) ==> shown(before.insert(name, block))[other] == shown(before)[other],
{
}

} // verus!
