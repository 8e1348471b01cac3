//! The persistent list map itself: an immutable chain of key-value entries.
//!
//! A map is either `Empty` or a `Node(parent, entry)` whose parent chain is
//! held behind a shared `Rc` handle. Inserting allocates exactly one new head
//! node over the existing chain; nothing is ever mutated, so any number of map
//! handles can share the same tail. A key may occur several times along a
//! chain: the occurrence nearest the head is the visible one, the rest are
//! shadowed.

use std::rc::Rc;
use vstd::prelude::*;

use crate::value::Value;
use crate::value::ValueView;

verus! {

/// One key-value pair of a chain. Key and value are shared handles so that
/// entries can be yielded and stored without copying the underlying values.
#[derive(Debug, Hash)]
pub struct MapEntry {
    pub key: Rc<Value>,
    pub val: Rc<Value>,
}

impl View for MapEntry {
    type V = (ValueView, ValueView);

    open spec fn view(&self) -> (ValueView, ValueView) {
        (self.key@, self.val@)
    }
}

impl PartialEq for MapEntry {
    /// Value-equality of the key and of the value.
    fn eq(&self, other: &MapEntry) -> (r: bool) {
        *self.key == *other.key && *self.val == *other.val
    }
}

impl vstd::std_specs::cmp::PartialEqSpecImpl for MapEntry {
    open spec fn obeys_eq_spec() -> bool {
        true
    }

    open spec fn eq_spec(&self, other: &MapEntry) -> bool {
        self@ == other@
    }
}

impl Clone for MapEntry {
    fn clone(&self) -> (r: Self)
        ensures
            r == *self,
    {
        MapEntry { key: Rc::clone(&self.key), val: Rc::clone(&self.val) }
    }
}

/// A persistent map over `Value` keys and values, represented as a chain of
/// entries ending in `Empty`. The entry nearest the head wins for its key.
#[derive(Debug, Hash)]
pub enum PersistentListMap {
    Node(Rc<PersistentListMap>, MapEntry),
    Empty,
}

/// The full chain of a map as a sequence of abstract key-value pairs, head
/// first, shadowed entries included.
pub open spec fn entries_of(m: PersistentListMap) -> Seq<(ValueView, ValueView)>
    decreases m,
{
    match m {
        PersistentListMap::Empty => Seq::empty(),
        PersistentListMap::Node(parent, entry) => seq![entry@] + entries_of(*parent),
    }
}

/// What `get` returns on a chain: the value of the first (head-nearest)
/// entry whose key matches, or the `Nil` sentinel if no entry matches.
pub open spec fn lookup(s: Seq<(ValueView, ValueView)>, key: ValueView) -> ValueView
    decreases s.len(),
{
    if s.len() == 0 {
        ValueView::Nil
    } else if s[0].0 == key {
        s[0].1
    } else {
        lookup(s.drop_first(), key)
    }
}

/// Whether some entry of the chain (visible or shadowed) carries this key.
pub open spec fn contains_key(s: Seq<(ValueView, ValueView)>, key: ValueView) -> bool {
    exists|i: int| 0 <= i < s.len() && s[i].0 == key
}

/// The lookup and insert operations of a persistent map.
pub trait IPersistentListMap: Sized {
    /// The full chain of this map, head first, shadowed entries included.
    spec fn entries(self) -> Seq<(ValueView, ValueView)>;

    /// The visible value for `key`: the value of the entry nearest the head
    /// whose key matches, or `Nil` if the key is absent. The sentinel is an
    /// ordinary value: a key stored with `Nil` cannot be told apart from an
    /// absent key through `get` alone (iteration can tell them apart).
    fn get(&self, key: &Rc<Value>) -> (r: Rc<Value>)
        ensures
            r@ == lookup(self.entries(), key@),
    ;

    /// A new map in which `key` now maps to `val`; `self` is untouched and
    /// its whole chain becomes the parent of the single new head node.
    fn assoc(&self, key: Rc<Value>, val: Rc<Value>) -> (r: Self)
        ensures
            r.entries() == seq![(key@, val@)] + self.entries(),
    ;
}

impl IPersistentListMap for PersistentListMap {
    open spec fn entries(self) -> Seq<(ValueView, ValueView)> {
        entries_of(self)
    }

    fn get(&self, key: &Rc<Value>) -> (r: Rc<Value>)
        ensures
            r@ == lookup(self.entries(), key@),
    {
        let mut cur: &PersistentListMap = self;
        loop
            invariant
                lookup(entries_of(*cur), key@) == lookup(entries_of(*self), key@),
            decreases entries_of(*cur).len(),
        {
            match cur {
                PersistentListMap::Node(parent, entry) => {
                    if *entry.key == **key {
                        return Rc::clone(&entry.val);
                    }
                    proof {
                        assert(entries_of(*cur).drop_first() =~= entries_of(**parent));
                    }
                    cur = &**parent;
                },
                PersistentListMap::Empty => {
                    return Rc::new(Value::Nil);
                },
            }
        }
    }

    fn assoc(&self, key: Rc<Value>, val: Rc<Value>) -> (r: Self)
        ensures
            r.entries() == seq![(key@, val@)] + self.entries(),
            (r matches PersistentListMap::Node(p, e) && *p == *self && e.key == key && e.val
                == val),
    {
        PersistentListMap::Node(Rc::new(self.clone()), MapEntry { key, val })
    }
}

impl IPersistentListMap for Rc<PersistentListMap> {
    open spec fn entries(self) -> Seq<(ValueView, ValueView)> {
        entries_of(*self)
    }

    fn get(&self, key: &Rc<Value>) -> (r: Rc<Value>)
        ensures
            r@ == lookup(self.entries(), key@),
    {
        (**self).get(key)
    }

    fn assoc(&self, key: Rc<Value>, val: Rc<Value>) -> (r: Self)
        ensures
            r.entries() == seq![(key@, val@)] + self.entries(),
            (*r matches PersistentListMap::Node(p, e) && *p == **self && e.key == key && e.val
                == val),
    {
        Rc::new(PersistentListMap::Node(Rc::clone(self), MapEntry { key, val }))
    }
}

/// The views of a sequence of entries, in order.
pub open spec fn entry_views(s: Seq<MapEntry>) -> Seq<(ValueView, ValueView)> {
    s.map_values(|e: MapEntry| e@)
}

/// The chain that building from `es` produces: entries are folded left to
/// right onto the head, so later entries stand nearer the head and shadow
/// earlier ones with the same key.
pub open spec fn built(es: Seq<(ValueView, ValueView)>) -> Seq<(ValueView, ValueView)>
    decreases es.len(),
{
    if es.len() == 0 {
        Seq::empty()
    } else {
        seq![es.last()] + built(es.drop_last())
    }
}

impl PersistentListMap {
    /// Folds an ordered sequence of entries into a map, starting from the
    /// empty map; equivalent to calling `assoc` once per entry in order.
    pub fn from_entries(entries: Vec<MapEntry>) -> (m: Self)
        ensures
            entries_of(m) == built(entry_views(entries@)),
    {
        let mut m = PersistentListMap::Empty;
        let n = entries.len();
        let mut i: usize = 0;
        while i < n
            invariant
                n == entries@.len(),
                i <= n,
                entries_of(m) == built(entry_views(entries@.take(i as int))),
            decreases n - i,
        {
            let ghost prefix = entries@.take(i as int);
            m = PersistentListMap::Node(Rc::new(m), entries[i].clone());
            proof {
                let next = entries@.take(i + 1 as int);
                assert(next.drop_last() =~= prefix);
                assert(entry_views(next).drop_last() =~= entry_views(prefix));
                assert(entry_views(next).last() == entries@[i as int]@);
                assert(entries_of(m) =~= built(entry_views(next)));
            }
            i = i + 1;
        }
        proof {
            assert(entries@.take(n as int) =~= entries@);
        }
        m
    }
}

/// Conversion of an ordered collection of entries into a persistent list map.
pub trait ToPersistentListMap: Sized {
    /// The chain that the conversion yields, as abstract key-value pairs.
    spec fn map_model(self) -> Seq<(ValueView, ValueView)>;

    /// Builds the map; entries later in `self` shadow earlier ones that share
    /// a key.
    fn into_list_map(self) -> (m: PersistentListMap)
        ensures
            entries_of(m) == self.map_model(),
    ;
}

impl ToPersistentListMap for Vec<MapEntry> {
    open spec fn map_model(self) -> Seq<(ValueView, ValueView)> {
        built(entry_views(self@))
    }

    fn into_list_map(self) -> (m: PersistentListMap)
        ensures
            entries_of(m) == self.map_model(),
    {
        PersistentListMap::from_entries(self)
    }
}

/// The subsequence of `s` that iteration yields when the keys in `seen` have
/// already been yielded: walking head to tail, an entry whose key was already
/// seen is skipped, any other entry is kept and its key recorded.
pub open spec fn visible_from(
    s: Seq<(ValueView, ValueView)>,
    seen: Set<ValueView>,
) -> Seq<(ValueView, ValueView)>
    decreases s.len(),
{
    if s.len() == 0 {
        Seq::empty()
    } else if seen.contains(s[0].0) {
        visible_from(s.drop_first(), seen)
    } else {
        seq![s[0]] + visible_from(s.drop_first(), seen.insert(s[0].0))
    }
}

/// Everything a fresh iterator over the chain `s` yields: each distinct key
/// once, with the value nearest the head, in head-to-tail order of first
/// occurrence.
pub open spec fn visible(s: Seq<(ValueView, ValueView)>) -> Seq<(ValueView, ValueView)> {
    visible_from(s, Set::empty())
}

/// A consumable cursor over a chain that suppresses shadowed entries: it
/// remembers the keys it has yielded and skips any later entry that repeats
/// one of them.
pub struct PersistentListMapIter {
    node: Rc<PersistentListMap>,
    seen: Vec<Rc<Value>>,
}

impl PersistentListMapIter {
    /// The part of the chain the cursor has not walked yet.
    pub closed spec fn remaining(self) -> Seq<(ValueView, ValueView)> {
        entries_of(*self.node)
    }

    /// The keys of the entries yielded so far.
    pub closed spec fn seen_keys(self) -> Set<ValueView> {
        Set::new(|k: ValueView| exists|j: int| 0 <= j < self.seen@.len() && self.seen@[j]@ == k)
    }

    fn seen_contains(&self, key: &Rc<Value>) -> (r: bool)
        ensures
            r == self.seen_keys().contains(key@),
    {
        let n = self.seen.len();
        let mut i: usize = 0;
        while i < n
            invariant
                n == self.seen@.len(),
                i <= n,
                forall|j: int| 0 <= j < i ==> self.seen@[j]@ != key@,
            decreases n - i,
        {
            if *self.seen[i] == **key {
                proof {
                    assert(self.seen@[i as int]@ == key@);
                }
                return true;
            }
            i = i + 1;
        }
        false
    }

    /// The next entry whose key has not been yielded before, walking toward
    /// the tail; `None` once every remaining entry is shadowed by a yielded
    /// key. A single cursor is consumed once; restart by creating a fresh one.
    pub fn next(&mut self) -> (r: Option<MapEntry>)
        ensures
            r is None ==> visible_from(old(self).remaining(), old(self).seen_keys())
                == Seq::<(ValueView, ValueView)>::empty() && final(self).remaining().len() == 0,
            r matches Some(e) ==> visible_from(old(self).remaining(), old(self).seen_keys())
                == seq![e@] + visible_from(final(self).remaining(), final(self).seen_keys())
                && final(self).remaining().len() < old(self).remaining().len(),
    {
        loop
            invariant
                visible_from(self.remaining(), self.seen_keys()) == visible_from(
                    old(self).remaining(),
                    old(self).seen_keys(),
                ),
                self.remaining().len() <= old(self).remaining().len(),
            decreases self.remaining().len(),
        {
            let ghost pre_rem = self.remaining();
            let ghost pre_seen = self.seen_keys();
            let node = Rc::clone(&self.node);
            match &*node {
                PersistentListMap::Node(parent, entry) => {
                    proof {
                        assert(pre_rem[0] == entry@);
                        assert(pre_rem.drop_first() =~= entries_of(**parent));
                    }
                    self.node = Rc::clone(parent);
                    if self.seen_contains(&entry.key) {
                        proof {
                            assert(visible_from(pre_rem, pre_seen) == visible_from(
                                pre_rem.drop_first(),
                                pre_seen,
                            ));
                        }
                    } else {
                        let ghost pre_seen_seq = self.seen@;
                        self.seen.push(Rc::clone(&entry.key));
                        proof {
                            let pushed = self.seen@;
                            assert forall|k: ValueView|
                                self.seen_keys().contains(k) == pre_seen.insert(
                                    entry.key@,
                                ).contains(k) by {
                                    if self.seen_keys().contains(k) {
                                        let j = choose|j: int|
                                            0 <= j < pushed.len() && pushed[j]@ == k;
                                        if j < pushed.len() - 1 {
                                            assert(pre_seen_seq[j]@ == k);
                                            assert(pre_seen.contains(k));
                                        } else {
                                            assert(k == entry.key@);
                                        }
                                    }
                                    if pre_seen.contains(k) {
                                        let j = choose|j: int|
                                            0 <= j < pre_seen_seq.len() && pre_seen_seq[j]@ == k;
                                        assert(pushed[j]@ == k);
                                        assert(self.seen_keys().contains(k));
                                    }
                                    if k == entry.key@ {
                                        assert(pushed[pushed.len() - 1]@ == k);
                                        assert(self.seen_keys().contains(k));
                                    }
                                }
                            assert(self.seen_keys() =~= pre_seen.insert(entry.key@));
                        }
                        return Some(entry.clone());
                    }
                },
                PersistentListMap::Empty => {
                    return None;
                },
            }
        }
    }
}

/// Creation of a shadow-suppressing cursor over a map's chain.
pub trait ToPersistentListMapIter: Sized {
    /// The chain the cursor will walk, head first, shadowed entries included.
    spec fn chain(self) -> Seq<(ValueView, ValueView)>;

    /// A fresh cursor at the head of the chain with nothing yielded yet.
    fn iter(&self) -> (it: PersistentListMapIter)
        ensures
            it.remaining() == self.chain(),
            it.seen_keys() == Set::<ValueView>::empty(),
    ;
}

impl ToPersistentListMapIter for Rc<PersistentListMap> {
    open spec fn chain(self) -> Seq<(ValueView, ValueView)> {
        entries_of(*self)
    }

    fn iter(&self) -> (it: PersistentListMapIter)
        ensures
            it.remaining() == self.chain(),
            it.seen_keys() == Set::<ValueView>::empty(),
    {
        let it = PersistentListMapIter { node: Rc::clone(self), seen: Vec::new() };
        proof {
            assert(it.seen_keys() =~= Set::<ValueView>::empty());
        }
        it
    }
}

impl ToPersistentListMapIter for PersistentListMap {
    open spec fn chain(self) -> Seq<(ValueView, ValueView)> {
        entries_of(self)
    }

    fn iter(&self) -> (it: PersistentListMapIter)
        ensures
            it.remaining() == self.chain(),
            it.seen_keys() == Set::<ValueView>::empty(),
    {
        let rc = Rc::new(self.clone());
        rc.iter()
    }
}

impl PersistentListMap {
    /// The entries the iterator yields, collected in order: each distinct key
    /// exactly once, carrying the value that `get` returns for it.
    pub fn to_vec(&self) -> (v: Vec<MapEntry>)
        ensures
            entry_views(v@) == visible(entries_of(*self)),
    {
        let mut it = self.iter();
        let mut out: Vec<MapEntry> = Vec::new();
        proof {
            assert(entry_views(out@) =~= Seq::<(ValueView, ValueView)>::empty());
        }
        loop
            invariant
                visible(entries_of(*self)) == entry_views(out@) + visible_from(
                    it.remaining(),
                    it.seen_keys(),
                ),
            decreases it.remaining().len(),
        {
            let ghost pre = entry_views(out@);
            let ghost rest = visible_from(it.remaining(), it.seen_keys());
            match it.next() {
                Some(e) => {
                    out.push(e);
                    proof {
                        assert(entry_views(out@) =~= pre + seq![e@]);
                        assert(pre + (seq![e@] + visible_from(it.remaining(), it.seen_keys()))
                            =~= entry_views(out@) + visible_from(it.remaining(), it.seen_keys()));
                    }
                },
                None => {
                    proof {
                        assert(entry_views(out@) + rest =~= entry_views(out@));
                    }
                    return out;
                },
            }
        }
    }
}

impl Clone for PersistentListMap {
    fn clone(&self) -> (r: Self)
        ensures
            r == *self,
    {
        match self {
            PersistentListMap::Empty => PersistentListMap::Empty,
            PersistentListMap::Node(parent, entry) => PersistentListMap::Node(
                Rc::clone(parent),
                entry.clone(),
            ),
        }
    }
}

} // verus!

// Structural equality of chains: element for element down to the terminal
// `Empty`, shadowed entries included. It is strictly stronger than agreement
// of `get` on every key: two maps whose insertion histories differ can answer
// every lookup alike and still be structurally unequal.
verus! {

impl PartialEq for PersistentListMap {
    /// Structural equality: the two chains carry equal entries in the same
    /// order, shadowed duplicates included.
    fn eq(&self, other: &PersistentListMap) -> (r: bool)
        decreases entries_of(*self).len(),
    {
        match (self, other) {
            (PersistentListMap::Empty, PersistentListMap::Empty) => true,
            (PersistentListMap::Node(p1, e1), PersistentListMap::Node(p2, e2)) => {
                proof {
                    assert(entries_of(*self).drop_first() =~= entries_of(**p1));
                    assert(entries_of(*other).drop_first() =~= entries_of(**p2));
                }
                if *e1 == *e2 {
                    let r = **p1 == **p2;
                    proof {
                        if r {
                            assert(entries_of(*self) =~= entries_of(*other));
                        } else {
                            assert(entries_of(*self) != entries_of(*other)) by {
                                if entries_of(*self) == entries_of(*other) {
                                    assert(entries_of(**p1) =~= entries_of(**p2));
                                }
                            }
                        }
                    }
                    r
                } else {
                    proof {
                        assert(entries_of(*self)[0] != entries_of(*other)[0]);
                    }
                    false
                }
            },
            _ => {
                proof {
                    assert(entries_of(*self).len() != entries_of(*other).len());
                }
                false
            },
        }
    }
}

impl vstd::std_specs::cmp::PartialEqSpecImpl for PersistentListMap {
    open spec fn obeys_eq_spec() -> bool {
        true
    }

    open spec fn eq_spec(&self, other: &PersistentListMap) -> bool {
        entries_of(*self) == entries_of(*other)
    }
}

} // verus!

// Rendering: the map prints as `{k1 v1, k2 v2, ...}` where the pairs are
// exactly what the iterator yields, in its order. Two logically equal maps
// built through different insertion histories may therefore render
// differently.
verus! {

use crate::value::render_value;

/// The rendering of one visible entry: key, a space, value.
pub open spec fn render_pair(e: (ValueView, ValueView)) -> Seq<char> {
    render_value(e.0) + seq![' '] + render_value(e.1)
}

/// The renderings of the visible entries in order, separated by a comma and
/// a space.
pub open spec fn render_pairs(s: Seq<(ValueView, ValueView)>) -> Seq<char>
    decreases s.len(),
{
    if s.len() == 0 {
        Seq::empty()
    } else if s.len() == 1 {
        render_pair(s[0])
    } else {
        render_pair(s[0]) + seq![',', ' '] + render_pairs(s.drop_first())
    }
}

/// The rendering of a whole chain: its visible entries between braces.
pub open spec fn rendered(chain: Seq<(ValueView, ValueView)>) -> Seq<char> {
    seq!['{'] + render_pairs(visible(chain)) + seq!['}']
}

proof fn lemma_render_pairs_push(s: Seq<(ValueView, ValueView)>, e: (ValueView, ValueView))
    ensures
        render_pairs(s.push(e)) == if s.len() == 0 {
            render_pair(e)
        } else {
            render_pairs(s) + seq![',', ' '] + render_pair(e)
        },
    decreases s.len(),
{
    if s.len() == 0 {
        assert(s.push(e) =~= seq![e]);
    } else if s.len() == 1 {
        assert(s.push(e).drop_first() =~= seq![e]);
        assert(s.push(e)[0] == s[0]);
        assert(render_pairs(seq![e]) == render_pair(seq![e][0]));
        assert(seq![e][0] == e);
        assert(render_pairs(s.push(e)) == render_pair(s[0]) + seq![',', ' '] + render_pair(e));
    } else {
        assert(s.push(e).drop_first() =~= s.drop_first().push(e));
        lemma_render_pairs_push(s.drop_first(), e);
        assert(s.push(e)[0] == s[0]);
        assert(render_pairs(s.push(e)) == render_pair(s[0]) + seq![',', ' '] + (render_pairs(
            s.drop_first(),
        ) + seq![',', ' '] + render_pair(e)));
        assert(render_pair(s[0]) + seq![',', ' '] + (render_pairs(s.drop_first()) + seq![',', ' ']
            + render_pair(e)) =~= (render_pair(s[0]) + seq![',', ' '] + render_pairs(
            s.drop_first(),
        )) + seq![',', ' '] + render_pair(e));
    }
}

impl PersistentListMap {
    /// Renders the map for human reading: the iterator's entries, each as
    /// `key value`, comma-separated between braces. Diagnostic only; the pair
    /// order is most-recent-visible-insertion first, not insertion order.
    pub fn to_display_string(&self) -> (r: String)
        ensures
            r@ == rendered(entries_of(*self)),
    {
        let ghost vis = visible(entries_of(*self));
        let v = self.to_vec();
        let mut s = String::new();
        s.append("{");
        proof {
            reveal_strlit("{");
            assert(s@ =~= seq!['{'] + render_pairs(vis.take(0)));
        }
        let n = v.len();
        let mut i: usize = 0;
        while i < n
            invariant
                n == v@.len(),
                i <= n,
                entry_views(v@) == vis,
                s@ == seq!['{'] + render_pairs(vis.take(i as int)),
            decreases n - i,
        {
            if i > 0 {
                s.append(", ");
            }
            let e = &v[i];
            proof {
                assert(e@ == vis[i as int]);
            }
            let ks = (*e.key).to_string_explicit();
            s.append(ks.as_str());
            s.append(" ");
            let vs = (*e.val).to_string_explicit();
            s.append(vs.as_str());
            proof {
                reveal_strlit(", ");
                reveal_strlit(" ");
                lemma_render_pairs_push(vis.take(i as int), vis[i as int]);
                assert(vis.take(i + 1 as int) =~= vis.take(i as int).push(vis[i as int]));
                assert(s@ =~= seq!['{'] + render_pairs(vis.take(i + 1 as int)));
            }
            i = i + 1;
        }
        s.append("}");
        proof {
            reveal_strlit("}");
            assert(vis.take(n as int) =~= vis);
            assert(s@ =~= rendered(entries_of(*self)));
        }
        s
    }
}

} // verus!
