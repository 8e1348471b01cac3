//! Laws of the persistent list map, stated and proved over the mathematical
//! model: chains as sequences of abstract key-value pairs.

use vstd::prelude::*;

use crate::list_map::PersistentListMap;
use crate::list_map::built;
use crate::list_map::contains_key;
use crate::list_map::entries_of;
use crate::list_map::lookup;
use crate::list_map::visible;
use crate::list_map::visible_from;
use crate::value::ValueView;

verus! {

/// The empty map answers every lookup with the absent sentinel.
pub proof fn lemma_empty_absent(key: ValueView)
    ensures
        lookup(entries_of(PersistentListMap::Empty), key) == ValueView::Nil,
{
}

/// A key that occurs nowhere in a chain looks up to the absent sentinel.
pub proof fn lemma_absent_lookup(s: Seq<(ValueView, ValueView)>, key: ValueView)
    requires
        !contains_key(s, key),
    ensures
        lookup(s, key) == ValueView::Nil,
    decreases s.len(),
{
    if s.len() > 0 {
        assert(s[0].0 != key);
        assert(!contains_key(s.drop_first(), key)) by {
            if contains_key(s.drop_first(), key) {
                let j = choose|j: int|
                    0 <= j < s.drop_first().len() && s.drop_first()[j].0 == key;
                assert(s[j + 1].0 == key);
            }
        }
        lemma_absent_lookup(s.drop_first(), key);
    }
}

/// Insertion is non-destructive and most-recent-wins: on the chain that
/// `assoc` produces, looking up the inserted key finds the new value, and
/// looking up any other key answers exactly as the chain below does. That
/// chain itself is untouched: `assoc` only allocates a new head node over
/// it.
pub proof fn lemma_assoc_lookup(
    s: Seq<(ValueView, ValueView)>,
    key: ValueView,
    val: ValueView,
    probe: ValueView,
)
    ensures
        lookup(seq![(key, val)] + s, probe) == if probe == key {
            val
        } else {
            lookup(s, probe)
        },
{
    let t = seq![(key, val)] + s;
    assert(t[0] == (key, val));
    assert(t.drop_first() =~= s);
}

/// Shadowing: inserting the same key twice leaves the later value visible,
/// whatever the chain below holds.
pub proof fn lemma_shadowing(
    s: Seq<(ValueView, ValueView)>,
    key: ValueView,
    v1: ValueView,
    v2: ValueView,
)
    ensures
        lookup(seq![(key, v2)] + (seq![(key, v1)] + s), key) == v2,
{
    lemma_assoc_lookup(seq![(key, v1)] + s, key, v2, key);
}

/// Building from a sequence of entries is the same as inserting them in
/// order: appending one entry to the input produces exactly the chain that
/// one `assoc` of that entry produces on the previously built map.
pub proof fn lemma_built_push(es: Seq<(ValueView, ValueView)>, e: (ValueView, ValueView))
    ensures
        built(es.push(e)) == seq![e] + built(es),
{
    assert(es.push(e).drop_last() =~= es);
    assert(es.push(e).last() == e);
}

proof fn lemma_visible_from_props(s: Seq<(ValueView, ValueView)>, seen: Set<ValueView>)
    ensures
        forall|i: int|
            0 <= i < visible_from(s, seen).len() ==> !seen.contains(
                #[trigger] visible_from(s, seen)[i].0,
            ),
        forall|i: int, j: int|
            0 <= i < j < visible_from(s, seen).len() ==> visible_from(s, seen)[i].0
                != visible_from(s, seen)[j].0,
        forall|i: int|
            0 <= i < visible_from(s, seen).len() ==> lookup(
                s,
                #[trigger] visible_from(s, seen)[i].0,
            ) == visible_from(s, seen)[i].1 && contains_key(s, visible_from(s, seen)[i].0),
        forall|k: ValueView|
            #[trigger] contains_key(s, k) && !seen.contains(k) ==> exists|i: int|
                0 <= i < visible_from(s, seen).len() && #[trigger] visible_from(s, seen)[i].0
                    == k,
    decreases s.len(),
{
    if s.len() == 0 {
        assert(forall|k: ValueView| !contains_key(s, k));
    } else {
        let head = s[0];
        let rest = s.drop_first();
        let vf = visible_from(s, seen);
        assert(forall|j: int| 0 <= j < rest.len() ==> rest[j] == s[j + 1]);
        if seen.contains(head.0) {
            lemma_visible_from_props(rest, seen);
            assert(vf == visible_from(rest, seen));
            assert forall|i: int| 0 <= i < vf.len() implies lookup(s, #[trigger] vf[i].0)
                == vf[i].1 && contains_key(s, vf[i].0) by {
                assert(vf[i].0 != head.0);
                assert(lookup(s, vf[i].0) == lookup(rest, vf[i].0));
                let j = choose|j: int| 0 <= j < rest.len() && rest[j].0 == vf[i].0;
                assert(s[j + 1].0 == vf[i].0);
            }
            assert forall|k: ValueView|
                #[trigger] contains_key(s, k) && !seen.contains(k) implies exists|i: int|
                0 <= i < vf.len() && #[trigger] vf[i].0 == k by {
                assert(k != head.0);
                let j = choose|j: int| 0 <= j < s.len() && s[j].0 == k;
                assert(j >= 1);
                assert(rest[j - 1].0 == k);
                assert(contains_key(rest, k));
            }
        } else {
            let seen2 = seen.insert(head.0);
            lemma_visible_from_props(rest, seen2);
            let vr = visible_from(rest, seen2);
            assert(vf == seq![head] + vr);
            assert(vf[0] == head);
            assert(forall|i: int| 1 <= i < vf.len() ==> vf[i] == vr[i - 1]);
            assert forall|i: int| 0 <= i < vf.len() implies !seen.contains(
                #[trigger] vf[i].0,
            ) by {
                if i >= 1 {
                    assert(!seen2.contains(vr[i - 1].0));
                }
            }
            assert forall|i: int, j: int| 0 <= i < j < vf.len() implies vf[i].0 != vf[j].0 by {
                if i == 0 {
                    assert(!seen2.contains(vr[j - 1].0));
                } else {
                    assert(vr[i - 1].0 != vr[j - 1].0);
                }
            }
            assert forall|i: int| 0 <= i < vf.len() implies lookup(s, #[trigger] vf[i].0)
                == vf[i].1 && contains_key(s, vf[i].0) by {
                if i == 0 {
                    assert(lookup(s, head.0) == head.1);
                    assert(s[0].0 == head.0);
                } else {
                    assert(!seen2.contains(vr[i - 1].0));
                    assert(vf[i].0 != head.0);
                    assert(lookup(s, vf[i].0) == lookup(rest, vf[i].0));
                    let j = choose|j: int| 0 <= j < rest.len() && rest[j].0 == vf[i].0;
                    assert(s[j + 1].0 == vf[i].0);
                }
            }
            assert forall|k: ValueView|
                #[trigger] contains_key(s, k) && !seen.contains(k) implies exists|i: int|
                0 <= i < vf.len() && #[trigger] vf[i].0 == k by {
                if k == head.0 {
                    assert(vf[0].0 == k);
                } else {
                    let j = choose|j: int| 0 <= j < s.len() && s[j].0 == k;
                    assert(j >= 1);
                    assert(rest[j - 1].0 == k);
                    assert(contains_key(rest, k));
                    assert(!seen2.contains(k));
                    let i = choose|i: int| 0 <= i < vr.len() && vr[i].0 == k;
                    assert(vf[i + 1].0 == k);
                }
            }
        }
    }
}

/// Iteration is complete and duplicate-free: over any chain, the visible
/// sequence that a fresh iterator yields carries each distinct key at most
/// once, every yielded pair is a key of the chain together with exactly the
/// value a lookup finds for it, and every key of the chain is yielded.
pub proof fn lemma_iteration_properties(s: Seq<(ValueView, ValueView)>)
    ensures
        forall|i: int, j: int|
            0 <= i < j < visible(s).len() ==> visible(s)[i].0 != visible(s)[j].0,
        forall|i: int|
            0 <= i < visible(s).len() ==> lookup(s, #[trigger] visible(s)[i].0) == visible(
                s,
            )[i].1 && contains_key(s, visible(s)[i].0),
        forall|k: ValueView|
            #[trigger] contains_key(s, k) ==> exists|i: int|
                0 <= i < visible(s).len() && #[trigger] visible(s)[i].0 == k,
        forall|k: ValueView| lookup(s, k) != ValueView::Nil ==> #[trigger] contains_key(s, k),
{
    lemma_visible_from_props(s, Set::empty());
    assert forall|k: ValueView|
        lookup(s, k) != ValueView::Nil implies #[trigger] contains_key(s, k) by {
        if !contains_key(s, k) {
            lemma_absent_lookup(s, k);
        }
    }
}

/// Structural equality is stricter than logical equality: a chain holding a
/// shadowed duplicate of a key answers every lookup exactly as the chain
/// without the duplicate, yet the two chains are different whenever the two
/// values differ.
pub proof fn lemma_structural_stricter_than_logical(
    key: ValueView,
    v1: ValueView,
    v2: ValueView,
    probe: ValueView,
)
    ensures
        lookup(seq![(key, v2), (key, v1)], probe) == lookup(seq![(key, v2)], probe),
        v1 != v2 ==> seq![(key, v2), (key, v1)] != seq![(key, v2)],
{
    let long = seq![(key, v2), (key, v1)];
    let short = seq![(key, v2)];
    assert(long[0] == (key, v2));
    assert(short[0] == (key, v2));
    if probe != key {
        assert(long.drop_first() =~= seq![(key, v1)]);
        assert(long.drop_first()[0] == (key, v1));
        assert(seq![(key, v1)].drop_first() =~= Seq::<(ValueView, ValueView)>::empty());
        assert(short.drop_first() =~= Seq::<(ValueView, ValueView)>::empty());
        assert(seq![(key, v1)][0] == (key, v1));
        assert(lookup(long, probe) == lookup(seq![(key, v1)], probe));
        assert(lookup(seq![(key, v1)], probe) == lookup(
            Seq::<(ValueView, ValueView)>::empty(),
            probe,
        ));
        assert(lookup(Seq::<(ValueView, ValueView)>::empty(), probe) == ValueView::Nil);
        assert(lookup(short, probe) == lookup(Seq::<(ValueView, ValueView)>::empty(), probe));
    }
}

} // verus!
