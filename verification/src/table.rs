//! The model of a name-keyed table kept as an ordered list of bindings.
//!
//! Both symbol tables are vectors of `(name, entry)` pairs whose model is
//! the sequence of `(name view, entry view)` pairs.  Keys stay unique
//! because insertion overwrites the binding of an existing key in place;
//! the list order is therefore the order of first insertion, which keeps
//! every walk over a table deterministic.

use vstd::prelude::*;

verus! {

/// The index of the first binding of `name`, or `-1` when there is none.
pub open spec fn key_index<EV>(tv: Seq<(Seq<char>, EV)>, name: Seq<char>) -> int
    decreases tv,
{
    if tv.len() == 0 {
        -1
    } else if tv.first().0 == name {
        0
    } else {
        let r = key_index(tv.subrange(1, tv.len() as int), name);
        if r < 0 {
            -1
        } else {
            r + 1
        }
    }
}

/// What `key_index` finds: a well-placed binding, or none anywhere.
pub broadcast proof fn lemma_key_index<EV>(tv: Seq<(Seq<char>, EV)>, name: Seq<char>)
    ensures
        -1 <= #[trigger] key_index(tv, name) < tv.len(),
        key_index(tv, name) == -1 ==> forall|i: int| 0 <= i < tv.len() ==> (#[trigger] tv[i]).0
            != name,
        key_index(tv, name) >= 0 ==> tv[key_index(tv, name)].0 == name,
        key_index(tv, name) >= 0 ==> forall|i: int|
            0 <= i < key_index(tv, name) ==> (#[trigger] tv[i]).0 != name,
    decreases tv,
{
    if tv.len() > 0 && tv.first().0 != name {
        let rest = tv.subrange(1, tv.len() as int);
        lemma_key_index(rest, name);
        assert(forall|i: int| 1 <= i < tv.len() ==> #[trigger] tv[i] == rest[i - 1]);
        assert(tv[0] == tv.first());
    }
}

/// The model of a binding list, pair by pair.
pub open spec fn pair_views<E: View>(ps: Seq<(String, E)>) -> Seq<(Seq<char>, E::V)>
    decreases ps,
{
    if ps.len() == 0 {
        Seq::empty()
    } else {
        pair_views(ps.drop_last()).push((ps.last().0@, ps.last().1@))
    }
}

/// `pair_views` maps the binding list pointwise.
pub broadcast proof fn lemma_pair_views<E: View>(ps: Seq<(String, E)>)
    ensures
        #[trigger] pair_views(ps).len() == ps.len(),
        forall|i: int|
            0 <= i < ps.len() ==> pair_views(ps)[i] == (ps[i].0@, ps[i].1@),
    decreases ps.len(),
{
    if ps.len() > 0 {
        lemma_pair_views(ps.drop_last());
        assert(forall|i: int|
            0 <= i < ps.len() - 1 ==> pair_views(ps)[i] == pair_views(ps.drop_last())[i]);
        assert(forall|i: int| 0 <= i < ps.len() - 1 ==> ps.drop_last()[i] == ps[i]);
    }
}

/// The binding of `name`, if any.
pub open spec fn spec_get<EV>(tv: Seq<(Seq<char>, EV)>, name: Seq<char>) -> Option<EV> {
    let i = key_index(tv, name);
    if i < 0 {
        None
    } else {
        Some(tv[i].1)
    }
}

/// The table after binding `name` to `e`: overwritten in place when the
/// key exists, appended otherwise.
pub open spec fn spec_insert<EV>(tv: Seq<(Seq<char>, EV)>, name: Seq<char>, e: EV) -> Seq<
    (Seq<char>, EV),
> {
    let i = key_index(tv, name);
    if i < 0 {
        tv.push((name, e))
    } else {
        tv.update(i, (name, e))
    }
}

/// After an insertion the key is bound to the new entry and every other
/// key keeps its binding.
pub proof fn lemma_spec_insert<EV>(tv: Seq<(Seq<char>, EV)>, name: Seq<char>, e: EV)
    ensures
        spec_get(spec_insert(tv, name, e), name) == Some(e),
        forall|other: Seq<char>|
            other != name ==> #[trigger] spec_get(spec_insert(tv, name, e), other) == spec_get(
                tv,
                other,
            ),
    decreases tv,
{
    lemma_key_index(tv, name);
    let tv1 = spec_insert(tv, name, e);
    if tv.len() == 0 {
        assert(tv1 =~= seq![(name, e)]);
        assert forall|other: Seq<char>| other != name implies #[trigger] spec_get(tv1, other)
            == spec_get(tv, other) by {
            reveal_with_fuel(key_index, 3);
            assert(tv1.subrange(1, 1).len() == 0);
            assert(key_index(tv1, other) == -1);
        }
        reveal_with_fuel(key_index, 3);
        assert(key_index(tv1, name) == 0);
    } else if tv.first().0 == name {
        assert(tv1 =~= tv.update(0, (name, e)));
        assert(tv1.first() == (name, e));
        assert forall|other: Seq<char>| other != name implies #[trigger] spec_get(tv1, other)
            == spec_get(tv, other) by {
            lemma_key_index(tv, other);
            assert(tv1.subrange(1, tv1.len() as int) =~= tv.subrange(1, tv.len() as int));
            assert(key_index(tv1, other) == key_index(tv, other));
        }
    } else {
        let rest = tv.subrange(1, tv.len() as int);
        lemma_key_index(rest, name);
        lemma_spec_insert(rest, name, e);
        let rest1 = spec_insert(rest, name, e);
        assert(tv1.first() == tv.first());
        assert(tv1.subrange(1, tv1.len() as int) =~= rest1);
        assert(forall|i: int| 1 <= i < tv1.len() ==> #[trigger] tv1[i] == rest1[i - 1]);
        assert(forall|i: int| 1 <= i < tv.len() ==> #[trigger] tv[i] == rest[i - 1]);
        lemma_key_index(rest1, name);
        assert(spec_get(tv1, name) == spec_get(rest1, name));
        assert forall|other: Seq<char>| other != name implies #[trigger] spec_get(tv1, other)
            == spec_get(tv, other) by {
            lemma_key_index(tv, other);
            lemma_key_index(rest, other);
            lemma_key_index(rest1, other);
            lemma_key_index(tv1, other);
            if tv.first().0 == other {
                assert(key_index(tv1, other) == 0);
                assert(key_index(tv, other) == 0);
            } else {
                assert(spec_get(tv1, other) == spec_get(rest1, other));
                assert(spec_get(tv, other) == spec_get(rest, other));
            }
        }
    }
}

/// Finds the index of the binding of `name` in a binding list.
pub fn map_find<E: View>(entries: &Vec<(String, E)>, name: &String) -> (r: Option<usize>)
    ensures
        match r {
            Some(i) => 0 <= i < pair_views(entries@).len() && key_index(
                pair_views(entries@),
                name@,
            ) == i,
            None => key_index(pair_views(entries@), name@) == -1,
        },
{
    proof {
        lemma_pair_views(entries@);
    }
    let ghost tv = pair_views(entries@);
    let mut i: usize = 0;
    while i < entries.len()
        invariant
            i <= entries.len(),
            tv == pair_views(entries@),
            tv.len() == entries@.len(),
            forall|j: int| 0 <= j < tv.len() ==> tv[j] == (entries@[j].0@, entries@[j].1@),
            key_index(tv, name@) >= 0 ==> key_index(tv, name@) >= i,
        decreases entries.len() - i,
    {
        if entries[i].0 == *name {
            proof {
                lemma_key_index(tv, name@);
                assert(tv[i as int].0 == name@);
                if key_index(tv, name@) == -1 {
                    assert(false);
                }
                if key_index(tv, name@) > i {
                    assert(tv[i as int].0 != name@);
                }
            }
            return Some(i);
        }
        proof {
            lemma_key_index(tv, name@);
            if key_index(tv, name@) == i {
                assert(tv[i as int].0 == name@);
            }
        }
        i += 1;
    }
    proof {
        lemma_key_index(tv, name@);
    }
    None
}

/// Binds `name` to `e` in a binding list, overwriting in place when the
/// key exists and appending otherwise.
pub fn map_insert<E: View>(entries: &mut Vec<(String, E)>, name: String, e: E)
    ensures
        pair_views(final(entries)@) == spec_insert(pair_views(old(entries)@), name@, e@),
{
    proof {
        lemma_pair_views(entries@);
    }
    let found = map_find(entries, &name);
    match found {
        Some(i) => {
            entries.set(i, (name, e));
            proof {
                lemma_pair_views(entries@);
                lemma_pair_views(old(entries)@);
                assert(pair_views(final(entries)@) =~= pair_views(old(entries)@).update(
                    key_index(pair_views(old(entries)@), name@),
                    (name@, e@),
                ));
            }
        },
        None => {
            entries.push((name, e));
            proof {
                lemma_pair_views(entries@);
                lemma_pair_views(old(entries)@);
                assert(pair_views(final(entries)@) =~= pair_views(old(entries)@).push((name@, e@)));
            }
        },
    }
}

} // verus!
