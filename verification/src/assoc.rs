//! Small association lists keyed by `String`, used for the named vertex
//! buffers of a vertex array and for the uniform-location cache.  Keys are
//! kept pairwise distinct; lookup is by the first (hence only) match.

use vstd::prelude::*;

verus! {

/// The value stored under `name`, by first match.
pub open spec fn al_lookup<V>(s: Seq<(String, V)>, name: Seq<char>) -> Option<V>
    decreases s.len(),
{
    if s.len() == 0 {
        None
    } else if s[0].0@ == name {
        Some(s[0].1)
    } else {
        al_lookup(s.drop_first(), name)
    }
}

/// All keys are pairwise distinct.
pub open spec fn al_unique<V>(s: Seq<(String, V)>) -> bool {
    forall|i: int, j: int| 0 <= i < j < s.len() ==> s[i].0@ != s[j].0@
}

/// Lookup misses exactly when no entry carries the key.
pub proof fn lemma_al_lookup_none<V>(s: Seq<(String, V)>, name: Seq<char>)
    ensures
        al_lookup(s, name) is None <==> forall|k: int| 0 <= k < s.len() ==> s[k].0@ != name,
    decreases s.len(),
{
    if s.len() > 0 {
        lemma_al_lookup_none(s.drop_first(), name);
        assert forall|k: int| 1 <= k < s.len() implies s.drop_first()[k - 1] == s[k] by {}
    }
}

/// When an entry carries the key, lookup finds one.
pub proof fn lemma_al_lookup_found<V>(s: Seq<(String, V)>, name: Seq<char>, k: int)
    requires
        0 <= k < s.len(),
        s[k].0@ == name,
        al_unique(s),
    ensures
        al_lookup(s, name) == Some(s[k].1),
    decreases k,
{
    if k > 0 {
        lemma_al_lookup_found(s.drop_first(), name, k - 1);
    }
}

/// Appending a fresh entry adds its key and changes no other.
pub proof fn lemma_al_lookup_push<V>(s: Seq<(String, V)>, e: (String, V), name: Seq<char>)
    ensures
        al_lookup(s, name) is Some ==> al_lookup(s.push(e), name) == al_lookup(s, name),
        al_lookup(s, name) is None && e.0@ == name ==> al_lookup(s.push(e), name) == Some(e.1),
        al_lookup(s, name) is None && e.0@ != name ==> al_lookup(s.push(e), name) is None,
    decreases s.len(),
{
    if s.len() == 0 {
        assert(s.push(e)[0] == e);
        assert(s.push(e).drop_first() =~= Seq::<(String, V)>::empty());
        assert(al_lookup(s.push(e).drop_first(), name) is None);
    } else {
        lemma_al_lookup_push(s.drop_first(), e, name);
        assert(s.push(e)[0] == s[0]);
        assert(s.push(e).drop_first() =~= s.drop_first().push(e));
        if s[0].0@ != name {
            assert(al_lookup(s.push(e), name) == al_lookup(s.drop_first().push(e), name));
            assert(al_lookup(s, name) == al_lookup(s.drop_first(), name));
        }
    }
}

/// Removing the entry at `k` drops its key and changes no other, as long as
/// keys are distinct.
pub proof fn lemma_al_lookup_remove<V>(s: Seq<(String, V)>, k: int, name: Seq<char>)
    requires
        0 <= k < s.len(),
        al_unique(s),
    ensures
        s[k].0@ == name ==> al_lookup(s.remove(k), name) is None,
        s[k].0@ != name ==> al_lookup(s.remove(k), name) == al_lookup(s, name),
    decreases k,
{
    if k == 0 {
        assert(s.remove(0) =~= s.drop_first());
        if s[0].0@ == name {
            lemma_al_lookup_none(s.drop_first(), name);
            assert forall|j: int| 0 <= j < s.drop_first().len() implies s.drop_first()[j].0@
                != name by {
                assert(s.drop_first()[j] == s[j + 1]);
            }
        }
    } else {
        assert(s.remove(k).drop_first() =~= s.drop_first().remove(k - 1));
        assert forall|i: int, j: int| 0 <= i < j < s.drop_first().len() implies s.drop_first()[i].0@
            != s.drop_first()[j].0@ by {
            assert(s.drop_first()[i] == s[i + 1]);
            assert(s.drop_first()[j] == s[j + 1]);
        }
        lemma_al_lookup_remove(s.drop_first(), k - 1, name);
    }
}

/// Index of the entry carrying `name`, if one does.
pub fn al_find<V>(entries: &Vec<(String, V)>, name: &str) -> (r: Option<usize>)
    ensures
        match r {
            Some(i) => i < entries@.len() && entries@[i as int].0@ == name@,
            None => al_lookup(entries@, name@) is None,
        },
{
    let mut i: usize = 0;
    proof {
        assert(entries@.skip(0) =~= entries@);
    }
    while i < entries.len()
        invariant
            i <= entries@.len(),
            al_lookup(entries@.skip(i as int), name@) == al_lookup(entries@, name@),
            forall|k: int| 0 <= k < i ==> entries@[k].0@ != name@,
        decreases entries@.len() - i,
    {
        proof {
            assert(entries@.skip(i as int)[0] == entries@[i as int]);
            assert(entries@.skip(i as int).drop_first() =~= entries@.skip(i as int + 1));
        }
        if crate::text::str_eq(entries[i].0.as_str(), name) {
            return Some(i);
        }
        i = i + 1;
    }
    proof {
        assert(entries@.skip(entries@.len() as int) =~= Seq::<(String, V)>::empty());
    }
    None
}

/// Stores `v` under `name`, replacing what the name held before.
pub fn al_set<V>(entries: &mut Vec<(String, V)>, name: &str, v: V)
    requires
        al_unique(old(entries)@),
    ensures
        al_unique(final(entries)@),
        al_lookup(final(entries)@, name@) == Some(v),
        forall|o: Seq<char>| o != name@ ==> al_lookup(final(entries)@, o) == al_lookup(
            old(entries)@,
            o,
        ),
{
    al_remove(entries, name);
    let ghost pre = entries@;
    entries.push((name.to_owned(), v));
    proof {
        lemma_al_lookup_none(pre, name@);
        assert forall|i: int, j: int| 0 <= i < j < entries@.len() implies entries@[i].0@
            != entries@[j].0@ by {
            if j == entries@.len() - 1 {
                assert(entries@[i] == pre[i]);
            } else {
                assert(entries@[i] == pre[i]);
                assert(entries@[j] == pre[j]);
            }
        }
        lemma_al_lookup_push(pre, entries@[entries@.len() - 1], name@);
        assert forall|o: Seq<char>| o != name@ implies al_lookup(entries@, o) == al_lookup(
            pre,
            o,
        ) by {
            lemma_al_lookup_push(pre, entries@[entries@.len() - 1], o);
        }
    }
}

/// Drops whatever `name` held; every other name keeps its value.
pub fn al_remove<V>(entries: &mut Vec<(String, V)>, name: &str)
    requires
        al_unique(old(entries)@),
    ensures
        al_unique(final(entries)@),
        al_lookup(final(entries)@, name@) is None,
        forall|o: Seq<char>| o != name@ ==> al_lookup(final(entries)@, o) == al_lookup(
            old(entries)@,
            o,
        ),
{
    let found = al_find(entries, name);
    match found {
        None => {
            proof {
                lemma_al_lookup_none(entries@, name@);
            }
        },
        Some(i) => {
            let ghost pre = entries@;
            entries.remove(i);
            proof {
                assert(entries@ =~= pre.remove(i as int));
                assert forall|a: int, b: int| 0 <= a < b < entries@.len() implies entries@[a].0@
                    != entries@[b].0@ by {
                    assert(entries@[a] == if a < i { pre[a] } else { pre[a + 1] });
                    assert(entries@[b] == if b < i { pre[b] } else { pre[b + 1] });
                }
                lemma_al_lookup_remove(pre, i as int, name@);
                assert forall|o: Seq<char>| o != name@ implies al_lookup(entries@, o) == al_lookup(
                    pre,
                    o,
                ) by {
                    lemma_al_lookup_remove(pre, i as int, o);
                }
            }
        },
    }
}

} // verus!
