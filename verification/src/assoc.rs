//! Association lists keyed by strings: the shared spec-level lookup that
//! the statistics maps and the sender registry are specified with, and the
//! lemmas that connect it to index-wise reasoning and to updates.

use vstd::prelude::*;

verus! {

/// First entry of an association list whose key is `key`.
pub open spec fn assoc_get<V>(entries: Seq<(Seq<char>, V)>, key: Seq<char>) -> Option<V>
    decreases entries.len(),
{
    if entries.len() == 0 {
        None
    } else if entries[0].0 == key {
        Some(entries[0].1)
    } else {
        assoc_get(entries.drop_first(), key)
    }
}

/// When the first occurrence of `key` is at `i`, `assoc_get` yields its value.
pub proof fn lemma_assoc_get_found<V>(entries: Seq<(Seq<char>, V)>, key: Seq<char>, i: int)
    requires
        0 <= i < entries.len(),
        entries[i].0 == key,
        forall|j: int| 0 <= j < i ==> entries[j].0 != key,
    ensures
        assoc_get(entries, key) == Some(entries[i].1),
    decreases i,
{
    if i > 0 {
        lemma_assoc_get_found(entries.drop_first(), key, i - 1);
    }
}

/// When no entry is keyed `key`, `assoc_get` yields nothing.
pub proof fn lemma_assoc_get_absent<V>(entries: Seq<(Seq<char>, V)>, key: Seq<char>)
    requires
        forall|j: int| 0 <= j < entries.len() ==> entries[j].0 != key,
    ensures
        assoc_get(entries, key) is None,
    decreases entries.len(),
{
    if entries.len() > 0 {
        lemma_assoc_get_absent(entries.drop_first(), key);
    }
}

/// Appending an entry with a fresh key: the new key is found with the new
/// value, every other key reads as before.
pub proof fn lemma_assoc_get_push<V>(
    entries: Seq<(Seq<char>, V)>,
    p: (Seq<char>, V),
    key: Seq<char>,
)
    requires
        assoc_get(entries, p.0) is None,
    ensures
        assoc_get(entries.push(p), key) == if key == p.0 {
            Some(p.1)
        } else {
            assoc_get(entries, key)
        },
    decreases entries.len(),
{
    if entries.len() == 0 {
        assert(entries.push(p) =~= seq![p]);
        assert(entries.push(p).len() == 1);
        assert(entries.push(p)[0] == p);
        if key == p.0 {
            assert(assoc_get(entries.push(p), key) == Some(p.1));
        } else {
            reveal_with_fuel(assoc_get, 2);
            assert(entries.push(p).drop_first().len() == 0);
            assert(assoc_get(entries.push(p), key) is None);
            assert(assoc_get(entries, key) is None);
        }
    } else {
        let e0 = entries[0];
        assert(e0.0 != p.0);
        lemma_assoc_get_push(entries.drop_first(), p, key);
        assert(entries.push(p).drop_first() =~= entries.drop_first().push(p));
        assert(entries.push(p)[0] == entries[0]);
        assert(entries.push(p).len() == entries.len() + 1);
        if e0.0 == key {
            assert(assoc_get(entries.push(p), key) == Some(e0.1));
            assert(assoc_get(entries, key) == Some(e0.1));
            assert(key != p.0);
        } else {
            assert(assoc_get(entries.push(p), key) == assoc_get(
                entries.drop_first().push(p),
                key,
            ));
            assert(assoc_get(entries, key) == assoc_get(entries.drop_first(), key));
        }
    }
}

/// Removing the entry at `i`, when no other entry shares its key: that key
/// now reads as absent, every other key reads as before.
pub proof fn lemma_assoc_get_remove<V>(entries: Seq<(Seq<char>, V)>, i: int, key: Seq<char>)
    requires
        0 <= i < entries.len(),
        forall|j: int| 0 <= j < entries.len() && j != i ==> (#[trigger] entries[j]).0
            != entries[i].0,
    ensures
        assoc_get(entries.remove(i), key) == if key == entries[i].0 {
            None::<V>
        } else {
            assoc_get(entries, key)
        },
    decreases entries.len(),
{
    if i == 0 {
        assert(entries.remove(0) =~= entries.drop_first());
        if key == entries[0].0 {
            assert forall|j: int|
                0 <= j < entries.drop_first().len() implies (#[trigger] entries.drop_first()[j]).0
                != key by {
                assert(entries.drop_first()[j] == entries[j + 1]);
            }
            lemma_assoc_get_absent(entries.drop_first(), key);
        }
    } else {
        assert forall|j: int|
            0 <= j < entries.drop_first().len() && j != i - 1 implies (#[trigger] entries
                .drop_first()[j]).0 != entries.drop_first()[i - 1].0 by {
            assert(entries.drop_first()[j] == entries[j + 1]);
            assert(entries.drop_first()[i - 1] == entries[i]);
        }
        lemma_assoc_get_remove(entries.drop_first(), i - 1, key);
        assert(entries.remove(i).drop_first() =~= entries.drop_first().remove(i - 1));
        assert(entries.remove(i)[0] == entries[0]);
    }
}

} // verus!
