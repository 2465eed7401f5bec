//! Text-keyed association lists: the library's maps. A list of pairs stands
//! for the map in which each key takes the value of its first pair.

use vstd::prelude::*;

use crate::order::{compare_text, lemma_text_lt_total, lemma_text_lt_transitive, strictly_sorted, text_lt, TextOrder};
use crate::text::text_eq;

verus! {

/// The map that an association list stands for: the first pair of each key wins.
pub open spec fn map_of<V>(list: Seq<(String, V)>) -> Map<Seq<char>, V>
    decreases list.len(),
{
    if list.len() == 0 {
        Map::empty()
    } else {
        map_of(list.drop_first()).insert(list[0].0@, list[0].1)
    }
}

/// The keys of an association list, as texts.
pub open spec fn keys_of<V>(list: Seq<(String, V)>) -> Seq<Seq<char>> {
    list.map_values(|p: (String, V)| p.0@)
}

pub proof fn lemma_map_of_first<V>(list: Seq<(String, V)>, key: Seq<char>, i: int)
    requires
        0 <= i < list.len(),
        list[i].0@ == key,
        forall|j: int| 0 <= j < i ==> list[j].0@ != key,
    ensures
        map_of(list).contains_key(key),
        map_of(list)[key] == list[i].1,
    decreases i,
{
    if i > 0 {
        lemma_map_of_first(list.drop_first(), key, i - 1);
    }
}

pub proof fn lemma_map_of_absent<V>(list: Seq<(String, V)>, key: Seq<char>)
    requires
        forall|j: int| 0 <= j < list.len() ==> list[j].0@ != key,
    ensures
        !map_of(list).contains_key(key),
    decreases list.len(),
{
    if list.len() > 0 {
        lemma_map_of_absent(list.drop_first(), key);
    }
}

pub proof fn lemma_map_of_domain<V>(list: Seq<(String, V)>, key: Seq<char>)
    ensures
        map_of(list).contains_key(key) <==> keys_of(list).contains(key),
    decreases list.len(),
{
    if list.len() > 0 {
        lemma_map_of_domain(list.drop_first(), key);
        if keys_of(list.drop_first()).contains(key) {
            let k = choose|k: int| 0 <= k < keys_of(list.drop_first()).len() && keys_of(list.drop_first())[k] == key;
            assert(keys_of(list)[k + 1] == key);
        }
        if keys_of(list).contains(key) && list[0].0@ != key {
            let k = choose|k: int| 0 <= k < keys_of(list).len() && keys_of(list)[k] == key;
            assert(k > 0);
            assert(keys_of(list.drop_first())[k - 1] == key);
        }
        if list[0].0@ == key {
            assert(keys_of(list)[0] == key);
        }
    }
}

/// In a list with strictly ascending keys, each pair is its key's entry.
pub proof fn lemma_map_of_first_sorted<V>(list: Seq<(String, V)>, i: int)
    requires
        0 <= i < list.len(),
        crate::order::strictly_sorted(keys_of(list)),
    ensures
        map_of(list).contains_key(list[i].0@),
        map_of(list)[list[i].0@] == list[i].1,
{
    assert forall|j: int| 0 <= j < i implies list[j].0@ != list[i].0@ by {
        assert(crate::order::text_lt(keys_of(list)[j], keys_of(list)[i]));
        crate::order::lemma_text_lt_irreflexive(list[i].0@);
    }
    lemma_map_of_first(list, list[i].0@, i);
}

/// The position of the first pair with the given key.
pub fn find_key<V>(list: &Vec<(String, V)>, key: &str) -> (r: Option<usize>)
    ensures
        match r {
            Some(i) => {
                &&& i < list@.len()
                &&& list@[i as int].0@ == key@
                &&& map_of(list@).contains_key(key@)
                &&& map_of(list@)[key@] == list@[i as int].1
            },
            None => !map_of(list@).contains_key(key@),
        },
{
    let mut i: usize = 0;
    while i < list.len()
        invariant
            i <= list.len(),
            forall|j: int| 0 <= j < i ==> list@[j].0@ != key@,
        decreases list.len() - i,
    {
        if text_eq(list[i].0.as_str(), key) {
            proof {
                lemma_map_of_first(list@, key@, i as int);
            }
            return Some(i);
        }
        i += 1;
    }
    proof {
        lemma_map_of_absent(list@, key@);
    }
    None
}

proof fn lemma_map_of_insert_fresh<V>(list: Seq<(String, V)>, i: int, p: (String, V))
    requires
        0 <= i <= list.len(),
        !keys_of(list).contains(p.0@),
    ensures
        map_of(list.insert(i, p)) == map_of(list).insert(p.0@, p.1),
    decreases i,
{
    if i == 0 {
        assert(list.insert(0, p).drop_first() =~= list);
    } else {
        let rest = list.drop_first();
        assert(list.insert(i, p).drop_first() =~= rest.insert(i - 1, p));
        assert(list.insert(i, p)[0] == list[0]);
        if keys_of(rest).contains(p.0@) {
            let k = choose|k: int| 0 <= k < keys_of(rest).len() && keys_of(rest)[k] == p.0@;
            assert(keys_of(list)[k + 1] == p.0@);
        }
        lemma_map_of_insert_fresh(rest, i - 1, p);
        assert(keys_of(list)[0] == list[0].0@);
        assert(map_of(list.insert(i, p)) =~= map_of(list).insert(p.0@, p.1));
    }
}

proof fn lemma_map_of_update_unique<V>(list: Seq<(String, V)>, i: int, p: (String, V))
    requires
        0 <= i < list.len(),
        list[i].0@ == p.0@,
        strictly_sorted(keys_of(list)),
    ensures
        map_of(list.update(i, p)) == map_of(list).insert(p.0@, p.1),
    decreases i,
{
    if i == 0 {
        assert(list.update(0, p).drop_first() =~= list.drop_first());
        assert(map_of(list.update(i, p)) =~= map_of(list).insert(p.0@, p.1));
    } else {
        let rest = list.drop_first();
        assert(list.update(i, p).drop_first() =~= rest.update(i - 1, p));
        assert(keys_of(rest) =~= keys_of(list).drop_first());
        assert(text_lt(keys_of(list)[0], keys_of(list)[i]));
        crate::order::lemma_text_lt_irreflexive(p.0@);
        lemma_map_of_update_unique(rest, i - 1, p);
        assert(map_of(list.update(i, p)) =~= map_of(list).insert(p.0@, p.1));
    }
}

/// Puts `value` under `key` in a list kept in strictly ascending key order:
/// the pair of that key is replaced, or a new pair goes to its place in the
/// order. The list then stands for its old map with `key` set to `value`,
/// as an ordered map's `insert` leaves it.
pub fn put_ordered<V>(list: &mut Vec<(String, V)>, key: String, value: V)
    requires
        strictly_sorted(keys_of(old(list)@)),
    ensures
        strictly_sorted(keys_of(final(list)@)),
        map_of(final(list)@) == map_of(old(list)@).insert(key@, value),
        forall|i: int| 0 <= i < final(list)@.len() ==> (#[trigger] final(list)@[i] == (key, value)
            || old(list)@.contains(final(list)@[i])),
{
    let ghost old_list = list@;
    let ghost p = (key, value);
    let mut i: usize = 0;
    let mut found = false;
    while i < list.len()
        invariant_except_break
            !found,
        invariant
            i <= list.len(),
            list@ == old_list,
            strictly_sorted(keys_of(old_list)),
            forall|j: int| 0 <= j < i ==> text_lt(#[trigger] keys_of(old_list)[j], key@),
        ensures
            i <= list.len(),
            list@ == old_list,
            forall|j: int| 0 <= j < i ==> text_lt(#[trigger] keys_of(old_list)[j], key@),
            found ==> i < list.len() && keys_of(old_list)[i as int] == key@,
            !found && i < list.len() ==> text_lt(key@, keys_of(old_list)[i as int]),
        decreases list.len() - i,
    {
        match compare_text(list[i].0.as_str(), key.as_str()) {
            TextOrder::Less => {
                i += 1;
            },
            TextOrder::Equal => {
                found = true;
                break;
            },
            TextOrder::Greater => {
                break;
            },
        }
    }
    if found {
        proof {
            lemma_map_of_update_unique(old_list, i as int, p);
        }
        list.set(i, (key, value));
        proof {
            assert(list@ == old_list.update(i as int, p));
            assert(keys_of(list@) =~= keys_of(old_list).update(i as int, p.0@));
            assert forall|a: int, b: int| 0 <= a < b < keys_of(list@).len() implies text_lt(
                #[trigger] keys_of(list@)[a],
                #[trigger] keys_of(list@)[b],
            ) by {
                assert(keys_of(old_list)[a] == keys_of(old_list)[a]);
                assert(keys_of(old_list)[b] == keys_of(old_list)[b]);
            }
            assert forall|j: int| 0 <= j < list@.len() implies (#[trigger] list@[j] == p
                || old_list.contains(list@[j])) by {
                if j != i {
                    assert(list@[j] == old_list[j]);
                }
            }
        }
    } else {
        proof {
            assert forall|j: int| i <= j < old_list.len() implies text_lt(key@, #[trigger] keys_of(old_list)[j]) by {
                if j > i {
                    assert(text_lt(keys_of(old_list)[i as int], keys_of(old_list)[j]));
                    lemma_text_lt_transitive(key@, keys_of(old_list)[i as int], keys_of(old_list)[j]);
                }
            }
            if keys_of(old_list).contains(key@) {
                let k = choose|k: int| 0 <= k < keys_of(old_list).len() && keys_of(old_list)[k] == key@;
                crate::order::lemma_text_lt_irreflexive(key@);
                if k < i {
                    assert(text_lt(keys_of(old_list)[k], key@));
                } else {
                    assert(text_lt(key@, keys_of(old_list)[k]));
                }
            }
            lemma_map_of_insert_fresh(old_list, i as int, p);
        }
        list.insert(i, (key, value));
        proof {
            assert(list@ == old_list.insert(i as int, p));
            assert(keys_of(list@) =~= keys_of(old_list).insert(i as int, p.0@));
            assert forall|a: int, b: int| 0 <= a < b < keys_of(list@).len() implies text_lt(
                #[trigger] keys_of(list@)[a],
                #[trigger] keys_of(list@)[b],
            ) by {
                if b < i {
                } else if a < i && b == i {
                    assert(text_lt(keys_of(old_list)[a], key@));
                } else if a < i && b > i {
                    assert(keys_of(list@)[b] == keys_of(old_list)[b - 1]);
                    assert(text_lt(keys_of(old_list)[a], keys_of(old_list)[b - 1]));
                } else if a == i {
                    assert(keys_of(list@)[b] == keys_of(old_list)[b - 1]);
                } else {
                    assert(keys_of(list@)[a] == keys_of(old_list)[a - 1]);
                    assert(keys_of(list@)[b] == keys_of(old_list)[b - 1]);
                }
            }
            assert forall|j: int| 0 <= j < list@.len() implies (#[trigger] list@[j] == p
                || old_list.contains(list@[j])) by {
                if j < i {
                    assert(list@[j] == old_list[j]);
                } else if j > i {
                    assert(list@[j] == old_list[j - 1]);
                }
            }
        }
    }
}

} // verus!
