//! Collections that keep their keys in ascending order.
use vstd::prelude::*;

verus! {

/// A key that is ordered, and told apart from every other key, by an integer.
pub trait Ranked: Copy {
    /// The integer that orders this key.
    spec fn rank(self) -> int;

    /// Two keys of the same rank are the same key.
    proof fn rank_is_injective(a: Self, b: Self)
        requires
            a.rank() == b.rank(),
        ensures
            a == b,
    ;

    /// Whether this key is ordered before `other`.
    fn ranks_below(&self, other: &Self) -> (below: bool)
        ensures
            below == ((*self).rank() < (*other).rank()),
    ;
}

/// Whether the keys stand in strictly ascending order, so that none occurs twice.
pub open spec fn ascending<K: Ranked>(keys: Seq<K>) -> bool {
    forall|i: int, j: int|
        #![trigger keys[i], keys[j]]
        0 <= i < j < keys.len() ==> keys[i].rank() < keys[j].rank()
}

/// How many leading keys are ordered before `key`.
pub open spec fn lower_bound<K: Ranked>(keys: Seq<K>, key: K) -> int
    decreases keys.len(),
{
    if keys.len() == 0 || keys[0].rank() >= key.rank() {
        0
    } else {
        1 + lower_bound(keys.subrange(1, keys.len() as int), key)
    }
}

/// The keys with `key` added at its place; unchanged when it is already there.
pub open spec fn with_key<K: Ranked>(keys: Seq<K>, key: K) -> Seq<K> {
    if keys.contains(key) {
        keys
    } else {
        keys.insert(lower_bound(keys, key), key)
    }
}

/// `lower_bound` is the one place that separates smaller keys from the others.
pub proof fn lemma_lower_bound<K: Ranked>(keys: Seq<K>, key: K)
    requires
        ascending(keys),
    ensures
        0 <= lower_bound(keys, key) <= keys.len(),
        forall|i: int| 0 <= i < lower_bound(keys, key) ==> (#[trigger] keys[i]).rank() < key.rank(),
        forall|i: int|
            lower_bound(keys, key) <= i < keys.len() ==> (#[trigger] keys[i]).rank() >= key.rank(),
    decreases keys.len(),
{
    if keys.len() == 0 || keys[0].rank() >= key.rank() {
        assert forall|i: int| 0 <= i < keys.len() implies (#[trigger] keys[i]).rank()
            >= key.rank() by {
            if i > 0 {
                assert(keys[0].rank() < keys[i].rank());
            }
        }
    } else {
        let rest = keys.subrange(1, keys.len() as int);
        assert forall|i: int, j: int| 0 <= i < j < rest.len() implies (#[trigger] rest[i]).rank()
            < (#[trigger] rest[j]).rank() by {
            assert(rest[i] == keys[i + 1] && rest[j] == keys[j + 1]);
        }
        lemma_lower_bound(rest, key);
        assert forall|i: int| 0 <= i < lower_bound(keys, key) implies (#[trigger] keys[i]).rank()
            < key.rank() by {
            if i > 0 {
                assert(rest[i - 1] == keys[i]);
            }
        }
        assert forall|i: int| lower_bound(keys, key) <= i < keys.len() implies (
        #[trigger] keys[i]).rank() >= key.rank() by {
            assert(rest[i - 1] == keys[i]);
        }
    }
}

/// Where a key stands among ascending keys, it stands at its lower bound.
pub proof fn lemma_contains_at_lower_bound<K: Ranked>(keys: Seq<K>, key: K)
    requires
        ascending(keys),
    ensures
        keys.contains(key) <==> (lower_bound(keys, key) < keys.len() && keys[lower_bound(
            keys,
            key,
        )] == key),
        lower_bound(keys, key) < keys.len() && keys[lower_bound(keys, key)].rank() <= key.rank()
            ==> keys[lower_bound(keys, key)] == key,
{
    lemma_lower_bound(keys, key);
    let slot = lower_bound(keys, key);
    if keys.contains(key) {
        let i = choose|i: int| 0 <= i < keys.len() && keys[i] == key;
        assert(slot <= i);
        assert(slot < keys.len());
        if slot < i {
            assert(keys[slot].rank() < keys[i].rank());
        }
        K::rank_is_injective(keys[slot], key);
    }
    if slot < keys.len() && keys[slot].rank() <= key.rank() {
        K::rank_is_injective(keys[slot], key);
    }
}

/// Adding a key keeps the order and adds exactly that key.
pub proof fn lemma_with_key<K: Ranked>(keys: Seq<K>, key: K)
    requires
        ascending(keys),
    ensures
        ascending(with_key(keys, key)),
        with_key(keys, key).contains(key),
        forall|other: K|
            with_key(keys, key).contains(other) <==> (keys.contains(other) || other == key),
        with_key(keys, key).to_set() =~= keys.to_set().insert(key),
{
    lemma_lower_bound(keys, key);
    lemma_contains_at_lower_bound(keys, key);
    let slot = lower_bound(keys, key);
    let after = with_key(keys, key);
    if !keys.contains(key) {
        assert(after.len() == keys.len() + 1);
        assert(after[slot] == key);
        assert forall|i: int| 0 <= i < after.len() implies #[trigger] after[i] == (if i < slot {
            keys[i]
        } else if i == slot {
            key
        } else {
            keys[i - 1]
        }) by {}
        assert forall|i: int, j: int| 0 <= i < j < after.len() implies (#[trigger] after[i]).rank()
            < (#[trigger] after[j]).rank() by {
            if i < slot && j == slot {
                assert(keys[i].rank() < key.rank());
            } else if i == slot {
                assert(keys[j - 1].rank() >= key.rank());
                if keys[j - 1].rank() == key.rank() {
                    K::rank_is_injective(keys[j - 1], key);
                    assert(keys.contains(key));
                }
            } else if j > slot && i > slot {
                assert(keys[i - 1].rank() < keys[j - 1].rank());
            } else if j > slot {
                assert(keys[i].rank() < keys[j - 1].rank());
            } else {
                assert(keys[i].rank() < keys[j].rank());
            }
        }
        assert forall|other: K| after.contains(other) <==> (keys.contains(other) || other
            == key) by {
            if keys.contains(other) {
                let i = choose|i: int| 0 <= i < keys.len() && keys[i] == other;
                if i < slot {
                    assert(after[i] == other);
                } else {
                    assert(after[i + 1] == other);
                }
            }
            if after.contains(other) && other != key {
                let i = choose|i: int| 0 <= i < after.len() && after[i] == other;
                if i < slot {
                    assert(keys[i] == other);
                } else {
                    assert(keys[i - 1] == other);
                }
            }
        }
    }
}

/// Ascending keys are determined by the set that they form.
pub proof fn lemma_ascending_unique<K: Ranked>(a: Seq<K>, b: Seq<K>)
    requires
        ascending(a),
        ascending(b),
        forall|key: K| a.contains(key) <==> b.contains(key),
    ensures
        a =~= b,
    decreases a.len(),
{
    if a.len() == 0 {
        if b.len() > 0 {
            assert(b.contains(b[0]));
            assert(a.contains(b[0]));
        }
    } else {
        assert(a.contains(a.last()));
        assert(b.contains(a.last()));
        let last = b.last();
        assert(b.contains(last));
        assert(a.contains(last));
        let i = choose|i: int| 0 <= i < a.len() && a[i] == last;
        let j = choose|j: int| 0 <= j < b.len() && b[j] == a.last();
        if i < a.len() - 1 {
            assert(a[i].rank() < a[a.len() - 1].rank());
            if j < b.len() - 1 {
                assert(b[j].rank() < b[b.len() - 1].rank());
            }
        }
        assert(a.last() == last);
        let c = a.drop_last();
        let d = b.drop_last();
        assert(ascending(c)) by {
            assert forall|i: int, j: int| 0 <= i < j < c.len() implies (#[trigger] c[i]).rank() < (
            #[trigger] c[j]).rank() by {
                assert(a[i].rank() < a[j].rank());
            }
        }
        assert(ascending(d)) by {
            assert forall|i: int, j: int| 0 <= i < j < d.len() implies (#[trigger] d[i]).rank() < (
            #[trigger] d[j]).rank() by {
                assert(b[i].rank() < b[j].rank());
            }
        }
        assert forall|key: K| c.contains(key) <==> d.contains(key) by {
            if c.contains(key) {
                let x = choose|x: int| 0 <= x < c.len() && c[x] == key;
                assert(a[x] == key && a[x].rank() < a[a.len() - 1].rank());
                assert(a.contains(key));
                let y = choose|y: int| 0 <= y < b.len() && b[y] == key;
                assert(y < b.len() - 1);
                assert(d[y] == key);
            }
            if d.contains(key) {
                let x = choose|x: int| 0 <= x < d.len() && d[x] == key;
                assert(b[x] == key && b[x].rank() < b[b.len() - 1].rank());
                assert(b.contains(key));
                let y = choose|y: int| 0 <= y < a.len() && a[y] == key;
                assert(y < a.len() - 1);
                assert(c[y] == key);
            }
        }
        lemma_ascending_unique(c, d);
        assert(a =~= c.push(a.last()));
        assert(b =~= d.push(b.last()));
    }
}

/// Whether `key` is among the ascending keys.
pub fn contains_key<K: Ranked>(keys: &Vec<K>, key: K) -> (found: bool)
    requires
        ascending(keys@),
    ensures
        found == keys@.contains(key),
{
    let slot: usize = find_slot(keys, key);
    proof {
        lemma_contains_at_lower_bound(keys@, key);
        lemma_lower_bound(keys@, key);
    }
    slot < keys.len() && !key.ranks_below(&keys[slot])
}

/// The number of keys ordered before `key`.
fn find_slot<K: Ranked>(keys: &Vec<K>, key: K) -> (slot: usize)
    requires
        ascending(keys@),
    ensures
        slot == lower_bound(keys@, key),
        slot <= keys.len(),
{
    proof {
        lemma_lower_bound(keys@, key);
    }
    let mut slot: usize = 0;
    while slot < keys.len() && keys[slot].ranks_below(&key)
        invariant
            slot <= keys.len(),
            forall|i: int| 0 <= i < slot ==> (#[trigger] keys@[i]).rank() < key.rank(),
        decreases keys.len() - slot,
    {
        slot = slot + 1;
    }
    proof {
        let bound = lower_bound(keys@, key);
        if slot < bound {
            assert(keys@[slot as int].rank() < key.rank());
        }
        if bound < slot {
            assert(keys@[bound].rank() < key.rank());
        }
    }
    slot
}

/// Adds `key` at its place among the ascending keys and tells whether it was new.
pub fn insert_key<K: Ranked>(keys: &mut Vec<K>, key: K) -> (added: bool)
    requires
        ascending(old(keys)@),
    ensures
        ascending(final(keys)@),
        final(keys)@ == with_key(old(keys)@, key),
        added == !old(keys)@.contains(key),
{
    let slot: usize = find_slot(keys, key);
    proof {
        lemma_contains_at_lower_bound(keys@, key);
        lemma_lower_bound(keys@, key);
        lemma_with_key(keys@, key);
    }
    if slot < keys.len() && !key.ranks_below(&keys[slot]) {
        false
    } else {
        keys.insert(slot, key);
        true
    }
}

/// The keys with all of `added` added one after another.
pub open spec fn with_keys<K: Ranked>(keys: Seq<K>, added: Seq<K>) -> Seq<K>
    decreases added.len(),
{
    if added.len() == 0 {
        keys
    } else {
        with_key(with_keys(keys, added.drop_last()), added.last())
    }
}

/// Adding keys keeps the order and adds exactly those keys.
pub proof fn lemma_with_keys<K: Ranked>(keys: Seq<K>, added: Seq<K>)
    requires
        ascending(keys),
    ensures
        ascending(with_keys(keys, added)),
        forall|key: K|
            with_keys(keys, added).contains(key) <==> (keys.contains(key) || added.contains(key)),
    decreases added.len(),
{
    if added.len() > 0 {
        let init = added.drop_last();
        lemma_with_keys(keys, init);
        lemma_with_key(with_keys(keys, init), added.last());
        assert forall|key: K|
            with_keys(keys, added).contains(key) <==> (keys.contains(key) || added.contains(
                key,
            )) by {
            lemma_contains_drop_last(added, key);
        }
    }
}

/// A sequence holds what its beginning holds, and its last element.
pub proof fn lemma_contains_drop_last<A>(elements: Seq<A>, element: A)
    requires
        elements.len() > 0,
    ensures
        elements.contains(element) <==> (elements.drop_last().contains(element) || elements.last()
            == element),
{
    let init = elements.drop_last();
    if elements.contains(element) {
        let i = choose|i: int| 0 <= i < elements.len() && elements[i] == element;
        if i < init.len() {
            assert(init[i] == element);
        }
    }
    if init.contains(element) {
        let i = choose|i: int| 0 <= i < init.len() && init[i] == element;
        assert(elements[i] == element);
    }
    if elements.last() == element {
        assert(elements[elements.len() - 1] == element);
    }
}

/// Adds all of `added` to the ascending keys.
pub fn insert_keys<K: Ranked>(keys: &mut Vec<K>, added: &Vec<K>)
    requires
        ascending(old(keys)@),
    ensures
        ascending(final(keys)@),
        final(keys)@ == with_keys(old(keys)@, added@),
{
    assert(added@.take(0) =~= Seq::<K>::empty());
    let mut i: usize = 0;
    while i < added.len()
        invariant
            i <= added@.len(),
            ascending(keys@),
            keys@ == with_keys(old(keys)@, added@.take(i as int)),
        decreases added@.len() - i,
    {
        proof {
            assert(added@.take(i + 1).drop_last() =~= added@.take(i as int));
        }
        insert_key(keys, added[i]);
        i = i + 1;
    }
    assert(added@.take(i as int) =~= added@);
}

/// Whether `key` is among the listed keys, which stand in any order.
pub fn lists_key<K: Ranked>(keys: &Vec<K>, key: K) -> (found: bool)
    ensures
        found == keys@.contains(key),
{
    let mut i: usize = 0;
    while i < keys.len()
        invariant
            i <= keys@.len(),
            forall|j: int| 0 <= j < i ==> keys@[j] != key,
        decreases keys@.len() - i,
    {
        if !keys[i].ranks_below(&key) && !key.ranks_below(&keys[i]) {
            proof {
                K::rank_is_injective(keys@[i as int], key);
            }
            return true;
        }
        i = i + 1;
    }
    false
}

/// Pushing an element adds it to the set of elements.
pub proof fn lemma_push_to_set<A>(elements: Seq<A>, element: A)
    ensures
        elements.push(element).to_set() =~= elements.to_set().insert(element),
{
    let pushed = elements.push(element);
    assert forall|x: A| pushed.contains(x) <==> (elements.contains(x) || x == element) by {
        lemma_contains_drop_last(pushed, x);
        assert(pushed.drop_last() =~= elements);
    }
}

/// The map that results from inserting the pairs one after another.
pub open spec fn collected<K, V>(pairs: Seq<(K, V)>) -> Map<K, V>
    decreases pairs.len(),
{
    if pairs.len() == 0 {
        Map::empty()
    } else {
        collected(pairs.drop_last()).insert(pairs.last().0, pairs.last().1)
    }
}

/// What a collected map holds: every key of the pairs, and the value of its last pair.
pub proof fn lemma_collected<K, V>(pairs: Seq<(K, V)>)
    ensures
        collected(pairs).dom().finite(),
        forall|key: K|
            #![trigger collected(pairs).contains_key(key)]
            collected(pairs).contains_key(key) <==> exists|i: int|
                0 <= i < pairs.len() && (#[trigger] pairs[i]).0 == key,
        forall|i: int|
            0 <= i < pairs.len() && (forall|j: int|
                i < j < pairs.len() ==> (#[trigger] pairs[j]).0 != pairs[i].0)
                ==> collected(pairs)[(#[trigger] pairs[i]).0] == pairs[i].1,
    decreases pairs.len(),
{
    if pairs.len() > 0 {
        let init = pairs.drop_last();
        lemma_collected(init);
        assert forall|key: K| #[trigger] collected(pairs).contains_key(key) <==> exists|i: int|
            0 <= i < pairs.len() && (#[trigger] pairs[i]).0 == key by {
            if collected(pairs).contains_key(key) {
                if key == pairs.last().0 {
                    assert(pairs[pairs.len() - 1].0 == key);
                } else {
                    assert(collected(init).contains_key(key));
                    let i = choose|i: int| 0 <= i < init.len() && (#[trigger] init[i]).0 == key;
                    assert(pairs[i].0 == key);
                }
            }
            if exists|i: int| 0 <= i < pairs.len() && (#[trigger] pairs[i]).0 == key {
                let i = choose|i: int| 0 <= i < pairs.len() && (#[trigger] pairs[i]).0 == key;
                if i < pairs.len() - 1 {
                    assert(init[i].0 == key);
                    assert(collected(init).contains_key(key));
                }
            }
        }
        assert forall|i: int|
            0 <= i < pairs.len() && (forall|j: int|
                i < j < pairs.len() ==> (#[trigger] pairs[j]).0
                    != pairs[i].0) implies collected(pairs)[(#[trigger] pairs[i]).0]
            == pairs[i].1 by {
            if i < pairs.len() - 1 {
                assert(pairs[pairs.len() - 1].0 != pairs[i].0);
                assert(init[i] == pairs[i]);
                assert forall|j: int| i < j < init.len() implies (#[trigger] init[j]).0
                    != init[i].0 by {
                    assert(pairs[j].0 != pairs[i].0);
                }
            }
        }
    }
}

/// The entries with `value` stored under `key`: in place of the entry of that key,
/// or as a new entry at the key's place.
pub open spec fn with_entry<K: Ranked, V>(entries: Seq<(K, V)>, key: K, value: V) -> Seq<(K, V)> {
    let slot = lower_bound(entry_keys(entries), key);
    if slot < entries.len() && entries[slot].0 == key {
        entries.update(slot, (key, value))
    } else {
        entries.insert(slot, (key, value))
    }
}

/// The keys of the entries, in their order.
pub open spec fn entry_keys<K, V>(entries: Seq<(K, V)>) -> Seq<K> {
    Seq::new(entries.len(), |i: int| entries[i].0)
}

/// Storing an entry keeps the order and changes the map at that key alone.
pub proof fn lemma_with_entry<K: Ranked, V>(entries: Seq<(K, V)>, key: K, value: V)
    requires
        ascending(entry_keys(entries)),
    ensures
        ascending(entry_keys(with_entry(entries, key, value))),
        entry_keys(with_entry(entries, key, value)) == with_key(entry_keys(entries), key),
        collected(with_entry(entries, key, value)) == collected(entries).insert(key, value),
{
    let keys = entry_keys(entries);
    let slot = lower_bound(keys, key);
    let after = with_entry(entries, key, value);
    lemma_contains_at_lower_bound(keys, key);
    lemma_lower_bound(keys, key);
    lemma_with_key(keys, key);
    if slot < entries.len() && entries[slot].0 == key {
        assert(keys[slot] == key);
        assert(entry_keys(after) =~= keys);
    } else {
        if slot < entries.len() {
            assert(keys[slot] == entries[slot].0);
        }
        assert(entry_keys(after) =~= keys.insert(slot, key));
    }
    lemma_entries_match_map(entries);
    lemma_entries_match_map(after);
    assert(after[slot] == (key, value));
    assert forall|k: K| #[trigger]
        collected(after).contains_key(k) implies collected(entries).insert(key, value).contains_key(k)
        && collected(after)[k] == collected(entries).insert(key, value)[k] by {
        let i = choose|i: int| 0 <= i < after.len() && entry_keys(after)[i] == k;
        assert(after[i].0 == k);
        if i == slot {
            assert(k == key);
        } else if after.len() == entries.len() || i < slot {
            assert(after[i] == entries[i]);
            assert(entry_keys(after)[i].rank() != entry_keys(after)[slot].rank());
        } else {
            assert(after[i] == entries[i - 1]);
            assert(entry_keys(after)[i].rank() != entry_keys(after)[slot].rank());
        }
    }
    assert forall|k: K| #[trigger]
        collected(entries).insert(key, value).contains_key(k) implies collected(after).contains_key(
        k,
    ) by {
        if k != key {
            assert(collected(entries).contains_key(k));
            assert(keys.contains(k));
            assert(with_key(keys, key).contains(k));
        } else {
            assert(entry_keys(after)[slot] == key);
        }
    }
    assert(collected(after) =~= collected(entries).insert(key, value));
}

/// The entries without that of `key`.
pub open spec fn without_entry<K: Ranked, V>(entries: Seq<(K, V)>, key: K) -> Seq<(K, V)> {
    let slot = lower_bound(entry_keys(entries), key);
    if slot < entries.len() && entries[slot].0 == key {
        entries.remove(slot)
    } else {
        entries
    }
}

/// Removing an entry keeps the order and changes the map at that key alone.
pub proof fn lemma_without_entry<K: Ranked, V>(entries: Seq<(K, V)>, key: K)
    requires
        ascending(entry_keys(entries)),
    ensures
        ascending(entry_keys(without_entry(entries, key))),
        collected(without_entry(entries, key)) == collected(entries).remove(key),
{
    let keys = entry_keys(entries);
    let slot = lower_bound(keys, key);
    let after = without_entry(entries, key);
    lemma_contains_at_lower_bound(keys, key);
    lemma_lower_bound(keys, key);
    lemma_entries_match_map(entries);
    if slot < entries.len() {
        assert(keys[slot] == entries[slot].0);
    }
    if slot < entries.len() && entries[slot].0 == key {
        assert forall|i: int| 0 <= i < after.len() implies #[trigger] after[i] == (if i < slot {
            entries[i]
        } else {
            entries[i + 1]
        }) by {}
        assert forall|i: int, j: int| 0 <= i < j < after.len() implies (#[trigger] entry_keys(
            after,
        )[i]).rank() < (#[trigger] entry_keys(after)[j]).rank() by {
            let a = if i < slot {
                i
            } else {
                i + 1
            };
            let b = if j < slot {
                j
            } else {
                j + 1
            };
            assert(keys[a].rank() < keys[b].rank());
        }
        lemma_entries_match_map(after);
        assert forall|k: K| #[trigger]
            collected(after).contains_key(k) implies collected(entries).remove(key).contains_key(k)
            && collected(after)[k] == collected(entries).remove(key)[k] by {
            let i = choose|i: int| 0 <= i < after.len() && entry_keys(after)[i] == k;
            let a = if i < slot {
                i
            } else {
                i + 1
            };
            assert(after[i] == entries[a]);
            assert(keys[a].rank() != keys[slot].rank());
        }
        assert forall|k: K| #[trigger]
            collected(entries).remove(key).contains_key(k) implies collected(after).contains_key(
            k,
        ) by {
            assert(keys.contains(k));
            let a = choose|a: int| 0 <= a < keys.len() && keys[a] == k;
            let i = if a < slot {
                a
            } else {
                a - 1
            };
            assert(entry_keys(after)[i] == k);
        }
        assert(collected(after) =~= collected(entries).remove(key));
    } else {
        assert(!collected(entries).contains_key(key));
        assert(collected(after) =~= collected(entries).remove(key));
    }
}

/// Entries in ascending order and the map collected from them tell the same.
pub proof fn lemma_entries_match_map<K: Ranked, V>(entries: Seq<(K, V)>)
    requires
        ascending(entry_keys(entries)),
    ensures
        collected(entries).dom().finite(),
        forall|i: int|
            #![trigger entries[i]]
            0 <= i < entries.len() ==> collected(entries).contains_key(entries[i].0) && collected(
                entries,
            )[entries[i].0] == entries[i].1,
        forall|key: K| #[trigger]
            collected(entries).contains_key(key) <==> entry_keys(entries).contains(key),
{
    let keys = entry_keys(entries);
    lemma_collected(entries);
    assert forall|i: int| #![trigger entries[i]] 0 <= i < entries.len() implies collected(
        entries,
    ).contains_key(entries[i].0) && collected(entries)[entries[i].0] == entries[i].1 by {
        assert forall|j: int| i < j < entries.len() implies (#[trigger] entries[j]).0
            != entries[i].0 by {
            assert(keys[i].rank() < keys[j].rank());
        }
    }
    assert forall|key: K| #[trigger]
        collected(entries).contains_key(key) <==> keys.contains(key) by {
        if collected(entries).contains_key(key) {
            let i = choose|i: int| 0 <= i < entries.len() && (#[trigger] entries[i]).0 == key;
            assert(keys[i] == key);
        }
        if keys.contains(key) {
            let i = choose|i: int| 0 <= i < keys.len() && keys[i] == key;
            assert(entries[i].0 == key);
        }
    }
}

/// A pair stands among ascending entries exactly where the map holds that value for that key.
pub proof fn lemma_entry_pairs<K: Ranked, V>(entries: Seq<(K, V)>, key: K)
    requires
        ascending(entry_keys(entries)),
    ensures
        forall|value: V| #[trigger]
            entries.contains((key, value)) <==> collected(entries).contains_key(key) && collected(
                entries,
            )[key] == value,
{
    lemma_entries_match_map(entries);
    assert forall|value: V| #[trigger] entries.contains((key, value)) <==> collected(
        entries,
    ).contains_key(key) && collected(entries)[key] == value by {
        if entries.contains((key, value)) {
            let i = choose|i: int| 0 <= i < entries.len() && entries[i] == (key, value);
            assert(entries[i].0 == key);
        }
        if collected(entries).contains_key(key) && collected(entries)[key] == value {
            let keys = entry_keys(entries);
            assert(keys.contains(key));
            let i = choose|i: int| 0 <= i < keys.len() && keys[i] == key;
            assert(entries[i].0 == key);
            assert(entries[i] == (key, value));
        }
    }
}

impl Ranked for u32 {
    open spec fn rank(self) -> int {
        self as int
    }

    proof fn rank_is_injective(a: Self, b: Self) {
    }

    fn ranks_below(&self, other: &Self) -> (below: bool) {
        *self < *other
    }
}

impl Ranked for u64 {
    open spec fn rank(self) -> int {
        self as int
    }

    proof fn rank_is_injective(a: Self, b: Self) {
    }

    fn ranks_below(&self, other: &Self) -> (below: bool) {
        *self < *other
    }
}

/// A map whose entries are kept in ascending order of their keys.
pub struct OrderedMap<K, V> {
    pub entries: Vec<(K, V)>,
}

impl<K: Ranked, V> View for OrderedMap<K, V> {
    type V = Map<K, V>;

    open spec fn view(&self) -> Map<K, V> {
        collected(self.entries@)
    }
}

impl<K: Ranked, V> OrderedMap<K, V> {
    /// The keys in the order of the entries.
    pub open spec fn keys(self) -> Seq<K> {
        entry_keys(self.entries@)
    }

    /// Whether the entries stand in strictly ascending order of their keys.
    pub open spec fn wf(self) -> bool {
        ascending(self.keys())
    }

    /// The value stored under `key`, if there is one.
    pub open spec fn lookup(self, key: K) -> Option<V> {
        if self@.contains_key(key) {
            Some(self@[key])
        } else {
            None
        }
    }

    /// Entries and map tell the same: the map holds exactly the entries.
    pub proof fn lemma_entries(self)
        requires
            self.wf(),
        ensures
            self@.dom().finite(),
            forall|i: int|
                #![trigger self.entries@[i]]
                0 <= i < self.entries@.len() ==> self@.contains_key(self.entries@[i].0)
                    && self@[self.entries@[i].0] == self.entries@[i].1,
            forall|key: K| #[trigger]
                self@.contains_key(key) <==> self.keys().contains(key),
    {
        lemma_entries_match_map(self.entries@);
    }

    /// Looking up a key finds the entry of that key, and nothing where there is none.
    pub proof fn lemma_lookup(self, key: K)
        requires
            self.wf(),
        ensures
            forall|i: int|
                0 <= i < self.entries@.len() && (#[trigger] self.entries@[i]).0 == key
                    ==> self.lookup(key) == Some(self.entries@[i].1),
            self.lookup(key) matches Some(value) ==> exists|i: int|
                0 <= i < self.entries@.len() && #[trigger] self.entries@[i] == (key, value),
    {
        self.lemma_entries();
        if self.lookup(key) is Some {
            assert(self.keys().contains(key));
            let i = choose|i: int| 0 <= i < self.keys().len() && self.keys()[i] == key;
            assert(self.entries@[i].0 == key);
        }
    }

    /// A map without entries.
    pub fn new() -> (map: Self)
        ensures
            map.wf(),
            map.entries@.len() == 0,
            map@ == Map::<K, V>::empty(),
    {
        OrderedMap { entries: Vec::new() }
    }

    /// The number of entries whose key is ordered before `key`.
    pub fn slot(&self, key: K) -> (slot: usize)
        requires
            self.wf(),
        ensures
            slot == lower_bound(self.keys(), key),
            slot <= self.entries@.len(),
    {
        proof {
            lemma_lower_bound(self.keys(), key);
        }
        let mut slot: usize = 0;
        while slot < self.entries.len() && self.entries[slot].0.ranks_below(&key)
            invariant
                slot <= self.entries@.len(),
                forall|i: int| 0 <= i < slot ==> (#[trigger] self.keys()[i]).rank() < key.rank(),
            decreases self.entries@.len() - slot,
        {
            slot = slot + 1;
        }
        proof {
            let bound = lower_bound(self.keys(), key);
            if slot < bound {
                assert(self.keys()[slot as int].rank() < key.rank());
            }
            if bound < slot {
                assert(self.keys()[bound].rank() < key.rank());
            }
        }
        slot
    }

    /// The place of `key` among the entries, if it is there.
    pub fn position(&self, key: K) -> (position: Option<usize>)
        requires
            self.wf(),
        ensures
            match position {
                Some(i) => i < self.entries@.len() && i == lower_bound(self.keys(), key)
                    && self.entries@[i as int].0 == key && self@.contains_key(key) && self@[key] == self.entries@[i as int].1,
                None => !self@.contains_key(key),
            },
    {
        let slot: usize = self.slot(key);
        proof {
            lemma_contains_at_lower_bound(self.keys(), key);
            lemma_lower_bound(self.keys(), key);
            self.lemma_entries();
        }
        if slot < self.entries.len() && !key.ranks_below(&self.entries[slot].0) {
            assert(self.keys()[slot as int] == key);
            Some(slot)
        } else {
            None
        }
    }

    /// The value stored under `key`.
    pub fn get(&self, key: K) -> (value: Option<&V>)
        requires
            self.wf(),
        ensures
            match value {
                Some(v) => self.lookup(key) == Some(*v),
                None => self.lookup(key) is None,
            },
    {
        match self.position(key) {
            Some(i) => Some(&self.entries[i].1),
            None => None,
        }
    }

    /// Stores `value` under `key`, in place of a value already stored there.
    pub fn insert(&mut self, key: K, value: V)
        requires
            old(self).wf(),
        ensures
            final(self).wf(),
            final(self)@ == old(self)@.insert(key, value),
            final(self).entries@ == with_entry(old(self).entries@, key, value),
    {
        let slot: usize = self.slot(key);
        proof {
            lemma_contains_at_lower_bound(self.keys(), key);
            lemma_lower_bound(self.keys(), key);
            lemma_with_entry(self.entries@, key, value);
        }
        if slot < self.entries.len() && !key.ranks_below(&self.entries[slot].0) {
            assert(self.keys()[slot as int] == key);
            self.entries.set(slot, (key, value));
        } else {
            assert(slot < self.entries@.len() ==> self.keys()[slot as int]
                == self.entries@[slot as int].0);
            self.entries.insert(slot, (key, value));
        }
    }

    /// Removes the entry of `key`.
    pub fn remove(&mut self, key: K) -> (value: Option<V>)
        requires
            old(self).wf(),
        ensures
            final(self).wf(),
            value == old(self).lookup(key),
            final(self)@ == old(self)@.remove(key),
            final(self).entries@ == without_entry(old(self).entries@, key),
    {
        proof {
            lemma_without_entry(self.entries@, key);
            lemma_contains_at_lower_bound(self.keys(), key);
            lemma_lower_bound(self.keys(), key);
            self.lemma_entries();
        }
        let slot: usize = self.slot(key);
        if slot < self.entries.len() && !key.ranks_below(&self.entries[slot].0) {
            assert(self.keys()[slot as int] == key);
            let (_, value) = self.entries.remove(slot);
            Some(value)
        } else {
            assert(slot < self.entries@.len() ==> self.keys()[slot as int]
                == self.entries@[slot as int].0);
            None
        }
    }
}

} // verus!
