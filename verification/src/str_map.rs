//! A map from text keys to values that lists its entries in ascending key order.
use crate::text;
use vstd::prelude::*;

verus! {

/// A map with text keys, kept as a list in strictly ascending key order, so that
/// every listing of it is stable.
///
/// Its view is the mathematical map; [`StrMap::listing`] is the ordered list.
#[derive(Debug)]
pub struct StrMap<V> {
    entries: Vec<(String, V)>,
}

/// Whether `key` stands in the list at position `i`.
pub open spec fn key_at<V>(list: Seq<(Seq<char>, V)>, key: Seq<char>, i: int) -> bool {
    0 <= i < list.len() && list[i].0 == key
}

/// The map that a list of entries denotes.
pub open spec fn map_of<V>(list: Seq<(Seq<char>, V)>) -> Map<Seq<char>, V> {
    Map::new(
        |key: Seq<char>| exists|i: int| key_at(list, key, i),
        |key: Seq<char>| list[choose|i: int| key_at(list, key, i)].1,
    )
}

/// Keys strictly ascending: in order, and none twice.
pub open spec fn keys_ascend<V>(list: Seq<(Seq<char>, V)>) -> bool {
    forall|i: int, j: int|
        0 <= i < j < list.len() ==> text::lex_lt(#[trigger] list[i].0, #[trigger] list[j].0)
}

/// With ascending keys, a key stands in one place only.
pub proof fn lemma_lookup<V>(list: Seq<(Seq<char>, V)>, i: int)
    requires
        keys_ascend(list),
        0 <= i < list.len(),
    ensures
        map_of(list).dom().contains(list[i].0),
        map_of(list)[list[i].0] == list[i].1,
        forall|j: int| key_at(list, list[i].0, j) ==> j == i,
{
    let key = list[i].0;
    assert(key_at(list, key, i));
    assert forall|j: int| key_at(list, key, j) implies j == i by {
        text::lemma_lex_irreflexive(key);
        if j < i {
            assert(text::lex_lt(list[j].0, list[i].0));
        } else if i < j {
            assert(text::lex_lt(list[i].0, list[j].0));
        }
    }
}

/// The entries with their keys as texts.
pub open spec fn texts_of<V>(entries: Seq<(String, V)>) -> Seq<(Seq<char>, V)> {
    entries.map_values(|e: (String, V)| (e.0@, e.1))
}

impl<V> View for StrMap<V> {
    type V = Map<Seq<char>, V>;

    open spec fn view(&self) -> Map<Seq<char>, V> {
        map_of(self.listing())
    }
}

impl<V> StrMap<V> {
    /// The entries in the order in which they are listed.
    pub closed spec fn listing(&self) -> Seq<(Seq<char>, V)> {
        texts_of(self.entries@)
    }

    /// The invariant: the keys ascend.
    #[verifier::type_invariant]
    pub open spec fn wf(&self) -> bool {
        keys_ascend(self.listing())
    }

    /// The empty map.
    pub fn new() -> (r: Self)
        ensures
            r.wf(),
            r.listing() == Seq::<(Seq<char>, V)>::empty(),
            r@ == Map::<Seq<char>, V>::empty(),
    {
        let r = StrMap { entries: Vec::new() };
        assert(r.listing() =~= Seq::<(Seq<char>, V)>::empty());
        assert(r@ =~= Map::<Seq<char>, V>::empty());
        r
    }

    /// The number of entries.
    pub fn len(&self) -> (r: usize)
        ensures
            r == self.listing().len(),
    {
        self.entries.len()
    }

    /// The key of the `i`-th entry.
    pub fn key(&self, i: usize) -> (r: &String)
        requires
            i < self.listing().len(),
        ensures
            r@ == self.listing()[i as int].0,
    {
        &self.entries[i].0
    }

    /// The value of the `i`-th entry.
    pub fn value(&self, i: usize) -> (r: &V)
        requires
            i < self.listing().len(),
        ensures
            *r == self.listing()[i as int].1,
    {
        &self.entries[i].1
    }

    /// The first position whose key does not precede `key`.
    fn slot(&self, key: &str) -> (r: usize)
        ensures
            self.wf(),
            r <= self.listing().len(),
            forall|j: int| 0 <= j < r ==> text::lex_lt(#[trigger] self.listing()[j].0, key@),
            forall|j: int|
                r <= j < self.listing().len() ==> !text::lex_lt(#[trigger] self.listing()[j].0, key@),
    {
        proof {
            use_type_invariant(self);
        }
        let mut i: usize = 0;
        while i < self.entries.len() && text::str_lt(self.entries[i].0.as_str(), key)
            invariant
                i <= self.entries@.len(),
                self.listing().len() == self.entries@.len(),
                forall|j: int| 0 <= j < i ==> text::lex_lt(#[trigger] self.listing()[j].0, key@),
            decreases self.entries@.len() - i,
        {
            i += 1;
        }
        assert forall|j: int| i <= j < self.listing().len() implies !text::lex_lt(
            #[trigger] self.listing()[j].0,
            key@,
        ) by {
            if j > i && text::lex_lt(self.listing()[j].0, key@) {
                text::lemma_lex_transitive(self.listing()[i as int].0, self.listing()[j].0, key@);
            }
        }
        i
    }

    /// The value stored under `key`.
    pub fn get(&self, key: &str) -> (r: Option<&V>)
        ensures
            match r {
                Some(v) => self@.dom().contains(key@) && self@[key@] == *v,
                None => !self@.dom().contains(key@),
            },
    {
        let i = self.slot(key);
        let ghost list = self.listing();
        if i < self.entries.len() && text::str_eq(self.entries[i].0.as_str(), key) {
            proof {
                lemma_lookup(list, i as int);
            }
            Some(&self.entries[i].1)
        } else {
            proof {
                lemma_absent(list, key@, i as int);
            }
            None
        }
    }

    /// Store `value` under `key`, and hand back what stood there before.
    pub fn insert(&mut self, key: String, value: V) -> (r: Option<V>)
        ensures
            final(self).wf(),
            final(self)@ == old(self)@.insert(key@, value),
            match r {
                Some(v) => old(self)@.dom().contains(key@) && old(self)@[key@] == v,
                None => !old(self)@.dom().contains(key@),
            },
    {
        let i = self.slot(key.as_str());
        let ghost list = self.listing();
        let ghost text = key@;
        let mut entries: Vec<(String, V)> = Vec::new();
        std::mem::swap(&mut entries, &mut self.entries);
        let mut previous: Option<V> = None;
        if i < entries.len() && text::str_eq(entries[i].0.as_str(), key.as_str()) {
            proof {
                lemma_lookup(list, i as int);
                lemma_replaced(list, i as int, value);
            }
            let old_entry = entries.remove(i);
            previous = Some(old_entry.1);
            entries.insert(i, (key, value));
            assert(texts_of(entries@) =~= list.update(i as int, (text, value)));
        } else {
            proof {
                lemma_absent(list, text, i as int);
                lemma_inserted(list, i as int, text, value);
            }
            entries.insert(i, (key, value));
            assert(texts_of(entries@) =~= list.insert(i as int, (text, value)));
        }
        self.entries = entries;
        previous
    }

    /// Remove the entry of `key`, and hand its value back.
    pub fn remove(&mut self, key: &str) -> (r: Option<V>)
        ensures
            final(self).wf(),
            final(self)@ == old(self)@.remove(key@),
            match r {
                Some(v) => old(self)@.dom().contains(key@) && old(self)@[key@] == v,
                None => !old(self)@.dom().contains(key@),
            },
    {
        let i = self.slot(key);
        let ghost list = self.listing();
        let mut entries: Vec<(String, V)> = Vec::new();
        std::mem::swap(&mut entries, &mut self.entries);
        let mut removed: Option<V> = None;
        if i < entries.len() && text::str_eq(entries[i].0.as_str(), key) {
            proof {
                lemma_lookup(list, i as int);
                lemma_removed(list, i as int);
            }
            let old_entry = entries.remove(i);
            assert(texts_of(entries@) =~= list.remove(i as int));
            removed = Some(old_entry.1);
        } else {
            proof {
                lemma_absent(list, key@, i as int);
                assert(map_of(list) =~= map_of(list).remove(key@));
            }
        }
        self.entries = entries;
        removed
    }
}

impl<V: Clone> Clone for StrMap<V> {
    fn clone(&self) -> (r: Self)
        ensures
            r.listing().len() == self.listing().len(),
            forall|i: int|
                0 <= i < self.listing().len() ==> (#[trigger] r.listing()[i]).0
                    == self.listing()[i].0 && cloned::<V>(self.listing()[i].1, r.listing()[i].1),
    {
        proof {
            use_type_invariant(self);
        }
        let ghost list = self.listing();
        let mut entries: Vec<(String, V)> = Vec::new();
        let mut i: usize = 0;
        while i < self.entries.len()
            invariant
                list == self.listing(),
                list.len() == self.entries@.len(),
                i <= self.entries@.len(),
                entries@.len() == i,
                forall|j: int|
                    0 <= j < i ==> (#[trigger] texts_of(entries@)[j]).0 == list[j].0 && cloned::<V>(
                        list[j].1,
                        texts_of(entries@)[j].1,
                    ),
            decreases self.entries@.len() - i,
        {
            let ghost before = texts_of(entries@);
            entries.push((self.entries[i].0.clone(), self.entries[i].1.clone()));
            assert(texts_of(entries@) =~= before.push(
                (entries@[i as int].0@, entries@[i as int].1),
            ));
            i += 1;
        }
        assert forall|a: int, b: int| 0 <= a < b < texts_of(entries@).len() implies text::lex_lt(
            #[trigger] texts_of(entries@)[a].0,
            #[trigger] texts_of(entries@)[b].0,
        ) by {
            assert(text::lex_lt(list[a].0, list[b].0));
        }
        StrMap { entries }
    }
}

/// Two maps say the same about `k`.
spec fn agree_at<V>(a: Map<Seq<char>, V>, b: Map<Seq<char>, V>, k: Seq<char>) -> bool {
    &&& a.dom().contains(k) == b.dom().contains(k)
    &&& a.dom().contains(k) ==> a[k] == b[k]
}

proof fn lemma_agree<V>(a: Map<Seq<char>, V>, b: Map<Seq<char>, V>)
    requires
        forall|k: Seq<char>| agree_at(a, b, k),
    ensures
        a == b,
{
    assert forall|k: Seq<char>| a.dom().contains(k) == b.dom().contains(k) by {
        assert(agree_at(a, b, k));
    }
    assert forall|k: Seq<char>| a.dom().contains(k) implies a[k] == b[k] by {
        assert(agree_at(a, b, k));
    }
    assert(a =~= b);
}

/// A key that is neither before nor at its slot is absent.
proof fn lemma_absent<V>(list: Seq<(Seq<char>, V)>, key: Seq<char>, i: int)
    requires
        keys_ascend(list),
        0 <= i <= list.len(),
        forall|j: int| 0 <= j < i ==> text::lex_lt(#[trigger] list[j].0, key),
        forall|j: int| i <= j < list.len() ==> !text::lex_lt(#[trigger] list[j].0, key),
        i == list.len() || list[i].0 != key,
    ensures
        !map_of(list).dom().contains(key),
        forall|j: int| i <= j < list.len() ==> text::lex_lt(key, #[trigger] list[j].0),
{
    text::lemma_lex_irreflexive(key);
    assert forall|j: int| i <= j < list.len() implies text::lex_lt(key, #[trigger] list[j].0) by {
        text::lemma_lex_total(list[i].0, key);
        if i < j {
            text::lemma_lex_transitive(key, list[i].0, list[j].0);
        }
    }
    if exists|j: int| key_at(list, key, j) {
        let j = choose|j: int| key_at(list, key, j);
        if j < i {
            assert(text::lex_lt(list[j].0, key));
        } else {
            assert(text::lex_lt(key, list[j].0));
        }
    }
}

proof fn lemma_replaced<V>(list: Seq<(Seq<char>, V)>, i: int, value: V)
    requires
        keys_ascend(list),
        0 <= i < list.len(),
    ensures
        keys_ascend(list.update(i, (list[i].0, value))),
        map_of(list.update(i, (list[i].0, value))) == map_of(list).insert(list[i].0, value),
{
    let after = list.update(i, (list[i].0, value));
    assert(keys_ascend(after));
    assert forall|j: int|
        0 <= j < list.len() && list[j].0 != list[i].0 implies #[trigger] after.contains(list[j]) by {
        assert(after[j] == list[j]);
    }
    assert(after[i] == (list[i].0, value));
    lemma_same_map(list, after, list[i].0, value);
}

/// `after` lists the entries of `list`, with `value` under `key`.
proof fn lemma_same_map<V>(
    list: Seq<(Seq<char>, V)>,
    after: Seq<(Seq<char>, V)>,
    key: Seq<char>,
    value: V,
)
    requires
        keys_ascend(list),
        keys_ascend(after),
        forall|j: int|
            0 <= j < list.len() && list[j].0 != key ==> #[trigger] after.contains(list[j]),
        forall|j: int|
            0 <= j < after.len() && after[j].0 != key ==> #[trigger] list.contains(after[j]),
        after.contains((key, value)),
    ensures
        map_of(after) == map_of(list).insert(key, value),
{
    let left = map_of(after);
    let right = map_of(list).insert(key, value);
    assert forall|k: Seq<char>| agree_at(left, right, k) by {
        if k == key {
            let j = choose|j: int| 0 <= j < after.len() && after[j] == (key, value);
            lemma_lookup(after, j);
        } else {
            if left.dom().contains(k) {
                let j = choose|j: int| key_at(after, k, j);
                lemma_lookup(after, j);
                assert(list.contains(after[j]));
                let m = choose|m: int| 0 <= m < list.len() && list[m] == after[j];
                lemma_lookup(list, m);
            }
            if right.dom().contains(k) {
                let j = choose|j: int| key_at(list, k, j);
                lemma_lookup(list, j);
                assert(after.contains(list[j]));
                let m = choose|m: int| 0 <= m < after.len() && after[m] == list[j];
                lemma_lookup(after, m);
            }
        }
    }
    lemma_agree(left, right);
}

proof fn lemma_inserted<V>(list: Seq<(Seq<char>, V)>, i: int, key: Seq<char>, value: V)
    requires
        keys_ascend(list),
        0 <= i <= list.len(),
        forall|j: int| 0 <= j < i ==> text::lex_lt(#[trigger] list[j].0, key),
        forall|j: int| i <= j < list.len() ==> text::lex_lt(key, #[trigger] list[j].0),
    ensures
        keys_ascend(list.insert(i, (key, value))),
        map_of(list.insert(i, (key, value))) == map_of(list).insert(key, value),
{
    let after = list.insert(i, (key, value));
    assert(keys_ascend(after));
    assert forall|j: int| 0 <= j < list.len() && list[j].0 != key implies #[trigger] after.contains(
        list[j],
    ) by {
        if j < i {
            assert(after[j] == list[j]);
        } else {
            assert(after[j + 1] == list[j]);
        }
    }
    assert forall|j: int|
        0 <= j < after.len() && after[j].0 != key implies #[trigger] list.contains(after[j]) by {
        if j < i {
            assert(after[j] == list[j]);
        } else {
            assert(after[j] == list[j - 1]);
        }
    }
    assert(after[i] == (key, value));
    lemma_same_map(list, after, key, value);
}

/// One more entry at the end of an ascending list.
pub proof fn lemma_prefix<V>(list: Seq<(Seq<char>, V)>, i: int)
    requires
        keys_ascend(list),
        0 <= i < list.len(),
    ensures
        map_of(list.take(i + 1)) == map_of(list.take(i)).insert(list[i].0, list[i].1),
{
    lemma_inserted(list.take(i), i, list[i].0, list[i].1);
    assert(list.take(i).insert(i, list[i]) =~= list.take(i + 1));
}

proof fn lemma_removed<V>(list: Seq<(Seq<char>, V)>, i: int)
    requires
        keys_ascend(list),
        0 <= i < list.len(),
    ensures
        keys_ascend(list.remove(i)),
        map_of(list.remove(i)) == map_of(list).remove(list[i].0),
{
    let after = list.remove(i);
    let key = list[i].0;
    assert(keys_ascend(after));
    let left = map_of(after);
    let right = map_of(list).remove(key);
    assert forall|k: Seq<char>| agree_at(left, right, k) by {
        if left.dom().contains(k) {
            let j = choose|j: int| key_at(after, k, j);
            let m = if j < i {
                j
            } else {
                j + 1
            };
            assert(after[j] == list[m]);
            lemma_lookup(after, j);
            lemma_lookup(list, m);
            if k == key {
                lemma_lookup(list, i);
            }
        }
        if right.dom().contains(k) {
            let m = choose|m: int| key_at(list, k, m);
            let j = if m < i {
                m
            } else {
                m - 1
            };
            assert(after[j] == list[m]);
            lemma_lookup(after, j);
            lemma_lookup(list, m);
        }
    }
    lemma_agree(left, right);
}

/// The least key of an ascending list precedes every other key of it.
proof fn lemma_first_key<V>(list: Seq<(Seq<char>, V)>, key: Seq<char>)
    requires
        keys_ascend(list),
        map_of(list).dom().contains(key),
    ensures
        list.len() > 0,
        key == list[0].0 || text::lex_lt(list[0].0, key),
{
    let i = choose|i: int| key_at(list, key, i);
    assert(key_at(list, key, i));
    if i > 0 {
        assert(text::lex_lt(list[0].0, list[i].0));
    }
}

/// A listing depends on the contents alone: two ascending lists that denote the
/// same map are the same list, in whatever order the entries were stored.
pub proof fn law_listing_canonical<V>(a: Seq<(Seq<char>, V)>, b: Seq<(Seq<char>, V)>)
    requires
        keys_ascend(a),
        keys_ascend(b),
        map_of(a) == map_of(b),
    ensures
        a == b,
    decreases a.len(),
{
    if a.len() == 0 {
        if b.len() > 0 {
            lemma_lookup(b, 0);
            lemma_first_key(a, b[0].0);
        }
        assert(a =~= b);
    } else {
        lemma_lookup(a, 0);
        lemma_first_key(b, a[0].0);
        lemma_lookup(b, 0);
        lemma_first_key(a, b[0].0);
        text::lemma_lex_total(a[0].0, b[0].0);
        assert(a[0] == b[0]);
        lemma_removed(a, 0);
        lemma_removed(b, 0);
        law_listing_canonical(a.remove(0), b.remove(0));
        assert(a =~= seq![a[0]] + a.remove(0));
        assert(b =~= seq![b[0]] + b.remove(0));
    }
}

/// What was inserted is found under its key, and what stood there before is handed back; no
/// other key is affected.
pub proof fn law_inserted_is_found<V>(
    map: &mut StrMap<V>,
    key: String,
    value: V,
    replaced: Option<V>,
    other: &str,
    earlier: Option<&V>,
    later: Option<&V>,
)
    requires
        call_ensures(StrMap::<V>::insert, (map, key, value), replaced),
        call_ensures(StrMap::<V>::get, (&*old(map), other), earlier),
        call_ensures(StrMap::<V>::get, (&*final(map), other), later),
    ensures
        other@ == key@ ==> later is Some && *later->0 == value,
        other@ == key@ ==> (replaced is Some <==> earlier is Some) && (earlier is Some
            ==> replaced->0 == *earlier->0),
        other@ != key@ ==> later == earlier,
{
}

/// What was removed is not found any more and is handed back; no other key is affected.
pub proof fn law_removed_is_not_found<V>(
    map: &mut StrMap<V>,
    key: &str,
    removed: Option<V>,
    other: &str,
    earlier: Option<&V>,
    later: Option<&V>,
)
    requires
        call_ensures(StrMap::<V>::remove, (map, key), removed),
        call_ensures(StrMap::<V>::get, (&*old(map), other), earlier),
        call_ensures(StrMap::<V>::get, (&*final(map), other), later),
    ensures
        other@ == key@ ==> later is None,
        other@ == key@ ==> (removed is Some <==> earlier is Some) && (earlier is Some
            ==> removed->0 == *earlier->0),
        other@ != key@ ==> later == earlier,
{
}

/// The listing is the map: a key is found exactly if it is listed, with the value that is
/// listed beside it, and an empty map lists nothing.
pub proof fn law_listing_is_the_map<V>(
    map: StrMap<V>,
    key: &str,
    found: Option<&V>,
    i: usize,
    listed_key: &String,
    listed_value: &V,
    len: usize,
    empty: StrMap<V>,
)
    requires
        map.wf(),
        call_ensures(StrMap::<V>::get, (&map, key), found),
        call_ensures(StrMap::<V>::len, (&map,), len),
        i < len,
        call_ensures(StrMap::<V>::key, (&map, i), listed_key),
        call_ensures(StrMap::<V>::value, (&map, i), listed_value),
        call_ensures(StrMap::<V>::new, (), empty),
    ensures
        listed_key@ == key@ ==> found is Some && *found->0 == *listed_value,
        found is Some ==> exists|k: int|
            0 <= k < map.listing().len() && (#[trigger] map.listing()[k]).0 == key@
                && map.listing()[k].1 == *found->0,
        map.listing()[i as int] == (listed_key@, *listed_value),
        map.listing().len() == len,
        empty.listing().len() == 0,
        !empty@.dom().contains(key@),
{
    let list = map.listing();
    lemma_lookup(list, i as int);
    if found is Some {
        let k = choose|k: int| key_at(list, key@, k);
        lemma_lookup(list, k);
        assert(list[k].0 == key@);
    }
}

} // verus!
