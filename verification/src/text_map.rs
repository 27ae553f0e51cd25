//! Maps from texts, kept in the order of their keys.

use crate::text;
use crate::text::{comes_before, same_text};
use vstd::prelude::*;

verus! {

/// A map whose entries stand in the order of their keys, each key once.
#[derive(Debug, PartialEq, Eq)]
pub struct TextMap<V> {
    pub entries: Vec<(String, V)>,
}

/// The keys of entries, in order.
pub open spec fn keys_of<V>(entries: Seq<(String, V)>) -> Seq<Seq<char>> {
    entries.map_values(|entry: (String, V)| entry.0@)
}

/// Every key comes before the ones behind it.
pub open spec fn is_sorted(keys: Seq<Seq<char>>) -> bool {
    forall|i: int, j: int|
        #![trigger keys[i], keys[j]]
        0 <= i < j < keys.len() ==> text::text_less(keys[i], keys[j])
}

/// What the entries map their keys to.
pub open spec fn mapping<V>(entries: Seq<(String, V)>) -> Map<Seq<char>, V> {
    Map::new(
        |key: Seq<char>| keys_of(entries).contains(key),
        |key: Seq<char>| entries[keys_of(entries).index_of(key)].1,
    )
}

impl<V> View for TextMap<V> {
    type V = Map<Seq<char>, V>;

    open spec fn view(&self) -> Map<Seq<char>, V> {
        mapping(self.entries@)
    }
}

pub proof fn lemma_sorted_is_distinct(keys: Seq<Seq<char>>, i: int, j: int)
    requires
        is_sorted(keys),
        0 <= i < keys.len(),
        0 <= j < keys.len(),
        keys[i] == keys[j],
    ensures
        i == j,
{
    if i < j {
        text::law_texts_are_ordered(keys[i], keys[j]);
    }
    if j < i {
        text::law_texts_are_ordered(keys[j], keys[i]);
    }
}

pub proof fn lemma_at<V>(entries: Seq<(String, V)>, i: int)
    requires
        is_sorted(keys_of(entries)),
        0 <= i < entries.len(),
    ensures
        mapping(entries).dom().contains(entries[i].0@),
        mapping(entries)[entries[i].0@] == entries[i].1,
{
    let keys = keys_of(entries);
    assert(keys[i] == entries[i].0@);
    let at = keys.index_of(entries[i].0@);
    assert(keys.contains(entries[i].0@));
    assert(0 <= at < keys.len() && keys[at] == entries[i].0@);
    lemma_sorted_is_distinct(keys, i, at);
}

impl<V> TextMap<V> {
    /// The keys stand in order.
    pub open spec fn well_formed(self) -> bool {
        is_sorted(keys_of(self.entries@))
    }

    pub fn new() -> (r: Self)
        ensures
            r.well_formed(),
            r@ == Map::<Seq<char>, V>::empty(),
    {
        let r = TextMap { entries: Vec::new() };
        proof {
            assert(r@ =~= Map::<Seq<char>, V>::empty());
        }
        r
    }

    /// The place of the first entry that does not come before the key.
    fn place(&self, key: &str) -> (r: usize)
        requires
            self.well_formed(),
        ensures
            r <= self.entries.len(),
            forall|i: int| 0 <= i < r ==> text::text_less(#[trigger] keys_of(self.entries@)[i], key@),
            forall|i: int|
                r <= i < self.entries.len() ==> !text::text_less(
                    #[trigger] keys_of(self.entries@)[i],
                    key@,
                ),
    {
        let mut i: usize = 0;
        let ghost keys = keys_of(self.entries@);
        while i < self.entries.len() && comes_before(self.entries[i].0.as_str(), key)
            invariant
                i <= self.entries.len(),
                keys == keys_of(self.entries@),
                forall|k: int| 0 <= k < i ==> text::text_less(#[trigger] keys[k], key@),
            decreases self.entries.len() - i,
        {
            assert(keys[i as int] == self.entries@[i as int].0@);
            i += 1;
        }
        proof {
            assert forall|k: int| i <= k < self.entries.len() implies !text::text_less(
                #[trigger] keys[k],
                key@,
            ) by {
                assert(keys[i as int] == self.entries@[i as int].0@);
                if k > i && text::text_less(keys[k], key@) {
                    text::law_text_order_is_transitive(keys[i as int], keys[k], key@);
                }
            }
        }
        i
    }

    /// What the key is mapped to.
    pub fn get(&self, key: &str) -> (r: Option<&V>)
        requires
            self.well_formed(),
        ensures
            match r {
                Some(value) => self@.dom().contains(key@) && self@[key@] == *value,
                None => !self@.dom().contains(key@),
            },
    {
        let at: usize = self.place(key);
        let ghost keys = keys_of(self.entries@);
        if at < self.entries.len() && same_text(self.entries[at].0.as_str(), key) {
            proof {
                lemma_at(self.entries@, at as int);
            }
            return Some(&self.entries[at].1);
        }
        proof {
            assert forall|i: int| 0 <= i < keys.len() implies keys[i] != key@ by {
                text::law_texts_are_ordered(keys[i], key@);
                if i > at && keys[i] == key@ {
                    assert(keys[at as int] == self.entries@[at as int].0@);
                    assert(text::text_less(keys[at as int], keys[i]));
                }
            }
        }
        None
    }

    /// Whether the key is mapped to anything.
    pub fn contains_key(&self, key: &str) -> (r: bool)
        requires
            self.well_formed(),
        ensures
            r == self@.dom().contains(key@),
    {
        self.get(key).is_some()
    }

    /// Maps the key to the value, whatever it was mapped to before.
    pub fn insert(&mut self, key: String, value: V)
        requires
            old(self).well_formed(),
        ensures
            final(self).well_formed(),
            final(self)@ == old(self)@.insert(key@, value),
    {
        let at: usize = self.place(key.as_str());
        let ghost before = self.entries@;
        let ghost keys = keys_of(before);
        let ghost wanted = key@;
        if at < self.entries.len() && same_text(self.entries[at].0.as_str(), key.as_str()) {
            let name = self.entries[at].0.clone();
            self.entries.set(at, (name, value));
            proof {
                let after = self.entries@;
                assert(keys_of(after) =~= keys);
                assert(keys[at as int] == wanted);
                assert forall|k: Seq<char>| #[trigger]
                    mapping(after).dom().contains(k) implies mapping(after)[k] == mapping(
                    before,
                ).insert(wanted, value)[k] by {
                    let i = keys.index_of(k);
                    assert(keys[i] == k);
                    lemma_at(after, i);
                    lemma_at(before, i);
                    if k == wanted {
                        lemma_sorted_is_distinct(keys, i, at as int);
                    }
                }
                assert(mapping(after) =~= mapping(before).insert(wanted, value));
            }
        } else {
            self.entries.insert(at, (key, value));
            proof {
                let after = self.entries@;
                let new_keys = keys_of(after);
                assert(new_keys =~= keys.insert(at as int, wanted));
                assert forall|i: int| at <= i < keys.len() implies text::text_less(
                    wanted,
                    #[trigger] keys[i],
                ) by {
                    assert(keys[at as int] == before[at as int].0@);
                    text::law_texts_are_ordered(keys[i], wanted);
                    if keys[i] == wanted && i > at {
                        assert(text::text_less(keys[at as int], keys[i]));
                    }
                }
                assert forall|i: int, j: int|
                    #![trigger new_keys[i], new_keys[j]]
                    0 <= i < j < new_keys.len() implies text::text_less(new_keys[i], new_keys[j]) by {
                    if i < at && j < at {
                        assert(new_keys[i] == keys[i] && new_keys[j] == keys[j]);
                    } else if i < at && j > at {
                        assert(new_keys[i] == keys[i] && new_keys[j] == keys[j - 1]);
                    } else if i > at {
                        assert(new_keys[i] == keys[i - 1] && new_keys[j] == keys[j - 1]);
                    } else if i == at {
                        assert(new_keys[j] == keys[j - 1]);
                    } else {
                        assert(new_keys[i] == keys[i]);
                    }
                }
                assert forall|k: Seq<char>| #[trigger]
                    mapping(after).dom().contains(k) <==> mapping(before).insert(
                        wanted,
                        value,
                    ).dom().contains(k) by {
                    if keys.contains(k) {
                        let i = keys.index_of(k);
                        if i < at {
                            assert(new_keys[i] == k);
                        } else {
                            assert(new_keys[i + 1] == k);
                        }
                    }
                    assert(new_keys[at as int] == wanted);
                    if new_keys.contains(k) {
                        let i = new_keys.index_of(k);
                        if i < at {
                            assert(keys[i] == k);
                        } else if i > at {
                            assert(keys[i - 1] == k);
                        }
                    }
                }
                assert forall|k: Seq<char>| #[trigger]
                    mapping(after).dom().contains(k) implies mapping(after)[k] == mapping(
                    before,
                ).insert(wanted, value)[k] by {
                    let i = new_keys.index_of(k);
                    assert(new_keys[i] == k);
                    lemma_at(after, i);
                    if i < at {
                        lemma_at(before, i);
                    } else if i > at {
                        lemma_at(before, i - 1);
                    }
                    if k == wanted {
                        lemma_sorted_is_distinct(new_keys, i, at as int);
                    }
                }
                assert(mapping(after) =~= mapping(before).insert(wanted, value));
            }
        }
    }
}

/// What a key was mapped to is found under it, and every other key is as before.
pub proof fn law_inserted_value_is_found<V>(
    map: &mut TextMap<V>,
    key: String,
    value: V,
    name: &str,
    found: Option<&V>,
    other: &str,
    before: Option<&V>,
    after: Option<&V>,
)
    requires
        old(map).well_formed(),
        call_ensures(TextMap::<V>::insert, (map, key, value), ()),
        name@ == key@,
        other@ != key@,
        call_ensures(TextMap::<V>::get, (final(map), name), found),
        call_ensures(TextMap::<V>::get, (old(map), other), before),
        call_ensures(TextMap::<V>::get, (final(map), other), after),
    ensures
        found matches Some(read) && *read == value,
        before is Some <==> after is Some,
        before matches Some(read) ==> (after matches Some(again) && *again == *read),
{
}

} // verus!
