//! A catalog maps identifiers to values. It is built by inserting entries in
//! visitation order; a later insertion under a name already present silently
//! overwrites the earlier one, so the abstract mapping holds at most one
//! binding per identifier.

use vstd::prelude::*;

verus! {

/// One recorded insertion: an identifier and its associated value.
pub struct CatalogEntry<V> {
    pub key: String,
    pub val: V,
}

/// A mapping from identifier to value, abstracted as a `Map` from the
/// identifier's characters to the deep view of the value. Later insertions
/// under the same identifier overwrite earlier ones.
pub struct Catalog<V> {
    pub entries: Vec<CatalogEntry<V>>,
}

/// The mapping that a sequence of insertions builds up, later entries
/// overwriting earlier ones.
pub open spec fn entries_map<V: DeepView>(s: Seq<CatalogEntry<V>>) -> Map<
    Seq<char>,
    <V as DeepView>::V,
>
    decreases s.len(),
{
    if s.len() == 0 {
        Map::empty()
    } else {
        entries_map(s.drop_last()).insert(s.last().key@, s.last().val.deep_view())
    }
}

impl<V: DeepView> View for Catalog<V> {
    type V = Map<Seq<char>, <V as DeepView>::V>;

    open spec fn view(&self) -> Self::V {
        entries_map(self.entries@)
    }
}

impl<V: DeepView> Catalog<V> {
    /// An empty catalog.
    pub fn new() -> (c: Self)
        ensures
            c@ == Map::<Seq<char>, <V as DeepView>::V>::empty(),
    {
        Catalog { entries: Vec::new() }
    }

    /// Records `val` under `key`, overwriting any earlier binding of `key`.
    pub fn insert(&mut self, key: String, val: V)
        ensures
            final(self)@ == old(self)@.insert(key@, val.deep_view()),
    {
        self.entries.push(CatalogEntry { key, val });
        proof {
            assert(self.entries@.drop_last() =~= old(self).entries@);
        }
    }

    /// Looks `key` up: the value of its latest insertion, if any.
    pub fn get(&self, key: &String) -> (r: Option<&V>)
        ensures
            match r {
                Some(v) => self@.contains_key(key@) && v.deep_view() == self@[key@],
                None => !self@.contains_key(key@),
            },
    {
        let mut i: usize = self.entries.len();
        proof {
            assert(self.entries@.take(i as int) =~= self.entries@);
        }
        while i > 0
            invariant
                i <= self.entries.len(),
                self@.contains_key(key@) == entries_map(self.entries@.take(i as int)).contains_key(
                    key@,
                ),
                entries_map(self.entries@.take(i as int)).contains_key(key@) ==> entries_map(
                    self.entries@.take(i as int),
                )[key@] == self@[key@],
            decreases i,
        {
            i = i - 1;
            proof {
                assert(self.entries@.take(i + 1).drop_last() =~= self.entries@.take(i as int));
                assert(self.entries@.take(i + 1).last() == self.entries@[i as int]);
            }
            if self.entries[i].key == *key {
                return Some(&self.entries[i].val);
            }
        }
        proof {
            assert(self.entries@.take(0) =~= Seq::<CatalogEntry<V>>::empty());
        }
        None
    }
}

} // verus!
