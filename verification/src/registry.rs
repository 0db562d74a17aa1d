//! A map from names to values, kept in the order in which the names came in.

use crate::text::same_text;
use vstd::prelude::*;

verus! {

/// Values held under names, at most one value under each name.
///
/// Its view is the map from the names' characters to the values.
#[verifier::reject_recursive_types(V)]
pub struct Registry<V> {
    entries: Vec<(String, V)>,
}

spec fn names_differ<V>(entries: Seq<(String, V)>) -> bool {
    forall|i: int, j: int|
        0 <= i < entries.len() && 0 <= j < entries.len() && i != j ==> #[trigger] entries[i].0@
            != #[trigger] entries[j].0@
}

spec fn holds_name<V>(entries: Seq<(String, V)>, name: Seq<char>) -> bool {
    exists|i: int| 0 <= i < entries.len() && #[trigger] entries[i].0@ == name
}

spec fn place_of<V>(entries: Seq<(String, V)>, name: Seq<char>) -> int {
    choose|i: int| 0 <= i < entries.len() && #[trigger] entries[i].0@ == name
}

spec fn as_map<V>(entries: Seq<(String, V)>) -> Map<Seq<char>, V> {
    Map::new(
        |name: Seq<char>| holds_name(entries, name),
        |name: Seq<char>| entries[place_of(entries, name)].1,
    )
}

proof fn lemma_entry_is_mapped<V>(entries: Seq<(String, V)>, i: int)
    requires
        names_differ(entries),
        0 <= i < entries.len(),
    ensures
        as_map(entries).contains_key(entries[i].0@),
        as_map(entries)[entries[i].0@] == entries[i].1,
{
    let name = entries[i].0@;
    assert(holds_name(entries, name));
    let p = place_of(entries, name);
    assert(0 <= p < entries.len() && entries[p].0@ == name);
    assert(p == i);
}

proof fn lemma_push<V>(entries: Seq<(String, V)>, name: String, value: V)
    requires
        names_differ(entries),
        !holds_name(entries, name@),
    ensures
        names_differ(entries.push((name, value))),
        as_map(entries.push((name, value))) == as_map(entries).insert(name@, value),
{
    let after = entries.push((name, value));
    assert forall|i: int, j: int|
        0 <= i < after.len() && 0 <= j < after.len() && i != j implies #[trigger] after[i].0@
        != #[trigger] after[j].0@ by {
        if i < entries.len() {
            assert(after[i] == entries[i]);
        }
        if j < entries.len() {
            assert(after[j] == entries[j]);
        }
    }
    assert forall|k: Seq<char>|
        as_map(after).contains_key(k) == as_map(entries).insert(name@, value).contains_key(k) by {
        if k == name@ {
            lemma_entry_is_mapped(after, entries.len() as int);
        }
        if holds_name(after, k) {
            let p = place_of(after, k);
            if p < entries.len() {
                assert(entries[p].0@ == k);
            }
        }
        if holds_name(entries, k) {
            let p = place_of(entries, k);
            assert(after[p].0@ == k);
        }
    }
    assert forall|k: Seq<char>| as_map(after).contains_key(k) implies as_map(after)[k] == as_map(
        entries,
    ).insert(name@, value)[k] by {
        let p = place_of(after, k);
        assert(0 <= p < after.len() && after[p].0@ == k);
        lemma_entry_is_mapped(after, p);
        if p < entries.len() {
            assert(after[p] == entries[p]);
            lemma_entry_is_mapped(entries, p);
        }
    }
    assert(as_map(after) =~= as_map(entries).insert(name@, value));
}

proof fn lemma_remove<V>(entries: Seq<(String, V)>, i: int)
    requires
        names_differ(entries),
        0 <= i < entries.len(),
    ensures
        names_differ(entries.remove(i)),
        !holds_name(entries.remove(i), entries[i].0@),
        as_map(entries.remove(i)) == as_map(entries).remove(entries[i].0@),
{
    let after = entries.remove(i);
    let gone = entries[i].0@;
    assert forall|p: int, q: int|
        0 <= p < after.len() && 0 <= q < after.len() && p != q implies #[trigger] after[p].0@
        != #[trigger] after[q].0@ by {
        let p0 = if p < i { p } else { p + 1 };
        let q0 = if q < i { q } else { q + 1 };
        assert(after[p] == entries[p0]);
        assert(after[q] == entries[q0]);
    }
    assert forall|p: int| 0 <= p < after.len() implies #[trigger] after[p].0@ != gone by {
        let p0 = if p < i { p } else { p + 1 };
        assert(after[p] == entries[p0]);
    }
    assert forall|k: Seq<char>|
        as_map(after).contains_key(k) == as_map(entries).remove(gone).contains_key(k) by {
        if holds_name(after, k) {
            let p = place_of(after, k);
            let p0 = if p < i { p } else { p + 1 };
            assert(after[p] == entries[p0]);
            assert(entries[p0].0@ == k);
        }
        if holds_name(entries, k) && k != gone {
            let p0 = place_of(entries, k);
            let p = if p0 < i { p0 } else { p0 - 1 };
            assert(after[p] == entries[p0]);
            assert(after[p].0@ == k);
        }
    }
    assert forall|k: Seq<char>| as_map(after).contains_key(k) implies as_map(after)[k] == as_map(
        entries,
    ).remove(gone)[k] by {
        let p = place_of(after, k);
        assert(0 <= p < after.len() && after[p].0@ == k);
        lemma_entry_is_mapped(after, p);
        let p0 = if p < i { p } else { p + 1 };
        assert(after[p] == entries[p0]);
        lemma_entry_is_mapped(entries, p0);
    }
    assert(as_map(after) =~= as_map(entries).remove(gone));
}

impl<V> View for Registry<V> {
    type V = Map<Seq<char>, V>;

    closed spec fn view(&self) -> Map<Seq<char>, V> {
        as_map(self.entries@)
    }
}

fn position<V>(entries: &Vec<(String, V)>, name: &str) -> (r: Option<usize>)
    ensures
        match r {
            Some(i) => i < entries.len() && entries@[i as int].0@ == name@,
            None => !holds_name(entries@, name@),
        },
{
    let mut i: usize = 0;
    while i < entries.len()
        invariant
            i <= entries.len(),
            forall|j: int| 0 <= j < i ==> #[trigger] entries@[j].0@ != name@,
        decreases entries.len() - i,
    {
        if same_text(entries[i].0.as_str(), name) {
            return Some(i);
        }
        i = i + 1;
    }
    None
}

impl<V> Registry<V> {
    #[verifier::type_invariant]
    spec fn wf(self) -> bool {
        names_differ(self.entries@)
    }

    /// A registry that holds nothing.
    pub fn new() -> (r: Self)
        ensures
            r@ == Map::<Seq<char>, V>::empty(),
    {
        let r = Registry { entries: Vec::new() };
        proof {
            assert(r@ =~= Map::<Seq<char>, V>::empty());
        }
        r
    }

    /// The value held under `name`.
    pub fn get(&self, name: &str) -> (r: Option<&V>)
        ensures
            match r {
                Some(v) => self@.contains_key(name@) && self@[name@] == *v,
                None => !self@.contains_key(name@),
            },
    {
        proof {
            use_type_invariant(self);
        }
        match position(&self.entries, name) {
            Some(i) => {
                proof {
                    lemma_entry_is_mapped(self.entries@, i as int);
                }
                Some(&self.entries[i].1)
            },
            None => None,
        }
    }

    /// Takes out the value held under `name`.
    pub fn remove(&mut self, name: &str) -> (r: Option<V>)
        ensures
            final(self)@ == old(self)@.remove(name@),
            match r {
                Some(v) => old(self)@.contains_key(name@) && old(self)@[name@] == v,
                None => !old(self)@.contains_key(name@),
            },
    {
        proof {
            use_type_invariant(&*self);
        }
        match position(&self.entries, name) {
            Some(i) => {
                proof {
                    lemma_entry_is_mapped(self.entries@, i as int);
                    lemma_remove(self.entries@, i as int);
                }
                let mut entries: Vec<(String, V)> = Vec::new();
                std::mem::swap(&mut entries, &mut self.entries);
                let (_, value) = entries.remove(i);
                self.entries = entries;
                Some(value)
            },
            None => {
                proof {
                    assert(self@.remove(name@) =~= self@);
                }
                None
            },
        }
    }

    /// Puts `value` under `name` and hands back what was there before.
    pub fn insert(&mut self, name: String, value: V) -> (r: Option<V>)
        ensures
            final(self)@ == old(self)@.insert(name@, value),
            match r {
                Some(v) => old(self)@.contains_key(name@) && old(self)@[name@] == v,
                None => !old(self)@.contains_key(name@),
            },
    {
        let before = self.remove(name.as_str());
        proof {
            use_type_invariant(&*self);
            assert(!as_map(self.entries@).contains_key(name@));
            lemma_push(self.entries@, name, value);
            assert(old(self)@.remove(name@).insert(name@, value) =~= old(self)@.insert(
                name@,
                value,
            ));
        }
        let mut entries: Vec<(String, V)> = Vec::new();
        std::mem::swap(&mut entries, &mut self.entries);
        entries.push((name, value));
        self.entries = entries;
        before
    }
}

} // verus!
