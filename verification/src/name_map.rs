use vstd::prelude::*;
use crate::text::{
    lemma_precedes_irreflexive, lemma_precedes_total, lemma_precedes_transitive, name_precedes,
    precedes,
};

verus! {

/// One named value of a [`NameMap`].
#[derive(Debug)]
pub struct Entry<V> {
    pub name: String,
    pub value: V,
}

/// The names of a sequence of strings, as character sequences.
pub open spec fn names_of(strings: Seq<String>) -> Seq<Seq<char>> {
    Seq::new(strings.len(), |i: int| strings[i]@)
}

/// The names of a sequence of entries, in the order of the entries.
pub open spec fn entry_names<V>(entries: Seq<Entry<V>>) -> Seq<Seq<char>> {
    Seq::new(entries.len(), |i: int| entries[i].name@)
}

/// Every name precedes all the names after it.
pub open spec fn strictly_ascending(names: Seq<Seq<char>>) -> bool {
    forall|i: int, j: int|
        0 <= i < j < names.len() ==> precedes(#[trigger] names[i], #[trigger] names[j])
}

/// In an ascending sequence no name occurs twice.
pub proof fn lemma_ascending_distinct(names: Seq<Seq<char>>)
    requires
        strictly_ascending(names),
    ensures
        names.no_duplicates(),
{
}

/// In an ascending sequence a name is found at the one place where it stands.
pub proof fn lemma_ascending_position(names: Seq<Seq<char>>, i: int)
    requires
        strictly_ascending(names),
        0 <= i < names.len(),
    ensures
        names.index_of_first(names[i]) == Some(i),
{
    lemma_ascending_distinct(names);
    names.index_of_first_ensures(names[i]);
}

/// An ascending sequence is determined by the set of its names.
pub proof fn lemma_ascending_unique(a: Seq<Seq<char>>, b: Seq<Seq<char>>)
    requires
        strictly_ascending(a),
        strictly_ascending(b),
        a.to_set() == b.to_set(),
    ensures
        a == b,
    decreases a.len(),
{
    if a.len() == 0 || b.len() == 0 {
        // Where one is empty, so is the other.
        if a.len() > 0 {
            assert(a.to_set().contains(a[0]));
        }
        if b.len() > 0 {
            assert(b.to_set().contains(b[0]));
        }
    } else {
        // The least name of either sequence is its first.
        assert(a.to_set().contains(a[0]));
        assert(b.to_set().contains(b[0]));
        let i = choose|i: int| 0 <= i < b.len() && b[i] == a[0];
        let j = choose|j: int| 0 <= j < a.len() && a[j] == b[0];
        if i != 0 {
            if j != 0 {
                lemma_precedes_transitive(a[0], b[0], a[0]);
            }
            lemma_precedes_irreflexive(a[0]);
        }
        let ra = a.drop_first();
        let rb = b.drop_first();
        assert forall|n: Seq<char>| ra.to_set().contains(n) == rb.to_set().contains(n) by {
            lemma_precedes_irreflexive(a[0]);
            if ra.contains(n) {
                let k = choose|k: int| 0 <= k < ra.len() && ra[k] == n;
                assert(a[k + 1] == n);
                assert(precedes(a[0], a[k + 1]));
                assert(a.to_set().contains(n));
                assert(b.contains(n));
                let m = choose|m: int| 0 <= m < b.len() && b[m] == n;
                assert(m != 0);
                assert(rb[m - 1] == n);
            }
            if rb.contains(n) {
                let k = choose|k: int| 0 <= k < rb.len() && rb[k] == n;
                assert(b[k + 1] == n);
                assert(precedes(b[0], b[k + 1]));
                assert(b.to_set().contains(n));
                assert(a.contains(n));
                let m = choose|m: int| 0 <= m < a.len() && a[m] == n;
                assert(m != 0);
                assert(ra[m - 1] == n);
            }
        }
        assert(ra.to_set() =~= rb.to_set());
        lemma_ascending_unique(ra, rb);
        assert(b =~= seq![b[0]] + rb);
    }
}

/// A name that may be absent, as a character sequence.
pub open spec fn name_view(name: Option<String>) -> Option<Seq<char>> {
    match name {
        Some(n) => Some(n@),
        None => None,
    }
}

/// A copy of a name that may be absent.
pub fn copy_name(name: &Option<String>) -> (r: Option<String>)
    ensures
        name_view(r) == name_view(*name),
{
    match name {
        Some(n) => Some(n.clone()),
        None => None,
    }
}

/// A copy of a list of names.
pub fn copy_names(names: &Vec<String>) -> (r: Vec<String>)
    ensures
        names_of(r@) == names_of(names@),
{
    let mut copy: Vec<String> = Vec::new();
    let mut i: usize = 0;
    while i < names.len()
        invariant
            i <= names.len(),
            copy.len() == i,
            forall|j: int| 0 <= j < i ==> copy[j]@ == names[j]@,
        decreases names.len() - i,
    {
        copy.push(names[i].clone());
        i = i + 1;
    }
    copy
}

/// Finds the first place of `name` in a list of names.
pub fn find_name(names: &Vec<String>, name: &String) -> (r: Option<usize>)
    ensures
        match r {
            Some(i) => names_of(names@).index_of_first(name@) == Some(i as int),
            None => names_of(names@).index_of_first(name@).is_none(),
        },
{
    let ghost all = names_of(names@);
    let mut i: usize = 0;
    while i < names.len()
        invariant
            i <= names.len(),
            all == names_of(names@),
            forall|j: int| 0 <= j < i ==> all[j] != name@,
        decreases names.len() - i,
    {
        if names[i] == *name {
            proof {
                assert(all[i as int] == name@);
                all.index_of_first_ensures(name@);
            }
            return Some(i);
        }
        i = i + 1;
    }
    proof {
        all.index_of_first_ensures(name@);
    }
    None
}

/// The value that a sequence of entries holds under `name`: that of the
/// first entry so named.
pub open spec fn lookup_in<V>(entries: Seq<Entry<V>>, name: Seq<char>) -> Option<V> {
    match entry_names(entries).index_of_first(name) {
        Some(i) => Some(entries[i].value),
        None => None,
    }
}

/// The mapping from names to values that a sequence of entries stands for.
pub open spec fn map_of<V>(entries: Seq<Entry<V>>) -> Map<Seq<char>, V> {
    Map::new(
        |n: Seq<char>| entry_names(entries).contains(n),
        |n: Seq<char>| lookup_in(entries, n).unwrap(),
    )
}

/// Among ascending entries, each is what a lookup of its own name finds.
pub proof fn lemma_lookup_at<V>(entries: Seq<Entry<V>>, i: int)
    requires
        strictly_ascending(entry_names(entries)),
        0 <= i < entries.len(),
    ensures
        entry_names(entries).contains(entries[i].name@),
        entry_names(entries).index_of_first(entries[i].name@) == Some(i),
        lookup_in(entries, entries[i].name@) == Some(entries[i].value),
{
    let names = entry_names(entries);
    lemma_ascending_position(names, i);
}

/// A lookup finds nothing exactly for the names that no entry has.
pub proof fn lemma_lookup_absent<V>(entries: Seq<Entry<V>>, name: Seq<char>)
    ensures
        lookup_in(entries, name).is_none() <==> !entry_names(entries).contains(name),
{
    entry_names(entries).index_of_first_ensures(name);
}

/// A map from names to values, kept in the order of the names, so that the
/// list of its names is the same however it was filled.
#[derive(Debug)]
pub struct NameMap<V> {
    entries: Vec<Entry<V>>,
}

impl<V> NameMap<V> {
    #[verifier::type_invariant]
    spec fn ascending(&self) -> bool {
        strictly_ascending(entry_names(self.entries@))
    }

    /// The entries, in the order of their names.
    pub closed spec fn entries(&self) -> Seq<Entry<V>> {
        self.entries@
    }

    /// The names, in order.
    pub open spec fn names(&self) -> Seq<Seq<char>> {
        entry_names(self.entries())
    }

    /// The names stand in strictly ascending order. Every map that the
    /// functions of this type hand out is of this kind.
    pub open spec fn wf(&self) -> bool {
        strictly_ascending(self.names())
    }

    /// The map holds a value under `name`.
    pub open spec fn contains(&self, name: Seq<char>) -> bool {
        self.names().contains(name)
    }

    /// Where `name` stands in the list of names.
    pub open spec fn position(&self, name: Seq<char>) -> Option<int> {
        self.names().index_of_first(name)
    }

    /// The value held under `name`.
    pub open spec fn lookup(&self, name: Seq<char>) -> Option<V> {
        lookup_in(self.entries(), name)
    }

    /// The map as a mathematical mapping.
    pub open spec fn to_map(&self) -> Map<Seq<char>, V> {
        map_of(self.entries())
    }

    /// The empty map.
    pub fn new() -> (r: Self)
        ensures
            r.wf(),
            r.entries() == Seq::<Entry<V>>::empty(),
            r.names() == Seq::<Seq<char>>::empty(),
            r.to_map() == Map::<Seq<char>, V>::empty(),
    {
        NameMap { entries: Vec::new() }
    }

    /// The number of names.
    pub fn len(&self) -> (n: usize)
        ensures
            self.wf(),
            n == self.entries().len(),
    {
        proof {
            use_type_invariant(self);
        }
        self.entries.len()
    }

    /// The place of `name` in the list of names, if the map holds it.
    pub fn index_of(&self, name: &String) -> (r: Option<usize>)
        ensures
            self.wf(),
            match r {
                Some(i) => {
                    &&& self.position(name@) == Some(i as int)
                    &&& i < self.entries().len()
                    &&& self.names()[i as int] == name@
                },
                None => self.position(name@).is_none() && !self.contains(name@),
            },
    {
        proof {
            use_type_invariant(self);
        }
        let ghost names = entry_names(self.entries@);
        let mut i: usize = 0;
        while i < self.entries.len()
            invariant
                i <= self.entries.len(),
                names == entry_names(self.entries@),
                strictly_ascending(names),
                forall|j: int| 0 <= j < i ==> names[j] != name@,
            decreases self.entries.len() - i,
        {
            if self.entries[i].name == *name {
                proof {
                    lemma_lookup_at(self.entries@, i as int);
                }
                return Some(i);
            }
            i = i + 1;
        }
        proof {
            names.index_of_first_ensures(name@);
        }
        None
    }

    /// The value held under `name`, if there is one.
    pub fn get(&self, name: &String) -> (r: Option<&V>)
        ensures
            self.wf(),
            match r {
                Some(v) => self.lookup(name@) == Some(*v),
                None => self.lookup(name@).is_none(),
            },
    {
        match self.index_of(name) {
            Some(i) => {
                proof {
                    self.names().index_of_first_ensures(name@);
                }
                Some(&self.entries[i].value)
            },
            None => None,
        }
    }

    /// The name at place `i`.
    pub fn name_at(&self, i: usize) -> (r: &String)
        requires
            i < self.entries().len(),
        ensures
            *r == self.entries()[i as int].name,
            r@ == self.names()[i as int],
    {
        &self.entries[i].name
    }

    /// The value at place `i`.
    pub fn value_at(&self, i: usize) -> (r: &V)
        requires
            i < self.entries().len(),
        ensures
            *r == self.entries()[i as int].value,
    {
        &self.entries[i].value
    }

    /// The names of the map, in ascending order.
    pub fn get_names(&self) -> (r: Vec<String>)
        ensures
            self.wf(),
            names_of(r@) == self.names(),
    {
        proof {
            use_type_invariant(self);
        }
        let mut names: Vec<String> = Vec::new();
        let mut i: usize = 0;
        while i < self.entries.len()
            invariant
                i <= self.entries.len(),
                names.len() == i,
                forall|j: int| 0 <= j < i ==> names[j]@ == self.entries[j].name@,
            decreases self.entries.len() - i,
        {
            names.push(self.entries[i].name.clone());
            i = i + 1;
        }
        names
    }

    /// Puts `value` under `name`, and hands back the value that stood there
    /// before, if there was one.
    pub fn insert(&mut self, name: String, value: V) -> (replaced: Option<V>)
        ensures
            final(self).wf(),
            final(self).to_map() == old(self).to_map().insert(name@, value),
            replaced == old(self).lookup(name@),
    {
        proof {
            use_type_invariant(&*self);
        }
        let ghost before = self.entries@;
        let ghost names = entry_names(before);
        let mut entries: Vec<Entry<V>> = Vec::new();
        std::mem::swap(&mut self.entries, &mut entries);
        let mut at: usize = 0;
        while at < entries.len() && name_precedes(entries[at].name.as_str(), name.as_str())
            invariant
                at <= entries.len(),
                entries@ == before,
                names == entry_names(before),
                strictly_ascending(names),
                forall|j: int| 0 <= j < at ==> precedes(names[j], name@),
            decreases entries.len() - at,
        {
            at = at + 1;
        }
        if at < entries.len() && entries[at].name == name {
            let entry = Entry { name, value };
            let ghost after = before.update(at as int, entry);
            proof {
                assert(entry_names(after) =~= names);
                lemma_lookup_at(before, at as int);
                assert forall|n: Seq<char>| #[trigger] map_of(after).dom().contains(n) implies map_of(
                    after,
                )[n] == map_of(before).insert(entry.name@, entry.value)[n] by {
                    let k = choose|k: int| 0 <= k < names.len() && names[k] == n;
                    lemma_lookup_at(before, k);
                    lemma_lookup_at(after, k);
                }
            }
            let mut slot = entry;
            entries.set_and_swap(at, &mut slot);
            std::mem::swap(&mut self.entries, &mut entries);
            Some(slot.value)
        } else {
            let entry = Entry { name, value };
            let ghost after = before.insert(at as int, entry);
            proof {
                let new_names = entry_names(after);
                if at < names.len() {
                    lemma_precedes_total(names[at as int], entry.name@);
                }
                assert forall|i: int, j: int| 0 <= i < j < new_names.len() implies precedes(
                    #[trigger] new_names[i],
                    #[trigger] new_names[j],
                ) by {
                    if j == at {
                        assert(new_names[i] == names[i]);
                    } else if i == at {
                        assert(new_names[j] == names[j - 1]);
                        if j - 1 > at {
                            assert(precedes(names[at as int], names[j - 1]));
                            lemma_precedes_transitive(entry.name@, names[at as int], names[j - 1]);
                        }
                    } else {
                        let oi = if i < at { i } else { i - 1 };
                        let oj = if j < at { j } else { j - 1 };
                        assert(new_names[i] == names[oi]);
                        assert(new_names[j] == names[oj]);
                    }
                }
                lemma_lookup_absent(before, entry.name@);
                assert forall|n: Seq<char>| #[trigger]
                    map_of(after).dom().contains(n) == map_of(before).insert(
                        entry.name@,
                        entry.value,
                    ).dom().contains(n) by {
                    if new_names.contains(n) {
                        let k = choose|k: int| 0 <= k < new_names.len() && new_names[k] == n;
                        if k < at {
                            assert(names[k] == n);
                        } else if k > at {
                            assert(names[k - 1] == n);
                        }
                    }
                    if names.contains(n) {
                        let k = choose|k: int| 0 <= k < names.len() && names[k] == n;
                        if k < at {
                            assert(new_names[k] == n);
                        } else {
                            assert(new_names[k + 1] == n);
                        }
                    }
                    if n == entry.name@ {
                        assert(new_names[at as int] == n);
                    }
                }
                assert forall|n: Seq<char>| #[trigger] map_of(after).dom().contains(n) implies map_of(
                    after,
                )[n] == map_of(before).insert(entry.name@, entry.value)[n] by {
                    let k = choose|k: int| 0 <= k < new_names.len() && new_names[k] == n;
                    lemma_lookup_at(after, k);
                    if k < at {
                        lemma_lookup_at(before, k);
                    } else if k > at {
                        lemma_lookup_at(before, k - 1);
                    }
                }
            }
            entries.insert(at, entry);
            std::mem::swap(&mut self.entries, &mut entries);
            None
        }
    }
}

} // verus!
