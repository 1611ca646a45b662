//! A string-keyed association table with a `Map` view, used for the module's
//! function and static tables, instance fields, and handler tables.
//!
//! Keys are kept unique, so the view of an insert is exactly `Map::insert`.

use vstd::prelude::*;

verus! {

#[derive(Debug)]
pub struct Table<V> {
    entries: Vec<(String, V)>,
}

/// The map described by an entry list; earlier entries win.
pub open spec fn map_of<V>(s: Seq<(String, V)>) -> Map<Seq<char>, V>
    decreases s.len(),
{
    if s.len() == 0 {
        Map::empty()
    } else {
        map_of(s.drop_first()).insert(s[0].0@, s[0].1)
    }
}

/// Whether an entry list binds each key at most once.
pub open spec fn unique_keys<V>(s: Seq<(String, V)>) -> bool {
    forall|i: int, j: int| #![trigger s[i], s[j]] 0 <= i < j < s.len() ==> s[i].0@ != s[j].0@
}

proof fn lemma_map_of_skip<V>(s: Seq<(String, V)>, k: Seq<char>)
    requires
        forall|i: int| 0 <= i < s.len() ==> s[i].0@ != k,
    ensures
        !map_of(s).dom().contains(k),
    decreases s.len(),
{
    if s.len() > 0 {
        assert(forall|i: int| 0 <= i < s.drop_first().len() ==> s.drop_first()[i].0@ != k);
        lemma_map_of_skip(s.drop_first(), k);
    }
}

proof fn lemma_map_of_index<V>(s: Seq<(String, V)>, i: int)
    requires
        0 <= i < s.len(),
        forall|j: int| 0 <= j < i ==> s[j].0@ != s[i].0@,
    ensures
        map_of(s).dom().contains(s[i].0@),
        map_of(s)[s[i].0@] == s[i].1,
    decreases s.len(),
{
    if i > 0 {
        assert(s.drop_first()[i - 1] == s[i]);
        assert(forall|j: int| 0 <= j < i - 1 ==> s.drop_first()[j] == s[j + 1]);
        lemma_map_of_index(s.drop_first(), i - 1);
    }
}

proof fn lemma_map_of_update<V>(s: Seq<(String, V)>, i: int, e: (String, V))
    requires
        0 <= i < s.len(),
        unique_keys(s),
        e.0@ == s[i].0@,
    ensures
        map_of(s.update(i, e)) =~= map_of(s).insert(e.0@, e.1),
    decreases s.len(),
{
    let t = s.update(i, e);
    if i == 0 {
        assert(t.drop_first() =~= s.drop_first());
    } else {
        assert(t.drop_first() =~= s.drop_first().update(i - 1, e));
        assert(forall|a: int, b: int|
            0 <= a < b < s.drop_first().len() ==> s.drop_first()[a].0@ != s.drop_first()[b].0@);
        assert(s.drop_first()[i - 1] == s[i]);
        lemma_map_of_update(s.drop_first(), i - 1, e);
        assert(t[0] == s[0]);
        assert(s[0].0@ != e.0@);
    }
}

proof fn lemma_map_of_push<V>(s: Seq<(String, V)>, e: (String, V))
    requires
        forall|i: int| 0 <= i < s.len() ==> s[i].0@ != e.0@,
    ensures
        map_of(s.push(e)) =~= map_of(s).insert(e.0@, e.1),
    decreases s.len(),
{
    let t = s.push(e);
    if s.len() == 0 {
        assert(t.drop_first() =~= Seq::<(String, V)>::empty());
        assert(t[0] == e);
        assert(map_of(t) == map_of(t.drop_first()).insert(t[0].0@, t[0].1));
        assert(map_of(t.drop_first()) == Map::<Seq<char>, V>::empty());
        assert(map_of(s) == Map::<Seq<char>, V>::empty());
        assert(map_of(t) =~= map_of(s).insert(e.0@, e.1));
    } else {
        assert(t.drop_first() =~= s.drop_first().push(e));
        lemma_map_of_push(s.drop_first(), e);
        assert(t[0] == s[0]);
        assert(s[0].0@ != e.0@);
        assert(map_of(t) =~= map_of(s).insert(e.0@, e.1));
    }
}

/// Lists whose keys agree pointwise bind keys equally often.
pub proof fn lemma_unique_keys_pointwise<V>(s: Seq<(String, V)>, t: Seq<(String, V)>)
    requires
        s.len() == t.len(),
        forall|i: int| 0 <= i < s.len() ==> s[i].0@ == t[i].0@,
    ensures
        unique_keys(s) == unique_keys(t),
{
    if unique_keys(s) {
        assert forall|i: int, j: int| 0 <= i < j < t.len() implies t[i].0@ != t[j].0@ by {
            assert(s[i].0@ != s[j].0@);
        }
    }
    if unique_keys(t) {
        assert forall|i: int, j: int| 0 <= i < j < s.len() implies s[i].0@ != s[j].0@ by {
            assert(t[i].0@ != t[j].0@);
        }
    }
}

impl<V> Table<V> {
    /// The mapping this table holds.
    pub closed spec fn view(&self) -> Map<Seq<char>, V> {
        map_of(self.entries@)
    }

    /// The entry list, in insertion order.
    pub closed spec fn entry_seq(&self) -> Seq<(String, V)> {
        self.entries@
    }

    /// Internal well-formedness: no key appears twice. All methods keep it,
    /// so it is stated once here and carried by every holder.
    pub closed spec fn wf(&self) -> bool {
        unique_keys(self.entries@)
    }

    pub fn new() -> (r: Self)
        ensures
            r.wf(),
            r@ == Map::<Seq<char>, V>::empty(),
            r.entry_seq() == Seq::<(String, V)>::empty(),
    {
        Table { entries: Vec::new() }
    }

    /// How many keys are bound.
    pub fn len(&self) -> (n: usize)
        ensures
            n == self.entry_seq().len(),
    {
        self.entries.len()
    }

    /// The entry at position `i`, in insertion order.
    pub fn index(&self, i: usize) -> (e: &(String, V))
        requires
            i < self.entry_seq().len(),
        ensures
            *e == self.entry_seq()[i as int],
    {
        &self.entries[i]
    }

    /// The table's mapping is the one its entry list describes.
    pub proof fn lemma_view_entries(&self)
        ensures
            self@ == map_of(self.entry_seq()),
    {
    }

    /// Well-formedness is exactly key uniqueness of the entry list.
    pub proof fn lemma_wf_entries(&self)
        ensures
            self.wf() == unique_keys(self.entry_seq()),
    {
    }

    /// A table over the given entry list.
    pub fn rebuild(&self, entries: Vec<(String, V)>) -> (r: Self)
        ensures
            r.entry_seq() == entries@,
            r.wf() == unique_keys(entries@),
            r@ == map_of(entries@),
    {
        Table { entries }
    }

    /// Position of `key` in the entry list, if bound.
    fn find(&self, key: &str) -> (r: Option<usize>)
        requires
            self.wf(),
        ensures
            match r {
                Option::Some(i) => i < self.entry_seq().len() && self.entry_seq()[i as int].0@
                    == key@ && self@.dom().contains(key@) && self@[key@]
                    == self.entry_seq()[i as int].1,
                Option::None => !self@.dom().contains(key@) && forall|j: int|
                    0 <= j < self.entry_seq().len() ==> self.entry_seq()[j].0@ != key@,
            },
    {
        let mut i: usize = 0;
        while i < self.entries.len()
            invariant
                self.wf(),
                i <= self.entries@.len(),
                forall|j: int| 0 <= j < i ==> self.entries@[j].0@ != key@,
            decreases self.entries@.len() - i,
        {
            if crate::text::str_eq(self.entries[i].0.as_str(), key) {
                proof {
                    lemma_map_of_index(self.entries@, i as int);
                }
                return Option::Some(i);
            }
            i = i + 1;
        }
        proof {
            lemma_map_of_skip(self.entries@, key@);
        }
        Option::None
    }

    /// Look `key` up.
    pub fn get(&self, key: &str) -> (r: Option<&V>)
        requires
            self.wf(),
        ensures
            match r {
                Option::Some(v) => self@.dom().contains(key@) && *v == self@[key@],
                Option::None => !self@.dom().contains(key@),
            },
    {
        match self.find(key) {
            Option::Some(i) => Option::Some(&self.entries[i].1),
            Option::None => Option::None,
        }
    }

    /// Whether `key` is bound.
    pub fn contains(&self, key: &str) -> (r: bool)
        requires
            self.wf(),
        ensures
            r == self@.dom().contains(key@),
    {
        match self.find(key) {
            Option::Some(_) => true,
            Option::None => false,
        }
    }

    /// Look `key` up and hand the value out by copy.
    pub fn get_copied(&self, key: &str) -> (r: Option<V>) where V: Copy
        requires
            self.wf(),
        ensures
            match r {
                Option::Some(v) => self@.dom().contains(key@) && v == self@[key@],
                Option::None => !self@.dom().contains(key@),
            },
    {
        match self.find(key) {
            Option::Some(i) => Option::Some(self.entries[i].1),
            Option::None => Option::None,
        }
    }

    /// An entry-by-entry copy of a table of copyable values: the same table.
    pub fn duplicate_copied(&self) -> (res: Self) where V: Copy
        ensures
            res@ == self@,
            res.wf() == self.wf(),
            res.entry_seq() == self.entry_seq(),
    {
        let mut entries: Vec<(String, V)> = Vec::new();
        let mut i: usize = 0;
        let n = self.entries.len();
        while i < n
            invariant
                n == self.entries@.len(),
                i <= n,
                entries@.len() == i,
                forall|j: int| 0 <= j < i ==> entries@[j] == self.entries@[j],
            decreases n - i,
        {
            let e = &self.entries[i];
            entries.push((e.0.clone(), e.1));
            i = i + 1;
        }
        proof {
            assert(entries@ =~= self.entries@);
        }
        Table { entries }
    }

    /// Bind `key` to `value`, replacing any earlier binding.
    pub fn insert(&mut self, key: String, value: V)
        requires
            old(self).wf(),
        ensures
            final(self).wf(),
            final(self)@ == old(self)@.insert(key@, value),
    {
        let ghost s = self.entries@;
        let ghost e = (key, value);
        match self.find(key.as_str()) {
            Option::Some(i) => {
                proof {
                    lemma_map_of_update(s, i as int, e);
                }
                self.entries.set(i, (key, value));
                proof {
                    let t = self.entries@;
                    assert(t =~= s.update(i as int, e));
                    assert forall|a: int, b: int| 0 <= a < b < t.len() implies t[a].0@ != t[b].0@ by {
                        assert(s[a].0@ != s[b].0@);
                        assert(e.0@ == s[i as int].0@);
                    }
                }
            },
            Option::None => {
                proof {
                    assert(e.0 == key);
                    assert(s == self.entry_seq());
                    assert(forall|j: int| 0 <= j < s.len() ==> s[j].0@ != e.0@);
                    lemma_map_of_push(s, e);
                }
                self.entries.push((key, value));
                proof {
                    let t = self.entries@;
                    assert(t =~= s.push(e));
                    assert forall|a: int, b: int| 0 <= a < b < t.len() implies t[a].0@ != t[b].0@ by {
                        if b < s.len() {
                            assert(s[a].0@ != s[b].0@);
                        } else {
                            assert(t[b] == e);
                            assert(s[a].0@ != e.0@);
                        }
                    }
                }
            },
        }
    }
}

} // verus!
