use vstd::prelude::*;

verus! {

/// The position of the last entry named `k` among the first `n` entries, or -1.
pub open spec fn last_index<V>(entries: Seq<(String, V)>, k: Seq<char>, n: int) -> int
    decreases n,
{
    if n <= 0 {
        -1
    } else if entries[n - 1].0@ == k {
        n - 1
    } else {
        last_index(entries, k, n - 1)
    }
}

/// `last_index` is `-1` or a position below `n` named `k`, after which no
/// entry below `n` is named `k`.
proof fn lemma_last_index<V>(entries: Seq<(String, V)>, k: Seq<char>, n: int)
    requires
        0 <= n <= entries.len(),
    ensures
        -1 <= last_index(entries, k, n) < n,
        last_index(entries, k, n) >= 0 ==> entries[last_index(entries, k, n)].0@ == k,
        forall|j: int| last_index(entries, k, n) < j < n ==> entries[j].0@ != k,
    decreases n,
{
    if n > 0 && entries[n - 1].0@ != k {
        lemma_last_index(entries, k, n - 1);
    }
}

/// `last_index` below `n` depends only on the names of the first `n` entries.
proof fn lemma_last_index_prefix<V>(a: Seq<(String, V)>, b: Seq<(String, V)>, k: Seq<char>, n: int)
    requires
        0 <= n <= a.len(),
        n <= b.len(),
        forall|j: int| 0 <= j < n ==> a[j].0 == b[j].0,
    ensures
        last_index(a, k, n) == last_index(b, k, n),
    decreases n,
{
    if n > 0 {
        lemma_last_index_prefix(a, b, k, n - 1);
    }
}

/// Each name that occurs maps to the value of its last entry.
pub open spec fn table_view<V>(entries: Seq<(String, V)>) -> Map<Seq<char>, V> {
    Map::new(
        |k: Seq<char>| last_index(entries, k, entries.len() as int) >= 0,
        |k: Seq<char>| entries[last_index(entries, k, entries.len() as int)].1,
    )
}

/// Replacing the value of the entry that a name finds sets that name's value.
proof fn lemma_table_view_update<V>(entries: Seq<(String, V)>, key: Seq<char>, i: int, x: V)
    requires
        last_index(entries, key, entries.len() as int) == i,
        0 <= i,
    ensures
        table_view(entries.update(i, (entries[i].0, x))) == table_view(entries).insert(key, x),
{
    let n = entries.len() as int;
    let e2 = entries.update(i, (entries[i].0, x));
    lemma_last_index(entries, key, n);
    let a = table_view(e2);
    let b = table_view(entries).insert(key, x);
    assert forall|k: Seq<char>| #[trigger]
        a.contains_key(k) == b.contains_key(k) && (a.contains_key(k) ==> a[k] == b[k]) by {
        lemma_last_index(entries, k, n);
        lemma_last_index_prefix(entries, e2, k, n);
    }
    assert(a =~= b);
}

/// A table of values by name.
pub struct NamedTable<V> {
    entries: Vec<(String, V)>,
}

impl<V> View for NamedTable<V> {
    type V = Map<Seq<char>, V>;

    closed spec fn view(&self) -> Map<Seq<char>, V> {
        table_view(self.entries@)
    }
}

impl<V> NamedTable<V> {
    /// An empty table.
    pub fn new() -> (r: NamedTable<V>)
        ensures
            r@ == Map::<Seq<char>, V>::empty(),
    {
        let r = NamedTable { entries: Vec::new() };
        assert(r@ =~= Map::<Seq<char>, V>::empty());
        r
    }

    /// The position of the entry that `name` finds.
    fn find(&self, name: &str) -> (r: Option<usize>)
        ensures
            r matches Some(i) ==> i as int == last_index(
                self.entries@,
                name@,
                self.entries@.len() as int,
            ),
            r is None ==> last_index(self.entries@, name@, self.entries@.len() as int) == -1,
    {
        let key = String::from_str(name);
        let mut i = self.entries.len();
        while i > 0
            invariant
                i <= self.entries@.len(),
                key@ == name@,
                last_index(self.entries@, name@, self.entries@.len() as int) == last_index(
                    self.entries@,
                    name@,
                    i as int,
                ),
            decreases i,
        {
            if self.entries[i - 1].0 == key {
                return Some(i - 1);
            }
            i = i - 1;
        }
        None
    }

    /// Sets the value under `name`.
    pub fn insert(&mut self, name: String, value: V)
        ensures
            final(self)@ == old(self)@.insert(name@, value),
    {
        let ghost old_entries = self.entries@;
        let ghost n = old_entries.len() as int;
        let ghost key = name@;
        proof {
            lemma_last_index(old_entries, key, n);
        }
        match self.find(name.as_str()) {
            Some(i) => {
                let slot = &mut self.entries[i];
                slot.1 = value;
                proof {
                    lemma_table_view_update(old_entries, key, i as int, value);
                }
                assert(self.entries@ =~= old_entries.update(i as int, (old_entries[i as int].0, value)));
            },
            None => {
                self.entries.push((name, value));
                assert forall|k: Seq<char>| #[trigger]
                    self@.contains_key(k) == old(self)@.insert(key, value).contains_key(k) && (
                    self@.contains_key(k) ==> self@[k] == old(self)@.insert(key, value)[k]) by {
                    lemma_last_index_prefix(self.entries@, old_entries, k, n);
                    lemma_last_index(old_entries, k, n);
                }
                assert(self@ =~= old(self)@.insert(key, value));
            },
        }
    }

    /// The value under `name`, if there is one.
    pub fn get(&self, name: &str) -> (r: Option<&V>)
        ensures
            r matches Some(v) ==> self@.contains_key(name@) && *v == self@[name@],
            r is None ==> !self@.contains_key(name@),
    {
        proof {
            lemma_last_index(self.entries@, name@, self.entries@.len() as int);
        }
        match self.find(name) {
            Some(i) => Some(&self.entries[i].1),
            None => None,
        }
    }

    /// The value under `name`, to change in place, if there is one.
    pub fn get_mut(&mut self, name: &str) -> (r: Option<&mut V>)
        ensures
            r matches Some(v) ==> {
                &&& old(self)@.contains_key(name@)
                &&& *v == old(self)@[name@]
                &&& final(self)@ == old(self)@.insert(name@, *final(v))
            },
            r is None ==> !old(self)@.contains_key(name@) && *final(self) == *old(self),
    {
        proof {
            lemma_last_index(self.entries@, name@, self.entries@.len() as int);
        }
        match self.find(name) {
            Some(i) => {
                let ghost old_entries = self.entries@;
                let slot = &mut self.entries[i];
                let v = &mut slot.1;
                proof {
                    lemma_table_view_update(old_entries, name@, i as int, *final(v));
                }
                Some(v)
            },
            None => None,
        }
    }
}

} // verus!
