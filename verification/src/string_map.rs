//! A map from strings to strings.

use vstd::prelude::*;

verus! {

/// Strings by key. A key given twice has the value given last.
#[derive(Debug)]
pub struct StringMap {
    entries: Vec<(String, String)>,
}

/// The map that the first `n` entries give.
pub open spec fn entries_map(entries: Seq<(String, String)>, n: nat) -> Map<Seq<char>, Seq<char>>
    decreases n,
{
    if n == 0 {
        Map::empty()
    } else {
        entries_map(entries, (n - 1) as nat).insert(entries[n - 1].0@, entries[n - 1].1@)
    }
}

/// The value of the last of the first `n` entries that has the key.
pub open spec fn last_value(entries: Seq<(String, String)>, n: nat, key: Seq<char>) -> Option<
    Seq<char>,
>
    decreases n,
{
    if n == 0 {
        None
    } else if entries[n - 1].0@ == key {
        Some(entries[n - 1].1@)
    } else {
        last_value(entries, (n - 1) as nat, key)
    }
}

/// The value under a key is that of the last entry with the key.
pub proof fn lemma_last_value(entries: Seq<(String, String)>, n: nat, key: Seq<char>)
    ensures
        last_value(entries, n, key) == (if entries_map(entries, n).contains_key(key) {
            Some(entries_map(entries, n)[key])
        } else {
            None
        }),
    decreases n,
{
    if n > 0 {
        lemma_last_value(entries, (n - 1) as nat, key);
    }
}

impl View for StringMap {
    type V = Map<Seq<char>, Seq<char>>;

    closed spec fn view(&self) -> Map<Seq<char>, Seq<char>> {
        entries_map(self.entries@, self.entries@.len())
    }
}

impl StringMap {
    /// A map without keys.
    pub fn new() -> (map: StringMap)
        ensures
            map@ == Map::<Seq<char>, Seq<char>>::empty(),
    {
        StringMap { entries: Vec::new() }
    }

    /// Whether the map has no key.
    pub fn is_empty(&self) -> (r: bool)
        ensures
            r == (self@ == Map::<Seq<char>, Seq<char>>::empty()),
    {
        proof {
            if self.entries@.len() > 0 {
                let last = self.entries@[self.entries@.len() - 1];
                assert(self@.contains_key(last.0@));
            }
        }
        self.entries.len() == 0
    }

    /// Gives a key a value, in place of the value it had.
    pub fn insert(&mut self, key: String, value: String)
        ensures
            final(self)@ == old(self)@.insert(key@, value@),
    {
        let ghost before = self.entries@;
        self.entries.push((key, value));
        proof {
            lemma_entries_map_prefix(before, self.entries@, before.len());
        }
    }

    /// The value under a key.
    pub fn get(&self, key: &str) -> (r: Option<&String>)
        ensures
            r is Some <==> self@.contains_key(key@),
            r matches Some(value) ==> value@ == self@[key@],
    {
        let wanted: String = key.to_owned();
        let mut i: usize = self.entries.len();
        proof {
            lemma_last_value(self.entries@, self.entries@.len(), key@);
        }
        while i > 0
            invariant
                i <= self.entries.len(),
                wanted@ == key@,
                last_value(self.entries@, self.entries@.len(), key@) == (if self@.contains_key(
                    key@,
                ) {
                    Some(self@[key@])
                } else {
                    None
                }),
                last_value(self.entries@, self.entries@.len(), key@) == last_value(
                    self.entries@,
                    i as nat,
                    key@,
                ),
            decreases i,
        {
            i -= 1;
            if self.entries[i].0 == wanted {
                return Some(&self.entries[i].1);
            }
        }
        None
    }
}

/// Entries that agree on the first `n` places give the same map there.
pub proof fn lemma_entries_map_prefix(
    a: Seq<(String, String)>,
    b: Seq<(String, String)>,
    n: nat,
)
    requires
        n <= a.len(),
        n <= b.len(),
        forall|k: int| 0 <= k < n ==> a[k] == b[k],
    ensures
        entries_map(a, n) == entries_map(b, n),
    decreases n,
{
    if n > 0 {
        lemma_entries_map_prefix(a, b, (n - 1) as nat);
    }
}

impl Clone for StringMap {
    fn clone(&self) -> (res: StringMap)
        ensures
            res@ == self@,
    {
        let mut entries: Vec<(String, String)> = Vec::new();
        let mut i: usize = 0;
        while i < self.entries.len()
            invariant
                i <= self.entries.len(),
                entries.len() == i,
                forall|k: int| 0 <= k < i ==> entries[k] == self.entries[k],
            decreases self.entries.len() - i,
        {
            entries.push((self.entries[i].0.clone(), self.entries[i].1.clone()));
            i += 1;
        }
        assert(entries@ =~= self.entries@);
        StringMap { entries }
    }
}

} // verus!
