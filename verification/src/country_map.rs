//! Names of countries, looked up by the code that starts a server name.

use vstd::prelude::*;

verus! {

/// The map that the entries denote: each entry sets its code to its name, and a later
/// entry for the same code overrides an earlier one.
pub open spec fn entries_map(entries: Seq<(String, String)>) -> Map<Seq<char>, Seq<char>>
    decreases entries.len(),
{
    if entries.len() == 0 {
        Map::empty()
    } else {
        entries_map(entries.drop_last()).insert(entries.last().0@, entries.last().1@)
    }
}

/// A map from country codes (such as `us`) to country names (such as `United States`).
pub struct CountryMap {
    entries: Vec<(String, String)>,
}

impl View for CountryMap {
    type V = Map<Seq<char>, Seq<char>>;

    closed spec fn view(&self) -> Map<Seq<char>, Seq<char>> {
        entries_map(self.entries@)
    }
}

/// Where the last entry with a given code stands decides what the map holds for it.
proof fn lemma_entries_map_lookup(entries: Seq<(String, String)>, code: Seq<char>, n: int)
    requires
        0 <= n <= entries.len(),
        forall|j: int| n <= j < entries.len() ==> entries[j].0@ != code,
    ensures
        entries_map(entries).dom().contains(code) == entries_map(entries.take(n)).dom().contains(
            code,
        ),
        entries_map(entries).dom().contains(code) ==> entries_map(entries)[code] == entries_map(
            entries.take(n),
        )[code],
    decreases entries.len() - n,
{
    if n < entries.len() {
        lemma_entries_map_lookup(entries, code, n + 1);
        assert(entries.take(n + 1).drop_last() == entries.take(n));
    } else {
        assert(entries.take(n) == entries);
    }
}

impl CountryMap {
    /// An empty map.
    pub fn new() -> (r: CountryMap)
        ensures
            r@ == Map::<Seq<char>, Seq<char>>::empty(),
    {
        CountryMap { entries: Vec::new() }
    }

    /// Sets the name of `code` to `name`.
    pub fn insert(&mut self, code: String, name: String)
        ensures
            final(self)@ == old(self)@.insert(code@, name@),
    {
        let ghost before = self.entries@;
        self.entries.push((code, name));
        assert(self.entries@.drop_last() == before);
    }

    /// The name of `code`, if the map has one.
    pub fn get(&self, code: &String) -> (r: Option<String>)
        ensures
            match r {
                Some(name) => self@.dom().contains(code@) && self@[code@] == name@,
                None => !self@.dom().contains(code@),
            },
    {
        let mut n: usize = self.entries.len();
        while n > 0
            invariant
                n <= self.entries@.len(),
                forall|j: int| n <= j < self.entries@.len() ==> self.entries@[j].0@ != code@,
            decreases n,
        {
            if self.entries[n - 1].0 == *code {
                proof {
                    lemma_entries_map_lookup(self.entries@, code@, n as int);
                    assert(self.entries@.take(n as int).drop_last() == self.entries@.take(n - 1));
                }
                return Some(self.entries[n - 1].1.clone());
            }
            n = n - 1;
        }
        proof {
            lemma_entries_map_lookup(self.entries@, code@, 0);
            assert(self.entries@.take(0) == Seq::<(String, String)>::empty());
        }
        None
    }
}

/// A name set for a code is the name read back for it, and setting one code leaves what
/// the map holds for every other code as it was.
pub proof fn lemma_insert_then_get(m: Map<Seq<char>, Seq<char>>, code: Seq<char>, name: Seq<char>, other: Seq<char>)
    requires
        other != code,
    ensures
        m.insert(code, name).dom().contains(code),
        m.insert(code, name)[code] == name,
        m.insert(code, name).dom().contains(other) == m.dom().contains(other),
        m.dom().contains(other) ==> m.insert(code, name)[other] == m[other],
{
}

} // verus!
