//! Maps from text to text: labels, annotations and the like.
use vstd::prelude::*;

use crate::text::same;

verus! {

/// A map from strings to strings. Where a key is entered twice, the later entry counts.
#[derive(Debug, Clone, PartialEq, Eq)]
pub struct StringMap {
    /// The entries, in the order in which they were made.
    pub entries: Vec<(String, String)>,
}

/// The map that a list of entries makes, later ones over earlier ones.
pub open spec fn entries_map(entries: Seq<(String, String)>) -> Map<Seq<char>, Seq<char>>
    decreases entries.len(),
{
    if entries.len() == 0 {
        Map::empty()
    } else {
        entries_map(entries.drop_last()).insert(entries.last().0@, entries.last().1@)
    }
}

/// The text under `key`, where there is an entry.
pub open spec fn value_of(map: Map<Seq<char>, Seq<char>>, key: Seq<char>) -> Option<Seq<char>> {
    if map.dom().contains(key) {
        Some(map[key])
    } else {
        None
    }
}

impl View for StringMap {
    type V = Map<Seq<char>, Seq<char>>;

    open spec fn view(&self) -> Map<Seq<char>, Seq<char>> {
        entries_map(self.entries@)
    }
}

/// The entries of an optional map, none where it is absent.
pub open spec fn opt_map(o: Option<StringMap>) -> Map<Seq<char>, Seq<char>> {
    match o {
        Some(m) => m@,
        None => Map::empty(),
    }
}

impl StringMap {
    /// The empty map.
    pub fn new() -> (r: Self)
        ensures
            r@ == Map::<Seq<char>, Seq<char>>::empty(),
    {
        StringMap { entries: Vec::new() }
    }

    /// The text under `key`.
    pub fn get(&self, key: &str) -> (r: Option<&String>)
        ensures
            match r {
                Some(v) => value_of(self@, key@) == Some(v@),
                None => value_of(self@, key@) is None,
            },
    {
        let mut i: usize = self.entries.len();
        assert(self.entries@.take(i as int) =~= self.entries@);
        while i > 0
            invariant
                i <= self.entries@.len(),
                value_of(self@, key@) == value_of(entries_map(self.entries@.take(i as int)), key@),
            decreases i,
        {
            assert(self.entries@.take(i as int).drop_last() =~= self.entries@.take(i - 1));
            i -= 1;
            if same(self.entries[i].0.as_str(), key) {
                return Some(&self.entries[i].1);
            }
        }
        None
    }

    /// Enters `value` under `key`, over any earlier entry.
    pub fn insert(&mut self, key: &str, value: &str)
        ensures
            final(self)@ == old(self)@.insert(key@, value@),
    {
        let ghost was = self.entries@;
        self.entries.push((key.to_owned(), value.to_owned()));
        assert(self.entries@.drop_last() =~= was);
    }
}

/// The text under `key` in an optional map.
pub fn lookup<'a>(map: Option<&'a StringMap>, key: &str) -> (r: Option<&'a String>)
    ensures
        match (map, r) {
            (None, _) => r is None,
            (Some(m), Some(v)) => value_of(m@, key@) == Some(v@),
            (Some(m), None) => value_of(m@, key@) is None,
        },
{
    match map {
        Some(m) => m.get(key),
        None => None,
    }
}

/// What a map holds under a key is what was last entered there, and what is entered under
/// one key changes no other.
pub proof fn lemma_entries(
    entries: Seq<(String, String)>,
    new: (String, String),
    key: Seq<char>,
)
    ensures
        value_of(entries_map(Seq::empty()), key) is None,
        value_of(entries_map(entries.push(new)), new.0@) == Some(new.1@),
        key != new.0@ ==> value_of(entries_map(entries.push(new)), key) == value_of(
            entries_map(entries),
            key,
        ),
        opt_map(None) == Map::<Seq<char>, Seq<char>>::empty(),
        forall|m: StringMap| #[trigger] opt_map(Some(m)) == m@,
{
    assert(entries.push(new).drop_last() =~= entries);
}

} // verus!
