//! Maps from texts to texts.

use vstd::prelude::*;

use crate::text::text_eq;

verus! {

/// A map from texts to texts.
#[derive(Debug)]
pub struct TextMap {
    /// What was entered, in order; of several entries for a key the latest
    /// counts.
    pub entries: Vec<(String, String)>,
}

/// What the latest entry for a key says.
pub open spec fn latest(entries: Seq<(Seq<char>, Seq<char>)>, key: Seq<char>) -> Option<Seq<char>>
    decreases entries.len(),
{
    if entries.len() == 0 {
        None
    } else if entries.last().0 == key {
        Some(entries.last().1)
    } else {
        latest(entries.drop_last(), key)
    }
}

/// The text behind a reference, if there is one.
pub open spec fn found(r: Option<&str>) -> Option<Seq<char>> {
    match r {
        Some(s) => Some(s@),
        None => None,
    }
}

impl View for TextMap {
    type V = Seq<(Seq<char>, Seq<char>)>;

    open spec fn view(&self) -> Seq<(Seq<char>, Seq<char>)> {
        Seq::new(self.entries@.len(), |i: int| (self.entries@[i].0@, self.entries@[i].1@))
    }
}

impl TextMap {
    /// A map without entries.
    pub fn new() -> (r: Self)
        ensures
            r@ == Seq::<(Seq<char>, Seq<char>)>::empty(),
    {
        let r = TextMap { entries: Vec::new() };
        assert(r@ =~= Seq::empty());
        r
    }

    /// Enters a value for a key; an earlier entry for it no longer counts.
    pub fn insert(&mut self, key: String, value: String)
        ensures
            final(self)@ == old(self)@.push((key@, value@)),
    {
        let ghost before = self@;
        self.entries.push((key, value));
        assert(self@ =~= before.push((key@, value@)));
    }

    /// The value of a key.
    pub fn get(&self, key: &str) -> (r: Option<&str>)
        ensures
            found(r) == latest(self@, key@),
    {
        let mut i: usize = self.entries.len();
        assert(self@.take(i as int) =~= self@);
        while i > 0
            invariant
                i <= self.entries.len(),
                latest(self@, key@) == latest(self@.take(i as int), key@),
            decreases i,
        {
            let ghost rest = self@.take(i as int);
            assert(rest.last() == self@[i - 1]);
            assert(rest.drop_last() =~= self@.take(i - 1));
            if text_eq(self.entries[i - 1].0.as_str(), key) {
                return Some(self.entries[i - 1].1.as_str());
            }
            i -= 1;
        }
        None
    }

    /// Whether there are no entries.
    pub fn is_empty(&self) -> (r: bool)
        ensures
            r == (self@.len() == 0),
    {
        self.entries.len() == 0
    }
}

/// A key has the value that was entered for it last, and the other keys keep
/// theirs.
pub proof fn entered_is_found(
    entries: Seq<(Seq<char>, Seq<char>)>,
    key: Seq<char>,
    value: Seq<char>,
    other: Seq<char>,
)
    ensures
        latest(entries.push((key, value)), key) == Some(value),
        other != key ==> latest(entries.push((key, value)), other) == latest(entries, other),
{
    assert(entries.push((key, value)).drop_last() =~= entries);
}

} // verus!
