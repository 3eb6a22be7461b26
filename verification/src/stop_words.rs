//! The stop words that the query builder leaves out of a corrected query
//! and hands to similarity queries.

use crate::text::views;
use vstd::prelude::*;

verus! {

/// A list of stop words. As a set it answers whether a word is a stop word;
/// as a list it goes into similarity queries.
#[derive(Debug, PartialEq, Eq)]
pub struct StopWords {
    pub words: Vec<String>,
}

impl View for StopWords {
    type V = Set<Seq<char>>;

    open spec fn view(&self) -> Set<Seq<char>> {
        views(self.words@).to_set()
    }
}

impl StopWords {
    /// Whether `word` is a stop word.
    pub fn contains(&self, word: &String) -> (found: bool)
        ensures
            found == self@.contains(word@),
    {
        let mut i: usize = 0;
        while i < self.words.len()
            invariant
                i <= self.words.len(),
                forall|j: int| 0 <= j < i ==> views(self.words@)[j] != word@,
            decreases self.words.len() - i,
        {
            if self.words[i] == *word {
                assert(views(self.words@)[i as int] == word@);
                return true;
            }
            i = i + 1;
        }
        false
    }

    /// The stop words as a list of their own, in the order they are held.
    pub fn to_list(&self) -> (list: Vec<String>)
        ensures
            views(list@) == views(self.words@),
    {
        let mut list: Vec<String> = Vec::new();
        let mut i: usize = 0;
        while i < self.words.len()
            invariant
                i <= self.words.len(),
                views(list@) == views(self.words@).take(i as int),
            decreases self.words.len() - i,
        {
            let ghost before = list@;
            list.push(self.words[i].clone());
            assert(views(list@) =~= views(before).push(self.words@[i as int]@));
            assert(views(list@) =~= views(self.words@).take(i + 1));
            i = i + 1;
        }
        assert(views(self.words@).take(self.words@.len() as int) =~= views(self.words@));
        list
    }
}

} // verus!
