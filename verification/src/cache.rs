//! The suggestions of the last check pass, by the exact text of the segment
//! that they were found in.

use crate::model::{copy_suggestions, suggestions_view, Suggestion, SuggestionView};
use vstd::hash_map::StringHashMap;
use vstd::prelude::*;

verus! {

/// Suggestions by segment text. A lookup takes the entry out, so a text
/// that comes twice in one pass is found once.
pub struct Cache {
    cache: StringHashMap<Vec<Suggestion>>,
}

impl View for Cache {
    type V = Map<Seq<char>, Seq<SuggestionView>>;

    closed spec fn view(&self) -> Map<Seq<char>, Seq<SuggestionView>> {
        Map::new(
            |text: Seq<char>| self.cache@.contains_key(text),
            |text: Seq<char>| suggestions_view(self.cache@[text]@),
        )
    }
}

impl Cache {
    /// An empty cache.
    pub fn new() -> (cache: Self)
        ensures
            cache@ == Map::<Seq<char>, Seq<SuggestionView>>::empty(),
    {
        let cache = Self { cache: StringHashMap::new() };
        assert(cache@ =~= Map::<Seq<char>, Seq<SuggestionView>>::empty());
        cache
    }

    /// Takes out the suggestions stored for a text, if there are any.
    pub fn get(&mut self, text: &str) -> (found: Option<Vec<Suggestion>>)
        ensures
            found is Some <==> old(self)@.contains_key(text@),
            found matches Some(s) ==> suggestions_view(s@) == old(self)@[text@],
            final(self)@ == old(self)@.remove(text@),
    {
        let found = match self.cache.get(text) {
            Some(stored) => Some(copy_suggestions(stored)),
            None => None,
        };
        self.cache.remove(text);
        assert(self@ =~= old(self)@.remove(text@));
        found
    }

    /// Stores the suggestions for a text, in place of any stored before.
    pub fn insert(&mut self, text: String, suggestions: Vec<Suggestion>)
        ensures
            final(self)@ == old(self)@.insert(text@, suggestions_view(suggestions@)),
    {
        let ghost key = text@;
        let ghost value = suggestions_view(suggestions@);
        self.cache.insert(text, suggestions);
        assert(self@ =~= old(self)@.insert(key, value));
    }
}

} // verus!
