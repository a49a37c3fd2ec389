//! Spelling dictionaries.
use vstd::prelude::*;

use crate::error::Error;
use crate::text::{Text, Texts, str_eq};

verus! {

/// A spelling dictionary.
pub trait Dictionary {
    /// Whether the dictionary knows the word.
    spec fn knows(&self, word: Text) -> bool;

    /// The replacements the dictionary has for a word.
    spec fn replacements(&self, word: Text) -> Texts;

    /// Whether the word is in the dictionary.
    fn check(&self, word: &str) -> (r: Result<bool, Error>)
        ensures
            r matches Ok(b) ==> b == self.knows(word@),
            r is Err ==> r matches Err(Error::Outside(_)),
    ;

    /// Replacements for a word that is not in the dictionary.
    fn suggest(&self, error: &str) -> (r: Vec<String>)
        ensures
            texts(r@) == self.replacements(error@),
    ;
}

/// A dictionary that knows the words it is told.
pub struct FakeDictionary {
    known: Vec<String>,
    suggestions: Vec<(String, Vec<String>)>,
}

/// The text of each string.
pub open spec fn texts(v: Seq<String>) -> Seq<Seq<char>> {
    v.map_values(|s: String| s@)
}

impl FakeDictionary {
    /// The known words.
    pub closed spec fn known(&self) -> Set<Seq<char>> {
        texts(self.known@).to_set()
    }

    /// The suggestions for an error: those set last for it, if any.
    pub closed spec fn suggestions_for(&self, error: Seq<char>) -> Option<Seq<Seq<char>>> {
        match last_entry(self.suggestions@, error) {
            Some(i) => Some(texts(self.suggestions@[i].1@)),
            None => None,
        }
    }

    /// An empty dictionary.
    pub fn new() -> (r: Self)
        ensures
            r.known() == Set::<Seq<char>>::empty(),
            forall|e: Seq<char>| r.suggestions_for(e) is None,
    {
        let r = FakeDictionary { known: Vec::new(), suggestions: Vec::new() };
        assert(texts(r.known@) =~= Seq::<Seq<char>>::empty());
        assert(r.known() =~= Set::<Seq<char>>::empty());
        r
    }

    /// Adds a word to the dictionary.
    pub fn add_known(&mut self, word: &str)
        ensures
            final(self).known() == old(self).known().insert(word@),
            forall|e: Seq<char>| final(self).suggestions_for(e) == old(self).suggestions_for(e),
    {
        self.known.push(String::from_str(word));
        proof {
            assert(texts(self.known@) =~= texts(old(self).known@).push(word@));
            crate::text::lemma_push_to_set(texts(old(self).known@), word@);
        }
    }

    /// Sets the suggestions for an error.
    pub fn add_suggestions(&mut self, error: &str, suggestions: &Vec<String>)
        ensures
            final(self).known() == old(self).known(),
            final(self).suggestions_for(error@) == Some(texts(suggestions@)),
            forall|e: Seq<char>| e != error@ ==> final(self).suggestions_for(e) == old(self).suggestions_for(e),
    {
        let copy = copy_strings(suggestions);
        let entry = (String::from_str(error), copy);
        self.suggestions.push(entry);
        proof {
            assert(self.suggestions@ == old(self).suggestions@.push(entry));
            assert(self.suggestions@.drop_last() =~= old(self).suggestions@);
            assert forall|e: Seq<char>| e != error@ implies final(self).suggestions_for(e) == old(self).suggestions_for(e) by {
                lemma_last_entry_range(old(self).suggestions@, e);
                if let Some(i) = last_entry(old(self).suggestions@, e) {
                    assert(self.suggestions@[i] == old(self).suggestions@[i]);
                }
            }
        }
    }
}

/// Index of the last entry for `key`, if any.
pub open spec fn last_entry(v: Seq<(String, Vec<String>)>, key: Seq<char>) -> Option<int>
    decreases v.len(),
{
    if v.len() == 0 {
        None
    } else if v.last().0@ == key {
        Some(v.len() - 1)
    } else {
        last_entry(v.drop_last(), key)
    }
}

/// The last entry is an entry.
pub proof fn lemma_last_entry_range(v: Seq<(String, Vec<String>)>, key: Seq<char>)
    ensures
        last_entry(v, key) matches Some(i) ==> 0 <= i < v.len() && v[i].0@ == key,
    decreases v.len(),
{
    if v.len() > 0 && v.last().0@ != key {
        lemma_last_entry_range(v.drop_last(), key);
    }
}

/// A copy of a list of strings.
pub fn copy_strings(v: &Vec<String>) -> (r: Vec<String>)
    ensures
        texts(r@) == texts(v@),
{
    let mut out: Vec<String> = Vec::new();
    let mut i: usize = 0;
    while i < v.len()
        invariant
            i <= v@.len(),
            texts(out@) == texts(v@).take(i as int),
        decreases v@.len() - i,
    {
        let ghost before = out@;
        out.push(v[i].clone());
        assert(texts(out@) =~= texts(before).push(v@[i as int]@));
        assert(texts(v@).take(i + 1) =~= texts(v@).take(i as int).push(v@[i as int]@));
        i = i + 1;
    }
    assert(texts(v@).take(v@.len() as int) =~= texts(v@));
    out
}

/// Whether one of the strings is `word`.
pub fn contains_text(v: &Vec<String>, word: &str) -> (r: bool)
    ensures
        r == texts(v@).contains(word@),
{
    let mut i: usize = 0;
    while i < v.len()
        invariant
            i <= v@.len(),
            forall|k: int| 0 <= k < i ==> (#[trigger] v@[k])@ != word@,
        decreases v@.len() - i,
    {
        if str_eq(v[i].as_str(), word) {
            assert(texts(v@)[i as int] == word@);
            return true;
        }
        i = i + 1;
    }
    assert(!texts(v@).contains(word@)) by {
        if texts(v@).contains(word@) {
            let k = choose|k: int| 0 <= k < texts(v@).len() && texts(v@)[k] == word@;
            assert(v@[k]@ != word@);
        }
    }
    false
}

impl Dictionary for FakeDictionary {
    closed spec fn knows(&self, word: Seq<char>) -> bool {
        self.known().contains(word)
    }

    closed spec fn replacements(&self, word: Seq<char>) -> Seq<Seq<char>> {
        match self.suggestions_for(word) {
            Some(x) => x,
            None => Seq::empty(),
        }
    }

    fn check(&self, word: &str) -> (r: Result<bool, Error>)
        ensures
            r == Ok::<bool, Error>(self.known().contains(word@)),
    {
        Ok(contains_text(&self.known, word))
    }

    fn suggest(&self, error: &str) -> (r: Vec<String>)
        ensures
            match self.suggestions_for(error@) {
                Some(x) => texts(r@) == x,
                None => r@.len() == 0,
            },
    {
        let mut i: usize = self.suggestions.len();
        let ghost v = self.suggestions@;
        assert(v.take(v.len() as int) =~= v);
        while i > 0
            invariant
                v == self.suggestions@,
                i <= v.len(),
                last_entry(v, error@) == last_entry(v.take(i as int), error@),
            decreases i,
        {
            assert(v.take(i as int).drop_last() =~= v.take(i - 1));
            assert(v.take(i as int).last() == v[i - 1]);
            if str_eq(self.suggestions[i - 1].0.as_str(), error) {
                return copy_strings(&self.suggestions[i - 1].1);
            }
            i = i - 1;
        }
        Vec::new()
    }
}

/// Once a word is added to the dictionary, checking it answers that it is
/// known, and the words known before stay known.
pub proof fn law_added_word_is_known(before: FakeDictionary, after: FakeDictionary, word: Seq<char>)
    requires
        after.known() == before.known().insert(word),
    ensures
        after.knows(word),
        forall|w: Seq<char>| before.knows(w) ==> after.knows(w),
{
}

/// Once suggestions are set for an error, they are the replacements given
/// for it.
pub proof fn law_suggestions_are_given_back(d: FakeDictionary, error: Seq<char>, suggestions: Seq<String>)
    requires
        d.suggestions_for(error) == Some(texts(suggestions)),
    ensures
        d.replacements(error) == texts(suggestions),
{
}

} // verus!
