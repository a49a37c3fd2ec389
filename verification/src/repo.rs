//! The first form of the repository: global, extension and file ignore
//! lists keyed by text, and a lookup that tells whether a word is fine.
use vstd::prelude::*;

use crate::dictionary::{contains_text, last_entry, lemma_last_entry_range, texts};
use crate::error::Error;
use crate::project::{extension, extension_of, file_name, path_file_name};
use crate::text::{lemma_push_to_set, str_eq};

verus! {

/// Where `add_word` puts a word.
pub enum AddFor {
    /// The ignore list of natural language words.
    NaturalLanguage,
    /// The ignore list of a programming language, by its identifier.
    ProgrammingLanguage(i32),
    /// The ignore list of a file, by its identifier.
    File(i32),
}

/// A store of ignore lists keyed by text.
///
/// Each method is stated over `contents`: a change that succeeds changes the
/// contents as said, and a read that succeeds answers from them.
pub trait Repo {
    /// The content of the store.
    spec fn contents(&self) -> RepoView;

    /// Adds the words to the global ignore list.
    fn insert_ignored_words(&mut self, words: &Vec<String>) -> (r: Result<(), Error>)
        ensures
            r is Ok ==> final(self).contents() == (RepoView {
                ignored: old(self).contents().ignored.union(texts(words@).to_set()),
                ..old(self).contents()
            }),
    ;

    /// Adds the extension to the known extensions, with an empty list.
    fn add_extension(&mut self, ext: &str) -> (r: Result<(), Error>)
        ensures
            r is Ok ==> final(self).contents() == (RepoView {
                ext_lists: old(self).contents().ext_lists.insert(ext@, Set::empty()),
                ..old(self).contents()
            }),
    ;

    /// Adds the file to the known full paths, with an empty list.
    fn add_file(&mut self, full_path: &str) -> (r: Result<(), Error>)
        ensures
            r is Ok ==> final(self).contents() == (RepoView {
                file_lists: old(self).contents().file_lists.insert(full_path@, Set::empty()),
                ..old(self).contents()
            }),
    ;

    /// Whether the extension is known.
    fn known_extension(&self, ext: &str) -> (r: Result<bool, Error>)
        ensures
            r matches Ok(b) ==> b == self.contents().ext_lists.contains_key(ext@),
    ;

    /// Whether the full path is known.
    fn known_file(&self, full_path: &str) -> (r: Result<bool, Error>)
        ensures
            r matches Ok(b) ==> b == self.contents().file_lists.contains_key(full_path@),
    ;

    /// Always skip files with this name (`Cargo.lock`, `yarn.lock`, ...).
    fn skip_file_name(&mut self, file_name: &str) -> (r: Result<(), Error>)
        ensures
            r is Ok ==> final(self).contents() == (RepoView {
                skipped_names: old(self).contents().skipped_names.insert(file_name@),
                ..old(self).contents()
            }),
    ;

    /// Always skip this full path.
    fn skip_full_path(&mut self, full_path: &str) -> (r: Result<(), Error>)
        ensures
            r is Ok ==> final(self).contents() == (RepoView {
                skipped_paths: old(self).contents().skipped_paths.insert(full_path@),
                ..old(self).contents()
            }),
    ;

    /// Whether the file is skipped, by its full path or by its name.
    fn is_skipped(&self, path: &str) -> (r: Result<bool, Error>)
        ensures
            r matches Ok(b) ==> skipped(self.contents(), path@) == Some(b),
    ;

    /// No longer skip files with this name.
    fn unskip_file_name(&mut self, file_name: &str) -> (r: Result<(), Error>)
        ensures
            r is Ok ==> final(self).contents() == (RepoView {
                skipped_names: old(self).contents().skipped_names.remove(file_name@),
                ..old(self).contents()
            }),
    ;

    /// No longer skip this full path.
    fn unskip_full_path(&mut self, full_path: &str) -> (r: Result<(), Error>)
        ensures
            r is Ok ==> final(self).contents() == (RepoView {
                skipped_paths: old(self).contents().skipped_paths.remove(full_path@),
                ..old(self).contents()
            }),
    ;

    /// Adds the word to the global ignore list.
    fn add_ignored(&mut self, word: &str) -> (r: Result<i32, Error>)
        ensures
            r is Ok ==> final(self).contents() == (RepoView {
                ignored: old(self).contents().ignored.insert(word@),
                ..old(self).contents()
            }),
    ;

    /// Adds the word to the ignore list of a known extension.
    fn add_ignored_for_extension(&mut self, word: &str, ext: &str) -> (r: Result<(), Error>)
        ensures
            r is Ok ==> old(self).contents().ext_lists.contains_key(ext@) && final(self).contents() == (
            RepoView {
                ext_lists: old(self).contents().ext_lists.insert(
                    ext@,
                    old(self).contents().ext_lists[ext@].insert(word@),
                ),
                ..old(self).contents()
            }),
    ;

    /// Adds the word to the ignore list of a known file.
    fn add_ignored_for_file(&mut self, word: &str, file: &str) -> (r: Result<(), Error>)
        ensures
            r is Ok ==> old(self).contents().file_lists.contains_key(file@) && final(self).contents()
                == (RepoView {
                file_lists: old(self).contents().file_lists.insert(
                    file@,
                    old(self).contents().file_lists[file@].insert(word@),
                ),
                ..old(self).contents()
            }),
    ;

    /// Whether the word is in the global ignore list.
    fn is_ignored(&self, word: &str) -> (r: Result<bool, Error>)
        ensures
            r matches Ok(b) ==> b == self.contents().ignored.contains(word@),
    ;

    /// Removes the word from the global ignore list.
    fn remove_ignored(&mut self, word: &str) -> (r: Result<(), Error>)
        ensures
            r is Ok ==> final(self).contents() == (RepoView {
                ignored: old(self).contents().ignored.remove(word@),
                ..old(self).contents()
            }),
    ;

    /// Removes the word from the ignore list of the extension.
    fn remove_ignored_for_extension(&mut self, word: &str, ext: &str) -> (r: Result<(), Error>)
        ensures
            r is Ok && old(self).contents().ext_lists.contains_key(ext@) ==> final(self).contents() == (
            RepoView {
                ext_lists: old(self).contents().ext_lists.insert(
                    ext@,
                    old(self).contents().ext_lists[ext@].remove(word@),
                ),
                ..old(self).contents()
            }),
            r is Ok && !old(self).contents().ext_lists.contains_key(ext@) ==> final(self).contents()
                == old(self).contents(),
    ;

    /// Removes the word from the ignore list of the file.
    fn remove_ignored_for_file(&mut self, word: &str, path: &str) -> (r: Result<(), Error>)
        ensures
            r is Ok && old(self).contents().file_lists.contains_key(path@) ==> final(self).contents()
                == (RepoView {
                file_lists: old(self).contents().file_lists.insert(
                    path@,
                    old(self).contents().file_lists[path@].remove(word@),
                ),
                ..old(self).contents()
            }),
            r is Ok && !old(self).contents().file_lists.contains_key(path@) ==> final(self).contents()
                == old(self).contents(),
    ;

    /// Whether the word is fine in this file: known good, ignored globally,
    /// in a skipped file name, or in the list of the extension or the file.
    fn lookup_word(&self, word: &str, file: &str) -> (r: Result<bool, Error>)
        ensures
            r matches Ok(b) ==> b == lookup(self.contents(), word@, file@),
    ;

    /// The programming language set for each extension.
    spec fn languages(&self) -> Map<Seq<char>, i32>;

    /// The programming language of an extension, if one is set.
    fn lookup_extension(&self, ext: &str) -> (r: Result<Option<i32>, Error>)
        ensures
            r matches Ok(o) ==> o == language_of(self.languages(), ext@),
    ;

    /// Adds the word to the chosen ignore list; the lists of programming
    /// languages and of files by identifier are not part of `contents`,
    /// which keeps its global list then.
    fn add_word(&mut self, word: &str, add_for: &AddFor) -> (r: Result<(), Error>)
        ensures
            r is Ok && add_for is NaturalLanguage ==> final(self).contents() == (RepoView {
                ignored: old(self).contents().ignored.insert(word@),
                ..old(self).contents()
            }),
            r is Ok && !(add_for is NaturalLanguage) ==> final(self).contents().ignored == old(
                self,
            ).contents().ignored,
    ;
}

/// The language set for an extension, if any.
pub open spec fn language_of(languages: Map<Seq<char>, i32>, ext: Seq<char>) -> Option<i32> {
    if languages.contains_key(ext) {
        Some(languages[ext])
    } else {
        None
    }
}

/// An in-memory `Repo`.
pub struct FakeRepo {
    good: Vec<String>,
    ignored: Vec<String>,
    skipped_file_names: Vec<String>,
    skipped_paths: Vec<String>,
    ignored_for_file: Vec<(String, Vec<String>)>,
    ignored_for_ext: Vec<(String, Vec<String>)>,
}

/// The list of a key: the one set last for it.
pub open spec fn list_of(v: Seq<(String, Vec<String>)>, key: Seq<char>) -> Option<Set<Seq<char>>> {
    match last_entry(v, key) {
        Some(i) => Some(texts(v[i].1@).to_set()),
        None => None,
    }
}

/// The list holds the word.
pub open spec fn listed_in(list: Option<Set<Seq<char>>>, word: Seq<char>) -> bool {
    list matches Some(l) && l.contains(word)
}

/// Index of the last entry for `key`.
pub fn find_last_entry(v: &Vec<(String, Vec<String>)>, key: &str) -> (r: Option<usize>)
    ensures
        r matches Some(i) ==> last_entry(v@, key@) == Some(i as int),
        r is None ==> last_entry(v@, key@) is None,
{
    let mut i: usize = v.len();
    let ghost s = v@;
    assert(s.take(s.len() as int) =~= s);
    while i > 0
        invariant
            s == v@,
            i <= s.len(),
            last_entry(s, key@) == last_entry(s.take(i as int), key@),
        decreases i,
    {
        assert(s.take(i as int).drop_last() =~= s.take(i - 1));
        assert(s.take(i as int).last() == s[i - 1]);
        if str_eq(v[i - 1].0.as_str(), key) {
            return Some(i - 1);
        }
        i = i - 1;
    }
    None
}

/// The strings of `v` but `word`.
pub fn without(v: &Vec<String>, word: &str) -> (r: Vec<String>)
    ensures
        texts(r@).to_set() == texts(v@).to_set().remove(word@),
{
    let mut out: Vec<String> = Vec::new();
    let mut i: usize = 0;
    proof {
        assert(texts(out@) =~= Seq::<Seq<char>>::empty());
        assert(texts(v@).take(0) =~= Seq::<Seq<char>>::empty());
        assert(texts(out@).to_set() =~= texts(v@).take(0).to_set().remove(word@));
    }
    while i < v.len()
        invariant
            i <= v@.len(),
            texts(out@).to_set() == texts(v@).take(i as int).to_set().remove(word@),
        decreases v@.len() - i,
    {
        let ghost before = out@;
        let ghost w = v@[i as int]@;
        proof {
            assert(texts(v@).take(i + 1) =~= texts(v@).take(i as int).push(w));
            lemma_push_to_set(texts(v@).take(i as int), w);
        }
        if !str_eq(v[i].as_str(), word) {
            out.push(v[i].clone());
            proof {
                assert(texts(out@) =~= texts(before).push(w));
                lemma_push_to_set(texts(before), w);
                assert(texts(out@).to_set() =~= texts(v@).take(i + 1).to_set().remove(word@));
            }
        } else {
            assert(texts(out@).to_set() =~= texts(v@).take(i + 1).to_set().remove(word@));
        }
        i = i + 1;
    }
    assert(texts(v@).take(v@.len() as int) =~= texts(v@));
    out
}

/// The pairs but the one for `word` of the entry `i`, replaced by `words`.
proof fn lemma_update_lists(v: Seq<(String, Vec<String>)>, i: int, e: (String, Vec<String>), key: Seq<char>)
    requires
        0 <= i < v.len(),
        v[i].0@ == e.0@,
        last_entry(v, e.0@) == Some(i),
    ensures
        last_entry(v.update(i, e), key) == last_entry(v, key),
    decreases v.len(),
{
    if v.len() > 0 {
        if i == v.len() - 1 {
            assert(v.update(i, e).drop_last() =~= v.drop_last());
        } else {
            assert(v.update(i, e).drop_last() =~= v.drop_last().update(i, e));
            lemma_update_lists(v.drop_last(), i, e, key);
        }
    }
}

impl FakeRepo {
    /// The words known to be good.
    pub closed spec fn good(&self) -> Set<Seq<char>> {
        texts(self.good@).to_set()
    }

    /// The global ignore list.
    pub closed spec fn ignored(&self) -> Set<Seq<char>> {
        texts(self.ignored@).to_set()
    }

    /// The skipped file names.
    pub closed spec fn skipped_names(&self) -> Set<Seq<char>> {
        texts(self.skipped_file_names@).to_set()
    }

    /// The skipped full paths.
    pub closed spec fn skipped_paths(&self) -> Set<Seq<char>> {
        texts(self.skipped_paths@).to_set()
    }

    /// The ignore list of a file, when the file is known.
    pub closed spec fn file_list(&self, path: Seq<char>) -> Option<Set<Seq<char>>> {
        list_of(self.ignored_for_file@, path)
    }

    /// The ignore list of an extension, when the extension is known.
    pub closed spec fn ext_list(&self, ext: Seq<char>) -> Option<Set<Seq<char>>> {
        list_of(self.ignored_for_ext@, ext)
    }

    /// An empty repository.
    pub fn new() -> (r: Self)
        ensures
            r.good() == Set::<Seq<char>>::empty(),
            r.ignored() == Set::<Seq<char>>::empty(),
            r.skipped_names() == Set::<Seq<char>>::empty(),
            r.skipped_paths() == Set::<Seq<char>>::empty(),
            forall|k: Seq<char>| r.file_list(k) is None && r.ext_list(k) is None,
            r@ == (RepoView {
                good: Set::empty(),
                ignored: Set::empty(),
                skipped_names: Set::empty(),
                skipped_paths: Set::empty(),
                file_lists: Map::empty(),
                ext_lists: Map::empty(),
            }),
    {
        let r = FakeRepo {
            good: Vec::new(),
            ignored: Vec::new(),
            skipped_file_names: Vec::new(),
            skipped_paths: Vec::new(),
            ignored_for_file: Vec::new(),
            ignored_for_ext: Vec::new(),
        };
        assert(texts(r.good@) =~= Seq::<Seq<char>>::empty());
        assert(r.good() =~= Set::<Seq<char>>::empty());
        assert(r.ignored() =~= Set::<Seq<char>>::empty());
        assert(r.skipped_names() =~= Set::<Seq<char>>::empty());
        assert(r.skipped_paths() =~= Set::<Seq<char>>::empty());
        assert(lists_map(r.ignored_for_file@) =~= Map::<Seq<char>, Set<Seq<char>>>::empty());
        assert(lists_map(r.ignored_for_ext@) =~= Map::<Seq<char>, Set<Seq<char>>>::empty());
        r
    }
}

/// Adds a string to a list.
fn push_text(v: &mut Vec<String>, word: &str)
    ensures
        texts(final(v)@).to_set() == texts(old(v)@).to_set().insert(word@),
{
    v.push(String::from_str(word));
    proof {
        assert(texts(v@) =~= texts(old(v)@).push(word@));
        lemma_push_to_set(texts(old(v)@), word@);
    }
}

/// Sets an empty list for `key`.
fn reset_list(v: &mut Vec<(String, Vec<String>)>, key: &str)
    ensures
        list_of(final(v)@, key@) == Some(Set::<Seq<char>>::empty()),
        forall|k: Seq<char>| k != key@ ==> list_of(final(v)@, k) == list_of(old(v)@, k),
{
    let e = (String::from_str(key), Vec::new());
    v.push(e);
    proof {
        assert(v@.drop_last() =~= old(v)@);
        assert(texts(e.1@) =~= Seq::<Seq<char>>::empty());
        assert(texts(e.1@).to_set() =~= Set::<Seq<char>>::empty());
        assert forall|k: Seq<char>| k != key@ implies list_of(v@, k) == list_of(old(v)@, k) by {
            lemma_last_entry_range(old(v)@, k);
            if let Some(i) = last_entry(old(v)@, k) {
                assert(v@[i] == old(v)@[i]);
            }
        }
    }
}

/// Adds a word to the list of `key`; an error when `key` has no list.
fn add_to_list(v: &mut Vec<(String, Vec<String>)>, key: &str, word: &str) -> (r: Result<(), ()>)
    ensures
        list_of(old(v)@, key@) is None ==> r is Err && final(v)@ == old(v)@,
        list_of(old(v)@, key@) matches Some(l) ==> r is Ok && list_of(final(v)@, key@) == Some(
            l.insert(word@),
        ),
        forall|k: Seq<char>| k != key@ ==> list_of(final(v)@, k) == list_of(old(v)@, k),
{
    match find_last_entry(v, key) {
        None => Err(()),
        Some(i) => {
            proof {
                lemma_last_entry_range(old(v)@, key@);
            }
            let (k, mut words) = v.remove(i);
            push_text(&mut words, word);
            let ghost e = (k, words);
            v.insert(i, (k, words));
            proof {
                assert(v@ =~= old(v)@.update(i as int, e));
                assert forall|k2: Seq<char>| #![auto] list_of(v@, k2) == (if k2 == key@ {
                    Some(texts(e.1@).to_set())
                } else {
                    list_of(old(v)@, k2)
                }) by {
                    lemma_update_lists(old(v)@, i as int, e, k2);
                    lemma_last_entry_range(old(v)@, k2);
                }
            }
            Ok(())
        },
    }
}

/// Removes a word from the list of `key`, when there is one.
fn remove_from_list(v: &mut Vec<(String, Vec<String>)>, key: &str, word: &str)
    ensures
        list_of(old(v)@, key@) is None ==> final(v)@ == old(v)@,
        list_of(old(v)@, key@) matches Some(l) ==> list_of(final(v)@, key@) == Some(l.remove(word@)),
        forall|k: Seq<char>| k != key@ ==> list_of(final(v)@, k) == list_of(old(v)@, k),
{
    match find_last_entry(v, key) {
        None => {},
        Some(i) => {
            proof {
                lemma_last_entry_range(old(v)@, key@);
            }
            let (k, words) = v.remove(i);
            assert(k == old(v)@[i as int].0);
            assert(k@ == key@);
            let rest = without(&words, word);
            let ghost e = (k, rest);
            assert(e.0@ == key@);
            v.insert(i, (k, rest));
            proof {
                assert(v@ =~= old(v)@.update(i as int, e));
                assert forall|k2: Seq<char>| #![auto] list_of(v@, k2) == (if k2 == key@ {
                    Some(texts(e.1@).to_set())
                } else {
                    list_of(old(v)@, k2)
                }) by {
                    lemma_update_lists(old(v)@, i as int, e, k2);
                    lemma_last_entry_range(old(v)@, k2);
                }
            }
        },
    }
}

/// Whether the list of `key` holds the word.
fn list_holds(v: &Vec<(String, Vec<String>)>, key: &str, word: &str) -> (r: bool)
    ensures
        r == listed_in(list_of(v@, key@), word@),
{
    match find_last_entry(v, key) {
        None => false,
        Some(i) => {
            proof {
                lemma_last_entry_range(v@, key@);
            }
            let holds = contains_text(&v[i].1, word);
            proof {
                assert(last_entry(v@, key@) == Some(i as int));
                assert(list_of(v@, key@) == Some(texts(v@[i as int].1@).to_set()));
                if holds {
                    let k = choose|k: int| 0 <= k < texts(v@[i as int].1@).len() && texts(v@[i as int].1@)[k] == word@;
                    assert(texts(v@[i as int].1@).to_set().contains(word@));
                }
            }
            holds
        },
    }
}

/// The content of a `FakeRepo`.
pub struct RepoView {
    /// The words known to be good.
    pub good: Set<Seq<char>>,
    /// The global ignore list.
    pub ignored: Set<Seq<char>>,
    /// The skipped file names.
    pub skipped_names: Set<Seq<char>>,
    /// The skipped full paths.
    pub skipped_paths: Set<Seq<char>>,
    /// The ignore list of each known file.
    pub file_lists: Map<Seq<char>, Set<Seq<char>>>,
    /// The ignore list of each known extension.
    pub ext_lists: Map<Seq<char>, Set<Seq<char>>>,
}

/// The lists of the keys, as a map.
pub open spec fn lists_map(v: Seq<(String, Vec<String>)>) -> Map<Seq<char>, Set<Seq<char>>> {
    Map::new(|k: Seq<char>| list_of(v, k) is Some, |k: Seq<char>| list_of(v, k)->0)
}

impl View for FakeRepo {
    type V = RepoView;

    closed spec fn view(&self) -> RepoView {
        RepoView {
            good: self.good(),
            ignored: self.ignored(),
            skipped_names: self.skipped_names(),
            skipped_paths: self.skipped_paths(),
            file_lists: lists_map(self.ignored_for_file@),
            ext_lists: lists_map(self.ignored_for_ext@),
        }
    }
}

/// Whether the word is fine in the file at `path`, in a repository.
pub open spec fn lookup(m: RepoView, word: Seq<char>, path: Seq<char>) -> bool {
    ||| m.good.contains(word)
    ||| m.ignored.contains(word)
    ||| (path_file_name(path) matches Some(f) && m.skipped_names.contains(f))
    ||| (path_file_name(path) matches Some(f) && extension_of(f) matches Some(e)
        && m.ext_lists.contains_key(e) && m.ext_lists[e].contains(word))
    ||| (m.file_lists.contains_key(path) && m.file_lists[path].contains(word))
}

/// Whether the file at `path` is skipped, when that can be told: by its
/// full path, else by its name.
pub open spec fn skipped(m: RepoView, path: Seq<char>) -> Option<bool> {
    if m.skipped_paths.contains(path) {
        Some(true)
    } else {
        match path_file_name(path) {
            Some(f) => Some(m.skipped_names.contains(f)),
            None => None,
        }
    }
}

impl Repo for FakeRepo {
    open spec fn contents(&self) -> RepoView {
        self@
    }

    /// No language is ever set.
    open spec fn languages(&self) -> Map<Seq<char>, i32> {
        Map::empty()
    }

    fn insert_ignored_words(&mut self, words: &Vec<String>) -> (r: Result<(), Error>)
        ensures
            r is Ok,
            final(self)@ == (RepoView {
                ignored: old(self)@.ignored.union(texts(words@).to_set()),
                ..old(self)@
            }),
    {
        let mut i: usize = 0;
        proof {
            assert(texts(words@).take(0) =~= Seq::<Seq<char>>::empty());
            assert(old(self)@.ignored.union(texts(words@).take(0).to_set()) =~= old(self)@.ignored);
        }
        while i < words.len()
            invariant
                i <= words@.len(),
                self@ == (RepoView {
                    ignored: old(self)@.ignored.union(texts(words@).take(i as int).to_set()),
                    ..old(self)@
                }),
            decreases words@.len() - i,
        {
            let ghost before = self@;
            push_text(&mut self.ignored, words[i].as_str());
            proof {
                let w = words@[i as int]@;
                assert(texts(words@).take(i + 1) =~= texts(words@).take(i as int).push(w));
                lemma_push_to_set(texts(words@).take(i as int), w);
                let s0 = texts(words@).take(i as int).to_set();
                assert(old(self)@.ignored.union(s0.insert(w)) =~= old(self)@.ignored.union(s0).insert(w));
            }
            i = i + 1;
        }
        assert(texts(words@).take(words@.len() as int) =~= texts(words@));
        Ok(())
    }

    fn add_extension(&mut self, ext: &str) -> (r: Result<(), Error>)
        ensures
            r is Ok,
            final(self)@ == (RepoView {
                ext_lists: old(self)@.ext_lists.insert(ext@, Set::empty()),
                ..old(self)@
            }),
    {
        reset_list(&mut self.ignored_for_ext, ext);
        assert(self@.ext_lists =~= old(self)@.ext_lists.insert(ext@, Set::empty()));
        Ok(())
    }

    fn add_file(&mut self, full_path: &str) -> (r: Result<(), Error>)
        ensures
            r is Ok,
            final(self)@ == (RepoView {
                file_lists: old(self)@.file_lists.insert(full_path@, Set::empty()),
                ..old(self)@
            }),
    {
        reset_list(&mut self.ignored_for_file, full_path);
        assert(self@.file_lists =~= old(self)@.file_lists.insert(full_path@, Set::empty()));
        Ok(())
    }

    fn known_extension(&self, ext: &str) -> (r: Result<bool, Error>)
        ensures
            r == Ok::<bool, Error>(self@.ext_lists.contains_key(ext@)),
    {
        Ok(find_last_entry(&self.ignored_for_ext, ext).is_some())
    }

    fn known_file(&self, full_path: &str) -> (r: Result<bool, Error>)
        ensures
            r == Ok::<bool, Error>(self@.file_lists.contains_key(full_path@)),
    {
        Ok(find_last_entry(&self.ignored_for_file, full_path).is_some())
    }

    fn skip_file_name(&mut self, file_name: &str) -> (r: Result<(), Error>)
        ensures
            r is Ok,
            final(self)@ == (RepoView {
                skipped_names: old(self)@.skipped_names.insert(file_name@),
                ..old(self)@
            }),
    {
        push_text(&mut self.skipped_file_names, file_name);
        Ok(())
    }

    fn skip_full_path(&mut self, full_path: &str) -> (r: Result<(), Error>)
        ensures
            r is Ok,
            final(self)@ == (RepoView {
                skipped_paths: old(self)@.skipped_paths.insert(full_path@),
                ..old(self)@
            }),
    {
        push_text(&mut self.skipped_paths, full_path);
        Ok(())
    }

    fn is_skipped(&self, path: &str) -> (r: Result<bool, Error>)
        ensures
            match skipped(self@, path@) {
                Some(b) => r == Ok::<bool, Error>(b),
                None => r matches Err(Error::NoFileName),
            },
    {
        if contains_text(&self.skipped_paths, path) {
            return Ok(true);
        }
        match file_name(path) {
            Some(f) => Ok(contains_text(&self.skipped_file_names, f.as_str())),
            None => Err(Error::NoFileName),
        }
    }

    fn unskip_file_name(&mut self, file_name: &str) -> (r: Result<(), Error>)
        ensures
            r is Ok,
            final(self)@ == (RepoView {
                skipped_names: old(self)@.skipped_names.remove(file_name@),
                ..old(self)@
            }),
    {
        self.skipped_file_names = without(&self.skipped_file_names, file_name);
        Ok(())
    }

    fn unskip_full_path(&mut self, full_path: &str) -> (r: Result<(), Error>)
        ensures
            r is Ok,
            final(self)@ == (RepoView {
                skipped_paths: old(self)@.skipped_paths.remove(full_path@),
                ..old(self)@
            }),
    {
        self.skipped_paths = without(&self.skipped_paths, full_path);
        Ok(())
    }

    fn add_ignored(&mut self, word: &str) -> (r: Result<i32, Error>)
        ensures
            r == Ok::<i32, Error>(0),
            final(self)@ == (RepoView { ignored: old(self)@.ignored.insert(word@), ..old(self)@ }),
    {
        push_text(&mut self.ignored, word);
        Ok(0)
    }

    fn add_ignored_for_extension(&mut self, word: &str, ext: &str) -> (r: Result<(), Error>)
        ensures
            !old(self)@.ext_lists.contains_key(ext@) ==> final(self)@ == old(self)@ && (r matches Err(
                Error::UnknownExtension(e),
            ) && e@ == ext@),
            old(self)@.ext_lists.contains_key(ext@) ==> r is Ok && final(self)@ == (RepoView {
                ext_lists: old(self)@.ext_lists.insert(ext@, old(self)@.ext_lists[ext@].insert(word@)),
                ..old(self)@
            }),
    {
        match add_to_list(&mut self.ignored_for_ext, ext, word) {
            Ok(()) => {
                assert(self@.ext_lists =~= old(self)@.ext_lists.insert(
                    ext@,
                    old(self)@.ext_lists[ext@].insert(word@),
                ));
                Ok(())
            },
            Err(()) => Err(Error::UnknownExtension(String::from_str(ext))),
        }
    }

    fn add_ignored_for_file(&mut self, word: &str, file: &str) -> (r: Result<(), Error>)
        ensures
            !old(self)@.file_lists.contains_key(file@) ==> final(self)@ == old(self)@ && (r matches Err(
                Error::UnknownFile(f),
            ) && f@ == file@),
            old(self)@.file_lists.contains_key(file@) ==> r is Ok && final(self)@ == (RepoView {
                file_lists: old(self)@.file_lists.insert(
                    file@,
                    old(self)@.file_lists[file@].insert(word@),
                ),
                ..old(self)@
            }),
    {
        match add_to_list(&mut self.ignored_for_file, file, word) {
            Ok(()) => {
                assert(self@.file_lists =~= old(self)@.file_lists.insert(
                    file@,
                    old(self)@.file_lists[file@].insert(word@),
                ));
                Ok(())
            },
            Err(()) => Err(Error::UnknownFile(String::from_str(file))),
        }
    }

    fn is_ignored(&self, word: &str) -> (r: Result<bool, Error>)
        ensures
            r == Ok::<bool, Error>(self@.ignored.contains(word@)),
    {
        Ok(contains_text(&self.ignored, word))
    }

    fn remove_ignored(&mut self, word: &str) -> (r: Result<(), Error>)
        ensures
            r is Ok,
            final(self)@ == (RepoView { ignored: old(self)@.ignored.remove(word@), ..old(self)@ }),
    {
        self.ignored = without(&self.ignored, word);
        Ok(())
    }

    fn remove_ignored_for_extension(&mut self, word: &str, ext: &str) -> (r: Result<(), Error>)
        ensures
            r is Ok,
            !old(self)@.ext_lists.contains_key(ext@) ==> final(self)@ == old(self)@,
            old(self)@.ext_lists.contains_key(ext@) ==> final(self)@ == (RepoView {
                ext_lists: old(self)@.ext_lists.insert(ext@, old(self)@.ext_lists[ext@].remove(word@)),
                ..old(self)@
            }),
    {
        remove_from_list(&mut self.ignored_for_ext, ext, word);
        proof {
            if old(self)@.ext_lists.contains_key(ext@) {
                assert(self@.ext_lists =~= old(self)@.ext_lists.insert(
                    ext@,
                    old(self)@.ext_lists[ext@].remove(word@),
                ));
            }
        }
        Ok(())
    }

    fn remove_ignored_for_file(&mut self, word: &str, path: &str) -> (r: Result<(), Error>)
        ensures
            r is Ok,
            !old(self)@.file_lists.contains_key(path@) ==> final(self)@ == old(self)@,
            old(self)@.file_lists.contains_key(path@) ==> final(self)@ == (RepoView {
                file_lists: old(self)@.file_lists.insert(
                    path@,
                    old(self)@.file_lists[path@].remove(word@),
                ),
                ..old(self)@
            }),
    {
        remove_from_list(&mut self.ignored_for_file, path, word);
        proof {
            if old(self)@.file_lists.contains_key(path@) {
                assert(self@.file_lists =~= old(self)@.file_lists.insert(
                    path@,
                    old(self)@.file_lists[path@].remove(word@),
                ));
            }
        }
        Ok(())
    }

    fn lookup_word(&self, word: &str, file: &str) -> (r: Result<bool, Error>)
        ensures
            r == Ok::<bool, Error>(lookup(self@, word@, file@)),
    {
        let name = file_name(file);
        if contains_text(&self.good, word) {
            return Ok(true);
        }
        if contains_text(&self.ignored, word) {
            return Ok(true);
        }
        if let Some(f) = &name {
            if contains_text(&self.skipped_file_names, f.as_str()) {
                return Ok(true);
            }
        }
        if let Some(f) = &name {
            if let Some(e) = extension(f.as_str()) {
                if list_holds(&self.ignored_for_ext, e.as_str(), word) {
                    return Ok(true);
                }
            }
        }
        if list_holds(&self.ignored_for_file, file, word) {
            return Ok(true);
        }
        Ok(false)
    }

    fn lookup_extension(&self, ext: &str) -> (r: Result<Option<i32>, Error>)
        ensures
            r == Ok::<Option<i32>, Error>(None),
    {
        Ok(None)
    }

    fn add_word(&mut self, word: &str, add_for: &AddFor) -> (r: Result<(), Error>)
        ensures
            add_for is NaturalLanguage ==> r is Ok && final(self)@ == (RepoView {
                ignored: old(self)@.ignored.insert(word@),
                ..old(self)@
            }),
            !(add_for is NaturalLanguage) ==> (r matches Err(Error::NotImplemented(_))) && final(self)@
                == old(self)@,
    {
        match add_for {
            AddFor::NaturalLanguage => {
                push_text(&mut self.ignored, word);
                Ok(())
            },
            AddFor::ProgrammingLanguage(_) => Err(
                Error::NotImplemented(String::from_str("ignore lists of programming languages")),
            ),
            AddFor::File(_) => Err(Error::NotImplemented(String::from_str("ignore lists of files by identifier"))),
        }
    }
}

} // verus!
