//! An in-memory table of rows `(project, key, word)`, seen as a set.
use vstd::prelude::*;

use crate::project::ProjectId;
use crate::text::str_eq;

verus! {

/// A row: a project identifier and two texts.
pub type Row = (int, Seq<char>, Seq<char>);

/// A row of a table.
pub struct Entry {
    pub project: ProjectId,
    pub key: String,
    pub word: String,
}

/// The value of an entry.
pub open spec fn entry_row(e: Entry) -> Row {
    (e.project as int, e.key@, e.word@)
}

/// A set of rows, kept in insertion order.
pub struct Table {
    entries: Vec<Entry>,
}

impl View for Table {
    type V = Set<Row>;

    closed spec fn view(&self) -> Set<Row> {
        Set::new(|x: Row| holds(self.entries@, x))
    }
}

impl Table {
    /// The rows, in insertion order.
    pub closed spec fn rows(&self) -> Seq<Row> {
        self.entries@.map_values(|e: Entry| entry_row(e))
    }

    /// The rows, in insertion order, make up the set.
    pub proof fn lemma_rows(&self)
        ensures
            forall|i: int| 0 <= i < self.rows().len() ==> self@.contains(#[trigger] self.rows()[i]),
            forall|x: Row| self@.contains(x) ==> self.rows().contains(x),
            self@.finite(),
    {
        assert forall|i: int| 0 <= i < self.rows().len() implies self@.contains(#[trigger] self.rows()[i]) by {
            assert(entry_row(self.entries@[i]) == self.rows()[i]);
        }
        assert forall|x: Row| self@.contains(x) implies self.rows().contains(x) by {
            let i = choose|i: int| 0 <= i < self.entries@.len() && entry_row(#[trigger] self.entries@[i]) == x;
            assert(self.rows()[i] == x);
        }
        assert(self@ =~= self.rows().to_set()) by {
            assert forall|x: Row| self@.contains(x) <==> self.rows().to_set().contains(x) by {
                if self.rows().contains(x) {
                    let i = choose|i: int| 0 <= i < self.rows().len() && self.rows()[i] == x;
                    assert(entry_row(self.entries@[i]) == x);
                }
            }
        }
        vstd::seq_lib::seq_to_set_is_finite(self.rows());
    }

    /// An empty table.
    pub fn new() -> (r: Self)
        ensures
            r@ == Set::<Row>::empty(),
            r.rows() == Seq::<Row>::empty(),
    {
        let r = Table { entries: Vec::new() };
        assert(r@ =~= Set::<Row>::empty());
        assert(r.rows() =~= Seq::<Row>::empty());
        r
    }

    /// The position of a row, if the table holds it.
    fn find(&self, project: ProjectId, key: &str, word: &str) -> (r: Option<usize>)
        ensures
            match r {
                Some(i) => i < self.entries@.len() && entry_row(self.entries@[i as int]) == (
                    project as int,
                    key@,
                    word@,
                ),
                None => !self@.contains((project as int, key@, word@)),
            },
    {
        let mut i: usize = 0;
        while i < self.entries.len()
            invariant
                i <= self.entries@.len(),
                forall|k: int|
                    0 <= k < i ==> entry_row(#[trigger] self.entries@[k]) != (
                        project as int,
                        key@,
                        word@,
                    ),
            decreases self.entries@.len() - i,
        {
            let e = &self.entries[i];
            if e.project == project && str_eq(e.key.as_str(), key) && str_eq(e.word.as_str(), word) {
                return Some(i);
            }
            i = i + 1;
        }
        None
    }

    /// Whether the table holds the row.
    pub fn contains(&self, project: ProjectId, key: &str, word: &str) -> (r: bool)
        ensures
            r == self@.contains((project as int, key@, word@)),
    {
        self.find(project, key, word).is_some()
    }

    /// Adds the row; the table is unchanged when it already holds it.
    pub fn insert(&mut self, project: ProjectId, key: &str, word: &str)
        ensures
            final(self)@ == old(self)@.insert((project as int, key@, word@)),
            old(self)@.contains((project as int, key@, word@)) ==> final(self).rows() == old(self).rows(),
            !old(self)@.contains((project as int, key@, word@)) ==> final(self).rows() == old(self).rows().push((project as int, key@, word@)),
    {
        if self.find(project, key, word).is_some() {
            return;
        }
        let ghost before = self.entries@;
        self.entries.push(Entry { project, key: String::from_str(key), word: String::from_str(word) });
        proof {
            let x = (project as int, key@, word@);
            assert(entry_row(self.entries@[before.len() as int]) == x);
            assert forall|y: Row| #[trigger] self@.contains(y) <==> old(self)@.insert(x).contains(y) by {
                if self@.contains(y) && y != x {
                    let i = choose|i: int| 0 <= i < self.entries@.len() && entry_row(#[trigger] self.entries@[i]) == y;
                    assert(i < before.len());
                    assert(before[i] == self.entries@[i]);
                }
                if old(self)@.contains(y) {
                    let i = choose|i: int| 0 <= i < before.len() && entry_row(#[trigger] before[i]) == y;
                    assert(self.entries@[i] == before[i]);
                }
            }
            assert(self@ =~= old(self)@.insert(x));
            assert(self.rows() =~= old(self).rows().push(x));
        }
    }

    /// The rows, in insertion order.
    pub fn list(&self) -> (r: Vec<(ProjectId, String, String)>)
        ensures
            r@.map_values(|x: (ProjectId, String, String)| (x.0 as int, x.1@, x.2@)) == self.rows(),
    {
        let mut out: Vec<(ProjectId, String, String)> = Vec::new();
        let mut i: usize = 0;
        while i < self.entries.len()
            invariant
                i <= self.entries@.len(),
                out@.map_values(|x: (ProjectId, String, String)| (x.0 as int, x.1@, x.2@))
                    == self.rows().take(i as int),
            decreases self.entries@.len() - i,
        {
            let e = &self.entries[i];
            let ghost before = out@;
            out.push((e.project, e.key.clone(), e.word.clone()));
            proof {
                assert(self.rows().take(i + 1) =~= self.rows().take(i as int).push(
                    entry_row(self.entries@[i as int]),
                ));
                assert(out@.map_values(|x: (ProjectId, String, String)| (x.0 as int, x.1@, x.2@))
                    =~= before.map_values(
                    |x: (ProjectId, String, String)| (x.0 as int, x.1@, x.2@),
                ).push(entry_row(self.entries@[i as int])));
            }
            i = i + 1;
        }
        assert(self.rows().take(self.entries@.len() as int) =~= self.rows());
        out
    }

    /// The project of the first row with this key and word, if any.
    pub fn project_of(&self, key: &str, word: &str) -> (r: Option<ProjectId>)
        ensures
            match r {
                Some(p) => self@.contains((p as int, key@, word@)),
                None => forall|p: int| !self@.contains((p, key@, word@)),
            },
    {
        let mut i: usize = 0;
        while i < self.entries.len()
            invariant
                i <= self.entries@.len(),
                forall|k: int|
                    0 <= k < i ==> (#[trigger] self.entries@[k]).key@ != key@
                        || self.entries@[k].word@ != word@,
            decreases self.entries@.len() - i,
        {
            let e = &self.entries[i];
            if str_eq(e.key.as_str(), key) && str_eq(e.word.as_str(), word) {
                assert(entry_row(self.entries@[i as int]) == (e.project as int, key@, word@));
                return Some(e.project);
            }
            i = i + 1;
        }
        assert forall|p: int| !self@.contains((p, key@, word@)) by {
            if self@.contains((p, key@, word@)) {
                let k = choose|k: int|
                    0 <= k < self.entries@.len() && entry_row(#[trigger] self.entries@[k]) == (
                        p,
                        key@,
                        word@,
                    );
                assert(self.entries@[k].key@ == key@);
            }
        }
        None
    }

    /// The largest project identifier of the rows, or 0.
    pub fn max_project(&self) -> (r: ProjectId)
        ensures
            r >= 0,
            forall|x: Row| self@.contains(x) ==> x.0 <= r,
    {
        let mut m: ProjectId = 0;
        let mut i: usize = 0;
        while i < self.entries.len()
            invariant
                i <= self.entries@.len(),
                m >= 0,
                forall|k: int| 0 <= k < i ==> (#[trigger] self.entries@[k]).project <= m,
            decreases self.entries@.len() - i,
        {
            if self.entries[i].project > m {
                m = self.entries[i].project;
            }
            i = i + 1;
        }
        assert forall|x: Row| self@.contains(x) implies x.0 <= m by {
            let k = choose|k: int|
                0 <= k < self.entries@.len() && entry_row(#[trigger] self.entries@[k]) == x;
            assert(self.entries@[k].project <= m);
        }
        m
    }

    /// Removes every row of the project.
    pub fn remove_project(&mut self, project: ProjectId)
        ensures
            final(self)@ == old(self)@.filter(|x: Row| x.0 != project as int),
    {
        let mut kept: Vec<Entry> = Vec::new();
        let mut i: usize = 0;
        while i < self.entries.len()
            invariant
                i <= self.entries@.len(),
                forall|y: Row|
                    #[trigger] holds(kept@, y) == (y.0 != project as int && holds(
                        self.entries@.take(i as int),
                        y,
                    )),
            decreases self.entries@.len() - i,
        {
            let e = &self.entries[i];
            let ghost before = kept@;
            if e.project != project {
                kept.push(Entry { project: e.project, key: e.key.clone(), word: e.word.clone() });
                proof {
                    assert(kept@ =~= before.push(self.entries@[i as int]));
                }
            }
            proof {
                assert(self.entries@.take(i + 1) =~= self.entries@.take(i as int).push(
                    self.entries@[i as int],
                ));
                assert forall|y: Row|
                    #[trigger] holds(kept@, y) == (y.0 != project as int && holds(
                        self.entries@.take(i + 1),
                        y,
                    )) by {
                    lemma_holds_push(self.entries@.take(i as int), self.entries@[i as int], y);
                    if e.project != project {
                        lemma_holds_push(before, self.entries@[i as int], y);
                    }
                }
            }
            i = i + 1;
        }
        self.entries = kept;
        proof {
            assert(old(self).entries@.take(old(self).entries@.len() as int) =~= old(self).entries@);
            assert(self@ =~= old(self)@.filter(|x: Row| x.0 != project as int));
        }
    }

    /// Removes the row.
    pub fn remove(&mut self, project: ProjectId, key: &str, word: &str)
        ensures
            final(self)@ == old(self)@.remove((project as int, key@, word@)),
    {
        let ghost x = (project as int, key@, word@);
        let mut kept: Vec<Entry> = Vec::new();
        let mut i: usize = 0;
        while i < self.entries.len()
            invariant
                i <= self.entries@.len(),
                x == (project as int, key@, word@),
                forall|y: Row|
                    #[trigger] holds(kept@, y) == (y != x && holds(self.entries@.take(i as int), y)),
            decreases self.entries@.len() - i,
        {
            let e = &self.entries[i];
            let same = e.project == project && str_eq(e.key.as_str(), key) && str_eq(
                e.word.as_str(),
                word,
            );
            let ghost before = kept@;
            let ghost ei = entry_row(self.entries@[i as int]);
            if !same {
                kept.push(Entry { project: e.project, key: e.key.clone(), word: e.word.clone() });
                proof {
                    assert(kept@ =~= before.push(self.entries@[i as int]));
                }
            }
            proof {
                assert(self.entries@.take(i + 1) =~= self.entries@.take(i as int).push(
                    self.entries@[i as int],
                ));
                assert forall|y: Row|
                    #[trigger] holds(kept@, y) == (y != x && holds(self.entries@.take(i + 1), y)) by {
                    lemma_holds_push(self.entries@.take(i as int), self.entries@[i as int], y);
                    if !same {
                        lemma_holds_push(before, self.entries@[i as int], y);
                    }
                }
            }
            i = i + 1;
        }
        self.entries = kept;
        proof {
            assert(old(self).entries@.take(old(self).entries@.len() as int) =~= old(self).entries@);
            assert(self@ =~= old(self)@.remove(x));
        }
    }
}

/// Some entry of `es` has value `y`.
pub open spec fn holds(es: Seq<Entry>, y: Row) -> bool {
    exists|k: int| 0 <= k < es.len() && entry_row(#[trigger] es[k]) == y
}

proof fn lemma_holds_push(es: Seq<Entry>, e: Entry, y: Row)
    ensures
        holds(es.push(e), y) == (holds(es, y) || entry_row(e) == y),
{
    if holds(es, y) {
        let k = choose|k: int| 0 <= k < es.len() && entry_row(#[trigger] es[k]) == y;
        assert(es.push(e)[k] == es[k]);
    }
    if entry_row(e) == y {
        assert(es.push(e)[es.len() as int] == e);
    }
    if holds(es.push(e), y) {
        let k = choose|k: int| 0 <= k < es.push(e).len() && entry_row(#[trigger] es.push(e)[k]) == y;
        if k < es.len() {
            assert(es.push(e)[k] == es[k]);
        }
    }
}

} // verus!
