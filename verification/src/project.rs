//! Projects and the paths of their files.
use vstd::prelude::*;

use crate::error::Error;

verus! {

/// The identifier of a project in a repository.
pub type ProjectId = i32;

/// What std's `Path::file_name` gives for a path: its last normal component
/// (as text), or `None` when the path ends in `..` or has no component.
pub uninterp spec fn path_file_name(path: Seq<char>) -> Option<Seq<char>>;

/// What `pathdiff::diff_paths(path, base)` gives: a relative path that leads
/// from `base` to `path` (as text), or `None` when there is none.
pub uninterp spec fn path_diff(path: Seq<char>, base: Seq<char>) -> Option<Seq<char>>;

/// Calls std's `Path::file_name` on `path` and turns the result into a
/// `String`; the contract only names the result.
#[verifier::external_body]
fn file_name_of(path: &str) -> (r: Option<String>)
    ensures
        match r {
            Some(s) => path_file_name(path@) == Some(s@),
            None => path_file_name(path@) is None,
        },
{
    std::path::Path::new(path).file_name().map(|f| f.to_string_lossy().into_owned())
}

/// Calls `pathdiff::diff_paths(path, base)` and turns the result into a
/// `String`; the contract only names the result.
#[verifier::external_body]
fn diff_paths(path: &str, base: &str) -> (r: Option<String>)
    ensures
        match r {
            Some(s) => path_diff(path@, base@) == Some(s@),
            None => path_diff(path@, base@) is None,
        },
{
    pathdiff::diff_paths(path, base).map(|p| p.to_string_lossy().into_owned())
}

/// The last component of a path, as std's `Path::file_name` gives it.
pub fn file_name(path: &str) -> (r: Option<String>)
    ensures
        match path_file_name(path@) {
            Some(f) => r matches Some(s) && s@ == f,
            None => r is None,
        },
{
    file_name_of(path)
}

/// Index of the last `.` of `s`, if any.
pub open spec fn last_dot(s: Seq<char>) -> Option<int> {
    if exists|i: int| 0 <= i < s.len() && #[trigger] s[i] == '.' {
        Some(
            choose|i: int|
                0 <= i < s.len() && #[trigger] s[i] == '.' && forall|k: int|
                    i < k < s.len() ==> #[trigger] s[k] != '.',
        )
    } else {
        None
    }
}

/// The extension of a file name, as std's `Path::extension` defines it: what
/// follows the last `.`, unless there is no `.` or the only one starts the
/// name.
pub open spec fn extension_of(name: Seq<char>) -> Option<Seq<char>> {
    match last_dot(name) {
        Some(i) => if i > 0 {
            Some(name.skip(i + 1))
        } else {
            None
        },
        None => None,
    }
}

/// `base` joined with `rel`, as std's `PathBuf::push` does it on Unix: an
/// absolute `rel` replaces `base`, and a separator is added when `base` does
/// not end with one.
pub open spec fn join_path(base: Seq<char>, rel: Seq<char>) -> Seq<char> {
    if rel.len() > 0 && rel[0] == '/' {
        rel
    } else if base.len() == 0 {
        rel
    } else if base.last() == '/' {
        base + rel
    } else {
        base + seq!['/'] + rel
    }
}

/// The extension of a file name, computed as `extension_of` states it.
pub fn extension(name: &str) -> (r: Option<String>)
    ensures
        match extension_of(name@) {
            Some(e) => r matches Some(s) && s@ == e,
            None => r is None,
        },
{
    let n = name.unicode_len();
    let mut i: usize = n;
    while i > 0
        invariant
            n == name@.len(),
            i <= n,
            forall|k: int| i <= k < n ==> #[trigger] name@[k] != '.',
        decreases i,
    {
        if name.get_char(i - 1) == '.' {
            let ghost d = (i - 1) as int;
            proof {
                assert(0 <= d < name@.len() && name@[d] == '.');
                let j = last_dot(name@)->0;
                assert(last_dot(name@) is Some);
                if j < d {
                    assert(name@[d] != '.');
                } else if j > d {
                    assert(name@[j] != '.');
                }
            }
            if i - 1 == 0 {
                return None;
            }
            let e = name.substring_char(i, n);
            assert(e@ =~= name@.skip(i as int));
            return Some(String::from_str(e));
        }
        i = i - 1;
    }
    proof {
        if last_dot(name@) is Some {
            let j = choose|j: int| 0 <= j < name@.len() && #[trigger] name@[j] == '.';
            assert(name@[j] != '.');
        }
    }
    None
}

/// `base` joined with `rel`.
pub fn join(base: &str, rel: &str) -> (r: String)
    ensures
        r@ == join_path(base@, rel@),
{
    let rn = rel.unicode_len();
    if rn > 0 && rel.get_char(0) == '/' {
        return String::from_str(rel);
    }
    let bn = base.unicode_len();
    if bn == 0 {
        return String::from_str(rel);
    }
    if base.get_char(bn - 1) == '/' {
        return String::from_str(base).concat(rel);
    }
    let sep = "/";
    proof {
        reveal_strlit("/");
    }
    String::from_str(base).concat(sep).concat(rel)
}

/// The path of a project: a canonical path, as the file system gave it.
pub struct ProjectPath {
    path: String,
}

impl View for ProjectPath {
    type V = Seq<char>;

    closed spec fn view(&self) -> Seq<char> {
        self.path@
    }
}

impl ProjectPath {
    /// A project path from the canonical form of a path.
    pub fn new(canonical_path: &str) -> (r: Self)
        ensures
            r@ == canonical_path@,
    {
        ProjectPath { path: String::from_str(canonical_path) }
    }

    /// The path as text.
    pub fn as_str(&self) -> (r: &str)
        ensures
            r@ == self@,
    {
        self.path.as_str()
    }

    /// A copy of the path.
    pub fn clone(&self) -> (r: Self)
        ensures
            r@ == self@,
    {
        ProjectPath { path: self.path.clone() }
    }

    /// The full path of a file of the project.
    pub fn join(&self, relative_path: &RelativePath) -> (r: String)
        ensures
            r@ == join_path(self@, relative_path@),
    {
        join(self.path.as_str(), relative_path.as_str())
    }
}

/// The path of a file relative to the root of its project.
pub struct RelativePath {
    path: String,
}

impl View for RelativePath {
    type V = Seq<char>;

    closed spec fn view(&self) -> Seq<char> {
        self.path@
    }
}

impl RelativePath {
    /// The path of `canonical_source` (a canonical path) relative to the
    /// project; an error when `pathdiff` finds no such path.
    pub fn new(project_path: &ProjectPath, canonical_source: &str) -> (r: Result<Self, Error>)
        ensures
            match path_diff(canonical_source@, project_path@) {
                Some(d) => r matches Ok(p) && p@ == d,
                None => r matches Err(Error::CannotDiffPaths(a, b)) && a@ == canonical_source@
                    && b@ == project_path@,
            },
    {
        match diff_paths(canonical_source, project_path.as_str()) {
            Some(d) => Ok(RelativePath { path: d }),
            None => Err(
                Error::CannotDiffPaths(
                    String::from_str(canonical_source),
                    String::from_str(project_path.as_str()),
                ),
            ),
        }
    }

    /// A relative path from its text.
    pub fn from_text(path: &str) -> (r: Self)
        ensures
            r@ == path@,
    {
        RelativePath { path: String::from_str(path) }
    }

    /// The path as text.
    pub fn as_str(&self) -> (r: &str)
        ensures
            r@ == self@,
    {
        self.path.as_str()
    }

    /// The last component of the path.
    pub fn file_name(&self) -> (r: Option<String>)
        ensures
            match path_file_name(self@) {
                Some(f) => r matches Some(s) && s@ == f,
                None => r is None,
            },
    {
        file_name_of(self.path.as_str())
    }

    /// The extension of the file name of the path.
    pub fn extension(&self) -> (r: Option<String>)
        ensures
            match path_file_name(self@) {
                Some(f) => match extension_of(f) {
                    Some(e) => r matches Some(s) && s@ == e,
                    None => r is None,
                },
                None => r is None,
            },
    {
        match self.file_name() {
            Some(f) => extension(f.as_str()),
            None => None,
        }
    }
}

/// A project known to a repository: its identifier and its path.
pub struct Project {
    id: ProjectId,
    path: ProjectPath,
}

impl Project {
    /// A project from its identifier and its path.
    pub fn new(id: ProjectId, path: ProjectPath) -> (r: Self)
        ensures
            r.id() == id,
            r.path()@ == path@,
    {
        Project { id, path }
    }

    /// The identifier of the project.
    pub closed spec fn id_spec(&self) -> ProjectId {
        self.id
    }

    /// The identifier of the project.
    #[verifier::when_used_as_spec(id_spec)]
    pub fn id(&self) -> (r: ProjectId)
        ensures
            r == self.id_spec(),
    {
        self.id
    }

    /// The path of the project.
    pub closed spec fn path_spec(&self) -> &ProjectPath {
        &self.path
    }

    /// The path of the project.
    #[verifier::when_used_as_spec(path_spec)]
    pub fn path(&self) -> (r: &ProjectPath)
        ensures
            r == self.path_spec(),
    {
        &self.path
    }

    /// A copy of the project.
    pub fn clone(&self) -> (r: Self)
        ensures
            r.id() == self.id(),
            r.path()@ == self.path()@,
    {
        Project { id: self.id, path: self.path.clone() }
    }

    /// The path of `canonical_source` relative to the project.
    pub fn as_relative_path(&self, canonical_source: &str) -> (r: Result<RelativePath, Error>)
        ensures
            match path_diff(canonical_source@, self.path()@) {
                Some(d) => r matches Ok(p) && p@ == d,
                None => r is Err,
            },
    {
        RelativePath::new(&self.path, canonical_source)
    }
}

} // verus!
