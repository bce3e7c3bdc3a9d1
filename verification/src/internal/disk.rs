//! What stands on the disk, as far as it was looked at.

use crate::internal::env::{self, EnvVars};
use crate::internal::path::{join, joined, key_of, path_key, PathStyle};
use crate::text::same;
use vstd::prelude::*;
use vstd::string::*;

verus! {

/// What stands at a path.
#[derive(Debug, Clone, Copy, PartialEq, Eq, Structural)]
pub enum PathKind {
    Missing,
    File,
    Directory,
    /// Something else, such as a device.
    Other,
}

/// What stood at some paths when they were looked at. Each is held by what it is found by.
#[derive(Debug)]
pub struct PathTable {
    style: PathStyle,
    entries: Vec<(String, PathKind)>,
    contents: EnvVars,
}

/// What a list of findings says under a key, a later finding replacing an earlier one; nothing
/// stands at a path that is not on the list.
pub open spec fn kind_in(entries: Seq<(String, PathKind)>, key: Seq<char>) -> PathKind
    decreases entries.len(),
{
    if entries.len() == 0 {
        PathKind::Missing
    } else if entries.last().0@ == key {
        entries.last().1
    } else {
        kind_in(entries.drop_last(), key)
    }
}

impl PathTable {
    /// What stands at a path.
    pub closed spec fn at(&self, path: Seq<char>) -> PathKind {
        kind_in(self.entries@, path_key(self.style, path))
    }

    /// How its paths are written.
    pub closed spec fn spec_style(&self) -> PathStyle {
        self.style
    }

    /// How its paths are written.
    #[verifier::when_used_as_spec(spec_style)]
    pub fn style(&self) -> (r: PathStyle)
        ensures
            r == self.spec_style(),
    {
        self.style
    }

    /// Whether two paths are found by the same key.
    pub open spec fn same_path(&self, a: Seq<char>, b: Seq<char>) -> bool {
        path_key(self.spec_style(), a) == path_key(self.spec_style(), b)
    }

    /// A path below another.
    pub open spec fn joined(&self, base: Seq<char>, rel: Seq<char>) -> Seq<char> {
        joined(self.spec_style(), base, rel)
    }

    /// A path below another.
    pub fn join(&self, base: &str, rel: &str) -> (r: String)
        ensures
            r@ == self.joined(base@, rel@),
    {
        join(self.style, base, rel)
    }

    /// Whether anything stands at a path.
    pub open spec fn has(&self, path: Seq<char>) -> bool {
        self.at(path) != PathKind::Missing
    }

    /// The text of the file at a path, where it was read.
    pub closed spec fn text(&self, path: Seq<char>) -> Option<Seq<char>> {
        env::var_of(self.contents@, path_key(self.style, path))
    }

    /// An empty disk.
    pub fn new(style: PathStyle) -> (r: Self)
        ensures
            r.style() == style,
            forall|path: Seq<char>| #[trigger] r.at(path) == PathKind::Missing,
            forall|path: Seq<char>| (#[trigger] r.text(path)) is None,
    {
        PathTable { style, entries: Vec::new(), contents: EnvVars::new() }
    }

    /// Notes the text of the file at a path.
    pub fn note_text(&mut self, path: &str, text: &str)
        ensures
            final(self).style() == old(self).style(),
            forall|p: Seq<char>| #[trigger] final(self).at(p) == old(self).at(p),
            forall|p: Seq<char>|
                #[trigger] final(self).text(p) == if old(self).same_path(p, path@) {
                    Some(text@)
                } else {
                    old(self).text(p)
                },
    {
        let key = key_of(self.style, path);
        self.contents.set(key.as_str(), text);
    }

    /// The text of the file at a path, where it was read.
    pub fn read(&self, path: &str) -> (r: Option<String>)
        ensures
            match r {
                Some(text) => self.text(path@) == Some(text@),
                None => self.text(path@) is None,
            },
    {
        let key = key_of(self.style, path);
        self.contents.get(key.as_str())
    }

    /// Notes what stands at a path.
    pub fn note(&mut self, path: &str, kind: PathKind)
        ensures
            final(self).style() == old(self).style(),
            forall|p: Seq<char>|
                #[trigger] final(self).at(p) == if old(self).same_path(p, path@) {
                    kind
                } else {
                    old(self).at(p)
                },
            forall|p: Seq<char>| #[trigger] final(self).text(p) == old(self).text(p),
    {
        let ghost before = self.entries@;
        let key = key_of(self.style, path);
        self.entries.push((key, kind));
        proof {
            assert(self.entries@.drop_last() =~= before);
        }
    }

    /// What stands at a path.
    pub fn kind(&self, path: &str) -> (r: PathKind)
        ensures
            r == self.at(path@),
    {
        let key = key_of(self.style, path);
        let mut i: usize = self.entries.len();
        proof {
            assert(self.entries@.take(i as int) =~= self.entries@);
        }
        while i > 0
            invariant
                i <= self.entries@.len(),
                self.at(path@) == kind_in(self.entries@.take(i as int), key@),
            decreases i,
        {
            proof {
                assert(self.entries@.take(i as int).drop_last() =~= self.entries@.take(i - 1));
            }
            if same(self.entries[i - 1].0.as_str(), key.as_str()) {
                return self.entries[i - 1].1;
            }
            i -= 1;
        }
        PathKind::Missing
    }

    /// Whether anything stands at a path.
    pub fn holds(&self, path: &str) -> (r: bool)
        ensures
            r == self.has(path@),
    {
        self.kind(path) != PathKind::Missing
    }

    /// Whether a directory stands at a path.
    pub fn is_dir(&self, path: &str) -> (r: bool)
        ensures
            r == (self.at(path@) == PathKind::Directory),
    {
        self.kind(path) == PathKind::Directory
    }

    /// Whether a file stands at a path.
    pub fn is_file(&self, path: &str) -> (r: bool)
        ensures
            r == (self.at(path@) == PathKind::File),
    {
        self.kind(path) == PathKind::File
    }
}

/// What configuration is read from: the environment, the disk and the current directory.
#[derive(Debug)]
pub struct Host {
    pub vars: EnvVars,
    pub disk: PathTable,
    /// The current directory, where it is known.
    pub cwd: Option<String>,
}

/// A variable names a path at which nothing stands.
#[derive(Debug)]
pub struct MissingPath {
    pub key: String,
    pub path: String,
}

impl MissingPath {
    /// The error in words.
    pub fn message(&self) -> (r: String)
        ensures
            r@ == self.key@ + " not found: "@ + self.path@,
    {
        let mut out = self.key.clone();
        out.append(" not found: ");
        out.append(self.path.as_str());
        out
    }
}

impl Host {
    /// The path under `key`, which must exist where it is set.
    pub fn path_opt(&self, key: &str) -> (r: Result<Option<String>, MissingPath>)
        ensures
            match env::text_var(self.vars@, key@) {
                None => r matches Ok(None),
                Some(path) => if self.disk.has(path) {
                    r matches Ok(Some(p)) && p@ == path
                } else {
                    r matches Err(e) && e.key@ == key@ && e.path@ == path
                },
            },
    {
        match env::string(&self.vars, key) {
            None => Ok(None),
            Some(path) => if self.disk.holds(path.as_str()) {
                Ok(Some(path))
            } else {
                Err(MissingPath { key: key.to_string(), path })
            },
        }
    }
}

/// The last finding at a path counts; findings at others do not.
pub proof fn law_last_finding_counts(
    entries: Seq<(String, PathKind)>,
    entry: (String, PathKind),
    key: Seq<char>,
)
    ensures
        kind_in(Seq::empty(), key) == PathKind::Missing,
        entry.0@ == key ==> kind_in(entries.push(entry), key) == entry.1,
        entry.0@ != key ==> kind_in(entries.push(entry), key) == kind_in(entries, key),
{
    assert(entries.push(entry).drop_last() =~= entries);
}

/// A path is found by itself; by no other with `/` alone between the names, and by those that
/// differ in the case of ASCII letters or in the separators on Windows.
pub proof fn law_same_paths(disk: PathTable, a: Seq<char>, b: Seq<char>)
    ensures
        disk.same_path(a, a),
        disk.same_path(a, b) == disk.same_path(b, a),
        disk.spec_style() == PathStyle::Unix ==> (disk.same_path(a, b) <==> a == b),
        disk.same_path(a, b) ==> a.len() == b.len() && disk.at(a) == disk.at(b),
{
    let style = disk.spec_style();
    if style == PathStyle::Windows {
        assert(path_key(style, a).len() == a.len());
        assert(path_key(style, b).len() == b.len());
    }
}

/// Something stands at a path exactly where it is not missing.
pub proof fn law_something_stands_there(disk: PathTable, path: Seq<char>)
    ensures
        disk.has(path) <==> disk.at(path) == PathKind::File || disk.at(path) == PathKind::Directory
            || disk.at(path) == PathKind::Other,
{
}

} // verus!
