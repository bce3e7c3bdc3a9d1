//! Finding a model among several places.

use crate::internal::disk::{PathKind, PathTable};
use crate::text::spelled;
use vstd::prelude::*;
use vstd::string::*;

verus! {

/// Nothing was found at any of the places tried.
#[derive(Debug)]
pub struct NotFound {
    /// What was looked for.
    pub label: String,
    /// The paths tried, in order.
    pub tried: Vec<String>,
}

/// The paths, each in back quotes, with commas between them.
pub open spec fn quoted(paths: Seq<Seq<char>>) -> Seq<char>
    decreases paths.len(),
{
    if paths.len() == 0 {
        Seq::empty()
    } else if paths.len() == 1 {
        "`"@ + paths[0] + "`"@
    } else {
        quoted(paths.drop_last()) + ", `"@ + paths.last() + "`"@
    }
}

impl NotFound {
    /// The error in words.
    pub fn message(&self) -> (r: String)
        ensures
            r@ == self.label@ + " not found (tried: "@ + quoted(spelled(self.tried@)) + ")"@,
    {
        let mut out = self.label.clone();
        out.append(" not found (tried: ");
        let ghost head = out@;
        let ghost all = spelled(self.tried@);
        let mut i: usize = 0;
        proof {
            assert(all.take(0) =~= Seq::<Seq<char>>::empty());
            assert(head + quoted(all.take(0)) =~= head);
        }
        while i < self.tried.len()
            invariant
                all == spelled(self.tried@),
                i <= self.tried@.len(),
                out@ == head + quoted(all.take(i as int)),
            decreases self.tried@.len() - i,
        {
            proof {
                assert(all.take(i + 1).drop_last() =~= all.take(i as int));
                assert(all.take(i + 1).last() == self.tried@[i as int]@);
            }
            if i > 0 {
                out.append(", `");
            } else {
                out.append("`");
            }
            out.append(self.tried[i].as_str());
            out.append("`");
            i += 1;
            proof {
                assert(out@ =~= head + quoted(all.take(i as int)));
            }
        }
        proof {
            assert(all.take(i as int) =~= all);
        }
        out.append(")");
        out
    }
}

/// The candidates below `base`.
pub open spec fn below(disk: PathTable, base: Seq<char>, candidates: Seq<&str>) -> Seq<Seq<char>> {
    candidates.map_values(|c: &str| disk.joined(base, c@))
}

/// The names below `base`.
pub open spec fn below_all(disk: PathTable, base: Seq<char>, names: Seq<Seq<char>>) -> Seq<
    Seq<char>,
> {
    names.map_values(|n: Seq<char>| disk.joined(base, n))
}

/// The first of the paths at which such a thing stands.
pub open spec fn first_of_kind(disk: PathTable, paths: Seq<Seq<char>>, kind: PathKind) -> Option<
    Seq<char>,
>
    decreases paths.len(),
{
    if paths.len() == 0 {
        None
    } else if disk.at(paths[0]) == kind {
        Some(paths[0])
    } else {
        first_of_kind(disk, paths.skip(1), kind)
    }
}

/// The first candidate below `base` of that kind.
fn find(disk: &PathTable, base: &str, candidates: &Vec<&str>, kind: PathKind) -> (r: Option<String>)
    ensures
        match r {
            Some(path) => first_of_kind(*disk, below(*disk, base@, candidates@), kind) == Some(path@),
            None => first_of_kind(*disk, below(*disk, base@, candidates@), kind) is None,
        },
{
    let ghost all = below(*disk, base@, candidates@);
    let mut i: usize = 0;
    proof {
        assert(all.skip(0) =~= all);
    }
    while i < candidates.len()
        invariant
            all == below(*disk, base@, candidates@),
            i <= candidates@.len(),
            first_of_kind(*disk, all, kind) == first_of_kind(*disk, all.skip(i as int), kind),
        decreases candidates@.len() - i,
    {
        let path = disk.join(base, candidates[i]);
        proof {
            assert(all.skip(i as int)[0] == path@);
            assert(all.skip(i as int).skip(1) =~= all.skip(i + 1));
        }
        if disk.kind(path.as_str()) == kind {
            return Some(path);
        }
        i += 1;
    }
    None
}

/// The paths that are tried.
fn tried_paths(disk: &PathTable, base: &str, candidates: &Vec<&str>) -> (r: Vec<String>)
    ensures
        spelled(r@) == below(*disk, base@, candidates@),
{
    let mut out: Vec<String> = Vec::new();
    let mut i: usize = 0;
    while i < candidates.len()
        invariant
            i <= candidates@.len(),
            spelled(out@) =~= below(*disk, base@, candidates@.take(i as int)),
        decreases candidates@.len() - i,
    {
        let ghost had = out@;
        out.push(disk.join(base, candidates[i]));
        proof {
            assert(spelled(out@) =~= spelled(had).push(out@.last()@));
            assert(below(*disk, base@, candidates@.take(i + 1)) =~= below(*disk, 
                base@,
                candidates@.take(i as int),
            ).push(disk.joined(base@, candidates@[i as int]@)));
        }
        i += 1;
    }
    proof {
        assert(candidates@.take(i as int) =~= candidates@);
    }
    out
}

/// Whether `r` is the first candidate of that kind, or the error that names all candidates.
pub open spec fn located(
    r: Result<String, NotFound>,
    disk: PathTable,
    base: Seq<char>,
    label: Seq<char>,
    candidates: Seq<&str>,
    kind: PathKind,
) -> bool {
    match first_of_kind(disk, below(disk, base, candidates), kind) {
        Some(path) => r matches Ok(p) && p@ == path,
        None => r matches Err(e) && e.label@ == label && spelled(e.tried@) == below(
            disk,
            base,
            candidates,
        ),
    }
}

/// The first candidate below `root` that is a directory.
pub fn first_existing_dir(
    disk: &PathTable,
    root: &str,
    label: &str,
    candidates: &Vec<&str>,
) -> (r: Result<String, NotFound>)
    ensures
        located(r, *disk, root@, label@, candidates@, PathKind::Directory),
{
    match find(disk, root, candidates, PathKind::Directory) {
        Some(path) => Ok(path),
        None => Err(NotFound { label: label.to_string(), tried: tried_paths(disk, root, candidates) }),
    }
}

/// The first candidate below `base` that is a file.
pub fn first_existing_file(
    disk: &PathTable,
    base: &str,
    label: &str,
    candidates: &Vec<&str>,
) -> (r: Result<String, NotFound>)
    ensures
        located(r, *disk, base@, label@, candidates@, PathKind::File),
{
    match find(disk, base, candidates, PathKind::File) {
        Some(path) => Ok(path),
        None => Err(NotFound { label: label.to_string(), tried: tried_paths(disk, base, candidates) }),
    }
}

/// Whether `r` is the first name below `base` that is a file, or the error that names them all.
pub open spec fn file_located(
    r: Result<String, NotFound>,
    disk: PathTable,
    base: Seq<char>,
    label: Seq<char>,
    names: Seq<Seq<char>>,
) -> bool {
    match first_of_kind(disk, below_all(disk, base, names), PathKind::File) {
        Some(path) => r matches Ok(p) && p@ == path,
        None => r matches Err(e) && e.label@ == label && spelled(e.tried@) == below_all(
            disk,
            base,
            names,
        ),
    }
}

/// The first of several names below `base` that is a file.
pub fn first_existing_file_rel(
    disk: &PathTable,
    base: &str,
    label: &str,
    candidates: &Vec<String>,
) -> (r: Result<String, NotFound>)
    ensures
        file_located(r, *disk, base@, label@, spelled(candidates@)),
{
    let mut names: Vec<&str> = Vec::new();
    let mut i: usize = 0;
    while i < candidates.len()
        invariant
            i <= candidates@.len(),
            names@.len() == i,
            forall|k: int| 0 <= k < i ==> (#[trigger] names@[k])@ == candidates@[k]@,
        decreases candidates@.len() - i,
    {
        names.push(candidates[i].as_str());
        i += 1;
    }
    proof {
        assert(below(*disk, base@, names@) =~= below_all(*disk, base@, spelled(candidates@)));
    }
    first_existing_file(disk, base, label, &names)
}

/// The first candidate below `base` that is a file, if one is.
pub fn optional_existing_file_rel(disk: &PathTable, base: &str, candidates: &Vec<&str>) -> (r:
    Option<String>)
    ensures
        match r {
            Some(path) => first_of_kind(*disk, below(*disk, base@, candidates@), PathKind::File) == Some(
                path@,
            ),
            None => first_of_kind(*disk, below(*disk, base@, candidates@), PathKind::File) is None,
        },
{
    find(disk, base, candidates, PathKind::File)
}

/// What is found stands on the disk, and nothing before it does; what is not found stands at none
/// of the places.
pub proof fn law_first_of_kind(disk: PathTable, paths: Seq<Seq<char>>, kind: PathKind)
    ensures
        match first_of_kind(disk, paths, kind) {
            Some(path) => exists|i: int|
                0 <= i < paths.len() && #[trigger] paths[i] == path && disk.at(path) == kind && (
                forall|j: int| 0 <= j < i ==> disk.at(#[trigger] paths[j]) != kind),
            None => forall|j: int| 0 <= j < paths.len() ==> disk.at(#[trigger] paths[j]) != kind,
        },
    decreases paths.len(),
{
    if paths.len() > 0 && disk.at(paths[0]) != kind {
        let rest = paths.skip(1);
        law_first_of_kind(disk, rest, kind);
        match first_of_kind(disk, rest, kind) {
            Some(path) => {
                let i = choose|i: int|
                    0 <= i < rest.len() && #[trigger] rest[i] == path && disk.at(path) == kind && (
                    forall|j: int| 0 <= j < i ==> disk.at(#[trigger] rest[j]) != kind);
                assert(paths[i + 1] == path);
                assert forall|j: int| 0 <= j < i + 1 implies disk.at(#[trigger] paths[j])
                    != kind by {
                    if j > 0 {
                        assert(rest[j - 1] == paths[j]);
                    }
                }
            },
            None => {
                assert forall|j: int| 0 <= j < paths.len() implies disk.at(#[trigger] paths[j])
                    != kind by {
                    if j > 0 {
                        assert(rest[j - 1] == paths[j]);
                    }
                }
            },
        }
    } else if paths.len() > 0 {
        assert(paths[0] == paths[0]);
    }
}

/// Whether `found` is the first of some paths at which such a thing stands: it does there, and at
/// none before it; or, where nothing is found, at none of them.
pub open spec fn is_first(
    found: Option<Seq<char>>,
    disk: PathTable,
    paths: Seq<Seq<char>>,
    kind: PathKind,
) -> bool {
    match found {
        Some(path) => exists|i: int|
            0 <= i < paths.len() && #[trigger] paths[i] == path && disk.at(path) == kind && (
            forall|j: int| 0 <= j < i ==> disk.at(#[trigger] paths[j]) != kind),
        None => forall|j: int| 0 <= j < paths.len() ==> disk.at(#[trigger] paths[j]) != kind,
    }
}

/// The candidates stand below the base, each by its name, in their order.
pub proof fn law_candidates_stand_below(
    disk: PathTable,
    base: Seq<char>,
    candidates: Seq<&str>,
    names: Seq<Seq<char>>,
    i: int,
)
    ensures
        below(disk, base, candidates).len() == candidates.len(),
        0 <= i < candidates.len() ==> below(disk, base, candidates)[i] == disk.joined(
            base,
            candidates[i]@,
        ),
        below_all(disk, base, names).len() == names.len(),
        0 <= i < names.len() ==> below_all(disk, base, names)[i] == disk.joined(base, names[i]),
{
}

/// Whoever finds nothing names what was looked for and every place, in their order.
pub proof fn law_what_was_tried(
    r: Result<String, NotFound>,
    disk: PathTable,
    base: Seq<char>,
    label: Seq<char>,
    candidates: Seq<&str>,
    names: Seq<Seq<char>>,
    kind: PathKind,
)
    ensures
        located(r, disk, base, label, candidates, kind) ==> {
            &&& r matches Ok(path) ==> disk.at(path@) == kind
            &&& r is Err <==> forall|i: int|
                0 <= i < candidates.len() ==> disk.at(
                    disk.joined(base, (#[trigger] candidates[i])@),
                ) != kind
            &&& r matches Err(e) ==> {
                &&& e.label@ == label
                &&& e.tried@.len() == candidates.len()
                &&& forall|i: int|
                    0 <= i < candidates.len() ==> (#[trigger] e.tried@[i])@ == disk.joined(
                        base,
                        candidates[i]@,
                    )
            }
        },
        file_located(r, disk, base, label, names) ==> {
            &&& r matches Ok(path) ==> disk.at(path@) == PathKind::File
            &&& r is Err <==> forall|i: int|
                0 <= i < names.len() ==> disk.at(disk.joined(base, #[trigger] names[i]))
                    != PathKind::File
            &&& r matches Err(e) ==> {
                &&& e.label@ == label
                &&& e.tried@.len() == names.len()
                &&& forall|i: int|
                    0 <= i < names.len() ==> (#[trigger] e.tried@[i])@ == disk.joined(
                        base,
                        names[i],
                    )
            }
        },
{
    let paths = below(disk, base, candidates);
    law_first_of_kind(disk, paths, kind);
    assert forall|i: int| 0 <= i < paths.len() implies #[trigger] paths[i] == disk.joined(
        base,
        candidates[i]@,
    ) by {}
    if located(r, disk, base, label, candidates, kind) {
        if let Err(e) = r {
            assert forall|i: int| 0 <= i < candidates.len() implies (#[trigger] e.tried@[i])@
                == disk.joined(base, candidates[i]@) by {
                assert(spelled(e.tried@)[i] == paths[i]);
            }
            assert(spelled(e.tried@).len() == e.tried@.len());
            assert forall|i: int| 0 <= i < candidates.len() implies disk.at(
                disk.joined(base, (#[trigger] candidates[i])@),
            ) != kind by {
                assert(disk.at(paths[i]) != kind);
            }
        } else {
            let path = r->Ok_0@;
            let i = choose|i: int|
                0 <= i < paths.len() && #[trigger] paths[i] == path && disk.at(path) == kind && (
                forall|j: int| 0 <= j < i ==> disk.at(#[trigger] paths[j]) != kind);
            assert(disk.joined(base, candidates[i]@) == path);
        }
    }
    let all = below_all(disk, base, names);
    law_first_of_kind(disk, all, PathKind::File);
    if file_located(r, disk, base, label, names) {
        if let Err(e) = r {
            assert forall|i: int| 0 <= i < names.len() implies (#[trigger] e.tried@[i])@
                == disk.joined(base, names[i]) by {
                assert(spelled(e.tried@)[i] == all[i]);
            }
            assert(spelled(e.tried@).len() == e.tried@.len());
            assert forall|i: int| 0 <= i < names.len() implies disk.at(
                disk.joined(base, #[trigger] names[i]),
            ) != PathKind::File by {
                assert(disk.at(all[i]) != PathKind::File);
            }
        } else {
            let path = r->Ok_0@;
            let i = choose|i: int|
                0 <= i < all.len() && #[trigger] all[i] == path && disk.at(path) == PathKind::File
                    && (forall|j: int| 0 <= j < i ==> disk.at(#[trigger] all[j]) != PathKind::File);
            assert(disk.joined(base, names[i]) == path);
        }
    }
}

/// One path more is put in back quotes behind the others, a comma between them.
pub proof fn law_quoting(paths: Seq<Seq<char>>, path: Seq<char>)
    ensures
        quoted(Seq::empty()).len() == 0,
        quoted(seq![path]) == seq!['`'] + path + seq!['`'],
        paths.len() > 0 ==> quoted(paths.push(path)) == quoted(paths) + seq![',', ' ', '`'] + path
            + seq!['`'],
{
    reveal_strlit("`");
    reveal_strlit(", `");
    assert("`"@ =~= seq!['`']);
    assert(", `"@ =~= seq![',', ' ', '`']);
    assert(paths.push(path).drop_last() =~= paths);
    assert(seq![path][0] == path);
}

} // verus!
