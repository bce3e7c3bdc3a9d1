//! How paths are written: their names, and what stands before them.

use crate::text::{ascii_lower, chars_of, same, spelled, text_of, to_ascii_lower};
use vstd::prelude::*;
use vstd::string::*;

verus! {

/// How paths are written.
#[derive(Debug, Clone, Copy, PartialEq, Eq, Structural)]
pub enum PathStyle {
    /// With `/` between the names.
    Unix,
    /// With `\` or `/` between the names, and perhaps a prefix before them.
    Windows,
}

/// What may stand before the names of a path.
#[derive(Debug, Clone, Copy, PartialEq, Eq, Structural)]
pub enum Prefix {
    /// A drive: `C:`.
    Drive,
    /// A share of a server, or a device: `\\server\share`, `\\.\device`.
    Share,
    /// What starts with `\\?\`: only `\` stands between the names behind it.
    Verbatim,
}

/// Whether a character stands between the names of a path.
pub open spec fn is_separator(style: PathStyle, c: char) -> bool {
    c == '/' || (style == PathStyle::Windows && c == '\\')
}

/// Whether a character stands between the names of a path.
pub fn separates(style: PathStyle, c: char) -> (r: bool)
    ensures
        r == is_separator(style, c),
{
    c == '/' || (style == PathStyle::Windows && c == '\\')
}

/// Whether a character stands between the names behind a prefix.
pub open spec fn parts_names(style: PathStyle, verbatim: bool, c: char) -> bool {
    if verbatim {
        c == '\\'
    } else {
        is_separator(style, c)
    }
}

/// Whether a character stands between the names behind a prefix.
fn is_between(style: PathStyle, verbatim: bool, c: char) -> (r: bool)
    ensures
        r == parts_names(style, verbatim, c),
{
    if verbatim {
        c == '\\'
    } else {
        separates(style, c)
    }
}

/// Where the name that starts at `from` ends.
pub open spec fn name_end(path: Seq<char>, verbatim: bool, from: int) -> int
    decreases path.len() - from,
{
    if from >= path.len() {
        path.len() as int
    } else if parts_names(PathStyle::Windows, verbatim, path[from]) {
        from
    } else {
        name_end(path, verbatim, from + 1)
    }
}

/// A name ends behind its start.
proof fn lemma_name_end(path: Seq<char>, verbatim: bool, from: int)
    ensures
        from <= path.len() ==> from <= name_end(path, verbatim, from),
        name_end(path, verbatim, from) <= path.len(),
    decreases path.len() - from,
{
    if from < path.len() {
        lemma_name_end(path, verbatim, from + 1);
    }
}

/// Where the name that starts at `from` ends.
fn end_of_name(path: &Vec<char>, verbatim: bool, from: usize) -> (r: usize)
    requires
        from <= path@.len(),
    ensures
        r == name_end(path@, verbatim, from as int),
        from <= r <= path@.len(),
{
    let mut i: usize = from;
    while i < path.len() && !is_between(PathStyle::Windows, verbatim, path[i])
        invariant
            from <= i <= path@.len(),
            name_end(path@, verbatim, from as int) == name_end(path@, verbatim, i as int),
        decreases path@.len() - i,
    {
        i += 1;
    }
    i
}

/// Whether a drive stands at a place of a path.
pub open spec fn is_drive_at(path: Seq<char>, at: int) -> bool {
    path.len() >= at + 2 && path[at + 1] == ':' && ('a' <= path[at] <= 'z' || 'A' <= path[at]
        <= 'Z')
}

/// Whether a drive stands at a place of a path.
fn drive_at(path: &Vec<char>, at: usize) -> (r: bool)
    requires
        at <= path@.len(),
    ensures
        r == is_drive_at(path@, at as int),
{
    path.len() - at >= 2 && path[at + 1] == ':' && (('a' <= path[at] && path[at] <= 'z') || ('A'
        <= path[at] && path[at] <= 'Z'))
}

/// Where a server and its share end, which start at `from`: behind the server alone where there
/// is no share.
pub open spec fn share_end(path: Seq<char>, verbatim: bool, from: int) -> int {
    let server = name_end(path, verbatim, from);
    let share = name_end(path, verbatim, server + 1);
    if server + 1 < share {
        share
    } else {
        server
    }
}

/// Where a server and its share end, which start at `from`; and whether there are both.
fn end_of_share(path: &Vec<char>, verbatim: bool, from: usize) -> (r: (usize, bool))
    requires
        from <= path@.len(),
    ensures
        r.0 == share_end(path@, verbatim, from as int),
        r.0 <= path@.len(),
        r.1 == ({
            let server = name_end(path@, verbatim, from as int);
            from < server && server < share_end(path@, verbatim, from as int)
        }),
{
    let server: usize = end_of_name(path, verbatim, from);
    if server == path.len() {
        return (server, false);
    }
    let share: usize = end_of_name(path, verbatim, server + 1);
    if server + 1 < share {
        (share, from < server)
    } else {
        (server, false)
    }
}

/// What stands before the names of a path, and where it ends. A prefix `\\?\` is written with
/// `\` alone.
pub open spec fn prefix_of(style: PathStyle, path: Seq<char>) -> Option<(Prefix, int)> {
    if style == PathStyle::Unix {
        None
    } else if path.len() >= 2 && is_separator(style, path[0]) && is_separator(style, path[1]) {
        let server = name_end(path, false, 2);
        let share = share_end(path, false, 2);
        if path.len() >= 4 && path[0] == '\\' && path[1] == '\\' && path[2] == '?' && path[3]
            == '\\' {
            if path.len() >= 8 && path[4] == 'U' && path[5] == 'N' && path[6] == 'C'
                && is_separator(style, path[7]) {
                Some((Prefix::Verbatim, share_end(path, true, 8)))
            } else if is_drive_at(path, 4) && (path.len() == 6 || is_separator(style, path[6])) {
                Some((Prefix::Verbatim, 6))
            } else {
                Some((Prefix::Verbatim, name_end(path, true, 4)))
            }
        } else if path.len() >= 4 && path[2] == '.' && is_separator(style, path[3]) {
            Some((Prefix::Share, name_end(path, false, 4)))
        } else if 2 < server && server < share {
            Some((Prefix::Share, share))
        } else {
            None
        }
    } else if is_drive_at(path, 0) {
        Some((Prefix::Drive, 2))
    } else {
        None
    }
}

/// A prefix is a part of its path.
proof fn lemma_prefix_len(style: PathStyle, path: Seq<char>)
    ensures
        prefix_of(style, path) matches Some((_, end)) ==> 2 <= end <= path.len(),
{
    lemma_name_end(path, true, 4);
    lemma_name_end(path, false, 4);
    lemma_name_end(path, true, 8);
    lemma_name_end(path, true, name_end(path, true, 8) + 1);
    lemma_name_end(path, false, 2);
    lemma_name_end(path, false, name_end(path, false, 2) + 1);
}

/// What stands before the names of a path, and where it ends.
fn find_prefix(style: PathStyle, path: &Vec<char>) -> (r: Option<(Prefix, usize)>)
    ensures
        match r {
            Some((kind, end)) => prefix_of(style, path@) == Some((kind, end as int)) && 2 <= end
                <= path@.len(),
            None => prefix_of(style, path@) is None,
        },
{
    proof {
        lemma_prefix_len(style, path@);
    }
    if style == PathStyle::Unix {
        return None;
    }
    let n: usize = path.len();
    if !(n >= 2 && separates(style, path[0]) && separates(style, path[1])) {
        if drive_at(path, 0) {
            return Some((Prefix::Drive, 2));
        }
        return None;
    }
    if n >= 4 && path[0] == '\\' && path[1] == '\\' && path[2] == '?' && path[3] == '\\' {
        if n >= 8 && path[4] == 'U' && path[5] == 'N' && path[6] == 'C' && separates(
            style,
            path[7],
        ) {
            return Some((Prefix::Verbatim, end_of_share(path, true, 8).0));
        }
        if drive_at(path, 4) && (n == 6 || separates(style, path[6])) {
            return Some((Prefix::Verbatim, 6));
        }
        return Some((Prefix::Verbatim, end_of_name(path, true, 4)));
    }
    if n >= 4 && path[2] == '.' && separates(style, path[3]) {
        return Some((Prefix::Share, end_of_name(path, false, 4)));
    }
    let (end, both) = end_of_share(path, false, 2);
    if both {
        Some((Prefix::Share, end))
    } else {
        None
    }
}

/// Whether what follows the prefix of a path is taken as it stands.
pub open spec fn is_verbatim(style: PathStyle, path: Seq<char>) -> bool {
    prefix_of(style, path) matches Some((Prefix::Verbatim, _))
}

/// Where the prefix of a path ends.
pub open spec fn prefix_end(style: PathStyle, path: Seq<char>) -> int {
    match prefix_of(style, path) {
        Some((_, end)) => end,
        None => 0,
    }
}

/// Whether a separator stands at the start of a path or behind its prefix.
pub open spec fn has_root(style: PathStyle, path: Seq<char>) -> bool {
    prefix_end(style, path) < path.len() && is_separator(style, path[prefix_end(style, path)])
}

/// What follows the prefix and the root of a path.
pub open spec fn body(style: PathStyle, path: Seq<char>) -> Seq<char> {
    if has_root(style, path) {
        path.skip(prefix_end(style, path) + 1)
    } else {
        path.skip(prefix_end(style, path))
    }
}

/// The names in a text, as far as separators stand behind them, and what follows them.
pub open spec fn split_names(style: PathStyle, verbatim: bool, text: Seq<char>) -> (
    Seq<Seq<char>>,
    Seq<char>,
)
    decreases text.len(),
{
    if text.len() == 0 {
        (Seq::empty(), Seq::empty())
    } else {
        let (names, rest) = split_names(style, verbatim, text.drop_last());
        if !parts_names(style, verbatim, text.last()) {
            (names, rest.push(text.last()))
        } else if rest.len() > 0 {
            (names.push(rest), Seq::empty())
        } else {
            (names, rest)
        }
    }
}

/// The names in a text: what stands between its separators.
pub open spec fn names_in(style: PathStyle, verbatim: bool, text: Seq<char>) -> Seq<Seq<char>> {
    let (names, rest) = split_names(style, verbatim, text);
    if rest.len() > 0 {
        names.push(rest)
    } else {
        names
    }
}

/// The names in the characters `from..`.
fn collect_names(style: PathStyle, verbatim: bool, chars: &Vec<char>, from: usize) -> (r: Vec<
    String,
>)
    requires
        from <= chars@.len(),
    ensures
        spelled(r@) == names_in(style, verbatim, chars@.skip(from as int)),
{
    let ghost text = chars@.skip(from as int);
    let mut names: Vec<String> = Vec::new();
    let mut start: usize = from;
    let mut i: usize = from;
    proof {
        assert(text.take(0) =~= Seq::<char>::empty());
        assert(spelled(names@) =~= Seq::<Seq<char>>::empty());
        assert(chars@.subrange(from as int, from as int) =~= Seq::<char>::empty());
    }
    while i < chars.len()
        invariant
            text == chars@.skip(from as int),
            from <= start <= i <= chars@.len(),
            split_names(style, verbatim, text.take(i - from)) == (
                spelled(names@),
                chars@.subrange(start as int, i as int),
            ),
        decreases chars@.len() - i,
    {
        let ghost had = names@;
        proof {
            assert(text.take(i + 1 - from).drop_last() =~= text.take(i - from));
            assert(text.take(i + 1 - from).last() == chars@[i as int]);
            assert(chars@.subrange(start as int, i as int).push(chars@[i as int])
                =~= chars@.subrange(start as int, i + 1));
            assert(chars@.subrange(i + 1, i + 1) =~= Seq::<char>::empty());
        }
        if is_between(style, verbatim, chars[i]) {
            if start < i {
                let name = text_of(chars, start, i);
                names.push(name);
                proof {
                    assert(spelled(names@) =~= spelled(had).push(name@));
                }
            } else {
                proof {
                    assert(chars@.subrange(start as int, i as int) =~= Seq::<char>::empty());
                }
            }
            start = i + 1;
        }
        i += 1;
    }
    proof {
        assert(text.take(i - from) =~= text);
    }
    let ghost had = names@;
    if start < i {
        let name = text_of(chars, start, i);
        names.push(name);
        proof {
            assert(spelled(names@) =~= spelled(had).push(name@));
        }
    }
    names
}

/// The names of a path; `.` and `..` count as names here.
pub open spec fn names_of(style: PathStyle, path: Seq<char>) -> Seq<Seq<char>> {
    names_in(style, is_verbatim(style, path), body(style, path))
}

/// A path taken apart.
struct Parts {
    prefix: Option<(Prefix, usize)>,
    root: bool,
    names: Vec<String>,
}

/// Takes a path apart.
fn parts_of(style: PathStyle, path: &Vec<char>) -> (r: Parts)
    ensures
        match r.prefix {
            Some((kind, end)) => prefix_of(style, path@) == Some((kind, end as int)) && end
                <= path@.len(),
            None => prefix_of(style, path@) is None,
        },
        r.root == has_root(style, path@),
        spelled(r.names@) == names_of(style, path@),
{
    let prefix = find_prefix(style, path);
    let (verbatim, end): (bool, usize) = match prefix {
        Some((kind, end)) => (kind == Prefix::Verbatim, end),
        None => (false, 0),
    };
    let root = end < path.len() && separates(style, path[end]);
    let names = collect_names(
        style,
        verbatim,
        path,
        if root {
            end + 1
        } else {
            end
        },
    );
    Parts { prefix, root, names }
}

/// The last of some names, without those that mean the directory itself, where it is a name in
/// the narrow sense.
pub open spec fn last_name(verbatim: bool, names: Seq<Seq<char>>) -> Option<Seq<char>>
    decreases names.len(),
{
    if names.len() == 0 || names.last() == ".."@ {
        None
    } else if names.last() != "."@ {
        Some(names.last())
    } else if verbatim {
        None
    } else {
        last_name(verbatim, names.drop_last())
    }
}

/// The last component of a path, where it is a name.
pub open spec fn file_name(style: PathStyle, path: Seq<char>) -> Option<Seq<char>> {
    last_name(is_verbatim(style, path), names_of(style, path))
}

/// The last component of a path, where it is a name.
pub fn path_file_name(style: PathStyle, path: &str) -> (r: Option<String>)
    ensures
        match r {
            Some(name) => file_name(style, path@) == Some(name@),
            None => file_name(style, path@) is None,
        },
{
    let parts = parts_of(style, &chars_of(path));
    let verbatim = match parts.prefix {
        Some((kind, _)) => kind == Prefix::Verbatim,
        None => false,
    };
    let names = parts.names;
    let ghost all = spelled(names@);
    let mut n: usize = names.len();
    proof {
        assert(all.take(n as int) =~= all);
    }
    while n > 0
        invariant
            n <= names@.len(),
            all == spelled(names@),
            verbatim == is_verbatim(style, path@),
            file_name(style, path@) == last_name(verbatim, all.take(n as int)),
        decreases n,
    {
        let name = names[n - 1].as_str();
        proof {
            assert(all.take(n as int).last() == name@);
            assert(all.take(n as int).drop_last() =~= all.take(n - 1));
        }
        if same(name, "..") {
            return None;
        }
        if !same(name, ".") {
            return Some(name.to_string());
        }
        if verbatim {
            return None;
        }
        n -= 1;
    }
    None
}

/// The names reached from some names by others: `.` stays, and `..` goes back by one name.
pub open spec fn descended(from: Seq<Seq<char>>, by: Seq<Seq<char>>) -> Seq<Seq<char>>
    decreases by.len(),
{
    if by.len() == 0 {
        from
    } else {
        let before = descended(from, by.drop_last());
        if by.last() == "."@ {
            before
        } else if by.last() != ".."@ {
            before.push(by.last())
        } else if before.len() > 0 && before.last() != "."@ && before.last() != ".."@ {
            before.drop_last()
        } else {
            before
        }
    }
}

/// The names reached from some names by others.
fn descend(from: Vec<String>, by: &Vec<String>) -> (r: Vec<String>)
    ensures
        spelled(r@) == descended(spelled(from@), spelled(by@)),
{
    let mut names = from;
    let ghost start = spelled(from@);
    let ghost all = spelled(by@);
    let mut i: usize = 0;
    while i < by.len()
        invariant
            i <= by@.len(),
            all == spelled(by@),
            spelled(names@) == descended(start, all.take(i as int)),
        decreases by@.len() - i,
    {
        let name = by[i].as_str();
        let ghost had = names@;
        proof {
            assert(all.take(i + 1).drop_last() =~= all.take(i as int));
            assert(all.take(i + 1).last() == name@);
        }
        if same(name, "..") {
            proof {
                reveal_strlit(".");
                reveal_strlit("..");
                assert(".."@.len() == 2 && "."@.len() == 1);
            }
            if names.len() > 0 {
                let last = names[names.len() - 1].as_str();
                proof {
                    assert(spelled(had).last() == last@);
                }
                if !same(last, ".") && !same(last, "..") {
                    let _ = names.pop();
                    proof {
                        assert(spelled(names@) =~= spelled(had).drop_last());
                    }
                }
            }
        } else if !same(name, ".") {
            names.push(name.to_string());
            proof {
                assert(spelled(names@) =~= spelled(had).push(name@));
            }
        }
        i += 1;
    }
    proof {
        assert(all.take(i as int) =~= all);
    }
    names
}

/// Names, each behind a `\`.
pub open spec fn backslashed(names: Seq<Seq<char>>) -> Seq<char>
    decreases names.len(),
{
    if names.len() == 0 {
        Seq::empty()
    } else {
        backslashed(names.drop_last()).push('\\') + names.last()
    }
}

/// A path below another, which has a verbatim prefix: the names are put together anew.
pub open spec fn joined_verbatim(base: Seq<char>, rel: Seq<char>) -> Seq<char> {
    let style = PathStyle::Windows;
    let prefix = base.take(prefix_end(style, base));
    let from = if has_root(style, rel) {
        Seq::empty()
    } else {
        names_of(style, base)
    };
    let names = descended(from, names_of(style, rel));
    if names.len() > 0 {
        prefix + backslashed(names)
    } else if has_root(style, base) || has_root(style, rel) {
        prefix.push('\\')
    } else {
        prefix
    }
}

/// What is put between the names of a path.
pub open spec fn main_separator(style: PathStyle) -> char {
    match style {
        PathStyle::Unix => '/',
        PathStyle::Windows => '\\',
    }
}

/// A path below another. One with a prefix of its own stands for itself; one that starts at the
/// root keeps the prefix of the other alone.
pub open spec fn joined(style: PathStyle, base: Seq<char>, rel: Seq<char>) -> Seq<char> {
    if prefix_of(style, rel) is Some {
        rel
    } else if is_verbatim(style, base) && rel.len() > 0 {
        joined_verbatim(base, rel)
    } else if has_root(style, rel) {
        base.take(prefix_end(style, base)) + rel
    } else if base.len() == 0 || is_separator(style, base.last()) || prefix_of(style, base) == Some(
        (Prefix::Drive, base.len() as int),
    ) {
        base + rel
    } else {
        base.push(main_separator(style)) + rel
    }
}

/// A path below another.
pub fn join(style: PathStyle, base: &str, rel: &str) -> (r: String)
    ensures
        r@ == joined(style, base@, rel@),
{
    let rel_chars = chars_of(rel);
    let base_chars = chars_of(base);
    let rel_parts = parts_of(style, &rel_chars);
    if rel_parts.prefix.is_some() {
        return rel.to_string();
    }
    let base_parts = parts_of(style, &base_chars);
    let (kind, end): (Option<Prefix>, usize) = match base_parts.prefix {
        Some((kind, end)) => (Some(kind), end),
        None => (None, 0),
    };
    proof {
        assert(base_chars@.subrange(0, end as int) =~= base@.take(end as int));
    }
    if kind == Some(Prefix::Verbatim) && rel_chars.len() > 0 {
        return join_verbatim(text_of(&base_chars, 0, end), base_parts, rel_parts);
    }
    if rel_parts.root {
        let mut out = text_of(&base_chars, 0, end);
        out.append(rel);
        return out;
    }
    let mut out = base.to_string();
    if base_chars.len() > 0 && !separates(style, base_chars[base_chars.len() - 1]) && !(kind
        == Some(Prefix::Drive) && end == base_chars.len()) {
        match style {
            PathStyle::Unix => out.push('/'),
            PathStyle::Windows => out.push('\\'),
        }
    }
    out.append(rel);
    out
}

/// A path below another, which has a verbatim prefix.
fn join_verbatim(prefix: String, base: Parts, rel: Parts) -> (r: String)
    ensures
        ({
            let from = if rel.root {
                Seq::empty()
            } else {
                spelled(base.names@)
            };
            let names = descended(from, spelled(rel.names@));
            r@ == if names.len() > 0 {
                prefix@ + backslashed(names)
            } else if base.root || rel.root {
                prefix@.push('\\')
            } else {
                prefix@
            }
        }),
{
    let root = base.root || rel.root;
    let from: Vec<String> = if rel.root {
        Vec::new()
    } else {
        base.names
    };
    proof {
        if rel.root {
            assert(spelled(from@) =~= Seq::<Seq<char>>::empty());
        }
    }
    let names = descend(from, &rel.names);
    let mut out = prefix;
    let ghost start = prefix@;
    let ghost all = spelled(names@);
    if names.len() == 0 {
        if root {
            out.push('\\');
        }
        return out;
    }
    let mut i: usize = 0;
    proof {
        assert(start + backslashed(all.take(0)) =~= start);
    }
    while i < names.len()
        invariant
            i <= names@.len(),
            all == spelled(names@),
            out@ == start + backslashed(all.take(i as int)),
        decreases names@.len() - i,
    {
        proof {
            assert(all.take(i + 1).drop_last() =~= all.take(i as int));
            assert(all.take(i + 1).last() == names@[i as int]@);
        }
        out.push('\\');
        out.append(names[i].as_str());
        i += 1;
        proof {
            assert(out@ =~= start + backslashed(all.take(i as int)));
        }
    }
    proof {
        assert(all.take(i as int) =~= all);
    }
    out
}

/// A character as it tells paths apart on Windows.
pub open spec fn folded(verbatim: bool, c: char) -> char {
    if c == '/' && !verbatim {
        '\\'
    } else {
        ascii_lower(c)
    }
}

/// What a path is found by. On Windows neither the separator that was chosen nor the case of ASCII
/// letters tells paths apart.
pub open spec fn path_key(style: PathStyle, path: Seq<char>) -> Seq<char> {
    match style {
        PathStyle::Unix => path,
        PathStyle::Windows => path.map_values(|c: char| folded(is_verbatim(style, path), c)),
    }
}

/// What a path is found by.
pub fn key_of(style: PathStyle, path: &str) -> (r: String)
    ensures
        r@ == path_key(style, path@),
{
    if style == PathStyle::Unix {
        return path.to_string();
    }
    let chars = chars_of(path);
    let verbatim = match find_prefix(style, &chars) {
        Some((kind, _)) => kind == Prefix::Verbatim,
        None => false,
    };
    let mut out = String::new();
    let mut i: usize = 0;
    proof {
        assert(out@ =~= path_key(style, path@).take(0));
    }
    while i < chars.len()
        invariant
            style == PathStyle::Windows,
            chars@ == path@,
            verbatim == is_verbatim(style, path@),
            i <= chars@.len(),
            out@ =~= path_key(style, path@).take(i as int),
        decreases chars@.len() - i,
    {
        if chars[i] == '/' && !verbatim {
            out.push('\\');
        } else {
            out.push(to_ascii_lower(chars[i]));
        }
        i += 1;
    }
    proof {
        assert(path_key(style, path@).take(i as int) =~= path_key(style, path@));
    }
    out
}

/// Whether a text is one name of a path, and nothing else.
pub open spec fn is_name(style: PathStyle, text: Seq<char>) -> bool {
    &&& text.len() > 0
    &&& forall|i: int| 0 <= i < text.len() ==> !is_separator(style, #[trigger] text[i])
    &&& style == PathStyle::Windows ==> forall|i: int|
        0 <= i < text.len() ==> #[trigger] text[i] != ':'
}

/// Without a verbatim prefix, a path that goes down by one name after the other is found as the
/// one that goes down by both at once with `/` between them.
pub proof fn law_names_join_in_steps(
    style: PathStyle,
    base: Seq<char>,
    a: Seq<char>,
    b: Seq<char>,
)
    requires
        is_name(style, a),
        is_name(style, b),
        !is_verbatim(style, base),
        !is_verbatim(style, joined(style, base, a)),
    ensures
        path_key(style, joined(style, joined(style, base, a), b)) == path_key(
            style,
            joined(style, base, a.push('/') + b),
        ),
{
    let rel = a.push('/') + b;
    let upper = joined(style, base, a);
    let lhs = joined(style, upper, b);
    let rhs = joined(style, base, rel);
    assert(rel[0] == a[0]);
    assert(a.len() == 1 ==> rel[1] == '/');
    assert(a.len() > 1 ==> rel[1] == a[1]);
    assert(prefix_of(style, a) is None);
    assert(prefix_of(style, b) is None);
    assert(prefix_of(style, rel) is None);
    assert(upper.last() == a.last());
    assert(a.last() == a[a.len() - 1]);
    lemma_prefix_len(style, upper);
    assert(prefix_of(style, upper) != Some((Prefix::Drive, upper.len() as int))) by {
        assert(upper.len() == 2 ==> upper[1] == a.last());
    }
    assert(lhs == upper.push(main_separator(style)) + b);
    assert(rhs =~= upper.push('/') + b);
    if style == PathStyle::Unix {
        assert(lhs =~= rhs);
    } else {
        let n = upper.len() as int;
        assert forall|i: int| 0 <= i < lhs.len() implies path_key(style, lhs)[i] == path_key(
            style,
            rhs,
        )[i] by {
            assert(lhs[0] == upper[0] && rhs[0] == upper[0]);
            if i > n {
                assert(lhs[i] == b[i - n - 1]);
            }
        }
        assert(path_key(style, lhs) =~= path_key(style, rhs));
    }
}

/// `/` stands between names everywhere, `\` on Windows too, and no other character does; behind a
/// verbatim prefix `\` alone does.
pub proof fn law_separators(style: PathStyle, c: char)
    ensures
        is_separator(PathStyle::Unix, c) <==> c == '/',
        is_separator(PathStyle::Windows, c) <==> c == '/' || c == '\\',
        parts_names(style, false, c) <==> is_separator(style, c),
        parts_names(style, true, c) <==> c == '\\',
        main_separator(PathStyle::Unix) == '/',
        main_separator(PathStyle::Windows) == '\\',
{
}

/// Without prefixes: a path that starts at the root stands for itself, and any other stands
/// behind its base, with one separator between them where the base has none at its end.
pub proof fn law_paths_below(base: Seq<char>, rel: Seq<char>)
    ensures
        rel.len() > 0 && rel[0] == '/' ==> joined(PathStyle::Unix, base, rel) == rel,
        base.len() == 0 ==> joined(PathStyle::Unix, base, rel) == rel,
        (rel.len() == 0 || rel[0] != '/') && base.len() > 0 && base.last() == '/' ==> joined(
            PathStyle::Unix,
            base,
            rel,
        ) == base + rel,
        (rel.len() == 0 || rel[0] != '/') && base.len() > 0 && base.last() != '/' ==> joined(
            PathStyle::Unix,
            base,
            rel,
        ) == base + seq!['/'] + rel,
{
    assert(base.take(0) + rel =~= rel);
    assert(Seq::<char>::empty() + rel =~= rel);
    assert(base.push('/') =~= base + seq!['/']);
    if base.len() == 0 {
        assert(base + rel =~= rel);
    }
}

/// On Windows a path with a drive of its own stands for itself, one that starts at the root keeps
/// the drive of its base, and any other stands behind it, with `\` between them where the base
/// ends neither with a separator nor with its drive.
pub proof fn law_paths_below_a_drive(letter: char, rest: Seq<char>, other: char, rel: Seq<char>)
    requires
        'a' <= letter <= 'z' || 'A' <= letter <= 'Z',
        'a' <= other <= 'z' || 'A' <= other <= 'Z',
    ensures
        ({
            let style = PathStyle::Windows;
            let base = seq![letter, ':'] + rest;
            let own = seq![other, ':'] + rel;
            &&& joined(style, base, own) == own
            &&& rel.len() > 0 && is_separator(style, rel[0]) && (rel.len() == 1 || !is_separator(
                style,
                rel[1],
            )) ==> joined(style, base, rel) == seq![letter, ':'] + rel
            &&& is_name(style, rel) && rest.len() > 0 && !is_separator(style, rest.last())
                ==> joined(style, base, rel) == base + seq!['\\'] + rel
            &&& is_name(style, rel) && (rest.len() == 0 || is_separator(style, rest.last()))
                ==> joined(style, base, rel) == base + rel
        }),
{
    let style = PathStyle::Windows;
    let base = seq![letter, ':'] + rest;
    let own = seq![other, ':'] + rel;
    assert(base[0] == letter && base[1] == ':');
    assert(own[0] == other && own[1] == ':');
    assert(is_drive_at(base, 0) && is_drive_at(own, 0));
    assert(base.take(2) =~= seq![letter, ':']);
    assert(base.push('\\') =~= base + seq!['\\']);
    if rest.len() > 0 {
        assert(base.last() == rest.last());
    }
}

/// A name behind a separator is one name more, and the last one.
pub proof fn law_one_name_more(style: PathStyle, verbatim: bool, text: Seq<char>, c: char, name: Seq<
    char,
>)
    requires
        parts_names(style, verbatim, c),
        name.len() > 0,
        forall|i: int| 0 <= i < name.len() ==> !parts_names(style, verbatim, #[trigger] name[i]),
    ensures
        names_in(style, verbatim, Seq::empty()).len() == 0,
        names_in(style, verbatim, text.push(c)) == names_in(style, verbatim, text),
        names_in(style, verbatim, text.push(c) + name) == names_in(style, verbatim, text).push(name),
{
    let all = text.push(c);
    assert(all.drop_last() =~= text);
    assert(names_in(style, verbatim, all) =~= names_in(style, verbatim, text));
    lemma_split_behind(style, verbatim, all, name);
}

/// Characters of a name behind names that are complete are what follows them.
proof fn lemma_split_behind(style: PathStyle, verbatim: bool, all: Seq<char>, name: Seq<char>)
    requires
        split_names(style, verbatim, all).1.len() == 0,
        forall|i: int| 0 <= i < name.len() ==> !parts_names(style, verbatim, #[trigger] name[i]),
    ensures
        split_names(style, verbatim, all + name) == (split_names(style, verbatim, all).0, name),
    decreases name.len(),
{
    if name.len() == 0 {
        assert(all + name =~= all);
        assert(split_names(style, verbatim, all).1 =~= name);
    } else {
        let head = name.drop_last();
        assert forall|i: int| 0 <= i < head.len() implies !parts_names(
            style,
            verbatim,
            #[trigger] head[i],
        ) by {
            assert(head[i] == name[i]);
        }
        lemma_split_behind(style, verbatim, all, head);
        assert((all + name).drop_last() =~= all + head);
        assert((all + name).last() == name[name.len() - 1]);
        assert(head.push(name.last()) =~= name);
    }
}

/// The last component of names is the last one that does not mean the directory itself; going up
/// is no name. Behind a verbatim prefix nothing is passed over.
pub proof fn law_last_component(names: Seq<Seq<char>>, name: Seq<char>, verbatim: bool)
    ensures
        last_name(verbatim, Seq::empty()) is None,
        last_name(verbatim, names.push(".."@)) is None,
        last_name(false, names.push("."@)) == last_name(false, names),
        last_name(true, names.push("."@)) is None,
        name != "."@ && name != ".."@ ==> last_name(verbatim, names.push(name)) == Some(name),
{
    reveal_strlit(".");
    reveal_strlit("..");
    assert("."@.len() == 1 && ".."@.len() == 2);
    assert(names.push("."@).drop_last() =~= names);
}

/// Going down by a name adds it, going up takes the last name away again, and `.` stays.
pub proof fn law_going_down_and_up(from: Seq<Seq<char>>, by: Seq<Seq<char>>, name: Seq<char>)
    ensures
        descended(from, Seq::empty()) == from,
        descended(from, by.push("."@)) == descended(from, by),
        name != "."@ && name != ".."@ ==> descended(from, by.push(name)) == descended(from, by).push(
            name,
        ) && descended(from, by.push(name).push(".."@)) == descended(from, by),
        descended(Seq::empty(), seq![".."@]).len() == 0,
{
    reveal_strlit(".");
    reveal_strlit("..");
    assert("."@.len() == 1 && ".."@.len() == 2);
    assert(by.push("."@).drop_last() =~= by);
    assert(by.push(name).drop_last() =~= by);
    assert(by.push(name).push(".."@).drop_last() =~= by.push(name));
    assert(seq![".."@].drop_last() =~= Seq::<Seq<char>>::empty());
    assert(seq![".."@].last() == ".."@);
    assert(descended(Seq::empty(), Seq::<Seq<char>>::empty()).len() == 0);
    if name != "."@ && name != ".."@ {
        let down = descended(from, by).push(name);
        assert(by.push(name).last() == name);
        assert(descended(from, by.push(name)) == down);
        assert(by.push(name).push(".."@).last() == ".."@);
        assert(down.last() == name);
        assert(down.drop_last() =~= descended(from, by));
    }
}

/// A name more below a verbatim prefix stands behind a `\`.
pub proof fn law_names_behind_backslashes(names: Seq<Seq<char>>, name: Seq<char>)
    ensures
        backslashed(Seq::empty()).len() == 0,
        backslashed(names.push(name)) == backslashed(names) + seq!['\\'] + name,
{
    assert(names.push(name).drop_last() =~= names);
    assert(backslashed(names).push('\\') =~= backslashed(names) + seq!['\\']);
}

/// Each character tells paths apart everywhere but on Windows; there the case of an ASCII letter
/// does not, nor, without a verbatim prefix, which of the separators was chosen.
pub proof fn law_what_tells_paths_apart(path: Seq<char>, c: char)
    ensures
        path_key(PathStyle::Unix, path) == path,
        path_key(PathStyle::Windows, path).len() == path.len(),
        forall|i: int|
            0 <= i < path.len() ==> #[trigger] path_key(PathStyle::Windows, path)[i] == folded(
                is_verbatim(PathStyle::Windows, path),
                path[i],
            ),
        folded(false, '/') == folded(false, '\\'),
        folded(true, '/') != folded(true, '\\'),
        'a' <= c <= 'z' ==> folded(false, c) == c && folded(true, c) == c,
        'A' <= c <= 'Z' ==> folded(false, c) as u32 == c as u32 + 32 && folded(true, c) as u32
            == c as u32 + 32,
        c != '/' && !('A' <= c <= 'Z') ==> folded(false, c) == c && folded(true, c) == c,
{
}

/// Only on Windows does anything stand before the names: a letter and a colon at the start, or
/// what starts with two separators.
pub proof fn law_prefixes(path: Seq<char>)
    ensures
        prefix_of(PathStyle::Unix, path) is None,
        prefix_of(PathStyle::Windows, path) is Some ==> path.len() >= 2 && (path[1] == ':' || (
        is_separator(PathStyle::Windows, path[0]) && is_separator(PathStyle::Windows, path[1]))),
        path.len() >= 2 && path[1] == ':' && ('a' <= path[0] <= 'z' || 'A' <= path[0] <= 'Z')
            ==> prefix_of(PathStyle::Windows, path) == Some((Prefix::Drive, 2int)),
        is_verbatim(PathStyle::Windows, path) <==> path.len() >= 4 && path[0] == '\\' && path[1]
            == '\\' && path[2] == '?' && path[3] == '\\',
{
}

/// The end of a name is the first separator behind its start, or the end of the path.
pub proof fn law_names_end_at_separators(path: Seq<char>, verbatim: bool, from: int)
    requires
        0 <= from <= path.len(),
    ensures
        ({
            let end = name_end(path, verbatim, from);
            &&& from <= end <= path.len()
            &&& end < path.len() ==> parts_names(PathStyle::Windows, verbatim, path[end])
            &&& forall|i: int|
                from <= i < end ==> !parts_names(
                    PathStyle::Windows,
                    verbatim,
                    #[trigger] path[i],
                )
        }),
    decreases path.len() - from,
{
    if from < path.len() && !parts_names(PathStyle::Windows, verbatim, path[from]) {
        law_names_end_at_separators(path, verbatim, from + 1);
    }
}

/// Where a name ends that is followed by a separator or by nothing.
proof fn lemma_name_ends_at(path: Seq<char>, verbatim: bool, from: int, end: int)
    requires
        0 <= from <= end <= path.len(),
        end < path.len() ==> parts_names(PathStyle::Windows, verbatim, path[end]),
        forall|i: int|
            from <= i < end ==> !parts_names(PathStyle::Windows, verbatim, #[trigger] path[i]),
    ensures
        name_end(path, verbatim, from) == end,
    decreases end - from,
{
    if from < end {
        lemma_name_ends_at(path, verbatim, from + 1, end);
    }
}

/// What follows the prefix and the root: on Unix the path without the `/` at its start, behind a
/// drive what follows it without the separator there.
pub proof fn law_what_follows_the_root(letter: char, rest: Seq<char>)
    requires
        'a' <= letter <= 'z' || 'A' <= letter <= 'Z',
    ensures
        body(PathStyle::Unix, seq!['/'] + rest) == rest,
        rest.len() == 0 || rest[0] != '/' ==> body(PathStyle::Unix, rest) == rest,
        body(PathStyle::Windows, seq![letter, ':', '\\'] + rest) == rest,
        rest.len() == 0 || !is_separator(PathStyle::Windows, rest[0]) ==> body(
            PathStyle::Windows,
            seq![letter, ':'] + rest,
        ) == rest,
{
    let a = seq!['/'] + rest;
    assert(a[0] == '/');
    assert(a.skip(1) =~= rest);
    assert(rest.skip(0) =~= rest);
    let b = seq![letter, ':', '\\'] + rest;
    assert(b[0] == letter && b[1] == ':' && b[2] == '\\');
    assert(is_drive_at(b, 0));
    assert(b.skip(3) =~= rest);
    let c = seq![letter, ':'] + rest;
    assert(c[0] == letter && c[1] == ':');
    assert(is_drive_at(c, 0));
    if rest.len() > 0 {
        assert(c[2] == rest[0]);
    }
    assert(c.skip(2) =~= rest);
}

/// Whether a text can stand between two separators.
pub open spec fn stands_between(text: Seq<char>, verbatim: bool) -> bool {
    text.len() > 0 && forall|i: int|
        0 <= i < text.len() ==> !parts_names(PathStyle::Windows, verbatim, #[trigger] text[i])
}

/// A server and its share stand before the names of a path, with two separators in front of them
/// and one between them.
pub proof fn law_shares(server: Seq<char>, share: Seq<char>, rest: Seq<char>)
    requires
        stands_between(server, false),
        stands_between(share, false),
        server != seq!['.'],
        server != seq!['?'],
        rest.len() == 0 || is_separator(PathStyle::Windows, rest[0]),
    ensures
        ({
            let head = seq!['\\', '\\'] + server + seq!['\\'] + share;
            prefix_of(PathStyle::Windows, head + rest) == Some((Prefix::Share, head.len() as int))
        }),
{
    let head = seq!['\\', '\\'] + server + seq!['\\'] + share;
    let path = head + rest;
    let m = 2 + server.len() as int;
    let n = head.len() as int;
    assert(path[0] == '\\' && path[1] == '\\');
    assert(path[m] == '\\');
    assert forall|i: int| 2 <= i < m implies !parts_names(
        PathStyle::Windows,
        false,
        #[trigger] path[i],
    ) by {
        assert(path[i] == server[i - 2]);
    }
    assert forall|i: int| m < i < n implies !parts_names(
        PathStyle::Windows,
        false,
        #[trigger] path[i],
    ) by {
        assert(path[i] == share[i - m - 1]);
    }
    if rest.len() > 0 {
        assert(path[n] == rest[0]);
    }
    lemma_name_ends_at(path, false, 2, m);
    lemma_name_ends_at(path, false, m + 1, n);
    assert(path[2] == server[0]);
    if server.len() == 1 {
        assert(server =~= seq![server[0]]);
    } else {
        assert(path[3] == server[1]);
    }
}

/// What stands behind `\\?\` up to the next `\` is a prefix as it is, a drive and a share of a
/// server among it.
pub proof fn law_verbatim_prefixes(
    letter: char,
    name: Seq<char>,
    server: Seq<char>,
    share: Seq<char>,
    rest: Seq<char>,
)
    requires
        'a' <= letter <= 'z' || 'A' <= letter <= 'Z',
        stands_between(name, true),
        name.len() > 3,
        forall|i: int|
            0 <= i < name.len() ==> #[trigger] name[i] != '/',
        stands_between(server, true),
        stands_between(share, true),
        rest.len() == 0 || rest[0] == '\\',
    ensures
        ({
            let mark = seq!['\\', '\\', '?', '\\'];
            let drive = mark + seq![letter, ':'];
            let unc = mark + seq!['U', 'N', 'C', '\\'] + server + seq!['\\'] + share;
            &&& prefix_of(PathStyle::Windows, drive + rest) == Some((Prefix::Verbatim, 6int))
            &&& prefix_of(PathStyle::Windows, unc + rest) == Some(
                (Prefix::Verbatim, unc.len() as int),
            )
            &&& prefix_of(PathStyle::Windows, mark + name + rest) == Some(
                (Prefix::Verbatim, 4 + name.len() as int),
            )
        }),
{
    let style = PathStyle::Windows;
    let mark = seq!['\\', '\\', '?', '\\'];
    let a = mark + seq![letter, ':'] + rest;
    assert(a[0] == '\\' && a[1] == '\\' && a[2] == '?' && a[3] == '\\' && a[4] == letter && a[5]
        == ':');
    if rest.len() > 0 {
        assert(a[6] == '\\');
    }
    assert(is_drive_at(a, 4));
    let unc = mark + seq!['U', 'N', 'C', '\\'] + server + seq!['\\'] + share;
    let b = unc + rest;
    let m = 8 + server.len() as int;
    let n = unc.len() as int;
    assert(b[0] == '\\' && b[1] == '\\' && b[2] == '?' && b[3] == '\\' && b[4] == 'U' && b[5] == 'N'
        && b[6] == 'C' && b[7] == '\\');
    assert(b[m] == '\\');
    assert forall|i: int| 8 <= i < m implies !parts_names(style, true, #[trigger] b[i]) by {
        assert(b[i] == server[i - 8]);
    }
    assert forall|i: int| m < i < n implies !parts_names(style, true, #[trigger] b[i]) by {
        assert(b[i] == share[i - m - 1]);
    }
    if rest.len() > 0 {
        assert(b[n] == rest[0]);
    }
    lemma_name_ends_at(b, true, 8, m);
    lemma_name_ends_at(b, true, m + 1, n);
    let c = mark + name + rest;
    let k = 4 + name.len() as int;
    assert(c[0] == '\\' && c[1] == '\\' && c[2] == '?' && c[3] == '\\');
    assert forall|i: int| 4 <= i < k implies !parts_names(style, true, #[trigger] c[i]) && c[i]
        != '/' by {
        assert(c[i] == name[i - 4]);
    }
    if rest.len() > 0 {
        assert(c[k] == rest[0]);
    }
    lemma_name_ends_at(c, true, 4, k);
    assert(!is_separator(style, c[7]));
    assert(!is_separator(style, c[6]));
}

/// A device is a prefix too: what stands behind `\\.\` up to the next separator.
pub proof fn law_devices(name: Seq<char>, rest: Seq<char>)
    requires
        stands_between(name, false),
        rest.len() == 0 || is_separator(PathStyle::Windows, rest[0]),
    ensures
        prefix_of(PathStyle::Windows, seq!['\\', '\\', '.', '\\'] + name + rest) == Some(
            (Prefix::Share, 4 + name.len() as int),
        ),
{
    let path = seq!['\\', '\\', '.', '\\'] + name + rest;
    let k = 4 + name.len() as int;
    assert(path[0] == '\\' && path[1] == '\\' && path[2] == '.' && path[3] == '\\');
    assert forall|i: int| 4 <= i < k implies !parts_names(
        PathStyle::Windows,
        false,
        #[trigger] path[i],
    ) by {
        assert(path[i] == name[i - 4]);
    }
    if rest.len() > 0 {
        assert(path[k] == rest[0]);
    }
    lemma_name_ends_at(path, false, 4, k);
}

/// Below a verbatim prefix a name stands behind the names of the base, each behind a `\`; and
/// going up takes the last of them away.
pub proof fn law_below_a_verbatim_prefix(base: Seq<char>, name: Seq<char>)
    requires
        is_verbatim(PathStyle::Windows, base),
        is_name(PathStyle::Windows, name),
        name != "."@,
        name != ".."@,
    ensures
        ({
            let style = PathStyle::Windows;
            let prefix = base.take(prefix_end(style, base));
            let names = names_of(style, base);
            &&& joined(style, base, name) == prefix + backslashed(names) + seq!['\\'] + name
            &&& names.len() > 1 && names.last() != "."@ && names.last() != ".."@ ==> joined(
                style,
                base,
                seq!['.', '.'],
            ) == prefix + backslashed(names.drop_last())
        }),
{
    let style = PathStyle::Windows;
    let prefix = base.take(prefix_end(style, base));
    let names = names_of(style, base);
    lemma_names_of_a_name(name);
    law_going_down_and_up(names, Seq::empty(), name);
    assert(Seq::<Seq<char>>::empty().push(name) =~= seq![name]);
    law_names_behind_backslashes(names, name);
    assert(joined(style, base, name) =~= prefix + backslashed(names) + seq!['\\'] + name);
    reveal_strlit(".");
    reveal_strlit("..");
    let up = seq!['.', '.'];
    assert(".."@ =~= up);
    assert("."@.len() == 1);
    lemma_names_of_a_name(up);
    if names.len() > 1 && names.last() != "."@ && names.last() != ".."@ {
        assert(seq![up].drop_last() =~= Seq::<Seq<char>>::empty());
        assert(seq![up].last() == ".."@);
        assert(descended(names, Seq::empty()) == names);
        assert(descended(names, seq![up]) == names.drop_last());
    }
}

/// A text without separators and colons is its own only name, without a prefix or a root.
proof fn lemma_names_of_a_name(name: Seq<char>)
    requires
        is_name(PathStyle::Windows, name),
    ensures
        prefix_of(PathStyle::Windows, name) is None,
        !has_root(PathStyle::Windows, name),
        names_of(PathStyle::Windows, name) == seq![name],
{
    let style = PathStyle::Windows;
    assert(!is_separator(style, name[0]));
    if name.len() > 1 {
        assert(name[1] != ':');
    }
    assert(prefix_of(style, name) is None);
    assert(name.skip(0) =~= name);
    lemma_split_behind(style, false, Seq::empty(), name);
    assert(Seq::<char>::empty() + name =~= name);
    assert(split_names(style, false, name).0.len() == 0);
    assert(names_of(style, name) =~= seq![name]);
}

/// Below a verbatim prefix a path that starts at the root keeps the prefix alone; and without any
/// names only the prefix is left, with its root where it has one.
pub proof fn law_root_of_a_verbatim_prefix(base: Seq<char>, name: Seq<char>)
    requires
        is_verbatim(PathStyle::Windows, base),
        is_name(PathStyle::Windows, name),
        name != "."@,
        name != ".."@,
    ensures
        ({
            let style = PathStyle::Windows;
            let prefix = base.take(prefix_end(style, base));
            &&& joined(style, base, seq!['\\'] + name) == prefix + seq!['\\'] + name
            &&& names_of(style, base).len() == 0 && has_root(style, base) ==> joined(
                style,
                base,
                seq!['.'],
            ) == prefix + seq!['\\']
            &&& names_of(style, base).len() == 0 && !has_root(style, base) ==> joined(
                style,
                base,
                seq!['.'],
            ) == prefix
        }),
{
    let style = PathStyle::Windows;
    let prefix = base.take(prefix_end(style, base));
    let rooted = seq!['\\'] + name;
    assert(rooted[0] == '\\' && rooted[1] == name[0]);
    assert(!is_separator(style, name[0]));
    assert(prefix_of(style, rooted) is None);
    assert(rooted.skip(1) =~= name);
    lemma_names_of_a_name(name);
    assert(name.skip(0) =~= name);
    assert(names_of(style, rooted) == seq![name]);
    law_going_down_and_up(Seq::empty(), Seq::empty(), name);
    assert(Seq::<Seq<char>>::empty().push(name) =~= seq![name]);
    law_names_behind_backslashes(Seq::empty(), name);
    assert(Seq::<char>::empty() + seq!['\\'] + name =~= seq!['\\'] + name);
    assert(joined(style, base, rooted) =~= prefix + seq!['\\'] + name);
    reveal_strlit(".");
    let here = seq!['.'];
    assert("."@ =~= here);
    lemma_names_of_a_name(here);
    let none = names_of(style, base);
    assert(Seq::<Seq<char>>::empty().push(here) =~= seq![here]);
    law_going_down_and_up(none, Seq::empty(), here);
    assert(prefix.push('\\') =~= prefix + seq!['\\']);
}

} // verus!
