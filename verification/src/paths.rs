//! Relative paths as the manifests write them: parts separated by `/`, where
//! empty parts and `.` behind the start of the path count for nothing.

use vstd::prelude::*;

use crate::text::{chars_of, join2, join3, lowered, str_eq, string_between};

verus! {

/// Where the parts begin: behind a leading `/`, or behind a leading `.` that is
/// a part of its own.
pub open spec fn body_start(p: Seq<char>) -> int {
    if p.len() > 0 && p[0] == '/' {
        1
    } else if p.len() > 0 && p[0] == '.' && (p.len() == 1 || p[1] == '/') {
        1
    } else {
        0
    }
}

/// The index behind the last `/` of `p[from..end]`, or `from`.
pub open spec fn part_start(p: Seq<char>, from: int, end: int) -> int
    decreases end - from,
{
    if end <= from {
        from
    } else if p[end - 1] == '/' {
        end
    } else {
        part_start(p, from, end - 1)
    }
}

/// Whether `p[t..end]` is empty or `.`.
pub open spec fn is_idle(p: Seq<char>, t: int, end: int) -> bool {
    t == end || (t + 1 == end && p[t] == '.')
}

/// The index of the slash in front of the part that starts at `t`, or `from`.
pub open spec fn before_part(from: int, t: int) -> int {
    if t > from {
        t - 1
    } else {
        from
    }
}

/// The end of the last part of `p[..end]` that is neither empty nor `.`, or
/// `from` where there is none.
pub open spec fn last_end(p: Seq<char>, from: int, end: int) -> int
    decreases end - from,
{
    if end <= from {
        from
    } else {
        let t = part_start(p, from, end);
        if is_idle(p, t, end) && before_part(from, t) < end {
            last_end(p, from, before_part(from, t))
        } else {
            end
        }
    }
}

/// The last part of a path, where it is a name: not missing, and not `..`.
pub open spec fn file_name(p: Seq<char>) -> Option<Seq<char>> {
    let from = body_start(p);
    let end = last_end(p, from, p.len() as int);
    let name = p.subrange(part_start(p, from, end), end);
    if end == from || name == ".."@ {
        None
    } else {
        Some(name)
    }
}

/// The path without its last part; empty where there is no part to leave out.
pub open spec fn directory(p: Seq<char>) -> Seq<char> {
    let from = body_start(p);
    let end = last_end(p, from, p.len() as int);
    if end == from {
        Seq::empty()
    } else {
        p.take(last_end(p, from, before_part(from, part_start(p, from, end))))
    }
}

pub proof fn lemma_part_start(p: Seq<char>, from: int, end: int)
    requires
        0 <= from <= end <= p.len(),
    ensures
        from <= part_start(p, from, end) <= end,
    decreases end - from,
{
    if end > from && p[end - 1] != '/' {
        lemma_part_start(p, from, end - 1);
    }
}

pub proof fn lemma_last_end(p: Seq<char>, from: int, end: int)
    requires
        0 <= from <= end <= p.len(),
    ensures
        from <= last_end(p, from, end) <= end,
    decreases end - from,
{
    if end > from {
        lemma_part_start(p, from, end);
        let t = part_start(p, from, end);
        if is_idle(p, t, end) && before_part(from, t) < end {
            lemma_last_end(p, from, before_part(from, t));
        }
    }
}

/// The directory of a file has a shorter path.
pub proof fn directory_is_shorter(p: Seq<char>)
    requires
        file_name(p) is Some,
    ensures
        directory(p).len() < p.len(),
{
    let from = body_start(p);
    let end = last_end(p, from, p.len() as int);
    lemma_last_end(p, from, p.len() as int);
    lemma_part_start(p, from, end);
    let at = before_part(from, part_start(p, from, end));
    lemma_last_end(p, from, at);
    assert(part_start(p, from, end) < end) by {
        lemma_last_part(p, from, p.len() as int);
    }
}

/// The last part that counts is not empty.
proof fn lemma_last_part(p: Seq<char>, from: int, end: int)
    requires
        0 <= from <= end <= p.len(),
        last_end(p, from, end) > from,
    ensures
        part_start(p, from, last_end(p, from, end)) < last_end(p, from, end),
    decreases end - from,
{
    lemma_part_start(p, from, end);
    let t = part_start(p, from, end);
    if is_idle(p, t, end) && before_part(from, t) < end {
        lemma_last_part(p, from, before_part(from, t));
    }
}

fn find_body_start(v: &Vec<char>) -> (r: usize)
    ensures
        r == body_start(v@),
        r <= v@.len(),
{
    if v.len() > 0 && v[0] == '/' {
        1
    } else if v.len() > 0 && v[0] == '.' && (v.len() == 1 || v[1] == '/') {
        1
    } else {
        0
    }
}

fn find_part_start(v: &Vec<char>, from: usize, end: usize) -> (t: usize)
    requires
        from <= end <= v@.len(),
    ensures
        t == part_start(v@, from as int, end as int),
        from <= t <= end,
{
    let mut t: usize = end;
    while t > from && v[t - 1] != '/'
        invariant
            from <= t <= end <= v@.len(),
            part_start(v@, from as int, end as int) == part_start(v@, from as int, t as int),
        decreases t,
    {
        t = t - 1;
    }
    t
}

fn find_last_end(v: &Vec<char>, from: usize, end: usize) -> (r: usize)
    requires
        from <= end <= v@.len(),
    ensures
        r == last_end(v@, from as int, end as int),
        from <= r <= end,
    decreases end,
{
    if end == from {
        return from;
    }
    let t: usize = find_part_start(v, from, end);
    if t == end || (end - t == 1 && v[t] == '.') {
        let next: usize = if t > from {
            t - 1
        } else {
            from
        };
        find_last_end(v, from, next)
    } else {
        end
    }
}

/// The last part of a path, where it is a name.
pub fn path_file_name(path: &str) -> (r: Option<String>)
    ensures
        crate::text::opt_view(r) == file_name(path@),
{
    let v = chars_of(path);
    let from = find_body_start(&v);
    let end = find_last_end(&v, from, v.len());
    let start = find_part_start(&v, from, end);
    let name = string_between(&v, start, end);
    if end == from || str_eq(name.as_str(), "..") {
        None
    } else {
        Some(name)
    }
}

/// The path without its last part.
pub fn path_directory(path: &str) -> (r: String)
    ensures
        r@ == directory(path@),
{
    let v = chars_of(path);
    let from = find_body_start(&v);
    let end = find_last_end(&v, from, v.len());
    if end == from {
        return String::new();
    }
    let start = find_part_start(&v, from, end);
    let next: usize = if start > from {
        start - 1
    } else {
        from
    };
    let cut = find_last_end(&v, from, next);
    let r = string_between(&v, 0, cut);
    assert(r@ =~= path@.take(cut as int));
    r
}

/// A directory and a name below it.
pub open spec fn child(dir: Seq<char>, name: Seq<char>) -> Seq<char> {
    if dir.len() == 0 {
        name
    } else if dir.last() == '/' {
        dir + name
    } else {
        dir + "/"@ + name
    }
}

pub fn path_child(dir: &str, name: &str) -> (r: String)
    ensures
        r@ == child(dir@, name@),
{
    match crate::text::last_char(dir) {
        None => name.to_owned(),
        Some(c) => if c == '/' {
            join2(dir, name)
        } else {
            join3(dir, "/", name)
        },
    }
}

/// What stands behind the last dot of a name, unless that dot is its first
/// character.
pub open spec fn name_extension(name: Seq<char>) -> Option<Seq<char>> {
    match crate::text::split_at_last(name, '.') {
        Some((stem, ext)) => if stem.len() > 0 {
            Some(ext)
        } else {
            None
        },
        None => None,
    }
}

/// The extension of the last part of a path.
pub open spec fn extension(p: Seq<char>) -> Option<Seq<char>> {
    match file_name(p) {
        Some(name) => name_extension(name),
        None => None,
    }
}

pub fn path_extension(path: &str) -> (r: Option<String>)
    ensures
        crate::text::opt_view(r) == extension(path@),
{
    match path_file_name(path) {
        None => None,
        Some(name) => match crate::text::str_rsplit_once(name.as_str(), '.') {
            None => None,
            Some((stem, ext)) => if chars_of(stem.as_str()).len() > 0 {
                Some(ext)
            } else {
                None
            },
        },
    }
}

/// The path has the extension `expected`, up to ASCII case.
pub open spec fn has_extension(p: Seq<char>, expected: Seq<char>) -> bool {
    match extension(p) {
        Some(ext) => lowered(ext) == lowered(expected),
        None => false,
    }
}

/// Whether a path has an extension, up to ASCII case.
pub fn extension_eq_str(path: &str, expected: &str) -> (r: bool)
    ensures
        r == has_extension(path@, expected@),
{
    match path_extension(path) {
        Some(ext) => crate::text::str_eq_ignore_case(ext.as_str(), expected),
        None => false,
    }
}

proof fn lemma_part_has_no_separator(p: Seq<char>, from: int, end: int)
    requires
        0 <= from <= end <= p.len(),
    ensures
        forall|i: int| part_start(p, from, end) <= i < end ==> p[i] != '/',
    decreases end - from,
{
    if end > from && p[end - 1] != '/' {
        lemma_part_has_no_separator(p, from, end - 1);
    }
}

// ---------------------------------------------------------------------------
// What paths are made of
// ---------------------------------------------------------------------------

/// A file has its name and its directory below which it stands, and a name its ending
/// behind the last dot that does not begin it.
pub proof fn children_have_their_names(dir: Seq<char>, name: Seq<char>)
    requires
        dir.len() > 0,
        dir.last() != '/',
        dir.last() != '.',
        name.len() > 0,
        !name.contains('/'),
        name != "."@,
        name != ".."@,
    ensures
        file_name(child(dir, name)) == Some(name),
        extension(child(dir, name)) == name_extension(name),
        child(dir, name) == dir + "/"@ + name,
        child(Seq::empty(), name) == name,
{
    reveal_strlit("/");
    reveal_strlit(".");
    let p = child(dir, name);
    let from = body_start(p);
    let end = p.len() as int;
    let at = dir.len() as int + 1;
    assert(p[at - 1] == '/');
    assert forall|i: int| at <= i < end implies p[i] != '/' by {
        assert(name.contains(name[i - at]));
        assert(p[i] == name[i - at]);
    }
    assert(p[0] == dir[0]);
    assert(from <= at - 1);
    lemma_part_starts_at(p, from, end, at);
    if name.len() == 1 {
        if name[0] == '.' {
            assert(name =~= "."@);
        }
        assert(p[at] == name[0]);
    }
    assert(!is_idle(p, at, end));
    assert(p.subrange(at, end) =~= name);
}

proof fn lemma_part_starts_at(p: Seq<char>, from: int, end: int, at: int)
    requires
        0 <= from < at <= end <= p.len(),
        p[at - 1] == '/',
        forall|i: int| at <= i < end ==> p[i] != '/',
    ensures
        part_start(p, from, end) == at,
    decreases end - at,
{
    if end > at {
        assert(p[end - 1] != '/');
        lemma_part_starts_at(p, from, end - 1, at);
    }
}

/// An ending stands behind the last dot; a dot at the beginning makes none.
pub proof fn endings_stand_behind_dots(stem: Seq<char>, ext: Seq<char>)
    requires
        !ext.contains('.'),
    ensures
        stem.len() > 0 ==> name_extension(stem + seq!['.'] + ext) == Some(ext),
        name_extension(seq!['.'] + ext) is None,
        name_extension(ext) is None,
{
    assert forall|j: int| 0 <= j < ext.len() implies ext[j] != '.' by {
        assert(ext.contains(ext[j]));
    }
    let full = stem + seq!['.'] + ext;
    assert forall|j: int| stem.len() < j < full.len() implies full[j] != '.' by {
        assert(full[j] == ext[j - stem.len() - 1]);
    }
    crate::text::lemma_split_at_last(full, '.', stem.len() as int);
    assert(full.skip(stem.len() as int + 1) =~= ext);
    let hidden = seq!['.'] + ext;
    assert forall|j: int| 0 < j < hidden.len() implies hidden[j] != '.' by {
        assert(hidden[j] == ext[j - 1]);
    }
    crate::text::lemma_split_at_last(hidden, '.', 0);
    crate::text::lemma_split_at_last_none(ext, '.');
}

} // verus!
