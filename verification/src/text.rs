//! Character sequences: the vocabulary in which every contract of this crate
//! speaks about strings, and verified functions that compute it.

use vstd::prelude::*;
use vstd::utf8::{encode_utf8, encode_utf8_decode_utf8};

verus! {

/// `String::push` appends one character.
pub assume_specification[ String::push ](s: &mut String, c: char)
    ensures
        final(s)@ == old(s)@.push(c),
;

/// `String::push_str` appends the characters of `other`.
pub assume_specification[ String::push_str ](s: &mut String, other: &str)
    ensures
        final(s)@ == old(s)@ + other@,
;

/// Whether two texts hold the same characters, told by their bytes.
pub fn str_eq(a: &str, b: &str) -> (r: bool)
    ensures
        r == (a@ == b@),
{
    let x = a.as_bytes();
    let y = b.as_bytes();
    if x.len() != y.len() {
        return false;
    }
    let mut i: usize = 0;
    while i < x.len()
        invariant
            i <= x@.len(),
            x@.len() == y@.len(),
            x@ == encode_utf8(a@),
            y@ == encode_utf8(b@),
            forall|j: int| 0 <= j < i ==> x@[j] == y@[j],
        decreases x@.len() - i,
    {
        if x[i] != y[i] {
            return false;
        }
        i = i + 1;
    }
    proof {
        assert(x@ =~= y@);
        encode_utf8_decode_utf8(a@);
        encode_utf8_decode_utf8(b@);
    }
    true
}

// ---------------------------------------------------------------------------
// Characters
// ---------------------------------------------------------------------------

/// The Unicode `White_Space` property.
pub open spec fn is_space(c: char) -> bool {
    let n = c as u32;
    ||| 0x09 <= n <= 0x0d
    ||| n == 0x20
    ||| n == 0x85
    ||| n == 0xa0
    ||| n == 0x1680
    ||| 0x2000 <= n <= 0x200a
    ||| n == 0x2028
    ||| n == 0x2029
    ||| n == 0x202f
    ||| n == 0x205f
    ||| n == 0x3000
}

pub fn char_is_space(c: char) -> (r: bool)
    ensures
        r == is_space(c),
{
    let n: u32 = c as u32;
    (0x09 <= n && n <= 0x0d) || n == 0x20 || n == 0x85 || n == 0xa0 || n == 0x1680 || (0x2000 <= n
        && n <= 0x200a) || n == 0x2028 || n == 0x2029 || n == 0x202f || n == 0x205f || n == 0x3000
}

/// The Unicode general category `Cc`.
pub open spec fn is_control(c: char) -> bool {
    let n = c as u32;
    n <= 0x1f || 0x7f <= n <= 0x9f
}

pub fn char_is_control(c: char) -> (r: bool)
    ensures
        r == is_control(c),
{
    let n: u32 = c as u32;
    n <= 0x1f || (0x7f <= n && n <= 0x9f)
}

pub open spec fn is_digit(c: char) -> bool {
    '0' <= c <= '9'
}

pub open spec fn is_ascii_letter(c: char) -> bool {
    'a' <= c <= 'z' || 'A' <= c <= 'Z'
}

pub open spec fn is_ascii_alnum(c: char) -> bool {
    is_ascii_letter(c) || is_digit(c)
}

pub fn char_is_ascii_alnum(c: char) -> (r: bool)
    ensures
        r == is_ascii_alnum(c),
{
    ('a' <= c && c <= 'z') || ('A' <= c && c <= 'Z') || ('0' <= c && c <= '9')
}

/// ASCII lower case: `A` to `Z` become `a` to `z`, everything else stays.
pub open spec fn lower(c: char) -> char {
    if 'A' <= c <= 'Z' {
        ((c as u32) + 32) as char
    } else {
        c
    }
}

pub fn char_lower(c: char) -> (r: char)
    ensures
        r == lower(c),
{
    if 'A' <= c && c <= 'Z' {
        ((c as u8) + 32u8) as char
    } else {
        c
    }
}

// ---------------------------------------------------------------------------
// Conversion between strings and character vectors
// ---------------------------------------------------------------------------

pub fn chars_of(s: &str) -> (v: Vec<char>)
    ensures
        v@ == s@,
{
    let mut v: Vec<char> = Vec::new();
    for c in it: s.chars()
        invariant
            it.seq() == s@,
            v@ == it.seq().take(it.index()),
    {
        v.push(c);
        assert(it.seq().take(it.index() + 1) =~= it.seq().take(it.index()).push(c));
    }
    assert(s@.take(s@.len() as int) =~= s@);
    v
}

/// The string that holds `v[from..to]`.
pub fn string_between(v: &Vec<char>, from: usize, to: usize) -> (s: String)
    requires
        from <= to <= v@.len(),
    ensures
        s@ == v@.subrange(from as int, to as int),
{
    let mut s = String::new();
    let mut i: usize = from;
    while i < to
        invariant
            from <= i <= to <= v@.len(),
            s@ == v@.subrange(from as int, i as int),
        decreases to - i,
    {
        s.push(v[i]);
        i = i + 1;
        assert(v@.subrange(from as int, i as int) =~= v@.subrange(from as int, i - 1).push(
            v@[i - 1],
        ));
    }
    s
}

pub fn string_of(v: &Vec<char>) -> (s: String)
    ensures
        s@ == v@,
{
    let s = string_between(v, 0, v.len());
    assert(v@.subrange(0, v@.len() as int) =~= v@);
    s
}

/// The two strings one after the other.
pub fn join2(a: &str, b: &str) -> (s: String)
    ensures
        s@ == a@ + b@,
{
    let mut s = a.to_owned();
    s.push_str(b);
    s
}

/// The three strings one after the other.
pub fn join3(a: &str, b: &str, c: &str) -> (s: String)
    ensures
        s@ == a@ + b@ + c@,
{
    let mut s = a.to_owned();
    s.push_str(b);
    s.push_str(c);
    s
}

/// The five strings one after the other.
pub fn join5(a: &str, b: &str, c: &str, d: &str, e: &str) -> (s: String)
    ensures
        s@ == a@ + b@ + c@ + d@ + e@,
{
    let mut s = a.to_owned();
    s.push_str(b);
    s.push_str(c);
    s.push_str(d);
    s.push_str(e);
    s
}

// ---------------------------------------------------------------------------
// Views of owned strings in containers
// ---------------------------------------------------------------------------

pub open spec fn opt_view(s: Option<String>) -> Option<Seq<char>> {
    match s {
        Some(s) => Some(s@),
        None => None,
    }
}

pub open spec fn opt_str_view(s: Option<&str>) -> Option<Seq<char>> {
    match s {
        Some(s) => Some(s@),
        None => None,
    }
}

pub open spec fn views(v: Seq<String>) -> Seq<Seq<char>> {
    v.map_values(|s: String| s@)
}

pub fn opt_str<'a>(s: &'a Option<String>) -> (r: Option<&'a str>)
    ensures
        opt_str_view(r) == opt_view(*s),
        r is Some <==> *s is Some,
{
    match s {
        Some(s) => Some(s.as_str()),
        None => None,
    }
}

pub fn clone_opt(s: &Option<String>) -> (r: Option<String>)
    ensures
        opt_view(r) == opt_view(*s),
{
    match s {
        Some(s) => Some(s.clone()),
        None => None,
    }
}

pub fn owned_opt(s: Option<&str>) -> (r: Option<String>)
    ensures
        opt_view(r) == opt_str_view(s),
{
    match s {
        Some(s) => Some(s.to_owned()),
        None => None,
    }
}

pub fn clone_strings(v: &Vec<String>) -> (r: Vec<String>)
    ensures
        views(r@) == views(v@),
{
    let mut r: Vec<String> = Vec::new();
    let mut i: usize = 0;
    while i < v.len()
        invariant
            i <= v@.len(),
            r@.len() == i,
            forall|j: int| 0 <= j < i ==> (#[trigger] r@[j])@ == v@[j]@,
        decreases v@.len() - i,
    {
        r.push(v[i].clone());
        i = i + 1;
    }
    assert(views(r@) =~= views(v@));
    r
}

/// Whether one of the strings reads `needle`.
pub fn strings_contain(v: &Vec<String>, needle: &str) -> (r: bool)
    ensures
        r == views(v@).contains(needle@),
{
    let mut i: usize = 0;
    while i < v.len()
        invariant
            i <= v@.len(),
            forall|j: int| 0 <= j < i ==> (#[trigger] v@[j])@ != needle@,
        decreases v@.len() - i,
    {
        if str_eq(v[i].as_str(), needle) {
            assert(views(v@)[i as int] == needle@);
            return true;
        }
        i = i + 1;
    }
    assert forall|j: int| 0 <= j < views(v@).len() implies views(v@)[j] != needle@ by {
        assert(v@[j]@ != needle@);
    }
    false
}

// ---------------------------------------------------------------------------
// Prefixes, suffixes, occurrences
// ---------------------------------------------------------------------------

/// `p` stands in `s` at index `i`.
pub open spec fn occurs_at(s: Seq<char>, p: Seq<char>, i: int) -> bool {
    0 <= i && i + p.len() <= s.len() && s.subrange(i, i + p.len()) == p
}

/// `p` stands somewhere in `s`.
pub open spec fn holds(s: Seq<char>, p: Seq<char>) -> bool {
    exists|i: int| occurs_at(s, p, i)
}

fn matches_at(s: &Vec<char>, p: &Vec<char>, at: usize) -> (r: bool)
    requires
        at + p@.len() <= s@.len(),
    ensures
        r == occurs_at(s@, p@, at as int),
{
    let mut j: usize = 0;
    let n: usize = s.len();
    while j < p.len()
        invariant
            j <= p@.len(),
            n == s@.len(),
            at + p@.len() <= n,
            forall|k: int| 0 <= k < j ==> s@[at + k] == p@[k],
        decreases p@.len() - j,
    {
        if s[at + j] != p[j] {
            assert(s@.subrange(at as int, at + p@.len())[j as int] != p@[j as int]);
            return false;
        }
        j = j + 1;
    }
    assert(s@.subrange(at as int, at + p@.len()) =~= p@);
    true
}

pub fn str_starts_with(s: &str, p: &str) -> (r: bool)
    ensures
        r == p@.is_prefix_of(s@),
{
    let sv = chars_of(s);
    let pv = chars_of(p);
    if pv.len() > sv.len() {
        return false;
    }
    matches_at(&sv, &pv, 0)
}

pub fn str_ends_with(s: &str, p: &str) -> (r: bool)
    ensures
        r == p@.is_suffix_of(s@),
{
    let sv = chars_of(s);
    let pv = chars_of(p);
    if pv.len() > sv.len() {
        return false;
    }
    matches_at(&sv, &pv, sv.len() - pv.len())
}

/// The first index at which `p` stands in `s`.
pub open spec fn first_occurrence(s: Seq<char>, p: Seq<char>) -> Option<int> {
    if holds(s, p) {
        Some(choose|i: int| is_first_occurrence(s, p, i))
    } else {
        None
    }
}

pub open spec fn is_first_occurrence(s: Seq<char>, p: Seq<char>, i: int) -> bool {
    occurs_at(s, p, i) && forall|j: int| 0 <= j < i ==> !occurs_at(s, p, j)
}

/// A place that nothing comes before is the first one.
pub proof fn lemma_first_occurrence(s: Seq<char>, p: Seq<char>, i: int)
    requires
        is_first_occurrence(s, p, i),
    ensures
        first_occurrence(s, p) == Some(i),
{
    assert(holds(s, p));
    let j = choose|j: int| is_first_occurrence(s, p, j);
    assert(is_first_occurrence(s, p, j));
    if j < i {
        assert(!occurs_at(s, p, j));
    } else if i < j {
        assert(!occurs_at(s, p, i));
    }
}

fn find_in(s: &Vec<char>, p: &Vec<char>) -> (r: Option<usize>)
    ensures
        match r {
            Some(i) => is_first_occurrence(s@, p@, i as int),
            None => !holds(s@, p@),
        },
{
    if p.len() > s.len() {
        return None;
    }
    let last: usize = s.len() - p.len();
    let mut i: usize = 0;
    while i <= last
        invariant
            last == s@.len() - p@.len(),
            i <= last + 1,
            forall|j: int| 0 <= j < i ==> !occurs_at(s@, p@, j),
        decreases last + 1 - i,
    {
        if matches_at(s, p, i) {
            return Some(i);
        }
        if i == last {
            assert forall|j: int| !occurs_at(s@, p@, j) by {}
            return None;
        }
        i = i + 1;
    }
    None
}

pub fn str_find(s: &str, p: &str) -> (r: Option<usize>)
    ensures
        match r {
            Some(i) => first_occurrence(s@, p@) == Some(i as int) && is_first_occurrence(
                s@,
                p@,
                i as int,
            ),
            None => first_occurrence(s@, p@) is None,
        },
{
    let sv = chars_of(s);
    let pv = chars_of(p);
    let r = find_in(&sv, &pv);
    proof {
        if r is Some {
            let i = r->0 as int;
            assert(occurs_at(s@, p@, i));
            let k = choose|i: int| is_first_occurrence(s@, p@, i);
            assert(is_first_occurrence(s@, p@, k));
            assert(k == i);
        }
    }
    r
}

pub fn str_contains(s: &str, p: &str) -> (r: bool)
    ensures
        r == holds(s@, p@),
{
    let sv = chars_of(s);
    let pv = chars_of(p);
    match find_in(&sv, &pv) {
        Some(i) => {
            assert(occurs_at(s@, p@, i as int));
            true
        },
        None => false,
    }
}

pub fn str_contains_char(s: &str, c: char) -> (r: bool)
    ensures
        r == s@.contains(c),
{
    let v = chars_of(s);
    let mut i: usize = 0;
    while i < v.len()
        invariant
            i <= v@.len(),
            v@ == s@,
            forall|j: int| 0 <= j < i ==> v@[j] != c,
        decreases v@.len() - i,
    {
        if v[i] == c {
            assert(s@[i as int] == c);
            return true;
        }
        i = i + 1;
    }
    false
}

/// What stays of `s` without the prefix `p`, where `s` starts with `p`.
pub open spec fn without_prefix(s: Seq<char>, p: Seq<char>) -> Option<Seq<char>> {
    if p.is_prefix_of(s) {
        Some(s.skip(p.len() as int))
    } else {
        None
    }
}

pub fn str_strip_prefix(s: &str, p: &str) -> (r: Option<String>)
    ensures
        opt_view(r) == without_prefix(s@, p@),
{
    if str_starts_with(s, p) {
        let v = chars_of(s);
        let n = chars_of(p).len();
        let rest = string_between(&v, n, v.len());
        assert(rest@ =~= s@.skip(p@.len() as int));
        Some(rest)
    } else {
        None
    }
}

/// The first character of a string, if it has one.
pub fn first_char(s: &str) -> (r: Option<char>)
    ensures
        r == if s@.len() > 0 { Some(s@[0]) } else { None },
{
    let v = chars_of(s);
    if v.len() > 0 {
        Some(v[0])
    } else {
        None
    }
}

/// The last character of a string, if it has one.
pub fn last_char(s: &str) -> (r: Option<char>)
    ensures
        r == if s@.len() > 0 { Some(s@.last()) } else { None },
{
    let v = chars_of(s);
    if v.len() > 0 {
        Some(v[v.len() - 1])
    } else {
        None
    }
}

// ---------------------------------------------------------------------------
// Case
// ---------------------------------------------------------------------------

pub open spec fn lowered(s: Seq<char>) -> Seq<char> {
    s.map_values(|c: char| lower(c))
}

pub fn str_lower(s: &str) -> (r: String)
    ensures
        r@ == lowered(s@),
{
    let v = chars_of(s);
    let mut r = String::new();
    let mut i: usize = 0;
    while i < v.len()
        invariant
            i <= v@.len(),
            r@ == lowered(v@.take(i as int)),
        decreases v@.len() - i,
    {
        r.push(char_lower(v[i]));
        i = i + 1;
        assert(lowered(v@.take(i as int)) =~= lowered(v@.take(i - 1)).push(lower(v@[i - 1])));
    }
    assert(v@.take(v@.len() as int) =~= v@);
    r
}

/// Equality up to ASCII case.
pub fn str_eq_ignore_case(a: &str, b: &str) -> (r: bool)
    ensures
        r == (lowered(a@) == lowered(b@)),
{
    let x = str_lower(a);
    let y = str_lower(b);
    str_eq(x.as_str(), y.as_str())
}

// ---------------------------------------------------------------------------
// Trimming
// ---------------------------------------------------------------------------

/// `s` without the white space it starts with.
pub open spec fn trimmed_start(s: Seq<char>) -> Seq<char>
    decreases s.len(),
{
    if s.len() > 0 && is_space(s[0]) {
        trimmed_start(s.drop_first())
    } else {
        s
    }
}

/// `s` without the white space it ends with.
pub open spec fn trimmed_end(s: Seq<char>) -> Seq<char>
    decreases s.len(),
{
    if s.len() > 0 && is_space(s.last()) {
        trimmed_end(s.drop_last())
    } else {
        s
    }
}

/// `s` without white space at either end.
pub open spec fn trimmed(s: Seq<char>) -> Seq<char> {
    trimmed_end(trimmed_start(s))
}

pub fn str_trim(s: &str) -> (r: String)
    ensures
        r@ == trimmed(s@),
{
    let v = chars_of(s);
    let mut from: usize = 0;
    assert(v@.skip(0) =~= v@);
    while from < v.len() && char_is_space(v[from])
        invariant
            from <= v@.len(),
            trimmed_start(v@) == trimmed_start(v@.skip(from as int)),
        decreases v@.len() - from,
    {
        assert(v@.skip(from as int).drop_first() =~= v@.skip(from + 1));
        from = from + 1;
    }
    let mut to: usize = v.len();
    assert(v@.subrange(from as int, to as int) =~= v@.skip(from as int));
    while to > from && char_is_space(v[to - 1])
        invariant
            from <= to <= v@.len(),
            trimmed(v@) == trimmed_end(v@.subrange(from as int, to as int)),
        decreases to,
    {
        assert(v@.subrange(from as int, to as int).drop_last() =~= v@.subrange(
            from as int,
            to - 1,
        ));
        to = to - 1;
    }
    string_between(&v, from, to)
}

/// Whether nothing but white space stands in `s`.
pub open spec fn is_blank(s: Seq<char>) -> bool {
    trimmed(s).len() == 0
}

pub fn str_is_blank(s: &str) -> (r: bool)
    ensures
        r == is_blank(s@),
{
    chars_of(str_trim(s).as_str()).len() == 0
}

// ---------------------------------------------------------------------------
// Splitting
// ---------------------------------------------------------------------------

/// The index of the first `c` in `s`, or the length of `s`.
pub open spec fn position(s: Seq<char>, c: char) -> int
    decreases s.len(),
{
    if s.len() == 0 || s[0] == c {
        0
    } else {
        1 + position(s.drop_first(), c)
    }
}

pub proof fn lemma_position(s: Seq<char>, c: char)
    ensures
        0 <= position(s, c) <= s.len(),
        position(s, c) < s.len() ==> s[position(s, c)] == c,
        forall|j: int| 0 <= j < position(s, c) ==> s[j] != c,
    decreases s.len(),
{
    if s.len() == 0 || s[0] == c {
    } else {
        let t = s.drop_first();
        lemma_position(t, c);
        assert forall|j: int| 0 <= j < position(s, c) implies s[j] != c by {
            if j > 0 {
                assert(s[j] == t[j - 1]);
            }
        }
    }
}

pub proof fn lemma_position_unique(s: Seq<char>, c: char, i: int)
    requires
        0 <= i <= s.len(),
        i < s.len() ==> s[i] == c,
        forall|j: int| 0 <= j < i ==> s[j] != c,
    ensures
        position(s, c) == i,
{
    lemma_position(s, c);
}

fn position_in(v: &Vec<char>, c: char, from: usize) -> (i: usize)
    requires
        from <= v@.len(),
    ensures
        from <= i <= v@.len(),
        i - from == position(v@.skip(from as int), c),
        i < v@.len() ==> v@[i as int] == c,
{
    let mut i: usize = from;
    while i < v.len() && v[i] != c
        invariant
            from <= i <= v@.len(),
            forall|j: int| from <= j < i ==> v@[j] != c,
        decreases v@.len() - i,
    {
        i = i + 1;
    }
    proof {
        lemma_position_unique(v@.skip(from as int), c, i - from);
    }
    i
}

/// What stands before and after the first `c`, if there is one.
pub open spec fn split_at_first(s: Seq<char>, c: char) -> Option<(Seq<char>, Seq<char>)> {
    let i = position(s, c);
    if i < s.len() {
        Some((s.take(i), s.skip(i + 1)))
    } else {
        None
    }
}

pub open spec fn pair_view(p: Option<(String, String)>) -> Option<(Seq<char>, Seq<char>)> {
    match p {
        Some((a, b)) => Some((a@, b@)),
        None => None,
    }
}

pub fn str_split_once(s: &str, c: char) -> (r: Option<(String, String)>)
    ensures
        pair_view(r) == split_at_first(s@, c),
{
    let v = chars_of(s);
    let i: usize = position_in(&v, c, 0);
    assert(v@.skip(0) =~= v@);
    if i < v.len() {
        let a = string_between(&v, 0, i);
        let b = string_between(&v, i + 1, v.len());
        assert(a@ =~= s@.take(i as int));
        assert(b@ =~= s@.skip(i + 1));
        Some((a, b))
    } else {
        None
    }
}

/// The parts of `s` between the occurrences of `c`: one more than there are.
pub open spec fn split(s: Seq<char>, c: char) -> Seq<Seq<char>>
    decreases s.len(),
{
    let i = position(s, c);
    if 0 <= i < s.len() {
        seq![s.take(i)] + split(s.skip(i + 1), c)
    } else {
        seq![s]
    }
}

pub fn str_split(s: &str, c: char) -> (r: Vec<String>)
    ensures
        views(r@) == split(s@, c),
        r@.len() >= 1,
{
    let v = chars_of(s);
    let mut r: Vec<String> = Vec::new();
    let mut from: usize = 0;
    assert(v@.skip(0) =~= v@);
    assert(views(r@) + split(s@, c) =~= split(s@, c));
    loop
        invariant
            from <= v@.len(),
            v@ == s@,
            split(s@, c) == views(r@) + split(v@.skip(from as int), c),
        decreases v@.len() - from,
    {
        let i: usize = position_in(&v, c, from);
        let part = string_between(&v, from, i);
        let ghost rest = v@.skip(from as int);
        let ghost before = views(r@);
        if i == v.len() {
            assert(part@ =~= rest);
            r.push(part);
            assert(views(r@) =~= before + seq![rest]);
            return r;
        }
        assert(part@ =~= rest.take(i - from));
        assert(rest.skip(i - from + 1) =~= v@.skip(i + 1));
        r.push(part);
        assert(views(r@) =~= before.push(part@));
        assert(before + (seq![part@] + split(v@.skip(i + 1), c)) =~= views(r@) + split(
            v@.skip(i + 1),
            c,
        ));
        from = i + 1;
    }
}

/// What stands before and after the last `c`, if there is one.
pub open spec fn split_at_last(s: Seq<char>, c: char) -> Option<(Seq<char>, Seq<char>)>
    decreases s.len(),
{
    if s.len() == 0 {
        None
    } else if s.last() == c {
        Some((s.drop_last(), Seq::empty()))
    } else {
        match split_at_last(s.drop_last(), c) {
            Some((a, b)) => Some((a, b.push(s.last()))),
            None => None,
        }
    }
}

pub proof fn lemma_split_at_last(s: Seq<char>, c: char, i: int)
    requires
        0 <= i < s.len(),
        s[i] == c,
        forall|j: int| i < j < s.len() ==> s[j] != c,
    ensures
        split_at_last(s, c) == Some((s.take(i), s.skip(i + 1))),
    decreases s.len(),
{
    if i == s.len() - 1 {
        assert(s.drop_last() =~= s.take(i));
        assert(s.skip(i + 1) =~= Seq::<char>::empty());
    } else {
        let t = s.drop_last();
        lemma_split_at_last(t, c, i);
        assert(t.take(i) =~= s.take(i));
        assert(t.skip(i + 1).push(s.last()) =~= s.skip(i + 1));
    }
}

pub proof fn lemma_split_at_last_none(s: Seq<char>, c: char)
    requires
        forall|j: int| 0 <= j < s.len() ==> s[j] != c,
    ensures
        split_at_last(s, c) is None,
    decreases s.len(),
{
    if s.len() > 0 {
        lemma_split_at_last_none(s.drop_last(), c);
    }
}

pub fn str_rsplit_once(s: &str, c: char) -> (r: Option<(String, String)>)
    ensures
        pair_view(r) == split_at_last(s@, c),
{
    let v = chars_of(s);
    let mut i: usize = v.len();
    while i > 0
        invariant
            i <= v@.len(),
            v@ == s@,
            forall|j: int| i <= j < v@.len() ==> v@[j] != c,
        decreases i,
    {
        if v[i - 1] == c {
            proof {
                lemma_split_at_last(s@, c, i - 1);
            }
            let a = string_between(&v, 0, i - 1);
            let b = string_between(&v, i, v.len());
            assert(a@ =~= s@.take(i - 1));
            assert(b@ =~= s@.skip(i as int));
            return Some((a, b));
        }
        i = i - 1;
    }
    proof {
        lemma_split_at_last_none(s@, c);
    }
    None
}

/// `s` with every `c` replaced by `d`.
pub open spec fn replaced(s: Seq<char>, c: char, d: char) -> Seq<char> {
    s.map_values(
        |x: char|
            if x == c {
                d
            } else {
                x
            },
    )
}

pub fn str_replace_char(s: &str, c: char, d: char) -> (r: String)
    ensures
        r@ == replaced(s@, c, d),
{
    let v = chars_of(s);
    let mut r = String::new();
    let mut i: usize = 0;
    while i < v.len()
        invariant
            i <= v@.len(),
            r@ == replaced(v@.take(i as int), c, d),
        decreases v@.len() - i,
    {
        let x = if v[i] == c {
            d
        } else {
            v[i]
        };
        r.push(x);
        i = i + 1;
        assert(replaced(v@.take(i as int), c, d) =~= replaced(v@.take(i - 1), c, d).push(x));
    }
    assert(v@.take(v@.len() as int) =~= v@);
    r
}

/// The maximal runs of characters that are not white space.
pub open spec fn words(s: Seq<char>) -> Seq<Seq<char>>
    decreases s.len(), 1int,
{
    let t = trimmed_start(s);
    if t.len() == 0 || t.len() > s.len() {
        Seq::empty()
    } else {
        let n = word_len(t);
        if 0 < n <= t.len() {
            seq![t.take(n)] + words(t.skip(n))
        } else {
            Seq::empty()
        }
    }
}

/// The length of the run of characters that are not white space at the start of `s`.
pub open spec fn word_len(s: Seq<char>) -> int
    decreases s.len(),
{
    if s.len() == 0 || is_space(s[0]) {
        0
    } else {
        1 + word_len(s.drop_first())
    }
}

pub proof fn lemma_word_len(s: Seq<char>, n: int)
    requires
        0 <= n <= s.len(),
        n < s.len() ==> is_space(s[n]),
        forall|j: int| 0 <= j < n ==> !is_space(#[trigger] s[j]),
    ensures
        word_len(s) == n,
    decreases s.len(),
{
    if n > 0 {
        assert(!is_space(s[0]));
        let t = s.drop_first();
        assert forall|j: int| 0 <= j < n - 1 implies !is_space(#[trigger] t[j]) by {
            assert(t[j] == s[j + 1]);
        }
        lemma_word_len(t, n - 1);
    }
}

pub fn str_words(s: &str) -> (r: Vec<String>)
    ensures
        views(r@) == words(s@),
{
    let v = chars_of(s);
    let mut r: Vec<String> = Vec::new();
    let mut from: usize = 0;
    assert(v@.skip(0) =~= v@);
    assert(views(r@) + words(s@) =~= words(s@));
    loop
        invariant
            from <= v@.len(),
            v@ == s@,
            words(s@) == views(r@) + words(v@.skip(from as int)),
        decreases v@.len() - from,
    {
        let ghost rest = v@.skip(from as int);
        let mut start: usize = from;
        while start < v.len() && char_is_space(v[start])
            invariant
                from <= start <= v@.len(),
                trimmed_start(v@.skip(from as int)) == trimmed_start(v@.skip(start as int)),
            decreases v@.len() - start,
        {
            assert(v@.skip(start as int).drop_first() =~= v@.skip(start + 1));
            start = start + 1;
        }
        let ghost t = v@.skip(start as int);
        assert(trimmed_start(rest) == t);
        if start == v.len() {
            assert(t.len() == 0);
            assert(words(rest) =~= Seq::<Seq<char>>::empty());
            assert(views(r@) + words(rest) =~= views(r@));
            return r;
        }
        let mut end: usize = start;
        while end < v.len() && !char_is_space(v[end])
            invariant
                start <= end <= v@.len(),
                forall|j: int| start <= j < end ==> !is_space(#[trigger] v@[j]),
            decreases v@.len() - end,
        {
            end = end + 1;
        }
        proof {
            assert forall|j: int| 0 <= j < end - start implies !is_space(#[trigger] t[j]) by {
                assert(t[j] == v@[start + j]);
            }
            lemma_word_len(t, end - start);
        }
        let part = string_between(&v, start, end);
        assert(part@ =~= t.take(end - start));
        assert(t.skip(end - start) =~= v@.skip(end as int));
        let ghost before = views(r@);
        r.push(part);
        assert(views(r@) =~= before.push(part@));
        assert(before + (seq![part@] + words(v@.skip(end as int))) =~= views(r@) + words(
            v@.skip(end as int),
        ));
        from = end;
    }
}

/// `s` without a carriage return at its end.
pub open spec fn without_return(s: Seq<char>) -> Seq<char> {
    if s.len() > 0 && s.last() == '\r' {
        s.drop_last()
    } else {
        s
    }
}

/// The lines of a text: what ends with a line feed, without it and without a
/// carriage return before it, and what stands behind the last line feed, unless
/// that is nothing.
pub open spec fn lines(s: Seq<char>) -> Seq<Seq<char>> {
    let parts = split(s, '\n');
    let ended = parts.drop_last().map_values(|p: Seq<char>| without_return(p));
    if parts.last().len() == 0 {
        ended
    } else {
        ended.push(parts.last())
    }
}

pub fn str_lines(s: &str) -> (r: Vec<String>)
    ensures
        views(r@) == lines(s@),
{
    let parts = str_split(s, '\n');
    let ghost all = split(s@, '\n');
    let n: usize = parts.len() - 1;
    assert(all.last() == parts@.last()@);
    let mut r: Vec<String> = Vec::new();
    let mut i: usize = 0;
    while i < n
        invariant
            i <= n < parts@.len(),
            all == views(parts@),
            r@.len() == i,
            forall|j: int| 0 <= j < i ==> (#[trigger] r@[j])@ == without_return(all[j]),
        decreases n - i,
    {
        let v = chars_of(parts[i].as_str());
        assert(v@ == all[i as int]);
        if v.len() > 0 && v[v.len() - 1] == '\r' {
            let line = string_between(&v, 0, v.len() - 1);
            assert(line@ =~= v@.drop_last());
            r.push(line);
        } else {
            r.push(parts[i].clone());
        }
        i = i + 1;
    }
    if !parts[n].as_str().is_empty() {
        r.push(parts[n].clone());
    }
    assert(views(r@) =~= lines(s@));
    r
}

/// `s` without any `c`.
pub open spec fn without_char(s: Seq<char>, c: char) -> Seq<char>
    decreases s.len(),
{
    if s.len() == 0 {
        s
    } else if s.last() == c {
        without_char(s.drop_last(), c)
    } else {
        without_char(s.drop_last(), c).push(s.last())
    }
}

pub fn str_without_char(s: &str, c: char) -> (r: String)
    ensures
        r@ == without_char(s@, c),
{
    let v = chars_of(s);
    let mut r = String::new();
    let mut i: usize = 0;
    assert(r@ =~= v@.take(0));
    while i < v.len()
        invariant
            i <= v@.len(),
            r@ == without_char(v@.take(i as int), c),
        decreases v@.len() - i,
    {
        assert(v@.take(i + 1).drop_last() =~= v@.take(i as int));
        if v[i] != c {
            r.push(v[i]);
        }
        i = i + 1;
    }
    assert(v@.take(v@.len() as int) =~= v@);
    r
}

// ---------------------------------------------------------------------------
// Joining
// ---------------------------------------------------------------------------

/// The parts in order with `sep` between each two.
pub open spec fn joined(parts: Seq<Seq<char>>, sep: Seq<char>) -> Seq<char>
    decreases parts.len(),
{
    if parts.len() == 0 {
        Seq::empty()
    } else if parts.len() == 1 {
        parts[0]
    } else {
        joined(parts.drop_last(), sep) + sep + parts.last()
    }
}

pub fn join_strings(parts: &Vec<String>, sep: &str) -> (r: String)
    ensures
        r@ == joined(views(parts@), sep@),
{
    let mut r = String::new();
    let mut i: usize = 0;
    while i < parts.len()
        invariant
            i <= parts@.len(),
            r@ == joined(views(parts@).take(i as int), sep@),
        decreases parts@.len() - i,
    {
        if i > 0 {
            r.push_str(sep);
        }
        r.push_str(parts[i].as_str());
        i = i + 1;
        let ghost now = views(parts@).take(i as int);
        assert(now.drop_last() =~= views(parts@).take(i - 1));
        assert(now.last() == parts@[i - 1]@);
        if i == 1 {
            assert(r@ =~= parts@[0]@);
        }
    }
    assert(views(parts@).take(parts@.len() as int) =~= views(parts@));
    r
}

// ---------------------------------------------------------------------------
// Numbers
// ---------------------------------------------------------------------------

pub open spec fn digit_char(d: int) -> char {
    (d + 48) as char
}

/// The decimal digits of `n`, without leading zeros.
pub open spec fn decimal(n: nat) -> Seq<char>
    decreases n,
{
    if n < 10 {
        seq![digit_char(n as int)]
    } else {
        decimal(n / 10).push(digit_char((n % 10) as int))
    }
}

fn char_of_digit(d: u64) -> (c: char)
    requires
        d < 10,
    ensures
        c == digit_char(d as int),
{
    ((d as u8) + 48u8) as char
}

pub fn u64_text(n: u64) -> (r: String)
    ensures
        r@ == decimal(n as nat),
    decreases n,
{
    if n < 10 {
        let mut r = String::new();
        r.push(char_of_digit(n));
        assert(r@ =~= seq![digit_char(n as int)]);
        r
    } else {
        let mut r = u64_text(n / 10);
        r.push(char_of_digit(n % 10));
        r
    }
}

pub fn usize_text(n: usize) -> (r: String)
    ensures
        r@ == decimal(n as nat),
{
    u64_text(n as u64)
}

/// The decimal digits of an integer, behind a minus sign where it is negative.
pub open spec fn signed_decimal(n: int) -> Seq<char> {
    if n < 0 {
        seq!['-'] + decimal((-n) as nat)
    } else {
        decimal(n as nat)
    }
}

pub fn i64_text(n: i64) -> (r: String)
    ensures
        r@ == signed_decimal(n as int),
{
    if n < 0 {
        let digits = if n == i64::MIN {
            u64_text(9_223_372_036_854_775_808u64)
        } else {
            u64_text((-n) as u64)
        };
        let mut r = String::new();
        r.push('-');
        assert(r@ =~= seq!['-']);
        r.push_str(digits.as_str());
        r
    } else {
        u64_text(n as u64)
    }
}

/// The number that decimal digits spell, if `s` is nothing else.
pub open spec fn digits_value(s: Seq<char>) -> Option<nat>
    decreases s.len(),
{
    if s.len() == 0 {
        Some(0)
    } else if !is_digit(s.last()) {
        None
    } else {
        match digits_value(s.drop_last()) {
            Some(n) => Some(n * 10 + ((s.last() as u32) - 48) as nat),
            None => None,
        }
    }
}

pub proof fn lemma_digits_value_take(s: Seq<char>, i: int)
    requires
        0 <= i <= s.len(),
    ensures
        digits_value(s) is Some ==> digits_value(s.take(i)) is Some && digits_value(s.take(i))->0
            <= digits_value(s)->0,
    decreases s.len() - i,
{
    if i == s.len() {
        assert(s.take(i) =~= s);
    } else {
        let t = s.take(i + 1);
        lemma_digits_value_take(s, i + 1);
        assert(t.drop_last() =~= s.take(i));
        if digits_value(s) is Some {
            assert(digits_value(t) is Some);
            assert(digits_value(s.take(i))->0 * 10 >= digits_value(s.take(i))->0);
        }
    }
}

/// What reading an unsigned number of at most `max` gives: an optional `+`, then
/// at least one decimal digit and nothing else.
pub open spec fn parsed_unsigned(s: Seq<char>, max: nat) -> Option<nat> {
    let digits = if s.len() > 0 && s[0] == '+' {
        s.drop_first()
    } else {
        s
    };
    if digits.len() == 0 {
        None
    } else {
        match digits_value(digits) {
            Some(n) => if n <= max {
                Some(n)
            } else {
                None
            },
            None => None,
        }
    }
}

pub open spec fn opt_nat(n: Option<u64>) -> Option<nat> {
    match n {
        Some(n) => Some(n as nat),
        None => None,
    }
}

fn parse_bounded(s: &str, max: u64) -> (r: Option<u64>)
    ensures
        opt_nat(r) == parsed_unsigned(s@, max as nat),
{
    let v = chars_of(s);
    let from: usize = if v.len() > 0 && v[0] == '+' {
        1
    } else {
        0
    };
    let ghost digits = v@.skip(from as int);
    assert(digits =~= if s@.len() > 0 && s@[0] == '+' {
        s@.drop_first()
    } else {
        s@
    });
    if from == v.len() {
        return None;
    }
    let mut i: usize = from;
    let mut n: u64 = 0;
    assert(digits.take(0) =~= Seq::<char>::empty());
    while i < v.len()
        invariant
            from <= i <= v@.len(),
            digits == v@.skip(from as int),
            digits.len() > 0,
            parsed_unsigned(s@, max as nat) == (match digits_value(digits) {
                Some(n) => if n <= max {
                    Some(n)
                } else {
                    None
                },
                None => None,
            }),
            digits_value(digits.take(i - from)) == Some(n as nat),
            n <= max,
        decreases v@.len() - i,
    {
        let c = v[i];
        let ghost t = digits.take(i - from + 1);
        assert(t.drop_last() =~= digits.take(i - from));
        assert(t.last() == c);
        proof {
            lemma_digits_value_take(digits, i - from + 1);
        }
        if !('0' <= c && c <= '9') {
            return None;
        }
        let d: u64 = (c as u32 - 48) as u64;
        let wide: u128 = (n as u128) * 10 + d as u128;
        if wide > max as u128 {
            return None;
        }
        n = wide as u64;
        i = i + 1;
    }
    assert(digits.take(i - from) =~= digits);
    Some(n)
}

pub fn parse_u64(s: &str) -> (r: Option<u64>)
    ensures
        opt_nat(r) == parsed_unsigned(s@, u64::MAX as nat),
{
    parse_bounded(s, u64::MAX)
}

pub fn parse_usize(s: &str) -> (r: Option<usize>)
    ensures
        match r {
            Some(n) => parsed_unsigned(s@, usize::MAX as nat) == Some(n as nat),
            None => parsed_unsigned(s@, usize::MAX as nat) is None,
        },
{
    match parse_bounded(s, usize::MAX as u64) {
        Some(n) => Some(n as usize),
        None => None,
    }
}

pub fn parse_u16(s: &str) -> (r: Option<u16>)
    ensures
        match r {
            Some(n) => parsed_unsigned(s@, u16::MAX as nat) == Some(n as nat),
            None => parsed_unsigned(s@, u16::MAX as nat) is None,
        },
{
    match parse_bounded(s, 65535) {
        Some(n) => Some(n as u16),
        None => None,
    }
}

// ---------------------------------------------------------------------------
// Padding
// ---------------------------------------------------------------------------

/// `n` spaces.
pub open spec fn spaces(n: nat) -> Seq<char> {
    Seq::new(n, |i: int| ' ')
}

/// `s`, followed by as many spaces as it lacks of `width` characters.
pub open spec fn padded(s: Seq<char>, width: nat) -> Seq<char> {
    if s.len() >= width {
        s
    } else {
        s + spaces((width - s.len()) as nat)
    }
}

pub fn pad_right(s: &str, width: usize) -> (r: String)
    ensures
        r@ == padded(s@, width as nat),
{
    let mut n: usize = chars_of(s).len();
    let mut r = s.to_owned();
    assert(r@ =~= s@ + spaces(0));
    while n < width
        invariant
            s@.len() <= n,
            n <= width || n == s@.len(),
            r@ == s@ + spaces((n - s@.len()) as nat),
        decreases width - n,
    {
        r.push(' ');
        n = n + 1;
        assert(r@ =~= s@ + spaces((n - s@.len()) as nat));
    }
    assert(r@ =~= padded(s@, width as nat));
    r
}

// ---------------------------------------------------------------------------
// What texts are made of
// ---------------------------------------------------------------------------

/// Blanks, digits and letters are what they are called, and small letters stand 32
/// behind the capitals.
pub proof fn characters_are_what_they_are_called(c: char)
    ensures
        is_space(' ') && is_space('\t') && is_space('\n') && is_space('\r'),
        is_digit(c) || is_ascii_letter(c) || c == '-' || c == '_' || c == '.' || c == '/' ==> !is_space(
            c,
        ),
        is_digit('0') && is_digit('9') && !is_digit('a') && !is_digit('/') && !is_digit(':'),
        is_ascii_letter('a') && is_ascii_letter('z') && is_ascii_letter('A') && is_ascii_letter('Z')
            && !is_ascii_letter('@') && !is_ascii_letter('[') && !is_ascii_letter('`')
            && !is_ascii_letter('{'),
        is_ascii_alnum(c) <==> is_digit(c) || is_ascii_letter(c),
        is_control('\n') && is_control('\t') && !is_control(' ') && !is_control('a'),
        lower('A') == 'a' && lower('M') == 'm' && lower('Z') == 'z',
        !('A' <= c <= 'Z') ==> lower(c) == c,
        'A' <= c <= 'Z' ==> lower(c) as u32 == c as u32 + 32 && 'a' <= lower(c) <= 'z',
        lower(lower(c)) == lower(c),
{
}

/// A text is what was trimmed off, what is left, and what was trimmed off behind it; only
/// blanks are.
pub proof fn blanks_are_trimmed_alone(s: Seq<char>)
    ensures
        trimmed(s).len() > 0 ==> !is_space(trimmed(s)[0]) && !is_space(trimmed(s).last()),
        trimmed(s).len() <= s.len(),
        exists|n: int|
            0 <= n && n + trimmed(s).len() <= s.len() && #[trigger] s.subrange(
                n,
                n + trimmed(s).len(),
            ) == trimmed(s) && (forall|i: int|
                0 <= i < s.len() && !(n <= i < n + trimmed(s).len()) ==> is_space(
                    #[trigger] s[i],
                )),
        is_blank(s) <==> forall|i: int| 0 <= i < s.len() ==> is_space(#[trigger] s[i]),
{
    lemma_trimmed_start(s);
    let t = trimmed_start(s);
    lemma_trimmed_end(t);
    let r = trimmed(s);
    let n = s.len() - t.len();
    assert(s.subrange(n, n + r.len()) =~= r);
    assert forall|i: int| 0 <= i < s.len() && !(n <= i < n + r.len()) implies is_space(
        #[trigger] s[i],
    ) by {
        if i >= n {
            assert(t[i - n] == s[i]);
        }
    }
    if r.len() > 0 {
        assert(r[0] == t[0]);
        assert(s[n] == r[0]);
    }
}

proof fn lemma_trimmed_start(s: Seq<char>)
    ensures
        trimmed_start(s).len() <= s.len(),
        trimmed_start(s) == s.skip(s.len() - trimmed_start(s).len()),
        trimmed_start(s).len() > 0 ==> !is_space(trimmed_start(s)[0]),
        forall|i: int| 0 <= i < s.len() - trimmed_start(s).len() ==> is_space(#[trigger] s[i]),
    decreases s.len(),
{
    if s.len() > 0 && is_space(s[0]) {
        let rest = s.drop_first();
        lemma_trimmed_start(rest);
        assert(trimmed_start(s) =~= s.skip(s.len() - trimmed_start(s).len()));
        assert forall|i: int| 0 <= i < s.len() - trimmed_start(s).len() implies is_space(
            #[trigger] s[i],
        ) by {
            if i > 0 {
                assert(rest[i - 1] == s[i]);
            }
        }
    } else {
        assert(s.skip(0) =~= s);
    }
}

proof fn lemma_trimmed_end(s: Seq<char>)
    ensures
        trimmed_end(s).len() <= s.len(),
        trimmed_end(s) == s.take(trimmed_end(s).len() as int),
        trimmed_end(s).len() > 0 ==> !is_space(trimmed_end(s).last()),
        forall|i: int| trimmed_end(s).len() <= i < s.len() ==> is_space(#[trigger] s[i]),
    decreases s.len(),
{
    if s.len() > 0 && is_space(s.last()) {
        let rest = s.drop_last();
        lemma_trimmed_end(rest);
        assert(trimmed_end(s) =~= s.take(trimmed_end(s).len() as int));
        assert forall|i: int| trimmed_end(s).len() <= i < s.len() implies is_space(
            #[trigger] s[i],
        ) by {
            if i < rest.len() {
                assert(rest[i] == s[i]);
            }
        }
    } else {
        assert(s.take(s.len() as int) =~= s);
    }
}

/// A text that is taken apart at a character is put together again with it, and no part
/// holds it.
pub proof fn parts_are_joined_again(s: Seq<char>, c: char, i: int)
    ensures
        joined(split(s, c), seq![c]) == s,
        split(s, c).len() >= 1,
        0 <= i < split(s, c).len() ==> !split(s, c)[i].contains(c),
    decreases s.len(),
{
    lemma_position(s, c);
    let at = position(s, c);
    if at < s.len() {
        let rest = s.skip(at + 1);
        parts_are_joined_again(rest, c, i - 1);
        lemma_joined_first(s.take(at), split(rest, c), seq![c]);
        assert(s =~= s.take(at) + seq![c] + rest);
        if i == 0 && s.take(at).contains(c) {
            let k = choose|k: int| 0 <= k < at && s.take(at)[k] == c;
            assert(s[k] == c);
        }
    } else if s.contains(c) {
        let k = choose|k: int| 0 <= k < s.len() && s[k] == c;
        assert(s[k] == c);
    }
}

proof fn lemma_joined_first(first: Seq<char>, rest: Seq<Seq<char>>, sep: Seq<char>)
    requires
        rest.len() > 0,
    ensures
        joined(seq![first] + rest, sep) == first + sep + joined(rest, sep),
    decreases rest.len(),
{
    let all = seq![first] + rest;
    assert(all.last() == rest.last());
    if rest.len() == 1 {
        assert(all.drop_last() =~= seq![first]);
        assert(joined(seq![first], sep) == first);
        assert(joined(all, sep) =~= first + sep + joined(rest, sep));
    } else {
        assert(all.drop_last() =~= seq![first] + rest.drop_last());
        lemma_joined_first(first, rest.drop_last(), sep);
        assert(joined(rest, sep) == joined(rest.drop_last(), sep) + sep + rest.last());
        assert(joined(all, sep) == joined(all.drop_last(), sep) + sep + rest.last());
        assert(joined(all, sep) =~= first + sep + joined(rest, sep));
    }
}

/// The words of a text are what stands between its blanks, in their order.
pub proof fn words_stand_between_blanks(word: Seq<char>, c: char, rest: Seq<char>)
    requires
        word.len() > 0,
        forall|i: int| 0 <= i < word.len() ==> !is_space(#[trigger] word[i]),
        is_space(c),
    ensures
        words(word) == seq![word],
        words(word + seq![c] + rest) == seq![word] + words(rest),
        words(seq![c] + rest) == words(rest),
        words(Seq::empty()).len() == 0,
{
    lemma_word_len(word, word.len() as int);
    assert(word.take(word.len() as int) =~= word);
    assert(word.skip(word.len() as int) =~= Seq::empty());
    assert(words(Seq::<char>::empty()) =~= Seq::<Seq<char>>::empty());
    assert(trimmed_start(word) == word);
    assert(words(word) == seq![word.take(word.len() as int)] + words(
        word.skip(word.len() as int),
    ));
    assert(words(word) =~= seq![word]);
    let all = word + seq![c] + rest;
    assert forall|i: int| 0 <= i < word.len() implies !is_space(#[trigger] all[i]) by {
        assert(all[i] == word[i]);
    }
    assert(all[word.len() as int] == c);
    lemma_word_len(all, word.len() as int);
    assert(!is_space(all[0]));
    assert(all.take(word.len() as int) =~= word);
    assert(all.skip(word.len() as int) =~= seq![c] + rest);
    assert((seq![c] + rest).drop_first() =~= rest);
    assert(trimmed_start(seq![c] + rest) == trimmed_start(rest));
    lemma_trimmed_start(rest);
    assert(words(seq![c] + rest) == words(rest));
    assert(trimmed_start(all) == all);
    assert(words(all) == seq![all.take(word.len() as int)] + words(all.skip(word.len() as int)));
}

/// Lines end at their line feeds, a carriage return before one belonging to it.
pub proof fn lines_end_at_line_feeds(line: Seq<char>, rest: Seq<char>)
    requires
        !line.contains('\n'),
        line.len() > 0,
        line.last() != '\r',
    ensures
        lines(line) == seq![line],
        lines(line + seq!['\n']) == seq![line],
        lines(line + seq!['\r', '\n']) == seq![line],
        lines(line + seq!['\n'] + rest) == seq![line] + lines(rest),
        lines(Seq::empty()).len() == 0,
{
    assert forall|j: int| 0 <= j < line.len() implies line[j] != '\n' by {
        assert(line.contains(line[j]));
    }
    let n = line.len() as int;
    let none = Seq::<char>::empty();
    lemma_position_unique(line, '\n', n);
    assert(split(line, '\n') =~= seq![line]);
    assert(lines(line) =~= seq![line]);
    assert(split(none, '\n') =~= seq![none]);
    let one = line + seq!['\n'];
    lemma_position_unique(one, '\n', n);
    assert(one.take(n) =~= line && one.skip(n + 1) =~= none);
    assert(split(one, '\n') =~= seq![line, none]);
    assert(lines(one) =~= seq![line]);
    let two = line + seq!['\r', '\n'];
    lemma_position_unique(two, '\n', n + 1);
    assert(two.take(n + 1) =~= line + seq!['\r'] && two.skip(n + 2) =~= none);
    assert(split(two, '\n') =~= seq![line + seq!['\r'], none]);
    assert((line + seq!['\r']).drop_last() =~= line);
    assert(lines(two) =~= seq![line]);
    let all = line + seq!['\n'] + rest;
    lemma_position_unique(all, '\n', n);
    assert(all.take(n) =~= line && all.skip(n + 1) =~= rest);
    let parts = split(rest, '\n');
    parts_are_joined_again(rest, '\n', 0);
    assert(split(all, '\n') == seq![line] + parts);
    assert((seq![line] + parts).drop_last() =~= seq![line] + parts.drop_last());
    assert((seq![line] + parts).last() == parts.last());
    assert(lines(all) =~= seq![line] + lines(rest));
}

/// A number is read as it is written.
pub proof fn written_numbers_are_read(n: nat, max: nat)
    ensures
        digits_value(decimal(n)) == Some(n),
        n <= max ==> parsed_unsigned(decimal(n), max) == Some(n),
        n > max ==> parsed_unsigned(decimal(n), max) is None,
        parsed_unsigned(seq!['+'] + decimal(n), max) == parsed_unsigned(decimal(n), max),
        parsed_unsigned(seq!['-'] + decimal(n), max) is None,
        parsed_unsigned(Seq::empty(), max) is None,
        n < 10 ==> decimal(n).len() == 1 && decimal(n)[0] as u32 == '0' as u32 + n,
        n > 0 ==> signed_decimal(-n) == seq!['-'] + decimal(n),
        signed_decimal(n as int) == decimal(n),
{
    lemma_decimal(n);
    let plus = seq!['+'] + decimal(n);
    assert(plus.drop_first() =~= decimal(n));
    assert(is_digit(decimal(n)[0]));
    let minus = seq!['-'] + decimal(n);
    lemma_no_value(minus, 0);
}

proof fn lemma_decimal(n: nat)
    ensures
        digits_value(decimal(n)) == Some(n),
        decimal(n).len() > 0,
        is_digit(decimal(n)[0]),
    decreases n,
{
    let s = decimal(n);
    if n < 10 {
        assert(s.drop_last() =~= Seq::empty());
        assert(digits_value(s.drop_last()) == Some(0nat));
    } else {
        lemma_decimal(n / 10);
        assert(s.drop_last() =~= decimal(n / 10));
        assert(s[0] == decimal(n / 10)[0]);
    }
}

proof fn lemma_no_value(s: Seq<char>, i: int)
    requires
        0 <= i < s.len(),
        !is_digit(s[i]),
    ensures
        digits_value(s) is None,
    decreases s.len(),
{
    if i < s.len() - 1 {
        lemma_no_value(s.drop_last(), i);
    }
}

/// A prefix is taken off where it stands, and a character wherever it does.
pub proof fn parts_are_taken_off(p: Seq<char>, s: Seq<char>, c: char, d: char)
    ensures
        without_prefix(p + s, p) == Some(s),
        !p.is_prefix_of(s) ==> without_prefix(s, p) is None,
        without_char(s.push(c), c) == without_char(s, c),
        c != d ==> without_char(s.push(d), c) == without_char(s, c).push(d),
        without_char(Seq::empty(), c).len() == 0,
        replaced(s.push(c), c, d) == replaced(s, c, d).push(d),
        holds(p + s, p) && holds(s + p, p),
{
    assert(p.is_prefix_of(p + s));
    assert((p + s).skip(p.len() as int) =~= s);
    assert(s.push(c).drop_last() =~= s);
    assert(s.push(d).drop_last() =~= s);
    assert(replaced(s.push(c), c, d) =~= replaced(s, c, d).push(d));
    assert((p + s).subrange(0, p.len() as int) =~= p);
    assert(occurs_at(p + s, p, 0));
    assert((s + p).subrange(s.len() as int, s.len() as int + p.len()) =~= p);
    assert(occurs_at(s + p, p, s.len() as int));
}

} // verus!
