//! Sorted lists of strings without repetitions.

use vstd::prelude::*;

use crate::text::{chars_of, views};

verus! {

/// Strings in the order of their code points.
pub open spec fn precedes(a: Seq<char>, b: Seq<char>) -> bool
    decreases a.len(),
{
    if b.len() == 0 {
        false
    } else if a.len() == 0 {
        true
    } else if a[0] == b[0] {
        precedes(a.drop_first(), b.drop_first())
    } else {
        a[0] < b[0]
    }
}

pub proof fn lemma_precedes_common(a: Seq<char>, b: Seq<char>, i: int)
    requires
        0 <= i <= a.len(),
        i <= b.len(),
        forall|j: int| 0 <= j < i ==> a[j] == b[j],
    ensures
        precedes(a, b) == precedes(a.skip(i), b.skip(i)),
    decreases i,
{
    if i == 0 {
        assert(a.skip(0) =~= a);
        assert(b.skip(0) =~= b);
    } else {
        let x = a.drop_first();
        let y = b.drop_first();
        assert forall|j: int| 0 <= j < i - 1 implies x[j] == y[j] by {
            assert(x[j] == a[j + 1]);
            assert(y[j] == b[j + 1]);
        }
        lemma_precedes_common(x, y, i - 1);
        assert(x.skip(i - 1) =~= a.skip(i));
        assert(y.skip(i - 1) =~= b.skip(i));
    }
}

pub proof fn lemma_precedes_irreflexive(a: Seq<char>)
    ensures
        !precedes(a, a),
    decreases a.len(),
{
    if a.len() > 0 {
        lemma_precedes_irreflexive(a.drop_first());
    }
}

pub proof fn lemma_precedes_transitive(a: Seq<char>, b: Seq<char>, c: Seq<char>)
    requires
        precedes(a, b),
        precedes(b, c),
    ensures
        precedes(a, c),
    decreases a.len(),
{
    if a.len() > 0 && a[0] == b[0] && b[0] == c[0] {
        lemma_precedes_transitive(a.drop_first(), b.drop_first(), c.drop_first());
    }
}

pub proof fn lemma_precedes_total(a: Seq<char>, b: Seq<char>)
    ensures
        precedes(a, b) || precedes(b, a) || a == b,
    decreases a.len(),
{
    if a.len() > 0 && b.len() > 0 {
        if a[0] == b[0] {
            lemma_precedes_total(a.drop_first(), b.drop_first());
            if a.drop_first() == b.drop_first() {
                assert(a =~= seq![a[0]] + a.drop_first());
                assert(b =~= seq![b[0]] + b.drop_first());
            }
        }
    } else if a.len() == 0 && b.len() == 0 {
        assert(a =~= b);
    }
}

/// Whether the first string stands before the second.
pub fn str_precedes(a: &str, b: &str) -> (r: bool)
    ensures
        r == precedes(a@, b@),
{
    let x = chars_of(a);
    let y = chars_of(b);
    let mut i: usize = 0;
    while i < x.len() && i < y.len() && x[i] == y[i]
        invariant
            i <= x@.len(),
            i <= y@.len(),
            forall|j: int| 0 <= j < i ==> x@[j] == y@[j],
        decreases x@.len() - i,
    {
        i = i + 1;
    }
    proof {
        lemma_precedes_common(x@, y@, i as int);
    }
    if i == y.len() {
        false
    } else if i == x.len() {
        true
    } else {
        x[i] < y[i]
    }
}

/// Every string stands before every later one.
pub open spec fn is_ascending(s: Seq<Seq<char>>) -> bool {
    forall|i: int, j: int| 0 <= i < j < s.len() ==> precedes(#[trigger] s[i], #[trigger] s[j])
}

/// `s` is `parts` in ascending order, each string once.
pub open spec fn is_sorted_set_of(s: Seq<Seq<char>>, parts: Seq<Seq<char>>) -> bool {
    &&& is_ascending(s)
    &&& forall|x: Seq<char>| #[trigger] s.contains(x) <==> parts.contains(x)
}

/// There is only one ascending list of the same strings.
pub proof fn lemma_sorted_set_unique(a: Seq<Seq<char>>, b: Seq<Seq<char>>, parts: Seq<Seq<char>>)
    requires
        is_sorted_set_of(a, parts),
        is_sorted_set_of(b, parts),
    ensures
        a == b,
    decreases a.len(),
{
    if a.len() == 0 {
        if b.len() > 0 {
            assert(b.contains(b[0]));
            assert(a.contains(b[0]));
        }
        assert(a =~= b);
    } else {
        assert(a.contains(a[0]));
        assert(b.contains(a[0]));
        let k = choose|k: int| 0 <= k < b.len() && b[k] == a[0];
        if k > 0 {
            assert(b.contains(b[0]));
            assert(a.contains(b[0]));
            let l = choose|l: int| 0 <= l < a.len() && a[l] == b[0];
            assert(precedes(b[0], b[k]));
            if l > 0 {
                assert(precedes(a[0], a[l]));
                lemma_precedes_transitive(a[0], b[0], a[0]);
            }
            lemma_precedes_irreflexive(a[0]);
        }
        assert(b[0] == a[0]);
        let x = a.drop_first();
        let y = b.drop_first();
        assert forall|s: Seq<char>| #[trigger] x.contains(s) <==> y.contains(s) by {
            if x.contains(s) {
                let i = choose|i: int| 0 <= i < x.len() && x[i] == s;
                assert(a[i + 1] == s);
                assert(precedes(a[0], a[i + 1]));
                lemma_precedes_irreflexive(s);
                assert(a.contains(s));
                assert(b.contains(s));
                let j = choose|j: int| 0 <= j < b.len() && b[j] == s;
                assert(y[j - 1] == s);
            }
            if y.contains(s) {
                let i = choose|i: int| 0 <= i < y.len() && y[i] == s;
                assert(b[i + 1] == s);
                assert(precedes(b[0], b[i + 1]));
                lemma_precedes_irreflexive(s);
                assert(b.contains(s));
                assert(a.contains(s));
                let j = choose|j: int| 0 <= j < a.len() && a[j] == s;
                assert(x[j - 1] == s);
            }
        }
        assert forall|i: int, j: int| 0 <= i < j < x.len() implies precedes(
            #[trigger] x[i],
            #[trigger] x[j],
        ) by {
            assert(precedes(a[i + 1], a[j + 1]));
        }
        assert forall|i: int, j: int| 0 <= i < j < y.len() implies precedes(
            #[trigger] y[i],
            #[trigger] y[j],
        ) by {
            assert(precedes(b[i + 1], b[j + 1]));
        }
        lemma_sorted_set_unique(x, y, x);
        assert(a =~= seq![a[0]] + x);
        assert(b =~= seq![b[0]] + y);
    }
}

/// Puts a string in its place in an ascending list, unless it is there.
pub fn insert_sorted(list: &mut Vec<String>, item: String)
    requires
        is_ascending(views(old(list)@)),
    ensures
        is_ascending(views(final(list)@)),
        forall|x: Seq<char>|
            #[trigger] views(final(list)@).contains(x) <==> views(old(list)@).contains(x) || x
                == item@,
{
    let ghost before = views(list@);
    let mut i: usize = 0;
    while i < list.len() && str_precedes(list[i].as_str(), item.as_str())
        invariant
            i <= list@.len(),
            views(list@) == before,
            forall|j: int| 0 <= j < i ==> precedes(#[trigger] before[j], item@),
        decreases list@.len() - i,
    {
        assert(before[i as int] == list@[i as int]@);
        i = i + 1;
    }
    if i < list.len() && crate::text::str_eq(list[i].as_str(), item.as_str()) {
        assert(before[i as int] == item@);
        return ;
    }
    proof {
        if i < before.len() {
            assert(before[i as int] == list@[i as int]@);
            lemma_precedes_total(before[i as int], item@);
        }
    }
    let ghost inserted = item@;
    list.insert(i, item);
    let ghost after = views(list@);
    proof {
        assert(after =~= before.insert(i as int, inserted));
        assert forall|a: int, b: int| 0 <= a < b < after.len() implies precedes(
            #[trigger] after[a],
            #[trigger] after[b],
        ) by {
            if b == i {
                assert(after[a] == before[a]);
            } else if a == i {
                assert(after[b] == before[b - 1]);
                if b - 1 > i {
                    assert(precedes(before[i as int], before[b - 1]));
                    lemma_precedes_transitive(inserted, before[i as int], before[b - 1]);
                }
            } else {
                let a0 = if a < i {
                    a
                } else {
                    a - 1
                };
                let b0 = if b < i {
                    b
                } else {
                    b - 1
                };
                assert(after[a] == before[a0]);
                assert(after[b] == before[b0]);
            }
        }
        assert forall|x: Seq<char>| #[trigger]
            after.contains(x) <==> before.contains(x) || x == inserted by {
            if after.contains(x) {
                let k = choose|k: int| 0 <= k < after.len() && after[k] == x;
                if k < i {
                    assert(before[k] == x);
                } else if k > i {
                    assert(before[k - 1] == x);
                }
            }
            if before.contains(x) {
                let k = choose|k: int| 0 <= k < before.len() && before[k] == x;
                if k < i {
                    assert(after[k] == x);
                } else {
                    assert(after[k + 1] == x);
                }
            }
            if x == inserted {
                assert(after[i as int] == x);
            }
        }
    }
}

/// The strings in ascending order, each once.
pub open spec fn ascending_set(parts: Seq<Seq<char>>) -> Seq<Seq<char>> {
    choose|s: Seq<Seq<char>>| is_sorted_set_of(s, parts)
}

pub proof fn lemma_ascending_set(s: Seq<Seq<char>>, parts: Seq<Seq<char>>)
    requires
        is_sorted_set_of(s, parts),
    ensures
        ascending_set(parts) == s,
{
    lemma_sorted_set_unique(ascending_set(parts), s, parts);
}

/// The strings in ascending order, each once.
pub fn sorted_set(parts: &Vec<String>) -> (r: Vec<String>)
    ensures
        is_sorted_set_of(views(r@), views(parts@)),
        views(r@) == ascending_set(views(parts@)),
{
    let mut r: Vec<String> = Vec::new();
    let mut i: usize = 0;
    while i < parts.len()
        invariant
            i <= parts@.len(),
            is_sorted_set_of(views(r@), views(parts@).take(i as int)),
        decreases parts@.len() - i,
    {
        let ghost done = views(parts@).take(i as int);
        let ghost next = views(parts@).take(i + 1);
        let ghost item = parts@[i as int]@;
        insert_sorted(&mut r, parts[i].clone());
        proof {
            assert(next =~= done.push(item));
            assert forall|x: Seq<char>| #[trigger]
                next.contains(x) <==> done.contains(x) || x == item by {
                if next.contains(x) {
                    let k = choose|k: int| 0 <= k < next.len() && next[k] == x;
                    if k < done.len() {
                        assert(done[k] == x);
                    }
                }
                if done.contains(x) {
                    let k = choose|k: int| 0 <= k < done.len() && done[k] == x;
                    assert(next[k] == x);
                }
                if x == item {
                    assert(next[done.len() as int] == x);
                }
            }
            assert forall|x: Seq<char>| #[trigger]
                views(r@).contains(x) <==> next.contains(x) by {
                assert(done.contains(x) || !done.contains(x));
            }
        }
        i = i + 1;
    }
    assert(views(parts@).take(parts@.len() as int) =~= views(parts@));
    proof {
        lemma_ascending_set(views(r@), views(parts@));
    }
    r
}

/// Texts stand in the order of their first characters that differ, and a text before
/// whatever goes on from it.
pub proof fn first_differences_decide(
    common: Seq<char>,
    a: char,
    b: char,
    s: Seq<char>,
    t: Seq<char>,
)
    ensures
        a < b ==> precedes(common + seq![a] + s, common + seq![b] + t),
        a < b ==> !precedes(common + seq![b] + t, common + seq![a] + s),
        precedes(common, common + seq![a] + s),
        !precedes(common + seq![a] + s, common),
    decreases common.len(),
{
    let x = common + seq![a] + s;
    let y = common + seq![b] + t;
    assert(x.len() > 0 && y.len() > 0);
    if common.len() > 0 {
        let less = common.drop_first();
        first_differences_decide(less, a, b, s, t);
        assert(x.drop_first() =~= less + seq![a] + s);
        assert(y.drop_first() =~= less + seq![b] + t);
        assert(x[0] == common[0] && y[0] == common[0]);
    } else {
        assert(x[0] == a && y[0] == b);
    }
}

} // verus!
