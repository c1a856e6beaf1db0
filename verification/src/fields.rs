//! Values by name, in the order of their names.

use vstd::prelude::*;

use crate::json::{lookup, Json, JsonView};
use crate::order::{
    lemma_precedes_irreflexive, lemma_precedes_total, lemma_precedes_transitive, precedes,
    str_precedes,
};
use crate::text::str_eq;

verus! {

/// The names and values of a list of fields.
pub open spec fn field_views(fields: Seq<(String, Json)>) -> Seq<(Seq<char>, JsonView)> {
    Seq::new(fields.len(), |i: int| (fields[i].0@, fields[i].1@))
}

/// The names ascend, so none stands twice.
pub open spec fn ascending(fields: Seq<(Seq<char>, JsonView)>) -> bool {
    forall|i: int, j: int|
        0 <= i < j < fields.len() ==> precedes((#[trigger] fields[i]).0, (#[trigger] fields[j]).0)
}

/// How many names stand before this one.
pub open spec fn place(fields: Seq<(Seq<char>, JsonView)>, name: Seq<char>) -> int
    decreases fields.len(),
{
    if fields.len() == 0 || !precedes(fields[0].0, name) {
        0
    } else {
        1 + place(fields.drop_first(), name)
    }
}

pub open spec fn has_at(fields: Seq<(Seq<char>, JsonView)>, name: Seq<char>, at: int) -> bool {
    at < fields.len() && fields[at].0 == name
}

/// The fields with this value under the name.
pub open spec fn put(
    fields: Seq<(Seq<char>, JsonView)>,
    name: Seq<char>,
    value: JsonView,
) -> Seq<(Seq<char>, JsonView)> {
    let at = place(fields, name);
    if has_at(fields, name, at) {
        fields.update(at, (name, value))
    } else {
        fields.insert(at, (name, value))
    }
}

/// The fields without this name.
pub open spec fn without(fields: Seq<(Seq<char>, JsonView)>, name: Seq<char>) -> Seq<
    (Seq<char>, JsonView),
> {
    let at = place(fields, name);
    if has_at(fields, name, at) {
        fields.remove(at)
    } else {
        fields
    }
}

pub proof fn lemma_place(fields: Seq<(Seq<char>, JsonView)>, name: Seq<char>)
    ensures
        0 <= place(fields, name) <= fields.len(),
        forall|i: int| 0 <= i < place(fields, name) ==> precedes((#[trigger] fields[i]).0, name),
        place(fields, name) < fields.len() ==> !precedes(fields[place(fields, name)].0, name),
    decreases fields.len(),
{
    if fields.len() > 0 && precedes(fields[0].0, name) {
        let rest = fields.drop_first();
        lemma_place(rest, name);
        assert forall|i: int| 0 <= i < place(fields, name) implies precedes(
            (#[trigger] fields[i]).0,
            name,
        ) by {
            if i > 0 {
                assert(fields[i] == rest[i - 1]);
            }
        }
    }
}

/// Where a name stands, there its value is found.
pub proof fn lemma_lookup_at(fields: Seq<(Seq<char>, JsonView)>, at: int)
    requires
        ascending(fields),
        0 <= at < fields.len(),
    ensures
        lookup(fields, fields[at].0) == Some(fields[at].1),
    decreases at,
{
    if at > 0 {
        lemma_precedes_irreflexive(fields[at].0);
        assert(precedes(fields[0].0, fields[at].0));
        let rest = fields.drop_first();
        assert forall|i: int, j: int| 0 <= i < j < rest.len() implies precedes(
            (#[trigger] rest[i]).0,
            (#[trigger] rest[j]).0,
        ) by {
            assert(rest[i] == fields[i + 1] && rest[j] == fields[j + 1]);
        }
        lemma_lookup_at(rest, at - 1);
        assert(rest[at - 1] == fields[at]);
    }
}

/// A name that stands nowhere has no value.
pub proof fn lemma_lookup_none(fields: Seq<(Seq<char>, JsonView)>, name: Seq<char>)
    requires
        forall|i: int| 0 <= i < fields.len() ==> (#[trigger] fields[i]).0 != name,
    ensures
        lookup(fields, name) is None,
    decreases fields.len(),
{
    if fields.len() > 0 {
        let rest = fields.drop_first();
        assert forall|i: int| 0 <= i < rest.len() implies (#[trigger] rest[i]).0 != name by {
            assert(rest[i] == fields[i + 1]);
        }
        lemma_lookup_none(rest, name);
    }
}

/// In ascending fields a name stands in its place or nowhere.
pub proof fn lemma_in_place(fields: Seq<(Seq<char>, JsonView)>, name: Seq<char>)
    requires
        ascending(fields),
    ensures
        forall|i: int|
            0 <= i < fields.len() && (#[trigger] fields[i]).0 == name ==> i == place(fields, name),
        forall|i: int|
            place(fields, name) < i < fields.len() ==> precedes(name, (#[trigger] fields[i]).0),
        !has_at(fields, name, place(fields, name)) && place(fields, name) < fields.len()
            ==> precedes(name, fields[place(fields, name)].0),
        lookup(fields, name) is Some <==> has_at(fields, name, place(fields, name)),
{
    let at = place(fields, name);
    lemma_place(fields, name);
    if at < fields.len() {
        lemma_precedes_total(fields[at].0, name);
        assert forall|i: int| at < i < fields.len() implies precedes(
            name,
            (#[trigger] fields[i]).0,
        ) by {
            assert(precedes(fields[at].0, fields[i].0));
            if fields[at].0 != name {
                lemma_precedes_transitive(name, fields[at].0, fields[i].0);
            }
        }
    }
    lemma_precedes_irreflexive(name);
    if has_at(fields, name, at) {
        lemma_lookup_at(fields, at);
    } else {
        assert forall|i: int| 0 <= i < fields.len() implies (#[trigger] fields[i]).0 != name by {}
        lemma_lookup_none(fields, name);
    }
}

/// A value that was put under a name is found there, all other names keep
/// theirs, and the names stay in order.
pub proof fn put_values_are_found(
    fields: Seq<(Seq<char>, JsonView)>,
    name: Seq<char>,
    value: JsonView,
)
    requires
        ascending(fields),
    ensures
        ascending(put(fields, name, value)),
        lookup(put(fields, name, value), name) == Some(value),
        forall|other: Seq<char>|
            other != name ==> #[trigger] lookup(put(fields, name, value), other) == lookup(
                fields,
                other,
            ),
{
    let at = place(fields, name);
    let after = put(fields, name, value);
    lemma_place(fields, name);
    lemma_in_place(fields, name);
    let shift: int = if has_at(fields, name, at) {
        0
    } else {
        1
    };
    assert forall|i: int| at < i < after.len() implies after[i] == fields[i - shift] by {}
    assert forall|i: int, j: int| 0 <= i < j < after.len() implies precedes(
        (#[trigger] after[i]).0,
        (#[trigger] after[j]).0,
    ) by {
        if i < at && j > at {
            assert(precedes(fields[i].0, fields[j - shift].0));
        } else if i < at && j < at {
            assert(precedes(fields[i].0, fields[j].0));
        } else if i > at {
            assert(precedes(fields[i - shift].0, fields[j - shift].0));
        } else if i == at {
            assert(precedes(name, fields[j - shift].0));
        }
    }
    assert(after[at] == (name, value));
    lemma_lookup_at(after, at);
    assert forall|other: Seq<char>| other != name implies #[trigger] lookup(after, other) == lookup(
        fields,
        other,
    ) by {
        lemma_in_place(fields, other);
        lemma_in_place(after, other);
        let there = place(fields, other);
        lemma_place(fields, other);
        lemma_place(after, other);
        if has_at(fields, other, there) {
            let moved = if there < at {
                there
            } else {
                there + shift
            };
            assert(after[moved] == fields[there]);
            lemma_lookup_at(fields, there);
            lemma_lookup_at(after, moved);
        } else {
            let p = place(after, other);
            if has_at(after, other, p) {
                let back = if p < at {
                    p
                } else {
                    p - shift
                };
                assert(fields[back] == after[p]);
            }
        }
    }
}

/// A removed name is gone, all others keep their values, and the names stay in
/// order.
pub proof fn removed_names_are_gone(fields: Seq<(Seq<char>, JsonView)>, name: Seq<char>)
    requires
        ascending(fields),
    ensures
        ascending(without(fields, name)),
        lookup(without(fields, name), name) is None,
        forall|other: Seq<char>|
            other != name ==> #[trigger] lookup(without(fields, name), other) == lookup(
                fields,
                other,
            ),
{
    let at = place(fields, name);
    let after = without(fields, name);
    lemma_place(fields, name);
    lemma_in_place(fields, name);
    if has_at(fields, name, at) {
        assert forall|i: int| 0 <= i < after.len() implies #[trigger] after[i] == fields[if i < at {
            i
        } else {
            i + 1
        }] by {}
        assert forall|i: int, j: int| 0 <= i < j < after.len() implies precedes(
            (#[trigger] after[i]).0,
            (#[trigger] after[j]).0,
        ) by {
            let i0 = if i < at {
                i
            } else {
                i + 1
            };
            let j0 = if j < at {
                j
            } else {
                j + 1
            };
            assert(precedes(fields[i0].0, fields[j0].0));
        }
        lemma_in_place(after, name);
        lemma_place(after, name);
        assert forall|i: int| 0 <= i < after.len() implies (#[trigger] after[i]).0 != name by {}
        lemma_lookup_none(after, name);
        assert forall|other: Seq<char>| other != name implies #[trigger] lookup(after, other)
            == lookup(fields, other) by {
            lemma_in_place(fields, other);
            lemma_in_place(after, other);
            lemma_place(fields, other);
            lemma_place(after, other);
            let there = place(fields, other);
            if has_at(fields, other, there) {
                let moved = if there < at {
                    there
                } else {
                    there - 1
                };
                assert(after[moved] == fields[there]);
                lemma_lookup_at(fields, there);
                lemma_lookup_at(after, moved);
            } else {
                let p = place(after, other);
                if has_at(after, other, p) {
                    let back = if p < at {
                        p
                    } else {
                        p + 1
                    };
                    assert(fields[back] == after[p]);
                }
            }
        }
    }
}

fn find_place(fields: &Vec<(String, Json)>, name: &str) -> (r: usize)
    ensures
        r == place(field_views(fields@), name@),
        r <= fields@.len(),
{
    let ghost all = field_views(fields@);
    let mut i: usize = 0;
    assert(all.skip(0) =~= all);
    while i < fields.len()
        invariant
            i <= fields@.len(),
            all == field_views(fields@),
            place(all, name@) == i + place(all.skip(i as int), name@),
        decreases fields@.len() - i,
    {
        assert(all.skip(i as int).drop_first() =~= all.skip(i + 1));
        assert(all[i as int].0 == fields@[i as int].0@);
        if !str_precedes(fields[i].0.as_str(), name) {
            return i;
        }
        i = i + 1;
    }
    i
}

/// Puts a value under a name.
pub fn put_field(fields: &mut Vec<(String, Json)>, name: String, value: Json)
    ensures
        field_views(final(fields)@) == put(field_views(old(fields)@), name@, value@),
{
    let ghost before = fields@;
    let at: usize = find_place(fields, name.as_str());
    if at < fields.len() && str_eq(fields[at].0.as_str(), name.as_str()) {
        fields.set(at, (name, value));
    } else {
        fields.insert(at, (name, value));
    }
    assert(field_views(fields@) =~= put(field_views(before), name@, value@));
}

/// Takes the value of a name away.
pub fn take_field(fields: &mut Vec<(String, Json)>, name: &str) -> (r: Option<Json>)
    ensures
        field_views(final(fields)@) == without(field_views(old(fields)@), name@),
        match r {
            Some(value) => place_value(field_views(old(fields)@), name@) == Some(value@),
            None => place_value(field_views(old(fields)@), name@) is None,
        },
{
    let ghost before = fields@;
    let at: usize = find_place(fields, name);
    if at < fields.len() && str_eq(fields[at].0.as_str(), name) {
        let (_, value) = fields.remove(at);
        assert(field_views(fields@) =~= without(field_views(before), name@));
        Some(value)
    } else {
        None
    }
}

/// The value in the place of a name.
pub open spec fn place_value(fields: Seq<(Seq<char>, JsonView)>, name: Seq<char>) -> Option<
    JsonView,
> {
    let at = place(fields, name);
    if has_at(fields, name, at) {
        Some(fields[at].1)
    } else {
        None
    }
}

/// In ascending fields the value in the place of a name is the name's value.
pub proof fn lemma_place_value(fields: Seq<(Seq<char>, JsonView)>, name: Seq<char>)
    requires
        ascending(fields),
    ensures
        place_value(fields, name) == lookup(fields, name),
{
    lemma_in_place(fields, name);
    lemma_place(fields, name);
    if has_at(fields, name, place(fields, name)) {
        lemma_lookup_at(fields, place(fields, name));
    }
}

/// Whether a name has a value.
pub fn has_field(fields: &Vec<(String, Json)>, name: &str) -> (r: bool)
    ensures
        r == (place_value(field_views(fields@), name@) is Some),
{
    let at: usize = find_place(fields, name);
    at < fields.len() && str_eq(fields[at].0.as_str(), name)
}

/// The value of a name.
pub fn get_field<'a>(fields: &'a Vec<(String, Json)>, name: &str) -> (r: Option<&'a Json>)
    ensures
        match r {
            Some(value) => place_value(field_views(fields@), name@) == Some(value@),
            None => place_value(field_views(fields@), name@) is None,
        },
{
    let at: usize = find_place(fields, name);
    if at < fields.len() && str_eq(fields[at].0.as_str(), name) {
        assert(field_views(fields@)[at as int].1 == fields@[at as int].1@);
        Some(&fields[at].1)
    } else {
        None
    }
}

/// An object holds its fields.
pub fn object_of(fields: Vec<(String, Json)>) -> (r: Json)
    ensures
        r@ == JsonView::Object(field_views(fields@)),
{
    let r = Json::Object(fields);
    assert(r@->Object_0 =~= field_views(fields@));
    r
}

} // verus!
