//! The mathematical model of a document and of the operations on the
//! members of an object.

use vstd::prelude::*;

verus! {

/// The model of a document value.
///
/// An object is the sequence of its members in document order; a member is a
/// key and a value. A number is the text of its literal.
pub enum Json {
    Null,
    Bool(bool),
    Number(Seq<char>),
    Text(Seq<char>),
    Array(Seq<Json>),
    Object(Seq<(Seq<char>, Json)>),
}

/// The position of the first member with the given key, or the number of
/// members if no member has it.
pub open spec fn index_of(members: Seq<(Seq<char>, Json)>, key: Seq<char>) -> int
    decreases members.len(),
{
    if members.len() == 0 {
        0
    } else if members[0].0 == key {
        0
    } else {
        1 + index_of(members.skip(1), key)
    }
}

/// Whether some member has the given key.
pub open spec fn has_key(members: Seq<(Seq<char>, Json)>, key: Seq<char>) -> bool {
    index_of(members, key) < members.len()
}

/// The value of the first member with the given key.
pub open spec fn lookup(members: Seq<(Seq<char>, Json)>, key: Seq<char>) -> Option<Json> {
    if has_key(members, key) {
        Some(members[index_of(members, key)].1)
    } else {
        None
    }
}

/// The members after `key` is given `value`: the first member with that key
/// is replaced where it stands, and a new member is added at the end if
/// there is none.
pub open spec fn put(members: Seq<(Seq<char>, Json)>, key: Seq<char>, value: Json) -> Seq<
    (Seq<char>, Json),
> {
    if has_key(members, key) {
        members.update(index_of(members, key), (key, value))
    } else {
        members.push((key, value))
    }
}

/// The keys of the members, as a set.
pub open spec fn key_set(members: Seq<(Seq<char>, Json)>) -> Set<Seq<char>> {
    Set::new(|key: Seq<char>| has_key(members, key))
}

/// No two members have the same key.
pub open spec fn distinct_keys(members: Seq<(Seq<char>, Json)>) -> bool {
    forall|i: int, j: int|
        0 <= i < j < members.len() ==> (#[trigger] members[i]).0 != (#[trigger] members[j]).0
}

/// `i` is the position of the first member with the given key.
pub open spec fn is_first(members: Seq<(Seq<char>, Json)>, key: Seq<char>, i: int) -> bool {
    &&& 0 <= i < members.len()
    &&& members[i].0 == key
    &&& forall|j: int| 0 <= j < i ==> (#[trigger] members[j]).0 != key
}

impl Json {
    /// The value under `key`, if this is an object that has the key.
    pub open spec fn get(self, key: Seq<char>) -> Option<Json> {
        match self {
            Json::Object(members) => lookup(members, key),
            _ => None,
        }
    }

    /// Every object in the tree has distinct keys.
    pub open spec fn wf(self) -> bool
        decreases self,
    {
        match self {
            Json::Array(items) => forall|i: int| 0 <= i < items.len() ==> (#[trigger] items[i]).wf(),
            Json::Object(members) => {
                &&& distinct_keys(members)
                &&& forall|i: int| 0 <= i < members.len() ==> (#[trigger] members[i]).1.wf()
            },
            _ => true,
        }
    }
}

/// `index_of` gives the first position of the key where there is one, and
/// the length where there is none.
pub proof fn lemma_index_of(members: Seq<(Seq<char>, Json)>, key: Seq<char>)
    ensures
        0 <= index_of(members, key) <= members.len(),
        has_key(members, key) ==> is_first(members, key, index_of(members, key)),
        !has_key(members, key) ==> forall|j: int|
            0 <= j < members.len() ==> (#[trigger] members[j]).0 != key,
    decreases members.len(),
{
    if members.len() != 0 && members[0].0 != key {
        let rest = members.skip(1);
        lemma_index_of(rest, key);
        let p = index_of(rest, key);
        assert forall|j: int| 0 <= j < p + 1 implies (#[trigger] members[j]).0 != key by {
            if j > 0 {
                assert(rest[j - 1] == members[j]);
            }
        }
        if p < rest.len() {
            assert(rest[p] == members[p + 1]);
        } else {
            assert forall|j: int| 0 <= j < members.len() implies (#[trigger] members[j]).0
                != key by {
                if j > 0 {
                    assert(rest[j - 1] == members[j]);
                }
            }
        }
    }
}

/// A position that holds the key, with no earlier one that does, is the one
/// that `index_of` gives.
pub proof fn lemma_first_is_index(members: Seq<(Seq<char>, Json)>, key: Seq<char>, i: int)
    requires
        is_first(members, key, i),
    ensures
        index_of(members, key) == i,
        has_key(members, key),
        lookup(members, key) == Some(members[i].1),
{
    lemma_index_of(members, key);
    let p = index_of(members, key);
    if p < members.len() {
        if p < i {
            assert(members[p].0 != key);
        } else if i < p {
            assert(members[i].0 != key);
        }
    } else {
        assert(members[i].0 != key);
    }
}

/// A key that no member holds is not found.
pub proof fn lemma_absent(members: Seq<(Seq<char>, Json)>, key: Seq<char>)
    requires
        forall|j: int| 0 <= j < members.len() ==> (#[trigger] members[j]).0 != key,
    ensures
        !has_key(members, key),
        index_of(members, key) == members.len(),
        lookup(members, key) is None,
{
    lemma_index_of(members, key);
    let p = index_of(members, key);
    if p < members.len() {
        assert(members[p].0 != key);
    }
}

/// `put` leaves every other key as it was.
pub proof fn lemma_put_other(
    members: Seq<(Seq<char>, Json)>,
    key: Seq<char>,
    value: Json,
    other: Seq<char>,
)
    requires
        other != key,
    ensures
        lookup(put(members, key, value), other) == lookup(members, other),
        has_key(put(members, key, value), other) == has_key(members, other),
        index_of(put(members, key, value), other) == if has_key(members, other) {
            index_of(members, other)
        } else {
            put(members, key, value).len() as int
        },
{
    let after = put(members, key, value);
    lemma_index_of(members, key);
    let p = index_of(members, key);
    lemma_index_of(members, other);
    let q = index_of(members, other);
    if has_key(members, other) {
        assert(after[q] == members[q]);
        assert forall|j: int| 0 <= j < q implies (#[trigger] after[j]).0 != other by {
            if j != p {
                assert(after[j] == members[j]);
            }
        }
        lemma_first_is_index(after, other, q);
    } else {
        assert forall|j: int| 0 <= j < after.len() implies (#[trigger] after[j]).0 != other by {
            if j < members.len() && j != p {
                assert(after[j] == members[j]);
            }
        }
        lemma_absent(after, other);
    }
}

/// What `put` does to the members: the key is found afterwards with the new
/// value, every other key is found as before, and distinct keys stay
/// distinct.
pub proof fn lemma_put(members: Seq<(Seq<char>, Json)>, key: Seq<char>, value: Json)
    ensures
        lookup(put(members, key, value), key) == Some(value),
        has_key(put(members, key, value), key),
        forall|other: Seq<char>|
            other != key ==> #[trigger] lookup(put(members, key, value), other) == lookup(
                members,
                other,
            ),
        forall|other: Seq<char>|
            other != key ==> #[trigger] has_key(put(members, key, value), other) == has_key(
                members,
                other,
            ),
        distinct_keys(members) ==> distinct_keys(put(members, key, value)),
        key_set(put(members, key, value)) == key_set(members).insert(key),
{
    let after = put(members, key, value);
    lemma_index_of(members, key);
    let p = index_of(members, key);
    if has_key(members, key) {
        assert(after[p] == (key, value));
        assert forall|j: int| 0 <= j < p implies (#[trigger] after[j]).0 != key by {
            assert(after[j] == members[j]);
        }
        lemma_first_is_index(after, key, p);
    } else {
        assert(after[members.len() as int] == (key, value));
        assert forall|j: int| 0 <= j < members.len() implies (#[trigger] after[j]).0 != key by {
            assert(after[j] == members[j]);
        }
        lemma_first_is_index(after, key, members.len() as int);
    }
    assert forall|other: Seq<char>| other != key implies #[trigger] lookup(after, other)
        == lookup(members, other) by {
        lemma_put_other(members, key, value, other);
    }
    assert forall|other: Seq<char>| other != key implies #[trigger] has_key(after, other)
        == has_key(members, other) by {
        lemma_put_other(members, key, value, other);
    }
    if distinct_keys(members) {
        assert forall|i: int, j: int| 0 <= i < j < after.len() implies (#[trigger] after[i]).0 != (
        #[trigger] after[j]).0 by {
            if has_key(members, key) {
                if i == p {
                    assert(members[i].0 != members[j].0);
                } else if j == p {
                    assert(members[i].0 != members[j].0);
                } else {
                    assert(members[i].0 != members[j].0);
                }
            } else {
                if j == members.len() {
                    assert(members[i].0 != key);
                } else {
                    assert(members[i].0 != members[j].0);
                }
            }
        }
    }
    assert(key_set(after) =~= key_set(members).insert(key)) by {
        assert forall|k: Seq<char>| key_set(after).contains(k) == key_set(members).insert(
            key,
        ).contains(k) by {
            if k != key {
                lemma_put_other(members, key, value, k);
            }
        }
    }
}

/// A key is found exactly when some member holds it.
pub proof fn lemma_has_key(members: Seq<(Seq<char>, Json)>, key: Seq<char>)
    ensures
        has_key(members, key) <==> exists|i: int|
            0 <= i < members.len() && (#[trigger] members[i]).0 == key,
{
    lemma_index_of(members, key);
    if has_key(members, key) {
        assert(members[index_of(members, key)].0 == key);
    }
}

/// Giving a key a value twice is giving it the second value.
pub proof fn lemma_put_twice(
    members: Seq<(Seq<char>, Json)>,
    key: Seq<char>,
    first: Json,
    second: Json,
)
    ensures
        put(put(members, key, first), key, second) == put(members, key, second),
{
    let once = put(members, key, first);
    lemma_put(members, key, first);
    lemma_index_of(members, key);
    lemma_index_of(once, key);
    if has_key(members, key) {
        let p = index_of(members, key);
        assert(once[p] == (key, first));
        assert forall|j: int| 0 <= j < p implies (#[trigger] once[j]).0 != key by {
            assert(once[j] == members[j]);
        }
        lemma_first_is_index(once, key, p);
        assert(put(once, key, second) =~= put(members, key, second));
    } else {
        let p = members.len() as int;
        assert(once[p] == (key, first));
        assert forall|j: int| 0 <= j < p implies (#[trigger] once[j]).0 != key by {
            assert(once[j] == members[j]);
        }
        lemma_first_is_index(once, key, p);
        assert(put(once, key, second) =~= put(members, key, second));
    }
}

/// The members of a well-formed object stay those of one when a key is
/// given a well-formed value.
pub proof fn lemma_put_wf(members: Seq<(Seq<char>, Json)>, key: Seq<char>, value: Json)
    requires
        Json::Object(members).wf(),
        value.wf(),
    ensures
        Json::Object(put(members, key, value)).wf(),
{
    let after = put(members, key, value);
    lemma_put(members, key, value);
    lemma_index_of(members, key);
    assert forall|i: int| 0 <= i < after.len() implies (#[trigger] after[i]).1.wf() by {
        if has_key(members, key) {
            if i != index_of(members, key) {
                assert(after[i] == members[i]);
            }
        } else {
            if i < members.len() {
                assert(after[i] == members[i]);
            }
        }
    }
}

/// An array is well formed exactly when each of its items is.
pub proof fn lemma_array_wf(items: Seq<Json>)
    ensures
        Json::Array(items).wf() <==> forall|i: int|
            0 <= i < items.len() ==> (#[trigger] items[i]).wf(),
{
    assert(Json::Array(items) matches Json::Array(held) && held == items);
}

/// The value found under a key of a well-formed object is well formed.
pub proof fn lemma_lookup_wf(members: Seq<(Seq<char>, Json)>, key: Seq<char>)
    requires
        Json::Object(members).wf(),
    ensures
        lookup(members, key) matches Some(value) ==> value.wf(),
{
    lemma_index_of(members, key);
    if has_key(members, key) {
        assert(members[index_of(members, key)].1.wf());
    }
}

} // verus!
