use vstd::prelude::*;

verus! {

/// A JSON value, holding as plain values what the annotation logic reads.
///
/// Numbers are kept as `Unsigned` when they are non-negative integers that
/// fit in a `u64`; every other number is `OtherNumber`. An object is its
/// members in document order; looking a key up finds its first member.
#[derive(Debug)]
pub enum Json {
    Null,
    Bool(bool),
    Unsigned(u64),
    OtherNumber,
    Str(String),
    Array(Vec<Json>),
    Object(Vec<(String, Json)>),
}

/// `i` is the position of the first member of `members` named `key`.
pub open spec fn first_member_at(members: Seq<(String, Json)>, key: Seq<char>, i: int) -> bool {
    &&& 0 <= i < members.len()
    &&& members[i].0@ == key
    &&& forall|j: int| 0 <= j < i ==> members[j].0@ != key
}

/// The value of the first member named `key`, if any.
pub open spec fn member_spec(members: Seq<(String, Json)>, key: Seq<char>) -> Option<Json> {
    if exists|i: int| first_member_at(members, key, i) {
        Some(members[choose|i: int| first_member_at(members, key, i)].1)
    } else {
        None
    }
}

/// The field `key` of `v`: present only when `v` is an object with such a member.
pub open spec fn field_spec(v: Json, key: Seq<char>) -> Option<Json> {
    match v {
        Json::Object(members) => member_spec(members@, key),
        _ => None,
    }
}

/// The string that `v` holds, if it is a string.
pub open spec fn string_spec(v: Option<Json>) -> Option<Seq<char>> {
    match v {
        Some(Json::Str(s)) => Some(s@),
        _ => None,
    }
}

/// The unsigned integer that `v` holds, if it is one.
pub open spec fn u64_spec(v: Option<Json>) -> Option<u64> {
    match v {
        Some(Json::Unsigned(n)) => Some(n),
        _ => None,
    }
}

proof fn lemma_first_member_unique(members: Seq<(String, Json)>, key: Seq<char>, i: int)
    requires
        first_member_at(members, key, i),
    ensures
        member_spec(members, key) == Some(members[i].1),
{
    let k = choose|k: int| first_member_at(members, key, k);
    assert(first_member_at(members, key, k));
    assert(k == i) by {
        if k < i {
            assert(members[k].0@ != key);
        } else if i < k {
            assert(members[i].0@ != key);
        }
    }
}

impl Json {
    /// The value of the field `key`, when `self` is an object that has one.
    pub fn get(&self, key: &String) -> (r: Option<&Json>)
        ensures
            match (r, field_spec(*self, key@)) {
                (Some(x), Some(y)) => *x == y,
                (None, None) => true,
                _ => false,
            },
    {
        match self {
            Json::Object(members) => {
                let mut i: usize = 0;
                while i < members.len()
                    invariant
                        i <= members@.len(),
                        field_spec(*self, key@) == member_spec(members@, key@),
                        forall|j: int| 0 <= j < i ==> members@[j].0@ != key@,
                    decreases members@.len() - i,
                {
                    if members[i].0 == *key {
                        proof {
                            lemma_first_member_unique(members@, key@, i as int);
                        }
                        return Some(&members[i].1);
                    }
                    i = i + 1;
                }
                None
            },
            _ => None,
        }
    }

    /// The elements, when `self` is an array.
    pub fn as_array(&self) -> (r: Option<&Vec<Json>>)
        ensures
            match (r, *self) {
                (Some(x), Json::Array(items)) => *x == items,
                (None, Json::Array(_)) => false,
                (Some(_), _) => false,
                (None, _) => true,
            },
    {
        match self {
            Json::Array(items) => Some(items),
            _ => None,
        }
    }
}

/// The string held by an optional value, copied out.
pub fn json_string(value: Option<&Json>) -> (r: Option<String>)
    ensures
        match (r, value) {
            (Some(s), Some(v)) => string_spec(Some(*v)) == Some(s@),
            (None, Some(v)) => string_spec(Some(*v)).is_none(),
            (Some(_), None) => false,
            (None, None) => true,
        },
{
    match value {
        Some(Json::Str(s)) => Some(s.clone()),
        _ => None,
    }
}

/// The unsigned integer held by an optional value.
pub fn json_u64(value: Option<&Json>) -> (r: Option<u64>)
    ensures
        match value {
            Some(v) => r == u64_spec(Some(*v)),
            None => r.is_none(),
        },
{
    match value {
        Some(Json::Unsigned(n)) => Some(*n),
        _ => None,
    }
}

} // verus!
