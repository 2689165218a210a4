//! The JSON value type of this crate, its mathematical model, and lookup of
//! object members by key.
//!
//! A `Json` value holds strings as character vectors and numbers as their
//! literal text, so the whole type is plain data. Its model `Jv` replaces
//! every vector by a sequence. Object members keep their textual order;
//! lookup takes the last member with the key, as the wire format's decoder
//! does when duplicate keys survive.

use vstd::prelude::*;
use crate::chars::chars_eq_str;

verus! {

broadcast use vstd::std_specs::vec::group_vec_axioms;

/// A JSON value. Numbers carry their literal text; strings carry their
/// decoded characters.
pub enum Json {
    Null,
    Bool(bool),
    Num(Vec<char>),
    Str(Vec<char>),
    Arr(Vec<Json>),
    Obj(Vec<(Vec<char>, Json)>),
}

/// The mathematical model of a `Json` value.
#[verifier::ext_equal]
pub enum Jv {
    Null,
    Bool(bool),
    Num(Seq<char>),
    Str(Seq<char>),
    Arr(Seq<Jv>),
    Obj(Seq<(Seq<char>, Jv)>),
}

/// The model of a value: vectors become sequences, member for member.
pub open spec fn jm(j: Json) -> Jv
    decreases j,
{
    match j {
        Json::Null => Jv::Null,
        Json::Bool(b) => Jv::Bool(b),
        Json::Num(s) => Jv::Num(s@),
        Json::Str(s) => Jv::Str(s@),
        Json::Arr(v) => Jv::Arr(
            Seq::new(v@.len(), |i: int| if 0 <= i < v@.len() { jm(v@[i]) } else { Jv::Null }),
        ),
        Json::Obj(v) => Jv::Obj(
            Seq::new(
                v@.len(),
                |i: int|
                    if 0 <= i < v@.len() {
                        (v@[i].0@, jm(v@[i].1))
                    } else {
                        (Seq::<char>::empty(), Jv::Null)
                    },
            ),
        ),
    }
}

/// The last member of `fields` whose key is `k`, if any.
pub open spec fn obj_get_m(fields: Seq<(Seq<char>, Jv)>, k: Seq<char>) -> Option<Jv>
    decreases fields.len(),
{
    if fields.len() == 0 {
        None
    } else if fields.last().0 == k {
        Some(fields.last().1)
    } else {
        obj_get_m(fields.drop_last(), k)
    }
}

/// How many members of `fields` bear the key `k`.
pub open spec fn count_key(fields: Seq<(Seq<char>, Jv)>, k: Seq<char>) -> nat
    decreases fields.len(),
{
    if fields.len() == 0 {
        0
    } else {
        count_key(fields.drop_last(), k) + if fields.last().0 == k { 1nat } else { 0nat }
    }
}

/// Member lookup on a value: `None` whenever the value is not an object.
pub open spec fn jget(m: Jv, k: Seq<char>) -> Option<Jv> {
    match m {
        Jv::Obj(fs) => obj_get_m(fs, k),
        _ => None,
    }
}

/// The last member of object `j` with key `k`, as `jget` describes.
pub fn obj_get<'a>(j: &'a Json, k: &str) -> (r: Option<&'a Json>)
    ensures
        match r {
            Some(v) => jget(jm(*j), k@) == Some(jm(*v)),
            None => jget(jm(*j), k@) is None,
        },
{
    match j {
        Json::Obj(fields) => {
            let ghost full: Seq<(Seq<char>, Jv)> = jm(*j)->Obj_0;
            let mut i: usize = fields.len();
            proof {
                assert(*j == Json::Obj(*fields));
                assert(jm(*j) == Jv::Obj(full));
                assert(full =~= Seq::new(
                    fields@.len(),
                    |t: int|
                        if 0 <= t < fields@.len() {
                            (fields@[t].0@, jm(fields@[t].1))
                        } else {
                            (Seq::<char>::empty(), Jv::Null)
                        },
                ));
                assert(full.subrange(0, i as int) =~= full);
            }
            while i > 0
                invariant
                    i <= fields@.len(),
                    full.len() == fields@.len(),
                    jm(*j) == Jv::Obj(full),
                    forall|t: int|
                        0 <= t < fields@.len() ==> full[t] == (fields@[t].0@, jm(fields@[t].1)),
                    obj_get_m(full, k@) == obj_get_m(full.subrange(0, i as int), k@),
                decreases i,
            {
                i = i - 1;
                let ghost pre: Seq<(Seq<char>, Jv)> = full.subrange(0, i as int + 1);
                proof {
                    assert(pre.last() == full[i as int]);
                    assert(pre.drop_last() =~= full.subrange(0, i as int));
                }
                if chars_eq_str(&fields[i].0, k) {
                    proof {
                        assert(pre.last().0 == k@);
                        assert(obj_get_m(pre, k@) == Some(pre.last().1));
                        assert(jget(jm(*j), k@) == Some(jm(fields@[i as int].1)));
                    }
                    return Some(&fields[i].1);
                }
            }
            proof {
                assert(full.subrange(0, 0) =~= Seq::<(Seq<char>, Jv)>::empty());
            }
            None
        },
        _ => None,
    }
}

} // verus!
