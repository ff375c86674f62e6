use vstd::prelude::*;
use crate::scalar::Scalar;
use crate::text::str_eq;

verus! {

/// A structured value tree, equivalent to the JSON data model: the shape a
/// log file is parsed into before it is decoded into a [`crate::model::Document`].
///
/// An object holds its entries in order; a key is looked up by its first
/// occurrence.
#[derive(Debug, PartialEq, Eq)]
pub enum Json {
    Scalar(Scalar),
    Arr(Vec<Json>),
    Obj(Vec<(String, Json)>),
}

/// The value under the first entry of `es` whose key is `key`, if any.
pub open spec fn obj_lookup(es: Seq<(String, Json)>, key: Seq<char>) -> Option<Json>
    decreases es.len(),
{
    if es.len() == 0 {
        None
    } else if es[0].0@ == key {
        Some(es[0].1)
    } else {
        obj_lookup(es.drop_first(), key)
    }
}

/// The field `key` of `j`: present only when `j` is an object with such an
/// entry.
pub open spec fn json_get(j: Json, key: Seq<char>) -> Option<Json> {
    match j {
        Json::Obj(es) => obj_lookup(es@, key),
        _ => None,
    }
}

fn obj_get_from<'a>(es: &'a Vec<(String, Json)>, key: &str, i: usize) -> (r: Option<&'a Json>)
    requires
        i <= es@.len(),
    ensures
        match r {
            Some(v) => obj_lookup(es@.skip(i as int), key@) == Some(*v),
            None => obj_lookup(es@.skip(i as int), key@) is None,
        },
    decreases es@.len() - i,
{
    if i == es.len() {
        proof {
            assert(es@.skip(i as int) =~= Seq::<(String, Json)>::empty());
        }
        None
    } else {
        proof {
            assert(es@.skip(i as int)[0] == es@[i as int]);
        }
        if str_eq(es[i].0.as_str(), key) {
            Some(&es[i].1)
        } else {
            let r = obj_get_from(es, key, i + 1);
            proof {
                assert(es@.skip(i as int).drop_first() =~= es@.skip(i + 1));
            }
            r
        }
    }
}

/// The field `key` of `j`, by the first matching entry of an object.
pub fn get_field<'a>(j: &'a Json, key: &str) -> (r: Option<&'a Json>)
    ensures
        match r {
            Some(v) => json_get(*j, key@) == Some(*v),
            None => json_get(*j, key@) is None,
        },
{
    match j {
        Json::Obj(es) => {
            proof {
                assert(es@.skip(0) =~= es@);
            }
            obj_get_from(es, key, 0)
        },
        _ => None,
    }
}

} // verus!
