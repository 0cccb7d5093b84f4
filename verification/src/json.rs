//! A small JSON-like document model.
//!
//! The event store answers a search request with a JSON document; report
//! results are JSON documents as well.  `JsonValue` is the executable form
//! of such a document, `JsonV` its mathematical model, and `dview` the map
//! between the two.  All contracts of the library speak of `JsonV`.

use vstd::prelude::*;

verus! {

/// An executable JSON-like document value.
#[derive(Debug, PartialEq)]
pub enum JsonValue {
    Null,
    Bool(bool),
    Int(i64),
    Text(String),
    Arr(Vec<JsonValue>),
    Obj(Vec<(String, JsonValue)>),
}

/// The mathematical model of a JSON value.  An object is a sequence of
/// fields in their original order; lookups take the first match.
#[verifier::ext_equal]
pub enum JsonV {
    Null,
    Bool(bool),
    Int(int),
    Text(Seq<char>),
    Arr(Seq<JsonV>),
    Obj(Seq<(Seq<char>, JsonV)>),
}

impl JsonValue {
    /// The model of this value.
    pub open spec fn dview(&self) -> JsonV
        decreases self,
    {
        match self {
            JsonValue::Null => JsonV::Null,
            JsonValue::Bool(b) => JsonV::Bool(*b),
            JsonValue::Int(n) => JsonV::Int(*n as int),
            JsonValue::Text(s) => JsonV::Text(s@),
            JsonValue::Arr(items) => JsonV::Arr(arr_dview(items@)),
            JsonValue::Obj(fields) => JsonV::Obj(obj_dview(fields@)),
        }
    }
}

/// The models of the elements of a JSON array.
pub open spec fn arr_dview(items: Seq<JsonValue>) -> Seq<JsonV>
    decreases items,
{
    Seq::new(
        items.len(),
        |i: int|
            if 0 <= i < items.len() {
                items[i].dview()
            } else {
                JsonV::Null
            },
    )
}

/// The models of the fields of a JSON object.
pub open spec fn obj_dview(fields: Seq<(String, JsonValue)>) -> Seq<(Seq<char>, JsonV)>
    decreases fields,
{
    Seq::new(
        fields.len(),
        |i: int|
            if 0 <= i < fields.len() {
                (fields[i].0@, fields[i].1.dview())
            } else {
                (Seq::<char>::empty(), JsonV::Null)
            },
    )
}

/// First field of `fields` named `key`, if any.
pub open spec fn jlookup(fields: Seq<(Seq<char>, JsonV)>, key: Seq<char>) -> Option<JsonV>
    decreases fields.len(),
{
    if fields.len() <= 0 {
        None
    } else if fields[0].0 == key {
        Some(fields[0].1)
    } else {
        jlookup(fields.drop_first(), key)
    }
}

/// Field `key` of `v`; `None` when `v` is not an object or has no such field.
pub open spec fn jfield(v: JsonV, key: Seq<char>) -> Option<JsonV> {
    match v {
        JsonV::Obj(fields) => jlookup(fields, key),
        _ => None,
    }
}

/// An object of one field.
pub fn obj1(k: &str, v: JsonValue) -> (r: JsonValue)
    ensures
        r.dview() == JsonV::Obj(seq![(k@, v.dview())]),
{
    let ghost vv = v.dview();
    let mut fields: Vec<(String, JsonValue)> = Vec::new();
    fields.push((k.to_owned(), v));
    let r = JsonValue::Obj(fields);
    proof {
        assert(r.dview()->Obj_0 =~= seq![(k@, vv)]);
    }
    r
}

/// An object of two fields, in order.
pub fn obj2(k1: &str, v1: JsonValue, k2: &str, v2: JsonValue) -> (r: JsonValue)
    ensures
        r.dview() == JsonV::Obj(seq![(k1@, v1.dview()), (k2@, v2.dview())]),
{
    let ghost vv1 = v1.dview();
    let ghost vv2 = v2.dview();
    let mut fields: Vec<(String, JsonValue)> = Vec::new();
    fields.push((k1.to_owned(), v1));
    fields.push((k2.to_owned(), v2));
    let r = JsonValue::Obj(fields);
    proof {
        assert(r.dview()->Obj_0 =~= seq![(k1@, vv1), (k2@, vv2)]);
    }
    r
}

/// An object of three fields, in order.
pub fn obj3(k1: &str, v1: JsonValue, k2: &str, v2: JsonValue, k3: &str, v3: JsonValue) -> (r:
    JsonValue)
    ensures
        r.dview() == JsonV::Obj(seq![(k1@, v1.dview()), (k2@, v2.dview()), (k3@, v3.dview())]),
{
    let ghost vv1 = v1.dview();
    let ghost vv2 = v2.dview();
    let ghost vv3 = v3.dview();
    let mut fields: Vec<(String, JsonValue)> = Vec::new();
    fields.push((k1.to_owned(), v1));
    fields.push((k2.to_owned(), v2));
    fields.push((k3.to_owned(), v3));
    let r = JsonValue::Obj(fields);
    proof {
        assert(r.dview()->Obj_0 =~= seq![(k1@, vv1), (k2@, vv2), (k3@, vv3)]);
    }
    r
}

/// An array of one element.
pub fn arr1(v: JsonValue) -> (r: JsonValue)
    ensures
        r.dview() == JsonV::Arr(seq![v.dview()]),
{
    let ghost vv = v.dview();
    let mut items: Vec<JsonValue> = Vec::new();
    items.push(v);
    let r = JsonValue::Arr(items);
    proof {
        assert(r.dview()->Arr_0 =~= seq![vv]);
    }
    r
}

/// String equality by contents.
pub fn str_eq(a: &str, b: &str) -> (r: bool)
    ensures
        r == (a@ == b@),
{
    a.to_owned() == b.to_owned()
}

impl JsonValue {
    /// Looks a field up by name; `None` on a missing field or on any value
    /// that is not an object.
    #[verifier::loop_isolation(false)]
    pub fn get<'a>(&'a self, key: &str) -> (r: Option<&'a JsonValue>)
        ensures
            match r {
                Some(v) => jfield(self.dview(), key@) == Some(v.dview()),
                None => jfield(self.dview(), key@) is None,
            },
    {
        match self {
            JsonValue::Obj(fields) => {
                let ghost fv = self.dview()->Obj_0;
                proof {
                    assert(fv.skip(0) =~= fv);
                }
                let mut i: usize = 0;
                while i < fields.len()
                    invariant
                        i <= fields.len(),
                        fv == self.dview()->Obj_0,
                        self.dview() == JsonV::Obj(fv),
                        fv.len() == fields@.len(),
                        forall|j: int|
                            0 <= j < fields@.len() ==> fv[j] == (
                            fields@[j].0@,
                            fields@[j].1.dview(),
                            ),
                        jlookup(fv, key@) == jlookup(fv.skip(i as int), key@),
                    decreases fields.len() - i,
                {
                    if str_eq(fields[i].0.as_str(), key) {
                        proof {
                            assert(fv.skip(i as int)[0] == fv[i as int]);
                        }
                        return Some(&fields[i].1);
                    }
                    proof {
                        assert(fv.skip(i as int)[0] == fv[i as int]);
                        assert(fv.skip(i as int).drop_first() =~= fv.skip(i + 1));
                    }
                    i += 1;
                }
                proof {
                    assert(fv.skip(i as int).len() == 0);
                }
                None
            },
            _ => None,
        }
    }

    /// A structurally fresh copy with the same model.
    #[verifier::loop_isolation(false)]
    pub fn duplicate(&self) -> (r: JsonValue)
        ensures
            r.dview() == self.dview(),
        decreases self,
    {
        match self {
            JsonValue::Null => JsonValue::Null,
            JsonValue::Bool(b) => JsonValue::Bool(*b),
            JsonValue::Int(n) => JsonValue::Int(*n),
            JsonValue::Text(s) => JsonValue::Text(s.clone()),
            JsonValue::Arr(items) => {
                let mut out: Vec<JsonValue> = Vec::new();
                let mut i: usize = 0;
                while i < items.len()
                    invariant
                        i <= items.len(),
                        out@.len() == i,
                        forall|j: int| 0 <= j < i ==> out@[j].dview() == items@[j].dview(),
                    decreases items.len() - i,
                {
                    proof {
                        let v = *self;
                        assert(decreases_to!(v => v->Arr_0));
                        assert(decreases_to!(v->Arr_0 => v->Arr_0@));
                        assert(decreases_to!(v->Arr_0@ => v->Arr_0@[i as int]));
                    }
                    let d = items[i].duplicate();
                    out.push(d);
                    i += 1;
                }
                let r = JsonValue::Arr(out);
                proof {
                    assert(r.dview()->Arr_0 =~= self.dview()->Arr_0);
                }
                r
            },
            JsonValue::Obj(fields) => {
                let mut out: Vec<(String, JsonValue)> = Vec::new();
                let mut i: usize = 0;
                while i < fields.len()
                    invariant
                        i <= fields.len(),
                        out@.len() == i,
                        forall|j: int|
                            0 <= j < i ==> out@[j].0@ == fields@[j].0@ && out@[j].1.dview()
                                == fields@[j].1.dview(),
                    decreases fields.len() - i,
                {
                    proof {
                        let v = *self;
                        assert(decreases_to!(v => v->Obj_0));
                        assert(decreases_to!(v->Obj_0 => v->Obj_0@));
                        assert(decreases_to!(v->Obj_0@ => v->Obj_0@[i as int]));
                        assert(decreases_to!(v->Obj_0@[i as int] => v->Obj_0@[i as int].1));
                    }
                    let name = fields[i].0.clone();
                    let d = fields[i].1.duplicate();
                    out.push((name, d));
                    i += 1;
                }
                let r = JsonValue::Obj(out);
                proof {
                    assert(r.dview()->Obj_0 =~= self.dview()->Obj_0);
                }
                r
            },
        }
    }
}

} // verus!
