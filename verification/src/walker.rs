//! Bucket tree walker.
//!
//! The event store answers an aggregation query with a document of the
//! shape `{"aggregations": {<name>: {"buckets": [...]}}}`, where each
//! bucket carries a `key`, a `doc_count`, the bucket arrays of nested
//! aggregations under their names, and, for a top-hits aggregation, an
//! embedded list of raw hit documents.  `walk` descends along a path of
//! aggregation names and decodes each bucket into a typed `BucketNode`.
//!
//! A missing aggregation path yields an empty bucket list; malformed
//! bucket content (a `buckets` field that is not an array, a key that is
//! neither a string nor a number, a bad document count) is a
//! `DecodeError`.

use vstd::prelude::*;

use crate::json::{arr_dview, jfield, JsonV, JsonValue};

verus! {

/// A bucket's key: the engine sends a string or a number.
#[derive(Debug, PartialEq)]
pub enum BucketKey {
    Text(String),
    Num(i64),
}

/// Model of a bucket key.
#[verifier::ext_equal]
pub enum KeyV {
    Text(Seq<char>),
    Num(int),
}

impl BucketKey {
    /// The model of this key.
    pub open spec fn dview(&self) -> KeyV {
        match self {
            BucketKey::Text(s) => KeyV::Text(s@),
            BucketKey::Num(n) => KeyV::Num(*n as int),
        }
    }

    /// A fresh copy with the same model.
    pub fn duplicate(&self) -> (r: BucketKey)
        ensures
            r.dview() == self.dview(),
    {
        match self {
            BucketKey::Text(s) => BucketKey::Text(s.clone()),
            BucketKey::Num(n) => BucketKey::Num(*n),
        }
    }
}

/// Why a response document could not be decoded.
#[derive(Debug, Clone, Copy, PartialEq, Eq, Structural)]
pub enum DecodeError {
    /// An aggregation's `buckets` field is present but not an array.
    BucketsNotArray,
    /// A bucket's `key` is missing, or neither a string nor a number.
    BadBucketKey,
    /// A bucket's `doc_count` is present but not a non-negative integer.
    BadDocCount,
}

/// A decoded bucket: its key, its document count, the decoded buckets of
/// the next aggregation level, and the embedded top-hit document (`Null`
/// where none was requested or present).
#[derive(Debug, PartialEq)]
pub struct BucketNode {
    pub key: BucketKey,
    pub doc_count: i64,
    pub children: Vec<BucketNode>,
    pub doc: JsonValue,
}

/// Model of a decoded bucket.
#[verifier::ext_equal]
pub struct NodeV {
    pub key: KeyV,
    pub count: int,
    pub children: Seq<NodeV>,
    pub doc: JsonV,
}

impl BucketNode {
    /// The model of this bucket.
    pub open spec fn dview(&self) -> NodeV
        decreases self,
    {
        NodeV {
            key: self.key.dview(),
            count: self.doc_count as int,
            children: nodes_dview(self.children@),
            doc: self.doc.dview(),
        }
    }
}

/// The models of a sequence of decoded buckets.
pub open spec fn nodes_dview(ns: Seq<BucketNode>) -> Seq<NodeV>
    decreases ns,
{
    Seq::new(
        ns.len(),
        |i: int|
            if 0 <= i < ns.len() {
                ns[i].dview()
            } else {
                NodeV { key: KeyV::Num(0), count: 0, children: Seq::empty(), doc: JsonV::Null }
            },
    )
}

/// The views of a path of aggregation names.
pub open spec fn strs_dview(path: Seq<String>) -> Seq<Seq<char>> {
    Seq::new(path.len(), |i: int| path[i]@)
}

/// The view of an optional top-hits aggregation name.
pub open spec fn top_dview(top: Option<&str>) -> Option<Seq<char>> {
    match top {
        Option::Some(t) => Option::Some(t@),
        Option::None => Option::None,
    }
}

/// The key of bucket `b`: its `key` field, which must be a string or a
/// number.
pub open spec fn spec_key(b: JsonV) -> Result<KeyV, DecodeError> {
    match jfield(b, "key"@) {
        Option::Some(JsonV::Text(s)) => Result::Ok(KeyV::Text(s)),
        Option::Some(JsonV::Int(n)) => Result::Ok(KeyV::Num(n)),
        _ => Result::Err(DecodeError::BadBucketKey),
    }
}

/// The document count of bucket `b`: its `doc_count` field when present,
/// which must be a non-negative integer; zero when absent.
pub open spec fn spec_count(b: JsonV) -> Result<int, DecodeError> {
    match jfield(b, "doc_count"@) {
        Option::None => Result::Ok(0int),
        Option::Some(JsonV::Int(n)) => if n >= 0 {
            Result::Ok(n)
        } else {
            Result::Err(DecodeError::BadDocCount)
        },
        Option::Some(_) => Result::Err(DecodeError::BadDocCount),
    }
}

/// The first embedded hit document of the top-hits aggregation `name`
/// inside bucket `b`: the `_source` of the first entry of
/// `<name>.hits.hits`, or `Null` where that chain is absent.
pub open spec fn spec_first_hit(b: JsonV, name: Seq<char>) -> JsonV {
    match jfield(b, name) {
        Option::None => JsonV::Null,
        Option::Some(agg) => match jfield(agg, "hits"@) {
            Option::None => JsonV::Null,
            Option::Some(h) => match jfield(h, "hits"@) {
                Option::Some(JsonV::Arr(hs)) => if hs.len() > 0 {
                    match jfield(hs[0], "_source"@) {
                        Option::Some(d) => d,
                        Option::None => JsonV::Null,
                    }
                } else {
                    JsonV::Null
                },
                _ => JsonV::Null,
            },
        },
    }
}

/// The embedded document of bucket `b` at level `i`: the first top hit of
/// the aggregation named by `top`, taken at the innermost level only;
/// `Null` otherwise.
pub open spec fn spec_tophit(b: JsonV, path: Seq<Seq<char>>, i: int, top: Option<Seq<char>>) -> JsonV {
    if i == path.len() - 1 {
        match top {
            Option::Some(t) => spec_first_hit(b, t),
            Option::None => JsonV::Null,
        }
    } else {
        JsonV::Null
    }
}

/// Decoding of the buckets of aggregation `path[i]` inside `container`
/// (the whole `aggregations` object at the top level, a parent bucket
/// below).  An absent aggregation or `buckets` field is an empty list; a
/// `buckets` field of any other shape than an array is an error.
pub open spec fn spec_level(
    container: JsonV,
    path: Seq<Seq<char>>,
    i: int,
    top: Option<Seq<char>>,
) -> Result<Seq<NodeV>, DecodeError>
    decreases path.len() - i, 2int, 0int,
{
    if i < 0 || i >= path.len() {
        Result::Ok(Seq::empty())
    } else {
        match jfield(container, path[i]) {
            Option::None => Result::Ok(Seq::empty()),
            Option::Some(agg) => match jfield(agg, "buckets"@) {
                Option::None => Result::Ok(Seq::empty()),
                Option::Some(JsonV::Arr(bs)) => spec_buckets(bs, path, i, top),
                Option::Some(_) => Result::Err(DecodeError::BucketsNotArray),
            },
        }
    }
}

/// Decoding of a bucket array, in order; the first malformed bucket
/// decides the error.
pub open spec fn spec_buckets(
    bs: Seq<JsonV>,
    path: Seq<Seq<char>>,
    i: int,
    top: Option<Seq<char>>,
) -> Result<Seq<NodeV>, DecodeError>
    decreases path.len() - i, 1int, bs.len(),
{
    if bs.len() <= 0 {
        Result::Ok(Seq::empty())
    } else {
        match spec_bucket(bs[0], path, i, top) {
            Result::Err(e) => Result::Err(e),
            Result::Ok(n) => match spec_buckets(bs.drop_first(), path, i, top) {
                Result::Err(e) => Result::Err(e),
                Result::Ok(rest) => Result::Ok(seq![n] + rest),
            },
        }
    }
}

/// Decoding of one bucket: key, count, nested buckets along the rest of
/// the path, and the embedded top-hit document.
pub open spec fn spec_bucket(
    b: JsonV,
    path: Seq<Seq<char>>,
    i: int,
    top: Option<Seq<char>>,
) -> Result<NodeV, DecodeError>
    decreases path.len() - i, 0int, 0int,
{
    match spec_key(b) {
        Result::Err(e) => Result::Err(e),
        Result::Ok(key) => match spec_count(b) {
            Result::Err(e) => Result::Err(e),
            Result::Ok(count) => {
                let children = if i + 1 < path.len() {
                    spec_level(b, path, i + 1, top)
                } else {
                    Result::Ok(Seq::empty())
                };
                match children {
                    Result::Err(e) => Result::Err(e),
                    Result::Ok(cs) => Result::Ok(
                        NodeV { key, count, children: cs, doc: spec_tophit(b, path, i, top) },
                    ),
                }
            },
        },
    }
}

/// Decoding of a whole response along `path`: the buckets under
/// `aggregations.<path[0]>.buckets`, nested per `path`; an absent
/// `aggregations` object is an empty result.
pub open spec fn spec_walk(
    resp: JsonV,
    path: Seq<Seq<char>>,
    top: Option<Seq<char>>,
) -> Result<Seq<NodeV>, DecodeError> {
    match jfield(resp, "aggregations"@) {
        Option::None => Result::Ok(Seq::empty()),
        Option::Some(aggs) => spec_level(aggs, path, 0, top),
    }
}

/// Walks `response` along the aggregation-name path, decoding each bucket
/// level; `top` names the top-hits aggregation whose first hit document is
/// kept at the innermost level.
#[verifier::loop_isolation(false)]
pub fn walk(response: &JsonValue, path: &Vec<String>, top: Option<&str>) -> (r: Result<
    Vec<BucketNode>,
    DecodeError,
>)
    ensures
        (match r {
            Result::Ok(ns) => spec_walk(response.dview(), strs_dview(path@), top_dview(top))
                == Result::<Seq<NodeV>, DecodeError>::Ok(nodes_dview(ns@)),
            Result::Err(e) => spec_walk(response.dview(), strs_dview(path@), top_dview(top))
                == Result::<Seq<NodeV>, DecodeError>::Err(e),
        }),
{
    match response.get("aggregations") {
        Option::None => {
            let ns: Vec<BucketNode> = Vec::new();
            proof {
                assert(nodes_dview(ns@) =~= Seq::<NodeV>::empty());
            }
            Result::Ok(ns)
        },
        Option::Some(aggs) => {
            if path.len() == 0 {
                let ns: Vec<BucketNode> = Vec::new();
                proof {
                    assert(nodes_dview(ns@) =~= Seq::<NodeV>::empty());
                }
                Result::Ok(ns)
            } else {
                decode_level(aggs, path, 0, top)
            }
        },
    }
}

/// Decodes the buckets of aggregation `path[i]` inside `container`.
#[verifier::loop_isolation(false)]
fn decode_level(container: &JsonValue, path: &Vec<String>, i: usize, top: Option<&str>) -> (r:
    Result<Vec<BucketNode>, DecodeError>)
    requires
        i < path@.len(),
    ensures
        (match r {
            Result::Ok(ns) => spec_level(
                container.dview(),
                strs_dview(path@),
                i as int,
                top_dview(top),
            ) == Result::<Seq<NodeV>, DecodeError>::Ok(nodes_dview(ns@)),
            Result::Err(e) => spec_level(
                container.dview(),
                strs_dview(path@),
                i as int,
                top_dview(top),
            ) == Result::<Seq<NodeV>, DecodeError>::Err(e),
        }),
    decreases path@.len() - i, 2int,
{
    let name: &String = &path[i];
    match container.get(name.as_str()) {
        Option::None => {
            let ns: Vec<BucketNode> = Vec::new();
            proof {
                assert(nodes_dview(ns@) =~= Seq::<NodeV>::empty());
            }
            Result::Ok(ns)
        },
        Option::Some(agg) => match agg.get("buckets") {
            Option::None => {
                let ns: Vec<BucketNode> = Vec::new();
                proof {
                    assert(nodes_dview(ns@) =~= Seq::<NodeV>::empty());
                }
                Result::Ok(ns)
            },
            Option::Some(bv) => match bv {
                JsonValue::Arr(bs) => decode_buckets(bs, path, i, top),
                _ => Result::Err(DecodeError::BucketsNotArray),
            },
        },
    }
}

/// Decodes a bucket array in order; the first malformed bucket decides
/// the error.
#[verifier::loop_isolation(false)]
fn decode_buckets(bs: &Vec<JsonValue>, path: &Vec<String>, i: usize, top: Option<&str>) -> (r:
    Result<Vec<BucketNode>, DecodeError>)
    requires
        i < path@.len(),
    ensures
        (match r {
            Result::Ok(ns) => spec_buckets(
                arr_dview(bs@),
                strs_dview(path@),
                i as int,
                top_dview(top),
            ) == Result::<Seq<NodeV>, DecodeError>::Ok(nodes_dview(ns@)),
            Result::Err(e) => spec_buckets(
                arr_dview(bs@),
                strs_dview(path@),
                i as int,
                top_dview(top),
            ) == Result::<Seq<NodeV>, DecodeError>::Err(e),
        }),
    decreases path@.len() - i, 1int,
{
    let ghost bsv = arr_dview(bs@);
    let ghost pathv = strs_dview(path@);
    let ghost topv = top_dview(top);
    let mut out: Vec<BucketNode> = Vec::new();
    let mut j: usize = 0;
    proof {
        assert(bsv.skip(0) =~= bsv);
        assert(nodes_dview(out@) =~= Seq::<NodeV>::empty());
    }
    while j < bs.len()
        invariant
            j <= bs@.len(),
            spec_buckets(bsv, pathv, i as int, topv) == (match spec_buckets(
                bsv.skip(j as int),
                pathv,
                i as int,
                topv,
            ) {
                Result::Err(e) => Result::<Seq<NodeV>, DecodeError>::Err(e),
                Result::Ok(rest) => Result::Ok(nodes_dview(out@) + rest),
            }),
        decreases bs@.len() - j,
    {
        proof {
            assert(bsv.skip(j as int)[0] == bsv[j as int]);
            assert(bsv.skip(j as int).drop_first() =~= bsv.skip(j as int + 1));
        }
        let bj = &bs[j];
        match decode_bucket(bj, path, i, top) {
            Result::Err(e) => {
                return Result::Err(e);
            },
            Result::Ok(n) => {
                let ghost prev = out@;
                out.push(n);
                proof {
                    let rem = spec_buckets(bsv.skip(j as int + 1), pathv, i as int, topv);
                    if rem is Ok {
                        let rest = rem->Ok_0;
                        assert(nodes_dview(prev.push(n)) =~= nodes_dview(prev).push(n.dview()));
                        assert(nodes_dview(prev) + (seq![n.dview()] + rest) =~= nodes_dview(
                            prev,
                        ).push(n.dview()) + rest);
                    }
                }
                j += 1;
            },
        }
    }
    proof {
        assert(bsv.skip(j as int) =~= Seq::<JsonV>::empty());
        assert(nodes_dview(out@) + Seq::<NodeV>::empty() =~= nodes_dview(out@));
    }
    Result::Ok(out)
}

/// Decodes one bucket: key, count, nested buckets, embedded document.
#[verifier::loop_isolation(false)]
fn decode_bucket(b: &JsonValue, path: &Vec<String>, i: usize, top: Option<&str>) -> (r: Result<
    BucketNode,
    DecodeError,
>)
    requires
        i < path@.len(),
    ensures
        (match r {
            Result::Ok(n) => spec_bucket(b.dview(), strs_dview(path@), i as int, top_dview(top))
                == Result::<NodeV, DecodeError>::Ok(n.dview()),
            Result::Err(e) => spec_bucket(b.dview(), strs_dview(path@), i as int, top_dview(top))
                == Result::<NodeV, DecodeError>::Err(e),
        }),
    decreases path@.len() - i, 0int,
{
    let key: BucketKey = match b.get("key") {
        Option::Some(kv) => match kv {
            JsonValue::Text(s) => BucketKey::Text(s.clone()),
            JsonValue::Int(n) => BucketKey::Num(*n),
            _ => {
                return Result::Err(DecodeError::BadBucketKey);
            },
        },
        Option::None => {
            return Result::Err(DecodeError::BadBucketKey);
        },
    };
    let count: i64 = match b.get("doc_count") {
        Option::None => 0,
        Option::Some(cv) => match cv {
            JsonValue::Int(n) => {
                if *n >= 0 {
                    *n
                } else {
                    return Result::Err(DecodeError::BadDocCount);
                }
            },
            _ => {
                return Result::Err(DecodeError::BadDocCount);
            },
        },
    };
    let children: Vec<BucketNode> = if i < path.len() - 1 {
        match decode_level(b, path, i + 1, top) {
            Result::Ok(cs) => cs,
            Result::Err(e) => {
                return Result::Err(e);
            },
        }
    } else {
        let cs: Vec<BucketNode> = Vec::new();
        proof {
            assert(nodes_dview(cs@) =~= Seq::<NodeV>::empty());
        }
        cs
    };
    let doc: JsonValue = tophit_doc(b, path, i, top);
    Result::Ok(BucketNode { key, doc_count: count, children, doc })
}

/// The embedded top-hit document of bucket `b` at level `i`, `Null` where
/// none applies.
fn tophit_doc(b: &JsonValue, path: &Vec<String>, i: usize, top: Option<&str>) -> (r: JsonValue)
    requires
        i < path@.len(),
    ensures
        r.dview() == spec_tophit(b.dview(), strs_dview(path@), i as int, top_dview(top)),
{
    if i == path.len() - 1 {
        match top {
            Option::Some(t) => first_hit(b, t),
            Option::None => JsonValue::Null,
        }
    } else {
        JsonValue::Null
    }
}

/// The first hit document under `<name>.hits.hits[0]._source` of `b`, or
/// `Null` where that chain is absent.
fn first_hit(b: &JsonValue, name: &str) -> (r: JsonValue)
    ensures
        r.dview() == spec_first_hit(b.dview(), name@),
{
    match b.get(name) {
        Option::None => JsonValue::Null,
        Option::Some(agg) => match agg.get("hits") {
            Option::None => JsonValue::Null,
            Option::Some(h) => match h.get("hits") {
                Option::None => JsonValue::Null,
                Option::Some(hv) => match hv {
                    JsonValue::Arr(hs) => {
                        if hs.len() > 0 {
                            let h0 = &hs[0];
                            match h0.get("_source") {
                                Option::Some(d) => d.duplicate(),
                                Option::None => JsonValue::Null,
                            }
                        } else {
                            JsonValue::Null
                        }
                    },
                    _ => JsonValue::Null,
                },
            },
        },
    }
}

} // verus!
