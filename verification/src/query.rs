//! Query assembly.
//!
//! A report is answered by one search request: a list of filter clauses,
//! a bucket-aggregation tree, and a result-window size that is always
//! zero, because only aggregation buckets are of interest.  The request
//! encodes into the JSON body that the event store expects; the encoding
//! is pinned field by field by `request_json`.

use vstd::prelude::*;

use crate::json::{arr1, obj1, obj2, obj3, obj_dview, JsonV, JsonValue};

verus! {

/// The optional shared parameters of a report invocation.
#[derive(Debug, PartialEq)]
pub struct EventQueryParams {
    pub min_timestamp: Option<i64>,
    pub query_string: Option<String>,
}

/// Model of the shared parameters.
#[verifier::ext_equal]
pub struct ParamsV {
    pub min_timestamp: Option<int>,
    pub query_string: Option<Seq<char>>,
}

impl EventQueryParams {
    /// The model of these parameters.
    pub open spec fn dview(&self) -> ParamsV {
        ParamsV {
            min_timestamp: match self.min_timestamp {
                Option::Some(ts) => Option::Some(ts as int),
                Option::None => Option::None,
            },
            query_string: match self.query_string {
                Option::Some(q) => Option::Some(q@),
                Option::None => Option::None,
            },
        }
    }
}

/// One filter clause: a term equality, a timestamp lower bound, or a
/// free-text query string.
#[derive(Debug, PartialEq)]
pub enum Filter {
    Term { field: String, value: String },
    TimestampGte { ts: i64 },
    QueryString { query: String },
}

/// Model of a filter clause.
#[verifier::ext_equal]
pub enum FilterV {
    Term { field: Seq<char>, value: Seq<char> },
    TimestampGte { ts: int },
    QueryString { query: Seq<char> },
}

impl Filter {
    /// The model of this clause.
    pub open spec fn dview(&self) -> FilterV {
        match self {
            Filter::Term { field, value } => FilterV::Term { field: field@, value: value@ },
            Filter::TimestampGte { ts } => FilterV::TimestampGte { ts: *ts as int },
            Filter::QueryString { query } => FilterV::QueryString { query: query@ },
        }
    }
}

/// The models of a filter list.
pub open spec fn filters_dview(fs: Seq<Filter>) -> Seq<FilterV> {
    Seq::new(fs.len(), |i: int| fs[i].dview())
}

/// A `top_hits` leaf aggregation: the first `size` documents, sorted by
/// `sort_field` in descending order, embedded under `name`.
#[derive(Debug, PartialEq)]
pub struct TopHits {
    pub name: String,
    pub sort_field: String,
    pub size: u32,
}

/// Model of a top-hits aggregation.
#[verifier::ext_equal]
pub struct TopHitsV {
    pub name: Seq<char>,
    pub sort_field: Seq<char>,
    pub size: int,
}

impl TopHits {
    /// The model of this aggregation.
    pub open spec fn dview(&self) -> TopHitsV {
        TopHitsV { name: self.name@, sort_field: self.sort_field@, size: self.size as int }
    }
}

/// A terms-aggregation tree node: buckets of the distinct values of
/// `field`, capped at `size` when given, with nested aggregations and an
/// optional embedded top-hits leaf.
#[derive(Debug, PartialEq)]
pub struct AggregationSpec {
    pub name: String,
    pub field: String,
    pub size: Option<u32>,
    pub children: Vec<AggregationSpec>,
    pub top_hits: Option<TopHits>,
}

/// Model of an aggregation tree node.
#[verifier::ext_equal]
pub struct AggV {
    pub name: Seq<char>,
    pub field: Seq<char>,
    pub size: Option<int>,
    pub children: Seq<AggV>,
    pub top_hits: Option<TopHitsV>,
}

impl AggregationSpec {
    /// The model of this node.
    pub open spec fn dview(&self) -> AggV
        decreases self,
    {
        AggV {
            name: self.name@,
            field: self.field@,
            size: match self.size {
                Option::Some(s) => Option::Some(s as int),
                Option::None => Option::None,
            },
            children: aggs_dview(self.children@),
            top_hits: match self.top_hits {
                Option::Some(t) => Option::Some(t.dview()),
                Option::None => Option::None,
            },
        }
    }
}

/// The models of a sequence of aggregation nodes.
pub open spec fn aggs_dview(cs: Seq<AggregationSpec>) -> Seq<AggV>
    decreases cs,
{
    Seq::new(
        cs.len(),
        |i: int|
            if 0 <= i < cs.len() {
                cs[i].dview()
            } else {
                AggV {
                    name: Seq::empty(),
                    field: Seq::empty(),
                    size: Option::None,
                    children: Seq::empty(),
                    top_hits: Option::None,
                }
            },
    )
}

/// One search request: filters, one aggregation tree, result-window size.
#[derive(Debug, PartialEq)]
pub struct SearchRequest {
    pub filters: Vec<Filter>,
    pub aggs: AggregationSpec,
    pub size: u32,
}

/// Model of a search request.
#[verifier::ext_equal]
pub struct ReqV {
    pub filters: Seq<FilterV>,
    pub aggs: AggV,
    pub size: int,
}

impl SearchRequest {
    /// The model of this request.
    pub open spec fn dview(&self) -> ReqV {
        ReqV {
            filters: filters_dview(self.filters@),
            aggs: self.aggs.dview(),
            size: self.size as int,
        }
    }
}

/// Appends the report-specific discriminator clause to the shared
/// filters, attaches the aggregation tree, and forces the result window
/// to zero.
pub fn assemble(filters: Vec<Filter>, extra: Option<Filter>, aggs: AggregationSpec) -> (r:
    SearchRequest)
    ensures
        r.size == 0,
        r.aggs == aggs,
        r.filters@ == (match extra {
            Option::Some(f) => filters@.push(f),
            Option::None => filters@,
        }),
{
    let mut filters = filters;
    match extra {
        Option::Some(f) => filters.push(f),
        Option::None => (),
    }
    SearchRequest { filters, aggs, size: 0 }
}

/// The JSON clause of one filter.
pub open spec fn filter_json(f: FilterV) -> JsonV {
    match f {
        FilterV::Term { field, value } => JsonV::Obj(
            seq![("term"@, JsonV::Obj(seq![(field, JsonV::Text(value))]))],
        ),
        FilterV::TimestampGte { ts } => JsonV::Obj(
            seq![
                (
                    "range"@,
                    JsonV::Obj(seq![("@timestamp"@, JsonV::Obj(seq![("gte"@, JsonV::Int(ts))]))]),
                ),
            ],
        ),
        FilterV::QueryString { query } => JsonV::Obj(
            seq![("query_string"@, JsonV::Obj(seq![("query"@, JsonV::Text(query))]))],
        ),
    }
}

/// The JSON clauses of a filter list, in order.
pub open spec fn filters_json(fs: Seq<FilterV>) -> Seq<JsonV> {
    Seq::new(fs.len(), |i: int| filter_json(fs[i]))
}

/// The JSON body of a top-hits aggregation.
pub open spec fn tophits_json(t: TopHitsV) -> JsonV {
    JsonV::Obj(
        seq![
            (
                "top_hits"@,
                JsonV::Obj(
                    seq![
                        (
                            "sort"@,
                            JsonV::Arr(
                                seq![
                                    JsonV::Obj(
                                        seq![
                                            (
                                                t.sort_field,
                                                JsonV::Obj(seq![("order"@, JsonV::Text("desc"@))]),
                                            ),
                                        ],
                                    ),
                                ],
                            ),
                        ),
                        ("size"@, JsonV::Int(t.size)),
                    ],
                ),
            ),
        ],
    )
}

/// The named entries of the nested aggregations of a node.
pub open spec fn agg_children_json(cs: Seq<AggV>) -> Seq<(Seq<char>, JsonV)>
    decreases cs,
{
    Seq::new(
        cs.len(),
        |i: int|
            if 0 <= i < cs.len() {
                (cs[i].name, agg_json(cs[i]))
            } else {
                (Seq::<char>::empty(), JsonV::Null)
            },
    )
}

/// The JSON body of an aggregation tree node: its `terms` clause and,
/// when it has nested aggregations or a top-hits leaf, an `aggs` object
/// holding them under their names.
pub open spec fn agg_json(a: AggV) -> JsonV
    decreases a,
{
    let terms = (match a.size {
        Option::Some(s) => JsonV::Obj(
            seq![("field"@, JsonV::Text(a.field)), ("size"@, JsonV::Int(s))],
        ),
        Option::None => JsonV::Obj(seq![("field"@, JsonV::Text(a.field))]),
    });
    let subs = agg_children_json(a.children) + (match a.top_hits {
        Option::Some(t) => seq![(t.name, tophits_json(t))],
        Option::None => Seq::<(Seq<char>, JsonV)>::empty(),
    });
    if subs.len() > 0 {
        JsonV::Obj(seq![("terms"@, terms), ("aggs"@, JsonV::Obj(subs))])
    } else {
        JsonV::Obj(seq![("terms"@, terms)])
    }
}

/// The JSON body of a whole search request.
pub open spec fn request_json(r: ReqV) -> JsonV {
    JsonV::Obj(
        seq![
            (
                "query"@,
                JsonV::Obj(
                    seq![("bool"@, JsonV::Obj(seq![("filter"@, JsonV::Arr(filters_json(r.filters)))]))],
                ),
            ),
            ("size"@, JsonV::Int(r.size)),
            ("aggs"@, JsonV::Obj(seq![(r.aggs.name, agg_json(r.aggs))])),
        ],
    )
}

impl Filter {
    /// Encodes this clause.
    pub fn to_json(&self) -> (r: JsonValue)
        ensures
            r.dview() == filter_json(self.dview()),
    {
        match self {
            Filter::Term { field, value } => {
                let inner = obj1(field.as_str(), JsonValue::Text(value.clone()));
                obj1("term", inner)
            },
            Filter::TimestampGte { ts } => {
                let gte = obj1("gte", JsonValue::Int(*ts));
                obj1("range", obj1("@timestamp", gte))
            },
            Filter::QueryString { query } => {
                let inner = obj1("query", JsonValue::Text(query.clone()));
                obj1("query_string", inner)
            },
        }
    }
}

impl TopHits {
    /// Encodes this top-hits aggregation.
    pub fn to_json(&self) -> (r: JsonValue)
        ensures
            r.dview() == tophits_json(self.dview()),
    {
        let order = obj1("order", JsonValue::Text("desc".to_owned()));
        let sort_entry = arr1(obj1(self.sort_field.as_str(), order));
        let body = obj2("sort", sort_entry, "size", JsonValue::Int(self.size as i64));
        obj1("top_hits", body)
    }
}

impl AggregationSpec {
    /// Encodes this aggregation tree.
    #[verifier::loop_isolation(false)]
    pub fn to_json(&self) -> (r: JsonValue)
        ensures
            r.dview() == agg_json(self.dview()),
        decreases self,
    {
        let terms: JsonValue = match self.size {
            Option::Some(s) => obj2(
                "field",
                JsonValue::Text(self.field.clone()),
                "size",
                JsonValue::Int(s as i64),
            ),
            Option::None => obj1("field", JsonValue::Text(self.field.clone())),
        };
        let mut subs: Vec<(String, JsonValue)> = Vec::new();
        let mut i: usize = 0;
        while i < self.children.len()
            invariant
                i <= self.children@.len(),
                subs@.len() == i,
                forall|j: int|
                    0 <= j < i ==> subs@[j].0@ == self.children@[j].dview().name && subs@[j].1.dview()
                        == agg_json(self.children@[j].dview()),
            decreases self.children@.len() - i,
        {
            proof {
                let v = *self;
                assert(decreases_to!(v => v.children));
                assert(decreases_to!(v.children => v.children@));
                assert(decreases_to!(v.children@ => v.children@[i as int]));
            }
            let c = &self.children[i];
            let cj = c.to_json();
            subs.push((c.name.clone(), cj));
            i += 1;
        }
        match &self.top_hits {
            Option::Some(t) => {
                let tj = t.to_json();
                subs.push((t.name.clone(), tj));
            },
            Option::None => (),
        }
        let ghost dv = self.dview();
        let ghost spec_subs = agg_children_json(dv.children) + (match dv.top_hits {
            Option::Some(t) => seq![(t.name, tophits_json(t))],
            Option::None => Seq::<(Seq<char>, JsonV)>::empty(),
        });
        proof {
            assert(obj_dview(subs@) =~= spec_subs);
        }
        if subs.len() > 0 {
            let r = obj2("terms", terms, "aggs", JsonValue::Obj(subs));
            proof {
                assert(r.dview() =~~= agg_json(dv));
            }
            r
        } else {
            let r = obj1("terms", terms);
            proof {
                assert(r.dview() =~~= agg_json(dv));
            }
            r
        }
    }
}

impl SearchRequest {
    /// Encodes this request into the JSON body sent to the event store.
    #[verifier::loop_isolation(false)]
    pub fn to_json(&self) -> (r: JsonValue)
        ensures
            r.dview() == request_json(self.dview()),
    {
        let mut clauses: Vec<JsonValue> = Vec::new();
        let mut i: usize = 0;
        while i < self.filters.len()
            invariant
                i <= self.filters@.len(),
                clauses@.len() == i,
                forall|j: int|
                    0 <= j < i ==> clauses@[j].dview() == filter_json(self.filters@[j].dview()),
            decreases self.filters@.len() - i,
        {
            let cj = self.filters[i].to_json();
            clauses.push(cj);
            i += 1;
        }
        proof {
            assert(crate::json::arr_dview(clauses@) =~= filters_json(self.dview().filters));
        }
        let boolj = obj1("filter", JsonValue::Arr(clauses));
        let queryj = obj1("bool", boolj);
        let aggsj = obj1(self.aggs.name.as_str(), self.aggs.to_json());
        let r = obj3(
            "query",
            queryj,
            "size",
            JsonValue::Int(self.size as i64),
            "aggs",
            aggsj,
        );
        proof {
            assert(r.dview() =~~= request_json(self.dview()));
        }
        r
    }
}

} // verus!
