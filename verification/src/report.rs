//! Report kinds, formatters, and the dispatcher.
//!
//! Each report kind is a triple: a discriminator filter that narrows the
//! shared DHCP event filters to one event subtype, an aggregation tree,
//! and a mapping from decoded buckets to flat report records.  The
//! dispatcher builds the shared filters once and routes a report-kind
//! name to exactly one such triple; an unknown name is an
//! `UnsupportedReport` error before any request exists.
//!
//! The store round trip stands between `dhcp_report_query`, which builds
//! the search request, and `dhcp_report_format`, which turns the store's
//! response document into the record list.

use vstd::prelude::*;

use crate::json::{arr_dview, obj1, obj2, str_eq, JsonV, JsonValue};
use crate::query::{
    assemble, filters_dview, AggregationSpec, AggV, EventQueryParams, Filter, FilterV, ParamsV,
    ReqV, SearchRequest, TopHits, TopHitsV,
};
use crate::walker::{
    nodes_dview, spec_walk, strs_dview, top_dview, walk, BucketKey, BucketNode, DecodeError, KeyV,
    NodeV,
};

verus! {

/// The five report kinds.
#[derive(Debug, Clone, Copy, PartialEq, Eq, Structural)]
pub enum ReportKind {
    Ack,
    Request,
    Servers,
    Mac,
    Ip,
}

/// The report kind a name denotes, if any.
pub open spec fn kind_of(w: Seq<char>) -> Option<ReportKind> {
    if w == "ack"@ {
        Option::Some(ReportKind::Ack)
    } else if w == "request"@ {
        Option::Some(ReportKind::Request)
    } else if w == "servers"@ {
        Option::Some(ReportKind::Servers)
    } else if w == "mac"@ {
        Option::Some(ReportKind::Mac)
    } else if w == "ip"@ {
        Option::Some(ReportKind::Ip)
    } else {
        Option::None
    }
}

/// Parses a report-kind name.
pub fn parse_kind(what: &str) -> (r: Option<ReportKind>)
    ensures
        r == kind_of(what@),
{
    if str_eq(what, "ack") {
        Option::Some(ReportKind::Ack)
    } else if str_eq(what, "request") {
        Option::Some(ReportKind::Request)
    } else if str_eq(what, "servers") {
        Option::Some(ReportKind::Servers)
    } else if str_eq(what, "mac") {
        Option::Some(ReportKind::Mac)
    } else if str_eq(what, "ip") {
        Option::Some(ReportKind::Ip)
    } else {
        Option::None
    }
}

/// The discriminator filter of a report kind.
pub open spec fn spec_discriminator(kind: ReportKind) -> FilterV {
    match kind {
        ReportKind::Ack => FilterV::Term { field: "dhcp.dhcp_type"@, value: "ack"@ },
        ReportKind::Request => FilterV::Term { field: "dhcp.dhcp_type"@, value: "request"@ },
        ReportKind::Servers => FilterV::Term { field: "dhcp.type"@, value: "reply"@ },
        ReportKind::Mac => FilterV::Term { field: "dhcp.type"@, value: "reply"@ },
        ReportKind::Ip => FilterV::Term { field: "dhcp.type"@, value: "reply"@ },
    }
}

/// Builds the discriminator filter of a report kind.
pub fn discriminator(kind: ReportKind) -> (f: Filter)
    ensures
        f.dview() == spec_discriminator(kind),
{
    match kind {
        ReportKind::Ack => Filter::Term {
            field: "dhcp.dhcp_type".to_owned(),
            value: "ack".to_owned(),
        },
        ReportKind::Request => Filter::Term {
            field: "dhcp.dhcp_type".to_owned(),
            value: "request".to_owned(),
        },
        ReportKind::Servers => Filter::Term {
            field: "dhcp.type".to_owned(),
            value: "reply".to_owned(),
        },
        ReportKind::Mac => Filter::Term {
            field: "dhcp.type".to_owned(),
            value: "reply".to_owned(),
        },
        ReportKind::Ip => Filter::Term {
            field: "dhcp.type".to_owned(),
            value: "reply".to_owned(),
        },
    }
}

/// The aggregation tree of a report kind.  Every top-level terms
/// aggregation is capped at 10000 buckets; beyond that the engine
/// truncates, it does not fail.
pub open spec fn spec_agg_for(kind: ReportKind) -> AggV {
    match kind {
        ReportKind::Ack => AggV {
            name: "client_mac"@,
            field: "dhcp.client_mac.keyword"@,
            size: Option::Some(10000int),
            children: Seq::empty(),
            top_hits: Option::Some(
                TopHitsV { name: "latest"@, sort_field: "@timestamp"@, size: 1 },
            ),
        },
        ReportKind::Request => AggV {
            name: "client_mac"@,
            field: "dhcp.client_mac.keyword"@,
            size: Option::Some(10000int),
            children: Seq::empty(),
            top_hits: Option::Some(
                TopHitsV { name: "latest"@, sort_field: "@timestamp"@, size: 1 },
            ),
        },
        ReportKind::Servers => AggV {
            name: "servers"@,
            field: "src_ip.keyword"@,
            size: Option::Some(10000int),
            children: Seq::empty(),
            top_hits: Option::None,
        },
        ReportKind::Mac => AggV {
            name: "client_mac"@,
            field: "dhcp.client_mac.keyword"@,
            size: Option::Some(10000int),
            children: seq![
                AggV {
                    name: "assigned_ip"@,
                    field: "dhcp.assigned_ip.keyword"@,
                    size: Option::None,
                    children: Seq::empty(),
                    top_hits: Option::None,
                },
            ],
            top_hits: Option::None,
        },
        ReportKind::Ip => AggV {
            name: "assigned_ip"@,
            field: "dhcp.assigned_ip.keyword"@,
            size: Option::Some(10000int),
            children: seq![
                AggV {
                    name: "client_mac"@,
                    field: "dhcp.client_mac.keyword"@,
                    size: Option::None,
                    children: Seq::empty(),
                    top_hits: Option::None,
                },
            ],
            top_hits: Option::None,
        },
    }
}

/// Builds the aggregation tree of a report kind.
pub fn aggregation_for(kind: ReportKind) -> (a: AggregationSpec)
    ensures
        a.dview() == spec_agg_for(kind),
{
    match kind {
        ReportKind::Ack => {
            let a = AggregationSpec {
                name: "client_mac".to_owned(),
                field: "dhcp.client_mac.keyword".to_owned(),
                size: Option::Some(10000),
                children: Vec::new(),
                top_hits: Option::Some(
                    TopHits {
                        name: "latest".to_owned(),
                        sort_field: "@timestamp".to_owned(),
                        size: 1,
                    },
                ),
            };
            proof {
                let target = spec_agg_for(kind);
                assert(a.dview().children =~= target.children);
                assert(a.dview().top_hits == target.top_hits);
                assert(a.dview() == target);
            }
            a
        },
        ReportKind::Request => {
            let a = AggregationSpec {
                name: "client_mac".to_owned(),
                field: "dhcp.client_mac.keyword".to_owned(),
                size: Option::Some(10000),
                children: Vec::new(),
                top_hits: Option::Some(
                    TopHits {
                        name: "latest".to_owned(),
                        sort_field: "@timestamp".to_owned(),
                        size: 1,
                    },
                ),
            };
            proof {
                let target = spec_agg_for(kind);
                assert(a.dview().children =~= target.children);
                assert(a.dview().top_hits == target.top_hits);
                assert(a.dview() == target);
            }
            a
        },
        ReportKind::Servers => {
            let a = AggregationSpec {
                name: "servers".to_owned(),
                field: "src_ip.keyword".to_owned(),
                size: Option::Some(10000),
                children: Vec::new(),
                top_hits: Option::None,
            };
            proof {
                let target = spec_agg_for(kind);
                assert(a.dview().children =~= target.children);
                assert(a.dview().top_hits == target.top_hits);
                assert(a.dview() == target);
            }
            a
        },
        ReportKind::Mac => {
            let inner = AggregationSpec {
                name: "assigned_ip".to_owned(),
                field: "dhcp.assigned_ip.keyword".to_owned(),
                size: Option::None,
                children: Vec::new(),
                top_hits: Option::None,
            };
            let ghost innerv = inner.dview();
            let mut children: Vec<AggregationSpec> = Vec::new();
            children.push(inner);
            let a = AggregationSpec {
                name: "client_mac".to_owned(),
                field: "dhcp.client_mac.keyword".to_owned(),
                size: Option::Some(10000),
                children,
                top_hits: Option::None,
            };
            proof {
                let target = spec_agg_for(kind);
                assert(innerv.children =~= target.children[0].children);
                assert(innerv == target.children[0]);
                assert(a.dview().children =~= target.children);
                assert(a.dview() == target);
            }
            a
        },
        ReportKind::Ip => {
            let inner = AggregationSpec {
                name: "client_mac".to_owned(),
                field: "dhcp.client_mac.keyword".to_owned(),
                size: Option::None,
                children: Vec::new(),
                top_hits: Option::None,
            };
            let ghost innerv = inner.dview();
            let mut children: Vec<AggregationSpec> = Vec::new();
            children.push(inner);
            let a = AggregationSpec {
                name: "assigned_ip".to_owned(),
                field: "dhcp.assigned_ip.keyword".to_owned(),
                size: Option::Some(10000),
                children,
                top_hits: Option::None,
            };
            proof {
                let target = spec_agg_for(kind);
                assert(innerv.children =~= target.children[0].children);
                assert(innerv == target.children[0]);
                assert(a.dview().children =~= target.children);
                assert(a.dview() == target);
            }
            a
        },
    }
}

/// The shared filters of every DHCP report: the event type, then the
/// optional timestamp lower bound, then the optional free-text clause.
pub open spec fn base_filters_v(p: ParamsV) -> Seq<FilterV> {
    seq![FilterV::Term { field: "event_type"@, value: "dhcp"@ }] + (match p.min_timestamp {
        Option::Some(ts) => seq![FilterV::TimestampGte { ts }],
        Option::None => Seq::<FilterV>::empty(),
    }) + (match p.query_string {
        Option::Some(q) => seq![FilterV::QueryString { query: q }],
        Option::None => Seq::<FilterV>::empty(),
    })
}

/// Builds the shared filters.
pub fn base_filters(params: &EventQueryParams) -> (r: Vec<Filter>)
    ensures
        filters_dview(r@) == base_filters_v(params.dview()),
{
    let mut filters: Vec<Filter> = Vec::new();
    filters.push(Filter::Term { field: "event_type".to_owned(), value: "dhcp".to_owned() });
    match params.min_timestamp {
        Option::Some(ts) => filters.push(Filter::TimestampGte { ts }),
        Option::None => (),
    }
    match &params.query_string {
        Option::Some(q) => filters.push(Filter::QueryString { query: q.clone() }),
        Option::None => (),
    }
    proof {
        assert(filters_dview(filters@) =~= base_filters_v(params.dview()));
    }
    filters
}

/// The search request of a report kind under the given parameters.
pub open spec fn spec_query(kind: ReportKind, p: ParamsV) -> ReqV {
    ReqV {
        filters: base_filters_v(p).push(spec_discriminator(kind)),
        aggs: spec_agg_for(kind),
        size: 0,
    }
}

/// One report error: the unknown kind, the store's failure, or a
/// malformed response.
#[derive(Debug, PartialEq)]
pub enum ReportError {
    /// No DHCP report exists under the requested name.
    UnsupportedReport(String),
    /// The event store failed or did not answer; never raised by this
    /// library, constructed by the caller that owns the round trip.
    Store(String),
    /// The response document held a malformed bucket.
    Decode(DecodeError),
}

/// Model of a report error.
#[verifier::ext_equal]
pub enum ErrV {
    Unsupported(Seq<char>),
    Store(Seq<char>),
    Decode(DecodeError),
}

impl ReportError {
    /// The model of this error.
    pub open spec fn dview(&self) -> ErrV {
        match self {
            ReportError::UnsupportedReport(s) => ErrV::Unsupported(s@),
            ReportError::Store(s) => ErrV::Store(s@),
            ReportError::Decode(d) => ErrV::Decode(*d),
        }
    }
}

/// Builds the search request of the named report: the shared filters,
/// the kind's discriminator, the kind's aggregations, window size zero.
/// An unknown name fails, and no request exists.
pub fn dhcp_report_query(what: &str, params: &EventQueryParams) -> (r: Result<
    SearchRequest,
    ReportError,
>)
    ensures
        (match r {
            Result::Ok(req) => (match kind_of(what@) {
                Option::Some(k) => req.dview() == spec_query(k, params.dview()),
                Option::None => false,
            }),
            Result::Err(e) => kind_of(what@) is None && e.dview() == ErrV::Unsupported(what@),
        }),
{
    let kind = match parse_kind(what) {
        Option::Some(k) => k,
        Option::None => {
            return Result::Err(ReportError::UnsupportedReport(what.to_owned()));
        },
    };
    let filters = base_filters(params);
    let req = assemble(filters, Option::Some(discriminator(kind)), aggregation_for(kind));
    proof {
        assert(req.dview() =~~= spec_query(kind, params.dview()));
    }
    Result::Ok(req)
}

/// One flat report record.
#[derive(Debug, PartialEq)]
pub enum ReportRecord {
    /// The latest raw event document of one client MAC.
    Event { doc: JsonValue },
    /// One DHCP server: its address and how many replies it sent.
    Server { ip: BucketKey, count: i64 },
    /// One client MAC and the addresses it was assigned.
    MacAddrs { mac: BucketKey, addrs: Vec<String> },
    /// One assigned address and the client MACs it was assigned to.
    IpMacs { ip: BucketKey, macs: Vec<String> },
}

/// Model of a report record.
#[verifier::ext_equal]
pub enum RecordV {
    Event { doc: JsonV },
    Server { ip: KeyV, count: int },
    MacAddrs { mac: KeyV, addrs: Seq<Seq<char>> },
    IpMacs { ip: KeyV, macs: Seq<Seq<char>> },
}

impl ReportRecord {
    /// The model of this record.
    pub open spec fn dview(&self) -> RecordV {
        match self {
            ReportRecord::Event { doc } => RecordV::Event { doc: doc.dview() },
            ReportRecord::Server { ip, count } => RecordV::Server {
                ip: ip.dview(),
                count: *count as int,
            },
            ReportRecord::MacAddrs { mac, addrs } => RecordV::MacAddrs {
                mac: mac.dview(),
                addrs: strs_dview(addrs@),
            },
            ReportRecord::IpMacs { ip, macs } => RecordV::IpMacs {
                ip: ip.dview(),
                macs: strs_dview(macs@),
            },
        }
    }
}

/// The models of a record list.
pub open spec fn records_dview(rs: Seq<ReportRecord>) -> Seq<RecordV> {
    Seq::new(rs.len(), |i: int| rs[i].dview())
}

/// A report result: the record list that the `{"data": [...]}` envelope
/// carries.
#[derive(Debug, PartialEq)]
pub struct ReportResult {
    pub data: Vec<ReportRecord>,
}

/// The address that stands for "no lease assigned"; never a real device.
pub open spec fn zero_ip() -> Seq<char> {
    "0.0.0.0"@
}

/// The association list of a bucket's children: the string keys, in
/// bucket order, without the "no lease" address.
pub open spec fn spec_addr_list(cs: Seq<NodeV>) -> Seq<Seq<char>>
    decreases cs.len(),
{
    if cs.len() <= 0 {
        Seq::empty()
    } else {
        let rest = spec_addr_list(cs.drop_first());
        match cs[0].key {
            KeyV::Text(s) => if s != zero_ip() {
                seq![s] + rest
            } else {
                rest
            },
            KeyV::Num(_) => rest,
        }
    }
}

/// The records of an ack or request report: each bucket's embedded
/// latest event document, verbatim.
pub open spec fn spec_latest_records(ns: Seq<NodeV>) -> Seq<RecordV> {
    Seq::new(ns.len(), |i: int| RecordV::Event { doc: ns[i].doc })
}

/// The records of a servers report: one per bucket, key and count.
pub open spec fn spec_server_records(ns: Seq<NodeV>) -> Seq<RecordV> {
    Seq::new(ns.len(), |i: int| RecordV::Server { ip: ns[i].key, count: ns[i].count })
}

/// The records of a mac report: one per bucket, its key and the assigned
/// addresses of its children.
pub open spec fn spec_mac_records(ns: Seq<NodeV>) -> Seq<RecordV> {
    Seq::new(
        ns.len(),
        |i: int| RecordV::MacAddrs { mac: ns[i].key, addrs: spec_addr_list(ns[i].children) },
    )
}

/// The records of an ip report: one per bucket except those keyed by the
/// "no lease" address, which are skipped whole.
pub open spec fn spec_ip_records(ns: Seq<NodeV>) -> Seq<RecordV>
    decreases ns.len(),
{
    if ns.len() <= 0 {
        Seq::empty()
    } else {
        let rest = spec_ip_records(ns.drop_first());
        if ns[0].key == KeyV::Text(zero_ip()) {
            rest
        } else {
            seq![RecordV::IpMacs { ip: ns[0].key, macs: spec_addr_list(ns[0].children) }] + rest
        }
    }
}

/// The aggregation-name path a report kind walks.
pub open spec fn spec_path(kind: ReportKind) -> Seq<Seq<char>> {
    match kind {
        ReportKind::Ack => seq!["client_mac"@],
        ReportKind::Request => seq!["client_mac"@],
        ReportKind::Servers => seq!["servers"@],
        ReportKind::Mac => seq!["client_mac"@, "assigned_ip"@],
        ReportKind::Ip => seq!["assigned_ip"@, "client_mac"@],
    }
}

/// The top-hits aggregation name a report kind reads, if any.
pub open spec fn spec_top(kind: ReportKind) -> Option<Seq<char>> {
    match kind {
        ReportKind::Ack => Option::Some("latest"@),
        ReportKind::Request => Option::Some("latest"@),
        ReportKind::Servers => Option::None,
        ReportKind::Mac => Option::None,
        ReportKind::Ip => Option::None,
    }
}

/// The record mapping of a report kind over decoded buckets.
pub open spec fn spec_records(kind: ReportKind, ns: Seq<NodeV>) -> Seq<RecordV> {
    match kind {
        ReportKind::Ack => spec_latest_records(ns),
        ReportKind::Request => spec_latest_records(ns),
        ReportKind::Servers => spec_server_records(ns),
        ReportKind::Mac => spec_mac_records(ns),
        ReportKind::Ip => spec_ip_records(ns),
    }
}

/// The record list a report kind produces from a response document.
pub open spec fn spec_report(kind: ReportKind, resp: JsonV) -> Result<Seq<RecordV>, DecodeError> {
    match spec_walk(resp, spec_path(kind), spec_top(kind)) {
        Result::Ok(ns) => Result::Ok(spec_records(kind, ns)),
        Result::Err(e) => Result::Err(e),
    }
}

/// The outcome of dispatching a report-kind name over a response.
pub open spec fn spec_dispatch(what: Seq<char>, resp: JsonV) -> Result<Seq<RecordV>, ErrV> {
    match kind_of(what) {
        Option::None => Result::Err(ErrV::Unsupported(what)),
        Option::Some(k) => match spec_report(k, resp) {
            Result::Ok(rs) => Result::Ok(rs),
            Result::Err(d) => Result::Err(ErrV::Decode(d)),
        },
    }
}

/// The association list of a bucket's children.
#[verifier::loop_isolation(false)]
fn addr_list(cs: &Vec<BucketNode>) -> (out: Vec<String>)
    ensures
        strs_dview(out@) == spec_addr_list(nodes_dview(cs@)),
{
    let ghost csv = nodes_dview(cs@);
    let mut out: Vec<String> = Vec::new();
    let mut i: usize = 0;
    proof {
        assert(csv.skip(0) =~= csv);
        assert(strs_dview(out@) =~= Seq::<Seq<char>>::empty());
    }
    while i < cs.len()
        invariant
            i <= cs@.len(),
            spec_addr_list(csv) == strs_dview(out@) + spec_addr_list(csv.skip(i as int)),
        decreases cs@.len() - i,
    {
        proof {
            assert(csv.skip(i as int)[0] == csv[i as int]);
            assert(csv.skip(i as int).drop_first() =~= csv.skip(i as int + 1));
        }
        let ghost prev = out@;
        match &cs[i].key {
            BucketKey::Text(s) => {
                if !str_eq(s.as_str(), "0.0.0.0") {
                    out.push(s.clone());
                    proof {
                        assert(strs_dview(prev.push(*s)) =~= strs_dview(prev).push(s@));
                        let tail = spec_addr_list(csv.skip(i as int + 1));
                        assert(strs_dview(prev) + (seq![s@] + tail) =~= strs_dview(prev).push(s@)
                            + tail);
                    }
                }
            },
            BucketKey::Num(_) => (),
        }
        i += 1;
    }
    proof {
        assert(csv.skip(i as int) =~= Seq::<NodeV>::empty());
        assert(strs_dview(out@) + Seq::<Seq<char>>::empty() =~= strs_dview(out@));
    }
    out
}

/// The records of an ack or request report.
#[verifier::loop_isolation(false)]
fn latest_records(ns: &Vec<BucketNode>) -> (out: Vec<ReportRecord>)
    ensures
        records_dview(out@) == spec_latest_records(nodes_dview(ns@)),
{
    let mut out: Vec<ReportRecord> = Vec::new();
    let mut i: usize = 0;
    while i < ns.len()
        invariant
            i <= ns@.len(),
            out@.len() == i,
            forall|j: int|
                0 <= j < i ==> out@[j].dview() == (RecordV::Event { doc: ns@[j].dview().doc }),
        decreases ns@.len() - i,
    {
        let doc = ns[i].doc.duplicate();
        out.push(ReportRecord::Event { doc });
        i += 1;
    }
    proof {
        assert(records_dview(out@) =~= spec_latest_records(nodes_dview(ns@)));
    }
    out
}

/// The records of a servers report.
#[verifier::loop_isolation(false)]
fn server_records(ns: &Vec<BucketNode>) -> (out: Vec<ReportRecord>)
    ensures
        records_dview(out@) == spec_server_records(nodes_dview(ns@)),
{
    let mut out: Vec<ReportRecord> = Vec::new();
    let mut i: usize = 0;
    while i < ns.len()
        invariant
            i <= ns@.len(),
            out@.len() == i,
            forall|j: int|
                0 <= j < i ==> out@[j].dview() == (RecordV::Server {
                    ip: ns@[j].dview().key,
                    count: ns@[j].dview().count,
                }),
        decreases ns@.len() - i,
    {
        let ip = ns[i].key.duplicate();
        out.push(ReportRecord::Server { ip, count: ns[i].doc_count });
        i += 1;
    }
    proof {
        assert(records_dview(out@) =~= spec_server_records(nodes_dview(ns@)));
    }
    out
}

/// The records of a mac report.
#[verifier::loop_isolation(false)]
fn mac_records(ns: &Vec<BucketNode>) -> (out: Vec<ReportRecord>)
    ensures
        records_dview(out@) == spec_mac_records(nodes_dview(ns@)),
{
    let mut out: Vec<ReportRecord> = Vec::new();
    let mut i: usize = 0;
    while i < ns.len()
        invariant
            i <= ns@.len(),
            out@.len() == i,
            forall|j: int|
                0 <= j < i ==> out@[j].dview() == (RecordV::MacAddrs {
                    mac: ns@[j].dview().key,
                    addrs: spec_addr_list(ns@[j].dview().children),
                }),
        decreases ns@.len() - i,
    {
        let mac = ns[i].key.duplicate();
        let addrs = addr_list(&ns[i].children);
        out.push(ReportRecord::MacAddrs { mac, addrs });
        i += 1;
    }
    proof {
        assert(records_dview(out@) =~= spec_mac_records(nodes_dview(ns@)));
    }
    out
}

/// The records of an ip report.
#[verifier::loop_isolation(false)]
fn ip_records(ns: &Vec<BucketNode>) -> (out: Vec<ReportRecord>)
    ensures
        records_dview(out@) == spec_ip_records(nodes_dview(ns@)),
{
    let ghost nsv = nodes_dview(ns@);
    let mut out: Vec<ReportRecord> = Vec::new();
    let mut i: usize = 0;
    proof {
        assert(nsv.skip(0) =~= nsv);
        assert(records_dview(out@) =~= Seq::<RecordV>::empty());
    }
    while i < ns.len()
        invariant
            i <= ns@.len(),
            spec_ip_records(nsv) == records_dview(out@) + spec_ip_records(nsv.skip(i as int)),
        decreases ns@.len() - i,
    {
        proof {
            assert(nsv.skip(i as int)[0] == nsv[i as int]);
            assert(nsv.skip(i as int).drop_first() =~= nsv.skip(i as int + 1));
        }
        let skip_it: bool = match &ns[i].key {
            BucketKey::Text(s) => str_eq(s.as_str(), "0.0.0.0"),
            BucketKey::Num(_) => false,
        };
        if !skip_it {
            let ghost prev = out@;
            let ip = ns[i].key.duplicate();
            let macs = addr_list(&ns[i].children);
            let rec = ReportRecord::IpMacs { ip, macs };
            let ghost recv = rec.dview();
            out.push(rec);
            proof {
                assert(records_dview(prev.push(rec)) =~= records_dview(prev).push(recv));
                let tail = spec_ip_records(nsv.skip(i as int + 1));
                assert(records_dview(prev) + (seq![recv] + tail) =~= records_dview(prev).push(
                    recv,
                ) + tail);
            }
        }
        i += 1;
    }
    proof {
        assert(nsv.skip(i as int) =~= Seq::<NodeV>::empty());
        assert(records_dview(out@) + Seq::<RecordV>::empty() =~= records_dview(out@));
    }
    out
}

/// Walks the response along the kind's path and maps the buckets to
/// records.
fn format_records(kind: ReportKind, response: &JsonValue) -> (r: Result<
    Vec<ReportRecord>,
    DecodeError,
>)
    ensures
        (match r {
            Result::Ok(rs) => spec_report(kind, response.dview()) == Result::<
                Seq<RecordV>,
                DecodeError,
            >::Ok(records_dview(rs@)),
            Result::Err(e) => spec_report(kind, response.dview()) == Result::<
                Seq<RecordV>,
                DecodeError,
            >::Err(e),
        }),
{
    let mut path: Vec<String> = Vec::new();
    match kind {
        ReportKind::Ack => path.push("client_mac".to_owned()),
        ReportKind::Request => path.push("client_mac".to_owned()),
        ReportKind::Servers => path.push("servers".to_owned()),
        ReportKind::Mac => {
            path.push("client_mac".to_owned());
            path.push("assigned_ip".to_owned());
        },
        ReportKind::Ip => {
            path.push("assigned_ip".to_owned());
            path.push("client_mac".to_owned());
        },
    }
    let top: Option<&str> = match kind {
        ReportKind::Ack => Option::Some("latest"),
        ReportKind::Request => Option::Some("latest"),
        _ => Option::None,
    };
    proof {
        assert(strs_dview(path@) =~= spec_path(kind));
        assert(top_dview(top) == spec_top(kind));
    }
    match walk(response, &path, top) {
        Result::Err(e) => Result::Err(e),
        Result::Ok(ns) => {
            let rs = match kind {
                ReportKind::Ack => latest_records(&ns),
                ReportKind::Request => latest_records(&ns),
                ReportKind::Servers => server_records(&ns),
                ReportKind::Mac => mac_records(&ns),
                ReportKind::Ip => ip_records(&ns),
            };
            Result::Ok(rs)
        },
    }
}

/// Formats one kind's report from a response document.
fn report_for(kind: ReportKind, response: &JsonValue) -> (r: Result<ReportResult, ReportError>)
    ensures
        (match r {
            Result::Ok(res) => spec_report(kind, response.dview()) == Result::<
                Seq<RecordV>,
                DecodeError,
            >::Ok(records_dview(res.data@)),
            Result::Err(e) => (match e.dview() {
                ErrV::Decode(d) => spec_report(kind, response.dview()) == Result::<
                    Seq<RecordV>,
                    DecodeError,
                >::Err(d),
                _ => false,
            }),
        }),
{
    match format_records(kind, response) {
        Result::Ok(data) => Result::Ok(ReportResult { data }),
        Result::Err(d) => Result::Err(ReportError::Decode(d)),
    }
}

/// The ack report: the latest lease event per client MAC.
pub fn dhcp_report_ack(response: &JsonValue) -> (r: Result<ReportResult, ReportError>)
    ensures
        (match r {
            Result::Ok(res) => spec_report(ReportKind::Ack, response.dview()) == Result::<
                Seq<RecordV>,
                DecodeError,
            >::Ok(records_dview(res.data@)),
            Result::Err(e) => (match e.dview() {
                ErrV::Decode(d) => spec_report(ReportKind::Ack, response.dview()) == Result::<
                    Seq<RecordV>,
                    DecodeError,
                >::Err(d),
                _ => false,
            }),
        }),
{
    report_for(ReportKind::Ack, response)
}

/// The request report: the latest request event per client MAC.
pub fn dhcp_report_request(response: &JsonValue) -> (r: Result<ReportResult, ReportError>)
    ensures
        (match r {
            Result::Ok(res) => spec_report(ReportKind::Request, response.dview()) == Result::<
                Seq<RecordV>,
                DecodeError,
            >::Ok(records_dview(res.data@)),
            Result::Err(e) => (match e.dview() {
                ErrV::Decode(d) => spec_report(ReportKind::Request, response.dview()) == Result::<
                    Seq<RecordV>,
                    DecodeError,
                >::Err(d),
                _ => false,
            }),
        }),
{
    report_for(ReportKind::Request, response)
}

/// The servers report: every reply source address with its reply count.
pub fn servers(response: &JsonValue) -> (r: Result<ReportResult, ReportError>)
    ensures
        (match r {
            Result::Ok(res) => spec_report(ReportKind::Servers, response.dview()) == Result::<
                Seq<RecordV>,
                DecodeError,
            >::Ok(records_dview(res.data@)),
            Result::Err(e) => (match e.dview() {
                ErrV::Decode(d) => spec_report(ReportKind::Servers, response.dview()) == Result::<
                    Seq<RecordV>,
                    DecodeError,
                >::Err(d),
                _ => false,
            }),
        }),
{
    report_for(ReportKind::Servers, response)
}

/// The mac report: per client MAC, the addresses it was assigned.
pub fn mac(response: &JsonValue) -> (r: Result<ReportResult, ReportError>)
    ensures
        (match r {
            Result::Ok(res) => spec_report(ReportKind::Mac, response.dview()) == Result::<
                Seq<RecordV>,
                DecodeError,
            >::Ok(records_dview(res.data@)),
            Result::Err(e) => (match e.dview() {
                ErrV::Decode(d) => spec_report(ReportKind::Mac, response.dview()) == Result::<
                    Seq<RecordV>,
                    DecodeError,
                >::Err(d),
                _ => false,
            }),
        }),
{
    report_for(ReportKind::Mac, response)
}

/// The ip report: per assigned address, the client MACs it went to.
pub fn ip(response: &JsonValue) -> (r: Result<ReportResult, ReportError>)
    ensures
        (match r {
            Result::Ok(res) => spec_report(ReportKind::Ip, response.dview()) == Result::<
                Seq<RecordV>,
                DecodeError,
            >::Ok(records_dview(res.data@)),
            Result::Err(e) => (match e.dview() {
                ErrV::Decode(d) => spec_report(ReportKind::Ip, response.dview()) == Result::<
                    Seq<RecordV>,
                    DecodeError,
                >::Err(d),
                _ => false,
            }),
        }),
{
    report_for(ReportKind::Ip, response)
}

/// Formats the named report from a response document; the counterpart of
/// `dhcp_report_query` on the answer side of the store round trip.
pub fn dhcp_report_format(what: &str, response: &JsonValue) -> (r: Result<
    ReportResult,
    ReportError,
>)
    ensures
        (match r {
            Result::Ok(res) => spec_dispatch(what@, response.dview()) == Result::<
                Seq<RecordV>,
                ErrV,
            >::Ok(records_dview(res.data@)),
            Result::Err(e) => spec_dispatch(what@, response.dview()) == Result::<
                Seq<RecordV>,
                ErrV,
            >::Err(e.dview()),
        }),
{
    match parse_kind(what) {
        Option::None => Result::Err(ReportError::UnsupportedReport(what.to_owned())),
        Option::Some(kind) => report_for(kind, response),
    }
}

/// The JSON form of a bucket key.
pub open spec fn key_json(k: KeyV) -> JsonV {
    match k {
        KeyV::Text(s) => JsonV::Text(s),
        KeyV::Num(n) => JsonV::Int(n),
    }
}

/// The JSON strings of an address list.
pub open spec fn texts_json(ss: Seq<Seq<char>>) -> Seq<JsonV> {
    Seq::new(ss.len(), |i: int| JsonV::Text(ss[i]))
}

/// The JSON form of one record.
pub open spec fn record_json(rec: RecordV) -> JsonV {
    match rec {
        RecordV::Event { doc } => doc,
        RecordV::Server { ip, count } => JsonV::Obj(
            seq![("ip"@, key_json(ip)), ("count"@, JsonV::Int(count))],
        ),
        RecordV::MacAddrs { mac, addrs } => JsonV::Obj(
            seq![("mac"@, key_json(mac)), ("addrs"@, JsonV::Arr(texts_json(addrs)))],
        ),
        RecordV::IpMacs { ip, macs } => JsonV::Obj(
            seq![("ip"@, key_json(ip)), ("macs"@, JsonV::Arr(texts_json(macs)))],
        ),
    }
}

/// The JSON envelope of a whole report result: always one object with a
/// single `data` field holding the array of records.
pub open spec fn result_json(rs: Seq<RecordV>) -> JsonV {
    JsonV::Obj(seq![("data"@, JsonV::Arr(Seq::new(rs.len(), |i: int| record_json(rs[i]))))])
}

/// Encodes a bucket key.
fn key_to_json(k: &BucketKey) -> (r: JsonValue)
    ensures
        r.dview() == key_json(k.dview()),
{
    match k {
        BucketKey::Text(s) => JsonValue::Text(s.clone()),
        BucketKey::Num(n) => JsonValue::Int(*n),
    }
}

/// Encodes an address list.
#[verifier::loop_isolation(false)]
fn texts_to_json(ss: &Vec<String>) -> (r: Vec<JsonValue>)
    ensures
        arr_dview(r@) == texts_json(strs_dview(ss@)),
{
    let mut out: Vec<JsonValue> = Vec::new();
    let mut i: usize = 0;
    while i < ss.len()
        invariant
            i <= ss@.len(),
            out@.len() == i,
            forall|j: int| 0 <= j < i ==> out@[j].dview() == JsonV::Text(ss@[j]@),
        decreases ss@.len() - i,
    {
        out.push(JsonValue::Text(ss[i].clone()));
        i += 1;
    }
    proof {
        assert(arr_dview(out@) =~= texts_json(strs_dview(ss@)));
    }
    out
}

/// Encodes one record.
fn record_to_json(rec: &ReportRecord) -> (r: JsonValue)
    ensures
        r.dview() == record_json(rec.dview()),
{
    match rec {
        ReportRecord::Event { doc } => doc.duplicate(),
        ReportRecord::Server { ip, count } => obj2(
            "ip",
            key_to_json(ip),
            "count",
            JsonValue::Int(*count),
        ),
        ReportRecord::MacAddrs { mac, addrs } => obj2(
            "mac",
            key_to_json(mac),
            "addrs",
            JsonValue::Arr(texts_to_json(addrs)),
        ),
        ReportRecord::IpMacs { ip, macs } => obj2(
            "ip",
            key_to_json(ip),
            "macs",
            JsonValue::Arr(texts_to_json(macs)),
        ),
    }
}

impl ReportResult {
    /// Encodes this result as the `{"data": [...]}` envelope.
    #[verifier::loop_isolation(false)]
    pub fn to_json(&self) -> (r: JsonValue)
        ensures
            r.dview() == result_json(records_dview(self.data@)),
    {
        let mut encoded: Vec<JsonValue> = Vec::new();
        let mut i: usize = 0;
        while i < self.data.len()
            invariant
                i <= self.data@.len(),
                encoded@.len() == i,
                forall|j: int|
                    0 <= j < i ==> encoded@[j].dview() == record_json(self.data@[j].dview()),
            decreases self.data@.len() - i,
        {
            let rj = record_to_json(&self.data[i]);
            encoded.push(rj);
            i += 1;
        }
        let ghost rsv = records_dview(self.data@);
        proof {
            assert(arr_dview(encoded@) =~= Seq::new(rsv.len(), |j: int| record_json(rsv[j])));
        }
        obj1("data", JsonValue::Arr(encoded))
    }
}

/// Law: every report result encodes as the `{"data": [...]}` envelope —
/// one object with a single `data` field holding an array, whatever the
/// records are; an empty result is `{"data": []}`, never absent.
pub proof fn lemma_result_envelope(rs: Seq<RecordV>)
    ensures
        result_json(rs) matches JsonV::Obj(fields) && fields.len() == 1 && fields[0].0 == "data"@
            && fields[0].1 is Arr,
{
}

/// No association list ever holds the "no lease" address, and only
/// string keys enter it.
proof fn lemma_addr_list_no_zero(cs: Seq<NodeV>)
    ensures
        !spec_addr_list(cs).contains(zero_ip()),
    decreases cs.len(),
{
    if cs.len() > 0 {
        lemma_addr_list_no_zero(cs.drop_first());
        let tail = spec_addr_list(cs.drop_first());
        if spec_addr_list(cs).contains(zero_ip()) {
            let idx = choose|idx: int|
                0 <= idx < spec_addr_list(cs).len() && spec_addr_list(cs)[idx] == zero_ip();
            match cs[0].key {
                KeyV::Text(s) => {
                    if s != zero_ip() {
                        if idx > 0 {
                            assert(tail[idx - 1] == zero_ip());
                            assert(tail.contains(zero_ip()));
                        }
                    } else {
                        assert(tail.contains(zero_ip()));
                    }
                },
                KeyV::Num(_) => {
                    assert(tail.contains(zero_ip()));
                },
            }
            assert(false);
        }
    }
}

/// Law: a mac report's records are all `{mac, addrs}`, and no address
/// list ever holds the literal "0.0.0.0".
pub proof fn lemma_mac_no_zero_addr(resp: JsonV, rs: Seq<RecordV>)
    requires
        spec_report(ReportKind::Mac, resp) == Result::<Seq<RecordV>, DecodeError>::Ok(rs),
    ensures
        forall|i: int|
            0 <= i < rs.len() ==> ((#[trigger] rs[i]) matches RecordV::MacAddrs { mac, addrs }
                && !addrs.contains(zero_ip())),
{
    let ns = spec_walk(resp, spec_path(ReportKind::Mac), spec_top(ReportKind::Mac))->Ok_0;
    assert(rs == spec_mac_records(ns));
    assert forall|i: int| 0 <= i < rs.len() implies ((#[trigger] rs[i])
        matches RecordV::MacAddrs { mac, addrs } && !addrs.contains(zero_ip())) by {
        lemma_addr_list_no_zero(ns[i].children);
    }
}

/// Every ip-report record is `{ip, macs}` with an identifier other than
/// "0.0.0.0" and no "0.0.0.0" among its addresses.
proof fn lemma_ip_records_shape(ns: Seq<NodeV>)
    ensures
        forall|i: int|
            0 <= i < spec_ip_records(ns).len() ==> ((#[trigger] spec_ip_records(ns)[i])
                matches RecordV::IpMacs { ip, macs } && ip != KeyV::Text(zero_ip())
                && !macs.contains(zero_ip())),
    decreases ns.len(),
{
    if ns.len() > 0 {
        lemma_ip_records_shape(ns.drop_first());
        let rest = spec_ip_records(ns.drop_first());
        if ns[0].key == KeyV::Text(zero_ip()) {
        } else {
            lemma_addr_list_no_zero(ns[0].children);
            let whole = spec_ip_records(ns);
            assert forall|i: int| 0 <= i < whole.len() implies ((#[trigger] whole[i])
                matches RecordV::IpMacs { ip, macs } && ip != KeyV::Text(zero_ip())
                && !macs.contains(zero_ip())) by {
                if i > 0 {
                    assert(whole[i] == rest[i - 1]);
                }
            }
        }
    }
}

/// Law: an ip report never keys a record by "0.0.0.0" — such a bucket is
/// skipped whole — and never lists "0.0.0.0" among a record's addresses.
pub proof fn lemma_ip_no_zero(resp: JsonV, rs: Seq<RecordV>)
    requires
        spec_report(ReportKind::Ip, resp) == Result::<Seq<RecordV>, DecodeError>::Ok(rs),
    ensures
        forall|i: int|
            0 <= i < rs.len() ==> ((#[trigger] rs[i]) matches RecordV::IpMacs { ip, macs } && ip
                != KeyV::Text(zero_ip()) && !macs.contains(zero_ip())),
{
    let ns = spec_walk(resp, spec_path(ReportKind::Ip), spec_top(ReportKind::Ip))->Ok_0;
    assert(rs == spec_ip_records(ns));
    lemma_ip_records_shape(ns);
}

/// Law: a servers report has exactly one record per decoded source
/// bucket, and record `i` is `{ip: key, count: doc_count}` of bucket `i`.
pub proof fn lemma_servers_records(resp: JsonV, ns: Seq<NodeV>, rs: Seq<RecordV>)
    requires
        spec_walk(resp, spec_path(ReportKind::Servers), spec_top(ReportKind::Servers)) == Result::<
            Seq<NodeV>,
            DecodeError,
        >::Ok(ns),
        spec_report(ReportKind::Servers, resp) == Result::<Seq<RecordV>, DecodeError>::Ok(rs),
    ensures
        rs.len() == ns.len(),
        forall|i: int|
            0 <= i < ns.len() ==> rs[i] == (RecordV::Server { ip: ns[i].key, count: ns[i].count }),
{
}

/// Law: the formatted report is a function of the report-kind name and
/// the store's response alone — with an unchanged store, repeated calls
/// with identical parameters agree.
pub proof fn lemma_report_idempotent(
    what: Seq<char>,
    resp: JsonV,
    r1: Result<Seq<RecordV>, ErrV>,
    r2: Result<Seq<RecordV>, ErrV>,
)
    requires
        r1 == spec_dispatch(what, resp),
        r2 == spec_dispatch(what, resp),
    ensures
        r1 == r2,
{
}

} // verus!
