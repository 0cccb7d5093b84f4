use dhcp_report::json::JsonValue;
use dhcp_report::query::{EventQueryParams, Filter};
use dhcp_report::report::{
    dhcp_report_ack, dhcp_report_format, dhcp_report_query, dhcp_report_request, ip, mac,
    parse_kind, servers, ReportError, ReportKind, ReportRecord,
};
use dhcp_report::walker::{BucketKey, DecodeError};

fn obj(fields: Vec<(&str, JsonValue)>) -> JsonValue {
    JsonValue::Obj(fields.into_iter().map(|(k, v)| (k.to_string(), v)).collect())
}

fn text(s: &str) -> JsonValue {
    JsonValue::Text(s.to_string())
}

fn bucket(key: JsonValue, count: Option<i64>, extra: Vec<(&str, JsonValue)>) -> JsonValue {
    let mut fields = vec![("key", key)];
    if let Some(c) = count {
        fields.push(("doc_count", JsonValue::Int(c)));
    }
    fields.extend(extra);
    obj(fields)
}

fn response_with(agg_name: &str, buckets: Vec<JsonValue>) -> JsonValue {
    obj(vec![(
        "aggregations",
        obj(vec![(agg_name, obj(vec![("buckets", JsonValue::Arr(buckets))]))]),
    )])
}

#[test]
fn unknown_report_kind_fails_before_any_request() {
    let params = EventQueryParams { min_timestamp: None, query_string: None };
    match dhcp_report_query("bogus", &params) {
        Err(ReportError::UnsupportedReport(s)) => assert_eq!(s, "bogus"),
        other => panic!("expected UnsupportedReport, got {:?}", other),
    }
    let resp = response_with("client_mac", vec![]);
    match dhcp_report_format("bogus", &resp) {
        Err(ReportError::UnsupportedReport(s)) => assert_eq!(s, "bogus"),
        other => panic!("expected UnsupportedReport, got {:?}", other),
    }
}

#[test]
fn parse_kind_knows_all_five_reports() {
    assert_eq!(parse_kind("ack"), Some(ReportKind::Ack));
    assert_eq!(parse_kind("request"), Some(ReportKind::Request));
    assert_eq!(parse_kind("servers"), Some(ReportKind::Servers));
    assert_eq!(parse_kind("mac"), Some(ReportKind::Mac));
    assert_eq!(parse_kind("ip"), Some(ReportKind::Ip));
    assert_eq!(parse_kind("acks"), None);
    assert_eq!(parse_kind(""), None);
}

#[test]
fn mac_report_drops_the_zero_address() {
    // One client MAC with two assigned addresses, one of them "0.0.0.0".
    let assigned = obj(vec![(
        "buckets",
        JsonValue::Arr(vec![
            bucket(text("10.0.0.5"), None, vec![]),
            bucket(text("0.0.0.0"), None, vec![]),
        ]),
    )]);
    let b = bucket(text("aa:bb"), Some(3), vec![("assigned_ip", assigned)]);
    let resp = response_with("client_mac", vec![b]);

    let result = mac(&resp).unwrap();
    assert_eq!(result.data.len(), 1);
    match &result.data[0] {
        ReportRecord::MacAddrs { mac, addrs } => {
            assert_eq!(mac, &BucketKey::Text("aa:bb".to_string()));
            assert_eq!(addrs, &vec!["10.0.0.5".to_string()]);
        }
        other => panic!("expected a MacAddrs record, got {:?}", other),
    }

    // The encoded envelope: {"data": [{"mac": "aa:bb", "addrs": ["10.0.0.5"]}]}
    let expected = obj(vec![(
        "data",
        JsonValue::Arr(vec![obj(vec![
            ("mac", text("aa:bb")),
            ("addrs", JsonValue::Arr(vec![text("10.0.0.5")])),
        ])]),
    )]);
    assert_eq!(result.to_json(), expected);
}

#[test]
fn ip_report_skips_the_zero_bucket_whole() {
    let macs_of = |names: Vec<&str>| {
        obj(vec![(
            "buckets",
            JsonValue::Arr(names.into_iter().map(|n| bucket(text(n), None, vec![])).collect()),
        )])
    };
    let resp = response_with(
        "assigned_ip",
        vec![
            bucket(text("0.0.0.0"), Some(9), vec![("client_mac", macs_of(vec!["aa:aa"]))]),
            bucket(text("10.0.0.7"), Some(2), vec![("client_mac", macs_of(vec!["bb:bb", "cc:cc"]))]),
        ],
    );
    let result = ip(&resp).unwrap();
    assert_eq!(result.data.len(), 1);
    match &result.data[0] {
        ReportRecord::IpMacs { ip, macs } => {
            assert_eq!(ip, &BucketKey::Text("10.0.0.7".to_string()));
            assert_eq!(macs, &vec!["bb:bb".to_string(), "cc:cc".to_string()]);
        }
        other => panic!("expected an IpMacs record, got {:?}", other),
    }
}

#[test]
fn servers_report_has_one_record_per_source_ip_with_its_count() {
    let resp = response_with(
        "servers",
        vec![
            bucket(text("192.168.1.1"), Some(42), vec![]),
            bucket(text("192.168.1.2"), Some(7), vec![]),
        ],
    );
    let result = servers(&resp).unwrap();
    assert_eq!(result.data.len(), 2);
    assert_eq!(
        result.data[0],
        ReportRecord::Server { ip: BucketKey::Text("192.168.1.1".to_string()), count: 42 }
    );
    assert_eq!(
        result.data[1],
        ReportRecord::Server { ip: BucketKey::Text("192.168.1.2".to_string()), count: 7 }
    );
}

#[test]
fn ack_report_returns_the_embedded_latest_document_verbatim() {
    let doc = obj(vec![("timestamp", text("2020-01-01")), ("host", text("gw"))]);
    let latest = obj(vec![(
        "hits",
        obj(vec![(
            "hits",
            JsonValue::Arr(vec![obj(vec![("_source", doc.duplicate())])]),
        )]),
    )]);
    let b = bucket(text("aa:bb"), Some(1), vec![("latest", latest)]);
    let resp = response_with("client_mac", vec![b]);
    let result = dhcp_report_ack(&resp).unwrap();
    assert_eq!(result.data.len(), 1);
    assert_eq!(result.data[0], ReportRecord::Event { doc });
}

#[test]
fn ack_report_without_hits_yields_a_null_record() {
    let b = bucket(text("aa:bb"), Some(1), vec![]);
    let resp = response_with("client_mac", vec![b]);
    let result = dhcp_report_ack(&resp).unwrap();
    assert_eq!(result.data, vec![ReportRecord::Event { doc: JsonValue::Null }]);
}

#[test]
fn empty_buckets_give_an_empty_record_list_not_an_error() {
    // Empty at the top level, for every kind.
    for (what, agg) in [
        ("ack", "client_mac"),
        ("request", "client_mac"),
        ("servers", "servers"),
        ("mac", "client_mac"),
        ("ip", "assigned_ip"),
    ] {
        let resp = response_with(agg, vec![]);
        let result = dhcp_report_format(what, &resp).unwrap();
        assert_eq!(result.data.len(), 0, "kind {}", what);
    }
    // Empty at the nested level: a mac bucket without any assigned_ip.
    let resp = response_with(
        "client_mac",
        vec![bucket(
            text("aa:bb"),
            Some(3),
            vec![("assigned_ip", obj(vec![("buckets", JsonValue::Arr(vec![]))]))],
        )],
    );
    let result = mac(&resp).unwrap();
    assert_eq!(result.data.len(), 1);
    assert_eq!(
        result.data[0],
        ReportRecord::MacAddrs { mac: BucketKey::Text("aa:bb".to_string()), addrs: vec![] }
    );
}

#[test]
fn missing_aggregations_object_is_an_empty_result() {
    let resp = obj(vec![("took", JsonValue::Int(3))]);
    let result = dhcp_report_format("servers", &resp).unwrap();
    assert_eq!(result.data.len(), 0);
    let envelope = obj(vec![("data", JsonValue::Arr(vec![]))]);
    assert_eq!(result.to_json(), envelope);
}

#[test]
fn malformed_bucket_key_is_a_decode_error() {
    // A bucket whose key is an array: neither string nor number.
    let resp = response_with("servers", vec![bucket(JsonValue::Arr(vec![]), Some(1), vec![])]);
    match servers(&resp) {
        Err(ReportError::Decode(DecodeError::BadBucketKey)) => {}
        other => panic!("expected BadBucketKey, got {:?}", other),
    }
    // A bucket without any key at all.
    let resp = response_with("servers", vec![obj(vec![("doc_count", JsonValue::Int(1))])]);
    match servers(&resp) {
        Err(ReportError::Decode(DecodeError::BadBucketKey)) => {}
        other => panic!("expected BadBucketKey, got {:?}", other),
    }
}

#[test]
fn numeric_bucket_keys_are_kept_as_numbers() {
    let resp = response_with("servers", vec![bucket(JsonValue::Int(3232235777), Some(5), vec![])]);
    let result = servers(&resp).unwrap();
    assert_eq!(
        result.data,
        vec![ReportRecord::Server { ip: BucketKey::Num(3232235777), count: 5 }]
    );
}

#[test]
fn malformed_doc_count_is_a_decode_error() {
    let resp = response_with("servers", vec![bucket(text("10.0.0.1"), None, vec![(
        "doc_count",
        text("many"),
    )])]);
    match servers(&resp) {
        Err(ReportError::Decode(DecodeError::BadDocCount)) => {}
        other => panic!("expected BadDocCount, got {:?}", other),
    }
    let resp = response_with("servers", vec![bucket(text("10.0.0.1"), Some(-2), vec![])]);
    match servers(&resp) {
        Err(ReportError::Decode(DecodeError::BadDocCount)) => {}
        other => panic!("expected BadDocCount, got {:?}", other),
    }
}

#[test]
fn buckets_of_the_wrong_shape_are_a_decode_error() {
    let resp = obj(vec![(
        "aggregations",
        obj(vec![("servers", obj(vec![("buckets", text("oops"))]))]),
    )]);
    match servers(&resp) {
        Err(ReportError::Decode(DecodeError::BucketsNotArray)) => {}
        other => panic!("expected BucketsNotArray, got {:?}", other),
    }
}

#[test]
fn repeated_calls_on_one_response_agree_byte_for_byte() {
    let assigned = obj(vec![(
        "buckets",
        JsonValue::Arr(vec![bucket(text("10.0.0.5"), Some(2), vec![])]),
    )]);
    let resp = response_with(
        "client_mac",
        vec![bucket(text("aa:bb"), Some(3), vec![("assigned_ip", assigned)])],
    );
    let first = dhcp_report_format("mac", &resp).unwrap();
    let second = dhcp_report_format("mac", &resp).unwrap();
    assert_eq!(first, second);
    assert_eq!(first.to_json(), second.to_json());
    assert_eq!(format!("{:?}", first.to_json()), format!("{:?}", second.to_json()));
}

#[test]
fn request_report_mirrors_ack_with_its_own_discriminator() {
    let params = EventQueryParams { min_timestamp: None, query_string: None };
    let req = dhcp_report_query("request", &params).unwrap();
    assert_eq!(
        req.filters[1],
        Filter::Term { field: "dhcp.dhcp_type".to_string(), value: "request".to_string() }
    );
    let doc = obj(vec![("event", text("lease-request"))]);
    let latest = obj(vec![(
        "hits",
        obj(vec![(
            "hits",
            JsonValue::Arr(vec![
                obj(vec![("_source", doc.duplicate())]),
                obj(vec![("_source", text("older"))]),
            ]),
        )]),
    )]);
    let resp = response_with(
        "client_mac",
        vec![bucket(text("aa:bb"), Some(2), vec![("latest", latest)])],
    );
    let result = dhcp_report_request(&resp).unwrap();
    // Only the first (most recent) hit document becomes the record.
    assert_eq!(result.data, vec![ReportRecord::Event { doc }]);
}

#[test]
fn ip_report_never_lists_the_zero_address_among_macs() {
    let macs = obj(vec![(
        "buckets",
        JsonValue::Arr(vec![
            bucket(text("aa:aa"), None, vec![]),
            bucket(text("0.0.0.0"), None, vec![]),
            bucket(JsonValue::Int(7), None, vec![]),
        ]),
    )]);
    let resp = response_with(
        "assigned_ip",
        vec![bucket(text("10.0.0.9"), Some(4), vec![("client_mac", macs)])],
    );
    let result = ip(&resp).unwrap();
    assert_eq!(
        result.data,
        vec![ReportRecord::IpMacs {
            ip: BucketKey::Text("10.0.0.9".to_string()),
            macs: vec!["aa:aa".to_string()],
        }]
    );
}

#[test]
fn query_carries_shared_filters_then_discriminator() {
    let params = EventQueryParams {
        min_timestamp: Some(1577836800),
        query_string: Some("host:gw".to_string()),
    };
    let req = dhcp_report_query("ack", &params).unwrap();
    assert_eq!(req.size, 0);
    assert_eq!(req.filters.len(), 4);
    assert_eq!(
        req.filters[0],
        Filter::Term { field: "event_type".to_string(), value: "dhcp".to_string() }
    );
    assert_eq!(req.filters[1], Filter::TimestampGte { ts: 1577836800 });
    assert_eq!(req.filters[2], Filter::QueryString { query: "host:gw".to_string() });
    assert_eq!(
        req.filters[3],
        Filter::Term { field: "dhcp.dhcp_type".to_string(), value: "ack".to_string() }
    );
    assert_eq!(req.aggs.name, "client_mac");
    assert_eq!(req.aggs.field, "dhcp.client_mac.keyword");
    assert_eq!(req.aggs.size, Some(10000));
    let top = req.aggs.top_hits.as_ref().unwrap();
    assert_eq!(top.name, "latest");
    assert_eq!(top.sort_field, "@timestamp");
    assert_eq!(top.size, 1);
}

#[test]
fn query_without_options_has_only_the_two_term_filters() {
    let params = EventQueryParams { min_timestamp: None, query_string: None };
    let req = dhcp_report_query("mac", &params).unwrap();
    assert_eq!(req.filters.len(), 2);
    assert_eq!(
        req.filters[1],
        Filter::Term { field: "dhcp.type".to_string(), value: "reply".to_string() }
    );
    assert_eq!(req.aggs.children.len(), 1);
    assert_eq!(req.aggs.children[0].name, "assigned_ip");
    assert_eq!(req.aggs.children[0].field, "dhcp.assigned_ip.keyword");
    assert_eq!(req.aggs.children[0].size, None);
}

#[test]
fn request_body_encodes_the_full_search_shape() {
    let params = EventQueryParams { min_timestamp: None, query_string: None };
    let req = dhcp_report_query("servers", &params).unwrap();
    let body = req.to_json();
    let expected = obj(vec![
        (
            "query",
            obj(vec![(
                "bool",
                obj(vec![(
                    "filter",
                    JsonValue::Arr(vec![
                        obj(vec![("term", obj(vec![("event_type", text("dhcp"))]))]),
                        obj(vec![("term", obj(vec![("dhcp.type", text("reply"))]))]),
                    ]),
                )]),
            )]),
        ),
        ("size", JsonValue::Int(0)),
        (
            "aggs",
            obj(vec![(
                "servers",
                obj(vec![(
                    "terms",
                    obj(vec![
                        ("field", text("src_ip.keyword")),
                        ("size", JsonValue::Int(10000)),
                    ]),
                )]),
            )]),
        ),
    ]);
    assert_eq!(body, expected);
}
