use rqlite::{
    check_auth, execute_request, get_type, json_decode, json_encode, nodes_from_body,
    nodes_request, parse_vec_types, ready_request, remove_request, status_success,
    ConnectOptions, Cursor, JsonValue, Row, RqliteError, Scheme, Type,
};

fn opts() -> ConnectOptions {
    ConnectOptions::new("127.0.0.1", 4001)
}

#[test]
fn builder_sets_every_field() {
    let o = ConnectOptions::new("my.node.local", 4001)
        .scheme(Scheme::HTTPS)
        .user("root")
        .pass("secret")
        .accept_invalid_cert(true);
    assert_eq!(o.scheme, Scheme::HTTPS);
    assert_eq!(o.host, "my.node.local");
    assert_eq!(o.port, 4001);
    assert_eq!(o.user.as_deref(), Some("root"));
    assert_eq!(o.pass.as_deref(), Some("secret"));
    assert!(o.accept_invalid_cert);
}

#[test]
fn builder_defaults_are_plain_http() {
    let o = opts();
    assert_eq!(o.scheme, Scheme::HTTP);
    assert!(o.user.is_none());
    assert!(o.pass.is_none());
    assert!(!o.accept_invalid_cert);
    assert_eq!(o.authority(), "127.0.0.1:4001");
}

#[test]
fn base_headers_name_host_and_content_type() {
    let p = ready_request(&opts());
    assert_eq!(p.headers.len(), 2);
    assert_eq!(p.headers[0].0, "Host");
    assert_eq!(p.headers[0].1, "127.0.0.1:4001");
    assert_eq!(p.headers[1].0, "Content-Type");
    assert_eq!(p.headers[1].1, "application/json");
}

#[test]
fn auth_header_is_base64_of_user_colon_pass() {
    let o = opts().user("root").pass("secret");
    let p = ready_request(&o);
    assert_eq!(p.headers.len(), 3);
    assert_eq!(p.headers[2].0, "Authorization");
    assert_eq!(p.headers[2].1, format!("Basic {}", base64::encode("root:secret")));
}

#[test]
fn auth_header_is_omitted_without_both_credentials() {
    let o = opts().user("root");
    let p = ready_request(&o);
    assert_eq!(p.headers.len(), 2);
}

#[test]
fn status_401_is_auth_error() {
    assert_eq!(check_auth(401), Err(RqliteError::AuthError));
    assert_eq!(check_auth(200), Ok(()));
    assert_eq!(check_auth(500), Ok(()));
    assert_eq!(status_success(401), Err(RqliteError::AuthError));
}

#[test]
fn type_tags_map_to_the_five_types() {
    assert_eq!(get_type(""), Ok(Type::Null));
    assert_eq!(get_type("integer"), Ok(Type::Integer));
    assert_eq!(get_type("real"), Ok(Type::Real));
    assert_eq!(get_type("text"), Ok(Type::Text));
    assert_eq!(get_type("blob"), Ok(Type::Blob));
    assert_eq!(get_type("varchar"), Err(()));
    assert_eq!(get_type("Integer"), Err(()));
}

#[test]
fn parse_vec_types_maps_in_order() {
    let tags: Vec<String> = vec!["".into(), "integer".into(), "real".into(), "text".into(), "blob".into()];
    let ts = parse_vec_types(&tags).unwrap();
    assert_eq!(ts, vec![Type::Null, Type::Integer, Type::Real, Type::Text, Type::Blob]);
}

#[test]
fn parse_vec_types_names_the_unknown_tag() {
    let tags: Vec<String> = vec!["integer".into(), "varchar".into()];
    match parse_vec_types(&tags) {
        Err(RqliteError::DataSer(m)) => assert_eq!(m, "unknown sqlite type varchar"),
        other => panic!("expected a DataSer error, got {:?}", other),
    }
}

#[test]
fn integer_round_trip_through_json() {
    for i in [0i64, 1, -1, 42, i64::MAX, i64::MIN] {
        let v = JsonValue::from_i64(i);
        assert_eq!(v.as_i64(), Some(i));
        let text = json_encode(&v).unwrap();
        let back = json_decode(text.as_bytes()).unwrap();
        assert_eq!(back.as_i64(), Some(i));
    }
}

#[test]
fn text_round_trip_through_json() {
    let v = JsonValue::Text("fiona".to_string());
    assert_eq!(v.as_text().as_deref(), Some("fiona"));
    let text = json_encode(&v).unwrap();
    assert_eq!(text, "\"fiona\"");
    let back = json_decode(text.as_bytes()).unwrap();
    assert_eq!(back.as_text().as_deref(), Some("fiona"));
}

#[test]
fn number_extraction_is_strict() {
    assert_eq!(JsonValue::Number("9223372036854775807".into()).as_i64(), Some(i64::MAX));
    assert_eq!(JsonValue::Number("9223372036854775808".into()).as_i64(), None);
    assert_eq!(JsonValue::Number("-9223372036854775808".into()).as_i64(), Some(i64::MIN));
    assert_eq!(JsonValue::Number("1.5".into()).as_i64(), None);
    assert_eq!(JsonValue::Number("".into()).as_i64(), None);
    assert_eq!(JsonValue::Text("7".into()).as_i64(), None);
    assert_eq!(JsonValue::Bool(true).as_bool(), Some(true));
    assert!(JsonValue::Null.is_null());
}

#[test]
fn error_messages_carry_their_text() {
    assert_eq!(RqliteError::Connection("connection closed".into()).message(), "connection closed");
    assert_eq!(RqliteError::AuthError.message(), "authentication failed");
    assert_eq!(RqliteError::SqlError("no such table".into()).message(), "no such table");
    assert_eq!(RqliteError::DataSer("bad json".into()).message(), "bad json");
}

#[test]
fn bool_and_null_round_trip_through_json() {
    let text = json_encode(&JsonValue::Bool(true)).unwrap();
    assert_eq!(text, "true");
    assert_eq!(json_decode(text.as_bytes()).unwrap().as_bool(), Some(true));
    let text = json_encode(&JsonValue::Null).unwrap();
    assert_eq!(text, "null");
    assert!(json_decode(text.as_bytes()).unwrap().is_null());
}

#[test]
fn blob_decodes_base64_text() {
    let v = JsonValue::Text(base64::encode(b"hello"));
    assert_eq!(v.as_blob().as_deref(), Some(&b"hello"[..]));
    assert_eq!(JsonValue::Text("not base64!".into()).as_blob(), None);
}

#[test]
fn row_get_past_the_end_names_the_index() {
    let row = Row::new(vec![JsonValue::Null, JsonValue::Bool(true)]);
    assert_eq!(row.len(), 2);
    match row.get(5) {
        Err(RqliteError::DataSer(m)) => {
            assert_eq!(m, "row element with index 5 does not exist")
        },
        other => panic!("expected a bounds error, got {:?}", other),
    }
    assert!(row.get(1).is_ok());
}

#[test]
fn row_typed_getters_name_index_and_type() {
    let row = Row::new(vec![
        JsonValue::Number("7".into()),
        JsonValue::Text("fiona".into()),
        JsonValue::Bool(false),
        JsonValue::Text(base64::encode(b"bytes")),
    ]);
    assert_eq!(row.get_i64(0), Ok(7));
    assert_eq!(row.get_text(1), Ok("fiona".to_string()));
    assert_eq!(row.get_bool(2), Ok(false));
    assert_eq!(row.get_blob(3), Ok(b"bytes".to_vec()));
    match row.get_i64(1) {
        Err(RqliteError::DataSer(m)) => {
            assert_eq!(m, "cannot decode row element 1 as integer")
        },
        other => panic!("expected a decode error, got {:?}", other),
    }
}

#[test]
fn execute_request_builds_the_statement_body() {
    let p = execute_request(
        &opts(),
        "INSERT INTO foo(name) VALUES (?)",
        &vec![JsonValue::Text("fiona".to_string())],
    )
    .unwrap();
    assert_eq!(p.method, "POST");
    assert_eq!(p.path, "/db/execute");
    assert_eq!(
        p.body.as_deref(),
        Some("[[\"INSERT INTO foo(name) VALUES (?)\",\"fiona\"]]")
    );
}

#[test]
fn insert_response_reports_one_row_affected() {
    let body = br#"{"results":[{"last_insert_id":1,"rows_affected":1}]}"#;
    let v = json_decode(body).unwrap();
    let cur = Cursor::from_body(&v).unwrap();
    assert_eq!(cur.rows_affected(), 1);
    assert_eq!(cur.last_insert_id(), Some(1));
    assert!(cur.rows.is_empty());
    assert!(cur.columns.is_empty());
}

#[test]
fn select_response_decodes_columns_types_and_rows() {
    let body = br#"{"results":[{"columns":["id","name"],"types":["integer","text"],"values":[[1,"fiona"],[2,"sinead"]]}]}"#;
    let v = json_decode(body).unwrap();
    let cur = Cursor::from_body(&v).unwrap();
    assert_eq!(cur.columns, vec!["id".to_string(), "name".to_string()]);
    assert_eq!(cur.types, vec![Type::Integer, Type::Text]);
    assert_eq!(cur.rows.len(), 2);
    assert_eq!(cur.rows[0].get_i64(0), Ok(1));
    assert_eq!(cur.rows[0].get_text(1), Ok("fiona".to_string()));
    assert_eq!(cur.rows[1].get_i64(0), Ok(2));
    assert_eq!(cur.rows[1].get_text(1), Ok("sinead".to_string()));
    assert_eq!(cur.rows_affected(), 0);
    assert_eq!(cur.last_insert_id(), None);
}

#[test]
fn statement_error_becomes_a_sql_error() {
    let body = br#"{"results":[{"error":"near \"x\": syntax error"}]}"#;
    let v = json_decode(body).unwrap();
    match Cursor::from_body(&v) {
        Err(RqliteError::SqlError(m)) => assert_eq!(m, "near \"x\": syntax error"),
        other => panic!("expected a SQL error, got {:?}", other),
    }
}

#[test]
fn malformed_response_shape_is_a_sql_error() {
    for body in [&b"17"[..], br#"{"results":{}}"#, br#"{"results":[]}"#, br#"{"other":1}"#] {
        let v = json_decode(body).unwrap();
        match Cursor::from_body(&v) {
            Err(RqliteError::SqlError(m)) => {
                assert_eq!(m, "error deserializing response body")
            },
            other => panic!("expected a SQL error, got {:?}", other),
        }
    }
}

#[test]
fn unknown_declared_type_fails_decoding() {
    let body = br#"{"results":[{"columns":["a"],"types":["varchar"],"values":[["x"]]}]}"#;
    let v = json_decode(body).unwrap();
    match Cursor::from_body(&v) {
        Err(RqliteError::DataSer(m)) => assert_eq!(m, "unknown sqlite type varchar"),
        other => panic!("expected a DataSer error, got {:?}", other),
    }
}

#[test]
fn invalid_json_is_a_data_ser_error() {
    match json_decode(b"{not json") {
        Err(RqliteError::DataSer(_)) => {},
        other => panic!("expected a DataSer error, got {:?}", other),
    }
}

#[test]
fn invalid_number_literal_fails_serialization() {
    let v = JsonValue::Number("not-a-number".into());
    match json_encode(&v) {
        Err(RqliteError::DataSer(_)) => {},
        other => panic!("expected a DataSer error, got {:?}", other),
    }
}

#[test]
fn nodes_request_varies_on_the_nonvoters_flag() {
    let p = nodes_request(&opts(), false);
    assert_eq!(p.method, "GET");
    assert_eq!(p.path, "/nodes");
    assert!(p.body.is_none());
    let q = nodes_request(&opts(), true);
    assert_eq!(q.path, "/nodes?nonvoters");
}

#[test]
fn one_node_listing_decodes_to_one_node() {
    let body = br#"{"1":{"api_addr":"http://127.0.0.1:4001","addr":"127.0.0.1:4002","reachable":true,"leader":true,"time":0.000037}}"#;
    let v = json_decode(body).unwrap();
    let nodes = nodes_from_body(&v).unwrap();
    assert_eq!(nodes.len(), 1);
    assert_eq!(nodes[0].id, "1");
    assert_eq!(nodes[0].api_addr, "http://127.0.0.1:4001");
    assert_eq!(nodes[0].addr, "127.0.0.1:4002");
    assert!(nodes[0].reachable);
    assert!(nodes[0].leader);
    assert_eq!(nodes[0].time.parse::<f64>().unwrap(), 0.000037);
}

#[test]
fn non_object_node_listing_is_a_sql_error() {
    let v = json_decode(b"[1,2]").unwrap();
    match nodes_from_body(&v) {
        Err(RqliteError::SqlError(m)) => assert_eq!(m, "error deserializing response body"),
        other => panic!("expected a SQL error, got {:?}", other),
    }
}

#[test]
fn bad_node_record_is_a_data_ser_error() {
    let body = br#"{"1":{"api_addr":"http://127.0.0.1:4001"}}"#;
    let v = json_decode(body).unwrap();
    match nodes_from_body(&v) {
        Err(RqliteError::DataSer(m)) => assert_eq!(m, "error deserializing node record"),
        other => panic!("expected a DataSer error, got {:?}", other),
    }
}

#[test]
fn ready_request_gets_the_readiness_endpoint() {
    let p = ready_request(&opts());
    assert_eq!(p.method, "GET");
    assert_eq!(p.path, "/readyz");
    assert!(p.body.is_none());
}

#[test]
fn ready_is_true_only_on_status_200() {
    assert_eq!(status_success(200), Ok(true));
    assert_eq!(status_success(503), Ok(false));
    assert_eq!(status_success(404), Ok(false));
}

#[test]
fn remove_issues_a_delete_naming_the_node() {
    let p = remove_request(&opts(), "num5");
    assert_eq!(p.method, "DELETE");
    assert_eq!(p.path, "/remove");
    assert_eq!(p.body.as_deref(), Some("{\"id\":\"num5\"}"));
    assert_eq!(status_success(200), Ok(true));
    assert_eq!(status_success(500), Ok(false));
}
