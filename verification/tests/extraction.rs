use extractor::body::{extract_create_user_form, extract_create_user_json};
use extractor::dispatch::{extract, Extracted, TargetShape};
use extractor::failure::FailureReason;
use extractor::header::{extract_header_map, extract_user_agent};
use extractor::path::{extract_path_i32, extract_path_pair, extract_repo_info};
use extractor::query::{
    extract_query_map, extract_subject_args, extract_subject_args_opt,
    extract_subject_args_optional,
};
use extractor::request::{Body, BodyEncoding, HeaderLine, PathVar, Request};
use extractor::shapes::subject_defaults;

fn empty_request() -> Request {
    Request {
        method: b"GET".to_vec(),
        path_vars: Vec::new(),
        query: None,
        headers: Vec::new(),
        body: None,
    }
}

fn req_query(q: &str) -> Request {
    let mut r = empty_request();
    r.query = Some(q.as_bytes().to_vec());
    r
}

fn req_path(vars: &[(&str, &str)]) -> Request {
    let mut r = empty_request();
    r.path_vars = vars
        .iter()
        .map(|(n, v)| PathVar { name: n.as_bytes().to_vec(), value: v.as_bytes().to_vec() })
        .collect();
    r
}

fn req_body(encoding: BodyEncoding, bytes: &[u8]) -> Request {
    let mut r = empty_request();
    r.method = b"POST".to_vec();
    r.body = Some(Body { encoding, bytes: bytes.to_vec() });
    r
}

fn req_headers(headers: &[(&str, &str)]) -> Request {
    let mut r = empty_request();
    r.headers = headers
        .iter()
        .map(|(n, v)| HeaderLine { name: n.as_bytes().to_vec(), value: v.as_bytes().to_vec() })
        .collect();
    r
}

// Single-scalar path mode.

#[test]
fn path_scalar_coerces_integer() {
    let r = req_path(&[("id", "42")]);
    assert_eq!(extract_path_i32(&r).unwrap(), 42);
}

#[test]
fn path_scalar_negative_and_bounds() {
    assert_eq!(extract_path_i32(&req_path(&[("id", "-7")])).unwrap(), -7);
    assert_eq!(
        extract_path_i32(&req_path(&[("id", "2147483647")])).unwrap(),
        2147483647
    );
    assert_eq!(
        extract_path_i32(&req_path(&[("id", "-2147483648")])).unwrap(),
        -2147483648
    );
    let e = extract_path_i32(&req_path(&[("id", "2147483648")])).unwrap_err();
    assert_eq!(e.reason, FailureReason::TypeMismatch);
}

#[test]
fn path_scalar_type_mismatch_names_field() {
    let e = extract_path_i32(&req_path(&[("id", "abc")])).unwrap_err();
    assert_eq!(e.reason, FailureReason::TypeMismatch);
    assert_eq!(e.field, Some(b"id".to_vec()));
    assert_eq!(e.observed, Some(b"abc".to_vec()));
}

#[test]
fn path_scalar_missing_variable() {
    let e = extract_path_i32(&empty_request()).unwrap_err();
    assert_eq!(e.reason, FailureReason::MissingRequiredField);
    assert_eq!(e.observed, None);
}

// Tuple and record path modes.

#[test]
fn path_tuple_order_preserved() {
    // Template /repo/:user/:repo bound positionally into (user_name, repo_name).
    let r = req_path(&[("user", "alice"), ("repo", "widgets")]);
    let (user_name, repo_name) = extract_path_pair(&r).unwrap();
    assert_eq!(user_name, "alice");
    assert_eq!(repo_name, "widgets");
}

#[test]
fn path_tuple_missing_second_variable() {
    let e = extract_path_pair(&req_path(&[("user", "alice")])).unwrap_err();
    assert_eq!(e.reason, FailureReason::MissingRequiredField);
}

#[test]
fn path_record_looks_up_by_name() {
    // Record mode finds fields by name, whatever the declaration order.
    let r = req_path(&[("repo_name", "widgets"), ("user_name", "alice")]);
    let info = extract_repo_info(&r).unwrap();
    assert_eq!(info.user_name, "alice");
    assert_eq!(info.repo_name, "widgets");
}

#[test]
fn path_record_name_mismatch_is_missing_field() {
    // A shape name absent from the route template is a registration
    // mistake, surfaced as MissingRequiredField.
    let r = req_path(&[("user", "alice"), ("repo", "widgets")]);
    let e = extract_repo_info(&r).unwrap_err();
    assert_eq!(e.reason, FailureReason::MissingRequiredField);
    assert_eq!(e.field, Some(b"user_name".to_vec()));
}

// Required-shape query mode.

#[test]
fn query_required_shape_populates() {
    let args = extract_subject_args(&req_query("page=2&keyword=rust")).unwrap();
    assert_eq!(args.page, 2);
    assert_eq!(args.keyword, "rust");
}

#[test]
fn query_required_shape_failure() {
    // ?page=abc&keyword=x against {page: int, keyword: string} fails with
    // TypeMismatch on the field page.
    let e = extract_subject_args(&req_query("page=abc&keyword=x")).unwrap_err();
    assert_eq!(e.reason, FailureReason::TypeMismatch);
    assert_eq!(e.field, Some(b"page".to_vec()));
    assert_eq!(e.observed, Some(b"abc".to_vec()));
}

#[test]
fn query_required_shape_missing_field() {
    let e = extract_subject_args(&req_query("page=2")).unwrap_err();
    assert_eq!(e.reason, FailureReason::MissingRequiredField);
    assert_eq!(e.field, Some(b"keyword".to_vec()));
    let e = extract_subject_args(&empty_request()).unwrap_err();
    assert_eq!(e.reason, FailureReason::MissingRequiredField);
    assert_eq!(e.field, Some(b"page".to_vec()));
}

#[test]
fn query_duplicate_key_last_value_wins() {
    let args = extract_subject_args(&req_query("page=1&keyword=a&page=9")).unwrap();
    assert_eq!(args.page, 9);
}

#[test]
fn query_percent_and_plus_decoding() {
    let args = extract_subject_args(&req_query("page=3&keyword=a+b%2Bc")).unwrap();
    assert_eq!(args.keyword, "a b+c");
}

#[test]
fn query_utf8_value_decodes() {
    let args = extract_subject_args(&req_query("page=1&keyword=caf%C3%A9")).unwrap();
    assert_eq!(args.keyword, "caf\u{e9}");
}

#[test]
fn query_invalid_utf8_value_is_type_mismatch() {
    let e = extract_subject_args(&req_query("page=1&keyword=%FF")).unwrap_err();
    assert_eq!(e.reason, FailureReason::TypeMismatch);
    assert_eq!(e.field, Some(b"keyword".to_vec()));
    assert_eq!(e.observed, Some(vec![0xffu8]));
}

// Optional-wrapper query mode.

#[test]
fn query_optional_wrapper_present() {
    let got = extract_subject_args_optional(&req_query("page=4&keyword=k")).unwrap();
    assert_eq!(got.page, 4);
    assert_eq!(got.keyword, "k");
}

#[test]
fn query_optional_wrapper_absent_shape_is_none() {
    assert!(extract_subject_args_optional(&empty_request()).is_none());
    assert!(extract_subject_args_optional(&req_query("page=abc&keyword=x")).is_none());
}

// Per-field-optional query mode.

#[test]
fn query_optional_per_field_defaulting() {
    // Query string absent entirely: both fields in the absent state; the
    // handler-level defaults are a separate concern, tested on top.
    let args = extract_subject_args_opt(&empty_request()).unwrap();
    assert_eq!(args.page, None);
    assert_eq!(args.keyword, None);
    let defaulted = subject_defaults(args);
    assert_eq!(defaulted.page, 0);
    assert_eq!(defaulted.keyword, "");
}

#[test]
fn query_optional_per_field_partial() {
    let args = extract_subject_args_opt(&req_query("page=5")).unwrap();
    assert_eq!(args.page, Some(5));
    assert_eq!(args.keyword, None);
}

#[test]
fn query_optional_per_field_present_mismatch_fails() {
    let e = extract_subject_args_opt(&req_query("page=abc")).unwrap_err();
    assert_eq!(e.reason, FailureReason::TypeMismatch);
    assert_eq!(e.field, Some(b"page".to_vec()));
}

// Passthrough query mode.

#[test]
fn passthrough_copies_all_pairs() {
    let m = extract_query_map(&req_query("a=1&b=2&c"));
    assert_eq!(
        m,
        vec![
            (b"a".to_vec(), b"1".to_vec()),
            (b"b".to_vec(), b"2".to_vec()),
            (b"c".to_vec(), b"".to_vec()),
        ]
    );
}

#[test]
fn passthrough_duplicate_keys_last_value_wins() {
    let m = extract_query_map(&req_query("a=1&b=2&a=3"));
    assert_eq!(m, vec![(b"a".to_vec(), b"3".to_vec()), (b"b".to_vec(), b"2".to_vec())]);
}

#[test]
fn passthrough_applies_no_coercion() {
    let m = extract_query_map(&req_query("n=007&k+e%79=v%41"));
    assert_eq!(
        m,
        vec![(b"n".to_vec(), b"007".to_vec()), (b"k ey".to_vec(), b"vA".to_vec())]
    );
}

#[test]
fn passthrough_empty_and_absent_query() {
    assert_eq!(extract_query_map(&empty_request()), Vec::new());
    assert_eq!(extract_query_map(&req_query("")), Vec::new());
}

// Form-encoded body mode.

#[test]
fn form_body_populates_record() {
    let r = req_body(BodyEncoding::FormUrlEncoded, b"username=bob&email=b%40x.com&level=3");
    let u = extract_create_user_form(&r).unwrap();
    assert_eq!(u.username, "bob");
    assert_eq!(u.email, "b@x.com");
    assert_eq!(u.level, 3);
}

#[test]
fn form_body_level_bounds() {
    let r = req_body(BodyEncoding::FormUrlEncoded, b"username=a&email=e&level=255");
    assert_eq!(extract_create_user_form(&r).unwrap().level, 255);
    let r = req_body(BodyEncoding::FormUrlEncoded, b"username=a&email=e&level=256");
    let e = extract_create_user_form(&r).unwrap_err();
    assert_eq!(e.reason, FailureReason::TypeMismatch);
    assert_eq!(e.field, Some(b"level".to_vec()));
}

#[test]
fn form_body_missing_field() {
    let r = req_body(BodyEncoding::FormUrlEncoded, b"username=a&level=3");
    let e = extract_create_user_form(&r).unwrap_err();
    assert_eq!(e.reason, FailureReason::MissingRequiredField);
    assert_eq!(e.field, Some(b"email".to_vec()));
}

#[test]
fn form_body_absent() {
    let e = extract_create_user_form(&empty_request()).unwrap_err();
    assert_eq!(e.reason, FailureReason::MissingRequiredField);
}

#[test]
fn form_body_wrong_content_type() {
    let r = req_body(BodyEncoding::Json, b"username=a&email=e&level=3");
    let e = extract_create_user_form(&r).unwrap_err();
    assert_eq!(e.reason, FailureReason::UnsupportedContentType);
    assert_eq!(e.reason.http_status(), 415);
}

// JSON body mode.

#[test]
fn json_body_populates_record() {
    let r = req_body(
        BodyEncoding::Json,
        br#"{"username":"bob","email":"b@x.com","level":3}"#,
    );
    let u = extract_create_user_json(&r).unwrap();
    assert_eq!(u.username, "bob");
    assert_eq!(u.email, "b@x.com");
    assert_eq!(u.level, 3);
}

#[test]
fn json_body_whitespace_and_escapes() {
    let r = req_body(
        BodyEncoding::Json,
        b" { \"username\" : \"b\\\"ob\\n\" , \"email\" : \"e\\\\\" , \"level\" : 0 } ",
    );
    let u = extract_create_user_json(&r).unwrap();
    assert_eq!(u.username, "b\"ob\n");
    assert_eq!(u.email, "e\\");
    assert_eq!(u.level, 0);
}

#[test]
fn json_body_malformed() {
    for bad in [
        &b"{"[..],
        b"",
        b"[1,2]",
        br#"{"username":"bob""#,
        br#"{"level":3.5,"username":"a","email":"e"}"#,
        br#"{"username":"bob","email":"e","level":01}"#,
        br#"{"username":"bob","email":"e","level":3} x"#,
    ] {
        let r = req_body(BodyEncoding::Json, bad);
        let e = extract_create_user_json(&r).unwrap_err();
        assert_eq!(e.reason, FailureReason::MalformedBody);
    }
}

#[test]
fn json_body_wrong_value_kind() {
    let r = req_body(BodyEncoding::Json, br#"{"username":"a","email":"e","level":"3"}"#);
    let e = extract_create_user_json(&r).unwrap_err();
    assert_eq!(e.reason, FailureReason::TypeMismatch);
    assert_eq!(e.field, Some(b"level".to_vec()));
    let r = req_body(BodyEncoding::Json, br#"{"username":7,"email":"e","level":3}"#);
    let e = extract_create_user_json(&r).unwrap_err();
    assert_eq!(e.reason, FailureReason::TypeMismatch);
    assert_eq!(e.field, Some(b"username".to_vec()));
}

#[test]
fn json_body_level_out_of_range() {
    let r = req_body(BodyEncoding::Json, br#"{"username":"a","email":"e","level":256}"#);
    let e = extract_create_user_json(&r).unwrap_err();
    assert_eq!(e.reason, FailureReason::TypeMismatch);
    let r = req_body(BodyEncoding::Json, br#"{"username":"a","email":"e","level":-1}"#);
    let e = extract_create_user_json(&r).unwrap_err();
    assert_eq!(e.reason, FailureReason::TypeMismatch);
}

#[test]
fn json_body_empty_object_misses_fields() {
    let r = req_body(BodyEncoding::Json, b"{}");
    let e = extract_create_user_json(&r).unwrap_err();
    assert_eq!(e.reason, FailureReason::MissingRequiredField);
    assert_eq!(e.field, Some(b"username".to_vec()));
}

#[test]
fn json_body_duplicate_key_last_value_wins() {
    let r = req_body(
        BodyEncoding::Json,
        br#"{"username":"a","username":"b","email":"e","level":1}"#,
    );
    assert_eq!(extract_create_user_json(&r).unwrap().username, "b");
}

#[test]
fn json_body_unknown_fields_ignored() {
    let r = req_body(
        BodyEncoding::Json,
        br#"{"extra":"x","username":"bob","email":"e","level":2,"more":9}"#,
    );
    let u = extract_create_user_json(&r).unwrap();
    assert_eq!(u.username, "bob");
    assert_eq!(u.level, 2);
}

// Form/JSON body equivalence on concrete, logically equivalent payloads.

#[test]
fn form_json_body_equivalence() {
    let f = req_body(BodyEncoding::FormUrlEncoded, b"username=bob&email=b%40x.com&level=3");
    let j = req_body(
        BodyEncoding::Json,
        br#"{"username":"bob","email":"b@x.com","level":3}"#,
    );
    let fu = extract_create_user_form(&f).unwrap();
    let ju = extract_create_user_json(&j).unwrap();
    assert_eq!(fu.username, ju.username);
    assert_eq!(fu.email, ju.email);
    assert_eq!(fu.level, ju.level);
}

// Header modes.

#[test]
fn header_typed_lookup() {
    let r = req_headers(&[("Accept", "*/*"), ("User-Agent", "test-agent/1.0")]);
    assert_eq!(extract_user_agent(&r).unwrap(), "test-agent/1.0");
    let e = extract_user_agent(&req_headers(&[("Accept", "*/*")])).unwrap_err();
    assert_eq!(e.reason, FailureReason::MissingRequiredField);
}

#[test]
fn header_name_comparison_is_case_insensitive() {
    let r = req_headers(&[("uSeR-aGeNt", "probe")]);
    assert_eq!(extract_user_agent(&r).unwrap(), "probe");
}

#[test]
fn header_value_outside_grammar_is_malformed() {
    let mut r = empty_request();
    r.headers.push(HeaderLine { name: b"User-Agent".to_vec(), value: vec![0x01u8] });
    let e = extract_user_agent(&r).unwrap_err();
    assert_eq!(e.reason, FailureReason::MalformedHeaderValue);
    assert_eq!(e.reason.http_status(), 400);
}

#[test]
fn header_raw_map_verbatim() {
    let r = req_headers(&[("B", "2"), ("a", "1"), ("B", "3")]);
    let m = extract_header_map(&r);
    assert_eq!(m.len(), 3);
    assert_eq!(m[0].name, b"B".to_vec());
    assert_eq!(m[0].value, b"2".to_vec());
    assert_eq!(m[2].value, b"3".to_vec());
}

// Dispatch and determinism.

#[test]
fn dispatch_routes_each_shape() {
    let r = req_path(&[("id", "7")]);
    match extract(&r, TargetShape::PathId).unwrap() {
        Extracted::PathId(v) => assert_eq!(v, 7),
        _ => panic!("wrong shape"),
    }
    let r = req_query("page=1&keyword=k");
    match extract(&r, TargetShape::QuerySubject).unwrap() {
        Extracted::QuerySubject(a) => assert_eq!(a.keyword, "k"),
        _ => panic!("wrong shape"),
    }
    let r = req_headers(&[("User-Agent", "ua")]);
    match extract(&r, TargetShape::HeaderUserAgent).unwrap() {
        Extracted::HeaderUserAgent(s) => assert_eq!(s, "ua"),
        _ => panic!("wrong shape"),
    }
}

#[test]
fn dispatch_failure_maps_to_status() {
    let r = req_body(BodyEncoding::Json, b"username=a");
    let e = extract(&r, TargetShape::FormCreateUser).unwrap_err();
    assert_eq!(e.reason.http_status(), 415);
    let e = extract(&empty_request(), TargetShape::QuerySubject).unwrap_err();
    assert_eq!(e.reason.http_status(), 400);
}

#[test]
fn extraction_is_deterministic() {
    // Extracting twice from the same request yields identical results.
    let r = req_query("page=1&keyword=a&page=9");
    let a = extract_subject_args(&r).unwrap();
    let b = extract_subject_args(&r).unwrap();
    assert_eq!(a.page, b.page);
    assert_eq!(a.keyword, b.keyword);
    let bad = req_query("page=x&keyword=a");
    let e1 = extract_subject_args(&bad).unwrap_err();
    let e2 = extract_subject_args(&bad).unwrap_err();
    assert_eq!(e1.reason, e2.reason);
    assert_eq!(e1.field, e2.field);
    assert_eq!(e1.observed, e2.observed);
}

#[test]
fn query_malformed_escape_passes_through() {
    // An invalid percent escape stands for itself.
    let args = extract_subject_args(&req_query("page=1&keyword=%G1%2")).unwrap();
    assert_eq!(args.keyword, "%G1%2");
}

#[test]
fn path_scalar_leading_zeros() {
    assert_eq!(extract_path_i32(&req_path(&[("id", "007")])).unwrap(), 7);
}

#[test]
fn json_large_integer_out_of_grammar() {
    let r = req_body(
        BodyEncoding::Json,
        br#"{"username":"a","email":"e","level":99999999999999999999}"#,
    );
    let e = extract_create_user_json(&r).unwrap_err();
    assert_eq!(e.reason, FailureReason::MalformedBody);
}
