use authengine::headers::{
    build_protobuf_headers_map, is_allowed_header, rename_pseudo_header, str_eq, HeaderMapping,
};

fn pairs(v: &[(&str, &str)]) -> Vec<(String, String)> {
    v.iter().map(|(k, x)| (k.to_string(), x.to_string())).collect()
}

#[test]
fn rename_table_known_pseudo_headers() {
    assert_eq!(rename_pseudo_header("method"), "x-original-req-method");
    assert_eq!(rename_pseudo_header("scheme"), "x-original-req-scheme");
    assert_eq!(rename_pseudo_header("authority"), "x-original-req-authority");
    assert_eq!(rename_pseudo_header("path"), "x-original-req-path");
}

#[test]
fn rename_unlisted_pseudo_header() {
    assert_eq!(rename_pseudo_header("foo"), "x-original-req-foo");
    assert_eq!(rename_pseudo_header(""), "x-original-req-");
}

#[test]
fn allow_list_membership() {
    for name in [
        "x-forwarded-client-cert",
        "x-request-id",
        "x-correlation-id",
        "authorization",
        "x-uip-wasm-impersonated-user",
        "x-event-service-user",
        "x-trino-user",
    ] {
        assert!(is_allowed_header(name), "{}", name);
    }
    assert!(!is_allowed_header("cookie"));
    assert!(!is_allowed_header("Authorization"));
    assert!(!is_allowed_header("x-request-i"));
}

#[test]
fn pseudo_subset_only_present_keys() {
    let m = build_protobuf_headers_map(&pairs(&[(":method", "GET"), (":path", "/a")]));
    assert_eq!(m.len(), 2);
    assert_eq!(m.get("x-original-req-method").map(|s| s.as_str()), Some("GET"));
    assert_eq!(m.get("x-original-req-path").map(|s| s.as_str()), Some("/a"));
    assert!(m.get("x-original-req-scheme").is_none());
    assert!(m.get("x-original-req-authority").is_none());
}

#[test]
fn all_four_pseudo_headers() {
    let m = build_protobuf_headers_map(&pairs(&[
        (":method", "POST"),
        (":scheme", "https"),
        (":authority", "example.com"),
        (":path", "/x"),
    ]));
    assert_eq!(m.len(), 4);
    assert_eq!(m.get("x-original-req-authority").map(|s| s.as_str()), Some("example.com"));
    assert_eq!(m.get("x-original-req-scheme").map(|s| s.as_str()), Some("https"));
}

#[test]
fn headers_outside_allow_list_are_dropped() {
    let m = build_protobuf_headers_map(&pairs(&[
        ("cookie", "secret"),
        ("authorization", "Bearer t"),
        ("x-evil", "1"),
        ("x-request-id", "r1"),
        (":foo", "bar"),
    ]));
    assert_eq!(m.len(), 3);
    assert!(m.get("cookie").is_none());
    assert!(m.get("x-evil").is_none());
    assert_eq!(m.get("authorization").map(|s| s.as_str()), Some("Bearer t"));
    assert_eq!(m.get("x-original-req-foo").map(|s| s.as_str()), Some("bar"));
    for (k, _) in m.entries() {
        assert!(k.starts_with("x-original-req-") || is_allowed_header(k));
    }
}

#[test]
fn empty_request_gives_empty_mapping() {
    let m = build_protobuf_headers_map(&Vec::new());
    assert_eq!(m.len(), 0);
    assert!(m.entries().is_empty());
}

#[test]
fn later_duplicate_replaces_earlier() {
    let m = build_protobuf_headers_map(&pairs(&[
        ("x-request-id", "one"),
        (":method", "GET"),
        ("x-request-id", "two"),
    ]));
    assert_eq!(m.len(), 2);
    assert_eq!(m.get("x-request-id").map(|s| s.as_str()), Some("two"));
    assert_eq!(m.entries()[0].0, "x-request-id");
}

#[test]
fn mapping_insert_and_get() {
    let mut m = HeaderMapping::new();
    m.insert("a".to_string(), "1".to_string());
    m.insert("b".to_string(), "2".to_string());
    m.insert("a".to_string(), "3".to_string());
    assert_eq!(m.len(), 2);
    assert_eq!(m.get("a").map(|s| s.as_str()), Some("3"));
    assert_eq!(m.get("b").map(|s| s.as_str()), Some("2"));
    assert!(m.get("c").is_none());
}

#[test]
fn string_equality() {
    assert!(str_eq("abc", "abc"));
    assert!(!str_eq("abc", "abd"));
    assert!(!str_eq("abc", "ab"));
    assert!(str_eq("", ""));
    assert!(str_eq("héllo", "héllo"));
}
