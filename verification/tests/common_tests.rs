use llm_wrapper::common::{normalize_genai_endpoint_url, normalized_endpoint_path};

#[test]
fn test_normalize_defaults_root_to_v1() {
    assert_eq!(
        normalize_genai_endpoint_url("http://host:8080").unwrap(),
        "http://host:8080/v1/"
    );
    assert_eq!(
        normalize_genai_endpoint_url("http://host:8080/").unwrap(),
        "http://host:8080/v1/"
    );
}

#[test]
fn test_normalize_appends_trailing_slash() {
    assert_eq!(
        normalize_genai_endpoint_url("http://host/custom/path").unwrap(),
        "http://host/custom/path/"
    );
    assert_eq!(
        normalize_genai_endpoint_url("http://host/custom/path/").unwrap(),
        "http://host/custom/path/"
    );
}

#[test]
fn test_normalize_rejects_invalid() {
    assert!(normalize_genai_endpoint_url("not a url").is_err());
}

#[test]
fn normalized_endpoint_path_cases() {
    assert_eq!(normalized_endpoint_path(""), Some("/v1/".to_string()));
    assert_eq!(normalized_endpoint_path("/"), Some("/v1/".to_string()));
    assert_eq!(normalized_endpoint_path("/a"), Some("/a/".to_string()));
    assert_eq!(normalized_endpoint_path("/a/"), None);
}

#[test]
fn resolve_endpoint_cases() {
    use_resolve_endpoint();
}

fn use_resolve_endpoint() {
    assert_eq!(llm_wrapper::common::resolve_endpoint(None).unwrap(), None);
    assert_eq!(llm_wrapper::common::resolve_endpoint(Some("")).unwrap(), None);
    assert_eq!(
        llm_wrapper::common::resolve_endpoint(Some("http://h:1")).unwrap(),
        Some("http://h:1/v1/".to_string())
    );
    assert!(llm_wrapper::common::resolve_endpoint(Some("::nope")).is_err());
}

#[test]
fn an_unparseable_endpoint_reports_the_parse_error() {
    let e = normalize_genai_endpoint_url("not a url").unwrap_err();
    assert_eq!(e.message, "relative URL without a base");
    let e = llm_wrapper::common::resolve_endpoint(Some("not a url")).unwrap_err();
    assert_eq!(e.message, "relative URL without a base");
}
