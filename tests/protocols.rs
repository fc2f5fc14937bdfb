use kv_router::protocols::Endpoint;
use kv_router::protocols::DEFAULT_COMPONENT;
use kv_router::protocols::DEFAULT_ENDPOINT;
use kv_router::protocols::DEFAULT_NAMESPACE;
use std::str::FromStr;

#[test]
fn test_valid_endpoint_from() {
    let input = "namespace1/component1/endpoint1";
    let endpoint = Endpoint::from(input);

    assert_eq!(endpoint.namespace, "namespace1");
    assert_eq!(endpoint.component, "component1");
    assert_eq!(endpoint.name, "endpoint1");
}

#[test]
fn test_valid_endpoint_from_str() {
    let input = "namespace2/component2/endpoint2";
    let endpoint = Endpoint::from_str(input).unwrap();

    assert_eq!(endpoint.namespace, "namespace2");
    assert_eq!(endpoint.component, "component2");
    assert_eq!(endpoint.name, "endpoint2");
}

#[test]
fn test_valid_endpoint_parse() {
    let input = "namespace3/component3/endpoint3";
    let endpoint: Endpoint = input.parse().unwrap();

    assert_eq!(endpoint.namespace, "namespace3");
    assert_eq!(endpoint.component, "component3");
    assert_eq!(endpoint.name, "endpoint3");
}

#[test]
fn test_endpoint_from() {
    let result = Endpoint::from("component");
    assert_eq!(
        result,
        vec![DEFAULT_NAMESPACE, "component", DEFAULT_ENDPOINT]
    );
}

#[test]
fn test_namespace_component_endpoint() {
    let result = Endpoint::from("namespace.component.endpoint");
    assert_eq!(result, vec!["namespace", "component", "endpoint"]);
}

#[test]
fn test_forward_slash_separator() {
    let result = Endpoint::from("namespace/component");
    assert_eq!(result, vec!["namespace", "component", DEFAULT_ENDPOINT]);
}

#[test]
fn test_multiple_parts() {
    let result = Endpoint::from("namespace.component.endpoint.other.parts");
    assert_eq!(
        result,
        vec!["namespace", "component", "endpoint_other_parts"]
    );
}

#[test]
fn test_mixed_separators() {
    let result: Endpoint = "namespace/component.endpoint".into();
    assert_eq!(result, vec!["namespace", "component", "endpoint"]);
}

#[test]
fn test_empty_string() {
    let result = Endpoint::from("");
    assert_eq!(
        result,
        vec![DEFAULT_NAMESPACE, DEFAULT_COMPONENT, DEFAULT_ENDPOINT]
    );

    // White space is equivalent to an empty string
    let result = Endpoint::from("   ");
    assert_eq!(
        result,
        vec![DEFAULT_NAMESPACE, DEFAULT_COMPONENT, DEFAULT_ENDPOINT]
    );
}

#[test]
fn endpoint_trims_ends_and_skips_empty_parts() {
    let result = Endpoint::from(" /ns//comp..ep/ ");
    assert_eq!(result, vec!["ns", "comp", "ep"]);
    let result = Endpoint::from("ns. b c");
    assert_eq!(result, vec!["ns", " b c", DEFAULT_ENDPOINT]);
}

#[test]
fn endpoint_parse_strips_scheme() {
    let result = Endpoint::parse("dyn://dynamo.internal.worker");
    assert_eq!(result, vec!["dynamo", "internal", "worker"]);
    let result = Endpoint::parse("dyn:/x");
    assert_eq!(result, vec!["dyn:", "x", DEFAULT_ENDPOINT]);
}

#[test]
fn endpoint_as_url() {
    let e = Endpoint::from("a/b/c");
    assert_eq!(e.as_url(), "dyn://a.b.c");
    let d = Endpoint::default();
    assert_eq!(d.as_url(), "dyn://NS.C.E");
}

#[test]
fn endpoint_not_equal_to_other_lengths() {
    let e = Endpoint::from("a/b/c");
    assert!(e != vec!["a", "b"]);
    assert!(e != vec!["a", "b", "d"]);
}

#[test]
fn list_equals_endpoint() {
    let e = Endpoint::from("a.b.c");
    assert!(vec!["a", "b", "c"] == e);
    assert!(vec!["a", "b"] != e);
}
