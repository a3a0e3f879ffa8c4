use std::time::Duration;
use typesense::ClientBuilder;

#[test]
fn builder_defaults() {
    let b = ClientBuilder::default();
    assert_eq!(b.api_key, "");
    assert_eq!(b.connection_timeout, Duration::from_secs(3));
    assert_eq!(b.healthcheck_interval, Duration::from_secs(60));
    assert!(b.nodes.is_empty());
    assert_eq!(b.nearest_node, None);
    assert_eq!(b.num_retries, 3);
    assert_eq!(b.retry_interval, Duration::from_secs(3));
}

#[test]
fn builder_setters_and_build() {
    let client = ClientBuilder::default()
        .api_key("xyz")
        .connection_timeout(Duration::from_secs(5))
        .healthcheck_interval(Duration::from_secs(10))
        .retry_interval(Duration::from_millis(250))
        .num_retries(7)
        .node("http://a:8108")
        .node("http://b:8108")
        .nearest_node("http://c:8108")
        .build();
    assert_eq!(client.api_key, "xyz");
    assert_eq!(client.connection_timeout, Duration::from_secs(5));
    assert_eq!(client.healthcheck_interval, Duration::from_secs(10));
    assert_eq!(client.retry_interval, Duration::from_millis(250));
    assert_eq!(client.num_retries, 7);
    assert_eq!(client.nodes, vec!["http://a:8108", "http://b:8108"]);
}

#[test]
fn nearest_node_is_kept_by_other_setters() {
    let b = ClientBuilder::default().nearest_node("n").api_key("k").num_retries(0);
    assert_eq!(b.nearest_node, Some("n"));
    assert_eq!(b.api_key, "k");
    assert_eq!(b.num_retries, 0);
}
