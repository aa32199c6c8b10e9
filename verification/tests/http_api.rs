use interlink::http_api::{
    not_found, parse_request, parse_u128, parse_u64, parse_usize, prometheus, reason, route, QueryParams,
    Route,
};
use interlink::metrics::Metrics;

#[test]
fn test_metrics_prometheus_format() {
    let mut m = Metrics::new();
    m.record_proof_start();
    m.record_proof_success(80);
    let (status, ct, body) = prometheus(&m);
    assert_eq!(status, 200);
    assert!(ct.contains("text/plain"));
    assert!(body.contains("interlink_proof_gen_total 1"));
}

#[test]
fn test_not_found_route() {
    let q = QueryParams::new();
    assert!(q.is_empty());
    let r = route("GET", "/nonexistent");
    assert_eq!(r, Route::NotFound);
    let (status, _, body) = not_found();
    assert_eq!(status, 404);
    assert!(body.contains("routes"));
}

#[test]
fn test_parse_request_no_query() {
    let (method, path, query, body) = parse_request("GET /health HTTP/1.1\r\nHost: localhost\r\n\r\n");
    assert_eq!(method, "GET");
    assert_eq!(path, "/health");
    assert!(query.is_empty());
    assert!(body.is_empty());
}

#[test]
fn test_parse_request_with_query() {
    let (method, path, query, _) = parse_request("GET /quote?usd_cents=100000&gas_gwei=30 HTTP/1.1\r\n");
    assert_eq!(method, "GET");
    assert_eq!(path, "/quote");
    assert_eq!(query.get("usd_cents"), Some(&"100000".to_string()));
    assert_eq!(query.get("gas_gwei"), Some(&"30".to_string()));
}

#[test]
fn test_parse_request_with_body() {
    let raw = "POST /webhooks/register HTTP/1.1\r\nContent-Type: application/json\r\n\r\n{\"url\":\"https://example.com\"}";
    let (method, path, _, body) = parse_request(raw);
    assert_eq!(method, "POST");
    assert_eq!(path, "/webhooks/register");
    assert!(body.contains("https://example.com"));
}

#[test]
fn http_parse_edge_cases() {
    let (m, p, q, b) = parse_request("garbage");
    assert_eq!((m, p), ("", "/"));
    assert!(q.is_empty() && b.is_empty());
    let (_, p, q, b) = parse_request("GET /a?x=1&&y&x=2 HTTP/1.1\r\n\r\nbody\0\0");
    assert_eq!(p, "/a");
    assert_eq!(q.get("x"), Some(&"2".to_string()));
    assert_eq!(q.get("y"), Some(&String::new()));
    assert_eq!(q.get("z"), None);
    assert_eq!(b, "body");
    let (m, p, _, _) = parse_request("DELETE /webhooks/abc");
    assert_eq!((m, p), ("DELETE", "/webhooks/abc"));
}

#[test]
fn http_routes() {
    assert_eq!(route("GET", "/health"), Route::Health);
    assert_eq!(route("GET", "/quote"), Route::Quote);
    assert_eq!(route("GET", "/metrics/json"), Route::MetricsJson);
    assert_eq!(route("POST", "/webhooks/register"), Route::WebhooksRegister);
    assert_eq!(route("DELETE", "/webhooks/wh_1"), Route::WebhooksDeregister("wh_1".to_string()));
    assert_eq!(route("GET", "/webhooks/wh_2"), Route::WebhooksGet("wh_2".to_string()));
    assert_eq!(route("POST", "/health"), Route::NotFound);
    assert_eq!(reason(404), "Not Found");
    assert_eq!(reason(302), "Unknown");
}

#[test]
fn http_query_numbers_with_defaults() {
    let (_, _, q, _) = parse_request("GET /quote?usd_cents=+42&gas_gwei=abc&amount=340282366920938463463374607431768211455 HTTP/1.1");
    assert_eq!(parse_u64(&q, "usd_cents", 7), 42);
    assert_eq!(parse_u64(&q, "gas_gwei", 30), 30);
    assert_eq!(parse_u64(&q, "missing", 5), 5);
    assert_eq!(parse_u128(&q, "amount", 1), u128::MAX);
    assert_eq!(parse_u64(&q, "amount", 9), 9);
    assert_eq!(parse_usize(&q, "usd_cents", 100), 42);
}

#[test]
fn test_compare_returns_all_competitors() {
    // The /compare answer carries the comparison table and the comparison
    // data for the transfer value.
    let table = interlink::gas::format_comparison_table(500_000);
    let cmp = interlink::gas::compare(500_000);
    let names: Vec<&str> = cmp.competitors.iter().map(|c| c.name).collect();
    let body = format!("{table}{names:?}");
    assert!(body.contains("Wormhole"));
    assert!(body.contains("Stargate v2"));
    assert!(body.contains("Across"));
}
