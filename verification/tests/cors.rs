use bitsink::cors::CorsPolicy;
use bitsink::project::Project;

fn project() -> Project {
    Project::create([7; 16], "n".to_string(), "d".to_string(), 0).unwrap()
}

fn texts(items: &[&str]) -> Vec<String> {
    items.iter().map(|s| s.to_string()).collect()
}

#[test]
fn empty_lists_accept_any_origin_get_post_and_any_header() {
    let policy = project().cors();
    for origin in ["http://a.com", "http://b.com", "https://anything.example:8443", ""] {
        assert!(policy.allows_origin(origin));
        for method in ["GET", "POST"] {
            assert!(policy.allows_preflight(origin, method, &texts(&[])));
            assert!(policy.allows_preflight(origin, method, &texts(&["x-any", "authorization"])));
        }
    }
    assert!(policy.allows_method("GET"));
    assert!(policy.allows_method("POST"));
    assert!(!policy.allows_method("PUT"));
    assert!(!policy.allows_method("DELETE"));
    assert!(!policy.allows_method("get"));
    assert!(policy.allows_header("x-whatever"));
    assert!(!policy.allows_preflight("http://a.com", "DELETE", &texts(&[])));
}

#[test]
fn listed_origin_rejects_the_others() {
    let mut p = project();
    p.allow_origin("http://a.com");
    let policy = p.cors();
    assert!(policy.allows_origin("http://a.com"));
    assert!(!policy.allows_origin("http://b.com"));
    assert!(!policy.allows_origin("http://a.com/"));
    assert!(!policy.allows_origin("HTTP://A.COM"));
    assert!(policy.allows_preflight("http://a.com", "GET", &texts(&["x-any"])));
    assert!(!policy.allows_preflight("http://b.com", "GET", &texts(&[])));
    assert!(!policy.allows_preflight("http://b.com", "POST", &texts(&["x-any"])));
}

#[test]
fn listed_methods_replace_the_defaults() {
    let mut p = project();
    p.allow_method("PUT");
    p.allow_method("DELETE");
    let policy = p.cors();
    assert!(policy.allows_method("PUT"));
    assert!(policy.allows_method("DELETE"));
    assert!(!policy.allows_method("GET"));
    assert!(!policy.allows_method("POST"));
    assert!(policy.allows_preflight("http://x", "PUT", &texts(&[])));
    assert!(!policy.allows_preflight("http://x", "GET", &texts(&[])));
}

#[test]
fn listed_headers_replace_the_wildcard() {
    let mut p = project();
    p.allow_header("authorization");
    p.allow_header("content-type");
    let policy = p.cors();
    assert!(policy.allows_header("authorization"));
    assert!(policy.allows_header("content-type"));
    assert!(!policy.allows_header("x-other"));
    assert!(policy.allows_preflight("http://x", "GET", &texts(&["content-type"])));
    assert!(policy.allows_preflight("http://x", "GET", &texts(&["content-type", "authorization"])));
    assert!(!policy.allows_preflight("http://x", "GET", &texts(&["content-type", "x-other"])));
    p.allow_all_headers();
    assert!(p.cors().allows_header("x-other"));
    assert!(p.cors().allows_preflight("http://x", "GET", &texts(&["content-type", "x-other"])));
}

#[test]
fn policy_built_by_hand_decides_the_same_way() {
    let policy = CorsPolicy {
        origins: Some(texts(&["http://a.com", "http://c.com"])),
        methods: texts(&["GET"]),
        headers: texts(&["x-one", "*"]),
    };
    assert!(policy.allows_origin("http://c.com"));
    assert!(!policy.allows_origin("http://b.com"));
    assert!(policy.allows_header("anything"));
    assert!(policy.allows_preflight("http://c.com", "GET", &texts(&["a", "b"])));
    assert!(!policy.allows_preflight("http://c.com", "POST", &texts(&["a", "b"])));
    let closed = CorsPolicy { origins: Some(texts(&[])), methods: texts(&[]), headers: texts(&[]) };
    assert!(!closed.allows_origin("http://a.com"));
    assert!(!closed.allows_method("GET"));
    assert!(!closed.allows_header("x"));
    assert!(!closed.allows_preflight("http://a.com", "GET", &texts(&[])));
}
