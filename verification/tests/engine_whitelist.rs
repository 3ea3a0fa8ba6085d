use dotlottie::state_machine_engine::actions::whitelist::{parse_url, Whitelist};

#[test]
fn whitelist_test_custom_url_parsing() {
    assert_eq!(
        parse_url("example.com").unwrap(),
        ("example.com".to_string(), "".to_string())
    );
    assert_eq!(
        parse_url("example.com/path").unwrap(),
        ("example.com".to_string(), "/path".to_string())
    );

    assert_eq!(
        parse_url("https://example.com").unwrap(),
        ("example.com".to_string(), "".to_string())
    );
    assert_eq!(
        parse_url("http://example.com/path").unwrap(),
        ("example.com".to_string(), "/path".to_string())
    );
    assert_eq!(
        parse_url("https://example.com/path/to/resource").unwrap(),
        ("example.com".to_string(), "/path/to/resource".to_string())
    );

    assert!(parse_url("").is_err());
    assert!(parse_url("https://").is_err());
    assert!(parse_url("http://").is_err());

    assert_eq!(
        parse_url("  example.com  ").unwrap(),
        ("example.com".to_string(), "".to_string())
    );
}

#[test]
fn whitelist_test_whitelist() {
    let mut whitelist = Whitelist::new();

    // Add some patterns
    whitelist.add("example.com/*").unwrap();
    whitelist.add("https://test.com/specific/path").unwrap();
    whitelist.add("api.domain.com/v1/*").unwrap();

    // Test exact matches
    assert!(whitelist
        .is_allowed("https://test.com/specific/path")
        .unwrap());
    assert!(whitelist.is_allowed("test.com/specific/path").unwrap());

    // Test wildcard matches
    assert!(whitelist.is_allowed("example.com/anything").unwrap());
    assert!(whitelist
        .is_allowed("example.com/path/to/resource")
        .unwrap());
    assert!(whitelist.is_allowed("api.domain.com/v1/users").unwrap());

    // Test non-matches
    assert!(!whitelist.is_allowed("other.com/path").unwrap());
    assert!(!whitelist.is_allowed("test.com/wrong/path").unwrap());
    assert!(!whitelist.is_allowed("api.domain.com/v2/users").unwrap());
}

#[test]
fn test_google_casewhitelist() {
    let mut whitelist = Whitelist::new();

    // Add some patterns
    whitelist.add("www.google.com/*").unwrap();

    // Test root path with and without trailing slash
    assert!(whitelist.is_allowed("https://www.google.com/").unwrap());
    assert!(whitelist.is_allowed("https://www.google.com").unwrap());
    assert!(whitelist.is_allowed("www.google.com/").unwrap());
    assert!(whitelist.is_allowed("www.google.com").unwrap());

    // Test subpaths
    assert!(whitelist.is_allowed("www.google.com/search").unwrap());
    assert!(whitelist.is_allowed("www.google.com/search/").unwrap());

    // Test non-matches
    assert!(!whitelist.is_allowed("other.com/path").unwrap());
    assert!(!whitelist.is_allowed("api.google.com").unwrap());
}

#[test]
fn whitelist_test_domain_wildcards() {
    let mut whitelist = Whitelist::new();

    // Add domain wildcard pattern
    whitelist.add("www.*.google.com/*").unwrap();

    // Test matching domains
    assert!(whitelist.is_allowed("www.test.google.com/test").unwrap());
    assert!(whitelist.is_allowed("www.dev.google.com/api").unwrap());
    assert!(whitelist.is_allowed("www.staging.google.com/").unwrap());
    assert!(whitelist.is_allowed("www.prod.google.com").unwrap());

    // Test non-matching domains
    assert!(!whitelist.is_allowed("www.google.com/test").unwrap());
    assert!(!whitelist.is_allowed("api.test.google.com/test").unwrap());
    assert!(!whitelist.is_allowed("www.test.google.org/test").unwrap());
    // Note: www.test.google.com should match because /* allows any path including no path

    // Test with protocol
    assert!(whitelist
        .is_allowed("https://www.test.google.com/test")
        .unwrap());
    assert!(whitelist
        .is_allowed("http://www.dev.google.com/api")
        .unwrap());
}

#[test]
fn whitelist_test_multiple_domain_wildcards() {
    let mut whitelist = Whitelist::new();

    // Add pattern with multiple wildcards
    whitelist.add("*.test.*.google.com/*").unwrap();

    // Test matching domains
    assert!(whitelist
        .is_allowed("www.test.dev.google.com/test")
        .unwrap());
    assert!(whitelist
        .is_allowed("api.test.staging.google.com/api")
        .unwrap());

    // Test non-matching domains
    assert!(!whitelist.is_allowed("www.test.google.com/test").unwrap()); // Missing subdomain
    assert!(!whitelist
        .is_allowed("www.dev.test.google.com/test")
        .unwrap()); // Wrong order
}

#[test]
fn whitelist_test_domain_wildcard_without_path() {
    let mut whitelist = Whitelist::new();

    // Add domain wildcard pattern without path
    whitelist.add("www.*.google.com").unwrap();

    // Test matching domains (any path should work)
    assert!(whitelist.is_allowed("www.staging.google.com").unwrap());
    
    // Test non-matching domains
    assert!(!whitelist.is_allowed("www.dev.google.com/").unwrap());
    assert!(!whitelist.is_allowed("www.test.google.com/test").unwrap());
    assert!(!whitelist.is_allowed("www.google.com/test").unwrap());
    assert!(!whitelist.is_allowed("api.test.google.com/test").unwrap());
}

#[test]
fn test_wildcard_allows_everything() {
    let mut whitelist = Whitelist::new();

    // Add wildcard pattern that allows everything
    whitelist.add("*").unwrap();

    // Test that any URL is allowed
    assert!(whitelist.is_allowed("https://example.com").unwrap());
    assert!(whitelist.is_allowed("http://test.com/path").unwrap());
    assert!(whitelist.is_allowed("www.google.com/search").unwrap());
    assert!(whitelist.is_allowed("api.domain.com/v1/users").unwrap());
    assert!(whitelist.is_allowed("localhost:3000").unwrap());
    assert!(whitelist.is_allowed("192.168.1.1").unwrap());
}

#[test]
fn whitelist_test_wildcard_with_other_patterns() {
    let mut whitelist = Whitelist::new();

    // Add both wildcard and specific patterns
    whitelist.add("*").unwrap();
    whitelist.add("example.com/*").unwrap();
    whitelist.add("https://test.com/specific/path").unwrap();

    // Wildcard should take precedence and allow everything
    assert!(whitelist.is_allowed("https://example.com").unwrap());
    assert!(whitelist.is_allowed("http://test.com/path").unwrap());
    assert!(whitelist.is_allowed("www.google.com/search").unwrap());
    assert!(whitelist.is_allowed("api.domain.com/v1/users").unwrap());
    assert!(whitelist.is_allowed("localhost:3000").unwrap());
    assert!(whitelist.is_allowed("192.168.1.1").unwrap());
}

#[test]
fn whitelist_test_prefix_wildcard() {
    let mut whitelist = Whitelist::new();

    // Add prefix wildcard pattern
    whitelist.add("*.lottiefiles.com").unwrap();

    // Test matching with multiple subdomain levels (root only)
    assert!(whitelist.is_allowed("www.lottiefiles.com").unwrap());
    assert!(whitelist.is_allowed("editor.lottiefiles.com").unwrap());
    assert!(whitelist.is_allowed("www.editor.lottiefiles.com").unwrap());
    assert!(whitelist.is_allowed("www.creator.lottiefiles.com").unwrap());
    assert!(whitelist
        .is_allowed("api.v2.staging.lottiefiles.com")
        .unwrap());
    assert!(whitelist.is_allowed("a.b.c.d.lottiefiles.com").unwrap());

    // Test exact match (no subdomain)
    assert!(whitelist.is_allowed("lottiefiles.com").unwrap());

    // Test that paths are NOT allowed with domain-only pattern
    assert!(!whitelist
        .is_allowed("www.editor.lottiefiles.com/path")
        .unwrap());
    assert!(!whitelist.is_allowed("api.lottiefiles.com/v1/data").unwrap());
    assert!(!whitelist.is_allowed("www.lottiefiles.com/editor").unwrap());

    // Test non-matches
    assert!(!whitelist.is_allowed("lottiefiles.org").unwrap());
    assert!(!whitelist.is_allowed("notlottiefiles.com").unwrap());
    assert!(!whitelist.is_allowed("www.lottiefiles.com.fake").unwrap());
}

#[test]
fn test_prefix_wildcard_with_path() {
    let mut whitelist = Whitelist::new();

    // Add prefix wildcard pattern with path wildcard
    whitelist.add("*.example.com/*").unwrap();

    // Test matching with various subdomain levels
    assert!(whitelist.is_allowed("www.example.com/test").unwrap());
    assert!(whitelist.is_allowed("api.example.com/v1").unwrap());
    assert!(whitelist
        .is_allowed("dev.staging.example.com/deploy")
        .unwrap());
    assert!(whitelist
        .is_allowed("a.b.c.example.com/path/to/resource")
        .unwrap());

    // Test root paths
    assert!(whitelist.is_allowed("www.example.com/").unwrap());
    assert!(whitelist.is_allowed("www.example.com").unwrap());
    assert!(whitelist.is_allowed("example.com").unwrap());

    // Test non-matches
    assert!(!whitelist.is_allowed("example.org/test").unwrap());
    assert!(!whitelist.is_allowed("notexample.com/test").unwrap());
}

#[test]
fn whitelist_test_prefix_wildcard_with_specific_path() {
    let mut whitelist = Whitelist::new();

    // Add prefix wildcard pattern with specific path
    whitelist.add("*.api.com/v1/*").unwrap();

    // Test matching
    assert!(whitelist.is_allowed("www.api.com/v1/users").unwrap());
    assert!(whitelist.is_allowed("staging.api.com/v1/data").unwrap());
    assert!(whitelist.is_allowed("dev.test.api.com/v1/info").unwrap());

    // Test non-matches (wrong path)
    assert!(!whitelist.is_allowed("www.api.com/v2/users").unwrap());
    assert!(!whitelist.is_allowed("staging.api.com/users").unwrap());
}

#[test]
fn whitelist_test_all_allowed() {
    let mut whitelist = Whitelist::new();

    // Add wildcard that allows everything
    whitelist.add("*").unwrap();

    // Everything should be allowed when "*" is in the whitelist
    assert!(whitelist
        .is_allowed("https://www.api.com/v1/users")
        .unwrap());
    assert!(whitelist.is_allowed("www.api.com/v1/users").unwrap());
    assert!(whitelist.is_allowed("staging.api.com/v1/data").unwrap());
    assert!(whitelist.is_allowed("dev.test.api.com/v1/info").unwrap());
    assert!(whitelist.is_allowed("www.api.com/v2/users").unwrap());
    assert!(whitelist.is_allowed("staging.api.com/users").unwrap());
    assert!(whitelist.is_allowed("anything.goes.here").unwrap());
    assert!(whitelist.is_allowed("192.168.1.1").unwrap());
    assert!(whitelist.is_allowed("localhost:3000").unwrap());
}

#[test]
fn lowered_urls_normalise_as_urls_do() {
    for url in ["example.com/a/", "https://example.com/", "http://example.com/a//", "x.org"] {
        assert_eq!(Whitelist::normalize_lowered_url(url), Whitelist::normalize_url(url));
    }
    assert_eq!(Whitelist::normalize_lowered_url("example.com/a/").unwrap(), "example.com/a");
    assert_eq!(Whitelist::normalize_lowered_url("https://example.com/").unwrap(), "example.com/");
}
