use dotlottie::state_machine::actions::whitelist::{parse_url, Whitelist};

#[test]
fn test_custom_url_parsing() {
    assert_eq!(parse_url("example.com"), Some(("example.com".to_string(), "".to_string())));
    assert_eq!(
        parse_url("example.com/path"),
        Some(("example.com".to_string(), "/path".to_string()))
    );
    assert_eq!(parse_url("https://example.com"), Some(("example.com".to_string(), "".to_string())));
    assert_eq!(
        parse_url("http://example.com/path"),
        Some(("example.com".to_string(), "/path".to_string()))
    );
    assert_eq!(
        parse_url("https://example.com/path/to/resource"),
        Some(("example.com".to_string(), "/path/to/resource".to_string()))
    );

    assert_eq!(parse_url(""), None);
    assert_eq!(parse_url("https://"), None);
    assert_eq!(parse_url("http://"), None);

    assert_eq!(parse_url("  example.com  "), Some(("example.com".to_string(), "".to_string())));
}

#[test]
fn test_whitelist() {
    let mut whitelist = Whitelist::new();

    // Add some patterns
    whitelist.add("example.com/*");
    whitelist.add("https://test.com/specific/path");
    whitelist.add("api.domain.com/v1/*");

    // Test exact matches
    assert!(whitelist.is_allowed("https://test.com/specific/path"));
    assert!(whitelist.is_allowed("test.com/specific/path"));

    // Test wildcard matches
    assert!(whitelist.is_allowed("example.com/anything"));
    assert!(whitelist.is_allowed("example.com/path/to/resource"));
    assert!(whitelist.is_allowed("api.domain.com/v1/users"));

    // Test non-matches
    assert!(!whitelist.is_allowed("other.com/path"));
    assert!(!whitelist.is_allowed("test.com/wrong/path"));
    assert!(!whitelist.is_allowed("api.domain.com/v2/users"));
}

#[test]
fn test_trailing_wildcard() {
    let mut whitelist = Whitelist::new();

    // Add some patterns
    whitelist.add("www.google.com/*");

    // Test root path with and without trailing slash
    assert!(whitelist.is_allowed("https://www.google.com/"));
    assert!(whitelist.is_allowed("https://www.google.com"));
    assert!(whitelist.is_allowed("www.google.com/"));
    assert!(whitelist.is_allowed("www.google.com"));

    // Test subpaths
    assert!(whitelist.is_allowed("www.google.com/search"));
    assert!(whitelist.is_allowed("www.google.com/search/"));

    // Test non-matches
    assert!(!whitelist.is_allowed("other.com/path"));
    assert!(!whitelist.is_allowed("api.google.com"));
}

#[test]
fn test_wildcard_path_includes_root() {
    let mut whitelist = Whitelist::new();

    // Test that example.com/* allows both root and any subpath
    whitelist.add("example.com/*");

    // Should allow root
    assert!(whitelist.is_allowed("example.com"));
    assert!(whitelist.is_allowed("example.com/"));
    assert!(whitelist.is_allowed("https://example.com"));
    assert!(whitelist.is_allowed("https://example.com/"));
    assert!(whitelist.is_allowed("http://example.com"));
    assert!(whitelist.is_allowed("http://example.com/"));

    // Should also allow any subpath
    assert!(whitelist.is_allowed("example.com/path"));
    assert!(whitelist.is_allowed("example.com/path/to/resource"));
    assert!(whitelist.is_allowed("https://example.com/anything"));

    // Should not allow different domains
    assert!(!whitelist.is_allowed("other.com"));
    assert!(!whitelist.is_allowed("other.com/path"));
}

#[test]
fn test_domain_wildcards() {
    let mut whitelist = Whitelist::new();

    // Add domain wildcard pattern
    whitelist.add("www.*.google.com/*");

    // Test matching domains
    assert!(whitelist.is_allowed("www.test.google.com/test"));
    assert!(whitelist.is_allowed("www.dev.google.com/api"));
    assert!(whitelist.is_allowed("www.staging.google.com/"));
    assert!(whitelist.is_allowed("www.prod.google.com"));

    // Test non-matching domains
    assert!(!whitelist.is_allowed("www.google.com/test"));
    assert!(!whitelist.is_allowed("api.test.google.com/test"));
    assert!(!whitelist.is_allowed("www.test.google.org/test"));
    // Note: www.test.google.com should match because /* allows any path including no path

    // Test with protocol
    assert!(whitelist.is_allowed("https://www.test.google.com/test"));
    assert!(whitelist.is_allowed("http://www.dev.google.com/api"));
}

#[test]
fn test_multiple_domain_wildcards() {
    let mut whitelist = Whitelist::new();

    // Add pattern with multiple wildcards
    whitelist.add("*.test.*.google.com/*");

    // Test matching domains
    assert!(whitelist.is_allowed("www.test.dev.google.com/test"));
    assert!(whitelist.is_allowed("api.test.staging.google.com/api"));

    // Test non-matching domains
    assert!(!whitelist.is_allowed("www.test.google.com/test")); // Missing subdomain
    assert!(!whitelist.is_allowed("www.dev.test.google.com/test")); // Wrong order
}

#[test]
fn test_domain_wildcard_without_path() {
    let mut whitelist = Whitelist::new();

    // Add domain wildcard pattern without path
    whitelist.add("www.*.google.com");

    // Test matching domains (any path should work)
    assert!(whitelist.is_allowed("www.staging.google.com"));
    assert!(whitelist.is_allowed("www.dev.google.com/"));

    // Test non-matching domains
    assert!(!whitelist.is_allowed("www.test.google.com/test"));
    assert!(!whitelist.is_allowed("www.google.com/test"));
    assert!(!whitelist.is_allowed("api.test.google.com/test"));
}

#[test]
fn test_wildcard_with_other_patterns() {
    let mut whitelist = Whitelist::new();

    // Add both wildcard and specific patterns
    whitelist.add("*");
    whitelist.add("example.com/*");
    whitelist.add("https://test.com/specific/path");

    // Wildcard should take precedence and allow everything
    assert!(whitelist.is_allowed("https://example.com"));
    assert!(whitelist.is_allowed("http://test.com/path"));
    assert!(whitelist.is_allowed("www.google.com/search"));
    assert!(whitelist.is_allowed("api.domain.com/v1/users"));
    assert!(whitelist.is_allowed("localhost:3000"));
    assert!(whitelist.is_allowed("192.168.1.1"));
}

#[test]
fn test_prefix_wildcard() {
    let mut whitelist = Whitelist::new();

    // Add prefix wildcard pattern
    whitelist.add("*.lottiefiles.com");

    // Test matching with multiple subdomain levels (root only)
    assert!(whitelist.is_allowed("www.lottiefiles.com"));
    assert!(whitelist.is_allowed("editor.lottiefiles.com"));
    assert!(whitelist.is_allowed("www.editor.lottiefiles.com"));
    assert!(whitelist.is_allowed("www.creator.lottiefiles.com"));
    assert!(whitelist.is_allowed("api.v2.staging.lottiefiles.com"));
    assert!(whitelist.is_allowed("a.b.c.d.lottiefiles.com"));
    assert!(whitelist.is_allowed("lottiefiles.com"));

    // Test that paths are NOT allowed with domain-only pattern
    assert!(!whitelist.is_allowed("www.editor.lottiefiles.com/path"));
    assert!(!whitelist.is_allowed("api.lottiefiles.com/v1/data"));
    assert!(!whitelist.is_allowed("www.lottiefiles.com/editor"));

    // Test non-matches
    assert!(!whitelist.is_allowed("lottiefiles.org"));
    assert!(!whitelist.is_allowed("notlottiefiles.com"));
    assert!(!whitelist.is_allowed("www.lottiefiles.com.fake"));
}

#[test]
fn test_prefix_wildcard_with_specific_path() {
    let mut whitelist = Whitelist::new();

    whitelist.add("*.api.com/v1/*");

    assert!(whitelist.is_allowed("www.api.com/v1/users"));
    assert!(whitelist.is_allowed("staging.api.com/v1/data"));
    assert!(whitelist.is_allowed("dev.test.api.com/v1/info"));

    // Test non-matches (wrong path)
    assert!(!whitelist.is_allowed("www.api.com/v2/users"));
    assert!(!whitelist.is_allowed("staging.api.com/users"));
}

#[test]
fn test_all_allowed() {
    let mut whitelist = Whitelist::new();

    whitelist.add("*");

    // Everything should be allowed when "*" is in the whitelist
    assert!(whitelist.is_allowed("https://www.api.com/v1/users"));
    assert!(whitelist.is_allowed("www.api.com/v1/users"));
    assert!(whitelist.is_allowed("staging.api.com/v1/data"));
    assert!(whitelist.is_allowed("dev.test.api.com/v1/info"));
    assert!(whitelist.is_allowed("www.api.com/v2/users"));
    assert!(whitelist.is_allowed("staging.api.com/users"));
    assert!(whitelist.is_allowed("anything.goes.here"));
    assert!(whitelist.is_allowed("192.168.1.1"));
    assert!(whitelist.is_allowed("localhost:3000"));
}

#[test]
fn test_domain_only_pattern() {
    let mut whitelist = Whitelist::new();

    // Test that domain-only pattern (without /*) only allows root
    whitelist.add("example.com");

    // Should allow root only
    assert!(whitelist.is_allowed("example.com"));
    assert!(whitelist.is_allowed("https://example.com"));

    // Should NOT allow paths
    assert!(!whitelist.is_allowed("example.com/path"));
    assert!(!whitelist.is_allowed("example.com/anything"));
}

#[test]
fn test_slash_vs_slash_star() {
    let mut whitelist = Whitelist::new();

    // Test the difference between "/" and "/*"
    whitelist.add("test.com/");
    assert!(whitelist.is_allowed("test.com/"));
    assert!(whitelist.is_allowed("test.com")); // Normalized to match

    assert!(!whitelist.is_allowed("test.com/path"));

    let mut whitelist2 = Whitelist::new();
    whitelist2.add("api.com/*");

    assert!(whitelist2.is_allowed("api.com"));
    assert!(whitelist2.is_allowed("api.com/"));
    assert!(whitelist2.is_allowed("api.com/v1"));
    assert!(whitelist2.is_allowed("api.com/v1/users"));
}

#[test]
fn test_multiple_wildcards_in_path() {
    let mut whitelist = Whitelist::new();

    // Test the specific case with multiple wildcards in path
    whitelist.add("example.com/path/*/another/*");

    assert!(whitelist.is_allowed("example.com/path/foo/another/bar"));
    assert!(whitelist.is_allowed("example.com/path/segment/another/file.txt"));
    assert!(whitelist.is_allowed("example.com/path/x/another/y"));
    assert!(whitelist.is_allowed("example.com/path/anything/another/something"));

    // Should also work with longer segments where wildcards are
    assert!(whitelist.is_allowed("example.com/path/very/long/segment/another/more/stuff"));

    // Should not match if missing required path segments
    assert!(!whitelist.is_allowed("example.com/path/foo/another")); // Missing final segment
    assert!(!whitelist.is_allowed("example.com/path/another/bar")); // Missing middle segment
    assert!(!whitelist.is_allowed("example.com/path/foo/wrong/bar")); // Wrong middle segment
    assert!(!whitelist.is_allowed("example.com/wrong/foo/another/bar")); // Wrong first segment

    // Test more complex patterns
    whitelist.add("api.com/v*/users/*/profile");
    assert!(whitelist.is_allowed("api.com/v1/users/123/profile"));
    assert!(whitelist.is_allowed("api.com/v2/users/john/profile"));
    assert!(!whitelist.is_allowed("api.com/v1/users/123/settings"));

    // Test with leading/trailing wildcards
    whitelist.add("cdn.com/*/assets/*");
    whitelist.add("*.*.cdn.com/*/assets/*");
    assert!(whitelist.is_allowed("cdn.com/2024/assets/image.png"));
    assert!(whitelist.is_allowed("test.test.cdn.com/user/123/assets/doc.pdf"));

    let mut whitelist2 = Whitelist::new();

    // Test the specific case with multiple wildcards in path
    whitelist2.add("cdn.com/*/assets/*/");
    assert!(!whitelist2.is_allowed("cdn.com/test/assets/test/test"));
}

#[test]
fn added_url_is_allowed_in_any_case_and_spacing() {
    let mut w = Whitelist::new();
    w.add("https://Example.com/Docs/");
    assert!(w.is_allowed("https://example.com/docs"));
    assert!(w.is_allowed("  HTTP://EXAMPLE.COM/DOCS/  "));
    assert!(w.is_allowed("example.com/docs"));
    assert!(!w.is_allowed("example.com/docs/more"));
}

#[test]
fn adding_never_takes_a_url_away() {
    let mut w = Whitelist::new();
    w.add("example.com");
    assert!(w.is_allowed("example.com"));
    w.add("other.org/*");
    w.add("*.example.net");
    assert!(w.is_allowed("example.com"));
}

#[test]
fn star_allows_every_url_with_a_host() {
    let mut w = Whitelist::new();
    w.add("*");
    assert!(w.is_allowed("anything.example/at/all"));
    assert!(w.is_allowed("https://x.y"));
    assert!(!w.is_allowed(""));
    assert!(!w.is_allowed("https:///path-without-host"));
}

#[test]
fn host_pattern_with_slash_star_covers_root_and_paths() {
    let mut w = Whitelist::new();
    w.add("*.example.com/*");
    assert!(w.is_allowed("a.example.com"));
    assert!(w.is_allowed("a.example.com/"));
    assert!(w.is_allowed("a.b.example.com/x/y"));
    assert!(!w.is_allowed("example.org/x"));
    let mut w = Whitelist::new();
    w.add("example.com");
    assert!(w.is_allowed("example.com/"));
    assert!(!w.is_allowed("example.com/page"));
}

#[test]
fn hostless_patterns_without_star_are_ignored() {
    let urls = ["https://example.com", "example.com/a", "http://x.org/", "", "/path"];
    for pattern in ["", "   ", "https://", "http://", "/path"] {
        let mut w = Whitelist::new();
        w.add("example.com");
        let before: Vec<bool> = urls.iter().map(|u| w.is_allowed(u)).collect();
        w.add(pattern);
        let after: Vec<bool> = urls.iter().map(|u| w.is_allowed(u)).collect();
        assert_eq!(before, after, "pattern {:?}", pattern);
    }
}

#[test]
fn hostless_star_pattern_allows_nothing() {
    let mut w = Whitelist::new();
    w.add("/*");
    for url in ["https://example.com", "example.com/a", "http://x.org/", "/path", "a/b/c"] {
        assert!(!w.is_allowed(url), "{}", url);
    }
}

#[test]
fn hostless_star_patterns_change_no_answer() {
    let urls = ["https://example.com", "example.com/a", "a.b/c/d/", "/x/y", ""];
    for pattern in ["/*", "https:///a*", "  /x*/  ", "http:///*/", "//*"] {
        let mut w = Whitelist::new();
        w.add("example.com/*");
        let before: Vec<bool> = urls.iter().map(|u| w.is_allowed(u)).collect();
        w.add(pattern);
        let after: Vec<bool> = urls.iter().map(|u| w.is_allowed(u)).collect();
        assert_eq!(before, after, "pattern {:?}", pattern);
    }
}

#[test]
fn star_absorbs_entries_added_before_or_after() {
    let urls = ["https://www.api.com/v1/users", "anything.goes.here", "192.168.1.1", "localhost:3000"];
    let mut early = Whitelist::new();
    early.add("*");
    early.add("example.com");
    early.add("*.other.org/x/*");
    let mut late = Whitelist::new();
    late.add("example.com");
    late.add("*.other.org/x/*");
    late.add("*");
    for url in urls {
        assert!(early.is_allowed(url), "{}", url);
        assert!(late.is_allowed(url), "{}", url);
    }
    assert!(!early.is_allowed(""));
}
