use dotlottie::string::{DotString, DotStringInterner};
use std::collections::HashMap;

#[test]
fn new_and_as_str() {
    let s = DotString::new("hello");
    assert_eq!(s.as_str(), "hello");
    assert_eq!(&*s, "hello");
    assert_eq!(s.len(), 5);
    assert!(!s.is_empty());
}

#[test]
fn empty_string() {
    let s = DotString::empty();
    assert_eq!(s.as_str(), "");
    assert!(s.is_empty());
}

#[test]
fn cheap_clone_shares_storage() {
    let a = DotString::new("shared");
    let b = a.clone();
    // The storage is shared.
    assert!(a.shares_storage(&b));
}

#[test]
fn from_string_preserves_content() {
    let built = format!("state: {}", "running");
    let s = DotString::from_string(built);
    assert_eq!(&*s, "state: running");
}

#[test]
fn equality_with_str_both_ways() {
    let s = DotString::new("idle");
    assert_eq!(s, "idle");
    assert_eq!("idle", s);
    assert_eq!(&s, "idle");
    assert_ne!(s, "playing");
}

#[test]
fn display_and_debug() {
    let s = DotString::new("event");
    assert_eq!(format!("{}", s.as_str()), "event");
    assert_eq!(format!("{:?}", s.as_str()), "\"event\"");
}

#[test]
fn ordering_follows_str() {
    let a = DotString::new("alpha");
    let b = DotString::new("beta");
    assert!(a < b);
    assert_eq!(a.cmp(&b), std::cmp::Ordering::Less);
    assert_eq!(a.partial_cmp(&b), "alpha".partial_cmp("beta"));
}

#[test]
fn comparison_follows_the_text() {
    let texts = ["", "a", "ab", "b", "B", "é", "z", "ä", "\u{1F600}", "abc"];
    for x in texts {
        for y in texts {
            let (dx, dy) = (DotString::new(x), DotString::new(y));
            assert_eq!(dx.partial_cmp(&dy), x.partial_cmp(y));
            assert_eq!(dx.cmp(&dy), x.cmp(y));
            assert_eq!(dx < dy, x < y);
        }
    }
}

#[test]
fn default_is_empty() {
    let d: DotString = Default::default();
    assert_eq!(&*d, "");
}

#[test]
fn rejects_interior_null() {
    assert!(DotString::try_new("has\0null").is_err());
    assert!(DotString::try_from_string("also\0bad".to_string()).is_err());
}

#[test]
fn len_counts_utf8_bytes() {
    let s = DotString::new("héllo");
    assert_eq!(s.len(), 6);
    assert!(DotString::new("").is_empty());
}

#[test]
fn separate_values_do_not_share_storage_but_compare_equal() {
    let a = DotString::new("same");
    let b = DotString::new("same");
    assert!(!a.shares_storage(&b));
    assert_eq!(a, b);
    assert_ne!(a, DotString::new("other"));
}

#[test]
fn try_new_keeps_text() {
    let d = DotString::try_new("ok text").unwrap();
    assert_eq!(d.as_str(), "ok text");
    let e = DotString::try_from_string("owned".to_string()).unwrap();
    assert_eq!(e.as_str(), "owned");
}

#[test]
fn interner_dedupes() {
    let mut interner = DotStringInterner::new();
    let a = interner.intern("alpha");
    let b = interner.intern("alpha");
    let c = interner.intern("beta");

    assert_eq!(interner.len(), 2);
    assert_eq!(a, b);
    assert_ne!(a, c);

    // a and b share storage; c is distinct.
    assert!(a.shares_storage(&b));
    assert!(!a.shares_storage(&c));
}

#[test]
fn interned_equality_fast_path() {
    let mut interner = DotStringInterner::new();
    let a = interner.intern("same");
    let b = interner.intern("same");
    assert_eq!(a, b);
}

#[test]
fn hash_matches_str() {
    let mut m: HashMap<DotString, i32> = HashMap::new();
    m.insert(DotString::new("key"), 42);

    // Borrow<str> allows &str lookups.
    assert_eq!(m.get("key"), Some(&42));
}

#[test]
fn interner_clears_and_reports_emptiness() {
    let mut interner = DotStringInterner::with_capacity(4);
    assert!(interner.is_empty());
    interner.intern("x");
    assert!(!interner.is_empty());
    interner.clear();
    assert!(interner.is_empty());
    assert_eq!(interner.len(), 0);
}
