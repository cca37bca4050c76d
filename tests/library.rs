use std::cmp::Ordering;

use furl::{
    classify, dedup, field_for_name, mode_for, normalize_all, normalize_all_with, Field, Furl, Mode, Opt,
    ParseFailure,
};

fn f(s: &str) -> Furl {
    Furl::from_str(s).unwrap()
}

#[test]
fn implied_scheme_matches_explicit_https() {
    let a = f("test.com/a/b?x=1#frag");
    let b = f("https://test.com/a/b?x=1#frag");
    assert!(!a.had_explicit_scheme());
    assert!(b.had_explicit_scheme());
    assert_eq!(a.url(), b.url());
    assert_eq!(a.port(), b.port());
    assert_eq!(a.format("%c %d %p %q %f").unwrap(), b.format("%c %d %p %q %f").unwrap());
}

#[test]
fn implied_scheme_refused_domain_both_ways() {
    assert_eq!(Furl::from_str("test.invalid").unwrap_err(), ParseFailure::InvalidDomain);
    assert_eq!(
        Furl::from_str("https://test.invalid").unwrap_err(),
        ParseFailure::InvalidDomain
    );
}

#[test]
fn ports_resolved() {
    assert_eq!(f("http://test.com").port(), "80");
    assert_eq!(f("https://test.com:8443").port(), "8443");
    assert_eq!(f("http://test.com:65535").port(), "65535");
    assert_eq!(f("test.com:7").port(), "7");
    let other = Furl::normalize("foo://test.com", false).unwrap();
    assert_eq!(other.port(), "");
    assert_eq!(other.colon(), "");
}

#[test]
fn not_a_url() {
    assert_eq!(Furl::from_str("").unwrap_err(), ParseFailure::NotAUrl);
    assert_eq!(Furl::normalize("[::1", false).unwrap_err(), ParseFailure::NotAUrl);
}

#[test]
fn lenient_policy_keeps_unusable_domains() {
    let a = Furl::normalize("test.invalid/x/y", false).unwrap();
    assert_eq!(a.domain(), "");
    assert_eq!(a.suffix(), "");
    assert_eq!(a.apex(), "");
    assert_eq!(a.name(), "");
    assert_eq!(a.subdomain(), "");
    assert_eq!(a.path(), "test.invalid/x/y");
    let b = Furl::normalize("foo/bar", false).unwrap();
    assert_eq!(b.domain(), "");
    assert_eq!(b.url(), "https://foo/bar");
    assert_eq!(b.path(), "foo/bar");
    let c = Furl::normalize("www.test.invalid", false).unwrap();
    assert_eq!(c.subdomain(), "");
    assert_eq!(c.format("%d|%S|%r|%n|%t|%p").unwrap(), "|||||www.test.invalid/");
}

#[test]
fn lenient_batch_keeps_unusable_domains() {
    let tokens = vec!["test.invalid".to_string(), "".to_string()];
    let strict = normalize_all_with(&tokens, true);
    assert!(strict.is_empty());
    let lenient = normalize_all_with(&tokens, false);
    assert_eq!(lenient.len(), 1);
    assert_eq!(lenient[0].url(), "https://test.invalid/");
}

#[test]
fn domain_parts() {
    let a = f("https://www.example.co.uk/a");
    assert_eq!(a.domain(), "www.example.co.uk");
    assert_eq!(a.subdomain(), "www");
    assert_eq!(a.apex(), "example.co.uk");
    assert_eq!(a.name(), "example");
    assert_eq!(a.suffix(), "uk");
    let b = f("a.b.example.com");
    assert_eq!(b.subdomain(), "a.b");
    assert_eq!(b.apex(), "example.com");
    assert_eq!(b.name(), "example");
    assert_eq!(b.suffix(), "com");
}

#[test]
fn private_suffix_without_root() {
    let d = f("googleapis.com");
    assert_eq!(d.domain(), "googleapis.com");
    assert_eq!(d.apex(), "");
    assert_eq!(d.name(), "");
    assert_eq!(d.subdomain(), "");
    assert_eq!(d.suffix(), "com");
}

#[test]
fn classify_test_com() {
    let d = classify("test.com").unwrap();
    assert!(d.is_icann);
    assert!(!d.is_private);
    assert!(d.is_usable());
    assert_eq!(d.root(), Some("test.com"));
    assert_eq!(d.prefix(), None);
    assert_eq!(f("test.com").domain(), "test.com");
}

#[test]
fn classify_unknown_suffix() {
    let d = classify("test.invalid").unwrap();
    assert!(!d.is_icann);
    assert!(!d.is_private);
    assert!(!d.is_usable());
    assert!(classify("").is_none());
}

#[test]
fn credentials_and_marks() {
    let a = f("https://user:pw@test.com:8080/a/b?x=1#top");
    assert_eq!(a.scheme(), "https");
    assert_eq!(a.authority(), "user:pw@test.com:8080");
    assert_eq!(a.username(), "user");
    assert_eq!(a.password(), "pw");
    assert_eq!(a.query(), "x=1");
    assert_eq!(a.fragment(), "top");
    assert_eq!(a.slash(), "://");
    assert_eq!(a.at(), "@");
    assert_eq!(a.colon(), ":");
    assert_eq!(a.question(), "?");
    assert_eq!(a.hashtag(), "#");
    let b = f("test.com/p");
    assert_eq!(b.username(), "");
    assert_eq!(b.password(), "");
    assert_eq!(b.at(), "");
    assert_eq!(b.question(), "");
    assert_eq!(b.hashtag(), "");
}

#[test]
fn template_round_trip() {
    let a = f("https://user:pw@test.com:8080/a/b?x=1#top");
    assert_eq!(
        a.format("%s%/%a%p").unwrap(),
        "https://user:pw@test.com:8080/a/b"
    );
    let b = f("test.com/x");
    assert_eq!(b.format("%s%/%a%p").unwrap(), "https://test.com/x");
}

#[test]
fn template_literal_percent() {
    let a = f("test.com");
    assert_eq!(a.format("100%% done").unwrap(), "100% done");
    assert_eq!(a.format("%%d").unwrap(), "%d");
    assert_eq!(a.format("%z%").unwrap(), "%z%");
}

#[test]
fn template_every_code() {
    let a = f("https://u:p@www.example.com:81/a?q=1#h");
    assert_eq!(
        a.format("%s|%c|%a|%u|%x|%d|%S|%r|%n|%t|%P|%p|%q|%f").unwrap(),
        "https|https://u:p@www.example.com:81/a?q=1#h|u:p@www.example.com:81|u|p|www.example.com|www|example.com|example|com|81|/a|q=1|h"
    );
    assert_eq!(a.format("%/%@%:%?%#").unwrap(), "://@:?#");
}

#[test]
fn keys_and_values() {
    let a = f("test.com/?a=1&b=two&c");
    assert_eq!(a.keys(), vec!["a", "b", "c"]);
    assert_eq!(a.values(), vec!["1", "two", ""]);
    assert_eq!(a.field_lines(Field::Keys), vec!["a", "b", "c"]);
    let b = f("test.com");
    assert!(b.keys().is_empty());
}

#[test]
fn field_lines_skip_empty() {
    let a = f("test.com/a");
    assert_eq!(a.field_lines(Field::Domain), vec!["test.com"]);
    assert!(a.field_lines(Field::Query).is_empty());
    assert_eq!(a.field_value(Field::Path), "/a");
}

#[test]
fn aliases() {
    assert_eq!(field_for_name("d"), Some(Field::Domain));
    assert_eq!(field_for_name("domains"), Some(Field::Domain));
    assert_eq!(field_for_name("S"), Some(Field::Subdomain));
    assert_eq!(field_for_name("s"), Some(Field::Scheme));
    assert_eq!(field_for_name("apexes"), Some(Field::Apex));
    assert_eq!(field_for_name("tld"), Some(Field::Suffix));
    assert_eq!(field_for_name("val"), Some(Field::Values));
    assert_eq!(field_for_name("c"), Some(Field::Url));
    assert_eq!(field_for_name("json"), None);
    assert_eq!(mode_for("dedup"), Mode::Dedup);
    assert_eq!(mode_for("P"), Mode::Field(Field::Port));
    assert_eq!(mode_for("%d:%P"), Mode::Template);
    let opt = Opt { pattern: "paths".to_string(), args: vec![] };
    assert_eq!(opt.mode(), Mode::Field(Field::Path));
}

#[test]
fn numeric_segments_ignored() {
    let a = f("test.com/a/123/b/c");
    let b = f("test.com/a/b/c");
    assert_eq!(a.cmp(&b), Ordering::Equal);
    let c = f("test.com/a/b");
    let d = f("test.com/a/b/c");
    assert_eq!(c.cmp(&d), Ordering::Less);
    assert_eq!(d.cmp(&c), Ordering::Greater);
}

#[test]
fn order_by_first_difference() {
    let a = f("test.com/a/b/c");
    let b = f("test.com/a/c/d");
    assert_eq!(a.cmp(&b), Ordering::Less);
    assert_eq!(b.cmp(&a), Ordering::Greater);
    let c = f("http://test.com/a");
    assert_eq!(c.cmp(&a), Ordering::Less);
}

#[test]
fn dedup_merges_queries() {
    let out = dedup(vec![f("test.com/a/b?k=v"), f("test.com/a/b?j=r")]);
    assert_eq!(out.len(), 1);
    assert_eq!(out[0].query(), "j=r&k=v");
    assert_eq!(out[0].url(), "https://test.com/a/b?j=r&k=v");
}

#[test]
fn dedup_later_value_wins() {
    let out = dedup(vec![f("test.com/a/b?k=1&z=0"), f("test.com/a/c?k=2")]);
    assert_eq!(out.len(), 1);
    assert_eq!(out[0].query(), "k=2&z=0");
}

#[test]
fn dedup_keeps_distinct_pages() {
    let out = dedup(vec![
        f("test.com/x/y/z"),
        f("other.com/a"),
        f("test.com/a/b/c"),
    ]);
    assert_eq!(out.len(), 3);
    assert_eq!(out[0].url(), "https://other.com/a");
    assert_eq!(out[1].url(), "https://test.com/a/b/c");
    assert_eq!(out[2].url(), "https://test.com/x/y/z");
}

#[test]
fn dedup_empty_batch() {
    assert!(dedup(vec![]).is_empty());
}

#[test]
fn normalize_batch_drops_failures() {
    let tokens = vec![
        "test.com".to_string(),
        "test.invalid".to_string(),
        "http://example.org/x".to_string(),
    ];
    let out = normalize_all(&tokens);
    assert_eq!(out.len(), 2);
    assert_eq!(out[0].url(), "https://test.com/");
    assert_eq!(out[1].url(), "http://example.org/x");
}
