use furl::{classify, sort_furls, Furl};

fn url_text(s: &str) -> String {
    url::Url::parse(s).unwrap().as_str().to_string()
}

#[test]
fn from_str() {
    let a = Furl::from_str("https://test.com").unwrap();
    assert_eq!(a.url(), url_text("https://test.com"));
    assert_eq!(a.port(), "443".to_string());

    let a = Furl::from_str("test.com").unwrap();
    assert_eq!(a.url(), url_text("https://test.com"));
    assert_eq!(a.port(), "443".to_string());

    let a = Furl::from_str("http://test.com:743").unwrap();
    assert_eq!(a.url(), url_text("http://test.com:743"));
    assert_eq!(a.port(), "743".to_string());

    let a = Furl::from_str("test.com:103").unwrap();
    assert_eq!(a.url(), url_text("https://test.com:103"));
    assert_eq!(a.port(), "103".to_string());
}

#[test]
fn domain() {
    assert_eq!(
        Furl::from_str("https://test.com").unwrap().domain(),
        "test.com"
    );

    assert_eq!(Furl::from_str("test.com").unwrap().domain(), "test.com");

    assert!(Furl::from_str("test.invalid").is_err());

    assert_eq!(
        Furl::from_str("user:pass@test.com").unwrap().domain(),
        "test.com"
    );

    assert_eq!(
        Furl::from_str("test.com/foo/bar").unwrap().domain(),
        "test.com"
    );

    assert!(Furl::from_str("foo/bar").is_err());
}

#[test]
fn domain2() {
    let d = classify("googleapis.com").unwrap();
    assert!(d.is_private);
    assert_eq!(d.suffix.clone().unwrap(), "googleapis.com");
    assert!(d.is_private);
    assert!(!d.is_icann);
    assert!(d.root().is_none());

    let d = Furl::from_str("googleapis.com").unwrap();

    assert_eq!(d.domain(), "googleapis.com")
}

#[test]
fn furl_eq() {
    let a = Furl::from_str("test.com/a/b").unwrap();
    let b = Furl::from_str("test.com/a/b").unwrap();
    assert_eq!(a, b);

    let a = Furl::from_str("https://test.com/a/b").unwrap();
    let b = Furl::from_str("https://test.com/a/b").unwrap();
    assert_eq!(a, b);

    let a = Furl::from_str("test.com/a/b?k=v").unwrap();
    let b = Furl::from_str("test.com/a/b?j=r").unwrap();
    assert_eq!(a, b);

    let a = Furl::from_str("test.com/a/b").unwrap();
    let b = Furl::from_str("test.com/a/c").unwrap();
    assert_eq!(a, b);

    let a = Furl::from_str("test.com/a/b/c").unwrap();
    let b = Furl::from_str("test.com/a/c/d").unwrap();
    assert_ne!(a, b);

    let a = Furl::from_str("test.com/a/b/c").unwrap();
    let b = Furl::from_str("test.com/a/d").unwrap();
    assert!(a.gt(&b));

    let a = Furl::from_str("test.com/a/b/e").unwrap();
    let b = Furl::from_str("test.com/a/x/d").unwrap();
    assert!(a.lt(&b));

    let a = Furl::from_str("ftp://test.com/a/b/e").unwrap();
    let b = Furl::from_str("test.com/a/x/d").unwrap();
    assert!(a.lt(&b));
}

#[test]
fn furl_ne() {
    let a = Furl::from_str("test.com/a/b").unwrap();
    let b = Furl::from_str("test.com/a/c/d/fs").unwrap();
    assert_ne!(a, b);

    let a = Furl::from_str("test.com/a/b/c").unwrap();
    let b = Furl::from_str("test.com/a/c/d").unwrap();
    assert_ne!(a, b);
}

#[test]
fn sort() {
    let a = Furl::from_str("https://memoryleaks.ir/tag/%d9%87%da%a9/").unwrap();
    let b = Furl::from_str("https://memoryleaks.ir/author/soloboy/").unwrap();
    let c = Furl::from_str("https://memoryleaks.ir/tag/rce/").unwrap();

    let v = sort_furls(vec![a, b, c]);

    let a = Furl::from_str("https://memoryleaks.ir/tag/%d9%87%da%a9/").unwrap();
    let b = Furl::from_str("https://memoryleaks.ir/author/soloboy/").unwrap();
    let c = Furl::from_str("https://memoryleaks.ir/tag/rce/").unwrap();

    assert_eq!(v, vec![b, a, c]);
}
