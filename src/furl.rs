//! A normalized URL (`Furl`): parsing with an implied `https` scheme, the
//! resolved port, and the accessors for every named field.
use vstd::prelude::*;
use vstd::string::*;
use crate::host::{DnsName, DnsView, classify, dns_name, is_usable, prefix_of, root_of};
use crate::text::{after_last, trim_end_char, trim_end_pat, after_last_ch, trim_end_ch, trim_end_str};
use crate::weburl::{UrlParts, UrlView, or_empty, parse_url, parsed_url, url_shape, form_pairs, query_pairs};
pub use crate::weburl::https_prefix;

verus! {

/// Why a token does not normalize.
#[derive(Debug, Clone, Copy, PartialEq, Eq, Structural)]
pub enum ParseFailure {
    /// Neither the token nor the token behind `https://` parses as a URL
    /// that can be a base.
    NotAUrl,
    /// Under the strict policy: the host is not a usable domain.
    InvalidDomain,
}

/// A normalized URL as plain values.
pub struct FurlView {
    pub parts: UrlView,
    pub port: Seq<char>,
    pub had_explicit_scheme: bool,
}

/// A URL normalized from a token: the parsed URL, its resolved port, and
/// whether the token named its scheme itself.
#[derive(Debug, Clone)]
pub struct Furl {
    pub parts: UrlParts,
    pub port: String,
    pub had_explicit_scheme: bool,
}

impl View for Furl {
    type V = FurlView;

    open spec fn view(&self) -> FurlView {
        FurlView {
            parts: self.parts@,
            port: self.port@,
            had_explicit_scheme: self.had_explicit_scheme,
        }
    }
}

pub open spec fn digit_char(d: nat) -> char {
    seq!['0', '1', '2', '3', '4', '5', '6', '7', '8', '9'][d as int]
}

/// The decimal digits of `n`, most significant first.
pub open spec fn decimal(n: nat) -> Seq<char>
    decreases n,
{
    if n < 10 {
        seq![digit_char(n)]
    } else {
        decimal(n / 10).push(digit_char(n % 10))
    }
}

/// The port as text: the explicit or well-known port, or nothing.
pub open spec fn port_text(p: Option<u16>) -> Seq<char> {
    match p {
        Some(n) => decimal(n as nat),
        None => Seq::empty(),
    }
}


/// What the public suffix list says of the URL's host, if it has a DNS name.
pub open spec fn host_name(v: UrlView) -> Option<DnsView> {
    match v.domain {
        Some(h) => dns_name(h),
        None => None,
    }
}

/// The host of the URL is a usable domain.
pub open spec fn domain_ok(v: UrlView) -> bool {
    match dns_name(or_empty(v.domain)) {
        Some(d) => is_usable(d),
        None => false,
    }
}

/// The record made of a parsed URL.
pub open spec fn furl_of(v: UrlView, explicit: bool) -> FurlView {
    FurlView { parts: v, port: port_text(v.port), had_explicit_scheme: explicit }
}

/// The parse accepted the string as a URL that can be a base.
pub open spec fn usable_parse(p: Option<UrlView>) -> bool {
    p matches Some(v) && !v.cannot_be_a_base
}

/// What a token normalizes to: the token itself when it parses as a URL that
/// can be a base, else the token behind `https://`; under the strict policy
/// the host must also be a usable domain.
pub open spec fn normalized(s: Seq<char>, strict: bool) -> Result<FurlView, ParseFailure> {
    let direct = parsed_url(s);
    let retry = parsed_url(https_prefix() + s);
    if usable_parse(direct) {
        let v = direct->0;
        if strict && !domain_ok(v) {
            Err(ParseFailure::InvalidDomain)
        } else {
            Ok(furl_of(v, true))
        }
    } else if usable_parse(retry) {
        let v = retry->0;
        if strict && !domain_ok(v) {
            Err(ParseFailure::InvalidDomain)
        } else {
            Ok(furl_of(v, false))
        }
    } else {
        Err(ParseFailure::NotAUrl)
    }
}

/// The domain field: the host when it is a usable domain, else empty.
pub open spec fn domain_of(v: UrlView) -> Seq<char> {
    match host_name(v) {
        Some(d) => if is_usable(d) {
            d.full
        } else {
            Seq::empty()
        },
        None => Seq::empty(),
    }
}

/// The labels before the registrable root; empty without a usable domain.
pub open spec fn subdomain_of(v: UrlView) -> Seq<char> {
    match host_name(v) {
        Some(d) => if is_usable(d) {
            or_empty(prefix_of(d))
        } else {
            Seq::empty()
        },
        None => Seq::empty(),
    }
}

/// The registrable root; empty without a usable domain.
pub open spec fn apex_of(v: UrlView) -> Seq<char> {
    match host_name(v) {
        Some(d) => if is_usable(d) {
            or_empty(root_of(d))
        } else {
            Seq::empty()
        },
        None => Seq::empty(),
    }
}

/// The root with its suffix and the dots before it taken off
/// (`example` of `www.example.com`); empty without a usable domain.
pub open spec fn name_of(v: UrlView) -> Seq<char> {
    match host_name(v) {
        Some(d) => if is_usable(d) {
            match root_of(d) {
                Some(r) => trim_end_char(trim_end_pat(r, or_empty(d.suffix)), '.'),
                None => Seq::empty(),
            }
        } else {
            Seq::empty()
        },
        None => Seq::empty(),
    }
}

/// The part of the domain field after its last dot.
pub open spec fn suffix_of(v: UrlView) -> Seq<char> {
    after_last(domain_of(v), '.')
}

/// The URL's path; without a usable domain, everything after `scheme://`.
pub open spec fn path_of(v: UrlView) -> Seq<char> {
    if domain_of(v).len() > 0 {
        v.path
    } else if v.scheme.len() + 3 <= v.serialization.len() {
        v.serialization.subrange(v.scheme.len() + 3int, v.serialization.len() as int)
    } else {
        Seq::empty()
    }
}

pub open spec fn keys_of(v: UrlView) -> Seq<Seq<char>> {
    form_pairs(or_empty(v.query)).map_values(|p: (Seq<char>, Seq<char>)| p.0)
}

pub open spec fn values_of(v: UrlView) -> Seq<Seq<char>> {
    form_pairs(or_empty(v.query)).map_values(|p: (Seq<char>, Seq<char>)| p.1)
}

/// `mark` when `field` is non-empty, else nothing.
pub open spec fn mark_if(field: Seq<char>, mark: Seq<char>) -> Seq<char> {
    if field.len() > 0 {
        mark
    } else {
        Seq::empty()
    }
}

fn digit_text(d: u16) -> (r: String)
    requires
        d < 10,
    ensures
        r@ == seq![digit_char(d as nat)],
{
    let digits = "0123456789";
    proof {
        reveal_strlit("0123456789");
    }
    let r = String::from_str(digits.substring_char(d as usize, d as usize + 1));
    assert(r@ =~= seq![digit_char(d as nat)]);
    r
}

/// The decimal text of a port number.
pub fn decimal_text(n: u16) -> (r: String)
    ensures
        r@ == decimal(n as nat),
    decreases n,
{
    if n < 10 {
        digit_text(n)
    } else {
        let mut s = decimal_text(n / 10);
        let d = digit_text(n % 10);
        s.append(d.as_str());
        s
    }
}

fn optional_str(o: &Option<String>) -> (r: &str)
    ensures
        r@ == or_empty(crate::weburl::opt_view(*o)),
{
    match o {
        Some(s) => s.as_str(),
        None => {
            let e = "";
            proof {
                reveal_strlit("");
            }
            e
        },
    }
}

fn empty_string() -> (r: String)
    ensures
        r@ == Seq::<char>::empty(),
{
    proof {
        reveal_strlit("");
    }
    String::from_str("")
}

impl Furl {
    /// The record is made of a URL that can be a base, and its port is the
    /// URL's port as text.
    pub open spec fn wf(&self) -> bool {
        &&& url_shape(self.parts@)
        &&& !self.parts.cannot_be_a_base
        &&& self.port@ == port_text(self.parts.port)
    }

    pub(crate) fn from_parts(parts: UrlParts, explicit: bool) -> (r: Furl)
        requires
            url_shape(parts@),
            !parts.cannot_be_a_base,
        ensures
            r@ == furl_of(parts@, explicit),
            r.wf(),
    {
        let port = match parts.port {
            Some(n) => decimal_text(n),
            None => empty_string(),
        };
        Furl { parts, port, had_explicit_scheme: explicit }
    }

    /// Normalizes a token. It is parsed as a URL; when that fails or gives a
    /// URL that cannot be a base, the token is parsed again behind
    /// `https://`. With `strict_domain`, a URL whose host is not a usable
    /// domain is refused.
    pub fn normalize(s: &str, strict_domain: bool) -> (r: Result<Furl, ParseFailure>)
        ensures
            match r {
                Ok(f) => normalized(s@, strict_domain) == Ok::<FurlView, ParseFailure>(f@) && f.wf(),
                Err(e) => normalized(s@, strict_domain) == Err::<FurlView, ParseFailure>(e),
            },
            r == Err::<Furl, ParseFailure>(ParseFailure::NotAUrl) ==> !usable_parse(parsed_url(s@))
                && parsed_url(https_prefix() + s@) is None,
            strict_domain && r is Ok ==> domain_of(r->Ok_0@.parts).len() > 0,
    {
        let direct = parse_url(s);
        let (parts, explicit) = match direct {
            Some(p) if !p.cannot_be_a_base => (p, true),
            _ => {
                proof {
                    reveal_strlit("https://");
                }
                let prefixed = String::from_str("https://").concat(s);
                assert(prefixed@ == https_prefix() + s@);
                assert(prefixed@.subrange(0, 8) =~= https_prefix());
                match parse_url(prefixed.as_str()) {
                    Some(p) if !p.cannot_be_a_base => (p, false),
                    _ => {
                        return Err(ParseFailure::NotAUrl);
                    },
                }
            },
        };
        if strict_domain && !host_is_usable(&parts) {
            return Err(ParseFailure::InvalidDomain);
        }
        Ok(Furl::from_parts(parts, explicit))
    }

    /// Normalizes a token under the strict domain policy.
    pub fn from_str(s: &str) -> (r: Result<Furl, ParseFailure>)
        ensures
            match r {
                Ok(f) => normalized(s@, true) == Ok::<FurlView, ParseFailure>(f@) && f.wf(),
                Err(e) => normalized(s@, true) == Err::<FurlView, ParseFailure>(e),
            },
            r == Err::<Furl, ParseFailure>(ParseFailure::NotAUrl) ==> !usable_parse(parsed_url(s@))
                && parsed_url(https_prefix() + s@) is None,
            r matches Ok(f) ==> domain_of(f@.parts).len() > 0,
    {
        Furl::normalize(s, true)
    }

    /// Whether the token named its scheme itself.
    pub fn had_explicit_scheme(&self) -> (r: bool)
        ensures
            r == self@.had_explicit_scheme,
    {
        self.had_explicit_scheme
    }

    pub fn scheme(&self) -> (r: &str)
        ensures
            r@ == self@.parts.scheme,
    {
        self.parts.scheme.as_str()
    }

    /// The whole URL, serialized.
    pub fn url(&self) -> (r: &str)
        ensures
            r@ == self@.parts.serialization,
    {
        self.parts.serialization.as_str()
    }

    pub fn authority(&self) -> (r: &str)
        ensures
            r@ == self@.parts.authority,
    {
        self.parts.authority.as_str()
    }

    pub fn username(&self) -> (r: &str)
        ensures
            r@ == self@.parts.username,
    {
        self.parts.username.as_str()
    }

    pub fn password(&self) -> (r: &str)
        ensures
            r@ == or_empty(self@.parts.password),
    {
        optional_str(&self.parts.password)
    }

    pub fn port(&self) -> (r: &str)
        ensures
            r@ == self@.port,
    {
        self.port.as_str()
    }

    pub fn query(&self) -> (r: &str)
        ensures
            r@ == or_empty(self@.parts.query),
    {
        optional_str(&self.parts.query)
    }

    pub fn fragment(&self) -> (r: &str)
        ensures
            r@ == or_empty(self@.parts.fragment),
    {
        optional_str(&self.parts.fragment)
    }

    /// The public suffix classification of the host, if it is a DNS name.
    pub fn get_domain(&self) -> (r: Option<DnsName>)
        ensures
            match r {
                Some(d) => host_name(self@.parts) == Some(d@) && d.shaped(),
                None => host_name(self@.parts) is None,
            },
    {
        match &self.parts.domain {
            Some(h) => classify(h.as_str()),
            None => None,
        }
    }

    /// The host when it is a usable domain, else empty.
    pub fn domain(&self) -> (r: String)
        ensures
            r@ == domain_of(self@.parts),
    {
        match self.get_domain() {
            Some(d) => if d.is_usable() {
                d.full
            } else {
                empty_string()
            },
            None => empty_string(),
        }
    }

    /// The labels before the registrable root; empty without a usable domain.
    pub fn subdomain(&self) -> (r: String)
        ensures
            r@ == subdomain_of(self@.parts),
    {
        match self.get_domain() {
            Some(d) => if d.is_usable() {
                match d.prefix() {
                    Some(p) => String::from_str(p),
                    None => empty_string(),
                }
            } else {
                empty_string()
            },
            None => empty_string(),
        }
    }

    /// The registrable root; empty without a usable domain.
    pub fn apex(&self) -> (r: String)
        ensures
            r@ == apex_of(self@.parts),
    {
        match self.get_domain() {
            Some(d) => if d.is_usable() {
                match d.root() {
                    Some(p) => String::from_str(p),
                    None => empty_string(),
                }
            } else {
                empty_string()
            },
            None => empty_string(),
        }
    }

    /// The registrable root without its suffix; empty without a usable
    /// domain.
    pub fn name(&self) -> (r: String)
        ensures
            r@ == name_of(self@.parts),
    {
        match self.get_domain() {
            Some(d) => if d.is_usable() {
                match d.root() {
                    Some(root) => {
                        let suffix = optional_str(&d.suffix);
                        String::from_str(trim_end_ch(trim_end_str(root, suffix), '.'))
                    },
                    None => empty_string(),
                }
            } else {
                empty_string()
            },
            None => empty_string(),
        }
    }

    /// The part of the domain field after its last dot.
    pub fn suffix(&self) -> (r: String)
        ensures
            r@ == suffix_of(self@.parts),
    {
        let d = self.domain();
        String::from_str(after_last_ch(d.as_str(), '.'))
    }

    /// The path; without a usable domain, the whole URL after `scheme://`.
    pub fn path(&self) -> (r: String)
        requires
            self.wf(),
        ensures
            r@ == path_of(self@.parts),
    {
        let d = self.domain();
        if d.as_str().unicode_len() > 0 {
            self.parts.path.clone()
        } else {
            let s = self.parts.serialization.as_str();
            let n = s.unicode_len();
            let k = self.parts.scheme.as_str().unicode_len();
            if n >= 3 && k <= n - 3 {
                String::from_str(s.substring_char(k + 3, n))
            } else {
                empty_string()
            }
        }
    }

    /// The keys of the query's pairs, in order.
    pub fn keys(&self) -> (r: Vec<String>)
        ensures
            r@.map_values(|x: String| x@) == keys_of(self@.parts),
    {
        pair_parts(self.query(), true)
    }

    /// The values of the query's pairs, in order.
    pub fn values(&self) -> (r: Vec<String>)
        ensures
            r@.map_values(|x: String| x@) == values_of(self@.parts),
    {
        pair_parts(self.query(), false)
    }
}

/// The keys (`keys`) or the values of the pairs decoded from a query.
fn pair_parts(q: &str, keys: bool) -> (r: Vec<String>)
    ensures
        r@.map_values(|x: String| x@) == if keys {
            form_pairs(q@).map_values(|p: (Seq<char>, Seq<char>)| p.0)
        } else {
            form_pairs(q@).map_values(|p: (Seq<char>, Seq<char>)| p.1)
        },
{
    let pairs = query_pairs(q);
    let ghost pv = pairs@.map_values(|p: (String, String)| (p.0@, p.1@));
    let ghost f = if keys {
        |p: (Seq<char>, Seq<char>)| p.0
    } else {
        |p: (Seq<char>, Seq<char>)| p.1
    };
    let mut out: Vec<String> = Vec::new();
    let mut i: usize = 0;
    while i < pairs.len()
        invariant
            i <= pairs@.len(),
            pv == pairs@.map_values(|p: (String, String)| (p.0@, p.1@)),
            f == (if keys {
                |p: (Seq<char>, Seq<char>)| p.0
            } else {
                |p: (Seq<char>, Seq<char>)| p.1
            }),
            out@.map_values(|x: String| x@) == pv.take(i as int).map_values(f),
        decreases pairs@.len() - i,
    {
        let ghost before = out@.map_values(|x: String| x@);
        if keys {
            out.push(pairs[i].0.clone());
        } else {
            out.push(pairs[i].1.clone());
        }
        assert(out@.map_values(|x: String| x@) =~= before.push(f(pv[i as int])));
        assert(pv.take(i + 1).map_values(f) =~= pv.take(i as int).map_values(f).push(f(pv[i as int])));
        i = i + 1;
    }
    assert(pv.take(i as int) =~= pv);
    out
}

/// Whether the host of a parsed URL is a usable domain.
fn host_is_usable(p: &UrlParts) -> (r: bool)
    ensures
        r == domain_ok(p@),
        r ==> domain_of(p@).len() > 0,
{
    let h = optional_str(&p.domain);
    match classify(h) {
        Some(d) => d.is_usable(),
        None => false,
    }
}

} // verus!
