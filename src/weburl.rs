//! A parsed URL held as plain values, and the calls into the `url` crate that
//! produce one.
use vstd::prelude::*;
use vstd::string::*;
use crate::text::{starts_with, all_digits, is_all_digits};

verus! {

/// The fields of a parsed URL, as character sequences.
pub struct UrlView {
    pub serialization: Seq<char>,
    pub scheme: Seq<char>,
    pub authority: Seq<char>,
    pub username: Seq<char>,
    pub password: Option<Seq<char>>,
    pub domain: Option<Seq<char>>,
    pub port: Option<u16>,
    pub path: Seq<char>,
    pub query: Option<Seq<char>>,
    pub fragment: Option<Seq<char>>,
    pub cannot_be_a_base: bool,
}

/// A parsed URL: its serialization and the components read out of it.
#[derive(Debug, Clone)]
pub struct UrlParts {
    pub serialization: String,
    pub scheme: String,
    pub authority: String,
    pub username: String,
    pub password: Option<String>,
    pub domain: Option<String>,
    pub port: Option<u16>,
    pub path: String,
    pub query: Option<String>,
    pub fragment: Option<String>,
    pub cannot_be_a_base: bool,
}

pub open spec fn opt_view(o: Option<String>) -> Option<Seq<char>> {
    match o {
        Some(s) => Some(s@),
        None => None,
    }
}

/// The string that an absent optional component reads as.
pub open spec fn or_empty(o: Option<Seq<char>>) -> Seq<char> {
    match o {
        Some(s) => s,
        None => Seq::empty(),
    }
}

impl View for UrlParts {
    type V = UrlView;

    open spec fn view(&self) -> UrlView {
        UrlView {
            serialization: self.serialization@,
            scheme: self.scheme@,
            authority: self.authority@,
            username: self.username@,
            password: opt_view(self.password),
            domain: opt_view(self.domain),
            port: self.port,
            path: self.path@,
            query: opt_view(self.query),
            fragment: opt_view(self.fragment),
            cannot_be_a_base: self.cannot_be_a_base,
        }
    }
}

/// The scheme is not empty, the serialization begins with the scheme and
/// `:`, and the URL is cannot-be-a-base exactly when no `/` follows that colon.
pub open spec fn url_shape(v: UrlView) -> bool {
    &&& v.scheme.len() > 0
    &&& starts_with(v.serialization, v.scheme.push(':'))
    &&& v.cannot_be_a_base == !(v.serialization.len() > v.scheme.len() + 1
        && v.serialization[v.scheme.len() + 1 as int] == '/')
}

/// The URL that `url::Url::parse` makes of a string, if it accepts it.
pub uninterp spec fn parsed_url(s: Seq<char>) -> Option<UrlView>;

/// The serialization of the URL parsed from `s` once its query is replaced
/// by `q` (`url::Url::set_query`).
pub uninterp spec fn url_with_query(s: Seq<char>, q: Seq<char>) -> Option<Seq<char>>;

/// The key/value pairs that `form_urlencoded::parse` decodes from a query.
pub uninterp spec fn form_pairs(q: Seq<char>) -> Seq<(Seq<char>, Seq<char>)>;

/// `https://`: the prefix that makes a token an absolute URL.
pub open spec fn https_prefix() -> Seq<char> {
    seq!['h', 't', 't', 'p', 's', ':', '/', '/']
}

/// Relies on `url::Url::parse`, and on the parsed value's accessors `as_str`,
/// `scheme`, `authority`, `username`, `password`, `domain`,
/// `port_or_known_default`, `path`, `query`, `fragment` and
/// `cannot_be_a_base`, each read out as a plain value. A scheme begins with a
/// letter, and a string that begins with `https://` parses, if at all, with
/// the special scheme `https`, whose URLs always have a path after `//` and so
/// can be a base.
#[verifier::external_body]
pub(crate) fn parse_url(s: &str) -> (r: Option<UrlParts>)
    ensures
        r matches Some(p) ==> parsed_url(s@) == Some(p@) && url_shape(p@),
        r is None ==> parsed_url(s@) is None,
        starts_with(s@, https_prefix()) && r is Some ==> !r->0.cannot_be_a_base,
{
    url::Url::parse(s).ok().map(|u| UrlParts {
        serialization: u.as_str().to_string(),
        scheme: u.scheme().to_string(),
        authority: u.authority().to_string(),
        username: u.username().to_string(),
        password: u.password().map(|x| x.to_string()),
        domain: u.domain().map(|x| x.to_string()),
        port: u.port_or_known_default(),
        path: u.path().to_string(),
        query: u.query().map(|x| x.to_string()),
        fragment: u.fragment().map(|x| x.to_string()),
        cannot_be_a_base: u.cannot_be_a_base(),
    })
}

/// Relies on `url::Url::set_query`: the URL parsed from `s`, with its query
/// set to `q`, serialized again.
#[verifier::external_body]
pub(crate) fn replace_query(s: &str, q: &str) -> (r: Option<String>)
    ensures
        opt_view(r) == url_with_query(s@, q@),
{
    let mut u = url::Url::parse(s).ok()?;
    u.set_query(Some(q));
    Some(u.as_str().to_string())
}

/// Relies on `url::form_urlencoded::parse`: the decoded pairs of a query
/// string, in order; an empty query holds none.
#[verifier::external_body]
pub(crate) fn query_pairs(q: &str) -> (r: Vec<(String, String)>)
    ensures
        r@.map_values(|p: (String, String)| (p.0@, p.1@)) == form_pairs(q@),
        q@.len() == 0 ==> r@.len() == 0,
{
    url::form_urlencoded::parse(q.as_bytes()).map(|(k, v)| (k.into_owned(), v.into_owned())).collect()
}

/// The position of the first `c` in `s`, if any.
pub open spec fn first_index_of(s: Seq<char>, c: char) -> Option<int>
    decreases s.len(),
{
    if s.len() == 0 {
        None
    } else if s[0] == c {
        Some(0)
    } else {
        match first_index_of(s.drop_first(), c) {
            Some(i) => Some(i + 1),
            None => None,
        }
    }
}

/// The pieces of `s` between occurrences of `c` (one empty piece for an empty
/// `s`).
pub open spec fn split_on(s: Seq<char>, c: char) -> Seq<Seq<char>>
    decreases s.len(),
{
    match first_index_of(s, c) {
        Some(i) => if 0 <= i < s.len() {
            seq![s.subrange(0, i)] + split_on(s.subrange(i + 1, s.len() as int), c)
        } else {
            seq![s]
        },
        None => seq![s],
    }
}

/// The `/`-separated segments of a path that begins with `/`; none otherwise.
pub open spec fn path_segments(path: Seq<char>) -> Option<Seq<Seq<char>>> {
    if path.len() > 0 && path[0] == '/' {
        Some(split_on(path.drop_first(), '/'))
    } else {
        None
    }
}

pub open spec fn is_significant(seg: Seq<char>) -> bool {
    !all_digits(seg)
}

/// The path segments that are not made of digits alone.
pub open spec fn significant_segments(path: Seq<char>) -> Option<Seq<Seq<char>>> {
    match path_segments(path) {
        Some(segs) => Some(segs.filter(|x: Seq<char>| is_significant(x))),
        None => None,
    }
}

proof fn lemma_first_index(s: Seq<char>, c: char, j: int)
    requires
        0 <= j <= s.len(),
        forall|k: int| 0 <= k < j ==> s[k] != c,
    ensures
        j < s.len() && s[j] == c ==> first_index_of(s, c) == Some(j),
        j == s.len() ==> first_index_of(s, c) is None,
    decreases j,
{
    if j > 0 {
        lemma_first_index(s.drop_first(), c, j - 1);
    }
}

proof fn lemma_filter_step(segs: Seq<Seq<char>>, i: int)
    requires
        0 <= i < segs.len(),
    ensures
        segs.take(i + 1).filter(|x: Seq<char>| is_significant(x)) == if is_significant(segs[i]) {
            segs.take(i).filter(|x: Seq<char>| is_significant(x)).push(segs[i])
        } else {
            segs.take(i).filter(|x: Seq<char>| is_significant(x))
        },
{
    assert(segs.take(i + 1).drop_last() =~= segs.take(i));
    reveal_with_fuel(Seq::filter, 1);
}

/// The pieces of `s[start..]` between occurrences of `/`, appended to `out`.
fn split_into(s: &str, n: usize, start: usize, out: &mut Vec<String>)
    requires
        n == s@.len(),
        start <= n,
    ensures
        final(out)@.map_values(|x: String| x@) == old(out)@.map_values(|x: String| x@) + split_on(
            s@.subrange(start as int, n as int),
            '/',
        ),
    decreases n - start,
{
    let mut i = start;
    while i < n && s.get_char(i) != '/'
        invariant
            start <= i <= n,
            n == s@.len(),
            forall|k: int| start <= k < i ==> s@[k] != '/',
        decreases n - i,
    {
        i = i + 1;
    }
    let ghost t = s@.subrange(start as int, n as int);
    proof {
        lemma_first_index(t, '/', i - start);
    }
    let piece = String::from_str(s.substring_char(start, i));
    let ghost before = out@.map_values(|x: String| x@);
    out.push(piece);
    assert(out@.map_values(|x: String| x@) =~= before.push(piece@));
    if i < n {
        assert(t.subrange(0, i - start) =~= s@.subrange(start as int, i as int));
        assert(t.subrange(i - start + 1, t.len() as int) =~= s@.subrange(i + 1, n as int));
        split_into(s, n, i + 1, out);
        assert(split_on(t, '/') =~= seq![piece@] + split_on(s@.subrange(i + 1, n as int), '/'));
    } else {
        assert(split_on(t, '/') =~= seq![t]);
        assert(t =~= piece@);
    }
}

/// The path segments of `path` that are not made of digits alone.
pub fn significant_segments_of(path: &str) -> (r: Option<Vec<String>>)
    ensures
        match r {
            Some(v) => significant_segments(path@) == Some(v@.map_values(|x: String| x@)),
            None => significant_segments(path@) is None,
        },
{
    let n = path.unicode_len();
    if n == 0 || path.get_char(0) != '/' {
        return None;
    }
    let mut all: Vec<String> = Vec::new();
    split_into(path, n, 1, &mut all);
    let ghost segs = split_on(path@.drop_first(), '/');
    assert(path@.subrange(1, n as int) =~= path@.drop_first());
    assert(all@.map_values(|x: String| x@) =~= segs);
    let mut out: Vec<String> = Vec::new();
    let mut i: usize = 0;
    while i < all.len()
        invariant
            i <= all@.len(),
            all@.map_values(|x: String| x@) == segs,
            out@.map_values(|x: String| x@) == segs.take(i as int).filter(
                |x: Seq<char>| is_significant(x),
            ),
        decreases all@.len() - i,
    {
        proof {
            lemma_filter_step(segs, i as int);
        }
        assert(segs[i as int] == all@[i as int]@);
        if !is_all_digits(all[i].as_str()) {
            let ghost before = out@.map_values(|x: String| x@);
            out.push(all[i].clone());
            assert(out@.map_values(|x: String| x@) =~= before.push(all@[i as int]@));
        }
        i = i + 1;
    }
    assert(segs.take(i as int) =~= segs);
    Some(out)
}

} // verus!
