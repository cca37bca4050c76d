//! The named fields, their aliases, and what a run does with a pattern: fold
//! duplicates, print one field, or render a template.
use vstd::prelude::*;
use vstd::string::*;
use crate::furl::{
    Furl, FurlView, normalized, domain_of, subdomain_of, apex_of, name_of, suffix_of,
    path_of, keys_of, values_of,
};
use crate::dedup::all_wf;
use crate::text::str_equal;
use crate::weburl::or_empty;

verus! {

/// A field that can be asked for by name.
#[derive(Debug, Clone, Copy, PartialEq, Eq, Structural)]
pub enum Field {
    Scheme,
    Url,
    Authority,
    Username,
    Password,
    Domain,
    Subdomain,
    Apex,
    Name,
    Suffix,
    Port,
    Path,
    Query,
    Keys,
    Values,
    Fragment,
}

/// The field that a name or alias stands for.
pub open spec fn field_named(n: Seq<char>) -> Option<Field> {
    if n == "s"@ || n == "scheme"@ || n == "schemes"@ {
        Some(Field::Scheme)
    } else if n == "c"@ || n == "url"@ {
        Some(Field::Url)
    } else if n == "a"@ || n == "auth"@ || n == "authority"@ {
        Some(Field::Authority)
    } else if n == "u"@ || n == "user"@ || n == "users"@ || n == "username"@ || n == "usernames"@ {
        Some(Field::Username)
    } else if n == "x"@ || n == "pass"@ || n == "password"@ || n == "passwords"@ {
        Some(Field::Password)
    } else if n == "d"@ || n == "domain"@ || n == "domains"@ {
        Some(Field::Domain)
    } else if n == "S"@ || n == "sub"@ || n == "subdomain"@ || n == "subdomains"@ {
        Some(Field::Subdomain)
    } else if n == "r"@ || n == "root"@ || n == "roots"@ || n == "apex"@ || n == "apexes"@ {
        Some(Field::Apex)
    } else if n == "n"@ || n == "name"@ || n == "names"@ {
        Some(Field::Name)
    } else if n == "t"@ || n == "tld"@ || n == "suffix"@ {
        Some(Field::Suffix)
    } else if n == "P"@ || n == "port"@ || n == "ports"@ {
        Some(Field::Port)
    } else if n == "p"@ || n == "path"@ || n == "paths"@ {
        Some(Field::Path)
    } else if n == "q"@ || n == "query"@ || n == "queries"@ {
        Some(Field::Query)
    } else if n == "k"@ || n == "key"@ || n == "keys"@ {
        Some(Field::Keys)
    } else if n == "v"@ || n == "val"@ || n == "value"@ || n == "values"@ {
        Some(Field::Values)
    } else if n == "f"@ || n == "fragment"@ || n == "fragments"@ {
        Some(Field::Fragment)
    } else {
        None
    }
}

/// The value of a single-valued field.
pub open spec fn field_value(v: FurlView, f: Field) -> Seq<char> {
    let p = v.parts;
    match f {
        Field::Scheme => p.scheme,
        Field::Url => p.serialization,
        Field::Authority => p.authority,
        Field::Username => p.username,
        Field::Password => or_empty(p.password),
        Field::Domain => domain_of(p),
        Field::Subdomain => subdomain_of(p),
        Field::Apex => apex_of(p),
        Field::Name => name_of(p),
        Field::Suffix => suffix_of(p),
        Field::Port => v.port,
        Field::Path => path_of(p),
        Field::Query => or_empty(p.query),
        Field::Fragment => or_empty(p.fragment),
        Field::Keys | Field::Values => Seq::empty(),
    }
}

/// The lines that asking for one field prints: each key or each value of the
/// query, or the field's value when it is non-empty.
pub open spec fn field_lines(v: FurlView, f: Field) -> Seq<Seq<char>> {
    match f {
        Field::Keys => keys_of(v.parts),
        Field::Values => values_of(v.parts),
        _ => if field_value(v, f).len() > 0 {
            seq![field_value(v, f)]
        } else {
            Seq::empty()
        },
    }
}

/// What a run does with its pattern.
#[derive(Debug, Clone, Copy, PartialEq, Eq, Structural)]
pub enum Mode {
    /// Fold together the URLs that count as the same page.
    Dedup,
    /// Print one field of each URL.
    Field(Field),
    /// Render the pattern as a template for each URL.
    Template,
}

pub open spec fn mode_of(pattern: Seq<char>) -> Mode {
    if pattern == "dedup"@ {
        Mode::Dedup
    } else {
        match field_named(pattern) {
            Some(f) => Mode::Field(f),
            None => Mode::Template,
        }
    }
}

/// The field that a name or alias stands for, if any.
pub fn field_for_name(n: &str) -> (r: Option<Field>)
    ensures
        r == field_named(n@),
{
    if str_equal(n, "s") || str_equal(n, "scheme") || str_equal(n, "schemes") {
        Some(Field::Scheme)
    } else if str_equal(n, "c") || str_equal(n, "url") {
        Some(Field::Url)
    } else if str_equal(n, "a") || str_equal(n, "auth") || str_equal(n, "authority") {
        Some(Field::Authority)
    } else if str_equal(n, "u") || str_equal(n, "user") || str_equal(n, "users") || str_equal(
        n,
        "username",
    ) || str_equal(n, "usernames") {
        Some(Field::Username)
    } else if str_equal(n, "x") || str_equal(n, "pass") || str_equal(n, "password") || str_equal(
        n,
        "passwords",
    ) {
        Some(Field::Password)
    } else if str_equal(n, "d") || str_equal(n, "domain") || str_equal(n, "domains") {
        Some(Field::Domain)
    } else if str_equal(n, "S") || str_equal(n, "sub") || str_equal(n, "subdomain") || str_equal(
        n,
        "subdomains",
    ) {
        Some(Field::Subdomain)
    } else if str_equal(n, "r") || str_equal(n, "root") || str_equal(n, "roots") || str_equal(
        n,
        "apex",
    ) || str_equal(n, "apexes") {
        Some(Field::Apex)
    } else if str_equal(n, "n") || str_equal(n, "name") || str_equal(n, "names") {
        Some(Field::Name)
    } else if str_equal(n, "t") || str_equal(n, "tld") || str_equal(n, "suffix") {
        Some(Field::Suffix)
    } else if str_equal(n, "P") || str_equal(n, "port") || str_equal(n, "ports") {
        Some(Field::Port)
    } else if str_equal(n, "p") || str_equal(n, "path") || str_equal(n, "paths") {
        Some(Field::Path)
    } else if str_equal(n, "q") || str_equal(n, "query") || str_equal(n, "queries") {
        Some(Field::Query)
    } else if str_equal(n, "k") || str_equal(n, "key") || str_equal(n, "keys") {
        Some(Field::Keys)
    } else if str_equal(n, "v") || str_equal(n, "val") || str_equal(n, "value") || str_equal(
        n,
        "values",
    ) {
        Some(Field::Values)
    } else if str_equal(n, "f") || str_equal(n, "fragment") || str_equal(n, "fragments") {
        Some(Field::Fragment)
    } else {
        None
    }
}

/// What a run does with `pattern`: `dedup` folds duplicates, a field name or
/// alias prints that field, anything else is a template.
pub fn mode_for(pattern: &str) -> (r: Mode)
    ensures
        r == mode_of(pattern@),
{
    if str_equal(pattern, "dedup") {
        Mode::Dedup
    } else {
        match field_for_name(pattern) {
            Some(f) => Mode::Field(f),
            None => Mode::Template,
        }
    }
}

impl Furl {
    /// The value of a single-valued field (empty for `Keys` and `Values`).
    pub fn field_value(&self, f: Field) -> (r: String)
        requires
            self.wf(),
        ensures
            r@ == field_value(self@, f),
    {
        match f {
            Field::Scheme => String::from_str(self.scheme()),
            Field::Url => String::from_str(self.url()),
            Field::Authority => String::from_str(self.authority()),
            Field::Username => String::from_str(self.username()),
            Field::Password => String::from_str(self.password()),
            Field::Domain => self.domain(),
            Field::Subdomain => self.subdomain(),
            Field::Apex => self.apex(),
            Field::Name => self.name(),
            Field::Suffix => self.suffix(),
            Field::Port => String::from_str(self.port()),
            Field::Path => self.path(),
            Field::Query => String::from_str(self.query()),
            Field::Fragment => String::from_str(self.fragment()),
            Field::Keys | Field::Values => {
                proof {
                    reveal_strlit("");
                }
                String::from_str("")
            },
        }
    }

    /// The lines that asking for field `f` of this URL prints.
    pub fn field_lines(&self, f: Field) -> (r: Vec<String>)
        requires
            self.wf(),
        ensures
            r@.map_values(|x: String| x@) == field_lines(self@, f),
    {
        match f {
            Field::Keys => self.keys(),
            Field::Values => self.values(),
            _ => {
                let value = self.field_value(f);
                let mut out: Vec<String> = Vec::new();
                if value.as_str().unicode_len() > 0 {
                    out.push(value);
                    assert(out@.map_values(|x: String| x@) =~= field_lines(self@, f));
                } else {
                    assert(out@.map_values(|x: String| x@) =~= field_lines(self@, f));
                }
                out
            },
        }
    }
}

/// The records that a batch of tokens normalizes to, in order; tokens that do
/// not normalize under the given policy are left out.
pub open spec fn normalized_all(ts: Seq<Seq<char>>, strict: bool) -> Seq<FurlView>
    decreases ts.len(),
{
    if ts.len() == 0 {
        Seq::empty()
    } else {
        let prev = normalized_all(ts.drop_last(), strict);
        match normalized(ts.last(), strict) {
            Ok(v) => prev.push(v),
            Err(_) => prev,
        }
    }
}

/// Normalizes each token, keeping those that succeed.
pub fn normalize_all_with(tokens: &Vec<String>, strict_domain: bool) -> (r: Vec<Furl>)
    ensures
        r@.map_values(|f: Furl| f@) == normalized_all(tokens@.map_values(|t: String| t@), strict_domain),
        all_wf(r@),
{
    let ghost tv = tokens@.map_values(|t: String| t@);
    let mut out: Vec<Furl> = Vec::new();
    let mut i: usize = 0;
    assert(tv.take(0) =~= Seq::<Seq<char>>::empty());
    while i < tokens.len()
        invariant
            i <= tokens@.len(),
            tv == tokens@.map_values(|t: String| t@),
            out@.map_values(|f: Furl| f@) == normalized_all(tv.take(i as int), strict_domain),
            all_wf(out@),
        decreases tokens@.len() - i,
    {
        assert(tv.take(i + 1).drop_last() =~= tv.take(i as int));
        assert(tv.take(i + 1).last() == tokens@[i as int]@);
        let ghost before = out@;
        match Furl::normalize(tokens[i].as_str(), strict_domain) {
            Ok(f) => {
                out.push(f);
                assert(out@.map_values(|f: Furl| f@) =~= before.map_values(|f: Furl| f@).push(out@.last()@));
                assert forall|k: int| 0 <= k < out@.len() implies (#[trigger] out@[k]).wf() by {
                    if k < before.len() {
                        assert(out@[k] == before[k]);
                    }
                }
            },
            Err(_) => {},
        }
        i = i + 1;
    }
    assert(tv.take(i as int) =~= tv);
    out
}

/// Normalizes each token under the strict policy, keeping those that succeed.
pub fn normalize_all(tokens: &Vec<String>) -> (r: Vec<Furl>)
    ensures
        r@.map_values(|f: Furl| f@) == normalized_all(tokens@.map_values(|t: String| t@), true),
        all_wf(r@),
{
    normalize_all_with(tokens, true)
}

} // verus!
