//! The template engine: two-character placeholder codes replaced, in one
//! left-to-right pass, by the fields of a normalized URL.
use vstd::prelude::*;
use vstd::string::*;
use crate::furl::{
    Furl, FurlView, domain_of, subdomain_of, apex_of, name_of, suffix_of, path_of, mark_if,
};
use crate::weburl::or_empty;

verus! {

/// The first index at which `codes` holds `w`.
pub open spec fn code_index(codes: Seq<Seq<char>>, w: Seq<char>) -> Option<int>
    decreases codes.len(),
{
    if codes.len() == 0 {
        None
    } else if codes.last() == w {
        match code_index(codes.drop_last(), w) {
            Some(i) => Some(i),
            None => Some(codes.len() - 1),
        }
    } else {
        code_index(codes.drop_last(), w)
    }
}

/// `h` with every two-character code, taken leftmost first and without
/// overlap, replaced by the string at the code's index in `with`.
pub open spec fn substitute(h: Seq<char>, codes: Seq<Seq<char>>, with: Seq<Seq<char>>) -> Seq<char>
    decreases h.len(),
{
    if h.len() < 2 {
        h
    } else {
        match code_index(codes, h.subrange(0, 2)) {
            Some(j) => with[j] + substitute(h.subrange(2, h.len() as int), codes, with),
            None => seq![h[0]] + substitute(h.subrange(1, h.len() as int), codes, with),
        }
    }
}

/// Two ASCII characters.
pub open spec fn is_ascii_pair(c: Seq<char>) -> bool {
    c.len() == 2 && c[0] < '\u{80}' && c[1] < '\u{80}'
}

/// Relies on `aho_corasick::AhoCorasick::new` (standard match semantics, which
/// for patterns of one length finds the leftmost occurrence) and on
/// `AhoCorasick::replace_all`, which replaces each non-overlapping match by the
/// string at the matching pattern's index. Building fails only when a limit on
/// states, pattern count or pattern length is exceeded, which a handful of
/// two-byte patterns never reaches.
#[verifier::external_body]
fn replace_codes(hay: &str, codes: &Vec<String>, with: &Vec<String>) -> (r: Option<String>)
    requires
        codes@.len() == with@.len(),
        forall|i: int| 0 <= i < codes@.len() ==> is_ascii_pair(#[trigger] codes@[i]@),
        forall|i: int, j: int| 0 <= i < j < codes@.len() ==> codes@[i]@ != codes@[j]@,
    ensures
        r matches Some(s) ==> s@ == substitute(
            hay@,
            codes@.map_values(|c: String| c@),
            with@.map_values(|c: String| c@),
        ),
        codes@.len() <= 20 ==> r is Some,
{
    let ac = aho_corasick::AhoCorasick::new(codes).ok()?;
    Some(ac.replace_all(hay, with))
}

/// The letters that follow `%` in the placeholder codes, in table order.
pub open spec fn code_letters() -> Seq<char> {
    seq!['s', 'c', 'a', 'u', 'x', 'd', 'S', 'r', 'n', 't', 'P', 'p', 'q', 'f', '/', '@', ':', '?', '#', '%']
}

/// The placeholder codes: `%s`, `%c`, ..., `%#`, `%%`.
pub open spec fn codes_table() -> Seq<Seq<char>> {
    code_letters().map_values(|c: char| seq!['%', c])
}

/// The value that each code of the table stands for.
pub open spec fn replacements(v: FurlView) -> Seq<Seq<char>> {
    let p = v.parts;
    seq![
        p.scheme,
        p.serialization,
        p.authority,
        p.username,
        or_empty(p.password),
        domain_of(p),
        subdomain_of(p),
        apex_of(p),
        name_of(p),
        suffix_of(p),
        v.port,
        path_of(p),
        or_empty(p.query),
        or_empty(p.fragment),
        mark_if(p.scheme, seq![':', '/', '/']),
        mark_if(p.username, seq!['@']),
        mark_if(v.port, seq![':']),
        mark_if(or_empty(p.query), seq!['?']),
        mark_if(or_empty(p.fragment), seq!['#']),
        seq!['%'],
    ]
}

/// A pattern rendered against a normalized URL.
pub open spec fn render(v: FurlView, pat: Seq<char>) -> Seq<char> {
    substitute(pat, codes_table(), replacements(v))
}

/// The placeholder codes as strings.
fn placeholder_codes() -> (r: Vec<String>)
    ensures
        r@.map_values(|c: String| c@) == codes_table(),
{
    let letters = "scauxdSrntPpqf/@:?#%";
    proof {
        reveal_strlit("scauxdSrntPpqf/@:?#%");
        reveal_strlit("%");
    }
    assert(letters@ =~= code_letters());
    let mut out: Vec<String> = Vec::new();
    let mut i: usize = 0;
    while i < 20
        invariant
            i <= 20,
            letters@ == code_letters(),
            "%"@ == seq!['%'],
            out@.map_values(|c: String| c@) =~= codes_table().take(i as int),
        decreases 20 - i,
    {
        let code = String::from_str("%").concat(letters.substring_char(i, i + 1));
        assert(code@ =~= seq!['%', code_letters()[i as int]]);
        let ghost before = out@.map_values(|c: String| c@);
        out.push(code);
        assert(out@.map_values(|c: String| c@) =~= before.push(code@));
        assert(codes_table().take(i + 1) =~= codes_table().take(i as int).push(seq!['%', code_letters()[i as int]]));
        i = i + 1;
    }
    assert(codes_table().take(20) =~= codes_table());
    out
}

fn mark(field: &str, m: &str) -> (r: String)
    ensures
        r@ == mark_if(field@, m@),
{
    if field.unicode_len() > 0 {
        String::from_str(m)
    } else {
        proof {
            reveal_strlit("");
        }
        String::from_str("")
    }
}

impl Furl {
    /// `://` when the scheme is non-empty.
    pub fn slash(&self) -> (r: String)
        ensures
            r@ == mark_if(self@.parts.scheme, seq![':', '/', '/']),
    {
        proof {
            reveal_strlit("://");
        }
        mark(self.scheme(), "://")
    }

    /// `@` when the username is non-empty.
    pub fn at(&self) -> (r: String)
        ensures
            r@ == mark_if(self@.parts.username, seq!['@']),
    {
        proof {
            reveal_strlit("@");
        }
        mark(self.username(), "@")
    }

    /// `:` when the port is non-empty.
    pub fn colon(&self) -> (r: String)
        ensures
            r@ == mark_if(self@.port, seq![':']),
    {
        proof {
            reveal_strlit(":");
        }
        mark(self.port(), ":")
    }

    /// `?` when the query is non-empty.
    pub fn question(&self) -> (r: String)
        ensures
            r@ == mark_if(or_empty(self@.parts.query), seq!['?']),
    {
        proof {
            reveal_strlit("?");
        }
        mark(self.query(), "?")
    }

    /// `#` when the fragment is non-empty.
    pub fn hashtag(&self) -> (r: String)
        ensures
            r@ == mark_if(or_empty(self@.parts.fragment), seq!['#']),
    {
        proof {
            reveal_strlit("#");
        }
        mark(self.fragment(), "#")
    }

    /// Renders `pat`, replacing each placeholder code by the field it names.
    /// The matcher for the fixed code table is always built, so the result is
    /// always there.
    pub fn format(&self, pat: &str) -> (r: Option<String>)
        requires
            self.wf(),
        ensures
            r is Some,
            r matches Some(s) ==> s@ == render(self@, pat@),
    {
        let codes = placeholder_codes();
        proof {
            reveal_strlit("%");
        }
        let with = vec![
            String::from_str(self.scheme()),
            String::from_str(self.url()),
            String::from_str(self.authority()),
            String::from_str(self.username()),
            String::from_str(self.password()),
            self.domain(),
            self.subdomain(),
            self.apex(),
            self.name(),
            self.suffix(),
            String::from_str(self.port()),
            self.path(),
            String::from_str(self.query()),
            String::from_str(self.fragment()),
            self.slash(),
            self.at(),
            self.colon(),
            self.question(),
            self.hashtag(),
            String::from_str("%"),
        ];
        assert(with@.len() == 20);
        assert(with@[0]@ == self@.parts.scheme);
        assert(with@[19]@ == seq!['%']);
        assert(with@.map_values(|c: String| c@) =~= replacements(self@));
        proof {
            assert(codes@.map_values(|c: String| c@).len() == codes@.len());
            assert(code_letters().len() == 20);
            assert(codes@.len() == 20);
            assert forall|i: int| 0 <= i < codes@.len() implies is_ascii_pair(#[trigger] codes@[i]@) by {
                assert(codes@[i]@ == codes_table()[i]);
                assert(codes_table()[i] =~= seq!['%', code_letters()[i]]);
            }
            assert forall|i: int, j: int| 0 <= i < j < codes@.len() implies codes@[i]@ != codes@[j]@ by {
                assert(codes@[i]@ == codes_table()[i]);
                assert(codes@[j]@ == codes_table()[j]);
                assert(codes_table()[i] =~= seq!['%', code_letters()[i]]);
                assert(codes_table()[j] =~= seq!['%', code_letters()[j]]);
                assert(code_letters()[i] != code_letters()[j]);
                assert(codes_table()[i][1] != codes_table()[j][1]);
            }
        }
        replace_codes(pat, &codes, &with)
    }
}

} // verus!
