//! Properties that relate several operations of the library, stated and
//! proved over the spec functions that the operations' contracts use.
use vstd::prelude::*;
use crate::furl::{
    FurlView, ParseFailure, normalized, https_prefix, usable_parse, path_of, mark_if, domain_of,
    subdomain_of, apex_of, name_of, suffix_of,
};
use crate::weburl::UrlView;
use crate::template::{code_index, codes_table, code_letters, render, replacements, substitute};
use crate::weburl::parsed_url;

verus! {

/// A token that does not parse on its own as a URL that can be a base
/// normalizes as the same token behind `https://` does: the same URL and
/// port, and so the same rendering of every pattern, except that only the
/// latter counts its scheme as explicit. When the strict policy refuses the
/// token's domain, it refuses the prefixed token's too.
pub proof fn lemma_implied_scheme(h: Seq<char>, strict: bool)
    ensures
        !usable_parse(parsed_url(h)) ==> {
            &&& normalized(h, strict) matches Ok(a) ==> {
                &&& normalized(https_prefix() + h, strict) matches Ok(b)
                &&& a.parts == b.parts
                &&& a.port == b.port
                &&& !a.had_explicit_scheme
                &&& b.had_explicit_scheme
                &&& forall|pat: Seq<char>| render(a, pat) == #[trigger] render(b, pat)
            }
            &&& normalized(h, strict) == Err::<FurlView, ParseFailure>(ParseFailure::InvalidDomain)
                ==> normalized(https_prefix() + h, strict) == Err::<FurlView, ParseFailure>(
                ParseFailure::InvalidDomain,
            )
        },
{
    if !usable_parse(parsed_url(h)) {
        if let Ok(a) = normalized(h, strict) {
            let b = normalized(https_prefix() + h, strict)->Ok_0;
            assert forall|pat: Seq<char>| render(a, pat) == #[trigger] render(b, pat) by {
                assert(replacements(a) == replacements(b));
            }
        }
    }
}

/// Without a usable domain every domain-derived field is empty.
pub proof fn lemma_no_domain_no_fields(v: UrlView)
    ensures
        domain_of(v).len() == 0 ==> {
            &&& subdomain_of(v).len() == 0
            &&& apex_of(v).len() == 0
            &&& name_of(v).len() == 0
            &&& suffix_of(v).len() == 0
        },
{
    if domain_of(v).len() == 0 {
        crate::text::lemma_last_index_bounds(domain_of(v), '.');
    }
}

proof fn lemma_code_absent(codes: Seq<Seq<char>>, w: Seq<char>)
    requires
        forall|i: int| 0 <= i < codes.len() ==> codes[i] != w,
    ensures
        code_index(codes, w) is None,
    decreases codes.len(),
{
    if codes.len() > 0 {
        lemma_code_absent(codes.drop_last(), w);
    }
}

proof fn lemma_code_found(codes: Seq<Seq<char>>, w: Seq<char>, j: int)
    requires
        0 <= j < codes.len(),
        codes[j] == w,
        forall|i: int| 0 <= i < j ==> codes[i] != w,
    ensures
        code_index(codes, w) == Some(j),
    decreases codes.len(),
{
    if j == codes.len() - 1 {
        lemma_code_absent(codes.drop_last(), w);
    } else {
        lemma_code_found(codes.drop_last(), w, j);
    }
}

/// The code `%c` stands at the index of `c` among the code letters.
proof fn lemma_code_of_letter(c: char, j: int)
    requires
        0 <= j < 20,
        code_letters()[j] == c,
        forall|i: int| 0 <= i < j ==> code_letters()[i] != c,
    ensures
        code_index(codes_table(), seq!['%', c]) == Some(j),
{
    assert forall|i: int| 0 <= i < j implies codes_table()[i] != seq!['%', c] by {
        assert(codes_table()[i] =~= seq!['%', code_letters()[i]]);
        assert(codes_table()[i][1] != seq!['%', c][1]);
    }
    assert(codes_table()[j] =~= seq!['%', c]);
    lemma_code_found(codes_table(), seq!['%', c], j);
}

/// No code begins with anything but `%`.
proof fn lemma_no_code(w: Seq<char>)
    requires
        w.len() == 2,
        w[0] != '%',
    ensures
        code_index(codes_table(), w) is None,
{
    assert forall|i: int| 0 <= i < codes_table().len() implies codes_table()[i] != w by {
        assert(codes_table()[i] =~= seq!['%', code_letters()[i]]);
        assert(codes_table()[i][0] != w[0]);
    }
    lemma_code_absent(codes_table(), w);
}

/// Substitution over a text that begins with a code: the code's value, then
/// the rest.
proof fn lemma_step_code(h: Seq<char>, c: char, j: int, with: Seq<Seq<char>>)
    requires
        h.len() >= 2,
        h[0] == '%',
        h[1] == c,
        code_index(codes_table(), seq!['%', c]) == Some(j),
    ensures
        substitute(h, codes_table(), with) == with[j] + substitute(
            h.subrange(2, h.len() as int),
            codes_table(),
            with,
        ),
{
    assert(h.subrange(0, 2) =~= seq!['%', c]);
}

/// Substitution over a text whose first two characters form no code: the
/// first character, then the rest.
proof fn lemma_step_plain(h: Seq<char>, with: Seq<Seq<char>>)
    requires
        h.len() >= 2,
        h[0] != '%',
    ensures
        substitute(h, codes_table(), with) == seq![h[0]] + substitute(
            h.subrange(1, h.len() as int),
            codes_table(),
            with,
        ),
{
    lemma_no_code(h.subrange(0, 2));
}

/// Rendering `%s%/%a%p` gives the scheme, `://` when the scheme is
/// non-empty, the authority and the path: for a URL with a scheme, exactly
/// scheme, `://`, authority and path.
pub proof fn lemma_render_round_trip(v: FurlView)
    ensures
        render(v, "%s%/%a%p"@) == v.parts.scheme + mark_if(v.parts.scheme, seq![':', '/', '/'])
            + v.parts.authority + path_of(v.parts),
        v.parts.scheme.len() > 0 ==> render(v, "%s%/%a%p"@) == v.parts.scheme + seq![':', '/', '/']
            + v.parts.authority + path_of(v.parts),
{
    reveal_strlit("%s%/%a%p");
    let h = "%s%/%a%p"@;
    let with = replacements(v);
    lemma_code_of_letter('s', 0);
    lemma_code_of_letter('/', 14);
    lemma_code_of_letter('a', 2);
    lemma_code_of_letter('p', 11);
    let t1 = h.subrange(2, 8);
    let t2 = t1.subrange(2, 6);
    let t3 = t2.subrange(2, 4);
    let t4 = t3.subrange(2, 2);
    lemma_step_code(t3, 'p', 11, with);
    lemma_step_code(t2, 'a', 2, with);
    lemma_step_code(t1, '/', 14, with);
    lemma_step_code(h, 's', 0, with);
    assert(substitute(t4, codes_table(), with) == t4);
    assert(t4 =~= Seq::<char>::empty());
    assert(render(v, h) =~= with[0] + with[14] + with[2] + with[11]);
}

/// `%%` renders as a single `%`: `100%% done` becomes `100% done`, whatever
/// the URL.
pub proof fn lemma_render_percent(v: FurlView)
    ensures
        render(v, "100%% done"@) == "100% done"@,
{
    reveal_strlit("100%% done");
    reveal_strlit("100% done");
    let with = replacements(v);
    let h = "100%% done"@;
    lemma_code_of_letter('%', 19);
    let s5 = h.subrange(5, 10);
    let s6 = h.subrange(6, 10);
    let s7 = h.subrange(7, 10);
    let s8 = h.subrange(8, 10);
    let s9 = h.subrange(9, 10);
    assert(substitute(s9, codes_table(), with) == s9);
    lemma_step_plain(s8, with);
    assert(s8.subrange(1, 2) =~= s9);
    lemma_step_plain(s7, with);
    assert(s7.subrange(1, 3) =~= s8);
    lemma_step_plain(s6, with);
    assert(s6.subrange(1, 4) =~= s7);
    lemma_step_plain(s5, with);
    assert(s5.subrange(1, 5) =~= s6);
    let s3 = h.subrange(3, 10);
    lemma_step_code(s3, '%', 19, with);
    assert(s3.subrange(2, 7) =~= s5);
    let s2 = h.subrange(2, 10);
    lemma_step_plain(s2, with);
    assert(s2.subrange(1, 8) =~= s3);
    let s1 = h.subrange(1, 10);
    lemma_step_plain(s1, with);
    assert(s1.subrange(1, 9) =~= s2);
    lemma_step_plain(h, with);
    assert(h.subrange(1, 10) =~= s1);
    assert(render(v, h) =~= "100% done"@);
}

} // verus!
