//! Grouping of URLs that count as the same page: the batch is sorted by the
//! URL order, and each URL equal to the one kept before it is folded into that
//! one, its query pairs merged in.
use vstd::prelude::*;
use vstd::string::*;
use vstd::multiset::Multiset;
use vstd::seq_lib::{to_multiset_insert, to_multiset_remove};
use std::cmp::Ordering;
use crate::furl::{Furl, FurlView, furl_of, usable_parse};
use crate::order::{compare, lemma_compare_reverse};
use crate::text::{seq_cmp, cmp_str, str_equal, lemma_seq_cmp_equal};
use crate::weburl::{form_pairs, or_empty, parse_url, parsed_url, query_pairs, replace_query, url_with_query};

verus! {

/// A query pair as plain values.
pub open spec fn pair_view(p: (String, String)) -> (Seq<char>, Seq<char>) {
    (p.0@, p.1@)
}

/// `m`, kept ordered by key with one entry per key, after setting `k` to `v`.
pub open spec fn put(m: Seq<(Seq<char>, Seq<char>)>, k: Seq<char>, v: Seq<char>) -> Seq<
    (Seq<char>, Seq<char>),
>
    decreases m.len(),
{
    if m.len() == 0 {
        seq![(k, v)]
    } else if seq_cmp(m[0].0, k) == Ordering::Less {
        seq![m[0]] + put(m.drop_first(), k, v)
    } else if m[0].0 == k {
        seq![(k, v)] + m.drop_first()
    } else {
        seq![(k, v)] + m
    }
}

/// `m` after putting each pair in turn: a later value for a key wins.
pub open spec fn put_all(m: Seq<(Seq<char>, Seq<char>)>, pairs: Seq<(Seq<char>, Seq<char>)>) -> Seq<
    (Seq<char>, Seq<char>),
>
    decreases pairs.len(),
{
    if pairs.len() == 0 {
        m
    } else {
        put_all(put(m, pairs[0].0, pairs[0].1), pairs.drop_first())
    }
}

/// `key=value`.
pub open spec fn entry(p: (Seq<char>, Seq<char>)) -> Seq<char> {
    p.0 + seq!['='] + p.1
}

/// The entries joined by `&`.
pub open spec fn join_pairs(m: Seq<(Seq<char>, Seq<char>)>) -> Seq<char>
    decreases m.len(),
{
    if m.len() == 0 {
        Seq::empty()
    } else if m.len() == 1 {
        entry(m[0])
    } else {
        join_pairs(m.drop_last()) + seq!['&'] + entry(m.last())
    }
}

/// The query of the kept URL `b` merged with that of the later URL `a`:
/// the pairs of both, one per key in key order, `a`'s value winning.
pub open spec fn merged_query(b: FurlView, a: FurlView) -> Seq<char> {
    join_pairs(
        put_all(
            put_all(Seq::empty(), form_pairs(or_empty(b.parts.query))),
            form_pairs(or_empty(a.parts.query)),
        ),
    )
}

/// The kept URL `b` with its query replaced by the merged query (unchanged
/// if the URL crate does not give a URL back).
pub open spec fn merge_into(b: FurlView, a: FurlView) -> FurlView {
    match url_with_query(b.parts.serialization, merged_query(b, a)) {
        Some(s) => if usable_parse(parsed_url(s)) {
            furl_of(parsed_url(s)->0, b.had_explicit_scheme)
        } else {
            b
        },
        None => b,
    }
}

/// One pass over a sorted batch: a URL equal to the last one kept is folded
/// into it, any other is kept.
pub open spec fn merge_pass(s: Seq<FurlView>) -> Seq<FurlView>
    decreases s.len(),
{
    if s.len() == 0 {
        Seq::empty()
    } else {
        let prev = merge_pass(s.drop_last());
        let x = s.last();
        if prev.len() > 0 && compare(x, prev.last()) == Ordering::Equal {
            prev.update(prev.len() - 1, merge_into(prev.last(), x))
        } else {
            prev.push(x)
        }
    }
}

/// `a` does not order after `b`.
pub open spec fn in_order(a: FurlView, b: FurlView) -> bool {
    compare(a, b) != Ordering::Greater
}

/// No URL orders after the one that follows it.
pub open spec fn adjacent_sorted(s: Seq<FurlView>) -> bool {
    forall|i: int| 0 <= i < s.len() - 1 ==> #[trigger] in_order(s[i], s[i + 1])
}

pub open spec fn views(s: Seq<Furl>) -> Seq<FurlView> {
    s.map_values(|f: Furl| f@)
}

pub open spec fn all_wf(s: Seq<Furl>) -> bool {
    forall|i: int| 0 <= i < s.len() ==> (#[trigger] s[i]).wf()
}

/// Sets `k` to `v` in a list kept ordered by key. The list stands for an
/// ordered map from key to value: Verus accepts a `BTreeMap` keyed by
/// `String` but proves nothing of what such a map holds, so the order and the
/// one-entry-per-key rule are kept here and proved.
fn put_pair(m: &mut Vec<(String, String)>, k: String, v: String)
    ensures
        final(m)@.map_values(|p: (String, String)| pair_view(p)) == put(
            old(m)@.map_values(|p: (String, String)| pair_view(p)),
            k@,
            v@,
        ),
{
    let ghost m0 = m@.map_values(|p: (String, String)| pair_view(p));
    let mut i: usize = 0;
    assert(m0.skip(0) =~= m0);
    assert(m0.take(0) + put(m0.skip(0), k@, v@) =~= put(m0, k@, v@));
    while i < m.len() && matches!(cmp_str(m[i].0.as_str(), k.as_str()), Ordering::Less)
        invariant
            i <= m@.len(),
            m0 == m@.map_values(|p: (String, String)| pair_view(p)),
            put(m0, k@, v@) == m0.take(i as int) + put(m0.skip(i as int), k@, v@),
        decreases m@.len() - i,
    {
        proof {
            let t = m0.skip(i as int);
            assert(t[0] == m0[i as int]);
            assert(t.drop_first() =~= m0.skip(i + 1));
            assert(m0.take(i + 1) =~= m0.take(i as int) + seq![m0[i as int]]);
        }
        i = i + 1;
    }
    let ghost t = m0.skip(i as int);
    if i < m.len() && str_equal(m[i].0.as_str(), k.as_str()) {
        let _old = m.remove(i);
        m.insert(i, (k, v));
        proof {
            assert(t.drop_first() =~= m0.skip(i + 1));
        }
        assert(m@.map_values(|p: (String, String)| pair_view(p)) =~= m0.take(i as int) + (seq![(k@, v@)] + t.drop_first()));
    } else {
        proof {
            if i < m@.len() {
                lemma_seq_cmp_equal(m0[i as int].0, k@);
            }
        }
        m.insert(i, (k, v));
        assert(m@.map_values(|p: (String, String)| pair_view(p)) =~= m0.take(i as int) + (seq![(k@, v@)] + t));
    }
}

/// Puts each pair of `pairs` in turn.
fn put_each(m: &mut Vec<(String, String)>, pairs: Vec<(String, String)>)
    ensures
        final(m)@.map_values(|p: (String, String)| pair_view(p)) == put_all(
            old(m)@.map_values(|p: (String, String)| pair_view(p)),
            pairs@.map_values(|p: (String, String)| pair_view(p)),
        ),
{
    let ghost pv = pairs@.map_values(|p: (String, String)| pair_view(p));
    let ghost m0 = m@.map_values(|p: (String, String)| pair_view(p));
    let mut rest = pairs;
    let ghost mut i: int = 0;
    assert(pv.skip(0) =~= pv);
    while rest.len() > 0
        invariant
            0 <= i <= pv.len(),
            rest@.map_values(|p: (String, String)| pair_view(p)) == pv.skip(i),
            put_all(m0, pv) == put_all(m@.map_values(|p: (String, String)| pair_view(p)), pv.skip(i)),
        decreases rest@.len(),
    {
        let ghost before = rest@;
        let (k, v) = rest.remove(0);
        proof {
            assert(pv.skip(i)[0] == pair_view(before[0]));
            assert(pv.skip(i).drop_first() =~= pv.skip(i + 1));
            assert(rest@.map_values(|p: (String, String)| pair_view(p)) =~= pv.skip(i + 1));
            i = i + 1;
        }
        put_pair(m, k, v);
    }
    assert(pv.skip(i).len() == 0);
}

/// The entries `key=value` joined by `&`.
fn join_entries(m: &Vec<(String, String)>) -> (r: String)
    ensures
        r@ == join_pairs(m@.map_values(|p: (String, String)| pair_view(p))),
{
    let ghost mv = m@.map_values(|p: (String, String)| pair_view(p));
    proof {
        reveal_strlit("");
        reveal_strlit("=");
        reveal_strlit("&");
    }
    let mut out = String::from_str("");
    let mut i: usize = 0;
    while i < m.len()
        invariant
            i <= m@.len(),
            mv == m@.map_values(|p: (String, String)| pair_view(p)),
            out@ == join_pairs(mv.take(i as int)),
            "="@ == seq!['='],
            "&"@ == seq!['&'],
        decreases m@.len() - i,
    {
        if i > 0 {
            out.append("&");
        }
        out.append(m[i].0.as_str());
        out.append("=");
        out.append(m[i].1.as_str());
        assert(mv.take(i + 1).drop_last() =~= mv.take(i as int));
        assert(out@ =~= join_pairs(mv.take(i + 1)));
        i = i + 1;
    }
    assert(mv.take(i as int) =~= mv);
    out
}

impl Furl {
    /// The query of this URL merged with that of `later`, one pair per key in
    /// key order, `later`'s value winning.
    pub fn merged_query(&self, later: &Furl) -> (r: String)
        ensures
            r@ == merged_query(self@, later@),
    {
        let mut m: Vec<(String, String)> = Vec::new();
        assert(m@.map_values(|p: (String, String)| pair_view(p)) =~= Seq::empty());
        let first = query_pairs(self.query());
        assert(first@.map_values(|p: (String, String)| pair_view(p)) =~= first@.map_values(
            |p: (String, String)| (p.0@, p.1@),
        ));
        put_each(&mut m, first);
        let second = query_pairs(later.query());
        assert(second@.map_values(|p: (String, String)| pair_view(p)) =~= second@.map_values(
            |p: (String, String)| (p.0@, p.1@),
        ));
        put_each(&mut m, second);
        join_entries(&m)
    }

    /// This URL with the query pairs of `later` merged into its query.
    pub fn merge(self, later: &Furl) -> (r: Furl)
        requires
            self.wf(),
        ensures
            r@ == merge_into(self@, later@),
            r.wf(),
    {
        let q = self.merged_query(later);
        match replace_query(self.url(), q.as_str()) {
            Some(s) => match parse_url(s.as_str()) {
                Some(p) => if !p.cannot_be_a_base {
                    Furl::from_parts(p, self.had_explicit_scheme)
                } else {
                    self
                },
                None => self,
            },
            None => self,
        }
    }
}

/// Inserting `x` after the URLs that order after it and before the others
/// keeps a sorted batch sorted.
proof fn lemma_insert_sorted(o: Seq<Furl>, j: int, x: Furl)
    requires
        adjacent_sorted(views(o)),
        0 <= j <= o.len(),
        j > 0 ==> compare(o[j - 1]@, x@) != Ordering::Greater,
        j < o.len() ==> compare(o[j]@, x@) == Ordering::Greater,
    ensures
        adjacent_sorted(views(o.insert(j, x))),
{
    if j < o.len() {
        lemma_compare_reverse(o[j]@, x@);
    }
    let w = views(o.insert(j, x));
    let vo = views(o);
    assert forall|i: int| 0 <= i < w.len() - 1 implies #[trigger] in_order(w[i], w[i + 1]) by {
        if i + 1 < j {
            assert(w[i] == vo[i] && w[i + 1] == vo[i + 1]);
            assert(in_order(vo[i], vo[i + 1]));
        } else if i + 1 == j {
            assert(w[i] == o[i]@ && w[i + 1] == x@);
        } else if i == j {
            assert(w[i] == x@ && w[i + 1] == o[i]@);
        } else {
            let k = i - 1;
            assert(w[i] == vo[k] && w[i + 1] == vo[k + 1]);
            assert(in_order(vo[k], vo[k + 1]));
        }
    }
}

/// Every URL of `o` with `x` inserted is well formed when those of `o` and `x` are.
proof fn lemma_insert_wf(o: Seq<Furl>, j: int, x: Furl)
    requires
        all_wf(o),
        x.wf(),
        0 <= j <= o.len(),
    ensures
        all_wf(o.insert(j, x)),
{
    let w = o.insert(j, x);
    assert forall|k: int| 0 <= k < w.len() implies (#[trigger] w[k]).wf() by {
        if k < j {
            assert(w[k] == o[k]);
        } else if k > j {
            assert(w[k] == o[k - 1]);
        }
    }
}

/// Sorts a batch by the URL order; equal URLs keep their order.
pub fn sort_furls(v: Vec<Furl>) -> (r: Vec<Furl>)
    ensures
        r@.to_multiset() == v@.to_multiset(),
        adjacent_sorted(views(r@)),
        all_wf(v@) ==> all_wf(r@),
{
    let mut rest = v;
    let mut out: Vec<Furl> = Vec::new();
    proof {
        broadcast use vstd::seq_lib::group_to_multiset_ensures, vstd::multiset::group_multiset_axioms;
        assert(out@.to_multiset() =~= Multiset::empty());
        assert(out@.to_multiset().add(rest@.to_multiset()) =~= v@.to_multiset());
    }
    while rest.len() > 0
        invariant
            out@.to_multiset().add(rest@.to_multiset()) == v@.to_multiset(),
            adjacent_sorted(views(out@)),
            all_wf(v@) ==> all_wf(rest@) && all_wf(out@),
        decreases rest@.len(),
    {
        let ghost before = rest@;
        let x = rest.remove(0);
        proof {
            to_multiset_remove(before, 0);
            if all_wf(v@) {
                assert(x == before[0]);
                assert forall|k: int| 0 <= k < rest@.len() implies (#[trigger] rest@[k]).wf() by {
                    assert(rest@[k] == before[k + 1]);
                }
            }
        }
        let mut j = out.len();
        while j > 0 && matches!(out[j - 1].cmp(&x), Ordering::Greater)
            invariant
                j <= out@.len(),
                j < out@.len() ==> compare(out@[j as int]@, x@) == Ordering::Greater,
            decreases j,
        {
            j = j - 1;
        }
        let ghost o = out@;
        out.insert(j, x);
        proof {
            to_multiset_insert(o, j as int, x);
            lemma_insert_sorted(o, j as int, x);
            if all_wf(v@) {
                assert(before[0].wf());
                lemma_insert_wf(o, j as int, x);
            }
            broadcast use vstd::seq_lib::group_to_multiset_ensures, vstd::multiset::group_multiset_axioms;
            assert(before.contains(x) && before[0] == x);
            assert(out@.to_multiset().add(rest@.to_multiset()) =~= v@.to_multiset());
        }
    }
    proof {
        broadcast use vstd::seq_lib::group_to_multiset_ensures, vstd::multiset::group_multiset_axioms;
        assert(rest@.to_multiset() =~= Multiset::empty());
        assert(out@.to_multiset().add(rest@.to_multiset()) =~= out@.to_multiset());
    }
    out
}

/// Folds each URL that equals the last one kept into it.
pub fn merge_adjacent(v: Vec<Furl>) -> (r: Vec<Furl>)
    requires
        all_wf(v@),
    ensures
        views(r@) == merge_pass(views(v@)),
        all_wf(r@),
{
    let ghost vv = views(v@);
    let mut rest = v;
    let mut out: Vec<Furl> = Vec::new();
    let ghost mut i: int = 0;
    assert(vv.take(0) =~= Seq::<FurlView>::empty());
    assert(vv.skip(0) =~= vv);
    while rest.len() > 0
        invariant
            0 <= i <= vv.len(),
            views(rest@) == vv.skip(i),
            all_wf(rest@),
            all_wf(out@),
            views(out@) == merge_pass(vv.take(i)),
        decreases rest@.len(),
    {
        let ghost before = rest@;
        let x = rest.remove(0);
        proof {
            assert(before.len() > 0);
            assert(views(before).len() == before.len());
            assert(views(before)[0] == before[0]@);
            assert(vv.skip(i)[0] == vv[i]);
            assert(x@ == vv[i]);
            assert forall|k: int| 0 <= k < rest@.len() implies views(rest@)[k] == vv.skip(i + 1)[k] by {
                assert(rest@[k] == before[k + 1]);
                assert(0 <= k + 1 < views(before).len());
                assert(views(before)[k + 1] == before[k + 1]@);
                assert(vv.skip(i)[k + 1] == vv[i + k + 1]);
            }
            assert(views(rest@) =~= vv.skip(i + 1));
            assert(vv.take(i + 1).drop_last() =~= vv.take(i));
            assert(vv.take(i + 1).last() == vv[i]);
        }
        let n = out.len();
        if n > 0 && matches!(x.cmp(&out[n - 1]), Ordering::Equal) {
            let ghost o = out@;
            let last = out.pop().unwrap();
            let merged = last.merge(&x);
            out.push(merged);
            proof {
                assert(views(out@) =~= views(o).update(n - 1, merge_into(o[n - 1]@, x@)));
            }
        } else {
            let ghost o = out@;
            out.push(x);
            proof {
                assert(views(out@) =~= views(o).push(x@));
            }
        }
        proof {
            i = i + 1;
        }
    }
    assert(vv.take(i) =~= vv);
    out
}

/// Sorts a batch and folds together the URLs that count as the same page,
/// merging their query pairs.
pub fn dedup(v: Vec<Furl>) -> (r: Vec<Furl>)
    requires
        all_wf(v@),
    ensures
        exists|s: Seq<Furl>|
            s.to_multiset() == v@.to_multiset() && adjacent_sorted(views(s)) && views(r@) == merge_pass(
                views(s),
            ),
{
    let sorted = sort_furls(v);
    let ghost s = sorted@;
    let r = merge_adjacent(sorted);
    assert(s.to_multiset() == v@.to_multiset() && adjacent_sorted(views(s)) && views(r@) == merge_pass(views(s)));
    r
}

} // verus!
