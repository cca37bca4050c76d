//! The order that decides which normalized URLs count as the same page:
//! scheme, then authority, then the path segments that are not all digits,
//! where paths of equal length that differ in at most one segment are equal.
use vstd::prelude::*;
use vstd::string::*;
use std::cmp::Ordering;
use crate::furl::{Furl, FurlView};
use crate::text::{seq_cmp, cmp_str, str_equal, reverse, lemma_seq_cmp_reverse};
use crate::weburl::{significant_segments, significant_segments_of};

verus! {

/// How many of the first `n` positions hold different segments.
pub open spec fn count_diff(a: Seq<Seq<char>>, b: Seq<Seq<char>>, n: int) -> nat
    decreases n,
{
    if n <= 0 {
        0
    } else {
        count_diff(a, b, n - 1) + if a[n - 1] != b[n - 1] {
            1nat
        } else {
            0nat
        }
    }
}

/// The first of the first `n` positions that holds different segments, or
/// `n` when there is none.
pub open spec fn first_diff(a: Seq<Seq<char>>, b: Seq<Seq<char>>, n: int) -> int
    decreases n,
{
    if n <= 0 {
        0
    } else {
        let f = first_diff(a, b, n - 1);
        if f < n - 1 {
            f
        } else if a[n - 1] != b[n - 1] {
            n - 1
        } else {
            n
        }
    }
}

pub open spec fn cmp_int(a: int, b: int) -> Ordering {
    if a < b {
        Ordering::Less
    } else if a > b {
        Ordering::Greater
    } else {
        Ordering::Equal
    }
}

/// Segment lists: the shorter first; of equal length, equal unless two or
/// more positions differ, and then ordered by the first difference.
pub open spec fn segments_cmp(a: Seq<Seq<char>>, b: Seq<Seq<char>>) -> Ordering {
    if a.len() == b.len() {
        if count_diff(a, b, a.len() as int) > 1 {
            let f = first_diff(a, b, a.len() as int);
            seq_cmp(a[f], b[f])
        } else {
            Ordering::Equal
        }
    } else {
        cmp_int(a.len() as int, b.len() as int)
    }
}

/// Optional segment lists: a URL without segments sorts first.
pub open spec fn paths_cmp(a: Option<Seq<Seq<char>>>, b: Option<Seq<Seq<char>>>) -> Ordering {
    match (a, b) {
        (Some(x), Some(y)) => segments_cmp(x, y),
        (None, None) => Ordering::Equal,
        (Some(_), None) => Ordering::Greater,
        (None, Some(_)) => Ordering::Less,
    }
}

/// The order of normalized URLs.
#[verifier::opaque]
pub open spec fn compare(a: FurlView, b: FurlView) -> Ordering {
    match seq_cmp(a.parts.scheme, b.parts.scheme) {
        Ordering::Equal => match seq_cmp(a.parts.authority, b.parts.authority) {
            Ordering::Equal => paths_cmp(
                significant_segments(a.parts.path),
                significant_segments(b.parts.path),
            ),
            o => o,
        },
        o => o,
    }
}

proof fn lemma_count_monotone(a: Seq<Seq<char>>, b: Seq<Seq<char>>, n: int, m: int)
    requires
        0 <= n <= m,
    ensures
        count_diff(a, b, n) <= count_diff(a, b, m),
    decreases m - n,
{
    if n < m {
        lemma_count_monotone(a, b, n, m - 1);
    }
}

proof fn lemma_first_stable(a: Seq<Seq<char>>, b: Seq<Seq<char>>, n: int, m: int)
    requires
        0 <= n <= m,
        first_diff(a, b, n) < n,
    ensures
        first_diff(a, b, m) == first_diff(a, b, n),
    decreases m - n,
{
    if n < m {
        lemma_first_stable(a, b, n, m - 1);
    }
}

proof fn lemma_first_bound(a: Seq<Seq<char>>, b: Seq<Seq<char>>, n: int)
    requires
        0 <= n,
    ensures
        0 <= first_diff(a, b, n) <= n,
        first_diff(a, b, n) < n ==> a[first_diff(a, b, n)] != b[first_diff(a, b, n)],
        first_diff(a, b, n) == n <==> count_diff(a, b, n) == 0,
    decreases n,
{
    if n > 0 {
        lemma_first_bound(a, b, n - 1);
    }
}

proof fn lemma_diff_symmetric(a: Seq<Seq<char>>, b: Seq<Seq<char>>, n: int)
    ensures
        count_diff(a, b, n) == count_diff(b, a, n),
        first_diff(a, b, n) == first_diff(b, a, n),
    decreases n,
{
    if n > 0 {
        lemma_diff_symmetric(a, b, n - 1);
    }
}

/// Comparing two URLs the other way round gives the reverse answer.
pub proof fn lemma_compare_reverse(a: FurlView, b: FurlView)
    ensures
        compare(b, a) == reverse(compare(a, b)),
{
    reveal(compare);
    lemma_seq_cmp_reverse(a.parts.scheme, b.parts.scheme);
    lemma_seq_cmp_reverse(a.parts.authority, b.parts.authority);
    let sa = significant_segments(a.parts.path);
    let sb = significant_segments(b.parts.path);
    if let (Some(x), Some(y)) = (sa, sb) {
        if x.len() == y.len() {
            lemma_diff_symmetric(x, y, x.len() as int);
            lemma_first_bound(x, y, x.len() as int);
            let f = first_diff(x, y, x.len() as int);
            if 0 <= f < x.len() {
                lemma_seq_cmp_reverse(x[f], y[f]);
            }
        }
    }
}

/// Compares two segment lists.
fn segments_order(sp: &Vec<String>, op: &Vec<String>) -> (r: Ordering)
    ensures
        r == segments_cmp(sp@.map_values(|x: String| x@), op@.map_values(|x: String| x@)),
{
    let ghost a = sp@.map_values(|x: String| x@);
    let ghost b = op@.map_values(|x: String| x@);
    if sp.len() != op.len() {
        return if sp.len() < op.len() {
            Ordering::Less
        } else {
            Ordering::Greater
        };
    }
    let n = sp.len();
    let mut diff: usize = 0;
    let mut o = Ordering::Equal;
    let mut i: usize = 0;
    while i < n
        invariant
            n == sp@.len(),
            n == op@.len(),
            a == sp@.map_values(|x: String| x@),
            b == op@.map_values(|x: String| x@),
            i <= n,
            diff == count_diff(a, b, i as int),
            diff <= 1,
            diff == 1 ==> first_diff(a, b, i as int) < i && o == seq_cmp(
                a[first_diff(a, b, i as int)],
                b[first_diff(a, b, i as int)],
            ),
        decreases n - i,
    {
        proof {
            lemma_first_bound(a, b, i as int);
        }
        let same = str_equal(sp[i].as_str(), op[i].as_str());
        assert(a[i as int] == sp@[i as int]@ && b[i as int] == op@[i as int]@);
        if !same {
            diff = diff + 1;
            if diff == 1 {
                o = cmp_str(sp[i].as_str(), op[i].as_str());
            } else {
                proof {
                    lemma_count_monotone(a, b, i + 1, n as int);
                    lemma_first_stable(a, b, i + 1, n as int);
                }
                return o;
            }
        }
        i = i + 1;
    }
    Ordering::Equal
}

impl Furl {
    /// The order of normalized URLs: by scheme, then authority, then the
    /// path segments that are not all digits.
    pub fn cmp(&self, other: &Furl) -> (r: Ordering)
        ensures
            r == compare(self@, other@),
    {
        proof {
            reveal(compare);
        }
        match cmp_str(self.scheme(), other.scheme()) {
            Ordering::Equal => match cmp_str(self.authority(), other.authority()) {
                Ordering::Equal => {
                    match (
                        significant_segments_of(self.parts.path.as_str()),
                        significant_segments_of(other.parts.path.as_str()),
                    ) {
                        (Some(sp), Some(op)) => segments_order(&sp, &op),
                        (None, None) => Ordering::Equal,
                        (Some(_), None) => Ordering::Greater,
                        (None, Some(_)) => Ordering::Less,
                    }
                },
                o => o,
            },
            o => o,
        }
    }
}

impl PartialEq for Furl {
    /// Two URLs are equal when neither orders before the other.
    fn eq(&self, other: &Furl) -> (r: bool) {
        match self.cmp(other) {
            Ordering::Equal => true,
            _ => false,
        }
    }
}

impl vstd::std_specs::cmp::PartialEqSpecImpl for Furl {
    open spec fn obeys_eq_spec() -> bool {
        true
    }

    open spec fn eq_spec(&self, other: &Furl) -> bool {
        compare(self@, other@) == Ordering::Equal
    }
}

impl PartialOrd for Furl {
    fn partial_cmp(&self, other: &Furl) -> (r: Option<Ordering>) {
        Some(self.cmp(other))
    }
}

impl vstd::std_specs::cmp::PartialOrdSpecImpl for Furl {
    open spec fn obeys_partial_cmp_spec() -> bool {
        true
    }

    open spec fn partial_cmp_spec(&self, other: &Furl) -> Option<Ordering> {
        Some(compare(self@, other@))
    }
}

} // verus!
