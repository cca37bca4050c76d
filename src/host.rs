//! Classification of a host name against the public suffix list: its suffix,
//! registrable root and prefix, and whether the suffix is ICANN-delegated or
//! privately registered.
use vstd::prelude::*;
use vstd::string::*;
use crate::text::{ends_with, last_index_of, lemma_last_index_bounds};

verus! {

/// What the public suffix list says of a DNS name, as plain values.
pub struct DnsView {
    pub full: Seq<char>,
    pub suffix: Option<Seq<char>>,
    pub is_icann: bool,
    pub is_private: bool,
}

/// A DNS name together with its public suffix and the suffix's kind.
#[derive(Debug, Clone)]
pub struct DnsName {
    pub full: String,
    pub suffix: Option<String>,
    pub is_icann: bool,
    pub is_private: bool,
}

impl View for DnsName {
    type V = DnsView;

    open spec fn view(&self) -> DnsView {
        DnsView {
            full: self.full@,
            suffix: match self.suffix {
                Some(s) => Some(s@),
                None => None,
            },
            is_icann: self.is_icann,
            is_private: self.is_private,
        }
    }
}

/// What `addr::parse_dns_name` makes of a host, if it accepts it as a DNS name.
pub uninterp spec fn dns_name(h: Seq<char>) -> Option<DnsView>;

/// The facts of the public suffix lookup that hold of every name: the name is
/// kept as given, the suffix is a tail of it, and the suffix has at most one
/// kind (none when there is no suffix).
pub open spec fn dns_shape(h: Seq<char>, d: DnsView) -> bool {
    &&& d.full == h
    &&& match d.suffix {
        Some(s) => ends_with(h, s),
        None => !d.is_icann && !d.is_private,
    }
    &&& !(d.is_icann && d.is_private)
}

/// Relies on `addr::parse_dns_name` and on the accessors `as_str`, `suffix`,
/// `is_icann` and `is_private` of the name it returns. The empty name is
/// refused.
#[verifier::external_body]
pub(crate) fn parse_dns(h: &str) -> (r: Option<DnsName>)
    ensures
        r matches Some(d) ==> dns_name(h@) == Some(d@) && dns_shape(h@, d@),
        r is None ==> dns_name(h@) is None,
        h@.len() == 0 ==> r is None,
{
    addr::parse_dns_name(h).ok().map(|n| DnsName {
        full: n.as_str().to_string(),
        suffix: n.suffix().map(|s| s.to_string()),
        is_icann: n.is_icann(),
        is_private: n.is_private(),
    })
}

/// The name without its suffix and the dot before it; nothing when the name
/// has no suffix or is only a suffix.
pub open spec fn without_suffix(d: DnsView) -> Option<Seq<char>> {
    match d.suffix {
        Some(s) => if s.len() < d.full.len() {
            Some(d.full.subrange(0, d.full.len() - s.len() - 1))
        } else {
            None
        },
        None => None,
    }
}

/// The registrable root: the last label before the suffix, with the suffix.
pub open spec fn root_of(d: DnsView) -> Option<Seq<char>> {
    match without_suffix(d) {
        Some(w) => {
            let offset = match last_index_of(w, '.') {
                Some(i) => i + 1,
                None => 0,
            };
            Some(d.full.subrange(offset, d.full.len() as int))
        },
        None => None,
    }
}

/// The labels before the root (the subdomain).
pub open spec fn prefix_of(d: DnsView) -> Option<Seq<char>> {
    match root_of(d) {
        Some(r) => if d.full.len() == r.len() {
            None
        } else {
            Some(d.full.subrange(0, d.full.len() - r.len() - 1))
        },
        None => None,
    }
}

/// A usable domain: an ICANN suffix under a registrable root, or a private
/// suffix (with or without a root, as the lenient policy has it).
pub open spec fn is_usable(d: DnsView) -> bool {
    (root_of(d) is Some && d.is_icann) || d.is_private
}

impl DnsName {
    pub open spec fn shaped(&self) -> bool {
        dns_shape(self.full@, self@)
    }

    fn without_suffix(&self) -> (r: Option<&str>)
        requires
            self.shaped(),
        ensures
            match r {
                Some(w) => without_suffix(self@) == Some(w@),
                None => without_suffix(self@) is None,
            },
    {
        match &self.suffix {
            Some(s) => {
                let n = self.full.as_str().unicode_len();
                let m = s.as_str().unicode_len();
                if m < n {
                    Some(self.full.as_str().substring_char(0, n - m - 1))
                } else {
                    None
                }
            },
            None => None,
        }
    }

    /// The registrable root (`example.com` of `www.example.com`).
    pub fn root(&self) -> (r: Option<&str>)
        requires
            self.shaped(),
        ensures
            match r {
                Some(x) => root_of(self@) == Some(x@),
                None => root_of(self@) is None,
            },
    {
        match self.without_suffix() {
            Some(w) => {
                let dot = last_dot(w);
                let offset = match dot {
                    Some(i) => i + 1,
                    None => 0,
                };
                let n = self.full.as_str().unicode_len();
                Some(self.full.as_str().substring_char(offset, n))
            },
            None => None,
        }
    }

    /// The labels before the root (`www` of `www.example.com`).
    pub fn prefix(&self) -> (r: Option<&str>)
        requires
            self.shaped(),
        ensures
            match r {
                Some(x) => prefix_of(self@) == Some(x@),
                None => prefix_of(self@) is None,
            },
    {
        proof {
            if let Some(w) = without_suffix(self@) {
                lemma_last_index_bounds(w, '.');
            }
        }
        match self.root() {
            Some(root) => {
                let n = self.full.as_str().unicode_len();
                let m = root.unicode_len();
                if n == m {
                    None
                } else {
                    Some(self.full.as_str().substring_char(0, n - m - 1))
                }
            },
            None => None,
        }
    }

    /// Whether the name is a usable domain.
    pub fn is_usable(&self) -> (r: bool)
        requires
            self.shaped(),
        ensures
            r == is_usable(self@),
    {
        (self.root().is_some() && self.is_icann) || self.is_private
    }
}

/// The position of the last `.` in `s`, if any.
fn last_dot(s: &str) -> (r: Option<usize>)
    ensures
        match r {
            Some(i) => last_index_of(s@, '.') == Some(i as int) && (i as int) < s@.len() && i
                < usize::MAX,
            None => last_index_of(s@, '.') is None,
        },
{
    let mut i = s.unicode_len();
    assert(s@.subrange(0, i as int) =~= s@);
    while i > 0
        invariant
            i <= s@.len(),
            s@.len() <= usize::MAX,
            last_index_of(s@, '.') == last_index_of(s@.subrange(0, i as int), '.'),
        decreases i,
    {
        if s.get_char(i - 1) == '.' {
            return Some(i - 1);
        }
        assert(s@.subrange(0, i as int).drop_last() =~= s@.subrange(0, i - 1));
        i = i - 1;
    }
    None
}

/// Classifies a host against the public suffix list; `None` when it is not a
/// DNS name.
pub fn classify(host: &str) -> (r: Option<DnsName>)
    ensures
        match r {
            Some(d) => dns_name(host@) == Some(d@) && d.shaped() && d.full@ == host@,
            None => dns_name(host@) is None,
        },
        host@.len() == 0 ==> r is None,
{
    parse_dns(host)
}

} // verus!
