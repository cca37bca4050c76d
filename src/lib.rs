//! Decomposition of URL-like strings into named fields, rendering of those
//! fields through a placeholder template, and grouping of near-identical URLs.
use vstd::prelude::*;

pub mod text;
pub mod weburl;
pub mod host;
pub mod furl;
pub mod template;
pub mod order;
pub mod dedup;
pub mod fields;
pub mod laws;

pub use dedup::{dedup, merge_adjacent, sort_furls};
pub use fields::{Field, Mode, field_for_name, mode_for, normalize_all, normalize_all_with};
pub use furl::{Furl, ParseFailure};
pub use host::{DnsName, classify};

use fields::mode_of;

verus! {

/// The command line: a pattern (`dedup`, a field name or alias, or a
/// template) and the tokens to read besides standard input.
pub struct Opt {
    pub pattern: String,
    pub args: Vec<String>,
}

impl Opt {
    /// What the run does with its pattern.
    pub fn mode(&self) -> (r: Mode)
        ensures
            r == mode_of(self.pattern@),
    {
        mode_for(self.pattern.as_str())
    }
}

} // verus!
