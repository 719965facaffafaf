//! A builder of a line of text out of a string and a number.

use vstd::prelude::*;
use vstd::string::StringExecFns;
use crate::text::{push_decimal, spec_decimal};

verus! {

/// A string and a number, each of which may be missing.
#[derive(Debug)]
pub struct Builder {
    string: Option<String>,
    number: Option<usize>,
}

/// The mathematical value of a `Builder`.
pub ghost struct BuilderView {
    pub string: Option<Seq<char>>,
    pub number: Option<usize>,
}

/// The text of a builder: the string, then the number in decimal digits, with
/// a space in between where both are there.
pub open spec fn spec_text(builder: BuilderView) -> Seq<char> {
    match (builder.string, builder.number) {
        (Some(s), Some(n)) => s + seq![' '] + spec_decimal(n as nat),
        (Some(s), None) => s,
        (None, Some(n)) => spec_decimal(n as nat),
        (None, None) => Seq::empty(),
    }
}

impl View for Builder {
    type V = BuilderView;

    closed spec fn view(&self) -> BuilderView {
        BuilderView {
            string: match self.string {
                Some(s) => Some(s@),
                None => None,
            },
            number: self.number,
        }
    }
}

impl Builder {
    /// The builder with `s` as its string, in place of any it had.
    pub fn string(self, s: &str) -> (builder: Builder)
        ensures
            builder@ == (BuilderView { string: Some(s@), number: self@.number }),
    {
        let mut builder = self;
        builder.string = Some(s.to_owned());
        builder
    }

    /// The builder with `n` as its number, in place of any it had.
    pub fn number(self, n: usize) -> (builder: Builder)
        ensures
            builder@ == (BuilderView { string: self@.string, number: Some(n) }),
    {
        let mut builder = self;
        builder.number = Some(n);
        builder
    }

    /// The text of the builder.
    pub fn to_string(&self) -> (result: String)
        ensures
            result@ == spec_text(self@),
    {
        let mut result = String::new();
        if let Some(s) = &self.string {
            result.append(s.as_str());
            assert(result@ =~= s@);
            if self.number.is_some() {
                result.push(' ');
            }
        }
        if let Some(i) = self.number {
            push_decimal(&mut result, i as u64);
        }
        proof {
            assert(result@ =~= spec_text(self@));
        }
        result
    }
}

impl Default for Builder {
    /// A builder without a string and without a number.
    fn default() -> (builder: Builder)
        ensures
            builder@ == (BuilderView { string: None, number: None }),
    {
        Builder { string: None, number: None }
    }
}

} // verus!
