//! A two-valued judgment, written `good` or `bad`.

use std::rc::Rc;
use vstd::prelude::*;

use crate::chars::{ascii_lower, is_word_ignoring_case};
use crate::external::MyAny;
use crate::value::MoltValue;

verus! {

/// A judgment.
#[allow(non_camel_case_types)]
#[derive(Debug, PartialEq, Eq, Structural, Copy, Clone)]
pub enum Judgment {
    GOOD,
    BAD,
}

/// The text of a judgment.
pub open spec fn judgment_text(j: Judgment) -> Seq<char> {
    match j {
        Judgment::GOOD => "good"@,
        Judgment::BAD => "bad"@,
    }
}

/// The judgment that `s` reads as: `good` or `bad`, in any mix of cases.
pub open spec fn parse_judgment(s: Seq<char>) -> Option<Judgment> {
    if ascii_lower(s) == "good"@ {
        Some(Judgment::GOOD)
    } else if ascii_lower(s) == "bad"@ {
        Some(Judgment::BAD)
    } else {
        None
    }
}

/// The error for a text that is no judgment.
fn not_judgment() -> (r: String)
    ensures
        r@ == "Not a Judgment string"@,
{
    String::from_str("Not a Judgment string")
}

impl Judgment {
    /// The judgment held by `value`, or an error when its text is no judgment.
    pub fn from_molt(value: &mut MoltValue) -> (r: Result<Rc<Self>, String>)
        ensures
            match parse_judgment(old(value).text()) {
                Some(j) => r matches Ok(p) && *p == j,
                None => r is Err && r->Err_0@ == "Not a Judgment string"@,
            },
            final(value).text() == old(value).text(),
    {
        match value.as_other::<Judgment>() {
            Some(j) => Ok(j),
            None => Err(not_judgment()),
        }
    }

    /// The text of the judgment.
    pub fn to_string(&self) -> (s: String)
        ensures
            s@ == judgment_text(*self),
    {
        match self {
            Judgment::GOOD => String::from_str("good"),
            Judgment::BAD => String::from_str("bad"),
        }
    }

    /// The judgment that `s` reads as, as `parse_judgment` describes.
    pub fn parse(s: &str) -> (r: Option<Judgment>)
        ensures
            r == parse_judgment(s@),
    {
        if is_word_ignoring_case(s, "good") {
            Some(Judgment::GOOD)
        } else if is_word_ignoring_case(s, "bad") {
            Some(Judgment::BAD)
        } else {
            None
        }
    }
}

impl MyAny for Judgment {
    open spec fn tag_spec() -> Seq<char> {
        "Judgment"@
    }

    open spec fn text_spec(&self) -> Seq<char> {
        judgment_text(*self)
    }

    open spec fn parse_spec(s: Seq<char>) -> Option<Self> {
        parse_judgment(s)
    }

    fn tag() -> (r: &'static str) {
        "Judgment"
    }

    fn to_text(&self) -> (r: String) {
        self.to_string()
    }

    fn parse_text(s: &str) -> (r: Option<Self>) {
        Judgment::parse(s)
    }

    proof fn lemma_parse_text(v: Self) {
        reveal_strlit("good");
        reveal_strlit("bad");
        assert(ascii_lower("good"@) =~= "good"@);
        assert(ascii_lower("bad"@) =~= "bad"@);
    }
}

impl std::str::FromStr for Judgment {
    type Err = String;

    /// Reads `good` or `bad`, in any mix of cases.
    fn from_str(s: &str) -> Result<Self, Self::Err> {
        match Judgment::parse(s) {
            Some(j) => Ok(j),
            None => Err(not_judgment()),
        }
    }
}

} // verus!
