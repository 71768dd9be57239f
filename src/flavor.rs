//! A two-valued flavor, written `salty` or `sweet`.

use std::rc::Rc;
use vstd::prelude::*;

use crate::chars::{ascii_lower, is_word_ignoring_case};
use crate::external::MyAny;
use crate::value::MoltValue;

verus! {

/// A flavor.
#[allow(non_camel_case_types)]
#[derive(Debug, PartialEq, Eq, Structural, Copy, Clone)]
pub enum Flavor {
    SALTY,
    SWEET,
}

/// The text of a flavor.
pub open spec fn flavor_text(j: Flavor) -> Seq<char> {
    match j {
        Flavor::SALTY => "salty"@,
        Flavor::SWEET => "sweet"@,
    }
}

/// The flavor that `s` reads as: `salty` or `sweet`, in any mix of cases.
pub open spec fn parse_flavor(s: Seq<char>) -> Option<Flavor> {
    if ascii_lower(s) == "salty"@ {
        Some(Flavor::SALTY)
    } else if ascii_lower(s) == "sweet"@ {
        Some(Flavor::SWEET)
    } else {
        None
    }
}

/// The error for a text that is no flavor.
fn not_flavor() -> (r: String)
    ensures
        r@ == "Not a flavor string"@,
{
    String::from_str("Not a flavor string")
}

impl Flavor {
    /// The flavor held by `value`, or an error when its text is no flavor.
    pub fn from_molt(value: &mut MoltValue) -> (r: Result<Rc<Self>, String>)
        ensures
            match parse_flavor(old(value).text()) {
                Some(j) => r matches Ok(p) && *p == j,
                None => r is Err && r->Err_0@ == "Not a flavor string"@,
            },
            final(value).text() == old(value).text(),
    {
        match value.as_other::<Flavor>() {
            Some(j) => Ok(j),
            None => Err(not_flavor()),
        }
    }

    /// The text of the flavor.
    pub fn to_string(&self) -> (s: String)
        ensures
            s@ == flavor_text(*self),
    {
        match self {
            Flavor::SALTY => String::from_str("salty"),
            Flavor::SWEET => String::from_str("sweet"),
        }
    }

    /// The flavor that `s` reads as, as `parse_flavor` describes.
    pub fn parse(s: &str) -> (r: Option<Flavor>)
        ensures
            r == parse_flavor(s@),
    {
        if is_word_ignoring_case(s, "salty") {
            Some(Flavor::SALTY)
        } else if is_word_ignoring_case(s, "sweet") {
            Some(Flavor::SWEET)
        } else {
            None
        }
    }
}

impl MyAny for Flavor {
    open spec fn tag_spec() -> Seq<char> {
        "Flavor"@
    }

    open spec fn text_spec(&self) -> Seq<char> {
        flavor_text(*self)
    }

    open spec fn parse_spec(s: Seq<char>) -> Option<Self> {
        parse_flavor(s)
    }

    fn tag() -> (r: &'static str) {
        "Flavor"
    }

    fn to_text(&self) -> (r: String) {
        self.to_string()
    }

    fn parse_text(s: &str) -> (r: Option<Self>) {
        Flavor::parse(s)
    }

    proof fn lemma_parse_text(v: Self) {
        reveal_strlit("salty");
        reveal_strlit("sweet");
        assert(ascii_lower("salty"@) =~= "salty"@);
        assert(ascii_lower("sweet"@) =~= "sweet"@);
        assert("sweet"@[1] != "salty"@[1]);
    }
}

impl std::str::FromStr for Flavor {
    type Err = String;

    /// Reads `salty` or `sweet`, in any mix of cases.
    fn from_str(s: &str) -> Result<Self, Self::Err> {
        match Flavor::parse(s) {
            Some(j) => Ok(j),
            None => Err(not_flavor()),
        }
    }
}

} // verus!
