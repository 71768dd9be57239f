//! Laws that relate the conversions of values to one another.

use vstd::prelude::*;

use crate::decimal::{decimal, lemma_parse_decimal, parse_decimal};
use crate::external::MyAny;
use crate::judgment::{parse_judgment, Judgment};
use crate::rgb::{rgb_text, RGB};
use crate::value::{int_result, MoltInt};

verus! {

/// Reading the string of an integer value as an integer gives the integer
/// back: the text `from_int(n)` gets is `decimal(n)`, and `as_int` on that
/// text returns `Ok(n)`.
pub proof fn lemma_int_round_trip(n: MoltInt)
    ensures
        parse_decimal(decimal(n)) == Some(n),
        int_result(decimal(n), Ok::<MoltInt, String>(n)),
{
    lemma_parse_decimal(n);
}

/// A host value read back as its own type is the value itself: the text
/// `from_other(v)` gets, and the text `v.to_text()` returns, both read as
/// `Some(v)`, so `as_other::<T>` returns `v` on a value made either way.
pub proof fn lemma_other_round_trip<T: MyAny>(v: T)
    ensures
        T::parse_spec(v.text_spec()) == Some(v),
{
    T::lemma_parse_text(v);
}

/// A color is never read as a judgment: the handle of a color names another
/// type, and the text of a color is no judgment, so `as_other::<Judgment>`
/// on a value holding a color returns nothing.
pub proof fn lemma_color_is_no_judgment(c: RGB)
    ensures
        <RGB as MyAny>::tag_spec() != <Judgment as MyAny>::tag_spec(),
        <Judgment as MyAny>::parse_spec(c.text_spec()) is None,
{
    reveal_strlit("RGB");
    reveal_strlit("Judgment");
    reveal_strlit("good");
    reveal_strlit("bad");
    assert("RGB"@.len() != "Judgment"@.len());
    let lowered = crate::chars::ascii_lower(rgb_text(c));
    assert(lowered[0] == '#');
    assert(lowered != "good"@ && lowered != "bad"@) by {
        assert("good"@[0] == 'g');
        assert("bad"@[0] == 'b');
    }
    assert(parse_judgment(rgb_text(c)) is None);
}

} // verus!
