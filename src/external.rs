//! Host-defined types held inside values, and the type-erased handle that
//! carries one of them.

use std::rc::Rc;
use vstd::prelude::*;

use crate::chars::{same_text, share};

verus! {

/// What a host type provides to be held in a value: a name that identifies
/// the type, a text form, and a parser that reads every text form back.
///
/// Each implementing type gives a name that no other implementing type gives.
pub trait MyAny: Sized {
    /// The name that identifies the type.
    spec fn tag_spec() -> Seq<char>;

    /// The text form of a value.
    spec fn text_spec(&self) -> Seq<char>;

    /// The value that text `s` reads as, if any.
    spec fn parse_spec(s: Seq<char>) -> Option<Self>;

    /// The name that identifies the type.
    fn tag() -> (r: &'static str)
        ensures
            r@ == Self::tag_spec(),
    ;

    /// The text form of the value.
    fn to_text(&self) -> (r: String)
        ensures
            r@ == self.text_spec(),
    ;

    /// The value that `s` reads as, if any.
    fn parse_text(s: &str) -> (r: Option<Self>)
        ensures
            r == Self::parse_spec(s@),
    ;

    /// The parser reads every text form back as the value it came from.
    proof fn lemma_parse_text(v: Self)
        ensures
            Self::parse_spec(v.text_spec()) == Some(v),
    ;
}

/// Whether the shared handle `r` holds exactly what `v` holds.
pub open spec fn holds<T>(r: Option<Rc<T>>, v: Option<T>) -> bool {
    match (r, v) {
        (Some(p), Some(x)) => *p == x,
        (None, None) => true,
        _ => false,
    }
}

/// A value of some host type, with the type's name: the name is checked
/// before the value is read back as a given type. The value is kept as its
/// text, shared by every clone of the handle.
#[derive(Debug)]
pub struct MoltAny {
    tag: &'static str,
    text: Rc<String>,
}

impl MoltAny {
    /// The name of the type of the held value.
    pub closed spec fn name(&self) -> Seq<char> {
        self.tag@
    }

    /// The text of the held value.
    pub closed spec fn text(&self) -> Seq<char> {
        self.text@
    }

    /// Wraps `value`.
    pub fn new<T: MyAny>(value: &T) -> (r: MoltAny)
        ensures
            r.name() == T::tag_spec(),
            r.text() == value.text_spec(),
    {
        MoltAny { tag: T::tag(), text: Rc::new(value.to_text()) }
    }

    /// A handle for a value of type `T` whose text is `text`.
    pub fn with_text<T: MyAny>(text: Rc<String>) -> (r: MoltAny)
        ensures
            r.name() == T::tag_spec(),
            r.text() == text@,
    {
        MoltAny { tag: T::tag(), text }
    }

    /// Whether the held value is of type `T`.
    pub fn is<T: MyAny>(&self) -> (r: bool)
        ensures
            r == (self.name() == T::tag_spec()),
    {
        same_text(self.tag, T::tag())
    }

    /// The held value as a `T`: nothing when it is of another type.
    pub fn downcast<T: MyAny>(&self) -> (r: Option<Rc<T>>)
        ensures
            holds(r, if self.name() == T::tag_spec() {
                T::parse_spec(self.text())
            } else {
                None
            }),
    {
        if self.is::<T>() {
            match T::parse_text(self.text.as_str()) {
                Some(v) => Some(Rc::new(v)),
                None => None,
            }
        } else {
            None
        }
    }

    /// The text of the held value, shared.
    pub fn to_text(&self) -> (r: Rc<String>)
        ensures
            r@ == self.text(),
    {
        share(&self.text)
    }
}

impl Clone for MoltAny {
    /// Another handle to the same value.
    fn clone(&self) -> (r: Self)
        ensures
            r == *self,
    {
        MoltAny { tag: self.tag, text: share(&self.text) }
    }
}

} // verus!
