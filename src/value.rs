//! The value type: a string that may also carry a cached typed form.
//!
//! Every value has a text, its string form. A value made from a string keeps
//! that string; a value made from typed data computes its string on the first
//! request and keeps it from then on. Beside the string a value caches the
//! typed form it was last read as (an integer, a list, or a value of a host
//! type); reading it as another type parses the string and replaces that
//! cache. Only the last conversion is kept, so a value read alternately as two
//! types is parsed again each time.

use std::rc::Rc;
use vstd::prelude::*;

use crate::chars::{chars_of, same_text, share, string_of};
use crate::decimal::{decimal, format_decimal, lemma_parse_decimal, parse_decimal, read_decimal};
use crate::external::{holds, MoltAny, MyAny};
use crate::list_text::{element_text, push_element};

verus! {

/// An integer held by a value.
pub type MoltInt = i64;

/// A list held by a value: an ordered sequence of values.
pub type MoltList = Vec<MoltValue>;

/// The typed form that a value caches beside its string. A floating-point
/// number has no typed form here: it is held by its decimal text.
#[derive(Debug)]
pub enum Datum {
    /// An integer.
    Int(MoltInt),
    /// A shared list of values.
    List(Rc<MoltList>),
    /// A value of a host type.
    Other(MoltAny),
    /// No typed form at present.
    Absent,
}

/// A value: its string, once known, and the typed form last computed.
#[derive(Debug)]
pub struct MoltValue {
    string_rep: Option<Rc<String>>,
    data_rep: Datum,
}

/// How the list `items` is written: the texts of its first `n` elements,
/// each quoted as an element, separated by single spaces.
pub open spec fn items_text(items: Seq<MoltValue>, n: int) -> Seq<char>
    decreases items, n,
{
    if n <= 0 || n > items.len() {
        Seq::empty()
    } else if n == 1 {
        element_text(items[0].text())
    } else {
        items_text(items, n - 1) + seq![' '] + element_text(items[n - 1].text())
    }
}

/// The text of the list `items`.
pub open spec fn list_text(items: Seq<MoltValue>) -> Seq<char> {
    items_text(items, items.len() as int)
}

/// The integer that `text` reads as, or the error for a text that is no integer.
pub open spec fn int_result(text: Seq<char>, r: Result<MoltInt, String>) -> bool {
    match parse_decimal(text) {
        Some(n) => r == Ok::<MoltInt, String>(n),
        None => r is Err && r->Err_0@ == "Not an integer"@,
    }
}

impl MoltValue {
    /// The string the value holds, if it has one yet.
    pub closed spec fn string_rep(self) -> Option<Seq<char>> {
        match self.string_rep {
            Some(s) => Some(s@),
            None => None,
        }
    }

    /// The typed form the value caches.
    pub closed spec fn data_rep(self) -> Datum {
        self.data_rep
    }

    /// The value's text: its string, or the string its typed form gives.
    pub closed spec fn text(self) -> Seq<char>
        decreases self,
    {
        match self.string_rep {
            Some(s) => s@,
            None => match self.data_rep {
                Datum::Int(n) => decimal(n),
                Datum::List(l) => items_text(l@, l@.len() as int),
                Datum::Other(h) => h.text(),
                Datum::Absent => Seq::empty(),
            },
        }
    }

    /// A value whose string is `s`, with no typed form yet.
    pub fn from_string(s: String) -> (r: MoltValue)
        ensures
            r.string_rep() == Some(s@),
            r.data_rep() is Absent,
            r.text() == s@,
    {
        MoltValue { string_rep: Some(Rc::new(s)), data_rep: Datum::Absent }
    }

    /// A value holding the integer `n`; its string is computed when first asked for.
    pub fn from_int(n: MoltInt) -> (r: MoltValue)
        ensures
            r.string_rep() is None,
            r.data_rep() == Datum::Int(n),
            r.text() == decimal(n),
    {
        MoltValue { string_rep: None, data_rep: Datum::Int(n) }
    }

    /// A value holding the list `list`; its string is computed when first asked for.
    pub fn from_list(list: MoltList) -> (r: MoltValue)
        ensures
            r.string_rep() is None,
            r.data_rep() matches Datum::List(l) && l@ == list@,
            r.text() == list_text(list@),
    {
        MoltValue { string_rep: None, data_rep: Datum::List(Rc::new(list)) }
    }

    /// A value holding `value` of a host type; its string is the type's text
    /// form of it, computed when first asked for.
    pub fn from_other<T: MyAny>(value: T) -> (r: MoltValue)
        ensures
            r.string_rep() is None,
            r.data_rep() matches Datum::Other(h) && h.name() == T::tag_spec() && h.text()
                == value.text_spec(),
            r.text() == value.text_spec(),
    {
        MoltValue { string_rep: None, data_rep: Datum::Other(MoltAny::new(&value)) }
    }

    /// The value's text as a new string, leaving the value as it is.
    pub fn to_string(&self) -> (r: String)
        ensures
            r@ == self.text(),
        decreases self,
    {
        match &self.string_rep {
            Some(s) => {
                let t: &String = s;
                t.clone()
            },
            None => match &self.data_rep {
                Datum::Int(n) => string_of(&format_decimal(*n)),
                Datum::Other(h) => {
                    let t = h.to_text();
                    let u: &String = &t;
                    u.clone()
                },
                Datum::Absent => String::new(),
                Datum::List(l) => {
                    let items: &MoltList = l;
                    let mut out: Vec<char> = Vec::new();
                    let mut i: usize = 0;
                    while i < items.len()
                        invariant
                            i <= items@.len(),
                            out@ == items_text(items@, i as int),
                            items@ == l@,
                            self.string_rep is None,
                            self.data_rep == Datum::List(*l),
                        decreases items@.len() - i,
                    {
                        if i > 0 {
                            out.push(' ');
                        }
                        proof {
                            assert(decreases_to!(self => self.data_rep));
                            assert(decreases_to!(self.data_rep => self.data_rep->List_0));
                            assert(decreases_to!(*items => items@));
                            assert(decreases_to!(items@ => items@[i as int]));
                            assert(decreases_to!(self => items@[i as int]));
                        }
                        let t = items[i].to_string();
                        push_element(&mut out, &chars_of(t.as_str()));
                        i = i + 1;
                    }
                    string_of(&out)
                },
            },
        }
    }

    /// The value's string, shared. A value without a string computes it from
    /// its typed form and keeps it: from then on every call returns that same
    /// string, and the typed form stays as it was.
    pub fn as_string(&mut self) -> (r: Rc<String>)
        ensures
            r@ == old(self).text(),
            final(self).string_rep() == Some(r@),
            final(self).data_rep() == old(self).data_rep(),
            final(self).text() == old(self).text(),
    {
        proof {
            use_type_invariant(&*self);
        }
        if let Some(s) = &self.string_rep {
            return share(s);
        }
        let s = Rc::new(self.to_string());
        proof {
            if let Datum::Int(n) = self.data_rep {
                lemma_parse_decimal(n);
            }
        }
        self.string_rep = Some(share(&s));
        s
    }

    /// The value read as an integer: the cached integer if there is one, else
    /// its string (computed first if need be) parsed as an integer, which on
    /// success becomes the cached typed form. The string is never changed.
    pub fn as_int(&mut self) -> (r: Result<MoltInt, String>)
        ensures
            int_result(old(self).text(), r),
            final(self).text() == old(self).text(),
            old(self).string_rep() is Some ==> final(self).string_rep() == old(self).string_rep(),
            old(self).data_rep() is Int ==> *final(self) == *old(self),
            !(old(self).data_rep() is Int) ==> final(self).string_rep() == Some(old(self).text()),
            final(self).data_rep() == match parse_decimal(old(self).text()) {
                Some(n) => Datum::Int(n),
                None => old(self).data_rep(),
            },
    {
        proof {
            use_type_invariant(&*self);
        }
        if let Datum::Int(n) = self.data_rep {
            proof {
                lemma_parse_decimal(n);
            }
            return Ok(n);
        }
        let s = self.as_string();
        let t: &String = &s;
        match read_decimal(&chars_of(t.as_str())) {
            Some(n) => {
                self.data_rep = Datum::Int(n);
                Ok(n)
            },
            None => Err(String::from_str("Not an integer")),
        }
    }

    /// The cached list, or an error when the value holds no list. (A string
    /// is never parsed as a list.)
    pub fn as_list(&self) -> (r: Result<Rc<MoltList>, String>)
        ensures
            match self.data_rep() {
                Datum::List(l) => r == Ok::<Rc<MoltList>, String>(l),
                _ => r is Err && r->Err_0@ == "Not a list"@,
            },
    {
        match &self.data_rep {
            Datum::List(l) => Ok(share(l)),
            _ => Err(String::from_str("Not a list")),
        }
    }

    /// The value read as a `T`: the cached value if it is a `T`, else its
    /// string (computed first if need be) parsed by `T`, which on success
    /// becomes the cached typed form. Nothing when the string is no `T`.
    /// The string is never changed.
    pub fn as_other<T: MyAny>(&mut self) -> (r: Option<Rc<T>>)
        ensures
            holds(r, T::parse_spec(old(self).text())),
            final(self).text() == old(self).text(),
            old(self).string_rep() is Some ==> final(self).string_rep() == old(self).string_rep(),
            T::parse_spec(old(self).text()) is None ==> final(self).data_rep() == old(
                self,
            ).data_rep(),
            T::parse_spec(old(self).text()) is Some ==> (final(self).data_rep() matches Datum::Other(
                h,
            ) && h.name() == T::tag_spec() && h.text() == old(self).text()),
            final(self).string_rep() is Some || *final(self) == *old(self),
    {
        proof {
            use_type_invariant(&*self);
        }
        if let Datum::Other(h) = &self.data_rep {
            let found = h.downcast::<T>();
            if found.is_some() {
                return found;
            }
        }
        let s = self.as_string();
        let t: &String = &s;
        match T::parse_text(t.as_str()) {
            Some(v) => {
                self.data_rep = Datum::Other(MoltAny::with_text::<T>(share(&s)));
                Some(Rc::new(v))
            },
            None => None,
        }
    }

    /// The value read as a `T`, as `as_other` does, returned by copy.
    pub fn as_copy<T: MyAny + Copy>(&mut self) -> (r: Option<T>)
        ensures
            r == T::parse_spec(old(self).text()),
            final(self).text() == old(self).text(),
            old(self).string_rep() is Some ==> final(self).string_rep() == old(self).string_rep(),
    {
        match self.as_other::<T>() {
            Some(p) => Some(*p),
            None => None,
        }
    }

    /// A string held beside a typed form is the text of that form.
    #[verifier::type_invariant]
    spec fn consistent(self) -> bool {
        match (self.string_rep, self.data_rep) {
            (Some(s), Datum::Int(n)) => parse_decimal(s@) == Some(n),
            (Some(s), Datum::Other(h)) => s@ == h.text(),
            _ => true,
        }
    }
}

/// Once a value holds a string, its text is that string. As `as_string`
/// stores the text it returns, and no operation changes a stored string,
/// every later request returns that same string.
pub proof fn lemma_string_stable(v: MoltValue)
    ensures
        v.string_rep() matches Some(s) ==> v.text() == s,
{
}

impl Clone for Datum {
    /// The same typed form; a list is shared, not copied.
    fn clone(&self) -> (r: Self)
        ensures
            r == *self,
    {
        match self {
            Datum::Int(n) => Datum::Int(*n),
            Datum::List(l) => Datum::List(share(l)),
            Datum::Other(h) => Datum::Other(h.clone()),
            Datum::Absent => Datum::Absent,
        }
    }
}

impl Clone for MoltValue {
    /// The same value; its string and typed form are shared, not copied.
    fn clone(&self) -> (r: Self)
        ensures
            r == *self,
    {
        proof {
            use_type_invariant(self);
        }
        let string_rep = match &self.string_rep {
            Some(s) => Some(share(s)),
            None => None,
        };
        MoltValue { string_rep, data_rep: self.data_rep.clone() }
    }
}

impl PartialEq for MoltValue {
    /// Two values are equal when their texts are.
    fn eq(&self, other: &MoltValue) -> (r: bool)
        ensures
            r == (self.text() == other.text()),
    {
        let a = self.to_string();
        let b = other.to_string();
        same_text(a.as_str(), b.as_str())
    }
}

impl vstd::std_specs::cmp::PartialEqSpecImpl for MoltValue {
    open spec fn obeys_eq_spec() -> bool {
        true
    }

    open spec fn eq_spec(&self, other: &MoltValue) -> bool {
        self.text() == other.text()
    }
}

} // verus!
