//! A pair of 32-bit integers, written `(first,second)`.

use vstd::prelude::*;

use crate::chars::{chars_of, string_of};
use crate::decimal::{decimal, format_decimal, lemma_parse_decimal, parse_decimal, read_decimal};
use crate::external::{MoltAny, MyAny};

verus! {

/// A pair of integers.
#[derive(Debug, PartialEq, Eq, Structural, Hash, Clone)]
pub struct MoltPair {
    pub f1: i32,
    pub f2: i32,
}

/// The text of `p`: both integers in decimal, separated by a comma, in parentheses.
pub open spec fn pair_text(p: MoltPair) -> Seq<char> {
    seq!['('] + decimal(p.f1 as i64) + seq![','] + decimal(p.f2 as i64) + seq![')']
}

/// The 32-bit integer that `s` reads as.
pub open spec fn parse_i32(s: Seq<char>) -> Option<i32> {
    match parse_decimal(s) {
        Some(n) => if i32::MIN <= n <= i32::MAX {
            Some(n as i32)
        } else {
            None
        },
        None => None,
    }
}

/// Whether `s` holds no comma.
pub open spec fn no_comma(s: Seq<char>) -> bool {
    forall|i: int| 0 <= i < s.len() ==> #[trigger] s[i] != ','
}

/// Whether `k` is the position of the first comma in `s`.
pub open spec fn first_comma(s: Seq<char>, k: int) -> bool {
    0 <= k < s.len() && s[k] == ',' && no_comma(s.subrange(0, k))
}

/// The pair that `s` reads as: `(`, an integer, `,`, an integer, `)`, with
/// nothing else; each integer as `parse_i32` reads it.
pub open spec fn parse_pair(s: Seq<char>) -> Option<MoltPair> {
    let inner = s.subrange(1, s.len() - 1);
    if s.len() >= 2 && s[0] == '(' && s[s.len() - 1] == ')' && exists|k: int|
        first_comma(inner, k) {
        let k = choose|k: int| first_comma(inner, k);
        match (parse_i32(inner.subrange(0, k)), parse_i32(inner.subrange(k + 1, inner.len() as int))) {
            (Some(f1), Some(f2)) => Some(MoltPair { f1, f2 }),
            _ => None,
        }
    } else {
        None
    }
}

proof fn lemma_first_comma_unique(s: Seq<char>, j: int, k: int)
    requires
        first_comma(s, j),
        first_comma(s, k),
    ensures
        j == k,
{
    if j < k {
        assert(s.subrange(0, k)[j] == ',');
    } else if k < j {
        assert(s.subrange(0, j)[k] == ',');
    }
}

proof fn lemma_digits_no_comma(n: nat)
    ensures
        no_comma(crate::decimal::digits_of(n)),
    decreases n,
{
    if n >= 10 {
        lemma_digits_no_comma(n / 10);
    }
}

fn read_i32(s: &Vec<char>) -> (r: Option<i32>)
    ensures
        r == parse_i32(s@),
{
    match read_decimal(s) {
        Some(n) => if -2147483648 <= n && n <= 2147483647 {
            Some(n as i32)
        } else {
            None
        },
        None => None,
    }
}

fn slice_of(s: &Vec<char>, from: usize, to: usize) -> (r: Vec<char>)
    requires
        from <= to <= s@.len(),
    ensures
        r@ == s@.subrange(from as int, to as int),
{
    let mut out: Vec<char> = Vec::new();
    let mut i = from;
    while i < to
        invariant
            from <= i <= to <= s@.len(),
            out@ == s@.subrange(from as int, i as int),
        decreases to - i,
    {
        out.push(s[i]);
        assert(s@.subrange(from as int, i + 1) =~= s@.subrange(from as int, i as int).push(
            s@[i as int],
        ));
        i = i + 1;
    }
    out
}

impl MoltPair {
    /// The pair of `f1` and `f2`.
    pub fn new(f1: i32, f2: i32) -> (r: Self)
        ensures
            r.f1 == f1,
            r.f2 == f2,
    {
        Self { f1, f2 }
    }

    /// The text of the pair, as `pair_text` gives it.
    pub fn to_string(&self) -> (s: String)
        ensures
            s@ == pair_text(*self),
    {
        let mut out: Vec<char> = Vec::new();
        out.push('(');
        out.append(&mut format_decimal(self.f1 as i64));
        out.push(',');
        out.append(&mut format_decimal(self.f2 as i64));
        out.push(')');
        assert(out@ =~= pair_text(*self));
        string_of(&out)
    }

    /// The pair that `s` reads as, as `parse_pair` describes.
    pub fn parse(s: &str) -> (r: Option<MoltPair>)
        ensures
            r == parse_pair(s@),
    {
        let t = chars_of(s);
        let len = t.len();
        if len < 2 || t[0] != '(' || t[len - 1] != ')' {
            return None;
        }
        let inner = slice_of(&t, 1, len - 1);
        let mut k: usize = 0;
        while k < inner.len() && inner[k] != ','
            invariant
                k <= inner@.len(),
                no_comma(inner@.subrange(0, k as int)),
            decreases inner@.len() - k,
        {
            assert(inner@.subrange(0, k + 1) =~= inner@.subrange(0, k as int).push(inner@[k as int]));
            k = k + 1;
        }
        if k == inner.len() {
            proof {
                assert(inner@.subrange(0, k as int) =~= inner@);
                assert forall|j: int| !first_comma(inner@, j) by {
                    if 0 <= j < inner@.len() {
                        assert(inner@[j] != ',');
                    }
                }
            }
            return None;
        }
        proof {
            assert(first_comma(inner@, k as int));
            let c = choose|c: int| first_comma(inner@, c);
            lemma_first_comma_unique(inner@, k as int, c);
        }
        let first = read_i32(&slice_of(&inner, 0, k));
        let second = read_i32(&slice_of(&inner, k + 1, inner.len()));
        match (first, second) {
            (Some(f1), Some(f2)) => Some(MoltPair { f1, f2 }),
            _ => None,
        }
    }

    /// The text of the pair held by `value`.
    pub fn any_to_string(value: &MoltAny) -> (r: String)
        requires
            value.name() == Self::tag_spec(),
            parse_pair(value.text()) is Some,
        ensures
            r@ == pair_text(parse_pair(value.text())->Some_0),
    {
        match value.downcast::<MoltPair>() {
            Some(p) => p.to_string(),
            None => {
                assert(false);
                String::new()
            },
        }
    }

    /// A new handle holding a copy of the pair held by `value`.
    pub fn any_clone(value: &MoltAny) -> (r: MoltAny)
        requires
            value.name() == Self::tag_spec(),
            parse_pair(value.text()) is Some,
        ensures
            r.name() == Self::tag_spec(),
            r.text() == pair_text(parse_pair(value.text())->Some_0),
    {
        match value.downcast::<MoltPair>() {
            Some(p) => MoltAny::new(&*p),
            None => {
                assert(false);
                MoltAny::new(&MoltPair { f1: 0, f2: 0 })
            },
        }
    }
}

impl MyAny for MoltPair {
    open spec fn tag_spec() -> Seq<char> {
        "MoltPair"@
    }

    open spec fn text_spec(&self) -> Seq<char> {
        pair_text(*self)
    }

    open spec fn parse_spec(s: Seq<char>) -> Option<Self> {
        parse_pair(s)
    }

    fn tag() -> (r: &'static str) {
        "MoltPair"
    }

    fn to_text(&self) -> (r: String) {
        self.to_string()
    }

    fn parse_text(s: &str) -> (r: Option<Self>) {
        MoltPair::parse(s)
    }

    proof fn lemma_parse_text(v: Self) {
        let a = decimal(v.f1 as i64);
        let b = decimal(v.f2 as i64);
        let s = pair_text(v);
        let inner = s.subrange(1, s.len() - 1);
        lemma_parse_decimal(v.f1 as i64);
        lemma_parse_decimal(v.f2 as i64);
        if v.f1 < 0 {
            lemma_digits_no_comma((-(v.f1 as int)) as nat);
            assert(a[0] == '-');
        } else {
            lemma_digits_no_comma(v.f1 as nat);
        }
        assert(no_comma(a)) by {
            if v.f1 < 0 {
                let d = crate::decimal::digits_of((-(v.f1 as int)) as nat);
                assert forall|i: int| 0 <= i < a.len() implies #[trigger] a[i] != ',' by {
                    if i > 0 {
                        assert(a[i] == d[i - 1]);
                    }
                }
            }
        }
        assert(inner =~= a + seq![','] + b);
        assert(inner.subrange(0, a.len() as int) =~= a);
        assert(inner.subrange(a.len() as int + 1, inner.len() as int) =~= b);
        assert(first_comma(inner, a.len() as int));
        let c = choose|c: int| first_comma(inner, c);
        lemma_first_comma_unique(inner, a.len() as int, c);
    }
}

} // verus!
