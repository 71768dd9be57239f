//! The text form of a list: the elements' texts separated by single spaces,
//! each quoted so that the list syntax reads it back as the same element.
//!
//! An element is written as it is when it holds no character that the list
//! syntax treats specially; an empty element is written `{}`; an element with
//! special characters but no brace and no backslash is enclosed in braces; any
//! other element has each special character escaped by a backslash (with `\n`,
//! `\t`, `\r`, `\v` and `\f` for the control characters).

use vstd::prelude::*;

verus! {

/// Whether `c` separates list elements.
pub open spec fn is_list_space(c: char) -> bool {
    c == ' ' || c == '\t' || c == '\n' || c == '\r' || c == '\u{b}' || c == '\u{c}'
}

/// Whether `c` is treated specially by the list syntax.
pub open spec fn is_special(c: char) -> bool {
    is_list_space(c) || c == '{' || c == '}' || c == '"' || c == '\\' || c == '[' || c == ']'
        || c == '$' || c == ';'
}

/// Whether `c` would upset an element enclosed in braces.
pub open spec fn is_brace_or_backslash(c: char) -> bool {
    c == '{' || c == '}' || c == '\\'
}

/// Whether some character of `s` satisfies `p`.
pub open spec fn has_char(s: Seq<char>, p: spec_fn(char) -> bool) -> bool {
    exists|i: int| 0 <= i < s.len() && p(#[trigger] s[i])
}

/// The escaped form of one character.
pub open spec fn escape_char(c: char) -> Seq<char> {
    if c == '\n' {
        seq!['\\', 'n']
    } else if c == '\t' {
        seq!['\\', 't']
    } else if c == '\r' {
        seq!['\\', 'r']
    } else if c == '\u{b}' {
        seq!['\\', 'v']
    } else if c == '\u{c}' {
        seq!['\\', 'f']
    } else if is_special(c) {
        seq!['\\', c]
    } else {
        seq![c]
    }
}

/// `s` with each character escaped.
pub open spec fn escaped(s: Seq<char>) -> Seq<char>
    decreases s.len(),
{
    if s.len() == 0 {
        Seq::empty()
    } else {
        escaped(s.drop_last()) + escape_char(s.last())
    }
}

/// How an element with text `s` is written in a list.
pub open spec fn element_text(s: Seq<char>) -> Seq<char> {
    if s.len() == 0 {
        seq!['{', '}']
    } else if !has_char(s, |c: char| is_special(c)) {
        s
    } else if !has_char(s, |c: char| is_brace_or_backslash(c)) {
        seq!['{'] + s + seq!['}']
    } else {
        escaped(s)
    }
}

/// Whether some character of `s` satisfies `p`, for the two tests above.
fn scan(s: &Vec<char>, braces_only: bool) -> (r: bool)
    ensures
        r == if braces_only {
            has_char(s@, |c: char| is_brace_or_backslash(c))
        } else {
            has_char(s@, |c: char| is_special(c))
        },
{
    let mut i: usize = 0;
    while i < s.len()
        invariant
            i <= s@.len(),
            forall|j: int|
                0 <= j < i ==> !(if braces_only {
                    is_brace_or_backslash(#[trigger] s@[j])
                } else {
                    is_special(s@[j])
                }),
        decreases s@.len() - i,
    {
        let c = s[i];
        let hit = if braces_only {
            c == '{' || c == '}' || c == '\\'
        } else {
            c == ' ' || c == '\t' || c == '\n' || c == '\r' || c == '\u{b}' || c == '\u{c}'
                || c == '{' || c == '}' || c == '"' || c == '\\' || c == '[' || c == ']'
                || c == '$' || c == ';'
        };
        if hit {
            if braces_only {
                assert((|c: char| is_brace_or_backslash(c))(s@[i as int]));
            } else {
                assert((|c: char| is_special(c))(s@[i as int]));
            }
            return true;
        }
        i = i + 1;
    }
    false
}

/// Appends to `out` how an element with text `s` is written in a list.
pub fn push_element(out: &mut Vec<char>, s: &Vec<char>)
    ensures
        final(out)@ == old(out)@ + element_text(s@),
{
    if s.len() == 0 {
        out.push('{');
        out.push('}');
        assert(final(out)@ =~= old(out)@ + element_text(s@));
        return;
    }
    if !scan(s, false) {
        let mut i: usize = 0;
        while i < s.len()
            invariant
                i <= s@.len(),
                out@ == old(out)@ + s@.subrange(0, i as int),
            decreases s@.len() - i,
        {
            out.push(s[i]);
            assert(s@.subrange(0, i + 1) =~= s@.subrange(0, i as int).push(s@[i as int]));
            i = i + 1;
        }
        assert(s@.subrange(0, i as int) =~= s@);
        return;
    }
    if !scan(s, true) {
        out.push('{');
        let mut i: usize = 0;
        while i < s.len()
            invariant
                i <= s@.len(),
                out@ == old(out)@ + seq!['{'] + s@.subrange(0, i as int),
            decreases s@.len() - i,
        {
            out.push(s[i]);
            assert(s@.subrange(0, i + 1) =~= s@.subrange(0, i as int).push(s@[i as int]));
            i = i + 1;
        }
        out.push('}');
        assert(s@.subrange(0, i as int) =~= s@);
        assert(final(out)@ =~= old(out)@ + element_text(s@));
        return;
    }
    let mut i: usize = 0;
    while i < s.len()
        invariant
            i <= s@.len(),
            out@ == old(out)@ + escaped(s@.subrange(0, i as int)),
        decreases s@.len() - i,
    {
        let c = s[i];
        let ghost before = out@;
        if c == '\n' {
            out.push('\\');
            out.push('n');
        } else if c == '\t' {
            out.push('\\');
            out.push('t');
        } else if c == '\r' {
            out.push('\\');
            out.push('r');
        } else if c == '\u{b}' {
            out.push('\\');
            out.push('v');
        } else if c == '\u{c}' {
            out.push('\\');
            out.push('f');
        } else if c == ' ' || c == '{' || c == '}' || c == '"' || c == '\\' || c == '[' || c
            == ']' || c == '$' || c == ';' {
            out.push('\\');
            out.push(c);
        } else {
            out.push(c);
        }
        proof {
            assert(out@ =~= before + escape_char(c));
            assert(s@.subrange(0, i + 1).drop_last() =~= s@.subrange(0, i as int));
        }
        i = i + 1;
    }
    assert(s@.subrange(0, i as int) =~= s@);
}

} // verus!
