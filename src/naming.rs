//! Host identifiers: case conversion and escaping of reserved words.

use vstd::prelude::*;

use crate::text::same_text;

verus! {

pub open spec fn is_upper(c: char) -> bool {
    'A' <= c <= 'Z'
}

pub open spec fn is_lower(c: char) -> bool {
    'a' <= c <= 'z'
}

pub open spec fn is_digit(c: char) -> bool {
    '0' <= c <= '9'
}

/// A character in lower case (ASCII letters only).
pub open spec fn to_lower(c: char) -> char {
    if is_upper(c) {
        ((c as u32 + 32) as u8) as char
    } else {
        c
    }
}

/// A character in upper case (ASCII letters only).
pub open spec fn to_upper(c: char) -> char {
    if is_lower(c) {
        ((c as u32 - 32) as u8) as char
    } else {
        c
    }
}

/// Whether a word starts at index `i` of a mixed-case identifier: a capital
/// that follows a lower-case letter or a digit.
pub open spec fn starts_word(s: Seq<char>, i: int) -> bool {
    0 < i < s.len() && is_upper(s[i]) && (is_lower(s[i - 1]) || is_digit(s[i - 1]))
}

/// Snake case: words split before each capital that starts one, joined by
/// underscores, in lower case (`upper == false`) or upper case.
pub open spec fn snake_spec(s: Seq<char>, upper: bool) -> Seq<char>
    decreases s.len(),
{
    if s.len() == 0 {
        Seq::empty()
    } else {
        let i = s.len() - 1;
        let c = if upper {
            to_upper(s[i])
        } else {
            to_lower(s[i])
        };
        let prev = snake_spec(s.drop_last(), upper);
        if starts_word(s, i) {
            prev.push('_').push(c)
        } else {
            prev.push(c)
        }
    }
}

pub open spec fn is_separator(c: char) -> bool {
    c == '_' || c == '-'
}

/// Upper camel case of an identifier whose words are separated by `_` or `-`:
/// the first letter of each word in upper case, the others in lower case,
/// the separators dropped.
pub open spec fn camel_spec(s: Seq<char>) -> Seq<char>
    decreases s.len(),
{
    if s.len() == 0 {
        Seq::empty()
    } else {
        let i = s.len() - 1;
        let prev = camel_spec(s.drop_last());
        if is_separator(s[i]) {
            prev
        } else if i == 0 || is_separator(s[i - 1]) {
            prev.push(to_upper(s[i]))
        } else {
            prev.push(to_lower(s[i]))
        }
    }
}

/// The words that the host language reserves.
pub open spec fn is_reserved(s: Seq<char>) -> bool {
    ||| s == "as"@
    ||| s == "box"@
    ||| s == "break"@
    ||| s == "const"@
    ||| s == "continue"@
    ||| s == "crate"@
    ||| s == "do"@
    ||| s == "dyn"@
    ||| s == "else"@
    ||| s == "enum"@
    ||| s == "false"@
    ||| s == "fn"@
    ||| s == "for"@
    ||| s == "if"@
    ||| s == "impl"@
    ||| s == "in"@
    ||| s == "let"@
    ||| s == "loop"@
    ||| s == "match"@
    ||| s == "mod"@
    ||| s == "move"@
    ||| s == "mut"@
    ||| s == "pub"@
    ||| s == "ref"@
    ||| s == "return"@
    ||| s == "self"@
    ||| s == "static"@
    ||| s == "struct"@
    ||| s == "super"@
    ||| s == "trait"@
    ||| s == "true"@
    ||| s == "type"@
    ||| s == "unsafe"@
    ||| s == "use"@
    ||| s == "where"@
    ||| s == "while"@
    ||| s == "yield"@
}

/// An identifier with a trailing underscore where it is reserved.
pub open spec fn unreserve_spec(s: Seq<char>) -> Seq<char> {
    if is_reserved(s) {
        s.push('_')
    } else {
        s
    }
}

/// Relies on String::push: appends one character.
#[verifier::external_body]
fn push_char(s: &mut String, c: char)
    ensures
        final(s)@ == old(s)@.push(c),
{
    s.push(c);
}

fn lower_char(c: char) -> (r: char)
    ensures
        r == to_lower(c),
{
    if 'A' <= c && c <= 'Z' {
        let b: u8 = (c as u32 + 32) as u8;
        b as char
    } else {
        c
    }
}

fn upper_char(c: char) -> (r: char)
    ensures
        r == to_upper(c),
{
    if 'a' <= c && c <= 'z' {
        let b: u8 = (c as u32 - 32) as u8;
        b as char
    } else {
        c
    }
}

fn snake_case(s: &str, upper: bool) -> (r: String)
    ensures
        r@ == snake_spec(s@, upper),
{
    let n = s.unicode_len();
    let mut out = String::new();
    let mut i: usize = 0;
    assert(s@.take(0) =~= Seq::<char>::empty());
    while i < n
        invariant
            n == s@.len(),
            i <= n,
            out@ == snake_spec(s@.take(i as int), upper),
        decreases n - i,
    {
        let c = s.get_char(i);
        let ghost t = s@.take(i + 1);
        assert(t.drop_last() =~= s@.take(i as int));
        assert(starts_word(t, i as int) == starts_word(s@, i as int));
        let boundary = if i > 0 && 'A' <= c && c <= 'Z' {
            let p = s.get_char(i - 1);
            ('a' <= p && p <= 'z') || ('0' <= p && p <= '9')
        } else {
            false
        };
        if boundary {
            push_char(&mut out, '_');
        }
        let d = if upper {
            upper_char(c)
        } else {
            lower_char(c)
        };
        push_char(&mut out, d);
        i = i + 1;
    }
    assert(s@.take(n as int) =~= s@);
    out
}

/// Lower snake case: `bufferData` becomes `buffer_data`.
pub fn snake(s: &str) -> (r: String)
    ensures
        r@ == snake_spec(s@, false),
{
    snake_case(s, false)
}

/// Upper snake case: `bufferData` becomes `BUFFER_DATA`.
pub fn shouty_snake(s: &str) -> (r: String)
    ensures
        r@ == snake_spec(s@, true),
{
    snake_case(s, true)
}

/// Upper camel case: `ONE_MINUS_SRC_ALPHA` becomes `OneMinusSrcAlpha`.
pub fn camel(s: &str) -> (r: String)
    ensures
        r@ == camel_spec(s@),
{
    let n = s.unicode_len();
    let mut out = String::new();
    let mut i: usize = 0;
    assert(s@.take(0) =~= Seq::<char>::empty());
    while i < n
        invariant
            n == s@.len(),
            i <= n,
            out@ == camel_spec(s@.take(i as int)),
        decreases n - i,
    {
        let c = s.get_char(i);
        let ghost t = s@.take(i + 1);
        assert(t.drop_last() =~= s@.take(i as int));
        if c == '_' || c == '-' {
        } else {
            let first = if i == 0 {
                true
            } else {
                let p = s.get_char(i - 1);
                p == '_' || p == '-'
            };
            if first {
                push_char(&mut out, upper_char(c));
            } else {
                push_char(&mut out, lower_char(c));
            }
        }
        i = i + 1;
    }
    assert(s@.take(n as int) =~= s@);
    out
}

fn reserved(s: &str) -> (r: bool)
    ensures
        r == is_reserved(s@),
{
    same_text(s, "as") || same_text(s, "box") || same_text(s, "break") || same_text(s, "const")
        || same_text(s, "continue") || same_text(s, "crate") || same_text(s, "do") || same_text(
        s,
        "dyn",
    ) || same_text(s, "else") || same_text(s, "enum") || same_text(s, "false") || same_text(
        s,
        "fn",
    ) || same_text(s, "for") || same_text(s, "if") || same_text(s, "impl") || same_text(s, "in")
        || same_text(s, "let") || same_text(s, "loop") || same_text(s, "match") || same_text(
        s,
        "mod",
    ) || same_text(s, "move") || same_text(s, "mut") || same_text(s, "pub") || same_text(s, "ref")
        || same_text(s, "return") || same_text(s, "self") || same_text(s, "static") || same_text(
        s,
        "struct",
    ) || same_text(s, "super") || same_text(s, "trait") || same_text(s, "true") || same_text(
        s,
        "type",
    ) || same_text(s, "unsafe") || same_text(s, "use") || same_text(s, "where") || same_text(
        s,
        "while",
    ) || same_text(s, "yield")
}

/// Escape a reserved word by a trailing underscore.
pub fn unreserve(s: String) -> (r: String)
    ensures
        r@ == unreserve_spec(s@),
{
    if reserved(s.as_str()) {
        proof {
            reveal_strlit("_");
        }
        assert("_"@ =~= seq!['_']);
        s.concat("_")
    } else {
        s
    }
}

} // verus!
