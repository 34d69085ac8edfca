//! The modifiers of the `set` command (RFC 5229, section 4.1).

use crate::compiler::grammar::Modifier;
use crate::runtime::variable::nat_text;
use crate::text::{
    char_lowercase, char_to_lowercase, char_to_uppercase, char_uppercase, lowercase, push_char, str_chars, str_to_lowercase,
    str_to_uppercase, uppercase,
};
use vstd::prelude::*;
use vstd::string::StringSliceAdditionalSpecFns;
use vstd::utf8::encode_utf8;

verus! {

/// A character that `:quotewildcard` escapes.
pub open spec fn is_wildcard_special(c: char) -> bool {
    c == '*' || c == '\\' || c == '?'
}

/// A character that `:quoteregex` escapes.
pub open spec fn is_regex_special(c: char) -> bool {
    c == '*' || c == '\\' || c == '?' || c == '.' || c == '[' || c == ']' || c == '(' || c == ')'
        || c == '+' || c == '{' || c == '}' || c == '|' || c == '^' || c == '=' || c == ':' || c
        == '$'
}

/// `s` with a backslash before each special character.
pub open spec fn quoted(s: Seq<char>, regex: bool) -> Seq<char>
    decreases s.len(),
{
    if s.len() == 0 {
        Seq::empty()
    } else {
        let c = s.last();
        let special = if regex {
            is_regex_special(c)
        } else {
            is_wildcard_special(c)
        };
        quoted(s.drop_last(), regex) + if special {
            seq!['\\', c]
        } else {
            seq![c]
        }
    }
}

/// A byte that URL encoding keeps as is: an ASCII letter or digit, or one
/// of `-._~`.
pub open spec fn is_unreserved(b: u8) -> bool {
    (48 <= b <= 57) || (65 <= b <= 90) || (97 <= b <= 122) || b == 45 || b == 46 || b == 95 || b
        == 126
}

/// The lowercase hexadecimal digit of a value below 16.
pub open spec fn hex_digit(v: nat) -> char {
    if v < 10 {
        (v + 48) as char
    } else {
        (v + 87) as char
    }
}

/// The bytes, URL-encoded: kept as is when unreserved, else `%` and two
/// lowercase hexadecimal digits.
pub open spec fn url_encoded(b: Seq<u8>) -> Seq<char>
    decreases b.len(),
{
    if b.len() == 0 {
        Seq::empty()
    } else {
        let x = b.last();
        url_encoded(b.drop_last()) + if is_unreserved(x) {
            seq![x as char]
        } else {
            seq!['%', hex_digit((x / 16) as nat), hex_digit((x % 16) as nat)]
        }
    }
}

/// The first character lowercased, by the Unicode tables.
pub open spec fn first_lowered(s: Seq<char>) -> Seq<char> {
    if s.len() == 0 {
        Seq::empty()
    } else {
        char_lowercase(s[0]) + s.drop_first()
    }
}

/// The first character uppercased, by the Unicode tables.
pub open spec fn first_uppered(s: Seq<char>) -> Seq<char> {
    if s.len() == 0 {
        Seq::empty()
    } else {
        char_uppercase(s[0]) + s.drop_first()
    }
}

/// What a modifier makes of a value (RFC 5229): `:length` counts
/// characters.
pub open spec fn modified(m: Modifier, s: Seq<char>) -> Seq<char> {
    match m {
        Modifier::Lower => lowercase(s),
        Modifier::Upper => uppercase(s),
        Modifier::LowerFirst => first_lowered(s),
        Modifier::UpperFirst => first_uppered(s),
        Modifier::QuoteWildcard => quoted(s, false),
        Modifier::QuoteRegex => quoted(s, true),
        Modifier::Length => nat_text(s.len()),
        Modifier::EncodeUrl => url_encoded(encode_utf8(s)),
    }
}

/// `s` quoted.
fn quote_exec(s: &str, regex: bool) -> (r: String)
    ensures
        r@ == quoted(s@, regex),
{
    let c = str_chars(s);
    let mut r = String::new();
    let mut i: usize = 0;
    while i < c.len()
        invariant
            c@ == s@,
            i <= c@.len(),
            r@ == quoted(s@.subrange(0, i as int), regex),
        decreases c@.len() - i,
    {
        let ch = c[i];
        assert(s@.subrange(0, i + 1).drop_last() =~= s@.subrange(0, i as int));
        let special = if regex {
            ch == '*' || ch == '\\' || ch == '?' || ch == '.' || ch == '[' || ch == ']' || ch == '('
                || ch == ')' || ch == '+' || ch == '{' || ch == '}' || ch == '|' || ch == '^' || ch
                == '=' || ch == ':' || ch == '$'
        } else {
            ch == '*' || ch == '\\' || ch == '?'
        };
        let ghost before = r@;
        if special {
            push_char(&mut r, '\\');
        }
        push_char(&mut r, ch);
        i += 1;
        proof {
            if special {
                assert(r@ =~= before + seq!['\\', ch]);
            } else {
                assert(r@ =~= before + seq![ch]);
            }
        }
    }
    assert(s@.subrange(0, c@.len() as int) =~= s@);
    r
}

fn hex_digit_exec(v: u8) -> (r: char)
    requires
        v < 16,
    ensures
        r == hex_digit(v as nat),
{
    if v < 10 {
        (v + 48) as char
    } else {
        (v + 87) as char
    }
}

/// The bytes, URL-encoded.
fn url_encode_exec(b: &[u8]) -> (r: String)
    ensures
        r@ == url_encoded(b@),
{
    let mut r = String::new();
    let mut i: usize = 0;
    while i < b.len()
        invariant
            i <= b@.len(),
            r@ == url_encoded(b@.subrange(0, i as int)),
        decreases b@.len() - i,
    {
        let x = b[i];
        assert(b@.subrange(0, i + 1).drop_last() =~= b@.subrange(0, i as int));
        let ghost before = r@;
        if (x >= 48 && x <= 57) || (x >= 65 && x <= 90) || (x >= 97 && x <= 122) || x == 45 || x
            == 46 || x == 95 || x == 126 {
            push_char(&mut r, x as char);
            assert(r@ =~= before + seq![x as char]);
        } else {
            push_char(&mut r, '%');
            push_char(&mut r, hex_digit_exec(x / 16));
            push_char(&mut r, hex_digit_exec(x % 16));
            assert(r@ =~= before + seq!['%', hex_digit((x / 16) as nat), hex_digit((x % 16) as nat)]);
        }
        i += 1;
    }
    assert(b@.subrange(0, b@.len() as int) =~= b@);
    r
}

/// The decimal form of `n`.
pub fn usize_to_string(n: usize) -> (r: String)
    ensures
        r@ == nat_text(n as nat),
{
    crate::runtime::variable::u64_to_string(n as u64)
}

impl Modifier {
    /// What the modifier makes of `input` (see `modified`).
    pub fn apply(&self, input: &str) -> (r: String)
        ensures
            r@ == modified(*self, input@),
    {
        match self {
            Modifier::Lower => str_to_lowercase(input),
            Modifier::Upper => str_to_uppercase(input),
            Modifier::LowerFirst | Modifier::UpperFirst => {
                let c = str_chars(input);
                if c.len() == 0 {
                    return String::new();
                }
                let first = if *self == Modifier::UpperFirst {
                    char_to_uppercase(c[0])
                } else {
                    char_to_lowercase(c[0])
                };
                let rest = crate::compiler::lexer::string::substring(c.as_slice(), 1, c.len());
                assert(rest@ =~= input@.drop_first());
                crate::runtime::expression::concat(first.as_str(), rest.as_str())
            },
            Modifier::QuoteWildcard => quote_exec(input, false),
            Modifier::QuoteRegex => quote_exec(input, true),
            Modifier::Length => usize_to_string(input.unicode_len()),
            Modifier::EncodeUrl => {
                url_encode_exec(input.as_bytes())
            },
        }
    }
}

} // verus!
