//! The modifiers of `set` as the interpreter applies them: like
//! `Modifier::apply`, but the result is cut to the size the host allows
//! for a variable.

use crate::compiler::grammar::Modifier;
use crate::runtime::actions::set::{hex_digit, is_regex_special, is_wildcard_special, usize_to_string};
use crate::runtime::variable::nat_text;
use crate::text::{
    blen, char_len_utf8, char_lowercase, char_to_lowercase, char_to_uppercase, char_uppercase,
    lemma_blen_push, lemma_encode_concat, lowercase, push_char, str_chars, str_to_lowercase,
    str_to_uppercase, uppercase,
};
use vstd::prelude::*;
use vstd::utf8::encode_utf8;

verus! {

/// `acc` then `input` quoted, stopping before the first character that
/// would not fit in `max` bytes (with its backslash).
pub open spec fn bounded_quote(acc: Seq<char>, input: Seq<char>, max: nat, regex: bool) -> Seq<char>
    decreases input.len(),
{
    if input.len() == 0 {
        acc
    } else {
        let c = input[0];
        let special = if regex {
            is_regex_special(c)
        } else {
            is_wildcard_special(c)
        };
        if special {
            if blen(acc) + blen(seq![c]) < max {
                bounded_quote(acc + seq!['\\', c], input.drop_first(), max, regex)
            } else {
                acc
            }
        } else if blen(acc) + blen(seq![c]) <= max {
            bounded_quote(acc.push(c), input.drop_first(), max, regex)
        } else {
            acc
        }
    }
}

/// `acc` then `input` with its first character changed in case, stopping
/// before the first character that would not fit in `max` bytes (as
/// counted before its case is changed).
pub open spec fn bounded_first(acc: Seq<char>, input: Seq<char>, max: nat, at_start: bool, upper: bool) -> Seq<char>
    decreases input.len(),
{
    if input.len() == 0 {
        acc
    } else {
        let c = input[0];
        if blen(acc) + blen(seq![c]) <= max {
            let add = if at_start {
                if upper {
                    char_uppercase(c)
                } else {
                    char_lowercase(c)
                }
            } else {
                seq![c]
            };
            bounded_first(acc + add, input.drop_first(), max, false, upper)
        } else {
            acc
        }
    }
}

/// Every byte as `%` and two lowercase hexadecimal digits.
pub open spec fn percent_all(b: Seq<u8>) -> Seq<char>
    decreases b.len(),
{
    if b.len() == 0 {
        Seq::empty()
    } else {
        percent_all(b.drop_last()) + seq!['%', hex_digit((b.last() / 16) as nat), hex_digit((b.last() % 16) as nat)]
    }
}

pub open spec fn is_unreserved_char(c: char) -> bool {
    ('0' <= c && c <= '9') || ('A' <= c && c <= 'Z') || ('a' <= c && c <= 'z') || c == '-' || c == '.'
        || c == '_' || c == '~'
}

/// `acc` then `input` URL-encoded, stopping before the first character
/// that would not fit in `max` bytes.
pub open spec fn bounded_url(acc: Seq<char>, input: Seq<char>, max: nat) -> Seq<char>
    decreases input.len(),
{
    if input.len() == 0 {
        acc
    } else {
        let c = input[0];
        if is_unreserved_char(c) {
            if blen(acc) < max {
                bounded_url(acc.push(c), input.drop_first(), max)
            } else {
                acc
            }
        } else if blen(acc) + blen(seq![c]) * 3 <= max {
            bounded_url(acc + percent_all(encode_utf8(seq![c])), input.drop_first(), max)
        } else {
            acc
        }
    }
}

/// What a modifier makes of a value, cut to `max` bytes (lowercasing and
/// uppercasing are not cut).
pub open spec fn modified_bounded(m: Modifier, s: Seq<char>, max: nat) -> Seq<char> {
    match m {
        Modifier::Lower => lowercase(s),
        Modifier::Upper => uppercase(s),
        Modifier::LowerFirst => bounded_first(Seq::empty(), s, max, true, false),
        Modifier::UpperFirst => bounded_first(Seq::empty(), s, max, true, true),
        Modifier::QuoteWildcard => bounded_quote(Seq::empty(), s, max, false),
        Modifier::QuoteRegex => bounded_quote(Seq::empty(), s, max, true),
        Modifier::Length => nat_text(s.len()),
        Modifier::EncodeUrl => bounded_url(Seq::empty(), s, max),
    }
}

proof fn lemma_blen_empty()
    ensures
        blen(Seq::<char>::empty()) == 0,
{
    assert(encode_utf8(Seq::<char>::empty()) =~= Seq::<u8>::empty());
}

/// A character takes one to four bytes; an ASCII one takes one.
proof fn lemma_blen_char(c: char)
    ensures
        1 <= blen(seq![c]) <= 4,
        (c as u32) < 128 ==> blen(seq![c]) == 1,
{
    reveal_with_fuel(encode_utf8, 2);
    assert(seq![c].drop_first() =~= Seq::<char>::empty());
}

/// Appends `c` to `r`, whose UTF-8 form is `len` bytes long.
fn push_counted(r: &mut String, len: usize, c: char) -> (n: usize)
    requires
        len == blen(old(r)@),
        len + blen(seq![c]) <= usize::MAX,
    ensures
        final(r)@ == old(r)@.push(c),
        n == blen(final(r)@),
        n == len + blen(seq![c]),
{
    let cl = char_len_utf8(c);
    proof {
        lemma_blen_push(old(r)@, c);
    }
    push_char(r, c);
    len + cl
}

fn bounded_quote_exec(input: &str, max_len: usize, regex: bool) -> (r: String)
    ensures
        r@ == bounded_quote(Seq::empty(), input@, max_len as nat, regex),
{
    let c = str_chars(input);
    let mut r = String::new();
    let mut len: usize = 0;
    let mut i: usize = 0;
    proof {
        lemma_blen_empty();
    }
    assert(input@.subrange(0, input@.len() as int) =~= input@);
    while i < c.len()
        invariant
            c@ == input@,
            i <= c@.len(),
            len == blen(r@),
            len <= max_len,
            bounded_quote(r@, input@.subrange(i as int, input@.len() as int), max_len as nat, regex)
                == bounded_quote(Seq::empty(), input@, max_len as nat, regex),
        decreases c@.len() - i,
    {
        let ch = c[i];
        let ghost rest = input@.subrange(i as int, input@.len() as int);
        assert(rest[0] == ch);
        assert(rest.drop_first() =~= input@.subrange(i + 1, input@.len() as int));
        let special = if regex {
            ch == '*' || ch == '\\' || ch == '?' || ch == '.' || ch == '[' || ch == ']' || ch == '('
                || ch == ')' || ch == '+' || ch == '{' || ch == '}' || ch == '|' || ch == '^' || ch
                == '=' || ch == ':' || ch == '$'
        } else {
            ch == '*' || ch == '\\' || ch == '?'
        };
        let cl = char_len_utf8(ch);
        proof {
            lemma_blen_char(ch);
            lemma_blen_char('\\');
        }
        if special {
            if cl < max_len - len {
                let ghost before = r@;
                len = push_counted(&mut r, len, '\\');
                len = push_counted(&mut r, len, ch);
                proof {
                    lemma_blen_push(before, ch);
                    assert(r@ =~= before + seq!['\\', ch]);
                }
            } else {
                return r;
            }
        } else if cl <= max_len - len {
            len = push_counted(&mut r, len, ch);
        } else {
            return r;
        }
        i += 1;
    }
    assert(input@.subrange(c@.len() as int, input@.len() as int) =~= Seq::<char>::empty());
    r
}

fn bounded_first_exec(input: &str, max_len: usize, upper: bool) -> (r: String)
    ensures
        r@ == bounded_first(Seq::empty(), input@, max_len as nat, true, upper),
{
    let c = str_chars(input);
    let mut r = String::new();
    let mut len: usize = 0;
    let mut i: usize = 0;
    proof {
        lemma_blen_empty();
    }
    assert(input@.subrange(0, input@.len() as int) =~= input@);
    while i < c.len()
        invariant
            c@ == input@,
            i <= c@.len(),
            len == blen(r@),
            bounded_first(r@, input@.subrange(i as int, input@.len() as int), max_len as nat, i == 0, upper)
                == bounded_first(Seq::empty(), input@, max_len as nat, true, upper),
        decreases c@.len() - i,
    {
        let ch = c[i];
        let ghost rest = input@.subrange(i as int, input@.len() as int);
        assert(rest[0] == ch);
        assert(rest.drop_first() =~= input@.subrange(i + 1, input@.len() as int));
        let cl = char_len_utf8(ch);
        if len <= max_len && cl <= max_len - len {
            if i != 0 {
                let ghost before = r@;
                len = push_counted(&mut r, len, ch);
                assert(r@ =~= before + seq![ch]);
            } else {
                let cased = if upper {
                    char_to_uppercase(ch)
                } else {
                    char_to_lowercase(ch)
                };
                let ghost before = r@;
                r = crate::runtime::expression::concat(r.as_str(), cased.as_str());
                len = crate::text::string_len(&r);
            }
        } else {
            return r;
        }
        i += 1;
    }
    assert(input@.subrange(c@.len() as int, input@.len() as int) =~= Seq::<char>::empty());
    r
}

fn bounded_url_exec(input: &str, max_len: usize) -> (r: String)
    ensures
        r@ == bounded_url(Seq::empty(), input@, max_len as nat),
{
    let c = str_chars(input);
    let mut r = String::new();
    let mut len: usize = 0;
    let mut i: usize = 0;
    proof {
        lemma_blen_empty();
    }
    assert(input@.subrange(0, input@.len() as int) =~= input@);
    while i < c.len()
        invariant
            c@ == input@,
            i <= c@.len(),
            len == blen(r@),
            len <= max_len,
            bounded_url(r@, input@.subrange(i as int, input@.len() as int), max_len as nat)
                == bounded_url(Seq::empty(), input@, max_len as nat),
        decreases c@.len() - i,
    {
        let ch = c[i];
        let ghost rest = input@.subrange(i as int, input@.len() as int);
        assert(rest[0] == ch);
        assert(rest.drop_first() =~= input@.subrange(i + 1, input@.len() as int));
        if ('0' <= ch && ch <= '9') || ('A' <= ch && ch <= 'Z') || ('a' <= ch && ch <= 'z') || ch == '-'
            || ch == '.' || ch == '_' || ch == '~' {
            proof {
                lemma_blen_char(ch);
            }
            if len < max_len {
                len = push_counted(&mut r, len, ch);
            } else {
                return r;
            }
        } else {
            let cl = char_len_utf8(ch);
            proof {
                lemma_blen_char(ch);
            }
            if cl * 3 <= max_len - len {
                let enc = crate::text::char_utf8(ch);
                let ghost before = r@;
                let mut j: usize = 0;
                while j < enc.len()
                    invariant
                        j <= enc@.len(),
                        enc@ == encode_utf8(seq![ch]),
                        enc@.len() == cl,
                        cl <= 4,
                        len <= max_len,
                        len == blen(r@),
                        len == blen(before) + 3 * j,
                        blen(before) + cl * 3 <= max_len,
                        r@ == before + percent_all(enc@.subrange(0, j as int)),
                    decreases enc@.len() - j,
                {
                    let x = enc[j];
                    assert(enc@.subrange(0, j + 1).drop_last() =~= enc@.subrange(0, j as int));
                    proof {
                        lemma_blen_char('%');
                    }
                    len = push_counted(&mut r, len, '%');
                    len = push_counted(&mut r, len, hex_digit_char(x / 16));
                    len = push_counted(&mut r, len, hex_digit_char(x % 16));
                    j += 1;
                    assert(r@ =~= before + percent_all(enc@.subrange(0, j as int)));
                }
                assert(enc@.subrange(0, enc@.len() as int) =~= enc@);
            } else {
                return r;
            }
        }
        i += 1;
    }
    assert(input@.subrange(c@.len() as int, input@.len() as int) =~= Seq::<char>::empty());
    r
}

fn hex_digit_char(v: u8) -> (r: char)
    requires
        v < 16,
    ensures
        r == hex_digit(v as nat),
        blen(seq![r]) == 1,
{
    let r = if v < 10 {
        (v + 48) as char
    } else {
        (v + 87) as char
    };
    proof {
        lemma_blen_char(r);
    }
    r
}

/// What the modifier makes of `input`, cut to `max_len` bytes (see
/// `modified_bounded`).
pub fn apply_modifier(modifier: Modifier, input: &str, max_len: usize) -> (r: String)
    ensures
        r@ == modified_bounded(modifier, input@, max_len as nat),
        (modifier == Modifier::QuoteWildcard || modifier == Modifier::QuoteRegex) ==> exists|k: int|
            0 <= k <= input@.len() && r@ == quote_all(#[trigger] input@.take(k), modifier == Modifier::QuoteRegex) && (k
                < input@.len() ==> blen(quote_all(input@.take(k + 1), modifier == Modifier::QuoteRegex)) > max_len),
        modifier == Modifier::EncodeUrl ==> exists|k: int|
            0 <= k <= input@.len() && r@ == #[trigger] url_all(input@.take(k)) && (k < input@.len() ==> blen(
                url_all(input@.take(k + 1)),
            ) > max_len),
{
    proof {
        lemma_blen_empty();
        if modifier == Modifier::QuoteWildcard || modifier == Modifier::QuoteRegex {
            let regex = modifier == Modifier::QuoteRegex;
            let k = lemma_bounded_quote_longest(Seq::empty(), input@, max_len as nat, regex);
            assert(Seq::<char>::empty() + quote_all(input@.take(k), regex) =~= quote_all(input@.take(k), regex));
            if k < input@.len() {
                assert(Seq::<char>::empty() + quote_all(input@.take(k + 1), regex) =~= quote_all(input@.take(k + 1), regex));
            }
        }
        if modifier == Modifier::EncodeUrl {
            let k = lemma_bounded_url_longest(Seq::empty(), input@, max_len as nat);
            assert(Seq::<char>::empty() + url_all(input@.take(k)) =~= url_all(input@.take(k)));
            if k < input@.len() {
                assert(Seq::<char>::empty() + url_all(input@.take(k + 1)) =~= url_all(input@.take(k + 1)));
            }
        }
    }
    match modifier {
        Modifier::Lower => str_to_lowercase(input),
        Modifier::Upper => str_to_uppercase(input),
        Modifier::LowerFirst => bounded_first_exec(input, max_len, false),
        Modifier::UpperFirst => bounded_first_exec(input, max_len, true),
        Modifier::QuoteWildcard => bounded_quote_exec(input, max_len, false),
        Modifier::QuoteRegex => bounded_quote_exec(input, max_len, true),
        Modifier::Length => usize_to_string(input.unicode_len()),
        Modifier::EncodeUrl => bounded_url_exec(input, max_len),
    }
}

/// Quoting cut to `max` bytes gives at most `max` bytes.
pub proof fn lemma_bounded_quote_fits(acc: Seq<char>, input: Seq<char>, max: nat, regex: bool)
    requires
        blen(acc) <= max,
    ensures
        blen(bounded_quote(acc, input, max, regex)) <= max,
    decreases input.len(),
{
    if input.len() > 0 {
        let c = input[0];
        lemma_blen_char(c);
        lemma_blen_char('\\');
        lemma_encode_concat(acc, seq!['\\', c]);
        assert(seq!['\\', c] =~= seq!['\\'].push(c));
        lemma_blen_push(seq!['\\'], c);
        lemma_blen_push(acc, c);
        let special = if regex {
            is_regex_special(c)
        } else {
            is_wildcard_special(c)
        };
        if special {
            if blen(acc) + blen(seq![c]) < max {
                lemma_bounded_quote_fits(acc + seq!['\\', c], input.drop_first(), max, regex);
            }
        } else if blen(acc) + blen(seq![c]) <= max {
            lemma_bounded_quote_fits(acc.push(c), input.drop_first(), max, regex);
        }
    }
}

/// One character quoted: with a backslash before it when it is special.
pub open spec fn quote_item(c: char, regex: bool) -> Seq<char> {
    if (if regex {
        is_regex_special(c)
    } else {
        is_wildcard_special(c)
    }) {
        seq!['\\', c]
    } else {
        seq![c]
    }
}

/// `input` quoted in full.
pub open spec fn quote_all(input: Seq<char>, regex: bool) -> Seq<char>
    decreases input.len(),
{
    if input.len() == 0 {
        seq![]
    } else {
        quote_item(input[0], regex) + quote_all(input.drop_first(), regex)
    }
}

proof fn lemma_quote_all_take(input: Seq<char>, k: int, regex: bool)
    requires
        0 <= k < input.len(),
    ensures
        quote_all(input.take(k + 1), regex) == quote_item(input[0], regex) + quote_all(input.drop_first().take(k), regex),
{
    assert(input.take(k + 1).drop_first() =~= input.drop_first().take(k));
    assert(input.take(k + 1)[0] == input[0]);
}

/// Quoting cut to `max` bytes keeps the longest run of whole quoted
/// characters (a character with its backslash) that fits.
pub proof fn lemma_bounded_quote_longest(acc: Seq<char>, input: Seq<char>, max: nat, regex: bool) -> (k: int)
    requires
        blen(acc) <= max,
    ensures
        0 <= k <= input.len(),
        bounded_quote(acc, input, max, regex) == acc + quote_all(input.take(k), regex),
        k < input.len() ==> blen(acc + quote_all(input.take(k + 1), regex)) > max,
    decreases input.len(),
{
    if input.len() == 0 {
        assert(acc + quote_all(input.take(0), regex) =~= acc);
        0
    } else {
        let c = input[0];
        let rest = input.drop_first();
        lemma_blen_char(c);
        lemma_blen_char('\\');
        lemma_encode_concat(acc, seq!['\\', c]);
        assert(seq!['\\', c] =~= seq!['\\'].push(c));
        lemma_blen_push(seq!['\\'], c);
        lemma_blen_push(acc, c);
        assert(acc.push(c) =~= acc + seq![c]);
        lemma_quote_all_take(input, 0, regex);
        assert(input.drop_first().take(0) =~= Seq::<char>::empty());
        assert(quote_all(Seq::<char>::empty(), regex) =~= Seq::<char>::empty());
        assert(quote_item(c, regex) + Seq::<char>::empty() =~= quote_item(c, regex));
        assert(acc + quote_all(input.take(0), regex) =~= acc) by {
            assert(input.take(0) =~= Seq::<char>::empty());
        }
        let item = quote_item(c, regex);
        if blen(acc + item) <= max {
            let acc2 = acc + item;
            assert(bounded_quote(acc, input, max, regex) == bounded_quote(acc2, rest, max, regex)) by {
                if item == seq!['\\', c] {
                } else {
                    assert(acc2 =~= acc.push(c));
                }
            }
            let k2 = lemma_bounded_quote_longest(acc2, rest, max, regex);
            lemma_quote_all_take(input, k2, regex);
            assert(acc2 + quote_all(rest.take(k2), regex) =~= acc + quote_all(input.take(k2 + 1), regex));
            if k2 < rest.len() {
                lemma_quote_all_take(input, k2 + 1, regex);
                assert(acc2 + quote_all(rest.take(k2 + 1), regex) =~= acc + quote_all(input.take(k2 + 2), regex));
            }
            k2 + 1
        } else {
            assert(bounded_quote(acc, input, max, regex) == acc);
            0
        }
    }
}

/// Every byte of a character percent-encoded takes three bytes.
proof fn lemma_percent_all_len(b: Seq<u8>)
    ensures
        blen(percent_all(b)) == 3 * b.len(),
    decreases b.len(),
{
    if b.len() > 0 {
        lemma_percent_all_len(b.drop_last());
        let x = b.last();
        let tail = seq!['%', hex_digit((x / 16) as nat), hex_digit((x % 16) as nat)];
        lemma_encode_concat(percent_all(b.drop_last()), tail);
        lemma_blen_char('%');
        lemma_blen_char(hex_digit((x / 16) as nat));
        lemma_blen_char(hex_digit((x % 16) as nat));
        assert(tail =~= seq!['%'].push(hex_digit((x / 16) as nat)).push(hex_digit((x % 16) as nat)));
        lemma_blen_push(seq!['%'], hex_digit((x / 16) as nat));
        lemma_blen_push(seq!['%'].push(hex_digit((x / 16) as nat)), hex_digit((x % 16) as nat));
    } else {
        lemma_blen_empty();
        assert(percent_all(b) =~= Seq::<char>::empty());
    }
}

/// URL encoding cut to `max` bytes gives at most `max` bytes.
pub proof fn lemma_bounded_url_fits(acc: Seq<char>, input: Seq<char>, max: nat)
    requires
        blen(acc) <= max,
    ensures
        blen(bounded_url(acc, input, max)) <= max,
    decreases input.len(),
{
    if input.len() > 0 {
        let c = input[0];
        lemma_blen_char(c);
        if is_unreserved_char(c) {
            if blen(acc) < max {
                lemma_blen_push(acc, c);
                lemma_bounded_url_fits(acc.push(c), input.drop_first(), max);
            }
        } else if blen(acc) + blen(seq![c]) * 3 <= max {
            lemma_percent_all_len(encode_utf8(seq![c]));
            lemma_encode_concat(acc, percent_all(encode_utf8(seq![c])));
            lemma_bounded_url_fits(acc + percent_all(encode_utf8(seq![c])), input.drop_first(), max);
        }
    }
}

/// One character URL-encoded: as it is when unreserved, else each byte of
/// its UTF-8 form as `%XX`.
pub open spec fn url_item(c: char) -> Seq<char> {
    if is_unreserved_char(c) {
        seq![c]
    } else {
        percent_all(encode_utf8(seq![c]))
    }
}

/// `input` URL-encoded in full.
pub open spec fn url_all(input: Seq<char>) -> Seq<char>
    decreases input.len(),
{
    if input.len() == 0 {
        seq![]
    } else {
        url_item(input[0]) + url_all(input.drop_first())
    }
}

proof fn lemma_url_all_take(input: Seq<char>, k: int)
    requires
        0 <= k < input.len(),
    ensures
        url_all(input.take(k + 1)) == url_item(input[0]) + url_all(input.drop_first().take(k)),
{
    assert(input.take(k + 1).drop_first() =~= input.drop_first().take(k));
    assert(input.take(k + 1)[0] == input[0]);
}

/// URL encoding cut to `max` bytes keeps the longest run of whole encoded
/// characters (all the `%XX` groups of one character) that fits.
pub proof fn lemma_bounded_url_longest(acc: Seq<char>, input: Seq<char>, max: nat) -> (k: int)
    requires
        blen(acc) <= max,
    ensures
        0 <= k <= input.len(),
        bounded_url(acc, input, max) == acc + url_all(input.take(k)),
        k < input.len() ==> blen(acc + url_all(input.take(k + 1))) > max,
    decreases input.len(),
{
    assert(input.take(0) =~= Seq::<char>::empty());
    assert(acc + url_all(input.take(0)) =~= acc);
    if input.len() == 0 {
        0
    } else {
        let c = input[0];
        let rest = input.drop_first();
        lemma_blen_char(c);
        lemma_blen_push(acc, c);
        assert(acc.push(c) =~= acc + seq![c]);
        lemma_percent_all_len(encode_utf8(seq![c]));
        lemma_encode_concat(acc, percent_all(encode_utf8(seq![c])));
        lemma_url_all_take(input, 0);
        assert(input.drop_first().take(0) =~= Seq::<char>::empty());
        assert(url_item(c) + Seq::<char>::empty() =~= url_item(c));
        let item = url_item(c);
        if is_unreserved_char(c) {
            assert((c as u32) < 128);
        }
        if blen(acc + item) <= max {
            let acc2 = acc + item;
            let k2 = lemma_bounded_url_longest(acc2, rest, max);
            lemma_url_all_take(input, k2);
            assert(acc2 + url_all(rest.take(k2)) =~= acc + url_all(input.take(k2 + 1)));
            if k2 < rest.len() {
                lemma_url_all_take(input, k2 + 1);
                assert(acc2 + url_all(rest.take(k2 + 1)) =~= acc + url_all(input.take(k2 + 2)));
            }
            k2 + 1
        } else {
            0
        }
    }
}

/// Quoting and URL encoding by `apply_modifier` give at most `max_len`
/// bytes.
pub proof fn lemma_apply_modifier_fits(modifier: Modifier, input: Seq<char>, max_len: nat)
    requires
        modifier == Modifier::QuoteWildcard || modifier == Modifier::QuoteRegex || modifier
            == Modifier::EncodeUrl,
    ensures
        blen(modified_bounded(modifier, input, max_len)) <= max_len,
{
    lemma_blen_empty();
    if modifier == Modifier::EncodeUrl {
        lemma_bounded_url_fits(Seq::empty(), input, max_len);
    } else {
        lemma_bounded_quote_fits(Seq::empty(), input, max_len, modifier == Modifier::QuoteRegex);
    }
}

/// What a chain of modifiers makes of `s`: each one applied to what the
/// one before it gave.
pub open spec fn modified_all(ms: Seq<Modifier>, s: Seq<char>, max: nat) -> Seq<char>
    decreases ms.len(),
{
    if ms.len() == 0 {
        s
    } else {
        modified_bounded(ms.last(), modified_all(ms.drop_last(), s, max), max)
    }
}

/// Applies a chain of modifiers in order (see `modified_all`).
pub fn apply_modifiers(modifiers: &Vec<Modifier>, input: &str, max_len: usize) -> (r: String)
    ensures
        r@ == modified_all(modifiers@, input@, max_len as nat),
{
    let mut value = input.to_string();
    let mut i: usize = 0;
    while i < modifiers.len()
        invariant
            i <= modifiers@.len(),
            value@ == modified_all(modifiers@.take(i as int), input@, max_len as nat),
        decreases modifiers@.len() - i,
    {
        assert(modifiers@.take(i + 1).drop_last() =~= modifiers@.take(i as int));
        value = apply_modifier(modifiers[i], value.as_str(), max_len);
        i += 1;
    }
    assert(modifiers@.take(i as int) =~= modifiers@);
    value
}

} // verus!
