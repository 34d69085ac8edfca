//! Adding headers (RFC 5293): which name and value an added header gets,
//! and whether the host protects the header; a header value loses its line
//! breaks and is cut to the size the host allows.

use crate::header::{header_name_parse, is_header_name, parse_header_name, HeaderName, OTHER_HEADER_ID};
use crate::runtime::actions::action_flags::{eq_ignore_ascii_case, str_eq_ignore_ascii_case};
use crate::text::{blen, char_is_alphanumeric, char_len_utf8, lemma_blen_push, push_char, str_chars, unicode_alphanumeric};
use vstd::prelude::*;

verus! {

/// The characters kept of `input` after `acc`: line breaks are dropped,
/// and the value stops before the first character that would make it
/// longer than `max` bytes.
pub open spec fn crlf_kept(acc: Seq<char>, input: Seq<char>, max: nat) -> Seq<char>
    decreases input.len(),
{
    if input.len() == 0 {
        acc
    } else {
        let c = input[0];
        if c == '\n' || c == '\r' {
            crlf_kept(acc, input.drop_first(), max)
        } else if blen(acc) + blen(seq![c]) <= max {
            crlf_kept(acc.push(c), input.drop_first(), max)
        } else {
            acc
        }
    }
}

/// `input` without its line breaks.
pub open spec fn without_crlf(input: Seq<char>) -> Seq<char>
    decreases input.len(),
{
    if input.len() == 0 {
        seq![]
    } else {
        (if input[0] == '\n' || input[0] == '\r' {
            seq![]
        } else {
            seq![input[0]]
        }) + without_crlf(input.drop_first())
    }
}

proof fn lemma_crlf_prefix(acc: Seq<char>, input: Seq<char>, max: nat) -> (k: int)
    requires
        blen(acc) <= max,
    ensures
        0 <= k <= without_crlf(input).len(),
        crlf_kept(acc, input, max) == acc + without_crlf(input).take(k),
        k < without_crlf(input).len() ==> blen(acc + without_crlf(input).take(k + 1)) > max,
    decreases input.len(),
{
    if input.len() == 0 {
        assert(acc + without_crlf(input).take(0) =~= acc);
        0
    } else {
        let c = input[0];
        let rest = input.drop_first();
        if c == '\n' || c == '\r' {
            assert(without_crlf(input) =~= without_crlf(rest));
            lemma_crlf_prefix(acc, rest, max)
        } else {
            assert(without_crlf(input) =~= seq![c] + without_crlf(rest));
            lemma_blen_push(acc, c);
            if blen(acc) + blen(seq![c]) <= max {
                let k2 = lemma_crlf_prefix(acc.push(c), rest, max);
                assert(acc.push(c) + without_crlf(rest).take(k2) =~= acc + without_crlf(input).take(k2 + 1));
                if k2 < without_crlf(rest).len() {
                    assert(acc.push(c) + without_crlf(rest).take(k2 + 1) =~= acc + without_crlf(input).take(k2 + 2));
                }
                k2 + 1
            } else {
                assert(acc + without_crlf(input).take(0) =~= acc);
                assert(acc + without_crlf(input).take(1) =~= acc.push(c));
                0
            }
        }
    }
}

/// What `remove_crlf` keeps is the longest start of the value without its
/// line breaks that fits in `max` bytes.
pub proof fn lemma_remove_crlf_longest(s: Seq<char>, max: nat)
    ensures
        exists|k: int|
            0 <= k <= without_crlf(s).len() && crlf_kept(Seq::empty(), s, max) == #[trigger] without_crlf(s).take(k)
                && blen(without_crlf(s).take(k)) <= max && (k < without_crlf(s).len() ==> blen(
                without_crlf(s).take(k + 1),
            ) > max),
{
    assert(blen(Seq::<char>::empty()) == 0) by {
        assert(vstd::utf8::encode_utf8(Seq::<char>::empty()) =~= Seq::<u8>::empty());
    }
    let k = lemma_crlf_prefix(Seq::empty(), s, max);
    assert(Seq::<char>::empty() + without_crlf(s).take(k) =~= without_crlf(s).take(k));
    assert(Seq::<char>::empty() + without_crlf(s).take(k + 1) =~= without_crlf(s).take(k + 1));
    lemma_remove_crlf_clean(Seq::empty(), s, max);
}

/// A header value without line breaks, at most `max_len` bytes long (see
/// `crlf_kept`).
pub fn remove_crlf(s: &str, max_len: usize) -> (r: String)
    ensures
        r@ == crlf_kept(Seq::empty(), s@, max_len as nat),
        crate::text::blen(r@) <= max_len,
        forall|i: int| 0 <= i < r@.len() ==> r@[i] != '\n' && r@[i] != '\r',
        exists|k: int|
            0 <= k <= without_crlf(s@).len() && r@ == #[trigger] without_crlf(s@).take(k) && (k < without_crlf(s@).len()
                ==> blen(without_crlf(s@).take(k + 1)) > max_len),
{
    let r = crlf_removed(s, max_len);
    proof {
        lemma_remove_crlf_longest(s@, max_len as nat);
    }
    r
}

/// The loop of `remove_crlf`.
fn crlf_removed(s: &str, max_len: usize) -> (r: String)
    ensures
        r@ == crlf_kept(Seq::empty(), s@, max_len as nat),
        crate::text::blen(r@) <= max_len,
        forall|i: int| 0 <= i < r@.len() ==> r@[i] != '\n' && r@[i] != '\r',
{
    proof {
        assert(crate::text::blen(Seq::<char>::empty()) == 0) by {
            assert(vstd::utf8::encode_utf8(Seq::<char>::empty()) =~= Seq::<u8>::empty());
        }
        lemma_remove_crlf_clean(Seq::empty(), s@, max_len as nat);
    }
    let c = str_chars(s);
    let mut r = String::new();
    let mut len: usize = 0;
    let mut i: usize = 0;
    assert(s@.subrange(0, s@.len() as int) =~= s@);
    assert(crate::text::blen(Seq::<char>::empty()) == 0) by {
        assert(vstd::utf8::encode_utf8(Seq::<char>::empty()) =~= Seq::<u8>::empty());
    }
    while i < c.len()
        invariant
            c@ == s@,
            i <= c@.len(),
            len == blen(r@),
            len <= max_len,
            forall|j: int|
                0 <= j < crlf_kept(Seq::empty(), s@, max_len as nat).len() ==> crlf_kept(
                    Seq::empty(),
                    s@,
                    max_len as nat,
                )[j] != '\n' && crlf_kept(Seq::empty(), s@, max_len as nat)[j] != '\r',
            crlf_kept(r@, s@.subrange(i as int, s@.len() as int), max_len as nat) == crlf_kept(
                Seq::empty(),
                s@,
                max_len as nat,
            ),
        decreases c@.len() - i,
    {
        let ch = c[i];
        let ghost rest = s@.subrange(i as int, s@.len() as int);
        assert(rest[0] == ch);
        assert(rest.drop_first() =~= s@.subrange(i + 1, s@.len() as int));
        if ch != '\n' && ch != '\r' {
            let cl = char_len_utf8(ch);
            if cl <= max_len - len {
                proof {
                    lemma_blen_push(r@, ch);
                }
                push_char(&mut r, ch);
                len = len + cl;
            } else {
                return r;
            }
        }
        i += 1;
    }
    assert(s@.subrange(c@.len() as int, s@.len() as int) =~= Seq::<char>::empty());
    r
}

/// A header value cleaned by `remove_crlf` holds no line break and fits in
/// the size given.
pub proof fn lemma_remove_crlf_clean(acc: Seq<char>, input: Seq<char>, max: nat)
    requires
        forall|i: int| 0 <= i < acc.len() ==> acc[i] != '\n' && acc[i] != '\r',
        blen(acc) <= max,
    ensures
        forall|i: int|
            0 <= i < crlf_kept(acc, input, max).len() ==> crlf_kept(acc, input, max)[i] != '\n'
                && crlf_kept(acc, input, max)[i] != '\r',
        blen(crlf_kept(acc, input, max)) <= max,
    decreases input.len(),
{
    if input.len() > 0 {
        let c = input[0];
        if c == '\n' || c == '\r' {
            lemma_remove_crlf_clean(acc, input.drop_first(), max);
        } else if blen(acc) + blen(seq![c]) <= max {
            lemma_blen_push(acc, c);
            lemma_remove_crlf_clean(acc.push(c), input.drop_first(), max);
        }
    }
}

/// The characters of a header name given to `addheader` that are kept:
/// letters, digits (Unicode ones included) and `-`.
pub open spec fn kept_name(s: Seq<char>) -> Seq<char>
    decreases s.len(),
{
    if s.len() == 0 {
        seq![]
    } else if unicode_alphanumeric(s.last()) || s.last() == '-' {
        kept_name(s.drop_last()).push(s.last())
    } else {
        kept_name(s.drop_last())
    }
}

/// Keeps the letters, digits and `-` of a header name (see `kept_name`).
pub fn keep_name_chars(s: &str) -> (r: String)
    ensures
        r@ == kept_name(s@),
{
    let c = str_chars(s);
    let mut r = String::new();
    let mut i: usize = 0;
    while i < c.len()
        invariant
            c@ == s@,
            i <= c@.len(),
            r@ == kept_name(s@.take(i as int)),
        decreases c@.len() - i,
    {
        assert(s@.take(i + 1).drop_last() =~= s@.take(i as int));
        assert(s@.take(i + 1).last() == c@[i as int]);
        if char_is_alphanumeric(c[i]) || c[i] == '-' {
            push_char(&mut r, c[i]);
        }
        i += 1;
    }
    assert(s@.take(c@.len() as int) =~= s@);
    r
}

/// Two header names are the same as the message parser compares them:
/// two unknown names when their spellings agree (ASCII case aside), two
/// known names when they are the same name.
pub open spec fn same_header(a: (u8, Seq<char>), b: (u8, Seq<char>)) -> bool {
    if a.0 == OTHER_HEADER_ID && b.0 == OTHER_HEADER_ID {
        eq_ignore_ascii_case(a.1, b.1)
    } else if a.0 == OTHER_HEADER_ID || b.0 == OTHER_HEADER_ID {
        false
    } else {
        a.0 == b.0
    }
}

/// Compares two header names (see `same_header`).
pub fn same_header_name(a: &HeaderName, b: &HeaderName) -> (r: bool)
    ensures
        r == same_header(a@, b@),
{
    if a.id == OTHER_HEADER_ID && b.id == OTHER_HEADER_ID {
        str_eq_ignore_ascii_case(a.name.as_str(), b.name.as_str())
    } else if a.id == OTHER_HEADER_ID || b.id == OTHER_HEADER_ID {
        false
    } else {
        a.id == b.id
    }
}

/// `list` holds a name that is the same header as `h`.
pub open spec fn holds_header(list: Seq<(u8, Seq<char>)>, h: (u8, Seq<char>)) -> bool {
    exists|i: int| 0 <= i < list.len() && same_header(#[trigger] list[i], h)
}

pub open spec fn names_view(v: Seq<HeaderName>) -> Seq<(u8, Seq<char>)> {
    v.map_values(|h: HeaderName| h@)
}

/// Whether `names` holds a name that is the same header as `h` (see
/// `holds_header`).
pub fn holds_name(names: &Vec<HeaderName>, h: &HeaderName) -> (r: bool)
    ensures
        r == holds_header(names_view(names@), h@),
{
    let ghost pv = names_view(names@);
    let mut i: usize = 0;
    while i < names.len()
        invariant
            i <= names@.len(),
            pv == names_view(names@),
            forall|j: int| 0 <= j < i ==> !same_header(#[trigger] pv[j], h@),
        decreases names@.len() - i,
    {
        assert(pv[i as int] == names@[i as int]@);
        if same_header_name(&names[i], h) {
            return true;
        }
        i += 1;
    }
    false
}

/// What `addheader` adds: nothing when the name, once cut down to its
/// letters, digits and `-`, is not a header name or names a protected
/// header; otherwise that header with the value cleaned by `remove_crlf`.
pub open spec fn addheader_decision(
    name: Seq<char>,
    value: Seq<char>,
    protected: Seq<(u8, Seq<char>)>,
    max_len: usize,
) -> Option<((u8, Seq<char>), Seq<char>)> {
    let n = kept_name(name);
    if is_header_name(n) && !holds_header(protected, header_name_parse(n)) {
        Some((header_name_parse(n), crlf_kept(Seq::empty(), value, max_len as nat)))
    } else {
        None
    }
}

/// Decides what `addheader` adds (see `addheader_decision`).
pub fn plan_addheader(name: &str, value: &str, protected: &Vec<HeaderName>, max_len: usize) -> (r: Option<
    (HeaderName, String),
>)
    ensures
        match r {
            Some((h, v)) => addheader_decision(name@, value@, names_view(protected@), max_len) == Some(
                (h@, v@),
            ),
            None => addheader_decision(name@, value@, names_view(protected@), max_len) is None,
        },
{
    let kept = keep_name_chars(name);
    if kept.unicode_len() == 0 {
        return None;
    }
    match parse_header_name(kept.as_str()) {
        Some(h) => {
            if holds_name(protected, &h) {
                None
            } else {
                Some((h, remove_crlf(value, max_len)))
            }
        },
        None => None,
    }
}

/// Which header `deleteheader` deletes: the one the name parses to, unless
/// the name does not parse or the host protects that header.
pub open spec fn deleteheader_target(name: Seq<char>, protected: Seq<(u8, Seq<char>)>) -> Option<(u8, Seq<char>)> {
    if is_header_name(name) && !holds_header(protected, header_name_parse(name)) {
        Some(header_name_parse(name))
    } else {
        None
    }
}

/// Decides which header `deleteheader` deletes (see
/// `deleteheader_target`).
pub fn plan_deleteheader(name: &str, protected: &Vec<HeaderName>) -> (r: Option<HeaderName>)
    ensures
        match deleteheader_target(name@, names_view(protected@)) {
            Some(h) => r matches Some(x) && x@ == h,
            None => r is None,
        },
{
    match parse_header_name(name) {
        Some(h) => if holds_name(protected, &h) {
            None
        } else {
            Some(h)
        },
        None => None,
    }
}

} // verus!

verus! {

/// `addheader` never adds a header the host protects, and the value it
/// adds holds no line break and fits in the size given.
pub proof fn lemma_addheader_safe(name: Seq<char>, value: Seq<char>, protected: Seq<(u8, Seq<char>)>, max_len: usize)
    ensures
        addheader_decision(name, value, protected, max_len) matches Some((h, v)) ==> {
            &&& !(exists|i: int| 0 <= i < protected.len() && same_header(#[trigger] protected[i], h))
            &&& forall|i: int| 0 <= i < v.len() ==> v[i] != '\n' && v[i] != '\r'
            &&& blen(v) <= max_len
        },
{
    assert(blen(Seq::<char>::empty()) == 0) by {
        assert(vstd::utf8::encode_utf8(Seq::<char>::empty()) =~= Seq::<u8>::empty());
    }
    lemma_remove_crlf_clean(Seq::empty(), value, max_len as nat);
}

/// `deleteheader` never deletes a header the host protects, and deletes
/// the header the name reads when it is not protected.
pub proof fn lemma_deleteheader_safe(name: Seq<char>, protected: Seq<(u8, Seq<char>)>)
    ensures
        deleteheader_target(name, protected) matches Some(h) ==> h == header_name_parse(name) && !(exists|i: int|
            0 <= i < protected.len() && same_header(#[trigger] protected[i], h)),
        is_header_name(name) && !(exists|i: int|
            0 <= i < protected.len() && same_header(#[trigger] protected[i], header_name_parse(name)))
            ==> deleteheader_target(name, protected) == Some(header_name_parse(name)),
{
}

} // verus!
