//! Replacing and enclosing the message (RFC 5703): the headers the new
//! message keeps and gets; and the text that `extracttext` takes from a
//! part.

use crate::header::{header_name_parse, is_header_name, parse_header_name, HeaderName, OTHER_HEADER_ID};
use crate::runtime::actions::action_convert::{html_text_of, PartBody};
use crate::runtime::actions::action_editheader::{crlf_kept, holds_header, holds_name, names_view, remove_crlf};
use crate::runtime::actions::action_notify::{
    headers_view, names_header, HeaderView, CC_HEADER_ID, BCC_HEADER_ID, DATE_HEADER_ID, FROM_HEADER_ID,
    MESSAGE_ID_HEADER_ID, SUBJECT_HEADER_ID, TO_HEADER_ID,
};
use crate::runtime::platform::{is_message_id, make_boundary, rfc822_date, rfc822_date_of, write_message_id};
use crate::text::{lemma_encode_concat, str_chars, string_from_utf8, trim_str, trimmed};
use vstd::prelude::*;
use vstd::string::StringSliceAdditionalSpecFns;
use vstd::utf8::{decode_utf8, encode_utf8, encode_utf8_decode_utf8, encode_utf8_valid_utf8};

verus! {

/// Number of the `Received` header.
pub const RECEIVED_HEADER_ID: u8 = 11;

/// A header made by the interpreter: unknown to the parser, spelled `name`.
pub open spec fn made(name: Seq<char>) -> HeaderView {
    (OTHER_HEADER_ID, name)
}

fn made_header(name: &str) -> (r: HeaderName)
    ensures
        r@ == made(name@),
{
    HeaderName::other(name.to_string())
}

/// What `replace` keeps of one header of the message: the subject and the
/// sender (renamed `Original-Subject` and `Original-From` when the
/// replacement sets its own), the recipients, the `Received` trail and the
/// date; nothing else.
pub open spec fn replace_kept(h: HeaderView, has_subject: bool, has_from: bool) -> Option<HeaderView> {
    if h.0 == SUBJECT_HEADER_ID {
        Some(
            if has_subject {
                made("Original-Subject"@)
            } else {
                h
            },
        )
    } else if h.0 == FROM_HEADER_ID {
        Some(
            if has_from {
                made("Original-From"@)
            } else {
                h
            },
        )
    } else if h.0 == TO_HEADER_ID || h.0 == CC_HEADER_ID || h.0 == BCC_HEADER_ID || h.0 == RECEIVED_HEADER_ID
        || h.0 == DATE_HEADER_ID {
        Some(h)
    } else {
        None
    }
}

/// The headers `replace` keeps, in order, with their values.
pub open spec fn replace_kept_headers(
    hs: Seq<(HeaderView, Seq<char>)>,
    has_subject: bool,
    has_from: bool,
) -> Seq<(HeaderView, Seq<char>)>
    decreases hs.len(),
{
    if hs.len() == 0 {
        seq![]
    } else {
        replace_kept_headers(hs.drop_last(), has_subject, has_from) + match replace_kept(
            hs.last().0,
            has_subject,
            has_from,
        ) {
            Some(n) => seq![(n, hs.last().1)],
            None => seq![],
        }
    }
}

/// Keeps the headers of the message that `replace` keeps (see
/// `replace_kept_headers`).
pub fn replace_keep_headers(headers: &Vec<(HeaderName, String)>, has_subject: bool, has_from: bool) -> (r: Vec<
    (HeaderName, String),
>)
    ensures
        headers_view(r@) == replace_kept_headers(headers_view(headers@), has_subject, has_from),
{
    let ghost hv = headers_view(headers@);
    let mut r: Vec<(HeaderName, String)> = Vec::new();
    let mut i: usize = 0;
    while i < headers.len()
        invariant
            i <= headers@.len(),
            hv == headers_view(headers@),
            headers_view(r@) == replace_kept_headers(hv.take(i as int), has_subject, has_from),
        decreases headers@.len() - i,
    {
        let ghost before = headers_view(r@);
        assert(hv.take(i + 1).drop_last() =~= hv.take(i as int));
        assert(hv.take(i + 1).last() == hv[i as int]);
        let h = &headers[i].0;
        let v = &headers[i].1;
        assert(hv[i as int] == (h@, v@));
        let kept: Option<HeaderName> = if h.id == SUBJECT_HEADER_ID {
            Some(
                if has_subject {
                    made_header("Original-Subject")
                } else {
                    HeaderName { id: h.id, name: h.name.clone() }
                },
            )
        } else if h.id == FROM_HEADER_ID {
            Some(
                if has_from {
                    made_header("Original-From")
                } else {
                    HeaderName { id: h.id, name: h.name.clone() }
                },
            )
        } else if h.id == TO_HEADER_ID || h.id == CC_HEADER_ID || h.id == BCC_HEADER_ID || h.id
            == RECEIVED_HEADER_ID || h.id == DATE_HEADER_ID {
            Some(HeaderName { id: h.id, name: h.name.clone() })
        } else {
            None
        };
        match kept {
            Some(n) => {
                let ghost nv = n@;
                r.push((n, v.clone()));
                assert(headers_view(r@) =~= before + seq![(nv, v@)]);
            },
            None => {
                assert(headers_view(r@) =~= before + Seq::<(HeaderView, Seq<char>)>::empty());
            },
        }
        i += 1;
    }
    assert(hv.take(headers@.len() as int) =~= hv);
    r
}

/// The sender of the message stays: the replacement sets none, and the
/// kept headers hold a `From`.
pub open spec fn sender_kept(kept: Seq<(HeaderView, Seq<char>)>, has_from: bool) -> bool {
    !has_from && names_header(kept, FROM_HEADER_ID)
}

/// A text that is given and not empty.
pub open spec fn given(o: Option<Seq<char>>) -> bool {
    match o {
        Some(x) => x.len() > 0,
        None => false,
    }
}

/// The headers `replace` adds to the top of the new message: `From` (the
/// one given, cleaned by `remove_crlf`, else the user's own unless the
/// message's sender was kept), `Subject` when one is given, `Date` unless
/// the message's date was kept, and `Message-ID`.
pub open spec fn replace_added(
    from: Option<Seq<char>>,
    subject: Option<Seq<char>>,
    user_from: Seq<char>,
    kept_sender: bool,
    kept_date: bool,
    date: Seq<char>,
    message_id: Seq<char>,
    max_len: usize,
) -> Seq<(HeaderView, Seq<char>)> {
    (if given(from) {
        seq![(made("From"@), crlf_kept(Seq::empty(), from.unwrap(), max_len as nat))]
    } else if !kept_sender {
        seq![(made("From"@), user_from)]
    } else {
        seq![]
    }) + (if given(subject) {
        seq![(made("Subject"@), crlf_kept(Seq::empty(), subject.unwrap(), max_len as nat))]
    } else {
        seq![]
    }) + (if !kept_date {
        seq![(made("Date"@), date)]
    } else {
        seq![]
    }) + seq![(made("Message-ID"@), message_id)]
}

/// Builds the headers `replace` adds (see `replace_added`); `kept` is what
/// `replace_keep_headers` kept, `has_from` whether the replacement sets a
/// sender.
pub fn replace_added_headers(
    kept: &Vec<(HeaderName, String)>,
    has_from: bool,
    from: Option<&str>,
    subject: Option<&str>,
    user_from: &str,
    date: &str,
    message_id: &str,
    max_len: usize,
) -> (r: Vec<(HeaderName, String)>)
    ensures
        headers_view(r@) == replace_added(
            crate::runtime::actions::action_convert::opt_str(from),
            crate::runtime::actions::action_convert::opt_str(subject),
            user_from@,
            sender_kept(headers_view(kept@), has_from),
            names_header(headers_view(kept@), DATE_HEADER_ID),
            date@,
            message_id@,
            max_len,
        ),
{
    let kept_from = crate::runtime::actions::action_notify::names_header_exec(kept, FROM_HEADER_ID);
    let kept_date = crate::runtime::actions::action_notify::names_header_exec(kept, DATE_HEADER_ID);
    let mut r: Vec<(HeaderName, String)> = Vec::new();
    let ghost s0 = headers_view(r@);
    let from_given = match from {
        Some(f) => f.unicode_len() > 0,
        None => false,
    };
    if from_given {
        let f = from.unwrap();
        r.push((made_header("From"), remove_crlf(f, max_len)));
    } else if !(!has_from && kept_from) {
        r.push((made_header("From"), user_from.to_string()));
    }
    let ghost s1 = headers_view(r@);
    let subject_given = match subject {
        Some(s) => s.unicode_len() > 0,
        None => false,
    };
    if subject_given {
        let s = subject.unwrap();
        r.push((made_header("Subject"), remove_crlf(s, max_len)));
    }
    let ghost s2 = headers_view(r@);
    if !kept_date {
        r.push((made_header("Date"), date.to_string()));
    }
    let ghost s3 = headers_view(r@);
    r.push((made_header("Message-ID"), message_id.to_string()));
    assert(headers_view(r@) =~= replace_added(
        crate::runtime::actions::action_convert::opt_str(from),
        crate::runtime::actions::action_convert::opt_str(subject),
        user_from@,
        sender_kept(headers_view(kept@), has_from),
        names_header(headers_view(kept@), DATE_HEADER_ID),
        date@,
        message_id@,
        max_len,
    ));
    r
}

/// The position of the first `:` in `s`.
pub open spec fn first_colon_at(s: Seq<char>) -> Option<int>
    decreases s.len(),
{
    if s.len() == 0 {
        None
    } else if s[0] == ':' {
        Some(0)
    } else {
        match first_colon_at(s.drop_first()) {
            Some(k) => Some(k + 1),
            None => None,
        }
    }
}

/// A header line given to `enclose`: its name and value (split at the first
/// `:`, white space trimmed); nothing when there is no `:`, the value is
/// empty, the name is not a header name or names a protected header. The
/// value is cleaned by `remove_crlf`, and the parsed name is kept to know
/// which header it is.
pub open spec fn enclose_header(
    text: Seq<char>,
    protected: Seq<HeaderView>,
    max_len: usize,
) -> Option<(Seq<char>, Seq<char>, HeaderView)> {
    match first_colon_at(text) {
        Some(k) => {
            let n = trimmed(text.take(k));
            let v = trimmed(text.skip(k + 1));
            if v.len() > 0 && is_header_name(n) && !holds_header(protected, header_name_parse(n)) {
                Some((n, crlf_kept(Seq::empty(), v, max_len as nat), header_name_parse(n)))
            } else {
                None
            }
        },
        None => None,
    }
}

proof fn lemma_first_colon_at(s: Seq<char>)
    ensures
        first_colon_at(s) matches Some(k) ==> 0 <= k < s.len() && s[k] == ':' && forall|j: int|
            0 <= j < k ==> s[j] != ':',
        first_colon_at(s) is None ==> forall|j: int| 0 <= j < s.len() ==> s[j] != ':',
    decreases s.len(),
{
    if s.len() > 0 {
        lemma_first_colon_at(s.drop_first());
        if s[0] != ':' {
            assert forall|j: int| 1 <= j < s.len() implies s.drop_first()[j - 1] == s[j] by {}
        }
    }
}

/// Reads a header line given to `enclose` (see `enclose_header`).
pub fn read_enclose_header(text: &str, protected: &Vec<HeaderName>, max_len: usize) -> (r: Option<
    (String, String, HeaderName),
>)
    ensures
        match r {
            Some((n, v, h)) => enclose_header(text@, names_view(protected@), max_len) == Some(
                (n@, v@, h@),
            ),
            None => enclose_header(text@, names_view(protected@), max_len) is None,
        },
{
    let c = str_chars(text);
    let mut k: usize = 0;
    while k < c.len() && c[k] != ':'
        invariant
            c@ == text@,
            k <= c@.len(),
            forall|j: int| 0 <= j < k ==> text@[j] != ':',
        decreases c@.len() - k,
    {
        k += 1;
    }
    proof {
        lemma_first_colon_at(text@);
        if k < c@.len() {
            match first_colon_at(text@) {
                Some(m) => {
                    if m < k {
                        assert(text@[m] != ':');
                    }
                    if m > k {
                        assert(text@[k as int] != ':');
                    }
                },
                None => {
                    assert(text@[k as int] != ':');
                },
            }
        }
    }
    if k == c.len() {
        return None;
    }
    let mut name_part = String::new();
    let mut i: usize = 0;
    while i < k
        invariant
            c@ == text@,
            k < c@.len(),
            i <= k,
            name_part@ == text@.take(i as int),
        decreases k - i,
    {
        crate::text::push_char(&mut name_part, c[i]);
        assert(text@.take(i + 1) =~= text@.take(i as int).push(c@[i as int]));
        i += 1;
    }
    let mut value_part = String::new();
    let mut j: usize = k + 1;
    while j < c.len()
        invariant
            c@ == text@,
            k < c@.len(),
            k + 1 <= j <= c@.len(),
            value_part@ == text@.subrange(k + 1, j as int),
        decreases c@.len() - j,
    {
        crate::text::push_char(&mut value_part, c[j]);
        assert(text@.subrange(k + 1, j + 1) =~= text@.subrange(k + 1, j as int).push(c@[j as int]));
        j += 1;
    }
    assert(text@.subrange(k + 1, c@.len() as int) =~= text@.skip(k + 1));
    let name = trim_str(name_part.as_str());
    let value = trim_str(value_part.as_str());
    if value.unicode_len() == 0 {
        return None;
    }
    match parse_header_name(name.as_str()) {
        Some(h) => {
            if holds_name(protected, &h) {
                None
            } else {
                Some((name, remove_crlf(value.as_str(), max_len), h))
            }
        },
        None => None,
    }
}

/// The header lines given to `enclose` that it adds, as read by
/// `enclose_header`, in order.
pub open spec fn enclose_added(
    texts: Seq<Seq<char>>,
    protected: Seq<HeaderView>,
    max_len: usize,
) -> Seq<(Seq<char>, Seq<char>, HeaderView)>
    decreases texts.len(),
{
    if texts.len() == 0 {
        seq![]
    } else {
        enclose_added(texts.drop_last(), protected, max_len) + match enclose_header(
            texts.last(),
            protected,
            max_len,
        ) {
            Some(x) => seq![x],
            None => seq![],
        }
    }
}

/// Some header that `enclose` adds is the known header `id`.
pub open spec fn encloses(added: Seq<(Seq<char>, Seq<char>, HeaderView)>, id: u8) -> bool {
    exists|i: int| 0 <= i < added.len() && #[trigger] added[i].2.0 == id
}

/// The headers of the top of an enclosing message: its content type (a
/// `multipart/mixed` with the boundary `boundary`), the subject, the header
/// lines given (each as an unknown header spelled as given), and then a
/// `From` (the user's), a `Date` and a `Message-ID`, each unless a line
/// given sets it.
pub open spec fn enclose_top(
    boundary: Seq<char>,
    subject: Seq<char>,
    added: Seq<(Seq<char>, Seq<char>, HeaderView)>,
    user_from: Seq<char>,
    date: Seq<char>,
    message_id: Seq<char>,
) -> Seq<(HeaderView, Seq<char>)> {
    seq![
        (made("Content-Type"@), "multipart/mixed; boundary=\""@ + boundary + "\""@),
        (made("Subject"@), subject),
    ] + added.map_values(|a: (Seq<char>, Seq<char>, HeaderView)| (made(a.0), a.1)) + (if encloses(
        added,
        FROM_HEADER_ID,
    ) {
        seq![]
    } else {
        seq![(made("From"@), user_from)]
    }) + (if encloses(added, DATE_HEADER_ID) {
        seq![]
    } else {
        seq![(made("Date"@), date)]
    }) + (if encloses(added, MESSAGE_ID_HEADER_ID) {
        seq![]
    } else {
        seq![(made("Message-ID"@), message_id)]
    })
}

/// Builds the headers of the top of an enclosing message (see
/// `enclose_top` and `enclose_added`).
pub fn enclose_top_headers(
    boundary: &str,
    subject: &str,
    lines: &Vec<String>,
    protected: &Vec<HeaderName>,
    max_len: usize,
    user_from: &str,
    date: &str,
    message_id: &str,
) -> (r: Vec<(HeaderName, String)>)
    ensures
        headers_view(r@) == enclose_top(
            boundary@,
            subject@,
            enclose_added(crate::runtime::actions::action_notify::strings_view(lines@), names_view(protected@), max_len),
            user_from@,
            date@,
            message_id@,
        ),
{
    let ghost lv = crate::runtime::actions::action_notify::strings_view(lines@);
    let ghost pv = names_view(protected@);
    let mut r: Vec<(HeaderName, String)> = Vec::new();
    let ct1 = crate::runtime::expression::concat("multipart/mixed; boundary=\"", boundary);
    let ct = crate::runtime::expression::concat(ct1.as_str(), "\"");
    r.push((made_header("Content-Type"), ct));
    r.push((made_header("Subject"), subject.to_string()));
    let ghost head = headers_view(r@);
    let mut has_from = false;
    let mut has_date = false;
    let mut has_id = false;
    let mut i: usize = 0;
    while i < lines.len()
        invariant
            i <= lines@.len(),
            lv == crate::runtime::actions::action_notify::strings_view(lines@),
            pv == names_view(protected@),
            headers_view(r@) == head + enclose_added(lv.take(i as int), pv, max_len).map_values(
                |a: (Seq<char>, Seq<char>, HeaderView)| (made(a.0), a.1),
            ),
            has_from == encloses(enclose_added(lv.take(i as int), pv, max_len), FROM_HEADER_ID),
            has_date == encloses(enclose_added(lv.take(i as int), pv, max_len), DATE_HEADER_ID),
            has_id == encloses(enclose_added(lv.take(i as int), pv, max_len), MESSAGE_ID_HEADER_ID),
        decreases lines@.len() - i,
    {
        let ghost prev = enclose_added(lv.take(i as int), pv, max_len);
        let ghost before = headers_view(r@);
        assert(lv.take(i + 1).drop_last() =~= lv.take(i as int));
        assert(lv.take(i + 1).last() == lines@[i as int]@);
        match read_enclose_header(lines[i].as_str(), protected, max_len) {
            Some((n, v, h)) => {
                let ghost item = (n@, v@, h@);
                let ghost next = prev + seq![item];
                assert(enclose_added(lv.take(i + 1), pv, max_len) == next);
                proof {
                    assert forall|id: u8| encloses(next, id) == (encloses(prev, id) || h@.0 == id) by {
                        if encloses(next, id) {
                            let j = choose|j: int| 0 <= j < next.len() && #[trigger] next[j].2.0 == id;
                            if j < prev.len() {
                                assert(prev[j] == next[j]);
                                assert(prev[j].2.0 == id);
                            } else {
                                assert(next[j] == item);
                            }
                        }
                        if encloses(prev, id) {
                            let j = choose|j: int| 0 <= j < prev.len() && #[trigger] prev[j].2.0 == id;
                            assert(next[j] == prev[j]);
                            assert(next[j].2.0 == id);
                        }
                        if h@.0 == id {
                            assert(next[prev.len() as int] == item);
                            assert(next[prev.len() as int].2.0 == id);
                        }
                    }
                }
                if h.id == FROM_HEADER_ID {
                    has_from = true;
                } else if h.id == DATE_HEADER_ID {
                    has_date = true;
                } else if h.id == MESSAGE_ID_HEADER_ID {
                    has_id = true;
                }
                let name = HeaderName::other(n);
                r.push((name, v));
                assert(next.map_values(|a: (Seq<char>, Seq<char>, HeaderView)| (made(a.0), a.1)) =~= prev.map_values(
                    |a: (Seq<char>, Seq<char>, HeaderView)| (made(a.0), a.1),
                ).push((made(item.0), item.1)));
                assert(headers_view(r@) =~= before.push((made(item.0), item.1)));
            },
            None => {
                assert(enclose_added(lv.take(i + 1), pv, max_len) =~= prev);
            },
        }
        i += 1;
    }
    assert(lv.take(lines@.len() as int) =~= lv);
    let ghost added = enclose_added(lv, pv, max_len);
    assert(enclose_added(lv.take(lines@.len() as int), pv, max_len) == added);
    let ghost mid = headers_view(r@);
    assert(mid == head + added.map_values(|a: (Seq<char>, Seq<char>, HeaderView)| (made(a.0), a.1)));
    if !has_from {
        r.push((made_header("From"), user_from.to_string()));
    }
    let ghost a = headers_view(r@);
    assert(a =~= mid + (if encloses(added, FROM_HEADER_ID) {
        seq![]
    } else {
        seq![(made("From"@), user_from@)]
    }));
    if !has_date {
        r.push((made_header("Date"), date.to_string()));
    }
    let ghost b = headers_view(r@);
    assert(b =~= a + (if encloses(added, DATE_HEADER_ID) {
        seq![]
    } else {
        seq![(made("Date"@), date@)]
    }));
    if !has_id {
        r.push((made_header("Message-ID"), message_id.to_string()));
    }
    assert(headers_view(r@) =~= b + (if encloses(added, MESSAGE_ID_HEADER_ID) {
        seq![]
    } else {
        seq![(made("Message-ID"@), message_id@)]
    }));
    assert(headers_view(r@) =~= enclose_top(
        boundary@,
        subject@,
        enclose_added(lv, pv, max_len),
        user_from@,
        date@,
        message_id@,
    ));
    r
}

/// The text `extracttext` takes from a part: the text of a text part, or
/// the text of an HTML part, cut to its first `first` characters when a
/// limit is given; empty text for other parts.
pub open spec fn extracted_text(body: Option<(bool, Seq<char>)>, first: Option<usize>) -> Seq<char> {
    match body {
        Some((is_html, content)) => {
            let t = if is_html {
                html_text_of(content)
            } else {
                content
            };
            match first {
                Some(n) => if n < t.len() {
                    t.take(n as int)
                } else {
                    t
                },
                None => t,
            }
        },
        None => seq![],
    }
}

/// Takes the text of a part (see `extracted_text`).
pub fn extract_text(body: &PartBody, first: Option<usize>) -> (r: String)
    ensures
        r@ == extracted_text(crate::runtime::actions::action_convert::body_view(*body), first),
{
    let t = match body {
        PartBody::Text(t) => t.clone(),
        PartBody::Html(h) => crate::runtime::actions::action_convert::html_to_text(h.as_str()),
        PartBody::Other => return String::new(),
    };
    match first {
        Some(n) => {
            let c = str_chars(t.as_str());
            if n < c.len() {
                let mut r = String::new();
                let mut i: usize = 0;
                while i < n
                    invariant
                        c@ == t@,
                        n < c@.len(),
                        i <= n,
                        r@ == t@.take(i as int),
                    decreases n - i,
                {
                    crate::text::push_char(&mut r, c[i]);
                    assert(t@.take(i + 1) =~= t@.take(i as int).push(c@[i as int]));
                    i += 1;
                }
                r
            } else {
                t
            }
        },
        None => t,
    }
}

/// The text of a message id: `<`, the unique part, `@`, the host name and
/// `>`.
pub open spec fn message_id_text(unique: Seq<char>, hostname: Seq<char>) -> Seq<char> {
    seq!['<'] + unique + seq!['@'] + hostname + seq!['>']
}

/// An ASCII character is the one byte of its code.
proof fn lemma_ascii_encoding(c: char)
    requires
        (c as u32) < 128,
    ensures
        encode_utf8(seq![c]) == seq![c as u32 as u8],
{
    let v: u32 = c as u32;
    assert(v & 0x7F == v) by (bit_vector)
        requires
            v < 128,
    ;
    assert(seq![c].drop_first() =~= Seq::<char>::empty());
    assert(encode_utf8(Seq::<char>::empty()) == Seq::<u8>::empty());
    assert(seq![c][0] == c);
    assert(vstd::utf8::has_width_1_encoding(v));
    assert(vstd::utf8::encode_scalar(v) == seq![vstd::utf8::leading_byte_width_1(v)]);
    assert(vstd::utf8::leading_byte_width_1(v) == v as u8);
    assert(encode_utf8(seq![c]) == vstd::utf8::encode_scalar(v) + encode_utf8(seq![c].drop_first()));
    assert(encode_utf8(seq![c]) =~= seq![c as u32 as u8]);
}

/// A fresh message id for the host `hostname`, as text: `<`, a unique
/// part, `@`, the host name and `>` (see `message_id_text`).
pub fn generate_message_id(hostname: &str) -> (r: String)
    ensures
        exists|unique: Seq<char>| #[trigger] message_id_text(unique, hostname@) == r@,
{
    let mut id: Vec<u8> = Vec::new();
    write_message_id(&mut id, hostname);
    assert(id@.subrange(0, id@.len() as int) =~= id@);
    let ghost bytes = id@;
    proof {
        let u = choose|unique: Seq<char>|
            bytes == seq![60u8] + encode_utf8(unique) + seq![64u8] + hostname.spec_bytes() + seq![62u8];
        lemma_ascii_encoding('<');
        lemma_ascii_encoding('@');
        lemma_ascii_encoding('>');
        let t = message_id_text(u, hostname@);
        lemma_encode_concat(seq!['<'], u);
        lemma_encode_concat(seq!['<'] + u, seq!['@']);
        lemma_encode_concat(seq!['<'] + u + seq!['@'], hostname@);
        lemma_encode_concat(seq!['<'] + u + seq!['@'] + hostname@, seq!['>']);
        assert(bytes == encode_utf8(t));
        encode_utf8_valid_utf8(t);
        encode_utf8_decode_utf8(t);
        assert(message_id_text(u, hostname@) == decode_utf8(bytes));
    }
    match string_from_utf8(id) {
        Some(s) => s,
        None => String::new(),
    }
}

/// Builds the headers of the top of an enclosing message with a fresh
/// boundary, the date of `current_time` and a fresh message id for
/// `hostname`; gives back the boundary too.
pub fn build_enclose_headers(
    subject: &str,
    lines: &Vec<String>,
    protected: &Vec<HeaderName>,
    max_len: usize,
    user_from: &str,
    current_time: i64,
    hostname: &str,
) -> (r: (String, Vec<(HeaderName, String)>))
    ensures
        crate::runtime::platform::is_boundary_text(r.0@),
        exists|id: Seq<char>|
            #![trigger enclose_top(r.0@, subject@, enclose_added(crate::runtime::actions::action_notify::strings_view(lines@), names_view(protected@), max_len), user_from@, rfc822_date_of(current_time), id)]
            headers_view(r.1@) == enclose_top(
                r.0@,
                subject@,
                enclose_added(
                    crate::runtime::actions::action_notify::strings_view(lines@),
                    names_view(protected@),
                    max_len,
                ),
                user_from@,
                rfc822_date_of(current_time),
                id,
            ),
{
    let boundary = make_boundary();
    let date = rfc822_date(current_time);
    let id = generate_message_id(hostname);
    let headers = enclose_top_headers(
        boundary.as_str(),
        subject,
        lines,
        protected,
        max_len,
        user_from,
        date.as_str(),
        id.as_str(),
    );
    let r = (boundary, headers);
    assert(headers_view(r.1@) == enclose_top(
        r.0@,
        subject@,
        enclose_added(crate::runtime::actions::action_notify::strings_view(lines@), names_view(protected@), max_len),
        user_from@,
        rfc822_date_of(current_time),
        id@,
    ));
    r
}

/// Builds the headers `replace` adds, with the date of `current_time` and a
/// fresh message id for `hostname` (see `replace_added_headers`).
pub fn build_replace_added_headers(
    kept: &Vec<(HeaderName, String)>,
    has_from: bool,
    from: Option<&str>,
    subject: Option<&str>,
    user_from: &str,
    current_time: i64,
    hostname: &str,
    max_len: usize,
) -> (r: Vec<(HeaderName, String)>)
    ensures
        exists|id: Seq<char>|
            #![trigger replace_added(crate::runtime::actions::action_convert::opt_str(from), crate::runtime::actions::action_convert::opt_str(subject), user_from@, sender_kept(headers_view(kept@), has_from), names_header(headers_view(kept@), DATE_HEADER_ID), rfc822_date_of(current_time), id, max_len)]
            headers_view(r@) == replace_added(
                crate::runtime::actions::action_convert::opt_str(from),
                crate::runtime::actions::action_convert::opt_str(subject),
                user_from@,
                sender_kept(headers_view(kept@), has_from),
                names_header(headers_view(kept@), DATE_HEADER_ID),
                rfc822_date_of(current_time),
                id,
                max_len,
            ),
{
    let date = rfc822_date(current_time);
    let id = generate_message_id(hostname);
    replace_added_headers(kept, has_from, from, subject, user_from, date.as_str(), id.as_str(), max_len)
}

} // verus!

verus! {

/// `replace` keeps each `To`, `Cc`, `Bcc`, `Received` and `Date` header of
/// the message as it is, in its place among the headers kept.
pub proof fn lemma_replace_keeps_recipients_trail_and_date(
    hs: Seq<(HeaderView, Seq<char>)>,
    h: HeaderView,
    v: Seq<char>,
    has_subject: bool,
    has_from: bool,
)
    requires
        h.0 == TO_HEADER_ID || h.0 == CC_HEADER_ID || h.0 == BCC_HEADER_ID || h.0 == RECEIVED_HEADER_ID || h.0
            == DATE_HEADER_ID,
    ensures
        replace_kept_headers(hs.push((h, v)), has_subject, has_from) == replace_kept_headers(
            hs,
            has_subject,
            has_from,
        ).push((h, v)),
{
    assert(hs.push((h, v)).drop_last() =~= hs);
}

/// `replace` keeps the subject and the sender, renamed `Original-Subject`
/// and `Original-From` when the replacement sets its own, and drops every
/// other header.
pub proof fn lemma_replace_drops_the_rest(
    hs: Seq<(HeaderView, Seq<char>)>,
    h: HeaderView,
    v: Seq<char>,
    has_subject: bool,
    has_from: bool,
)
    ensures
        h.0 == SUBJECT_HEADER_ID ==> replace_kept_headers(hs.push((h, v)), has_subject, has_from)
            == replace_kept_headers(hs, has_subject, has_from).push(
            (if has_subject { made("Original-Subject"@) } else { h }, v),
        ),
        h.0 == FROM_HEADER_ID ==> replace_kept_headers(hs.push((h, v)), has_subject, has_from)
            == replace_kept_headers(hs, has_subject, has_from).push(
            (if has_from { made("Original-From"@) } else { h }, v),
        ),
        !(h.0 == SUBJECT_HEADER_ID || h.0 == FROM_HEADER_ID || h.0 == TO_HEADER_ID || h.0 == CC_HEADER_ID || h.0
            == BCC_HEADER_ID || h.0 == RECEIVED_HEADER_ID || h.0 == DATE_HEADER_ID) ==> replace_kept_headers(
            hs.push((h, v)),
            has_subject,
            has_from,
        ) == replace_kept_headers(hs, has_subject, has_from),
{
    assert(hs.push((h, v)).drop_last() =~= hs);
    assert(replace_kept_headers(hs, has_subject, has_from) + Seq::<(HeaderView, Seq<char>)>::empty() =~= replace_kept_headers(hs, has_subject, has_from));
}

/// The headers `replace` adds end with the new `Message-ID`; the `From`
/// comes first: the one given, cleaned of line breaks, else the user's own
/// unless the message's sender was kept; a `Date` is added exactly when the
/// message's date was not kept.
pub proof fn lemma_replace_added_shape(
    from: Option<Seq<char>>,
    subject: Option<Seq<char>>,
    user_from: Seq<char>,
    kept_sender: bool,
    kept_date: bool,
    date: Seq<char>,
    message_id: Seq<char>,
    max_len: usize,
)
    ensures
        ({
            let r = replace_added(from, subject, user_from, kept_sender, kept_date, date, message_id, max_len);
            &&& r.len() > 0 && r.last() == (made("Message-ID"@), message_id)
            &&& (from is Some && from.unwrap().len() > 0) ==> r[0] == (made("From"@), crlf_kept(Seq::empty(), from.unwrap(), max_len as nat))
            &&& !(from is Some && from.unwrap().len() > 0) && !kept_sender ==> r[0] == (made("From"@), user_from)
            &&& !(from is Some && from.unwrap().len() > 0) && kept_sender ==> !(exists|i: int| 0 <= i < r.len() && #[trigger] r[i].0 == made("From"@))
            &&& kept_date ==> !(exists|i: int| 0 <= i < r.len() && #[trigger] r[i].0 == made("Date"@))
            &&& !kept_date ==> exists|i: int| 0 <= i < r.len() && #[trigger] r[i] == (made("Date"@), date)
        }),
{
    reveal_strlit("From");
    reveal_strlit("Subject");
    reveal_strlit("Date");
    reveal_strlit("Message-ID");
    let r = replace_added(from, subject, user_from, kept_sender, kept_date, date, message_id, max_len);
    assert("From"@ != "Date"@) by { assert("From"@[0] != "Date"@[0]); }
    assert("Subject"@.len() == 7 && "From"@.len() == 4 && "Date"@.len() == 4);
    assert("Message-ID"@ != "From"@);
    assert("Message-ID"@ != "Date"@);
    let fpart = if given(from) {
        seq![(made("From"@), crlf_kept(Seq::empty(), from.unwrap(), max_len as nat))]
    } else if !kept_sender {
        seq![(made("From"@), user_from)]
    } else {
        seq![]
    };
    let spart = if given(subject) {
        seq![(made("Subject"@), crlf_kept(Seq::empty(), subject.unwrap(), max_len as nat))]
    } else {
        seq![]
    };
    let dpart = if !kept_date {
        seq![(made("Date"@), date)]
    } else {
        seq![]
    };
    let mpart = seq![(made("Message-ID"@), message_id)];
    assert(r == fpart + spart + dpart + mpart);
    if !kept_date {
        let k = (fpart.len() + spart.len()) as int;
        assert(r[k] == (made("Date"@), date));
    }
}

/// The top of an enclosing message starts with its `multipart/mixed`
/// content type (naming the boundary) and the subject, and carries a
/// `From`, a `Date` and a `Message-ID` of its own exactly when no header
/// line given sets one.
pub proof fn lemma_enclose_top_shape(
    boundary: Seq<char>,
    subject: Seq<char>,
    added: Seq<(Seq<char>, Seq<char>, HeaderView)>,
    user_from: Seq<char>,
    date: Seq<char>,
    message_id: Seq<char>,
)
    ensures
        ({
            let r = enclose_top(boundary, subject, added, user_from, date, message_id);
            &&& r.len() >= 2
            &&& r[0] == (made("Content-Type"@), "multipart/mixed; boundary=\""@ + boundary + "\""@)
            &&& r[1] == (made("Subject"@), subject)
            &&& r.subrange(2, 2 + added.len() as int) == added.map_values(|a: (Seq<char>, Seq<char>, HeaderView)| (made(a.0), a.1))
            &&& !(exists|i: int| 0 <= i < added.len() && #[trigger] added[i].2.0 == FROM_HEADER_ID) ==> r.contains((made("From"@), user_from))
            &&& !(exists|i: int| 0 <= i < added.len() && #[trigger] added[i].2.0 == DATE_HEADER_ID) ==> r.contains((made("Date"@), date))
            &&& !(exists|i: int| 0 <= i < added.len() && #[trigger] added[i].2.0 == MESSAGE_ID_HEADER_ID) ==> r.last() == (made("Message-ID"@), message_id)
        }),
{
    let r = enclose_top(boundary, subject, added, user_from, date, message_id);
    let head = seq![
        (made("Content-Type"@), "multipart/mixed; boundary=\""@ + boundary + "\""@),
        (made("Subject"@), subject),
    ];
    let mid = added.map_values(|a: (Seq<char>, Seq<char>, HeaderView)| (made(a.0), a.1));
    let f = if encloses(added, FROM_HEADER_ID) { Seq::empty() } else { seq![(made("From"@), user_from)] };
    let d = if encloses(added, DATE_HEADER_ID) { Seq::empty() } else { seq![(made("Date"@), date)] };
    let m = if encloses(added, MESSAGE_ID_HEADER_ID) { Seq::empty() } else { seq![(made("Message-ID"@), message_id)] };
    assert(r == head + mid + f + d + m);
    assert(r.subrange(2, 2 + added.len() as int) =~= mid);
    if !encloses(added, FROM_HEADER_ID) {
        assert(r[(2 + mid.len()) as int] == (made("From"@), user_from));
    }
    if !encloses(added, DATE_HEADER_ID) {
        assert(r[(2 + mid.len() + f.len()) as int] == (made("Date"@), date));
    }
}

/// `extracttext` gives the start of the part's text: all of it, or its
/// first `n` characters when a limit `n` is given; empty text for a part
/// that is neither text nor HTML.
pub proof fn lemma_extracted_text_prefix(body: Option<(bool, Seq<char>)>, first: Option<usize>)
    ensures
        body is None ==> extracted_text(body, first).len() == 0,
        body matches Some((is_html, content)) ==> {
            let t = if is_html { html_text_of(content) } else { content };
            &&& t.take(extracted_text(body, first).len() as int) == extracted_text(body, first)
            &&& extracted_text(body, first).len() <= t.len()
            &&& first matches Some(n) ==> extracted_text(body, first).len() == if n < t.len() { n as int } else { t.len() as int }
            &&& first is None ==> extracted_text(body, first) == t
        },
{
    match body {
        Some((is_html, content)) => {
            let t = if is_html { html_text_of(content) } else { content };
            assert(t.take(t.len() as int) =~= t);
            match first {
                Some(n) => {
                    if n < t.len() {
                        assert(t.take(n as int).len() == n);
                        assert(t.take(n as int) =~= t.take(n as int).take(n as int));
                    }
                },
                None => {},
            }
        },
        None => {},
    }
}

} // verus!
