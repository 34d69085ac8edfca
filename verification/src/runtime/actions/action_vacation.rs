//! Vacation responses (RFC 5230): the subject of a response and the
//! response message itself.

use crate::runtime::actions::action_notify::strings_view;
use crate::runtime::platform::{is_message_id, rfc822_date_now, rfc822_date_of, write_message_id};
use crate::compiler::grammar::{ByTime, Notify, Ret};
use crate::runtime::disposition::Disposition;
use crate::runtime::handler::{Action, MessageSource, Recipient};
use crate::runtime::queue::ActionQueue;
use vstd::prelude::*;
use vstd::string::StringSliceAdditionalSpecFns;
use vstd::utf8::encode_utf8;
use crate::text::{trimmed, trim_str};

verus! {

/// Appends the header line `name` `value` CRLF to `buf`; `name` holds the
/// colon and the space.
pub fn write_header(buf: &mut Vec<u8>, name: &str, value: &str)
    ensures
        final(buf)@ == old(buf)@ + name.spec_bytes() + value.spec_bytes() + seq![13u8, 10],
{
    crate::text::extend_bytes(buf, name.as_bytes());
    crate::text::extend_bytes(buf, value.as_bytes());
    buf.push(13);
    buf.push(10);
    assert(buf@ =~= old(buf)@ + name.spec_bytes() + value.spec_bytes() + seq![13u8, 10]);
}

/// The longest subject, in characters, that a response carries.
pub const MAX_SUBJECT_LEN: usize = 256;

/// A subject as a response carries it: its first `MAX_SUBJECT_LEN`
/// characters, then an ellipsis when more than one character was cut off.
/// The character just past the limit is read while cutting, so a subject
/// one character too long loses that character and gets no ellipsis.
pub open spec fn subject_text(s: Seq<char>) -> Seq<char> {
    if s.len() <= MAX_SUBJECT_LEN {
        s
    } else if s.len() == MAX_SUBJECT_LEN + 1 {
        s.take(MAX_SUBJECT_LEN as int)
    } else {
        s.take(MAX_SUBJECT_LEN as int).push('\u{2026}')
    }
}

/// A cut subject keeps the subject's first characters, at most
/// `MAX_SUBJECT_LEN` of them, and adds at most the ellipsis; a subject that
/// fits is kept whole.
pub proof fn lemma_subject_text_keeps_prefix(s: Seq<char>)
    ensures
        subject_text(s).len() <= MAX_SUBJECT_LEN + 1,
        s.len() <= MAX_SUBJECT_LEN ==> subject_text(s) == s,
        s.len() > MAX_SUBJECT_LEN ==> subject_text(s).take(MAX_SUBJECT_LEN as int) == s.take(
            MAX_SUBJECT_LEN as int,
        ),
{
    if s.len() > MAX_SUBJECT_LEN + 1 {
        assert(subject_text(s).take(MAX_SUBJECT_LEN as int) =~= s.take(MAX_SUBJECT_LEN as int));
    }
}

/// Cuts a subject to the length a response carries (see `subject_text`).
pub fn truncate_subject(s: &str) -> (r: String)
    ensures
        r@ == subject_text(s@),
{
    let c = crate::text::str_chars(s);
    let n = c.len();
    let keep = if n < MAX_SUBJECT_LEN {
        n
    } else {
        MAX_SUBJECT_LEN
    };
    let mut r = String::new();
    let mut i: usize = 0;
    while i < keep
        invariant
            c@ == s@,
            n == c@.len(),
            keep <= n,
            keep == (if n < MAX_SUBJECT_LEN { n } else { MAX_SUBJECT_LEN }),
            i <= keep,
            r@ == s@.take(i as int),
        decreases keep - i,
    {
        crate::text::push_char(&mut r, c[i]);
        assert(s@.take(i + 1) =~= s@.take(i as int).push(c@[i as int]));
        i += 1;
    }
    if n > MAX_SUBJECT_LEN + 1 {
        crate::text::push_char(&mut r, '\u{2026}');
    }
    proof {
        if n <= MAX_SUBJECT_LEN {
            assert(s@.take(n as int) =~= s@);
        }
    }
    r
}

/// The subject of a vacation response made from the original subject: the
/// configured prefix and the subject, cut as `subject_text` says.
pub fn vacation_subject(prefix: &str, subject: &str) -> (r: String)
    ensures
        r@ == subject_text(prefix@ + subject@),
{
    let joined = crate::runtime::expression::concat(prefix, subject);
    truncate_subject(joined.as_str())
}

/// The user's full name for a `From` header: each `"` and `\` escaped with
/// a backslash.
pub open spec fn escaped_name(s: Seq<char>) -> Seq<char>
    decreases s.len(),
{
    if s.len() == 0 {
        Seq::empty()
    } else {
        let c = s.last();
        escaped_name(s.drop_last()) + if c == '"' || c == '\\' {
            seq!['\\', c]
        } else {
            seq![c]
        }
    }
}

/// Escapes the user's full name (see `escaped_name`).
pub fn escape_full_name(name: &str) -> (r: String)
    ensures
        r@ == escaped_name(name@),
{
    let c = crate::text::str_chars(name);
    let mut r = String::new();
    let mut i: usize = 0;
    while i < c.len()
        invariant
            c@ == name@,
            i <= c@.len(),
            r@ == escaped_name(name@.subrange(0, i as int)),
        decreases c@.len() - i,
    {
        let ch = c[i];
        assert(name@.subrange(0, i + 1).drop_last() =~= name@.subrange(0, i as int));
        let ghost before = r@;
        if ch == '"' || ch == '\\' {
            crate::text::push_char(&mut r, '\\');
        }
        crate::text::push_char(&mut r, ch);
        proof {
            if ch == '"' || ch == '\\' {
                assert(r@ =~= before + seq!['\\', ch]);
            } else {
                assert(r@ =~= before + seq![ch]);
            }
        }
        i += 1;
    }
    assert(name@.subrange(0, c@.len() as int) =~= name@);
    r
}

} // verus!

verus! {

/// The subject of a vacation response: the `:subject` given when it is not
/// empty; else, from the first `Subject` of the message (`subjects`, in
/// order) that gives a non-empty text, the prefix and that subject cut as
/// `subject_text` says; else the default subject.
pub open spec fn response_subject(
    given: Seq<char>,
    subjects: Seq<Seq<char>>,
    prefix: Seq<char>,
    default: Seq<char>,
) -> Seq<char> {
    if given.len() > 0 {
        given
    } else {
        let s = first_subject(subjects, prefix);
        if s.len() > 0 {
            s
        } else {
            default
        }
    }
}

/// The first non-empty cut subject made of `prefix` and one of `subjects`;
/// empty when there is none.
pub open spec fn first_subject(subjects: Seq<Seq<char>>, prefix: Seq<char>) -> Seq<char>
    decreases subjects.len(),
{
    if subjects.len() == 0 {
        seq![]
    } else if subject_text(prefix + subjects[0]).len() > 0 {
        subject_text(prefix + subjects[0])
    } else {
        first_subject(subjects.drop_first(), prefix)
    }
}

/// Picks the subject of a vacation response (see `response_subject`).
pub fn choose_response_subject(given: &str, subjects: &Vec<String>, prefix: &str, default: &str) -> (r: String)
    ensures
        r@ == response_subject(given@, strings_view(subjects@), prefix@, default@),
{
    let ghost sv = strings_view(subjects@);
    if given.unicode_len() > 0 {
        let r = given.to_string();
        assert(r@ == given@);
        return r;
    }
    let mut i: usize = 0;
    assert(sv.skip(0) =~= sv);
    while i < subjects.len()
        invariant
            i <= subjects@.len(),
            sv == strings_view(subjects@),
            first_subject(sv, prefix@) == first_subject(sv.skip(i as int), prefix@),
            given@.len() == 0,
        decreases subjects@.len() - i,
    {
        assert(sv.skip(i as int)[0] == subjects@[i as int]@);
        assert(sv.skip(i as int).drop_first() =~= sv.skip(i + 1));
        let s = vacation_subject(prefix, subjects[i].as_str());
        if s.unicode_len() > 0 {
            assert(first_subject(sv.skip(i as int), prefix@) == s@);
            return s;
        }
        i += 1;
    }
    assert(sv.skip(i as int).len() == 0);
    let r = default.to_string();
    assert(r@ == default@);
    r
}

/// The bytes of the header line `name` `value` CRLF.
pub open spec fn header_bytes(name: Seq<char>, value: Seq<char>) -> Seq<u8> {
    encode_utf8(name) + encode_utf8(value) + seq![13u8, 10]
}

/// The `In-Reply-To` and `References` lines of a response to the message
/// with the id `id` and the raw `References` value `references` (which
/// brings its own line end).
pub open spec fn reply_lines(id: Option<Seq<char>>, references: Option<Seq<u8>>) -> Seq<u8> {
    match id {
        Some(m) => encode_utf8("In-Reply-To: <"@) + encode_utf8(m) + encode_utf8(">\r\n"@) + encode_utf8(
            "References: <"@,
        ) + encode_utf8(m) + match references {
            Some(r) => encode_utf8("> "@) + r,
            None => encode_utf8(">\r\n"@),
        },
        None => seq![],
    }
}

/// The vacation response: `From`, `To` (the raw `To` value of the original
/// sender's header when there is one, else the address), `Subject`, the
/// reply lines, `Date` (the text `date`), `Message-ID` (the bytes
/// `message_id`), `Auto-Submitted: auto-replied`, a plain-text content type
/// unless the body is MIME, and the body.
#[verifier::opaque]
pub open spec fn vacation_message_spec(
    from: Seq<char>,
    to: Seq<char>,
    to_full: Option<Seq<u8>>,
    subject: Seq<char>,
    reply_to: Option<Seq<char>>,
    references: Option<Seq<u8>>,
    date: Seq<char>,
    message_id: Seq<u8>,
    body: Seq<char>,
    mime: bool,
) -> Seq<u8> {
    header_bytes("From: "@, from) + match to_full {
        Some(t) => encode_utf8("To:"@) + t,
        None => header_bytes("To: "@, to),
    } + header_bytes("Subject: "@, subject) + reply_lines(reply_to, references) + encode_utf8(
        "Date: "@,
    ) + encode_utf8(date) + seq![13u8, 10] + encode_utf8("Message-ID: "@) + message_id + seq![13u8, 10]
        + header_bytes("Auto-Submitted: "@, "auto-replied"@) + (if mime {
        seq![]
    } else {
        encode_utf8("Content-type: text/plain; charset=utf-8\r\n\r\n"@)
    }) + encode_utf8(body)
}

pub open spec fn opt_bytes_view(o: Option<&[u8]>) -> Option<Seq<u8>> {
    match o {
        Some(b) => Some(b@),
        None => None,
    }
}

pub open spec fn opt_chars_view(o: Option<&str>) -> Option<Seq<char>> {
    match o {
        Some(s) => Some(s@),
        None => None,
    }
}

fn push_reply_lines(m: &mut Vec<u8>, reply_to: Option<&str>, references: Option<&[u8]>)
    ensures
        final(m)@ == old(m)@ + reply_lines(opt_chars_view(reply_to), opt_bytes_view(references)),
{
    if let Some(id) = reply_to {
        crate::text::extend_bytes(m, "In-Reply-To: <".as_bytes());
        crate::text::extend_bytes(m, id.as_bytes());
        crate::text::extend_bytes(m, ">\r\n".as_bytes());
        crate::text::extend_bytes(m, "References: <".as_bytes());
        crate::text::extend_bytes(m, id.as_bytes());
        match references {
            Some(r) => {
                crate::text::extend_bytes(m, "> ".as_bytes());
                crate::text::extend_bytes(m, r);
            },
            None => {
                crate::text::extend_bytes(m, ">\r\n".as_bytes());
            },
        }
    }
    assert(m@ =~= old(m)@ + reply_lines(opt_chars_view(reply_to), opt_bytes_view(references)));
}

fn push_vacation_head(m: &mut Vec<u8>, from: &str, to: &str, to_full: Option<&[u8]>, subject: &str)
    ensures
        final(m)@ == old(m)@ + header_bytes("From: "@, from@) + match opt_bytes_view(to_full) {
            Some(t) => encode_utf8("To:"@) + t,
            None => header_bytes("To: "@, to@),
        } + header_bytes("Subject: "@, subject@),
{
    write_header(m, "From: ", from);
    let ghost a = m@;
    match to_full {
        Some(t) => {
            crate::text::extend_bytes(m, "To:".as_bytes());
            crate::text::extend_bytes(m, t);
        },
        None => {
            write_header(m, "To: ", to);
        },
    }
    let ghost b = m@;
    write_header(m, "Subject: ", subject);
    assert(m@ =~= old(m)@ + header_bytes("From: "@, from@) + match opt_bytes_view(to_full) {
        Some(t) => encode_utf8("To:"@) + t,
        None => header_bytes("To: "@, to@),
    } + header_bytes("Subject: "@, subject@));
}

fn push_vacation_stamps(m: &mut Vec<u8>, date: &str, message_id: &[u8])
    ensures
        final(m)@ == old(m)@ + encode_utf8("Date: "@) + encode_utf8(date@) + seq![13u8, 10] + encode_utf8(
            "Message-ID: "@,
        ) + message_id@ + seq![13u8, 10],
{
    crate::text::extend_bytes(m, "Date: ".as_bytes());
    crate::text::extend_bytes(m, date.as_bytes());
    m.push(13);
    m.push(10);
    crate::text::extend_bytes(m, "Message-ID: ".as_bytes());
    crate::text::extend_bytes(m, message_id);
    m.push(13);
    m.push(10);
    assert(m@ =~= old(m)@ + encode_utf8("Date: "@) + encode_utf8(date@) + seq![13u8, 10] + encode_utf8(
        "Message-ID: "@,
    ) + message_id@ + seq![13u8, 10]);
}

/// The vacation response (see `vacation_message_spec`) with `date` for its
/// `Date` and `message_id` for its `Message-ID`.
pub fn vacation_message_bytes(
    from: &str,
    to: &str,
    to_full: Option<&[u8]>,
    subject: &str,
    reply_to: Option<&str>,
    references: Option<&[u8]>,
    date: &str,
    message_id: &[u8],
    body: &str,
    mime: bool,
) -> (r: Vec<u8>)
    ensures
        r@ == vacation_message_spec(
            from@,
            to@,
            opt_bytes_view(to_full),
            subject@,
            opt_chars_view(reply_to),
            opt_bytes_view(references),
            date@,
            message_id@,
            body@,
            mime,
        ),
{
    let mut m: Vec<u8> = Vec::new();
    push_vacation_head(&mut m, from, to, to_full, subject);
    let ghost head = m@;
    push_reply_lines(&mut m, reply_to, references);
    let ghost reply = m@;
    push_vacation_stamps(&mut m, date, message_id);
    let ghost stamps = m@;
    write_header(&mut m, "Auto-Submitted: ", "auto-replied");
    if !mime {
        crate::text::extend_bytes(&mut m, "Content-type: text/plain; charset=utf-8\r\n\r\n".as_bytes());
    }
    crate::text::extend_bytes(&mut m, body.as_bytes());
    reveal(vacation_message_spec);
    assert(m@ =~= vacation_message_spec(
        from@,
        to@,
        opt_bytes_view(to_full),
        subject@,
        opt_chars_view(reply_to),
        opt_bytes_view(references),
        date@,
        message_id@,
        body@,
        mime,
    ));
    m
}

/// Builds the vacation response: its `Date` is the current time and its
/// `Message-ID` a fresh id for `hostname`.
pub fn build_vacation_message(
    from: &str,
    to: &str,
    to_full: Option<&[u8]>,
    subject: &str,
    reply_to: Option<&str>,
    references: Option<&[u8]>,
    body: &str,
    mime: bool,
    hostname: &str,
) -> (r: Vec<u8>)
    ensures
        exists|ts: i64, id: Seq<u8>|
            #![trigger vacation_message_spec(from@, to@, opt_bytes_view(to_full), subject@, opt_chars_view(reply_to), opt_bytes_view(references), rfc822_date_of(ts), id, body@, mime)]
            is_message_id(id, hostname.spec_bytes()) && r@ == vacation_message_spec(
                from@,
                to@,
                opt_bytes_view(to_full),
                subject@,
                opt_chars_view(reply_to),
                opt_bytes_view(references),
                rfc822_date_of(ts),
                id,
                body@,
                mime,
            ),
{
    let date = rfc822_date_now();
    let mut id: Vec<u8> = Vec::new();
    write_message_id(&mut id, hostname);
    assert(id@.subrange(0, id@.len() as int) =~= id@);
    let r = vacation_message_bytes(from, to, to_full, subject, reply_to, references, date.as_str(), id.as_slice(), body, mime);
    let ghost ts = choose|ts: i64| date@ == rfc822_date_of(ts);
    assert(r@ == vacation_message_spec(
        from@,
        to@,
        opt_bytes_view(to_full),
        subject@,
        opt_chars_view(reply_to),
        opt_bytes_view(references),
        rfc822_date_of(ts),
        id@,
        body@,
        mime,
    ));
    r
}

} // verus!

verus! {

/// A header of the message being filtered, as the vacation rules read it:
/// its name, its text (when it has one), and the addresses it lists.
pub struct MessageHeader {
    pub name: crate::header::HeaderName,
    pub text: Option<String>,
    pub addresses: Vec<String>,
}

/// A header as seen in contracts.
pub struct MessageHeaderView {
    pub name: (u8, Seq<char>),
    pub text: Option<Seq<char>>,
    pub addresses: Seq<Seq<char>>,
}

pub open spec fn message_header_view(h: MessageHeader) -> MessageHeaderView {
    MessageHeaderView {
        name: h.name@,
        text: crate::runtime::actions::action_notify::opt_string_view(h.text),
        addresses: strings_view(h.addresses@),
    }
}

pub open spec fn message_headers_view(v: Seq<MessageHeader>) -> Seq<MessageHeaderView> {
    v.map_values(|h: MessageHeader| message_header_view(h))
}

pub open spec fn envelope_view(v: Seq<(crate::Envelope, String)>) -> Seq<(crate::Envelope, Seq<char>)> {
    v.map_values(|p: (crate::Envelope, String)| (p.0, p.1@))
}

/// The text with ASCII letters lowercased.
pub open spec fn lower_chars(s: Seq<char>) -> Seq<char> {
    s.map_values(|c: char| crate::runtime::actions::action_flags::ascii_lower(c))
}

fn lower_string(s: &str) -> (r: String)
    ensures
        r@ == lower_chars(s@),
{
    let c = crate::text::str_chars(s);
    let mut r = String::new();
    let mut i: usize = 0;
    while i < c.len()
        invariant
            c@ == s@,
            i <= c@.len(),
            r@ == lower_chars(s@.take(i as int)),
        decreases c@.len() - i,
    {
        crate::text::push_char(&mut r, crate::runtime::actions::action_flags::ascii_lower_exec(c[i]));
        assert(lower_chars(s@.take(i + 1)) =~= lower_chars(s@.take(i as int)).push(
            crate::runtime::actions::action_flags::ascii_lower(c@[i as int]),
        ));
        i += 1;
    }
    assert(s@.take(c@.len() as int) =~= s@);
    r
}

/// The envelope sender, lowercased: the last non-empty `From` of the
/// envelope, or empty text.
pub open spec fn envelope_sender(env: Seq<(crate::Envelope, Seq<char>)>) -> Seq<char>
    decreases env.len(),
{
    if env.len() == 0 {
        seq![]
    } else if env.last().0 == crate::Envelope::From && env.last().1.len() > 0 {
        lower_chars(env.last().1)
    } else {
        envelope_sender(env.drop_last())
    }
}

/// The envelope recipients that count as the user's: the non-empty `To`
/// values, or the non-empty original recipients when those are used.
pub open spec fn envelope_recipients(env: Seq<(crate::Envelope, Seq<char>)>, use_orig_rcpt: bool) -> Seq<Seq<char>>
    decreases env.len(),
{
    if env.len() == 0 {
        seq![]
    } else {
        let e = env.last();
        let rest = envelope_recipients(env.drop_last(), use_orig_rcpt);
        if e.1.len() > 0 && ((e.0 == crate::Envelope::To && !use_orig_rcpt) || (e.0
            == crate::Envelope::Orcpt && use_orig_rcpt)) {
            rest.push(e.1)
        } else {
            rest
        }
    }
}

/// The non-empty texts of a list.
pub open spec fn non_empty(s: Seq<Seq<char>>) -> Seq<Seq<char>>
    decreases s.len(),
{
    if s.len() == 0 {
        seq![]
    } else if s.last().len() > 0 {
        non_empty(s.drop_last()).push(s.last())
    } else {
        non_empty(s.drop_last())
    }
}

/// The user's addresses: the envelope recipients, the `:addresses` given,
/// and the user's own address, each when not empty.
pub open spec fn user_addresses(
    env: Seq<(crate::Envelope, Seq<char>)>,
    use_orig_rcpt: bool,
    given: Seq<Seq<char>>,
    user_address: Seq<char>,
) -> Seq<Seq<char>> {
    envelope_recipients(env, use_orig_rcpt) + non_empty(given) + if user_address.len() > 0 {
        seq![user_address]
    } else {
        seq![]
    }
}

/// `s` starts with `p`.
pub open spec fn starts_with(s: Seq<char>, p: Seq<char>) -> bool {
    p.len() <= s.len() && s.take(p.len() as int) == p
}

/// `n` occurs in `h`.
pub open spec fn contains_text(h: Seq<char>, n: Seq<char>) -> bool {
    exists|i: int| 0 <= i && i + n.len() <= h.len() && #[trigger] h.subrange(i, i + n.len()) == n
}

/// `list` holds `a`, ASCII case aside.
pub open spec fn holds_address(list: Seq<Seq<char>>, a: Seq<char>) -> bool {
    exists|i: int| 0 <= i < list.len() && crate::runtime::actions::action_flags::eq_ignore_ascii_case(#[trigger] list[i], a)
}

/// No reply goes to this sender: there is none, the user has no address,
/// the sender is a mailer daemon, a list owner or a list's request address,
/// or it is one of the user's own addresses.
pub open spec fn sender_refused(from: Seq<char>, users: Seq<Seq<char>>) -> bool {
    from.len() == 0 || users.len() == 0 || starts_with(from, "mailer-daemon"@) || starts_with(from, "owner-"@)
        || contains_text(from, "-request@"@) || holds_address(users, from)
}

/// Some address of one list is one of the other, ASCII case aside.
pub open spec fn shares_address(addresses: Seq<Seq<char>>, users: Seq<Seq<char>>) -> bool {
    exists|i: int| 0 <= i < addresses.len() && holds_address(users, #[trigger] addresses[i])
}

/// The pieces of `s` split at each `sep`.
pub open spec fn split_scan(s: Seq<char>, sep: char) -> (Seq<Seq<char>>, Seq<char>)
    decreases s.len(),
{
    if s.len() == 0 {
        (seq![], seq![])
    } else {
        let (ps, cur) = split_scan(s.drop_last(), sep);
        if s.last() == sep {
            (ps.push(cur), seq![])
        } else {
            (ps, cur.push(s.last()))
        }
    }
}

pub open spec fn pieces(s: Seq<char>, sep: char) -> Seq<Seq<char>> {
    split_scan(s, sep).0.push(split_scan(s, sep).1)
}

/// An `X-Auto-Response-Suppress` value that asks for no reply: one of its
/// comma-separated items, trimmed and lowercased, is `all` or `oof`.
pub open spec fn suppresses_reply(v: Seq<char>) -> bool {
    exists|i: int|
        0 <= i < pieces(lower_chars(v), ',').len() && (trimmed(#[trigger] pieces(lower_chars(v), ',')[i])
            == "all"@ || trimmed(pieces(lower_chars(v), ',')[i]) == "oof"@)
}

/// Numbers of the headers that list the message's recipients.
pub open spec fn is_recipient_header(id: u8) -> bool {
    id == 2 || id == 3 || id == 5 || id == 23 || id == 25 || id == 26
}

/// Numbers of the headers a mailing list adds.
pub open spec fn is_list_header(id: u8) -> bool {
    30 <= id <= 36
}

/// Number of the `Auto-Submitted` header.
pub const AUTO_SUBMITTED_HEADER_ID: u8 = 48;

/// One header read by the vacation rules, after `found` (a recipient header
/// listed one of the user's addresses) and `received` (`Received` headers
/// so far): nothing when the header says no reply is due (a list header,
/// an `Auto-Submitted` other than `no`, an `X-Auto-Response-Suppress` of
/// `all` or `oof`, a `Precedence` of `bulk`).
pub open spec fn vacation_header_step(
    found: bool,
    received: nat,
    h: MessageHeaderView,
    users: Seq<Seq<char>>,
) -> Option<(bool, nat)> {
    let id = h.name.0;
    if is_recipient_header(id) && !found {
        Some((shares_address(h.addresses, users), received))
    } else if is_list_header(id) {
        None
    } else if id == crate::runtime::actions::action_mime::RECEIVED_HEADER_ID {
        Some((found, received + 1))
    } else if id == AUTO_SUBMITTED_HEADER_ID {
        match h.text {
            Some(v) => if crate::runtime::actions::action_flags::eq_ignore_ascii_case(v, "no"@) {
                Some((found, received))
            } else {
                None
            },
            None => None,
        }
    } else if id == crate::header::OTHER_HEADER_ID {
        if crate::runtime::actions::action_flags::eq_ignore_ascii_case(h.name.1, "X-Auto-Response-Suppress"@) {
            match h.text {
                Some(v) => if suppresses_reply(v) {
                    None
                } else {
                    Some((found, received))
                },
                None => Some((found, received)),
            }
        } else if crate::runtime::actions::action_flags::eq_ignore_ascii_case(h.name.1, "Precedence"@) && match h.text {
            Some(v) => crate::runtime::actions::action_flags::eq_ignore_ascii_case(v, "bulk"@),
            None => false,
        } {
            None
        } else {
            Some((found, received))
        }
    } else {
        Some((found, received))
    }
}

/// The vacation rules over the headers of the message, in order.
pub open spec fn vacation_header_scan(hs: Seq<MessageHeaderView>, users: Seq<Seq<char>>) -> Option<(bool, nat)>
    decreases hs.len(),
{
    if hs.len() == 0 {
        Some((false, 0))
    } else {
        match vacation_header_scan(hs.drop_last(), users) {
            Some((found, received)) => vacation_header_step(found, received, hs.last(), users),
            None => None,
        }
    }
}

/// How long a reply to the same sender is not repeated: `value` days (code
/// 0), `value` seconds (code 1), or the default.
pub open spec fn vacation_expiry(kind: u8, value: u64, default: u64) -> u64 {
    if kind == 0 {
        if value * 86400 > u64::MAX {
            u64::MAX
        } else {
            (value * 86400) as u64
        }
    } else if kind == 1 {
        value
    } else {
        default
    }
}

/// Whether a vacation reply may go out and, when it may, the id under which
/// the host remembers it (`_v`, the sender, and the handle or reason) and
/// for how long: nothing when the script may send no more messages, the
/// sender is refused, a header asks for no reply, none of the recipient
/// headers lists one of the user's addresses, or the message passed more
/// hosts than allowed.
pub open spec fn vacation_check(
    num_out: usize,
    max_out: usize,
    env: Seq<(crate::Envelope, Seq<char>)>,
    use_orig_rcpt: bool,
    given: Seq<Seq<char>>,
    user_address: Seq<char>,
    headers: Seq<MessageHeaderView>,
    max_received: usize,
    handle: Seq<char>,
    period_kind: u8,
    period_value: u64,
    default_expiry: u64,
) -> Option<(Seq<char>, u64)> {
    let from = envelope_sender(env);
    let users = user_addresses(env, use_orig_rcpt, given, user_address);
    if num_out >= max_out || sender_refused(from, users) {
        None
    } else {
        match vacation_header_scan(headers, users) {
            Some((found, received)) => if found && received <= max_received {
                Some(("_v"@ + from + handle, vacation_expiry(period_kind, period_value, default_expiry)))
            } else {
                None
            },
            None => None,
        }
    }
}

} // verus!

verus! {

fn envelope_sender_exec(env: &Vec<(crate::Envelope, String)>) -> (r: String)
    ensures
        r@ == envelope_sender(envelope_view(env@)),
{
    let ghost ev = envelope_view(env@);
    let mut r = String::new();
    let mut i: usize = 0;
    while i < env.len()
        invariant
            i <= env@.len(),
            ev == envelope_view(env@),
            r@ == envelope_sender(ev.take(i as int)),
        decreases env@.len() - i,
    {
        assert(ev.take(i + 1).drop_last() =~= ev.take(i as int));
        assert(ev.take(i + 1).last() == (env@[i as int].0, env@[i as int].1@));
        if env[i].0 == crate::Envelope::From && env[i].1.unicode_len() > 0 {
            r = lower_string(env[i].1.as_str());
        }
        i += 1;
    }
    assert(ev.take(env@.len() as int) =~= ev);
    r
}

fn collect_user_addresses(
    env: &Vec<(crate::Envelope, String)>,
    use_orig_rcpt: bool,
    given: &Vec<String>,
    user_address: &str,
) -> (r: Vec<String>)
    ensures
        strings_view(r@) == user_addresses(envelope_view(env@), use_orig_rcpt, strings_view(given@), user_address@),
{
    let ghost ev = envelope_view(env@);
    let ghost gv = strings_view(given@);
    let mut r: Vec<String> = Vec::new();
    let mut i: usize = 0;
    while i < env.len()
        invariant
            i <= env@.len(),
            ev == envelope_view(env@),
            strings_view(r@) == envelope_recipients(ev.take(i as int), use_orig_rcpt),
        decreases env@.len() - i,
    {
        let ghost before = strings_view(r@);
        assert(ev.take(i + 1).drop_last() =~= ev.take(i as int));
        assert(ev.take(i + 1).last() == (env@[i as int].0, env@[i as int].1@));
        let e = env[i].0;
        if env[i].1.unicode_len() > 0 && ((e == crate::Envelope::To && !use_orig_rcpt) || (e
            == crate::Envelope::Orcpt && use_orig_rcpt)) {
            r.push(env[i].1.clone());
            assert(strings_view(r@) =~= before.push(env@[i as int].1@));
        }
        i += 1;
    }
    assert(ev.take(env@.len() as int) =~= ev);
    let ghost mid = strings_view(r@);
    let mut j: usize = 0;
    while j < given.len()
        invariant
            j <= given@.len(),
            gv == strings_view(given@),
            strings_view(r@) == mid + non_empty(gv.take(j as int)),
        decreases given@.len() - j,
    {
        let ghost before = strings_view(r@);
        assert(gv.take(j + 1).drop_last() =~= gv.take(j as int));
        assert(gv.take(j + 1).last() == given@[j as int]@);
        if given[j].unicode_len() > 0 {
            r.push(given[j].clone());
            assert(strings_view(r@) =~= before.push(given@[j as int]@));
            assert(non_empty(gv.take(j + 1)) == non_empty(gv.take(j as int)).push(given@[j as int]@));
        }
        j += 1;
    }
    assert(gv.take(given@.len() as int) =~= gv);
    let ghost mid2 = strings_view(r@);
    if user_address.unicode_len() > 0 {
        r.push(user_address.to_string());
        assert(strings_view(r@) =~= mid2.push(user_address@));
    }
    assert(strings_view(r@) =~= user_addresses(ev, use_orig_rcpt, gv, user_address@));
    r
}

fn holds_address_exec(list: &Vec<String>, a: &str) -> (r: bool)
    ensures
        r == holds_address(strings_view(list@), a@),
{
    let ghost lv = strings_view(list@);
    let mut i: usize = 0;
    while i < list.len()
        invariant
            i <= list@.len(),
            lv == strings_view(list@),
            forall|k: int|
                0 <= k < i ==> !crate::runtime::actions::action_flags::eq_ignore_ascii_case(#[trigger] lv[k], a@),
        decreases list@.len() - i,
    {
        assert(lv[i as int] == list@[i as int]@);
        if crate::runtime::actions::action_flags::str_eq_ignore_ascii_case(list[i].as_str(), a) {
            return true;
        }
        i += 1;
    }
    false
}

fn starts_with_exec(s: &Vec<char>, p: &str) -> (r: bool)
    ensures
        r == starts_with(s@, p@),
{
    let pc = crate::text::str_chars(p);
    if pc.len() > s.len() {
        return false;
    }
    let mut i: usize = 0;
    while i < pc.len()
        invariant
            pc@ == p@,
            pc@.len() <= s@.len(),
            i <= pc@.len(),
            forall|k: int| 0 <= k < i ==> s@[k] == pc@[k],
        decreases pc@.len() - i,
    {
        if s[i] != pc[i] {
            assert(s@.take(p@.len() as int)[i as int] != p@[i as int]);
            return false;
        }
        i += 1;
    }
    assert(s@.take(p@.len() as int) =~= p@);
    true
}

fn matches_chars_at(h: &Vec<char>, n: &Vec<char>, i: usize) -> (r: bool)
    requires
        i + n@.len() <= h@.len(),
    ensures
        r == (h@.subrange(i as int, i + n@.len()) == n@),
{
    let hl = h.len();
    let mut j: usize = 0;
    while j < n.len()
        invariant
            hl == h@.len(),
            i + n@.len() <= h@.len(),
            j <= n@.len(),
            forall|k: int| 0 <= k < j ==> h@[i + k] == n@[k],
        decreases n@.len() - j,
    {
        if h[i + j] != n[j] {
            assert(h@.subrange(i as int, i + n@.len())[j as int] != n@[j as int]);
            return false;
        }
        j += 1;
    }
    assert(h@.subrange(i as int, i + n@.len()) =~= n@);
    true
}

fn contains_text_exec(h: &Vec<char>, n: &str) -> (r: bool)
    ensures
        r == contains_text(h@, n@),
{
    let nc = crate::text::str_chars(n);
    if nc.len() > h.len() {
        return false;
    }
    let limit = h.len() - nc.len();
    let mut i: usize = 0;
    loop
        invariant
            nc@ == n@,
            nc@.len() <= h@.len(),
            limit == h@.len() - nc@.len(),
            i <= limit,
            forall|k: int| 0 <= k < i ==> #[trigger] h@.subrange(k, k + n@.len()) != n@,
        decreases limit - i,
    {
        if matches_chars_at(h, &nc, i) {
            return true;
        }
        if i == limit {
            return false;
        }
        i += 1;
    }
}

/// Whether an `X-Auto-Response-Suppress` value asks for no reply (see
/// `suppresses_reply`).
pub fn suppresses_reply_exec(v: &str) -> (r: bool)
    ensures
        r == suppresses_reply(v@),
{
    let lower = lower_string(v);
    let c = crate::text::str_chars(lower.as_str());
    let mut ps: Vec<String> = Vec::new();
    let mut cur = String::new();
    let mut i: usize = 0;
    while i < c.len()
        invariant
            c@ == lower_chars(v@),
            i <= c@.len(),
            split_scan(c@.take(i as int), ',') == (strings_view(ps@), cur@),
        decreases c@.len() - i,
    {
        assert(c@.take(i + 1).drop_last() =~= c@.take(i as int));
        assert(c@.take(i + 1).last() == c@[i as int]);
        if c[i] == ',' {
            let ghost before = strings_view(ps@);
            let ghost cv = cur@;
            let w = cur;
            ps.push(w);
            cur = String::new();
            assert(strings_view(ps@) =~= before.push(cv));
        } else {
            crate::text::push_char(&mut cur, c[i]);
        }
        i += 1;
    }
    assert(c@.take(c@.len() as int) =~= c@);
    let ghost before = strings_view(ps@);
    let ghost cv = cur@;
    ps.push(cur);
    assert(strings_view(ps@) =~= before.push(cv));
    let ghost pv = pieces(lower_chars(v@), ',');
    assert(strings_view(ps@) == pv);
    proof {
        reveal_strlit("all");
        reveal_strlit("oof");
    }
    let mut k: usize = 0;
    while k < ps.len()
        invariant
            k <= ps@.len(),
            strings_view(ps@) == pv,
            pv == pieces(lower_chars(v@), ','),
            forall|j: int| 0 <= j < k ==> !(trimmed(#[trigger] pv[j]) == "all"@ || trimmed(pv[j]) == "oof"@),
        decreases ps@.len() - k,
    {
        assert(pv[k as int] == ps@[k as int]@);
        let t = trim_str(ps[k].as_str());
        if crate::text::str_eq(t.as_str(), "all") || crate::text::str_eq(t.as_str(), "oof") {
            assert(trimmed(pv[k as int]) == "all"@ || trimmed(pv[k as int]) == "oof"@);
            return true;
        }
        k += 1;
    }
    false
}

fn shares_address_exec(addresses: &Vec<String>, users: &Vec<String>) -> (r: bool)
    ensures
        r == shares_address(strings_view(addresses@), strings_view(users@)),
{
    let ghost av = strings_view(addresses@);
    let mut i: usize = 0;
    while i < addresses.len()
        invariant
            i <= addresses@.len(),
            av == strings_view(addresses@),
            forall|k: int| 0 <= k < i ==> !holds_address(strings_view(users@), #[trigger] av[k]),
        decreases addresses@.len() - i,
    {
        assert(av[i as int] == addresses@[i as int]@);
        if holds_address_exec(users, addresses[i].as_str()) {
            return true;
        }
        i += 1;
    }
    false
}

/// One header read by the vacation rules (see `vacation_header_step`).
fn vacation_header_step_exec(found: bool, received: usize, h: &MessageHeader, users: &Vec<String>) -> (r: Option<
    (bool, usize),
>)
    requires
        received < usize::MAX,
    ensures
        match r {
            Some((f, n)) => vacation_header_step(found, received as nat, message_header_view(*h), strings_view(users@))
                == Some((f, n as nat)),
            None => vacation_header_step(found, received as nat, message_header_view(*h), strings_view(users@)) is None,
        },
{
    let id = h.name.id;
    if (id == 2 || id == 3 || id == 5 || id == 23 || id == 25 || id == 26) && !found {
        Some((shares_address_exec(&h.addresses, users), received))
    } else if 30 <= id && id <= 36 {
        None
    } else if id == crate::runtime::actions::action_mime::RECEIVED_HEADER_ID {
        Some((found, received + 1))
    } else if id == AUTO_SUBMITTED_HEADER_ID {
        match &h.text {
            Some(v) => if crate::runtime::actions::action_flags::str_eq_ignore_ascii_case(v.as_str(), "no") {
                Some((found, received))
            } else {
                None
            },
            None => None,
        }
    } else if id == crate::header::OTHER_HEADER_ID {
        if crate::runtime::actions::action_flags::str_eq_ignore_ascii_case(h.name.name.as_str(), "X-Auto-Response-Suppress") {
            match &h.text {
                Some(v) => if suppresses_reply_exec(v.as_str()) {
                    None
                } else {
                    Some((found, received))
                },
                None => Some((found, received)),
            }
        } else {
            let bulk = match &h.text {
                Some(v) => crate::runtime::actions::action_flags::str_eq_ignore_ascii_case(v.as_str(), "bulk"),
                None => false,
            };
            if crate::runtime::actions::action_flags::str_eq_ignore_ascii_case(h.name.name.as_str(), "Precedence") && bulk {
                None
            } else {
                Some((found, received))
            }
        }
    } else {
        Some((found, received))
    }
}

/// Decides whether a vacation reply may go out (see `vacation_check`).
pub fn vacation_reply_id(
    num_out: usize,
    max_out: usize,
    envelope: &Vec<(crate::Envelope, String)>,
    use_orig_rcpt: bool,
    given: &Vec<String>,
    user_address: &str,
    headers: &Vec<MessageHeader>,
    max_received: usize,
    handle: &str,
    period_kind: u8,
    period_value: u64,
    default_expiry: u64,
) -> (r: Option<(String, u64)>)
    ensures
        match r {
            Some((id, expiry)) => vacation_check(
                num_out,
                max_out,
                envelope_view(envelope@),
                use_orig_rcpt,
                strings_view(given@),
                user_address@,
                message_headers_view(headers@),
                max_received,
                handle@,
                period_kind,
                period_value,
                default_expiry,
            ) == Some((id@, expiry)),
            None => vacation_check(
                num_out,
                max_out,
                envelope_view(envelope@),
                use_orig_rcpt,
                strings_view(given@),
                user_address@,
                message_headers_view(headers@),
                max_received,
                handle@,
                period_kind,
                period_value,
                default_expiry,
            ) is None,
        },
{
    if num_out >= max_out {
        return None;
    }
    let from = envelope_sender_exec(envelope);
    let users = collect_user_addresses(envelope, use_orig_rcpt, given, user_address);
    let fc = crate::text::str_chars(from.as_str());
    if fc.len() == 0 || users.len() == 0 || starts_with_exec(&fc, "mailer-daemon") || starts_with_exec(&fc, "owner-")
        || contains_text_exec(&fc, "-request@") || holds_address_exec(&users, from.as_str()) {
        return None;
    }
    let ghost hv = message_headers_view(headers@);
    let ghost uv = strings_view(users@);
    let mut found = false;
    let mut received: usize = 0;
    let mut i: usize = 0;
    while i < headers.len()
        invariant
            i <= headers@.len(),
            received <= i,
            hv == message_headers_view(headers@),
            uv == strings_view(users@),
            num_out < max_out,
            from@ == envelope_sender(envelope_view(envelope@)),
            uv == user_addresses(envelope_view(envelope@), use_orig_rcpt, strings_view(given@), user_address@),
            !sender_refused(from@, uv),
            vacation_header_scan(hv.take(i as int), uv) == Some((found, received as nat)),
        decreases headers@.len() - i,
    {
        assert(hv.take(i + 1).drop_last() =~= hv.take(i as int));
        assert(hv.take(i + 1).last() == message_header_view(headers@[i as int]));
        match vacation_header_step_exec(found, received, &headers[i], &users) {
            Some((f, n)) => {
                found = f;
                received = n;
            },
            None => {
                proof {
                    lemma_scan_stops(hv, uv, i + 1);
                }
                return None;
            },
        }
        i += 1;
    }
    assert(hv.take(headers@.len() as int) =~= hv);
    if found && received <= max_received {
        let a = crate::runtime::expression::concat("_v", from.as_str());
        let id = crate::runtime::expression::concat(a.as_str(), handle);
        let expiry = if period_kind == 0 {
            match period_value.checked_mul(86400) {
                Some(v) => v,
                None => u64::MAX,
            }
        } else if period_kind == 1 {
            period_value
        } else {
            default_expiry
        };
        Some((id, expiry))
    } else {
        None
    }
}

/// Once a header stops the vacation rules, the whole scan stops.
proof fn lemma_scan_stops(hs: Seq<MessageHeaderView>, users: Seq<Seq<char>>, j: int)
    requires
        0 <= j <= hs.len(),
        vacation_header_scan(hs.take(j), users) is None,
    ensures
        vacation_header_scan(hs, users) is None,
    decreases hs.len(),
{
    if j < hs.len() {
        assert(hs.drop_last().take(j) =~= hs.take(j));
        lemma_scan_stops(hs.drop_last(), users, j);
    } else {
        assert(hs.take(j) =~= hs);
    }
}

} // verus!

verus! {

proof fn lemma_scan_facts(hs: Seq<MessageHeaderView>, users: Seq<Seq<char>>)
    ensures
        vacation_header_scan(hs, users) matches Some((found, _)) ==> (found ==> exists|i: int|
            0 <= i < hs.len() && is_recipient_header(#[trigger] hs[i].name.0) && shares_address(
                hs[i].addresses,
                users,
            )),
        vacation_header_scan(hs, users) is Some ==> forall|i: int|
            0 <= i < hs.len() ==> !is_list_header(#[trigger] hs[i].name.0),
    decreases hs.len(),
{
    if hs.len() > 0 {
        let prev = hs.drop_last();
        lemma_scan_facts(prev, users);
        if let Some((found, _)) = vacation_header_scan(hs, users) {
            if found {
                match vacation_header_scan(prev, users) {
                    Some((pf, _)) => {
                        if pf {
                            let i = choose|i: int|
                                0 <= i < prev.len() && is_recipient_header(#[trigger] prev[i].name.0)
                                    && shares_address(prev[i].addresses, users);
                            assert(hs[i] == prev[i]);
                        } else {
                            assert(is_recipient_header(hs[hs.len() - 1].name.0));
                        }
                    },
                    None => {},
                }
            }
            assert forall|i: int| 0 <= i < hs.len() implies !is_list_header(#[trigger] hs[i].name.0) by {
                if i < hs.len() - 1 {
                    assert(hs[i] == prev[i]);
                }
            }
        }
    }
}

/// A vacation reply is allowed only for a message that a recipient header
/// (`To`, `Cc`, `Bcc` or their `Resent-` forms) addresses to one of the
/// user's addresses, that carries no mailing-list header, and whose sender
/// is none of the user's addresses and no mailer daemon.
pub proof fn lemma_vacation_reply_addressed(
    num_out: usize,
    max_out: usize,
    env: Seq<(crate::Envelope, Seq<char>)>,
    use_orig_rcpt: bool,
    given: Seq<Seq<char>>,
    user_address: Seq<char>,
    headers: Seq<MessageHeaderView>,
    max_received: usize,
    handle: Seq<char>,
    period_kind: u8,
    period_value: u64,
    default_expiry: u64,
)
    requires
        vacation_check(
            num_out,
            max_out,
            env,
            use_orig_rcpt,
            given,
            user_address,
            headers,
            max_received,
            handle,
            period_kind,
            period_value,
            default_expiry,
        ) is Some,
    ensures
        ({
            let users = user_addresses(env, use_orig_rcpt, given, user_address);
            &&& exists|i: int|
                0 <= i < headers.len() && is_recipient_header(#[trigger] headers[i].name.0) && shares_address(
                    headers[i].addresses,
                    users,
                )
            &&& forall|i: int| 0 <= i < headers.len() ==> !is_list_header(#[trigger] headers[i].name.0)
            &&& !holds_address(users, envelope_sender(env))
            &&& !starts_with(envelope_sender(env), "mailer-daemon"@)
        }),
{
    lemma_scan_facts(headers, user_addresses(env, use_orig_rcpt, given, user_address));
}

} // verus!

verus! {

/// Where a vacation reply is also filed (`:fcc`).
pub struct Fcc<'a> {
    pub folder: &'a str,
    pub flags: &'a [&'a str],
    pub mailbox_id: Option<&'a str>,
    pub special_use: Option<&'a str>,
    pub create: bool,
}

/// The actions a vacation reply queues: the reply message under its
/// number, its sending to `recipient`, and its filing when `:fcc` asked
/// for it.
pub open spec fn vacation_actions<'a>(id: usize, message: Vec<u8>, recipient: &'a str, fcc: Option<Fcc<'a>>) -> Seq<
    Action<'a>,
> {
    seq![
        Action::CreatedMessage { message_id: id, message },
        Action::SendMessage {
            source: MessageSource::Vacation,
            recipient: Recipient::Address(recipient),
            notify: Notify::Never,
            return_of_content: Ret::Default,
            by_time: ByTime::Unset,
            message_id: id,
        },
    ] + match fcc {
        Some(f) => seq![
            Action::FileInto {
                folder: f.folder,
                flags: f.flags,
                mailbox_id: f.mailbox_id,
                special_use: f.special_use,
                create: f.create,
                message_id: id,
            },
        ],
        None => Seq::<Action<'a>>::empty(),
    }
}

/// Queues a vacation reply (see `vacation_actions`): the reply gets the
/// next message number, and one more message counts as sent.
pub fn queue_vacation_reply<'a>(
    d: &mut Disposition,
    q: &mut ActionQueue<Action<'a>>,
    message: Vec<u8>,
    recipient: &'a str,
    fcc: Option<Fcc<'a>>,
) -> (r: usize)
    requires
        old(d).last_message_id < usize::MAX,
        old(d).num_out_messages < usize::MAX,
        old(q).inv(),
    ensures
        r == old(d).last_message_id + 1,
        *final(d) == (Disposition {
            last_message_id: r,
            num_out_messages: (old(d).num_out_messages + 1) as usize,
            ..*old(d)
        }),
        final(q).inv(),
        final(q).waiting() == old(q).waiting() + vacation_actions(r, message, recipient, fcc),
{
    let ghost m = message;
    let ghost f0 = fcc;
    let id = d.add_outgoing();
    q.push(Action::CreatedMessage { message_id: id, message });
    q.push(
        Action::SendMessage {
            source: MessageSource::Vacation,
            recipient: Recipient::Address(recipient),
            notify: Notify::Never,
            return_of_content: Ret::Default,
            by_time: ByTime::Unset,
            message_id: id,
        },
    );
    match fcc {
        Some(f) => {
            q.push(
                Action::FileInto {
                    folder: f.folder,
                    flags: f.flags,
                    mailbox_id: f.mailbox_id,
                    special_use: f.special_use,
                    create: f.create,
                    message_id: id,
                },
            );
        },
        None => {},
    }
    assert(q.waiting() =~= old(q).waiting() + vacation_actions(id, m, recipient, f0));
    id
}

} // verus!

verus! {

/// An `X-Auto-Response-Suppress` value asks for no reply as soon as one of
/// its comma-separated items, trimmed and in ASCII lower case, reads `all`
/// or `oof`.
pub proof fn lemma_suppress_all_or_oof(v: Seq<char>, i: int)
    requires
        0 <= i < pieces(lower_chars(v), ',').len(),
        trimmed(pieces(lower_chars(v), ',')[i]) == "all"@ || trimmed(pieces(lower_chars(v), ',')[i]) == "oof"@,
    ensures
        suppresses_reply(v),
{
}

/// Once one header rules a reply out, whatever came before it, the whole
/// header scan rules it out.
proof fn lemma_scan_ruled_out(hs: Seq<MessageHeaderView>, users: Seq<Seq<char>>, k: int)
    requires
        0 <= k < hs.len(),
        forall|f: bool, n: nat| #[trigger] vacation_header_step(f, n, hs[k], users) is None,
    ensures
        vacation_header_scan(hs, users) is None,
    decreases hs.len(),
{
    if k < hs.len() - 1 {
        assert(hs.drop_last()[k] == hs[k]);
        lemma_scan_ruled_out(hs.drop_last(), users, k);
    } else {
        match vacation_header_scan(hs.drop_last(), users) {
            Some((f, n)) => {
                assert(vacation_header_step(f, n, hs[k], users) is None);
            },
            None => {},
        }
    }
}

/// A message with an `X-Auto-Response-Suppress` header (its name in any
/// ASCII case) one of whose comma-separated items, trimmed and in ASCII
/// lower case, reads `all` or `oof` gets no vacation reply, whatever else
/// it carries.
pub proof fn lemma_suppressed_message_gets_no_reply(
    num_out: usize,
    max_out: usize,
    env: Seq<(crate::Envelope, Seq<char>)>,
    use_orig_rcpt: bool,
    given: Seq<Seq<char>>,
    user_address: Seq<char>,
    headers: Seq<MessageHeaderView>,
    max_received: usize,
    handle: Seq<char>,
    period_kind: u8,
    period_value: u64,
    default_expiry: u64,
    k: int,
    i: int,
)
    requires
        0 <= k < headers.len(),
        headers[k].name.0 == crate::header::OTHER_HEADER_ID,
        crate::runtime::actions::action_flags::eq_ignore_ascii_case(headers[k].name.1, "X-Auto-Response-Suppress"@),
        headers[k].text is Some,
        0 <= i < pieces(lower_chars(headers[k].text.unwrap()), ',').len(),
        trimmed(pieces(lower_chars(headers[k].text.unwrap()), ',')[i]) == "all"@ || trimmed(
            pieces(lower_chars(headers[k].text.unwrap()), ',')[i],
        ) == "oof"@,
    ensures
        vacation_check(
            num_out,
            max_out,
            env,
            use_orig_rcpt,
            given,
            user_address,
            headers,
            max_received,
            handle,
            period_kind,
            period_value,
            default_expiry,
        ) is None,
{
    let users = user_addresses(env, use_orig_rcpt, given, user_address);
    lemma_suppress_all_or_oof(headers[k].text.unwrap(), i);
    assert forall|f: bool, n: nat| #[trigger] vacation_header_step(f, n, headers[k], users) is None by {}
    lemma_scan_ruled_out(headers, users, k);
}


/// No vacation reply goes out when the script may send no more messages,
/// when there is no sender, when the sender is a mailer daemon
/// (`mailer-daemon...`), a list owner (`owner-...`) or a list's request
/// address (`...-request@...`), or when the sender is one of the user's own
/// addresses (ASCII case aside).
pub proof fn lemma_vacation_refused_senders(
    num_out: usize,
    max_out: usize,
    env: Seq<(crate::Envelope, Seq<char>)>,
    use_orig_rcpt: bool,
    given: Seq<Seq<char>>,
    user_address: Seq<char>,
    headers: Seq<MessageHeaderView>,
    max_received: usize,
    handle: Seq<char>,
    period_kind: u8,
    period_value: u64,
    default_expiry: u64,
)
    ensures
        ({
            let r = vacation_check(
                num_out,
                max_out,
                env,
                use_orig_rcpt,
                given,
                user_address,
                headers,
                max_received,
                handle,
                period_kind,
                period_value,
                default_expiry,
            );
            let from = envelope_sender(env);
            let users = user_addresses(env, use_orig_rcpt, given, user_address);
            &&& num_out >= max_out ==> r is None
            &&& from.len() == 0 ==> r is None
            &&& ("mailer-daemon"@.len() <= from.len() && from.take("mailer-daemon"@.len() as int) == "mailer-daemon"@) ==> r is None
            &&& ("owner-"@.len() <= from.len() && from.take("owner-"@.len() as int) == "owner-"@) ==> r is None
            &&& (exists|i: int| 0 <= i && i + 9 <= from.len() && #[trigger] from.subrange(i, i + 9) == "-request@"@) ==> r is None
            &&& (exists|i: int|
                0 <= i < users.len() && crate::runtime::actions::action_flags::eq_ignore_ascii_case(#[trigger] users[i], from)) ==> r is None
        }),
{
    reveal_strlit("-request@");
    let from = envelope_sender(env);
    let users = user_addresses(env, use_orig_rcpt, given, user_address);
    if exists|i: int| 0 <= i && i + 9 <= from.len() && #[trigger] from.subrange(i, i + 9) == "-request@"@ {
        let i = choose|i: int| 0 <= i && i + 9 <= from.len() && #[trigger] from.subrange(i, i + 9) == "-request@"@;
        assert(from.subrange(i, i + "-request@"@.len()) == "-request@"@);
        assert(contains_text(from, "-request@"@));
    }
    if exists|i: int|
        0 <= i < users.len() && crate::runtime::actions::action_flags::eq_ignore_ascii_case(#[trigger] users[i], from) {
        assert(holds_address(users, from));
    }
}

/// A header that rules a reply out, wherever it stands: a mailing list
/// header, an `Auto-Submitted` header other than `no` (ASCII case aside),
/// or `Precedence: bulk` (names and `bulk` in any ASCII case).
pub open spec fn rules_out_reply(h: MessageHeaderView) -> bool {
    ||| 30 <= h.name.0 <= 36
    ||| h.name.0 == AUTO_SUBMITTED_HEADER_ID && !(h.text matches Some(t)
        && crate::runtime::actions::action_flags::eq_ignore_ascii_case(t, "no"@))
    ||| h.name.0 == crate::header::OTHER_HEADER_ID && crate::runtime::actions::action_flags::eq_ignore_ascii_case(
        h.name.1,
        "Precedence"@,
    ) && (h.text matches Some(t) && crate::runtime::actions::action_flags::eq_ignore_ascii_case(t, "bulk"@))
}

/// A message with a mailing list header, an `Auto-Submitted` header other
/// than `no`, or `Precedence: bulk` gets no vacation reply, whatever else it
/// carries.
pub proof fn lemma_vacation_refused_headers(
    num_out: usize,
    max_out: usize,
    env: Seq<(crate::Envelope, Seq<char>)>,
    use_orig_rcpt: bool,
    given: Seq<Seq<char>>,
    user_address: Seq<char>,
    headers: Seq<MessageHeaderView>,
    max_received: usize,
    handle: Seq<char>,
    period_kind: u8,
    period_value: u64,
    default_expiry: u64,
    k: int,
)
    requires
        0 <= k < headers.len(),
        rules_out_reply(headers[k]),
    ensures
        vacation_check(
            num_out,
            max_out,
            env,
            use_orig_rcpt,
            given,
            user_address,
            headers,
            max_received,
            handle,
            period_kind,
            period_value,
            default_expiry,
        ) is None,
{
    reveal_strlit("Precedence");
    reveal_strlit("X-Auto-Response-Suppress");
    let users = user_addresses(env, use_orig_rcpt, given, user_address);
    let h = headers[k];
    if h.name.0 == crate::header::OTHER_HEADER_ID {
        assert(!crate::runtime::actions::action_flags::eq_ignore_ascii_case(h.name.1, "X-Auto-Response-Suppress"@));
    }
    assert forall|f: bool, n: nat| #[trigger] vacation_header_step(f, n, headers[k], users) is None by {}
    lemma_scan_ruled_out(headers, users, k);
}

/// When the header scan finds one of the user's addresses, some recipient
/// header (`To`, `Cc`, `Bcc`, `Resent-To`, `Resent-Cc`, `Resent-Bcc`) lists
/// it.
proof fn lemma_scan_found(hs: Seq<MessageHeaderView>, users: Seq<Seq<char>>)
    ensures
        vacation_header_scan(hs, users) matches Some((found, _)) && found ==> exists|k: int|
            0 <= k < hs.len() && is_recipient_header(#[trigger] hs[k].name.0) && shares_address(hs[k].addresses, users),
    decreases hs.len(),
{
    if hs.len() > 0 {
        lemma_scan_found(hs.drop_last(), users);
        match vacation_header_scan(hs.drop_last(), users) {
            Some((f, n)) => {
                if f {
                    let k = choose|k: int|
                        0 <= k < hs.drop_last().len() && is_recipient_header(#[trigger] hs.drop_last()[k].name.0)
                            && shares_address(hs.drop_last()[k].addresses, users);
                    assert(hs[k] == hs.drop_last()[k]);
                } else {
                    let last = hs.len() - 1;
                    assert(hs[last] == hs.last());
                }
            },
            None => {},
        }
    }
}

/// A vacation reply goes out only to a message one of whose recipient
/// headers lists one of the user's addresses; it is remembered under `_v`,
/// the sender and the handle, for the period the script gave: days (capped
/// at the largest number), seconds, or the default.
pub proof fn lemma_vacation_reply_form(
    num_out: usize,
    max_out: usize,
    env: Seq<(crate::Envelope, Seq<char>)>,
    use_orig_rcpt: bool,
    given: Seq<Seq<char>>,
    user_address: Seq<char>,
    headers: Seq<MessageHeaderView>,
    max_received: usize,
    handle: Seq<char>,
    period_kind: u8,
    period_value: u64,
    default_expiry: u64,
)
    ensures
        vacation_check(
            num_out,
            max_out,
            env,
            use_orig_rcpt,
            given,
            user_address,
            headers,
            max_received,
            handle,
            period_kind,
            period_value,
            default_expiry,
        ) matches Some((id, expiry)) ==> {
            &&& num_out < max_out
            &&& id == "_v"@ + envelope_sender(env) + handle
            &&& exists|k: int|
                0 <= k < headers.len() && is_recipient_header(#[trigger] headers[k].name.0) && shares_address(
                    headers[k].addresses,
                    user_addresses(env, use_orig_rcpt, given, user_address),
                )
            &&& period_kind == 0 ==> expiry == if period_value * 86400 > u64::MAX {
                u64::MAX as int
            } else {
                period_value * 86400
            }
            &&& period_kind == 1 ==> expiry == period_value
            &&& period_kind > 1 ==> expiry == default_expiry
        },
{
    lemma_scan_found(headers, user_addresses(env, use_orig_rcpt, given, user_address));
}

} // verus!
