//! What outgoing messages take from the message builder: the text of a
//! `Date` header and a fresh `Message-ID`.

use vstd::prelude::*;
use vstd::string::StringSliceAdditionalSpecFns;
use vstd::utf8::encode_utf8;

verus! {

/// What `Date::to_rfc822` of the message builder writes for the Unix time
/// `ts` (such as `Thu, 1 Jan 1970 00:00:00 +0000`).
pub uninterp spec fn rfc822_date_of(ts: i64) -> Seq<char>;

/// `mail_builder::headers::date::Date::new(ts).to_rfc822()`: the RFC 822
/// text of the time `ts`, a function of `ts` alone; the calendar
/// arithmetic that produces it is named, not stated.
#[verifier::external_body]
pub(crate) fn rfc822_date(ts: i64) -> (r: String)
    ensures
        r@ == rfc822_date_of(ts),
{
    mail_builder::headers::date::Date::new(ts).to_rfc822()
}

/// `mail_builder::headers::date::Date::now().to_rfc822()`: the RFC 822
/// text of the current time, which is the text of some Unix time; which
/// one depends on the clock and is not stated.
#[verifier::external_body]
pub(crate) fn rfc822_date_now() -> (r: String)
    ensures
        exists|ts: i64| r@ == rfc822_date_of(ts),
{
    mail_builder::headers::date::Date::now().to_rfc822()
}

/// A message id for the host `hostname`: `<`, some unique part (the
/// UTF-8 form of some text), `@`, the host name and `>`.
pub open spec fn is_message_id(id: Seq<u8>, hostname: Seq<u8>) -> bool {
    exists|unique: Seq<char>| id == seq![60u8] + encode_utf8(unique) + seq![64u8] + hostname + seq![62u8]
}

/// `mail_builder::headers::message_id::generate_message_id_header`, writing
/// to a `Vec`: appends `<`, a unique part, `@`, the host name and `>`. The
/// unique part is the bytes of the `String` that `make_boundary` gives; it
/// comes from the clock, the thread and a counter, and which text it is is
/// not stated. Writing to a `Vec` cannot fail.
#[verifier::external_body]
pub(crate) fn write_message_id(out: &mut Vec<u8>, hostname: &str)
    ensures
        final(out)@.len() >= old(out)@.len(),
        final(out)@.subrange(0, old(out)@.len() as int) == old(out)@,
        is_message_id(
            final(out)@.subrange(old(out)@.len() as int, final(out)@.len() as int),
            hostname.spec_bytes(),
        ),
{
    let _ = mail_builder::headers::message_id::generate_message_id_header(&mut *out, hostname);
}

/// A run of lowercase hexadecimal digits, as `{:x}` writes a number.
pub open spec fn is_hex_run(s: Seq<char>) -> bool {
    s.len() > 0 && forall|i: int| 0 <= i < s.len() ==> ('0' <= #[trigger] s[i] <= '9' || 'a' <= s[i] <= 'f')
}

/// Three runs of lowercase hexadecimal digits joined by dots.
pub open spec fn is_boundary_text(t: Seq<char>) -> bool {
    exists|a: Seq<char>, b: Seq<char>, c: Seq<char>|
        is_hex_run(a) && is_hex_run(b) && is_hex_run(c) && t == a + seq!['.'] + b + seq!['.'] + c
}

/// `mail_builder::mime::make_boundary` with `.` between its parts: three
/// numbers written in lowercase hexadecimal (from the clock, a counter and
/// a hash of the thread) joined by dots. Which numbers is not stated.
#[verifier::external_body]
pub(crate) fn make_boundary() -> (r: String)
    ensures
        is_boundary_text(r@),
{
    mail_builder::mime::make_boundary(".")
}

} // verus!
