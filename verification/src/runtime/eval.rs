//! Reading header values: raw header values, and the parts of a
//! `Received` header.

use crate::compiler::{ReceivedHostname, ReceivedPart};
use crate::runtime::actions::action_redirect::{date_timestamp, date_timestamp_of, DateParts};
use crate::runtime::variable::{Variable, VariableView};
use crate::runtime::actions::action_convert::{html_escaped, html_text_of, html_to_text, text_to_html};
use crate::text::{is_ws, string_from_utf8_lossy, utf8_lossy};
use vstd::utf8::{encode_utf8, valid_utf8};
use vstd::prelude::*;

verus! {

/// The bytes of a raw header value with each run of ASCII white space
/// made one space, and white space at the end dropped; `pending` when a
/// run is waiting for the next byte.
pub open spec fn collapse_ws(acc: Seq<u8>, pending: bool, input: Seq<u8>) -> Seq<u8>
    decreases input.len(),
{
    if input.len() == 0 {
        acc
    } else {
        let ch = input[0];
        if is_ws(ch) {
            collapse_ws(acc, true, input.drop_first())
        } else if pending {
            collapse_ws(acc.push(32).push(ch), false, input.drop_first())
        } else {
            collapse_ws(acc.push(ch), false, input.drop_first())
        }
    }
}

/// Collapsed white space: no tab, line feed, form feed or carriage
/// return, no two spaces in a row, and no space at the end.
pub open spec fn collapsed_shape(b: Seq<u8>) -> bool {
    &&& forall|k: int| 0 <= k < b.len() ==> #[trigger] b[k] != 9 && b[k] != 10 && b[k] != 12 && b[k] != 13
    &&& forall|k: int| 0 <= k < b.len() - 1 ==> !(#[trigger] b[k] == 32 && b[k + 1] == 32)
    &&& b.len() > 0 ==> b.last() != 32
}

proof fn lemma_collapse_shape(acc: Seq<u8>, pending: bool, input: Seq<u8>)
    requires
        collapsed_shape(acc),
    ensures
        collapsed_shape(collapse_ws(acc, pending, input)),
    decreases input.len(),
{
    if input.len() > 0 {
        let ch = input[0];
        if is_ws(ch) {
            lemma_collapse_shape(acc, true, input.drop_first());
        } else if pending {
            let n = acc.push(32).push(ch);
            assert(collapsed_shape(n)) by {
                assert forall|k: int| 0 <= k < n.len() - 1 implies !(#[trigger] n[k] == 32 && n[k + 1] == 32) by {
                    if k < acc.len() - 1 {
                        assert(n[k] == acc[k] && n[k + 1] == acc[k + 1]);
                    } else if k == acc.len() - 1 {
                        assert(n[k] == acc.last());
                    }
                }
            }
            lemma_collapse_shape(n, false, input.drop_first());
        } else {
            let n = acc.push(ch);
            assert(collapsed_shape(n)) by {
                assert forall|k: int| 0 <= k < n.len() - 1 implies !(#[trigger] n[k] == 32 && n[k + 1] == 32) by {
                    if k < acc.len() - 1 {
                        assert(n[k] == acc[k] && n[k + 1] == acc[k + 1]);
                    }
                }
            }
            lemma_collapse_shape(n, false, input.drop_first());
        }
    }
}

/// A raw header value once its white space is collapsed holds no tab or
/// line break, no two spaces in a row, and no space at the end.
pub proof fn lemma_sanitized_header_shape(bytes: Seq<u8>)
    ensures
        collapsed_shape(collapse_ws(Seq::empty(), false, bytes)),
{
    lemma_collapse_shape(Seq::empty(), false, bytes);
}

/// A raw header value with its white space collapsed (see
/// `collapse_ws`), as text.
pub fn sanitize_raw_header(bytes: &[u8]) -> (r: String)
    ensures
        r@ == utf8_lossy(collapse_ws(Seq::empty(), false, bytes@)),
        collapsed_shape(collapse_ws(Seq::empty(), false, bytes@)),
        valid_utf8(collapse_ws(Seq::empty(), false, bytes@)) ==> encode_utf8(r@) == collapse_ws(Seq::empty(), false, bytes@),
{
    proof {
        lemma_sanitized_header_shape(bytes@);
        if valid_utf8(collapse_ws(Seq::empty(), false, bytes@)) {
            vstd::utf8::decode_utf8_encode_utf8(collapse_ws(Seq::empty(), false, bytes@));
        }
    }
    let mut result: Vec<u8> = Vec::new();
    let mut last_is_space = false;
    let mut i: usize = 0;
    assert(bytes@.subrange(0, bytes@.len() as int) =~= bytes@);
    while i < bytes.len()
        invariant
            i <= bytes@.len(),
            collapse_ws(result@, last_is_space, bytes@.subrange(i as int, bytes@.len() as int))
                == collapse_ws(Seq::empty(), false, bytes@),
        decreases bytes@.len() - i,
    {
        let ch = bytes[i];
        let ghost rest = bytes@.subrange(i as int, bytes@.len() as int);
        assert(rest[0] == ch);
        assert(rest.drop_first() =~= bytes@.subrange(i + 1, bytes@.len() as int));
        if crate::text::is_ws_exec(ch) {
            last_is_space = true;
        } else {
            if last_is_space {
                result.push(32);
                last_is_space = false;
            }
            result.push(ch);
        }
        i += 1;
    }
    assert(bytes@.subrange(bytes@.len() as int, bytes@.len() as int) =~= Seq::<u8>::empty());
    string_from_utf8_lossy(result.as_slice())
}

} // verus!

verus! {

/// A host named in a `Received` header: a name, or an IP address written
/// out.
pub enum HostText {
    Name(String),
    Ip(String),
}

/// The fields of a `Received` header, as text (addresses and protocols
/// written out) and, for its date, the fields of the date.
pub struct ReceivedFields {
    pub from: Option<HostText>,
    pub helo: Option<HostText>,
    pub from_ip: Option<String>,
    pub from_iprev: Option<String>,
    pub by: Option<HostText>,
    pub for_: Option<String>,
    pub with: Option<String>,
    pub tls_version: Option<String>,
    pub tls_cipher: Option<String>,
    pub id: Option<String>,
    pub ident: Option<String>,
    pub via: Option<String>,
    pub date: Option<DateParts>,
}

/// A host as seen in contracts: whether it is a name, and its text.
pub open spec fn host_view(h: HostText) -> (bool, Seq<char>) {
    match h {
        HostText::Name(n) => (true, n@),
        HostText::Ip(i) => (false, i@),
    }
}

pub open spec fn opt_host_view(h: Option<HostText>) -> Option<(bool, Seq<char>)> {
    match h {
        Some(x) => Some(host_view(x)),
        None => None,
    }
}

pub open spec fn opt_text(o: Option<String>) -> Option<VariableView> {
    match o {
        Some(s) => Some(VariableView::String(s@)),
        None => None,
    }
}

/// What `DateTime::to_rfc822` of the message parser writes for `d`.
pub uninterp spec fn date_rfc822_of(d: DateParts) -> Seq<char>;

/// `mail_parser::DateTime::to_rfc822`: the RFC 822 text of the date `d`,
/// named, not stated.
#[verifier::external_body]
fn date_rfc822(d: DateParts) -> (r: String)
    ensures
        r@ == date_rfc822_of(d),
{
    mail_parser::DateTime {
        year: d.year,
        month: d.month,
        day: d.day,
        hour: d.hour,
        minute: d.minute,
        second: d.second,
        tz_before_gmt: d.tz_before_gmt,
        tz_hour: d.tz_hour,
        tz_minute: d.tz_minute,
    }.to_rfc822()
}

/// The text of a host for a `Received` part that asks for a name, an
/// address, or either.
pub open spec fn host_part(kind: ReceivedHostname, h: (bool, Seq<char>)) -> Option<VariableView> {
    match kind {
        ReceivedHostname::Name => if h.0 {
            Some(VariableView::String(h.1))
        } else {
            None
        },
        ReceivedHostname::Ip => if !h.0 {
            Some(VariableView::String(h.1))
        } else {
            None
        },
        ReceivedHostname::Any => Some(VariableView::String(h.1)),
    }
}

/// Reads a host for a `Received` part (see `host_part`).
pub fn host_variable(kind: ReceivedHostname, host: &HostText) -> (r: Option<Variable>)
    ensures
        crate::runtime::expression::opt_view(r) == host_part(kind, host_view(*host)),
{
    match (kind, host) {
        (ReceivedHostname::Name, HostText::Name(n)) => Some(Variable::String(n.clone())),
        (ReceivedHostname::Ip, HostText::Ip(i)) => Some(Variable::String(i.clone())),
        (ReceivedHostname::Any, HostText::Name(n)) => Some(Variable::String(n.clone())),
        (ReceivedHostname::Any, HostText::Ip(i)) => Some(Variable::String(i.clone())),
        _ => None,
    }
}

/// The value of a part of a `Received` header: the host it came from (its
/// `from`, else its `helo`) or the one that took it, as name, address or
/// either; one of its texts; or its date, as a Unix time or as RFC 822
/// text. Nothing when the header lacks the part.
pub open spec fn received_value(part: ReceivedPart, r: ReceivedFields) -> Option<VariableView> {
    match part {
        ReceivedPart::From(kind) => match opt_host_view(r.from) {
            Some(h) => host_part(kind, h),
            None => match opt_host_view(r.helo) {
                Some(h) => host_part(kind, h),
                None => None,
            },
        },
        ReceivedPart::FromIp => opt_text(r.from_ip),
        ReceivedPart::FromIpRev => opt_text(r.from_iprev),
        ReceivedPart::By(kind) => match opt_host_view(r.by) {
            Some(h) => host_part(kind, h),
            None => None,
        },
        ReceivedPart::For => opt_text(r.for_),
        ReceivedPart::With => opt_text(r.with),
        ReceivedPart::TlsVersion => opt_text(r.tls_version),
        ReceivedPart::TlsCipher => opt_text(r.tls_cipher),
        ReceivedPart::Id => opt_text(r.id),
        ReceivedPart::Ident => opt_text(r.ident),
        ReceivedPart::Via => opt_text(r.via),
        ReceivedPart::Date => match r.date {
            Some(d) => Some(VariableView::Integer(date_timestamp_of(d))),
            None => None,
        },
        ReceivedPart::DateRaw => match r.date {
            Some(d) => Some(VariableView::String(date_rfc822_of(d))),
            None => None,
        },
    }
}

fn text_variable(o: &Option<String>) -> (r: Option<Variable>)
    ensures
        crate::runtime::expression::opt_view(r) == opt_text(*o),
{
    match o {
        Some(s) => Some(Variable::String(s.clone())),
        None => None,
    }
}

/// Reads a part of a `Received` header (see `received_value`).
pub fn received_part(part: ReceivedPart, rcvd: &ReceivedFields) -> (r: Option<Variable>)
    ensures
        crate::runtime::expression::opt_view(r) == received_value(part, *rcvd),
{
    match part {
        ReceivedPart::From(kind) => match &rcvd.from {
            Some(h) => host_variable(kind, h),
            None => match &rcvd.helo {
                Some(h) => host_variable(kind, h),
                None => None,
            },
        },
        ReceivedPart::FromIp => text_variable(&rcvd.from_ip),
        ReceivedPart::FromIpRev => text_variable(&rcvd.from_iprev),
        ReceivedPart::By(kind) => match &rcvd.by {
            Some(h) => host_variable(kind, h),
            None => None,
        },
        ReceivedPart::For => text_variable(&rcvd.for_),
        ReceivedPart::With => text_variable(&rcvd.with),
        ReceivedPart::TlsVersion => text_variable(&rcvd.tls_version),
        ReceivedPart::TlsCipher => text_variable(&rcvd.tls_cipher),
        ReceivedPart::Id => text_variable(&rcvd.id),
        ReceivedPart::Ident => text_variable(&rcvd.ident),
        ReceivedPart::Via => text_variable(&rcvd.via),
        ReceivedPart::Date => match rcvd.date {
            Some(d) => Some(Variable::Integer(date_timestamp(d))),
            None => None,
        },
        ReceivedPart::DateRaw => match rcvd.date {
            Some(d) => Some(Variable::String(date_rfc822(d))),
            None => None,
        },
    }
}

} // verus!

verus! {

/// The values a header index picks from a list: all of them for index 0,
/// the `index`-th (counting from 1) for a positive index, the `-index`-th
/// from the end for a negative one; none when the list is too short.
pub open spec fn indexed_values(list: Seq<Seq<char>>, index: i32) -> Seq<Seq<char>> {
    if index == 0 {
        list
    } else if index > 0 {
        if index <= list.len() {
            seq![list[index - 1]]
        } else {
            seq![]
        }
    } else {
        if -index <= list.len() {
            seq![list[list.len() + index]]
        } else {
            seq![]
        }
    }
}

/// Picks values from a list by a header index (see `indexed_values`).
pub fn pick_indexed(list: &Vec<String>, index: i32) -> (r: Vec<String>)
    ensures
        crate::runtime::actions::action_notify::strings_view(r@) == indexed_values(
            crate::runtime::actions::action_notify::strings_view(list@),
            index,
        ),
{
    let ghost lv = crate::runtime::actions::action_notify::strings_view(list@);
    let mut r: Vec<String> = Vec::new();
    if index == 0 {
        let mut i: usize = 0;
        while i < list.len()
            invariant
                i <= list@.len(),
                lv == crate::runtime::actions::action_notify::strings_view(list@),
                crate::runtime::actions::action_notify::strings_view(r@) == lv.take(i as int),
            decreases list@.len() - i,
        {
            let ghost before = crate::runtime::actions::action_notify::strings_view(r@);
            r.push(list[i].clone());
            assert(crate::runtime::actions::action_notify::strings_view(r@) =~= before.push(lv[i as int]));
            assert(lv.take(i + 1) =~= lv.take(i as int).push(lv[i as int]));
            i += 1;
        }
        assert(lv.take(list@.len() as int) =~= lv);
    } else if index > 0 {
        let k = index as u32 as usize;
        if k <= list.len() {
            r.push(list[k - 1].clone());
            assert(crate::runtime::actions::action_notify::strings_view(r@) =~= seq![lv[k - 1]]);
        } else {
            assert(crate::runtime::actions::action_notify::strings_view(r@) =~= Seq::<Seq<char>>::empty());
        }
    } else {
        let k: u64 = if index == i32::MIN {
            2147483648
        } else {
            (-index) as u64
        };
        if k <= list.len() as u64 {
            let p = list.len() - (k as usize);
            r.push(list[p].clone());
            assert(crate::runtime::actions::action_notify::strings_view(r@) =~= seq![lv[p as int]]);
        } else {
            assert(crate::runtime::actions::action_notify::strings_view(r@) =~= Seq::<Seq<char>>::empty());
        }
    }
    r
}

/// An address as a header value reads: `name <address>`, the name alone,
/// `<address>` alone, or empty text.
pub open spec fn address_value(name: Option<Seq<char>>, address: Option<Seq<char>>) -> Seq<char> {
    match (name, address) {
        (Some(n), Some(a)) => n + " <"@ + a + ">"@,
        (Some(n), None) => n,
        (None, Some(a)) => "<"@ + a + ">"@,
        (None, None) => seq![],
    }
}

/// Writes an address as a header value reads (see `address_value`).
pub fn address_text(name: Option<&str>, address: Option<&str>) -> (r: String)
    ensures
        r@ == address_value(
            crate::runtime::actions::action_convert::opt_str(name),
            crate::runtime::actions::action_convert::opt_str(address),
        ),
{
    match (name, address) {
        (Some(n), Some(a)) => {
            let x = crate::runtime::expression::concat(n, " <");
            let y = crate::runtime::expression::concat(x.as_str(), a);
            crate::runtime::expression::concat(y.as_str(), ">")
        },
        (Some(n), None) => n.to_string(),
        (None, Some(a)) => {
            let x = crate::runtime::expression::concat("<", a);
            crate::runtime::expression::concat(x.as_str(), ">")
        },
        (None, None) => String::new(),
    }
}

/// A content type as a header value reads: `type/subtype`, or the type
/// alone.
pub open spec fn content_type_value(ctype: Seq<char>, subtype: Option<Seq<char>>) -> Seq<char> {
    match subtype {
        Some(st) => ctype + "/"@ + st,
        None => ctype,
    }
}

/// Writes a content type as a header value reads (see
/// `content_type_value`).
pub fn content_type_text(ctype: &str, subtype: Option<&str>) -> (r: String)
    ensures
        r@ == content_type_value(ctype@, crate::runtime::actions::action_convert::opt_str(subtype)),
{
    match subtype {
        Some(st) => {
            let x = crate::runtime::expression::concat(ctype, "/");
            crate::runtime::expression::concat(x.as_str(), st)
        },
        None => ctype.to_string(),
    }
}

/// The value of the first attribute named `name` (ASCII case aside).
pub open spec fn attribute_value(attrs: Seq<(Seq<char>, Seq<char>)>, name: Seq<char>) -> Option<Seq<char>>
    decreases attrs.len(),
{
    if attrs.len() == 0 {
        None
    } else if crate::runtime::actions::action_flags::eq_ignore_ascii_case(attrs[0].0, name) {
        Some(attrs[0].1)
    } else {
        attribute_value(attrs.drop_first(), name)
    }
}

pub open spec fn pairs_view(v: Seq<(String, String)>) -> Seq<(Seq<char>, Seq<char>)> {
    v.map_values(|p: (String, String)| (p.0@, p.1@))
}

/// Finds a content-type attribute (see `attribute_value`).
pub fn find_attribute(attrs: &Vec<(String, String)>, name: &str) -> (r: Option<String>)
    ensures
        crate::runtime::actions::action_notify::opt_string_view(r) == attribute_value(pairs_view(attrs@), name@),
{
    let ghost av = pairs_view(attrs@);
    let mut i: usize = 0;
    assert(av.skip(0) =~= av);
    while i < attrs.len()
        invariant
            i <= attrs@.len(),
            av == pairs_view(attrs@),
            attribute_value(av, name@) == attribute_value(av.skip(i as int), name@),
        decreases attrs@.len() - i,
    {
        assert(av.skip(i as int)[0] == (attrs@[i as int].0@, attrs@[i as int].1@));
        assert(av.skip(i as int).drop_first() =~= av.skip(i + 1));
        if crate::runtime::actions::action_flags::str_eq_ignore_ascii_case(attrs[i].0.as_str(), name) {
            return Some(attrs[i].1.clone());
        }
        i += 1;
    }
    assert(av.skip(i as int).len() == 0);
    None
}

/// The decoded body of a message part.
pub enum PartContent {
    Text(String),
    Html(String),
    Binary(Vec<u8>),
    Other,
}

/// A message part as the body variables read it: its decoded body and
/// where its raw body stands in the raw message.
pub struct BodySource {
    pub content: PartContent,
    pub offset_body: u32,
    pub offset_end: u32,
}

/// The part that the first number of `list` names, if any.
pub open spec fn first_listed(parts: Seq<BodySource>, list: Seq<u32>) -> Option<BodySource> {
    if list.len() > 0 && list[0] < parts.len() {
        Some(parts[list[0] as int])
    } else {
        None
    }
}

/// The bytes of the HTML document that a text becomes.
pub open spec fn html_document(t: Seq<char>) -> Seq<u8> {
    encode_utf8("<html><body>"@) + html_escaped(encode_utf8(t)) + encode_utf8("</body></html>"@)
}

/// Whether `r` is what a body variable of kind `kind` reads: for 0 the
/// text of the first text body (the text of an HTML one when `convert`
/// asks); for 1 the HTML of the first HTML body (a text one made HTML when
/// `convert` asks); for 2 the text of the current part (binary contents
/// read as UTF-8, invalid sequences replaced); for any other kind the raw
/// body of the current part, read the same way.
pub open spec fn body_text_is(
    kind: u8,
    convert: bool,
    parts: Seq<BodySource>,
    text_body: Seq<u32>,
    html_body: Seq<u32>,
    current: u32,
    raw: Seq<u8>,
    r: Option<Seq<char>>,
) -> bool {
    if kind == 0 {
        match first_listed(parts, text_body) {
            Some(p) => match p.content {
                PartContent::Text(t) => r == Some(t@),
                PartContent::Html(h) => if convert {
                    r == Some(html_text_of(h@))
                } else {
                    r is None
                },
                _ => r is None,
            },
            None => r is None,
        }
    } else if kind == 1 {
        match first_listed(parts, html_body) {
            Some(p) => match p.content {
                PartContent::Html(h) => r == Some(h@),
                PartContent::Text(t) => if convert {
                    r matches Some(v) && encode_utf8(v) == html_document(t@)
                } else {
                    r is None
                },
                _ => r is None,
            },
            None => r is None,
        }
    } else if current < parts.len() {
        let p = parts[current as int];
        if kind == 2 {
            match p.content {
                PartContent::Text(t) => r == Some(t@),
                PartContent::Html(h) => r == Some(h@),
                PartContent::Binary(b) => r == Some(utf8_lossy(b@)),
                PartContent::Other => r is None,
            }
        } else if p.offset_body <= p.offset_end <= raw.len() {
            r == Some(utf8_lossy(raw.subrange(p.offset_body as int, p.offset_end as int)))
        } else {
            r is None
        }
    } else {
        r is None
    }
}

pub open spec fn opt_chars(o: Option<String>) -> Option<Seq<char>> {
    match o {
        Some(s) => Some(s@),
        None => None,
    }
}

/// Reads a body variable (see `body_text_is`).
pub fn body_text(
    kind: u8,
    convert: bool,
    parts: &Vec<BodySource>,
    text_body: &Vec<u32>,
    html_body: &Vec<u32>,
    current: u32,
    raw: &Vec<u8>,
) -> (r: Option<String>)
    ensures
        body_text_is(kind, convert, parts@, text_body@, html_body@, current, raw@, opt_chars(r)),
{
    if kind == 0 || kind == 1 {
        let list = if kind == 0 { text_body } else { html_body };
        if list.len() == 0 || list[0] as usize >= parts.len() {
            return None;
        }
        let p = &parts[list[0] as usize];
        match &p.content {
            PartContent::Text(t) => if kind == 0 {
                Some(t.clone())
            } else if convert {
                Some(text_to_html(t.as_str()))
            } else {
                None
            },
            PartContent::Html(h) => if kind == 1 {
                Some(h.clone())
            } else if convert {
                Some(html_to_text(h.as_str()))
            } else {
                None
            },
            _ => None,
        }
    } else if (current as usize) < parts.len() {
        let p = &parts[current as usize];
        if kind == 2 {
            match &p.content {
                PartContent::Text(t) => Some(t.clone()),
                PartContent::Html(h) => Some(h.clone()),
                PartContent::Binary(b) => Some(string_from_utf8_lossy(b.as_slice())),
                PartContent::Other => None,
            }
        } else if p.offset_body <= p.offset_end && (p.offset_end as usize) <= raw.len() {
            let bytes = crate::text::sub_bytes(raw.as_slice(), p.offset_body as usize, p.offset_end as usize);
            Some(string_from_utf8_lossy(bytes.as_slice()))
        } else {
            None
        }
    } else {
        None
    }
}

} // verus!
