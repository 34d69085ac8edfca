//! The value of a header variable (`${header.to:address.domain[2]}` and the
//! like): which part of a header it reads, by the decoded value the message
//! parser gave the header, or by the parsers of addresses, dates and message
//! ids run on the raw bytes.

use crate::compiler::grammar::AddressPart;
use crate::compiler::{ContentTypePart, ContentTypePartView, HeaderPart, HeaderPartView};
use crate::header::{HeaderName, OTHER_HEADER_ID};
use crate::runtime::actions::action_editheader::holds_header;
use crate::runtime::actions::action_redirect::{date_timestamp, date_timestamp_of, DateParts};
use crate::runtime::eval::{
    address_text, address_value, attribute_value, collapse_ws, content_type_text, content_type_value,
    find_attribute, pairs_view, received_part, received_value, sanitize_raw_header, ReceivedFields,
};
use crate::runtime::variable::{variables_view, Variable, VariableView};
use crate::text::{str_chars, string_from_utf8, sub_bytes, trim_str, trimmed, utf8_lossy};
use vstd::prelude::*;
use vstd::utf8::{decode_utf8, valid_utf8};

verus! {

/// The number the message parser gives `Message-ID`.
pub const MESSAGE_ID_ID: u8 = 12;

/// The number the message parser gives `Resent-Message-ID`.
pub const RESENT_MESSAGE_ID_ID: u8 = 29;

/// An address as the message parser reads it: a display name and an
/// address, either of which may be missing.
#[derive(Debug, Clone, PartialEq, Eq)]
pub struct AddrModel {
    pub name: Option<String>,
    pub address: Option<String>,
}

pub open spec fn opt_chars(o: Option<String>) -> Option<Seq<char>> {
    match o {
        Some(s) => Some(s@),
        None => None,
    }
}

/// An address as seen in contracts.
pub open spec fn addr_view(a: AddrModel) -> (Option<Seq<char>>, Option<Seq<char>>) {
    (opt_chars(a.name), opt_chars(a.address))
}

pub open spec fn addrs_view(v: Seq<AddrModel>) -> Seq<(Option<Seq<char>>, Option<Seq<char>>)> {
    v.map_values(|a: AddrModel| addr_view(a))
}

/// A `Content-Type` value: type, subtype and attributes.
#[derive(Debug, Clone, PartialEq, Eq)]
pub struct ContentTypeModel {
    pub c_type: String,
    pub c_subtype: Option<String>,
    pub attributes: Vec<(String, String)>,
}

/// The decoded value the message parser gave a header.
pub enum ValueModel {
    Text(String),
    TextList(Vec<String>),
    Address(Vec<AddrModel>),
    ContentType(ContentTypeModel),
    DateTime(DateParts),
    Received(ReceivedFields),
    Empty,
}

/// A header of the message: its name, its decoded value, and where its
/// name, its value and its end stand in the raw message.
pub struct HeaderData {
    pub name: HeaderName,
    pub value: ValueModel,
    pub offset_field: u32,
    pub offset_start: u32,
    pub offset_end: u32,
}

/// What the message parser reads as a list of message ids.
pub enum IdParse {
    One(String),
    Many(Vec<String>),
    Nothing,
}

/// The result of the id parser as seen in contracts.
pub enum IdParseView {
    One(Seq<char>),
    Many(Seq<Seq<char>>),
    Nothing,
}

pub open spec fn strings_view(v: Seq<String>) -> Seq<Seq<char>> {
    v.map_values(|s: String| s@)
}

pub open spec fn id_parse_view(p: IdParse) -> IdParseView {
    match p {
        IdParse::One(s) => IdParseView::One(s@),
        IdParse::Many(v) => IdParseView::Many(strings_view(v@)),
        IdParse::Nothing => IdParseView::Nothing,
    }
}

/// What `MessageStream::parse_address` of the message parser reads in the
/// bytes: the addresses, or nothing when it reads no address value.
pub uninterp spec fn address_parse_of(bytes: Seq<u8>) -> Option<Seq<(Option<Seq<char>>, Option<Seq<char>>)>>;

/// What `MessageStream::parse_date` of the message parser reads in the
/// bytes: the fields of a date, or nothing.
pub uninterp spec fn date_parse_of(bytes: Seq<u8>) -> Option<DateParts>;

/// What `MessageStream::parse_id` of the message parser reads in the bytes.
pub uninterp spec fn id_parse_of(bytes: Seq<u8>) -> IdParseView;

/// `mail_parser::parsers::MessageStream::parse_address` on `bytes`: the
/// addresses it reads (groups flattened, in order), or nothing when it
/// gives no address value; its reading is named, not stated.
#[verifier::external_body]
fn parse_address_bytes(bytes: &[u8]) -> (r: Option<Vec<AddrModel>>)
    ensures
        match r {
            Some(v) => address_parse_of(bytes@) == Some(addrs_view(v@)),
            None => address_parse_of(bytes@) is None,
        },
{
    match mail_parser::parsers::MessageStream::new(bytes).parse_address() {
        mail_parser::HeaderValue::Address(a) => Some(
            a.iter().map(
                |x: &mail_parser::Addr| AddrModel {
                    name: x.name.as_ref().map(|s| s.to_string()),
                    address: x.address.as_ref().map(|s| s.to_string()),
                },
            ).collect(),
        ),
        _ => None,
    }
}

/// `mail_parser::parsers::MessageStream::parse_date` on `bytes`: the
/// fields of the date it reads, or nothing; its reading is named, not
/// stated.
#[verifier::external_body]
fn parse_date_bytes(bytes: &[u8]) -> (r: Option<DateParts>)
    ensures
        r == date_parse_of(bytes@),
{
    match mail_parser::parsers::MessageStream::new(bytes).parse_date() {
        mail_parser::HeaderValue::DateTime(d) => Some(DateParts {
            year: d.year, month: d.month, day: d.day, hour: d.hour, minute: d.minute, second: d.second,
            tz_before_gmt: d.tz_before_gmt, tz_hour: d.tz_hour, tz_minute: d.tz_minute,
        }),
        _ => None,
    }
}

/// What `MessageStream::parse_unstructured` of the message parser reads in
/// the bytes as text, or nothing when it gives no text.
pub uninterp spec fn unstructured_parse_of(bytes: Seq<u8>) -> Option<Seq<char>>;

/// `mail_parser::parsers::MessageStream::parse_unstructured` on `bytes`:
/// the text it reads, or nothing when it gives no text value; its reading
/// is named, not stated.
#[verifier::external_body]
fn parse_unstructured_bytes(bytes: &[u8]) -> (r: Option<String>)
    ensures
        opt_chars(r) == unstructured_parse_of(bytes@),
{
    match mail_parser::parsers::MessageStream::new(bytes).parse_unstructured() {
        mail_parser::HeaderValue::Text(t) => Some(t.to_string()),
        _ => None,
    }
}

/// `mail_parser::parsers::MessageStream::parse_id` on `bytes`: one id, a
/// list of ids, or nothing; its reading is named, not stated.
#[verifier::external_body]
fn parse_id_bytes(bytes: &[u8]) -> (r: IdParse)
    ensures
        id_parse_view(r) == id_parse_of(bytes@),
{
    match mail_parser::parsers::MessageStream::new(bytes).parse_id() {
        mail_parser::HeaderValue::Text(id) => IdParse::One(id.to_string()),
        mail_parser::HeaderValue::TextList(ids) => IdParse::Many(ids.iter().map(|s| s.to_string()).collect()),
        _ => IdParse::Nothing,
    }
}

/// Where the last `c` stands in `s`.
pub open spec fn last_index(s: Seq<char>, c: char) -> Option<int>
    decreases s.len(),
{
    if s.len() == 0 {
        None
    } else if s.last() == c {
        Some(s.len() - 1)
    } else {
        last_index(s.drop_last(), c)
    }
}

/// Where the first `c` stands in `s`.
pub open spec fn first_index(s: Seq<char>, c: char) -> Option<int>
    decreases s.len(),
{
    if s.len() == 0 {
        None
    } else {
        match first_index(s.drop_last(), c) {
            Some(k) => Some(k),
            None => if s.last() == c {
                Some(s.len() - 1)
            } else {
                None
            },
        }
    }
}

/// The local part of an address: what stands before its last `@`.
pub open spec fn local_part(a: Seq<char>) -> Option<Seq<char>> {
    match last_index(a, '@') {
        Some(k) => Some(a.take(k)),
        None => None,
    }
}

/// The part of an address a test or a variable reads (RFC 5228, RFC 5233
/// with `+` as the separator): the display name, the whole address, what
/// stands before or after its last `@`, and the user and the detail of the
/// local part, split at its first `+`. Nothing when the address lacks what
/// the part needs.
pub open spec fn address_part_of(part: AddressPart, a: (Option<Seq<char>>, Option<Seq<char>>)) -> Option<
    Seq<char>,
> {
    match part {
        AddressPart::Name => a.0,
        AddressPart::All => a.1,
        _ => match a.1 {
            Some(addr) => match last_index(addr, '@') {
                Some(k) => {
                    let local = addr.take(k);
                    match part {
                        AddressPart::LocalPart => Some(local),
                        AddressPart::Domain => Some(addr.skip(k + 1)),
                        AddressPart::User => match first_index(local, '+') {
                            Some(j) => Some(local.take(j)),
                            None => Some(local),
                        },
                        _ => match first_index(local, '+') {
                            Some(j) => Some(local.skip(j + 1)),
                            None => None,
                        },
                    }
                },
                None => None,
            },
            None => None,
        },
    }
}

/// The raw bytes from `a` to `b`, when they are a range of the message.
pub open spec fn raw_slice(raw: Seq<u8>, a: u32, b: u32) -> Option<Seq<u8>> {
    if a <= b && b <= raw.len() {
        Some(raw.subrange(a as int, b as int))
    } else {
        None
    }
}

/// What a part index picks from a list: the `index`-th item (counting
/// from 1) for a positive index, the `-index`-th from the end for a
/// negative one; nothing when the list is too short or the index is 0.
pub open spec fn pick<T>(list: Seq<T>, index: int) -> Option<T> {
    if index > 0 {
        if index <= list.len() {
            Some(list[index - 1])
        } else {
            None
        }
    } else if index < 0 {
        if list.len() + index >= 0 {
            Some(list[list.len() + index])
        } else {
            None
        }
    } else {
        None
    }
}

/// A value, or empty text when there is none.
pub open spec fn or_empty(v: Option<VariableView>) -> VariableView {
    match v {
        Some(x) => x,
        None => VariableView::String(seq![]),
    }
}

/// The values a part index takes from a list: all of them for 0, else the
/// one it picks (empty text when it picks none).
pub open spec fn listed(items: Seq<VariableView>, index: int) -> Seq<VariableView> {
    if index == 0 {
        items
    } else {
        seq![or_empty(pick(items, index))]
    }
}

pub open spec fn text_values(v: Seq<Seq<char>>) -> Seq<VariableView> {
    v.map_values(|s: Seq<char>| VariableView::String(s))
}

/// Each address written as text (see `address_value`).
pub open spec fn address_texts(v: Seq<(Option<Seq<char>>, Option<Seq<char>>)>) -> Seq<VariableView> {
    v.map_values(|a: (Option<Seq<char>>, Option<Seq<char>>)| VariableView::String(address_value(a.0, a.1)))
}

/// The part of each address (empty text when it lacks it).
pub open spec fn address_parts(part: AddressPart, v: Seq<(Option<Seq<char>>, Option<Seq<char>>)>) -> Seq<
    VariableView,
> {
    v.map_values(
        |a: (Option<Seq<char>>, Option<Seq<char>>)|
            match address_part_of(part, a) {
                Some(t) => VariableView::String(t),
                None => VariableView::String(seq![]),
            },
    )
}

/// The date of a header as a Unix time: its decoded date, else the date
/// the date parser reads in its raw value.
pub open spec fn header_date(h: HeaderData, raw: Seq<u8>) -> Option<VariableView> {
    match h.value {
        ValueModel::DateTime(d) => Some(VariableView::Integer(date_timestamp_of(d))),
        _ => match raw_slice(raw, h.offset_start, h.offset_end) {
            Some(b) => match date_parse_of(b) {
                Some(d) => Some(VariableView::Integer(date_timestamp_of(d))),
                None => None,
            },
            None => None,
        },
    }
}

/// The message ids of a header: its decoded ids for `Message-ID` and
/// `Resent-Message-ID`, those the id parser reads in the raw value for an
/// unknown header, and empty text otherwise.
pub open spec fn header_ids(h: HeaderData, raw: Seq<u8>) -> Seq<VariableView> {
    if h.name.id == MESSAGE_ID_ID || h.name.id == RESENT_MESSAGE_ID_ID {
        match h.value {
            ValueModel::Text(id) => seq![VariableView::String(id@)],
            ValueModel::TextList(ids) => text_values(strings_view(ids@)),
            _ => seq![VariableView::String(seq![])],
        }
    } else if h.name.id == OTHER_HEADER_ID {
        let b = match raw_slice(raw, h.offset_start, h.offset_end) {
            Some(b) => b,
            None => seq![],
        };
        match id_parse_of(b) {
            IdParseView::One(id) => seq![VariableView::String(id)],
            IdParseView::Many(ids) => text_values(ids),
            IdParseView::Nothing => seq![VariableView::String(seq![])],
        }
    } else {
        seq![VariableView::String(seq![])]
    }
}

/// The values a header variable takes from one header `h` of the message
/// whose raw bytes are `raw`, with the part index `index`:
/// - text: the decoded text (for part index -1, 0 or 1), a text of a list,
///   the content type as `type/subtype`, an address as text, or the raw
///   date text trimmed;
/// - an address part: of the decoded addresses, or of those the address
///   parser reads in the raw value of a text header;
/// - the date as a Unix time; the message ids; the raw value with its white
///   space collapsed; the raw name; 1 for `exists`; a part of the content
///   type; a part of a `Received` header.
/// Where the part index picks nothing or the header lacks the part, the
/// value is empty text.
pub open spec fn header_part_values(h: HeaderData, raw: Seq<u8>, part: HeaderPartView, index: int) -> Seq<
    VariableView,
> {
    match part {
        HeaderPartView::Text => match h.value {
            ValueModel::Text(v) => if -1 <= index <= 1 {
                seq![VariableView::String(v@)]
            } else {
                seq![VariableView::String(seq![])]
            },
            ValueModel::TextList(l) => listed(text_values(strings_view(l@)), index),
            ValueModel::ContentType(ct) => seq![
                VariableView::String(content_type_value(ct.c_type@, opt_chars(ct.c_subtype))),
            ],
            ValueModel::Address(l) => listed(address_texts(addrs_view(l@)), index),
            ValueModel::DateTime(_) => seq![
                or_empty(
                    match raw_slice(raw, h.offset_start, h.offset_end) {
                        Some(b) => if valid_utf8(b) {
                            Some(VariableView::String(trimmed(decode_utf8(b))))
                        } else {
                            None
                        },
                        None => None,
                    },
                ),
            ],
            _ => seq![VariableView::String(seq![])],
        },
        HeaderPartView::Address(p) => match h.value {
            ValueModel::Address(l) => listed(address_parts(p, addrs_view(l@)), index),
            ValueModel::Text(_) => match raw_slice(raw, h.offset_start, h.offset_end) {
                Some(b) => match address_parse_of(b) {
                    Some(l) => listed(address_parts(p, l), index),
                    None => seq![VariableView::String(seq![])],
                },
                None => seq![VariableView::String(seq![])],
            },
            _ => seq![VariableView::String(seq![])],
        },
        HeaderPartView::Date => seq![or_empty(header_date(h, raw))],
        HeaderPartView::Id => header_ids(h, raw),
        HeaderPartView::Raw => seq![
            or_empty(
                match raw_slice(raw, h.offset_start, h.offset_end) {
                    Some(b) => Some(VariableView::String(utf8_lossy(collapse_ws(seq![], false, b)))),
                    None => None,
                },
            ),
        ],
        HeaderPartView::RawName => seq![
            or_empty(
                if h.offset_start >= 1 {
                    match raw_slice(raw, h.offset_field, (h.offset_start - 1) as u32) {
                        Some(b) => Some(
                            VariableView::String(
                                if valid_utf8(b) {
                                    decode_utf8(b)
                                } else {
                                    seq![]
                                },
                            ),
                        ),
                        None => None,
                    }
                } else {
                    None
                },
            ),
        ],
        HeaderPartView::Exists => seq![VariableView::Integer(1)],
        HeaderPartView::ContentType(p) => seq![
            or_empty(
                match h.value {
                    ValueModel::ContentType(ct) => match p {
                        ContentTypePartView::Type => Some(VariableView::String(ct.c_type@)),
                        ContentTypePartView::Subtype => match ct.c_subtype {
                            Some(st) => Some(VariableView::String(st@)),
                            None => None,
                        },
                        ContentTypePartView::Attribute(a) => match attribute_value(pairs_view(ct.attributes@), a) {
                            Some(v) => Some(VariableView::String(v)),
                            None => None,
                        },
                    },
                    _ => None,
                },
            ),
        ],
        HeaderPartView::Received(p) => seq![
            or_empty(
                match h.value {
                    ValueModel::Received(r) => received_value(p, r),
                    _ => None,
                },
            ),
        ],
    }
}

/// Where the last `c` stands in `s` (see `last_index`).
fn last_index_exec(s: &Vec<char>, c: char) -> (r: Option<usize>)
    ensures
        match r {
            Some(k) => last_index(s@, c) == Some(k as int) && k < s@.len(),
            None => last_index(s@, c) is None,
        },
{
    let mut i: usize = s.len();
    assert(s@.take(i as int) =~= s@);
    while i > 0
        invariant
            i <= s@.len(),
            last_index(s@, c) == last_index(s@.take(i as int), c),
        decreases i,
    {
        assert(s@.take(i as int).last() == s@[i - 1]);
        assert(s@.take(i as int).drop_last() =~= s@.take(i - 1));
        if s[i - 1] == c {
            return Some(i - 1);
        }
        i -= 1;
    }
    None
}

/// Where the first `c` stands in `s` (see `first_index`).
fn first_index_exec(s: &Vec<char>, c: char) -> (r: Option<usize>)
    ensures
        match r {
            Some(k) => first_index(s@, c) == Some(k as int) && k < s@.len(),
            None => first_index(s@, c) is None,
        },
{
    let mut i: usize = 0;
    while i < s.len()
        invariant
            i <= s@.len(),
            first_index(s@.take(i as int), c) is None,
        decreases s@.len() - i,
    {
        assert(s@.take(i + 1).drop_last() =~= s@.take(i as int));
        assert(s@.take(i + 1).last() == s@[i as int]);
        if s[i] == c {
            proof {
                lemma_first_index_extends(s@, c, i + 1);
            }
            return Some(i);
        }
        i += 1;
    }
    assert(s@.take(i as int) =~= s@);
    None
}

/// A first `c` found in a start of `s` is the first `c` of `s`.
proof fn lemma_first_index_extends(s: Seq<char>, c: char, n: int)
    requires
        0 <= n <= s.len(),
        first_index(s.take(n), c) is Some,
    ensures
        first_index(s, c) == first_index(s.take(n), c),
    decreases s.len(),
{
    if n < s.len() {
        assert(s.drop_last().take(n) =~= s.take(n));
        lemma_first_index_extends(s.drop_last(), c, n);
    } else {
        assert(s.take(n) =~= s);
    }
}

/// The part of an address (see `address_part_of`).
pub fn address_part_text(part: AddressPart, name: &Option<String>, address: &Option<String>) -> (r: Option<String>)
    ensures
        opt_chars(r) == address_part_of(part, (opt_chars(*name), opt_chars(*address))),
{
    match part {
        AddressPart::Name => match name {
            Some(n) => Some(n.clone()),
            None => None,
        },
        AddressPart::All => match address {
            Some(a) => Some(a.clone()),
            None => None,
        },
        _ => match address {
            Some(a) => {
                let c = str_chars(a.as_str());
                match last_index_exec(&c, '@') {
                    Some(k) => {
                        let local = crate::compiler::lexer::string::substring(c.as_slice(), 0, k);
                        assert(local@ =~= a@.take(k as int));
                        match part {
                            AddressPart::LocalPart => Some(local),
                            AddressPart::Domain => {
                                assert(k < c@.len());
                                let d = crate::compiler::lexer::string::substring(c.as_slice(), k + 1, c.len());
                                assert(d@ =~= a@.skip(k + 1));
                                Some(d)
                            },
                            _ => {
                                let lc = str_chars(local.as_str());
                                match first_index_exec(&lc, '+') {
                                    Some(j) => {
                                        if part == AddressPart::User {
                                            let u = crate::compiler::lexer::string::substring(lc.as_slice(), 0, j);
                                            assert(u@ =~= local@.take(j as int));
                                            Some(u)
                                        } else {
                                            let d = crate::compiler::lexer::string::substring(lc.as_slice(), j + 1, lc.len());
                                            assert(d@ =~= local@.skip(j + 1));
                                            Some(d)
                                        }
                                    },
                                    None => if part == AddressPart::User {
                                        Some(local)
                                    } else {
                                        None
                                    },
                                }
                            },
                        }
                    },
                    None => None,
                }
            },
            None => None,
        },
    }
}

/// Which position a part index picks in a list of `len` items (see
/// `pick`).
fn pick_position(len: usize, index: i32) -> (r: Option<usize>)
    ensures
        match r {
            Some(p) => p < len && (index > 0 ==> p == index - 1) && (index < 0 ==> p == len + index)
                && index != 0,
            None => index == 0 || (index > 0 && index > len) || (index < 0 && len + index < 0),
        },
{
    if index > 0 {
        let k = (index - 1) as usize;
        if k < len {
            Some(k)
        } else {
            None
        }
    } else if index < 0 {
        let back: u64 = (0i64 - index as i64) as u64;
        if back <= len as u64 {
            Some(len - back as usize)
        } else {
            None
        }
    } else {
        None
    }
}

/// The values a part index takes from `items` (see `listed`).
fn listed_exec(items: Vec<Variable>, index: i32) -> (r: Vec<Variable>)
    ensures
        variables_view(r@) == listed(variables_view(items@), index as int),
{
    if index == 0 {
        return items;
    }
    let ghost iv = variables_view(items@);
    let mut items = items;
    match pick_position(items.len(), index) {
        Some(p) => {
            let v = items.swap_remove(p);
            let r = vec![v];
            assert(variables_view(r@) =~= seq![iv[p as int]]);
            r
        },
        None => {
            let r = vec![Variable::String(String::new())];
            assert(variables_view(r@) =~= seq![VariableView::String(seq![])]);
            r
        },
    }
}

/// Each text as a value.
fn text_vars(list: &Vec<String>) -> (r: Vec<Variable>)
    ensures
        variables_view(r@) == text_values(strings_view(list@)),
{
    let mut r: Vec<Variable> = Vec::new();
    let mut i: usize = 0;
    while i < list.len()
        invariant
            i <= list@.len(),
            variables_view(r@) == text_values(strings_view(list@.take(i as int))),
        decreases list@.len() - i,
    {
        let ghost prev = variables_view(r@);
        let t = list[i].clone();
        assert(t@ == list@[i as int]@);
        r.push(Variable::String(t));
        assert(variables_view(r@) =~= prev.push(VariableView::String(list@[i as int]@)));
        assert(list@.take(i + 1) =~= list@.take(i as int).push(list@[i as int]));
        assert(text_values(strings_view(list@.take(i + 1))) =~= text_values(strings_view(list@.take(i as int))).push(
            VariableView::String(list@[i as int]@),
        ));
        i += 1;
    }
    assert(list@.take(i as int) =~= list@);
    r
}

fn opt_str_ref(o: &Option<String>) -> (r: Option<&str>)
    ensures
        crate::runtime::actions::action_convert::opt_str(r) == opt_chars(*o),
{
    match o {
        Some(s) => Some(s.as_str()),
        None => None,
    }
}

/// Each address written as text.
fn address_text_vars(list: &Vec<AddrModel>) -> (r: Vec<Variable>)
    ensures
        variables_view(r@) == address_texts(addrs_view(list@)),
{
    let mut r: Vec<Variable> = Vec::new();
    let mut i: usize = 0;
    while i < list.len()
        invariant
            i <= list@.len(),
            variables_view(r@) == address_texts(addrs_view(list@.take(i as int))),
        decreases list@.len() - i,
    {
        let a = &list[i];
        let ghost prev = variables_view(r@);
        let t = address_text(opt_str_ref(&a.name), opt_str_ref(&a.address));
        r.push(Variable::String(t));
        let ghost av = addr_view(list@[i as int]);
        assert(variables_view(r@) =~= prev.push(VariableView::String(address_value(av.0, av.1))));
        assert(list@.take(i + 1) =~= list@.take(i as int).push(list@[i as int]));
        assert(address_texts(addrs_view(list@.take(i + 1))) =~= address_texts(addrs_view(list@.take(i as int))).push(
            VariableView::String(address_value(av.0, av.1)),
        ));
        i += 1;
    }
    assert(list@.take(i as int) =~= list@);
    r
}

/// The part of each address, empty text where it lacks it.
fn address_part_vars(part: AddressPart, list: &Vec<AddrModel>) -> (r: Vec<Variable>)
    ensures
        variables_view(r@) == address_parts(part, addrs_view(list@)),
{
    let mut r: Vec<Variable> = Vec::new();
    let mut i: usize = 0;
    while i < list.len()
        invariant
            i <= list@.len(),
            variables_view(r@) == address_parts(part, addrs_view(list@.take(i as int))),
        decreases list@.len() - i,
    {
        let a = &list[i];
        let t = match address_part_text(part, &a.name, &a.address) {
            Some(t) => t,
            None => String::new(),
        };
        assert(a.name == list@[i as int].name && a.address == list@[i as int].address);
        let ghost prev = variables_view(r@);
        let ghost tv = t@;
        r.push(Variable::String(t));
        let ghost av = addr_view(list@[i as int]);
        let ghost item = match address_part_of(part, av) {
            Some(x) => VariableView::String(x),
            None => VariableView::String(seq![]),
        };
        assert(tv == item->String_0);
        assert(variables_view(r@) =~= prev.push(item));
        assert(list@.take(i + 1) =~= list@.take(i as int).push(list@[i as int]));
        assert(address_parts(part, addrs_view(list@.take(i + 1))) =~= address_parts(part, addrs_view(list@.take(i as int))).push(item));
        i += 1;
    }
    assert(list@.take(i as int) =~= list@);
    r
}

/// The raw bytes from `a` to `b` (see `raw_slice`).
fn raw_slice_exec(raw: &Vec<u8>, a: u32, b: u32) -> (r: Option<Vec<u8>>)
    ensures
        match r {
            Some(v) => raw_slice(raw@, a, b) == Some(v@),
            None => raw_slice(raw@, a, b) is None,
        },
{
    if a <= b && (b as usize) <= raw.len() {
        Some(sub_bytes(raw.as_slice(), a as usize, b as usize))
    } else {
        None
    }
}

fn one_value(v: Option<Variable>) -> (r: Vec<Variable>)
    ensures
        variables_view(r@) == seq![or_empty(crate::runtime::expression::opt_view(v))],
{
    let x = match v {
        Some(x) => x,
        None => Variable::String(String::new()),
    };
    let r = vec![x];
    assert(variables_view(r@) =~= seq![or_empty(crate::runtime::expression::opt_view(v))]);
    r
}

fn text_value(s: String) -> (r: Option<Variable>)
    ensures
        crate::runtime::expression::opt_view(r) == Some(VariableView::String(s@)),
{
    Some(Variable::String(s))
}

/// The message ids of a header (see `header_ids`).
fn header_id_values(h: &HeaderData, raw: &Vec<u8>) -> (r: Vec<Variable>)
    ensures
        variables_view(r@) == header_ids(*h, raw@),
{
    if h.name.id == MESSAGE_ID_ID || h.name.id == RESENT_MESSAGE_ID_ID {
        match &h.value {
            ValueModel::Text(id) => one_value(text_value(id.clone())),
            ValueModel::TextList(ids) => text_vars(ids),
            _ => one_value(None),
        }
    } else if h.name.id == OTHER_HEADER_ID {
        let b = match raw_slice_exec(raw, h.offset_start, h.offset_end) {
            Some(b) => b,
            None => Vec::new(),
        };
        match parse_id_bytes(b.as_slice()) {
            IdParse::One(id) => one_value(text_value(id)),
            IdParse::Many(ids) => text_vars(&ids),
            IdParse::Nothing => one_value(None),
        }
    } else {
        one_value(None)
    }
}

/// The date of a header as a Unix time (see `header_date`).
fn header_date_value(h: &HeaderData, raw: &Vec<u8>) -> (r: Option<Variable>)
    ensures
        crate::runtime::expression::opt_view(r) == header_date(*h, raw@),
{
    match &h.value {
        ValueModel::DateTime(d) => Some(Variable::Integer(date_timestamp(*d))),
        _ => match raw_slice_exec(raw, h.offset_start, h.offset_end) {
            Some(b) => match parse_date_bytes(b.as_slice()) {
                Some(d) => Some(Variable::Integer(date_timestamp(d))),
                None => None,
            },
            None => None,
        },
    }
}

/// The values a header variable takes from one header (see
/// `header_part_values`).
pub fn eval_header_part(h: &HeaderData, raw: &Vec<u8>, part: &HeaderPart, index_part: i32) -> (r: Vec<Variable>)
    ensures
        variables_view(r@) == header_part_values(*h, raw@, part@, index_part as int),
{
    match part {
        HeaderPart::Text => match &h.value {
            ValueModel::Text(v) => if -1 <= index_part && index_part <= 1 {
                one_value(text_value(v.clone()))
            } else {
                one_value(None)
            },
            ValueModel::TextList(l) => listed_exec(text_vars(l), index_part),
            ValueModel::ContentType(ct) => one_value(
                text_value(content_type_text(ct.c_type.as_str(), opt_str_ref(&ct.c_subtype))),
            ),
            ValueModel::Address(l) => listed_exec(address_text_vars(l), index_part),
            ValueModel::DateTime(_) => {
                let v = match raw_slice_exec(raw, h.offset_start, h.offset_end) {
                    Some(b) => match string_from_utf8(b) {
                        Some(t) => text_value(trim_str(t.as_str())),
                        None => None,
                    },
                    None => None,
                };
                one_value(v)
            },
            _ => one_value(None),
        },
        HeaderPart::Address(p) => match &h.value {
            ValueModel::Address(l) => listed_exec(address_part_vars(*p, l), index_part),
            ValueModel::Text(_) => match raw_slice_exec(raw, h.offset_start, h.offset_end) {
                Some(b) => match parse_address_bytes(b.as_slice()) {
                    Some(l) => listed_exec(address_part_vars(*p, &l), index_part),
                    None => one_value(None),
                },
                None => one_value(None),
            },
            _ => one_value(None),
        },
        HeaderPart::Date => one_value(header_date_value(h, raw)),
        HeaderPart::Id => header_id_values(h, raw),
        HeaderPart::Raw => {
            let v = match raw_slice_exec(raw, h.offset_start, h.offset_end) {
                Some(b) => text_value(sanitize_raw_header(b.as_slice())),
                None => None,
            };
            one_value(v)
        },
        HeaderPart::RawName => {
            let v = if h.offset_start >= 1 {
                match raw_slice_exec(raw, h.offset_field, h.offset_start - 1) {
                    Some(b) => match string_from_utf8(b) {
                        Some(t) => text_value(t),
                        None => {
                            proof {
                                reveal_strlit("");
                            }
                            text_value(String::new())
                        },
                    },
                    None => None,
                }
            } else {
                None
            };
            one_value(v)
        },
        HeaderPart::Exists => one_value(Some(Variable::Integer(1))),
        HeaderPart::ContentType(p) => {
            let v = match &h.value {
                ValueModel::ContentType(ct) => match p {
                    ContentTypePart::Type => text_value(ct.c_type.clone()),
                    ContentTypePart::Subtype => match &ct.c_subtype {
                        Some(st) => text_value(st.clone()),
                        None => None,
                    },
                    ContentTypePart::Attribute(a) => match find_attribute(&ct.attributes, a.as_str()) {
                        Some(v) => text_value(v),
                        None => None,
                    },
                },
                _ => None,
            };
            one_value(v)
        },
        HeaderPart::Received(p) => {
            let v = match &h.value {
                ValueModel::Received(rc) => received_part(*p, rc),
                _ => None,
            };
            one_value(v)
        },
    }
}

/// The headers whose name is one of `names`, in order.
pub open spec fn named_headers(hs: Seq<HeaderData>, names: Seq<(u8, Seq<char>)>) -> Seq<HeaderData>
    decreases hs.len(),
{
    if hs.len() == 0 {
        seq![]
    } else {
        let rest = named_headers(hs.drop_last(), names);
        if holds_header(names, hs.last().name@) {
            rest.push(hs.last())
        } else {
            rest
        }
    }
}

/// The headers a header index takes: all for 0, else the one it picks.
pub open spec fn indexed_headers(hs: Seq<HeaderData>, index: int) -> Seq<HeaderData> {
    if index == 0 {
        hs
    } else {
        match pick(hs, index) {
            Some(h) => seq![h],
            None => seq![],
        }
    }
}

/// The values of a part of each header, one header after the other.
pub open spec fn all_part_values(hs: Seq<HeaderData>, raw: Seq<u8>, part: HeaderPartView, index: int) -> Seq<
    VariableView,
>
    decreases hs.len(),
{
    if hs.len() == 0 {
        seq![]
    } else {
        all_part_values(hs.drop_last(), raw, part, index) + header_part_values(hs.last(), raw, part, index)
    }
}

/// A header written as `name: text`.
pub open spec fn named_text(h: HeaderData, t: Seq<char>) -> VariableView {
    VariableView::String(h.name.name@ + ": "@ + t)
}

/// What a header variable without names takes from one header: its raw
/// lines with white space collapsed, or `name: text` with its decoded text
/// (or the text the unstructured parser reads in its raw value), when
/// there is one; the part read otherwise.
pub open spec fn any_header_values(h: HeaderData, raw: Seq<u8>, part: HeaderPartView, index: int) -> Seq<
    VariableView,
> {
    match part {
        HeaderPartView::Raw => match raw_slice(raw, h.offset_field, h.offset_end) {
            Some(b) => seq![VariableView::String(utf8_lossy(collapse_ws(seq![], false, b)))],
            None => seq![],
        },
        HeaderPartView::Text => match h.value {
            ValueModel::Text(t) => seq![named_text(h, t@)],
            _ => match unstructured_parse_of(
                match raw_slice(raw, h.offset_start, h.offset_end) {
                    Some(b) => b,
                    None => seq![],
                },
            ) {
                Some(t) => seq![named_text(h, t)],
                None => seq![],
            },
        },
        _ => header_part_values(h, raw, part, index),
    }
}

pub open spec fn all_any_values(hs: Seq<HeaderData>, raw: Seq<u8>, part: HeaderPartView, index: int) -> Seq<
    VariableView,
>
    decreases hs.len(),
{
    if hs.len() == 0 {
        seq![]
    } else {
        all_any_values(hs.drop_last(), raw, part, index) + any_header_values(hs.last(), raw, part, index)
    }
}

/// The values a header variable collects from the headers of a part: from
/// the headers it names, picked by the header index; from every header
/// when it names none.
pub open spec fn header_values(hs: Seq<HeaderData>, raw: Seq<u8>, var: crate::compiler::HeaderVariableView) -> Seq<
    VariableView,
> {
    if var.name.len() > 0 {
        all_part_values(indexed_headers(named_headers(hs, var.name), var.index_hdr as int), raw, var.part, var.index_part as int)
    } else {
        all_any_values(hs, raw, var.part, var.index_part as int)
    }
}

/// The value of a header variable: the one value when both indexes pick
/// one, nothing when there is no value, else the list of the values.
pub open spec fn header_variable_value(hs: Seq<HeaderData>, raw: Seq<u8>, var: crate::compiler::HeaderVariableView) -> Option<
    VariableView,
> {
    let vs = header_values(hs, raw, var);
    if vs.len() == 1 && var.index_hdr != 0 && var.index_part != 0 {
        Some(vs[0])
    } else if vs.len() == 0 {
        None
    } else {
        Some(VariableView::Array(vs))
    }
}

/// The values of one header for a variable without names (see
/// `any_header_values`).
fn any_header_vars(h: &HeaderData, raw: &Vec<u8>, part: &HeaderPart, index: i32) -> (r: Vec<Variable>)
    ensures
        variables_view(r@) == any_header_values(*h, raw@, part@, index as int),
{
    match part {
        HeaderPart::Raw => match raw_slice_exec(raw, h.offset_field, h.offset_end) {
            Some(b) => {
                let r = vec![Variable::String(sanitize_raw_header(b.as_slice()))];
                assert(variables_view(r@) =~= any_header_values(*h, raw@, part@, index as int));
                r
            },
            None => {
                let r: Vec<Variable> = Vec::new();
                assert(variables_view(r@) =~= Seq::<VariableView>::empty());
                r
            },
        },
        HeaderPart::Text => {
            let text = match &h.value {
                ValueModel::Text(t) => Some(t.clone()),
                _ => {
                    let b = match raw_slice_exec(raw, h.offset_start, h.offset_end) {
                        Some(b) => b,
                        None => Vec::new(),
                    };
                    parse_unstructured_bytes(b.as_slice())
                },
            };
            match text {
                Some(t) => {
                    let a = crate::runtime::expression::concat(h.name.name.as_str(), ": ");
                    let r = vec![Variable::String(crate::runtime::expression::concat(a.as_str(), t.as_str()))];
                    assert(variables_view(r@) =~= any_header_values(*h, raw@, part@, index as int));
                    r
                },
                None => {
                    let r: Vec<Variable> = Vec::new();
                    assert(variables_view(r@) =~= Seq::<VariableView>::empty());
                    r
                },
            }
        },
        _ => eval_header_part(h, raw, part, index),
    }
}

/// The value of a header variable over the headers of a part (see
/// `header_variable_value`).
pub fn eval_header(headers: &Vec<HeaderData>, raw: &Vec<u8>, var: &crate::compiler::HeaderVariable) -> (r: Option<Variable>)
    ensures
        crate::runtime::expression::opt_view(r) == header_variable_value(headers@, raw@, var@),
{
    let mut values: Vec<Variable> = Vec::new();
    if var.name.len() > 0 {
        let mut chosen: Vec<usize> = Vec::new();
        let ghost nv = crate::runtime::actions::action_editheader::names_view(var.name@);
        let ghost hv = headers@;
        let mut i: usize = 0;
        while i < headers.len()
            invariant
                i <= headers@.len(),
                hv == headers@,
                nv == crate::runtime::actions::action_editheader::names_view(var.name@),
                chosen@.map_values(|p: usize| hv[p as int]) == named_headers(hv.take(i as int), nv),
                forall|k: int| 0 <= k < chosen@.len() ==> #[trigger] chosen@[k] < hv.len(),
            decreases headers@.len() - i,
        {
            assert(hv.take(i + 1).drop_last() =~= hv.take(i as int));
            assert(hv.take(i + 1).last() == hv[i as int]);
            if crate::runtime::actions::action_editheader::holds_name(&var.name, &headers[i].name) {
                let ghost before = chosen@;
                chosen.push(i);
                assert(chosen@.map_values(|p: usize| hv[p as int]) =~= before.map_values(|p: usize| hv[p as int]).push(
                    hv[i as int],
                ));
            }
            i += 1;
        }
        assert(hv.take(i as int) =~= hv);
        let ghost named = named_headers(hv, nv);
        let ghost picked = indexed_headers(named, var.index_hdr as int);
        let positions: Vec<usize> = if var.index_hdr == 0 {
            chosen
        } else {
            match pick_position(chosen.len(), var.index_hdr) {
                Some(p) => {
                    let r = vec![chosen[p]];
                    assert(r@.map_values(|q: usize| hv[q as int]) =~= picked);
                    r
                },
                None => {
                    let r: Vec<usize> = Vec::new();
                    assert(r@.map_values(|q: usize| hv[q as int]) =~= picked);
                    r
                },
            }
        };
        assert(positions@.map_values(|q: usize| hv[q as int]) == picked);
        assert(forall|k: int| 0 <= k < positions@.len() ==> #[trigger] positions@[k] < hv.len());
        let mut j: usize = 0;
        while j < positions.len()
            invariant
                j <= positions@.len(),
                hv == headers@,
                positions@.map_values(|q: usize| hv[q as int]) == picked,
                forall|k: int| 0 <= k < positions@.len() ==> #[trigger] positions@[k] < hv.len(),
                variables_view(values@) == all_part_values(picked.take(j as int), raw@, var.part@, var.index_part as int),
            decreases positions@.len() - j,
        {
            let pj = positions[j];
            assert(pj < hv.len());
            let h = &headers[pj];
            assert(picked[j as int] == hv[pj as int]);
            assert(picked.take(j + 1).drop_last() =~= picked.take(j as int));
            assert(picked.take(j + 1).last() == picked[j as int]);
            let ghost before = variables_view(values@);
            let mut more = eval_header_part(h, raw, &var.part, var.index_part);
            let ghost mv = variables_view(more@);
            values.append(&mut more);
            assert(variables_view(values@) =~= before + mv);
            j += 1;
        }
        assert(picked.take(j as int) =~= picked);
    } else {
        let mut i: usize = 0;
        while i < headers.len()
            invariant
                i <= headers@.len(),
                variables_view(values@) == all_any_values(headers@.take(i as int), raw@, var.part@, var.index_part as int),
            decreases headers@.len() - i,
        {
            assert(headers@.take(i + 1).drop_last() =~= headers@.take(i as int));
            assert(headers@.take(i + 1).last() == headers@[i as int]);
            let ghost before = variables_view(values@);
            let mut more = any_header_vars(&headers[i], raw, &var.part, var.index_part);
            let ghost mv = variables_view(more@);
            values.append(&mut more);
            assert(variables_view(values@) =~= before + mv);
            i += 1;
        }
        assert(headers@.take(i as int) =~= headers@);
    }
    let ghost vs = variables_view(values@);
    if values.len() == 1 && var.index_hdr != 0 && var.index_part != 0 {
        let v = values.pop().unwrap();
        Some(v)
    } else if values.len() == 0 {
        None
    } else {
        proof {
            crate::runtime::variable::lemma_array_view(values);
        }
        Some(Variable::Array(values))
    }
}

} // verus!
