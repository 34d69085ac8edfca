//! Strings with variables and encoded characters (RFC 5229, RFC 5228
//! section 2.4.2.4 and the `encoded-character` extension of RFC 5228):
//! splitting a string into text and variables, resolving variable names,
//! and the names of the parts of headers a variable can read.

use crate::compiler::grammar::{AddressPart, ExprToken, ExprTokenView};
use crate::compiler::{
    ContentTypePart, ContentTypePartView, HeaderPart, HeaderPartView, HeaderVariable,
    HeaderVariableView, MessagePart, ReceivedHostname, ReceivedPart, VariableType,
    VariableTypeView,
};
use crate::compiler::lexer::tokenizer::canonical_i64;
use crate::compiler::{ErrorKind, NumberView, Value, ValueView};
use crate::compiler::ErrorType;
use crate::header::{header_name_parse, is_header_name, parse_header_name, HeaderName};
use crate::text::{all_digit_chars, decimal_value, is_digit_char, lemma_decimal_prefix, lowercase, str_to_lowercase, eq_ignore_case, hex_val, is_digit, is_hex_digit, push_char, str_chars, str_eq, utf8_lossy};
use vstd::utf8::{decode_utf8, encode_utf8, is_scalar, valid_utf8};
use crate::Envelope;
use vstd::prelude::*;

verus! {

/// What `{:?}` of std writes for a string: the string quoted, with
/// escapes.
pub uninterp spec fn debug_quoted(s: Seq<char>) -> Seq<char>;

/// `{:?}` of std on a string: the string quoted, with escapes.
#[verifier::external_body]
fn debug_quote(s: &str) -> (r: String)
    ensures
        r@ == debug_quoted(s@),
{
    format!("{:?}", s)
}

/// The message for a name that is neither a variable nor a function.
fn invalid_name_message(s: &str) -> (r: String)
    ensures
        r@ == "Invalid variable or function name "@ + debug_quoted(s@),
{
    let q = debug_quote(s);
    crate::runtime::expression::concat("Invalid variable or function name ", q.as_str())
}

/// The characters of `s` from `start` to `end`, as a string.
pub fn substring(s: &[char], start: usize, end: usize) -> (r: String)
    requires
        start <= end <= s@.len(),
    ensures
        r@ == s@.subrange(start as int, end as int),
{
    let mut r = String::new();
    let mut i = start;
    while i < end
        invariant
            start <= i <= end <= s@.len(),
            r@ == s@.subrange(start as int, i as int),
        decreases end - i,
    {
        push_char(&mut r, s[i]);
        i += 1;
        assert(r@ =~= s@.subrange(start as int, i as int));
    }
    r
}

/// `i` is the first dot of `s`.
pub open spec fn is_first_dot(s: Seq<char>, i: int) -> bool {
    0 <= i < s.len() && s[i] == '.' && forall|j: int| 0 <= j < i ==> s[j] != '.'
}

/// `str::split_once('.')`: the text before the first dot and the text
/// after it.
pub open spec fn split_dot(s: Seq<char>) -> Option<(Seq<char>, Seq<char>)> {
    if exists|i: int| is_first_dot(s, i) {
        let i = choose|i: int| is_first_dot(s, i);
        Some((s.subrange(0, i), s.subrange(i + 1, s.len() as int)))
    } else {
        None
    }
}

/// Splits `s` at its first dot.
pub fn split_once_dot(s: &str) -> (r: Option<(String, String)>)
    ensures
        match split_dot(s@) {
            Some((a, b)) => r matches Some((x, y)) && x@ == a && y@ == b,
            None => r is None,
        },
{
    let c = str_chars(s);
    let mut i: usize = 0;
    while i < c.len()
        invariant
            c@ == s@,
            i <= c@.len(),
            forall|j: int| 0 <= j < i ==> c@[j] != '.',
        decreases c@.len() - i,
    {
        if c[i] == '.' {
            assert(is_first_dot(s@, i as int));
            proof {
                let k = choose|k: int| is_first_dot(s@, k);
                assert(k == i as int) by {
                    if k < i as int {
                        assert(c@[k] != '.');
                    } else if k > i as int {
                        assert(s@[i as int] != '.');
                    }
                }
            }
            let a = substring(c.as_slice(), 0, i);
            let b = substring(c.as_slice(), i + 1, c.len());
            return Some((a, b));
        }
        i += 1;
    }
    assert forall|k: int| !is_first_dot(s@, k) by {
        if 0 <= k < s@.len() {
            assert(c@[k] != '.');
        }
    }
    None
}

/// The state of the compiler that resolving a variable name reads: the
/// global and local variables in scope, the match variables, and the
/// functions that were registered with the compiler.
pub struct CompilerState {
    /// Names declared global.
    pub vars_global: Vec<String>,
    /// Local variables in scope: name and number, innermost last.
    pub vars_local: Vec<(String, usize)>,
    /// Whether the block being compiled follows a match test, whose match
    /// variables `${0}`, `${1}`, ... can be read.
    pub match_test: bool,
    /// One more than the highest match variable read so far.
    pub vars_match_max: usize,
    /// Functions registered with the compiler: name, number and number of
    /// arguments.
    pub functions: Vec<(String, u32, u32)>,
}

/// The state of the compiler as seen in contracts.
pub struct CompilerStateView {
    pub vars_global: Seq<Seq<char>>,
    pub vars_local: Seq<(Seq<char>, usize)>,
    pub match_test: bool,
    pub vars_match_max: usize,
    pub functions: Seq<(Seq<char>, u32, u32)>,
}

impl View for CompilerState {
    type V = CompilerStateView;

    open spec fn view(&self) -> CompilerStateView {
        CompilerStateView {
            vars_global: self.vars_global@.map_values(|s: String| s@),
            vars_local: self.vars_local@.map_values(|p: (String, usize)| (p.0@, p.1)),
            match_test: self.match_test,
            vars_match_max: self.vars_match_max,
            functions: self.functions@.map_values(|f: (String, u32, u32)| (f.0@, f.1, f.2)),
        }
    }
}

/// `name` is declared global.
pub open spec fn is_var_global(cs: CompilerStateView, name: Seq<char>) -> bool {
    exists|i: int| 0 <= i < cs.vars_global.len() && cs.vars_global[i] == name
}

/// The number of the innermost local variable called `name`.
pub open spec fn local_var(cs: CompilerStateView, name: Seq<char>) -> Option<usize>
    decreases cs.vars_local.len(),
{
    if cs.vars_local.len() == 0 {
        None
    } else if cs.vars_local.last().0 == name {
        Some(cs.vars_local.last().1)
    } else {
        local_var(CompilerStateView { vars_local: cs.vars_local.drop_last(), ..cs }, name)
    }
}

/// The registered function called `name`: its number and number of
/// arguments.
pub open spec fn function_named(cs: CompilerStateView, name: Seq<char>) -> Option<(u32, u32)> {
    if exists|i: int| 0 <= i < cs.functions.len() && cs.functions[i].0 == name {
        let i = choose|i: int|
            0 <= i < cs.functions.len() && cs.functions[i].0 == name && forall|j: int|
                0 <= j < i ==> cs.functions[j].0 != name;
        Some((cs.functions[i].1, cs.functions[i].2))
    } else {
        None
    }
}

/// The envelope part a variable name `envelope.<name>` reads.
pub open spec fn envelope_named(v: Seq<char>) -> Option<Envelope> {
    if v == "from"@ {
        Some(Envelope::From)
    } else if v == "to"@ {
        Some(Envelope::To)
    } else if v == "by_time_absolute"@ {
        Some(Envelope::ByTimeAbsolute)
    } else if v == "by_time_relative"@ {
        Some(Envelope::ByTimeRelative)
    } else if v == "by_mode"@ {
        Some(Envelope::ByMode)
    } else if v == "by_trace"@ {
        Some(Envelope::ByTrace)
    } else if v == "notify"@ {
        Some(Envelope::Notify)
    } else if v == "orcpt"@ {
        Some(Envelope::Orcpt)
    } else if v == "ret"@ {
        Some(Envelope::Ret)
    } else if v == "envid"@ {
        Some(Envelope::Envid)
    } else {
        None
    }
}

/// The message part a variable name `body.<name>` reads.
pub open spec fn body_part_named(v: Seq<char>) -> Option<MessagePart> {
    if v == "text"@ {
        Some(MessagePart::TextBody(false))
    } else if v == "html"@ {
        Some(MessagePart::HtmlBody(false))
    } else if v == "to_text"@ {
        Some(MessagePart::TextBody(true))
    } else if v == "to_html"@ {
        Some(MessagePart::HtmlBody(true))
    } else {
        None
    }
}

/// The message part a variable name `part.<name>` reads.
pub open spec fn part_named(v: Seq<char>) -> Option<MessagePart> {
    if v == "text"@ {
        Some(MessagePart::Contents)
    } else if v == "raw"@ {
        Some(MessagePart::Raw)
    } else {
        None
    }
}

/// The part of a `Received` header a name stands for.
pub open spec fn received_part_named(v: Seq<char>) -> Option<ReceivedPart> {
    if v == "from"@ {
        Some(ReceivedPart::From(ReceivedHostname::Any))
    } else if v == "from.name"@ {
        Some(ReceivedPart::From(ReceivedHostname::Name))
    } else if v == "from.ip"@ {
        Some(ReceivedPart::From(ReceivedHostname::Ip))
    } else if v == "ip"@ {
        Some(ReceivedPart::FromIp)
    } else if v == "iprev"@ {
        Some(ReceivedPart::FromIpRev)
    } else if v == "by"@ {
        Some(ReceivedPart::By(ReceivedHostname::Any))
    } else if v == "by.name"@ {
        Some(ReceivedPart::By(ReceivedHostname::Name))
    } else if v == "by.ip"@ {
        Some(ReceivedPart::By(ReceivedHostname::Ip))
    } else if v == "for"@ {
        Some(ReceivedPart::For)
    } else if v == "with"@ {
        Some(ReceivedPart::With)
    } else if v == "tls"@ {
        Some(ReceivedPart::TlsVersion)
    } else if v == "cipher"@ {
        Some(ReceivedPart::TlsCipher)
    } else if v == "id"@ {
        Some(ReceivedPart::Id)
    } else if v == "ident"@ {
        Some(ReceivedPart::Ident)
    } else if v == "date"@ {
        Some(ReceivedPart::Date)
    } else if v == "date.raw"@ {
        Some(ReceivedPart::DateRaw)
    } else {
        None
    }
}

/// The part of an address a name stands for.
pub open spec fn address_part_named(v: Seq<char>) -> Option<AddressPart> {
    if v == "name"@ {
        Some(AddressPart::Name)
    } else if v == "addr"@ || v == "all"@ {
        Some(AddressPart::All)
    } else if v == "addr.domain"@ {
        Some(AddressPart::Domain)
    } else if v == "addr.local"@ {
        Some(AddressPart::LocalPart)
    } else if v == "addr.user"@ {
        Some(AddressPart::User)
    } else if v == "addr.detail"@ {
        Some(AddressPart::Detail)
    } else {
        None
    }
}

/// The part of a header a name (`addr.domain`, `rcvd.from`, `attr.x`, ...)
/// stands for.
pub open spec fn header_part_named(s: Seq<char>) -> Option<HeaderPartView> {
    let (value, sub) = match split_dot(s) {
        Some((a, b)) => (a, b),
        None => (s, Seq::empty()),
    };
    if value.len() == 0 || value == "text"@ {
        Some(HeaderPartView::Text)
    } else if value == "name"@ {
        Some(HeaderPartView::Address(AddressPart::Name))
    } else if value == "addr"@ {
        if sub.len() > 0 {
            match address_part_named(sub) {
                Some(a) => Some(HeaderPartView::Address(a)),
                None => None,
            }
        } else {
            Some(HeaderPartView::Address(AddressPart::All))
        }
    } else if value == "type"@ {
        Some(HeaderPartView::ContentType(ContentTypePartView::Type))
    } else if value == "subtype"@ {
        Some(HeaderPartView::ContentType(ContentTypePartView::Subtype))
    } else if value == "attr"@ && sub.len() > 0 {
        Some(HeaderPartView::ContentType(ContentTypePartView::Attribute(sub)))
    } else if value == "rcvd"@ {
        if sub.len() > 0 {
            match received_part_named(sub) {
                Some(r) => Some(HeaderPartView::Received(r)),
                None => None,
            }
        } else {
            Some(HeaderPartView::Text)
        }
    } else if value == "id"@ {
        Some(HeaderPartView::Id)
    } else if value == "raw"@ {
        Some(HeaderPartView::Raw)
    } else if value == "raw_name"@ {
        Some(HeaderPartView::RawName)
    } else if value == "date"@ {
        Some(HeaderPartView::Date)
    } else if value == "exists"@ {
        Some(HeaderPartView::Exists)
    } else {
        None
    }
}

impl ReceivedPart {
    /// The part of a `Received` header named `value`.
    pub fn try_from(value: &str) -> (r: Result<ReceivedPart, ()>)
        ensures
            match received_part_named(value@) {
                Some(p) => r == Ok::<ReceivedPart, ()>(p),
                None => r is Err,
            },
    {
        if str_eq(value, "from") {
            Ok(ReceivedPart::From(ReceivedHostname::Any))
        } else if str_eq(value, "from.name") {
            Ok(ReceivedPart::From(ReceivedHostname::Name))
        } else if str_eq(value, "from.ip") {
            Ok(ReceivedPart::From(ReceivedHostname::Ip))
        } else if str_eq(value, "ip") {
            Ok(ReceivedPart::FromIp)
        } else if str_eq(value, "iprev") {
            Ok(ReceivedPart::FromIpRev)
        } else if str_eq(value, "by") {
            Ok(ReceivedPart::By(ReceivedHostname::Any))
        } else if str_eq(value, "by.name") {
            Ok(ReceivedPart::By(ReceivedHostname::Name))
        } else if str_eq(value, "by.ip") {
            Ok(ReceivedPart::By(ReceivedHostname::Ip))
        } else if str_eq(value, "for") {
            Ok(ReceivedPart::For)
        } else if str_eq(value, "with") {
            Ok(ReceivedPart::With)
        } else if str_eq(value, "tls") {
            Ok(ReceivedPart::TlsVersion)
        } else if str_eq(value, "cipher") {
            Ok(ReceivedPart::TlsCipher)
        } else if str_eq(value, "id") {
            Ok(ReceivedPart::Id)
        } else if str_eq(value, "ident") {
            Ok(ReceivedPart::Ident)
        } else if str_eq(value, "date") {
            Ok(ReceivedPart::Date)
        } else if str_eq(value, "date.raw") {
            Ok(ReceivedPart::DateRaw)
        } else {
            Err(())
        }
    }
}

impl AddressPart {
    /// The part of an address named `value`.
    pub fn try_from(value: &str) -> (r: Result<AddressPart, ()>)
        ensures
            match address_part_named(value@) {
                Some(p) => r == Ok::<AddressPart, ()>(p),
                None => r is Err,
            },
    {
        if str_eq(value, "name") {
            Ok(AddressPart::Name)
        } else if str_eq(value, "addr") || str_eq(value, "all") {
            Ok(AddressPart::All)
        } else if str_eq(value, "addr.domain") {
            Ok(AddressPart::Domain)
        } else if str_eq(value, "addr.local") {
            Ok(AddressPart::LocalPart)
        } else if str_eq(value, "addr.user") {
            Ok(AddressPart::User)
        } else if str_eq(value, "addr.detail") {
            Ok(AddressPart::Detail)
        } else {
            Err(())
        }
    }
}

impl HeaderPart {
    /// The part of a header named `value`.
    pub fn try_from(value: &str) -> (r: Result<HeaderPart, ()>)
        ensures
            match header_part_named(value@) {
                Some(p) => r matches Ok(h) && h@ == p,
                None => r is Err,
            },
    {
        let (v, sub) = match split_once_dot(value) {
            Some((a, b)) => (a, b),
            None => (value.to_string(), String::new()),
        };
        let v = v.as_str();
        let sub = sub.as_str();
        if v.unicode_len() == 0 || str_eq(v, "text") {
            Ok(HeaderPart::Text)
        } else if str_eq(v, "name") {
            Ok(HeaderPart::Address(AddressPart::Name))
        } else if str_eq(v, "addr") {
            if sub.unicode_len() > 0 {
                match AddressPart::try_from(sub) {
                    Ok(a) => Ok(HeaderPart::Address(a)),
                    Err(e) => Err(e),
                }
            } else {
                Ok(HeaderPart::Address(AddressPart::All))
            }
        } else if str_eq(v, "type") {
            Ok(HeaderPart::ContentType(ContentTypePart::Type))
        } else if str_eq(v, "subtype") {
            Ok(HeaderPart::ContentType(ContentTypePart::Subtype))
        } else if str_eq(v, "attr") && sub.unicode_len() > 0 {
            Ok(HeaderPart::ContentType(ContentTypePart::Attribute(sub.to_string())))
        } else if str_eq(v, "rcvd") {
            if sub.unicode_len() > 0 {
                match ReceivedPart::try_from(sub) {
                    Ok(r) => Ok(HeaderPart::Received(r)),
                    Err(e) => Err(e),
                }
            } else {
                Ok(HeaderPart::Text)
            }
        } else if str_eq(v, "id") {
            Ok(HeaderPart::Id)
        } else if str_eq(v, "raw") {
            Ok(HeaderPart::Raw)
        } else if str_eq(v, "raw_name") {
            Ok(HeaderPart::RawName)
        } else if str_eq(v, "date") {
            Ok(HeaderPart::Date)
        } else if str_eq(v, "exists") {
            Ok(HeaderPart::Exists)
        } else {
            Err(())
        }
    }
}

/// The value of the digits `s[start..]`, if it is at most `max` (and
/// they are all digits).
fn decimal_at_most(s: &[char], start: usize, max: u64) -> (r: Option<u64>)
    requires
        start <= s@.len(),
        max < 0x1000_0000_0000_0000,
    ensures
        ({
            let d = s@.subrange(start as int, s@.len() as int);
            r == (if all_digit_chars(d) && decimal_value(d) <= max {
                Some(decimal_value(d) as u64)
            } else {
                None
            })
        }),
{
    let ghost d = s@.subrange(start as int, s@.len() as int);
    let mut acc: u64 = 0;
    let mut i = start;
    while i < s.len()
        invariant
            start <= i <= s@.len(),
            d == s@.subrange(start as int, s@.len() as int),
            all_digit_chars(d.subrange(0, i - start)),
            acc == decimal_value(d.subrange(0, i - start)),
            acc <= max,
            max < 0x1000_0000_0000_0000,
        decreases s@.len() - i,
    {
        let ch = s[i];
        if ch < '0' || ch > '9' {
            assert(!is_digit_char(d[i - start]));
            return None;
        }
        assert(d.subrange(0, i - start + 1).drop_last() =~= d.subrange(0, i - start));
        let digit: u64 = (ch as u32 - 48) as u64;
        if acc * 10 + digit > max {
            proof {
                if all_digit_chars(d) {
                    lemma_decimal_prefix(d, i - start + 1);
                }
            }
            return None;
        }
        acc = acc * 10 + digit;
        i += 1;
        assert(all_digit_chars(d.subrange(0, i - start)));
    }
    assert(d.subrange(0, s@.len() - start) =~= d);
    Some(acc)
}

/// `i32`'s parse of `s`: an optional sign, then one or more digits whose
/// value fits.
pub open spec fn parse_i32(s: Seq<char>) -> Option<i32> {
    let neg = s.len() > 0 && s[0] == '-';
    let d = if s.len() > 0 && (s[0] == '-' || s[0] == '+') {
        s.drop_first()
    } else {
        s
    };
    if d.len() > 0 && all_digit_chars(d) {
        let v: int = if neg {
            -(decimal_value(d) as int)
        } else {
            decimal_value(d) as int
        };
        if i32::MIN <= v <= i32::MAX {
            Some(v as i32)
        } else {
            None
        }
    } else {
        None
    }
}

fn parse_i32_exec(s: &str) -> (r: Option<i32>)
    ensures
        r == parse_i32(s@),
{
    let c = str_chars(s);
    let signed = c.len() > 0 && (c[0] == '-' || c[0] == '+');
    let neg = c.len() > 0 && c[0] == '-';
    let start: usize = if signed {
        1
    } else {
        0
    };
    let ghost d = if signed {
        s@.drop_first()
    } else {
        s@
    };
    assert(d =~= c@.subrange(start as int, c@.len() as int));
    if start >= c.len() {
        return None;
    }
    match decimal_at_most(c.as_slice(), start, 2147483648u64) {
        Some(v) => {
            if neg {
                if v == 2147483648u64 {
                    Some(i32::MIN)
                } else {
                    Some(-(v as i32))
                }
            } else if v <= 2147483647u64 {
                Some(v as i32)
            } else {
                None
            }
        },
        None => {
            proof {
                if all_digit_chars(d) {
                    assert(decimal_value(d) > 2147483648u64);
                }
            }
            None
        },
    }
}

/// Where the parser of a header variable is: in the header name, in its
/// index, in the part name or in the part's index.
#[derive(Clone, Copy, PartialEq, Eq, Structural)]
pub enum HeaderVarState {
    Name,
    Index,
    Part,
    PartIndex,
}

/// What the parser of a header variable has read so far.
pub struct HeaderVarModel {
    pub names: Seq<(u8, Seq<char>)>,
    pub has_name: bool,
    pub has_wildcard: bool,
    pub hdr_name: Seq<char>,
    pub hdr_index: Seq<char>,
    pub part: Seq<char>,
    pub part_index: Seq<char>,
    pub state: HeaderVarState,
}

pub open spec fn is_blank(c: char) -> bool {
    c == ' ' || c == '\t' || c == '\r' || c == '\n'
}

/// One character of a header variable `header.<name>[<index>].<part>[<index>]`;
/// nothing on a syntax error.
pub open spec fn header_var_step(m: HeaderVarModel, c: char) -> Option<HeaderVarModel> {
    match m.state {
        HeaderVarState::Name => if c == '[' {
            if m.hdr_index.len() == 0 {
                Some(HeaderVarModel { state: HeaderVarState::Index, has_name: true, ..m })
            } else if m.part.len() == 0 {
                Some(HeaderVarModel { state: HeaderVarState::PartIndex, has_name: true, ..m })
            } else {
                None
            }
        } else if c == '.' {
            Some(HeaderVarModel { state: HeaderVarState::Part, has_name: true, ..m })
        } else if is_blank(c) {
            Some(m)
        } else if c == '*' && !m.has_wildcard && m.hdr_name.len() == 0 && m.names.len() == 0 {
            Some(HeaderVarModel { has_wildcard: true, ..m })
        } else if c == ':' && m.hdr_name.len() > 0 && !m.has_wildcard {
            if is_header_name(m.hdr_name) {
                Some(
                    HeaderVarModel {
                        names: m.names.push(header_name_parse(m.hdr_name)),
                        hdr_name: Seq::empty(),
                        ..m
                    },
                )
            } else {
                None
            }
        } else if !m.has_name && !m.has_wildcard {
            Some(HeaderVarModel { hdr_name: m.hdr_name.push(c), ..m })
        } else {
            None
        },
        HeaderVarState::Index => if c == ']' {
            Some(HeaderVarModel { state: HeaderVarState::Name, ..m })
        } else if is_blank(c) {
            Some(m)
        } else {
            Some(HeaderVarModel { hdr_index: m.hdr_index.push(c), ..m })
        },
        HeaderVarState::Part => if c == '[' {
            Some(HeaderVarModel { state: HeaderVarState::PartIndex, ..m })
        } else if is_blank(c) {
            Some(m)
        } else {
            Some(HeaderVarModel { part: m.part.push(c), ..m })
        },
        HeaderVarState::PartIndex => if c == ']' {
            Some(HeaderVarModel { state: HeaderVarState::Name, ..m })
        } else if is_blank(c) {
            Some(m)
        } else {
            Some(HeaderVarModel { part_index: m.part_index.push(c), ..m })
        },
    }
}

/// The parser of a header variable after reading `s`.
pub open spec fn header_var_run(m: HeaderVarModel, s: Seq<char>) -> Option<HeaderVarModel>
    decreases s.len(),
{
    if s.len() == 0 {
        Some(m)
    } else {
        match header_var_step(m, s[0]) {
            Some(m2) => header_var_run(m2, s.drop_first()),
            None => None,
        }
    }
}

/// An index of a header variable: all of them (`*`), the last one (none
/// given, without a wildcard), or the one given (0 counts as 1).
pub open spec fn header_index(s: Seq<char>, wildcard: bool) -> Option<i32> {
    if s.len() == 0 {
        Some(if !wildcard { -1i32 } else { 0i32 })
    } else if s == seq!['*'] {
        Some(0i32)
    } else {
        match parse_i32(s) {
            Some(v) => Some(if v == 0 { 1i32 } else { v }),
            None => None,
        }
    }
}

/// The parser of a header variable before the first character.
pub open spec fn header_var_start() -> HeaderVarModel {
    HeaderVarModel {
        names: Seq::empty(),
        has_name: false,
        has_wildcard: false,
        hdr_name: Seq::empty(),
        hdr_index: Seq::empty(),
        part: Seq::empty(),
        part_index: Seq::empty(),
        state: HeaderVarState::Name,
    }
}

/// The header variable `header.<s>` reads; nothing if `s` is not one.
pub open spec fn header_variable(s: Seq<char>) -> Option<HeaderVariableView> {
    match header_var_run(header_var_start(), s) {
        None => None,
        Some(m) => {
            if m.hdr_name.len() > 0 && !is_header_name(m.hdr_name) {
                None
            } else {
                let names = if m.hdr_name.len() > 0 {
                    m.names.push(header_name_parse(m.hdr_name))
                } else {
                    m.names
                };
                if names.len() > 0 || m.has_wildcard {
                    match (
                        header_part_named(m.part),
                        header_index(m.hdr_index, m.has_wildcard),
                        header_index(m.part_index, m.has_wildcard),
                    ) {
                        (Some(part), Some(index_hdr), Some(index_part)) => Some(
                            HeaderVariableView { name: names, part, index_hdr, index_part },
                        ),
                        _ => None,
                    }
                } else {
                    None
                }
            }
        },
    }
}

/// A variable name resolved: the variable, nothing (a plain name that is
/// not declared), or the error.
pub open spec fn var_result_view(r: Result<Option<VariableType>, ErrorType>) -> Result<
    Option<VariableTypeView>,
    ErrorKind,
> {
    match r {
        Ok(Some(v)) => Ok(Some(v@)),
        Ok(None) => Ok(None),
        Err(e) => Err(e@),
    }
}

/// What a plain variable name stands for.
pub open spec fn plain_variable(cs: CompilerStateView, name: Seq<char>) -> Option<VariableTypeView> {
    if is_var_global(cs, name) {
        Some(VariableTypeView::Global(name))
    } else {
        match local_var(cs, name) {
            Some(id) => Some(VariableTypeView::Local(id)),
            None => None,
        }
    }
}

/// What a variable name stands for (RFC 5229, and the namespaces
/// `global.`, `t.`, `env.`, `envelope.`, `header.`, `body.` and `part.`).
pub open spec fn parse_variable_spec(cs: CompilerStateView, name: Seq<char>, maybe_namespace: bool) -> Result<
    Option<VariableTypeView>,
    ErrorKind,
> {
    if !maybe_namespace {
        Ok(plain_variable(cs, name))
    } else {
        match split_dot(lowercase(name)) {
            None => Ok(plain_variable(cs, name)),
            Some((ns, v)) => {
                if (ns == "global"@ || ns == "t"@) && v.len() > 0 {
                    Ok(Some(VariableTypeView::Global(v)))
                } else if ns == "env"@ && v.len() > 0 {
                    Ok(Some(VariableTypeView::Environment(v)))
                } else if ns == "envelope"@ && v.len() > 0 {
                    match envelope_named(v) {
                        Some(e) => Ok(Some(VariableTypeView::Envelope(e))),
                        None => Err(ErrorKind::InvalidEnvelope(v)),
                    }
                } else if ns == "header"@ && v.len() > 0 {
                    match header_variable(v) {
                        Some(h) => Ok(Some(VariableTypeView::Header(h))),
                        None => Err(ErrorKind::InvalidExpression(v)),
                    }
                } else if ns == "body"@ && v.len() > 0 {
                    match body_part_named(v) {
                        Some(p) => Ok(Some(VariableTypeView::Part(p))),
                        None => Err(ErrorKind::InvalidNamespace(v)),
                    }
                } else if ns == "part"@ && v.len() > 0 {
                    match part_named(v) {
                        Some(p) => Ok(Some(VariableTypeView::Part(p))),
                        None => Err(ErrorKind::InvalidNamespace(v)),
                    }
                } else {
                    Err(ErrorKind::InvalidNamespace(name))
                }
            },
        }
    }
}

impl CompilerState {
    /// Whether `name` is declared global.
    pub fn is_var_global(&self, name: &str) -> (r: bool)
        ensures
            r == is_var_global(self@, name@),
    {
        let mut i: usize = 0;
        while i < self.vars_global.len()
            invariant
                i <= self.vars_global@.len(),
                forall|j: int| 0 <= j < i ==> self@.vars_global[j] != name@,
            decreases self.vars_global@.len() - i,
        {
            if str_eq(self.vars_global[i].as_str(), name) {
                assert(self@.vars_global[i as int] == name@);
                return true;
            }
            i += 1;
        }
        false
    }

    /// The number of the innermost local variable called `name`.
    pub fn get_local_var(&self, name: &str) -> (r: Option<usize>)
        ensures
            r == local_var(self@, name@),
    {
        let mut i = self.vars_local.len();
        let ghost full = self@;
        assert(full.vars_local.subrange(0, i as int) =~= full.vars_local);
        while i > 0
            invariant
                i <= self.vars_local@.len(),
                full == self@,
                local_var(full, name@) == local_var(
                    CompilerStateView { vars_local: full.vars_local.subrange(0, i as int), ..full },
                    name@,
                ),
            decreases i,
        {
            let ghost cur = CompilerStateView { vars_local: full.vars_local.subrange(0, i as int), ..full };
            assert(cur.vars_local.drop_last() =~= full.vars_local.subrange(0, i - 1));
            if str_eq(self.vars_local[i - 1].0.as_str(), name) {
                return Some(self.vars_local[i - 1].1);
            }
            i -= 1;
        }
        None
    }

    /// The variable a header variable name (after `header.`) reads.
    fn parse_header_variable(&self, var_name: &str) -> (r: Result<VariableType, ErrorType>)
        ensures
            match header_variable(var_name@) {
                Some(h) => r matches Ok(v) && v@ == VariableTypeView::Header(h),
                None => r matches Err(e) && e@ == ErrorKind::InvalidExpression(var_name@),
            },
    {
        let c = str_chars(var_name);
        let mut names: Vec<HeaderName> = Vec::new();
        let mut has_name = false;
        let mut has_wildcard = false;
        let mut hdr_name = String::new();
        let mut hdr_index = String::new();
        let mut part = String::new();
        let mut part_index = String::new();
        let mut state = HeaderVarState::Name;
        let ghost start = header_var_start();
        assert(names@.map_values(|h: HeaderName| h@) =~= Seq::<(u8, Seq<char>)>::empty());
        assert(var_name@.subrange(0, var_name@.len() as int) =~= var_name@);
        let mut i: usize = 0;
        while i < c.len()
            invariant
                c@ == var_name@,
                i <= c@.len(),
                start == header_var_start(),
                header_var_run(start, var_name@) == header_var_run(
                    HeaderVarModel {
                        names: names@.map_values(|h: HeaderName| h@),
                        has_name,
                        has_wildcard,
                        hdr_name: hdr_name@,
                        hdr_index: hdr_index@,
                        part: part@,
                        part_index: part_index@,
                        state,
                    },
                    var_name@.subrange(i as int, var_name@.len() as int),
                ),
            decreases c@.len() - i,
        {
            let ghost m = HeaderVarModel {
                names: names@.map_values(|h: HeaderName| h@),
                has_name,
                has_wildcard,
                hdr_name: hdr_name@,
                hdr_index: hdr_index@,
                part: part@,
                part_index: part_index@,
                state,
            };
            let ch = c[i];
            let ghost rest = var_name@.subrange(i as int, var_name@.len() as int);
            assert(rest.drop_first() =~= var_name@.subrange(i + 1, var_name@.len() as int));
            assert(rest[0] == ch);
            let blank = ch == ' ' || ch == '\t' || ch == '\r' || ch == '\n';
            match state {
                HeaderVarState::Name => {
                    if ch == '[' {
                        if hdr_index.unicode_len() == 0 {
                            state = HeaderVarState::Index;
                        } else if part.unicode_len() == 0 {
                            state = HeaderVarState::PartIndex;
                        } else {
                            assert(header_var_step(m, ch) is None);
                            assert(header_var_run(m, rest) is None);
                            let e = var_name.to_string();
                            assert(e@ == var_name@);
                            return Err(ErrorType::InvalidExpression(e));
                        }
                        has_name = true;
                    } else if ch == '.' {
                        state = HeaderVarState::Part;
                        has_name = true;
                    } else if blank {
                    } else if ch == '*' && !has_wildcard && hdr_name.unicode_len() == 0 && names.len() == 0 {
                        has_wildcard = true;
                    } else if ch == ':' && hdr_name.unicode_len() > 0 && !has_wildcard {
                        match parse_header_name(hdr_name.as_str()) {
                            Some(h) => {
                                let ghost before = names@;
                                names.push(h);
                                assert(names@.map_values(|h: HeaderName| h@) =~= before.map_values(
                                    |h: HeaderName| h@,
                                ).push(h@));
                                hdr_name = String::new();
                            },
                            None => {
                                return Err(ErrorType::InvalidExpression(var_name.to_string()));
                            },
                        }
                    } else if !has_name && !has_wildcard {
                        push_char(&mut hdr_name, ch);
                    } else {
                        return Err(ErrorType::InvalidExpression(var_name.to_string()));
                    }
                },
                HeaderVarState::Index => {
                    if ch == ']' {
                        state = HeaderVarState::Name;
                    } else if !blank {
                        push_char(&mut hdr_index, ch);
                    }
                },
                HeaderVarState::Part => {
                    if ch == '[' {
                        state = HeaderVarState::PartIndex;
                    } else if !blank {
                        push_char(&mut part, ch);
                    }
                },
                HeaderVarState::PartIndex => {
                    if ch == ']' {
                        state = HeaderVarState::Name;
                    } else if !blank {
                        push_char(&mut part_index, ch);
                    }
                },
            }
            i += 1;
        }
        assert(var_name@.subrange(c@.len() as int, var_name@.len() as int) =~= Seq::<char>::empty());
        if hdr_name.unicode_len() > 0 {
            match parse_header_name(hdr_name.as_str()) {
                Some(h) => {
                    let ghost before = names@;
                    names.push(h);
                    assert(names@.map_values(|h: HeaderName| h@) =~= before.map_values(|h: HeaderName| h@).push(
                        h@,
                    ));
                },
                None => {
                    return Err(ErrorType::InvalidExpression(var_name.to_string()));
                },
            }
        }
        if names.len() > 0 || has_wildcard {
            let part = match HeaderPart::try_from(part.as_str()) {
                Ok(p) => p,
                Err(_) => {
                    return Err(ErrorType::InvalidExpression(var_name.to_string()));
                },
            };
            let index_hdr = match header_index_exec(hdr_index.as_str(), has_wildcard) {
                Some(v) => v,
                None => {
                    return Err(ErrorType::InvalidExpression(var_name.to_string()));
                },
            };
            let index_part = match header_index_exec(part_index.as_str(), has_wildcard) {
                Some(v) => v,
                None => {
                    return Err(ErrorType::InvalidExpression(var_name.to_string()));
                },
            };
            Ok(VariableType::Header(HeaderVariable { name: names, part, index_hdr, index_part }))
        } else {
            Err(ErrorType::InvalidExpression(var_name.to_string()))
        }
    }
}

fn header_index_exec(s: &str, wildcard: bool) -> (r: Option<i32>)
    ensures
        r == header_index(s@, wildcard),
{
    proof {
        reveal_strlit("*");
    }
    if s.unicode_len() == 0 {
        if !wildcard {
            Some(-1i32)
        } else {
            Some(0i32)
        }
    } else if str_eq(s, "*") {
        assert(s@ =~= seq!['*']);
        Some(0i32)
    } else {
        assert("*"@ =~= seq!['*']);
        assert(s@ != seq!['*']);
        match parse_i32_exec(s) {
            Some(v) => if v == 0 {
                Some(1i32)
            } else {
                Some(v)
            },
            None => None,
        }
    }
}

/// `usize`'s parse of a string of digits: one or more digits whose value
/// fits.
pub open spec fn parse_usize_chars(s: Seq<char>) -> Option<usize> {
    if s.len() > 0 && all_digit_chars(s) && decimal_value(s) <= usize::MAX {
        Some(decimal_value(s) as usize)
    } else {
        None
    }
}

fn parse_usize_chars_exec(s: &[char]) -> (r: Option<usize>)
    ensures
        r == parse_usize_chars(s@),
{
    if s.len() == 0 {
        return None;
    }
    let mut acc: usize = 0;
    let mut i: usize = 0;
    while i < s.len()
        invariant
            i <= s@.len(),
            all_digit_chars(s@.subrange(0, i as int)),
            acc == decimal_value(s@.subrange(0, i as int)),
        decreases s@.len() - i,
    {
        let ch = s[i];
        if ch < '0' || ch > '9' {
            assert(!is_digit_char(s@[i as int]));
            return None;
        }
        assert(s@.subrange(0, i + 1).drop_last() =~= s@.subrange(0, i as int));
        let digit: usize = (ch as u32 - 48) as usize;
        let next = match acc.checked_mul(10) {
            Some(x) => x.checked_add(digit),
            None => None,
        };
        match next {
            Some(y) => {
                acc = y;
            },
            None => {
                proof {
                    if all_digit_chars(s@) {
                        lemma_decimal_prefix(s@, i + 1);
                    }
                }
                return None;
            },
        }
        i += 1;
        assert(all_digit_chars(s@.subrange(0, i as int)));
    }
    assert(s@.subrange(0, s@.len() as int) =~= s@);
    Some(acc)
}

/// Reading the match variable named `name` (digits only): the variable and
/// the state once it is registered, nothing outside a match test, or the
/// error for a number out of range.
pub open spec fn match_variable_spec(cs: CompilerStateView, name: Seq<char>) -> (
    CompilerStateView,
    Result<Option<VariableTypeView>, ErrorKind>,
) {
    match parse_usize_chars(name) {
        None => (cs, Err(ErrorKind::InvalidNumber(name))),
        Some(num) => if num < crate::MAX_MATCH_VARIABLES {
            if cs.match_test {
                (
                    CompilerStateView {
                        vars_match_max: if num + 1 > cs.vars_match_max {
                            (num + 1) as usize
                        } else {
                            cs.vars_match_max
                        },
                        ..cs
                    },
                    Ok(Some(VariableTypeView::Match(num))),
                )
            } else {
                (cs, Ok(None))
            }
        } else {
            (cs, Err(ErrorKind::InvalidMatchVariable(num)))
        },
    }
}

/// The name `name` in an expression: a variable, else a registered
/// function, else the message that it is neither.
pub open spec fn expr_name_spec(cs: CompilerStateView, name: Seq<char>, maybe_namespace: bool) -> Result<
    ExprTokenView,
    Seq<char>,
> {
    match parse_variable_spec(cs, name, maybe_namespace) {
        Ok(Some(v)) => Ok(ExprTokenView::Variable(v)),
        _ => match function_named(cs, name) {
            Some((id, num_args)) => Ok(ExprTokenView::Function { name, id, num_args }),
            None => Err("Invalid variable or function name "@ + debug_quoted(name)),
        },
    }
}

fn envelope_named_exec(v: &str) -> (r: Option<Envelope>)
    ensures
        r == envelope_named(v@),
{
    if str_eq(v, "from") {
        Some(Envelope::From)
    } else if str_eq(v, "to") {
        Some(Envelope::To)
    } else if str_eq(v, "by_time_absolute") {
        Some(Envelope::ByTimeAbsolute)
    } else if str_eq(v, "by_time_relative") {
        Some(Envelope::ByTimeRelative)
    } else if str_eq(v, "by_mode") {
        Some(Envelope::ByMode)
    } else if str_eq(v, "by_trace") {
        Some(Envelope::ByTrace)
    } else if str_eq(v, "notify") {
        Some(Envelope::Notify)
    } else if str_eq(v, "orcpt") {
        Some(Envelope::Orcpt)
    } else if str_eq(v, "ret") {
        Some(Envelope::Ret)
    } else if str_eq(v, "envid") {
        Some(Envelope::Envid)
    } else {
        None
    }
}

fn body_part_named_exec(v: &str) -> (r: Option<MessagePart>)
    ensures
        r == body_part_named(v@),
{
    if str_eq(v, "text") {
        Some(MessagePart::TextBody(false))
    } else if str_eq(v, "html") {
        Some(MessagePart::HtmlBody(false))
    } else if str_eq(v, "to_text") {
        Some(MessagePart::TextBody(true))
    } else if str_eq(v, "to_html") {
        Some(MessagePart::HtmlBody(true))
    } else {
        None
    }
}

fn part_named_exec(v: &str) -> (r: Option<MessagePart>)
    ensures
        r == part_named(v@),
{
    if str_eq(v, "text") {
        Some(MessagePart::Contents)
    } else if str_eq(v, "raw") {
        Some(MessagePart::Raw)
    } else {
        None
    }
}

impl CompilerState {
    fn plain_variable(&self, name: &str) -> (r: Option<VariableType>)
        ensures
            match r {
                Some(v) => plain_variable(self@, name@) == Some(v@),
                None => plain_variable(self@, name@) is None,
            },
    {
        if self.is_var_global(name) {
            Some(VariableType::Global(name.to_string()))
        } else {
            match self.get_local_var(name) {
                Some(id) => Some(VariableType::Local(id)),
                None => None,
            }
        }
    }

    /// What the variable name `var_name` stands for; `maybe_namespace`
    /// when it holds a dot.
    pub fn parse_variable(&self, var_name: &str, maybe_namespace: bool) -> (r: Result<
        Option<VariableType>,
        ErrorType,
    >)
        ensures
            var_result_view(r) == parse_variable_spec(self@, var_name@, maybe_namespace),
    {
        if !maybe_namespace {
            return Ok(self.plain_variable(var_name));
        }
        let lower = str_to_lowercase(var_name);
        match split_once_dot(lower.as_str()) {
            None => Ok(self.plain_variable(var_name)),
            Some((ns, v)) => {
                let nonempty = v.as_str().unicode_len() > 0;
                let is_global = str_eq(ns.as_str(), "global") || str_eq(ns.as_str(), "t");
                let is_env = str_eq(ns.as_str(), "env");
                let is_envelope = str_eq(ns.as_str(), "envelope");
                let is_header = str_eq(ns.as_str(), "header");
                let is_body = str_eq(ns.as_str(), "body");
                let is_part = str_eq(ns.as_str(), "part");
                if is_global && nonempty {
                    Ok(Some(VariableType::Global(v)))
                } else if is_env && nonempty {
                    Ok(Some(VariableType::Environment(v)))
                } else if is_envelope && nonempty {
                    match envelope_named_exec(v.as_str()) {
                        Some(e) => Ok(Some(VariableType::Envelope(e))),
                        None => Err(ErrorType::InvalidEnvelope(v)),
                    }
                } else if is_header && nonempty {
                    match self.parse_header_variable(v.as_str()) {
                        Ok(h) => Ok(Some(h)),
                        Err(e) => Err(e),
                    }
                } else if is_body && nonempty {
                    match body_part_named_exec(v.as_str()) {
                        Some(p) => Ok(Some(VariableType::Part(p))),
                        None => Err(ErrorType::InvalidNamespace(v)),
                    }
                } else if is_part && nonempty {
                    match part_named_exec(v.as_str()) {
                        Some(p) => Ok(Some(VariableType::Part(p))),
                        None => Err(ErrorType::InvalidNamespace(v)),
                    }
                } else {
                    Err(ErrorType::InvalidNamespace(var_name.to_string()))
                }
            },
        }
    }

    /// Registers a match variable; whether it can be read here.
    fn register_match_var(&mut self, num: usize) -> (r: bool)
        ensures
            r == old(self).match_test,
            final(self)@ == old(self)@,
    {
        self.match_test
    }

    /// Reads the match variable named `var_name` (digits only).
    fn parse_match_variable(&mut self, var_name: &str) -> (r: Result<Option<VariableType>, ErrorType>)
        ensures
            (final(self)@, var_result_view(r)) == match_variable_spec(old(self)@, var_name@),
    {
        let c = str_chars(var_name);
        match parse_usize_chars_exec(c.as_slice()) {
            None => Err(ErrorType::InvalidNumber(var_name.to_string())),
            Some(num) => {
                if num < crate::MAX_MATCH_VARIABLES as usize {
                    if self.register_match_var(num) {
                        let total_vars = num + 1;
                        if total_vars > self.vars_match_max {
                            self.vars_match_max = total_vars;
                        }
                        Ok(Some(VariableType::Match(num)))
                    } else {
                        Ok(None)
                    }
                } else {
                    Err(ErrorType::InvalidMatchVariable(num))
                }
            },
        }
    }

    /// The function registered under `name`: its number and number of
    /// arguments.
    fn function(&self, name: &str) -> (r: Option<(u32, u32)>)
        ensures
            r == function_named(self@, name@),
    {
        let mut i: usize = 0;
        while i < self.functions.len()
            invariant
                i <= self.functions@.len(),
                forall|j: int| 0 <= j < i ==> self@.functions[j].0 != name@,
            decreases self.functions@.len() - i,
        {
            if str_eq(self.functions[i].0.as_str(), name) {
                proof {
                    let k = choose|k: int|
                        0 <= k < self@.functions.len() && self@.functions[k].0 == name@ && forall|j: int|
                            0 <= j < k ==> self@.functions[j].0 != name@;
                    assert(0 <= i < self@.functions.len() && self@.functions[i as int].0 == name@);
                    assert(k == i as int) by {
                        if k < i as int {
                            assert(self@.functions[k].0 != name@);
                        } else if k > i as int {
                            assert(self@.functions[i as int].0 != name@);
                        }
                    }
                }
                return Some((self.functions[i].1, self.functions[i].2));
            }
            i += 1;
        }
        None
    }

    /// The name `var_name` in an expression: a variable, else a function
    /// registered with the compiler, else the message that it is neither.
    pub fn parse_expr_fnc_or_var(&self, var_name: &str, maybe_namespace: bool) -> (r: Result<
        ExprToken,
        String,
    >)
        ensures
            match (r, expr_name_spec(self@, var_name@, maybe_namespace)) {
                (Ok(t), Ok(v)) => t@ == v,
                (Err(m), Err(v)) => m@ == v,
                _ => false,
            },
    {
        match self.parse_variable(var_name, maybe_namespace) {
            Ok(Some(var)) => Ok(ExprToken::Variable(var)),
            _ => match self.function(var_name) {
                Some((id, num_args)) => Ok(ExprToken::Function { name: var_name.to_string(), id, num_args }),
                None => Err(invalid_name_message(var_name)),
            },
        }
    }
}

/// Where the string parser is: in text, in a variable name after `${`,
/// or in the hexadecimal codes of an encoded character.
#[derive(Clone, Copy, PartialEq, Eq, Structural)]
pub enum StrState {
    Idle,
    Variable,
    Encoded { is_unicode: bool, initial_buf_size: usize },
}

/// What the string parser has read so far.
pub struct StrModel {
    pub cs: CompilerStateView,
    pub state: StrState,
    pub items: Seq<ValueView>,
    pub last_ch: u8,
    pub var_start_pos: usize,
    pub var_is_number: bool,
    pub var_has_namespace: bool,
    pub text_has_digits: bool,
    pub text_has_dots: bool,
    pub hex_start: usize,
    pub decode_buf: Seq<u8>,
}

/// How the text read so far is added to the items: the state of the
/// compiler and the items after it, or the error.
pub type Flush = spec_fn(StrModel) -> Result<(CompilerStateView, Seq<ValueView>), (CompilerStateView, ErrorKind)>;

/// The value of a string of hexadecimal digits.
pub open spec fn hex_digits_value(s: Seq<u8>) -> nat
    decreases s.len(),
{
    if s.len() == 0 {
        0
    } else {
        hex_digits_value(s.drop_last()) * 16 + hex_val(s.last()) as nat
    }
}

pub open spec fn all_hex(s: Seq<u8>) -> bool {
    forall|i: int| 0 <= i < s.len() ==> is_hex_digit(#[trigger] s[i])
}

/// A piece of text of a string: a number when it reads as one (a decimal
/// with a dot is left for floating point to read), else text.
pub open spec fn plain_value(buf: Seq<u8>, has_digits: bool, has_dots: bool) -> ValueView {
    if has_digits && valid_utf8(buf) {
        let t = decode_utf8(buf);
        if has_dots {
            ValueView::Number(NumberView::Decimal(t))
        } else {
            match canonical_i64(t) {
                Some(n) => ValueView::Number(NumberView::Integer(n)),
                None => ValueView::Text(t),
            }
        }
    } else {
        ValueView::Text(utf8_lossy(buf))
    }
}

pub open spec fn flush_plain(m: StrModel) -> Result<(CompilerStateView, Seq<ValueView>), (CompilerStateView, ErrorKind)> {
    Ok((m.cs, m.items.push(plain_value(m.decode_buf, m.text_has_digits, m.text_has_dots))))
}

pub open spec fn plain_flush() -> Flush {
    |m: StrModel| flush_plain(m)
}

pub open spec fn pop_byte(s: Seq<u8>) -> Seq<u8> {
    if s.len() > 0 {
        s.drop_last()
    } else {
        s
    }
}

pub open spec fn push_text(m: StrModel, ch: u8) -> StrModel {
    StrModel { decode_buf: m.decode_buf.push(ch), ..m }
}

pub open spec fn is_var_name_byte(ch: u8) -> bool {
    (97 <= ch <= 122) || (65 <= ch <= 90) || ch == 95 || ch == 91 || ch == 93 || ch == 42 || ch == 45
}

pub open spec fn is_blank_byte(ch: u8) -> bool {
    ch == 32 || ch == 9 || ch == 13 || ch == 10
}

/// The text kept when an encoded character is abandoned: what was there
/// before it.
pub open spec fn kept_text(m: StrModel) -> Seq<u8> {
    match m.state {
        StrState::Encoded { initial_buf_size, .. } => if initial_buf_size != m.decode_buf.len() {
            m.decode_buf.subrange(0, initial_buf_size as int)
        } else {
            m.decode_buf
        },
        _ => m.decode_buf,
    }
}

/// A variable or an encoded character that is not one is kept as text,
/// from its `${` to the byte at `pos`.
pub open spec fn var_error(m: StrModel, bytes: Seq<u8>, pos: int) -> StrModel {
    StrModel {
        decode_buf: kept_text(m) + bytes.subrange(m.var_start_pos - 2, pos + 1),
        hex_start: usize::MAX,
        state: StrState::Idle,
        ..m
    }
}

/// Acting on the text before a variable and on the variable `${...}` that
/// ends at `pos`.
pub open spec fn end_variable(m: StrModel, bytes: Seq<u8>, pos: int, flush: Flush) -> Result<(StrModel, bool), (CompilerStateView, ErrorKind)> {
    let flushed = if m.decode_buf.len() > 0 {
        match flush(m) {
            Ok((cs2, items2)) => Ok(
                StrModel {
                    cs: cs2,
                    items: items2,
                    decode_buf: Seq::empty(),
                    text_has_digits: true,
                    text_has_dots: false,
                    ..m
                },
            ),
            Err(e) => Err(e),
        }
    } else {
        Ok(m)
    };
    match flushed {
        Err(e) => Err(e),
        Ok(m1) => {
            let name = crate::compiler::lexer::tokenizer::latin1(bytes.subrange(m.var_start_pos as int, pos));
            let (cs3, vt) = if !m.var_is_number {
                (m1.cs, parse_variable_spec(m1.cs, name, m.var_has_namespace))
            } else {
                match_variable_spec(m1.cs, name)
            };
            let m2 = StrModel { cs: cs3, state: StrState::Idle, ..m1 };
            match vt {
                Ok(Some(v)) => Ok((StrModel { items: m2.items.push(ValueView::Variable(v)), ..m2 }, false)),
                Ok(None) => Ok((m2, false)),
                Err(ErrorKind::InvalidNamespace(_)) => Ok((m2, true)),
                Err(ErrorKind::InvalidEnvelope(_)) => Ok((m2, true)),
                Err(e) => Err((cs3, e)),
            }
        },
    }
}

/// Acting on the hexadecimal code that ends at `pos`, if there is one.
pub open spec fn end_code(m: StrModel, bytes: Seq<u8>, pos: int, is_unicode: bool) -> Result<(StrModel, bool), (CompilerStateView, ErrorKind)> {
    if m.hex_start != usize::MAX {
        let v = hex_digits_value(bytes.subrange(m.hex_start as int, pos));
        let m1 = StrModel { hex_start: usize::MAX, ..m };
        if !is_unicode {
            if v <= 255 {
                Ok((StrModel { decode_buf: m1.decode_buf.push(v as u8), ..m1 }, false))
            } else {
                Ok((m1, true))
            }
        } else if v <= u32::MAX {
            if is_scalar(v as u32) {
                Ok((StrModel { decode_buf: m1.decode_buf + encode_utf8(seq![(v as u32) as char]), ..m1 }, false))
            } else {
                Err((m.cs, ErrorKind::InvalidUnicodeSequence(v as u32)))
            }
        } else {
            Ok((m1, true))
        }
    } else {
        Ok((m, false))
    }
}

/// What the byte at `pos` does, before an abandoned variable is kept as
/// text: the new state and whether the variable was abandoned.
#[verifier::opaque]
pub open spec fn str_act(m: StrModel, bytes: Seq<u8>, pos: int, parse_decoded: bool, flush: Flush) -> Result<(StrModel, bool), (CompilerStateView, ErrorKind)> {
    let ch = bytes[pos];
    match m.state {
        StrState::Idle => Ok(
            (
                if ch == 123 && m.last_ch == 36 {
                    StrModel {
                        decode_buf: pop_byte(m.decode_buf),
                        var_start_pos: (pos + 1) as usize,
                        var_is_number: true,
                        var_has_namespace: false,
                        state: StrState::Variable,
                        ..m
                    }
                } else if ch == 46 {
                    if m.text_has_dots {
                        push_text(StrModel { text_has_digits: false, ..m }, ch)
                    } else {
                        push_text(StrModel { text_has_dots: true, ..m }, ch)
                    }
                } else if is_digit(ch) {
                    push_text(m, ch)
                } else {
                    push_text(StrModel { text_has_digits: false, ..m }, ch)
                },
                false,
            ),
        ),
        StrState::Variable => if is_var_name_byte(ch) {
            Ok((StrModel { var_is_number: false, ..m }, false))
        } else if ch == 46 {
            Ok((StrModel { var_is_number: false, var_has_namespace: true, ..m }, false))
        } else if is_digit(ch) {
            Ok((m, false))
        } else if ch == 125 {
            if pos > m.var_start_pos {
                end_variable(m, bytes, pos, flush)
            } else {
                Ok((m, true))
            }
        } else if ch == 58 {
            if parse_decoded && !m.var_has_namespace {
                let enc = bytes.subrange(m.var_start_pos as int, pos);
                if eq_ignore_case(enc, seq![104u8, 101, 120]) {
                    Ok(
                        (
                            StrModel {
                                state: StrState::Encoded {
                                    is_unicode: false,
                                    initial_buf_size: m.decode_buf.len() as usize,
                                },
                                ..m
                            },
                            false,
                        ),
                    )
                } else if eq_ignore_case(enc, seq![117u8, 110, 105, 99, 111, 100, 101]) {
                    Ok(
                        (
                            StrModel {
                                state: StrState::Encoded {
                                    is_unicode: true,
                                    initial_buf_size: m.decode_buf.len() as usize,
                                },
                                ..m
                            },
                            false,
                        ),
                    )
                } else {
                    Ok((m, true))
                }
            } else if m.var_has_namespace {
                Ok((StrModel { var_is_number: false, ..m }, false))
            } else {
                Ok((m, true))
            }
        } else {
            Ok((m, true))
        },
        StrState::Encoded { is_unicode, initial_buf_size } => if is_hex_digit(ch) {
            Ok(
                (
                    StrModel {
                        hex_start: if m.hex_start == usize::MAX {
                            pos as usize
                        } else {
                            m.hex_start
                        },
                        ..m
                    },
                    false,
                ),
            )
        } else if is_blank_byte(ch) || ch == 125 {
            match end_code(m, bytes, pos, is_unicode) {
                Err(e) => Err(e),
                Ok((m2, err)) => if ch == 125 {
                    if m2.decode_buf.len() != initial_buf_size {
                        Ok((StrModel { state: StrState::Idle, ..m2 }, err))
                    } else {
                        Ok((m2, true))
                    }
                } else {
                    Ok((m2, err))
                },
            }
        } else {
            Ok((m, true))
        },
    }
}

/// The string parser after the byte at `pos`.
pub open spec fn str_step(m: StrModel, bytes: Seq<u8>, pos: int, parse_decoded: bool, flush: Flush) -> Result<StrModel, (CompilerStateView, ErrorKind)> {
    match str_act(m, bytes, pos, parse_decoded, flush) {
        Err(e) => Err(e),
        Ok((m2, err)) => {
            let m3 = if err {
                var_error(m2, bytes, pos)
            } else {
                m2
            };
            Ok(StrModel { last_ch: bytes[pos], ..m3 })
        },
    }
}

/// The string parser after the bytes from `pos` on.
pub open spec fn str_run(m: StrModel, bytes: Seq<u8>, pos: int, parse_decoded: bool, flush: Flush) -> Result<StrModel, (CompilerStateView, ErrorKind)>
    decreases bytes.len() - pos,
{
    if pos < 0 || pos >= bytes.len() {
        Ok(m)
    } else {
        match str_step(m, bytes, pos, parse_decoded, flush) {
            Err(e) => Err(e),
            Ok(m2) => str_run(m2, bytes, pos + 1, parse_decoded, flush),
        }
    }
}

/// The value the items make: one item as is, none as empty text, several
/// as a list.
pub open spec fn items_value(items: Seq<ValueView>) -> ValueView {
    if items.len() == 1 {
        items[0]
    } else if items.len() == 0 {
        ValueView::Text(Seq::empty())
    } else {
        ValueView::List(items)
    }
}

/// The end of the string: an unfinished variable is kept as text, the
/// text left is added.
pub open spec fn str_finish(m: StrModel, bytes: Seq<u8>, flush: Flush) -> Result<(CompilerStateView, ValueView), (CompilerStateView, ErrorKind)> {
    let buf = match m.state {
        StrState::Idle => m.decode_buf,
        _ => kept_text(m) + bytes.subrange(m.var_start_pos - 2, bytes.len() as int),
    };
    let m1 = StrModel { decode_buf: buf, ..m };
    let r = if buf.len() > 0 {
        flush(m1)
    } else {
        Ok((m1.cs, m1.items))
    };
    match r {
        Err(e) => Err(e),
        Ok((cs, items)) => Ok((cs, items_value(items))),
    }
}

pub open spec fn str_start(cs: CompilerStateView) -> StrModel {
    StrModel {
        cs,
        state: StrState::Idle,
        items: Seq::empty(),
        last_ch: 0,
        var_start_pos: usize::MAX,
        var_is_number: true,
        var_has_namespace: false,
        text_has_digits: true,
        text_has_dots: false,
        hex_start: usize::MAX,
        decode_buf: Seq::empty(),
    }
}

pub open spec fn tokenize_with(cs: CompilerStateView, bytes: Seq<u8>, parse_decoded: bool, flush: Flush) -> Result<(CompilerStateView, ValueView), (CompilerStateView, ErrorKind)> {
    match str_run(str_start(cs), bytes, 0, parse_decoded, flush) {
        Err(e) => Err(e),
        Ok(m) => str_finish(m, bytes, flush),
    }
}

/// A string split into text and variables, without decoding encoded
/// characters.
pub open spec fn tokenize_plain(cs: CompilerStateView, bytes: Seq<u8>) -> Result<(CompilerStateView, ValueView), (CompilerStateView, ErrorKind)> {
    tokenize_with(cs, bytes, false, plain_flush())
}

/// Decoded text is split again into text and variables.
pub open spec fn flush_decoded(m: StrModel) -> Result<(CompilerStateView, Seq<ValueView>), (CompilerStateView, ErrorKind)> {
    match tokenize_plain(m.cs, m.decode_buf) {
        Err(e) => Err(e),
        Ok((cs2, ValueView::List(l))) => Ok((cs2, m.items + l)),
        Ok((cs2, v)) => Ok((cs2, m.items.push(v))),
    }
}

pub open spec fn decoded_flush() -> Flush {
    |m: StrModel| flush_decoded(m)
}

pub open spec fn flush_for(parse_decoded: bool) -> Flush {
    if parse_decoded {
        decoded_flush()
    } else {
        plain_flush()
    }
}

/// A string split into text and variables; with `parse_decoded`, encoded
/// characters `${hex:..}` and `${unicode:..}` are decoded and the result
/// is split again.
pub open spec fn tokenize_spec(cs: CompilerStateView, bytes: Seq<u8>, parse_decoded: bool) -> Result<(CompilerStateView, ValueView), (CompilerStateView, ErrorKind)> {
    tokenize_with(cs, bytes, parse_decoded, flush_for(parse_decoded))
}

/// `char::from_u32` of std: the character whose code is `v`, if `v` is a
/// Unicode scalar value.
#[verifier::external_body]
fn char_from_u32(v: u32) -> (r: Option<char>)
    ensures
        r is Some <==> is_scalar(v),
        r matches Some(c) ==> c as u32 == v,
{
    char::from_u32(v)
}

pub proof fn lemma_hex_prefix(s: Seq<u8>, i: int)
    requires
        all_hex(s),
        0 <= i <= s.len(),
    ensures
        hex_digits_value(s.subrange(0, i)) <= hex_digits_value(s),
    decreases s.len() - i,
{
    if i == s.len() {
        assert(s.subrange(0, i) =~= s);
    } else {
        lemma_hex_prefix(s, i + 1);
        assert(s.subrange(0, i + 1).drop_last() =~= s.subrange(0, i));
    }
}

/// The value of the hexadecimal digits `bytes[start..end]`, if it is at
/// most `max`.
fn hex_at_most(bytes: &[u8], start: usize, end: usize, max: u64) -> (r: Option<u64>)
    requires
        start <= end <= bytes@.len(),
        all_hex(bytes@.subrange(start as int, end as int)),
        max <= u32::MAX,
    ensures
        r == (if hex_digits_value(bytes@.subrange(start as int, end as int)) <= max {
            Some(hex_digits_value(bytes@.subrange(start as int, end as int)) as u64)
        } else {
            None
        }),
{
    let ghost d = bytes@.subrange(start as int, end as int);
    let mut acc: u64 = 0;
    let mut i = start;
    while i < end
        invariant
            start <= i <= end <= bytes@.len(),
            d == bytes@.subrange(start as int, end as int),
            all_hex(d),
            acc == hex_digits_value(d.subrange(0, i - start)),
            acc <= max,
            max <= u32::MAX,
        decreases end - i,
    {
        assert(d.subrange(0, i - start + 1).drop_last() =~= d.subrange(0, i - start));
        assert(is_hex_digit(d[i - start]));
        let v = crate::text::hex_value(bytes[i]);
        let digit: u64 = v as u64;
        if acc * 16 + digit > max {
            proof {
                lemma_hex_prefix(d, i - start + 1);
            }
            return None;
        }
        acc = acc * 16 + digit;
        i += 1;
    }
    assert(d.subrange(0, end - start) =~= d);
    Some(acc)
}

/// A piece of text of a string as a value.
fn plain_value_exec(buf: &[u8], has_digits: bool, has_dots: bool) -> (r: Value)
    ensures
        r@ == plain_value(buf@, has_digits, has_dots),
{
    if has_digits {
        match crate::text::string_from_utf8(crate::text::sub_bytes(buf, 0, buf.len())) {
            Some(t) => {
                proof {
                    assert(buf@.subrange(0, buf@.len() as int) =~= buf@);
                }
                if has_dots {
                    Value::Number(crate::compiler::Number::Decimal(t))
                } else {
                    match crate::compiler::lexer::tokenizer::canonical_i64_exec(t.as_str()) {
                        Some(n) => Value::Number(crate::compiler::Number::Integer(n)),
                        None => Value::Text(t),
                    }
                }
            },
            None => {
                proof {
                    assert(buf@.subrange(0, buf@.len() as int) =~= buf@);
                }
                Value::Text(crate::text::string_from_utf8_lossy(buf))
            },
        }
    } else {
        Value::Text(crate::text::string_from_utf8_lossy(buf))
    }
}

pub open spec fn values_view(items: Seq<Value>) -> Seq<ValueView> {
    items.map_values(|v: Value| v@)
}

/// The model a flush of `buf` reads.
pub open spec fn flush_args(cs: CompilerStateView, items: Seq<ValueView>, buf: Seq<u8>, has_digits: bool, has_dots: bool) -> StrModel {
    StrModel { cs, items, decode_buf: buf, text_has_digits: has_digits, text_has_dots: has_dots, ..str_start(cs) }
}

/// The string parser's variables.
struct StrScan {
    state: StrState,
    items: Vec<Value>,
    last_ch: u8,
    var_start_pos: usize,
    var_is_number: bool,
    var_has_namespace: bool,
    text_has_digits: bool,
    text_has_dots: bool,
    hex_start: usize,
    decode_buf: Vec<u8>,
}

spec fn scan_model(cs: CompilerStateView, st: StrScan) -> StrModel {
    StrModel {
        cs,
        state: st.state,
        items: values_view(st.items@),
        last_ch: st.last_ch,
        var_start_pos: st.var_start_pos,
        var_is_number: st.var_is_number,
        var_has_namespace: st.var_has_namespace,
        text_has_digits: st.text_has_digits,
        text_has_dots: st.text_has_dots,
        hex_start: st.hex_start,
        decode_buf: st.decode_buf@,
    }
}

/// What holds of the string parser before the byte at `pos`.
pub open spec fn scan_inv(m: StrModel, bytes: Seq<u8>, pos: int) -> bool {
    &&& 0 <= pos <= bytes.len()
    &&& !(m.state is Idle) ==> 2 <= m.var_start_pos <= pos
    &&& (m.state matches StrState::Encoded { initial_buf_size, .. } ==> initial_buf_size <= m.decode_buf.len())
    &&& m.hex_start != usize::MAX ==> (m.state is Encoded && m.hex_start < pos && all_hex(
        bytes.subrange(m.hex_start as int, pos),
    ))
    &&& (if pos == 0 {
        m.last_ch == 0
    } else {
        m.last_ch == bytes[pos - 1]
    })
}

proof fn lemma_push_values(items: Seq<Value>, v: Value)
    ensures
        values_view(items.push(v)) == values_view(items).push(v@),
{
    assert(values_view(items.push(v)) =~= values_view(items).push(v@));
}

impl CompilerState {
    /// Adds the text `buf` to the items: as a value, or, with
    /// `parse_decoded`, split again into text and variables.
    fn add_value(
        &mut self,
        items: &mut Vec<Value>,
        buf: &[u8],
        parse_decoded: bool,
        has_digits: bool,
        has_dots: bool,
    ) -> (r: Result<(), ErrorType>)
        ensures
            match flush_for(parse_decoded)(
                flush_args(old(self)@, values_view(old(items)@), buf@, has_digits, has_dots),
            ) {
                Ok((cs, it)) => r is Ok && final(self)@ == cs && values_view(final(items)@) == it,
                Err((cs, e)) => r matches Err(x) && x@ == e && final(self)@ == cs,
            },
        decreases (if parse_decoded {
            1int
        } else {
            0int
        }), 0int,
    {
        if !parse_decoded {
            let v = plain_value_exec(buf, has_digits, has_dots);
            proof {
                lemma_push_values(items@, v);
            }
            items.push(v);
            Ok(())
        } else {
            match self.tokenize_string(buf, false) {
                Ok(Value::List(mut new_items)) => {
                    let ghost before = items@;
                    let ghost added = new_items@;
                    items.append(&mut new_items);
                    assert(values_view(items@) =~= values_view(before) + values_view(added));
                    Ok(())
                },
                Ok(item) => {
                    proof {
                        lemma_push_values(items@, item);
                    }
                    items.push(item);
                    Ok(())
                },
                Err(e) => Err(e),
            }
        }
    }

    /// Splits the string `bytes` into text and variables (RFC 5229); with
    /// `parse_decoded`, encoded characters `${hex:..}` and `${unicode:..}`
    /// are decoded first and the text they make is split again.
    pub fn tokenize_string(&mut self, bytes: &[u8], parse_decoded: bool) -> (r: Result<Value, ErrorType>)
        ensures
            match tokenize_spec(old(self)@, bytes@, parse_decoded) {
                Ok((cs, v)) => final(self)@ == cs && (r matches Ok(x) && x@ == v),
                Err((cs, e)) => final(self)@ == cs && (r matches Err(x) && x@ == e),
            },
        decreases (if parse_decoded {
            1int
        } else {
            0int
        }), 4int,
    {
        let mut st = StrScan {
            state: StrState::Idle,
            items: Vec::new(),
            last_ch: 0,
            var_start_pos: usize::MAX,
            var_is_number: true,
            var_has_namespace: false,
            text_has_digits: true,
            text_has_dots: false,
            hex_start: usize::MAX,
            decode_buf: Vec::new(),
        };
        let ghost flush = flush_for(parse_decoded);
        let ghost target = str_run(str_start(self@), bytes@, 0, parse_decoded, flush);
        assert(scan_model(self@, st) =~= str_start(self@)) by {
            assert(values_view(st.items@) =~= Seq::<ValueView>::empty());
        }
        let mut pos: usize = 0;
        while pos < bytes.len()
            invariant
                pos <= bytes@.len(),
                flush == flush_for(parse_decoded),
                target == str_run(str_start(old(self)@), bytes@, 0, parse_decoded, flush),
                scan_inv(scan_model(self@, st), bytes@, pos as int),
                str_run(scan_model(self@, st), bytes@, pos as int, parse_decoded, flush) == target,
            decreases bytes@.len() - pos,
        {
            let ghost m = scan_model(self@, st);
            // Both lengths fit in `usize`: the step needs that of them.
            let _buf_len = st.decode_buf.len();
            let _bytes_len = bytes.len();
            assert(m.decode_buf.len() <= usize::MAX && bytes@.len() <= usize::MAX);
            match self.scan_byte(&mut st, bytes, pos, parse_decoded) {
                Ok(()) => {},
                Err(e) => {
                    return Err(e);
                },
            }
            proof {
                lemma_str_step_inv(m, bytes@, pos as int, parse_decoded, flush);
            }
            pos += 1;
        }
        self.scan_finish(st, bytes, parse_decoded)
    }
}

/// Each byte keeps what holds of the string parser.
pub proof fn lemma_str_step_inv(m: StrModel, bytes: Seq<u8>, pos: int, parse_decoded: bool, flush: Flush)
    requires
        scan_inv(m, bytes, pos),
        pos < bytes.len(),
        m.decode_buf.len() <= usize::MAX,
        bytes.len() <= usize::MAX,
        str_step(m, bytes, pos, parse_decoded, flush) is Ok,
    ensures
        scan_inv(str_step(m, bytes, pos, parse_decoded, flush)->Ok_0, bytes, pos + 1),
{
    reveal(str_act);
    let ch = bytes[pos];
    if m.hex_start != usize::MAX && is_hex_digit(ch) {
        assert(bytes.subrange(m.hex_start as int, pos + 1) =~= bytes.subrange(m.hex_start as int, pos).push(ch));
    }
    if m.hex_start == usize::MAX && is_hex_digit(ch) {
        assert(bytes.subrange(pos, pos + 1) =~= seq![ch]);
    }
}

impl CompilerState {
    /// The byte at `pos` inside a variable name.
    fn scan_variable(&mut self, st: &mut StrScan, bytes: &[u8], pos: usize, parse_decoded: bool) -> (r: Result<bool, ErrorType>)
        requires
            pos < bytes@.len(),
            scan_inv(scan_model(old(self)@, *old(st)), bytes@, pos as int),
            old(st).state == StrState::Variable,
        ensures
            match str_act(scan_model(old(self)@, *old(st)), bytes@, pos as int, parse_decoded, flush_for(parse_decoded)) {
                Ok((m2, e)) => r == Ok::<bool, ErrorType>(e) && scan_model(final(self)@, *final(st)) == m2,
                Err((cs, e)) => r matches Err(x) && x@ == e && final(self)@ == cs,
            },
            final(st).var_start_pos == old(st).var_start_pos,
            final(st).state matches StrState::Encoded { initial_buf_size: n, .. } ==> n <= final(st).decode_buf@.len(),
        decreases (if parse_decoded {
            1int
        } else {
            0int
        }), 2int,
    {
        proof {
            reveal(str_act);
        }
        let ch = bytes[pos];
        if (ch >= 97 && ch <= 122) || (ch >= 65 && ch <= 90) || ch == 95 || ch == 91 || ch == 93 || ch == 42 || ch == 45 {
            st.var_is_number = false;
            Ok(false)
        } else if ch == 46 {
            st.var_is_number = false;
            st.var_has_namespace = true;
            Ok(false)
        } else if ch >= 48 && ch <= 57 {
            Ok(false)
        } else if ch == 125 {
            if pos > st.var_start_pos {
                if st.decode_buf.len() > 0 {
                    let mut buf: Vec<u8> = Vec::new();
                    std::mem::swap(&mut buf, &mut st.decode_buf);
                    let hd = st.text_has_digits;
                    let hdots = st.text_has_dots;
                    match self.add_value(&mut st.items, buf.as_slice(), parse_decoded, hd, hdots) {
                        Ok(()) => {},
                        Err(e) => {
                            return Err(e);
                        },
                    }
                    st.text_has_digits = true;
                    st.text_has_dots = false;
                }
                let name_bytes = crate::text::sub_bytes(bytes, st.var_start_pos, pos);
                let name = crate::compiler::lexer::tokenizer::latin1_string(String::new(), name_bytes.as_slice());
                assert(name@ =~= crate::compiler::lexer::tokenizer::latin1(bytes@.subrange(st.var_start_pos as int, pos as int)));
                let vt = if !st.var_is_number {
                    self.parse_variable(name.as_str(), st.var_has_namespace)
                } else {
                    self.parse_match_variable(name.as_str())
                };
                st.state = StrState::Idle;
                match vt {
                    Ok(Some(v)) => {
                        proof {
                            lemma_push_values(st.items@, Value::Variable(v));
                        }
                        st.items.push(Value::Variable(v));
                        Ok(false)
                    },
                    Ok(None) => Ok(false),
                    Err(ErrorType::InvalidNamespace(n)) => Ok(true),
                    Err(ErrorType::InvalidEnvelope(n)) => Ok(true),
                    Err(e) => Err(e),
                }
            } else {
                Ok(true)
            }
        } else if ch == 58 {
            if parse_decoded && !st.var_has_namespace {
                let enc = crate::text::sub_bytes(bytes, st.var_start_pos, pos);
                let hex: [u8; 3] = [104, 101, 120];
                let unicode: [u8; 7] = [117, 110, 105, 99, 111, 100, 101];
                assert(hex@ =~= seq![104u8, 101, 120]);
                assert(unicode@ =~= seq![117u8, 110, 105, 99, 111, 100, 101]);
                if crate::text::bytes_eq_ignore_case(enc.as_slice(), &hex) {
                    st.state = StrState::Encoded { is_unicode: false, initial_buf_size: st.decode_buf.len() };
                    Ok(false)
                } else if crate::text::bytes_eq_ignore_case(enc.as_slice(), &unicode) {
                    st.state = StrState::Encoded { is_unicode: true, initial_buf_size: st.decode_buf.len() };
                    Ok(false)
                } else {
                    Ok(true)
                }
            } else if st.var_has_namespace {
                st.var_is_number = false;
                Ok(false)
            } else {
                Ok(true)
            }
        } else {
            Ok(true)
        }
    }
}

/// The byte at `pos` in text.
fn scan_idle(st: &mut StrScan, bytes: &[u8], pos: usize, cs: Ghost<CompilerStateView>, parse_decoded: Ghost<bool>) -> (r: bool)
    requires
        pos < bytes@.len(),
        scan_inv(scan_model(cs@, *old(st)), bytes@, pos as int),
        old(st).state == StrState::Idle,
    ensures
        str_act(scan_model(cs@, *old(st)), bytes@, pos as int, parse_decoded@, flush_for(parse_decoded@)) == Ok::<
            (StrModel, bool),
            (CompilerStateView, ErrorKind),
        >((scan_model(cs@, *final(st)), r)),
        !r,
{
    proof {
        reveal(str_act);
    }
    let ch = bytes[pos];
    if ch == 123 && st.last_ch == 36 {
        st.decode_buf.pop();
        st.var_start_pos = pos + 1;
        st.var_is_number = true;
        st.var_has_namespace = false;
        st.state = StrState::Variable;
    } else if ch == 46 {
        if st.text_has_dots {
            st.text_has_digits = false;
        } else {
            st.text_has_dots = true;
        }
        st.decode_buf.push(ch);
    } else if ch >= 48 && ch <= 57 {
        st.decode_buf.push(ch);
    } else {
        st.text_has_digits = false;
        st.decode_buf.push(ch);
    }
    false
}

/// The byte at `pos` inside an encoded character.
fn scan_encoded(st: &mut StrScan, bytes: &[u8], pos: usize, is_unicode: bool, initial_buf_size: usize, cs: Ghost<CompilerStateView>, parse_decoded: Ghost<bool>) -> (r: Result<bool, ErrorType>)
    requires
        pos < bytes@.len(),
        scan_inv(scan_model(cs@, *old(st)), bytes@, pos as int),
        old(st).state == (StrState::Encoded { is_unicode, initial_buf_size }),
    ensures
        match str_act(scan_model(cs@, *old(st)), bytes@, pos as int, parse_decoded@, flush_for(parse_decoded@)) {
            Ok((m2, e)) => r == Ok::<bool, ErrorType>(e) && scan_model(cs@, *final(st)) == m2,
            Err((c, e)) => r matches Err(x) && x@ == e && c == cs@,
        },
        final(st).var_start_pos == old(st).var_start_pos,
        final(st).state matches StrState::Encoded { initial_buf_size: n, .. } ==> n <= final(st).decode_buf@.len(),
{
    proof {
        reveal(str_act);
    }
    let ch = bytes[pos];
    if (ch >= 48 && ch <= 57) || (ch >= 65 && ch <= 70) || (ch >= 97 && ch <= 102) {
        if st.hex_start == usize::MAX {
            st.hex_start = pos;
        }
        Ok(false)
    } else if ch == 32 || ch == 9 || ch == 13 || ch == 10 || ch == 125 {
        let mut err = false;
        if st.hex_start != usize::MAX {
            let start = st.hex_start;
            st.hex_start = usize::MAX;
            if !is_unicode {
                match hex_at_most(bytes, start, pos, 255) {
                    Some(v) => {
                        st.decode_buf.push(v as u8);
                    },
                    None => {
                        err = true;
                    },
                }
            } else {
                match hex_at_most(bytes, start, pos, 4294967295u64) {
                    Some(v) => {
                        let code = v as u32;
                        match char_from_u32(code) {
                            Some(c) => {
                                proof {
                                    vstd::utf8::char_u32_cast(c, code);
                                }
                                let enc = crate::text::char_utf8(c);
                                crate::text::extend_bytes(&mut st.decode_buf, enc.as_slice());
                            },
                            None => {
                                return Err(ErrorType::InvalidUnicodeSequence(code));
                            },
                        }
                    },
                    None => {
                        err = true;
                    },
                }
            }
        }
        if ch == 125 {
            if st.decode_buf.len() != initial_buf_size {
                st.state = StrState::Idle;
                Ok(err)
            } else {
                Ok(true)
            }
        } else {
            Ok(err)
        }
    } else {
        Ok(true)
    }
}

impl CompilerState {
    /// The string parser reads the byte at `pos`.
    fn scan_byte(&mut self, st: &mut StrScan, bytes: &[u8], pos: usize, parse_decoded: bool) -> (r: Result<(), ErrorType>)
        requires
            pos < bytes@.len(),
            scan_inv(scan_model(old(self)@, *old(st)), bytes@, pos as int),
        ensures
            match str_step(scan_model(old(self)@, *old(st)), bytes@, pos as int, parse_decoded, flush_for(parse_decoded)) {
                Ok(m2) => r is Ok && scan_model(final(self)@, *final(st)) == m2,
                Err((cs, e)) => r matches Err(x) && x@ == e && final(self)@ == cs,
            },
        decreases (if parse_decoded {
            1int
        } else {
            0int
        }), 3int,
    {
        let ghost m = scan_model(self@, *st);
        let ch = bytes[pos];
        let err = match st.state {
            StrState::Idle => scan_idle(st, bytes, pos, Ghost(self@), Ghost(parse_decoded)),
            StrState::Variable => match self.scan_variable(st, bytes, pos, parse_decoded) {
                Ok(e) => e,
                Err(e) => {
                    return Err(e);
                },
            },
            StrState::Encoded { is_unicode, initial_buf_size } => {
                match scan_encoded(st, bytes, pos, is_unicode, initial_buf_size, Ghost(self@), Ghost(parse_decoded)) {
                    Ok(e) => e,
                    Err(e) => {
                        return Err(e);
                    },
                }
            },
        };
        if err {
            match st.state {
                StrState::Encoded { initial_buf_size, .. } => {
                    if initial_buf_size != st.decode_buf.len() {
                        st.decode_buf.truncate(initial_buf_size);
                    }
                },
                _ => {},
            }
            let tail = crate::text::sub_bytes(bytes, st.var_start_pos - 2, pos + 1);
            crate::text::extend_bytes(&mut st.decode_buf, tail.as_slice());
            st.hex_start = usize::MAX;
            st.state = StrState::Idle;
        }
        st.last_ch = ch;
        Ok(())
    }

    /// The end of the string: what is left is added, and the items make
    /// the value.
    fn scan_finish(&mut self, st: StrScan, bytes: &[u8], parse_decoded: bool) -> (r: Result<Value, ErrorType>)
        requires
            scan_inv(scan_model(old(self)@, st), bytes@, bytes@.len() as int),
        ensures
            match str_finish(scan_model(old(self)@, st), bytes@, flush_for(parse_decoded)) {
                Ok((cs, v)) => final(self)@ == cs && (r matches Ok(x) && x@ == v),
                Err((cs, e)) => final(self)@ == cs && (r matches Err(x) && x@ == e),
            },
        decreases (if parse_decoded {
            1int
        } else {
            0int
        }), 2int,
    {
        let mut st = st;
        match st.state {
            StrState::Idle => {},
            StrState::Variable => {
                let tail = crate::text::sub_bytes(bytes, st.var_start_pos - 2, bytes.len());
                crate::text::extend_bytes(&mut st.decode_buf, tail.as_slice());
            },
            StrState::Encoded { initial_buf_size, .. } => {
                if initial_buf_size != st.decode_buf.len() {
                    st.decode_buf.truncate(initial_buf_size);
                }
                let tail = crate::text::sub_bytes(bytes, st.var_start_pos - 2, bytes.len());
                crate::text::extend_bytes(&mut st.decode_buf, tail.as_slice());
            },
        }
        if st.decode_buf.len() > 0 {
            let hd = st.text_has_digits;
            let hdots = st.text_has_dots;
            let mut buf: Vec<u8> = Vec::new();
            std::mem::swap(&mut buf, &mut st.decode_buf);
            match self.add_value(&mut st.items, buf.as_slice(), parse_decoded, hd, hdots) {
                Ok(()) => {},
                Err(e) => {
                    return Err(e);
                },
            }
        }
        let n = st.items.len();
        if n == 1 {
            let v = st.items.pop().unwrap();
            Ok(v)
        } else if n == 0 {
            let t = String::new();
            Ok(Value::Text(t))
        } else {
            proof {
                crate::compiler::lemma_list_view(st.items);
            }
            Ok(Value::List(st.items))
        }
    }
}

} // verus!
