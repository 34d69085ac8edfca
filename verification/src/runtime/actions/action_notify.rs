//! Notification methods (RFC 5435): checking a `from` address, splitting a
//! URI into scheme and rest, and reading a `mailto:` URI (RFC 6068).

use crate::header::{HeaderName, parse_header_name, header_name_parse, is_header_name, OTHER_HEADER_ID};
use crate::text::{is_alnum, is_alnum_exec, is_ws, is_ws_exec, hex_val, hex_value, eq_ignore_case, bytes_eq_ignore_case, bytes_eq, string_from_utf8, lower, lower_exec, lower_seq};
use crate::Importance;
use crate::compiler::grammar::{ByTime, Notify, Ret};
use crate::runtime::disposition::Disposition;
use crate::runtime::handler::{Action, MessageSource, Recipient};
use crate::runtime::queue::ActionQueue;
use crate::runtime::platform::{rfc822_date, rfc822_date_of, write_message_id, is_message_id};
use vstd::prelude::*;
use vstd::utf8::*;
use vstd::string::StringSliceAdditionalSpecFns;

verus! {

broadcast use vstd::utf8::is_char_boundary_iff_not_is_continuation_byte;

pub const QUOTE: u8 = 34;
pub const BACKSLASH: u8 = 92;
pub const LT: u8 = 60;
pub const GT: u8 = 62;
pub const AT: u8 = 64;
pub const DOT: u8 = 46;
pub const COLON: u8 = 58;
pub const PERCENT: u8 = 37;
pub const COMMA: u8 = 44;
pub const QUESTION: u8 = 63;
pub const EQUALS: u8 = 61;
pub const AMPERSAND: u8 = 38;
pub const DASH: u8 = 45;
pub const UNDERSCORE: u8 = 95;

/// What the scan of a `from` address has seen so far.
pub struct FromScan {
    pub has_at: bool,
    pub has_dot: bool,
    pub in_quote: bool,
    pub in_angle: bool,
    pub last: u8,
}

/// One byte of the scan of a `from` address; nothing once the address is
/// known to be invalid.
pub open spec fn from_step(st: FromScan, ch: u8) -> Option<FromScan> {
    let next = if ch == QUOTE && st.last != BACKSLASH {
        Some(FromScan { in_quote: !st.in_quote, ..st })
    } else if ch == LT && !st.in_quote {
        if !st.in_angle {
            Some(FromScan { in_angle: true, has_at: false, has_dot: false, ..st })
        } else {
            None
        }
    } else if ch == GT && !st.in_quote {
        if st.in_angle {
            Some(FromScan { in_angle: false, ..st })
        } else {
            None
        }
    } else if ch == AT && !st.in_quote {
        if !st.has_at && is_alnum(st.last) {
            Some(FromScan { has_at: true, ..st })
        } else {
            None
        }
    } else if ch == DOT && !st.in_quote && st.has_at {
        Some(FromScan { has_dot: true, ..st })
    } else {
        Some(st)
    };
    match next {
        Some(n) => Some(FromScan { last: ch, ..n }),
        None => None,
    }
}

/// The scan of the bytes `s` of a `from` address.
pub open spec fn from_scan(s: Seq<u8>) -> Option<FromScan>
    decreases s.len(),
{
    if s.len() == 0 {
        Some(FromScan { has_at: false, has_dot: false, in_quote: false, in_angle: false, last: 0 })
    } else {
        match from_scan(s.drop_last()) {
            Some(st) => from_step(st, s.last()),
            None => None,
        }
    }
}

/// A `from` address is valid when its scan went through and found an `@`
/// (outside quotes, after a letter or digit), a dot after it, and every `<`
/// closed.
pub open spec fn valid_from(s: Seq<u8>) -> bool {
    match from_scan(s) {
        Some(st) => st.has_dot && st.has_at && !st.in_angle,
        None => false,
    }
}

/// The scan of `s` continued from `st`.
pub open spec fn scan_from(st: Option<FromScan>, s: Seq<u8>) -> Option<FromScan>
    decreases s.len(),
{
    if s.len() == 0 {
        st
    } else {
        match scan_from(st, s.drop_last()) {
            Some(x) => from_step(x, s.last()),
            None => None,
        }
    }
}

proof fn lemma_scan_concat(p: Seq<u8>, s: Seq<u8>)
    ensures
        from_scan(p + s) == scan_from(from_scan(p), s),
    decreases s.len(),
{
    if s.len() == 0 {
        assert(p + s =~= p);
    } else {
        assert((p + s).drop_last() =~= p + s.drop_last());
        assert((p + s).last() == s.last());
        lemma_scan_concat(p, s.drop_last());
    }
}

/// Bytes that none of `"`, `<` and `>` is.
pub open spec fn plain_bytes(s: Seq<u8>) -> bool {
    forall|k: int| 0 <= k < s.len() ==> #[trigger] s[k] != QUOTE && s[k] != LT && s[k] != GT
}

/// Two scans that agree but for `in_angle` and a previous byte that
/// neither an `@` nor a `"` cares about.
pub open spec fn scans_agree(x: FromScan, y: FromScan) -> bool {
    &&& x.has_at == y.has_at
    &&& x.has_dot == y.has_dot
    &&& !x.in_quote && !y.in_quote
    &&& (x.last == y.last || (!is_alnum(x.last) && !is_alnum(y.last) && x.last != BACKSLASH && y.last
        != BACKSLASH))
}

proof fn lemma_scan_agree(x: FromScan, y: FromScan, s: Seq<u8>)
    requires
        scans_agree(x, y),
        plain_bytes(s),
    ensures
        match (scan_from(Some(x), s), scan_from(Some(y), s)) {
            (Some(a), Some(b)) => scans_agree(a, b) && a.in_angle == x.in_angle && b.in_angle == y.in_angle,
            (None, None) => true,
            _ => false,
        },
    decreases s.len(),
{
    if s.len() > 0 {
        assert(plain_bytes(s.drop_last()));
        lemma_scan_agree(x, y, s.drop_last());
        assert(s.last() == s[s.len() - 1]);
    }
}

proof fn lemma_plain_name(n: Seq<u8>)
    requires
        plain_bytes(n),
        forall|k: int| 0 <= k < n.len() ==> #[trigger] n[k] != AT,
    ensures
        from_scan(n) matches Some(st) && !st.has_at && !st.has_dot && !st.in_quote && !st.in_angle,
    decreases n.len(),
{
    if n.len() > 0 {
        lemma_plain_name(n.drop_last());
        assert(n.last() == n[n.len() - 1]);
    }
}

/// Wrapping an address in a display name and angle brackets, as in
/// `Name <a@b.c>`, does not change whether it is a valid `from` address,
/// when neither holds `"`, `<` or `>` and the name holds no `@`.
pub proof fn lemma_from_display_name(name: Seq<u8>, addr: Seq<u8>)
    requires
        plain_bytes(name),
        forall|k: int| 0 <= k < name.len() ==> #[trigger] name[k] != AT,
        plain_bytes(addr),
    ensures
        valid_from(name + seq![32u8, LT] + addr + seq![GT]) == valid_from(addr),
{
    lemma_plain_name(name);
    let pre = name + seq![32u8, LT];
    lemma_scan_concat(name, seq![32u8, LT]);
    assert(seq![32u8, LT].drop_last() =~= seq![32u8]);
    assert(seq![32u8].drop_last() =~= Seq::<u8>::empty());
    let st0 = from_scan(name).unwrap();
    assert(scan_from(Some(st0), Seq::<u8>::empty()) == Some(st0));
    let st1 = FromScan { last: 32u8, ..st0 };
    assert(from_step(st0, 32u8) == Some(st1));
    assert(scan_from(Some(st0), seq![32u8]) == Some(st1));
    let x = FromScan { in_angle: true, has_at: false, has_dot: false, last: LT, ..st1 };
    assert(from_step(st1, LT) == Some(x));
    assert(scan_from(Some(st0), seq![32u8, LT]) == Some(x));
    assert(from_scan(pre) == Some(x));
    let start = FromScan { has_at: false, has_dot: false, in_quote: false, in_angle: false, last: 0 };
    assert(from_scan(Seq::<u8>::empty()) == Some(start));
    lemma_scan_concat(Seq::<u8>::empty(), addr);
    assert(Seq::<u8>::empty() + addr =~= addr);
    lemma_scan_agree(x, start, addr);
    lemma_scan_concat(pre, addr);
    lemma_scan_concat(pre + addr, seq![GT]);
    assert(seq![GT].drop_last() =~= Seq::<u8>::empty());
    assert(pre + addr + seq![GT] =~= name + seq![32u8, LT] + addr + seq![GT]);
    assert(from_scan(addr) == scan_from(Some(start), addr));
    assert(from_scan(pre + addr) == scan_from(Some(x), addr));
    match scan_from(Some(x), addr) {
        Some(a) => {
            let b = scan_from(Some(start), addr).unwrap();
            assert(scan_from(Some(a), Seq::<u8>::empty()) == Some(a));
            assert(from_scan(pre + addr + seq![GT]) == from_step(a, GT));
            assert(from_step(a, GT) == Some(FromScan { in_angle: false, last: GT, ..a }));
            assert(valid_from(addr) == (b.has_dot && b.has_at && !b.in_angle));
        },
        None => {
            assert(scan_from(None, seq![GT]) == match scan_from(None, Seq::<u8>::empty()) {
                Some(q) => from_step(q, GT),
                None => None,
            });
            assert(from_scan(pre + addr + seq![GT]) is None);
        },
    }
}

/// Once the scan fails on a prefix it fails on the whole address.
proof fn lemma_from_scan_fails_on_extension(s: Seq<u8>, j: int)
    requires
        0 <= j <= s.len(),
        from_scan(s.take(j)) is None,
    ensures
        from_scan(s) is None,
    decreases s.len(),
{
    if j < s.len() {
        assert(s.drop_last().take(j) =~= s.take(j));
        lemma_from_scan_fails_on_extension(s.drop_last(), j);
    } else {
        assert(s.take(j) =~= s);
    }
}

/// Checks the `:from` address of a notification.
pub fn validate_from(addr: &str) -> (r: bool)
    ensures
        r == valid_from(addr.spec_bytes()),
{
    let bytes = addr.as_bytes();
    let mut has_at = false;
    let mut has_dot = false;
    let mut in_quote = false;
    let mut in_angle = false;
    let mut last_ch: u8 = 0;
    let mut i: usize = 0;
    while i < bytes.len()
        invariant
            i <= bytes@.len(),
            bytes@ == addr.spec_bytes(),
            from_scan(bytes@.take(i as int)) == Some(
                FromScan { has_at, has_dot, in_quote, in_angle, last: last_ch },
            ),
        decreases bytes@.len() - i,
    {
        let ch = bytes[i];
        assert(bytes@.take(i + 1).drop_last() =~= bytes@.take(i as int));
        assert(bytes@.take(i + 1).last() == ch);
        let ghost prev = FromScan { has_at, has_dot, in_quote, in_angle, last: last_ch };
        assert(from_scan(bytes@.take(i + 1)) == from_step(prev, ch));
        if ch == QUOTE && last_ch != BACKSLASH {
            in_quote = !in_quote;
        } else if ch == LT && !in_quote {
            if !in_angle {
                in_angle = true;
                has_at = false;
                has_dot = false;
            } else {
                proof { lemma_from_scan_fails_on_extension(bytes@, i + 1); }
                return false;
            }
        } else if ch == GT && !in_quote {
            if in_angle {
                in_angle = false;
            } else {
                proof { lemma_from_scan_fails_on_extension(bytes@, i + 1); }
                return false;
            }
        } else if ch == AT && !in_quote {
            if !has_at && is_alnum_exec(last_ch) {
                has_at = true;
            } else {
                proof { lemma_from_scan_fails_on_extension(bytes@, i + 1); }
                return false;
            }
        } else if ch == DOT && !in_quote && has_at {
            has_dot = true;
        }
        last_ch = ch;
        i += 1;
    }
    assert(bytes@.take(bytes@.len() as int) =~= bytes@);
    has_dot && has_at && !in_angle
}

/// `s` has a `:` at `k` and none before it.
pub open spec fn is_first_colon(s: Seq<u8>, k: int) -> bool {
    0 <= k < s.len() && s[k] == COLON && forall|j: int| 0 <= j < k ==> s[j] != COLON
}

/// A URI split at its first `:` into a scheme and a rest that is not empty.
pub open spec fn uri_parts(s: Seq<u8>) -> Option<(Seq<u8>, Seq<u8>)> {
    if exists|k: int| is_first_colon(s, k) {
        let k = choose|k: int| is_first_colon(s, k);
        if k + 1 < s.len() {
            Some((s.subrange(0, k), s.subrange(k + 1, s.len() as int)))
        } else {
            None
        }
    } else {
        None
    }
}

proof fn lemma_first_colon_unique(s: Seq<u8>, k: int, m: int)
    requires
        is_first_colon(s, k),
        is_first_colon(s, m),
    ensures
        k == m,
{
    if k < m {
        assert(s[k] != COLON);
    } else if m < k {
        assert(s[m] != COLON);
    }
}

/// Splits a notification URI into its scheme and the rest, at the first `:`;
/// nothing when there is no `:` or nothing follows it.
pub fn parse_uri(uri: &str) -> (r: Option<(&str, &str)>)
    ensures
        match r {
            Some((scheme, rest)) => uri_parts(uri.spec_bytes()) == Some(
                (scheme.spec_bytes(), rest.spec_bytes()),
            ),
            None => uri_parts(uri.spec_bytes()) is None,
        },
{
    let bytes = uri.as_bytes();
    let mut k: usize = 0;
    while k < bytes.len() && bytes[k] != COLON
        invariant
            k <= bytes@.len(),
            forall|j: int| 0 <= j < k ==> bytes@[j] != COLON,
        decreases bytes@.len() - k,
    {
        k += 1;
    }
    if k == bytes.len() {
        assert(!exists|m: int| is_first_colon(bytes@, m));
        return None;
    }
    assert(is_first_colon(bytes@, k as int));
    proof {
        let m = choose|m: int| is_first_colon(bytes@, m);
        lemma_first_colon_unique(bytes@, k as int, m);
    }
    if k + 1 >= bytes.len() {
        return None;
    }
    proof {
        encode_utf8_valid_utf8(uri@);
        is_char_boundary_iff_not_is_continuation_byte(bytes@, k as int);
    }
    let (scheme, tail) = uri.split_at(k);
    proof {
        encode_utf8_valid_utf8(tail@);
        reveal_with_fuel(is_char_boundary, 2);
        assert(tail.spec_bytes()[0] == COLON);
        assert(is_char_boundary(tail.spec_bytes(), 1));
    }
    let (_colon, rest) = tail.split_at(1);
    assert(rest.spec_bytes() =~= bytes@.subrange(k + 1, bytes@.len() as int));
    Some((scheme, rest))
}

} // verus!

verus! {

/// A header name as seen in contracts: its number and its spelling.
pub type HeaderView = (u8, Seq<char>);

/// Number of the `To` header.
pub const TO_HEADER_ID: u8 = 2;
/// Number of the `Cc` header.
pub const CC_HEADER_ID: u8 = 3;
/// Number of the `Bcc` header.
pub const BCC_HEADER_ID: u8 = 5;

/// What a `mailto:` parameter value is for.
pub enum Mailto {
    Header(HeaderName),
    Body,
    Other(String),
}

/// The parameter kinds of a `mailto:` URI, as seen in contracts.
pub enum MailtoParam {
    Header(HeaderView),
    Body,
    Other(Seq<char>),
}

impl View for Mailto {
    type V = MailtoParam;

    open spec fn view(&self) -> MailtoParam {
        match self {
            Mailto::Header(h) => MailtoParam::Header(h@),
            Mailto::Body => MailtoParam::Body,
            Mailto::Other(s) => MailtoParam::Other(s@),
        }
    }
}

/// Where the reader of a `mailto:` URI is.
pub enum MailtoState {
    /// Reading addresses for a header; whether the current one has its `@`.
    Address(HeaderName, bool),
    ParamName,
    ParamValue(Mailto),
}

/// The reader positions, as seen in contracts.
pub enum MailtoPos {
    Address(HeaderView, bool),
    ParamName,
    ParamValue(MailtoParam),
}

impl View for MailtoState {
    type V = MailtoPos;

    open spec fn view(&self) -> MailtoPos {
        match self {
            MailtoState::Address(h, a) => MailtoPos::Address(h@, *a),
            MailtoState::ParamName => MailtoPos::ParamName,
            MailtoState::ParamValue(p) => MailtoPos::ParamValue(p@),
        }
    }
}

/// The message that a `mailto:` URI describes.
pub struct MailtoMessage {
    pub to: Vec<String>,
    pub cc: Vec<String>,
    pub bcc: Vec<String>,
    pub body: Option<String>,
    pub headers: Vec<(HeaderName, String)>,
}

/// A `mailto:` message as seen in contracts.
#[verifier::ext_equal]
pub struct MailtoSpec {
    pub to: Seq<Seq<char>>,
    pub cc: Seq<Seq<char>>,
    pub bcc: Seq<Seq<char>>,
    pub body: Option<Seq<char>>,
    pub headers: Seq<(HeaderView, Seq<char>)>,
}

pub open spec fn strings_view(v: Seq<String>) -> Seq<Seq<char>> {
    v.map_values(|s: String| s@)
}

pub open spec fn opt_string_view(o: Option<String>) -> Option<Seq<char>> {
    match o {
        Some(s) => Some(s@),
        None => None,
    }
}

pub open spec fn headers_view(v: Seq<(HeaderName, String)>) -> Seq<(HeaderView, Seq<char>)> {
    v.map_values(|p: (HeaderName, String)| (p.0@, p.1@))
}

impl View for MailtoMessage {
    type V = MailtoSpec;

    open spec fn view(&self) -> MailtoSpec {
        MailtoSpec {
            to: strings_view(self.to@),
            cc: strings_view(self.cc@),
            bcc: strings_view(self.bcc@),
            body: opt_string_view(self.body),
            headers: headers_view(self.headers@),
        }
    }
}

/// The message with no address, body or header.
pub open spec fn empty_mailto() -> MailtoSpec {
    MailtoSpec { to: seq![], cc: seq![], bcc: seq![], body: None, headers: seq![] }
}

/// `list` holds `v` up to ASCII case.
pub open spec fn holds_ignore_case(list: Seq<Seq<char>>, v: Seq<char>) -> bool {
    exists|i: int| 0 <= i < list.len() && eq_ignore_case(encode_utf8(list[i]), encode_utf8(v))
}

/// An address joins the list of its header (`To`, `Cc` or `Bcc`) unless one
/// of the three lists already holds it, up to ASCII case.
pub open spec fn insert_address_spec(m: MailtoSpec, name: HeaderView, v: Seq<char>) -> MailtoSpec {
    if holds_ignore_case(m.to, v) || holds_ignore_case(m.cc, v) || holds_ignore_case(m.bcc, v) {
        m
    } else if name.0 == TO_HEADER_ID {
        MailtoSpec { to: m.to.push(v), ..m }
    } else if name.0 == CC_HEADER_ID {
        MailtoSpec { cc: m.cc.push(v), ..m }
    } else if name.0 == BCC_HEADER_ID {
        MailtoSpec { bcc: m.bcc.push(v), ..m }
    } else {
        m
    }
}

/// The addresses of the three lists: `To`, then `Cc`, then `Bcc`.
pub open spec fn all_addresses(m: MailtoSpec) -> Seq<Seq<char>> {
    m.to + m.cc + m.bcc
}

/// No address is listed twice, up to ASCII case, across the three lists.
pub open spec fn addresses_distinct(m: MailtoSpec) -> bool {
    forall|i: int, j: int|
        0 <= i < all_addresses(m).len() && 0 <= j < all_addresses(m).len() && i != j ==> !eq_ignore_case(
            encode_utf8(#[trigger] all_addresses(m)[i]),
            encode_utf8(#[trigger] all_addresses(m)[j]),
        )
}

proof fn lemma_eq_ignore_case_symmetric(a: Seq<u8>, b: Seq<u8>)
    ensures
        eq_ignore_case(a, b) == eq_ignore_case(b, a),
{
}

/// An address that none of the lists holds, added to one of them, keeps
/// the addresses distinct.
proof fn lemma_push_distinct(m: MailtoSpec, which: int, v: Seq<char>)
    requires
        addresses_distinct(m),
        0 <= which < 3,
        !holds_ignore_case(m.to, v),
        !holds_ignore_case(m.cc, v),
        !holds_ignore_case(m.bcc, v),
    ensures
        addresses_distinct(
            if which == 0 {
                MailtoSpec { to: m.to.push(v), ..m }
            } else if which == 1 {
                MailtoSpec { cc: m.cc.push(v), ..m }
            } else {
                MailtoSpec { bcc: m.bcc.push(v), ..m }
            },
        ),
{
    let n = if which == 0 {
        MailtoSpec { to: m.to.push(v), ..m }
    } else if which == 1 {
        MailtoSpec { cc: m.cc.push(v), ..m }
    } else {
        MailtoSpec { bcc: m.bcc.push(v), ..m }
    };
    let a = all_addresses(m);
    let b = all_addresses(n);
    let p = if which == 0 {
        m.to.len() as int
    } else if which == 1 {
        (m.to.len() + m.cc.len()) as int
    } else {
        a.len() as int
    };
    assert(b.len() == a.len() + 1);
    assert forall|k: int| 0 <= k < b.len() implies (if k < p {
        b[k] == a[k]
    } else if k == p {
        b[k] == v
    } else {
        b[k] == a[k - 1]
    }) by {
        if which == 0 {
            assert(b == m.to.push(v) + m.cc + m.bcc);
        } else if which == 1 {
            assert(b == m.to + m.cc.push(v) + m.bcc);
        } else {
            assert(b == m.to + m.cc + m.bcc.push(v));
        }
    }
    assert forall|k: int| 0 <= k < a.len() implies !eq_ignore_case(encode_utf8(a[k]), encode_utf8(v)) by {
        if k < m.to.len() {
            assert(a[k] == m.to[k]);
        } else if k < m.to.len() + m.cc.len() {
            assert(a[k] == m.cc[k - m.to.len()]);
        } else {
            assert(a[k] == m.bcc[k - m.to.len() - m.cc.len()]);
        }
    }
    assert forall|i: int, j: int|
        0 <= i < b.len() && 0 <= j < b.len() && i != j implies !eq_ignore_case(
        encode_utf8(#[trigger] b[i]),
        encode_utf8(#[trigger] b[j]),
    ) by {
        let ia = if i < p { i } else { i - 1 };
        let ja = if j < p { j } else { j - 1 };
        if i == p {
            lemma_eq_ignore_case_symmetric(encode_utf8(b[i]), encode_utf8(b[j]));
            assert(b[j] == a[ja]);
        } else if j == p {
            assert(b[i] == a[ia]);
        } else {
            assert(b[i] == a[ia] && b[j] == a[ja]);
            assert(ia != ja);
        }
    }
}

/// Adding an address keeps the addresses distinct.
pub proof fn lemma_insert_address_distinct(m: MailtoSpec, name: HeaderView, v: Seq<char>)
    requires
        addresses_distinct(m),
    ensures
        addresses_distinct(insert_address_spec(m, name, v)),
{
    if !(holds_ignore_case(m.to, v) || holds_ignore_case(m.cc, v) || holds_ignore_case(m.bcc, v)) {
        if name.0 == TO_HEADER_ID {
            lemma_push_distinct(m, 0, v);
        } else if name.0 == CC_HEADER_ID {
            lemma_push_distinct(m, 1, v);
        } else if name.0 == BCC_HEADER_ID {
            lemma_push_distinct(m, 2, v);
        }
    }
}

/// Everything the reader of a `mailto:` URI keeps.
#[verifier::ext_equal]
pub struct MailtoRun {
    pub pos: MailtoPos,
    pub buf: Seq<u8>,
    pub has_addresses: bool,
    pub msg: MailtoSpec,
}

/// The reader before the first byte.
pub open spec fn mailto_start() -> MailtoRun {
    MailtoRun {
        pos: MailtoPos::Address((TO_HEADER_ID, seq!['T', 'o']), false),
        buf: seq![],
        has_addresses: false,
        msg: empty_mailto(),
    }
}

/// `body`.
pub open spec fn body_word() -> Seq<u8> {
    seq![98u8, 111, 100, 121]
}

/// The name that a header-name string converts to: the parsed name, or an
/// unknown empty name when it does not parse.
pub open spec fn header_from_string(s: Seq<char>) -> HeaderView {
    if is_header_name(s) {
        header_name_parse(s)
    } else {
        (OTHER_HEADER_ID, seq![])
    }
}

/// Where a parameter named `p` leads.
pub open spec fn param_pos(p: Seq<char>) -> MailtoPos {
    if is_header_name(p) {
        let h = header_name_parse(p);
        if h.0 == TO_HEADER_ID || h.0 == CC_HEADER_ID || h.0 == BCC_HEADER_ID {
            MailtoPos::Address(h, false)
        } else if h.0 == OTHER_HEADER_ID {
            if eq_ignore_case(encode_utf8(h.1), body_word()) {
                MailtoPos::ParamValue(MailtoParam::Body)
            } else {
                MailtoPos::ParamValue(MailtoParam::Other(h.1))
            }
        } else {
            MailtoPos::ParamValue(MailtoParam::Header(h))
        }
    } else {
        MailtoPos::ParamValue(MailtoParam::Other(seq![]))
    }
}

/// The message once the value `v` of the parameter `p` is stored.
pub open spec fn store_param(m: MailtoSpec, p: MailtoParam, v: Seq<char>) -> MailtoSpec {
    match p {
        MailtoParam::Header(h) => MailtoSpec { headers: m.headers.push((h, v)), ..m },
        MailtoParam::Body => MailtoSpec { body: Some(v), ..m },
        MailtoParam::Other(n) => MailtoSpec { headers: m.headers.push((header_from_string(n), v)), ..m },
    }
}

pub open spec fn push_byte(r: MailtoRun, c: u8) -> MailtoRun {
    MailtoRun { buf: r.buf.push(c), ..r }
}

/// One decoded (`%XX`) byte `c`.
pub open spec fn mailto_decoded(r: MailtoRun, c: u8) -> Option<MailtoRun> {
    match r.pos {
        MailtoPos::Address(h, has_at) => if c == COMMA {
            if has_at && valid_utf8(r.buf) {
                Some(
                    MailtoRun {
                        pos: MailtoPos::Address(h, false),
                        buf: seq![],
                        has_addresses: true,
                        msg: insert_address_spec(r.msg, h, decode_utf8(r.buf)),
                    },
                )
            } else {
                None
            }
        } else if c == AT {
            if !has_at {
                Some(MailtoRun { pos: MailtoPos::Address(h, true), buf: r.buf.push(c), ..r })
            } else {
                None
            }
        } else {
            Some(push_byte(r, c))
        },
        _ => Some(push_byte(r, c)),
    }
}

/// One step of the reader on the bytes `s` that are left: the new reader and
/// the number of bytes read, or nothing when the URI is invalid.
pub open spec fn mailto_step(r: MailtoRun, s: Seq<u8>) -> Option<(MailtoRun, int)>
    recommends
        s.len() > 0,
{
    let ch = s[0];
    if ch == PERCENT {
        if s.len() < 3 || hex_val(s[1]) < 0 || hex_val(s[2]) < 0 {
            None
        } else {
            match mailto_decoded(r, (hex_val(s[1]) * 16 + hex_val(s[2])) as u8) {
                Some(n) => Some((n, 3)),
                None => None,
            }
        }
    } else if ch == COMMA {
        match r.pos {
            MailtoPos::Address(h, true) => if valid_utf8(r.buf) {
                Some(
                    (
                        MailtoRun {
                            pos: MailtoPos::Address(h, false),
                            buf: seq![],
                            has_addresses: true,
                            msg: insert_address_spec(r.msg, h, decode_utf8(r.buf)),
                        },
                        1,
                    ),
                )
            } else {
                None
            },
            MailtoPos::ParamValue(_) => Some((push_byte(r, ch), 1)),
            _ => None,
        }
    } else if ch == QUESTION {
        match r.pos {
            MailtoPos::Address(h, has_at) => if has_at || r.buf.len() == 0 {
                if r.buf.len() != 0 {
                    if valid_utf8(r.buf) {
                        Some(
                            (
                                MailtoRun {
                                    pos: MailtoPos::ParamName,
                                    buf: seq![],
                                    has_addresses: true,
                                    msg: insert_address_spec(r.msg, h, decode_utf8(r.buf)),
                                },
                                1,
                            ),
                        )
                    } else {
                        None
                    }
                } else {
                    Some((MailtoRun { pos: MailtoPos::ParamName, ..r }, 1))
                }
            } else {
                None
            },
            MailtoPos::ParamValue(_) => Some((push_byte(r, ch), 1)),
            _ => None,
        }
    } else if ch == AT {
        match r.pos {
            MailtoPos::Address(h, false) => if r.buf.len() != 0 {
                Some((MailtoRun { pos: MailtoPos::Address(h, true), buf: r.buf.push(ch), ..r }, 1))
            } else {
                None
            },
            MailtoPos::ParamName => Some((push_byte(r, ch), 1)),
            MailtoPos::ParamValue(_) => Some((push_byte(r, ch), 1)),
            _ => None,
        }
    } else if ch == EQUALS {
        match r.pos {
            MailtoPos::ParamName => if r.buf.len() != 0 && valid_utf8(r.buf) {
                Some((MailtoRun { pos: param_pos(decode_utf8(r.buf)), buf: seq![], ..r }, 1))
            } else {
                None
            },
            MailtoPos::ParamValue(_) => Some((push_byte(r, ch), 1)),
            _ => None,
        }
    } else if ch == AMPERSAND {
        match r.pos {
            MailtoPos::Address(h, true) => if r.buf.len() != 0 {
                if valid_utf8(r.buf) {
                    Some(
                        (
                            MailtoRun {
                                pos: MailtoPos::ParamName,
                                buf: seq![],
                                msg: insert_address_spec(r.msg, h, decode_utf8(r.buf)),
                                ..r
                            },
                            1,
                        ),
                    )
                } else {
                    None
                }
            } else {
                Some((MailtoRun { pos: MailtoPos::ParamName, ..r }, 1))
            },
            MailtoPos::ParamValue(p) => if r.buf.len() != 0 {
                if valid_utf8(r.buf) {
                    Some(
                        (
                            MailtoRun {
                                pos: MailtoPos::ParamName,
                                buf: seq![],
                                msg: store_param(r.msg, p, decode_utf8(r.buf)),
                                ..r
                            },
                            1,
                        ),
                    )
                } else {
                    None
                }
            } else {
                Some((MailtoRun { pos: MailtoPos::ParamName, ..r }, 1))
            },
            _ => None,
        }
    } else {
        match r.pos {
            MailtoPos::ParamName => if is_alnum(ch) || ch == DASH || ch == UNDERSCORE {
                Some((push_byte(r, ch), 1))
            } else {
                None
            },
            _ => if !is_ws(ch) {
                Some((push_byte(r, ch), 1))
            } else {
                Some((r, 1))
            },
        }
    }
}

/// The reader after all of `s`, or nothing when the URI is invalid.
pub open spec fn mailto_run(r: MailtoRun, s: Seq<u8>) -> Option<MailtoRun>
    decreases s.len(),
{
    if s.len() == 0 {
        Some(r)
    } else {
        match mailto_step(r, s) {
            Some((n, k)) => if 0 < k <= s.len() {
                mailto_run(n, s.subrange(k, s.len() as int))
            } else {
                None
            },
            None => None,
        }
    }
}

/// What is left in the buffer at the end of the URI.
pub open spec fn mailto_finish(r: MailtoRun) -> Option<MailtoRun> {
    if r.buf.len() == 0 {
        Some(r)
    } else if !valid_utf8(r.buf) {
        None
    } else {
        let v = decode_utf8(r.buf);
        match r.pos {
            MailtoPos::Address(h, true) => Some(
                MailtoRun { has_addresses: true, msg: insert_address_spec(r.msg, h, v), buf: seq![], ..r },
            ),
            MailtoPos::ParamName => Some(
                MailtoRun {
                    msg: MailtoSpec { headers: r.msg.headers.push(((OTHER_HEADER_ID, v), seq![])), ..r.msg },
                    buf: seq![],
                    ..r
                },
            ),
            MailtoPos::ParamValue(p) => Some(
                MailtoRun {
                    msg: match p {
                        MailtoParam::Other(n) => MailtoSpec {
                            headers: r.msg.headers.push(((OTHER_HEADER_ID, n), v)),
                            ..r.msg
                        },
                        _ => store_param(r.msg, p, v),
                    },
                    buf: seq![],
                    ..r
                },
            ),
            _ => None,
        }
    }
}

/// The message that the `mailto:` URI with the bytes `s` (what follows the
/// scheme) describes; nothing when the URI is invalid or names no address.
pub open spec fn mailto_spec(s: Seq<u8>) -> Option<MailtoSpec> {
    match mailto_run(mailto_start(), s) {
        Some(r) => match mailto_finish(r) {
            Some(f) => if f.has_addresses {
                Some(f.msg)
            } else {
                None
            },
            None => None,
        },
        None => None,
    }
}

/// One step of the reader keeps the addresses distinct.
proof fn lemma_step_distinct(r: MailtoRun, s: Seq<u8>)
    requires
        s.len() > 0,
        addresses_distinct(r.msg),
        mailto_step(r, s) is Some,
    ensures
        addresses_distinct(mailto_step(r, s).unwrap().0.msg),
{
    let n = mailto_step(r, s).unwrap().0;
    match r.pos {
        MailtoPos::Address(h, _) => {
            lemma_insert_address_distinct(r.msg, h, decode_utf8(r.buf));
            assert(n.msg == r.msg || n.msg == insert_address_spec(r.msg, h, decode_utf8(r.buf)));
        },
        _ => {
            assert(n.msg.to == r.msg.to && n.msg.cc == r.msg.cc && n.msg.bcc == r.msg.bcc);
            assert(all_addresses(n.msg) == all_addresses(r.msg));
        },
    }
}

/// The whole reader keeps the addresses distinct.
proof fn lemma_run_distinct(r: MailtoRun, s: Seq<u8>)
    requires
        addresses_distinct(r.msg),
        mailto_run(r, s) is Some,
    ensures
        addresses_distinct(mailto_run(r, s).unwrap().msg),
    decreases s.len(),
{
    if s.len() > 0 {
        let (n, k) = mailto_step(r, s).unwrap();
        lemma_step_distinct(r, s);
        lemma_run_distinct(n, s.subrange(k, s.len() as int));
    }
}

/// A `mailto:` URI that reads gives a message that lists no address twice,
/// up to ASCII case, across its `To`, `Cc` and `Bcc` lists.
pub proof fn lemma_mailto_addresses_distinct(s: Seq<u8>)
    requires
        mailto_spec(s) is Some,
    ensures
        addresses_distinct(mailto_spec(s).unwrap()),
{
    assert(all_addresses(empty_mailto()) =~= seq![]);
    lemma_run_distinct(mailto_start(), s);
    let r = mailto_run(mailto_start(), s).unwrap();
    let f = mailto_finish(r).unwrap();
    match r.pos {
        MailtoPos::Address(h, _) => {
            lemma_insert_address_distinct(r.msg, h, decode_utf8(r.buf));
            assert(f.msg == r.msg || f.msg == insert_address_spec(r.msg, h, decode_utf8(r.buf)));
        },
        _ => {
            assert(f.msg.to == r.msg.to && f.msg.cc == r.msg.cc && f.msg.bcc == r.msg.bcc);
            assert(all_addresses(f.msg) == all_addresses(r.msg));
        },
    }
}

/// What the reader keeps for the non-empty law: it only reads addresses
/// for `To`, `Cc` and `Bcc`, and once it took an address some list holds
/// one.
pub open spec fn mailto_keeps_addresses(r: MailtoRun) -> bool {
    &&& r.pos matches MailtoPos::Address(h, _) ==> (h.0 == TO_HEADER_ID || h.0 == CC_HEADER_ID || h.0
        == BCC_HEADER_ID)
    &&& r.has_addresses ==> all_addresses(r.msg).len() > 0
}

proof fn lemma_insert_nonempty(m: MailtoSpec, h: HeaderView, v: Seq<char>)
    requires
        h.0 == TO_HEADER_ID || h.0 == CC_HEADER_ID || h.0 == BCC_HEADER_ID,
    ensures
        all_addresses(insert_address_spec(m, h, v)).len() > 0,
        all_addresses(insert_address_spec(m, h, v)).len() >= all_addresses(m).len(),
{
}

proof fn lemma_step_keeps_addresses(r: MailtoRun, s: Seq<u8>)
    requires
        s.len() > 0,
        mailto_keeps_addresses(r),
        mailto_step(r, s) is Some,
    ensures
        mailto_keeps_addresses(mailto_step(r, s).unwrap().0),
{
    match r.pos {
        MailtoPos::Address(h, _) => {
            lemma_insert_nonempty(r.msg, h, decode_utf8(r.buf));
        },
        MailtoPos::ParamValue(p) => {
            let v = decode_utf8(r.buf);
            assert(all_addresses(store_param(r.msg, p, v)) == all_addresses(r.msg));
        },
        _ => {},
    }
}

proof fn lemma_run_keeps_addresses(r: MailtoRun, s: Seq<u8>)
    requires
        mailto_keeps_addresses(r),
        mailto_run(r, s) is Some,
    ensures
        mailto_keeps_addresses(mailto_run(r, s).unwrap()),
    decreases s.len(),
{
    if s.len() > 0 {
        let (n, k) = mailto_step(r, s).unwrap();
        lemma_step_keeps_addresses(r, s);
        lemma_run_keeps_addresses(n, s.subrange(k, s.len() as int));
    }
}

/// A `mailto:` URI that reads lists at least one address across its `To`,
/// `Cc` and `Bcc` lists.
pub proof fn lemma_mailto_has_recipient(s: Seq<u8>)
    requires
        mailto_spec(s) is Some,
    ensures
        all_addresses(mailto_spec(s).unwrap()).len() > 0,
{
    lemma_run_keeps_addresses(mailto_start(), s);
    let r = mailto_run(mailto_start(), s).unwrap();
    match r.pos {
        MailtoPos::Address(h, _) => {
            lemma_insert_nonempty(r.msg, h, decode_utf8(r.buf));
        },
        MailtoPos::ParamValue(p) => {
            let v = decode_utf8(r.buf);
            assert(all_addresses(store_param(r.msg, p, v)) == all_addresses(r.msg));
        },
        _ => {},
    }
}

} // verus!

verus! {

/// Whether `list` holds `v` up to ASCII case.
fn holds_ignore_case_exec(list: &Vec<String>, v: &String) -> (r: bool)
    ensures
        r == holds_ignore_case(strings_view(list@), v@),
{
    let mut i: usize = 0;
    while i < list.len()
        invariant
            i <= list@.len(),
            forall|j: int|
                0 <= j < i ==> !eq_ignore_case(encode_utf8(#[trigger] list@[j]@), encode_utf8(v@)),
        decreases list@.len() - i,
    {
        if bytes_eq_ignore_case(list[i].as_str().as_bytes(), v.as_str().as_bytes()) {
            assert(strings_view(list@)[i as int] == list@[i as int]@);
            return true;
        }
        i += 1;
    }
    proof {
        if holds_ignore_case(strings_view(list@), v@) {
            let j = choose|j: int|
                0 <= j < strings_view(list@).len() && eq_ignore_case(
                    encode_utf8(strings_view(list@)[j]),
                    encode_utf8(v@),
                );
            assert(strings_view(list@)[j] == list@[j]@);
        }
    }
    false
}

/// Adds an address to the list of its header unless it is already there.
pub fn insert_address(params: &mut MailtoMessage, name: &HeaderName, value: String)
    ensures
        final(params)@ == insert_address_spec(old(params)@, name@, value@),
{
    if holds_ignore_case_exec(&params.to, &value) || holds_ignore_case_exec(&params.cc, &value)
        || holds_ignore_case_exec(&params.bcc, &value) {
        return ;
    }
    let ghost v = value@;
    if name.id == TO_HEADER_ID {
        params.to.push(value);
        assert(strings_view(params.to@) =~= strings_view(old(params).to@).push(v));
    } else if name.id == CC_HEADER_ID {
        params.cc.push(value);
        assert(strings_view(params.cc@) =~= strings_view(old(params).cc@).push(v));
    } else if name.id == BCC_HEADER_ID {
        params.bcc.push(value);
        assert(strings_view(params.bcc@) =~= strings_view(old(params).bcc@).push(v));
    }
}

} // verus!

verus! {

/// The state a parameter named `p` leads to.
fn param_state(p: String) -> (r: MailtoState)
    ensures
        r@ == param_pos(p@),
{
    match parse_header_name(p.as_str()) {
        Some(h) => {
            if h.id == TO_HEADER_ID || h.id == CC_HEADER_ID || h.id == BCC_HEADER_ID {
                MailtoState::Address(h, false)
            } else if h.id == OTHER_HEADER_ID {
                let body: [u8; 4] = [98, 111, 100, 121];
                if bytes_eq_ignore_case(h.name.as_str().as_bytes(), &body) {
                    MailtoState::ParamValue(Mailto::Body)
                } else {
                    MailtoState::ParamValue(Mailto::Other(h.name))
                }
            } else {
                MailtoState::ParamValue(Mailto::Header(h))
            }
        },
        None => MailtoState::ParamValue(Mailto::Other(String::new())),
    }
}

/// Stores the value of a parameter.
fn store_param_exec(params: &mut MailtoMessage, p: Mailto, v: String)
    ensures
        final(params)@ == store_param(old(params)@, p@, v@),
{
    let ghost vv = v@;
    match p {
        Mailto::Header(h) => {
            let ghost hv = h@;
            params.headers.push((h, v));
            assert(headers_view(params.headers@) =~= headers_view(old(params).headers@).push(
                (hv, vv),
            ));
        },
        Mailto::Body => {
            params.body = Some(v);
        },
        Mailto::Other(n) => {
            let h = match parse_header_name(n.as_str()) {
                Some(h) => h,
                None => HeaderName::other(String::new()),
            };
            let ghost hv = h@;
            params.headers.push((h, v));
            assert(headers_view(params.headers@) =~= headers_view(old(params).headers@).push(
                (hv, vv),
            ));
        },
    }
}

proof fn lemma_run_step(r: MailtoRun, s: Seq<u8>, n: MailtoRun, k: int)
    requires
        s.len() > 0,
        mailto_step(r, s) == Some((n, k)),
        0 < k <= s.len(),
    ensures
        mailto_run(r, s) == mailto_run(n, s.subrange(k, s.len() as int)),
{
}

proof fn lemma_run_fails(r: MailtoRun, s: Seq<u8>)
    requires
        s.len() > 0,
        mailto_step(r, s) is None,
    ensures
        mailto_run(r, s) is None,
{
}

/// Reads the part of a `mailto:` URI after the scheme: the addresses of its
/// `To`, `Cc` and `Bcc` lists (each address once, up to case), its body and
/// its other headers; `%XX` escapes are decoded. Nothing when the URI is not
/// valid or names no address.
pub fn parse_mailto(uri: &str) -> (r: Option<MailtoMessage>)
    ensures
        match r {
            Some(m) => mailto_spec(uri.spec_bytes()) == Some(m@),
            None => mailto_spec(uri.spec_bytes()) is None,
        },
{
    let bytes = uri.as_bytes();
    let mut params = MailtoMessage {
        to: Vec::new(),
        cc: Vec::new(),
        bcc: Vec::new(),
        body: None,
        headers: Vec::new(),
    };
    proof {
        reveal_strlit("To");
    }
    let to_name = HeaderName { id: TO_HEADER_ID, name: "To".to_owned() };
    let mut state = MailtoState::Address(to_name, false);
    let mut buf: Vec<u8> = Vec::new();
    let mut has_addresses = false;
    let mut i: usize = 0;
    assert(params@ =~= empty_mailto());
    assert(to_name@ == (TO_HEADER_ID, seq!['T', 'o']));
    assert(MailtoRun { pos: state@, buf: buf@, has_addresses, msg: params@ } =~= mailto_start());
    assert(bytes@.subrange(0, bytes@.len() as int) =~= bytes@);
    while i < bytes.len()
        invariant
            i <= bytes@.len(),
            bytes@ == uri.spec_bytes(),
            mailto_run(mailto_start(), bytes@) == mailto_run(
                MailtoRun { pos: state@, buf: buf@, has_addresses, msg: params@ },
                bytes@.subrange(i as int, bytes@.len() as int),
            ),
        decreases bytes@.len() - i,
    {
        let ghost t = bytes@.subrange(i as int, bytes@.len() as int);
        let ghost cur = MailtoRun { pos: state@, buf: buf@, has_addresses, msg: params@ };
        let ch = bytes[i];
        assert(t[0] == ch);
        let mut k: usize = 1;
        if ch == PERCENT {
            if bytes.len() - i < 3 {
                proof { lemma_run_fails(cur, t); }
                return None;
            }
            assert(t[1] == bytes@[i + 1]);
            assert(t[2] == bytes@[i + 2]);
            let h1 = hex_value(bytes[i + 1]);
            let h2 = hex_value(bytes[i + 2]);
            if h1 < 0 || h2 < 0 {
                proof { lemma_run_fails(cur, t); }
                return None;
            }
            let c: u8 = (h1 as u8) * 16 + (h2 as u8);
            assert(c == (hex_val(t[1]) * 16 + hex_val(t[2])) as u8);
            k = 3;
            match state {
                MailtoState::Address(h, has_at) => {
                    if c == COMMA {
                        if has_at {
                            let b = buf;
                            buf = Vec::new();
                            match string_from_utf8(b) {
                                Some(v) => {
                                    insert_address(&mut params, &h, v);
                                    has_addresses = true;
                                    state = MailtoState::Address(h, false);
                                },
                                None => {
                                    proof { lemma_run_fails(cur, t); }
                                    return None;
                                },
                            }
                        } else {
                            proof { lemma_run_fails(cur, t); }
                            return None;
                        }
                    } else if c == AT {
                        if !has_at {
                            state = MailtoState::Address(h, true);
                            buf.push(c);
                        } else {
                            proof { lemma_run_fails(cur, t); }
                            return None;
                        }
                    } else {
                        state = MailtoState::Address(h, has_at);
                        buf.push(c);
                    }
                },
                other => {
                    state = other;
                    buf.push(c);
                },
            }
        } else if ch == COMMA {
            match state {
                MailtoState::Address(h, true) => {
                    let b = buf;
                    buf = Vec::new();
                    match string_from_utf8(b) {
                        Some(v) => {
                            insert_address(&mut params, &h, v);
                            has_addresses = true;
                            state = MailtoState::Address(h, false);
                        },
                        None => {
                            proof { lemma_run_fails(cur, t); }
                            return None;
                        },
                    }
                },
                MailtoState::ParamValue(p) => {
                    state = MailtoState::ParamValue(p);
                    buf.push(ch);
                },
                _ => {
                    proof { lemma_run_fails(cur, t); }
                    return None;
                },
            }
        } else if ch == QUESTION {
            match state {
                MailtoState::Address(h, has_at) => {
                    if has_at || buf.len() == 0 {
                        if buf.len() != 0 {
                            let b = buf;
                            buf = Vec::new();
                            match string_from_utf8(b) {
                                Some(v) => {
                                    insert_address(&mut params, &h, v);
                                    has_addresses = true;
                                },
                                None => {
                                    proof { lemma_run_fails(cur, t); }
                                    return None;
                                },
                            }
                        }
                        state = MailtoState::ParamName;
                    } else {
                        proof { lemma_run_fails(cur, t); }
                        return None;
                    }
                },
                MailtoState::ParamValue(p) => {
                    state = MailtoState::ParamValue(p);
                    buf.push(ch);
                },
                _ => {
                    proof { lemma_run_fails(cur, t); }
                    return None;
                },
            }
        } else if ch == AT {
            match state {
                MailtoState::Address(h, false) => {
                    if buf.len() != 0 {
                        buf.push(ch);
                        state = MailtoState::Address(h, true);
                    } else {
                        proof { lemma_run_fails(cur, t); }
                        return None;
                    }
                },
                MailtoState::ParamName => {
                    state = MailtoState::ParamName;
                    buf.push(ch);
                },
                MailtoState::ParamValue(p) => {
                    state = MailtoState::ParamValue(p);
                    buf.push(ch);
                },
                _ => {
                    proof { lemma_run_fails(cur, t); }
                    return None;
                },
            }
        } else if ch == EQUALS {
            match state {
                MailtoState::ParamName => {
                    if buf.len() != 0 {
                        let b = buf;
                        buf = Vec::new();
                        match string_from_utf8(b) {
                            Some(p) => {
                                state = param_state(p);
                            },
                            None => {
                                proof { lemma_run_fails(cur, t); }
                                return None;
                            },
                        }
                    } else {
                        proof { lemma_run_fails(cur, t); }
                        return None;
                    }
                },
                MailtoState::ParamValue(p) => {
                    state = MailtoState::ParamValue(p);
                    buf.push(ch);
                },
                _ => {
                    proof { lemma_run_fails(cur, t); }
                    return None;
                },
            }
        } else if ch == AMPERSAND {
            match state {
                MailtoState::Address(h, true) => {
                    if buf.len() != 0 {
                        let b = buf;
                        buf = Vec::new();
                        match string_from_utf8(b) {
                            Some(v) => {
                                insert_address(&mut params, &h, v);
                            },
                            None => {
                                proof { lemma_run_fails(cur, t); }
                                return None;
                            },
                        }
                    }
                    state = MailtoState::ParamName;
                },
                MailtoState::ParamValue(p) => {
                    if buf.len() != 0 {
                        let b = buf;
                        buf = Vec::new();
                        match string_from_utf8(b) {
                            Some(v) => {
                                store_param_exec(&mut params, p, v);
                            },
                            None => {
                                proof { lemma_run_fails(cur, t); }
                                return None;
                            },
                        }
                    }
                    state = MailtoState::ParamName;
                },
                _ => {
                    proof { lemma_run_fails(cur, t); }
                    return None;
                },
            }
        } else {
            match state {
                MailtoState::ParamName => {
                    if is_alnum_exec(ch) || ch == DASH || ch == UNDERSCORE {
                        buf.push(ch);
                        state = MailtoState::ParamName;
                    } else {
                        proof { lemma_run_fails(cur, t); }
                        return None;
                    }
                },
                other => {
                    state = other;
                    if !is_ws_exec(ch) {
                        buf.push(ch);
                    }
                },
            }
        }
        proof {
            let next = MailtoRun { pos: state@, buf: buf@, has_addresses, msg: params@ };
            assert(mailto_step(cur, t) == Some((next, k as int)));
            lemma_run_step(cur, t, next, k as int);
            assert(t.subrange(k as int, t.len() as int) =~= bytes@.subrange(
                i + k,
                bytes@.len() as int,
            ));
        }
        i += k;
    }
    let ghost last = MailtoRun { pos: state@, buf: buf@, has_addresses, msg: params@ };
    assert(mailto_run(mailto_start(), bytes@) == Some(last));
    if buf.len() != 0 {
        let b = buf;
        let v = match string_from_utf8(b) {
            Some(v) => v,
            None => return None,
        };
        let ghost hs = params@.headers;
        let ghost vv = v@;
        match state {
            MailtoState::Address(h, true) => {
                insert_address(&mut params, &h, v);
                has_addresses = true;
            },
            MailtoState::ParamName => {
                params.headers.push((HeaderName::other(v), String::new()));
                assert(headers_view(params.headers@) =~= hs.push(((OTHER_HEADER_ID, vv), seq![])));
            },
            MailtoState::ParamValue(p) => {
                match p {
                    Mailto::Other(n) => {
                        let ghost nv = n@;
                        params.headers.push((HeaderName::other(n), v));
                        assert(headers_view(params.headers@) =~= hs.push(((OTHER_HEADER_ID, nv), vv)));
                    },
                    other => {
                        store_param_exec(&mut params, other, v);
                    },
                }
            },
            _ => {
                return None;
            },
        }
    }
    if has_addresses {
        Some(params)
    } else {
        None
    }
}

} // verus!

verus! {

/// `mailto`.
pub open spec fn mailto_word() -> Seq<u8> {
    seq![109u8, 97, 105, 108, 116, 111]
}

/// The schemes accepted as they are written: `xmpp`, `tel`, `http`, `https`.
pub open spec fn is_plain_scheme(s: Seq<u8>) -> bool {
    s == seq![120u8, 109, 112, 112] || s == seq![116u8, 101, 108] || s == seq![104u8, 116, 116, 112]
        || s == seq![104u8, 116, 116, 112, 115]
}

/// The notification method that a URI names: its scheme, when the scheme
/// is `mailto` (in any case) with a valid `mailto:` part, or one of the
/// schemes accepted as written.
pub open spec fn uri_method(s: Seq<u8>) -> Option<Seq<u8>> {
    match uri_parts(s) {
        Some((scheme, rest)) => if eq_ignore_case(scheme, mailto_word()) {
            if mailto_spec(rest) is Some {
                Some(scheme)
            } else {
                None
            }
        } else if is_plain_scheme(scheme) {
            Some(scheme)
        } else {
            None
        },
        None => None,
    }
}

/// Checks a notification URI and gives back its scheme.
pub fn validate_uri(uri: &str) -> (r: Option<&str>)
    ensures
        match r {
            Some(scheme) => uri_method(uri.spec_bytes()) == Some(scheme.spec_bytes()),
            None => uri_method(uri.spec_bytes()) is None,
        },
{
    let (scheme, rest) = match parse_uri(uri) {
        Some(parts) => parts,
        None => return None,
    };
    let mailto: [u8; 6] = [109, 97, 105, 108, 116, 111];
    if bytes_eq_ignore_case(scheme.as_bytes(), &mailto) {
        if parse_mailto(rest).is_none() {
            return None;
        }
        Some(scheme)
    } else {
        let xmpp: [u8; 4] = [120, 109, 112, 112];
        let tel: [u8; 3] = [116, 101, 108];
        let http: [u8; 4] = [104, 116, 116, 112];
        let https: [u8; 5] = [104, 116, 116, 112, 115];
        let b = scheme.as_bytes();
        if bytes_eq(b, &xmpp) || bytes_eq(b, &tel) || bytes_eq(b, &http) || bytes_eq(b, &https) {
            Some(scheme)
        } else {
            None
        }
    }
}

/// The importance that a `:importance` value names: `1` is high, `3` low.
pub fn lookup_importance(input: &str) -> (r: Option<Importance>)
    ensures
        r == (if input.spec_bytes() == seq![49u8] {
            Some(Importance::High)
        } else if input.spec_bytes() == seq![51u8] {
            Some(Importance::Low)
        } else {
            None
        }),
{
    let b = input.as_bytes();
    let one: [u8; 1] = [49];
    let three: [u8; 1] = [51];
    assert(one@ =~= seq![49u8]);
    assert(three@ =~= seq![51u8]);
    if bytes_eq(b, &one) {
        Some(Importance::High)
    } else if bytes_eq(b, &three) {
        Some(Importance::Low)
    } else {
        None
    }
}

/// The `Importance` and `X-Priority` header values for a `:importance`
/// value: `High` / `1 (High)` for `1`, `Low` / `5 (Low)` for `3`.
pub fn lookup_importance_headers(input: &str) -> (r: Option<(&'static str, &'static str)>)
    ensures
        input.spec_bytes() == seq![49u8] ==> (r matches Some((a, b)) && a@ == seq!['H', 'i', 'g', 'h']
            && b@ == seq!['1', ' ', '(', 'H', 'i', 'g', 'h', ')']),
        input.spec_bytes() == seq![51u8] ==> (r matches Some((a, b)) && a@ == seq!['L', 'o', 'w'] && b@
            == seq!['5', ' ', '(', 'L', 'o', 'w', ')']),
        input.spec_bytes() != seq![49u8] && input.spec_bytes() != seq![51u8] ==> r is None,
{
    let b = input.as_bytes();
    let one: [u8; 1] = [49];
    let three: [u8; 1] = [51];
    assert(one@ =~= seq![49u8]);
    assert(three@ =~= seq![51u8]);
    if bytes_eq(b, &one) {
        proof {
            reveal_strlit("High");
            reveal_strlit("1 (High)");
        }
        Some(("High", "1 (High)"))
    } else if bytes_eq(b, &three) {
        proof {
            reveal_strlit("Low");
            reveal_strlit("5 (Low)");
        }
        Some(("Low", "5 (Low)"))
    } else {
        None
    }
}

} // verus!

verus! {

/// Number of the `Subject` header.
pub const SUBJECT_HEADER_ID: u8 = 0;
/// Number of the `From` header.
pub const FROM_HEADER_ID: u8 = 1;
/// Number of the `Date` header.
pub const DATE_HEADER_ID: u8 = 4;
/// Number of the `Message-ID` header.
pub const MESSAGE_ID_HEADER_ID: u8 = 12;

/// The importance headers of a notification that names none.
pub open spec fn default_importance() -> (Seq<char>, Seq<char>) {
    ("Normal"@, "3 (Normal)"@)
}

pub open spec fn crlf() -> Seq<u8> {
    seq![13u8, 10]
}

/// An address as a header line carries it: in angle brackets unless it
/// already holds a `<`.
pub open spec fn bracketed(a: Seq<char>) -> Seq<u8> {
    if a.contains('<') {
        encode_utf8(a)
    } else {
        seq![60u8] + encode_utf8(a) + seq![62u8]
    }
}

/// The addresses of a list, each bracketed, separated by `, `.
pub open spec fn address_list(list: Seq<Seq<char>>) -> Seq<u8>
    decreases list.len(),
{
    if list.len() == 0 {
        seq![]
    } else {
        address_list(list.drop_last()) + (if list.len() > 1 {
            seq![44u8, 32]
        } else {
            seq![]
        }) + bracketed(list.last())
    }
}

/// The header line `label` and the addresses; nothing for no address.
pub open spec fn address_line(label: Seq<char>, list: Seq<Seq<char>>) -> Seq<u8> {
    if list.len() == 0 {
        seq![]
    } else {
        encode_utf8(label) + address_list(list) + crlf()
    }
}

/// The line of a header that a `mailto:` URI sets; its `Subject` and `From`
/// are not copied.
pub open spec fn header_line(h: (HeaderView, Seq<char>)) -> Seq<u8> {
    if h.0.0 == SUBJECT_HEADER_ID || h.0.0 == FROM_HEADER_ID {
        seq![]
    } else {
        encode_utf8(h.0.1) + seq![58u8, 32] + encode_utf8(h.1) + crlf()
    }
}

/// The lines of the headers, in order.
pub open spec fn header_lines(hs: Seq<(HeaderView, Seq<char>)>) -> Seq<u8>
    decreases hs.len(),
{
    if hs.len() == 0 {
        seq![]
    } else {
        header_lines(hs.drop_last()) + header_line(hs.last())
    }
}

/// Some header of `hs` has the number `id`.
pub open spec fn names_header(hs: Seq<(HeaderView, Seq<char>)>, id: u8) -> bool {
    exists|i: int| 0 <= i < hs.len() && #[trigger] hs[i].0.0 == id
}

/// The value of the last `Subject` of `hs`.
pub open spec fn last_subject(hs: Seq<(HeaderView, Seq<char>)>) -> Option<Seq<char>>
    decreases hs.len(),
{
    if hs.len() == 0 {
        None
    } else if hs.last().0.0 == SUBJECT_HEADER_ID {
        Some(hs.last().1)
    } else {
        last_subject(hs.drop_last())
    }
}

pub open spec fn opt_str_view(o: Option<&str>) -> Option<Seq<char>> {
    match o {
        Some(s) => Some(s@),
        None => None,
    }
}

/// The first of three texts that is there; empty when none is.
pub open spec fn first_of(a: Option<Seq<char>>, b: Option<Seq<char>>, c: Option<Seq<char>>) -> Seq<char> {
    match a {
        Some(x) => x,
        None => match b {
            Some(x) => x,
            None => match c {
                Some(x) => x,
                None => seq![],
            },
        },
    }
}

/// The fixed lines that end the headers of a notification.
pub open spec fn notify_trailer() -> Seq<char> {
    "Auto-Submitted: auto-notified\r\nX-Sieve: yes\r\nContent-type: text/plain; charset=utf-8\r\n\r\n"@
}

/// The lines that open a notification: `From`, then the `To` and `Cc`
/// addresses, then the headers the URI sets.
pub open spec fn notify_head(p: MailtoSpec, from: Seq<char>) -> Seq<u8> {
    encode_utf8("From: "@) + encode_utf8(from) + crlf() + address_line("To: "@, p.to) + address_line(
        "Cc: "@,
        p.cc,
    ) + header_lines(p.headers)
}

/// The `Date` and `Message-ID` lines, each unless the URI sets its header.
pub open spec fn notify_stamps(p: MailtoSpec, date: Seq<char>, message_id: Seq<u8>) -> Seq<u8> {
    (if names_header(p.headers, DATE_HEADER_ID) {
        seq![]
    } else {
        encode_utf8("Date: "@) + encode_utf8(date) + crlf()
    }) + (if names_header(p.headers, MESSAGE_ID_HEADER_ID) {
        seq![]
    } else {
        encode_utf8("Message-ID: "@) + message_id + crlf()
    })
}

/// The importance lines, the subject line cut as `subject_text` says, the
/// fixed trailer, and the body.
pub open spec fn notify_tail(importance: (Seq<char>, Seq<char>), subject: Seq<char>, body: Seq<char>) -> Seq<u8> {
    encode_utf8("Importance: "@) + encode_utf8(importance.0) + crlf() + encode_utf8("X-Priority: "@)
        + encode_utf8(importance.1) + crlf() + encode_utf8("Subject: "@) + encode_utf8(
        crate::runtime::actions::action_vacation::subject_text(subject),
    ) + crlf() + encode_utf8(notify_trailer()) + encode_utf8(body)
}

/// The notification message sent for a `mailto:` URI: its opening lines,
/// a `Date` (the text `date`) and a `Message-ID` (the bytes `message_id`)
/// unless the URI sets them, then the importance headers, the subject (the
/// URI's, else the notification text, else the subject of the message being
/// filtered), the fixed trailer, and the body (the URI's, else the
/// notification text, else the subject of the message).
#[verifier::opaque]
pub open spec fn notify_message_spec(
    p: MailtoSpec,
    from: Seq<char>,
    text: Option<Seq<char>>,
    importance: (Seq<char>, Seq<char>),
    original_subject: Option<Seq<char>>,
    date: Seq<char>,
    message_id: Seq<u8>,
) -> Seq<u8> {
    notify_head(p, from) + notify_stamps(p, date, message_id) + notify_tail(
        importance,
        first_of(last_subject(p.headers), text, original_subject),
        first_of(p.body, text, original_subject),
    )
}

/// Whether `s` holds the character `c`.
fn str_has_char(s: &str, c: char) -> (r: bool)
    ensures
        r == s@.contains(c),
{
    let v = crate::text::str_chars(s);
    let mut i: usize = 0;
    while i < v.len()
        invariant
            v@ == s@,
            i <= v@.len(),
            forall|j: int| 0 <= j < i ==> v@[j] != c,
        decreases v@.len() - i,
    {
        if v[i] == c {
            assert(s@[i as int] == c);
            return true;
        }
        i += 1;
    }
    false
}

fn push_crlf(m: &mut Vec<u8>)
    ensures
        final(m)@ == old(m)@ + crlf(),
{
    m.push(13);
    m.push(10);
    assert(m@ =~= old(m)@ + crlf());
}

fn push_str(m: &mut Vec<u8>, s: &str)
    ensures
        final(m)@ == old(m)@ + encode_utf8(s@),
{
    crate::text::extend_bytes(m, s.as_bytes());
}

/// Appends the header line `label` with the addresses of `list`.
#[verifier::spinoff_prover]
#[verifier::rlimit(50)]
fn push_address_line(m: &mut Vec<u8>, label: &str, list: &Vec<String>)
    ensures
        final(m)@ == old(m)@ + address_line(label@, strings_view(list@)),
{
    if list.len() == 0 {
        assert(m@ =~= old(m)@ + address_line(label@, strings_view(list@)));
        return ;
    }
    push_str(m, label);
    let ghost start = m@;
    let mut i: usize = 0;
    while i < list.len()
        invariant
            i <= list@.len(),
            m@ == start + address_list(strings_view(list@).take(i as int)),
        decreases list@.len() - i,
    {
        let ghost before = m@;
        let a = list[i].as_str();
        let ghost l = strings_view(list@).take(i + 1);
        assert(l.drop_last() =~= strings_view(list@).take(i as int));
        assert(l.last() == a@);
        if i > 0 {
            m.push(44);
            m.push(32);
        }
        let has_lt = str_has_char(a, '<');
        if !has_lt {
            m.push(60);
        }
        push_str(m, a);
        if !has_lt {
            m.push(62);
        }
        assert(m@ =~= before + (if l.len() > 1 {
            seq![44u8, 32]
        } else {
            seq![]
        }) + bracketed(a@));
        i += 1;
    }
    assert(strings_view(list@).take(list@.len() as int) =~= strings_view(list@));
    push_crlf(m);
}

/// What the headers of a `mailto:` URI say of the notification: whether
/// they set `Date` and `Message-ID`, and their last subject.
pub struct HeaderFacts {
    pub has_date: bool,
    pub has_message_id: bool,
    pub subject: Option<String>,
}

/// Appends the lines of the headers that a `mailto:` URI sets, and tells
/// what they hold.
fn push_header_lines(m: &mut Vec<u8>, headers: &Vec<(HeaderName, String)>) -> (r: HeaderFacts)
    ensures
        final(m)@ == old(m)@ + header_lines(headers_view(headers@)),
        r.has_date == names_header(headers_view(headers@), DATE_HEADER_ID),
        r.has_message_id == names_header(headers_view(headers@), MESSAGE_ID_HEADER_ID),
        opt_string_view(r.subject) == last_subject(headers_view(headers@)),
{
    let ghost start = m@;
    let ghost hv = headers_view(headers@);
    let mut facts = HeaderFacts { has_date: false, has_message_id: false, subject: None };
    let mut i: usize = 0;
    while i < headers.len()
        invariant
            i <= headers@.len(),
            hv == headers_view(headers@),
            m@ == start + header_lines(hv.take(i as int)),
            facts.has_date == names_header(hv.take(i as int), DATE_HEADER_ID),
            facts.has_message_id == names_header(hv.take(i as int), MESSAGE_ID_HEADER_ID),
            opt_string_view(facts.subject) == last_subject(hv.take(i as int)),
        decreases headers@.len() - i,
    {
        let ghost before = m@;
        let ghost l = hv.take(i + 1);
        assert(l.drop_last() =~= hv.take(i as int));
        assert(l.last() == hv[i as int]);
        let id = headers[i].0.id;
        assert(hv[i as int].0.0 == id);
        proof {
            assert forall|k: u8| names_header(l, k) == (names_header(hv.take(i as int), k) || id == k) by {
                if names_header(l, k) {
                    let j = choose|j: int| 0 <= j < l.len() && #[trigger] l[j].0.0 == k;
                    if j < i {
                        assert(hv.take(i as int)[j].0.0 == k);
                    }
                }
                if names_header(hv.take(i as int), k) {
                    let j = choose|j: int| 0 <= j < i && #[trigger] hv.take(i as int)[j].0.0 == k;
                    assert(l[j].0.0 == k);
                }
                if id == k {
                    assert(l[i as int].0.0 == k);
                }
            }
        }
        if id == SUBJECT_HEADER_ID {
            facts.subject = Some(headers[i].1.clone());
        } else if id != FROM_HEADER_ID {
            if id == DATE_HEADER_ID {
                facts.has_date = true;
            } else if id == MESSAGE_ID_HEADER_ID {
                facts.has_message_id = true;
            }
            push_str(m, headers[i].0.name.as_str());
            m.push(58);
            m.push(32);
            push_str(m, headers[i].1.as_str());
            push_crlf(m);
        }
        assert(m@ =~= before + header_line(hv[i as int]));
        i += 1;
    }
    assert(hv.take(headers@.len() as int) =~= hv);
    facts
}

fn opt_first(a: Option<String>, b: Option<&str>, c: Option<&str>) -> (r: String)
    ensures
        r@ == first_of(opt_string_view(a), opt_str_view(b), opt_str_view(c)),
{
    match a {
        Some(x) => x,
        None => match b {
            Some(x) => x.to_string(),
            None => match c {
                Some(x) => x.to_string(),
                None => String::new(),
            },
        },
    }
}

/// Appends the opening lines of a notification.
fn push_notify_head(m: &mut Vec<u8>, params: &MailtoMessage, from: &str) -> (r: HeaderFacts)
    ensures
        final(m)@ == old(m)@ + notify_head(params@, from@),
        r.has_date == names_header(params@.headers, DATE_HEADER_ID),
        r.has_message_id == names_header(params@.headers, MESSAGE_ID_HEADER_ID),
        opt_string_view(r.subject) == last_subject(params@.headers),
{
    push_str(m, "From: ");
    push_str(m, from);
    push_crlf(m);
    push_address_line(m, "To: ", &params.to);
    push_address_line(m, "Cc: ", &params.cc);
    let facts = push_header_lines(m, &params.headers);
    assert(m@ =~= old(m)@ + notify_head(params@, from@));
    facts
}

/// Appends the `Date` and `Message-ID` lines.
fn push_notify_stamps(m: &mut Vec<u8>, params: &MailtoMessage, facts: &HeaderFacts, date: &str, message_id: &[u8])
    requires
        facts.has_date == names_header(params@.headers, DATE_HEADER_ID),
        facts.has_message_id == names_header(params@.headers, MESSAGE_ID_HEADER_ID),
    ensures
        final(m)@ == old(m)@ + notify_stamps(params@, date@, message_id@),
{
    if !facts.has_date {
        push_str(m, "Date: ");
        push_str(m, date);
        push_crlf(m);
    }
    let ghost mid = m@;
    if !facts.has_message_id {
        push_str(m, "Message-ID: ");
        crate::text::extend_bytes(m, message_id);
        push_crlf(m);
    }
    assert(m@ =~= old(m)@ + notify_stamps(params@, date@, message_id@));
}

/// Appends the importance lines, the subject line, the trailer and the body.
#[verifier::spinoff_prover]
#[verifier::rlimit(50)]
fn push_notify_tail(m: &mut Vec<u8>, importance: (&str, &str), subject: &str, body: &str)
    ensures
        final(m)@ == old(m)@ + notify_tail((importance.0@, importance.1@), subject@, body@),
{
    push_str(m, "Importance: ");
    push_str(m, importance.0);
    push_crlf(m);
    push_str(m, "X-Priority: ");
    push_str(m, importance.1);
    push_crlf(m);
    push_str(m, "Subject: ");
    let cut = crate::runtime::actions::action_vacation::truncate_subject(subject);
    push_str(m, cut.as_str());
    push_crlf(m);
    push_str(
        m,
        "Auto-Submitted: auto-notified\r\nX-Sieve: yes\r\nContent-type: text/plain; charset=utf-8\r\n\r\n",
    );
    push_str(m, body);
    assert(m@ =~= old(m)@ + notify_tail((importance.0@, importance.1@), subject@, body@));
}

/// The notification message for a `mailto:` URI (see
/// `notify_message_spec`), with `date` for its `Date` and `message_id` for
/// its `Message-ID`.
pub fn notify_message_bytes(
    params: &MailtoMessage,
    from: &str,
    text: Option<&str>,
    importance: (&str, &str),
    original_subject: Option<&str>,
    date: &str,
    message_id: &[u8],
) -> (r: Vec<u8>)
    ensures
        r@ == notify_message_spec(
            params@,
            from@,
            opt_str_view(text),
            (importance.0@, importance.1@),
            opt_str_view(original_subject),
            date@,
            message_id@,
        ),
{
    let mut m: Vec<u8> = Vec::new();
    let facts = push_notify_head(&mut m, params, from);
    push_notify_stamps(&mut m, params, &facts, date, message_id);
    let subject = opt_first(facts.subject, text, original_subject);
    let body = match &params.body {
        Some(b) => b.clone(),
        None => opt_first(None, text, original_subject),
    };
    push_notify_tail(&mut m, importance, subject.as_str(), body.as_str());
    reveal(notify_message_spec);
    assert(m@ =~= notify_head(params@, from@) + notify_stamps(params@, date@, message_id@) + notify_tail(
        (importance.0@, importance.1@),
        subject@,
        body@,
    ));
    m
}

/// Whether some header of `headers` has the number `id`.
pub(crate) fn names_header_exec(headers: &Vec<(HeaderName, String)>, id: u8) -> (r: bool)
    ensures
        r == names_header(headers_view(headers@), id),
{
    let ghost hv = headers_view(headers@);
    let mut i: usize = 0;
    while i < headers.len()
        invariant
            i <= headers@.len(),
            hv == headers_view(headers@),
            forall|j: int| 0 <= j < i ==> #[trigger] hv[j].0.0 != id,
        decreases headers@.len() - i,
    {
        if headers[i].0.id == id {
            assert(hv[i as int].0.0 == id);
            return true;
        }
        i += 1;
    }
    false
}

/// Builds the notification message for a `mailto:` URI: its `Date` is the
/// time `current_time`, and its `Message-ID`, where the URI sets none, a
/// fresh id for `hostname`.
pub fn build_notify_message(
    params: &MailtoMessage,
    from: &str,
    text: Option<&str>,
    importance: (&str, &str),
    original_subject: Option<&str>,
    current_time: i64,
    hostname: &str,
) -> (r: Vec<u8>)
    ensures
        exists|id: Seq<u8>|
            #![trigger notify_message_spec(params@, from@, opt_str_view(text), (importance.0@, importance.1@), opt_str_view(original_subject), rfc822_date_of(current_time), id)]
            (!names_header(params@.headers, MESSAGE_ID_HEADER_ID) ==> is_message_id(
                id,
                hostname.spec_bytes(),
            )) && r@ == notify_message_spec(
                params@,
                from@,
                opt_str_view(text),
                (importance.0@, importance.1@),
                opt_str_view(original_subject),
                rfc822_date_of(current_time),
                id,
            ),
{
    let date = rfc822_date(current_time);
    let mut id: Vec<u8> = Vec::new();
    if !names_header_exec(&params.headers, MESSAGE_ID_HEADER_ID) {
        write_message_id(&mut id, hostname);
        assert(id@.subrange(0, id@.len() as int) =~= id@);
    }
    let r = notify_message_bytes(params, from, text, importance, original_subject, date.as_str(), id.as_slice());
    let ghost with_id = notify_message_spec(
        params@,
        from@,
        opt_str_view(text),
        (importance.0@, importance.1@),
        opt_str_view(original_subject),
        rfc822_date_of(current_time),
        id@,
    );
    assert(r@ == with_id);
    assert(params@.headers == headers_view(params.headers@));
    assert((!names_header(params@.headers, MESSAGE_ID_HEADER_ID) ==> is_message_id(
        id@,
        hostname.spec_bytes(),
    )) && r@ == with_id);
    r
}

} // verus!

verus! {

/// `n` occurs in `h` as a run of consecutive bytes.
pub open spec fn has_infix(h: Seq<u8>, n: Seq<u8>) -> bool {
    exists|i: int| 0 <= i && i + n.len() <= h.len() && #[trigger] h.subrange(i, i + n.len()) == n
}

fn has_infix_exec(h: &[u8], n: &[u8]) -> (r: bool)
    ensures
        r == has_infix(h@, n@),
{
    if n.len() > h.len() {
        return false;
    }
    let limit = h.len() - n.len();
    let mut i: usize = 0;
    loop
        invariant
            n@.len() <= h@.len(),
            limit == h@.len() - n@.len(),
            i <= limit,
            forall|k: int| 0 <= k < i ==> #[trigger] h@.subrange(k, k + n@.len()) != n@,
        decreases limit - i,
    {
        if matches_at(h, n, i) {
            return true;
        }
        if i == limit {
            return false;
        }
        i += 1;
    }
}

/// Whether `n` occurs in `h` at `i`.
fn matches_at(h: &[u8], n: &[u8], i: usize) -> (r: bool)
    requires
        i + n@.len() <= h@.len(),
    ensures
        r == (h@.subrange(i as int, i + n@.len()) == n@),
{
    let hl = h.len();
    let mut j: usize = 0;
    while j < n.len()
        invariant
            hl == h@.len(),
            i + n@.len() <= h@.len(),
            j <= n@.len(),
            forall|k: int| 0 <= k < j ==> h@[i + k] == n@[k],
        decreases n@.len() - j,
    {
        if h[i + j] != n[j] {
            assert(h@.subrange(i as int, i + n@.len())[j as int] != n@[j as int]);
            return false;
        }
        j += 1;
    }
    assert(h@.subrange(i as int, i + n@.len()) =~= n@);
    true
}

fn lower_bytes(s: &[u8]) -> (r: Vec<u8>)
    ensures
        r@ == lower_seq(s@),
{
    let mut r: Vec<u8> = Vec::new();
    let mut i: usize = 0;
    while i < s.len()
        invariant
            i <= s@.len(),
            r@ == lower_seq(s@.take(i as int)),
        decreases s@.len() - i,
    {
        r.push(lower_exec(s[i]));
        assert(lower_seq(s@.take(i + 1)) =~= lower_seq(s@.take(i as int)).push(lower(s@[i as int])));
        i += 1;
    }
    assert(s@.take(s@.len() as int) =~= s@);
    r
}

/// The `From` field of the user: `"full name" <address>`, or the address
/// alone when there is no full name.
pub open spec fn user_from(full_name: Seq<char>, address: Seq<char>) -> Seq<char> {
    if full_name.len() > 0 {
        "\""@ + full_name + "\" <"@ + address + ">"@
    } else {
        address
    }
}

/// A full name as it stands between quotes: each `"` and `\` preceded by
/// a backslash.
pub open spec fn escaped_name(name: Seq<char>) -> Seq<char>
    decreases name.len(),
{
    if name.len() == 0 {
        seq![]
    } else {
        escaped_name(name.drop_last()) + if name.last() == '"' || name.last() == '\\' {
            seq!['\\', name.last()]
        } else {
            seq![name.last()]
        }
    }
}

/// The user's full name, escaped to stand between quotes (see
/// `escaped_name`).
pub fn escape_full_name(name: &str) -> (r: String)
    ensures
        r@ == escaped_name(name@),
{
    let c = crate::text::str_chars(name);
    let mut r = String::new();
    let mut i: usize = 0;
    while i < c.len()
        invariant
            c@ == name@,
            i <= c@.len(),
            r@ == escaped_name(name@.take(i as int)),
        decreases c@.len() - i,
    {
        assert(name@.take(i + 1).drop_last() =~= name@.take(i as int));
        let ch = c[i];
        if ch == '"' || ch == '\\' {
            crate::text::push_char(&mut r, '\\');
        }
        crate::text::push_char(&mut r, ch);
        assert(r@ =~= escaped_name(name@.take(i + 1)));
        i += 1;
    }
    assert(name@.take(i as int) =~= name@);
    r
}

/// Builds the user's `From` field (see `user_from`).
pub fn user_from_field(full_name: &str, address: &str) -> (r: String)
    ensures
        r@ == user_from(full_name@, address@),
{
    if full_name.unicode_len() > 0 {
        let a = crate::runtime::expression::concat("\"", full_name);
        let b = crate::runtime::expression::concat(a.as_str(), "\" <");
        let c = crate::runtime::expression::concat(b.as_str(), address);
        crate::runtime::expression::concat(c.as_str(), ">")
    } else {
        address.to_string()
    }
}

/// The sender of a notification: the `:from` given when it holds the user's
/// address (ASCII case aside), else the user's own `From` field.
pub open spec fn notify_sender(from: Option<Seq<char>>, address: Seq<char>, full_name: Seq<char>) -> Seq<char> {
    match from {
        Some(f) => if has_infix(lower_seq(encode_utf8(f)), lower_seq(encode_utf8(address))) {
            f
        } else {
            user_from(full_name, address)
        },
        None => user_from(full_name, address),
    }
}

/// Picks the sender of a notification (see `notify_sender`).
pub fn notify_from(from: Option<&str>, address: &str, full_name: &str) -> (r: String)
    ensures
        r@ == notify_sender(opt_str_view(from), address@, full_name@),
{
    if let Some(f) = from {
        let h = lower_bytes(f.as_bytes());
        let n = lower_bytes(address.as_bytes());
        if has_infix_exec(h.as_slice(), n.as_slice()) {
            return f.to_string();
        }
    }
    user_from_field(full_name, address)
}

/// The position of the last `c` in `s`.
pub open spec fn last_index(s: Seq<char>, c: char) -> Option<int>
    decreases s.len(),
{
    if s.len() == 0 {
        None
    } else if s.last() == c {
        Some(s.len() - 1)
    } else {
        last_index(s.drop_last(), c)
    }
}

/// The address a notification is sent to for an entry of a `mailto:`
/// list: what stands between its last `<` and the last `>` after it, or the
/// entry as it is when it has no such pair.
pub open spec fn recipient_address(a: Seq<char>) -> Seq<char> {
    match last_index(a, '<') {
        Some(k) => {
            let t = a.subrange(k + 1, a.len() as int);
            match last_index(t, '>') {
                Some(j) => t.subrange(0, j),
                None => a,
            }
        },
        None => a,
    }
}

proof fn lemma_last_index_bounds(s: Seq<char>, c: char)
    ensures
        last_index(s, c) matches Some(k) ==> 0 <= k < s.len() && s[k] == c,
        last_index(s, c) is None ==> forall|i: int| 0 <= i < s.len() ==> s[i] != c,
    decreases s.len(),
{
    if s.len() > 0 && s.last() != c {
        lemma_last_index_bounds(s.drop_last(), c);
        if last_index(s, c) is None {
            assert forall|i: int| 0 <= i < s.len() implies s[i] != c by {
                if i < s.len() - 1 {
                    assert(s.drop_last()[i] == s[i]);
                }
            }
        }
    }
}

fn last_index_exec(s: &Vec<char>, from: usize, c: char) -> (r: Option<usize>)
    requires
        from <= s@.len(),
    ensures
        match r {
            Some(k) => from <= k && last_index(s@.subrange(from as int, s@.len() as int), c) == Some(
                k - from,
            ),
            None => last_index(s@.subrange(from as int, s@.len() as int), c) is None,
        },
{
    let mut i: usize = s.len();
    while i > from
        invariant
            from <= i <= s@.len(),
            last_index(s@.subrange(from as int, s@.len() as int), c) == last_index(
                s@.subrange(from as int, i as int),
                c,
            ),
        decreases i,
    {
        let ghost t = s@.subrange(from as int, i as int);
        assert(t.drop_last() =~= s@.subrange(from as int, i - 1));
        if s[i - 1] == c {
            return Some(i - 1);
        }
        i -= 1;
    }
    None
}

/// The address a notification is sent to (see `recipient_address`).
pub fn notify_recipient(addr: &str) -> (r: String)
    ensures
        r@ == recipient_address(addr@),
{
    let v = crate::text::str_chars(addr);
    let vl = v.len();
    assert(v@.subrange(0, v@.len() as int) =~= addr@);
    match last_index_exec(&v, 0, '<') {
        Some(k) => {
            proof {
                assert(last_index(addr@, '<') == Some(k as int));
                lemma_last_index_bounds(addr@, '<');
            }
            match last_index_exec(&v, k + 1, '>') {
                Some(j) => {
                    proof {
                        let t = addr@.subrange(k + 1, addr@.len() as int);
                        assert(v@.subrange(k + 1, v@.len() as int) == t);
                        lemma_last_index_bounds(t, '>');
                    }
                    let mut r = String::new();
                    let mut i: usize = k + 1;
                    assert(r@ =~= v@.subrange(k + 1, i as int));
                    while i < j
                        invariant
                            k + 1 <= i <= j <= v@.len(),
                            r@ == v@.subrange(k + 1, i as int),
                        decreases j - i,
                    {
                        crate::text::push_char(&mut r, v[i]);
                        assert(v@.subrange(k + 1, i + 1) =~= v@.subrange(k + 1, i as int).push(v@[i as int]));
                        i += 1;
                    }
                    proof {
                        let t = addr@.subrange(k + 1, addr@.len() as int);
                        lemma_last_index_bounds(t, '>');
                        assert(t.subrange(0, j - (k + 1)) =~= v@.subrange(k + 1, j as int));
                    }
                    r
                },
                None => addr.to_string(),
            }
        },
        None => addr.to_string(),
    }
}

/// A message already sent automatically: one of its headers is named
/// `Auto-Submitted` (ASCII case aside) and its text is not `no` (ASCII case
/// aside) or it has no text. Such a message gets no notification.
pub open spec fn is_auto_submitted(headers: Seq<(Seq<char>, Option<Seq<char>>)>) -> bool {
    exists|i: int|
        0 <= i < headers.len() && eq_ignore_case(encode_utf8(#[trigger] headers[i].0), encode_utf8("Auto-Submitted"@))
            && match headers[i].1 {
            Some(v) => !eq_ignore_case(encode_utf8(v), encode_utf8("no"@)),
            None => true,
        }
}

pub open spec fn named_texts_view(v: Seq<(String, Option<String>)>) -> Seq<(Seq<char>, Option<Seq<char>>)> {
    v.map_values(|p: (String, Option<String>)| (p.0@, opt_string_view(p.1)))
}

/// Whether a message with the headers `headers` (name and text) was sent
/// automatically (see `is_auto_submitted`).
pub fn auto_submitted(headers: &Vec<(String, Option<String>)>) -> (r: bool)
    ensures
        r == is_auto_submitted(named_texts_view(headers@)),
{
    let ghost hv = named_texts_view(headers@);
    let mut i: usize = 0;
    while i < headers.len()
        invariant
            i <= headers@.len(),
            hv == named_texts_view(headers@),
            forall|k: int|
                0 <= k < i ==> !(eq_ignore_case(encode_utf8(#[trigger] hv[k].0), encode_utf8("Auto-Submitted"@))
                    && match hv[k].1 {
                    Some(v) => !eq_ignore_case(encode_utf8(v), encode_utf8("no"@)),
                    None => true,
                }),
        decreases headers@.len() - i,
    {
        let (name, value) = (&headers[i].0, &headers[i].1);
        assert(hv[i as int].0 == name@);
        assert(hv[i as int].1 == opt_string_view(*value));
        if bytes_eq_ignore_case(name.as_str().as_bytes(), "Auto-Submitted".as_bytes()) {
            let answered = match value {
                Some(v) => !bytes_eq_ignore_case(v.as_str().as_bytes(), "no".as_bytes()),
                None => true,
            };
            if answered {
                return true;
            }
        }
        i += 1;
    }
    false
}

/// The `Importance` and `X-Priority` headers of a notification with the
/// `:importance` value `importance`: those it names, else the normal ones.
pub fn notify_importance_headers(importance: Option<&str>) -> (r: (&'static str, &'static str))
    ensures
        (r.0@, r.1@) == match importance {
            Some(i) => if i.spec_bytes() == seq![49u8] {
                ("High"@, "1 (High)"@)
            } else if i.spec_bytes() == seq![51u8] {
                ("Low"@, "5 (Low)"@)
            } else {
                default_importance()
            },
            None => default_importance(),
        },
{
    proof {
        reveal_strlit("High");
        reveal_strlit("1 (High)");
        reveal_strlit("Low");
        reveal_strlit("5 (Low)");
    }
    let found = match importance {
        Some(i) => lookup_importance_headers(i),
        None => None,
    };
    match found {
        Some(h) => h,
        None => {
            proof {
                reveal_strlit("Normal");
                reveal_strlit("3 (Normal)");
            }
            ("Normal", "3 (Normal)")
        },
    }
}

} // verus!

verus! {

/// A notification handed to the host for a method other than `mailto`.
pub struct NotifyRequest {
    pub from: Option<String>,
    pub importance: Importance,
    pub message: String,
    pub method: String,
}

/// What a `notify` action does: the message it creates (for a `mailto:`
/// method, or to file a copy), where that message is sent, and the
/// notification handed to the host.
pub struct NotifyPlan {
    pub message: Option<Vec<u8>>,
    pub recipients: Option<Vec<String>>,
    pub request: Option<NotifyRequest>,
}

/// The `mailto` method is taken: the scheme is `mailto` (ASCII case aside)
/// and the script may still send a message.
pub open spec fn mailto_taken(uri: Seq<u8>, num_out: usize, max_out: usize) -> bool {
    match uri_parts(uri) {
        Some((scheme, _)) => eq_ignore_case(scheme, mailto_word()) && num_out < max_out,
        None => false,
    }
}

/// The `mailto:` message a `notify` reads: the URI's when the `mailto`
/// method is taken, else the empty message.
pub open spec fn notify_params(uri: Seq<u8>, num_out: usize, max_out: usize) -> Option<MailtoSpec> {
    if mailto_taken(uri, num_out, max_out) {
        mailto_spec(uri_parts(uri).unwrap().1)
    } else {
        Some(empty_mailto())
    }
}

/// A `notify` does nothing: the message was sent automatically, the method
/// is not a URI, or the `mailto:` URI taken does not read.
pub open spec fn notify_skipped(
    headers: Seq<(Seq<char>, Option<Seq<char>>)>,
    uri: Seq<u8>,
    num_out: usize,
    max_out: usize,
) -> bool {
    is_auto_submitted(headers) || uri_parts(uri) is None || notify_params(uri, num_out, max_out) is None
}

/// The importance of a notification handed to the host.
pub open spec fn request_importance(importance: Option<Seq<u8>>) -> Importance {
    match importance {
        Some(i) => if i == seq![49u8] {
            Importance::High
        } else if i == seq![51u8] {
            Importance::Low
        } else {
            Importance::Normal
        },
        None => Importance::Normal,
    }
}

/// The importance headers of a notification message.
pub open spec fn message_importance(importance: Option<Seq<u8>>) -> (Seq<char>, Seq<char>) {
    match importance {
        Some(i) => if i == seq![49u8] {
            ("High"@, "1 (High)"@)
        } else if i == seq![51u8] {
            ("Low"@, "5 (Low)"@)
        } else {
            default_importance()
        },
        None => default_importance(),
    }
}

pub open spec fn opt_bytes(o: Option<&str>) -> Option<Seq<u8>> {
    match o {
        Some(s) => Some(s.spec_bytes()),
        None => None,
    }
}

/// Where a `mailto:` notification goes: each address of its `To`, `Cc` and
/// `Bcc` lists, as `recipient_address` reads it.
pub open spec fn notify_recipients(m: MailtoSpec) -> Seq<Seq<char>> {
    recipient_list(all_addresses(m))
}

/// Each address of a list, as `recipient_address` reads it.
pub open spec fn recipient_list(s: Seq<Seq<char>>) -> Seq<Seq<char>> {
    s.map_values(|a: Seq<char>| recipient_address(a))
}

fn recipients_of(params: &MailtoMessage) -> (r: Vec<String>)
    ensures
        strings_view(r@) == notify_recipients(params@),
{
    let ghost all = all_addresses(params@);
    let mut r: Vec<String> = Vec::new();
    push_recipients(&mut r, &params.to);
    push_recipients(&mut r, &params.cc);
    push_recipients(&mut r, &params.bcc);
    assert(recipient_list(strings_view(params.to@)) + recipient_list(strings_view(params.cc@)) + recipient_list(
        strings_view(params.bcc@),
    ) =~= recipient_list(all));
    r
}

fn push_recipients(r: &mut Vec<String>, list: &Vec<String>)
    ensures
        strings_view(final(r)@) == strings_view(old(r)@) + recipient_list(strings_view(list@)),
{
    let ghost start = strings_view(r@);
    let ghost lv = strings_view(list@);
    let mut i: usize = 0;
    while i < list.len()
        invariant
            i <= list@.len(),
            lv == strings_view(list@),
            strings_view(r@) == start + recipient_list(lv.take(i as int)),
        decreases list@.len() - i,
    {
        let ghost before = strings_view(r@);
        r.push(notify_recipient(list[i].as_str()));
        assert(lv[i as int] == list@[i as int]@);
        assert(recipient_list(lv.take(i + 1)) =~= recipient_list(lv.take(i as int)).push(
            recipient_address(lv[i as int]),
        ));
        assert(strings_view(r@) =~= before.push(recipient_address(lv[i as int])));
        i += 1;
    }
    assert(lv.take(list@.len() as int) =~= lv);
}

/// Decides a `notify` action: nothing when `notify_skipped` says so.
/// Otherwise, when the `mailto` method is taken or a copy is filed, the
/// notification message for the `mailto:` message (the empty one when the
/// method is not taken), sent with the sender `notify_sender` picks and
/// the importance given, dated `current_time` and with a fresh message id;
/// for the `mailto` method, its recipients; and for any other method, the
/// notification handed to the host with the sender given, the importance
/// given (normal when it names none), the text given (else the subject of
/// the message) and the method.
pub fn plan_notify(
    headers: &Vec<(String, Option<String>)>,
    uri: &str,
    has_fcc: bool,
    num_out_messages: usize,
    max_out_messages: usize,
    from: Option<&str>,
    importance: Option<&str>,
    text: Option<&str>,
    user_address: &str,
    user_full_name: &str,
    original_subject: Option<&str>,
    current_time: i64,
    hostname: &str,
) -> (r: Option<NotifyPlan>)
    ensures
        r is None <==> notify_skipped(named_texts_view(headers@), uri.spec_bytes(), num_out_messages, max_out_messages),
        r matches Some(p) ==> {
            let taken = mailto_taken(uri.spec_bytes(), num_out_messages, max_out_messages);
            let params = notify_params(uri.spec_bytes(), num_out_messages, max_out_messages).unwrap();
            &&& (p.message is Some <==> (taken || has_fcc))
            &&& (p.message matches Some(m) ==> exists|id: Seq<u8>|
                #![trigger notify_message_spec(params, notify_sender(opt_str_view(from), user_address@, user_full_name@), opt_str_view(text), message_importance(opt_bytes(importance)), opt_str_view(original_subject), rfc822_date_of(current_time), id)]
                m@ == notify_message_spec(
                    params,
                    notify_sender(opt_str_view(from), user_address@, user_full_name@),
                    opt_str_view(text),
                    message_importance(opt_bytes(importance)),
                    opt_str_view(original_subject),
                    rfc822_date_of(current_time),
                    id,
                ))
            &&& (p.recipients is Some <==> taken)
            &&& (p.recipients matches Some(rs) ==> strings_view(rs@) == notify_recipients(params))
            &&& (p.request is Some <==> !taken)
            &&& (p.request matches Some(q) ==> opt_string_view(q.from) == opt_str_view(from) && q.importance
                == request_importance(opt_bytes(importance)) && q.message@ == first_of(
                opt_str_view(text),
                opt_str_view(original_subject),
                None,
            ) && q.method@ == uri@)
        },
{
    if auto_submitted(headers) {
        return None;
    }
    let (scheme, rest) = match parse_uri(uri) {
        Some(parts) => parts,
        None => return None,
    };
    let mailto: [u8; 6] = [109, 97, 105, 108, 116, 111];
    let taken = bytes_eq_ignore_case(scheme.as_bytes(), &mailto) && num_out_messages < max_out_messages;
    assert(taken == mailto_taken(uri.spec_bytes(), num_out_messages, max_out_messages));
    let mut message: Option<Vec<u8>> = None;
    let mut recipients: Option<Vec<String>> = None;
    if taken || has_fcc {
        let params = if taken {
            match parse_mailto(rest) {
                Some(p) => p,
                None => return None,
            }
        } else {
            let p = MailtoMessage { to: Vec::new(), cc: Vec::new(), bcc: Vec::new(), body: None, headers: Vec::new() };
            assert(p@ =~= empty_mailto());
            p
        };
        assert(params@ == notify_params(uri.spec_bytes(), num_out_messages, max_out_messages).unwrap());
        let sender = notify_from(from, user_address, user_full_name);
        let imp = notify_importance_headers(importance);
        assert((imp.0@, imp.1@) == message_importance(opt_bytes(importance)));
        let m = build_notify_message(&params, sender.as_str(), text, imp, original_subject, current_time, hostname);
        message = Some(m);
        if taken {
            recipients = Some(recipients_of(&params));
        }
    }
    let request = if !taken {
        let imp = match importance {
            Some(i) => match lookup_importance(i) {
                Some(v) => v,
                None => Importance::Normal,
            },
            None => Importance::Normal,
        };
        let msg = match text {
            Some(t) => t.to_string(),
            None => match original_subject {
                Some(s) => s.to_string(),
                None => String::new(),
            },
        };
        Some(
            NotifyRequest {
                from: match from {
                    Some(f) => Some(f.to_string()),
                    None => None,
                },
                importance: imp,
                message: msg,
                method: uri.to_string(),
            },
        )
    } else {
        None
    };
    Some(NotifyPlan { message, recipients, request })
}

} // verus!

verus! {

/// The notification a `notify` with a method other than `mailto` hands to
/// the host.
pub struct Notification<'a> {
    pub from: Option<&'a str>,
    pub importance: Importance,
    pub options: &'a [&'a str],
    pub message: &'a str,
    pub method: &'a str,
}

/// The actions a `notify` queues (see `plan_notify` for its parts): the
/// message it made under the number `id`, sent to `recipients` for the
/// `mailto` method; the notification for any other method; and the filing
/// of the message numbered `fcc_id` when `:fcc` asked for it.
pub open spec fn notify_actions<'a>(
    id: usize,
    message: Option<Vec<u8>>,
    recipients: Option<Vec<&'a str>>,
    notification: Option<Notification<'a>>,
    fcc: Option<crate::runtime::actions::action_vacation::Fcc<'a>>,
    fcc_id: usize,
) -> Seq<Action<'a>> {
    let made = match message {
        Some(m) => seq![Action::CreatedMessage { message_id: id, message: m }] + match recipients {
            Some(to) => seq![
                Action::SendMessage {
                    source: MessageSource::Notification,
                    recipient: Recipient::Group(to),
                    notify: Notify::Never,
                    return_of_content: Ret::Default,
                    by_time: ByTime::Unset,
                    message_id: id,
                },
            ],
            None => Seq::<Action<'a>>::empty(),
        },
        None => Seq::<Action<'a>>::empty(),
    };
    let told = match notification {
        Some(n) => seq![
            Action::Notify {
                from: n.from,
                importance: n.importance,
                options: n.options,
                message: n.message,
                method: n.method,
            },
        ],
        None => Seq::<Action<'a>>::empty(),
    };
    let filed = match fcc {
        Some(f) => seq![
            Action::FileInto {
                folder: f.folder,
                flags: f.flags,
                mailbox_id: f.mailbox_id,
                special_use: f.special_use,
                create: f.create,
                message_id: fcc_id,
            },
        ],
        None => Seq::<Action<'a>>::empty(),
    };
    made + told + filed
}

/// Queues what a `notify` planned (see `notify_actions`): a message it made
/// gets the next number; a notification counts as one more message sent;
/// the copy filed is the last message numbered.
pub fn queue_notify<'a>(
    d: &mut Disposition,
    q: &mut ActionQueue<Action<'a>>,
    message: Option<Vec<u8>>,
    recipients: Option<Vec<&'a str>>,
    notification: Option<Notification<'a>>,
    fcc: Option<crate::runtime::actions::action_vacation::Fcc<'a>>,
)
    requires
        old(d).last_message_id < usize::MAX,
        old(d).num_out_messages < usize::MAX,
        old(q).inv(),
    ensures
        ({
            let id = if message is Some {
                (old(d).last_message_id + 1) as usize
            } else {
                old(d).last_message_id
            };
            &&& *final(d) == (Disposition {
                last_message_id: id,
                num_out_messages: if notification is Some {
                    (old(d).num_out_messages + 1) as usize
                } else {
                    old(d).num_out_messages
                },
                ..*old(d)
            })
            &&& final(q).inv()
            &&& final(q).waiting() == old(q).waiting() + notify_actions(
                (old(d).last_message_id + 1) as usize,
                message,
                recipients,
                notification,
                fcc,
                id,
            )
        }),
{
    let ghost m0 = message;
    let ghost r0 = recipients;
    let ghost n0 = notification;
    let ghost f0 = fcc;
    let ghost start = q.waiting();
    let ghost next_id = (d.last_message_id + 1) as usize;
    match message {
        Some(m) => {
            let id = d.next_message_id();
            q.push(Action::CreatedMessage { message_id: id, message: m });
            match recipients {
                Some(to) => {
                    q.push(
                        Action::SendMessage {
                            source: MessageSource::Notification,
                            recipient: Recipient::Group(to),
                            notify: Notify::Never,
                            return_of_content: Ret::Default,
                            by_time: ByTime::Unset,
                            message_id: id,
                        },
                    );
                },
                None => {},
            }
        },
        None => {},
    }
    let ghost after_made = q.waiting();
    match notification {
        Some(n) => {
            q.push(
                Action::Notify {
                    from: n.from,
                    importance: n.importance,
                    options: n.options,
                    message: n.message,
                    method: n.method,
                },
            );
            d.count_out_message();
        },
        None => {},
    }
    let ghost after_told = q.waiting();
    match fcc {
        Some(f) => {
            q.push(
                Action::FileInto {
                    folder: f.folder,
                    flags: f.flags,
                    mailbox_id: f.mailbox_id,
                    special_use: f.special_use,
                    create: f.create,
                    message_id: d.last_message_id,
                },
            );
        },
        None => {},
    }
    assert(q.waiting() =~= start + notify_actions(next_id, m0, r0, n0, f0, d.last_message_id));
}

} // verus!

verus! {

/// A URI written as a scheme without `:`, a `:` and a non-empty rest splits
/// into that scheme and that rest.
pub proof fn lemma_uri_parts_of(scheme: Seq<u8>, rest: Seq<u8>)
    requires
        forall|j: int| 0 <= j < scheme.len() ==> scheme[j] != COLON,
        rest.len() > 0,
    ensures
        uri_parts(scheme + seq![COLON] + rest) == Some((scheme, rest)),
{
    let s = scheme + seq![COLON] + rest;
    let k = scheme.len() as int;
    assert(is_first_colon(s, k));
    let c = choose|m: int| is_first_colon(s, m);
    lemma_first_colon_unique(s, k, c);
    assert(s.subrange(0, k) =~= scheme);
    assert(s.subrange(k + 1, s.len() as int) =~= rest);
}

/// The notification methods `xmpp`, `tel`, `http` and `https` (in lower
/// case, as written) are accepted with whatever non-empty part follows the
/// `:`, and the method is the scheme.
pub proof fn lemma_plain_methods_accepted(rest: Seq<u8>)
    requires
        rest.len() > 0,
    ensures
        uri_method(seq![120u8, 109, 112, 112] + seq![COLON] + rest) == Some(seq![120u8, 109, 112, 112]),
        uri_method(seq![116u8, 101, 108] + seq![COLON] + rest) == Some(seq![116u8, 101, 108]),
        uri_method(seq![104u8, 116, 116, 112] + seq![COLON] + rest) == Some(seq![104u8, 116, 116, 112]),
        uri_method(seq![104u8, 116, 116, 112, 115] + seq![COLON] + rest) == Some(seq![104u8, 116, 116, 112, 115]),
{
    lemma_uri_parts_of(seq![120u8, 109, 112, 112], rest);
    lemma_uri_parts_of(seq![116u8, 101, 108], rest);
    lemma_uri_parts_of(seq![104u8, 116, 116, 112], rest);
    lemma_uri_parts_of(seq![104u8, 116, 116, 112, 115], rest);
}

/// A scheme other than `mailto` (in any case) and the four plain methods
/// names no notification method.
pub proof fn lemma_other_schemes_refused(scheme: Seq<u8>, rest: Seq<u8>)
    requires
        forall|j: int| 0 <= j < scheme.len() ==> scheme[j] != COLON,
        rest.len() > 0,
        !eq_ignore_case(scheme, mailto_word()),
        scheme != seq![120u8, 109, 112, 112],
        scheme != seq![116u8, 101, 108],
        scheme != seq![104u8, 116, 116, 112],
        scheme != seq![104u8, 116, 116, 112, 115],
    ensures
        uri_method(scheme + seq![COLON] + rest) is None,
{
    lemma_uri_parts_of(scheme, rest);
}

/// `mailto` is the method in any ASCII case, and only with a valid
/// `mailto:` part: the method is the scheme as written.
pub proof fn lemma_mailto_method(scheme: Seq<u8>, rest: Seq<u8>)
    requires
        forall|j: int| 0 <= j < scheme.len() ==> scheme[j] != COLON,
        rest.len() > 0,
        scheme.len() == 6,
        forall|j: int| 0 <= j < 6 ==> lower(#[trigger] scheme[j]) == lower(seq![109u8, 97, 105, 108, 116, 111][j]),
    ensures
        uri_method(scheme + seq![COLON] + rest) == if mailto_spec(rest) is Some {
            Some(scheme)
        } else {
            None
        },
{
    lemma_uri_parts_of(scheme, rest);
    assert(eq_ignore_case(scheme, mailto_word()));
}

} // verus!
