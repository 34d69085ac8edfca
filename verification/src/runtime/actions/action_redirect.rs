//! Redirecting a message (RFC 5228, section 4.2) and delivery-status and
//! deliver-by requests (RFC 6009, RFC 6134): cleaning up the address and
//! decoding the options.

use crate::compiler::grammar::{ByMode, NotifyItem, Ret};
use crate::text::{push_char, str_chars};
use vstd::prelude::*;

verus! {

/// What the clean-up of an address has kept and seen so far.
pub struct AddrScan {
    pub result: Seq<char>,
    pub in_quote: bool,
    pub last_ch: char,
    pub has_at: bool,
    pub has_dot: bool,
}

pub open spec fn is_ascii_ws_char(c: char) -> bool {
    c == ' ' || c == '\t' || c == '\n' || c == '\x0C' || c == '\r'
}

/// One character of an address: nothing when it holds a second `@` (or
/// one with nothing before it) outside quotes.
pub open spec fn addr_step(s: AddrScan, ch: char) -> Option<AddrScan> {
    let s2 = if ch == '"' {
        Some(
            AddrScan {
                in_quote: if !s.in_quote {
                    true
                } else if s.last_ch != '\\' {
                    false
                } else {
                    true
                },
                ..s
            },
        )
    } else if ch == '@' && !s.in_quote {
        if !s.has_at && s.result.len() > 0 {
            Some(AddrScan { has_at: true, result: s.result.push(ch), ..s })
        } else {
            None
        }
    } else if ch == '.' && !s.in_quote && s.has_at && !s.has_dot {
        Some(AddrScan { has_dot: true, result: s.result.push(ch), ..s })
    } else if ch == '<' {
        Some(AddrScan { result: Seq::empty(), has_at: false, has_dot: false, ..s })
    } else if ch == '>' {
        Some(s)
    } else if !is_ascii_ws_char(ch) || s.in_quote {
        Some(AddrScan { result: s.result.push(ch), ..s })
    } else {
        Some(s)
    };
    match s2 {
        Some(t) => Some(AddrScan { last_ch: ch, ..t }),
        None => None,
    }
}

pub open spec fn addr_run(s: AddrScan, input: Seq<char>) -> Option<AddrScan>
    decreases input.len(),
{
    if input.len() == 0 {
        Some(s)
    } else {
        match addr_step(s, input[0]) {
            Some(t) => addr_run(t, input.drop_first()),
            None => None,
        }
    }
}

/// The address a redirect goes to: the part inside the last `<...>`,
/// without white space outside quotes, which must hold one `@` with text
/// before it and a dot after it.
pub open spec fn sanitized_address(addr: Seq<char>) -> Option<Seq<char>> {
    let start = AddrScan { result: Seq::empty(), in_quote: false, last_ch: '\n', has_at: false, has_dot: false };
    match addr_run(start, addr) {
        Some(s) => if s.result.len() > 0 && s.has_at && s.has_dot {
            Some(s.result)
        } else {
            None
        },
        None => None,
    }
}

/// Cleans up the address of a redirect (see `sanitized_address`).
pub fn sanitize_address(addr: &str) -> (r: Option<String>)
    ensures
        match sanitized_address(addr@) {
            Some(a) => r matches Some(s) && s@ == a,
            None => r is None,
        },
        r matches Some(s) ==> s@.len() > 0 && s@.contains('@') && s@.contains('.') && (forall|k: int|
            0 <= k < s@.len() ==> #[trigger] s@[k] != '<' && s@[k] != '>' && s@[k] != '"') && (!addr@.contains('"')
            ==> forall|k: int| 0 <= k < s@.len() ==> !is_ascii_ws_char(#[trigger] s@[k])),
{
    proof {
        if sanitized_address(addr@) is Some {
            lemma_sanitized_shape(addr@);
        }
    }
    let c = str_chars(addr);
    let mut result = String::new();
    let mut in_quote = false;
    let mut last_ch = '\n';
    let mut has_at = false;
    let mut has_dot = false;
    let ghost start = AddrScan { result: Seq::empty(), in_quote: false, last_ch: '\n', has_at: false, has_dot: false };
    assert(addr@.subrange(0, addr@.len() as int) =~= addr@);
    let mut i: usize = 0;
    while i < c.len()
        invariant
            c@ == addr@,
            i <= c@.len(),
            addr_run(start, addr@) == addr_run(
                AddrScan { result: result@, in_quote, last_ch, has_at, has_dot },
                addr@.subrange(i as int, addr@.len() as int),
            ),
            start == (AddrScan { result: Seq::empty(), in_quote: false, last_ch: '\n', has_at: false, has_dot: false }),
        decreases c@.len() - i,
    {
        let ch = c[i];
        let ghost rest = addr@.subrange(i as int, addr@.len() as int);
        assert(rest[0] == ch);
        assert(rest.drop_first() =~= addr@.subrange(i + 1, addr@.len() as int));
        if ch == '"' {
            if !in_quote {
                in_quote = true;
            } else if last_ch != '\\' {
                in_quote = false;
            }
        } else if ch == '@' && !in_quote {
            if !has_at && result.as_str().unicode_len() > 0 {
                has_at = true;
                push_char(&mut result, ch);
            } else {
                return None;
            }
        } else if ch == '.' && !in_quote && has_at && !has_dot {
            has_dot = true;
            push_char(&mut result, ch);
        } else if ch == '<' {
            result = String::new();
            has_at = false;
            has_dot = false;
        } else if ch == '>' {
        } else if !(ch == ' ' || ch == '\t' || ch == '\n' || ch == '\x0C' || ch == '\r') || in_quote {
            push_char(&mut result, ch);
        }
        last_ch = ch;
        i += 1;
    }
    assert(addr@.subrange(c@.len() as int, addr@.len() as int) =~= Seq::<char>::empty());
    if result.as_str().unicode_len() > 0 && has_at && has_dot {
        Some(result)
    } else {
        None
    }
}

/// What a scan keeps: the `@` and the dot it noted are in its result,
/// which holds no `<`, `>` or `"`; and before any `"` was read it is not
/// inside quotes and has kept no white space.
pub open spec fn scan_shape(s: AddrScan, quoted: bool) -> bool {
    &&& s.has_at ==> s.result.contains('@')
    &&& s.has_dot ==> s.result.contains('.')
    &&& forall|k: int| 0 <= k < s.result.len() ==> #[trigger] s.result[k] != '<' && s.result[k] != '>'
        && s.result[k] != '"'
    &&& !quoted ==> !s.in_quote && forall|k: int| 0 <= k < s.result.len() ==> !is_ascii_ws_char(
        #[trigger] s.result[k],
    )
}

proof fn lemma_scan_shape(s: AddrScan, quoted: bool, input: Seq<char>)
    requires
        scan_shape(s, quoted),
        addr_run(s, input) is Some,
    ensures
        scan_shape(addr_run(s, input).unwrap(), quoted || input.contains('"')),
    decreases input.len(),
{
    if input.len() > 0 {
        let ch = input[0];
        let t = addr_step(s, ch).unwrap();
        let q2 = quoted || ch == '"';
        assert(s.result.push(ch).last() == ch);
        assert forall|c: char| #[trigger] s.result.contains(c) implies s.result.push(ch).contains(c) by {
            let k = choose|k: int| 0 <= k < s.result.len() && s.result[k] == c;
            assert(s.result.push(ch)[k] == c);
        }
        assert(scan_shape(t, q2)) by {
            if ch == '@' && !s.in_quote {
                assert(t.result[t.result.len() - 1] == '@');
            } else if ch == '.' && !s.in_quote && s.has_at && !s.has_dot {
                assert(t.result[t.result.len() - 1] == '.');
            }
        }
        lemma_scan_shape(t, q2, input.drop_first());
        if input.drop_first().contains('"') {
            let k = choose|k: int| 0 <= k < input.drop_first().len() && input.drop_first()[k] == '"';
            assert(input[k + 1] == '"');
        }
        if ch == '"' {
            assert(input[0] == '"');
        }
    }
}

/// A cleaned address is not empty, holds an `@` and a dot, and holds no
/// `<`, `>` or `"`; it holds white space only when the address had a `"`.
pub proof fn lemma_sanitized_shape(addr: Seq<char>)
    requires
        sanitized_address(addr) is Some,
    ensures
        ({
            let r = sanitized_address(addr).unwrap();
            &&& r.len() > 0
            &&& r.contains('@')
            &&& r.contains('.')
            &&& forall|k: int| 0 <= k < r.len() ==> #[trigger] r[k] != '<' && r[k] != '>' && r[k] != '"'
            &&& !addr.contains('"') ==> forall|k: int| 0 <= k < r.len() ==> !is_ascii_ws_char(#[trigger] r[k])
        }),
{
    let start = AddrScan { result: Seq::empty(), in_quote: false, last_ch: '\n', has_at: false, has_dot: false };
    lemma_scan_shape(start, false, addr);
}

/// The return-of-content option a code stands for; every code above 1
/// stands for the default.
pub open spec fn ret_of_code(code: u8) -> Ret {
    if code == 0 {
        Ret::Full
    } else if code == 1 {
        Ret::Hdrs
    } else {
        Ret::Default
    }
}

/// The deliver-by mode a code stands for; every code above 1 stands for
/// the default.
pub open spec fn by_mode_of_code(code: u8) -> ByMode {
    if code == 0 {
        ByMode::Notify
    } else if code == 1 {
        ByMode::Return
    } else {
        ByMode::Default
    }
}

/// The delivery-status condition a code stands for; every code above 1
/// stands for a delay.
pub open spec fn notify_item_of_code(code: u8) -> NotifyItem {
    if code == 0 {
        NotifyItem::Success
    } else if code == 1 {
        NotifyItem::Failure
    } else {
        NotifyItem::Delay
    }
}

/// Decodes a return-of-content option.
pub fn ret_from_code(code: u8) -> (r: Ret)
    ensures
        r == ret_of_code(code),
{
    match code {
        0 => Ret::Full,
        1 => Ret::Hdrs,
        _ => Ret::Default,
    }
}

/// Decodes a deliver-by mode.
pub fn by_mode_from_code(code: u8) -> (r: ByMode)
    ensures
        r == by_mode_of_code(code),
{
    match code {
        0 => ByMode::Notify,
        1 => ByMode::Return,
        _ => ByMode::Default,
    }
}

/// Decodes the delivery-status conditions of a request.
pub fn notify_items(codes: &[u8]) -> (r: Vec<NotifyItem>)
    ensures
        r@ == codes@.map_values(|c: u8| notify_item_of_code(c)),
{
    let mut r: Vec<NotifyItem> = Vec::new();
    let mut i: usize = 0;
    while i < codes.len()
        invariant
            i <= codes@.len(),
            r@ == codes@.subrange(0, i as int).map_values(|c: u8| notify_item_of_code(c)),
        decreases codes@.len() - i,
    {
        let item = match codes[i] {
            0 => NotifyItem::Success,
            1 => NotifyItem::Failure,
            _ => NotifyItem::Delay,
        };
        r.push(item);
        i += 1;
        assert(r@ =~= codes@.subrange(0, i as int).map_values(|c: u8| notify_item_of_code(c)));
    }
    assert(codes@.subrange(0, codes@.len() as int) =~= codes@);
    r
}

} // verus!

verus! {

/// The fields of a date and time as the message parser reads them.
#[derive(Debug, Clone, Copy, PartialEq, Eq, Structural)]
pub struct DateParts {
    pub year: u16,
    pub month: u8,
    pub day: u8,
    pub hour: u8,
    pub minute: u8,
    pub second: u8,
    pub tz_before_gmt: bool,
    pub tz_hour: u8,
    pub tz_minute: u8,
}

/// What `DateTime::parse_rfc3339` of the message parser reads in `s`.
pub uninterp spec fn rfc3339_date(s: Seq<char>) -> Option<DateParts>;

/// What `DateTime::to_timestamp` of the message parser gives for `d`: the
/// Unix time of the date, its time zone applied.
pub uninterp spec fn date_timestamp_of(d: DateParts) -> i64;

/// `mail_parser::DateTime::parse_rfc3339`: the fields of the RFC 3339 date
/// in `s`, or nothing; its reading of the text is named, not stated.
#[verifier::external_body]
fn parse_rfc3339(s: &str) -> (r: Option<DateParts>)
    ensures
        r == rfc3339_date(s@),
{
    mail_parser::DateTime::parse_rfc3339(s).map(
        |d: mail_parser::DateTime|
            DateParts {
                year: d.year,
                month: d.month,
                day: d.day,
                hour: d.hour,
                minute: d.minute,
                second: d.second,
                tz_before_gmt: d.tz_before_gmt,
                tz_hour: d.tz_hour,
                tz_minute: d.tz_minute,
            },
    )
}

/// `mail_parser::DateTime::to_timestamp`: the Unix time of the date `d`;
/// the calendar arithmetic is named, not stated.
#[verifier::external_body]
pub(crate) fn date_timestamp(d: DateParts) -> (r: i64)
    ensures
        r == date_timestamp_of(d),
{
    mail_parser::DateTime {
        year: d.year,
        month: d.month,
        day: d.day,
        hour: d.hour,
        minute: d.minute,
        second: d.second,
        tz_before_gmt: d.tz_before_gmt,
        tz_hour: d.tz_hour,
        tz_minute: d.tz_minute,
    }.to_timestamp()
}

/// A date whose fields are in range, as `DateTime::is_valid` of the message
/// parser checks them: a year from 1900 to 3000, a month from 1 to 12, a
/// day from 1 to 31, and a time and a time zone within a day.
pub open spec fn valid_date(d: DateParts) -> bool {
    &&& d.tz_hour <= 23
    &&& 1900 <= d.year <= 3000
    &&& d.tz_minute <= 59
    &&& 1 <= d.month <= 12
    &&& 1 <= d.day <= 31
    &&& d.hour <= 23
    &&& d.minute <= 59
    &&& d.second <= 59
}

/// Whether the fields of a date are in range (see `valid_date`).
pub fn is_valid_date(d: &DateParts) -> (r: bool)
    ensures
        r == valid_date(*d),
{
    d.tz_hour <= 23 && 1900 <= d.year && d.year <= 3000 && d.tz_minute <= 59 && 1 <= d.month
        && d.month <= 12 && 1 <= d.day && d.day <= 31 && d.hour <= 23 && d.minute <= 59 && d.second
        <= 59
}

/// The limit of an absolute deliver-by time: the Unix time of the RFC 3339
/// date in the text, or 0 when the text holds no valid date.
pub open spec fn deliver_by_limit(s: Seq<char>) -> i64 {
    match rfc3339_date(s) {
        Some(d) => if valid_date(d) {
            date_timestamp_of(d)
        } else {
            0
        },
        None => 0,
    }
}

/// Reads the limit of an absolute deliver-by time (see `deliver_by_limit`).
pub fn deliver_by_time(s: &str) -> (r: i64)
    ensures
        r == deliver_by_limit(s@),
{
    match parse_rfc3339(s) {
        Some(d) => {
            if is_valid_date(&d) {
                date_timestamp(d)
            } else {
                0
            }
        },
        None => 0,
    }
}

/// The counts that bound the messages a script may send.
pub struct SendLimits {
    pub num_redirects: usize,
    pub max_redirects: usize,
    pub num_out_messages: usize,
    pub max_out_messages: usize,
    pub received_headers: usize,
    pub max_received_headers: usize,
}

/// No more redirects: the script has redirected or sent as many messages as
/// it may, or the message has passed as many hosts (`Received` headers) as
/// a redirected message may have.
pub open spec fn send_limit_reached(l: SendLimits) -> bool {
    l.num_redirects >= l.max_redirects || l.num_out_messages >= l.max_out_messages
        || l.received_headers >= l.max_received_headers
}

/// What a `redirect` does: nothing when the address is not valid, a limit
/// is reached, or (to a single address) the address is the user's own
/// (ASCII case aside); otherwise it sends to the cleaned-up address, and
/// cancels the implicit keep unless `:copy` is given.
pub open spec fn redirect_decision(
    address: Seq<char>,
    list: bool,
    copy: bool,
    keep_pending: bool,
    user_address: Seq<char>,
    limits: SendLimits,
) -> Option<(Seq<char>, bool)> {
    match sanitized_address(address) {
        Some(a) => if send_limit_reached(limits) {
            None
        } else if !list && crate::runtime::actions::action_flags::eq_ignore_ascii_case(a, user_address) {
            None
        } else {
            Some((a, !copy && keep_pending))
        },
        None => None,
    }
}

/// A redirect to carry out: where to, and whether the implicit keep goes.
pub struct RedirectPlan {
    pub address: String,
    pub cancel_keep: bool,
}

/// Decides a `redirect` (see `redirect_decision`).
pub fn plan_redirect(
    address: &str,
    list: bool,
    copy: bool,
    keep_pending: bool,
    user_address: &str,
    limits: &SendLimits,
) -> (r: Option<RedirectPlan>)
    ensures
        match r {
            Some(p) => redirect_decision(address@, list, copy, keep_pending, user_address@, *limits)
                == Some((p.address@, p.cancel_keep)),
            None => redirect_decision(address@, list, copy, keep_pending, user_address@, *limits) is None,
        },
{
    let a = match sanitize_address(address) {
        Some(a) => a,
        None => return None,
    };
    if limits.num_redirects >= limits.max_redirects || limits.num_out_messages >= limits.max_out_messages
        || limits.received_headers >= limits.max_received_headers {
        return None;
    }
    if !list && crate::runtime::actions::action_flags::str_eq_ignore_ascii_case(a.as_str(), user_address) {
        return None;
    }
    Some(RedirectPlan { address: a, cancel_keep: !copy && keep_pending })
}

} // verus!

verus! {

/// A redirect goes out only within the limits: when the script has
/// redirected as many times as it may, has sent as many messages as it
/// may, or the message has passed as many hosts as a redirected message
/// may, nothing is redirected, whatever the address.
pub proof fn lemma_redirect_within_limits(
    address: Seq<char>,
    list: bool,
    copy: bool,
    keep_pending: bool,
    user_address: Seq<char>,
    limits: SendLimits,
)
    requires
        limits.num_redirects >= limits.max_redirects || limits.num_out_messages >= limits.max_out_messages
            || limits.received_headers >= limits.max_received_headers,
    ensures
        redirect_decision(address, list, copy, keep_pending, user_address, limits) is None,
{
}

/// Within the limits, a valid address that is not the user's own (or any
/// valid address, for a list) is redirected to as it was cleaned up, and
/// the implicit keep goes exactly when the redirect is no copy and a keep
/// was pending.
pub proof fn lemma_redirect_goes_out(
    address: Seq<char>,
    list: bool,
    copy: bool,
    keep_pending: bool,
    user_address: Seq<char>,
    limits: SendLimits,
)
    requires
        sanitized_address(address) is Some,
        limits.num_redirects < limits.max_redirects,
        limits.num_out_messages < limits.max_out_messages,
        limits.received_headers < limits.max_received_headers,
        list || !crate::runtime::actions::action_flags::eq_ignore_ascii_case(
            sanitized_address(address).unwrap(),
            user_address,
        ),
    ensures
        redirect_decision(address, list, copy, keep_pending, user_address, limits) == Some(
            (sanitized_address(address).unwrap(), !copy && keep_pending),
        ),
{
}

/// A character that needs no cleaning in an address: no quote, angle
/// bracket, white space or `@`.
pub open spec fn plain_addr_char(c: char) -> bool {
    c != '"' && c != '<' && c != '>' && c != '@' && !is_ascii_ws_char(c)
}

proof fn lemma_addr_run_concat(s: AddrScan, a: Seq<char>, b: Seq<char>)
    ensures
        addr_run(s, a + b) == match addr_run(s, a) {
            Some(t) => addr_run(t, b),
            None => None,
        },
    decreases a.len(),
{
    if a.len() == 0 {
        assert(a + b =~= b);
    } else {
        assert((a + b)[0] == a[0]);
        assert((a + b).drop_first() =~= a.drop_first() + b);
        match addr_step(s, a[0]) {
            Some(t) => lemma_addr_run_concat(t, a.drop_first(), b),
            None => {},
        }
    }
}

/// Plain characters outside quotes are kept one by one; a dot after the
/// `@` marks the domain as having one.
proof fn lemma_addr_run_plain(s: AddrScan, input: Seq<char>)
    requires
        !s.in_quote,
        forall|k: int| 0 <= k < input.len() ==> plain_addr_char(#[trigger] input[k]),
    ensures
        addr_run(s, input) matches Some(t) && t.result == s.result + input && !t.in_quote && t.has_at == s.has_at
            && t.has_dot == (s.has_dot || (s.has_at && input.contains('.'))),
    decreases input.len(),
{
    if input.len() == 0 {
        assert(s.result + input =~= s.result);
    } else {
        let c = input[0];
        assert(plain_addr_char(c));
        let t = addr_step(s, c).unwrap();
        assert(t.result == s.result.push(c));
        assert forall|k: int| 0 <= k < input.drop_first().len() implies plain_addr_char(#[trigger] input.drop_first()[k]) by {
            assert(input.drop_first()[k] == input[k + 1]);
        }
        lemma_addr_run_plain(t, input.drop_first());
        assert(s.result.push(c) + input.drop_first() =~= s.result + input);
        if input.contains('.') && c != '.' {
            let k = choose|k: int| 0 <= k < input.len() && input[k] == '.';
            assert(input.drop_first()[k - 1] == '.');
        }
        if input.drop_first().contains('.') {
            let k = choose|k: int| 0 <= k < input.drop_first().len() && input.drop_first()[k] == '.';
            assert(input[k + 1] == '.');
        }
        if c == '.' {
            assert(input[0] == '.');
        }
    }
}

/// An address written plainly, `local@domain` with text before the `@`, a
/// dot after it, and no quote, angle bracket or white space, is redirected
/// to as it is written.
pub proof fn lemma_plain_address_kept(local: Seq<char>, domain: Seq<char>)
    requires
        local.len() > 0,
        forall|k: int| 0 <= k < local.len() ==> plain_addr_char(#[trigger] local[k]),
        forall|k: int| 0 <= k < domain.len() ==> plain_addr_char(#[trigger] domain[k]),
        domain.contains('.'),
    ensures
        sanitized_address(local + seq!['@'] + domain) == Some(local + seq!['@'] + domain),
{
    let start = AddrScan { result: Seq::empty(), in_quote: false, last_ch: '\n', has_at: false, has_dot: false };
    lemma_addr_run_concat(start, local, seq!['@'] + domain);
    assert(local + seq!['@'] + domain =~= local + (seq!['@'] + domain));
    lemma_addr_run_plain(start, local);
    let t = addr_run(start, local).unwrap();
    assert(t.result =~= local);
    lemma_addr_run_concat(t, seq!['@'], domain);
    assert(seq!['@'].drop_first() =~= Seq::<char>::empty());
    let u = addr_step(t, '@').unwrap();
    assert(seq!['@'][0] == '@');
    assert(addr_run(u, Seq::<char>::empty()) == Some(u));
    assert(addr_run(t, seq!['@']) == Some(u));
    lemma_addr_run_plain(u, domain);
    assert(u.result + domain =~= local + seq!['@'] + domain);
}

} // verus!
