//! Writing out the message being filtered: the parsed MIME tree, with the
//! headers and parts that actions changed, back to bytes.

use crate::header::{HeaderName, OTHER_HEADER_ID};
use crate::runtime::actions::action_editheader::same_header;
use vstd::prelude::*;
use vstd::utf8::encode_utf8;

verus! {

/// A header of a message part: its name, its text, and where it stands in
/// the raw message (all offsets 0 for a header an action added).
#[derive(Debug, Clone, PartialEq, Eq)]
pub struct HeaderModel {
    pub name: HeaderName,
    pub text: Option<String>,
    pub offset_field: u32,
    pub offset_start: u32,
    pub offset_end: u32,
}

/// The body of a message part: its contents, a message of its own, or the
/// numbers of its sub-parts.
pub enum BodyModel {
    Contents(Vec<u8>),
    Message(Box<MessageModel>),
    Multipart(Vec<u32>),
}

/// A message part: its headers, its body, whether its body is encoded, and
/// where it stands in the raw message (`offset_body` 0 for a part an action
/// made or changed).
pub struct PartModel {
    pub headers: Vec<HeaderModel>,
    pub body: BodyModel,
    pub encoded: bool,
    pub offset_header: u32,
    pub offset_body: u32,
    pub offset_end: u32,
}

/// A message: its parts (the first one the root) and its raw bytes.
pub struct MessageModel {
    pub parts: Vec<PartModel>,
    pub raw: Vec<u8>,
}

/// What the writer carries from part to part: the bytes written, the offset
/// in the raw message up to which the bytes are written, and the boundary
/// of the enclosing multipart.
pub struct WriteState {
    pub out: Seq<u8>,
    pub last: int,
    pub boundary: Seq<char>,
}

pub open spec fn crlf() -> Seq<u8> {
    seq![13u8, 10]
}

/// The raw bytes from `a` to `b`; nothing when they are not a range of the
/// raw message.
pub open spec fn raw_range(raw: Seq<u8>, a: int, b: int) -> Option<Seq<u8>> {
    if 0 <= a <= b <= raw.len() {
        Some(raw.subrange(a, b))
    } else {
        None
    }
}

/// The lines of a header: copied from the raw message when it comes from
/// there (with its name written out again when the action renamed it),
/// written out as `name: text` otherwise.
pub open spec fn header_bytes(raw: Seq<u8>, h: HeaderModel) -> Option<Seq<u8>> {
    if h.offset_end != 0 {
        if h.offset_field != h.offset_start {
            raw_range(raw, h.offset_field as int, h.offset_end as int)
        } else {
            match raw_range(raw, h.offset_start as int, h.offset_end as int) {
                Some(v) => Some(encode_utf8(h.name.name@) + seq![58u8] + v),
                None => None,
            }
        }
    } else {
        Some(
            encode_utf8(h.name.name@) + seq![58u8, 32] + match h.text {
                Some(t) => encode_utf8(t@),
                None => seq![],
            } + crlf(),
        )
    }
}

/// The headers of a part written one after the other.
pub open spec fn headers_bytes(raw: Seq<u8>, hs: Seq<HeaderModel>) -> Option<Seq<u8>>
    decreases hs.len(),
{
    if hs.len() == 0 {
        Some(seq![])
    } else {
        match (headers_bytes(raw, hs.drop_last()), header_bytes(raw, hs.last())) {
            (Some(a), Some(b)) => Some(a + b),
            _ => None,
        }
    }
}

/// The `Content-Type` header an action added to a part (the last one).
pub open spec fn added_content_type(hs: Seq<HeaderModel>) -> Option<int>
    decreases hs.len(),
{
    if hs.len() == 0 {
        None
    } else if hs.last().offset_end == 0 && same_header(hs.last().name@, (OTHER_HEADER_ID, "Content-Type"@)) {
        Some(hs.len() - 1)
    } else {
        added_content_type(hs.drop_last())
    }
}

/// Where `n` first occurs in `h`.
pub open spec fn first_occurrence(h: Seq<char>, n: Seq<char>) -> Option<int>
    decreases h.len(),
{
    if n.len() <= h.len() && h.take(n.len() as int) == n {
        Some(0)
    } else if h.len() == 0 {
        None
    } else {
        match first_occurrence(h.drop_first(), n) {
            Some(k) => Some(k + 1),
            None => None,
        }
    }
}

/// The boundary a `Content-Type` text names: what stands between
/// `boundary="` and the next `"`.
pub open spec fn boundary_in(t: Seq<char>) -> Option<Seq<char>> {
    match first_occurrence(t, "boundary=\""@) {
        Some(k) => {
            let rest = t.skip(k + 10);
            match first_occurrence(rest, "\""@) {
                Some(j) => Some(rest.take(j)),
                None => None,
            }
        },
        None => None,
    }
}

/// The boundary of a multipart an action made: the one its added
/// `Content-Type` names, else `invalid-boundary`.
pub open spec fn part_boundary(hs: Seq<HeaderModel>) -> Seq<char> {
    match added_content_type(hs) {
        Some(p) => match hs[p].text {
            Some(t) => match boundary_in(t@) {
                Some(b) => b,
                None => "invalid-boundary"@,
            },
            None => "invalid-boundary"@,
        },
        None => "invalid-boundary"@,
    }
}

/// What precedes a part: the raw bytes since the last ones written, or, for
/// a part an action made inside a multipart (and not the root of a message),
/// the boundary line.
pub open spec fn part_prefix(raw: Seq<u8>, p: PartModel, st: WriteState, in_message: bool) -> Option<Seq<u8>> {
    if st.last > 0 {
        raw_range(raw, st.last, p.offset_header as int)
    } else if st.boundary.len() > 0 && p.offset_end == 0 && !in_message {
        Some(encode_utf8("\r\n--"@) + encode_utf8(st.boundary) + crlf())
    } else {
        Some(seq![])
    }
}

/// The part `p` of `msg` and everything below it written after `st`, with
/// at most `depth` levels of sub-parts; nothing when an offset falls
/// outside the raw message or the sub-parts nest deeper (which, with
/// `depth` the number of parts, only parts that contain themselves do).
pub open spec fn write_part(msg: MessageModel, p: int, st: WriteState, in_message: bool, depth: nat) -> Option<
    WriteState,
>
    decreases msg, depth, 0int,
{
    if 0 <= p < msg.parts@.len() && depth > 0 {
        let part = msg.parts@[p];
        let raw = msg.raw@;
        match (part_prefix(raw, part, st, in_message), headers_bytes(raw, part.headers@)) {
            (Some(pre), Some(hb)) => {
                let out = st.out + pre + hb + if part.offset_body != 0 || part.encoded {
                    crlf()
                } else {
                    seq![]
                };
                if part.offset_body != 0 {
                    match part.body {
                        BodyModel::Multipart(sub) => match write_list(
                            msg,
                            sub@,
                            WriteState { out, last: part.offset_body as int, boundary: st.boundary },
                            (depth - 1) as nat,
                        ) {
                            Some(after) => match raw_range(raw, after.last, part.offset_end as int) {
                                Some(tail) => Some(
                                    WriteState { out: after.out + tail, last: part.offset_end as int, boundary: st.boundary },
                                ),
                                None => None,
                            },
                            None => None,
                        },
                        _ => match raw_range(raw, part.offset_body as int, part.offset_end as int) {
                            Some(body) => Some(
                                WriteState { out: out + body, last: part.offset_end as int, boundary: st.boundary },
                            ),
                            None => None,
                        },
                    }
                } else {
                    match part.body {
                        BodyModel::Message(nested) => match write_message(
                            *nested,
                            WriteState { out, last: st.last, boundary: st.boundary },
                        ) {
                            Some(after) => Some(WriteState { out: after.out, last: 0, boundary: st.boundary }),
                            None => None,
                        },
                        BodyModel::Multipart(sub) => {
                            let b = part_boundary(part.headers@);
                            match write_list(msg, sub@, WriteState { out, last: st.last, boundary: b }, (depth - 1) as nat) {
                                Some(after) => Some(
                                    WriteState {
                                        out: after.out + if b.len() > 0 {
                                            encode_utf8("\r\n--"@) + encode_utf8(b) + encode_utf8("--\r\n"@)
                                        } else {
                                            seq![]
                                        },
                                        last: after.last,
                                        boundary: st.boundary,
                                    },
                                ),
                                None => None,
                            }
                        },
                        BodyModel::Contents(c) => Some(
                            WriteState { out: out + c@, last: part.offset_end as int, boundary: st.boundary },
                        ),
                    }
                }
            },
            _ => None,
        }
    } else {
        None
    }
}

/// The sub-parts `ids` written one after the other; the writing stops at
/// the first number that is no part.
pub open spec fn write_list(msg: MessageModel, ids: Seq<u32>, st: WriteState, depth: nat) -> Option<WriteState>
    decreases msg, depth, ids.len() + 1,
{
    if ids.len() == 0 {
        Some(st)
    } else if ids[0] >= msg.parts@.len() {
        Some(st)
    } else {
        match write_part(msg, ids[0] as int, st, false, depth) {
            Some(next) => write_list(msg, ids.drop_first(), next, depth),
            None => None,
        }
    }
}

/// A nested message written after `st`: its root part (with the offset the
/// writer had, now read in the nested raw message), then, when raw bytes
/// were being copied, the rest of its raw message.
pub open spec fn write_message(msg: MessageModel, st: WriteState) -> Option<WriteState>
    decreases msg, msg.parts@.len() + 1, 0int,
{
    let after = if msg.parts@.len() == 0 {
        Some(st)
    } else {
        write_part(msg, 0, st, true, msg.parts@.len())
    };
    match after {
        Some(a) => if a.last > 0 {
            Some(
                WriteState {
                    out: a.out + if a.last <= msg.raw@.len() {
                        msg.raw@.skip(a.last)
                    } else {
                        seq![]
                    },
                    last: 0,
                    boundary: a.boundary,
                },
            )
        } else {
            Some(a)
        },
        None => None,
    }
}

/// The bytes of the whole message; nothing when an offset falls outside a
/// raw message or a part contains itself.
pub open spec fn message_bytes(msg: MessageModel) -> Option<Seq<u8>> {
    if msg.parts@.len() == 0 {
        Some(seq![])
    } else {
        match write_part(msg, 0, WriteState { out: seq![], last: 0, boundary: seq![] }, true, msg.parts@.len()) {
            Some(st) => Some(st.out),
            None => None,
        }
    }
}

proof fn lemma_headers_prefix(raw: Seq<u8>, hs: Seq<HeaderModel>, i: int)
    requires
        0 <= i <= hs.len(),
        headers_bytes(raw, hs) is Some,
    ensures
        headers_bytes(raw, hs.take(i)) is Some,
    decreases hs.len(),
{
    if i < hs.len() {
        assert(hs.drop_last().take(i) =~= hs.take(i));
        lemma_headers_prefix(raw, hs.drop_last(), i);
    } else {
        assert(hs.take(i) =~= hs);
    }
}

fn extend_range(out: &mut Vec<u8>, raw: &Vec<u8>, a: u32, b: u32)
    requires
        raw_range(raw@, a as int, b as int) is Some,
    ensures
        final(out)@ == old(out)@ + raw_range(raw@, a as int, b as int).unwrap(),
{
    let mut i: usize = a as usize;
    let ghost start = out@;
    while i < b as usize
        invariant
            a <= i <= b <= raw@.len(),
            out@ == start + raw@.subrange(a as int, i as int),
        decreases b - i,
    {
        out.push(raw[i]);
        assert(raw@.subrange(a as int, i + 1) =~= raw@.subrange(a as int, i as int).push(raw@[i as int]));
        i += 1;
    }
}

fn extend_rest(out: &mut Vec<u8>, raw: &Vec<u8>, a: usize)
    requires
        a <= raw@.len(),
    ensures
        final(out)@ == old(out)@ + raw@.skip(a as int),
{
    let mut i: usize = a;
    let ghost start = out@;
    while i < raw.len()
        invariant
            a <= i <= raw@.len(),
            out@ == start + raw@.subrange(a as int, i as int),
        decreases raw@.len() - i,
    {
        out.push(raw[i]);
        assert(raw@.subrange(a as int, i + 1) =~= raw@.subrange(a as int, i as int).push(raw@[i as int]));
        i += 1;
    }
    assert(raw@.subrange(a as int, i as int) =~= raw@.skip(a as int));
}

fn extend_str(out: &mut Vec<u8>, s: &str)
    ensures
        final(out)@ == old(out)@ + encode_utf8(s@),
{
    crate::text::extend_bytes(out, s.as_bytes());
}

/// Whether the raw offsets of a header fall inside the raw message.
fn header_fits(raw: &Vec<u8>, h: &HeaderModel) -> (r: bool)
    ensures
        r == (header_bytes(raw@, *h) is Some),
{
    if h.offset_end != 0 {
        let a = if h.offset_field != h.offset_start {
            h.offset_field
        } else {
            h.offset_start
        };
        a <= h.offset_end && (h.offset_end as usize) <= raw.len()
    } else {
        true
    }
}

/// Whether the raw offsets of all the headers fall inside the raw message.
fn headers_fit(raw: &Vec<u8>, hs: &Vec<HeaderModel>) -> (r: bool)
    ensures
        r == (headers_bytes(raw@, hs@) is Some),
{
    let mut i: usize = 0;
    assert(hs@.take(0) =~= Seq::<HeaderModel>::empty());
    while i < hs.len()
        invariant
            i <= hs@.len(),
            headers_bytes(raw@, hs@.take(i as int)) is Some,
        decreases hs@.len() - i,
    {
        assert(hs@.take(i + 1).drop_last() =~= hs@.take(i as int));
        assert(hs@.take(i + 1).last() == hs@[i as int]);
        if !header_fits(raw, &hs[i]) {
            proof {
                if headers_bytes(raw@, hs@) is Some {
                    lemma_headers_prefix(raw@, hs@, i + 1);
                }
            }
            return false;
        }
        i += 1;
    }
    assert(hs@.take(hs@.len() as int) =~= hs@);
    true
}

fn write_header_exec(out: &mut Vec<u8>, raw: &Vec<u8>, h: &HeaderModel)
    requires
        header_bytes(raw@, *h) is Some,
    ensures
        final(out)@ == old(out)@ + header_bytes(raw@, *h).unwrap(),
{
    if h.offset_end != 0 {
        if h.offset_field != h.offset_start {
            extend_range(out, raw, h.offset_field, h.offset_end);
        } else {
            extend_str(out, h.name.name.as_str());
            out.push(58);
            let ghost mid = out@;
            extend_range(out, raw, h.offset_start, h.offset_end);
            assert(out@ =~= old(out)@ + header_bytes(raw@, *h).unwrap());
        }
    } else {
        extend_str(out, h.name.name.as_str());
        out.push(58);
        out.push(32);
        match &h.text {
            Some(t) => extend_str(out, t.as_str()),
            None => {},
        }
        out.push(13);
        out.push(10);
        assert(out@ =~= old(out)@ + header_bytes(raw@, *h).unwrap());
    }
}

fn write_headers_exec(out: &mut Vec<u8>, raw: &Vec<u8>, hs: &Vec<HeaderModel>)
    requires
        headers_bytes(raw@, hs@) is Some,
    ensures
        final(out)@ == old(out)@ + headers_bytes(raw@, hs@).unwrap(),
{
    let ghost start = out@;
    let mut i: usize = 0;
    assert(hs@.take(0) =~= Seq::<HeaderModel>::empty());
    while i < hs.len()
        invariant
            i <= hs@.len(),
            headers_bytes(raw@, hs@) is Some,
            headers_bytes(raw@, hs@.take(i as int)) is Some,
            out@ == start + headers_bytes(raw@, hs@.take(i as int)).unwrap(),
        decreases hs@.len() - i,
    {
        proof {
            lemma_headers_prefix(raw@, hs@, i + 1);
            assert(hs@.take(i + 1).drop_last() =~= hs@.take(i as int));
            assert(hs@.take(i + 1).last() == hs@[i as int]);
        }
        write_header_exec(out, raw, &hs[i]);
        i += 1;
    }
    assert(hs@.take(hs@.len() as int) =~= hs@);
}

fn added_content_type_exec(hs: &Vec<HeaderModel>) -> (r: Option<usize>)
    ensures
        match r {
            Some(p) => added_content_type(hs@) == Some(p as int) && p < hs@.len(),
            None => added_content_type(hs@) is None,
        },
{
    let ct = HeaderName { id: OTHER_HEADER_ID, name: "Content-Type".to_string() };
    proof {
        reveal_strlit("Content-Type");
    }
    let mut i: usize = hs.len();
    assert(hs@.take(i as int) =~= hs@);
    while i > 0
        invariant
            i <= hs@.len(),
            ct@ == (OTHER_HEADER_ID, "Content-Type"@),
            added_content_type(hs@) == added_content_type(hs@.take(i as int)),
        decreases i,
    {
        assert(hs@.take(i as int).drop_last() =~= hs@.take(i - 1));
        assert(hs@.take(i as int).last() == hs@[i - 1]);
        if hs[i - 1].offset_end == 0 && crate::runtime::actions::action_editheader::same_header_name(&hs[i - 1].name, &ct) {
            return Some(i - 1);
        }
        i -= 1;
    }
    None
}

fn prefix_at(h: &Vec<char>, i: usize, n: &Vec<char>) -> (r: bool)
    requires
        i <= h@.len(),
    ensures
        r == (n@.len() <= h@.skip(i as int).len() && h@.skip(i as int).take(n@.len() as int) == n@),
{
    let hl = h.len();
    if n.len() > hl - i {
        return false;
    }
    let mut j: usize = 0;
    while j < n.len()
        invariant
            hl == h@.len(),
            i + n@.len() <= hl,
            j <= n@.len(),
            forall|k: int| 0 <= k < j ==> h@[i + k] == n@[k],
        decreases n@.len() - j,
    {
        if h[i + j] != n[j] {
            assert(h@.skip(i as int).take(n@.len() as int)[j as int] != n@[j as int]);
            return false;
        }
        j += 1;
    }
    assert(h@.skip(i as int).take(n@.len() as int) =~= n@);
    true
}

fn first_occurrence_exec(h: &Vec<char>, from: usize, n: &Vec<char>) -> (r: Option<usize>)
    requires
        from <= h@.len(),
    ensures
        match r {
            Some(k) => from <= k <= h@.len() && first_occurrence(h@.skip(from as int), n@) == Some(k - from),
            None => first_occurrence(h@.skip(from as int), n@) is None,
        },
{
    let hl = h.len();
    let mut i: usize = from;
    loop
        invariant
            hl == h@.len(),
            from <= i <= hl,
            first_occurrence(h@.skip(from as int), n@) == match first_occurrence(h@.skip(i as int), n@) {
                Some(k) => Some(k + (i - from)),
                None => None,
            },
        decreases hl - i,
    {
        if prefix_at(h, i, n) {
            return Some(i);
        }
        if i == hl {
            assert(h@.skip(i as int).len() == 0);
            return None;
        }
        assert(h@.skip(i as int).drop_first() =~= h@.skip(i + 1));
        i += 1;
    }
}

fn boundary_exec(hs: &Vec<HeaderModel>) -> (r: String)
    ensures
        r@ == part_boundary(hs@),
{
    proof {
        reveal_strlit("boundary=\"");
        reveal_strlit("\"");
    }
    match added_content_type_exec(hs) {
        Some(p) => match &hs[p].text {
            Some(t) => {
                let c = crate::text::str_chars(t.as_str());
                let pat = crate::text::str_chars("boundary=\"");
                let quote = crate::text::str_chars("\"");
                assert(c@.skip(0) =~= c@);
                match first_occurrence_exec(&c, 0, &pat) {
                    Some(k) => {
                        if c.len() < 10 || k > c.len() - 10 {
                            proof {
                                let s = c@.skip(0);
                                lemma_first_occurrence_fits(s, pat@);
                            }
                            return "invalid-boundary".to_string();
                        }
                        assert(c@.skip(k + 10) =~= c@.skip(k + 10));
                        match first_occurrence_exec(&c, k + 10, &quote) {
                            Some(j) => {
                                let mut r = String::new();
                                let mut i: usize = k + 10;
                                while i < j
                                    invariant
                                        k + 10 <= i <= j <= c@.len(),
                                        r@ == c@.subrange(k + 10, i as int),
                                    decreases j - i,
                                {
                                    crate::text::push_char(&mut r, c[i]);
                                    assert(c@.subrange(k + 10, i + 1) =~= c@.subrange(k + 10, i as int).push(c@[i as int]));
                                    i += 1;
                                }
                                assert(c@.skip(k + 10).take(j - (k + 10)) =~= c@.subrange(k + 10, j as int));
                                r
                            },
                            None => "invalid-boundary".to_string(),
                        }
                    },
                    None => "invalid-boundary".to_string(),
                }
            },
            None => "invalid-boundary".to_string(),
        },
        None => "invalid-boundary".to_string(),
    }
}

proof fn lemma_first_occurrence_fits(h: Seq<char>, n: Seq<char>)
    ensures
        first_occurrence(h, n) matches Some(k) ==> 0 <= k && k + n.len() <= h.len(),
    decreases h.len(),
{
    if !(n.len() <= h.len() && h.take(n.len() as int) == n) && h.len() > 0 {
        lemma_first_occurrence_fits(h.drop_first(), n);
    }
}

pub open spec fn state(out: Seq<u8>, last: u32, boundary: Seq<char>) -> WriteState {
    WriteState { out, last: last as int, boundary }
}

/// Writes the part `p` of `msg` and everything below it (see
/// `write_part`); gives the new offset of the writer.
#[verifier::spinoff_prover]
#[verifier::rlimit(60)]
fn write_part_exec(
    msg: &MessageModel,
    p: usize,
    out: &mut Vec<u8>,
    last: u32,
    boundary: &str,
    in_message: bool,
    depth: usize,
) -> (r: Option<u32>)
    ensures
        match r {
            Some(l) => write_part(*msg, p as int, state(old(out)@, last, boundary@), in_message, depth as nat)
                == Some(state(final(out)@, l, boundary@)),
            None => write_part(*msg, p as int, state(old(out)@, last, boundary@), in_message, depth as nat) is None,
        },
    decreases *msg, depth, 0int,
{
    if p >= msg.parts.len() || depth == 0 {
        return None;
    }
    let part = &msg.parts[p];
    let raw = &msg.raw;
    let ghost st = state(old(out)@, last, boundary@);
    if last > 0 {
        if last > part.offset_header || (part.offset_header as usize) > raw.len() {
            return None;
        }
        extend_range(out, raw, last, part.offset_header);
    } else if boundary.unicode_len() > 0 && part.offset_end == 0 && !in_message {
        extend_str(out, "\r\n--");
        extend_str(out, boundary);
        out.push(13);
        out.push(10);
    }
    assert(out@ == st.out + part_prefix(raw@, *part, st, in_message).unwrap());
    if !headers_fit(raw, &part.headers) {
        return None;
    }
    write_headers_exec(out, raw, &part.headers);
    if part.offset_body != 0 || part.encoded {
        out.push(13);
        out.push(10);
    }
    let ghost written = out@;
    assert(written == st.out + part_prefix(raw@, *part, st, in_message).unwrap() + headers_bytes(
        raw@,
        part.headers@,
    ).unwrap() + if part.offset_body != 0 || part.encoded {
        crlf()
    } else {
        seq![]
    });
    assert(part_prefix(raw@, *part, st, in_message) is Some);
    assert(headers_bytes(raw@, part.headers@) is Some);
    if part.offset_body != 0 {
        match &part.body {
            BodyModel::Multipart(sub) => {
                let ghost inner = WriteState { out: written, last: part.offset_body as int, boundary: boundary@ };
                assert(inner == state(written, part.offset_body, boundary@));
                let after = match write_list_exec(msg, sub, out, part.offset_body, boundary, depth - 1) {
                    Some(a) => a,
                    None => return None,
                };
                if after > part.offset_end || (part.offset_end as usize) > raw.len() {
                    return None;
                }
                let ghost mid = out@;
                extend_range(out, raw, after, part.offset_end);
                assert(out@ == mid + raw_range(raw@, after as int, part.offset_end as int).unwrap());
                assert(write_part(*msg, p as int, st, in_message, depth as nat) == Some(state(out@, part.offset_end, boundary@)));
                Some(part.offset_end)
            },
            _ => {
                if part.offset_body > part.offset_end || (part.offset_end as usize) > raw.len() {
                    return None;
                }
                extend_range(out, raw, part.offset_body, part.offset_end);
                assert(write_part(*msg, p as int, st, in_message, depth as nat) == Some(state(out@, part.offset_end, boundary@)));
                Some(part.offset_end)
            },
        }
    } else {
        match &part.body {
            BodyModel::Message(nested) => {
                proof {
                    assert(decreases_to!(*msg => msg.parts));
                    assert(decreases_to!(msg.parts => msg.parts@));
                    assert(decreases_to!(msg.parts@ => msg.parts@[p as int]));
                    assert(decreases_to!(msg.parts@[p as int] => msg.parts@[p as int].body));
                    assert(decreases_to!(msg.parts@[p as int].body => **nested));
                }
                if write_message_exec(nested, out, last, boundary).is_none() {
                    return None;
                }
                assert(write_part(*msg, p as int, st, in_message, depth as nat) == Some(state(out@, 0, boundary@)));
                Some(0)
            },
            BodyModel::Multipart(sub) => {
                let b = boundary_exec(&part.headers);
                let after = match write_list_exec(msg, sub, out, last, b.as_str(), depth - 1) {
                    Some(a) => a,
                    None => return None,
                };
                let ghost mid = out@;
                let ghost closing = if b@.len() > 0 {
                    encode_utf8("\r\n--"@) + encode_utf8(b@) + encode_utf8("--\r\n"@)
                } else {
                    seq![]
                };
                if b.unicode_len() > 0 {
                    extend_str(out, "\r\n--");
                    extend_str(out, b.as_str());
                    extend_str(out, "--\r\n");
                }
                assert(out@ =~= mid + closing);
                assert(write_part(*msg, p as int, st, in_message, depth as nat) == Some(state(out@, after, boundary@)));
                Some(after)
            },
            BodyModel::Contents(c) => {
                crate::text::extend_bytes(out, c.as_slice());
                assert(write_part(*msg, p as int, st, in_message, depth as nat) == Some(state(out@, part.offset_end, boundary@)));
                Some(part.offset_end)
            },
        }
    }
}

/// Writes the sub-parts `ids` one after the other (see `write_list`); gives
/// the new offset of the writer.
fn write_list_exec(msg: &MessageModel, ids: &Vec<u32>, out: &mut Vec<u8>, last: u32, boundary: &str, depth: usize) -> (r:
    Option<u32>)
    ensures
        match r {
            Some(l) => write_list(*msg, ids@, state(old(out)@, last, boundary@), depth as nat) == Some(
                state(final(out)@, l, boundary@),
            ),
            None => write_list(*msg, ids@, state(old(out)@, last, boundary@), depth as nat) is None,
        },
    decreases *msg, depth, ids@.len() + 1,
{
    let ghost target = write_list(*msg, ids@, state(old(out)@, last, boundary@), depth as nat);
    let mut cur = last;
    let mut i: usize = 0;
    assert(ids@.skip(0) =~= ids@);
    while i < ids.len()
        invariant
            i <= ids@.len(),
            target == write_list(*msg, ids@.skip(i as int), state(out@, cur, boundary@), depth as nat),
            target == write_list(*msg, ids@, state(old(out)@, last, boundary@), depth as nat),
        decreases ids@.len() - i,
    {
        let ghost rest = ids@.skip(i as int);
        assert(rest[0] == ids@[i as int]);
        assert(rest.drop_first() =~= ids@.skip(i + 1));
        if ids[i] as usize >= msg.parts.len() {
            assert(write_list(*msg, rest, state(out@, cur, boundary@), depth as nat) == Some(state(out@, cur, boundary@)));
            return Some(cur);
        }
        match write_part_exec(msg, ids[i] as usize, out, cur, boundary, false, depth) {
            Some(c) => cur = c,
            None => return None,
        }
        i += 1;
    }
    assert(ids@.skip(i as int).len() == 0);
    Some(cur)
}

/// Writes a nested message (see `write_message`); gives the new offset of
/// the writer.
fn write_message_exec(msg: &MessageModel, out: &mut Vec<u8>, last: u32, boundary: &str) -> (r: Option<u32>)
    ensures
        match r {
            Some(l) => write_message(*msg, state(old(out)@, last, boundary@)) == Some(state(final(out)@, l, boundary@)),
            None => write_message(*msg, state(old(out)@, last, boundary@)) is None,
        },
    decreases *msg, msg.parts@.len() + 1, 0int,
{
    let after = if msg.parts.len() == 0 {
        last
    } else {
        match write_part_exec(msg, 0, out, last, boundary, true, msg.parts.len()) {
            Some(a) => a,
            None => return None,
        }
    };
    if after > 0 {
        if (after as usize) <= msg.raw.len() {
            extend_rest(out, &msg.raw, after as usize);
        }
        Some(0)
    } else {
        Some(after)
    }
}

/// The bytes of the message (see `message_bytes`); nothing when an offset
/// falls outside a raw message or a part contains itself.
pub fn try_build_message(msg: &MessageModel) -> (r: Option<Vec<u8>>)
    ensures
        match r {
            Some(v) => message_bytes(*msg) == Some(v@),
            None => message_bytes(*msg) is None,
        },
{
    let mut out: Vec<u8> = Vec::new();
    proof {
        reveal_strlit("");
        assert(out@ =~= Seq::<u8>::empty());
        assert(""@ =~= Seq::<char>::empty());
    }
    if msg.parts.len() > 0 {
        if write_part_exec(msg, 0, &mut out, 0, "", true, msg.parts.len()).is_none() {
            return None;
        }
    }
    Some(out)
}

/// The bytes of a message whose offsets all fall inside its raw bytes (see
/// `message_bytes`).
pub fn build_message(msg: &MessageModel) -> (r: Vec<u8>)
    requires
        message_bytes(*msg) is Some,
    ensures
        r@ == message_bytes(*msg).unwrap(),
{
    match try_build_message(msg) {
        Some(v) => v,
        None => Vec::new(),
    }
}

/// A header an action added, with its name and text.
pub open spec fn added_header(name: HeaderName, text: String) -> HeaderModel {
    HeaderModel { name, text: Some(text), offset_field: 0, offset_start: 0, offset_end: 0 }
}

/// The headers an action added, in order.
pub open spec fn added_headers(v: Seq<(HeaderName, String)>) -> Seq<HeaderModel> {
    v.map_values(|p: (HeaderName, String)| added_header(p.0, p.1))
}

fn added_headers_exec(v: Vec<(HeaderName, String)>) -> (r: Vec<HeaderModel>)
    ensures
        r@ == added_headers(v@),
{
    let ghost all = v@;
    let mut v = v;
    let mut r: Vec<HeaderModel> = Vec::new();
    let mut rev: Vec<(HeaderName, String)> = Vec::new();
    while v.len() > 0
        invariant
            v@ + rev@.reverse() == all,
        decreases v@.len(),
    {
        let ghost bv = v@;
        let ghost br = rev@;
        let p = v.pop().unwrap();
        rev.push(p);
        assert(rev@.reverse() =~= seq![bv.last()] + br.reverse());
        assert(v@ + rev@.reverse() =~= bv + br.reverse());
    }
    assert(v@ + rev@.reverse() =~= rev@.reverse());
    while rev.len() > 0
        invariant
            r@ + added_headers(rev@.reverse()) == added_headers(all),
        decreases rev@.len(),
    {
        let ghost br = rev@;
        let ghost brr = r@;
        let (n, t) = rev.pop().unwrap();
        r.push(HeaderModel { name: n, text: Some(t), offset_field: 0, offset_start: 0, offset_end: 0 });
        assert(br.reverse() =~= seq![br.last()] + rev@.reverse());
        assert(added_headers(br.reverse()) =~= seq![added_header(br.last().0, br.last().1)] + added_headers(rev@.reverse()));
        assert(r@ + added_headers(rev@.reverse()) =~= brr + added_headers(br.reverse()));
    }
    assert(r@ + added_headers(rev@.reverse()) =~= r@);
    r
}

/// Whether `h` is an added `Content-Type` header with `text`.
pub open spec fn is_added_content_type(h: HeaderModel, text: Seq<char>) -> bool {
    &&& h.name@ == (OTHER_HEADER_ID, "Content-Type"@)
    &&& h.text matches Some(t) && t@ == text
    &&& h.offset_field == 0 && h.offset_start == 0 && h.offset_end == 0
}

/// An added `Content-Type` header with `t`.
fn content_type_model(t: &str) -> (h: HeaderModel)
    ensures
        is_added_content_type(h, t@),
{
    proof {
        reveal_strlit("Content-Type");
    }
    HeaderModel {
        name: HeaderName { id: OTHER_HEADER_ID, name: "Content-Type".to_string() },
        text: Some(t.to_string()),
        offset_field: 0,
        offset_start: 0,
        offset_end: 0,
    }
}

/// Whether `r` is `message` enclosed (RFC 5703): the second part of a new
/// multipart message whose first part is the text `body`, with the
/// headers `top` on the new root.
pub open spec fn is_enclosure(r: MessageModel, message: MessageModel, body: Seq<u8>, top: Seq<(HeaderName, String)>) -> bool {
    &&& r.raw@.len() == 0
    &&& r.parts@.len() == 3
    &&& r.parts@[0].headers@ == added_headers(top)
    &&& r.parts@[0].body matches BodyModel::Multipart(ids) && ids@ == seq![1u32, 2]
    &&& !r.parts@[0].encoded
    &&& r.parts@[1].headers@.len() == 1 && is_added_content_type(r.parts@[1].headers@[0], "text/plain; charset=utf-8"@)
    &&& r.parts@[1].body matches BodyModel::Contents(b) && b@ == body
    &&& r.parts@[1].encoded
    &&& r.parts@[2].headers@.len() == 1 && is_added_content_type(r.parts@[2].headers@[0], "message/rfc822"@)
    &&& r.parts@[2].body matches BodyModel::Message(m) && *m == message
    &&& r.parts@[2].encoded
    &&& forall|i: int|
        0 <= i < 3 ==> (#[trigger] r.parts@[i]).offset_header == 0 && r.parts@[i].offset_body == 0
            && r.parts@[i].offset_end == 0
}

/// `enclose` (RFC 5703): the message becomes the second part of a new
/// multipart message whose first part is the text `body`; the new root
/// carries the headers `top`.
pub fn enclose_message(message: MessageModel, body: Vec<u8>, top: Vec<(HeaderName, String)>) -> (r: MessageModel)
    ensures
        is_enclosure(r, message, body@, top@),
{
    let root = PartModel {
        headers: added_headers_exec(top),
        body: BodyModel::Multipart(vec![1, 2]),
        encoded: false,
        offset_header: 0,
        offset_body: 0,
        offset_end: 0,
    };
    let text = PartModel {
        headers: vec![content_type_model("text/plain; charset=utf-8")],
        body: BodyModel::Contents(body),
        encoded: true,
        offset_header: 0,
        offset_body: 0,
        offset_end: 0,
    };
    let enclosed = PartModel {
        headers: vec![content_type_model("message/rfc822")],
        body: BodyModel::Message(Box::new(message)),
        encoded: true,
        offset_header: 0,
        offset_body: 0,
        offset_end: 0,
    };
    let r = MessageModel { parts: vec![root, text, enclosed], raw: Vec::new() };
    assert(r.parts@[0].headers@ == added_headers(top@));
    r
}

/// The message a run works on, the part that actions apply to, and the
/// size the limits count.
pub struct RunningMessage {
    pub message: MessageModel,
    pub part: usize,
    pub size: usize,
}

impl RunningMessage {
    /// `enclose` on the running message: the message is enclosed (see
    /// `is_enclosure`), actions apply to the new root, the size grows by
    /// the three boundary lines and the text, and the message counts as
    /// edited.
    pub fn enclose(
        &mut self,
        d: &mut crate::runtime::disposition::Disposition,
        body: Vec<u8>,
        top: Vec<(HeaderName, String)>,
        boundary_len: usize,
    )
        requires
            old(self).size + (boundary_len + 6) * 3 + body@.len() + 2 <= usize::MAX,
        ensures
            is_enclosure(final(self).message, old(self).message, body@, top@),
            final(self).part == 0,
            final(self).size == old(self).size + (boundary_len + 6) * 3 + body@.len() + 2,
            *final(d) == (crate::runtime::disposition::Disposition { has_changes: true, ..*old(d) }),
    {
        let added: usize = (boundary_len + 6) * 3 + body.len() + 2;
        let mut message = MessageModel { parts: Vec::new(), raw: Vec::new() };
        core::mem::swap(&mut message, &mut self.message);
        self.size = self.size + added;
        self.part = 0;
        d.has_changes = true;
        self.message = enclose_message(message, body, top);
    }
}

} // verus!
