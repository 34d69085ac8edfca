//! IMAP flags (RFC 5232): whether a list of flags holds a flag, and the
//! edits of `setflag`, `addflag` and `removeflag` on a list of flags.

use crate::runtime::actions::action_notify::strings_view;
use crate::text::{str_chars, trim_str, trimmed};
use vstd::prelude::*;

verus! {

/// The ASCII lowercase form of a character.
pub open spec fn ascii_lower(c: char) -> char {
    if 'A' <= c && c <= 'Z' {
        ((c as u32) + 32) as char
    } else {
        c
    }
}

/// Two strings equal once ASCII letters are lowercased.
pub open spec fn eq_ignore_ascii_case(a: Seq<char>, b: Seq<char>) -> bool {
    a.len() == b.len() && forall|i: int| 0 <= i < a.len() ==> ascii_lower(a[i]) == ascii_lower(b[i])
}

/// `s[i..j]` is one of the pieces that splitting `s` at each space gives.
pub open spec fn is_piece(s: Seq<char>, i: int, j: int) -> bool {
    &&& 0 <= i <= j <= s.len()
    &&& (i == 0 || s[i - 1] == ' ')
    &&& (j == s.len() || s[j] == ' ')
    &&& forall|k: int| i <= k < j ==> s[k] != ' '
}

/// Whether the list of flags `flags` (separated by single spaces) holds
/// `flag`, ignoring the case of ASCII letters.
pub open spec fn has_flag(flags: Seq<char>, flag: Seq<char>) -> bool {
    exists|i: int, j: int| is_piece(flags, i, j) && eq_ignore_ascii_case(flags.subrange(i, j), flag)
}

pub(crate) fn ascii_lower_exec(c: char) -> (r: char)
    ensures
        r == ascii_lower(c),
{
    if 'A' <= c && c <= 'Z' {
        (((c as u32) + 32) as u8) as char
    } else {
        c
    }
}

fn piece_matches(c: &[char], i: usize, j: usize, flag: &[char]) -> (r: bool)
    requires
        i <= j <= c@.len(),
    ensures
        r == eq_ignore_ascii_case(c@.subrange(i as int, j as int), flag@),
{
    if j - i != flag.len() {
        return false;
    }
    let mut k: usize = 0;
    while k < flag.len()
        invariant
            i <= j <= c@.len(),
            j - i == flag@.len(),
            k <= flag@.len(),
            forall|m: int| 0 <= m < k ==> ascii_lower(c@[i + m]) == ascii_lower(flag@[m]),
        decreases flag@.len() - k,
    {
        if ascii_lower_exec(c[i + k]) != ascii_lower_exec(flag[k]) {
            assert(ascii_lower(c@.subrange(i as int, j as int)[k as int]) != ascii_lower(flag@[k as int]));
            return false;
        }
        k += 1;
    }
    true
}

/// Whether `flags` holds `flag` (see `has_flag`).
pub fn contains_flag(flags: &str, flag: &str) -> (r: bool)
    ensures
        r == has_flag(flags@, flag@),
{
    let c = str_chars(flags);
    let f = str_chars(flag);
    let mut start: usize = 0;
    let mut k: usize = 0;
    while k <= c.len()
        invariant
            c@ == flags@,
            f@ == flag@,
            start <= k <= c@.len(),
            start == 0 || (start <= c@.len() && c@[start - 1] == ' '),
            forall|m: int| start <= m < k && m < c@.len() ==> c@[m] != ' ',
            forall|i: int, j: int|
                is_piece(flags@, i, j) && j < k && j < start ==> !eq_ignore_ascii_case(
                    flags@.subrange(i, j),
                    flag@,
                ),
        decreases c@.len() + 1 - k,
    {
        if k == c.len() || c[k] == ' ' {
            assert(is_piece(flags@, start as int, k as int));
            if piece_matches(c.as_slice(), start, k, f.as_slice()) {
                return true;
            }
            assert forall|i: int, j: int|
                is_piece(flags@, i, j) && j < k + 1 && j < k + 1 implies !eq_ignore_ascii_case(
                flags@.subrange(i, j),
                flag@,
            ) by {
                if j >= start {
                    if i < start {
                        assert(flags@[start - 1] == ' ');
                    }
                    if i > start {
                        assert(flags@[i - 1] != ' ');
                    }
                    if j < k {
                        assert(flags@[j] != ' ');
                    }
                }
            }
            if k == c.len() {
                assert forall|i: int, j: int| is_piece(flags@, i, j) implies !eq_ignore_ascii_case(
                    flags@.subrange(i, j),
                    flag@,
                ) by {}
                return false;
            }
            start = k + 1;
        }
        k += 1;
    }
    false
}

/// Whether two texts are equal, ignoring the case of ASCII letters.
pub fn str_eq_ignore_ascii_case(a: &str, b: &str) -> (r: bool)
    ensures
        r == eq_ignore_ascii_case(a@, b@),
{
    let c = str_chars(a);
    let f = str_chars(b);
    assert(c@.subrange(0, c@.len() as int) =~= c@);
    piece_matches(c.as_slice(), 0, c.len(), f.as_slice())
}

/// ASCII whitespace, as Rust's `split_ascii_whitespace` splits at it.
pub open spec fn is_ascii_ws(c: char) -> bool {
    c == ' ' || c == '\t' || c == '\n' || c == '\x0C' || c == '\r'
}

/// The words found so far in `s`, and the word being read at its end.
pub open spec fn word_scan(s: Seq<char>) -> (Seq<Seq<char>>, Seq<char>)
    decreases s.len(),
{
    if s.len() == 0 {
        (seq![], seq![])
    } else {
        let (ws, cur) = word_scan(s.drop_last());
        if is_ascii_ws(s.last()) {
            if cur.len() > 0 {
                (ws.push(cur), seq![])
            } else {
                (ws, cur)
            }
        } else {
            (ws, cur.push(s.last()))
        }
    }
}

/// The words of `s`: its longest runs without ASCII whitespace.
pub open spec fn ascii_words(s: Seq<char>) -> Seq<Seq<char>> {
    let (ws, cur) = word_scan(s);
    if cur.len() > 0 {
        ws.push(cur)
    } else {
        ws
    }
}

/// Splits `s` into its words (see `ascii_words`).
pub fn split_ascii_words(s: &str) -> (r: Vec<String>)
    ensures
        strings_view(r@) == ascii_words(s@),
{
    let c = str_chars(s);
    let mut words: Vec<String> = Vec::new();
    let mut cur = String::new();
    let mut i: usize = 0;
    while i < c.len()
        invariant
            c@ == s@,
            i <= c@.len(),
            word_scan(s@.take(i as int)) == (strings_view(words@), cur@),
        decreases c@.len() - i,
    {
        let ch = c[i];
        assert(s@.take(i + 1).drop_last() =~= s@.take(i as int));
        assert(s@.take(i + 1).last() == ch);
        if ch == ' ' || ch == '\t' || ch == '\n' || ch == '\x0C' || ch == '\r' {
            if cur.unicode_len() > 0 {
                let ghost before = strings_view(words@);
                let ghost cv = cur@;
                let w = cur;
                words.push(w);
                cur = String::new();
                assert(strings_view(words@) =~= before.push(cv));
            }
        } else {
            crate::text::push_char(&mut cur, ch);
        }
        i += 1;
    }
    assert(s@.take(c@.len() as int) =~= s@);
    if cur.unicode_len() > 0 {
        let ghost before = strings_view(words@);
        let ghost cv = cur@;
        words.push(cur);
        assert(strings_view(words@) =~= before.push(cv));
    }
    words
}

/// `list` holds `f`, ignoring the case of ASCII letters.
pub open spec fn holds_flag(list: Seq<Seq<char>>, f: Seq<char>) -> bool {
    exists|i: int| 0 <= i < list.len() && eq_ignore_ascii_case(#[trigger] list[i], f)
}

/// No two flags of `list` are equal, ignoring the case of ASCII letters.
pub open spec fn distinct_flags(list: Seq<Seq<char>>) -> bool {
    forall|i: int, j: int|
        0 <= i < j < list.len() ==> !eq_ignore_ascii_case(#[trigger] list[i], #[trigger] list[j])
}

/// `addflag` of one flag: added at the end unless the list holds it.
pub open spec fn add_flag(list: Seq<Seq<char>>, f: Seq<char>) -> Seq<Seq<char>> {
    if holds_flag(list, f) {
        list
    } else {
        list.push(f)
    }
}

/// `addflag` of several flags, in order.
pub open spec fn add_flags_spec(list: Seq<Seq<char>>, fs: Seq<Seq<char>>) -> Seq<Seq<char>>
    decreases fs.len(),
{
    if fs.len() == 0 {
        list
    } else {
        add_flag(add_flags_spec(list, fs.drop_last()), fs.last())
    }
}

/// The position of the first flag of `list` equal to `f` (ASCII case
/// aside).
pub open spec fn flag_position(list: Seq<Seq<char>>, f: Seq<char>) -> Option<int> {
    if holds_flag(list, f) {
        Some(
            choose|i: int|
                0 <= i < list.len() && eq_ignore_ascii_case(list[i], f) && forall|j: int|
                    0 <= j < i ==> !eq_ignore_ascii_case(#[trigger] list[j], f),
        )
    } else {
        None
    }
}

/// `removeflag` of one flag: the first flag equal to it leaves, and the
/// last flag takes its place.
pub open spec fn remove_flag(list: Seq<Seq<char>>, f: Seq<char>) -> Seq<Seq<char>> {
    match flag_position(list, f) {
        Some(p) => list.update(p, list.last()).drop_last(),
        None => list,
    }
}

/// `removeflag` of several flags, in order.
pub open spec fn remove_flags_spec(list: Seq<Seq<char>>, fs: Seq<Seq<char>>) -> Seq<Seq<char>>
    decreases fs.len(),
{
    if fs.len() == 0 {
        list
    } else {
        remove_flag(remove_flags_spec(list, fs.drop_last()), fs.last())
    }
}

/// The position of the first flag of `list` equal to `f`, if any.
fn find_flag(list: &Vec<String>, f: &str) -> (r: Option<usize>)
    ensures
        match r {
            Some(p) => p < list@.len() && flag_position(strings_view(list@), f@) == Some(p as int),
            None => flag_position(strings_view(list@), f@) is None,
        },
{
    let ghost lv = strings_view(list@);
    let mut i: usize = 0;
    while i < list.len()
        invariant
            i <= list@.len(),
            lv == strings_view(list@),
            forall|j: int| 0 <= j < i ==> !eq_ignore_ascii_case(#[trigger] lv[j], f@),
        decreases list@.len() - i,
    {
        if str_eq_ignore_ascii_case(list[i].as_str(), f) {
            assert(lv[i as int] == list@[i as int]@);
            proof {
                let p = choose|k: int|
                    0 <= k < lv.len() && eq_ignore_ascii_case(lv[k], f@) && forall|j: int|
                        0 <= j < k ==> !eq_ignore_ascii_case(#[trigger] lv[j], f@);
                if p < i {
                } else if p > i {
                    assert(!eq_ignore_ascii_case(lv[i as int], f@));
                }
            }
            return Some(i);
        }
        assert(lv[i as int] == list@[i as int]@);
        i += 1;
    }
    None
}

/// Adds one flag to a list of flags (see `add_flag`).
fn add_one_flag(list: &mut Vec<String>, f: String)
    ensures
        strings_view(final(list)@) == add_flag(strings_view(old(list)@), f@),
{
    match find_flag(list, f.as_str()) {
        Some(_) => {},
        None => {
            let ghost before = strings_view(list@);
            let ghost fv = f@;
            list.push(f);
            assert(strings_view(list@) =~= before.push(fv));
        },
    }
}

/// Removes one flag from a list of flags (see `remove_flag`).
pub fn remove_one_flag(list: &mut Vec<String>, f: &str)
    ensures
        strings_view(final(list)@) == remove_flag(strings_view(old(list)@), f@),
{
    match find_flag(list, f) {
        Some(p) => {
            let ghost before = strings_view(list@);
            list.swap_remove(p);
            assert(strings_view(list@) =~= before.update(p as int, before.last()).drop_last());
        },
        None => {},
    }
}

/// `addflag` (and `setflag`, after clearing) on the message's own flags:
/// each word of `flag` is added unless the list holds it.
pub fn add_flags(list: &mut Vec<String>, flag: &str)
    ensures
        strings_view(final(list)@) == add_flags_spec(strings_view(old(list)@), ascii_words(flag@)),
{
    let words = split_ascii_words(flag);
    let ghost ws = ascii_words(flag@);
    let ghost start = strings_view(list@);
    for w in it: words
        invariant
            ws == strings_view(it.seq()),
            strings_view(list@) == add_flags_spec(start, ws.take(it.index() as int)),
    {
        let ghost k = it.index();
        assert(ws.take(k + 1).drop_last() =~= ws.take(k as int));
        assert(ws.take(k + 1).last() == w@);
        add_one_flag(list, w);
    }
    assert(ws.take(ws.len() as int) =~= ws);
}

/// `removeflag` on the message's own flags: each word of `flag` leaves the
/// list (see `remove_flag`).
pub fn remove_flags(list: &mut Vec<String>, flag: &str)
    ensures
        strings_view(final(list)@) == remove_flags_spec(strings_view(old(list)@), ascii_words(flag@)),
{
    let words = split_ascii_words(flag);
    let ghost ws = ascii_words(flag@);
    let ghost start = strings_view(list@);
    let mut i: usize = 0;
    while i < words.len()
        invariant
            i <= words@.len(),
            ws == strings_view(words@),
            strings_view(list@) == remove_flags_spec(start, ws.take(i as int)),
        decreases words@.len() - i,
    {
        assert(ws.take(i + 1).drop_last() =~= ws.take(i as int));
        assert(ws.take(i + 1).last() == words@[i as int]@);
        remove_one_flag(list, words[i].as_str());
        i += 1;
    }
    assert(ws.take(ws.len() as int) =~= ws);
}

/// The pieces read so far by splitting `s` at each space, and the piece
/// being read at its end.
pub open spec fn space_scan(s: Seq<char>) -> (Seq<Seq<char>>, Seq<char>)
    decreases s.len(),
{
    if s.len() == 0 {
        (seq![], seq![])
    } else {
        let (ps, cur) = space_scan(s.drop_last());
        if s.last() == ' ' {
            (ps.push(cur), seq![])
        } else {
            (ps, cur.push(s.last()))
        }
    }
}

/// The pieces of `s` split at each space (one piece, empty, for empty text).
pub open spec fn space_pieces(s: Seq<char>) -> Seq<Seq<char>> {
    space_scan(s).0.push(space_scan(s).1)
}

/// The pieces joined with a space between each two.
pub open spec fn joined(list: Seq<Seq<char>>) -> Seq<char>
    decreases list.len(),
{
    if list.len() == 0 {
        seq![]
    } else if list.len() == 1 {
        list[0]
    } else {
        joined(list.drop_last()) + seq![' '] + list.last()
    }
}

/// Splitting a text at its spaces and joining the pieces with spaces gives
/// the text back.
pub proof fn lemma_join_space_pieces(s: Seq<char>)
    ensures
        joined(space_pieces(s)) == s,
    decreases s.len(),
{
    if s.len() > 0 {
        let t = s.drop_last();
        lemma_join_space_pieces(t);
        let (ps, cur) = space_scan(t);
        assert(joined(ps.push(cur)) == t);
        if s.last() == ' ' {
            assert(space_pieces(s) == ps.push(cur).push(seq![]));
            assert(ps.push(cur).push(seq![]).drop_last() =~= ps.push(cur));
            assert(s =~= t + seq![' '] + seq![]);
        } else {
            let c = s.last();
            assert(space_pieces(s) == ps.push(cur.push(c)));
            if ps.len() == 0 {
                assert(cur == t);
                assert(s =~= cur.push(c));
            } else {
                assert(ps.push(cur.push(c)).drop_last() =~= ps);
                assert(ps.push(cur).drop_last() =~= ps);
                assert(joined(ps.push(cur)) == joined(ps) + seq![' '] + cur);
                assert(s =~= t.push(c));
                assert(s =~= joined(ps) + seq![' '] + cur.push(c));
            }
        }
    }
}

/// Splits a text at each space (see `space_pieces`).
pub fn split_spaces(s: &str) -> (r: Vec<String>)
    ensures
        strings_view(r@) == space_pieces(s@),
{
    let c = str_chars(s);
    let mut pieces: Vec<String> = Vec::new();
    let mut cur = String::new();
    let mut i: usize = 0;
    while i < c.len()
        invariant
            c@ == s@,
            i <= c@.len(),
            space_scan(s@.take(i as int)) == (strings_view(pieces@), cur@),
        decreases c@.len() - i,
    {
        let ch = c[i];
        assert(s@.take(i + 1).drop_last() =~= s@.take(i as int));
        assert(s@.take(i + 1).last() == ch);
        if ch == ' ' {
            let ghost before = strings_view(pieces@);
            let ghost cv = cur@;
            let w = cur;
            pieces.push(w);
            cur = String::new();
            assert(strings_view(pieces@) =~= before.push(cv));
        } else {
            crate::text::push_char(&mut cur, ch);
        }
        i += 1;
    }
    assert(s@.take(c@.len() as int) =~= s@);
    let ghost before = strings_view(pieces@);
    let ghost cv = cur@;
    pieces.push(cur);
    assert(strings_view(pieces@) =~= before.push(cv));
    pieces
}

/// Joins pieces with a space between each two (see `joined`).
pub fn join_spaces(list: &Vec<String>) -> (r: String)
    ensures
        r@ == joined(strings_view(list@)),
{
    let ghost lv = strings_view(list@);
    let mut r = String::new();
    let mut i: usize = 0;
    while i < list.len()
        invariant
            i <= list@.len(),
            lv == strings_view(list@),
            r@ == joined(lv.take(i as int)),
        decreases list@.len() - i,
    {
        assert(lv.take(i + 1).drop_last() =~= lv.take(i as int));
        assert(lv.take(i + 1).last() == list@[i as int]@);
        if i > 0 {
            crate::text::push_char(&mut r, ' ');
        }
        r = crate::runtime::expression::concat(r.as_str(), list[i].as_str());
        proof {
            if i == 0 {
                assert(lv.take(1)[0] == list@[0]@);
                assert(r@ =~= joined(lv.take(1)));
            }
        }
        i += 1;
    }
    assert(lv.take(list@.len() as int) =~= lv);
    r
}

/// `setflag` or `addflag` of one flag on a variable: the flag is appended,
/// after a space unless the text is empty, when the text does not hold it.
pub open spec fn append_flag_spec(flags: Seq<char>, flag: Seq<char>) -> Seq<char> {
    if has_flag(flags, flag) {
        flags
    } else if flags.len() == 0 {
        flag
    } else {
        flags + seq![' '] + flag
    }
}

/// Appends a flag to the text of a variable (see `append_flag_spec`).
pub fn append_flag(flags: &mut String, flag: &str)
    ensures
        final(flags)@ == append_flag_spec(old(flags)@, flag@),
{
    if contains_flag(flags.as_str(), flag) {
        return ;
    }
    if flags.unicode_len() > 0 {
        crate::text::push_char(flags, ' ');
    }
    let joined = crate::runtime::expression::concat(flags.as_str(), flag);
    *flags = joined;
}

/// `removeflag` of one flag on the text of a variable: the text split at its
/// spaces, the flag removed as `remove_flag` says, the pieces joined again.
pub fn remove_flag_text(flags: &str, flag: &str) -> (r: String)
    ensures
        r@ == joined(remove_flag(space_pieces(flags@), flag@)),
{
    let mut pieces = split_spaces(flags);
    remove_one_flag(&mut pieces, flag);
    join_spaces(&pieces)
}

proof fn lemma_eq_ignore_case_equivalence(a: Seq<char>, b: Seq<char>, c: Seq<char>)
    ensures
        eq_ignore_ascii_case(a, a),
        eq_ignore_ascii_case(a, b) ==> eq_ignore_ascii_case(b, a),
        eq_ignore_ascii_case(a, b) && eq_ignore_ascii_case(b, c) ==> eq_ignore_ascii_case(a, c),
{
}

/// When some flag matches, a first one does.
proof fn lemma_first_match(list: Seq<Seq<char>>, f: Seq<char>, i: int)
    requires
        0 <= i < list.len(),
        eq_ignore_ascii_case(list[i], f),
    ensures
        exists|k: int|
            0 <= k < list.len() && eq_ignore_ascii_case(list[k], f) && forall|j: int|
                0 <= j < k ==> !eq_ignore_ascii_case(#[trigger] list[j], f),
    decreases i,
{
    if exists|j: int| 0 <= j < i && eq_ignore_ascii_case(#[trigger] list[j], f) {
        let j = choose|j: int| 0 <= j < i && eq_ignore_ascii_case(#[trigger] list[j], f);
        lemma_first_match(list, f, j);
    }
}

/// The position `flag_position` gives holds a matching flag.
proof fn lemma_flag_position(list: Seq<Seq<char>>, f: Seq<char>)
    ensures
        flag_position(list, f) matches Some(p) ==> 0 <= p < list.len() && eq_ignore_ascii_case(
            list[p],
            f,
        ),
{
    if holds_flag(list, f) {
        let i = choose|i: int| 0 <= i < list.len() && eq_ignore_ascii_case(#[trigger] list[i], f);
        lemma_first_match(list, f, i);
    }
}

proof fn lemma_add_flag_keeps(list: Seq<Seq<char>>, f: Seq<char>, g: Seq<char>)
    ensures
        holds_flag(list, g) ==> holds_flag(add_flag(list, f), g),
        holds_flag(add_flag(list, f), f),
        distinct_flags(list) ==> distinct_flags(add_flag(list, f)),
{
    let n = add_flag(list, f);
    if holds_flag(list, g) {
        let i = choose|i: int| 0 <= i < list.len() && eq_ignore_ascii_case(#[trigger] list[i], g);
        assert(n[i] == list[i]);
    }
    if !holds_flag(list, f) {
        lemma_eq_ignore_case_equivalence(f, f, f);
        assert(n[list.len() as int] == f);
        if distinct_flags(list) {
            assert forall|i: int, j: int| 0 <= i < j < n.len() implies !eq_ignore_ascii_case(
                #[trigger] n[i],
                #[trigger] n[j],
            ) by {
                if j == list.len() {
                    assert(n[i] == list[i]);
                    assert(!eq_ignore_ascii_case(list[i], f));
                } else {
                    assert(n[i] == list[i] && n[j] == list[j]);
                }
            }
        }
    }
}

/// `addflag` keeps a list of flags free of duplicates (ASCII case aside),
/// and afterwards the list holds every flag added.
pub proof fn lemma_add_flags_set(list: Seq<Seq<char>>, fs: Seq<Seq<char>>)
    ensures
        distinct_flags(list) ==> distinct_flags(add_flags_spec(list, fs)),
        forall|k: int| 0 <= k < fs.len() ==> holds_flag(add_flags_spec(list, fs), #[trigger] fs[k]),
        forall|g: Seq<char>| holds_flag(list, g) ==> holds_flag(add_flags_spec(list, fs), g),
    decreases fs.len(),
{
    if fs.len() > 0 {
        let before = add_flags_spec(list, fs.drop_last());
        lemma_add_flags_set(list, fs.drop_last());
        lemma_add_flag_keeps(before, fs.last(), fs.last());
        assert forall|k: int| 0 <= k < fs.len() implies holds_flag(add_flags_spec(list, fs), #[trigger] fs[k]) by {
            if k < fs.len() - 1 {
                assert(fs.drop_last()[k] == fs[k]);
                lemma_add_flag_keeps(before, fs.last(), fs[k]);
            }
        }
        assert forall|g: Seq<char>| holds_flag(list, g) implies holds_flag(add_flags_spec(list, fs), g) by {
            lemma_add_flag_keeps(before, fs.last(), g);
        }
    }
}

/// In a list free of duplicates, `removeflag` leaves no flag equal to the
/// one removed (ASCII case aside).
pub proof fn lemma_remove_flag_gone(list: Seq<Seq<char>>, f: Seq<char>)
    requires
        distinct_flags(list),
    ensures
        !holds_flag(remove_flag(list, f), f),
{
    lemma_flag_position(list, f);
    if let Some(p) = flag_position(list, f) {
        let n = remove_flag(list, f);
        let last = list.len() - 1;
        assert forall|k: int| 0 <= k < n.len() implies !eq_ignore_ascii_case(#[trigger] n[k], f) by {
            if eq_ignore_ascii_case(n[k], f) {
                if k == p {
                    assert(n[k] == list[last]);
                    lemma_eq_ignore_case_equivalence(list[p], f, list[last]);
                    lemma_eq_ignore_case_equivalence(f, list[last], list[last]);
                    assert(eq_ignore_ascii_case(list[p], list[last]));
                } else {
                    assert(n[k] == list[k]);
                    lemma_eq_ignore_case_equivalence(list[k], f, list[p]);
                    lemma_eq_ignore_case_equivalence(list[p], f, list[k]);
                    if k < p {
                        assert(eq_ignore_ascii_case(list[k], list[p]));
                    } else {
                        assert(eq_ignore_ascii_case(list[p], list[k]));
                    }
                }
            }
        }
    }
}

/// Each non-empty argument with its white space trimmed.
pub open spec fn trimmed_args(args: Seq<Seq<char>>) -> Seq<Seq<char>>
    decreases args.len(),
{
    if args.len() == 0 {
        seq![]
    } else {
        let rest = trimmed_args(args.drop_last());
        if args.last().len() > 0 {
            rest.push(trimmed(args.last()))
        } else {
            rest
        }
    }
}

/// The flags that flag arguments name: the words of the argument when
/// there is exactly one, else each non-empty argument, trimmed.
pub open spec fn flag_tokens(args: Seq<Seq<char>>) -> Seq<Seq<char>> {
    if args.len() == 1 {
        ascii_words(args[0])
    } else {
        trimmed_args(args)
    }
}

/// The flags that flag arguments name (see `flag_tokens`).
pub fn tokenize_flags(args: &Vec<String>) -> (r: Vec<String>)
    ensures
        strings_view(r@) == flag_tokens(strings_view(args@)),
{
    if args.len() == 1 {
        return split_ascii_words(args[0].as_str());
    }
    let ghost av = strings_view(args@);
    let mut r: Vec<String> = Vec::new();
    let mut i: usize = 0;
    while i < args.len()
        invariant
            i <= args@.len(),
            av == strings_view(args@),
            strings_view(r@) == trimmed_args(av.take(i as int)),
        decreases args@.len() - i,
    {
        assert(av.take(i + 1).drop_last() =~= av.take(i as int));
        assert(av.take(i + 1).last() == args@[i as int]@);
        if args[i].unicode_len() > 0 {
            let ghost before = strings_view(r@);
            let t = trim_str(args[i].as_str());
            r.push(t);
            assert(strings_view(r@) =~= before.push(trimmed(args@[i as int]@)));
        }
        i += 1;
    }
    assert(av.take(i as int) =~= av);
    r
}

/// What a flag command does: `setflag`, `addflag` or `removeflag`.
#[derive(Debug, Clone, Copy, PartialEq, Eq, Structural)]
pub enum FlagAction {
    SetFlag,
    AddFlag,
    RemoveFlag,
}

/// The words of each flag token added in turn.
pub open spec fn add_tokens(list: Seq<Seq<char>>, tokens: Seq<Seq<char>>) -> Seq<Seq<char>>
    decreases tokens.len(),
{
    if tokens.len() == 0 {
        list
    } else {
        add_flags_spec(add_tokens(list, tokens.drop_last()), ascii_words(tokens.last()))
    }
}

/// The words of each flag token removed in turn.
pub open spec fn remove_tokens(list: Seq<Seq<char>>, tokens: Seq<Seq<char>>) -> Seq<Seq<char>>
    decreases tokens.len(),
{
    if tokens.len() == 0 {
        list
    } else {
        remove_flags_spec(remove_tokens(list, tokens.drop_last()), ascii_words(tokens.last()))
    }
}

/// A flag command on the message's own flags: `setflag` starts from no
/// flags and adds, `addflag` adds, `removeflag` removes, the flags that
/// the arguments name (see `flag_tokens`).
pub open spec fn edited_flags(list: Seq<Seq<char>>, action: FlagAction, args: Seq<Seq<char>>) -> Seq<Seq<char>> {
    match action {
        FlagAction::SetFlag => add_tokens(seq![], flag_tokens(args)),
        FlagAction::AddFlag => add_tokens(list, flag_tokens(args)),
        FlagAction::RemoveFlag => remove_tokens(list, flag_tokens(args)),
    }
}

/// Runs a flag command on the message's own flags (see `edited_flags`).
pub fn edit_flags(list: &mut Vec<String>, action: FlagAction, args: &Vec<String>)
    ensures
        strings_view(final(list)@) == edited_flags(strings_view(old(list)@), action, strings_view(args@)),
{
    let tokens = tokenize_flags(args);
    let ghost ts = strings_view(tokens@);
    if action == FlagAction::SetFlag {
        *list = Vec::new();
        assert(strings_view(list@) =~= Seq::<Seq<char>>::empty());
    }
    let ghost start = strings_view(list@);
    let mut i: usize = 0;
    while i < tokens.len()
        invariant
            i <= tokens@.len(),
            ts == strings_view(tokens@),
            strings_view(list@) == if action == FlagAction::RemoveFlag {
                remove_tokens(start, ts.take(i as int))
            } else {
                add_tokens(start, ts.take(i as int))
            },
        decreases tokens@.len() - i,
    {
        assert(ts.take(i + 1).drop_last() =~= ts.take(i as int));
        assert(ts.take(i + 1).last() == tokens@[i as int]@);
        if action == FlagAction::RemoveFlag {
            remove_flags(list, tokens[i].as_str());
        } else {
            add_flags(list, tokens[i].as_str());
        }
        i += 1;
    }
    assert(ts.take(i as int) =~= ts);
}

/// Each flag token appended in turn (see `append_flag_spec`).
pub open spec fn append_tokens(flags: Seq<char>, tokens: Seq<Seq<char>>) -> Seq<char>
    decreases tokens.len(),
{
    if tokens.len() == 0 {
        flags
    } else {
        append_flag_spec(append_tokens(flags, tokens.drop_last()), tokens.last())
    }
}

/// A flag command on a variable that holds `current` (nothing when the
/// variable is unset): `setflag` appends the flags the arguments name to
/// empty text, `addflag` to the text it holds, and `removeflag` takes them
/// from the text split at its spaces and joins what is left.
pub open spec fn edited_flag_text(current: Option<Seq<char>>, action: FlagAction, args: Seq<Seq<char>>) -> Seq<char> {
    let cur = match current {
        Some(c) => c,
        None => seq![],
    };
    match action {
        FlagAction::SetFlag => append_tokens(seq![], flag_tokens(args)),
        FlagAction::AddFlag => append_tokens(cur, flag_tokens(args)),
        FlagAction::RemoveFlag => joined(remove_flags_spec(space_pieces(cur), flag_tokens(args))),
    }
}

/// Runs a flag command on the text of a variable (see `edited_flag_text`).
pub fn edit_flag_text(current: Option<&str>, action: FlagAction, args: &Vec<String>) -> (r: String)
    ensures
        r@ == edited_flag_text(
            match current {
                Some(c) => Some(c@),
                None => None,
            },
            action,
            strings_view(args@),
        ),
{
    let tokens = tokenize_flags(args);
    let ghost ts = strings_view(tokens@);
    let cur: &str = match current {
        Some(c) => c,
        None => "",
    };
    proof {
        reveal_strlit("");
        assert(""@ =~= Seq::<char>::empty());
    }
    let ghost cv = match current {
        Some(c) => c@,
        None => seq![],
    };
    assert(cur@ == cv);
    if action == FlagAction::RemoveFlag {
        let mut pieces = split_spaces(cur);
        let ghost start = strings_view(pieces@);
        let mut i: usize = 0;
        while i < tokens.len()
            invariant
                i <= tokens@.len(),
                ts == strings_view(tokens@),
                strings_view(pieces@) == remove_flags_spec(start, ts.take(i as int)),
            decreases tokens@.len() - i,
        {
            assert(ts.take(i + 1).drop_last() =~= ts.take(i as int));
            assert(ts.take(i + 1).last() == tokens@[i as int]@);
            remove_one_flag(&mut pieces, tokens[i].as_str());
            i += 1;
        }
        assert(ts.take(i as int) =~= ts);
        join_spaces(&pieces)
    } else {
        let mut flags = if action == FlagAction::SetFlag {
            String::new()
        } else {
            cur.to_string()
        };
        let ghost start = flags@;
        assert(start =~= if action == FlagAction::SetFlag { Seq::<char>::empty() } else { cv });
        let mut i: usize = 0;
        while i < tokens.len()
            invariant
                i <= tokens@.len(),
                ts == strings_view(tokens@),
                flags@ == append_tokens(start, ts.take(i as int)),
            decreases tokens@.len() - i,
        {
            assert(ts.take(i + 1).drop_last() =~= ts.take(i as int));
            assert(ts.take(i + 1).last() == tokens@[i as int]@);
            append_flag(&mut flags, tokens[i].as_str());
            i += 1;
        }
        assert(ts.take(i as int) =~= ts);
        flags
    }
}

} // verus!
