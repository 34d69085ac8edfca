//! Finding and deleting the headers of a message part: which headers a
//! header variable or test names, and what deleting some of them leaves.

use crate::header::HeaderName;
use crate::runtime::actions::action_editheader::{holds_header, holds_name, names_view};
use crate::runtime::message::HeaderModel;
use vstd::prelude::*;
use vstd::utf8::encode_utf8;

verus! {

/// The positions, in order, of the headers whose name is one of `names`.
pub open spec fn named_positions(hs: Seq<HeaderModel>, names: Seq<(u8, Seq<char>)>) -> Seq<int>
    decreases hs.len(),
{
    if hs.len() == 0 {
        seq![]
    } else {
        let rest = named_positions(hs.drop_last(), names);
        if holds_header(names, hs.last().name@) {
            rest.push(hs.len() - 1)
        } else {
            rest
        }
    }
}

/// Every position that a name lookup yields holds a header of one of the
/// names, and the positions come in increasing order.
pub proof fn lemma_named_positions_match(hs: Seq<HeaderModel>, names: Seq<(u8, Seq<char>)>)
    ensures
        forall|k: int|
            0 <= k < named_positions(hs, names).len() ==> {
                let p = #[trigger] named_positions(hs, names)[k];
                0 <= p < hs.len() && holds_header(names, hs[p].name@)
            },
        forall|j: int, k: int|
            0 <= j < k < named_positions(hs, names).len() ==> named_positions(hs, names)[j]
                < named_positions(hs, names)[k],
    decreases hs.len(),
{
    if hs.len() > 0 {
        lemma_named_positions_match(hs.drop_last(), names);
        let rest = named_positions(hs.drop_last(), names);
        assert forall|k: int| 0 <= k < rest.len() implies 0 <= #[trigger] rest[k] < hs.len() - 1 && hs[rest[k]]
            == hs.drop_last()[rest[k]] by {}
    }
}

/// What a header index picks from a list: everything for 0, the
/// `index`-th (counting from 1) for a positive index, the `-index`-th from
/// the end for a negative one; nothing when the list is too short.
pub open spec fn by_index(list: Seq<int>, index: int) -> Seq<int> {
    if index > 0 {
        if index <= list.len() {
            seq![list[index - 1]]
        } else {
            seq![]
        }
    } else if index < 0 {
        if list.len() + index >= 0 {
            seq![list[list.len() + index]]
        } else {
            seq![]
        }
    } else {
        list
    }
}

/// The positions of the headers whose name is one of `names`, then picked
/// by `index` (see `named_positions` and `by_index`).
pub fn select_headers(hs: &Vec<HeaderModel>, names: &Vec<HeaderName>, index: i32) -> (r: Vec<usize>)
    ensures
        r@.map_values(|p: usize| p as int) == by_index(named_positions(hs@, names_view(names@)), index as int),
        forall|k: int| 0 <= k < r@.len() ==> r@[k] < hs@.len(),
{
    let ghost nv = names_view(names@);
    let mut found: Vec<usize> = Vec::new();
    let mut i: usize = 0;
    while i < hs.len()
        invariant
            i <= hs@.len(),
            nv == names_view(names@),
            found@.map_values(|p: usize| p as int) == named_positions(hs@.take(i as int), nv),
            forall|k: int| 0 <= k < found@.len() ==> found@[k] < i,
        decreases hs@.len() - i,
    {
        proof {
            assert(hs@.take(i + 1).drop_last() =~= hs@.take(i as int));
            assert(hs@.take(i + 1).last() == hs@[i as int]);
        }
        if holds_name(names, &hs[i].name) {
            found.push(i);
            assert(found@.map_values(|p: usize| p as int) =~= named_positions(hs@.take(i + 1), nv));
        } else {
            assert(found@.map_values(|p: usize| p as int) =~= named_positions(hs@.take(i + 1), nv));
        }
        i += 1;
    }
    assert(hs@.take(i as int) =~= hs@);
    let ghost all = found@.map_values(|p: usize| p as int);
    if index > 0 {
        let k = (index - 1) as usize;
        if k < found.len() {
            let r = vec![found[k]];
            assert(r@.map_values(|p: usize| p as int) =~= by_index(all, index as int));
            r
        } else {
            let r: Vec<usize> = Vec::new();
            assert(r@.map_values(|p: usize| p as int) =~= by_index(all, index as int));
            r
        }
    } else if index < 0 {
        let back: u64 = (0i64 - index as i64) as u64;
        if back <= found.len() as u64 {
            let at = found.len() - back as usize;
            let r = vec![found[at]];
            assert(r@.map_values(|p: usize| p as int) =~= by_index(all, index as int));
            r
        } else {
            let r: Vec<usize> = Vec::new();
            assert(r@.map_values(|p: usize| p as int) =~= by_index(all, index as int));
            r
        }
    } else {
        found
    }
}

/// The bytes a header takes in the message: its raw lines, or, for a
/// header an action added, `name: text` and its line break (two bytes
/// counted for each separator).
pub open spec fn header_size(h: HeaderModel) -> int {
    if h.offset_end != 0 {
        h.offset_end - h.offset_field
    } else {
        (encode_utf8(h.name.name@).len() + match h.text {
            Some(t) => encode_utf8(t@).len(),
            None => 0,
        } + 4) as int
    }
}

/// Counts the bytes a header takes in the message (see `header_size`).
pub fn header_length(h: &HeaderModel) -> (r: usize)
    requires
        h.offset_end != 0 ==> h.offset_field <= h.offset_end,
        h.offset_end == 0 ==> header_size(*h) <= usize::MAX,
    ensures
        r == header_size(*h),
{
    if h.offset_end != 0 {
        (h.offset_end - h.offset_field) as usize
    } else {
        let text_len = match &h.text {
            Some(t) => crate::text::string_len(t),
            None => 0,
        };
        crate::text::string_len(&h.name.name) + text_len + 4
    }
}

/// Adds a header with `name` and `value` to a part, first or (when
/// `last`) last; gives the bytes it takes in the message.
pub fn insert_header(headers: &mut Vec<HeaderModel>, name: HeaderName, value: String, last: bool) -> (r: usize)
    requires
        encode_utf8(name.name@).len() + encode_utf8(value@).len() + 4 <= usize::MAX,
    ensures
        ({
            let h = HeaderModel {
                name,
                text: Some(value),
                offset_field: 0,
                offset_start: 0,
                offset_end: 0,
            };
            &&& r == header_size(h)
            &&& final(headers)@ == if last {
                old(headers)@.push(h)
            } else {
                seq![h] + old(headers)@
            }
        }),
{
    let h = HeaderModel { name, text: Some(value), offset_field: 0, offset_start: 0, offset_end: 0 };
    let size = header_length(&h);
    if last {
        headers.push(h);
    } else {
        headers.insert(0, h);
        assert(headers@ =~= seq![h] + old(headers)@);
    }
    size
}

/// `s` without the items at the positions in `gone`.
pub open spec fn without_positions<T>(s: Seq<T>, gone: Set<int>) -> Seq<T>
    decreases s.len(),
{
    if s.len() == 0 {
        seq![]
    } else {
        let rest = without_positions(s.drop_last(), gone);
        if gone.contains(s.len() - 1) {
            rest
        } else {
            rest.push(s.last())
        }
    }
}

/// The positions a list holds, as a set.
pub open spec fn position_set(positions: Seq<usize>) -> Set<int> {
    Set::new(|p: int| exists|k: int| 0 <= k < positions.len() && positions[k] as int == p)
}

proof fn lemma_without_len<T>(s: Seq<T>, gone: Set<int>)
    ensures
        without_positions(s, gone).len() <= s.len(),
        (forall|p: int| 0 <= p < s.len() ==> !gone.contains(p)) ==> without_positions(s, gone) == s,
    decreases s.len(),
{
    if s.len() > 0 {
        lemma_without_len(s.drop_last(), gone);
        if forall|p: int| 0 <= p < s.len() ==> !gone.contains(p) {
            assert(forall|p: int| 0 <= p < s.drop_last().len() ==> !gone.contains(p));
            assert(s.drop_last().push(s.last()) =~= s);
        }
    }
}

/// Deleting a header at the position where `insert_header` put it gives
/// back the headers the part had before.
pub proof fn lemma_delete_inserted<T>(s: Seq<T>, h: T)
    ensures
        without_positions(s.push(h), set![s.len() as int]) == s,
        without_positions(seq![h] + s, set![0int]) == s,
    decreases s.len(),
{
    assert(s.push(h).drop_last() =~= s);
    lemma_without_len(s, set![s.len() as int]);
    if s.len() == 0 {
        assert(seq![h] + s =~= seq![h]);
        assert(seq![h].drop_last() =~= Seq::<T>::empty());
    } else {
        lemma_delete_inserted(s.drop_last(), h);
        assert((seq![h] + s).drop_last() =~= seq![h] + s.drop_last());
        assert(s.drop_last().push(s.last()) =~= s);
    }
}

/// Removing position `q` from `s` without `gone`, when every position in
/// `gone` comes after `q`, is `s` without `gone` and `q`.
proof fn lemma_remove_before<T>(s: Seq<T>, gone: Set<int>, q: int)
    requires
        0 <= q < s.len(),
        !gone.contains(q),
        forall|p: int| #[trigger] gone.contains(p) ==> p > q,
    ensures
        q < without_positions(s, gone).len(),
        without_positions(s, gone).remove(q) == without_positions(s, gone.insert(q)),
    decreases s.len(),
{
    let n = s.len() - 1;
    if n == q {
        lemma_without_len(s.drop_last(), gone);
        assert(without_positions(s.drop_last(), gone) == s.drop_last());
        assert(without_positions(s.drop_last(), gone.insert(q)) == s.drop_last()) by {
            lemma_without_len(s.drop_last(), gone.insert(q));
        }
        assert(without_positions(s, gone) =~= s.drop_last().push(s.last()));
        assert(without_positions(s, gone).remove(q) =~= s.drop_last());
    } else {
        lemma_remove_before(s.drop_last(), gone, q);
        let rest = without_positions(s.drop_last(), gone);
        if gone.contains(n) {
            assert(gone.insert(q).contains(n));
        } else {
            assert(!gone.insert(q).contains(n));
            assert(rest.push(s.last()).remove(q) =~= rest.remove(q).push(s.last()));
        }
    }
}

/// Deletes the items at `positions` (in increasing order), from the last
/// one back, so that each position still names the item it named.
pub fn delete_positions<T>(v: &mut Vec<T>, positions: &Vec<usize>)
    requires
        forall|k: int| 0 <= k < positions@.len() ==> positions@[k] < old(v)@.len(),
        forall|j: int, k: int| 0 <= j < k < positions@.len() ==> positions@[j] < positions@[k],
    ensures
        final(v)@ == without_positions(old(v)@, position_set(positions@)),
{
    let ghost start = v@;
    let mut k: usize = positions.len();
    proof {
        lemma_without_len(start, position_set(positions@.skip(k as int)));
    }
    while k > 0
        invariant
            k <= positions@.len(),
            forall|i: int| 0 <= i < positions@.len() ==> positions@[i] < start.len(),
            forall|j: int, i: int| 0 <= j < i < positions@.len() ==> positions@[j] < positions@[i],
            v@ == without_positions(start, position_set(positions@.skip(k as int))),
        decreases k,
    {
        let q = positions[k - 1];
        let ghost after = positions@.skip(k as int);
        let ghost from = positions@.skip(k - 1);
        let ghost later = position_set(after);
        proof {
            assert forall|p: int| #[trigger] later.contains(p) implies p > q by {
                let w = choose|w: int| 0 <= w < after.len() && after[w] as int == p;
                assert(after[w] == positions@[k + w]);
            }
            if later.contains(q as int) {
                assert(q > q);
            }
            lemma_remove_before(start, later, q as int);
            assert(position_set(from) =~= later.insert(q as int)) by {
                assert forall|p: int| #[trigger] later.insert(q as int).contains(p) implies position_set(from).contains(p) by {
                    if p == q as int {
                        assert(from[0] == q);
                    } else {
                        let w = choose|w: int| 0 <= w < after.len() && after[w] as int == p;
                        assert(from[w + 1] == after[w]);
                    }
                }
                assert forall|p: int| #[trigger] position_set(from).contains(p) implies later.insert(q as int).contains(p) by {
                    let w = choose|w: int| 0 <= w < from.len() && from[w] as int == p;
                    if w > 0 {
                        assert(after[w - 1] == from[w]);
                    }
                }
            }
        }
        v.remove(q);
        k -= 1;
    }
    assert(positions@.skip(0) =~= positions@);
}

} // verus!
