//! The values a running script computes with: text, integers and arrays.
//! Floating-point values are left to the caller: an operation that needs
//! floating point says so instead of computing.

use crate::text::{all_digit_chars, decimal_value, is_digit_char, push_char, str_chars};
use vstd::prelude::*;

verus! {

/// A value of a running script.
#[derive(Debug, PartialEq, Eq)]
pub enum Variable {
    String(String),
    Integer(i64),
    Array(Vec<Variable>),
}

/// A value as seen in contracts.
pub enum VariableView {
    String(Seq<char>),
    Integer(i64),
    Array(Seq<VariableView>),
}

/// A value as seen in contracts.
pub open spec fn variable_view(v: Variable) -> VariableView
    decreases v,
{
    match v {
        Variable::String(s) => VariableView::String(s@),
        Variable::Integer(n) => VariableView::Integer(n),
        Variable::Array(a) => VariableView::Array(
            Seq::new(
                a@.len(),
                |i: int|
                    if 0 <= i < a@.len() {
                        variable_view(a@[i])
                    } else {
                        VariableView::Integer(0)
                    },
            ),
        ),
    }
}

impl View for Variable {
    type V = VariableView;

    open spec fn view(&self) -> VariableView {
        variable_view(*self)
    }
}

pub open spec fn variables_view(a: Seq<Variable>) -> Seq<VariableView> {
    a.map_values(|v: Variable| v@)
}

/// The view of an array is the array of the views of its items.
pub proof fn lemma_array_view(a: Vec<Variable>)
    ensures
        variable_view(Variable::Array(a)) == VariableView::Array(variables_view(a@)),
{
    let r = variable_view(Variable::Array(a));
    assert(r->Array_0 =~= variables_view(a@));
}

/// A value read as a condition: non-empty text, a non-zero integer, a
/// non-empty array.
pub open spec fn truthy(v: VariableView) -> bool {
    match v {
        VariableView::String(s) => s.len() > 0,
        VariableView::Integer(n) => n != 0,
        VariableView::Array(a) => a.len() > 0,
    }
}

/// Empty text or an empty array.
pub open spec fn is_empty_value(v: VariableView) -> bool {
    match v {
        VariableView::String(s) => s.len() == 0,
        VariableView::Integer(_) => false,
        VariableView::Array(a) => a.len() == 0,
    }
}

pub open spec fn digit_char(d: nat) -> char {
    (d + 48) as char
}

/// The decimal digits of `n`.
pub open spec fn nat_text(n: nat) -> Seq<char>
    decreases n,
{
    if n < 10 {
        seq![digit_char(n)]
    } else {
        nat_text(n / 10).push(digit_char(n % 10))
    }
}

/// The decimal form of `n`, as `i64` writes it.
pub open spec fn int_text(n: int) -> Seq<char> {
    if n < 0 {
        seq!['-'] + nat_text((-n) as nat)
    } else {
        nat_text(n as nat)
    }
}

pub fn u64_to_string(n: u64) -> (r: String)
    ensures
        r@ == nat_text(n as nat),
    decreases n,
{
    if n < 10 {
        let mut r = String::new();
        push_char(&mut r, ((n as u8) + 48) as char);
        assert(r@ =~= seq![digit_char(n as nat)]);
        r
    } else {
        let mut r = u64_to_string(n / 10);
        push_char(&mut r, (((n % 10) as u8) + 48) as char);
        r
    }
}

/// The decimal form of `n`.
pub fn int_to_string(n: i64) -> (r: String)
    ensures
        r@ == int_text(n as int),
{
    if n < 0 {
        let mag: u64 = if n == i64::MIN {
            9223372036854775808u64
        } else {
            (-n) as u64
        };
        let digits = u64_to_string(mag);
        let mut r = String::new();
        push_char(&mut r, '-');
        let c = str_chars(digits.as_str());
        let mut i: usize = 0;
        while i < c.len()
            invariant
                i <= c@.len(),
                c@ == nat_text(mag as nat),
                r@ == seq!['-'] + c@.subrange(0, i as int),
            decreases c@.len() - i,
        {
            push_char(&mut r, c[i]);
            i += 1;
            assert(r@ =~= seq!['-'] + c@.subrange(0, i as int));
        }
        assert(c@.subrange(0, c@.len() as int) =~= c@);
        r
    } else {
        u64_to_string(n as u64)
    }
}

/// The decimal digits of `n` are digits, without a leading zero, and
/// their value is `n`.
pub proof fn lemma_nat_text(n: nat)
    ensures
        nat_text(n).len() >= 1,
        all_digit_chars(nat_text(n)),
        decimal_value(nat_text(n)) == n,
        nat_text(n).len() == 1 || nat_text(n)[0] != '0',
        (nat_text(n) == seq!['0']) <==> n == 0,
    decreases n,
{
    if n >= 10 {
        lemma_nat_text(n / 10);
        let t = nat_text(n);
        assert(t.drop_last() =~= nat_text(n / 10));
        assert(digit_char(n % 10) as nat - 48 == n % 10);
        assert(t.len() >= 2);
        assert(t != seq!['0']);
        let u = nat_text(n / 10);
        assert(t[0] == u[0]);
        if u.len() == 1 && u[0] == '0' {
            assert(u =~= seq!['0']);
        }
    } else {
        assert(digit_char(n) as nat - 48 == n);
        let t = nat_text(n);
        assert(decimal_value(t.drop_last()) == 0) by {
            assert(t.drop_last() =~= Seq::<char>::empty());
        }
        if n != 0 {
            assert(t[0] != '0');
        } else {
            assert(t =~= seq!['0']);
        }
    }
}

/// Digits without a leading zero have a value of at least one, unless
/// they are a single zero.
pub proof fn lemma_decimal_positive(d: Seq<char>)
    requires
        d.len() >= 1,
        all_digit_chars(d),
        d[0] != '0',
    ensures
        decimal_value(d) >= 1,
    decreases d.len(),
{
    if d.len() > 1 {
        lemma_decimal_positive(d.drop_last());
    } else {
        assert(d.drop_last() =~= Seq::<char>::empty());
    }
}

/// Digits without a leading zero are the decimal digits of their value.
pub proof fn lemma_text_of_decimal(d: Seq<char>)
    requires
        d.len() >= 1,
        all_digit_chars(d),
        d.len() == 1 || d[0] != '0',
    ensures
        nat_text(decimal_value(d)) == d,
    decreases d.len(),
{
    let v = decimal_value(d);
    if d.len() == 1 {
        assert(d.drop_last() =~= Seq::<char>::empty());
        assert(d.last() == d[0]);
        assert(decimal_value(Seq::<char>::empty()) == 0);
        assert(decimal_value(d.drop_last()) == 0);
        assert(v == (d[0] as nat - 48) as nat);
        assert(digit_char(v) == d[0]);
        assert(nat_text(v) =~= d);
    } else {
        let e = d.drop_last();
        assert(e[0] == d[0]);
        assert(all_digit_chars(e));
        lemma_text_of_decimal(e);
        lemma_decimal_positive(e);
        let x = (d.last() as nat - 48) as nat;
        assert(v == decimal_value(e) * 10 + x);
        assert(v / 10 == decimal_value(e));
        assert(v % 10 == x);
        assert(digit_char(x) == d.last());
        assert(nat_text(v) =~= d);
    }
}

/// The text of a value: text as is, an integer in decimal, the items of
/// an array one per line.
pub open spec fn text_of(v: VariableView) -> Seq<char>
    decreases v,
{
    match v {
        VariableView::String(s) => s,
        VariableView::Integer(n) => int_text(n as int),
        VariableView::Array(a) => join_lines(a),
    }
}

/// The texts of the items, separated by line feeds.
pub open spec fn join_lines(a: Seq<VariableView>) -> Seq<char>
    decreases a,
{
    if a.len() == 0 {
        Seq::empty()
    } else if a.len() == 1 {
        text_of(a[0])
    } else {
        join_lines(a.drop_last()) + seq!['\n'] + text_of(a.last())
    }
}

impl Variable {
    /// Whether the value reads as true.
    pub fn to_bool(&self) -> (r: bool)
        ensures
            r == truthy(self@),
    {
        match self {
            Variable::String(s) => s.as_str().unicode_len() > 0,
            Variable::Integer(n) => *n != 0,
            Variable::Array(a) => {
                proof {
                    lemma_array_view(*a);
                }
                a.len() > 0
            },
        }
    }

    /// Whether the value is empty text or an empty array.
    pub fn is_empty(&self) -> (r: bool)
        ensures
            r == is_empty_value(self@),
    {
        match self {
            Variable::String(s) => s.as_str().unicode_len() == 0,
            Variable::Integer(_) => false,
            Variable::Array(a) => {
                proof {
                    lemma_array_view(*a);
                }
                a.len() == 0
            },
        }
    }
}

} // verus!
