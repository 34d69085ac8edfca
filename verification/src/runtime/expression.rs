//! The operators of expressions (`${a + b}` and the `eval` of scripts):
//! arithmetic that saturates on integers, joining text, building arrays,
//! and the logical operators.

use crate::runtime::variable::{
    int_text, int_to_string, is_empty_value, lemma_array_view, truthy, variables_view, Variable,
    VariableView,
};
use crate::compiler::grammar::{BinaryOperator, UnaryOperator};
use crate::text::{all_digit_chars, decimal_value, is_digit_char, lemma_decimal_prefix, str_chars};
use vstd::prelude::*;
use vstd::utf8::encode_utf8;
use vstd::string::StringSliceAdditionalSpecFns;

verus! {

/// `i64`'s parse of `s`: an optional sign, then one or more digits whose
/// value fits.
pub open spec fn parse_i64(s: Seq<char>) -> Option<i64> {
    let neg = s.len() > 0 && s[0] == '-';
    let d = if s.len() > 0 && (s[0] == '-' || s[0] == '+') {
        s.drop_first()
    } else {
        s
    };
    if d.len() > 0 && all_digit_chars(d) {
        let v: int = if neg {
            -(decimal_value(d) as int)
        } else {
            decimal_value(d) as int
        };
        if i64::MIN <= v <= i64::MAX {
            Some(v as i64)
        } else {
            None
        }
    } else {
        None
    }
}

/// `i64`'s parse of `s`.
pub fn parse_i64_exec(s: &str) -> (r: Option<i64>)
    ensures
        r == parse_i64(s@),
{
    let c = str_chars(s);
    let n = c.len();
    let signed = n > 0 && (c[0] == '-' || c[0] == '+');
    let neg = n > 0 && c[0] == '-';
    let start: usize = if signed {
        1
    } else {
        0
    };
    let ghost d = if signed {
        s@.drop_first()
    } else {
        s@
    };
    assert(d =~= s@.subrange(start as int, n as int));
    if start >= n {
        return None;
    }
    let mut acc: u64 = 0;
    let mut i: usize = start;
    while i < n
        invariant
            c@ == s@,
            n == c@.len(),
            start <= i <= n,
            d == s@.subrange(start as int, n as int),
            d == (if s@.len() > 0 && (s@[0] == '-' || s@[0] == '+') {
                s@.drop_first()
            } else {
                s@
            }),
            forall|j: int| 0 <= j < i - start ==> is_digit_char(#[trigger] d[j]),
            acc == decimal_value(d.subrange(0, i - start)),
            acc <= 9223372036854775808u64,
        decreases n - i,
    {
        let ch = c[i];
        if ch < '0' || ch > '9' {
            assert(!is_digit_char(d[i - start]));
            assert(!all_digit_chars(d));
            return None;
        }
        assert(d.subrange(0, i - start + 1).drop_last() =~= d.subrange(0, i - start));
        let digit: u64 = (ch as u32 - 48) as u64;
        if acc > 922337203685477580u64 || acc * 10 + digit > 9223372036854775808u64 {
            proof {
                if all_digit_chars(d) {
                    lemma_decimal_prefix(d, i - start + 1);
                }
            }
            return None;
        }
        acc = acc * 10 + digit;
        i += 1;
    }
    assert(d.subrange(0, n - start) =~= d);
    if neg {
        if acc == 9223372036854775808u64 {
            Some(i64::MIN)
        } else {
            Some(-(acc as i64))
        }
    } else if acc <= 9223372036854775807u64 {
        Some(acc as i64)
    } else {
        None
    }
}

/// The number a value reads as: text that `i64` reads, empty text as 0; an
/// integer as is; an array as 1 when empty and 0 otherwise. Nothing for
/// other text: it is read as floating point by the caller, as 0 when it
/// does not read as a number at all.
pub open spec fn number_of(v: VariableView) -> Option<VariableView> {
    match v {
        VariableView::String(s) => if s.len() > 0 {
            match parse_i64(s) {
                Some(n) => Some(VariableView::Integer(n)),
                None => None,
            }
        } else {
            Some(VariableView::Integer(0))
        },
        VariableView::Integer(n) => Some(VariableView::Integer(n)),
        VariableView::Array(a) => Some(VariableView::Integer(if a.len() == 0 { 1 } else { 0 })),
    }
}

/// `a + b`, clamped to the range of `i64`.
pub open spec fn saturate(v: int) -> i64 {
    if v > i64::MAX {
        i64::MAX
    } else if v < i64::MIN {
        i64::MIN
    } else {
        v as i64
    }
}

/// What `+` makes of two values: the sum of integers, arrays joined, a
/// value appended to or prepended to an array, text joined (an empty side
/// gives the other value as is).
pub open spec fn add_spec(a: VariableView, b: VariableView) -> VariableView {
    match (a, b) {
        (VariableView::Integer(x), VariableView::Integer(y)) => VariableView::Integer(saturate(x + y)),
        (VariableView::Array(x), VariableView::Array(y)) => VariableView::Array(x + y),
        (VariableView::Array(x), _) => VariableView::Array(x.push(b)),
        (_, VariableView::Array(y)) => VariableView::Array(seq![a] + y),
        (VariableView::String(x), _) => if x.len() == 0 {
            b
        } else if is_empty_value(b) {
            a
        } else {
            VariableView::String(x + crate::runtime::variable::text_of(b))
        },
        (_, VariableView::String(y)) => if y.len() == 0 {
            a
        } else {
            VariableView::String(crate::runtime::variable::text_of(a) + y)
        },
    }
}

/// What `*` makes of two values: the product of the numbers they read as,
/// clamped; nothing when one is text that only floating point may read.
pub open spec fn multiply_spec(a: VariableView, b: VariableView) -> Option<VariableView> {
    match (number_of(a), number_of(b)) {
        (Some(VariableView::Integer(x)), Some(VariableView::Integer(y))) => Some(
            VariableView::Integer(saturate(x * y)),
        ),
        _ => None,
    }
}

/// What `-` makes of two values that are not arrays: the difference of the
/// numbers they read as, clamped; nothing when one is an array (an array
/// loses the items equal to the other value, an equality of values this
/// library does not hold) or text that only floating point may read.
pub open spec fn subtract_spec(a: VariableView, b: VariableView) -> Option<VariableView> {
    if a is Array || b is Array {
        None
    } else {
        match (number_of(a), number_of(b)) {
            (Some(VariableView::Integer(x)), Some(VariableView::Integer(y))) => Some(
                VariableView::Integer(saturate(x - y)),
            ),
            _ => None,
        }
    }
}

/// What unary `-` makes of a value: the negated number it reads as,
/// clamped; nothing when it is text that only floating point may read.
pub open spec fn minus_spec(a: VariableView) -> Option<VariableView> {
    match number_of(a) {
        Some(VariableView::Integer(x)) => Some(VariableView::Integer(saturate(-x))),
        _ => None,
    }
}

pub open spec fn bool_value(b: bool) -> VariableView {
    VariableView::Integer(if b { 1 } else { 0 })
}

pub open spec fn opt_view(r: Option<Variable>) -> Option<VariableView> {
    match r {
        Some(v) => Some(v@),
        None => None,
    }
}

fn saturating_mul_i64(a: i64, b: i64) -> (r: i64)
    ensures
        r == saturate(a * b),
{
    match a.checked_mul(b) {
        Some(v) => v,
        None => {
            if (a < 0) != (b < 0) {
                assert(a * b < i64::MIN) by (nonlinear_arith)
                    requires
                        (a < 0) != (b < 0),
                        a * b < i64::MIN || a * b > i64::MAX,
                ;
                i64::MIN
            } else {
                assert(a * b > i64::MAX) by (nonlinear_arith)
                    requires
                        (a < 0) == (b < 0),
                        a * b < i64::MIN || a * b > i64::MAX,
                ;
                i64::MAX
            }
        },
    }
}

fn saturating_sub_i64(a: i64, b: i64) -> (r: i64)
    ensures
        r == saturate(a - b),
{
    match a.checked_sub(b) {
        Some(v) => v,
        None => if b > 0 {
            i64::MIN
        } else {
            i64::MAX
        },
    }
}

fn saturating_add_i64(a: i64, b: i64) -> (r: i64)
    ensures
        r == saturate(a + b),
{
    match a.checked_add(b) {
        Some(v) => v,
        None => if a < 0 {
            i64::MIN
        } else {
            i64::MAX
        },
    }
}

fn bool_variable(b: bool) -> (r: Variable)
    ensures
        r@ == bool_value(b),
{
    Variable::Integer(
        if b {
            1
        } else {
            0
        },
    )
}

/// How two byte strings compare, byte by byte: -1 when `a` comes first,
/// 0 when they are equal, 1 when `b` comes first.
pub open spec fn bytes_order(a: Seq<u8>, b: Seq<u8>) -> int
    decreases a.len(),
{
    if a.len() == 0 {
        if b.len() == 0 {
            0
        } else {
            -1
        }
    } else if b.len() == 0 {
        1
    } else if a[0] < b[0] {
        -1
    } else if a[0] > b[0] {
        1
    } else {
        bytes_order(a.drop_first(), b.drop_first())
    }
}

/// How two values compare: integers by value, texts byte by byte in UTF-8;
/// nothing for other pairs.
pub open spec fn value_order(a: VariableView, b: VariableView) -> Option<int> {
    match (a, b) {
        (VariableView::Integer(x), VariableView::Integer(y)) => Some(
            if x < y {
                -1
            } else if x == y {
                0
            } else {
                1
            },
        ),
        (VariableView::String(x), VariableView::String(y)) => Some(
            bytes_order(encode_utf8(x), encode_utf8(y)),
        ),
        _ => None,
    }
}

/// Whether a comparison operator holds of an order (-1, 0 or 1).
pub open spec fn order_holds(op: BinaryOperator, o: int) -> bool {
    match op {
        BinaryOperator::Eq => o == 0,
        BinaryOperator::Ne => o != 0,
        BinaryOperator::Lt => o < 0,
        BinaryOperator::Le => o <= 0,
        BinaryOperator::Gt => o > 0,
        _ => o >= 0,
    }
}

/// What a comparison gives: 1 or 0 as it holds, for two integers or two
/// texts; nothing for other pairs.
pub open spec fn compare_spec(op: BinaryOperator, a: VariableView, b: VariableView) -> Option<VariableView> {
    match value_order(a, b) {
        Some(o) => Some(bool_value(order_holds(op, o))),
        None => None,
    }
}

/// `!=` is the negation of `==`, and comparisons give 1 or 0; the other
/// operators agree with the order: `<` and `>=` are each other's negation,
/// as are `>` and `<=`.
pub proof fn lemma_comparisons(a: VariableView, b: VariableView)
    ensures
        compare_spec(BinaryOperator::Eq, a, b) is Some <==> compare_spec(BinaryOperator::Ne, a, b) is Some,
        compare_spec(BinaryOperator::Eq, a, b) matches Some(x) ==> (x == bool_value(true) || x == bool_value(false))
            && compare_spec(BinaryOperator::Ne, a, b) == Some(bool_value(x != bool_value(true))),
        compare_spec(BinaryOperator::Lt, a, b) matches Some(x) ==> compare_spec(BinaryOperator::Ge, a, b) == Some(
            bool_value(x != bool_value(true)),
        ),
        compare_spec(BinaryOperator::Gt, a, b) matches Some(x) ==> compare_spec(BinaryOperator::Le, a, b) == Some(
            bool_value(x != bool_value(true)),
        ),
{
}

/// Compares two byte strings (see `bytes_order`).
fn bytes_order_exec(a: &[u8], b: &[u8]) -> (r: i8)
    ensures
        r as int == bytes_order(a@, b@),
{
    let mut i: usize = 0;
    assert(a@.skip(0) =~= a@ && b@.skip(0) =~= b@);
    while i < a.len() && i < b.len()
        invariant
            i <= a@.len(),
            i <= b@.len(),
            a@.subrange(0, i as int) == b@.subrange(0, i as int),
            bytes_order(a@, b@) == bytes_order(a@.skip(i as int), b@.skip(i as int)),
        decreases a@.len() - i,
    {
        let ghost sa = a@.skip(i as int);
        let ghost sb = b@.skip(i as int);
        assert(sa[0] == a@[i as int] && sb[0] == b@[i as int]);
        if a[i] < b[i] {
            return -1;
        }
        if a[i] > b[i] {
            return 1;
        }
        assert(sa.drop_first() =~= a@.skip(i + 1));
        assert(sb.drop_first() =~= b@.skip(i + 1));
        assert(a@.subrange(0, i + 1) =~= a@.subrange(0, i as int).push(a@[i as int]));
        assert(b@.subrange(0, i + 1) =~= b@.subrange(0, i as int).push(b@[i as int]));
        i += 1;
    }
    if i < a.len() {
        assert(a@.skip(i as int).len() > 0 && b@.skip(i as int).len() == 0);
        1
    } else if i < b.len() {
        assert(a@.skip(i as int).len() == 0 && b@.skip(i as int).len() > 0);
        -1
    } else {
        assert(a@.skip(i as int).len() == 0 && b@.skip(i as int).len() == 0);
        0
    }
}

/// Compares two values with a comparison operator (see `compare_spec`).
fn compare_values(op: BinaryOperator, a: &Variable, b: &Variable) -> (r: Option<Variable>)
    requires
        op == BinaryOperator::Eq || op == BinaryOperator::Ne || op == BinaryOperator::Lt || op
            == BinaryOperator::Le || op == BinaryOperator::Gt || op == BinaryOperator::Ge,
    ensures
        opt_view(r) == compare_spec(op, a@, b@),
{
    let o: i8 = match (a, b) {
        (Variable::Integer(x), Variable::Integer(y)) => if *x < *y {
            -1
        } else if *x == *y {
            0
        } else {
            1
        },
        (Variable::String(x), Variable::String(y)) => bytes_order_exec(x.as_str().as_bytes(), y.as_str().as_bytes()),
        _ => {
            return None;
        },
    };
    let holds = match op {
        BinaryOperator::Eq => o == 0,
        BinaryOperator::Ne => o != 0,
        BinaryOperator::Lt => o < 0,
        BinaryOperator::Le => o <= 0,
        BinaryOperator::Gt => o > 0,
        _ => o >= 0,
    };
    Some(bool_variable(holds))
}

impl Variable {
    /// The number the value reads as (see `number_of`); nothing for text
    /// that only floating point may read.
    pub fn parse_number(&self) -> (r: Option<Variable>)
        ensures
            opt_view(r) == number_of(self@),
    {
        match self {
            Variable::String(s) => {
                if s.as_str().unicode_len() > 0 {
                    match parse_i64_exec(s.as_str()) {
                        Some(n) => Some(Variable::Integer(n)),
                        None => None,
                    }
                } else {
                    Some(Variable::Integer(0))
                }
            },
            Variable::Integer(n) => Some(Variable::Integer(*n)),
            Variable::Array(a) => {
                proof {
                    lemma_array_view(*a);
                }
                Some(
                    Variable::Integer(
                        if a.len() == 0 {
                            1
                        } else {
                            0
                        },
                    ),
                )
            },
        }
    }

    /// `self + other` (see `add_spec`).
    pub fn op_add(self, other: Variable) -> (r: Variable)
        ensures
            r@ == add_spec(self@, other@),
    {
        match (self, other) {
            (Variable::Integer(a), Variable::Integer(b)) => Variable::Integer(saturating_add_i64(a, b)),
            (Variable::Array(mut a), Variable::Array(mut b)) => {
                proof {
                    lemma_array_view(a);
                    lemma_array_view(b);
                }
                let ghost va = a@;
                let ghost vb = b@;
                a.append(&mut b);
                proof {
                    lemma_array_view(a);
                    assert(variables_view(a@) =~= variables_view(va) + variables_view(vb));
                }
                Variable::Array(a)
            },
            (Variable::Array(mut a), b) => {
                proof {
                    lemma_array_view(a);
                }
                let ghost va = a@;
                let ghost bv = b@;
                a.push(b);
                proof {
                    lemma_array_view(a);
                    assert(variables_view(a@) =~= variables_view(va).push(bv));
                }
                Variable::Array(a)
            },
            (a, Variable::Array(b)) => {
                proof {
                    lemma_array_view(b);
                }
                let ghost av = a@;
                let ghost vb = b@;
                let mut r: Vec<Variable> = Vec::new();
                r.push(a);
                let mut b = b;
                r.append(&mut b);
                proof {
                    lemma_array_view(r);
                    assert(variables_view(r@) =~= seq![av] + variables_view(vb));
                }
                Variable::Array(r)
            },
            (Variable::String(a), b) => {
                if a.as_str().unicode_len() == 0 {
                    b
                } else if b.is_empty() {
                    Variable::String(a)
                } else {
                    let tail = match b {
                        Variable::String(s) => s,
                        Variable::Integer(n) => int_to_string(n),
                        Variable::Array(_) => String::new(),
                    };
                    Variable::String(crate::runtime::expression::concat(a.as_str(), tail.as_str()))
                }
            },
            (a, Variable::String(b)) => {
                if b.as_str().unicode_len() == 0 {
                    a
                } else {
                    let head = match a {
                        Variable::Integer(n) => int_to_string(n),
                        Variable::String(s) => s,
                        Variable::Array(_) => String::new(),
                    };
                    Variable::String(crate::runtime::expression::concat(head.as_str(), b.as_str()))
                }
            },
        }
    }

    /// `self * other` (see `multiply_spec`).
    pub fn op_multiply(self, other: Variable) -> (r: Option<Variable>)
        ensures
            opt_view(r) == multiply_spec(self@, other@),
    {
        match (self.parse_number(), other.parse_number()) {
            (Some(Variable::Integer(a)), Some(Variable::Integer(b))) => Some(
                Variable::Integer(saturating_mul_i64(a, b)),
            ),
            _ => None,
        }
    }

    /// `self - other` (see `subtract_spec`).
    pub fn op_subtract(self, other: Variable) -> (r: Option<Variable>)
        ensures
            opt_view(r) == subtract_spec(self@, other@),
    {
        if matches!(self, Variable::Array(_)) || matches!(other, Variable::Array(_)) {
            return None;
        }
        match (self.parse_number(), other.parse_number()) {
            (Some(Variable::Integer(a)), Some(Variable::Integer(b))) => Some(
                Variable::Integer(saturating_sub_i64(a, b)),
            ),
            _ => None,
        }
    }

    /// `-self` (see `minus_spec`).
    pub fn op_minus(self) -> (r: Option<Variable>)
        ensures
            opt_view(r) == minus_spec(self@),
    {
        match self.parse_number() {
            Some(Variable::Integer(n)) => Some(
                Variable::Integer(
                    if n == i64::MIN {
                        i64::MAX
                    } else {
                        -n
                    },
                ),
            ),
            _ => None,
        }
    }

    /// `self && other`: 1 when both read as true, else 0.
    pub fn op_and(self, other: Variable) -> (r: Variable)
        ensures
            r@ == bool_value(truthy(self@) && truthy(other@)),
    {
        let a = self.to_bool();
        let b = other.to_bool();
        bool_variable(a && b)
    }

    /// `self || other`: 1 when either reads as true, else 0.
    pub fn op_or(self, other: Variable) -> (r: Variable)
        ensures
            r@ == bool_value(truthy(self@) || truthy(other@)),
    {
        let a = self.to_bool();
        let b = other.to_bool();
        bool_variable(a || b)
    }

    /// `self ^ other`: 1 when exactly one reads as true, else 0.
    pub fn op_xor(self, other: Variable) -> (r: Variable)
        ensures
            r@ == bool_value(truthy(self@) != truthy(other@)),
    {
        let a = self.to_bool();
        let b = other.to_bool();
        bool_variable(a != b)
    }

    /// `!self`: 1 when it reads as false, else 0.
    pub fn op_not(self) -> (r: Variable)
        ensures
            r@ == bool_value(!truthy(self@)),
    {
        bool_variable(!self.to_bool())
    }

    /// `==` on two integers or two texts: 1 when they are equal, else 0;
    /// nothing for other pairs (see `compare_spec`).
    pub fn op_eq(self, other: Variable) -> (r: Option<Variable>)
        ensures
            opt_view(r) == compare_spec(BinaryOperator::Eq, self@, other@),
    {
        compare_values(BinaryOperator::Eq, &self, &other)
    }

    /// `!=` (see `compare_spec`).
    pub fn op_ne(self, other: Variable) -> (r: Option<Variable>)
        ensures
            opt_view(r) == compare_spec(BinaryOperator::Ne, self@, other@),
    {
        compare_values(BinaryOperator::Ne, &self, &other)
    }

    /// `<` (see `compare_spec`).
    pub fn op_lt(self, other: Variable) -> (r: Option<Variable>)
        ensures
            opt_view(r) == compare_spec(BinaryOperator::Lt, self@, other@),
    {
        compare_values(BinaryOperator::Lt, &self, &other)
    }

    /// `<=` (see `compare_spec`).
    pub fn op_le(self, other: Variable) -> (r: Option<Variable>)
        ensures
            opt_view(r) == compare_spec(BinaryOperator::Le, self@, other@),
    {
        compare_values(BinaryOperator::Le, &self, &other)
    }

    /// `>` (see `compare_spec`).
    pub fn op_gt(self, other: Variable) -> (r: Option<Variable>)
        ensures
            opt_view(r) == compare_spec(BinaryOperator::Gt, self@, other@),
    {
        compare_values(BinaryOperator::Gt, &self, &other)
    }

    /// `>=` (see `compare_spec`).
    pub fn op_ge(self, other: Variable) -> (r: Option<Variable>)
        ensures
            opt_view(r) == compare_spec(BinaryOperator::Ge, self@, other@),
    {
        compare_values(BinaryOperator::Ge, &self, &other)
    }
}

/// The characters of `a` followed by those of `b`.
pub fn concat(a: &str, b: &str) -> (r: String)
    ensures
        r@ == a@ + b@,
{
    let mut r = a.to_string();
    let c = str_chars(b);
    let ghost start = r@;
    let mut i: usize = 0;
    while i < c.len()
        invariant
            i <= c@.len(),
            c@ == b@,
            start == a@,
            r@ == start + c@.subrange(0, i as int),
        decreases c@.len() - i,
    {
        crate::text::push_char(&mut r, c[i]);
        i += 1;
        assert(r@ =~= start + c@.subrange(0, i as int));
    }
    assert(c@.subrange(0, c@.len() as int) =~= c@);
    r
}

/// The binary operator a code stands for; every code above 11 stands
/// for `>=`.
pub open spec fn binary_operator_of_code(code: u8) -> BinaryOperator {
    if code == 0 {
        BinaryOperator::Add
    } else if code == 1 {
        BinaryOperator::Subtract
    } else if code == 2 {
        BinaryOperator::Multiply
    } else if code == 3 {
        BinaryOperator::Divide
    } else if code == 4 {
        BinaryOperator::And
    } else if code == 5 {
        BinaryOperator::Or
    } else if code == 6 {
        BinaryOperator::Xor
    } else if code == 7 {
        BinaryOperator::Eq
    } else if code == 8 {
        BinaryOperator::Ne
    } else if code == 9 {
        BinaryOperator::Lt
    } else if code == 10 {
        BinaryOperator::Le
    } else if code == 11 {
        BinaryOperator::Gt
    } else {
        BinaryOperator::Ge
    }
}

/// The code of a binary operator.
pub open spec fn binary_operator_code(op: BinaryOperator) -> u8 {
    match op {
        BinaryOperator::Add => 0,
        BinaryOperator::Subtract => 1,
        BinaryOperator::Multiply => 2,
        BinaryOperator::Divide => 3,
        BinaryOperator::And => 4,
        BinaryOperator::Or => 5,
        BinaryOperator::Xor => 6,
        BinaryOperator::Eq => 7,
        BinaryOperator::Ne => 8,
        BinaryOperator::Lt => 9,
        BinaryOperator::Le => 10,
        BinaryOperator::Gt => 11,
        BinaryOperator::Ge => 12,
    }
}

impl BinaryOperator {
    /// Decodes a binary operator.
    pub fn from_code(code: u8) -> (r: BinaryOperator)
        ensures
            r == binary_operator_of_code(code),
    {
        match code {
            0 => BinaryOperator::Add,
            1 => BinaryOperator::Subtract,
            2 => BinaryOperator::Multiply,
            3 => BinaryOperator::Divide,
            4 => BinaryOperator::And,
            5 => BinaryOperator::Or,
            6 => BinaryOperator::Xor,
            7 => BinaryOperator::Eq,
            8 => BinaryOperator::Ne,
            9 => BinaryOperator::Lt,
            10 => BinaryOperator::Le,
            11 => BinaryOperator::Gt,
            _ => BinaryOperator::Ge,
        }
    }
}

impl UnaryOperator {
    /// Decodes a unary operator: 0 is `!`, every other code `-`.
    pub fn from_code(code: u8) -> (r: UnaryOperator)
        ensures
            r == (if code == 0 {
                UnaryOperator::Not
            } else {
                UnaryOperator::Minus
            }),
    {
        match code {
            0 => UnaryOperator::Not,
            _ => UnaryOperator::Minus,
        }
    }
}

/// `*` does not depend on the order of its operands.
pub proof fn lemma_multiply_commutes(a: VariableView, b: VariableView)
    ensures
        multiply_spec(a, b) == multiply_spec(b, a),
{
    match (number_of(a), number_of(b)) {
        (Some(VariableView::Integer(x)), Some(VariableView::Integer(y))) => {
            assert(x * y == y * x) by (nonlinear_arith);
        },
        _ => {},
    }
}

/// `+` of two integers does not depend on their order.
pub proof fn lemma_add_integers_commutes(x: i64, y: i64)
    ensures
        add_spec(VariableView::Integer(x), VariableView::Integer(y)) == add_spec(
            VariableView::Integer(y),
            VariableView::Integer(x),
        ),
{
}

/// `&&`, `||` and `^` do not depend on the order of their operands, and
/// `!` of `!` gives the truth of the value.
pub proof fn lemma_logic_laws(a: VariableView, b: VariableView)
    ensures
        bool_value(truthy(a) && truthy(b)) == bool_value(truthy(b) && truthy(a)),
        bool_value(truthy(a) || truthy(b)) == bool_value(truthy(b) || truthy(a)),
        bool_value(truthy(a) != truthy(b)) == bool_value(truthy(b) != truthy(a)),
        truthy(bool_value(!truthy(bool_value(!truthy(a))))) == truthy(a),
{
}

/// The number a value reads as reads as itself.
pub proof fn lemma_number_of_idempotent(v: VariableView)
    ensures
        number_of(v) matches Some(n) ==> number_of(n) == Some(n),
{
}

/// Decoding the code of a binary operator gives the operator back.
pub proof fn lemma_binary_operator_code_roundtrip(op: BinaryOperator)
    ensures
        binary_operator_of_code(binary_operator_code(op)) == op,
{
}

/// One item of a compiled expression: a value (a constant, or a variable
/// the caller read), an operator, a conditional jump of `&&` and `||`, or
/// the building of an array of the last `n` values.
pub enum ExprItem {
    Value(Variable),
    Unary(UnaryOperator),
    Binary(BinaryOperator),
    JumpIf { when: bool, skip: usize },
    Build(usize),
}

/// What the evaluator does after an item: the next item, skip `n` items,
/// or hand the item to the floating-point side (the stack is left as it
/// was).
#[derive(Debug, Clone, Copy, PartialEq, Eq, Structural)]
pub enum ExprStep {
    Next,
    Skip(usize),
    NeedsFloat,
}

/// The top of the stack and what is left under it; empty text for an
/// empty stack.
pub open spec fn pop_view(s: Seq<VariableView>) -> (Seq<VariableView>, VariableView) {
    if s.len() == 0 {
        (s, VariableView::String(seq![]))
    } else {
        (s.drop_last(), s.last())
    }
}

/// What a unary operator gives, when no floating point is needed.
pub open spec fn unary_result(op: UnaryOperator, a: VariableView) -> Option<VariableView> {
    match op {
        UnaryOperator::Not => Some(bool_value(!truthy(a))),
        UnaryOperator::Minus => minus_spec(a),
    }
}

/// What a binary operator gives, when no floating point is needed (a
/// quotient always needs it).
pub open spec fn binary_result(op: BinaryOperator, a: VariableView, b: VariableView) -> Option<VariableView> {
    match op {
        BinaryOperator::Add => Some(add_spec(a, b)),
        BinaryOperator::Subtract => subtract_spec(a, b),
        BinaryOperator::Multiply => multiply_spec(a, b),
        BinaryOperator::Divide => None,
        BinaryOperator::And => Some(bool_value(truthy(a) && truthy(b))),
        BinaryOperator::Or => Some(bool_value(truthy(a) || truthy(b))),
        BinaryOperator::Xor => Some(bool_value(truthy(a) != truthy(b))),
        _ => compare_spec(op, a, b),
    }
}

/// One item of an expression on the value stack `s`: what the evaluator
/// does next and the new stack. A value is pushed; an operator replaces
/// its operands by its result, or leaves the stack as it was when the
/// result needs floating point; a conditional jump skips when the top
/// value's truth is `when`; a build replaces the last `n` values by an
/// array of them.
pub open spec fn expr_step_spec(s: Seq<VariableView>, item: ExprItem) -> (ExprStep, Seq<VariableView>) {
    match item {
        ExprItem::Value(v) => (ExprStep::Next, s.push(v@)),
        ExprItem::Unary(op) => match unary_result(op, pop_view(s).1) {
            Some(x) => (ExprStep::Next, pop_view(s).0.push(x)),
            None => (ExprStep::NeedsFloat, s),
        },
        ExprItem::Binary(op) => {
            let (s1, b) = pop_view(s);
            let (s2, a) = pop_view(s1);
            match binary_result(op, a, b) {
                Some(x) => (ExprStep::Next, s2.push(x)),
                None => (ExprStep::NeedsFloat, s),
            }
        },
        ExprItem::JumpIf { when, skip } => (
            if (s.len() > 0 && truthy(s.last())) == when {
                ExprStep::Skip(skip)
            } else {
                ExprStep::Next
            },
            s,
        ),
        ExprItem::Build(n) => {
            let k = if n <= s.len() {
                s.len() - n
            } else {
                0
            };
            (ExprStep::Next, s.take(k).push(VariableView::Array(s.skip(k))))
        },
    }
}

/// An expression evaluated on the stack `s`: the stack it leaves,
/// nothing when an item needs floating point, an error when a jump goes
/// past the end.
pub open spec fn eval_items(s: Seq<VariableView>, items: Seq<ExprItem>) -> Result<Option<Seq<VariableView>>, ()>
    decreases items.len(),
{
    if items.len() == 0 {
        Ok(Some(s))
    } else {
        let (r, t) = expr_step_spec(s, items[0]);
        match r {
            ExprStep::Next => eval_items(t, items.skip(1)),
            ExprStep::Skip(k) => if k <= items.len() - 1 {
                eval_items(t, items.skip(1 + k))
            } else {
                Err(())
            },
            ExprStep::NeedsFloat => Ok(None),
        }
    }
}

/// The value of an expression: the top of the stack it leaves (empty
/// text when none); nothing when it needs floating point.
pub open spec fn expression_value(items: Seq<ExprItem>) -> Result<Option<VariableView>, ()> {
    match eval_items(seq![], items) {
        Ok(Some(t)) => Ok(Some(pop_view(t).1)),
        Ok(None) => Ok(None),
        Err(()) => Err(()),
    }
}

/// Pops the top of the stack, empty text when it is empty.
fn pop_or_empty(stack: &mut Vec<Variable>) -> (r: (Variable, bool))
    ensures
        variables_view(final(stack)@) == pop_view(variables_view(old(stack)@)).0,
        r.0@ == pop_view(variables_view(old(stack)@)).1,
        r.1 == (old(stack)@.len() > 0),
{
    let ghost before = variables_view(stack@);
    match stack.pop() {
        Some(v) => {
            assert(variables_view(stack@) =~= before.drop_last());
            (v, true)
        },
        None => (Variable::String(String::new()), false),
    }
}

/// Puts back what `pop_or_empty` took.
fn push_back(stack: &mut Vec<Variable>, v: Variable, popped: bool)
    ensures
        variables_view(final(stack)@) == if popped {
            variables_view(old(stack)@).push(v@)
        } else {
            variables_view(old(stack)@)
        },
{
    if popped {
        let ghost before = variables_view(stack@);
        let ghost vv = v@;
        stack.push(v);
        assert(variables_view(stack@) =~= before.push(vv));
    }
}

/// Whether `binary_result` gives a value.
fn binary_defined(op: BinaryOperator, a: &Variable, b: &Variable) -> (r: bool)
    ensures
        r == (binary_result(op, a@, b@) is Some),
{
    match op {
        BinaryOperator::Add | BinaryOperator::And | BinaryOperator::Or | BinaryOperator::Xor => true,
        BinaryOperator::Divide => false,
        BinaryOperator::Multiply => a.parse_number().is_some() && b.parse_number().is_some(),
        BinaryOperator::Subtract => {
            let arrays = match (a, b) {
                (Variable::Array(_), _) | (_, Variable::Array(_)) => true,
                _ => false,
            };
            !arrays && a.parse_number().is_some() && b.parse_number().is_some()
        },
        _ => match (a, b) {
            (Variable::Integer(_), Variable::Integer(_)) | (Variable::String(_), Variable::String(_)) => true,
            _ => false,
        },
    }
}

/// One item of an expression on the value stack: a value is pushed; an
/// operator replaces its operands by its result, or leaves the stack as it
/// was when the result needs floating point; a conditional jump skips when
/// the top value's truth is `when`; a build replaces the last `n` values
/// by an array of them.
pub fn expr_step(stack: &mut Vec<Variable>, item: ExprItem) -> (r: ExprStep)
    ensures
        (r, variables_view(final(stack)@)) == expr_step_spec(variables_view(old(stack)@), item),
{
    let ghost s = variables_view(stack@);
    match item {
        ExprItem::Value(v) => {
            let ghost vv = v@;
            stack.push(v);
            assert(variables_view(stack@) =~= s.push(vv));
            ExprStep::Next
        },
        ExprItem::Unary(op) => {
            let (a, popped) = pop_or_empty(stack);
            match op {
                UnaryOperator::Not => {
                    let ghost before = variables_view(stack@);
                    let x = a.op_not();
                    let ghost xv = x@;
                    stack.push(x);
                    assert(variables_view(stack@) =~= before.push(xv));
                    ExprStep::Next
                },
                UnaryOperator::Minus => {
                    if a.parse_number().is_none() {
                        push_back(stack, a, popped);
                        assert(variables_view(stack@) =~= s);
                        return ExprStep::NeedsFloat;
                    }
                    let ghost before = variables_view(stack@);
                    let x = a.op_minus().unwrap();
                    let ghost xv = x@;
                    stack.push(x);
                    assert(variables_view(stack@) =~= before.push(xv));
                    ExprStep::Next
                },
            }
        },
        ExprItem::Binary(op) => {
            let (b, popped_b) = pop_or_empty(stack);
            let (a, popped_a) = pop_or_empty(stack);
            if !binary_defined(op, &a, &b) {
                push_back(stack, a, popped_a);
                push_back(stack, b, popped_b);
                assert(variables_view(stack@) =~= s);
                return ExprStep::NeedsFloat;
            }
            let x = match op {
                BinaryOperator::Add => a.op_add(b),
                BinaryOperator::Subtract => a.op_subtract(b).unwrap(),
                BinaryOperator::Multiply => a.op_multiply(b).unwrap(),
                BinaryOperator::And => a.op_and(b),
                BinaryOperator::Or => a.op_or(b),
                BinaryOperator::Xor => a.op_xor(b),
                BinaryOperator::Eq => a.op_eq(b).unwrap(),
                BinaryOperator::Ne => a.op_ne(b).unwrap(),
                BinaryOperator::Lt => a.op_lt(b).unwrap(),
                BinaryOperator::Le => a.op_le(b).unwrap(),
                BinaryOperator::Gt => a.op_gt(b).unwrap(),
                _ => a.op_ge(b).unwrap(),
            };
            let ghost before = variables_view(stack@);
            let ghost xv = x@;
            stack.push(x);
            assert(variables_view(stack@) =~= before.push(xv));
            ExprStep::Next
        },
        ExprItem::JumpIf { when, skip } => {
            let top = if stack.len() > 0 {
                stack[stack.len() - 1].to_bool()
            } else {
                false
            };
            if top == when {
                ExprStep::Skip(skip)
            } else {
                ExprStep::Next
            }
        },
        ExprItem::Build(n) => {
            let k = if n <= stack.len() { stack.len() - n } else { 0 };
            let items = stack.split_off(k);
            proof {
                lemma_array_view(items);
            }
            let ghost before = variables_view(stack@);
            let ghost iv = variables_view(items@);
            assert(before =~= s.take(k as int));
            assert(iv =~= s.skip(k as int));
            stack.push(Variable::Array(items));
            assert(variables_view(stack@) =~= before.push(VariableView::Array(iv)));
            ExprStep::Next
        },
    }
}

/// Evaluates a compiled expression (see `expression_value`); a jump past
/// its end is invalid bytecode.
pub fn eval_expression(items: Vec<ExprItem>) -> (r: Result<Option<Variable>, crate::runtime::RuntimeError>)
    ensures
        match expression_value(items@) {
            Ok(Some(v)) => r matches Ok(Some(x)) && x@ == v,
            Ok(None) => r matches Ok(None),
            Err(()) => r == Err::<Option<Variable>, crate::runtime::RuntimeError>(
                crate::runtime::RuntimeError::InvalidBytecode,
            ),
        },
{
    let ghost all = items@;
    let mut src = items;
    let mut rest: Vec<ExprItem> = Vec::new();
    while src.len() > 0
        invariant
            src@ + rest@.reverse() == all,
        decreases src@.len(),
    {
        let ghost before_items = src@;
        let ghost before_rest = rest@;
        let it = src.pop().unwrap();
        rest.push(it);
        assert(rest@.reverse() =~= seq![before_items.last()] + before_rest.reverse());
        assert(src@ + rest@.reverse() =~= before_items + before_rest.reverse());
    }
    assert(src@ + rest@.reverse() =~= rest@.reverse());
    let mut stack: Vec<Variable> = Vec::new();
    assert(variables_view(stack@) =~= Seq::<VariableView>::empty());
    let ghost target = eval_items(seq![], all);
    assert(rest@.reverse() =~= all);
    while rest.len() > 0
        invariant
            all == items@,
            target == eval_items(seq![], all),
            eval_items(variables_view(stack@), rest@.reverse()) == target,
        decreases rest@.len(),
    {
        let ghost todo = rest@.reverse();
        let ghost sb = variables_view(stack@);
        let ghost before = rest@;
        let item = rest.pop().unwrap();
        assert(rest@ == before.drop_last());
        assert(todo[0] == before.last());
        assert(todo[0] == item);
        assert forall|i: int| 0 <= i < rest@.len() implies #[trigger] rest@.reverse()[i] == before.reverse()[i + 1] by {
            assert(rest@.reverse()[i] == rest@[rest@.len() - 1 - i]);
            assert(before.reverse()[i + 1] == before[before.len() - 1 - (i + 1)]);
        }
        assert(rest@.reverse() =~= todo.skip(1));
        let ghost stepped = expr_step_spec(sb, item);
        assert(eval_items(sb, todo) == match stepped.0 {
            ExprStep::Next => eval_items(stepped.1, todo.skip(1)),
            ExprStep::Skip(k) => if k <= todo.len() - 1 {
                eval_items(stepped.1, todo.skip(1 + k))
            } else {
                Err(())
            },
            ExprStep::NeedsFloat => Ok(None),
        });
        match expr_step(&mut stack, item) {
            ExprStep::Next => {},
            ExprStep::Skip(k) => {
                if k > rest.len() {
                    return Err(crate::runtime::RuntimeError::InvalidBytecode);
                }
                let mut j: usize = 0;
                while j < k
                    invariant
                        j <= k <= rest@.len() + j,
                        todo.len() == rest@.len() + 1 + j,
                        rest@.reverse() == todo.skip(1 + j),
                    decreases k - j,
                {
                    let ghost before = rest@;
                    rest.pop();
                    assert(rest@ == before.drop_last());
                    assert forall|i: int| 0 <= i < rest@.len() implies #[trigger] rest@.reverse()[i] == before.reverse()[i + 1] by {
                        assert(rest@.reverse()[i] == rest@[rest@.len() - 1 - i]);
                        assert(before.reverse()[i + 1] == before[before.len() - 1 - (i + 1)]);
                    }
                    assert(rest@.reverse() =~= todo.skip(1 + j + 1));
                    j += 1;
                }
            },
            ExprStep::NeedsFloat => {
                return Ok(None);
            },
        }
    }
    assert(rest@.reverse() =~= Seq::<ExprItem>::empty());
    match stack.pop() {
        Some(v) => Ok(Some(v)),
        None => Ok(Some(Variable::String(String::new()))),
    }
}

} // verus!
