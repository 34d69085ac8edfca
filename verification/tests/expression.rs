use sieve::compiler::grammar::{BinaryOperator, UnaryOperator};
use sieve::runtime::expression::ExprItem;
use sieve::runtime::variable::Variable;

/// Builds the postfix items of an infix expression over the variables `A`..`J`
/// (bound to `vals`) and the literals `true` and `false`; `&&` and `||` jump
/// over their right operand as compiled scripts do.
struct Builder<'a> {
    toks: Vec<String>,
    pos: usize,
    vals: &'a [i64],
}

fn tokens(text: &str) -> Vec<String> {
    let chars: Vec<char> = text.chars().collect();
    let mut out = Vec::new();
    let mut i = 0;
    while i < chars.len() {
        let c = chars[i];
        if c == ' ' {
            i += 1;
        } else if c.is_ascii_alphabetic() {
            let start = i;
            while i < chars.len() && chars[i].is_ascii_alphabetic() {
                i += 1;
            }
            out.push(chars[start..i].iter().collect());
        } else if i + 1 < chars.len()
            && ["==", "!=", "<=", ">=", "&&", "||"].contains(&format!("{}{}", c, chars[i + 1]).as_str())
        {
            out.push(format!("{}{}", c, chars[i + 1]));
            i += 2;
        } else {
            out.push(c.to_string());
            i += 1;
        }
    }
    out
}

impl<'a> Builder<'a> {
    fn peek(&self) -> Option<&str> {
        self.toks.get(self.pos).map(|t| t.as_str())
    }

    fn next(&mut self) -> String {
        self.pos += 1;
        self.toks[self.pos - 1].clone()
    }

    fn or_expr(&mut self) -> Vec<ExprItem> {
        let mut l = self.and_expr();
        while self.peek() == Some("||") {
            self.next();
            let r = self.and_expr();
            l = jump(l, r, true, BinaryOperator::Or);
        }
        l
    }

    fn and_expr(&mut self) -> Vec<ExprItem> {
        let mut l = self.cmp_expr();
        while self.peek() == Some("&&") {
            self.next();
            let r = self.cmp_expr();
            l = jump(l, r, false, BinaryOperator::And);
        }
        l
    }

    fn cmp_expr(&mut self) -> Vec<ExprItem> {
        let mut l = self.add_expr();
        loop {
            let op = match self.peek() {
                Some("==") => BinaryOperator::Eq,
                Some("!=") => BinaryOperator::Ne,
                Some("<") => BinaryOperator::Lt,
                Some("<=") => BinaryOperator::Le,
                Some(">") => BinaryOperator::Gt,
                Some(">=") => BinaryOperator::Ge,
                _ => return l,
            };
            self.next();
            let r = self.add_expr();
            l = binary(l, r, op);
        }
    }

    fn add_expr(&mut self) -> Vec<ExprItem> {
        let mut l = self.mul_expr();
        loop {
            let op = match self.peek() {
                Some("+") => BinaryOperator::Add,
                Some("-") => BinaryOperator::Subtract,
                _ => return l,
            };
            self.next();
            let r = self.mul_expr();
            l = binary(l, r, op);
        }
    }

    fn mul_expr(&mut self) -> Vec<ExprItem> {
        let mut l = self.unary_expr();
        loop {
            let op = match self.peek() {
                Some("*") => BinaryOperator::Multiply,
                Some("/") => BinaryOperator::Divide,
                _ => return l,
            };
            self.next();
            let r = self.unary_expr();
            l = binary(l, r, op);
        }
    }

    fn unary_expr(&mut self) -> Vec<ExprItem> {
        let op = match self.peek() {
            Some("-") => UnaryOperator::Minus,
            Some("!") => UnaryOperator::Not,
            _ => return self.primary(),
        };
        self.next();
        let mut items = self.unary_expr();
        items.push(ExprItem::Unary(op));
        items
    }

    fn primary(&mut self) -> Vec<ExprItem> {
        let t = self.next();
        match t.as_str() {
            "(" => {
                let e = self.or_expr();
                assert_eq!(self.next(), ")");
                e
            }
            "true" => vec![lit(1)],
            "false" => vec![lit(0)],
            name => {
                let idx = (name.as_bytes()[0] - b'A') as usize;
                vec![lit(self.vals[idx])]
            }
        }
    }
}

fn lit(n: i64) -> ExprItem {
    ExprItem::Value(Variable::Integer(n))
}

fn binary(mut l: Vec<ExprItem>, r: Vec<ExprItem>, op: BinaryOperator) -> Vec<ExprItem> {
    l.extend(r);
    l.push(ExprItem::Binary(op));
    l
}

fn jump(mut l: Vec<ExprItem>, r: Vec<ExprItem>, when: bool, op: BinaryOperator) -> Vec<ExprItem> {
    l.push(ExprItem::JumpIf { when, skip: r.len() + 1 });
    l.extend(r);
    l.push(ExprItem::Binary(op));
    l
}

fn build(text: &str, vals: &[i64]) -> Vec<ExprItem> {
    let mut b = Builder { toks: tokens(text), pos: 0, vals };
    let items = b.or_expr();
    assert_eq!(b.pos, b.toks.len(), "{}", text);
    items
}

fn eval(text: &str, vals: &[i64]) -> Option<i64> {
    match sieve::runtime::expression::eval_expression(build(text, vals)) {
        Ok(Some(Variable::Integer(n))) => Some(n),
        Ok(None) => None,
        other => panic!("{} => {:?}", text, other),
    }
}

#[test]
fn eval_expression() {
    let ascending: Vec<i64> = (1..=10).collect();
    let descending: Vec<i64> = (1..=10).rev().collect();
    // An expression that evaluates a division is handed to the
    // floating-point side (`None`); the others stay integers.
    for (text, up, down) in [
        ("A + B", Some(3), Some(19)),
        ("A * B", Some(2), Some(90)),
        ("A / B", None, None),
        ("A - B", Some(-1), Some(1)),
        ("-A", Some(-1), Some(-10)),
        ("A == B", Some(0), Some(0)),
        ("A != B", Some(1), Some(1)),
        ("A > B", Some(0), Some(1)),
        ("A < B", Some(1), Some(0)),
        ("A >= B", Some(0), Some(1)),
        ("A <= B", Some(1), Some(0)),
        ("A + B * C - D / E", None, None),
        ("A + B + C - D - E", Some(-3), Some(14)),
        ("(A + B) * (C - D) / E", None, None),
        ("A - B + C * D / E * F - G", None, None),
        ("A - B + C / D * E", None, None),
        ("(A + B) / (C - D) + E", None, None),
        ("A * (B + C) - D / E", None, None),
        ("A / (B - C + D) * E", None, None),
        ("(A + B) * C - D / (E + F)", None, None),
        ("A * B - C + D / E", None, None),
        ("A + B - C * D / E", None, None),
        ("(A * B + C) / D - E", None, None),
        ("A - B / C + D * E", None, None),
        ("A + B * (C - D) / E", None, None),
        ("A * B / C + (D - E)", None, None),
        ("(A - B) * C / D + E", None, None),
        ("A * (B / C) - D + E", None, None),
        ("(A + B) / (C + D) * E", None, None),
        ("A - B * C / D + E", None, None),
        ("A + (B - C) * D / E", None, None),
        ("(A + B) * (C / D) - E", None, None),
        ("A - B / (C * D) + E", None, None),
        ("(A + B) > (C - D) && E <= F", Some(1), Some(0)),
        ("A * B == C / D || E - F != G + H", None, None),
        ("A / B >= C * D && E + F < G - H", None, None),
        ("(A * B - C) != (D / E + F) && G > H", None, None),
        ("A - B < C && D + E >= F * G", Some(0), Some(0)),
        ("(A * B) > C && (D / E) < F || G == H", Some(0), None),
        ("(A + B) <= (C - D) || E > F && G != H", Some(0), Some(1)),
        ("A * B != C + D || E - F == G / H", Some(1), Some(1)),
        ("A >= B * C && D < E - F || G != H + I", Some(1), Some(1)),
        ("(A / B + C) > D && E * F <= G - H", None, None),
        ("A * (B - C) == D && E / F > G + H", Some(0), Some(0)),
        ("(A - B + C) != D || E * F >= G && H < I", Some(1), Some(1)),
        ("A < B / C && D + E * F == G - H", None, None),
        ("(A + B * C) <= D && E > F / G", Some(0), Some(0)),
        ("(A * B - C) > D || E <= F + G && H != I", Some(1), Some(1)),
        ("A != B / C && D == E * F - G", None, None),
        ("A <= B + C - D && E / F > G * H", None, None),
        ("(A - B * C) < D || E >= F + G && H != I", Some(1), Some(1)),
        ("(A + B) / C == D && E - F < G * H", None, None),
        ("A * B != C && D >= E + F / G || H < I", None, None),
        ("!(A * B != C) && !(D >= E + F / G) || !(H < I)", Some(0), Some(1)),
        ("-A - B - (- C - D) - E - (-F)", Some(5), Some(-5)),
    ] {
        assert_eq!(eval(text, &ascending), up, "{}", text);
        assert_eq!(eval(text, &descending), down, "{}", text);
    }

    for (text, expected) in [
        ("true && false", 0),
        ("!true || false", 0),
        ("true && !false", 1),
        ("!(true && false)", 1),
        ("true || true && false", 1),
        ("!false && (true || false)", 1),
        ("!(true || !false) && true", 0),
        ("!(!true && !false)", 1),
        ("true || false && !true", 1),
        ("!(true && true) || !false", 1),
        ("!(!true || !false) && (!false) && !(!true)", 0),
    ] {
        assert_eq!(eval(text, &[]), Some(expected), "{}", text);
    }
}
