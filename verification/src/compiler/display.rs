//! How numbers, variables and values of a compiled script are written out.

use crate::compiler::{HeaderVariable, HeaderVariableView, MessagePart, Number, NumberView, Value, ValueView, VariableType, VariableTypeView, value_view};
use crate::runtime::variable::{int_text, nat_text, int_to_string};
use crate::runtime::actions::set::usize_to_string;
use crate::runtime::expression::concat;
use crate::Envelope;
use vstd::prelude::*;

verus! {

/// A number as text: an integer in decimal, a decimal number as read.
pub open spec fn number_text(n: NumberView) -> Seq<char> {
    match n {
        NumberView::Integer(i) => int_text(i as int),
        NumberView::Decimal(t) => t,
    }
}

impl Number {
    /// The number as text (see `number_text`).
    pub fn to_string(&self) -> (r: String)
        ensures
            r@ == number_text(self@),
    {
        match self {
            Number::Integer(i) => int_to_string(*i),
            Number::Decimal(t) => t.clone(),
        }
    }
}

/// How an envelope variable is written out (with doubled braces, and
/// `envit` for the envelope id).
pub open spec fn envelope_var_text(e: Envelope) -> Seq<char> {
    match e {
        Envelope::From => "${{envelope.from}}"@,
        Envelope::To => "${{envelope.to}}"@,
        Envelope::ByTimeAbsolute => "${{envelope.by_time_absolute}}"@,
        Envelope::ByTimeRelative => "${{envelope.by_time_relative}}"@,
        Envelope::ByMode => "${{envelope.by_mode}}"@,
        Envelope::ByTrace => "${{envelope.by_trace}}"@,
        Envelope::Notify => "${{envelope.notify}}"@,
        Envelope::Orcpt => "${{envelope.orcpt}}"@,
        Envelope::Ret => "${{envelope.ret}}"@,
        Envelope::Envid => "${{envelope.envit}}"@,
    }
}

fn envelope_var_string(e: Envelope) -> (r: &'static str)
    ensures
        r@ == envelope_var_text(e),
{
    match e {
        Envelope::From => "${{envelope.from}}",
        Envelope::To => "${{envelope.to}}",
        Envelope::ByTimeAbsolute => "${{envelope.by_time_absolute}}",
        Envelope::ByTimeRelative => "${{envelope.by_time_relative}}",
        Envelope::ByMode => "${{envelope.by_mode}}",
        Envelope::ByTrace => "${{envelope.by_trace}}",
        Envelope::Notify => "${{envelope.notify}}",
        Envelope::Orcpt => "${{envelope.orcpt}}",
        Envelope::Ret => "${{envelope.ret}}",
        Envelope::Envid => "${{envelope.envit}}",
    }
}

/// The name under which a body part variable is written.
pub open spec fn part_var_name(p: MessagePart) -> Seq<char> {
    match p {
        MessagePart::TextBody(true) => "body.to_text"@,
        MessagePart::TextBody(false) => "body.text"@,
        MessagePart::HtmlBody(true) => "body.to_html"@,
        MessagePart::HtmlBody(false) => "body.html"@,
        MessagePart::Contents => "part.text"@,
        MessagePart::Raw => "part.raw"@,
    }
}

fn part_var_string(p: MessagePart) -> (r: &'static str)
    ensures
        r@ == part_var_name(p),
{
    match p {
        MessagePart::TextBody(true) => "body.to_text",
        MessagePart::TextBody(false) => "body.text",
        MessagePart::HtmlBody(true) => "body.to_html",
        MessagePart::HtmlBody(false) => "body.html",
        MessagePart::Contents => "part.text",
        MessagePart::Raw => "part.raw",
    }
}

/// A header index as written: `[n]`, or `[*]` for every one (index 0).
pub open spec fn index_text(i: i32) -> Seq<char> {
    if i != 0 {
        "["@ + int_text(i as int) + "]"@
    } else {
        "[*]"@
    }
}

fn index_string(i: i32) -> (r: String)
    ensures
        r@ == index_text(i),
{
    if i != 0 {
        let a = concat("[", int_to_string(i as i64).as_str());
        concat(a.as_str(), "]")
    } else {
        "[*]".to_string()
    }
}

/// The first header name of a header variable, or nothing.
pub open spec fn first_name(h: HeaderVariableView) -> Seq<char> {
    if h.name.len() > 0 {
        h.name[0].1
    } else {
        seq![]
    }
}

/// A variable as a script writes it: `${n}` for a local or match variable,
/// `${global.name}`, `${env.name}`, the envelope part, `${header.name[i][j]}`
/// with its first header name and its two indexes, or `${body.text}` and
/// the like for a body part.
pub open spec fn variable_text(v: VariableTypeView) -> Seq<char> {
    match v {
        VariableTypeView::Local(n) => "${"@ + nat_text(n as nat) + "}"@,
        VariableTypeView::Match(n) => "${"@ + nat_text(n as nat) + "}"@,
        VariableTypeView::Global(s) => "${global."@ + s + "}"@,
        VariableTypeView::Environment(s) => "${env."@ + s + "}"@,
        VariableTypeView::Envelope(e) => envelope_var_text(e),
        VariableTypeView::Header(h) => "${header."@ + first_name(h) + index_text(h.index_hdr) + index_text(
            h.index_part,
        ) + "}"@,
        VariableTypeView::Part(p) => "${"@ + part_var_name(p) + "}"@,
    }
}

fn wrap(prefix: &str, inner: &str) -> (r: String)
    ensures
        r@ == prefix@ + inner@ + "}"@,
{
    let a = concat(prefix, inner);
    concat(a.as_str(), "}")
}

impl VariableType {
    /// The variable as a script writes it (see `variable_text`).
    pub fn to_string(&self) -> (r: String)
        ensures
            r@ == variable_text(self@),
    {
        match self {
            VariableType::Local(n) => wrap("${", usize_to_string(*n).as_str()),
            VariableType::Match(n) => wrap("${", usize_to_string(*n).as_str()),
            VariableType::Global(s) => wrap("${global.", s.as_str()),
            VariableType::Environment(s) => wrap("${env.", s.as_str()),
            VariableType::Envelope(e) => envelope_var_string(*e).to_string(),
            VariableType::Header(h) => {
                let name = if h.name.len() > 0 {
                    h.name[0].name.clone()
                } else {
                    String::new()
                };
                assert(name@ == first_name(h@));
                let a = concat("${header.", name.as_str());
                let b = concat(a.as_str(), index_string(h.index_hdr).as_str());
                let c = concat(b.as_str(), index_string(h.index_part).as_str());
                concat(c.as_str(), "}")
            },
            VariableType::Part(p) => wrap("${", part_var_string(*p)),
        }
    }
}

/// A value as text: text as it is, a number or a variable as written, and
/// the items of a list one after the other.
pub open spec fn value_text(v: ValueView) -> Seq<char>
    decreases v,
{
    match v {
        ValueView::Text(t) => t,
        ValueView::Number(n) => number_text(n),
        ValueView::Variable(x) => variable_text(x),
        ValueView::List(l) => items_text(l),
    }
}

/// The texts of the items of a list, one after the other.
pub open spec fn items_text(l: Seq<ValueView>) -> Seq<char>
    decreases l,
{
    if l.len() == 0 {
        seq![]
    } else {
        items_text(l.subrange(0, l.len() - 1)) + value_text(l[l.len() - 1])
    }
}

impl Value {
    /// The value as text (see `value_text`).
    pub fn to_string(&self) -> (r: String)
        ensures
            r@ == value_text(self@),
        decreases self,
    {
        match self {
            Value::Text(t) => t.clone(),
            Value::Number(n) => n.to_string(),
            Value::Variable(x) => x.to_string(),
            Value::List(l) => {
                proof {
                    crate::compiler::lemma_list_view(*l);
                }
                let ghost lv = l@.map_values(|v: Value| v@);
                let mut r = String::new();
                let mut i: usize = 0;
                assert(lv.subrange(0, 0) =~= Seq::<ValueView>::empty());
                while i < l.len()
                    invariant
                        i <= l@.len(),
                        *self == Value::List(*l),
                        lv == l@.map_values(|v: Value| v@),
                        r@ == items_text(lv.subrange(0, i as int)),
                    decreases l@.len() - i,
                {
                    let ghost next = lv.subrange(0, i + 1);
                    assert(next.subrange(0, next.len() - 1) =~= lv.subrange(0, i as int));
                    assert(next[next.len() - 1] == l@[i as int]@);
                    proof {
                        assert(*l == (*self)->List_0);
                        assert(decreases_to!(*self => (*self)->List_0));
                        assert(decreases_to!((*self)->List_0 => (*self)->List_0@));
                        assert(decreases_to!(l@ => l@[i as int]));
                    }
                    let t = l[i].to_string();
                    r = concat(r.as_str(), t.as_str());
                    i += 1;
                }
                assert(lv.subrange(0, l@.len() as int) =~= lv);
                r
            },
        }
    }
}

} // verus!

verus! {

/// Reading `${envelope.<name>}` and writing it out agree: the part a name
/// reads is written back under that name (the envelope id aside, which is
/// written `envit`).
pub proof fn lemma_envelope_name_written_back(v: Seq<char>, e: Envelope)
    requires
        crate::compiler::lexer::string::envelope_named(v) == Some(e),
        e != Envelope::Envid,
    ensures
        envelope_var_text(e) == "${{envelope."@ + v + "}}"@,
{
    reveal_strlit("${{envelope.");
    reveal_strlit("}}");
    reveal_strlit("from");
    reveal_strlit("to");
    reveal_strlit("by_time_absolute");
    reveal_strlit("by_time_relative");
    reveal_strlit("by_mode");
    reveal_strlit("by_trace");
    reveal_strlit("notify");
    reveal_strlit("orcpt");
    reveal_strlit("ret");
    reveal_strlit("${{envelope.from}}");
    reveal_strlit("${{envelope.to}}");
    reveal_strlit("${{envelope.by_time_absolute}}");
    reveal_strlit("${{envelope.by_time_relative}}");
    reveal_strlit("${{envelope.by_mode}}");
    reveal_strlit("${{envelope.by_trace}}");
    reveal_strlit("${{envelope.notify}}");
    reveal_strlit("${{envelope.orcpt}}");
    reveal_strlit("${{envelope.ret}}");
    let p = "${{envelope."@;
    let q = "}}"@;
    if v == "from"@ {
        assert(p + v + q =~= "${{envelope.from}}"@);
    } else if v == "to"@ {
        assert(p + v + q =~= "${{envelope.to}}"@);
    } else if v == "by_time_absolute"@ {
        assert(p + v + q =~= "${{envelope.by_time_absolute}}"@);
    } else if v == "by_time_relative"@ {
        assert(p + v + q =~= "${{envelope.by_time_relative}}"@);
    } else if v == "by_mode"@ {
        assert(p + v + q =~= "${{envelope.by_mode}}"@);
    } else if v == "by_trace"@ {
        assert(p + v + q =~= "${{envelope.by_trace}}"@);
    } else if v == "notify"@ {
        assert(p + v + q =~= "${{envelope.notify}}"@);
    } else if v == "orcpt"@ {
        assert(p + v + q =~= "${{envelope.orcpt}}"@);
    } else if v == "ret"@ {
        assert(p + v + q =~= "${{envelope.ret}}"@);
    }
}

/// Distinct names read distinct envelope parts.
pub proof fn lemma_envelope_names_distinct(v: Seq<char>, w: Seq<char>)
    requires
        crate::compiler::lexer::string::envelope_named(v) is Some,
        crate::compiler::lexer::string::envelope_named(v) == crate::compiler::lexer::string::envelope_named(w),
    ensures
        v == w,
{
}

/// The name `envid` reads the envelope id.
proof fn lemma_envid_named()
    ensures
        crate::compiler::lexer::string::envelope_named("envid"@) == Some(Envelope::Envid),
{
    reveal_strlit("from");
    reveal_strlit("to");
    reveal_strlit("envid");
    reveal_strlit("by_time_absolute");
    reveal_strlit("by_time_relative");
    reveal_strlit("by_mode");
    reveal_strlit("by_trace");
    reveal_strlit("notify");
    reveal_strlit("orcpt");
    reveal_strlit("ret");
    assert("envid"@.len() == 5);
    assert("envid"@ != "orcpt"@) by {
        assert("envid"@[0] != "orcpt"@[0]);
    }
}

/// The name an envelope part is written out under.
proof fn lemma_written_name_reads(e: Envelope, lit: Seq<char>, name: Seq<char>)
    requires
        e != Envelope::Envid,
        envelope_var_text(e) == lit,
        lit.len() == name.len() + 14,
        lit.subrange(12, lit.len() - 2) == name,
        crate::compiler::lexer::string::envelope_named(name) == Some(e),
    ensures
        crate::compiler::lexer::string::envelope_named(
            envelope_var_text(e).subrange(12, envelope_var_text(e).len() - 2),
        ) == Some(e),
{
}

/// Every envelope part has a name: the one it is written out under (and
/// `envid` for the envelope id).
pub proof fn lemma_envelope_parts_named(e: Envelope)
    ensures
        e != Envelope::Envid ==> crate::compiler::lexer::string::envelope_named(
            envelope_var_text(e).subrange(12, envelope_var_text(e).len() - 2),
        ) == Some(e),
        crate::compiler::lexer::string::envelope_named("envid"@) == Some(Envelope::Envid),
{
    lemma_envid_named();
    reveal_strlit("from");
    reveal_strlit("to");
    reveal_strlit("by_time_absolute");
    reveal_strlit("by_time_relative");
    reveal_strlit("by_mode");
    reveal_strlit("by_trace");
    reveal_strlit("notify");
    reveal_strlit("orcpt");
    reveal_strlit("ret");
    match e {
        Envelope::From => {
            reveal_strlit("${{envelope.from}}");
            let lit = "${{envelope.from}}"@;
            assert(lit.subrange(12, lit.len() - 2) =~= "from"@);
            lemma_written_name_reads(e, lit, "from"@);
        },
        Envelope::To => {
            reveal_strlit("${{envelope.to}}");
            let lit = "${{envelope.to}}"@;
            assert(lit.subrange(12, lit.len() - 2) =~= "to"@);
            lemma_written_name_reads(e, lit, "to"@);
        },
        Envelope::ByTimeAbsolute => {
            reveal_strlit("${{envelope.by_time_absolute}}");
            let lit = "${{envelope.by_time_absolute}}"@;
            assert(lit.subrange(12, lit.len() - 2) =~= "by_time_absolute"@);
            lemma_written_name_reads(e, lit, "by_time_absolute"@);
        },
        Envelope::ByTimeRelative => {
            reveal_strlit("${{envelope.by_time_relative}}");
            let lit = "${{envelope.by_time_relative}}"@;
            assert(lit.subrange(12, lit.len() - 2) =~= "by_time_relative"@);
            assert("by_time_relative"@ != "by_time_absolute"@) by {
                assert("by_time_relative"@[8] != "by_time_absolute"@[8]);
            }
            lemma_written_name_reads(e, lit, "by_time_relative"@);
        },
        Envelope::ByMode => {
            reveal_strlit("${{envelope.by_mode}}");
            let lit = "${{envelope.by_mode}}"@;
            assert(lit.subrange(12, lit.len() - 2) =~= "by_mode"@);
            lemma_written_name_reads(e, lit, "by_mode"@);
        },
        Envelope::ByTrace => {
            reveal_strlit("${{envelope.by_trace}}");
            let lit = "${{envelope.by_trace}}"@;
            assert(lit.subrange(12, lit.len() - 2) =~= "by_trace"@);
            lemma_written_name_reads(e, lit, "by_trace"@);
        },
        Envelope::Notify => {
            reveal_strlit("${{envelope.notify}}");
            let lit = "${{envelope.notify}}"@;
            assert(lit.subrange(12, lit.len() - 2) =~= "notify"@);
            lemma_written_name_reads(e, lit, "notify"@);
        },
        Envelope::Orcpt => {
            reveal_strlit("${{envelope.orcpt}}");
            let lit = "${{envelope.orcpt}}"@;
            assert(lit.subrange(12, lit.len() - 2) =~= "orcpt"@);
            lemma_written_name_reads(e, lit, "orcpt"@);
        },
        Envelope::Ret => {
            reveal_strlit("${{envelope.ret}}");
            let lit = "${{envelope.ret}}"@;
            assert(lit.subrange(12, lit.len() - 2) =~= "ret"@);
            lemma_written_name_reads(e, lit, "ret"@);
        },
        Envelope::Envid => {},
    }
}

/// Reading `${body.<name>}` or `${part.<name>}` and writing it out agree:
/// the part a name reads is written back under that name.
pub proof fn lemma_part_name_written_back(v: Seq<char>)
    ensures
        crate::compiler::lexer::string::body_part_named(v) matches Some(p) ==> part_var_name(p) == "body."@ + v,
        crate::compiler::lexer::string::part_named(v) matches Some(p) ==> part_var_name(p) == "part."@ + v,
{
    reveal_strlit("body.");
    reveal_strlit("part.");
    reveal_strlit("text");
    reveal_strlit("html");
    reveal_strlit("to_text");
    reveal_strlit("to_html");
    reveal_strlit("raw");
    reveal_strlit("body.text");
    reveal_strlit("body.html");
    reveal_strlit("body.to_text");
    reveal_strlit("body.to_html");
    reveal_strlit("part.text");
    reveal_strlit("part.raw");
    if v == "text"@ {
        assert("body."@ + v =~= "body.text"@);
        assert("part."@ + v =~= "part.text"@);
    } else if v == "html"@ {
        assert("body."@ + v =~= "body.html"@);
    } else if v == "to_text"@ {
        assert("body."@ + v =~= "body.to_text"@);
    } else if v == "to_html"@ {
        assert("body."@ + v =~= "body.to_html"@);
    } else if v == "raw"@ {
        assert("part."@ + v =~= "part.raw"@);
    }
}

/// A variable read from a name with a namespace is written back under that
/// name, in lower case: `${global.<v>}` (for `global.` and its short form
/// `t.`), `${env.<v>}`, `${body.<v>}` and `${part.<v>}`.
pub proof fn lemma_variable_written_back(
    cs: crate::compiler::lexer::string::CompilerStateView,
    name: Seq<char>,
    ns: Seq<char>,
    v: Seq<char>,
    t: crate::compiler::VariableTypeView,
)
    requires
        crate::compiler::lexer::string::split_dot(crate::text::lowercase(name)) == Some((ns, v)),
        crate::compiler::lexer::string::parse_variable_spec(cs, name, true) == Ok::<
            Option<crate::compiler::VariableTypeView>,
            crate::compiler::ErrorKind,
        >(Some(t)),
    ensures
        ns == "global"@ || ns == "t"@ ==> variable_text(t) == "${global."@ + v + "}"@,
        ns == "env"@ ==> variable_text(t) == "${env."@ + v + "}"@,
        ns == "body"@ || ns == "part"@ ==> variable_text(t) == "${"@ + ns + "."@ + v + "}"@,
{
    reveal_strlit("global");
    reveal_strlit("t");
    reveal_strlit("env");
    reveal_strlit("envelope");
    reveal_strlit("header");
    reveal_strlit("body");
    reveal_strlit("part");
    reveal_strlit("body.");
    reveal_strlit("part.");
    reveal_strlit("${");
    reveal_strlit(".");
    assert("part"@ != "body"@) by {
        assert("part"@[0] != "body"@[0]);
    }
    lemma_part_name_written_back(v);
    if ns == "body"@ {
        assert("${"@ + ns + "."@ + v + "}"@ =~= "${"@ + ("body."@ + v) + "}"@);
    } else if ns == "part"@ {
        assert("${"@ + ns + "."@ + v + "}"@ =~= "${"@ + ("part."@ + v) + "}"@);
    }
}

} // verus!
