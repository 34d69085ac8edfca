use sieve::compiler::grammar::{AddressPart, Capability, Comparator, ExprToken};
use sieve::compiler::lexer::string::CompilerState;
use sieve::compiler::{
    ContentTypePart, ErrorType, HeaderPart, HeaderVariable, MessagePart, Number, ReceivedHostname,
    ReceivedPart, Value, VariableType,
};
use sieve::header::HeaderName;
use sieve::Envelope;

fn state() -> CompilerState {
    CompilerState {
        vars_global: vec!["full".to_string()],
        vars_local: vec![("outer".to_string(), 0), ("x".to_string(), 1), ("x".to_string(), 2)],
        match_test: true,
        vars_match_max: usize::MAX,
        functions: vec![("trim".to_string(), 3, 1)],
    }
}

fn from() -> HeaderName {
    HeaderName { id: 1, name: "From".to_string() }
}

fn text(s: &str) -> Value {
    Value::Text(s.to_string())
}

fn global(s: &str) -> Value {
    Value::Variable(VariableType::Global(s.to_string()))
}

#[test]
fn tokenize_string() {
    let mut compiler = state();
    for (input, expected_result) in [
        ("$${hex:24 24}", text("$$$")),
        ("$${hex:40}", text("$@")),
        ("${hex: 40 }", text("@")),
        ("${HEX: 40}", text("@")),
        ("${hex:40", text("${hex:40")),
        ("${hex:400}", text("${hex:400}")),
        ("${hex:4${hex:30}}", text("${hex:40}")),
        ("${unicode:40}", text("@")),
        ("${ unicode:40}", text("${ unicode:40}")),
        ("${UNICODE:40}", text("@")),
        ("${UnICoDE:0000040}", text("@")),
        ("${Unicode:40}", text("@")),
        ("${Unicode:40 40 ", text("${Unicode:40 40 ")),
        ("${Unicode:Cool}", text("${Unicode:Cool}")),
        ("", text("")),
        ("${global.full}", global("full")),
        ("${BAD${global.Company}", Value::List(vec![text("${BAD"), global("company")])),
        (
            "${President, ${global.Company} Inc.}",
            Value::List(vec![text("${President, "), global("company"), text(" Inc.}")]),
        ),
        ("dear${hex:20 24 7b}global.Name}", Value::List(vec![text("dear "), global("name")])),
        (
            "INBOX.lists.${2}",
            Value::List(vec![text("INBOX.lists."), Value::Variable(VariableType::Match(2))]),
        ),
        ("Ein unerh${unicode:00F6}rt gro${unicode:00DF}er Test", text("Ein unerhört großer Test")),
        ("&%${}!", text("&%${}!")),
        ("${doh!}", text("${doh!}")),
        ("${hex: 20 }${global.hi}${hex: 20 }", Value::List(vec![text(" "), global("hi"), text(" ")])),
        (
            "${hex:20 24 7b z}${global.hi}${unicode:}${unicode: }${hex:20}",
            Value::List(vec![text("${hex:20 24 7b z}"), global("hi"), text("${unicode:}${unicode: } ")]),
        ),
        (
            "${header.from}",
            Value::Variable(VariableType::Header(HeaderVariable {
                name: vec![from()],
                part: HeaderPart::Text,
                index_hdr: -1,
                index_part: -1,
            })),
        ),
        (
            "${header.from.addr}",
            Value::Variable(VariableType::Header(HeaderVariable {
                name: vec![from()],
                part: HeaderPart::Address(AddressPart::All),
                index_hdr: -1,
                index_part: -1,
            })),
        ),
        (
            "${header.from[1]}",
            Value::Variable(VariableType::Header(HeaderVariable {
                name: vec![from()],
                part: HeaderPart::Text,
                index_hdr: 1,
                index_part: -1,
            })),
        ),
        (
            "${header.from[*]}",
            Value::Variable(VariableType::Header(HeaderVariable {
                name: vec![from()],
                part: HeaderPart::Text,
                index_hdr: 0,
                index_part: -1,
            })),
        ),
        (
            "${header.from[20].name}",
            Value::Variable(VariableType::Header(HeaderVariable {
                name: vec![from()],
                part: HeaderPart::Address(AddressPart::Name),
                index_hdr: 20,
                index_part: -1,
            })),
        ),
        (
            "${header.from[*].addr}",
            Value::Variable(VariableType::Header(HeaderVariable {
                name: vec![from()],
                part: HeaderPart::Address(AddressPart::All),
                index_hdr: 0,
                index_part: -1,
            })),
        ),
        (
            "${header.from[-5].name[2]}",
            Value::Variable(VariableType::Header(HeaderVariable {
                name: vec![from()],
                part: HeaderPart::Address(AddressPart::Name),
                index_hdr: -5,
                index_part: 2,
            })),
        ),
        (
            "${header.from[*].raw[*]}",
            Value::Variable(VariableType::Header(HeaderVariable {
                name: vec![from()],
                part: HeaderPart::Raw,
                index_hdr: 0,
                index_part: 0,
            })),
        ),
    ] {
        assert_eq!(
            compiler.tokenize_string(input.as_bytes(), true).unwrap(),
            expected_result,
            "Failed for {input}"
        );
    }

    for input in ["${unicode:200000}", "${Unicode:DF01}"] {
        assert!(compiler.tokenize_string(input.as_bytes(), true).is_err());
    }
}

#[test]
fn numbers_in_strings() {
    let mut compiler = state();
    assert_eq!(
        compiler.tokenize_string(b"42", false).unwrap(),
        Value::Number(Number::Integer(42))
    );
    assert_eq!(compiler.tokenize_string(b"042", false).unwrap(), text("042"));
    assert_eq!(
        compiler.tokenize_string(b"1.25", false).unwrap(),
        Value::Number(Number::Decimal("1.25".to_string()))
    );
    assert_eq!(compiler.tokenize_string(b"1.2.5", false).unwrap(), text("1.2.5"));
    // Without decoding, an encoded character stays as written.
    assert_eq!(compiler.tokenize_string(b"${hex:40}", false).unwrap(), text("${hex:40}"));
}

#[test]
fn match_variables() {
    let mut compiler = state();
    compiler.vars_match_max = 0;
    assert_eq!(
        compiler.tokenize_string(b"${3}", true).unwrap(),
        Value::Variable(VariableType::Match(3))
    );
    assert_eq!(compiler.vars_match_max, 4);
    assert_eq!(
        compiler.tokenize_string(b"${63}", true).unwrap_err(),
        ErrorType::InvalidMatchVariable(63)
    );
    assert_eq!(
        compiler.tokenize_string(b"${99999999999999999999999}", true).unwrap_err(),
        ErrorType::InvalidNumber("99999999999999999999999".to_string())
    );
    compiler.match_test = false;
    assert_eq!(compiler.tokenize_string(b"a${1}", true).unwrap(), text("a"));
}

#[test]
fn variable_names() {
    let c = state();
    assert_eq!(c.parse_variable("full", false), Ok(Some(VariableType::Global("full".to_string()))));
    // The innermost local variable of a name is the one read.
    assert_eq!(c.parse_variable("x", false), Ok(Some(VariableType::Local(2))));
    assert_eq!(c.parse_variable("outer", false), Ok(Some(VariableType::Local(0))));
    assert_eq!(c.parse_variable("nope", false), Ok(None));
    assert_eq!(c.parse_variable("T.Abc", true), Ok(Some(VariableType::Global("abc".to_string()))));
    assert_eq!(
        c.parse_variable("env.phase", true),
        Ok(Some(VariableType::Environment("phase".to_string())))
    );
    assert_eq!(
        c.parse_variable("envelope.FROM", true),
        Ok(Some(VariableType::Envelope(Envelope::From)))
    );
    assert_eq!(
        c.parse_variable("envelope.bcc", true),
        Err(ErrorType::InvalidEnvelope("bcc".to_string()))
    );
    assert_eq!(
        c.parse_variable("body.to_html", true),
        Ok(Some(VariableType::Part(MessagePart::HtmlBody(true))))
    );
    assert_eq!(c.parse_variable("part.raw", true), Ok(Some(VariableType::Part(MessagePart::Raw))));
    assert_eq!(
        c.parse_variable("part.other", true),
        Err(ErrorType::InvalidNamespace("other".to_string()))
    );
    assert_eq!(
        c.parse_variable("what.ever", true),
        Err(ErrorType::InvalidNamespace("what.ever".to_string()))
    );
    assert_eq!(
        c.parse_variable("global.", true),
        Err(ErrorType::InvalidNamespace("global.".to_string()))
    );
    assert_eq!(
        c.parse_variable("header.bad!", true),
        Err(ErrorType::InvalidExpression("bad!".to_string()))
    );
    assert_eq!(
        c.parse_variable("header.*.rcvd.from.ip", true),
        Ok(Some(VariableType::Header(HeaderVariable {
            name: vec![],
            part: HeaderPart::Received(ReceivedPart::From(ReceivedHostname::Ip)),
            index_hdr: 0,
            index_part: 0,
        })))
    );
    assert_eq!(
        c.parse_variable("header.content-type.attr.charset", true),
        Ok(Some(VariableType::Header(HeaderVariable {
            name: vec![HeaderName { id: 21, name: "Content-Type".to_string() }],
            part: HeaderPart::ContentType(ContentTypePart::Attribute("charset".to_string())),
            index_hdr: -1,
            index_part: -1,
        })))
    );
}

#[test]
fn expression_names() {
    let c = state();
    assert_eq!(
        c.parse_expr_fnc_or_var("full", false),
        Ok(ExprToken::Variable(VariableType::Global("full".to_string())))
    );
    assert_eq!(
        c.parse_expr_fnc_or_var("trim", false),
        Ok(ExprToken::Function { name: "trim".to_string(), id: 3, num_args: 1 })
    );
    assert_eq!(
        c.parse_expr_fnc_or_var("nothing", false),
        Err("Invalid variable or function name \"nothing\"".to_string())
    );
}

#[test]
fn header_parts() {
    assert_eq!(HeaderPart::try_from(""), Ok(HeaderPart::Text));
    // Only the text after `addr.` is looked up among the address parts.
    assert_eq!(HeaderPart::try_from("addr.name"), Ok(HeaderPart::Address(AddressPart::Name)));
    assert_eq!(HeaderPart::try_from("addr.domain"), Err(()));
    assert_eq!(HeaderPart::try_from("rcvd"), Ok(HeaderPart::Text));
    assert_eq!(HeaderPart::try_from("rcvd.date.raw"), Ok(HeaderPart::Received(ReceivedPart::DateRaw)));
    assert_eq!(HeaderPart::try_from("attr"), Err(()));
    assert_eq!(HeaderPart::try_from("raw_name"), Ok(HeaderPart::RawName));
    assert_eq!(ReceivedPart::try_from("by.name"), Ok(ReceivedPart::By(ReceivedHostname::Name)));
    assert_eq!(ReceivedPart::try_from("nope"), Err(()));
    assert_eq!(AddressPart::try_from("all"), Ok(AddressPart::All));
    assert_eq!(AddressPart::try_from("addr.detail"), Ok(AddressPart::Detail));
}

#[test]
fn capabilities() {
    assert_eq!(Capability::parse(b"fileinto".to_vec()), Capability::FileInto);
    assert_eq!(
        Capability::parse(b"comparator-i;ascii-numeric".to_vec()),
        Capability::Comparator(Comparator::AsciiNumeric)
    );
    assert_eq!(
        Capability::parse(b"comparator-i;unicode-casemap".to_vec()),
        Capability::Comparator(Comparator::Other("i;unicode-casemap".to_string()))
    );
    assert_eq!(Capability::parse(b"vacation".to_vec()), Capability::Other("vacation".to_string()));
    assert_eq!(
        Capability::parse(vec![b'x', 0xff]),
        Capability::Other("x\u{fffd}".to_string())
    );
}

#[test]
fn written_variables_and_values() {
    assert_eq!(VariableType::Local(3).to_string(), "${3}");
    assert_eq!(VariableType::Match(0).to_string(), "${0}");
    assert_eq!(VariableType::Global("x".to_string()).to_string(), "${global.x}");
    assert_eq!(VariableType::Environment("name".to_string()).to_string(), "${env.name}");
    assert_eq!(VariableType::Envelope(Envelope::From).to_string(), "${{envelope.from}}");
    assert_eq!(VariableType::Envelope(Envelope::Envid).to_string(), "${{envelope.envit}}");
    assert_eq!(VariableType::Part(MessagePart::TextBody(true)).to_string(), "${body.to_text}");
    let hv = HeaderVariable {
        name: vec![HeaderName { id: 0, name: "Subject".to_string() }],
        part: HeaderPart::Text,
        index_hdr: 0,
        index_part: -1,
    };
    assert_eq!(VariableType::Header(hv).to_string(), "${header.Subject[*][-1]}");
    let list = Value::List(vec![
        Value::Text("a".to_string()),
        Value::Number(Number::Integer(-5)),
        Value::Variable(VariableType::Local(1)),
        Value::List(vec![Value::Number(Number::Decimal("1.5".to_string()))]),
    ]);
    assert_eq!(list.to_string(), "a-5${1}1.5");
}
