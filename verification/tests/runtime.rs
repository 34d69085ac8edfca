use sieve::runtime::expression::{eval_expression, ExprItem};
use sieve::compiler::grammar::{BinaryOperator, ByMode, Modifier, NotifyItem, Ret, UnaryOperator};
use sieve::header::HeaderName;
use sieve::runtime::actions::action_convert::{choose_conversion, convert_part, Conversion, PartBody};
use sieve::runtime::actions::action_editheader::{
    keep_name_chars, plan_addheader, plan_deleteheader, remove_crlf, same_header_name,
};
use sieve::runtime::actions::action_flags::{
    add_flags, append_flag, contains_flag, join_spaces, remove_flag_text, remove_flags,
    split_ascii_words, split_spaces, str_eq_ignore_ascii_case, tokenize_flags, edit_flags, edit_flag_text, FlagAction,
};
use sieve::runtime::actions::action_vacation::{
    build_vacation_message, choose_response_subject, escape_full_name, truncate_subject,
    vacation_message_bytes, vacation_reply_id, vacation_subject, write_header, MessageHeader,
};
use sieve::runtime::actions::action_redirect::{
    by_mode_from_code, deliver_by_time, notify_items, plan_redirect, ret_from_code,
    sanitize_address, SendLimits,
};
use sieve::runtime::actions::action_set::{apply_modifier, apply_modifiers};
use sieve::compiler::{ReceivedHostname, ReceivedPart};
use sieve::runtime::actions::action_redirect::DateParts;
use sieve::runtime::eval::{
    address_text, content_type_text, find_attribute, pick_indexed, received_part,
    sanitize_raw_header, HostText, ReceivedFields,
};
use sieve::runtime::handler::{include_step, Script};
use sieve::runtime::RuntimeError;
use sieve::runtime::variable::{int_to_string, Variable};
use sieve::Envelope;

fn s(v: &str) -> Variable {
    Variable::String(v.to_string())
}

#[test]
fn adding_values() {
    assert_eq!(Variable::Integer(2).op_add(Variable::Integer(3)), Variable::Integer(5));
    assert_eq!(Variable::Integer(i64::MAX).op_add(Variable::Integer(1)), Variable::Integer(i64::MAX));
    assert_eq!(Variable::Integer(i64::MIN).op_add(Variable::Integer(-1)), Variable::Integer(i64::MIN));
    assert_eq!(s("ab").op_add(s("cd")), s("abcd"));
    assert_eq!(s("n=").op_add(Variable::Integer(-7)), s("n=-7"));
    assert_eq!(Variable::Integer(7).op_add(s("!")), s("7!"));
    assert_eq!(s("").op_add(Variable::Integer(7)), Variable::Integer(7));
    assert_eq!(Variable::Integer(7).op_add(s("")), Variable::Integer(7));
    assert_eq!(
        Variable::Array(vec![Variable::Integer(1)]).op_add(Variable::Array(vec![s("x")])),
        Variable::Array(vec![Variable::Integer(1), s("x")])
    );
    assert_eq!(
        Variable::Array(vec![]).op_add(Variable::Integer(1)),
        Variable::Array(vec![Variable::Integer(1)])
    );
    assert_eq!(
        s("a").op_add(Variable::Array(vec![s("b")])),
        Variable::Array(vec![s("a"), s("b")])
    );
}

#[test]
fn multiplying_and_negating() {
    assert_eq!(Variable::Integer(6).op_multiply(Variable::Integer(7)), Some(Variable::Integer(42)));
    assert_eq!(s("6").op_multiply(s("-7")), Some(Variable::Integer(-42)));
    assert_eq!(s("x").op_multiply(Variable::Integer(3)), None);
    assert_eq!(s("").op_multiply(Variable::Integer(3)), Some(Variable::Integer(0)));
    assert_eq!(
        Variable::Integer(i64::MAX).op_multiply(Variable::Integer(-2)),
        Some(Variable::Integer(i64::MIN))
    );
    assert_eq!(
        Variable::Array(vec![]).op_multiply(Variable::Integer(5)),
        Some(Variable::Integer(5))
    );
    assert_eq!(Variable::Integer(i64::MIN).op_minus(), Some(Variable::Integer(i64::MAX)));
    assert_eq!(s("+12").op_minus(), Some(Variable::Integer(-12)));
    assert_eq!(s("1.5").op_minus(), None);
    assert_eq!(s("+12").parse_number(), Some(Variable::Integer(12)));
    assert_eq!(s("").parse_number(), Some(Variable::Integer(0)));
    assert_eq!(Variable::Array(vec![s("a")]).parse_number(), Some(Variable::Integer(0)));
}

#[test]
fn logical_operators() {
    let t = Variable::Integer(1);
    assert_eq!(s("a").op_and(Variable::Integer(2)), t);
    assert_eq!(s("").op_or(Variable::Integer(0)), Variable::Integer(0));
    assert_eq!(s("").op_or(Variable::Array(vec![s("")])), t);
    assert_eq!(s("a").op_xor(s("b")), Variable::Integer(0));
    assert_eq!(Variable::Integer(0).op_not(), t);
    assert_eq!(s("a").op_not(), Variable::Integer(0));
}

#[test]
fn operator_codes() {
    assert_eq!(BinaryOperator::from_code(0), BinaryOperator::Add);
    assert_eq!(BinaryOperator::from_code(9), BinaryOperator::Lt);
    assert_eq!(BinaryOperator::from_code(200), BinaryOperator::Ge);
    assert_eq!(UnaryOperator::from_code(0), UnaryOperator::Not);
    assert_eq!(UnaryOperator::from_code(1), UnaryOperator::Minus);
    assert_eq!(Envelope::from_code(3), Envelope::ByTimeRelative);
    assert_eq!(Envelope::from_code(3).code(), 3);
    assert_eq!(Envelope::from_code(42), Envelope::Envid);
    assert_eq!(ret_from_code(1), Ret::Hdrs);
    assert_eq!(ret_from_code(7), Ret::Default);
    assert_eq!(by_mode_from_code(0), ByMode::Notify);
    assert_eq!(
        notify_items(&[0, 1, 2, 9]),
        vec![NotifyItem::Success, NotifyItem::Failure, NotifyItem::Delay, NotifyItem::Delay]
    );
}

#[test]
fn decimal_text() {
    assert_eq!(int_to_string(0), "0");
    assert_eq!(int_to_string(-105), "-105");
    assert_eq!(int_to_string(i64::MIN), i64::MIN.to_string());
    assert_eq!(int_to_string(i64::MAX), i64::MAX.to_string());
}

#[test]
fn redirect_addresses() {
    assert_eq!(sanitize_address("John <john@example.org>"), Some("john@example.org".to_string()));
    assert_eq!(sanitize_address(" a @ b . c "), Some("a@b.c".to_string()));
    // Quotes keep white space but are not kept themselves.
    assert_eq!(sanitize_address("\"a b\"@x.y"), Some("a b@x.y".to_string()));
    assert_eq!(sanitize_address("a@b@c.d"), None);
    assert_eq!(sanitize_address("@b.c"), None);
    assert_eq!(sanitize_address("a@bc"), None);
}

#[test]
fn header_values() {
    assert_eq!(remove_crlf("a\r\nb\nc", 100), "abc");
    assert_eq!(remove_crlf("abcdef", 3), "abc");
    assert_eq!(remove_crlf("aé", 2), "a");
    assert_eq!(sanitize_raw_header(b"  a \t b\r\n "), " a b");
}

#[test]
fn set_modifiers() {
    assert_eq!(Modifier::Lower.apply("AbC"), "abc");
    assert_eq!(Modifier::Upper.apply("AbC"), "ABC");
    assert_eq!(Modifier::LowerFirst.apply("ABC"), "aBC");
    assert_eq!(Modifier::UpperFirst.apply("hello"), "Hello");
    assert_eq!(Modifier::LowerFirst.apply("HELLO"), "hELLO");
    assert_eq!(Modifier::QuoteWildcard.apply("a*b?c\\"), "a\\*b\\?c\\\\");
    assert_eq!(Modifier::QuoteRegex.apply("a.b$"), "a\\.b\\$");
    assert_eq!(Modifier::Length.apply("añb"), "3");
    assert_eq!(Modifier::Length.apply("héllo"), "5");
    assert_eq!(Modifier::EncodeUrl.apply("a b/é~"), "a%20b%2f%c3%a9~");
}

#[test]
fn bounded_set_modifiers() {
    assert_eq!(apply_modifier(Modifier::UpperFirst, "abc", 10), "Abc");
    assert_eq!(apply_modifier(Modifier::LowerFirst, "ABC", 2), "aB");
    assert_eq!(apply_modifier(Modifier::QuoteWildcard, "ab*", 3), "ab");
    assert_eq!(apply_modifier(Modifier::QuoteWildcard, "ab*", 4), "ab\\*");
    assert_eq!(apply_modifier(Modifier::Length, "añb", 1), "3");
    assert_eq!(apply_modifier(Modifier::EncodeUrl, "a b", 3), "a");
    assert_eq!(apply_modifier(Modifier::EncodeUrl, "a b", 4), "a%20");
}

#[test]
fn scripts() {
    assert_eq!(Script::Global("g").name(), "g");
    assert!(Script::Global("g").is_global());
    assert!(!Script::Personal("p").is_global());
}

#[test]
fn lexer_errors() {
    let e = sieve::parser::Error::invalid_character(3, 4, b'@');
    assert_eq!((e.line_num(), e.line_pos()), (3, 4));
    assert_eq!(e.error_type(), sieve::parser::ErrorType::InvalidCharacter(b'@'));
}

#[test]
fn flags_lists() {
    assert!(contains_flag("\\Seen \\Flagged", "\\flagged"));
    assert!(!contains_flag("\\Seen \\Flagged", "\\Flag"));
    assert!(contains_flag("a  b", ""));
    assert!(!contains_flag("a b", ""));
    assert!(contains_flag("", ""));
}

#[test]
fn vacation_headers() {
    let mut buf = b"X".to_vec();
    write_header(&mut buf, "Subject: ", "hi");
    assert_eq!(buf, b"XSubject: hi\r\n".to_vec());
    assert_eq!(escape_full_name("J \"R\" \\ D"), "J \\\"R\\\" \\\\ D");
}

#[test]
fn compiler_limits() {
    let c = sieve::Compiler::new().with_max_string_size(10).with_no_capability_check(true);
    assert_eq!(c.max_string_size(), 10);
    assert!(c.no_capability_check);
    assert_eq!(c.max_header_size, 1024);
    let mut c = c;
    c.set_max_includes(2);
    assert_eq!(c.max_includes, 2);
}

#[test]
fn subtracting_values() {
    assert_eq!(Variable::Integer(5).op_subtract(Variable::Integer(7)), Some(Variable::Integer(-2)));
    assert_eq!(s("10").op_subtract(Variable::Integer(3)), Some(Variable::Integer(7)));
    assert_eq!(
        Variable::Integer(i64::MIN).op_subtract(Variable::Integer(1)),
        Some(Variable::Integer(i64::MIN))
    );
    assert_eq!(s("1.5").op_subtract(Variable::Integer(1)), None);
    assert_eq!(Variable::Array(vec![]).op_subtract(Variable::Integer(1)), None);
}

#[test]
fn vacation_subjects() {
    assert_eq!(truncate_subject("short"), "short");
    let s256 = "a".repeat(256);
    assert_eq!(truncate_subject(&s256), s256);
    assert_eq!(truncate_subject(&"a".repeat(257)), s256);
    assert_eq!(truncate_subject(&"a".repeat(258)), format!("{}\u{2026}", s256));
    assert_eq!(vacation_subject("Auto: ", "Hello"), "Auto: Hello");
    let subjects = vec!["".to_string(), "Hi".to_string()];
    assert_eq!(choose_response_subject("Given", &subjects, "Auto: ", "Default"), "Given");
    assert_eq!(choose_response_subject("", &subjects, "", "Default"), "Hi");
    assert_eq!(choose_response_subject("", &subjects, "Re: ", "Default"), "Re: ");
    assert_eq!(choose_response_subject("", &vec![], "Re: ", "Default"), "Default");
}

#[test]
fn vacation_messages() {
    let m = vacation_message_bytes(
        "me@x.y",
        "you@z.w",
        None,
        "Auto: Hi",
        Some("abc@z.w"),
        None,
        "DATE",
        b"<id@x.y>",
        "Away",
        false,
    );
    assert_eq!(
        String::from_utf8(m).unwrap(),
        "From: me@x.y\r\nTo: you@z.w\r\nSubject: Auto: Hi\r\n\
         In-Reply-To: <abc@z.w>\r\nReferences: <abc@z.w>\r\n\
         Date: DATE\r\nMessage-ID: <id@x.y>\r\nAuto-Submitted: auto-replied\r\n\
         Content-type: text/plain; charset=utf-8\r\n\r\nAway"
    );
    let m = vacation_message_bytes(
        "me@x.y",
        "you@z.w",
        Some(b" You <you@z.w>\r\n"),
        "S",
        Some("abc@z.w"),
        Some(b"<r1@z.w>\r\n"),
        "DATE",
        b"<id@x.y>",
        "B",
        true,
    );
    let t = String::from_utf8(m).unwrap();
    assert!(t.starts_with("From: me@x.y\r\nTo: You <you@z.w>\r\nSubject: S\r\n"));
    assert!(t.contains("References: <abc@z.w> <r1@z.w>\r\nDate: DATE\r\n"));
    assert!(t.ends_with("auto-replied\r\nB"));
    let m = String::from_utf8(build_vacation_message("a", "b", None, "s", None, None, "body", false, "host.test"))
        .unwrap();
    assert!(m.contains("@host.test>\r\nAuto-Submitted: auto-replied\r\n"));
    assert!(m.contains(" +0000\r\nMessage-ID: <"));
}

#[test]
fn editing_flag_lists() {
    assert_eq!(split_ascii_words("  \\Seen\t\\Flagged\r\n x "), vec!["\\Seen", "\\Flagged", "x"]);
    assert!(split_ascii_words(" \t ").is_empty());
    let mut flags: Vec<String> = Vec::new();
    add_flags(&mut flags, "\\Seen \\Flagged");
    add_flags(&mut flags, "\\seen $Label");
    assert_eq!(flags, vec!["\\Seen", "\\Flagged", "$Label"]);
    remove_flags(&mut flags, "\\SEEN");
    assert_eq!(flags, vec!["$Label", "\\Flagged"]);
    remove_flags(&mut flags, "nothing");
    assert_eq!(flags, vec!["$Label", "\\Flagged"]);
    assert!(str_eq_ignore_ascii_case("AbC", "aBc"));
    assert!(!str_eq_ignore_ascii_case("Ab", "Abc"));
}

#[test]
fn editing_flag_variables() {
    let mut v = String::new();
    append_flag(&mut v, "\\Seen");
    append_flag(&mut v, "\\seen");
    append_flag(&mut v, "\\Draft");
    assert_eq!(v, "\\Seen \\Draft");
    assert_eq!(remove_flag_text("a b c", "A"), "c b");
    assert_eq!(remove_flag_text("a b c", "z"), "a b c");
    assert_eq!(split_spaces("a  b"), vec!["a", "", "b"]);
    assert_eq!(split_spaces(""), vec![""]);
    assert_eq!(join_spaces(&split_spaces(" x  y ")), " x  y ");
}

#[test]
fn deliver_by_dates() {
    assert_eq!(deliver_by_time("2004-06-28T23:43:45.000Z"), 1088466225);
    assert_eq!(deliver_by_time("1969-02-13T23:32:00-03:30"), -27723480);
    assert_eq!(deliver_by_time("1800-01-01T00:00:00Z"), 0);
    assert_eq!(deliver_by_time("not a date"), 0);
}

#[test]
fn redirect_decisions() {
    let free = SendLimits {
        num_redirects: 0,
        max_redirects: 1,
        num_out_messages: 0,
        max_out_messages: 3,
        received_headers: 2,
        max_received_headers: 10,
    };
    let p = plan_redirect(" Bob <bob@example.org> ", false, false, true, "me@example.org", &free).unwrap();
    assert_eq!(p.address, "bob@example.org");
    assert!(p.cancel_keep);
    let p = plan_redirect("bob@example.org", false, true, true, "me@example.org", &free).unwrap();
    assert!(!p.cancel_keep);
    assert!(plan_redirect("ME@example.org", false, false, true, "me@example.org", &free).is_none());
    assert!(plan_redirect("ME@example.org", true, false, true, "me@example.org", &free).is_some());
    assert!(plan_redirect("nobody", false, false, true, "me@example.org", &free).is_none());
    let used = SendLimits { num_redirects: 1, ..free };
    assert!(plan_redirect("bob@example.org", false, false, true, "me@example.org", &used).is_none());
    let looped = SendLimits { received_headers: 10, ..free };
    assert!(plan_redirect("bob@example.org", false, false, true, "me@example.org", &looped).is_none());
}

#[test]
fn added_headers() {
    let protected = vec![
        HeaderName { id: 103, name: "Original-Subject".to_string() },
        HeaderName { id: 37, name: "X-Secret".to_string() },
    ];
    assert_eq!(keep_name_chars("X-My Header!"), "X-MyHeader");
    assert_eq!(keep_name_chars("Dätum:"), "Dätum");
    let (h, v) = plan_addheader("X-My Header!", "a\r\nb", &protected, 100).unwrap();
    assert_eq!((h.id, h.name.as_str(), v.as_str()), (37, "X-MyHeader", "ab"));
    let (h, v) = plan_addheader("subject", "Hello", &protected, 3).unwrap();
    assert_eq!((h.id, h.name.as_str(), v.as_str()), (0, "Subject", "Hel"));
    assert!(plan_addheader("original-subject", "x", &protected, 100).is_none());
    assert!(plan_addheader("x-SECRET", "x", &protected, 100).is_none());
    assert!(plan_addheader("Dätum", "x", &protected, 100).is_none());
    assert!(plan_addheader("!!", "x", &protected, 100).is_none());
    let a = HeaderName { id: 37, name: "X-A".to_string() };
    let b = HeaderName { id: 37, name: "x-a".to_string() };
    let subject = HeaderName { id: 0, name: "Subject".to_string() };
    assert!(same_header_name(&a, &b));
    assert!(!same_header_name(&a, &subject));
    assert!(same_header_name(&subject, &subject));
}

#[test]
fn received_header_parts() {
    let r = ReceivedFields {
        from: None,
        helo: Some(HostText::Name("mx.example.org".to_string())),
        from_ip: Some("192.0.2.1".to_string()),
        from_iprev: None,
        by: Some(HostText::Ip("198.51.100.7".to_string())),
        for_: Some("<u@example.org>".to_string()),
        with: Some("ESMTPS".to_string()),
        tls_version: None,
        tls_cipher: None,
        id: Some("abc".to_string()),
        ident: None,
        via: None,
        date: Some(DateParts {
            year: 2004,
            month: 6,
            day: 28,
            hour: 23,
            minute: 43,
            second: 45,
            tz_before_gmt: false,
            tz_hour: 0,
            tz_minute: 0,
        }),
    };
    assert_eq!(received_part(ReceivedPart::From(ReceivedHostname::Any), &r), Some(s("mx.example.org")));
    assert_eq!(received_part(ReceivedPart::From(ReceivedHostname::Ip), &r), None);
    assert_eq!(received_part(ReceivedPart::By(ReceivedHostname::Ip), &r), Some(s("198.51.100.7")));
    assert_eq!(received_part(ReceivedPart::By(ReceivedHostname::Name), &r), None);
    assert_eq!(received_part(ReceivedPart::FromIp, &r), Some(s("192.0.2.1")));
    assert_eq!(received_part(ReceivedPart::With, &r), Some(s("ESMTPS")));
    assert_eq!(received_part(ReceivedPart::Via, &r), None);
    assert_eq!(received_part(ReceivedPart::Date, &r), Some(Variable::Integer(1088466225)));
    assert_eq!(received_part(ReceivedPart::DateRaw, &r), Some(s("Mon, 28 Jun 2004 23:43:45 +0000")));
}

#[test]
fn conversions() {
    assert_eq!(choose_conversion("text", "text/html"), Some(Conversion::TextPlainToHtml));
    assert_eq!(choose_conversion("text/plain", "TEXT/HTML"), Some(Conversion::TextToHtml));
    assert_eq!(choose_conversion("Text/Plain", "text/html"), None);
    assert_eq!(choose_conversion("text/html", "text/plain"), Some(Conversion::HtmlToText));
    assert_eq!(choose_conversion("text/html", "TEXT/HTML"), None);
    assert_eq!(choose_conversion("image/png", "text/html"), None);
    let p = convert_part(Conversion::TextToHtml, &PartBody::Text("a<b\r\nc".to_string()), None).unwrap();
    assert_eq!(p.content_type, "text/html; charset=utf8");
    match p.body {
        PartBody::Html(h) => assert_eq!(h, "<html><body>a&lt;b<br/>c</body></html>"),
        _ => panic!("expected HTML"),
    }
    let p = convert_part(Conversion::HtmlToText, &PartBody::Html("<p>Hi <b>there</b></p>".to_string()), None)
        .unwrap();
    assert_eq!(p.content_type, "text/plain; charset=utf8");
    match p.body {
        PartBody::Text(t) => assert!(t.contains("Hi") && t.contains("there") && !t.contains('<')),
        _ => panic!("expected text"),
    }
    assert!(convert_part(Conversion::TextPlainToHtml, &PartBody::Text("x".to_string()), Some("PLAIN")).is_some());
    assert!(convert_part(Conversion::TextPlainToHtml, &PartBody::Text("x".to_string()), Some("csv")).is_none());
    assert!(convert_part(Conversion::HtmlToText, &PartBody::Text("x".to_string()), None).is_none());
    assert!(convert_part(Conversion::TextToHtml, &PartBody::Other, None).is_none());
}

#[test]
fn header_value_pieces() {
    let list = vec!["a".to_string(), "b".to_string(), "c".to_string()];
    assert_eq!(pick_indexed(&list, 0), list);
    assert_eq!(pick_indexed(&list, 1), vec!["a"]);
    assert_eq!(pick_indexed(&list, 3), vec!["c"]);
    assert!(pick_indexed(&list, 4).is_empty());
    assert_eq!(pick_indexed(&list, -1), vec!["c"]);
    assert_eq!(pick_indexed(&list, -3), vec!["a"]);
    assert!(pick_indexed(&list, -4).is_empty());
    assert!(pick_indexed(&list, i32::MIN).is_empty());
    assert_eq!(address_text(Some("Jo"), Some("j@x.y")), "Jo <j@x.y>");
    assert_eq!(address_text(Some("Jo"), None), "Jo");
    assert_eq!(address_text(None, Some("j@x.y")), "<j@x.y>");
    assert_eq!(address_text(None, None), "");
    assert_eq!(content_type_text("text", Some("plain")), "text/plain");
    assert_eq!(content_type_text("text", None), "text");
    let attrs = vec![("Charset".to_string(), "utf-8".to_string()), ("charset".to_string(), "x".to_string())];
    assert_eq!(find_attribute(&attrs, "CHARSET"), Some("utf-8".to_string()));
    assert_eq!(find_attribute(&attrs, "name"), None);
}

fn mh(id: u8, name: &str, text: Option<&str>, addresses: &[&str]) -> MessageHeader {
    MessageHeader {
        name: HeaderName { id, name: name.to_string() },
        text: text.map(|t| t.to_string()),
        addresses: addresses.iter().map(|a| a.to_string()).collect(),
    }
}

#[test]
fn vacation_reply_rules() {
    let env = vec![(Envelope::From, "Sender@Example.org".to_string()), (Envelope::To, "me@x.y".to_string())];
    let base = vec![
        mh(11, "Received", Some("a"), &[]),
        mh(2, "To", None, &["other@x.y", "ME@x.y"]),
        mh(11, "Received", Some("b"), &[]),
    ];
    let none: Vec<String> = vec![];
    let ok = vacation_reply_id(0, 3, &env, false, &none, "", &base, 10, "h", 0, 7, 99);
    assert_eq!(ok, Some(("_vsender@example.org".to_string() + "h", 604800)));
    assert_eq!(
        vacation_reply_id(0, 3, &env, false, &none, "", &base, 10, "h", 1, 7, 99),
        Some(("_vsender@example.orgh".to_string(), 7))
    );
    assert_eq!(
        vacation_reply_id(0, 3, &env, false, &none, "", &base, 10, "h", 2, 7, 99),
        Some(("_vsender@example.orgh".to_string(), 99))
    );
    assert_eq!(
        vacation_reply_id(0, 3, &env, false, &none, "", &base, 10, "h", 0, u64::MAX, 99).unwrap().1,
        u64::MAX
    );
    assert!(vacation_reply_id(3, 3, &env, false, &none, "", &base, 10, "h", 0, 7, 99).is_none());
    assert!(vacation_reply_id(0, 3, &env, false, &none, "", &base, 1, "h", 0, 7, 99).is_none());
    assert!(vacation_reply_id(0, 3, &env, true, &none, "", &base, 10, "h", 0, 7, 99).is_none());
    let daemon = vec![(Envelope::From, "MAILER-DAEMON@x.y".to_string()), (Envelope::To, "me@x.y".to_string())];
    assert!(vacation_reply_id(0, 3, &daemon, false, &none, "", &base, 10, "h", 0, 7, 99).is_none());
    let request = vec![(Envelope::From, "list-request@x.y".to_string()), (Envelope::To, "me@x.y".to_string())];
    assert!(vacation_reply_id(0, 3, &request, false, &none, "", &base, 10, "h", 0, 7, 99).is_none());
    let own = vec![(Envelope::From, "ME@x.y".to_string()), (Envelope::To, "me@x.y".to_string())];
    assert!(vacation_reply_id(0, 3, &own, false, &none, "", &base, 10, "h", 0, 7, 99).is_none());
    let elsewhere = vec![mh(2, "To", None, &["other@x.y"])];
    assert!(vacation_reply_id(0, 3, &env, false, &none, "", &elsewhere, 10, "h", 0, 7, 99).is_none());
    let extra = vec!["other@x.y".to_string()];
    assert!(vacation_reply_id(0, 3, &env, false, &extra, "", &elsewhere, 10, "h", 0, 7, 99).is_some());
    for stop in [
        mh(32, "List-ID", Some("<l.x.y>"), &[]),
        mh(48, "Auto-Submitted", Some("auto-replied"), &[]),
        mh(48, "Auto-Submitted", None, &[]),
        mh(37, "X-Auto-Response-Suppress", Some("DR, OOF "), &[]),
        mh(37, "precedence", Some("BULK"), &[]),
    ] {
        let mut hs = vec![mh(2, "To", None, &["me@x.y"])];
        hs.push(stop);
        assert!(vacation_reply_id(0, 3, &env, false, &none, "", &hs, 10, "h", 0, 7, 99).is_none());
    }
    let fine = vec![
        mh(2, "To", None, &["me@x.y"]),
        mh(48, "Auto-Submitted", Some("No"), &[]),
        mh(37, "X-Auto-Response-Suppress", Some("DR, RN"), &[]),
        mh(37, "Precedence", Some("list"), &[]),
    ];
    assert!(vacation_reply_id(0, 3, &env, false, &none, "", &fine, 10, "h", 0, 7, 99).is_some());
}

#[test]
fn function_tables() {
    let mut m = sieve::FunctionMap::new()
        .with_function("a".to_string(), "fa")
        .with_function_no_args("b".to_string(), "fb")
        .with_function_args("a".to_string(), "fa2", 3);
    assert_eq!(m.map, vec![("a".to_string(), 2, 3), ("b".to_string(), 1, 0)]);
    assert_eq!(m.functions, vec!["fa", "fb", "fa2"]);
    let c = sieve::Compiler::new().with_max_includes(4).register_functions(&mut m);
    assert_eq!(c.functions, vec![("a".to_string(), 2, 3), ("b".to_string(), 1, 0)]);
    assert_eq!(c.max_includes, 4);
    assert!(m.map.is_empty());
    assert_eq!(m.functions.len(), 3);
}

#[test]
fn metadata_entries() {
    let s: sieve::Metadata<String> = "note".to_string().into();
    assert_eq!(s, sieve::Metadata::Server { annotation: "note".to_string() });
    let m: sieve::Metadata<String> = ("INBOX".to_string(), "note".to_string()).into();
    assert_eq!(m, sieve::Metadata::mailbox("INBOX".to_string(), "note".to_string()));
}

#[test]
fn modifier_chains_apply_in_order() {
    assert_eq!(apply_modifiers(&vec![Modifier::Lower, Modifier::UpperFirst], "HELLO wORLD", 100), "Hello world");
    assert_eq!(apply_modifiers(&vec![Modifier::Upper, Modifier::Length], "abc", 100), "3");
    assert_eq!(apply_modifiers(&vec![Modifier::Length, Modifier::Length], "abcdefghijkl", 100), "2");
    assert_eq!(apply_modifiers(&vec![], "Same", 100), "Same");
}

#[test]
fn flag_arguments_are_tokenized() {
    let one = vec!["\\Seen  \\Flagged\t$Junk ".to_string()];
    assert_eq!(tokenize_flags(&one), vec!["\\Seen", "\\Flagged", "$Junk"]);
    let many = vec![" \\Seen ".to_string(), "".to_string(), "a b".to_string(), "  ".to_string()];
    assert_eq!(tokenize_flags(&many), vec!["\\Seen", "a b", ""]);
    assert_eq!(tokenize_flags(&vec![]), Vec::<String>::new());
}

#[test]
fn include_steps() {
    let included = vec![Script::Personal("a"), Script::Global("b")];
    assert_eq!(include_step("", false, false, &included, 0, 3), Ok(None));
    assert_eq!(include_step("a", false, true, &included, 0, 3), Ok(None));
    assert_eq!(include_step("a", true, true, &included, 0, 3), Ok(Some(Script::Global("a"))));
    assert_eq!(include_step("b", true, false, &included, 0, 3), Ok(Some(Script::Global("b"))));
    assert_eq!(include_step("c", false, true, &included, 3, 3), Err(RuntimeError::TooManyIncludes));
    assert_eq!(include_step("c", false, false, &included, 2, 3), Ok(Some(Script::Personal("c"))));
}

#[test]
fn flag_commands_on_message_flags() {
    let mut flags: Vec<String> = vec!["\\Seen".to_string()];
    edit_flags(&mut flags, FlagAction::AddFlag, &vec!["\\Flagged \\SEEN".to_string()]);
    assert_eq!(flags, vec!["\\Seen", "\\Flagged"]);
    edit_flags(&mut flags, FlagAction::AddFlag, &vec!["$a".to_string(), " $b $c ".to_string()]);
    assert_eq!(flags, vec!["\\Seen", "\\Flagged", "$a", "$b", "$c"]);
    edit_flags(&mut flags, FlagAction::RemoveFlag, &vec!["\\seen".to_string()]);
    assert_eq!(flags, vec!["$c", "\\Flagged", "$a", "$b"]);
    edit_flags(&mut flags, FlagAction::SetFlag, &vec!["x y x".to_string()]);
    assert_eq!(flags, vec!["x", "y"]);
}

#[test]
fn flag_commands_on_variables() {
    assert_eq!(edit_flag_text(None, FlagAction::SetFlag, &vec!["a b a".to_string()]), "a b");
    assert_eq!(edit_flag_text(Some("old"), FlagAction::SetFlag, &vec!["new".to_string()]), "new");
    assert_eq!(edit_flag_text(Some("a"), FlagAction::AddFlag, &vec!["A".to_string(), "b".to_string()]), "a b");
    assert_eq!(edit_flag_text(None, FlagAction::AddFlag, &vec!["b".to_string()]), "b");
    assert_eq!(edit_flag_text(Some("a b c"), FlagAction::RemoveFlag, &vec!["A".to_string()]), "c b");
    assert_eq!(edit_flag_text(Some("a b c"), FlagAction::RemoveFlag, &vec!["z".to_string()]), "a b c");
}

#[test]
fn comparisons_of_integers_and_texts() {
    let i = |n: i64| Variable::Integer(n);
    let s = |t: &str| Variable::String(t.to_string());
    assert_eq!(i(3).op_eq(i(3)), Some(i(1)));
    assert_eq!(i(3).op_ne(i(3)), Some(i(0)));
    assert_eq!(i(-2).op_lt(i(3)), Some(i(1)));
    assert_eq!(i(3).op_le(i(3)), Some(i(1)));
    assert_eq!(i(3).op_gt(i(4)), Some(i(0)));
    assert_eq!(i(4).op_ge(i(3)), Some(i(1)));
    assert_eq!(s("abc").op_eq(s("abc")), Some(i(1)));
    assert_eq!(s("abc").op_lt(s("abd")), Some(i(1)));
    assert_eq!(s("ab").op_lt(s("abc")), Some(i(1)));
    assert_eq!(s("b").op_gt(s("abc")), Some(i(1)));
    assert_eq!(s("é").op_gt(s("z")), Some(i(1)));
    assert_eq!(s("a").op_ge(s("b")), Some(i(0)));
    assert_eq!(s("1").op_eq(i(1)), None);
}

#[test]
fn expressions_evaluate_on_the_stack() {
    use_expr();
}

fn use_expr() {
    use_items_sum();
    use_items_logic();
    use_items_float();
}

fn num(n: i64) -> ExprItem {
    ExprItem::Value(Variable::Integer(n))
}

fn use_items_sum() {
    // 2 + 3 * 4
    let items = vec![num(2), num(3), num(4), ExprItem::Binary(BinaryOperator::Multiply), ExprItem::Binary(BinaryOperator::Add)];
    assert_eq!(eval_expression(items), Ok(Some(Variable::Integer(14))));
    // -(5 - 7) >= 2
    let items = vec![
        num(5),
        num(7),
        ExprItem::Binary(BinaryOperator::Subtract),
        ExprItem::Unary(UnaryOperator::Minus),
        num(2),
        ExprItem::Binary(BinaryOperator::Ge),
    ];
    assert_eq!(eval_expression(items), Ok(Some(Variable::Integer(1))));
    assert_eq!(eval_expression(vec![]), Ok(Some(Variable::String(String::new()))));
    let items = vec![num(1), num(2), num(3), ExprItem::Build(2)];
    assert_eq!(eval_expression(items), Ok(Some(Variable::Array(vec![Variable::Integer(2), Variable::Integer(3)]))));
}

fn use_items_logic() {
    // 0 && x: the jump skips the right operand and the operator
    let items = vec![
        num(0),
        ExprItem::JumpIf { when: false, skip: 2 },
        num(9),
        ExprItem::Binary(BinaryOperator::And),
    ];
    assert_eq!(eval_expression(items), Ok(Some(Variable::Integer(0))));
    let items = vec![num(1), ExprItem::JumpIf { when: false, skip: 2 }, num(9), ExprItem::Binary(BinaryOperator::And)];
    assert_eq!(eval_expression(items), Ok(Some(Variable::Integer(1))));
    let items = vec![num(0), ExprItem::JumpIf { when: false, skip: 5 }];
    assert_eq!(eval_expression(items), Err(sieve::runtime::RuntimeError::InvalidBytecode));
}

fn use_items_float() {
    let items = vec![num(1), num(2), ExprItem::Binary(BinaryOperator::Divide)];
    assert_eq!(eval_expression(items), Ok(None));
}

#[test]
fn deleteheader_targets() {
    let protected = vec![HeaderName { id: 11, name: "Received".to_string() }];
    let h = plan_deleteheader("X-Spam", &protected).unwrap();
    assert_eq!((h.id, h.name.as_str()), (37, "X-Spam"));
    assert_eq!(plan_deleteheader("received", &protected), None);
    assert_eq!(plan_deleteheader("bad name", &protected), None);
    assert_eq!(plan_deleteheader("Subject", &protected).map(|h| h.id), Some(0));
}
