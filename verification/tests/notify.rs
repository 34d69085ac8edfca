use sieve::runtime::actions::action_notify::{
    lookup_importance, lookup_importance_headers, parse_mailto, parse_uri, validate_from,
    validate_uri,
};
use sieve::Importance;

#[test]
fn from_addresses() {
    assert!(validate_from("jdoe@example.com"));
    assert!(validate_from("John Doe <jdoe@example.com>"));
    assert!(validate_from("\"Doe, J. @ home\" <jdoe@example.com>"));
    assert!(!validate_from("jdoe@example"));
    assert!(!validate_from("@example.com"));
    assert!(!validate_from("a@b@c.com"));
    assert!(!validate_from("<a@b.com"));
    assert!(!validate_from("a@b.com>"));
    assert!(!validate_from("<<a@b.com>>"));
    assert!(!validate_from(""));
}

#[test]
fn uri_parts() {
    assert_eq!(parse_uri("mailto:a@b.c"), Some(("mailto", "a@b.c")));
    assert_eq!(parse_uri("tel:+1:2"), Some(("tel", "+1:2")));
    assert_eq!(parse_uri("mailto:"), None);
    assert_eq!(parse_uri("mailto"), None);
}

#[test]
fn mailto_addresses_and_parameters() {
    let m = parse_mailto("a@b.com,c@d.com?cc=e@f.com&subject=Hi%20there&body=Hello").unwrap();
    assert_eq!(m.to, vec!["a@b.com".to_string(), "c@d.com".to_string()]);
    assert_eq!(m.cc, vec!["e@f.com".to_string()]);
    assert!(m.bcc.is_empty());
    assert_eq!(m.body, Some("Hello".to_string()));
    assert_eq!(m.headers.len(), 1);
    assert_eq!(m.headers[0].0.id, 0);
    assert_eq!(m.headers[0].1, "Hi there");
}

#[test]
fn mailto_lists_each_address_once() {
    let m = parse_mailto("a@b.com,A@B.COM?cc=a@b.com&bcc=x@y.z").unwrap();
    assert_eq!(m.to, vec!["a@b.com".to_string()]);
    assert!(m.cc.is_empty());
    assert_eq!(m.bcc, vec!["x@y.z".to_string()]);
}

#[test]
fn mailto_rejections() {
    assert!(parse_mailto("").is_none());
    assert!(parse_mailto("?subject=x").is_none());
    assert!(parse_mailto("ab.com").is_none());
    assert!(parse_mailto("a@b@c").is_none());
    assert!(parse_mailto("a@b.c%2").is_none());
    assert!(parse_mailto("a@b.c%zz").is_none());
    assert!(parse_mailto("a@b.c?sub ject=x").is_none());
    assert!(parse_mailto("a@b.c%2Cd@e.f").is_some());
    assert_eq!(parse_mailto("a@b.c%2Cd@e.f").unwrap().to.len(), 2);
}

#[test]
fn notification_uris() {
    assert_eq!(validate_uri("mailto:a@b.com"), Some("mailto"));
    assert_eq!(validate_uri("MAILTO:a@b.com"), Some("MAILTO"));
    assert_eq!(validate_uri("mailto:ab.com"), None);
    assert_eq!(validate_uri("xmpp:a@b.c"), Some("xmpp"));
    assert_eq!(validate_uri("https://x"), Some("https"));
    assert_eq!(validate_uri("HTTP://x"), None);
    assert_eq!(validate_uri("ftp://x"), None);
}

#[test]
fn importance_values() {
    assert_eq!(lookup_importance("1"), Some(Importance::High));
    assert_eq!(lookup_importance("3"), Some(Importance::Low));
    assert_eq!(lookup_importance("2"), None);
    assert_eq!(lookup_importance_headers("1"), Some(("High", "1 (High)")));
    assert_eq!(lookup_importance_headers("3"), Some(("Low", "5 (Low)")));
    assert_eq!(lookup_importance_headers("5"), None);
}

use sieve::header::HeaderName;
use sieve::runtime::actions::action_notify::{
    auto_submitted, build_notify_message, escape_full_name, notify_from, notify_importance_headers,
    notify_message_bytes, notify_recipient, plan_notify, user_from_field, MailtoMessage,
};

fn text(b: &[u8]) -> String {
    String::from_utf8(b.to_vec()).unwrap()
}

#[test]
fn notification_message_layout() {
    let params = MailtoMessage {
        to: vec!["a@b.c".to_string(), "Jo <j@k.l>".to_string()],
        cc: vec!["c@d.e".to_string()],
        bcc: vec!["hidden@x.y".to_string()],
        body: None,
        headers: vec![
            (HeaderName { id: 0, name: "Subject".to_string() }, "First".to_string()),
            (HeaderName { id: 37, name: "X-Tag".to_string() }, "v".to_string()),
            (HeaderName { id: 0, name: "Subject".to_string() }, "Last".to_string()),
            (HeaderName { id: 1, name: "From".to_string() }, "evil@x.y".to_string()),
        ],
    };
    let m = notify_message_bytes(
        &params,
        "me@here.org",
        Some("Notice"),
        ("High", "1 (High)"),
        Some("Original"),
        "Thu, 1 Jan 1970 00:00:00 +0000",
        b"<id@host>",
    );
    assert_eq!(
        text(&m),
        "From: me@here.org\r\n\
         To: <a@b.c>, Jo <j@k.l>\r\n\
         Cc: <c@d.e>\r\n\
         X-Tag: v\r\n\
         Date: Thu, 1 Jan 1970 00:00:00 +0000\r\n\
         Message-ID: <id@host>\r\n\
         Importance: High\r\n\
         X-Priority: 1 (High)\r\n\
         Subject: Last\r\n\
         Auto-Submitted: auto-notified\r\n\
         X-Sieve: yes\r\n\
         Content-type: text/plain; charset=utf-8\r\n\r\n\
         Notice"
    );
}

#[test]
fn notification_message_fallbacks() {
    let params = MailtoMessage {
        to: vec!["a@b.c".to_string()],
        cc: vec![],
        bcc: vec![],
        body: Some("Body".to_string()),
        headers: vec![
            (HeaderName { id: 4, name: "Date".to_string() }, "then".to_string()),
            (HeaderName { id: 12, name: "Message-ID".to_string() }, "<x@y>".to_string()),
        ],
    };
    let m = notify_message_bytes(&params, "f", None, ("Normal", "3 (Normal)"), Some("Orig"), "D", b"<i@h>");
    let t = text(&m);
    assert!(t.starts_with("From: f\r\nTo: <a@b.c>\r\nDate: then\r\nMessage-ID: <x@y>\r\nImportance: Normal\r\n"));
    assert!(t.contains("Subject: Orig\r\n"));
    assert!(t.ends_with("\r\n\r\nBody"));
    let long = "x".repeat(300);
    let m = notify_message_bytes(&params, "f", Some(&long), ("Normal", "3 (Normal)"), None, "D", b"<i@h>");
    let t = text(&m);
    assert!(t.contains(&format!("Subject: {}\u{2026}\r\n", "x".repeat(256))));
}

#[test]
fn built_notification_has_date_and_id() {
    let params = MailtoMessage {
        to: vec!["a@b.c".to_string()],
        cc: vec![],
        bcc: vec![],
        body: None,
        headers: vec![],
    };
    let m = build_notify_message(&params, "f", Some("n"), ("Normal", "3 (Normal)"), None, 0, "mx.example.org");
    let t = text(&m);
    assert!(t.contains("\r\nDate: Thu, 1 Jan 1970 00:00:00 +0000\r\n"));
    let id_line = t.lines().find(|l| l.starts_with("Message-ID: <")).unwrap();
    assert!(id_line.ends_with("@mx.example.org>"));
}

#[test]
fn notification_sender_and_recipients() {
    assert_eq!(user_from_field("Jane", "j@x.y"), "\"Jane\" <j@x.y>");
    assert_eq!(user_from_field("", "j@x.y"), "j@x.y");
    assert_eq!(notify_from(Some("Boss <J@X.Y>"), "j@x.y", "Jane"), "Boss <J@X.Y>");
    assert_eq!(notify_from(Some("other@x.y"), "j@x.y", "Jane"), "\"Jane\" <j@x.y>");
    assert_eq!(notify_from(None, "j@x.y", ""), "j@x.y");
    assert_eq!(notify_recipient("Jo <j@k.l>"), "j@k.l");
    assert_eq!(notify_recipient("a <b> <c@d>"), "c@d");
    assert_eq!(notify_recipient("plain@x.y"), "plain@x.y");
    assert_eq!(notify_recipient("broken <x"), "broken <x");
}

#[test]
fn auto_submitted_messages() {
    let h = |n: &str, v: Option<&str>| (n.to_string(), v.map(|s| s.to_string()));
    assert!(!auto_submitted(&vec![h("Subject", Some("x"))]));
    assert!(!auto_submitted(&vec![h("auto-submitted", Some("No"))]));
    assert!(auto_submitted(&vec![h("Auto-Submitted", Some("auto-replied"))]));
    assert!(auto_submitted(&vec![h("AUTO-SUBMITTED", None)]));
}

#[test]
fn notification_importance() {
    assert_eq!(notify_importance_headers(Some("1")), ("High", "1 (High)"));
    assert_eq!(notify_importance_headers(Some("3")), ("Low", "5 (Low)"));
    assert_eq!(notify_importance_headers(Some("2")), ("Normal", "3 (Normal)"));
    assert_eq!(notify_importance_headers(None), ("Normal", "3 (Normal)"));
}

#[test]
fn notify_decisions() {
    let plain: Vec<(String, Option<String>)> = vec![("Subject".to_string(), Some("Hi".to_string()))];
    let auto = vec![("Auto-Submitted".to_string(), Some("auto-generated".to_string()))];
    assert!(plan_notify(&auto, "mailto:a@b.c", false, 0, 3, None, None, None, "me@x.y", "", None, 0, "h").is_none());
    assert!(plan_notify(&plain, "nocolon", false, 0, 3, None, None, None, "me@x.y", "", None, 0, "h").is_none());
    assert!(plan_notify(&plain, "mailto:bad", false, 0, 3, None, None, None, "me@x.y", "", None, 0, "h").is_none());

    let p = plan_notify(
        &plain,
        "mailto:Jo <j@k.l>,x@y.z?cc=c@d.e",
        false,
        0,
        3,
        Some("other@x.y"),
        Some("1"),
        Some("Ping"),
        "me@x.y",
        "Me",
        Some("Orig"),
        0,
        "mx.test",
    )
    .unwrap();
    assert_eq!(p.recipients, Some(vec!["j@k.l".to_string(), "x@y.z".to_string(), "c@d.e".to_string()]));
    assert!(p.request.is_none());
    let m = String::from_utf8(p.message.unwrap()).unwrap();
    assert!(m.starts_with("From: \"Me\" <me@x.y>\r\nTo: Jo<j@k.l>, <x@y.z>\r\nCc: <c@d.e>\r\n"));
    assert!(m.contains("Importance: High\r\nX-Priority: 1 (High)\r\nSubject: Ping\r\n"));

    let p = plan_notify(&plain, "mailto:a@b.c", false, 3, 3, None, Some("3"), None, "me@x.y", "", Some("Orig"), 0, "h")
        .unwrap();
    assert!(p.message.is_none() && p.recipients.is_none());
    let q = p.request.unwrap();
    assert_eq!(q.method, "mailto:a@b.c");
    assert_eq!(q.message, "Orig");
    assert_eq!(q.importance, Importance::Low);
    assert!(q.from.is_none());

    let p = plan_notify(&plain, "xmpp:a@b.c", true, 0, 3, Some("f"), Some("9"), Some("T"), "me@x.y", "", None, 0, "h")
        .unwrap();
    assert!(p.message.is_some() && p.recipients.is_none());
    let q = p.request.unwrap();
    assert_eq!((q.from, q.importance, q.message), (Some("f".to_string()), Importance::Normal, "T".to_string()));
}

#[test]
fn full_name_is_escaped_for_quotes() {
    assert_eq!(escape_full_name("John \"JJ\" Doe"), "John \\\"JJ\\\" Doe");
    assert_eq!(escape_full_name("back\\slash"), "back\\\\slash");
    assert_eq!(escape_full_name("Plain"), "Plain");
    assert_eq!(user_from_field(&escape_full_name("A \"B\""), "a@b.c"), "\"A \\\"B\\\"\" <a@b.c>");
}
