use sieve::header::HeaderName;
use sieve::runtime::actions::action_convert::PartBody;
use sieve::runtime::actions::action_mime::{
    build_enclose_headers, build_replace_added_headers, enclose_top_headers, extract_text,
    generate_message_id, read_enclose_header, replace_added_headers, replace_keep_headers,
};

fn h(id: u8, name: &str, value: &str) -> (HeaderName, String) {
    (HeaderName { id, name: name.to_string() }, value.to_string())
}

fn shown(list: &[(HeaderName, String)]) -> Vec<(u8, String, String)> {
    list.iter().map(|(n, v)| (n.id, n.name.clone(), v.clone())).collect()
}

#[test]
fn replaced_message_headers() {
    let headers = vec![
        h(11, "Received", "from a"),
        h(0, "Subject", "Hello"),
        h(1, "From", "a@b.c"),
        h(21, "Content-Type", "text/plain"),
        h(2, "To", "me@x.y"),
        h(37, "X-Other", "z"),
    ];
    let kept = replace_keep_headers(&headers, true, false);
    assert_eq!(
        shown(&kept),
        vec![
            (11, "Received".to_string(), "from a".to_string()),
            (37, "Original-Subject".to_string(), "Hello".to_string()),
            (1, "From".to_string(), "a@b.c".to_string()),
            (2, "To".to_string(), "me@x.y".to_string()),
        ]
    );
    let added = replace_added_headers(&kept, false, None, Some("New"), "me@x.y", "DATE", "<id@x>", 100);
    assert_eq!(
        shown(&added),
        vec![
            (37, "Subject".to_string(), "New".to_string()),
            (37, "Date".to_string(), "DATE".to_string()),
            (37, "Message-ID".to_string(), "<id@x>".to_string()),
        ]
    );
    let kept = replace_keep_headers(&headers, false, true);
    assert_eq!(kept[2].0.name, "Original-From");
    let added = replace_added_headers(&kept, true, Some("x\r\ny"), Some(""), "me@x.y", "DATE", "<id@x>", 100);
    assert_eq!(shown(&added)[0], (37, "From".to_string(), "xy".to_string()));
    assert_eq!(added.len(), 3);
    let dated = vec![h(4, "Date", "then")];
    let added = replace_added_headers(&dated, false, None, None, "me@x.y", "DATE", "<id@x>", 100);
    assert_eq!(
        shown(&added),
        vec![
            (37, "From".to_string(), "me@x.y".to_string()),
            (37, "Message-ID".to_string(), "<id@x>".to_string()),
        ]
    );
}

#[test]
fn enclosing_message_headers() {
    let protected = vec![HeaderName { id: 37, name: "X-Secret".to_string() }];
    let (n, v, p) = read_enclose_header("  X-Tag :  some value ", &protected, 100).unwrap();
    assert_eq!((n.as_str(), v.as_str(), p.id), ("X-Tag", "some value", 37));
    assert!(read_enclose_header("X-Tag:   ", &protected, 100).is_none());
    assert!(read_enclose_header("no colon", &protected, 100).is_none());
    assert!(read_enclose_header("x-secret: 1", &protected, 100).is_none());
    assert!(read_enclose_header("bad name: 1", &protected, 100).is_none());
    let lines = vec!["from: Boss <b@x.y>".to_string(), "X-A: 1".to_string(), "junk".to_string()];
    let top = enclose_top_headers("BND", "Subj", &lines, &protected, 100, "me@x.y", "DATE", "<id@x>");
    assert_eq!(
        shown(&top),
        vec![
            (37, "Content-Type".to_string(), "multipart/mixed; boundary=\"BND\"".to_string()),
            (37, "Subject".to_string(), "Subj".to_string()),
            (37, "from".to_string(), "Boss <b@x.y>".to_string()),
            (37, "X-A".to_string(), "1".to_string()),
            (37, "Date".to_string(), "DATE".to_string()),
            (37, "Message-ID".to_string(), "<id@x>".to_string()),
        ]
    );
}

#[test]
fn extracted_texts() {
    assert_eq!(extract_text(&PartBody::Text("Hello world".to_string()), Some(5)), "Hello");
    assert_eq!(extract_text(&PartBody::Text("Héllo".to_string()), Some(2)), "Hé");
    assert_eq!(extract_text(&PartBody::Text("Hi".to_string()), Some(10)), "Hi");
    assert_eq!(extract_text(&PartBody::Text("Hi".to_string()), None), "Hi");
    assert_eq!(extract_text(&PartBody::Other, Some(3)), "");
    let t = extract_text(&PartBody::Html("<p>Hello there</p>".to_string()), Some(5));
    assert_eq!(t, "Hello");
}

#[test]
fn fresh_ids_and_dates() {
    let id = generate_message_id("mx.test");
    assert!(id.starts_with('<') && id.ends_with("@mx.test>"));
    let (boundary, top) = build_enclose_headers("S", &vec![], &vec![], 100, "me@x.y", 0, "mx.test");
    assert!(!boundary.is_empty());
    assert_eq!(top[0].1, format!("multipart/mixed; boundary=\"{}\"", boundary));
    assert_eq!(top[3].1, "Thu, 1 Jan 1970 00:00:00 +0000");
    assert!(top[4].1.ends_with("@mx.test>"));
    let added = build_replace_added_headers(&vec![], false, None, None, "me@x.y", 86400, "mx.test", 100);
    assert_eq!(added[1].1, "Fri, 2 Jan 1970 00:00:00 +0000");
    assert!(added[2].1.ends_with("@mx.test>"));
}
