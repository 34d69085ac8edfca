use sieve::header::HeaderName;
use sieve::runtime::eval::{body_text, BodySource, PartContent};
use sieve::runtime::header_select::{delete_positions, header_length, insert_header, select_headers};
use sieve::runtime::message::{build_message, enclose_message, try_build_message, RunningMessage, BodyModel, HeaderModel, MessageModel, PartModel};

fn name(id: u8, text: &str) -> HeaderName {
    HeaderName { id, name: text.to_string() }
}

fn raw_header(id: u8, text: &str, field: u32, start: u32, end: u32) -> HeaderModel {
    HeaderModel { name: name(id, text), text: None, offset_field: field, offset_start: start, offset_end: end }
}

fn added_header(id: u8, text: &str, value: &str) -> HeaderModel {
    HeaderModel {
        name: name(id, text),
        text: Some(value.to_string()),
        offset_field: 0,
        offset_start: 0,
        offset_end: 0,
    }
}

fn simple_raw() -> Vec<u8> {
    b"Subject: hi\r\n\r\nbody".to_vec()
}

#[test]
fn unchanged_message_is_copied() {
    let raw = simple_raw();
    let msg = MessageModel {
        parts: vec![PartModel {
            headers: vec![raw_header(0, "Subject", 0, 8, 13)],
            body: BodyModel::Contents(b"body".to_vec()),
            encoded: false,
            offset_header: 0,
            offset_body: 15,
            offset_end: 19,
        }],
        raw: raw.clone(),
    };
    assert_eq!(build_message(&msg), raw);
}

#[test]
fn checked_build_refuses_offsets_outside_the_message() {
    let raw = simple_raw();
    let part = |end: u32, header_end: u32| PartModel {
        headers: vec![raw_header(0, "Subject", 0, 8, header_end)],
        body: BodyModel::Contents(b"body".to_vec()),
        encoded: false,
        offset_header: 0,
        offset_body: 15,
        offset_end: end,
    };
    let ok = MessageModel { parts: vec![part(19, 13)], raw: raw.clone() };
    assert_eq!(try_build_message(&ok), Some(raw.clone()));
    let long_body = MessageModel { parts: vec![part(40, 13)], raw: raw.clone() };
    assert_eq!(try_build_message(&long_body), None);
    let long_header = MessageModel { parts: vec![part(19, 30)], raw: raw.clone() };
    assert_eq!(try_build_message(&long_header), None);
    let nested_in_itself = MessageModel {
        parts: vec![PartModel {
            headers: vec![],
            body: BodyModel::Multipart(vec![0]),
            encoded: false,
            offset_header: 0,
            offset_body: 0,
            offset_end: 0,
        }],
        raw,
    };
    assert_eq!(try_build_message(&nested_in_itself), None);
}

#[test]
fn added_header_is_written_out() {
    let msg = MessageModel {
        parts: vec![PartModel {
            headers: vec![added_header(37, "X-Test", "yes"), raw_header(0, "Subject", 0, 8, 13)],
            body: BodyModel::Contents(b"body".to_vec()),
            encoded: false,
            offset_header: 0,
            offset_body: 15,
            offset_end: 19,
        }],
        raw: simple_raw(),
    };
    assert_eq!(build_message(&msg), b"X-Test: yes\r\nSubject: hi\r\n\r\nbody".to_vec());
}

#[test]
fn renamed_header_keeps_its_value() {
    let msg = MessageModel {
        parts: vec![PartModel {
            headers: vec![raw_header(37, "Topic", 8, 8, 13)],
            body: BodyModel::Contents(b"body".to_vec()),
            encoded: false,
            offset_header: 0,
            offset_body: 15,
            offset_end: 19,
        }],
        raw: simple_raw(),
    };
    assert_eq!(build_message(&msg), b"Topic: hi\r\n\r\nbody".to_vec());
}

#[test]
fn replaced_body_is_written_from_contents() {
    let msg = MessageModel {
        parts: vec![PartModel {
            headers: vec![added_header(0, "Subject", "new")],
            body: BodyModel::Contents(b"other".to_vec()),
            encoded: true,
            offset_header: 0,
            offset_body: 0,
            offset_end: 0,
        }],
        raw: simple_raw(),
    };
    assert_eq!(build_message(&msg), b"Subject: new\r\n\r\nother".to_vec());
}

fn text_part(body: &str) -> PartModel {
    PartModel {
        headers: vec![added_header(21, "Content-Type", "text/plain")],
        body: BodyModel::Contents(body.as_bytes().to_vec()),
        encoded: true,
        offset_header: 0,
        offset_body: 0,
        offset_end: 0,
    }
}

#[test]
fn new_multipart_gets_boundaries() {
    let msg = MessageModel {
        parts: vec![
            PartModel {
                headers: vec![added_header(37, "Content-Type", "multipart/mixed; boundary=\"xyz\"")],
                body: BodyModel::Multipart(vec![1, 2]),
                encoded: false,
                offset_header: 0,
                offset_body: 0,
                offset_end: 0,
            },
            text_part("one"),
            text_part("two"),
        ],
        raw: Vec::new(),
    };
    let expected = "Content-Type: multipart/mixed; boundary=\"xyz\"\r\n\
                    \r\n--xyz\r\nContent-Type: text/plain\r\n\r\none\
                    \r\n--xyz\r\nContent-Type: text/plain\r\n\r\ntwo\
                    \r\n--xyz--\r\n";
    assert_eq!(String::from_utf8(build_message(&msg)).unwrap(), expected);
}

#[test]
fn multipart_without_boundary_uses_placeholder() {
    let msg = MessageModel {
        parts: vec![
            PartModel {
                headers: vec![],
                body: BodyModel::Multipart(vec![1, 9]),
                encoded: false,
                offset_header: 0,
                offset_body: 0,
                offset_end: 0,
            },
            text_part("one"),
        ],
        raw: Vec::new(),
    };
    let expected = "\r\n--invalid-boundary\r\nContent-Type: text/plain\r\n\r\none\
                    \r\n--invalid-boundary--\r\n";
    assert_eq!(String::from_utf8(build_message(&msg)).unwrap(), expected);
}

#[test]
fn raw_multipart_is_copied_around_its_parts() {
    let raw = b"Content-Type: multipart/mixed; boundary=b\r\n\r\n--b\r\nX: 1\r\n\r\nA\r\n--b--\r\n".to_vec();
    let msg = MessageModel {
        parts: vec![
            PartModel {
                headers: vec![raw_header(21, "Content-Type", 0, 13, 43)],
                body: BodyModel::Multipart(vec![1]),
                encoded: false,
                offset_header: 0,
                offset_body: 45,
                offset_end: raw.len() as u32,
            },
            PartModel {
                headers: vec![added_header(37, "Y", "2"), raw_header(37, "X", 50, 52, 56)],
                body: BodyModel::Contents(b"A".to_vec()),
                encoded: false,
                offset_header: 50,
                offset_body: 58,
                offset_end: 59,
            },
        ],
        raw: raw.clone(),
    };
    let expected =
        b"Content-Type: multipart/mixed; boundary=b\r\n\r\n--b\r\nY: 2\r\nX: 1\r\n\r\nA\r\n--b--\r\n".to_vec();
    assert_eq!(build_message(&msg), expected);
}

#[test]
fn nested_message_is_written_inside_its_part() {
    let inner = MessageModel {
        parts: vec![PartModel {
            headers: vec![added_header(0, "Subject", "inner")],
            body: BodyModel::Contents(b"text".to_vec()),
            encoded: true,
            offset_header: 0,
            offset_body: 0,
            offset_end: 0,
        }],
        raw: Vec::new(),
    };
    let msg = MessageModel {
        parts: vec![PartModel {
            headers: vec![added_header(21, "Content-Type", "message/rfc822")],
            body: BodyModel::Message(Box::new(inner)),
            encoded: true,
            offset_header: 0,
            offset_body: 0,
            offset_end: 0,
        }],
        raw: Vec::new(),
    };
    let expected = "Content-Type: message/rfc822\r\n\r\nSubject: inner\r\n\r\ntext";
    assert_eq!(String::from_utf8(build_message(&msg)).unwrap(), expected);
}

fn headers_for_lookup() -> Vec<HeaderModel> {
    vec![
        added_header(11, "Received", "a"),
        added_header(0, "Subject", "s"),
        added_header(11, "Received", "b"),
        added_header(37, "X-Spam", "yes"),
        added_header(11, "Received", "c"),
    ]
}

#[test]
fn header_lookup_by_name_and_index() {
    let hs = headers_for_lookup();
    let received = vec![name(11, "Received")];
    assert_eq!(select_headers(&hs, &received, 0), vec![0, 2, 4]);
    assert_eq!(select_headers(&hs, &received, 2), vec![2]);
    assert_eq!(select_headers(&hs, &received, -1), vec![4]);
    assert_eq!(select_headers(&hs, &received, -3), vec![0]);
    assert_eq!(select_headers(&hs, &received, 4), Vec::<usize>::new());
    assert_eq!(select_headers(&hs, &received, -4), Vec::<usize>::new());
    assert_eq!(select_headers(&hs, &received, i32::MIN), Vec::<usize>::new());
    let spam = vec![name(37, "x-SPAM"), name(0, "Subject")];
    assert_eq!(select_headers(&hs, &spam, 0), vec![1, 3]);
    assert_eq!(select_headers(&hs, &vec![name(37, "Subject")], 0), Vec::<usize>::new());
}

#[test]
fn header_lengths() {
    assert_eq!(header_length(&raw_header(0, "Subject", 0, 8, 13)), 13);
    assert_eq!(header_length(&added_header(37, "X-Test", "yes")), 13);
    let mut empty = added_header(37, "X-Test", "");
    empty.text = None;
    assert_eq!(header_length(&empty), 10);
}

#[test]
fn deleting_positions_keeps_the_rest() {
    let mut v = vec!['a', 'b', 'c', 'd', 'e'];
    delete_positions(&mut v, &vec![0, 2, 3]);
    assert_eq!(v, vec!['b', 'e']);
    let mut w = vec![1, 2, 3];
    delete_positions(&mut w, &vec![]);
    assert_eq!(w, vec![1, 2, 3]);
}

fn body_parts() -> Vec<BodySource> {
    vec![
        BodySource { content: PartContent::Other, offset_body: 0, offset_end: 0 },
        BodySource { content: PartContent::Text("a<b\nc".to_string()), offset_body: 5, offset_end: 9 },
        BodySource { content: PartContent::Html("<html>hello<br/>world<br/></html>".to_string()), offset_body: 0, offset_end: 0 },
        BodySource { content: PartContent::Binary(vec![104, 0xff, 105]), offset_body: 8, offset_end: 4 },
    ]
}

#[test]
fn body_variables_read_parts() {
    let parts = body_parts();
    let raw = b"xxx\r\nraw\xffbody".to_vec();
    let text = vec![1u32];
    let html = vec![2u32];
    assert_eq!(body_text(0, false, &parts, &text, &html, 0, &raw), Some("a<b\nc".to_string()));
    assert_eq!(body_text(1, false, &parts, &text, &html, 0, &raw), Some("<html>hello<br/>world<br/></html>".to_string()));
    assert_eq!(body_text(0, false, &parts, &html, &html, 0, &raw), None);
    assert_eq!(body_text(0, true, &parts, &html, &html, 0, &raw), Some("hello\nworld\n".to_string()));
    assert_eq!(
        body_text(1, true, &parts, &text, &text, 0, &raw),
        Some("<html><body>a&lt;b<br/>c</body></html>".to_string())
    );
    assert_eq!(body_text(1, false, &parts, &text, &text, 0, &raw), None);
    assert_eq!(body_text(0, true, &parts, &vec![], &html, 0, &raw), None);
    assert_eq!(body_text(0, true, &parts, &vec![9], &html, 0, &raw), None);
    assert_eq!(body_text(2, false, &parts, &text, &html, 3, &raw), Some("h\u{fffd}i".to_string()));
    assert_eq!(body_text(2, false, &parts, &text, &html, 0, &raw), None);
    assert_eq!(body_text(2, false, &parts, &text, &html, 7, &raw), None);
    assert_eq!(body_text(3, false, &parts, &text, &html, 1, &raw), Some("raw\u{fffd}".to_string()));
    assert_eq!(body_text(3, false, &parts, &text, &html, 3, &raw), None);
}

#[test]
fn inserted_header_goes_first_or_last_and_deletes_back() {
    let original = headers_for_lookup();
    let mut hs = original.clone();
    assert_eq!(insert_header(&mut hs, name(37, "X-New"), "v".to_string(), false), 10);
    assert_eq!(hs[0].name.name, "X-New");
    assert_eq!(hs[0].text, Some("v".to_string()));
    assert_eq!(hs.len(), 6);
    delete_positions(&mut hs, &vec![0]);
    assert_eq!(hs, original);
    assert_eq!(insert_header(&mut hs, name(0, "Subject"), "later".to_string(), true), 16);
    assert_eq!(hs[5].name.name, "Subject");
    delete_positions(&mut hs, &vec![5]);
    assert_eq!(hs, original);
}

#[test]
fn enclosed_message_is_written_as_a_multipart() {
    let inner = MessageModel {
        parts: vec![PartModel {
            headers: vec![raw_header(0, "Subject", 0, 8, 13)],
            body: BodyModel::Contents(b"body".to_vec()),
            encoded: false,
            offset_header: 0,
            offset_body: 15,
            offset_end: 19,
        }],
        raw: simple_raw(),
    };
    let top = vec![
        (name(37, "Content-Type"), "multipart/mixed; boundary=\"b1\"".to_string()),
        (name(37, "Subject"), "Wrapped".to_string()),
    ];
    let msg = enclose_message(inner, b"note".to_vec(), top);
    let expected = "Content-Type: multipart/mixed; boundary=\"b1\"\r\nSubject: Wrapped\r\n\
                    \r\n--b1\r\nContent-Type: text/plain; charset=utf-8\r\n\r\nnote\
                    \r\n--b1\r\nContent-Type: message/rfc822\r\n\r\nSubject: hi\r\n\r\nbody\
                    \r\n--b1--\r\n";
    assert_eq!(String::from_utf8(build_message(&msg)).unwrap(), expected);
}

#[test]
fn enclose_replaces_the_running_message() {
    let raw = simple_raw();
    let msg = MessageModel {
        parts: vec![PartModel {
            headers: vec![raw_header(0, "Subject", 0, 8, 13)],
            body: BodyModel::Contents(b"body".to_vec()),
            encoded: false,
            offset_header: 0,
            offset_body: 15,
            offset_end: 19,
        }],
        raw: raw.clone(),
    };
    let mut running = RunningMessage { message: msg, part: 4, size: 19 };
    let mut d = sieve::runtime::disposition::Disposition::new();
    assert!(!d.has_changes);
    running.enclose(&mut d, b"see below".to_vec(), vec![(name(37, "Subject"), "fwd".to_string())], 10);
    assert!(d.has_changes);
    assert_eq!(running.part, 0);
    assert_eq!(running.size, 19 + 16 * 3 + 9 + 2);
    assert_eq!(running.message.parts.len(), 3);
    assert!(running.message.raw.is_empty());
    match &running.message.parts[2].body {
        BodyModel::Message(inner) => assert_eq!(inner.raw, raw),
        _ => panic!("the enclosed message is the third part"),
    }
}
