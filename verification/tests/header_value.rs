use sieve::compiler::grammar::AddressPart;
use sieve::compiler::{ContentTypePart, HeaderPart, HeaderVariable};
use sieve::header::HeaderName;
use sieve::runtime::header_value::{
    address_part_text, eval_header, eval_header_part, AddrModel, ContentTypeModel, HeaderData, ValueModel,
};
use sieve::runtime::variable::Variable;

fn s(t: &str) -> Variable {
    Variable::String(t.to_string())
}

fn name(id: u8, t: &str) -> HeaderName {
    HeaderName { id, name: t.to_string() }
}

fn addr(n: Option<&str>, a: Option<&str>) -> AddrModel {
    AddrModel { name: n.map(|x| x.to_string()), address: a.map(|x| x.to_string()) }
}

fn header(id: u8, n: &str, value: ValueModel, field: u32, start: u32, end: u32) -> HeaderData {
    HeaderData { name: name(id, n), value, offset_field: field, offset_start: start, offset_end: end }
}

#[test]
fn address_parts_split_at_at_and_plus() {
    let a = Some("joe+tag@example.com".to_string());
    let n = Some("Joe".to_string());
    assert_eq!(address_part_text(AddressPart::Name, &n, &a), Some("Joe".to_string()));
    assert_eq!(address_part_text(AddressPart::All, &n, &a), a.clone());
    assert_eq!(address_part_text(AddressPart::LocalPart, &n, &a), Some("joe+tag".to_string()));
    assert_eq!(address_part_text(AddressPart::Domain, &n, &a), Some("example.com".to_string()));
    assert_eq!(address_part_text(AddressPart::User, &n, &a), Some("joe".to_string()));
    assert_eq!(address_part_text(AddressPart::Detail, &n, &a), Some("tag".to_string()));
    let plain = Some("joe@example.com".to_string());
    assert_eq!(address_part_text(AddressPart::Detail, &None, &plain), None);
    assert_eq!(address_part_text(AddressPart::User, &None, &plain), Some("joe".to_string()));
    assert_eq!(address_part_text(AddressPart::Domain, &None, &Some("nobody".to_string())), None);
}

#[test]
fn decoded_values_by_part_index() {
    let raw = Vec::new();
    let to = header(
        2,
        "To",
        ValueModel::Address(vec![addr(Some("A"), Some("a@x.y")), addr(None, Some("b@x.y"))]),
        0,
        0,
        0,
    );
    assert_eq!(eval_header_part(&to, &raw, &HeaderPart::Text, 0), vec![s("A <a@x.y>"), s("<b@x.y>")]);
    assert_eq!(eval_header_part(&to, &raw, &HeaderPart::Text, -1), vec![s("<b@x.y>")]);
    assert_eq!(eval_header_part(&to, &raw, &HeaderPart::Text, 3), vec![s("")]);
    assert_eq!(eval_header_part(&to, &raw, &HeaderPart::Address(AddressPart::Domain), 1), vec![s("x.y")]);
    assert_eq!(eval_header_part(&to, &raw, &HeaderPart::Exists, 0), vec![Variable::Integer(1)]);
    let subject = header(0, "Subject", ValueModel::Text("hi".to_string()), 0, 0, 0);
    assert_eq!(eval_header_part(&subject, &raw, &HeaderPart::Text, 1), vec![s("hi")]);
    assert_eq!(eval_header_part(&subject, &raw, &HeaderPart::Text, 2), vec![s("")]);
    let ct = header(
        21,
        "Content-Type",
        ValueModel::ContentType(ContentTypeModel {
            c_type: "text".to_string(),
            c_subtype: Some("plain".to_string()),
            attributes: vec![("charset".to_string(), "utf-8".to_string())],
        }),
        0,
        0,
        0,
    );
    assert_eq!(eval_header_part(&ct, &raw, &HeaderPart::Text, 0), vec![s("text/plain")]);
    assert_eq!(
        eval_header_part(&ct, &raw, &HeaderPart::ContentType(ContentTypePart::Attribute("CHARSET".to_string())), 0),
        vec![s("utf-8")]
    );
    assert_eq!(eval_header_part(&ct, &raw, &HeaderPart::ContentType(ContentTypePart::Subtype), 0), vec![s("plain")]);
}

#[test]
fn raw_values_go_through_the_parsers() {
    let raw = b"X-Addr: Joe <joe+x@a.b>, c@d.e\r\nX-Id: <id1@h> <id2@h>\r\nX-Date: Tue, 1 Jul 2003 10:52:37 +0000\r\n".to_vec();
    let text = |id: u8, n: &str, field: u32, start: u32, end: u32| {
        header(id, n, ValueModel::Text(String::new()), field, start, end)
    };
    let xa = text(37, "X-Addr", 0, 7, 32);
    assert_eq!(
        eval_header_part(&xa, &raw, &HeaderPart::Address(AddressPart::All), 0),
        vec![s("joe+x@a.b"), s("c@d.e")]
    );
    assert_eq!(eval_header_part(&xa, &raw, &HeaderPart::Address(AddressPart::Detail), 1), vec![s("x")]);
    assert_eq!(eval_header_part(&xa, &raw, &HeaderPart::RawName, 0), vec![s("X-Addr")]);
    assert_eq!(eval_header_part(&xa, &raw, &HeaderPart::Raw, 0), vec![s(" Joe <joe+x@a.b>, c@d.e")]);
    let xi = text(37, "X-Id", 32, 37, 55);
    assert_eq!(eval_header_part(&xi, &raw, &HeaderPart::Id, 0), vec![s("id1@h"), s("id2@h")]);
    let xd = text(37, "X-Date", 55, 62, 95);
    assert_eq!(eval_header_part(&xd, &raw, &HeaderPart::Date, 0), vec![Variable::Integer(1057056757)]);
}

#[test]
fn header_variable_collects_and_shapes() {
    let raw = Vec::new();
    let hs = vec![
        header(11, "Received", ValueModel::Text("one".to_string()), 0, 0, 0),
        header(0, "Subject", ValueModel::Text("s".to_string()), 0, 0, 0),
        header(11, "Received", ValueModel::Text("two".to_string()), 0, 0, 0),
    ];
    let var = |index_hdr: i32, index_part: i32| HeaderVariable {
        name: vec![name(11, "Received")],
        part: HeaderPart::Text,
        index_hdr,
        index_part,
    };
    assert_eq!(eval_header(&hs, &raw, &var(0, 0)), Some(Variable::Array(vec![s("one"), s("two")])));
    assert_eq!(eval_header(&hs, &raw, &var(-1, 1)), Some(s("two")));
    assert_eq!(eval_header(&hs, &raw, &var(2, 0)), Some(Variable::Array(vec![s("two")])));
    assert_eq!(eval_header(&hs, &raw, &var(5, 1)), None);
    let all = HeaderVariable { name: vec![], part: HeaderPart::Text, index_hdr: 0, index_part: 0 };
    assert_eq!(
        eval_header(&hs, &raw, &all),
        Some(Variable::Array(vec![s("Received: one"), s("Subject: s"), s("Received: two")]))
    );
}
