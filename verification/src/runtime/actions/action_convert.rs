//! The `convert` action (RFC 6558): which conversion two media types ask
//! for, and what it makes of the body of one part.

use crate::runtime::actions::action_flags::{eq_ignore_ascii_case, str_eq_ignore_ascii_case};
use vstd::prelude::*;
use vstd::string::StringSliceAdditionalSpecFns;
use vstd::utf8::encode_utf8;

verus! {

/// A conversion between the bodies of parts.
#[derive(Debug, Clone, Copy, PartialEq, Eq, Structural)]
pub enum Conversion {
    /// Text of any subtype to HTML.
    TextToHtml,
    /// Plain text to HTML.
    TextPlainToHtml,
    /// HTML to plain text.
    HtmlToText,
}

/// The conversion from the media type `from` to `to`: none when they are
/// the same (ASCII case aside); text (`text`, or any `text/` type) to
/// `text/html`; `text/html` to `text/plain`; none otherwise.
pub open spec fn conversion_of(from: Seq<char>, to: Seq<char>) -> Option<Conversion> {
    if eq_ignore_ascii_case(from, to) {
        None
    } else if (eq_ignore_ascii_case(from, "text"@) || (from.len() >= 5 && from.take(5) == "text/"@)) && eq_ignore_ascii_case(
        to,
        "text/html"@,
    ) {
        if eq_ignore_ascii_case(from, "text"@) {
            Some(Conversion::TextPlainToHtml)
        } else {
            Some(Conversion::TextToHtml)
        }
    } else if eq_ignore_ascii_case(from, "text/html"@) && eq_ignore_ascii_case(to, "text/plain"@) {
        Some(Conversion::HtmlToText)
    } else {
        None
    }
}

fn starts_with_text_slash(s: &str) -> (r: bool)
    ensures
        r == (s@.len() >= 5 && s@.take(5) == "text/"@),
{
    proof {
        reveal_strlit("text/");
    }
    let c = crate::text::str_chars(s);
    if c.len() < 5 {
        return false;
    }
    let r = c[0] == 't' && c[1] == 'e' && c[2] == 'x' && c[3] == 't' && c[4] == '/';
    proof {
        let p = "text/"@;
        assert(p == seq!['t', 'e', 'x', 't', '/']);
        if r {
            assert(s@.take(5) =~= p);
        } else {
            if s@.take(5) == p {
                assert(s@.take(5)[0] == p[0] && s@.take(5)[1] == p[1] && s@.take(5)[2] == p[2]);
                assert(s@.take(5)[3] == p[3] && s@.take(5)[4] == p[4]);
            }
        }
    }
    r
}

/// Picks the conversion between two media types (see `conversion_of`).
pub fn choose_conversion(from: &str, to: &str) -> (r: Option<Conversion>)
    ensures
        r == conversion_of(from@, to@),
{
    if str_eq_ignore_ascii_case(from, to) {
        return None;
    }
    let from_text = str_eq_ignore_ascii_case(from, "text");
    if (from_text || starts_with_text_slash(from)) && str_eq_ignore_ascii_case(to, "text/html") {
        if from_text {
            Some(Conversion::TextPlainToHtml)
        } else {
            Some(Conversion::TextToHtml)
        }
    } else if str_eq_ignore_ascii_case(from, "text/html") && str_eq_ignore_ascii_case(to, "text/plain") {
        Some(Conversion::HtmlToText)
    } else {
        None
    }
}

/// The bytes that `text_to_html` writes for the text bytes `s`: a line
/// feed becomes `<br/>`, `<` becomes `&lt;`, a carriage return is dropped.
pub open spec fn html_escaped(s: Seq<u8>) -> Seq<u8>
    decreases s.len(),
{
    if s.len() == 0 {
        seq![]
    } else {
        html_escaped(s.drop_last()) + if s.last() == 10 {
            encode_utf8("<br/>"@)
        } else if s.last() == 60 {
            encode_utf8("&lt;"@)
        } else if s.last() == 13 {
            seq![]
        } else {
            seq![s.last()]
        }
    }
}

/// `mail_parser::decoders::html::text_to_html`: the text in
/// `<html><body>` and `</body></html>`, escaped as `html_escaped` says.
#[verifier::external_body]
pub(crate) fn text_to_html(s: &str) -> (r: String)
    ensures
        encode_utf8(r@) == encode_utf8("<html><body>"@) + html_escaped(s.spec_bytes())
            + encode_utf8("</body></html>"@),
{
    mail_parser::decoders::html::text_to_html(s)
}

/// What `html_to_text` of the message parser makes of the HTML `s`.
pub uninterp spec fn html_text_of(s: Seq<char>) -> Seq<char>;

/// `mail_parser::decoders::html::html_to_text`: the text of an HTML
/// document (tags, comments, scripts and styles dropped, entities
/// decoded); its reading of HTML is named, not stated.
#[verifier::external_body]
pub(crate) fn html_to_text(s: &str) -> (r: String)
    ensures
        r@ == html_text_of(s@),
{
    mail_parser::decoders::html::html_to_text(s)
}

/// The body of a message part, as a conversion sees it.
pub enum PartBody {
    Text(String),
    Html(String),
    Other,
}

/// A part body as seen in contracts: whether it is text or HTML, and its
/// content.
pub open spec fn body_view(b: PartBody) -> Option<(bool, Seq<char>)> {
    match b {
        PartBody::Text(t) => Some((false, t@)),
        PartBody::Html(h) => Some((true, h@)),
        PartBody::Other => None,
    }
}

/// A converted part: its new body and the `Content-Type` it gets.
pub struct ConvertedPart {
    pub body: PartBody,
    pub content_type: &'static str,
}

/// Whether a conversion applies to a part with the body `body` and the
/// content subtype `subtype`: HTML for HTML to text, text for text to HTML,
/// and text of the subtype `plain` (ASCII case aside) for plain text to
/// HTML.
pub open spec fn converts(c: Conversion, body: Option<(bool, Seq<char>)>, subtype: Option<Seq<char>>) -> bool {
    match body {
        Some((is_html, _)) => match c {
            Conversion::HtmlToText => is_html,
            Conversion::TextToHtml => !is_html,
            Conversion::TextPlainToHtml => !is_html && match subtype {
                Some(st) => eq_ignore_ascii_case(st, "plain"@),
                None => false,
            },
        },
        None => false,
    }
}

pub open spec fn opt_str(o: Option<&str>) -> Option<Seq<char>> {
    match o {
        Some(s) => Some(s@),
        None => None,
    }
}

/// Converts the body of one part: nothing when the conversion does not
/// apply to it (see `converts`); otherwise the text of the HTML, or the
/// HTML of the text, with the content type that goes with it.
pub fn convert_part(c: Conversion, body: &PartBody, subtype: Option<&str>) -> (r: Option<ConvertedPart>)
    ensures
        r is Some <==> converts(c, body_view(*body), opt_str(subtype)),
        r matches Some(p) ==> match p.body {
            PartBody::Text(t) => c == Conversion::HtmlToText && t@ == html_text_of(body_view(*body).unwrap().1)
                && p.content_type@ == "text/plain; charset=utf8"@,
            PartBody::Html(h) => c != Conversion::HtmlToText && encode_utf8(h@) == encode_utf8(
                "<html><body>"@,
            ) + html_escaped(encode_utf8(body_view(*body).unwrap().1)) + encode_utf8(
                "</body></html>"@,
            ) && p.content_type@ == "text/html; charset=utf8"@,
            PartBody::Other => false,
        },
{
    match (body, c) {
        (PartBody::Html(h), Conversion::HtmlToText) => Some(
            ConvertedPart { body: PartBody::Text(html_to_text(h.as_str())), content_type: "text/plain; charset=utf8" },
        ),
        (PartBody::Text(t), Conversion::TextToHtml) => Some(
            ConvertedPart { body: PartBody::Html(text_to_html(t.as_str())), content_type: "text/html; charset=utf8" },
        ),
        (PartBody::Text(t), Conversion::TextPlainToHtml) => {
            let plain = match subtype {
                Some(st) => str_eq_ignore_ascii_case(st, "plain"),
                None => false,
            };
            if plain {
                Some(
                    ConvertedPart {
                        body: PartBody::Html(text_to_html(t.as_str())),
                        content_type: "text/html; charset=utf8",
                    },
                )
            } else {
                None
            }
        },
        _ => None,
    }
}

} // verus!
