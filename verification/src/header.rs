//! Header field names, as the message parser resolves them.

use vstd::prelude::*;

verus! {

/// The number the message parser gives to a header name it does not know.
pub const OTHER_HEADER_ID: u8 = 37;

/// A header field name: the number of a known name (with its canonical
/// spelling), or `OTHER_HEADER_ID` with the spelling as written.
#[derive(Debug, Clone, PartialEq, Eq)]
pub struct HeaderName {
    pub id: u8,
    pub name: String,
}

impl View for HeaderName {
    type V = (u8, Seq<char>);

    open spec fn view(&self) -> (u8, Seq<char>) {
        (self.id, self.name@)
    }
}

/// A character that a header name may hold: ASCII letters and digits, `-`
/// and `_`.
pub open spec fn is_header_name_char(c: char) -> bool {
    ('A' <= c && c <= 'Z') || ('a' <= c && c <= 'z') || ('0' <= c && c <= '9') || c == '-'
        || c == '_'
}

/// A name that the message parser accepts as a header name: not empty, and
/// made of header-name characters only.
pub open spec fn is_header_name(name: Seq<char>) -> bool {
    name.len() > 0 && forall|i: int| 0 <= i < name.len() ==> is_header_name_char(#[trigger] name[i])
}

/// What `HeaderName::parse` of the message parser resolves a valid name to:
/// the number of the known name and its canonical spelling, or the number of
/// an unknown name with the spelling given.
pub uninterp spec fn header_name_parse(name: Seq<char>) -> (u8, Seq<char>);

/// `mail_parser::HeaderName::parse`: no name for an empty name or one with
/// a character outside `[A-Za-z0-9_-]`; otherwise the name that its table of
/// known (lowercased) names gives, and for a name the table does not hold the
/// name as written under `OTHER_HEADER_ID`. The table itself is named, not
/// stated.
#[verifier::external_body]
pub(crate) fn parse_header_name(name: &str) -> (r: Option<HeaderName>)
    ensures
        r is Some <==> is_header_name(name@),
        r matches Some(h) ==> h@ == header_name_parse(name@),
        r matches Some(h) ==> (h.id == OTHER_HEADER_ID ==> h.name@ == name@),
{
    match mail_parser::HeaderName::parse(name.to_string()) {
        Some(h) => Some(HeaderName { id: h.id(), name: h.into_string() }),
        None => None,
    }
}

impl HeaderName {
    /// A header name that the parser does not know, spelled `name`.
    pub fn other(name: String) -> (r: HeaderName)
        ensures
            r@ == (OTHER_HEADER_ID, name@),
    {
        HeaderName { id: OTHER_HEADER_ID, name }
    }
}

} // verus!
