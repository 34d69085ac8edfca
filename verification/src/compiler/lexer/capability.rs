//! The capabilities a script names in `require` (RFC 5228, section 3.2).

use crate::compiler::grammar::{Capability, CapabilityView, Comparator, ComparatorView};
use crate::compiler::lexer::string::substring;
use crate::text::{str_chars, str_eq, string_from_utf8, string_from_utf8_lossy, sub_bytes, utf8_lossy};
use vstd::prelude::*;
use vstd::utf8::{decode_utf8, valid_utf8};

verus! {

/// The capabilities that this library knows by name.
pub open spec fn known_capability(s: Seq<char>) -> Option<CapabilityView> {
    if s == "envelope"@ {
        Some(CapabilityView::Envelope)
    } else if s == "fileinto"@ {
        Some(CapabilityView::FileInto)
    } else if s == "encoded-character"@ {
        Some(CapabilityView::EncodedCharacter)
    } else if s == "comparator-elbonia"@ {
        Some(CapabilityView::Comparator(ComparatorView::Elbonia))
    } else if s == "comparator-i;octet"@ {
        Some(CapabilityView::Comparator(ComparatorView::Octet))
    } else if s == "comparator-i;ascii-casemap"@ {
        Some(CapabilityView::Comparator(ComparatorView::AsciiCaseMap))
    } else if s == "comparator-i;ascii-numeric"@ {
        Some(CapabilityView::Comparator(ComparatorView::AsciiNumeric))
    } else {
        None
    }
}

/// The capability a name stands for: a known one, a comparator
/// (`comparator-<name>`), or another capability kept by name (the decoded
/// text; invalid UTF-8 sequences replaced as `utf8_lossy` says).
pub open spec fn capability_of(bytes: Seq<u8>) -> CapabilityView {
    let known = if valid_utf8(bytes) {
        known_capability(decode_utf8(bytes))
    } else {
        None
    };
    match known {
        Some(c) => c,
        None => {
            let s = if valid_utf8(bytes) {
                decode_utf8(bytes)
            } else {
                utf8_lossy(bytes)
            };
            let p = "comparator-"@;
            if s.len() >= p.len() && s.subrange(0, p.len() as int) == p {
                CapabilityView::Comparator(ComparatorView::Other(s.subrange(p.len() as int, s.len() as int)))
            } else {
                CapabilityView::Other(s)
            }
        },
    }
}

fn known_capability_exec(s: &str) -> (r: Option<Capability>)
    ensures
        match known_capability(s@) {
            Some(c) => r matches Some(x) && x@ == c,
            None => r is None,
        },
{
    if str_eq(s, "envelope") {
        Some(Capability::Envelope)
    } else if str_eq(s, "fileinto") {
        Some(Capability::FileInto)
    } else if str_eq(s, "encoded-character") {
        Some(Capability::EncodedCharacter)
    } else if str_eq(s, "comparator-elbonia") {
        Some(Capability::Comparator(Comparator::Elbonia))
    } else if str_eq(s, "comparator-i;octet") {
        Some(Capability::Comparator(Comparator::Octet))
    } else if str_eq(s, "comparator-i;ascii-casemap") {
        Some(Capability::Comparator(Comparator::AsciiCaseMap))
    } else if str_eq(s, "comparator-i;ascii-numeric") {
        Some(Capability::Comparator(Comparator::AsciiNumeric))
    } else {
        None
    }
}

impl Capability {
    /// The capability named by `bytes`.
    pub fn parse(bytes: Vec<u8>) -> (r: Capability)
        ensures
            r@ == capability_of(bytes@),
    {
        let copy = sub_bytes(bytes.as_slice(), 0, bytes.len());
        assert(bytes@.subrange(0, bytes@.len() as int) =~= bytes@);
        let known = match string_from_utf8(copy) {
            Some(s) => known_capability_exec(s.as_str()),
            None => None,
        };
        match known {
            Some(c) => c,
            None => {
                let s = string_from_utf8_lossy(bytes.as_slice());
                let c = str_chars(s.as_str());
                let prefix = "comparator-";
                proof {
                    reveal_strlit("comparator-");
                }
                if c.len() >= 11 {
                    let head = substring(c.as_slice(), 0, 11);
                    if str_eq(head.as_str(), prefix) {
                        let rest = substring(c.as_slice(), 11, c.len());
                        return Capability::Comparator(Comparator::Other(rest));
                    }
                }
                Capability::Other(s)
            },
        }
    }
}

} // verus!
