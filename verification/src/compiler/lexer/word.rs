//! The reserved words of the Sieve language (commands, tests and tags).

use crate::text::bytes_eq;
use vstd::string::StringSliceAdditionalSpecFns;
use vstd::prelude::*;

verus! {

/// A reserved word of the Sieve language.
#[derive(Debug, Clone, Copy, PartialEq, Eq, Structural, Hash)]
pub enum Word {
    Require,
    If,
    Elsif,
    Else,
    Stop,
    Keep,
    Discard,
    Redirect,
    Fileinto,
    Reject,
    Ereject,
    Vacation,
    Setflag,
    Addflag,
    Removeflag,
    Hasflag,
    SetCommand,
    Notify,
    Addheader,
    Deleteheader,
    Include,
    Return,
    Global,
    Foreverypart,
    Break,
    Extracttext,
    Replace,
    Enclose,
    Convert,
    Error,
    Address,
    Allof,
    Anyof,
    Envelope,
    Exists,
    False,
    Header,
    Not,
    Size,
    True,
    Body,
    Date,
    Currentdate,
    Duplicate,
    String,
    Environment,
    Ihave,
    ValidNotifyMethod,
    NotifyMethodCapability,
    Mailboxexists,
    Metadata,
    Metadataexists,
    Servermetadata,
    Servermetadataexists,
    Mailboxidexists,
    SpecialuseExists,
    Spamtest,
    Virustest,
    ValidExtList,
    Is,
    Contains,
    Matches,
    Regex,
    Value,
    Count,
    List,
    Comparator,
    All,
    Localpart,
    Domain,
    User,
    Detail,
    Over,
    Under,
    Raw,
    Content,
    Text,
    Days,
    Seconds,
    Subject,
    From,
    Addresses,
    Mime,
    Handle,
    Copy,
    Create,
    Flags,
    Last,
    Index,
    Zone,
    Originalzone,
    Lower,
    Upper,
    Lowerfirst,
    Upperfirst,
    Quotewildcard,
    Quoteregex,
    Length,
    Encodeurl,
    Percent,
    Anychild,
    Type,
    Subtype,
    Contenttype,
    Param,
    Importance,
    Options,
    Message,
    Method,
    Uniqueid,
    Specialuse,
    Mailboxid,
    Personal,
    Once,
    Optional,
    Fcc,
    Name,
    Local,
    Query,
    Binary,
    HeaderName,
}

/// The spelling of a reserved word.
pub open spec fn word_text(w: Word) -> Seq<u8> {
    match w {
        Word::Require => seq![114u8, 101, 113, 117, 105, 114, 101],
        Word::If => seq![105u8, 102],
        Word::Elsif => seq![101u8, 108, 115, 105, 102],
        Word::Else => seq![101u8, 108, 115, 101],
        Word::Stop => seq![115u8, 116, 111, 112],
        Word::Keep => seq![107u8, 101, 101, 112],
        Word::Discard => seq![100u8, 105, 115, 99, 97, 114, 100],
        Word::Redirect => seq![114u8, 101, 100, 105, 114, 101, 99, 116],
        Word::Fileinto => seq![102u8, 105, 108, 101, 105, 110, 116, 111],
        Word::Reject => seq![114u8, 101, 106, 101, 99, 116],
        Word::Ereject => seq![101u8, 114, 101, 106, 101, 99, 116],
        Word::Vacation => seq![118u8, 97, 99, 97, 116, 105, 111, 110],
        Word::Setflag => seq![115u8, 101, 116, 102, 108, 97, 103],
        Word::Addflag => seq![97u8, 100, 100, 102, 108, 97, 103],
        Word::Removeflag => seq![114u8, 101, 109, 111, 118, 101, 102, 108, 97, 103],
        Word::Hasflag => seq![104u8, 97, 115, 102, 108, 97, 103],
        Word::SetCommand => seq![115u8, 101, 116],
        Word::Notify => seq![110u8, 111, 116, 105, 102, 121],
        Word::Addheader => seq![97u8, 100, 100, 104, 101, 97, 100, 101, 114],
        Word::Deleteheader => seq![100u8, 101, 108, 101, 116, 101, 104, 101, 97, 100, 101, 114],
        Word::Include => seq![105u8, 110, 99, 108, 117, 100, 101],
        Word::Return => seq![114u8, 101, 116, 117, 114, 110],
        Word::Global => seq![103u8, 108, 111, 98, 97, 108],
        Word::Foreverypart => seq![102u8, 111, 114, 101, 118, 101, 114, 121, 112, 97, 114, 116],
        Word::Break => seq![98u8, 114, 101, 97, 107],
        Word::Extracttext => seq![101u8, 120, 116, 114, 97, 99, 116, 116, 101, 120, 116],
        Word::Replace => seq![114u8, 101, 112, 108, 97, 99, 101],
        Word::Enclose => seq![101u8, 110, 99, 108, 111, 115, 101],
        Word::Convert => seq![99u8, 111, 110, 118, 101, 114, 116],
        Word::Error => seq![101u8, 114, 114, 111, 114],
        Word::Address => seq![97u8, 100, 100, 114, 101, 115, 115],
        Word::Allof => seq![97u8, 108, 108, 111, 102],
        Word::Anyof => seq![97u8, 110, 121, 111, 102],
        Word::Envelope => seq![101u8, 110, 118, 101, 108, 111, 112, 101],
        Word::Exists => seq![101u8, 120, 105, 115, 116, 115],
        Word::False => seq![102u8, 97, 108, 115, 101],
        Word::Header => seq![104u8, 101, 97, 100, 101, 114],
        Word::Not => seq![110u8, 111, 116],
        Word::Size => seq![115u8, 105, 122, 101],
        Word::True => seq![116u8, 114, 117, 101],
        Word::Body => seq![98u8, 111, 100, 121],
        Word::Date => seq![100u8, 97, 116, 101],
        Word::Currentdate => seq![99u8, 117, 114, 114, 101, 110, 116, 100, 97, 116, 101],
        Word::Duplicate => seq![100u8, 117, 112, 108, 105, 99, 97, 116, 101],
        Word::String => seq![115u8, 116, 114, 105, 110, 103],
        Word::Environment => seq![101u8, 110, 118, 105, 114, 111, 110, 109, 101, 110, 116],
        Word::Ihave => seq![105u8, 104, 97, 118, 101],
        Word::ValidNotifyMethod => seq![118u8, 97, 108, 105, 100, 95, 110, 111, 116, 105, 102, 121, 95, 109, 101, 116, 104, 111, 100],
        Word::NotifyMethodCapability => seq![110u8, 111, 116, 105, 102, 121, 95, 109, 101, 116, 104, 111, 100, 95, 99, 97, 112, 97, 98, 105, 108, 105, 116, 121],
        Word::Mailboxexists => seq![109u8, 97, 105, 108, 98, 111, 120, 101, 120, 105, 115, 116, 115],
        Word::Metadata => seq![109u8, 101, 116, 97, 100, 97, 116, 97],
        Word::Metadataexists => seq![109u8, 101, 116, 97, 100, 97, 116, 97, 101, 120, 105, 115, 116, 115],
        Word::Servermetadata => seq![115u8, 101, 114, 118, 101, 114, 109, 101, 116, 97, 100, 97, 116, 97],
        Word::Servermetadataexists => seq![115u8, 101, 114, 118, 101, 114, 109, 101, 116, 97, 100, 97, 116, 97, 101, 120, 105, 115, 116, 115],
        Word::Mailboxidexists => seq![109u8, 97, 105, 108, 98, 111, 120, 105, 100, 101, 120, 105, 115, 116, 115],
        Word::SpecialuseExists => seq![115u8, 112, 101, 99, 105, 97, 108, 117, 115, 101, 95, 101, 120, 105, 115, 116, 115],
        Word::Spamtest => seq![115u8, 112, 97, 109, 116, 101, 115, 116],
        Word::Virustest => seq![118u8, 105, 114, 117, 115, 116, 101, 115, 116],
        Word::ValidExtList => seq![118u8, 97, 108, 105, 100, 95, 101, 120, 116, 95, 108, 105, 115, 116],
        Word::Is => seq![105u8, 115],
        Word::Contains => seq![99u8, 111, 110, 116, 97, 105, 110, 115],
        Word::Matches => seq![109u8, 97, 116, 99, 104, 101, 115],
        Word::Regex => seq![114u8, 101, 103, 101, 120],
        Word::Value => seq![118u8, 97, 108, 117, 101],
        Word::Count => seq![99u8, 111, 117, 110, 116],
        Word::List => seq![108u8, 105, 115, 116],
        Word::Comparator => seq![99u8, 111, 109, 112, 97, 114, 97, 116, 111, 114],
        Word::All => seq![97u8, 108, 108],
        Word::Localpart => seq![108u8, 111, 99, 97, 108, 112, 97, 114, 116],
        Word::Domain => seq![100u8, 111, 109, 97, 105, 110],
        Word::User => seq![117u8, 115, 101, 114],
        Word::Detail => seq![100u8, 101, 116, 97, 105, 108],
        Word::Over => seq![111u8, 118, 101, 114],
        Word::Under => seq![117u8, 110, 100, 101, 114],
        Word::Raw => seq![114u8, 97, 119],
        Word::Content => seq![99u8, 111, 110, 116, 101, 110, 116],
        Word::Text => seq![116u8, 101, 120, 116],
        Word::Days => seq![100u8, 97, 121, 115],
        Word::Seconds => seq![115u8, 101, 99, 111, 110, 100, 115],
        Word::Subject => seq![115u8, 117, 98, 106, 101, 99, 116],
        Word::From => seq![102u8, 114, 111, 109],
        Word::Addresses => seq![97u8, 100, 100, 114, 101, 115, 115, 101, 115],
        Word::Mime => seq![109u8, 105, 109, 101],
        Word::Handle => seq![104u8, 97, 110, 100, 108, 101],
        Word::Copy => seq![99u8, 111, 112, 121],
        Word::Create => seq![99u8, 114, 101, 97, 116, 101],
        Word::Flags => seq![102u8, 108, 97, 103, 115],
        Word::Last => seq![108u8, 97, 115, 116],
        Word::Index => seq![105u8, 110, 100, 101, 120],
        Word::Zone => seq![122u8, 111, 110, 101],
        Word::Originalzone => seq![111u8, 114, 105, 103, 105, 110, 97, 108, 122, 111, 110, 101],
        Word::Lower => seq![108u8, 111, 119, 101, 114],
        Word::Upper => seq![117u8, 112, 112, 101, 114],
        Word::Lowerfirst => seq![108u8, 111, 119, 101, 114, 102, 105, 114, 115, 116],
        Word::Upperfirst => seq![117u8, 112, 112, 101, 114, 102, 105, 114, 115, 116],
        Word::Quotewildcard => seq![113u8, 117, 111, 116, 101, 119, 105, 108, 100, 99, 97, 114, 100],
        Word::Quoteregex => seq![113u8, 117, 111, 116, 101, 114, 101, 103, 101, 120],
        Word::Length => seq![108u8, 101, 110, 103, 116, 104],
        Word::Encodeurl => seq![101u8, 110, 99, 111, 100, 101, 117, 114, 108],
        Word::Percent => seq![112u8, 101, 114, 99, 101, 110, 116],
        Word::Anychild => seq![97u8, 110, 121, 99, 104, 105, 108, 100],
        Word::Type => seq![116u8, 121, 112, 101],
        Word::Subtype => seq![115u8, 117, 98, 116, 121, 112, 101],
        Word::Contenttype => seq![99u8, 111, 110, 116, 101, 110, 116, 116, 121, 112, 101],
        Word::Param => seq![112u8, 97, 114, 97, 109],
        Word::Importance => seq![105u8, 109, 112, 111, 114, 116, 97, 110, 99, 101],
        Word::Options => seq![111u8, 112, 116, 105, 111, 110, 115],
        Word::Message => seq![109u8, 101, 115, 115, 97, 103, 101],
        Word::Method => seq![109u8, 101, 116, 104, 111, 100],
        Word::Uniqueid => seq![117u8, 110, 105, 113, 117, 101, 105, 100],
        Word::Specialuse => seq![115u8, 112, 101, 99, 105, 97, 108, 117, 115, 101],
        Word::Mailboxid => seq![109u8, 97, 105, 108, 98, 111, 120, 105, 100],
        Word::Personal => seq![112u8, 101, 114, 115, 111, 110, 97, 108],
        Word::Once => seq![111u8, 110, 99, 101],
        Word::Optional => seq![111u8, 112, 116, 105, 111, 110, 97, 108],
        Word::Fcc => seq![102u8, 99, 99],
        Word::Name => seq![110u8, 97, 109, 101],
        Word::Local => seq![108u8, 111, 99, 97, 108],
        Word::Query => seq![113u8, 117, 101, 114, 121],
        Word::Binary => seq![98u8, 105, 110, 97, 114, 121],
        Word::HeaderName => seq![104u8, 101, 97, 100, 101, 114, 95, 110, 97, 109, 101],
    }
}

/// The reserved word spelled `s`, among those that start with `r`.
pub open spec fn lookup_word_r(s: Seq<u8>) -> Option<Word> {
    if s == seq![114u8, 101, 113, 117, 105, 114, 101] {
        Some(Word::Require)
    } else if s == seq![114u8, 101, 100, 105, 114, 101, 99, 116] {
        Some(Word::Redirect)
    } else if s == seq![114u8, 101, 106, 101, 99, 116] {
        Some(Word::Reject)
    } else if s == seq![114u8, 101, 109, 111, 118, 101, 102, 108, 97, 103] {
        Some(Word::Removeflag)
    } else if s == seq![114u8, 101, 116, 117, 114, 110] {
        Some(Word::Return)
    } else if s == seq![114u8, 101, 112, 108, 97, 99, 101] {
        Some(Word::Replace)
    } else if s == seq![114u8, 101, 103, 101, 120] {
        Some(Word::Regex)
    } else if s == seq![114u8, 97, 119] {
        Some(Word::Raw)
    } else {
        None
    }
}

/// The reserved word spelled `s`, among those that start with `i`.
pub open spec fn lookup_word_i(s: Seq<u8>) -> Option<Word> {
    if s == seq![105u8, 102] {
        Some(Word::If)
    } else if s == seq![105u8, 110, 99, 108, 117, 100, 101] {
        Some(Word::Include)
    } else if s == seq![105u8, 104, 97, 118, 101] {
        Some(Word::Ihave)
    } else if s == seq![105u8, 115] {
        Some(Word::Is)
    } else if s == seq![105u8, 110, 100, 101, 120] {
        Some(Word::Index)
    } else if s == seq![105u8, 109, 112, 111, 114, 116, 97, 110, 99, 101] {
        Some(Word::Importance)
    } else {
        None
    }
}

/// The reserved word spelled `s`, among those that start with `e`.
pub open spec fn lookup_word_e(s: Seq<u8>) -> Option<Word> {
    if s == seq![101u8, 108, 115, 105, 102] {
        Some(Word::Elsif)
    } else if s == seq![101u8, 108, 115, 101] {
        Some(Word::Else)
    } else if s == seq![101u8, 114, 101, 106, 101, 99, 116] {
        Some(Word::Ereject)
    } else if s == seq![101u8, 120, 116, 114, 97, 99, 116, 116, 101, 120, 116] {
        Some(Word::Extracttext)
    } else if s == seq![101u8, 110, 99, 108, 111, 115, 101] {
        Some(Word::Enclose)
    } else if s == seq![101u8, 114, 114, 111, 114] {
        Some(Word::Error)
    } else if s == seq![101u8, 110, 118, 101, 108, 111, 112, 101] {
        Some(Word::Envelope)
    } else if s == seq![101u8, 120, 105, 115, 116, 115] {
        Some(Word::Exists)
    } else if s == seq![101u8, 110, 118, 105, 114, 111, 110, 109, 101, 110, 116] {
        Some(Word::Environment)
    } else if s == seq![101u8, 110, 99, 111, 100, 101, 117, 114, 108] {
        Some(Word::Encodeurl)
    } else {
        None
    }
}

/// The reserved word spelled `s`, among those that start with `s`.
pub open spec fn lookup_word_s(s: Seq<u8>) -> Option<Word> {
    if s == seq![115u8, 116, 111, 112] {
        Some(Word::Stop)
    } else if s == seq![115u8, 101, 116, 102, 108, 97, 103] {
        Some(Word::Setflag)
    } else if s == seq![115u8, 101, 116] {
        Some(Word::SetCommand)
    } else if s == seq![115u8, 105, 122, 101] {
        Some(Word::Size)
    } else if s == seq![115u8, 116, 114, 105, 110, 103] {
        Some(Word::String)
    } else if s == seq![115u8, 101, 114, 118, 101, 114, 109, 101, 116, 97, 100, 97, 116, 97] {
        Some(Word::Servermetadata)
    } else if s == seq![115u8, 101, 114, 118, 101, 114, 109, 101, 116, 97, 100, 97, 116, 97, 101, 120, 105, 115, 116, 115] {
        Some(Word::Servermetadataexists)
    } else if s == seq![115u8, 112, 101, 99, 105, 97, 108, 117, 115, 101, 95, 101, 120, 105, 115, 116, 115] {
        Some(Word::SpecialuseExists)
    } else if s == seq![115u8, 112, 97, 109, 116, 101, 115, 116] {
        Some(Word::Spamtest)
    } else if s == seq![115u8, 101, 99, 111, 110, 100, 115] {
        Some(Word::Seconds)
    } else if s == seq![115u8, 117, 98, 106, 101, 99, 116] {
        Some(Word::Subject)
    } else if s == seq![115u8, 117, 98, 116, 121, 112, 101] {
        Some(Word::Subtype)
    } else if s == seq![115u8, 112, 101, 99, 105, 97, 108, 117, 115, 101] {
        Some(Word::Specialuse)
    } else {
        None
    }
}

/// The reserved word spelled `s`, among those that start with `k`.
pub open spec fn lookup_word_k(s: Seq<u8>) -> Option<Word> {
    if s == seq![107u8, 101, 101, 112] {
        Some(Word::Keep)
    } else {
        None
    }
}

/// The reserved word spelled `s`, among those that start with `d`.
pub open spec fn lookup_word_d(s: Seq<u8>) -> Option<Word> {
    if s == seq![100u8, 105, 115, 99, 97, 114, 100] {
        Some(Word::Discard)
    } else if s == seq![100u8, 101, 108, 101, 116, 101, 104, 101, 97, 100, 101, 114] {
        Some(Word::Deleteheader)
    } else if s == seq![100u8, 97, 116, 101] {
        Some(Word::Date)
    } else if s == seq![100u8, 117, 112, 108, 105, 99, 97, 116, 101] {
        Some(Word::Duplicate)
    } else if s == seq![100u8, 111, 109, 97, 105, 110] {
        Some(Word::Domain)
    } else if s == seq![100u8, 101, 116, 97, 105, 108] {
        Some(Word::Detail)
    } else if s == seq![100u8, 97, 121, 115] {
        Some(Word::Days)
    } else {
        None
    }
}

/// The reserved word spelled `s`, among those that start with `f`.
pub open spec fn lookup_word_f(s: Seq<u8>) -> Option<Word> {
    if s == seq![102u8, 105, 108, 101, 105, 110, 116, 111] {
        Some(Word::Fileinto)
    } else if s == seq![102u8, 111, 114, 101, 118, 101, 114, 121, 112, 97, 114, 116] {
        Some(Word::Foreverypart)
    } else if s == seq![102u8, 97, 108, 115, 101] {
        Some(Word::False)
    } else if s == seq![102u8, 114, 111, 109] {
        Some(Word::From)
    } else if s == seq![102u8, 108, 97, 103, 115] {
        Some(Word::Flags)
    } else if s == seq![102u8, 99, 99] {
        Some(Word::Fcc)
    } else {
        None
    }
}

/// The reserved word spelled `s`, among those that start with `v`.
pub open spec fn lookup_word_v(s: Seq<u8>) -> Option<Word> {
    if s == seq![118u8, 97, 99, 97, 116, 105, 111, 110] {
        Some(Word::Vacation)
    } else if s == seq![118u8, 97, 108, 105, 100, 95, 110, 111, 116, 105, 102, 121, 95, 109, 101, 116, 104, 111, 100] {
        Some(Word::ValidNotifyMethod)
    } else if s == seq![118u8, 105, 114, 117, 115, 116, 101, 115, 116] {
        Some(Word::Virustest)
    } else if s == seq![118u8, 97, 108, 105, 100, 95, 101, 120, 116, 95, 108, 105, 115, 116] {
        Some(Word::ValidExtList)
    } else if s == seq![118u8, 97, 108, 117, 101] {
        Some(Word::Value)
    } else {
        None
    }
}

/// The reserved word spelled `s`, among those that start with `a`.
pub open spec fn lookup_word_a(s: Seq<u8>) -> Option<Word> {
    if s == seq![97u8, 100, 100, 102, 108, 97, 103] {
        Some(Word::Addflag)
    } else if s == seq![97u8, 100, 100, 104, 101, 97, 100, 101, 114] {
        Some(Word::Addheader)
    } else if s == seq![97u8, 100, 100, 114, 101, 115, 115] {
        Some(Word::Address)
    } else if s == seq![97u8, 108, 108, 111, 102] {
        Some(Word::Allof)
    } else if s == seq![97u8, 110, 121, 111, 102] {
        Some(Word::Anyof)
    } else if s == seq![97u8, 108, 108] {
        Some(Word::All)
    } else if s == seq![97u8, 100, 100, 114, 101, 115, 115, 101, 115] {
        Some(Word::Addresses)
    } else if s == seq![97u8, 110, 121, 99, 104, 105, 108, 100] {
        Some(Word::Anychild)
    } else {
        None
    }
}

/// The reserved word spelled `s`, among those that start with `h`.
pub open spec fn lookup_word_h(s: Seq<u8>) -> Option<Word> {
    if s == seq![104u8, 97, 115, 102, 108, 97, 103] {
        Some(Word::Hasflag)
    } else if s == seq![104u8, 101, 97, 100, 101, 114] {
        Some(Word::Header)
    } else if s == seq![104u8, 97, 110, 100, 108, 101] {
        Some(Word::Handle)
    } else if s == seq![104u8, 101, 97, 100, 101, 114, 95, 110, 97, 109, 101] {
        Some(Word::HeaderName)
    } else {
        None
    }
}

/// The reserved word spelled `s`, among those that start with `n`.
pub open spec fn lookup_word_n(s: Seq<u8>) -> Option<Word> {
    if s == seq![110u8, 111, 116, 105, 102, 121] {
        Some(Word::Notify)
    } else if s == seq![110u8, 111, 116] {
        Some(Word::Not)
    } else if s == seq![110u8, 111, 116, 105, 102, 121, 95, 109, 101, 116, 104, 111, 100, 95, 99, 97, 112, 97, 98, 105, 108, 105, 116, 121] {
        Some(Word::NotifyMethodCapability)
    } else if s == seq![110u8, 97, 109, 101] {
        Some(Word::Name)
    } else {
        None
    }
}

/// The reserved word spelled `s`, among those that start with `g`.
pub open spec fn lookup_word_g(s: Seq<u8>) -> Option<Word> {
    if s == seq![103u8, 108, 111, 98, 97, 108] {
        Some(Word::Global)
    } else {
        None
    }
}

/// The reserved word spelled `s`, among those that start with `b`.
pub open spec fn lookup_word_b(s: Seq<u8>) -> Option<Word> {
    if s == seq![98u8, 114, 101, 97, 107] {
        Some(Word::Break)
    } else if s == seq![98u8, 111, 100, 121] {
        Some(Word::Body)
    } else if s == seq![98u8, 105, 110, 97, 114, 121] {
        Some(Word::Binary)
    } else {
        None
    }
}

/// The reserved word spelled `s`, among those that start with `c`.
pub open spec fn lookup_word_c(s: Seq<u8>) -> Option<Word> {
    if s == seq![99u8, 111, 110, 118, 101, 114, 116] {
        Some(Word::Convert)
    } else if s == seq![99u8, 117, 114, 114, 101, 110, 116, 100, 97, 116, 101] {
        Some(Word::Currentdate)
    } else if s == seq![99u8, 111, 110, 116, 97, 105, 110, 115] {
        Some(Word::Contains)
    } else if s == seq![99u8, 111, 117, 110, 116] {
        Some(Word::Count)
    } else if s == seq![99u8, 111, 109, 112, 97, 114, 97, 116, 111, 114] {
        Some(Word::Comparator)
    } else if s == seq![99u8, 111, 110, 116, 101, 110, 116] {
        Some(Word::Content)
    } else if s == seq![99u8, 111, 112, 121] {
        Some(Word::Copy)
    } else if s == seq![99u8, 114, 101, 97, 116, 101] {
        Some(Word::Create)
    } else if s == seq![99u8, 111, 110, 116, 101, 110, 116, 116, 121, 112, 101] {
        Some(Word::Contenttype)
    } else {
        None
    }
}

/// The reserved word spelled `s`, among those that start with `t`.
pub open spec fn lookup_word_t(s: Seq<u8>) -> Option<Word> {
    if s == seq![116u8, 114, 117, 101] {
        Some(Word::True)
    } else if s == seq![116u8, 101, 120, 116] {
        Some(Word::Text)
    } else if s == seq![116u8, 121, 112, 101] {
        Some(Word::Type)
    } else {
        None
    }
}

/// The reserved word spelled `s`, among those that start with `m`.
pub open spec fn lookup_word_m(s: Seq<u8>) -> Option<Word> {
    if s == seq![109u8, 97, 105, 108, 98, 111, 120, 101, 120, 105, 115, 116, 115] {
        Some(Word::Mailboxexists)
    } else if s == seq![109u8, 101, 116, 97, 100, 97, 116, 97] {
        Some(Word::Metadata)
    } else if s == seq![109u8, 101, 116, 97, 100, 97, 116, 97, 101, 120, 105, 115, 116, 115] {
        Some(Word::Metadataexists)
    } else if s == seq![109u8, 97, 105, 108, 98, 111, 120, 105, 100, 101, 120, 105, 115, 116, 115] {
        Some(Word::Mailboxidexists)
    } else if s == seq![109u8, 97, 116, 99, 104, 101, 115] {
        Some(Word::Matches)
    } else if s == seq![109u8, 105, 109, 101] {
        Some(Word::Mime)
    } else if s == seq![109u8, 101, 115, 115, 97, 103, 101] {
        Some(Word::Message)
    } else if s == seq![109u8, 101, 116, 104, 111, 100] {
        Some(Word::Method)
    } else if s == seq![109u8, 97, 105, 108, 98, 111, 120, 105, 100] {
        Some(Word::Mailboxid)
    } else {
        None
    }
}

/// The reserved word spelled `s`, among those that start with `l`.
pub open spec fn lookup_word_l(s: Seq<u8>) -> Option<Word> {
    if s == seq![108u8, 105, 115, 116] {
        Some(Word::List)
    } else if s == seq![108u8, 111, 99, 97, 108, 112, 97, 114, 116] {
        Some(Word::Localpart)
    } else if s == seq![108u8, 97, 115, 116] {
        Some(Word::Last)
    } else if s == seq![108u8, 111, 119, 101, 114] {
        Some(Word::Lower)
    } else if s == seq![108u8, 111, 119, 101, 114, 102, 105, 114, 115, 116] {
        Some(Word::Lowerfirst)
    } else if s == seq![108u8, 101, 110, 103, 116, 104] {
        Some(Word::Length)
    } else if s == seq![108u8, 111, 99, 97, 108] {
        Some(Word::Local)
    } else {
        None
    }
}

/// The reserved word spelled `s`, among those that start with `u`.
pub open spec fn lookup_word_u(s: Seq<u8>) -> Option<Word> {
    if s == seq![117u8, 115, 101, 114] {
        Some(Word::User)
    } else if s == seq![117u8, 110, 100, 101, 114] {
        Some(Word::Under)
    } else if s == seq![117u8, 112, 112, 101, 114] {
        Some(Word::Upper)
    } else if s == seq![117u8, 112, 112, 101, 114, 102, 105, 114, 115, 116] {
        Some(Word::Upperfirst)
    } else if s == seq![117u8, 110, 105, 113, 117, 101, 105, 100] {
        Some(Word::Uniqueid)
    } else {
        None
    }
}

/// The reserved word spelled `s`, among those that start with `o`.
pub open spec fn lookup_word_o(s: Seq<u8>) -> Option<Word> {
    if s == seq![111u8, 118, 101, 114] {
        Some(Word::Over)
    } else if s == seq![111u8, 114, 105, 103, 105, 110, 97, 108, 122, 111, 110, 101] {
        Some(Word::Originalzone)
    } else if s == seq![111u8, 112, 116, 105, 111, 110, 115] {
        Some(Word::Options)
    } else if s == seq![111u8, 110, 99, 101] {
        Some(Word::Once)
    } else if s == seq![111u8, 112, 116, 105, 111, 110, 97, 108] {
        Some(Word::Optional)
    } else {
        None
    }
}

/// The reserved word spelled `s`, among those that start with `z`.
pub open spec fn lookup_word_z(s: Seq<u8>) -> Option<Word> {
    if s == seq![122u8, 111, 110, 101] {
        Some(Word::Zone)
    } else {
        None
    }
}

/// The reserved word spelled `s`, among those that start with `q`.
pub open spec fn lookup_word_q(s: Seq<u8>) -> Option<Word> {
    if s == seq![113u8, 117, 111, 116, 101, 119, 105, 108, 100, 99, 97, 114, 100] {
        Some(Word::Quotewildcard)
    } else if s == seq![113u8, 117, 111, 116, 101, 114, 101, 103, 101, 120] {
        Some(Word::Quoteregex)
    } else if s == seq![113u8, 117, 101, 114, 121] {
        Some(Word::Query)
    } else {
        None
    }
}

/// The reserved word spelled `s`, among those that start with `p`.
pub open spec fn lookup_word_p(s: Seq<u8>) -> Option<Word> {
    if s == seq![112u8, 101, 114, 99, 101, 110, 116] {
        Some(Word::Percent)
    } else if s == seq![112u8, 97, 114, 97, 109] {
        Some(Word::Param)
    } else if s == seq![112u8, 101, 114, 115, 111, 110, 97, 108] {
        Some(Word::Personal)
    } else {
        None
    }
}

/// The reserved word spelled `s`, if there is one.
pub open spec fn lookup_word(s: Seq<u8>) -> Option<Word> {
    if s.len() == 0 {
        None
    } else if s[0] == 114 {
        lookup_word_r(s)
    } else if s[0] == 105 {
        lookup_word_i(s)
    } else if s[0] == 101 {
        lookup_word_e(s)
    } else if s[0] == 115 {
        lookup_word_s(s)
    } else if s[0] == 107 {
        lookup_word_k(s)
    } else if s[0] == 100 {
        lookup_word_d(s)
    } else if s[0] == 102 {
        lookup_word_f(s)
    } else if s[0] == 118 {
        lookup_word_v(s)
    } else if s[0] == 97 {
        lookup_word_a(s)
    } else if s[0] == 104 {
        lookup_word_h(s)
    } else if s[0] == 110 {
        lookup_word_n(s)
    } else if s[0] == 103 {
        lookup_word_g(s)
    } else if s[0] == 98 {
        lookup_word_b(s)
    } else if s[0] == 99 {
        lookup_word_c(s)
    } else if s[0] == 116 {
        lookup_word_t(s)
    } else if s[0] == 109 {
        lookup_word_m(s)
    } else if s[0] == 108 {
        lookup_word_l(s)
    } else if s[0] == 117 {
        lookup_word_u(s)
    } else if s[0] == 111 {
        lookup_word_o(s)
    } else if s[0] == 122 {
        lookup_word_z(s)
    } else if s[0] == 113 {
        lookup_word_q(s)
    } else if s[0] == 112 {
        lookup_word_p(s)
    } else {
        None
    }
}

fn lookup_words_r(s: &[u8]) -> (r: Option<Word>)
    ensures
        r == lookup_word_r(s@),
{
    let w: [u8; 7] = [114, 101, 113, 117, 105, 114, 101];
    assert(w@ =~= seq![114u8, 101, 113, 117, 105, 114, 101]);
    if bytes_eq(s, &w) {
        return Some(Word::Require);
    }
    let w: [u8; 8] = [114, 101, 100, 105, 114, 101, 99, 116];
    assert(w@ =~= seq![114u8, 101, 100, 105, 114, 101, 99, 116]);
    if bytes_eq(s, &w) {
        return Some(Word::Redirect);
    }
    let w: [u8; 6] = [114, 101, 106, 101, 99, 116];
    assert(w@ =~= seq![114u8, 101, 106, 101, 99, 116]);
    if bytes_eq(s, &w) {
        return Some(Word::Reject);
    }
    let w: [u8; 10] = [114, 101, 109, 111, 118, 101, 102, 108, 97, 103];
    assert(w@ =~= seq![114u8, 101, 109, 111, 118, 101, 102, 108, 97, 103]);
    if bytes_eq(s, &w) {
        return Some(Word::Removeflag);
    }
    let w: [u8; 6] = [114, 101, 116, 117, 114, 110];
    assert(w@ =~= seq![114u8, 101, 116, 117, 114, 110]);
    if bytes_eq(s, &w) {
        return Some(Word::Return);
    }
    let w: [u8; 7] = [114, 101, 112, 108, 97, 99, 101];
    assert(w@ =~= seq![114u8, 101, 112, 108, 97, 99, 101]);
    if bytes_eq(s, &w) {
        return Some(Word::Replace);
    }
    let w: [u8; 5] = [114, 101, 103, 101, 120];
    assert(w@ =~= seq![114u8, 101, 103, 101, 120]);
    if bytes_eq(s, &w) {
        return Some(Word::Regex);
    }
    let w: [u8; 3] = [114, 97, 119];
    assert(w@ =~= seq![114u8, 97, 119]);
    if bytes_eq(s, &w) {
        return Some(Word::Raw);
    }
    None
}

fn lookup_words_i(s: &[u8]) -> (r: Option<Word>)
    ensures
        r == lookup_word_i(s@),
{
    let w: [u8; 2] = [105, 102];
    assert(w@ =~= seq![105u8, 102]);
    if bytes_eq(s, &w) {
        return Some(Word::If);
    }
    let w: [u8; 7] = [105, 110, 99, 108, 117, 100, 101];
    assert(w@ =~= seq![105u8, 110, 99, 108, 117, 100, 101]);
    if bytes_eq(s, &w) {
        return Some(Word::Include);
    }
    let w: [u8; 5] = [105, 104, 97, 118, 101];
    assert(w@ =~= seq![105u8, 104, 97, 118, 101]);
    if bytes_eq(s, &w) {
        return Some(Word::Ihave);
    }
    let w: [u8; 2] = [105, 115];
    assert(w@ =~= seq![105u8, 115]);
    if bytes_eq(s, &w) {
        return Some(Word::Is);
    }
    let w: [u8; 5] = [105, 110, 100, 101, 120];
    assert(w@ =~= seq![105u8, 110, 100, 101, 120]);
    if bytes_eq(s, &w) {
        return Some(Word::Index);
    }
    let w: [u8; 10] = [105, 109, 112, 111, 114, 116, 97, 110, 99, 101];
    assert(w@ =~= seq![105u8, 109, 112, 111, 114, 116, 97, 110, 99, 101]);
    if bytes_eq(s, &w) {
        return Some(Word::Importance);
    }
    None
}

fn lookup_words_e(s: &[u8]) -> (r: Option<Word>)
    ensures
        r == lookup_word_e(s@),
{
    let w: [u8; 5] = [101, 108, 115, 105, 102];
    assert(w@ =~= seq![101u8, 108, 115, 105, 102]);
    if bytes_eq(s, &w) {
        return Some(Word::Elsif);
    }
    let w: [u8; 4] = [101, 108, 115, 101];
    assert(w@ =~= seq![101u8, 108, 115, 101]);
    if bytes_eq(s, &w) {
        return Some(Word::Else);
    }
    let w: [u8; 7] = [101, 114, 101, 106, 101, 99, 116];
    assert(w@ =~= seq![101u8, 114, 101, 106, 101, 99, 116]);
    if bytes_eq(s, &w) {
        return Some(Word::Ereject);
    }
    let w: [u8; 11] = [101, 120, 116, 114, 97, 99, 116, 116, 101, 120, 116];
    assert(w@ =~= seq![101u8, 120, 116, 114, 97, 99, 116, 116, 101, 120, 116]);
    if bytes_eq(s, &w) {
        return Some(Word::Extracttext);
    }
    let w: [u8; 7] = [101, 110, 99, 108, 111, 115, 101];
    assert(w@ =~= seq![101u8, 110, 99, 108, 111, 115, 101]);
    if bytes_eq(s, &w) {
        return Some(Word::Enclose);
    }
    let w: [u8; 5] = [101, 114, 114, 111, 114];
    assert(w@ =~= seq![101u8, 114, 114, 111, 114]);
    if bytes_eq(s, &w) {
        return Some(Word::Error);
    }
    let w: [u8; 8] = [101, 110, 118, 101, 108, 111, 112, 101];
    assert(w@ =~= seq![101u8, 110, 118, 101, 108, 111, 112, 101]);
    if bytes_eq(s, &w) {
        return Some(Word::Envelope);
    }
    let w: [u8; 6] = [101, 120, 105, 115, 116, 115];
    assert(w@ =~= seq![101u8, 120, 105, 115, 116, 115]);
    if bytes_eq(s, &w) {
        return Some(Word::Exists);
    }
    let w: [u8; 11] = [101, 110, 118, 105, 114, 111, 110, 109, 101, 110, 116];
    assert(w@ =~= seq![101u8, 110, 118, 105, 114, 111, 110, 109, 101, 110, 116]);
    if bytes_eq(s, &w) {
        return Some(Word::Environment);
    }
    let w: [u8; 9] = [101, 110, 99, 111, 100, 101, 117, 114, 108];
    assert(w@ =~= seq![101u8, 110, 99, 111, 100, 101, 117, 114, 108]);
    if bytes_eq(s, &w) {
        return Some(Word::Encodeurl);
    }
    None
}

fn lookup_words_s(s: &[u8]) -> (r: Option<Word>)
    ensures
        r == lookup_word_s(s@),
{
    let w: [u8; 4] = [115, 116, 111, 112];
    assert(w@ =~= seq![115u8, 116, 111, 112]);
    if bytes_eq(s, &w) {
        return Some(Word::Stop);
    }
    let w: [u8; 7] = [115, 101, 116, 102, 108, 97, 103];
    assert(w@ =~= seq![115u8, 101, 116, 102, 108, 97, 103]);
    if bytes_eq(s, &w) {
        return Some(Word::Setflag);
    }
    let w: [u8; 3] = [115, 101, 116];
    assert(w@ =~= seq![115u8, 101, 116]);
    if bytes_eq(s, &w) {
        return Some(Word::SetCommand);
    }
    let w: [u8; 4] = [115, 105, 122, 101];
    assert(w@ =~= seq![115u8, 105, 122, 101]);
    if bytes_eq(s, &w) {
        return Some(Word::Size);
    }
    let w: [u8; 6] = [115, 116, 114, 105, 110, 103];
    assert(w@ =~= seq![115u8, 116, 114, 105, 110, 103]);
    if bytes_eq(s, &w) {
        return Some(Word::String);
    }
    let w: [u8; 14] = [115, 101, 114, 118, 101, 114, 109, 101, 116, 97, 100, 97, 116, 97];
    assert(w@ =~= seq![115u8, 101, 114, 118, 101, 114, 109, 101, 116, 97, 100, 97, 116, 97]);
    if bytes_eq(s, &w) {
        return Some(Word::Servermetadata);
    }
    let w: [u8; 20] = [115, 101, 114, 118, 101, 114, 109, 101, 116, 97, 100, 97, 116, 97, 101, 120, 105, 115, 116, 115];
    assert(w@ =~= seq![115u8, 101, 114, 118, 101, 114, 109, 101, 116, 97, 100, 97, 116, 97, 101, 120, 105, 115, 116, 115]);
    if bytes_eq(s, &w) {
        return Some(Word::Servermetadataexists);
    }
    let w: [u8; 17] = [115, 112, 101, 99, 105, 97, 108, 117, 115, 101, 95, 101, 120, 105, 115, 116, 115];
    assert(w@ =~= seq![115u8, 112, 101, 99, 105, 97, 108, 117, 115, 101, 95, 101, 120, 105, 115, 116, 115]);
    if bytes_eq(s, &w) {
        return Some(Word::SpecialuseExists);
    }
    let w: [u8; 8] = [115, 112, 97, 109, 116, 101, 115, 116];
    assert(w@ =~= seq![115u8, 112, 97, 109, 116, 101, 115, 116]);
    if bytes_eq(s, &w) {
        return Some(Word::Spamtest);
    }
    let w: [u8; 7] = [115, 101, 99, 111, 110, 100, 115];
    assert(w@ =~= seq![115u8, 101, 99, 111, 110, 100, 115]);
    if bytes_eq(s, &w) {
        return Some(Word::Seconds);
    }
    let w: [u8; 7] = [115, 117, 98, 106, 101, 99, 116];
    assert(w@ =~= seq![115u8, 117, 98, 106, 101, 99, 116]);
    if bytes_eq(s, &w) {
        return Some(Word::Subject);
    }
    let w: [u8; 7] = [115, 117, 98, 116, 121, 112, 101];
    assert(w@ =~= seq![115u8, 117, 98, 116, 121, 112, 101]);
    if bytes_eq(s, &w) {
        return Some(Word::Subtype);
    }
    let w: [u8; 10] = [115, 112, 101, 99, 105, 97, 108, 117, 115, 101];
    assert(w@ =~= seq![115u8, 112, 101, 99, 105, 97, 108, 117, 115, 101]);
    if bytes_eq(s, &w) {
        return Some(Word::Specialuse);
    }
    None
}

fn lookup_words_k(s: &[u8]) -> (r: Option<Word>)
    ensures
        r == lookup_word_k(s@),
{
    let w: [u8; 4] = [107, 101, 101, 112];
    assert(w@ =~= seq![107u8, 101, 101, 112]);
    if bytes_eq(s, &w) {
        return Some(Word::Keep);
    }
    None
}

fn lookup_words_d(s: &[u8]) -> (r: Option<Word>)
    ensures
        r == lookup_word_d(s@),
{
    let w: [u8; 7] = [100, 105, 115, 99, 97, 114, 100];
    assert(w@ =~= seq![100u8, 105, 115, 99, 97, 114, 100]);
    if bytes_eq(s, &w) {
        return Some(Word::Discard);
    }
    let w: [u8; 12] = [100, 101, 108, 101, 116, 101, 104, 101, 97, 100, 101, 114];
    assert(w@ =~= seq![100u8, 101, 108, 101, 116, 101, 104, 101, 97, 100, 101, 114]);
    if bytes_eq(s, &w) {
        return Some(Word::Deleteheader);
    }
    let w: [u8; 4] = [100, 97, 116, 101];
    assert(w@ =~= seq![100u8, 97, 116, 101]);
    if bytes_eq(s, &w) {
        return Some(Word::Date);
    }
    let w: [u8; 9] = [100, 117, 112, 108, 105, 99, 97, 116, 101];
    assert(w@ =~= seq![100u8, 117, 112, 108, 105, 99, 97, 116, 101]);
    if bytes_eq(s, &w) {
        return Some(Word::Duplicate);
    }
    let w: [u8; 6] = [100, 111, 109, 97, 105, 110];
    assert(w@ =~= seq![100u8, 111, 109, 97, 105, 110]);
    if bytes_eq(s, &w) {
        return Some(Word::Domain);
    }
    let w: [u8; 6] = [100, 101, 116, 97, 105, 108];
    assert(w@ =~= seq![100u8, 101, 116, 97, 105, 108]);
    if bytes_eq(s, &w) {
        return Some(Word::Detail);
    }
    let w: [u8; 4] = [100, 97, 121, 115];
    assert(w@ =~= seq![100u8, 97, 121, 115]);
    if bytes_eq(s, &w) {
        return Some(Word::Days);
    }
    None
}

fn lookup_words_f(s: &[u8]) -> (r: Option<Word>)
    ensures
        r == lookup_word_f(s@),
{
    let w: [u8; 8] = [102, 105, 108, 101, 105, 110, 116, 111];
    assert(w@ =~= seq![102u8, 105, 108, 101, 105, 110, 116, 111]);
    if bytes_eq(s, &w) {
        return Some(Word::Fileinto);
    }
    let w: [u8; 12] = [102, 111, 114, 101, 118, 101, 114, 121, 112, 97, 114, 116];
    assert(w@ =~= seq![102u8, 111, 114, 101, 118, 101, 114, 121, 112, 97, 114, 116]);
    if bytes_eq(s, &w) {
        return Some(Word::Foreverypart);
    }
    let w: [u8; 5] = [102, 97, 108, 115, 101];
    assert(w@ =~= seq![102u8, 97, 108, 115, 101]);
    if bytes_eq(s, &w) {
        return Some(Word::False);
    }
    let w: [u8; 4] = [102, 114, 111, 109];
    assert(w@ =~= seq![102u8, 114, 111, 109]);
    if bytes_eq(s, &w) {
        return Some(Word::From);
    }
    let w: [u8; 5] = [102, 108, 97, 103, 115];
    assert(w@ =~= seq![102u8, 108, 97, 103, 115]);
    if bytes_eq(s, &w) {
        return Some(Word::Flags);
    }
    let w: [u8; 3] = [102, 99, 99];
    assert(w@ =~= seq![102u8, 99, 99]);
    if bytes_eq(s, &w) {
        return Some(Word::Fcc);
    }
    None
}

fn lookup_words_v(s: &[u8]) -> (r: Option<Word>)
    ensures
        r == lookup_word_v(s@),
{
    let w: [u8; 8] = [118, 97, 99, 97, 116, 105, 111, 110];
    assert(w@ =~= seq![118u8, 97, 99, 97, 116, 105, 111, 110]);
    if bytes_eq(s, &w) {
        return Some(Word::Vacation);
    }
    let w: [u8; 19] = [118, 97, 108, 105, 100, 95, 110, 111, 116, 105, 102, 121, 95, 109, 101, 116, 104, 111, 100];
    assert(w@ =~= seq![118u8, 97, 108, 105, 100, 95, 110, 111, 116, 105, 102, 121, 95, 109, 101, 116, 104, 111, 100]);
    if bytes_eq(s, &w) {
        return Some(Word::ValidNotifyMethod);
    }
    let w: [u8; 9] = [118, 105, 114, 117, 115, 116, 101, 115, 116];
    assert(w@ =~= seq![118u8, 105, 114, 117, 115, 116, 101, 115, 116]);
    if bytes_eq(s, &w) {
        return Some(Word::Virustest);
    }
    let w: [u8; 14] = [118, 97, 108, 105, 100, 95, 101, 120, 116, 95, 108, 105, 115, 116];
    assert(w@ =~= seq![118u8, 97, 108, 105, 100, 95, 101, 120, 116, 95, 108, 105, 115, 116]);
    if bytes_eq(s, &w) {
        return Some(Word::ValidExtList);
    }
    let w: [u8; 5] = [118, 97, 108, 117, 101];
    assert(w@ =~= seq![118u8, 97, 108, 117, 101]);
    if bytes_eq(s, &w) {
        return Some(Word::Value);
    }
    None
}

fn lookup_words_a(s: &[u8]) -> (r: Option<Word>)
    ensures
        r == lookup_word_a(s@),
{
    let w: [u8; 7] = [97, 100, 100, 102, 108, 97, 103];
    assert(w@ =~= seq![97u8, 100, 100, 102, 108, 97, 103]);
    if bytes_eq(s, &w) {
        return Some(Word::Addflag);
    }
    let w: [u8; 9] = [97, 100, 100, 104, 101, 97, 100, 101, 114];
    assert(w@ =~= seq![97u8, 100, 100, 104, 101, 97, 100, 101, 114]);
    if bytes_eq(s, &w) {
        return Some(Word::Addheader);
    }
    let w: [u8; 7] = [97, 100, 100, 114, 101, 115, 115];
    assert(w@ =~= seq![97u8, 100, 100, 114, 101, 115, 115]);
    if bytes_eq(s, &w) {
        return Some(Word::Address);
    }
    let w: [u8; 5] = [97, 108, 108, 111, 102];
    assert(w@ =~= seq![97u8, 108, 108, 111, 102]);
    if bytes_eq(s, &w) {
        return Some(Word::Allof);
    }
    let w: [u8; 5] = [97, 110, 121, 111, 102];
    assert(w@ =~= seq![97u8, 110, 121, 111, 102]);
    if bytes_eq(s, &w) {
        return Some(Word::Anyof);
    }
    let w: [u8; 3] = [97, 108, 108];
    assert(w@ =~= seq![97u8, 108, 108]);
    if bytes_eq(s, &w) {
        return Some(Word::All);
    }
    let w: [u8; 9] = [97, 100, 100, 114, 101, 115, 115, 101, 115];
    assert(w@ =~= seq![97u8, 100, 100, 114, 101, 115, 115, 101, 115]);
    if bytes_eq(s, &w) {
        return Some(Word::Addresses);
    }
    let w: [u8; 8] = [97, 110, 121, 99, 104, 105, 108, 100];
    assert(w@ =~= seq![97u8, 110, 121, 99, 104, 105, 108, 100]);
    if bytes_eq(s, &w) {
        return Some(Word::Anychild);
    }
    None
}

fn lookup_words_h(s: &[u8]) -> (r: Option<Word>)
    ensures
        r == lookup_word_h(s@),
{
    let w: [u8; 7] = [104, 97, 115, 102, 108, 97, 103];
    assert(w@ =~= seq![104u8, 97, 115, 102, 108, 97, 103]);
    if bytes_eq(s, &w) {
        return Some(Word::Hasflag);
    }
    let w: [u8; 6] = [104, 101, 97, 100, 101, 114];
    assert(w@ =~= seq![104u8, 101, 97, 100, 101, 114]);
    if bytes_eq(s, &w) {
        return Some(Word::Header);
    }
    let w: [u8; 6] = [104, 97, 110, 100, 108, 101];
    assert(w@ =~= seq![104u8, 97, 110, 100, 108, 101]);
    if bytes_eq(s, &w) {
        return Some(Word::Handle);
    }
    let w: [u8; 11] = [104, 101, 97, 100, 101, 114, 95, 110, 97, 109, 101];
    assert(w@ =~= seq![104u8, 101, 97, 100, 101, 114, 95, 110, 97, 109, 101]);
    if bytes_eq(s, &w) {
        return Some(Word::HeaderName);
    }
    None
}

fn lookup_words_n(s: &[u8]) -> (r: Option<Word>)
    ensures
        r == lookup_word_n(s@),
{
    let w: [u8; 6] = [110, 111, 116, 105, 102, 121];
    assert(w@ =~= seq![110u8, 111, 116, 105, 102, 121]);
    if bytes_eq(s, &w) {
        return Some(Word::Notify);
    }
    let w: [u8; 3] = [110, 111, 116];
    assert(w@ =~= seq![110u8, 111, 116]);
    if bytes_eq(s, &w) {
        return Some(Word::Not);
    }
    let w: [u8; 24] = [110, 111, 116, 105, 102, 121, 95, 109, 101, 116, 104, 111, 100, 95, 99, 97, 112, 97, 98, 105, 108, 105, 116, 121];
    assert(w@ =~= seq![110u8, 111, 116, 105, 102, 121, 95, 109, 101, 116, 104, 111, 100, 95, 99, 97, 112, 97, 98, 105, 108, 105, 116, 121]);
    if bytes_eq(s, &w) {
        return Some(Word::NotifyMethodCapability);
    }
    let w: [u8; 4] = [110, 97, 109, 101];
    assert(w@ =~= seq![110u8, 97, 109, 101]);
    if bytes_eq(s, &w) {
        return Some(Word::Name);
    }
    None
}

fn lookup_words_g(s: &[u8]) -> (r: Option<Word>)
    ensures
        r == lookup_word_g(s@),
{
    let w: [u8; 6] = [103, 108, 111, 98, 97, 108];
    assert(w@ =~= seq![103u8, 108, 111, 98, 97, 108]);
    if bytes_eq(s, &w) {
        return Some(Word::Global);
    }
    None
}

fn lookup_words_b(s: &[u8]) -> (r: Option<Word>)
    ensures
        r == lookup_word_b(s@),
{
    let w: [u8; 5] = [98, 114, 101, 97, 107];
    assert(w@ =~= seq![98u8, 114, 101, 97, 107]);
    if bytes_eq(s, &w) {
        return Some(Word::Break);
    }
    let w: [u8; 4] = [98, 111, 100, 121];
    assert(w@ =~= seq![98u8, 111, 100, 121]);
    if bytes_eq(s, &w) {
        return Some(Word::Body);
    }
    let w: [u8; 6] = [98, 105, 110, 97, 114, 121];
    assert(w@ =~= seq![98u8, 105, 110, 97, 114, 121]);
    if bytes_eq(s, &w) {
        return Some(Word::Binary);
    }
    None
}

fn lookup_words_c(s: &[u8]) -> (r: Option<Word>)
    ensures
        r == lookup_word_c(s@),
{
    let w: [u8; 7] = [99, 111, 110, 118, 101, 114, 116];
    assert(w@ =~= seq![99u8, 111, 110, 118, 101, 114, 116]);
    if bytes_eq(s, &w) {
        return Some(Word::Convert);
    }
    let w: [u8; 11] = [99, 117, 114, 114, 101, 110, 116, 100, 97, 116, 101];
    assert(w@ =~= seq![99u8, 117, 114, 114, 101, 110, 116, 100, 97, 116, 101]);
    if bytes_eq(s, &w) {
        return Some(Word::Currentdate);
    }
    let w: [u8; 8] = [99, 111, 110, 116, 97, 105, 110, 115];
    assert(w@ =~= seq![99u8, 111, 110, 116, 97, 105, 110, 115]);
    if bytes_eq(s, &w) {
        return Some(Word::Contains);
    }
    let w: [u8; 5] = [99, 111, 117, 110, 116];
    assert(w@ =~= seq![99u8, 111, 117, 110, 116]);
    if bytes_eq(s, &w) {
        return Some(Word::Count);
    }
    let w: [u8; 10] = [99, 111, 109, 112, 97, 114, 97, 116, 111, 114];
    assert(w@ =~= seq![99u8, 111, 109, 112, 97, 114, 97, 116, 111, 114]);
    if bytes_eq(s, &w) {
        return Some(Word::Comparator);
    }
    let w: [u8; 7] = [99, 111, 110, 116, 101, 110, 116];
    assert(w@ =~= seq![99u8, 111, 110, 116, 101, 110, 116]);
    if bytes_eq(s, &w) {
        return Some(Word::Content);
    }
    let w: [u8; 4] = [99, 111, 112, 121];
    assert(w@ =~= seq![99u8, 111, 112, 121]);
    if bytes_eq(s, &w) {
        return Some(Word::Copy);
    }
    let w: [u8; 6] = [99, 114, 101, 97, 116, 101];
    assert(w@ =~= seq![99u8, 114, 101, 97, 116, 101]);
    if bytes_eq(s, &w) {
        return Some(Word::Create);
    }
    let w: [u8; 11] = [99, 111, 110, 116, 101, 110, 116, 116, 121, 112, 101];
    assert(w@ =~= seq![99u8, 111, 110, 116, 101, 110, 116, 116, 121, 112, 101]);
    if bytes_eq(s, &w) {
        return Some(Word::Contenttype);
    }
    None
}

fn lookup_words_t(s: &[u8]) -> (r: Option<Word>)
    ensures
        r == lookup_word_t(s@),
{
    let w: [u8; 4] = [116, 114, 117, 101];
    assert(w@ =~= seq![116u8, 114, 117, 101]);
    if bytes_eq(s, &w) {
        return Some(Word::True);
    }
    let w: [u8; 4] = [116, 101, 120, 116];
    assert(w@ =~= seq![116u8, 101, 120, 116]);
    if bytes_eq(s, &w) {
        return Some(Word::Text);
    }
    let w: [u8; 4] = [116, 121, 112, 101];
    assert(w@ =~= seq![116u8, 121, 112, 101]);
    if bytes_eq(s, &w) {
        return Some(Word::Type);
    }
    None
}

fn lookup_words_m(s: &[u8]) -> (r: Option<Word>)
    ensures
        r == lookup_word_m(s@),
{
    let w: [u8; 13] = [109, 97, 105, 108, 98, 111, 120, 101, 120, 105, 115, 116, 115];
    assert(w@ =~= seq![109u8, 97, 105, 108, 98, 111, 120, 101, 120, 105, 115, 116, 115]);
    if bytes_eq(s, &w) {
        return Some(Word::Mailboxexists);
    }
    let w: [u8; 8] = [109, 101, 116, 97, 100, 97, 116, 97];
    assert(w@ =~= seq![109u8, 101, 116, 97, 100, 97, 116, 97]);
    if bytes_eq(s, &w) {
        return Some(Word::Metadata);
    }
    let w: [u8; 14] = [109, 101, 116, 97, 100, 97, 116, 97, 101, 120, 105, 115, 116, 115];
    assert(w@ =~= seq![109u8, 101, 116, 97, 100, 97, 116, 97, 101, 120, 105, 115, 116, 115]);
    if bytes_eq(s, &w) {
        return Some(Word::Metadataexists);
    }
    let w: [u8; 15] = [109, 97, 105, 108, 98, 111, 120, 105, 100, 101, 120, 105, 115, 116, 115];
    assert(w@ =~= seq![109u8, 97, 105, 108, 98, 111, 120, 105, 100, 101, 120, 105, 115, 116, 115]);
    if bytes_eq(s, &w) {
        return Some(Word::Mailboxidexists);
    }
    let w: [u8; 7] = [109, 97, 116, 99, 104, 101, 115];
    assert(w@ =~= seq![109u8, 97, 116, 99, 104, 101, 115]);
    if bytes_eq(s, &w) {
        return Some(Word::Matches);
    }
    let w: [u8; 4] = [109, 105, 109, 101];
    assert(w@ =~= seq![109u8, 105, 109, 101]);
    if bytes_eq(s, &w) {
        return Some(Word::Mime);
    }
    let w: [u8; 7] = [109, 101, 115, 115, 97, 103, 101];
    assert(w@ =~= seq![109u8, 101, 115, 115, 97, 103, 101]);
    if bytes_eq(s, &w) {
        return Some(Word::Message);
    }
    let w: [u8; 6] = [109, 101, 116, 104, 111, 100];
    assert(w@ =~= seq![109u8, 101, 116, 104, 111, 100]);
    if bytes_eq(s, &w) {
        return Some(Word::Method);
    }
    let w: [u8; 9] = [109, 97, 105, 108, 98, 111, 120, 105, 100];
    assert(w@ =~= seq![109u8, 97, 105, 108, 98, 111, 120, 105, 100]);
    if bytes_eq(s, &w) {
        return Some(Word::Mailboxid);
    }
    None
}

fn lookup_words_l(s: &[u8]) -> (r: Option<Word>)
    ensures
        r == lookup_word_l(s@),
{
    let w: [u8; 4] = [108, 105, 115, 116];
    assert(w@ =~= seq![108u8, 105, 115, 116]);
    if bytes_eq(s, &w) {
        return Some(Word::List);
    }
    let w: [u8; 9] = [108, 111, 99, 97, 108, 112, 97, 114, 116];
    assert(w@ =~= seq![108u8, 111, 99, 97, 108, 112, 97, 114, 116]);
    if bytes_eq(s, &w) {
        return Some(Word::Localpart);
    }
    let w: [u8; 4] = [108, 97, 115, 116];
    assert(w@ =~= seq![108u8, 97, 115, 116]);
    if bytes_eq(s, &w) {
        return Some(Word::Last);
    }
    let w: [u8; 5] = [108, 111, 119, 101, 114];
    assert(w@ =~= seq![108u8, 111, 119, 101, 114]);
    if bytes_eq(s, &w) {
        return Some(Word::Lower);
    }
    let w: [u8; 10] = [108, 111, 119, 101, 114, 102, 105, 114, 115, 116];
    assert(w@ =~= seq![108u8, 111, 119, 101, 114, 102, 105, 114, 115, 116]);
    if bytes_eq(s, &w) {
        return Some(Word::Lowerfirst);
    }
    let w: [u8; 6] = [108, 101, 110, 103, 116, 104];
    assert(w@ =~= seq![108u8, 101, 110, 103, 116, 104]);
    if bytes_eq(s, &w) {
        return Some(Word::Length);
    }
    let w: [u8; 5] = [108, 111, 99, 97, 108];
    assert(w@ =~= seq![108u8, 111, 99, 97, 108]);
    if bytes_eq(s, &w) {
        return Some(Word::Local);
    }
    None
}

fn lookup_words_u(s: &[u8]) -> (r: Option<Word>)
    ensures
        r == lookup_word_u(s@),
{
    let w: [u8; 4] = [117, 115, 101, 114];
    assert(w@ =~= seq![117u8, 115, 101, 114]);
    if bytes_eq(s, &w) {
        return Some(Word::User);
    }
    let w: [u8; 5] = [117, 110, 100, 101, 114];
    assert(w@ =~= seq![117u8, 110, 100, 101, 114]);
    if bytes_eq(s, &w) {
        return Some(Word::Under);
    }
    let w: [u8; 5] = [117, 112, 112, 101, 114];
    assert(w@ =~= seq![117u8, 112, 112, 101, 114]);
    if bytes_eq(s, &w) {
        return Some(Word::Upper);
    }
    let w: [u8; 10] = [117, 112, 112, 101, 114, 102, 105, 114, 115, 116];
    assert(w@ =~= seq![117u8, 112, 112, 101, 114, 102, 105, 114, 115, 116]);
    if bytes_eq(s, &w) {
        return Some(Word::Upperfirst);
    }
    let w: [u8; 8] = [117, 110, 105, 113, 117, 101, 105, 100];
    assert(w@ =~= seq![117u8, 110, 105, 113, 117, 101, 105, 100]);
    if bytes_eq(s, &w) {
        return Some(Word::Uniqueid);
    }
    None
}

fn lookup_words_o(s: &[u8]) -> (r: Option<Word>)
    ensures
        r == lookup_word_o(s@),
{
    let w: [u8; 4] = [111, 118, 101, 114];
    assert(w@ =~= seq![111u8, 118, 101, 114]);
    if bytes_eq(s, &w) {
        return Some(Word::Over);
    }
    let w: [u8; 12] = [111, 114, 105, 103, 105, 110, 97, 108, 122, 111, 110, 101];
    assert(w@ =~= seq![111u8, 114, 105, 103, 105, 110, 97, 108, 122, 111, 110, 101]);
    if bytes_eq(s, &w) {
        return Some(Word::Originalzone);
    }
    let w: [u8; 7] = [111, 112, 116, 105, 111, 110, 115];
    assert(w@ =~= seq![111u8, 112, 116, 105, 111, 110, 115]);
    if bytes_eq(s, &w) {
        return Some(Word::Options);
    }
    let w: [u8; 4] = [111, 110, 99, 101];
    assert(w@ =~= seq![111u8, 110, 99, 101]);
    if bytes_eq(s, &w) {
        return Some(Word::Once);
    }
    let w: [u8; 8] = [111, 112, 116, 105, 111, 110, 97, 108];
    assert(w@ =~= seq![111u8, 112, 116, 105, 111, 110, 97, 108]);
    if bytes_eq(s, &w) {
        return Some(Word::Optional);
    }
    None
}

fn lookup_words_z(s: &[u8]) -> (r: Option<Word>)
    ensures
        r == lookup_word_z(s@),
{
    let w: [u8; 4] = [122, 111, 110, 101];
    assert(w@ =~= seq![122u8, 111, 110, 101]);
    if bytes_eq(s, &w) {
        return Some(Word::Zone);
    }
    None
}

fn lookup_words_q(s: &[u8]) -> (r: Option<Word>)
    ensures
        r == lookup_word_q(s@),
{
    let w: [u8; 13] = [113, 117, 111, 116, 101, 119, 105, 108, 100, 99, 97, 114, 100];
    assert(w@ =~= seq![113u8, 117, 111, 116, 101, 119, 105, 108, 100, 99, 97, 114, 100]);
    if bytes_eq(s, &w) {
        return Some(Word::Quotewildcard);
    }
    let w: [u8; 10] = [113, 117, 111, 116, 101, 114, 101, 103, 101, 120];
    assert(w@ =~= seq![113u8, 117, 111, 116, 101, 114, 101, 103, 101, 120]);
    if bytes_eq(s, &w) {
        return Some(Word::Quoteregex);
    }
    let w: [u8; 5] = [113, 117, 101, 114, 121];
    assert(w@ =~= seq![113u8, 117, 101, 114, 121]);
    if bytes_eq(s, &w) {
        return Some(Word::Query);
    }
    None
}

fn lookup_words_p(s: &[u8]) -> (r: Option<Word>)
    ensures
        r == lookup_word_p(s@),
{
    let w: [u8; 7] = [112, 101, 114, 99, 101, 110, 116];
    assert(w@ =~= seq![112u8, 101, 114, 99, 101, 110, 116]);
    if bytes_eq(s, &w) {
        return Some(Word::Percent);
    }
    let w: [u8; 5] = [112, 97, 114, 97, 109];
    assert(w@ =~= seq![112u8, 97, 114, 97, 109]);
    if bytes_eq(s, &w) {
        return Some(Word::Param);
    }
    let w: [u8; 8] = [112, 101, 114, 115, 111, 110, 97, 108];
    assert(w@ =~= seq![112u8, 101, 114, 115, 111, 110, 97, 108]);
    if bytes_eq(s, &w) {
        return Some(Word::Personal);
    }
    None
}

/// Looks up the reserved word spelled by `s` (already in lowercase).
pub fn lookup_words(s: &[u8]) -> (r: Option<Word>)
    ensures
        r == lookup_word(s@),
{
    if s.len() == 0 {
        return None;
    }
    if s[0] == 114 {
        return lookup_words_r(s);
    }
    if s[0] == 105 {
        return lookup_words_i(s);
    }
    if s[0] == 101 {
        return lookup_words_e(s);
    }
    if s[0] == 115 {
        return lookup_words_s(s);
    }
    if s[0] == 107 {
        return lookup_words_k(s);
    }
    if s[0] == 100 {
        return lookup_words_d(s);
    }
    if s[0] == 102 {
        return lookup_words_f(s);
    }
    if s[0] == 118 {
        return lookup_words_v(s);
    }
    if s[0] == 97 {
        return lookup_words_a(s);
    }
    if s[0] == 104 {
        return lookup_words_h(s);
    }
    if s[0] == 110 {
        return lookup_words_n(s);
    }
    if s[0] == 103 {
        return lookup_words_g(s);
    }
    if s[0] == 98 {
        return lookup_words_b(s);
    }
    if s[0] == 99 {
        return lookup_words_c(s);
    }
    if s[0] == 116 {
        return lookup_words_t(s);
    }
    if s[0] == 109 {
        return lookup_words_m(s);
    }
    if s[0] == 108 {
        return lookup_words_l(s);
    }
    if s[0] == 117 {
        return lookup_words_u(s);
    }
    if s[0] == 111 {
        return lookup_words_o(s);
    }
    if s[0] == 122 {
        return lookup_words_z(s);
    }
    if s[0] == 113 {
        return lookup_words_q(s);
    }
    if s[0] == 112 {
        return lookup_words_p(s);
    }
    None
}

impl Word {
    /// The spelling of the word.
    pub fn as_str(&self) -> (r: &'static str)
        ensures
            r.spec_bytes() == word_text(*self),
    {
        match self {
            Word::Require => {
                proof { reveal_strlit("require"); vstd::string::is_ascii_spec_bytes("require"); }
                "require"
            },
            Word::If => {
                proof { reveal_strlit("if"); vstd::string::is_ascii_spec_bytes("if"); }
                "if"
            },
            Word::Elsif => {
                proof { reveal_strlit("elsif"); vstd::string::is_ascii_spec_bytes("elsif"); }
                "elsif"
            },
            Word::Else => {
                proof { reveal_strlit("else"); vstd::string::is_ascii_spec_bytes("else"); }
                "else"
            },
            Word::Stop => {
                proof { reveal_strlit("stop"); vstd::string::is_ascii_spec_bytes("stop"); }
                "stop"
            },
            Word::Keep => {
                proof { reveal_strlit("keep"); vstd::string::is_ascii_spec_bytes("keep"); }
                "keep"
            },
            Word::Discard => {
                proof { reveal_strlit("discard"); vstd::string::is_ascii_spec_bytes("discard"); }
                "discard"
            },
            Word::Redirect => {
                proof { reveal_strlit("redirect"); vstd::string::is_ascii_spec_bytes("redirect"); }
                "redirect"
            },
            Word::Fileinto => {
                proof { reveal_strlit("fileinto"); vstd::string::is_ascii_spec_bytes("fileinto"); }
                "fileinto"
            },
            Word::Reject => {
                proof { reveal_strlit("reject"); vstd::string::is_ascii_spec_bytes("reject"); }
                "reject"
            },
            Word::Ereject => {
                proof { reveal_strlit("ereject"); vstd::string::is_ascii_spec_bytes("ereject"); }
                "ereject"
            },
            Word::Vacation => {
                proof { reveal_strlit("vacation"); vstd::string::is_ascii_spec_bytes("vacation"); }
                "vacation"
            },
            Word::Setflag => {
                proof { reveal_strlit("setflag"); vstd::string::is_ascii_spec_bytes("setflag"); }
                "setflag"
            },
            Word::Addflag => {
                proof { reveal_strlit("addflag"); vstd::string::is_ascii_spec_bytes("addflag"); }
                "addflag"
            },
            Word::Removeflag => {
                proof { reveal_strlit("removeflag"); vstd::string::is_ascii_spec_bytes("removeflag"); }
                "removeflag"
            },
            Word::Hasflag => {
                proof { reveal_strlit("hasflag"); vstd::string::is_ascii_spec_bytes("hasflag"); }
                "hasflag"
            },
            Word::SetCommand => {
                proof { reveal_strlit("set"); vstd::string::is_ascii_spec_bytes("set"); }
                "set"
            },
            Word::Notify => {
                proof { reveal_strlit("notify"); vstd::string::is_ascii_spec_bytes("notify"); }
                "notify"
            },
            Word::Addheader => {
                proof { reveal_strlit("addheader"); vstd::string::is_ascii_spec_bytes("addheader"); }
                "addheader"
            },
            Word::Deleteheader => {
                proof { reveal_strlit("deleteheader"); vstd::string::is_ascii_spec_bytes("deleteheader"); }
                "deleteheader"
            },
            Word::Include => {
                proof { reveal_strlit("include"); vstd::string::is_ascii_spec_bytes("include"); }
                "include"
            },
            Word::Return => {
                proof { reveal_strlit("return"); vstd::string::is_ascii_spec_bytes("return"); }
                "return"
            },
            Word::Global => {
                proof { reveal_strlit("global"); vstd::string::is_ascii_spec_bytes("global"); }
                "global"
            },
            Word::Foreverypart => {
                proof { reveal_strlit("foreverypart"); vstd::string::is_ascii_spec_bytes("foreverypart"); }
                "foreverypart"
            },
            Word::Break => {
                proof { reveal_strlit("break"); vstd::string::is_ascii_spec_bytes("break"); }
                "break"
            },
            Word::Extracttext => {
                proof { reveal_strlit("extracttext"); vstd::string::is_ascii_spec_bytes("extracttext"); }
                "extracttext"
            },
            Word::Replace => {
                proof { reveal_strlit("replace"); vstd::string::is_ascii_spec_bytes("replace"); }
                "replace"
            },
            Word::Enclose => {
                proof { reveal_strlit("enclose"); vstd::string::is_ascii_spec_bytes("enclose"); }
                "enclose"
            },
            Word::Convert => {
                proof { reveal_strlit("convert"); vstd::string::is_ascii_spec_bytes("convert"); }
                "convert"
            },
            Word::Error => {
                proof { reveal_strlit("error"); vstd::string::is_ascii_spec_bytes("error"); }
                "error"
            },
            Word::Address => {
                proof { reveal_strlit("address"); vstd::string::is_ascii_spec_bytes("address"); }
                "address"
            },
            Word::Allof => {
                proof { reveal_strlit("allof"); vstd::string::is_ascii_spec_bytes("allof"); }
                "allof"
            },
            Word::Anyof => {
                proof { reveal_strlit("anyof"); vstd::string::is_ascii_spec_bytes("anyof"); }
                "anyof"
            },
            Word::Envelope => {
                proof { reveal_strlit("envelope"); vstd::string::is_ascii_spec_bytes("envelope"); }
                "envelope"
            },
            Word::Exists => {
                proof { reveal_strlit("exists"); vstd::string::is_ascii_spec_bytes("exists"); }
                "exists"
            },
            Word::False => {
                proof { reveal_strlit("false"); vstd::string::is_ascii_spec_bytes("false"); }
                "false"
            },
            Word::Header => {
                proof { reveal_strlit("header"); vstd::string::is_ascii_spec_bytes("header"); }
                "header"
            },
            Word::Not => {
                proof { reveal_strlit("not"); vstd::string::is_ascii_spec_bytes("not"); }
                "not"
            },
            Word::Size => {
                proof { reveal_strlit("size"); vstd::string::is_ascii_spec_bytes("size"); }
                "size"
            },
            Word::True => {
                proof { reveal_strlit("true"); vstd::string::is_ascii_spec_bytes("true"); }
                "true"
            },
            Word::Body => {
                proof { reveal_strlit("body"); vstd::string::is_ascii_spec_bytes("body"); }
                "body"
            },
            Word::Date => {
                proof { reveal_strlit("date"); vstd::string::is_ascii_spec_bytes("date"); }
                "date"
            },
            Word::Currentdate => {
                proof { reveal_strlit("currentdate"); vstd::string::is_ascii_spec_bytes("currentdate"); }
                "currentdate"
            },
            Word::Duplicate => {
                proof { reveal_strlit("duplicate"); vstd::string::is_ascii_spec_bytes("duplicate"); }
                "duplicate"
            },
            Word::String => {
                proof { reveal_strlit("string"); vstd::string::is_ascii_spec_bytes("string"); }
                "string"
            },
            Word::Environment => {
                proof { reveal_strlit("environment"); vstd::string::is_ascii_spec_bytes("environment"); }
                "environment"
            },
            Word::Ihave => {
                proof { reveal_strlit("ihave"); vstd::string::is_ascii_spec_bytes("ihave"); }
                "ihave"
            },
            Word::ValidNotifyMethod => {
                proof { reveal_strlit("valid_notify_method"); vstd::string::is_ascii_spec_bytes("valid_notify_method"); }
                "valid_notify_method"
            },
            Word::NotifyMethodCapability => {
                proof { reveal_strlit("notify_method_capability"); vstd::string::is_ascii_spec_bytes("notify_method_capability"); }
                "notify_method_capability"
            },
            Word::Mailboxexists => {
                proof { reveal_strlit("mailboxexists"); vstd::string::is_ascii_spec_bytes("mailboxexists"); }
                "mailboxexists"
            },
            Word::Metadata => {
                proof { reveal_strlit("metadata"); vstd::string::is_ascii_spec_bytes("metadata"); }
                "metadata"
            },
            Word::Metadataexists => {
                proof { reveal_strlit("metadataexists"); vstd::string::is_ascii_spec_bytes("metadataexists"); }
                "metadataexists"
            },
            Word::Servermetadata => {
                proof { reveal_strlit("servermetadata"); vstd::string::is_ascii_spec_bytes("servermetadata"); }
                "servermetadata"
            },
            Word::Servermetadataexists => {
                proof { reveal_strlit("servermetadataexists"); vstd::string::is_ascii_spec_bytes("servermetadataexists"); }
                "servermetadataexists"
            },
            Word::Mailboxidexists => {
                proof { reveal_strlit("mailboxidexists"); vstd::string::is_ascii_spec_bytes("mailboxidexists"); }
                "mailboxidexists"
            },
            Word::SpecialuseExists => {
                proof { reveal_strlit("specialuse_exists"); vstd::string::is_ascii_spec_bytes("specialuse_exists"); }
                "specialuse_exists"
            },
            Word::Spamtest => {
                proof { reveal_strlit("spamtest"); vstd::string::is_ascii_spec_bytes("spamtest"); }
                "spamtest"
            },
            Word::Virustest => {
                proof { reveal_strlit("virustest"); vstd::string::is_ascii_spec_bytes("virustest"); }
                "virustest"
            },
            Word::ValidExtList => {
                proof { reveal_strlit("valid_ext_list"); vstd::string::is_ascii_spec_bytes("valid_ext_list"); }
                "valid_ext_list"
            },
            Word::Is => {
                proof { reveal_strlit("is"); vstd::string::is_ascii_spec_bytes("is"); }
                "is"
            },
            Word::Contains => {
                proof { reveal_strlit("contains"); vstd::string::is_ascii_spec_bytes("contains"); }
                "contains"
            },
            Word::Matches => {
                proof { reveal_strlit("matches"); vstd::string::is_ascii_spec_bytes("matches"); }
                "matches"
            },
            Word::Regex => {
                proof { reveal_strlit("regex"); vstd::string::is_ascii_spec_bytes("regex"); }
                "regex"
            },
            Word::Value => {
                proof { reveal_strlit("value"); vstd::string::is_ascii_spec_bytes("value"); }
                "value"
            },
            Word::Count => {
                proof { reveal_strlit("count"); vstd::string::is_ascii_spec_bytes("count"); }
                "count"
            },
            Word::List => {
                proof { reveal_strlit("list"); vstd::string::is_ascii_spec_bytes("list"); }
                "list"
            },
            Word::Comparator => {
                proof { reveal_strlit("comparator"); vstd::string::is_ascii_spec_bytes("comparator"); }
                "comparator"
            },
            Word::All => {
                proof { reveal_strlit("all"); vstd::string::is_ascii_spec_bytes("all"); }
                "all"
            },
            Word::Localpart => {
                proof { reveal_strlit("localpart"); vstd::string::is_ascii_spec_bytes("localpart"); }
                "localpart"
            },
            Word::Domain => {
                proof { reveal_strlit("domain"); vstd::string::is_ascii_spec_bytes("domain"); }
                "domain"
            },
            Word::User => {
                proof { reveal_strlit("user"); vstd::string::is_ascii_spec_bytes("user"); }
                "user"
            },
            Word::Detail => {
                proof { reveal_strlit("detail"); vstd::string::is_ascii_spec_bytes("detail"); }
                "detail"
            },
            Word::Over => {
                proof { reveal_strlit("over"); vstd::string::is_ascii_spec_bytes("over"); }
                "over"
            },
            Word::Under => {
                proof { reveal_strlit("under"); vstd::string::is_ascii_spec_bytes("under"); }
                "under"
            },
            Word::Raw => {
                proof { reveal_strlit("raw"); vstd::string::is_ascii_spec_bytes("raw"); }
                "raw"
            },
            Word::Content => {
                proof { reveal_strlit("content"); vstd::string::is_ascii_spec_bytes("content"); }
                "content"
            },
            Word::Text => {
                proof { reveal_strlit("text"); vstd::string::is_ascii_spec_bytes("text"); }
                "text"
            },
            Word::Days => {
                proof { reveal_strlit("days"); vstd::string::is_ascii_spec_bytes("days"); }
                "days"
            },
            Word::Seconds => {
                proof { reveal_strlit("seconds"); vstd::string::is_ascii_spec_bytes("seconds"); }
                "seconds"
            },
            Word::Subject => {
                proof { reveal_strlit("subject"); vstd::string::is_ascii_spec_bytes("subject"); }
                "subject"
            },
            Word::From => {
                proof { reveal_strlit("from"); vstd::string::is_ascii_spec_bytes("from"); }
                "from"
            },
            Word::Addresses => {
                proof { reveal_strlit("addresses"); vstd::string::is_ascii_spec_bytes("addresses"); }
                "addresses"
            },
            Word::Mime => {
                proof { reveal_strlit("mime"); vstd::string::is_ascii_spec_bytes("mime"); }
                "mime"
            },
            Word::Handle => {
                proof { reveal_strlit("handle"); vstd::string::is_ascii_spec_bytes("handle"); }
                "handle"
            },
            Word::Copy => {
                proof { reveal_strlit("copy"); vstd::string::is_ascii_spec_bytes("copy"); }
                "copy"
            },
            Word::Create => {
                proof { reveal_strlit("create"); vstd::string::is_ascii_spec_bytes("create"); }
                "create"
            },
            Word::Flags => {
                proof { reveal_strlit("flags"); vstd::string::is_ascii_spec_bytes("flags"); }
                "flags"
            },
            Word::Last => {
                proof { reveal_strlit("last"); vstd::string::is_ascii_spec_bytes("last"); }
                "last"
            },
            Word::Index => {
                proof { reveal_strlit("index"); vstd::string::is_ascii_spec_bytes("index"); }
                "index"
            },
            Word::Zone => {
                proof { reveal_strlit("zone"); vstd::string::is_ascii_spec_bytes("zone"); }
                "zone"
            },
            Word::Originalzone => {
                proof { reveal_strlit("originalzone"); vstd::string::is_ascii_spec_bytes("originalzone"); }
                "originalzone"
            },
            Word::Lower => {
                proof { reveal_strlit("lower"); vstd::string::is_ascii_spec_bytes("lower"); }
                "lower"
            },
            Word::Upper => {
                proof { reveal_strlit("upper"); vstd::string::is_ascii_spec_bytes("upper"); }
                "upper"
            },
            Word::Lowerfirst => {
                proof { reveal_strlit("lowerfirst"); vstd::string::is_ascii_spec_bytes("lowerfirst"); }
                "lowerfirst"
            },
            Word::Upperfirst => {
                proof { reveal_strlit("upperfirst"); vstd::string::is_ascii_spec_bytes("upperfirst"); }
                "upperfirst"
            },
            Word::Quotewildcard => {
                proof { reveal_strlit("quotewildcard"); vstd::string::is_ascii_spec_bytes("quotewildcard"); }
                "quotewildcard"
            },
            Word::Quoteregex => {
                proof { reveal_strlit("quoteregex"); vstd::string::is_ascii_spec_bytes("quoteregex"); }
                "quoteregex"
            },
            Word::Length => {
                proof { reveal_strlit("length"); vstd::string::is_ascii_spec_bytes("length"); }
                "length"
            },
            Word::Encodeurl => {
                proof { reveal_strlit("encodeurl"); vstd::string::is_ascii_spec_bytes("encodeurl"); }
                "encodeurl"
            },
            Word::Percent => {
                proof { reveal_strlit("percent"); vstd::string::is_ascii_spec_bytes("percent"); }
                "percent"
            },
            Word::Anychild => {
                proof { reveal_strlit("anychild"); vstd::string::is_ascii_spec_bytes("anychild"); }
                "anychild"
            },
            Word::Type => {
                proof { reveal_strlit("type"); vstd::string::is_ascii_spec_bytes("type"); }
                "type"
            },
            Word::Subtype => {
                proof { reveal_strlit("subtype"); vstd::string::is_ascii_spec_bytes("subtype"); }
                "subtype"
            },
            Word::Contenttype => {
                proof { reveal_strlit("contenttype"); vstd::string::is_ascii_spec_bytes("contenttype"); }
                "contenttype"
            },
            Word::Param => {
                proof { reveal_strlit("param"); vstd::string::is_ascii_spec_bytes("param"); }
                "param"
            },
            Word::Importance => {
                proof { reveal_strlit("importance"); vstd::string::is_ascii_spec_bytes("importance"); }
                "importance"
            },
            Word::Options => {
                proof { reveal_strlit("options"); vstd::string::is_ascii_spec_bytes("options"); }
                "options"
            },
            Word::Message => {
                proof { reveal_strlit("message"); vstd::string::is_ascii_spec_bytes("message"); }
                "message"
            },
            Word::Method => {
                proof { reveal_strlit("method"); vstd::string::is_ascii_spec_bytes("method"); }
                "method"
            },
            Word::Uniqueid => {
                proof { reveal_strlit("uniqueid"); vstd::string::is_ascii_spec_bytes("uniqueid"); }
                "uniqueid"
            },
            Word::Specialuse => {
                proof { reveal_strlit("specialuse"); vstd::string::is_ascii_spec_bytes("specialuse"); }
                "specialuse"
            },
            Word::Mailboxid => {
                proof { reveal_strlit("mailboxid"); vstd::string::is_ascii_spec_bytes("mailboxid"); }
                "mailboxid"
            },
            Word::Personal => {
                proof { reveal_strlit("personal"); vstd::string::is_ascii_spec_bytes("personal"); }
                "personal"
            },
            Word::Once => {
                proof { reveal_strlit("once"); vstd::string::is_ascii_spec_bytes("once"); }
                "once"
            },
            Word::Optional => {
                proof { reveal_strlit("optional"); vstd::string::is_ascii_spec_bytes("optional"); }
                "optional"
            },
            Word::Fcc => {
                proof { reveal_strlit("fcc"); vstd::string::is_ascii_spec_bytes("fcc"); }
                "fcc"
            },
            Word::Name => {
                proof { reveal_strlit("name"); vstd::string::is_ascii_spec_bytes("name"); }
                "name"
            },
            Word::Local => {
                proof { reveal_strlit("local"); vstd::string::is_ascii_spec_bytes("local"); }
                "local"
            },
            Word::Query => {
                proof { reveal_strlit("query"); vstd::string::is_ascii_spec_bytes("query"); }
                "query"
            },
            Word::Binary => {
                proof { reveal_strlit("binary"); vstd::string::is_ascii_spec_bytes("binary"); }
                "binary"
            },
            Word::HeaderName => {
                proof { reveal_strlit("header_name"); vstd::string::is_ascii_spec_bytes("header_name"); }
                "header_name"
            },
        }
    }
}

} // verus!
