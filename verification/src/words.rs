use vstd::prelude::*;
use vstd::string::*;

verus! {

/// A keyword or tag name recognised by the lexer; source form is ASCII
/// case-insensitive.
#[derive(Clone, Copy, PartialEq, Eq, Structural, Debug)]
pub enum Word {
    AddFlag,
    AddHeader,
    Address,
    Addresses,
    All,
    AllOf,
    AnyChild,
    AnyOf,
    Body,
    Break,
    ByMode,
    ByTimeAbsolute,
    ByTimeRelative,
    ByTrace,
    Comparator,
    Contains,
    Content,
    ContentType,
    Convert,
    Copy,
    Count,
    Create,
    CurrentDate,
    Date,
    Days,
    DeleteHeader,
    Detail,
    Discard,
    Domain,
    Duplicate,
    Else,
    ElsIf,
    Enclose,
    EncodeUrl,
    Envelope,
    Environment,
    Ereject,
    Error,
    Exists,
    ExtractText,
    False,
    Fcc,
    FileInto,
    First,
    Flags,
    ForEveryPart,
    From,
    Global,
    Handle,
    HasFlag,
    Header,
    Headers,
    If,
    Ihave,
    Importance,
    Include,
    Index,
    Is,
    Keep,
    Last,
    Length,
    List,
    LocalPart,
    Lower,
    LowerFirst,
    MailboxExists,
    MailboxId,
    MailboxIdExists,
    Matches,
    Message,
    Metadata,
    MetadataExists,
    Mime,
    Name,
    Not,
    Notify,
    NotifyMethodCapability,
    Once,
    Optional,
    Options,
    OriginalZone,
    Over,
    Param,
    Percent,
    Personal,
    QuoteRegex,
    QuoteWildcard,
    Raw,
    Redirect,
    Regex,
    Reject,
    RemoveFlag,
    Replace,
    Require,
    Ret,
    Return,
    Seconds,
    ServerMetadata,
    ServerMetadataExists,
    SetVar,
    SetFlag,
    Size,
    SpamTest,
    SpecialUse,
    SpecialUseExists,
    Stop,
    String,
    Subject,
    Subtype,
    Text,
    True,
    Type,
    Under,
    UniqueId,
    Upper,
    UpperFirst,
    User,
    Vacation,
    ValidExtList,
    ValidNotifyMethod,
    Value,
    VirusTest,
    Zone,
}

/// The characters that a run of bytes spells, one character per byte.
pub open spec fn chars_of(b: Seq<u8>) -> Seq<char> {
    Seq::new(b.len(), |i: int| b[i] as char)
}

/// Whether a run of bytes spells the given string, character for character.
pub fn ident_is(b: &Vec<u8>, s: &str) -> (r: bool)
    ensures
        r == (chars_of(b@) == s@),
{
    let n = s.unicode_len();
    if b.len() != n {
        return false;
    }
    let mut i: usize = 0;
    while i < n
        invariant
            i <= n,
            n == s@.len(),
            b@.len() == n,
            forall|j: int| 0 <= j < i ==> chars_of(b@)[j] == s@[j],
        decreases n - i,
    {
        let c = s.get_char(i);
        if (b[i] as char) != c {
            proof {
                assert(chars_of(b@)[i as int] != s@[i as int]);
            }
            return false;
        }
        i += 1;
    }
    proof {
        assert(chars_of(b@) =~= s@);
    }
    true
}

pub open spec fn word_spec_0(s: Seq<char>) -> Option<Word> {
    if s == "addflag"@ { Some(Word::AddFlag) }
    else if s == "addheader"@ { Some(Word::AddHeader) }
    else if s == "address"@ { Some(Word::Address) }
    else if s == "addresses"@ { Some(Word::Addresses) }
    else if s == "all"@ { Some(Word::All) }
    else if s == "allof"@ { Some(Word::AllOf) }
    else if s == "anychild"@ { Some(Word::AnyChild) }
    else if s == "anyof"@ { Some(Word::AnyOf) }
    else if s == "body"@ { Some(Word::Body) }
    else if s == "break"@ { Some(Word::Break) }
    else if s == "bymode"@ { Some(Word::ByMode) }
    else if s == "bytimeabsolute"@ { Some(Word::ByTimeAbsolute) }
    else if s == "bytimerelative"@ { Some(Word::ByTimeRelative) }
    else if s == "bytrace"@ { Some(Word::ByTrace) }
    else if s == "comparator"@ { Some(Word::Comparator) }
    else if s == "contains"@ { Some(Word::Contains) }
    else if s == "content"@ { Some(Word::Content) }
    else if s == "contenttype"@ { Some(Word::ContentType) }
    else if s == "convert"@ { Some(Word::Convert) }
    else if s == "copy"@ { Some(Word::Copy) }
    else if s == "count"@ { Some(Word::Count) }
    else if s == "create"@ { Some(Word::Create) }
    else if s == "currentdate"@ { Some(Word::CurrentDate) }
    else if s == "date"@ { Some(Word::Date) }
    else if s == "days"@ { Some(Word::Days) }
    else if s == "deleteheader"@ { Some(Word::DeleteHeader) }
    else if s == "detail"@ { Some(Word::Detail) }
    else if s == "discard"@ { Some(Word::Discard) }
    else if s == "domain"@ { Some(Word::Domain) }
    else if s == "duplicate"@ { Some(Word::Duplicate) }
    else if s == "else"@ { Some(Word::Else) }
    else { None }
}

pub open spec fn word_spec_1(s: Seq<char>) -> Option<Word> {
    if s == "elsif"@ { Some(Word::ElsIf) }
    else if s == "enclose"@ { Some(Word::Enclose) }
    else if s == "encodeurl"@ { Some(Word::EncodeUrl) }
    else if s == "envelope"@ { Some(Word::Envelope) }
    else if s == "environment"@ { Some(Word::Environment) }
    else if s == "ereject"@ { Some(Word::Ereject) }
    else if s == "error"@ { Some(Word::Error) }
    else if s == "exists"@ { Some(Word::Exists) }
    else if s == "extracttext"@ { Some(Word::ExtractText) }
    else if s == "false"@ { Some(Word::False) }
    else if s == "fcc"@ { Some(Word::Fcc) }
    else if s == "fileinto"@ { Some(Word::FileInto) }
    else if s == "first"@ { Some(Word::First) }
    else if s == "flags"@ { Some(Word::Flags) }
    else if s == "foreverypart"@ { Some(Word::ForEveryPart) }
    else if s == "from"@ { Some(Word::From) }
    else if s == "global"@ { Some(Word::Global) }
    else if s == "handle"@ { Some(Word::Handle) }
    else if s == "hasflag"@ { Some(Word::HasFlag) }
    else if s == "header"@ { Some(Word::Header) }
    else if s == "headers"@ { Some(Word::Headers) }
    else if s == "if"@ { Some(Word::If) }
    else if s == "ihave"@ { Some(Word::Ihave) }
    else if s == "importance"@ { Some(Word::Importance) }
    else if s == "include"@ { Some(Word::Include) }
    else if s == "index"@ { Some(Word::Index) }
    else if s == "is"@ { Some(Word::Is) }
    else if s == "keep"@ { Some(Word::Keep) }
    else if s == "last"@ { Some(Word::Last) }
    else if s == "length"@ { Some(Word::Length) }
    else if s == "list"@ { Some(Word::List) }
    else { None }
}

pub open spec fn word_spec_2(s: Seq<char>) -> Option<Word> {
    if s == "localpart"@ { Some(Word::LocalPart) }
    else if s == "lower"@ { Some(Word::Lower) }
    else if s == "lowerfirst"@ { Some(Word::LowerFirst) }
    else if s == "mailboxexists"@ { Some(Word::MailboxExists) }
    else if s == "mailboxid"@ { Some(Word::MailboxId) }
    else if s == "mailboxidexists"@ { Some(Word::MailboxIdExists) }
    else if s == "matches"@ { Some(Word::Matches) }
    else if s == "message"@ { Some(Word::Message) }
    else if s == "metadata"@ { Some(Word::Metadata) }
    else if s == "metadataexists"@ { Some(Word::MetadataExists) }
    else if s == "mime"@ { Some(Word::Mime) }
    else if s == "name"@ { Some(Word::Name) }
    else if s == "not"@ { Some(Word::Not) }
    else if s == "notify"@ { Some(Word::Notify) }
    else if s == "notify_method_capability"@ { Some(Word::NotifyMethodCapability) }
    else if s == "once"@ { Some(Word::Once) }
    else if s == "optional"@ { Some(Word::Optional) }
    else if s == "options"@ { Some(Word::Options) }
    else if s == "originalzone"@ { Some(Word::OriginalZone) }
    else if s == "over"@ { Some(Word::Over) }
    else if s == "param"@ { Some(Word::Param) }
    else if s == "percent"@ { Some(Word::Percent) }
    else if s == "personal"@ { Some(Word::Personal) }
    else if s == "quoteregex"@ { Some(Word::QuoteRegex) }
    else if s == "quotewildcard"@ { Some(Word::QuoteWildcard) }
    else if s == "raw"@ { Some(Word::Raw) }
    else if s == "redirect"@ { Some(Word::Redirect) }
    else if s == "regex"@ { Some(Word::Regex) }
    else if s == "reject"@ { Some(Word::Reject) }
    else if s == "removeflag"@ { Some(Word::RemoveFlag) }
    else if s == "replace"@ { Some(Word::Replace) }
    else { None }
}

pub open spec fn word_spec_3(s: Seq<char>) -> Option<Word> {
    if s == "require"@ { Some(Word::Require) }
    else if s == "ret"@ { Some(Word::Ret) }
    else if s == "return"@ { Some(Word::Return) }
    else if s == "seconds"@ { Some(Word::Seconds) }
    else if s == "servermetadata"@ { Some(Word::ServerMetadata) }
    else if s == "servermetadataexists"@ { Some(Word::ServerMetadataExists) }
    else if s == "set"@ { Some(Word::SetVar) }
    else if s == "setflag"@ { Some(Word::SetFlag) }
    else if s == "size"@ { Some(Word::Size) }
    else if s == "spamtest"@ { Some(Word::SpamTest) }
    else if s == "specialuse"@ { Some(Word::SpecialUse) }
    else if s == "specialuse_exists"@ { Some(Word::SpecialUseExists) }
    else if s == "stop"@ { Some(Word::Stop) }
    else if s == "string"@ { Some(Word::String) }
    else if s == "subject"@ { Some(Word::Subject) }
    else if s == "subtype"@ { Some(Word::Subtype) }
    else if s == "text"@ { Some(Word::Text) }
    else if s == "true"@ { Some(Word::True) }
    else if s == "type"@ { Some(Word::Type) }
    else if s == "under"@ { Some(Word::Under) }
    else if s == "uniqueid"@ { Some(Word::UniqueId) }
    else if s == "upper"@ { Some(Word::Upper) }
    else if s == "upperfirst"@ { Some(Word::UpperFirst) }
    else if s == "user"@ { Some(Word::User) }
    else if s == "vacation"@ { Some(Word::Vacation) }
    else if s == "valid_ext_list"@ { Some(Word::ValidExtList) }
    else if s == "valid_notify_method"@ { Some(Word::ValidNotifyMethod) }
    else if s == "value"@ { Some(Word::Value) }
    else if s == "virustest"@ { Some(Word::VirusTest) }
    else if s == "zone"@ { Some(Word::Zone) }
    else { None }
}

/// The keyword, if any, that a lower-cased identifier spells.
pub open spec fn word_spec(s: Seq<char>) -> Option<Word> {
    if word_spec_0(s) is Some { word_spec_0(s) } else if word_spec_1(s) is Some { word_spec_1(s) } else if word_spec_2(s) is Some { word_spec_2(s) } else if word_spec_3(s) is Some { word_spec_3(s) } else { None }
}

fn word_lookup_0(name: &Vec<u8>) -> (r: Option<Word>)
    ensures
        r == word_spec_0(chars_of(name@)),
{
    if ident_is(name, "addflag") {
        Some(Word::AddFlag)
    } else if ident_is(name, "addheader") {
        Some(Word::AddHeader)
    } else if ident_is(name, "address") {
        Some(Word::Address)
    } else if ident_is(name, "addresses") {
        Some(Word::Addresses)
    } else if ident_is(name, "all") {
        Some(Word::All)
    } else if ident_is(name, "allof") {
        Some(Word::AllOf)
    } else if ident_is(name, "anychild") {
        Some(Word::AnyChild)
    } else if ident_is(name, "anyof") {
        Some(Word::AnyOf)
    } else if ident_is(name, "body") {
        Some(Word::Body)
    } else if ident_is(name, "break") {
        Some(Word::Break)
    } else if ident_is(name, "bymode") {
        Some(Word::ByMode)
    } else if ident_is(name, "bytimeabsolute") {
        Some(Word::ByTimeAbsolute)
    } else if ident_is(name, "bytimerelative") {
        Some(Word::ByTimeRelative)
    } else if ident_is(name, "bytrace") {
        Some(Word::ByTrace)
    } else if ident_is(name, "comparator") {
        Some(Word::Comparator)
    } else if ident_is(name, "contains") {
        Some(Word::Contains)
    } else if ident_is(name, "content") {
        Some(Word::Content)
    } else if ident_is(name, "contenttype") {
        Some(Word::ContentType)
    } else if ident_is(name, "convert") {
        Some(Word::Convert)
    } else if ident_is(name, "copy") {
        Some(Word::Copy)
    } else if ident_is(name, "count") {
        Some(Word::Count)
    } else if ident_is(name, "create") {
        Some(Word::Create)
    } else if ident_is(name, "currentdate") {
        Some(Word::CurrentDate)
    } else if ident_is(name, "date") {
        Some(Word::Date)
    } else if ident_is(name, "days") {
        Some(Word::Days)
    } else if ident_is(name, "deleteheader") {
        Some(Word::DeleteHeader)
    } else if ident_is(name, "detail") {
        Some(Word::Detail)
    } else if ident_is(name, "discard") {
        Some(Word::Discard)
    } else if ident_is(name, "domain") {
        Some(Word::Domain)
    } else if ident_is(name, "duplicate") {
        Some(Word::Duplicate)
    } else if ident_is(name, "else") {
        Some(Word::Else)
    } else {
        None
    }
}

fn word_lookup_1(name: &Vec<u8>) -> (r: Option<Word>)
    ensures
        r == word_spec_1(chars_of(name@)),
{
    if ident_is(name, "elsif") {
        Some(Word::ElsIf)
    } else if ident_is(name, "enclose") {
        Some(Word::Enclose)
    } else if ident_is(name, "encodeurl") {
        Some(Word::EncodeUrl)
    } else if ident_is(name, "envelope") {
        Some(Word::Envelope)
    } else if ident_is(name, "environment") {
        Some(Word::Environment)
    } else if ident_is(name, "ereject") {
        Some(Word::Ereject)
    } else if ident_is(name, "error") {
        Some(Word::Error)
    } else if ident_is(name, "exists") {
        Some(Word::Exists)
    } else if ident_is(name, "extracttext") {
        Some(Word::ExtractText)
    } else if ident_is(name, "false") {
        Some(Word::False)
    } else if ident_is(name, "fcc") {
        Some(Word::Fcc)
    } else if ident_is(name, "fileinto") {
        Some(Word::FileInto)
    } else if ident_is(name, "first") {
        Some(Word::First)
    } else if ident_is(name, "flags") {
        Some(Word::Flags)
    } else if ident_is(name, "foreverypart") {
        Some(Word::ForEveryPart)
    } else if ident_is(name, "from") {
        Some(Word::From)
    } else if ident_is(name, "global") {
        Some(Word::Global)
    } else if ident_is(name, "handle") {
        Some(Word::Handle)
    } else if ident_is(name, "hasflag") {
        Some(Word::HasFlag)
    } else if ident_is(name, "header") {
        Some(Word::Header)
    } else if ident_is(name, "headers") {
        Some(Word::Headers)
    } else if ident_is(name, "if") {
        Some(Word::If)
    } else if ident_is(name, "ihave") {
        Some(Word::Ihave)
    } else if ident_is(name, "importance") {
        Some(Word::Importance)
    } else if ident_is(name, "include") {
        Some(Word::Include)
    } else if ident_is(name, "index") {
        Some(Word::Index)
    } else if ident_is(name, "is") {
        Some(Word::Is)
    } else if ident_is(name, "keep") {
        Some(Word::Keep)
    } else if ident_is(name, "last") {
        Some(Word::Last)
    } else if ident_is(name, "length") {
        Some(Word::Length)
    } else if ident_is(name, "list") {
        Some(Word::List)
    } else {
        None
    }
}

fn word_lookup_2(name: &Vec<u8>) -> (r: Option<Word>)
    ensures
        r == word_spec_2(chars_of(name@)),
{
    if ident_is(name, "localpart") {
        Some(Word::LocalPart)
    } else if ident_is(name, "lower") {
        Some(Word::Lower)
    } else if ident_is(name, "lowerfirst") {
        Some(Word::LowerFirst)
    } else if ident_is(name, "mailboxexists") {
        Some(Word::MailboxExists)
    } else if ident_is(name, "mailboxid") {
        Some(Word::MailboxId)
    } else if ident_is(name, "mailboxidexists") {
        Some(Word::MailboxIdExists)
    } else if ident_is(name, "matches") {
        Some(Word::Matches)
    } else if ident_is(name, "message") {
        Some(Word::Message)
    } else if ident_is(name, "metadata") {
        Some(Word::Metadata)
    } else if ident_is(name, "metadataexists") {
        Some(Word::MetadataExists)
    } else if ident_is(name, "mime") {
        Some(Word::Mime)
    } else if ident_is(name, "name") {
        Some(Word::Name)
    } else if ident_is(name, "not") {
        Some(Word::Not)
    } else if ident_is(name, "notify") {
        Some(Word::Notify)
    } else if ident_is(name, "notify_method_capability") {
        Some(Word::NotifyMethodCapability)
    } else if ident_is(name, "once") {
        Some(Word::Once)
    } else if ident_is(name, "optional") {
        Some(Word::Optional)
    } else if ident_is(name, "options") {
        Some(Word::Options)
    } else if ident_is(name, "originalzone") {
        Some(Word::OriginalZone)
    } else if ident_is(name, "over") {
        Some(Word::Over)
    } else if ident_is(name, "param") {
        Some(Word::Param)
    } else if ident_is(name, "percent") {
        Some(Word::Percent)
    } else if ident_is(name, "personal") {
        Some(Word::Personal)
    } else if ident_is(name, "quoteregex") {
        Some(Word::QuoteRegex)
    } else if ident_is(name, "quotewildcard") {
        Some(Word::QuoteWildcard)
    } else if ident_is(name, "raw") {
        Some(Word::Raw)
    } else if ident_is(name, "redirect") {
        Some(Word::Redirect)
    } else if ident_is(name, "regex") {
        Some(Word::Regex)
    } else if ident_is(name, "reject") {
        Some(Word::Reject)
    } else if ident_is(name, "removeflag") {
        Some(Word::RemoveFlag)
    } else if ident_is(name, "replace") {
        Some(Word::Replace)
    } else {
        None
    }
}

fn word_lookup_3(name: &Vec<u8>) -> (r: Option<Word>)
    ensures
        r == word_spec_3(chars_of(name@)),
{
    if ident_is(name, "require") {
        Some(Word::Require)
    } else if ident_is(name, "ret") {
        Some(Word::Ret)
    } else if ident_is(name, "return") {
        Some(Word::Return)
    } else if ident_is(name, "seconds") {
        Some(Word::Seconds)
    } else if ident_is(name, "servermetadata") {
        Some(Word::ServerMetadata)
    } else if ident_is(name, "servermetadataexists") {
        Some(Word::ServerMetadataExists)
    } else if ident_is(name, "set") {
        Some(Word::SetVar)
    } else if ident_is(name, "setflag") {
        Some(Word::SetFlag)
    } else if ident_is(name, "size") {
        Some(Word::Size)
    } else if ident_is(name, "spamtest") {
        Some(Word::SpamTest)
    } else if ident_is(name, "specialuse") {
        Some(Word::SpecialUse)
    } else if ident_is(name, "specialuse_exists") {
        Some(Word::SpecialUseExists)
    } else if ident_is(name, "stop") {
        Some(Word::Stop)
    } else if ident_is(name, "string") {
        Some(Word::String)
    } else if ident_is(name, "subject") {
        Some(Word::Subject)
    } else if ident_is(name, "subtype") {
        Some(Word::Subtype)
    } else if ident_is(name, "text") {
        Some(Word::Text)
    } else if ident_is(name, "true") {
        Some(Word::True)
    } else if ident_is(name, "type") {
        Some(Word::Type)
    } else if ident_is(name, "under") {
        Some(Word::Under)
    } else if ident_is(name, "uniqueid") {
        Some(Word::UniqueId)
    } else if ident_is(name, "upper") {
        Some(Word::Upper)
    } else if ident_is(name, "upperfirst") {
        Some(Word::UpperFirst)
    } else if ident_is(name, "user") {
        Some(Word::User)
    } else if ident_is(name, "vacation") {
        Some(Word::Vacation)
    } else if ident_is(name, "valid_ext_list") {
        Some(Word::ValidExtList)
    } else if ident_is(name, "valid_notify_method") {
        Some(Word::ValidNotifyMethod)
    } else if ident_is(name, "value") {
        Some(Word::Value)
    } else if ident_is(name, "virustest") {
        Some(Word::VirusTest)
    } else if ident_is(name, "zone") {
        Some(Word::Zone)
    } else {
        None
    }
}

/// Looks a lower-cased identifier up in the keyword table.
pub fn word_lookup(name: &Vec<u8>) -> (r: Option<Word>)
    ensures
        r == word_spec(chars_of(name@)),
{
    let mut r = word_lookup_0(name);
    if r.is_none() {
        r = word_lookup_1(name);
    }
    if r.is_none() {
        r = word_lookup_2(name);
    }
    if r.is_none() {
        r = word_lookup_3(name);
    }
    r
}

pub open spec fn word_name_spec(w: Word) -> Seq<char> {
    match w {
        Word::AddFlag => "addflag"@,
        Word::AddHeader => "addheader"@,
        Word::Address => "address"@,
        Word::Addresses => "addresses"@,
        Word::All => "all"@,
        Word::AllOf => "allof"@,
        Word::AnyChild => "anychild"@,
        Word::AnyOf => "anyof"@,
        Word::Body => "body"@,
        Word::Break => "break"@,
        Word::ByMode => "bymode"@,
        Word::ByTimeAbsolute => "bytimeabsolute"@,
        Word::ByTimeRelative => "bytimerelative"@,
        Word::ByTrace => "bytrace"@,
        Word::Comparator => "comparator"@,
        Word::Contains => "contains"@,
        Word::Content => "content"@,
        Word::ContentType => "contenttype"@,
        Word::Convert => "convert"@,
        Word::Copy => "copy"@,
        Word::Count => "count"@,
        Word::Create => "create"@,
        Word::CurrentDate => "currentdate"@,
        Word::Date => "date"@,
        Word::Days => "days"@,
        Word::DeleteHeader => "deleteheader"@,
        Word::Detail => "detail"@,
        Word::Discard => "discard"@,
        Word::Domain => "domain"@,
        Word::Duplicate => "duplicate"@,
        Word::Else => "else"@,
        Word::ElsIf => "elsif"@,
        Word::Enclose => "enclose"@,
        Word::EncodeUrl => "encodeurl"@,
        Word::Envelope => "envelope"@,
        Word::Environment => "environment"@,
        Word::Ereject => "ereject"@,
        Word::Error => "error"@,
        Word::Exists => "exists"@,
        Word::ExtractText => "extracttext"@,
        Word::False => "false"@,
        Word::Fcc => "fcc"@,
        Word::FileInto => "fileinto"@,
        Word::First => "first"@,
        Word::Flags => "flags"@,
        Word::ForEveryPart => "foreverypart"@,
        Word::From => "from"@,
        Word::Global => "global"@,
        Word::Handle => "handle"@,
        Word::HasFlag => "hasflag"@,
        Word::Header => "header"@,
        Word::Headers => "headers"@,
        Word::If => "if"@,
        Word::Ihave => "ihave"@,
        Word::Importance => "importance"@,
        Word::Include => "include"@,
        Word::Index => "index"@,
        Word::Is => "is"@,
        Word::Keep => "keep"@,
        Word::Last => "last"@,
        Word::Length => "length"@,
        Word::List => "list"@,
        Word::LocalPart => "localpart"@,
        Word::Lower => "lower"@,
        Word::LowerFirst => "lowerfirst"@,
        Word::MailboxExists => "mailboxexists"@,
        Word::MailboxId => "mailboxid"@,
        Word::MailboxIdExists => "mailboxidexists"@,
        Word::Matches => "matches"@,
        Word::Message => "message"@,
        Word::Metadata => "metadata"@,
        Word::MetadataExists => "metadataexists"@,
        Word::Mime => "mime"@,
        Word::Name => "name"@,
        Word::Not => "not"@,
        Word::Notify => "notify"@,
        Word::NotifyMethodCapability => "notify_method_capability"@,
        Word::Once => "once"@,
        Word::Optional => "optional"@,
        Word::Options => "options"@,
        Word::OriginalZone => "originalzone"@,
        Word::Over => "over"@,
        Word::Param => "param"@,
        Word::Percent => "percent"@,
        Word::Personal => "personal"@,
        Word::QuoteRegex => "quoteregex"@,
        Word::QuoteWildcard => "quotewildcard"@,
        Word::Raw => "raw"@,
        Word::Redirect => "redirect"@,
        Word::Regex => "regex"@,
        Word::Reject => "reject"@,
        Word::RemoveFlag => "removeflag"@,
        Word::Replace => "replace"@,
        Word::Require => "require"@,
        Word::Ret => "ret"@,
        Word::Return => "return"@,
        Word::Seconds => "seconds"@,
        Word::ServerMetadata => "servermetadata"@,
        Word::ServerMetadataExists => "servermetadataexists"@,
        Word::SetVar => "set"@,
        Word::SetFlag => "setflag"@,
        Word::Size => "size"@,
        Word::SpamTest => "spamtest"@,
        Word::SpecialUse => "specialuse"@,
        Word::SpecialUseExists => "specialuse_exists"@,
        Word::Stop => "stop"@,
        Word::String => "string"@,
        Word::Subject => "subject"@,
        Word::Subtype => "subtype"@,
        Word::Text => "text"@,
        Word::True => "true"@,
        Word::Type => "type"@,
        Word::Under => "under"@,
        Word::UniqueId => "uniqueid"@,
        Word::Upper => "upper"@,
        Word::UpperFirst => "upperfirst"@,
        Word::User => "user"@,
        Word::Vacation => "vacation"@,
        Word::ValidExtList => "valid_ext_list"@,
        Word::ValidNotifyMethod => "valid_notify_method"@,
        Word::Value => "value"@,
        Word::VirusTest => "virustest"@,
        Word::Zone => "zone"@,
    }
}

/// The canonical (lower-case) spelling of a keyword.
pub fn word_name(w: Word) -> (r: &'static str)
    ensures
        r@ == word_name_spec(w),
{
    match w {
        Word::AddFlag => "addflag",
        Word::AddHeader => "addheader",
        Word::Address => "address",
        Word::Addresses => "addresses",
        Word::All => "all",
        Word::AllOf => "allof",
        Word::AnyChild => "anychild",
        Word::AnyOf => "anyof",
        Word::Body => "body",
        Word::Break => "break",
        Word::ByMode => "bymode",
        Word::ByTimeAbsolute => "bytimeabsolute",
        Word::ByTimeRelative => "bytimerelative",
        Word::ByTrace => "bytrace",
        Word::Comparator => "comparator",
        Word::Contains => "contains",
        Word::Content => "content",
        Word::ContentType => "contenttype",
        Word::Convert => "convert",
        Word::Copy => "copy",
        Word::Count => "count",
        Word::Create => "create",
        Word::CurrentDate => "currentdate",
        Word::Date => "date",
        Word::Days => "days",
        Word::DeleteHeader => "deleteheader",
        Word::Detail => "detail",
        Word::Discard => "discard",
        Word::Domain => "domain",
        Word::Duplicate => "duplicate",
        Word::Else => "else",
        Word::ElsIf => "elsif",
        Word::Enclose => "enclose",
        Word::EncodeUrl => "encodeurl",
        Word::Envelope => "envelope",
        Word::Environment => "environment",
        Word::Ereject => "ereject",
        Word::Error => "error",
        Word::Exists => "exists",
        Word::ExtractText => "extracttext",
        Word::False => "false",
        Word::Fcc => "fcc",
        Word::FileInto => "fileinto",
        Word::First => "first",
        Word::Flags => "flags",
        Word::ForEveryPart => "foreverypart",
        Word::From => "from",
        Word::Global => "global",
        Word::Handle => "handle",
        Word::HasFlag => "hasflag",
        Word::Header => "header",
        Word::Headers => "headers",
        Word::If => "if",
        Word::Ihave => "ihave",
        Word::Importance => "importance",
        Word::Include => "include",
        Word::Index => "index",
        Word::Is => "is",
        Word::Keep => "keep",
        Word::Last => "last",
        Word::Length => "length",
        Word::List => "list",
        Word::LocalPart => "localpart",
        Word::Lower => "lower",
        Word::LowerFirst => "lowerfirst",
        Word::MailboxExists => "mailboxexists",
        Word::MailboxId => "mailboxid",
        Word::MailboxIdExists => "mailboxidexists",
        Word::Matches => "matches",
        Word::Message => "message",
        Word::Metadata => "metadata",
        Word::MetadataExists => "metadataexists",
        Word::Mime => "mime",
        Word::Name => "name",
        Word::Not => "not",
        Word::Notify => "notify",
        Word::NotifyMethodCapability => "notify_method_capability",
        Word::Once => "once",
        Word::Optional => "optional",
        Word::Options => "options",
        Word::OriginalZone => "originalzone",
        Word::Over => "over",
        Word::Param => "param",
        Word::Percent => "percent",
        Word::Personal => "personal",
        Word::QuoteRegex => "quoteregex",
        Word::QuoteWildcard => "quotewildcard",
        Word::Raw => "raw",
        Word::Redirect => "redirect",
        Word::Regex => "regex",
        Word::Reject => "reject",
        Word::RemoveFlag => "removeflag",
        Word::Replace => "replace",
        Word::Require => "require",
        Word::Ret => "ret",
        Word::Return => "return",
        Word::Seconds => "seconds",
        Word::ServerMetadata => "servermetadata",
        Word::ServerMetadataExists => "servermetadataexists",
        Word::SetVar => "set",
        Word::SetFlag => "setflag",
        Word::Size => "size",
        Word::SpamTest => "spamtest",
        Word::SpecialUse => "specialuse",
        Word::SpecialUseExists => "specialuse_exists",
        Word::Stop => "stop",
        Word::String => "string",
        Word::Subject => "subject",
        Word::Subtype => "subtype",
        Word::Text => "text",
        Word::True => "true",
        Word::Type => "type",
        Word::Under => "under",
        Word::UniqueId => "uniqueid",
        Word::Upper => "upper",
        Word::UpperFirst => "upperfirst",
        Word::User => "user",
        Word::Vacation => "vacation",
        Word::ValidExtList => "valid_ext_list",
        Word::ValidNotifyMethod => "valid_notify_method",
        Word::Value => "value",
        Word::VirusTest => "virustest",
        Word::Zone => "zone",
    }
}

} // verus!
