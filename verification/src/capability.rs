use vstd::prelude::*;

use crate::words::ident_is;

verus! {

/// A comparator name, as used by the `comparator-` capability family.
#[derive(Clone, PartialEq, Eq, Debug)]
pub enum Comparator {
    Octet,
    AsciiCaseMap,
    AsciiNumeric,
    Other(Vec<u8>),
}

/// An extension identifier that a `require` command can bring into scope.
#[derive(Clone, PartialEq, Eq, Debug)]
pub enum Capability {
    Envelope,
    EnvelopeDsn,
    EnvelopeDeliverBy,
    FileInto,
    EncodedCharacter,
    Body,
    ConvertCap,
    Copy,
    Relational,
    Date,
    Index,
    Duplicate,
    Variables,
    EditHeader,
    ForEveryPart,
    Mime,
    Replace,
    Enclose,
    ExtractText,
    Enotify,
    SubAddress,
    Vacation,
    VacationSeconds,
    Fcc,
    Mailbox,
    MailboxId,
    MboxMetadata,
    ServerMetadata,
    SpecialUse,
    Imap4Flags,
    Ihave,
    ImapSieve,
    Include,
    Regex,
    Reject,
    Ereject,
    SpamTest,
    SpamTestPlus,
    VirusTest,
    Comparator(Comparator),
    Other(Vec<u8>),
}

/// The capability a known name spells, if any; names are case-sensitive.
pub open spec fn known_capability_spec(s: Seq<char>) -> Option<Capability> {
    if s == "envelope"@ { Some(Capability::Envelope) }
    else if s == "envelope-dsn"@ { Some(Capability::EnvelopeDsn) }
    else if s == "envelope-deliverby"@ { Some(Capability::EnvelopeDeliverBy) }
    else if s == "fileinto"@ { Some(Capability::FileInto) }
    else if s == "encoded-character"@ { Some(Capability::EncodedCharacter) }
    else if s == "body"@ { Some(Capability::Body) }
    else if s == "convert"@ { Some(Capability::ConvertCap) }
    else if s == "copy"@ { Some(Capability::Copy) }
    else if s == "relational"@ { Some(Capability::Relational) }
    else if s == "date"@ { Some(Capability::Date) }
    else if s == "index"@ { Some(Capability::Index) }
    else if s == "duplicate"@ { Some(Capability::Duplicate) }
    else if s == "variables"@ { Some(Capability::Variables) }
    else if s == "editheader"@ { Some(Capability::EditHeader) }
    else if s == "foreverypart"@ { Some(Capability::ForEveryPart) }
    else if s == "mime"@ { Some(Capability::Mime) }
    else if s == "replace"@ { Some(Capability::Replace) }
    else if s == "enclose"@ { Some(Capability::Enclose) }
    else if s == "extracttext"@ { Some(Capability::ExtractText) }
    else if s == "enotify"@ { Some(Capability::Enotify) }
    else if s == "subaddress"@ { Some(Capability::SubAddress) }
    else if s == "vacation"@ { Some(Capability::Vacation) }
    else if s == "vacation-seconds"@ { Some(Capability::VacationSeconds) }
    else if s == "fcc"@ { Some(Capability::Fcc) }
    else if s == "mailbox"@ { Some(Capability::Mailbox) }
    else if s == "mailboxid"@ { Some(Capability::MailboxId) }
    else if s == "mboxmetadata"@ { Some(Capability::MboxMetadata) }
    else if s == "servermetadata"@ { Some(Capability::ServerMetadata) }
    else if s == "special-use"@ { Some(Capability::SpecialUse) }
    else if s == "imap4flags"@ { Some(Capability::Imap4Flags) }
    else if s == "ihave"@ { Some(Capability::Ihave) }
    else if s == "imapsieve"@ { Some(Capability::ImapSieve) }
    else if s == "include"@ { Some(Capability::Include) }
    else if s == "regex"@ { Some(Capability::Regex) }
    else if s == "reject"@ { Some(Capability::Reject) }
    else if s == "ereject"@ { Some(Capability::Ereject) }
    else if s == "spamtest"@ { Some(Capability::SpamTest) }
    else if s == "spamtestplus"@ { Some(Capability::SpamTestPlus) }
    else if s == "virustest"@ { Some(Capability::VirusTest) }
    else if s == "comparator-i;octet"@ { Some(Capability::Comparator(Comparator::Octet)) }
    else if s == "comparator-i;ascii-casemap"@ { Some(Capability::Comparator(Comparator::AsciiCaseMap)) }
    else if s == "comparator-i;ascii-numeric"@ { Some(Capability::Comparator(Comparator::AsciiNumeric)) }
    else { None }
}

/// Reads a capability name; an unknown name is kept as itself so that a
/// script may require extensions this library does not interpret.
pub fn capability_from_name(name: &Vec<u8>) -> (r: Capability)
    ensures
        match known_capability_spec(crate::words::chars_of(name@)) {
            Some(c) => r == c,
            None => r matches Capability::Other(b) && b@ == name@,
        },
{
    if ident_is(name, "envelope") {
        Capability::Envelope
    } else if ident_is(name, "envelope-dsn") {
        Capability::EnvelopeDsn
    } else if ident_is(name, "envelope-deliverby") {
        Capability::EnvelopeDeliverBy
    } else if ident_is(name, "fileinto") {
        Capability::FileInto
    } else if ident_is(name, "encoded-character") {
        Capability::EncodedCharacter
    } else if ident_is(name, "body") {
        Capability::Body
    } else if ident_is(name, "convert") {
        Capability::ConvertCap
    } else if ident_is(name, "copy") {
        Capability::Copy
    } else if ident_is(name, "relational") {
        Capability::Relational
    } else if ident_is(name, "date") {
        Capability::Date
    } else if ident_is(name, "index") {
        Capability::Index
    } else if ident_is(name, "duplicate") {
        Capability::Duplicate
    } else if ident_is(name, "variables") {
        Capability::Variables
    } else if ident_is(name, "editheader") {
        Capability::EditHeader
    } else if ident_is(name, "foreverypart") {
        Capability::ForEveryPart
    } else if ident_is(name, "mime") {
        Capability::Mime
    } else if ident_is(name, "replace") {
        Capability::Replace
    } else if ident_is(name, "enclose") {
        Capability::Enclose
    } else if ident_is(name, "extracttext") {
        Capability::ExtractText
    } else if ident_is(name, "enotify") {
        Capability::Enotify
    } else if ident_is(name, "subaddress") {
        Capability::SubAddress
    } else if ident_is(name, "vacation") {
        Capability::Vacation
    } else if ident_is(name, "vacation-seconds") {
        Capability::VacationSeconds
    } else if ident_is(name, "fcc") {
        Capability::Fcc
    } else if ident_is(name, "mailbox") {
        Capability::Mailbox
    } else if ident_is(name, "mailboxid") {
        Capability::MailboxId
    } else if ident_is(name, "mboxmetadata") {
        Capability::MboxMetadata
    } else if ident_is(name, "servermetadata") {
        Capability::ServerMetadata
    } else if ident_is(name, "special-use") {
        Capability::SpecialUse
    } else if ident_is(name, "imap4flags") {
        Capability::Imap4Flags
    } else if ident_is(name, "ihave") {
        Capability::Ihave
    } else if ident_is(name, "imapsieve") {
        Capability::ImapSieve
    } else if ident_is(name, "include") {
        Capability::Include
    } else if ident_is(name, "regex") {
        Capability::Regex
    } else if ident_is(name, "reject") {
        Capability::Reject
    } else if ident_is(name, "ereject") {
        Capability::Ereject
    } else if ident_is(name, "spamtest") {
        Capability::SpamTest
    } else if ident_is(name, "spamtestplus") {
        Capability::SpamTestPlus
    } else if ident_is(name, "virustest") {
        Capability::VirusTest
    } else if ident_is(name, "comparator-i;octet") {
        Capability::Comparator(Comparator::Octet)
    } else if ident_is(name, "comparator-i;ascii-casemap") {
        Capability::Comparator(Comparator::AsciiCaseMap)
    } else if ident_is(name, "comparator-i;ascii-numeric") {
        Capability::Comparator(Comparator::AsciiNumeric)
    } else {
        Capability::Other(crate::lexer::clone_bytes(name))
    }
}

/// Structural equality of comparators, byte payloads compared by content.
pub open spec fn comparator_eq_spec(a: Comparator, b: Comparator) -> bool {
    match (a, b) {
        (Comparator::Octet, Comparator::Octet) => true,
        (Comparator::AsciiCaseMap, Comparator::AsciiCaseMap) => true,
        (Comparator::AsciiNumeric, Comparator::AsciiNumeric) => true,
        (Comparator::Other(x), Comparator::Other(y)) => x@ == y@,
        _ => false,
    }
}

/// Structural equality of capabilities, byte payloads compared by content.
pub open spec fn capability_eq_spec(a: Capability, b: Capability) -> bool {
    match (a, b) {
        (Capability::Envelope, Capability::Envelope) => true,
        (Capability::EnvelopeDsn, Capability::EnvelopeDsn) => true,
        (Capability::EnvelopeDeliverBy, Capability::EnvelopeDeliverBy) => true,
        (Capability::FileInto, Capability::FileInto) => true,
        (Capability::EncodedCharacter, Capability::EncodedCharacter) => true,
        (Capability::Body, Capability::Body) => true,
        (Capability::ConvertCap, Capability::ConvertCap) => true,
        (Capability::Copy, Capability::Copy) => true,
        (Capability::Relational, Capability::Relational) => true,
        (Capability::Date, Capability::Date) => true,
        (Capability::Index, Capability::Index) => true,
        (Capability::Duplicate, Capability::Duplicate) => true,
        (Capability::Variables, Capability::Variables) => true,
        (Capability::EditHeader, Capability::EditHeader) => true,
        (Capability::ForEveryPart, Capability::ForEveryPart) => true,
        (Capability::Mime, Capability::Mime) => true,
        (Capability::Replace, Capability::Replace) => true,
        (Capability::Enclose, Capability::Enclose) => true,
        (Capability::ExtractText, Capability::ExtractText) => true,
        (Capability::Enotify, Capability::Enotify) => true,
        (Capability::SubAddress, Capability::SubAddress) => true,
        (Capability::Vacation, Capability::Vacation) => true,
        (Capability::VacationSeconds, Capability::VacationSeconds) => true,
        (Capability::Fcc, Capability::Fcc) => true,
        (Capability::Mailbox, Capability::Mailbox) => true,
        (Capability::MailboxId, Capability::MailboxId) => true,
        (Capability::MboxMetadata, Capability::MboxMetadata) => true,
        (Capability::ServerMetadata, Capability::ServerMetadata) => true,
        (Capability::SpecialUse, Capability::SpecialUse) => true,
        (Capability::Imap4Flags, Capability::Imap4Flags) => true,
        (Capability::Ihave, Capability::Ihave) => true,
        (Capability::ImapSieve, Capability::ImapSieve) => true,
        (Capability::Include, Capability::Include) => true,
        (Capability::Regex, Capability::Regex) => true,
        (Capability::Reject, Capability::Reject) => true,
        (Capability::Ereject, Capability::Ereject) => true,
        (Capability::SpamTest, Capability::SpamTest) => true,
        (Capability::SpamTestPlus, Capability::SpamTestPlus) => true,
        (Capability::VirusTest, Capability::VirusTest) => true,
        (Capability::Comparator(x), Capability::Comparator(y)) => comparator_eq_spec(x, y),
        (Capability::Other(x), Capability::Other(y)) => x@ == y@,
        _ => false,
    }
}

fn bytes_eq(a: &Vec<u8>, b: &Vec<u8>) -> (r: bool)
    ensures
        r == (a@ == b@),
{
    if a.len() != b.len() {
        return false;
    }
    let mut i: usize = 0;
    while i < a.len()
        invariant
            i <= a@.len(),
            a@.len() == b@.len(),
            forall|j: int| 0 <= j < i ==> a@[j] == b@[j],
        decreases a@.len() - i,
    {
        if a[i] != b[i] {
            return false;
        }
        i += 1;
    }
    proof {
        assert(a@ =~= b@);
    }
    true
}

fn comparator_eq(a: &Comparator, b: &Comparator) -> (r: bool)
    ensures
        r == comparator_eq_spec(*a, *b),
{
    match (a, b) {
        (Comparator::Octet, Comparator::Octet) => true,
        (Comparator::AsciiCaseMap, Comparator::AsciiCaseMap) => true,
        (Comparator::AsciiNumeric, Comparator::AsciiNumeric) => true,
        (Comparator::Other(x), Comparator::Other(y)) => bytes_eq(x, y),
        _ => false,
    }
}

/// Compares two capabilities by content.
pub fn capability_eq(a: &Capability, b: &Capability) -> (r: bool)
    ensures
        r == capability_eq_spec(*a, *b),
{
    match (a, b) {
        (Capability::Envelope, Capability::Envelope) => true,
        (Capability::EnvelopeDsn, Capability::EnvelopeDsn) => true,
        (Capability::EnvelopeDeliverBy, Capability::EnvelopeDeliverBy) => true,
        (Capability::FileInto, Capability::FileInto) => true,
        (Capability::EncodedCharacter, Capability::EncodedCharacter) => true,
        (Capability::Body, Capability::Body) => true,
        (Capability::ConvertCap, Capability::ConvertCap) => true,
        (Capability::Copy, Capability::Copy) => true,
        (Capability::Relational, Capability::Relational) => true,
        (Capability::Date, Capability::Date) => true,
        (Capability::Index, Capability::Index) => true,
        (Capability::Duplicate, Capability::Duplicate) => true,
        (Capability::Variables, Capability::Variables) => true,
        (Capability::EditHeader, Capability::EditHeader) => true,
        (Capability::ForEveryPart, Capability::ForEveryPart) => true,
        (Capability::Mime, Capability::Mime) => true,
        (Capability::Replace, Capability::Replace) => true,
        (Capability::Enclose, Capability::Enclose) => true,
        (Capability::ExtractText, Capability::ExtractText) => true,
        (Capability::Enotify, Capability::Enotify) => true,
        (Capability::SubAddress, Capability::SubAddress) => true,
        (Capability::Vacation, Capability::Vacation) => true,
        (Capability::VacationSeconds, Capability::VacationSeconds) => true,
        (Capability::Fcc, Capability::Fcc) => true,
        (Capability::Mailbox, Capability::Mailbox) => true,
        (Capability::MailboxId, Capability::MailboxId) => true,
        (Capability::MboxMetadata, Capability::MboxMetadata) => true,
        (Capability::ServerMetadata, Capability::ServerMetadata) => true,
        (Capability::SpecialUse, Capability::SpecialUse) => true,
        (Capability::Imap4Flags, Capability::Imap4Flags) => true,
        (Capability::Ihave, Capability::Ihave) => true,
        (Capability::ImapSieve, Capability::ImapSieve) => true,
        (Capability::Include, Capability::Include) => true,
        (Capability::Regex, Capability::Regex) => true,
        (Capability::Reject, Capability::Reject) => true,
        (Capability::Ereject, Capability::Ereject) => true,
        (Capability::SpamTest, Capability::SpamTest) => true,
        (Capability::SpamTestPlus, Capability::SpamTestPlus) => true,
        (Capability::VirusTest, Capability::VirusTest) => true,
        (Capability::Comparator(x), Capability::Comparator(y)) => comparator_eq(x, y),
        (Capability::Other(x), Capability::Other(y)) => bytes_eq(x, y),
        _ => false,
    }
}

/// Whether a capability is in a scope's list.
pub open spec fn has_capability_spec(list: Seq<Capability>, c: Capability) -> bool {
    exists|i: int| 0 <= i < list.len() && capability_eq_spec(#[trigger] list[i], c)
}

/// Looks a capability up in a scope's list.
pub fn has_capability(list: &Vec<Capability>, c: &Capability) -> (r: bool)
    ensures
        r == has_capability_spec(list@, *c),
{
    let mut i: usize = 0;
    while i < list.len()
        invariant
            i <= list@.len(),
            forall|j: int| 0 <= j < i ==> !capability_eq_spec(#[trigger] list@[j], *c),
        decreases list@.len() - i,
    {
        if capability_eq(&list[i], c) {
            return true;
        }
        i += 1;
    }
    false
}

/// The canonical spelling of a capability, for diagnostics.
pub fn capability_name(c: &Capability) -> (r: Vec<u8>)
{
    match c {
        Capability::Envelope => crate::lexer::str_to_bytes("envelope"),
        Capability::EnvelopeDsn => crate::lexer::str_to_bytes("envelope-dsn"),
        Capability::EnvelopeDeliverBy => crate::lexer::str_to_bytes("envelope-deliverby"),
        Capability::FileInto => crate::lexer::str_to_bytes("fileinto"),
        Capability::EncodedCharacter => crate::lexer::str_to_bytes("encoded-character"),
        Capability::Body => crate::lexer::str_to_bytes("body"),
        Capability::ConvertCap => crate::lexer::str_to_bytes("convert"),
        Capability::Copy => crate::lexer::str_to_bytes("copy"),
        Capability::Relational => crate::lexer::str_to_bytes("relational"),
        Capability::Date => crate::lexer::str_to_bytes("date"),
        Capability::Index => crate::lexer::str_to_bytes("index"),
        Capability::Duplicate => crate::lexer::str_to_bytes("duplicate"),
        Capability::Variables => crate::lexer::str_to_bytes("variables"),
        Capability::EditHeader => crate::lexer::str_to_bytes("editheader"),
        Capability::ForEveryPart => crate::lexer::str_to_bytes("foreverypart"),
        Capability::Mime => crate::lexer::str_to_bytes("mime"),
        Capability::Replace => crate::lexer::str_to_bytes("replace"),
        Capability::Enclose => crate::lexer::str_to_bytes("enclose"),
        Capability::ExtractText => crate::lexer::str_to_bytes("extracttext"),
        Capability::Enotify => crate::lexer::str_to_bytes("enotify"),
        Capability::SubAddress => crate::lexer::str_to_bytes("subaddress"),
        Capability::Vacation => crate::lexer::str_to_bytes("vacation"),
        Capability::VacationSeconds => crate::lexer::str_to_bytes("vacation-seconds"),
        Capability::Fcc => crate::lexer::str_to_bytes("fcc"),
        Capability::Mailbox => crate::lexer::str_to_bytes("mailbox"),
        Capability::MailboxId => crate::lexer::str_to_bytes("mailboxid"),
        Capability::MboxMetadata => crate::lexer::str_to_bytes("mboxmetadata"),
        Capability::ServerMetadata => crate::lexer::str_to_bytes("servermetadata"),
        Capability::SpecialUse => crate::lexer::str_to_bytes("special-use"),
        Capability::Imap4Flags => crate::lexer::str_to_bytes("imap4flags"),
        Capability::Ihave => crate::lexer::str_to_bytes("ihave"),
        Capability::ImapSieve => crate::lexer::str_to_bytes("imapsieve"),
        Capability::Include => crate::lexer::str_to_bytes("include"),
        Capability::Regex => crate::lexer::str_to_bytes("regex"),
        Capability::Reject => crate::lexer::str_to_bytes("reject"),
        Capability::Ereject => crate::lexer::str_to_bytes("ereject"),
        Capability::SpamTest => crate::lexer::str_to_bytes("spamtest"),
        Capability::SpamTestPlus => crate::lexer::str_to_bytes("spamtestplus"),
        Capability::VirusTest => crate::lexer::str_to_bytes("virustest"),
        Capability::Comparator(Comparator::Octet) => crate::lexer::str_to_bytes("comparator-i;octet"),
        Capability::Comparator(Comparator::AsciiCaseMap) => crate::lexer::str_to_bytes("comparator-i;ascii-casemap"),
        Capability::Comparator(Comparator::AsciiNumeric) => crate::lexer::str_to_bytes("comparator-i;ascii-numeric"),
        Capability::Comparator(Comparator::Other(x)) => crate::lexer::clone_bytes(x),
        Capability::Other(x) => crate::lexer::clone_bytes(x),
    }
}

} // verus!
