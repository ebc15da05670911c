use vstd::prelude::*;

use crate::capability::Capability;

verus! {

/// Which part of a message a variable can draw from.
#[derive(Clone, Debug, PartialEq, Eq)]
pub enum MessagePart {
    TextBody(bool),
    HtmlBody(bool),
    Contents,
    Raw,
}

/// Which part of an address a test inspects.
#[derive(Clone, Debug, PartialEq, Eq)]
pub enum AddressPart {
    All,
    LocalPart,
    Domain,
    User,
    Detail,
    Name,
}

/// Which facet of a header a variable reads.
#[derive(Debug, PartialEq, Eq)]
pub enum HeaderPart {
    Text,
    Date,
    Id,
    Address(AddressPart),
    ContentType(ContentTypePart),
    Received(ReceivedPart),
    Raw,
    RawName,
    Exists,
}

#[derive(Debug, PartialEq, Eq)]
pub enum ContentTypePart {
    Type,
    Subtype,
    Attribute(Vec<u8>),
}

#[derive(Debug, PartialEq, Eq)]
pub enum ReceivedPart {
    From(ReceivedHostname),
    FromIp,
    FromIpRev,
    By(ReceivedHostname),
    For,
    With,
    TlsVersion,
    TlsCipher,
    Id,
    Ident,
    Via,
    Date,
    DateRaw,
}

#[derive(Clone, Debug, PartialEq, Eq)]
pub enum ReceivedHostname {
    Name,
    Ip,
    Any,
}

/// An envelope field, as used by the envelope test and `set`.
#[derive(Clone, Copy, Debug, PartialEq, Eq, Structural)]
pub enum Envelope {
    From,
    To,
    ByTimeAbsolute,
    ByTimeRelative,
    ByMode,
    ByTrace,
    Notify,
    Orcpt,
    Ret,
    Envid,
}

/// A header read through a variable, with the wanted occurrence indices.
#[derive(Debug, PartialEq, Eq)]
pub struct HeaderVariable {
    pub name: Vec<Vec<u8>>,
    pub part: HeaderPart,
    pub index_hdr: i32,
    pub index_part: i32,
}

/// Where a variable lives.
#[derive(Debug, PartialEq, Eq)]
pub enum VariableType {
    Local(usize),
    Match(usize),
    Global(Vec<u8>),
    Environment(Vec<u8>),
    Envelope(Envelope),
    Header(HeaderVariable),
    Part(MessagePart),
}

/// A value an instruction operates on.
#[derive(Debug, PartialEq, Eq)]
pub enum Value {
    Text(Vec<u8>),
    Number(i64),
    Variable(VariableType),
    Regex(Vec<u8>),
    List(Vec<Value>),
}

/// A `set` modifier, applied to the value right to left.
#[derive(Debug, PartialEq, Eq)]
pub enum Modifier {
    Lower,
    Upper,
    LowerFirst,
    UpperFirst,
    QuoteWildcard,
    QuoteRegex,
    Length,
    EncodeUrl,
    Replace { find: Value, replace: Value },
}

/// How a test key is matched; `Matches` and `Regex` carry the bitmask of
/// match variables the test must fill.
#[derive(Clone, Debug, PartialEq, Eq)]
pub enum MatchType {
    Is,
    Contains,
    Matches(u64),
    Regex(u64),
    Count,
    ValueMatch,
}

/// A `header` test.
#[derive(Debug, PartialEq, Eq)]
pub struct HeaderTest {
    pub header_list: Vec<Value>,
    pub key_list: Vec<Value>,
    pub match_type: MatchType,
}

/// A `string` or `environment` test.
#[derive(Debug, PartialEq, Eq)]
pub struct StringTest {
    pub source: Vec<Value>,
    pub key_list: Vec<Value>,
    pub match_type: MatchType,
}

/// A `size` test.
#[derive(Clone, Debug, PartialEq, Eq)]
pub struct SizeTest {
    pub over: bool,
    pub limit: usize,
}

/// A boolean predicate over the message under evaluation.
#[derive(Debug, PartialEq, Eq)]
pub enum Test {
    True,
    False,
    Header(HeaderTest),
    StringTest(StringTest),
    Size(SizeTest),
    Exists(Vec<Value>),
}

/// `fileinto` with its optional tags.
#[derive(Debug, PartialEq, Eq)]
pub struct FileInto {
    pub folder: Value,
    pub copy: bool,
    pub create: bool,
}

/// `redirect` with its optional tags.
#[derive(Debug, PartialEq, Eq)]
pub struct Redirect {
    pub address: Value,
    pub copy: bool,
}

/// `set`: evaluate, transform, store.
#[derive(Debug, PartialEq, Eq)]
pub struct SetAction {
    pub name: VariableType,
    pub value: Value,
    pub modifiers: Vec<Modifier>,
}

/// Releases the locals and match variables a block created.
#[derive(Clone, Debug, PartialEq, Eq)]
pub struct Clear {
    pub match_vars: u64,
    pub local_vars_idx: u32,
    pub local_vars_num: u32,
}

/// An unknown command kept for `ihave` tolerance; running it is an error.
#[derive(Clone, Debug, PartialEq, Eq)]
pub struct Invalid {
    pub name: Vec<u8>,
    pub line_num: usize,
    pub line_pos: usize,
}

impl Invalid {
    pub fn name(&self) -> (r: &Vec<u8>)
        ensures
            r == &self.name,
    {
        &self.name
    }

    pub fn line_num(&self) -> (r: usize)
        ensures
            r == self.line_num,
    {
        self.line_num
    }

    pub fn line_pos(&self) -> (r: usize)
        ensures
            r == self.line_pos,
    {
        self.line_pos
    }
}

/// The loop head of a `foreverypart`; jumps past the loop when the part
/// iterator is exhausted.
#[derive(Clone, Debug, PartialEq, Eq)]
pub struct ForEveryPart {
    pub jz_pos: usize,
}

/// `reject` / `ereject`.
#[derive(Debug, PartialEq, Eq)]
pub struct Reject {
    pub ereject: bool,
    pub reason: Value,
}

/// The `error` action of the ihave extension.
#[derive(Debug, PartialEq, Eq)]
pub struct ErrorAction {
    pub message: Value,
}

/// Where an included script lives.
#[derive(Clone, Copy, Debug, PartialEq, Eq, Structural)]
pub enum Location {
    Personal,
    Global,
}

/// `include` with its optional tags.
#[derive(Debug, PartialEq, Eq)]
pub struct Include {
    pub location: Location,
    pub name: Value,
    pub once: bool,
    pub optional: bool,
}

/// One step of a compiled program. Control transfers name instruction
/// addresses; `usize::MAX` is the unresolved sentinel during compilation and
/// never survives a successful compile.
#[derive(Debug, PartialEq, Eq)]
pub enum Instruction {
    Require(Vec<Capability>),
    Keep,
    FileInto(FileInto),
    Redirect(Redirect),
    Discard,
    Stop,
    Invalid(Invalid),
    Test(Test),
    Jmp(usize),
    Jz(usize),
    Jnz(usize),
    ForEveryPartPush,
    ForEveryPart(ForEveryPart),
    ForEveryPartPop(usize),
    SetVar(SetAction),
    Clear(Clear),
    Reject(Reject),
    ErrorCmd(ErrorAction),
    Include(Include),
    Return,
}

/// A compiled Sieve program: the instruction vector plus the peak counts of
/// local and match variables any run can need.
#[derive(Debug, PartialEq, Eq)]
pub struct Sieve {
    pub instructions: Vec<Instruction>,
    pub num_vars: usize,
    pub num_match_vars: usize,
}

/// Every control transfer in the instruction stays within the program:
/// at most `len` (the address one past the end halts) and never the
/// unresolved sentinel.
pub open spec fn instr_jumps_ok(i: Instruction, len: int) -> bool {
    match i {
        Instruction::Jmp(t) => t <= len && t < usize::MAX,
        Instruction::Jz(t) => t <= len && t < usize::MAX,
        Instruction::Jnz(t) => t <= len && t < usize::MAX,
        Instruction::ForEveryPart(f) => f.jz_pos <= len && f.jz_pos < usize::MAX,
        _ => true,
    }
}

/// All jumps of a program are resolved and in range.
pub open spec fn jumps_resolved(s: Seq<Instruction>) -> bool {
    forall|k: int| 0 <= k < s.len() ==> instr_jumps_ok(#[trigger] s[k], s.len() as int)
}

/// The local slots an instruction writes or releases, as the index one past
/// the highest.
pub open spec fn instr_local_bound(i: Instruction) -> int {
    match i {
        Instruction::SetVar(s) => match s.name {
            VariableType::Local(n) => n + 1,
            _ => 0,
        },
        Instruction::Clear(c) => c.local_vars_idx + c.local_vars_num,
        _ => 0,
    }
}

/// Local-variable references stay under the program's peak local count.
pub open spec fn locals_bounded(s: Seq<Instruction>, num_vars: int) -> bool {
    forall|k: int| 0 <= k < s.len() ==> instr_local_bound(#[trigger] s[k]) <= num_vars
}

impl Sieve {
    /// A well-formed compiled program.
    pub open spec fn wf(self) -> bool {
        jumps_resolved(self.instructions@) && locals_bounded(
            self.instructions@,
            self.num_vars as int,
        )
    }
}

} // verus!
