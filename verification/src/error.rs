use vstd::prelude::*;

verus! {

/// A compile-time failure, locating the offending construct in the source.
#[derive(Debug)]
pub struct CompileError {
    pub line_num: usize,
    pub line_pos: usize,
    pub error_type: ErrorType,
}

/// The kinds of compile-time failure.
#[derive(Debug, PartialEq, Eq)]
pub enum ErrorType {
    InvalidCharacter(u8),
    InvalidNumber(Vec<u8>),
    InvalidMatchVariable(usize),
    InvalidUnicodeSequence(u32),
    InvalidNamespace(Vec<u8>),
    InvalidRegex(Vec<u8>),
    InvalidUtf8String,
    InvalidHeaderName,
    InvalidArguments,
    InvalidAddress,
    InvalidURI,
    InvalidEnvelope(Vec<u8>),
    UnterminatedString,
    UnterminatedComment,
    UnterminatedMultiline,
    UnterminatedBlock,
    ScriptTooLong,
    StringTooLong,
    VariableTooLong,
    VariableIsLocal(Vec<u8>),
    HeaderTooLong,
    ExpectedConstantString,
    UnexpectedToken { expected: Vec<u8>, found: Vec<u8> },
    UnexpectedEOF,
    TooManyNestedBlocks,
    TooManyNestedTests,
    TooManyNestedForEveryParts,
    TooManyIncludes,
    LabelAlreadyDefined(Vec<u8>),
    LabelUndefined(Vec<u8>),
    BreakOutsideLoop,
    UnsupportedComparator(Vec<u8>),
    DuplicatedParameter,
    UndeclaredCapability(crate::capability::Capability),
    MissingTag(Vec<u8>),
}

/// A failure raised while a compiled program runs.
#[derive(Debug, PartialEq, Eq)]
pub enum RuntimeError {
    TooManyIncludes,
    InvalidInstruction { name: Vec<u8>, line_num: usize, line_pos: usize },
    ScriptErrorMessage(Vec<u8>),
    CapabilityNotAllowed(crate::capability::Capability),
    CapabilityNotSupported(Vec<u8>),
    CPULimitReached,
}

impl CompileError {
    /// The 1-based source line of the failure (0 when no location applies).
    pub fn line_num(&self) -> (r: usize)
        ensures
            r == self.line_num,
    {
        self.line_num
    }

    /// The 0-based column within that line.
    pub fn line_pos(&self) -> (r: usize)
        ensures
            r == self.line_pos,
    {
        self.line_pos
    }

    pub fn error_type(&self) -> (r: &ErrorType)
        ensures
            r == &self.error_type,
    {
        &self.error_type
    }
}

} // verus!
