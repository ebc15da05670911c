use vstd::prelude::*;
use vstd::string::*;

use crate::error::{CompileError, ErrorType, RuntimeError};
use crate::strutil::{decimal_bytes, lossy_string, to_decimal_string, utf8_lossy_of};
use crate::words::chars_of;

verus! {

/// The wording of each compile-error kind.
pub open spec fn error_type_message_spec(e: ErrorType) -> Seq<char> {
    match e {
        ErrorType::InvalidCharacter(x) => "Invalid character "@ + chars_of(decimal_bytes(x as nat)),
        ErrorType::InvalidNumber(x) => "Invalid number "@ + utf8_lossy_of(x@),
        ErrorType::InvalidMatchVariable(x) => "Match variable "@ + chars_of(decimal_bytes(x as nat)) + " out of range"@,
        ErrorType::InvalidUnicodeSequence(x) => "Invalid Unicode sequence "@ + chars_of(decimal_bytes(x as nat)),
        ErrorType::InvalidNamespace(x) => "Invalid namespace "@ + utf8_lossy_of(x@),
        ErrorType::InvalidRegex(x) => "Invalid regular expression "@ + utf8_lossy_of(x@),
        ErrorType::InvalidEnvelope(x) => "Invalid envelope "@ + utf8_lossy_of(x@),
        ErrorType::VariableIsLocal(x) => "Variable "@ + utf8_lossy_of(x@) + " was already defined as local"@,
        ErrorType::LabelAlreadyDefined(x) => "Label "@ + utf8_lossy_of(x@) + " already defined"@,
        ErrorType::LabelUndefined(x) => "Label "@ + utf8_lossy_of(x@) + " does not exist"@,
        ErrorType::UnsupportedComparator(x) => "Comparator "@ + utf8_lossy_of(x@) + " is not supported"@,
        ErrorType::MissingTag(x) => "Missing tag "@ + utf8_lossy_of(x@),
        ErrorType::UnexpectedToken { expected, found } => "Expected token "@ + utf8_lossy_of(
            expected@,
        ) + " but found "@ + utf8_lossy_of(found@),
        ErrorType::InvalidUtf8String => "Invalid UTF-8 string"@,
        ErrorType::InvalidHeaderName => "Invalid header name"@,
        ErrorType::InvalidArguments => "Invalid arguments"@,
        ErrorType::InvalidAddress => "Invalid address"@,
        ErrorType::InvalidURI => "Invalid URI"@,
        ErrorType::UnterminatedString => "Unterminated string"@,
        ErrorType::UnterminatedComment => "Unterminated comment"@,
        ErrorType::UnterminatedMultiline => "Unterminated multi-line string"@,
        ErrorType::UnterminatedBlock => "Unterminated block"@,
        ErrorType::ScriptTooLong => "Sieve script is too large"@,
        ErrorType::StringTooLong => "String is too long"@,
        ErrorType::VariableTooLong => "Variable name is too long"@,
        ErrorType::HeaderTooLong => "Header value is too long"@,
        ErrorType::ExpectedConstantString => "Expected a constant string"@,
        ErrorType::UnexpectedEOF => "Unexpected end of file"@,
        ErrorType::TooManyNestedBlocks => "Too many nested blocks"@,
        ErrorType::TooManyNestedTests => "Too many nested tests"@,
        ErrorType::TooManyNestedForEveryParts => "Too many nested foreverypart blocks"@,
        ErrorType::TooManyIncludes => "Too many includes"@,
        ErrorType::BreakOutsideLoop => "Break used outside of foreverypart loop"@,
        ErrorType::DuplicatedParameter => "Duplicated argument"@,
        ErrorType::UndeclaredCapability(_) => "Undeclared capability"@,
    }
}

/// A compile error's full wording, with its location.
pub open spec fn compile_error_message_spec(e: CompileError) -> Seq<char> {
    error_type_message_spec(e.error_type) + " at line "@ + chars_of(
        decimal_bytes(e.line_num as nat),
    ) + ", column "@ + chars_of(decimal_bytes(e.line_pos as nat)) + "."@
}

/// The wording of each runtime error.
pub open spec fn runtime_error_message_spec(e: RuntimeError) -> Seq<char> {
    match e {
        RuntimeError::TooManyIncludes => "Too many included scripts."@,
        RuntimeError::InvalidInstruction { name, line_num, line_pos } =>
            "Script executed invalid instruction "@ + utf8_lossy_of(name@) + " at line "@
            + chars_of(decimal_bytes(line_num as nat)) + ", column "@ + chars_of(
            decimal_bytes(line_pos as nat),
        ) + "."@,
        RuntimeError::ScriptErrorMessage(m) => "Script reported error "@ + utf8_lossy_of(m@)
            + "."@,
        RuntimeError::CapabilityNotAllowed(_) => "Capability has been disabled."@,
        RuntimeError::CapabilityNotSupported(c) => "Capability "@ + utf8_lossy_of(c@)
            + " not supported."@,
        RuntimeError::CPULimitReached =>
            "Script exceeded the maximum number of instructions allowed to execute."@,
    }
}

fn describe_error_type(e: &ErrorType) -> (r: String)
    ensures
        r@ == error_type_message_spec(*e),
{
    let mut s = String::new();
    match e {
        ErrorType::InvalidCharacter(x) => {
            s.append("Invalid character ");
            let t = to_decimal_string(*x as usize);
            s.append(t.as_str());
        },
        ErrorType::InvalidNumber(x) => {
            s.append("Invalid number ");
            let t = lossy_string(x);
            s.append(t.as_str());
        },
        ErrorType::InvalidMatchVariable(x) => {
            s.append("Match variable ");
            let t = to_decimal_string(*x);
            s.append(t.as_str());
            s.append(" out of range");
        },
        ErrorType::InvalidUnicodeSequence(x) => {
            s.append("Invalid Unicode sequence ");
            let t = to_decimal_string(*x as usize);
            s.append(t.as_str());
        },
        ErrorType::InvalidNamespace(x) => {
            s.append("Invalid namespace ");
            let t = lossy_string(x);
            s.append(t.as_str());
        },
        ErrorType::InvalidRegex(x) => {
            s.append("Invalid regular expression ");
            let t = lossy_string(x);
            s.append(t.as_str());
        },
        ErrorType::InvalidEnvelope(x) => {
            s.append("Invalid envelope ");
            let t = lossy_string(x);
            s.append(t.as_str());
        },
        ErrorType::VariableIsLocal(x) => {
            s.append("Variable ");
            let t = lossy_string(x);
            s.append(t.as_str());
            s.append(" was already defined as local");
        },
        ErrorType::LabelAlreadyDefined(x) => {
            s.append("Label ");
            let t = lossy_string(x);
            s.append(t.as_str());
            s.append(" already defined");
        },
        ErrorType::LabelUndefined(x) => {
            s.append("Label ");
            let t = lossy_string(x);
            s.append(t.as_str());
            s.append(" does not exist");
        },
        ErrorType::UnsupportedComparator(x) => {
            s.append("Comparator ");
            let t = lossy_string(x);
            s.append(t.as_str());
            s.append(" is not supported");
        },
        ErrorType::MissingTag(x) => {
            s.append("Missing tag ");
            let t = lossy_string(x);
            s.append(t.as_str());
        },
        ErrorType::UnexpectedToken { expected, found } => {
            s.append("Expected token ");
            let t = lossy_string(expected);
            s.append(t.as_str());
            s.append(" but found ");
            let t2 = lossy_string(found);
            s.append(t2.as_str());
        },
        ErrorType::InvalidUtf8String => {
            s.append("Invalid UTF-8 string");
        },
        ErrorType::InvalidHeaderName => {
            s.append("Invalid header name");
        },
        ErrorType::InvalidArguments => {
            s.append("Invalid arguments");
        },
        ErrorType::InvalidAddress => {
            s.append("Invalid address");
        },
        ErrorType::InvalidURI => {
            s.append("Invalid URI");
        },
        ErrorType::UnterminatedString => {
            s.append("Unterminated string");
        },
        ErrorType::UnterminatedComment => {
            s.append("Unterminated comment");
        },
        ErrorType::UnterminatedMultiline => {
            s.append("Unterminated multi-line string");
        },
        ErrorType::UnterminatedBlock => {
            s.append("Unterminated block");
        },
        ErrorType::ScriptTooLong => {
            s.append("Sieve script is too large");
        },
        ErrorType::StringTooLong => {
            s.append("String is too long");
        },
        ErrorType::VariableTooLong => {
            s.append("Variable name is too long");
        },
        ErrorType::HeaderTooLong => {
            s.append("Header value is too long");
        },
        ErrorType::ExpectedConstantString => {
            s.append("Expected a constant string");
        },
        ErrorType::UnexpectedEOF => {
            s.append("Unexpected end of file");
        },
        ErrorType::TooManyNestedBlocks => {
            s.append("Too many nested blocks");
        },
        ErrorType::TooManyNestedTests => {
            s.append("Too many nested tests");
        },
        ErrorType::TooManyNestedForEveryParts => {
            s.append("Too many nested foreverypart blocks");
        },
        ErrorType::TooManyIncludes => {
            s.append("Too many includes");
        },
        ErrorType::BreakOutsideLoop => {
            s.append("Break used outside of foreverypart loop");
        },
        ErrorType::DuplicatedParameter => {
            s.append("Duplicated argument");
        },
        ErrorType::UndeclaredCapability(_) => {
            s.append("Undeclared capability");
        },
    }
    proof {
        assert(s@ =~= error_type_message_spec(*e));
    }
    s
}

impl CompileError {
    /// The error as a sentence with its location.
    pub fn message(&self) -> (r: String)
        ensures
            r@ == compile_error_message_spec(*self),
    {
        let mut s = describe_error_type(&self.error_type);
        s.append(" at line ");
        let t = to_decimal_string(self.line_num);
        s.append(t.as_str());
        s.append(", column ");
        let t2 = to_decimal_string(self.line_pos);
        s.append(t2.as_str());
        s.append(".");
        proof {
            assert(s@ =~= compile_error_message_spec(*self));
        }
        s
    }
}

impl RuntimeError {
    /// The error as a sentence.
    pub fn message(&self) -> (r: String)
        ensures
            r@ == runtime_error_message_spec(*self),
    {
        let mut s = String::new();
        match self {
            RuntimeError::TooManyIncludes => {
                s.append("Too many included scripts.");
            },
            RuntimeError::InvalidInstruction { name, line_num, line_pos } => {
                s.append("Script executed invalid instruction ");
                let t = lossy_string(name);
                s.append(t.as_str());
                s.append(" at line ");
                let t2 = to_decimal_string(*line_num);
                s.append(t2.as_str());
                s.append(", column ");
                let t3 = to_decimal_string(*line_pos);
                s.append(t3.as_str());
                s.append(".");
            },
            RuntimeError::ScriptErrorMessage(m) => {
                s.append("Script reported error ");
                let t = lossy_string(m);
                s.append(t.as_str());
                s.append(".");
            },
            RuntimeError::CapabilityNotAllowed(_) => {
                s.append("Capability has been disabled.");
            },
            RuntimeError::CapabilityNotSupported(c) => {
                s.append("Capability ");
                let t = lossy_string(c);
                s.append(t.as_str());
                s.append(" not supported.");
            },
            RuntimeError::CPULimitReached => {
                s.append("Script exceeded the maximum number of instructions allowed to execute.");
            },
        }
        proof {
            assert(s@ =~= runtime_error_message_spec(*self));
        }
        s
    }
}

} // verus!
