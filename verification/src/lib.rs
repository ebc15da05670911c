//! A compiler and runtime for the Sieve mail-filtering language (RFC 5228 and
//! extensions). Scripts are compiled into a flat, jump-threaded instruction
//! program; a deterministic interpreter executes the program against a message
//! and produces the actions the host should carry out.
//!
//! The central guarantees are stated as contracts and machine-checked:
//! compilation always ends in a well-formed program (every jump resolved and
//! in range, every local-variable slot under the program's peak count) or in
//! an error locating a position within the script; a run that terminates
//! normally delivers exactly one `keep` action when nothing the script did
//! canceled the implicit keep; and the cached byte form of a program can only
//! ever be read back as a program that re-encodes to the same bytes.

use vstd::prelude::*;

mod actions;
mod capability;
mod codec;
mod compile;
mod error;
mod instruction;
mod lexer;
mod messages;
mod regexutil;
mod runtime;
mod strutil;
mod words;

pub use capability::{Capability, Comparator};
pub use codec::{check_wf, deserialize, serialize};
pub use error::{CompileError, ErrorType, RuntimeError};
pub use words::Word;
pub use actions::{Action, ActionList};
pub use runtime::{Context, Event, Message, Part, PartIter, Variable};
pub use lexer::{Token, TokenInfo};
pub use instruction::{AddressPart, Clear, ContentTypePart, Envelope, ErrorAction, FileInto, ForEveryPart, HeaderPart, HeaderTest, HeaderVariable, Include, Instruction, Invalid, Location, MatchType, MessagePart, Modifier, ReceivedHostname, ReceivedPart, Redirect, Reject, SetAction, Sieve, SizeTest, StringTest, Test, Value, VariableType};

verus! {

/// Configuration for compiling Sieve scripts: resource limits and
/// capability-checking behaviour.
pub struct Compiler {
    pub max_script_size: usize,
    pub max_string_size: usize,
    pub max_variable_name_size: usize,
    pub max_nested_blocks: usize,
    pub max_nested_tests: usize,
    pub max_nested_foreverypart: usize,
    pub max_match_variables: usize,
    pub max_local_variables: usize,
    pub max_header_size: usize,
    pub max_includes: usize,
    pub functions: Vec<String>,
    pub no_capability_check: bool,
}

/// Host-registered transform functions, referred to by index from scripts.
pub struct FunctionMap {
    pub map: Vec<String>,
}

impl FunctionMap {
    pub fn new() -> (r: Self)
        ensures
            r.map@.len() == 0,
    {
        FunctionMap { map: Vec::new() }
    }

    pub fn with_function(self, name: String) -> (r: Self)
        ensures
            r.map@ == self.map@.push(name),
    {
        let mut map = self.map;
        map.push(name);
        FunctionMap { map }
    }
}

impl Default for Compiler {
    fn default() -> (r: Self)
        ensures
            r.max_script_size == 1048576,
            r.max_string_size == 4096,
            r.max_variable_name_size == 32,
            r.max_nested_blocks == 15,
            r.max_nested_tests == 15,
            r.max_nested_foreverypart == 3,
            r.max_match_variables == 30,
            r.max_local_variables == 128,
            r.max_header_size == 1024,
            r.max_includes == 6,
            r.functions@.len() == 0,
            r.no_capability_check == false,
    {
        Compiler::new()
    }
}

impl Compiler {
    pub fn new() -> (r: Self)
        ensures
            r.max_script_size == 1048576,
            r.max_string_size == 4096,
            r.max_variable_name_size == 32,
            r.max_nested_blocks == 15,
            r.max_nested_tests == 15,
            r.max_nested_foreverypart == 3,
            r.max_match_variables == 30,
            r.max_local_variables == 128,
            r.max_header_size == 1024,
            r.max_includes == 6,
            r.functions@.len() == 0,
            r.no_capability_check == false,
    {
        Compiler {
            max_script_size: 1024 * 1024,
            max_string_size: 4096,
            max_variable_name_size: 32,
            max_nested_blocks: 15,
            max_nested_tests: 15,
            max_nested_foreverypart: 3,
            max_match_variables: 30,
            max_local_variables: 128,
            max_header_size: 1024,
            max_includes: 6,
            functions: Vec::new(),
            no_capability_check: false,
        }
    }

    pub fn set_max_header_size(&mut self, size: usize)
        ensures
            *final(self) == (Compiler { max_header_size: size, ..*old(self) }),
    {
        self.max_header_size = size;
    }

    pub fn with_max_header_size(self, size: usize) -> (r: Self)
        ensures
            r == (Compiler { max_header_size: size, ..self }),
    {
        Compiler { max_header_size: size, ..self }
    }

    pub fn set_max_includes(&mut self, size: usize)
        ensures
            *final(self) == (Compiler { max_includes: size, ..*old(self) }),
    {
        self.max_includes = size;
    }

    pub fn with_max_includes(self, size: usize) -> (r: Self)
        ensures
            r == (Compiler { max_includes: size, ..self }),
    {
        Compiler { max_includes: size, ..self }
    }

    pub fn set_max_nested_blocks(&mut self, size: usize)
        ensures
            *final(self) == (Compiler { max_nested_blocks: size, ..*old(self) }),
    {
        self.max_nested_blocks = size;
    }

    pub fn with_max_nested_blocks(self, size: usize) -> (r: Self)
        ensures
            r == (Compiler { max_nested_blocks: size, ..self }),
    {
        Compiler { max_nested_blocks: size, ..self }
    }

    pub fn set_max_nested_tests(&mut self, size: usize)
        ensures
            *final(self) == (Compiler { max_nested_tests: size, ..*old(self) }),
    {
        self.max_nested_tests = size;
    }

    pub fn with_max_nested_tests(self, size: usize) -> (r: Self)
        ensures
            r == (Compiler { max_nested_tests: size, ..self }),
    {
        Compiler { max_nested_tests: size, ..self }
    }

    pub fn set_max_nested_foreverypart(&mut self, size: usize)
        ensures
            *final(self) == (Compiler { max_nested_foreverypart: size, ..*old(self) }),
    {
        self.max_nested_foreverypart = size;
    }

    pub fn with_max_nested_foreverypart(self, size: usize) -> (r: Self)
        ensures
            r == (Compiler { max_nested_foreverypart: size, ..self }),
    {
        Compiler { max_nested_foreverypart: size, ..self }
    }

    pub fn set_max_script_size(&mut self, size: usize)
        ensures
            *final(self) == (Compiler { max_script_size: size, ..*old(self) }),
    {
        self.max_script_size = size;
    }

    pub fn with_max_script_size(self, size: usize) -> (r: Self)
        ensures
            r == (Compiler { max_script_size: size, ..self }),
    {
        Compiler { max_script_size: size, ..self }
    }

    pub fn set_max_string_size(&mut self, size: usize)
        ensures
            *final(self) == (Compiler { max_string_size: size, ..*old(self) }),
    {
        self.max_string_size = size;
    }

    pub fn with_max_string_size(self, size: usize) -> (r: Self)
        ensures
            r == (Compiler { max_string_size: size, ..self }),
    {
        Compiler { max_string_size: size, ..self }
    }

    pub fn set_max_variable_name_size(&mut self, size: usize)
        ensures
            *final(self) == (Compiler { max_variable_name_size: size, ..*old(self) }),
    {
        self.max_variable_name_size = size;
    }

    pub fn with_max_variable_name_size(self, size: usize) -> (r: Self)
        ensures
            r == (Compiler { max_variable_name_size: size, ..self }),
    {
        Compiler { max_variable_name_size: size, ..self }
    }

    pub fn set_max_match_variables(&mut self, size: usize)
        ensures
            *final(self) == (Compiler { max_match_variables: size, ..*old(self) }),
    {
        self.max_match_variables = size;
    }

    pub fn with_max_match_variables(self, size: usize) -> (r: Self)
        ensures
            r == (Compiler { max_match_variables: size, ..self }),
    {
        Compiler { max_match_variables: size, ..self }
    }

    pub fn set_max_local_variables(&mut self, size: usize)
        ensures
            *final(self) == (Compiler { max_local_variables: size, ..*old(self) }),
    {
        self.max_local_variables = size;
    }

    pub fn with_max_local_variables(self, size: usize) -> (r: Self)
        ensures
            r == (Compiler { max_local_variables: size, ..self }),
    {
        Compiler { max_local_variables: size, ..self }
    }

    /// Installs the host's transform-function table, leaving the map empty.
    /// The table only reserves the names: this library's evaluator does not
    /// call host transforms, so a script cannot reach them.
    pub fn register_functions(self, fnc_map: &mut FunctionMap) -> (r: Self)
        ensures
            r == (Compiler { functions: old(fnc_map).map, ..self }),
            final(fnc_map).map@.len() == 0,
    {
        let mut taken: Vec<String> = Vec::new();
        core::mem::swap(&mut taken, &mut fnc_map.map);
        Compiler { functions: taken, ..self }
    }

    pub fn with_no_capability_check(self, value: bool) -> (r: Self)
        ensures
            r == (Compiler { no_capability_check: value, ..self }),
    {
        Compiler { no_capability_check: value, ..self }
    }

    pub fn set_no_capability_check(&mut self, value: bool)
        ensures
            *final(self) == (Compiler { no_capability_check: value, ..*old(self) }),
    {
        self.no_capability_check = value;
    }
}


} // verus!
