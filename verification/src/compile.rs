use vstd::prelude::*;

use crate::capability::{capability_from_name, has_capability, Capability, Comparator};
use crate::error::{CompileError, ErrorType};
use crate::instruction::{
    instr_jumps_ok, instr_local_bound, jumps_resolved, locals_bounded, Clear, ErrorAction,
    FileInto, ForEveryPart, HeaderTest, Include, Instruction, Invalid, Location, MatchType,
    Modifier, Redirect, Reject, SetAction, Sieve, SizeTest, StringTest, Test, Value, VariableType,
};
use crate::lexer::{err_in_range, token_wf, Token, TokenInfo, Tokenizer};
use crate::strutil::bytes_eq;
use crate::words::Word;
use crate::Compiler;

verus! {

/// Scripts and programs stay well clear of `usize::MAX`, so a resolved jump
/// target can never collide with the unresolved sentinel.
pub const SCRIPT_CAP: usize = usize::MAX / 4;

pub const INSTR_CAP: usize = usize::MAX / 4;

/// A block open during compilation, with everything that must be patched or
/// released when it closes.
pub(crate) struct Block {
    pub btype: Word,
    pub label: Option<Vec<u8>>,
    pub line_num: usize,
    pub line_pos: usize,
    pub last_block_start: usize,
    /// pending jump-to-else positions of this block's controlling test
    pub jz_jmps: Vec<usize>,
    /// pending end-of-chain jumps of an if/elsif/else chain below this block
    pub if_jmps: Vec<usize>,
    /// pending jumps of `break` commands leaving this loop
    pub break_jmps: Vec<usize>,
    /// addresses of match-type tests whose capture mask is still growing
    pub match_test_pos: Vec<usize>,
    /// the match variables filled inside this block
    pub match_test_vars: u64,
    /// local variables this block declared, name to slot
    pub vars_local: Vec<(Vec<u8>, usize)>,
    /// capabilities this block's `require` commands brought into scope
    pub capabilities: Vec<Capability>,
    /// whether a command other than `require` was already compiled here
    pub require_done: bool,
}

impl Block {
    pub(crate) fn new(btype: Word) -> (r: Self)
        ensures
            r.btype == btype,
            r.label is None,
            r.line_num == 0,
            r.line_pos == 0,
            r.last_block_start == 0,
            r.jz_jmps@.len() == 0,
            r.if_jmps@.len() == 0,
            r.break_jmps@.len() == 0,
            r.match_test_pos@.len() == 0,
            r.match_test_vars == 0,
            r.vars_local@.len() == 0,
            r.capabilities@.len() == 0,
            r.require_done == false,
    {
        Block {
            btype,
            label: None,
            line_num: 0,
            line_pos: 0,
            last_block_start: 0,
            jz_jmps: Vec::new(),
            if_jmps: Vec::new(),
            break_jmps: Vec::new(),
            match_test_pos: Vec::new(),
            match_test_vars: 0,
            vars_local: Vec::new(),
            capabilities: Vec::new(),
            require_done: false,
        }
    }

    pub(crate) fn labeled(btype: Word, label: Vec<u8>) -> (r: Self)
        ensures
            r.btype == btype,
            r.label == Some(label),
            r.line_num == 0,
            r.line_pos == 0,
            r.last_block_start == 0,
            r.jz_jmps@.len() == 0,
            r.if_jmps@.len() == 0,
            r.break_jmps@.len() == 0,
            r.match_test_pos@.len() == 0,
            r.match_test_vars == 0,
            r.vars_local@.len() == 0,
            r.capabilities@.len() == 0,
            r.require_done == false,
    {
        Block::new(btype).with_label(label)
    }

    pub(crate) fn with_label(self, label: Vec<u8>) -> (r: Self)
        ensures
            r == (Block { label: Some(label), ..self }),
    {
        Block { label: Some(label), ..self }
    }
}

/// A capability complaint can only arise while capability checking is on.
pub(crate) open spec fn err_gated(e: CompileError, gate_off: bool) -> bool {
    e.error_type is UndeclaredCapability ==> !gate_off
}

/// A block's recorded location lies within the script.
pub(crate) open spec fn block_loc_ok(b: Block, len: int) -> bool {
    b.line_num <= len + 1 && b.line_pos <= len
}

/// The working state of one compilation.
pub(crate) struct CompilerState<'x> {
    pub tokens: Tokenizer<'x>,
    pub instructions: Vec<Instruction>,
    pub block_stack: Vec<Block>,
    pub block: Block,
    pub last_block_type: Word,
    pub vars_global: Vec<Vec<u8>>,
    pub vars_num: usize,
    pub vars_num_max: usize,
    pub vars_match_max: usize,
    pub includes_num: usize,
    pub max_nested_blocks: usize,
    pub max_nested_tests: usize,
    pub max_nested_foreverypart: usize,
    pub max_match_variables: usize,
    pub max_local_variables: usize,
    pub max_variable_name_size: usize,
    pub max_includes: usize,
    pub no_capability_check: bool,
}

impl<'x> CompilerState<'x> {
    /// The peak number of local slots the program needs so far.
    pub(crate) open spec fn peak(self) -> int {
        if self.vars_num_max >= self.vars_num {
            self.vars_num_max as int
        } else {
            self.vars_num as int
        }
    }

    /// The slot a variable name denotes here: the innermost block's binding
    /// wins, the enclosing blocks are searched inside out.
    pub(crate) open spec fn scope_lookup(self, name: Seq<u8>) -> Option<usize> {
        match lookup_spec(self.block.vars_local@, name, 0) {
            Some(id) => Some(id),
            None => stack_lookup(self.block_stack@, name),
        }
    }

    /// The slot a declaration of this name would reuse: its binding in
    /// scope, provided that slot is still allocated.
    pub(crate) open spec fn reusable_slot(self, name: Seq<u8>) -> Option<usize> {
        match self.scope_lookup(name) {
            Some(id) => if id < self.vars_num {
                Some(id)
            } else {
                None
            },
            None => None,
        }
    }

    /// Whether any open block, the innermost included, still has pending
    /// match-type tests.
    pub(crate) open spec fn has_pending(self) -> bool {
        self.block.match_test_pos@.len() > 0 || innermost_pending(self.block_stack@) >= 0
    }

    /// How many local slots closing the innermost block releases.
    pub(crate) open spec fn released(self) -> int {
        if self.block.vars_local@.len() <= self.vars_num {
            self.block.vars_local@.len() as int
        } else {
            self.vars_num as int
        }
    }

    /// Whether a name was declared global.
    pub(crate) open spec fn global_declared(self, name: Seq<u8>) -> bool {
        exists|i: int|
            0 <= i < self.vars_global@.len() && (#[trigger] self.vars_global@[i])@ == name
    }

    /// How many `foreverypart` loops the current position sits in.
    pub(crate) open spec fn fep_total(self) -> int {
        (if self.block.btype == Word::ForEveryPart {
            1int
        } else {
            0int
        }) + fep_count(self.block_stack@)
    }

    /// The state invariant every parsing step preserves.
    pub(crate) open spec fn swf(self) -> bool {
        &&& self.tokens.wf()
        &&& self.instructions@.len() <= INSTR_CAP
        &&& locals_bounded(self.instructions@, self.peak())
        &&& block_loc_ok(self.block, self.tokens.script@.len() as int)
        &&& forall|i: int|
            0 <= i < self.block_stack@.len() ==> block_loc_ok(
                #[trigger] self.block_stack@[i],
                self.tokens.script@.len() as int,
            )
    }

    /// What any parsing helper leaves alone or improves.
    pub(crate) open spec fn parse_step(a: Self, b: Self) -> bool {
        &&& b.swf()
        &&& a.tokens.limits_unchanged(b.tokens)
        &&& b.tokens.measure() <= a.tokens.measure()
        &&& b.peak() >= a.peak()
        &&& (a.vars_match_max <= 63 ==> b.vars_match_max <= 63)
        &&& b.max_nested_blocks == a.max_nested_blocks
        &&& b.max_nested_tests == a.max_nested_tests
        &&& b.max_nested_foreverypart == a.max_nested_foreverypart
        &&& b.max_match_variables == a.max_match_variables
        &&& b.max_local_variables == a.max_local_variables
        &&& b.max_variable_name_size == a.max_variable_name_size
        &&& b.max_includes == a.max_includes
        &&& b.no_capability_check == a.no_capability_check
    }

    /// The current source line.
    fn cur_line(&self) -> (r: usize)
        requires
            self.swf(),
        ensures
            r <= self.tokens.script@.len() + 1,
    {
        self.tokens.line_num
    }

    /// The current source column.
    fn cur_col(&self) -> (r: usize)
        requires
            self.swf(),
        ensures
            r <= self.tokens.script@.len(),
    {
        self.tokens.pos - self.tokens.line_start
    }

    /// Appends one instruction; a program over the capacity is refused as too
    /// long.
    fn emit(&mut self, line_num: usize, line_pos: usize, instr: Instruction) -> (r: Result<
        (),
        CompileError,
    >)
        requires
            old(self).swf(),
            instr_local_bound(instr) <= old(self).peak(),
            line_num <= old(self).tokens.script@.len() + 1,
            line_pos <= old(self).tokens.script@.len(),
        ensures
            Self::parse_step(*old(self), *final(self)),
            final(self).tokens == old(self).tokens,
            final(self).block == old(self).block,
            final(self).block_stack == old(self).block_stack,
            final(self).vars_num == old(self).vars_num,
            final(self).vars_num_max == old(self).vars_num_max,
            final(self).vars_global == old(self).vars_global,
            r is Ok ==> final(self).instructions@ == old(self).instructions@.push(instr),
            r is Err ==> final(self).instructions == old(self).instructions,
            r matches Err(e) ==> err_in_range(e, old(self).tokens.script@.len() as int)
                && err_gated(e, old(self).no_capability_check) && e.error_type is ScriptTooLong,
    {
        if self.instructions.len() >= INSTR_CAP {
            return Err(CompileError {
                line_num,
                line_pos,
                error_type: ErrorType::ScriptTooLong,
            });
        }
        self.instructions.push(instr);
        proof {
            assert forall|k: int| 0 <= k < self.instructions@.len() implies instr_local_bound(
                #[trigger] self.instructions@[k],
            ) <= self.peak() by {
                if k < self.instructions@.len() - 1 {
                    assert(self.instructions@[k] == old(self).instructions@[k]);
                }
            }
        }
        Ok(())
    }

    /// Rewrites the jump at `pos` to aim at `target`. A position that does
    /// not hold a jump is left alone.
    fn patch_jump(&mut self, pos: usize, target: usize)
        requires
            old(self).swf(),
        ensures
            Self::parse_step(*old(self), *final(self)),
            final(self).tokens == old(self).tokens,
            final(self).block == old(self).block,
            final(self).block_stack == old(self).block_stack,
            final(self).vars_num == old(self).vars_num,
            final(self).vars_num_max == old(self).vars_num_max,
            final(self).instructions@.len() == old(self).instructions@.len(),
    {
        if pos >= self.instructions.len() {
            return ;
        }
        let replacement: Option<Instruction> = match &self.instructions[pos] {
            Instruction::Jmp(_) => Some(Instruction::Jmp(target)),
            Instruction::Jz(_) => Some(Instruction::Jz(target)),
            Instruction::Jnz(_) => Some(Instruction::Jnz(target)),
            Instruction::ForEveryPart(_) => Some(
                Instruction::ForEveryPart(ForEveryPart { jz_pos: target }),
            ),
            _ => None,
        };
        if let Some(instr) = replacement {
            self.instructions[pos] = instr;
            proof {
                assert forall|k: int| 0 <= k < self.instructions@.len() implies instr_local_bound(
                    #[trigger] self.instructions@[k],
                ) <= self.peak() by {
                    if k != pos {
                        assert(self.instructions@[k] == old(self).instructions@[k]);
                    }
                }
            }
        }
    }

    /// Hands out the next token, or fails with the end-of-file error.
    fn unwrap_next(&mut self) -> (r: Result<TokenInfo, CompileError>)
        requires
            old(self).swf(),
        ensures
            Self::parse_step(*old(self), *final(self)),
            final(self).instructions == old(self).instructions,
            final(self).block == old(self).block,
            final(self).block_stack == old(self).block_stack,
            final(self).vars_num == old(self).vars_num,
            final(self).vars_num_max == old(self).vars_num_max,
            r matches Ok(ti) ==> final(self).tokens.measure() < old(self).tokens.measure()
                && token_wf(ti.token, final(self).tokens.max_string_size)
                && ti.line_num <= final(self).tokens.script@.len() + 1
                && ti.line_pos <= final(self).tokens.script@.len(),
            r matches Err(e) ==> err_in_range(e, final(self).tokens.script@.len() as int)
                && err_gated(e, final(self).no_capability_check),
    {
        let line_num = self.cur_line();
        let line_pos = self.cur_col();
        match self.tokens.next() {
            Ok(Some(ti)) => {
                proof {
                    assert(ti.line_num <= self.tokens.pos + 1);
                }
                Ok(ti)
            },
            Ok(None) => Err(CompileError {
                line_num,
                line_pos,
                error_type: ErrorType::UnexpectedEOF,
            }),
            Err(e) => Err(e),
        }
    }

    /// Consumes the `{` that must open a block.
    fn expect_curly_open(&mut self) -> (r: Result<(), CompileError>)
        requires
            old(self).swf(),
        ensures
            Self::parse_step(*old(self), *final(self)),
            final(self).instructions == old(self).instructions,
            final(self).block == old(self).block,
            final(self).block_stack == old(self).block_stack,
            final(self).vars_num == old(self).vars_num,
            final(self).vars_num_max == old(self).vars_num_max,
            r matches Err(e) ==> err_in_range(e, final(self).tokens.script@.len() as int)
                && err_gated(e, final(self).no_capability_check),
    {
        let ti = match self.unwrap_next() {
            Ok(ti) => ti,
            Err(e) => {
                return Err(e);
            },
        };
        match ti.token {
            Token::CurlyOpen => Ok(()),
            _ => Err(ti.expected("{")),
        }
    }

    /// Consumes the `;` that must end a plain command.
    fn expect_instruction_end(&mut self) -> (r: Result<(), CompileError>)
        requires
            old(self).swf(),
        ensures
            Self::parse_step(*old(self), *final(self)),
            final(self).instructions == old(self).instructions,
            final(self).block == old(self).block,
            final(self).block_stack == old(self).block_stack,
            final(self).vars_num == old(self).vars_num,
            final(self).vars_num_max == old(self).vars_num_max,
            r matches Err(e) ==> err_in_range(e, final(self).tokens.script@.len() as int)
                && err_gated(e, final(self).no_capability_check),
    {
        let ti = match self.unwrap_next() {
            Ok(ti) => ti,
            Err(e) => {
                return Err(e);
            },
        };
        match ti.token {
            Token::Semicolon => Ok(()),
            _ => Err(ti.expected(";")),
        }
    }

    /// Consumes a string that must be constant, as for labels and `require`.
    fn expect_static_string(&mut self) -> (r: Result<Vec<u8>, CompileError>)
        requires
            old(self).swf(),
        ensures
            Self::parse_step(*old(self), *final(self)),
            final(self).instructions == old(self).instructions,
            final(self).block == old(self).block,
            final(self).block_stack == old(self).block_stack,
            final(self).vars_num == old(self).vars_num,
            final(self).vars_num_max == old(self).vars_num_max,
            r matches Err(e) ==> err_in_range(e, final(self).tokens.script@.len() as int)
                && err_gated(e, final(self).no_capability_check),
    {
        let ti = match self.unwrap_next() {
            Ok(ti) => ti,
            Err(e) => {
                return Err(e);
            },
        };
        match ti.token {
            Token::StringConstant(s) => Ok(s),
            Token::StringVariable(_) => Err(
                ti.custom(ErrorType::ExpectedConstantString),
            ),
            _ => Err(ti.expected("string")),
        }
    }

    /// Whether a (folded) name is a local variable in scope.
    fn is_var_local(&self, name: &Vec<u8>) -> (r: bool)
        requires
            self.swf(),
        ensures
            r == (self.scope_lookup(name@) is Some),
    {
        self.get_local_var(name).is_some()
    }

    /// Whether a (folded) name was declared global.
    fn is_var_global(&self, name: &Vec<u8>) -> (r: bool)
        requires
            self.swf(),
        ensures
            r == self.global_declared(name@),
    {
        let mut i: usize = 0;
        while i < self.vars_global.len()
            invariant
                i <= self.vars_global@.len(),
                forall|j: int| 0 <= j < i ==> (#[trigger] self.vars_global@[j])@ != name@,
            decreases self.vars_global@.len() - i,
        {
            if bytes_eq(&self.vars_global[i], name) {
                return true;
            }
            i += 1;
        }
        false
    }

    /// The slot of a local variable in scope, innermost declaration first.
    fn get_local_var(&self, name: &Vec<u8>) -> (r: Option<usize>)
        requires
            self.swf(),
        ensures
            r == self.scope_lookup(name@),
    {
        if let Some(id) = lookup_var(&self.block.vars_local, name) {
            return Some(id);
        }
        let mut i: usize = self.block_stack.len();
        proof {
            assert(self.block_stack@.take(i as int) =~= self.block_stack@);
        }
        while i > 0
            invariant
                i <= self.block_stack@.len(),
                lookup_spec(self.block.vars_local@, name@, 0) is None,
                stack_lookup(self.block_stack@, name@) == stack_lookup(
                    self.block_stack@.take(i as int),
                    name@,
                ),
            decreases i,
        {
            i -= 1;
            let found = lookup_var(&self.block_stack[i].vars_local, name);
            proof {
                let pre = self.block_stack@.take(i + 1);
                assert(pre.last() == self.block_stack@[i as int]);
                assert(pre.drop_last() =~= self.block_stack@.take(i as int));
            }
            if let Some(id) = found {
                return Some(id);
            }
        }
        None
    }

    /// Declares a (folded) name as a local of the innermost block, or finds
    /// its existing slot. `None` means the local-variable limit is exhausted.
    fn register_local_var(&mut self, name: Vec<u8>) -> (r: Option<usize>)
        requires
            old(self).swf(),
        ensures
            Self::parse_step(*old(self), *final(self)),
            final(self).tokens == old(self).tokens,
            final(self).instructions == old(self).instructions,
            final(self).block_stack == old(self).block_stack,
            r matches Some(id) ==> id < final(self).vars_num,
            old(self).reusable_slot(name@) matches Some(id) ==> r == Some(id) && *final(self)
                == *old(self),
            old(self).reusable_slot(name@) is None ==> (if (old(self).vars_num >= old(
                self,
            ).max_local_variables || old(self).vars_num == usize::MAX) {
                r is None && *final(self) == *old(self)
            } else {
                &&& r == Some(old(self).vars_num)
                &&& final(self).vars_num == old(self).vars_num + 1
                &&& final(self).block.vars_local@ == old(self).block.vars_local@.push(
                    (name, old(self).vars_num),
                )
                &&& final(self).block == (Block {
                    vars_local: final(self).block.vars_local,
                    ..old(self).block
                })
                &&& final(self).vars_global == old(self).vars_global
                &&& final(self).vars_num_max == old(self).vars_num_max
            }),
    {
        if let Some(id) = self.get_local_var(&name) {
            if id < self.vars_num {
                return Some(id);
            }
        }
        if self.vars_num >= self.max_local_variables || self.vars_num == usize::MAX {
            return None;
        }
        let id = self.vars_num;
        self.block.vars_local.push((name, id));
        self.vars_num = self.vars_num + 1;
        Some(id)
    }

    /// Declares a (folded) name global.
    fn register_global_var(&mut self, name: Vec<u8>)
        requires
            old(self).swf(),
        ensures
            Self::parse_step(*old(self), *final(self)),
            final(self).tokens == old(self).tokens,
            final(self).instructions == old(self).instructions,
            final(self).block == old(self).block,
            final(self).block_stack == old(self).block_stack,
            final(self).vars_num == old(self).vars_num,
            final(self).vars_num_max == old(self).vars_num_max,
            final(self).vars_global@ == old(self).vars_global@.push(name),
            final(self).global_declared(name@),
    {
        self.vars_global.push(name);
        proof {
            assert((self.vars_global@[self.vars_global@.len() - 1])@ == name@);
        }
    }

    /// Checks that a capability is in scope, unless checking is off.
    fn validate_capability(&self, cap: Capability, line_num: usize, line_pos: usize) -> (r: Result<
        (),
        CompileError,
    >)
        requires
            self.swf(),
            line_num <= self.tokens.script@.len() + 1,
            line_pos <= self.tokens.script@.len(),
        ensures
            r matches Err(e) ==> err_in_range(e, self.tokens.script@.len() as int) && err_gated(
                e,
                self.no_capability_check,
            ),
    {
        if self.no_capability_check {
            return Ok(());
        }
        if has_capability(&self.block.capabilities, &cap) {
            return Ok(());
        }
        let mut i: usize = 0;
        while i < self.block_stack.len()
            invariant
                i <= self.block_stack@.len(),
            decreases self.block_stack@.len() - i,
        {
            if has_capability(&self.block_stack[i].capabilities, &cap) {
                return Ok(());
            }
            i += 1;
        }
        Err(CompileError {
            line_num,
            line_pos,
            error_type: ErrorType::UndeclaredCapability(cap),
        })
    }

    /// Counts the `foreverypart` loops the current position sits in.
    fn count_foreverypart(&self) -> (r: usize)
        requires
            self.swf(),
        ensures
            r <= self.fep_total(),
            self.fep_total() <= usize::MAX ==> r == self.fep_total(),
    {
        let ghost b0: int = if self.block.btype == Word::ForEveryPart {
            1int
        } else {
            0int
        };
        let mut count: usize = 0;
        if matches!(self.block.btype, Word::ForEveryPart) {
            count = 1;
        }
        let mut i: usize = 0;
        proof {
            assert(fep_count(self.block_stack@.take(0)) == 0);
        }
        while i < self.block_stack.len()
            invariant
                i <= self.block_stack@.len(),
                count <= b0 + fep_count(self.block_stack@.take(i as int)),
                b0 + fep_count(self.block_stack@.take(i as int)) <= usize::MAX ==> count == b0
                    + fep_count(self.block_stack@.take(i as int)),
            decreases self.block_stack@.len() - i,
        {
            proof {
                let pre = self.block_stack@.take(i + 1);
                assert(pre.last() == self.block_stack@[i as int]);
                assert(pre.drop_last() =~= self.block_stack@.take(i as int));
            }
            if matches!(self.block_stack[i].btype, Word::ForEveryPart) && count < usize::MAX {
                count += 1;
            }
            i += 1;
        }
        proof {
            assert(self.block_stack@.take(self.block_stack@.len() as int) =~= self.block_stack@);
        }
        count
    }

    /// Emits the `Clear` that releases what the closing block declared: its
    /// match mask, and its local slots, whose range starts where the count
    /// falls back to.
    fn block_end(&mut self) -> (r: Result<(), CompileError>)
        requires
            old(self).swf(),
        ensures
            Self::parse_step(*old(self), *final(self)),
            final(self).tokens == old(self).tokens,
            final(self).block_stack == old(self).block_stack,
            final(self).block == old(self).block,
            final(self).vars_global == old(self).vars_global,
            r matches Err(e) ==> err_in_range(e, final(self).tokens.script@.len() as int)
                && err_gated(e, final(self).no_capability_check),
            r matches Err(e) ==> e.error_type is ScriptTooLong && final(self).instructions == old(
                self,
            ).instructions,
            old(self).block.vars_local@.len() == 0 ==> final(self).vars_num == old(self).vars_num
                && final(self).vars_num_max == old(self).vars_num_max,
            old(self).block.vars_local@.len() == 0 && old(self).block.match_test_vars == 0 ==> r
                is Ok && final(self).instructions == old(self).instructions,
            old(self).block.vars_local@.len() == 0 && old(self).block.match_test_vars != 0 && r
                is Ok ==> final(self).instructions@ == old(self).instructions@.push(
                Instruction::Clear(
                    Clear {
                        match_vars: old(self).block.match_test_vars,
                        local_vars_idx: 0,
                        local_vars_num: 0,
                    },
                ),
            ),
            old(self).block.vars_local@.len() > 0 ==> final(self).vars_num == old(self).vars_num
                - old(self).released() && final(self).vars_num_max as int == (if old(
                self,
            ).vars_num_max >= old(self).vars_num {
                old(self).vars_num_max as int
            } else {
                old(self).vars_num as int
            }),
            old(self).block.vars_local@.len() > 0 && r is Ok ==> final(self).instructions@ == old(
                self,
            ).instructions@.push(
                Instruction::Clear(
                    Clear {
                        match_vars: old(self).block.match_test_vars,
                        local_vars_idx: sat32(old(self).vars_num - old(self).released()),
                        local_vars_num: sat32(old(self).released()),
                    },
                ),
            ),
    {
        let line_num = self.cur_line();
        let line_pos = self.cur_col();
        let mut vars_num_block = self.block.vars_local.len();
        if vars_num_block > 0 {
            if self.vars_num > self.vars_num_max {
                self.vars_num_max = self.vars_num;
            }
            if vars_num_block > self.vars_num {
                vars_num_block = self.vars_num;
            }
            self.vars_num = self.vars_num - vars_num_block;
            let idx32: u32 = if self.vars_num <= u32::MAX as usize {
                self.vars_num as u32
            } else {
                u32::MAX
            };
            let num32: u32 = if vars_num_block <= u32::MAX as usize {
                vars_num_block as u32
            } else {
                u32::MAX
            };
            let clear = Clear {
                match_vars: self.block.match_test_vars,
                local_vars_idx: idx32,
                local_vars_num: num32,
            };
            proof {
                assert(instr_local_bound(Instruction::Clear(clear)) <= self.peak());
            }
            self.emit(line_num, line_pos, Instruction::Clear(clear))
        } else if self.block.match_test_vars != 0 {
            let clear = Clear {
                match_vars: self.block.match_test_vars,
                local_vars_idx: 0,
                local_vars_num: 0,
            };
            self.emit(line_num, line_pos, Instruction::Clear(clear))
        } else {
            Ok(())
        }
    }

    /// Attaches bit `num` to every pending match-type test of the nearest
    /// block that holds one, and folds the bit into that block's mask
    /// accumulator; reports whether such a test exists anywhere.
    fn register_match_var(&mut self, num: usize) -> (r: bool)
        requires
            old(self).swf(),
            num < 63,
        ensures
            Self::parse_step(*old(self), *final(self)),
            final(self).tokens == old(self).tokens,
            final(self).vars_num == old(self).vars_num,
            final(self).vars_num_max == old(self).vars_num_max,
            final(self).instructions@.len() == old(self).instructions@.len(),
            r == old(self).has_pending(),
            !r ==> final(self).instructions == old(self).instructions && final(self).block == old(
                self,
            ).block && final(self).block_stack == old(self).block_stack,
            r ==> forall|k: int|
                0 <= k < old(self).instructions@.len() ==> (#[trigger] final(self).instructions@[k]
                    == old(self).instructions@[k] || final(self).instructions@[k]
                    == or_mask_instr_spec(old(self).instructions@[k], 1u64 << num as u64)),
            r && old(self).block.match_test_pos@.len() > 0 ==> forall|j: int|
                0 <= j < old(self).block.match_test_pos@.len() ==> ((
                #[trigger] old(self).block.match_test_pos@[j]) < old(self).instructions@.len()
                    ==> final(self).instructions@[old(self).block.match_test_pos@[j] as int]
                    == or_mask_instr_spec(
                    old(self).instructions@[old(self).block.match_test_pos@[j] as int],
                    1u64 << num as u64,
                )),
            r && old(self).block.match_test_pos@.len() > 0 ==> final(self).block_stack == old(
                self,
            ).block_stack && final(self).block == (Block {
                match_test_vars: old(self).block.match_test_vars | (1u64 << num as u64),
                ..old(self).block
            }),
            r && old(self).block.match_test_pos@.len() == 0 ==> ({
                let ip = innermost_pending(old(self).block_stack@);
                &&& 0 <= ip < old(self).block_stack@.len()
                &&& final(self).block == old(self).block
                &&& final(self).block_stack@ == old(self).block_stack@.update(
                    ip,
                    (Block {
                        match_test_vars: old(self).block_stack@[ip].match_test_vars | (1u64 << num
                            as u64),
                        ..old(self).block_stack@[ip]
                    }),
                )
                &&& forall|j: int|
                    0 <= j < old(self).block_stack@[ip].match_test_pos@.len() ==> ((
                    #[trigger] old(self).block_stack@[ip].match_test_pos@[j]) < old(
                        self,
                    ).instructions@.len() ==> final(self).instructions@[old(
                        self,
                    ).block_stack@[ip].match_test_pos@[j] as int] == or_mask_instr_spec(
                        old(self).instructions@[old(self).block_stack@[ip].match_test_pos@[j] as int],
                        1u64 << num as u64,
                    ))
            }),
    {
        let mask: u64 = 1u64 << (num as u64);
        let positions = match self.take_match_positions(mask) {
            Some(ps) => ps,
            None => {
                return false;
            },
        };
        let ghost ip = innermost_pending(old(self).block_stack@);
        let mut j: usize = 0;
        while j < positions.len()
            invariant
                Self::parse_step(*old(self), *self),
                self.tokens == old(self).tokens,
                self.vars_num == old(self).vars_num,
                self.vars_num_max == old(self).vars_num_max,
                self.instructions@.len() == old(self).instructions@.len(),
                mask == 1u64 << num as u64,
                j <= positions@.len(),
                ip == innermost_pending(old(self).block_stack@),
                old(self).has_pending(),
                old(self).block.match_test_pos@.len() > 0 ==> positions@ == old(
                    self,
                ).block.match_test_pos@,
                old(self).block.match_test_pos@.len() > 0 ==> self.block_stack == old(
                    self,
                ).block_stack && self.block == (Block {
                    match_test_vars: old(self).block.match_test_vars | mask,
                    ..old(self).block
                }),
                old(self).block.match_test_pos@.len() == 0 ==> 0 <= ip < old(
                    self,
                ).block_stack@.len() && positions@ == old(self).block_stack@[ip].match_test_pos@
                    && self.block == old(self).block && self.block_stack@ == old(
                    self,
                ).block_stack@.update(
                    ip,
                    (Block {
                        match_test_vars: old(self).block_stack@[ip].match_test_vars | mask,
                        ..old(self).block_stack@[ip]
                    }),
                ),
                forall|k: int|
                    0 <= k < old(self).instructions@.len() ==> (#[trigger] self.instructions@[k]
                        == old(self).instructions@[k] || self.instructions@[k]
                        == or_mask_instr_spec(old(self).instructions@[k], mask)),
                forall|jj: int|
                    0 <= jj < j ==> ((#[trigger] positions@[jj]) < old(self).instructions@.len()
                        ==> self.instructions@[positions@[jj] as int] == or_mask_instr_spec(
                        old(self).instructions@[positions@[jj] as int],
                        mask,
                    )),
            decreases positions@.len() - j,
        {
            let p = positions[j];
            let ghost before = self.instructions@;
            self.or_test_mask(p, mask);
            proof {
                if (p as int) < old(self).instructions@.len() {
                    if before[p as int] == old(self).instructions@[p as int] {
                    } else {
                        lemma_or_mask_idem(old(self).instructions@[p as int], mask);
                    }
                    assert(self.instructions@[p as int] == or_mask_instr_spec(
                        old(self).instructions@[p as int],
                        mask,
                    ));
                }
                assert forall|jj: int|
                    0 <= jj < j + 1 implies ((#[trigger] positions@[jj]) < old(
                    self,
                ).instructions@.len() ==> self.instructions@[positions@[jj] as int]
                    == or_mask_instr_spec(
                    old(self).instructions@[positions@[jj] as int],
                    mask,
                )) by {
                    if jj < j && positions@[jj] != p && (positions@[jj] as int) < old(
                        self,
                    ).instructions@.len() {
                        assert(self.instructions@[positions@[jj] as int]
                            == before[positions@[jj] as int]);
                    }
                }
            }
            j += 1;
        }
        true
    }

    /// Finds the innermost block with pending match-type tests, folds `mask`
    /// into its accumulator, and hands back the tests' addresses.
    fn take_match_positions(&mut self, mask: u64) -> (r: Option<Vec<usize>>)
        requires
            old(self).swf(),
        ensures
            Self::parse_step(*old(self), *final(self)),
            final(self).tokens == old(self).tokens,
            final(self).instructions == old(self).instructions,
            final(self).vars_num == old(self).vars_num,
            final(self).vars_num_max == old(self).vars_num_max,
            r is None ==> final(self).block == old(self).block && final(self).block_stack == old(
                self,
            ).block_stack,
            (r is Some) == old(self).has_pending(),
            old(self).block.match_test_pos@.len() > 0 ==> (r matches Some(ps) && ps@ == old(
                self,
            ).block.match_test_pos@),
            old(self).block.match_test_pos@.len() > 0 ==> final(self).block_stack == old(
                self,
            ).block_stack && final(self).block == (Block {
                match_test_vars: old(self).block.match_test_vars | mask,
                ..old(self).block
            }),
            old(self).block.match_test_pos@.len() == 0 && r is Some ==> ({
                let ip = innermost_pending(old(self).block_stack@);
                &&& 0 <= ip < old(self).block_stack@.len()
                &&& (r matches Some(ps) && ps@ == old(self).block_stack@[ip].match_test_pos@)
                &&& final(self).block == old(self).block
                &&& final(self).block_stack@ == old(self).block_stack@.update(
                    ip,
                    (Block {
                        match_test_vars: old(self).block_stack@[ip].match_test_vars | mask,
                        ..old(self).block_stack@[ip]
                    }),
                )
            }),
    {
        if self.block.match_test_pos.len() > 0 {
            let ps = copy_usizes(&self.block.match_test_pos);
            self.block.match_test_vars = self.block.match_test_vars | mask;
            return Some(ps);
        }
        let mut i: usize = self.block_stack.len();
        proof {
            assert(self.block_stack@.take(i as int) =~= self.block_stack@);
        }
        while i > 0
            invariant
                Self::parse_step(*old(self), *self),
                i <= self.block_stack@.len(),
                self.tokens == old(self).tokens,
                self.instructions == old(self).instructions,
                self.vars_num == old(self).vars_num,
                self.vars_num_max == old(self).vars_num_max,
                self.block == old(self).block,
                self.block_stack == old(self).block_stack,
                old(self).block.match_test_pos@.len() == 0,
                innermost_pending(self.block_stack@) == innermost_pending(
                    self.block_stack@.take(i as int),
                ),
            decreases i,
        {
            i -= 1;
            proof {
                let pre = self.block_stack@.take(i + 1);
                assert(pre.last() == self.block_stack@[i as int]);
                assert(pre.drop_last() =~= self.block_stack@.take(i as int));
            }
            if self.block_stack[i].match_test_pos.len() > 0 {
                proof {
                    assert(innermost_pending(old(self).block_stack@) == i);
                }
                let ps = copy_usizes(&self.block_stack[i].match_test_pos);
                let m = self.block_stack[i].match_test_vars;
                let ghost before = self.block_stack@;
                self.block_stack[i].match_test_vars = m | mask;
                proof {
                    assert(self.block_stack@[i as int] == (Block {
                        match_test_vars: before[i as int].match_test_vars | mask,
                        ..before[i as int]
                    }));
                    assert(self.block_stack@ =~= before.update(
                        i as int,
                        (Block {
                            match_test_vars: before[i as int].match_test_vars | mask,
                            ..before[i as int]
                        }),
                    ));
                }
                proof {
                    assert forall|k: int|
                        0 <= k < self.block_stack@.len() implies block_loc_ok(
                        #[trigger] self.block_stack@[k],
                        self.tokens.script@.len() as int,
                    ) by {
                        if k != i {
                            assert(self.block_stack@[k] == before[k]);
                        } else {
                            assert(self.block_stack@[k].line_num == before[k].line_num);
                            assert(self.block_stack@[k].line_pos == before[k].line_pos);
                        }
                    }
                }
                return Some(ps);
            }
        }
        proof {
            assert(innermost_pending(self.block_stack@.take(0)) == -1);
        }
        None
    }

    /// Ors `mask` into the match mask of the test instruction at `pos`; any
    /// other instruction, or an out-of-range position, is left alone.
    fn or_test_mask(&mut self, pos: usize, mask: u64)
        requires
            old(self).swf(),
        ensures
            Self::parse_step(*old(self), *final(self)),
            final(self).tokens == old(self).tokens,
            final(self).block == old(self).block,
            final(self).block_stack == old(self).block_stack,
            final(self).vars_num == old(self).vars_num,
            final(self).vars_num_max == old(self).vars_num_max,
            pos < old(self).instructions@.len() ==> final(self).instructions@ == old(
                self,
            ).instructions@.update(
                pos as int,
                or_mask_instr_spec(old(self).instructions@[pos as int], mask),
            ),
            pos >= old(self).instructions@.len() ==> final(self).instructions == old(
                self,
            ).instructions,
    {
        if pos >= self.instructions.len() {
            return ;
        }
        let mut taken = Instruction::Stop;
        core::mem::swap(&mut taken, &mut self.instructions[pos]);
        let ghost taken_g = taken;
        let back: Instruction = match taken {
            Instruction::Test(t) => Instruction::Test(or_mask_of_test(t, mask)),
            other => other,
        };
        self.instructions[pos] = back;
        proof {
            assert(taken_g == old(self).instructions@[pos as int]);
            assert(self.instructions@ =~= old(self).instructions@.update(
                pos as int,
                or_mask_instr_spec(old(self).instructions@[pos as int], mask),
            ));
            assert forall|k: int| 0 <= k < self.instructions@.len() implies instr_local_bound(
                #[trigger] self.instructions@[k],
            ) <= self.peak() by {
                if k != pos {
                    assert(self.instructions@[k] == old(self).instructions@[k]);
                }
            }
        }
    }
}

/// A match type with the capture mask or-ed in, where it has one.
pub open spec fn or_mask_match_type_spec(mt: MatchType, mask: u64) -> MatchType {
    match mt {
        MatchType::Matches(m) => MatchType::Matches(m | mask),
        MatchType::Regex(m) => MatchType::Regex(m | mask),
        other => other,
    }
}

/// A test with the capture mask or-ed into its match type.
pub open spec fn or_mask_test_spec(t: Test, mask: u64) -> Test {
    match t {
        Test::Header(h) => Test::Header(
            HeaderTest { match_type: or_mask_match_type_spec(h.match_type, mask), ..h },
    ),
        Test::StringTest(s) => Test::StringTest(
            StringTest { match_type: or_mask_match_type_spec(s.match_type, mask), ..s },
        ),
        other => other,
    }
}

/// An instruction with the capture mask or-ed into its test, where it holds
/// one.
pub open spec fn or_mask_instr_spec(i: Instruction, mask: u64) -> Instruction {
    match i {
        Instruction::Test(t) => Instruction::Test(or_mask_test_spec(t, mask)),
        other => other,
    }
}

/// Or-ing the same mask twice changes nothing more.
proof fn lemma_or_mask_idem(i: Instruction, mask: u64)
    ensures
        or_mask_instr_spec(or_mask_instr_spec(i, mask), mask) == or_mask_instr_spec(i, mask),
{
    assert forall|m: u64| (m | mask) | mask == m | mask by {
        assert(forall|m: u64| #[trigger] ((m | mask) | mask) == m | mask) by (bit_vector);
    }
}

/// Ors a capture mask into a test's match type, where it has one.
fn or_mask_of_test(t: Test, mask: u64) -> (r: Test)
    ensures
        r == or_mask_test_spec(t, mask),
        instr_local_bound(Instruction::Test(r)) == 0,
{
    match t {
        Test::Header(h) => {
            let mt = or_mask_of_match_type(h.match_type, mask);
            Test::Header(HeaderTest { match_type: mt, ..h })
        },
        Test::StringTest(s) => {
            let mt = or_mask_of_match_type(s.match_type, mask);
            Test::StringTest(StringTest { match_type: mt, ..s })
        },
        other => other,
    }
}

fn or_mask_of_match_type(mt: MatchType, mask: u64) -> (r: MatchType)
    ensures
        r == or_mask_match_type_spec(mt, mask),
{
    match mt {
        MatchType::Matches(m) => MatchType::Matches(m | mask),
        MatchType::Regex(m) => MatchType::Regex(m | mask),
        other => other,
    }
}

/// Copies a vector of positions.
fn copy_usizes(v: &Vec<usize>) -> (r: Vec<usize>)
    ensures
        r@ == v@,
{
    let mut r: Vec<usize> = Vec::new();
    let mut i: usize = 0;
    while i < v.len()
        invariant
            i <= v@.len(),
            r@ =~= v@.take(i as int),
        decreases v@.len() - i,
    {
        r.push(v[i]);
        i += 1;
        proof {
            assert(r@ =~= v@.take(i as int));
        }
    }
    proof {
        assert(r@ =~= v@);
    }
    r
}

/// The slot bound to a name in one block's local map, first binding from
/// position `i` on, compared by content.
pub(crate) open spec fn lookup_spec(m: Seq<(Vec<u8>, usize)>, name: Seq<u8>, i: int) -> Option<
    usize,
>
    decreases m.len() - i,
{
    if i < 0 || i >= m.len() {
        None
    } else if m[i].0@ == name {
        Some(m[i].1)
    } else {
        lookup_spec(m, name, i + 1)
    }
}

/// The index of the innermost open block that still has pending match-type
/// tests, or -1 where none has.
pub(crate) open spec fn innermost_pending(stack: Seq<Block>) -> int
    decreases stack.len(),
{
    if stack.len() == 0 {
        -1
    } else if stack.last().match_test_pos@.len() > 0 {
        stack.len() - 1
    } else {
        innermost_pending(stack.drop_last())
    }
}

/// A count clipped to what a `u32` can hold.
pub(crate) open spec fn sat32(n: int) -> u32 {
    if 0 <= n <= u32::MAX {
        n as u32
    } else {
        u32::MAX
    }
}

/// How many of these open blocks are `foreverypart` loops.
pub(crate) open spec fn fep_count(stack: Seq<Block>) -> int
    decreases stack.len(),
{
    if stack.len() == 0 {
        0
    } else {
        (if stack.last().btype == Word::ForEveryPart {
            1int
        } else {
            0int
        }) + fep_count(stack.drop_last())
    }
}

/// The slot bound to a name in a stack of open blocks, innermost (the end
/// of the sequence) first.
pub(crate) open spec fn stack_lookup(stack: Seq<Block>, name: Seq<u8>) -> Option<usize>
    decreases stack.len(),
{
    if stack.len() == 0 {
        None
    } else {
        match lookup_spec(stack.last().vars_local@, name, 0) {
            Some(id) => Some(id),
            None => stack_lookup(stack.drop_last(), name),
        }
    }
}

/// A found variable slot in a block's local map.
fn lookup_var(map: &Vec<(Vec<u8>, usize)>, name: &Vec<u8>) -> (r: Option<usize>)
    ensures
        r == lookup_spec(map@, name@, 0),
{
    let mut i: usize = 0;
    while i < map.len()
        invariant
            i <= map@.len(),
            lookup_spec(map@, name@, 0) == lookup_spec(map@, name@, i as int),
        decreases map@.len() - i,
    {
        if bytes_eq(&map[i].0, name) {
            return Some(map[i].1);
        }
        i += 1;
    }
    None
}

/// Rewrites any jump that is out of range or still the sentinel so that it
/// halts the program; a resolved jump is left exactly as it is.
fn normalize_jumps(v: &mut Vec<Instruction>)
    requires
        old(v)@.len() <= INSTR_CAP,
    ensures
        final(v)@.len() == old(v)@.len(),
        jumps_resolved(final(v)@),
        forall|k: int|
            0 <= k < old(v)@.len() && instr_jumps_ok(#[trigger] old(v)@[k], old(v)@.len() as int)
                ==> final(v)@[k] == old(v)@[k],
        forall|k: int|
            0 <= k < old(v)@.len() ==> instr_local_bound(#[trigger] final(v)@[k])
                == instr_local_bound(old(v)@[k]),
{
    let len = v.len();
    let mut k: usize = 0;
    while k < len
        invariant
            len == v@.len(),
            len <= INSTR_CAP,
            k <= len,
            forall|i: int|
                0 <= i < k ==> instr_jumps_ok(#[trigger] v@[i], len as int),
            forall|i: int|
                0 <= i < len && instr_jumps_ok(#[trigger] old(v)@[i], len as int) ==> v@[i] == old(
                    v,
                )@[i],
            forall|i: int|
                k <= i < len ==> #[trigger] v@[i] == old(v)@[i],
            forall|i: int|
                0 <= i < len ==> instr_local_bound(#[trigger] v@[i]) == instr_local_bound(
                    old(v)@[i],
                ),
        decreases len - k,
    {
        let target: Option<usize> = match &v[k] {
            Instruction::Jmp(t) => Some(*t),
            Instruction::Jz(t) => Some(*t),
            Instruction::Jnz(t) => Some(*t),
            Instruction::ForEveryPart(f) => Some(f.jz_pos),
            _ => None,
        };
        if let Some(t) = target {
            if t > len || t == usize::MAX {
                let fixed: Instruction = match &v[k] {
                    Instruction::Jmp(_) => Instruction::Jmp(len),
                    Instruction::Jz(_) => Instruction::Jz(len),
                    Instruction::Jnz(_) => Instruction::Jnz(len),
                    Instruction::ForEveryPart(_) => Instruction::ForEveryPart(
                        ForEveryPart { jz_pos: len },
                    ),
                    _ => Instruction::Stop,
                };
                v[k] = fixed;
            }
        }
        k += 1;
    }
}


impl<'x> CompilerState<'x> {
    /// Reads one string token into a value, compiling `${...}` references.
    fn parse_string_value(&mut self, ti: TokenInfo) -> (r: Result<Value, CompileError>)
        requires
            old(self).swf(),
            token_wf(ti.token, old(self).tokens.max_string_size),
            ti.line_num <= old(self).tokens.script@.len() + 1,
            ti.line_pos <= old(self).tokens.script@.len(),
        ensures
            Self::parse_step(*old(self), *final(self)),
            final(self).tokens == old(self).tokens,
            final(self).instructions@.len() == old(self).instructions@.len(),
            final(self).vars_num == old(self).vars_num,
            final(self).vars_num_max == old(self).vars_num_max,
            r matches Err(e) ==> err_in_range(e, final(self).tokens.script@.len() as int)
                && err_gated(e, final(self).no_capability_check),
    {
        match ti.token {
            Token::StringConstant(s) => Ok(Value::Text(s)),
            Token::StringVariable(s) => self.parse_template(s, ti.line_num, ti.line_pos),
            _ => Err(ti.expected("string")),
        }
    }

    /// Compiles a string holding `${...}` references into a template value.
    /// An unclosed or empty reference stays literal text.
    fn parse_template(&mut self, s: Vec<u8>, line_num: usize, line_pos: usize) -> (r: Result<
        Value,
        CompileError,
    >)
        requires
            old(self).swf(),
            line_num <= old(self).tokens.script@.len() + 1,
            line_pos <= old(self).tokens.script@.len(),
        ensures
            Self::parse_step(*old(self), *final(self)),
            final(self).tokens == old(self).tokens,
            final(self).instructions@.len() == old(self).instructions@.len(),
            final(self).vars_num == old(self).vars_num,
            final(self).vars_num_max == old(self).vars_num_max,
            r matches Err(e) ==> err_in_range(e, final(self).tokens.script@.len() as int)
                && err_gated(e, final(self).no_capability_check),
    {
        let n = s.len();
        let mut items: Vec<Value> = Vec::new();
        let mut cur: Vec<u8> = Vec::new();
        let mut i: usize = 0;
        while i < n
            invariant
                Self::parse_step(*old(self), *self),
                self.tokens == old(self).tokens,
                self.instructions@.len() == old(self).instructions@.len(),
                self.vars_num == old(self).vars_num,
                self.vars_num_max == old(self).vars_num_max,
                n == s@.len(),
                i <= n,
                line_num <= self.tokens.script@.len() + 1,
                line_pos <= self.tokens.script@.len(),
            decreases n - i,
        {
            let b = s[i];
            if b == 36 && i + 1 < n && s[i + 1] == 123 {
                // find the closing brace
                let mut j: usize = i + 2;
                while j < n && s[j] != 125
                    invariant
                        n == s@.len(),
                        j <= n,
                    decreases n - j,
                {
                    j += 1;
                }
                if j < n && j > i + 2 {
                    let inner = crate::strutil::copy_byte_range(&s, i + 2, j);
                    let vt = match self.parse_var_ref(inner, line_num, line_pos) {
                        Ok(vt) => vt,
                        Err(e) => {
                            return Err(e);
                        },
                    };
                    match vt {
                        Some(vt) => {
                            if cur.len() > 0 {
                                items.push(Value::Text(cur));
                                cur = Vec::new();
                            }
                            items.push(Value::Variable(vt));
                            i = j + 1;
                        },
                        None => {
                            cur.push(b);
                            i += 1;
                        },
                    }
                } else {
                    cur.push(b);
                    i += 1;
                }
            } else {
                cur.push(b);
                i += 1;
            }
        }
        if items.len() == 0 {
            Ok(Value::Text(cur))
        } else {
            if cur.len() > 0 {
                items.push(Value::Text(cur));
            }
            if items.len() == 1 {
                match items.pop() {
                    Some(v) => Ok(v),
                    None => Ok(Value::List(items)),
                }
            } else {
                Ok(Value::List(items))
            }
        }
    }

    /// Reads the inside of a `${...}` reference: a match-variable number, a
    /// namespaced name, or a plain variable name.
    fn parse_var_ref(&mut self, inner: Vec<u8>, line_num: usize, line_pos: usize) -> (r: Result<
        Option<VariableType>,
        CompileError,
    >)
        requires
            old(self).swf(),
            line_num <= old(self).tokens.script@.len() + 1,
            line_pos <= old(self).tokens.script@.len(),
        ensures
            Self::parse_step(*old(self), *final(self)),
            final(self).tokens == old(self).tokens,
            final(self).instructions@.len() == old(self).instructions@.len(),
            final(self).vars_num == old(self).vars_num,
            final(self).vars_num_max == old(self).vars_num_max,
            r matches Err(e) ==> err_in_range(e, final(self).tokens.script@.len() as int)
                && err_gated(e, final(self).no_capability_check),
    {
        if inner.len() == 0 {
            return Ok(None);
        }
        if all_digits(&inner) {
            let num = match parse_decimal(&inner) {
                Some(v) => v,
                None => {
                    return Err(CompileError {
                        line_num,
                        line_pos,
                        error_type: ErrorType::InvalidMatchVariable(usize::MAX),
                    });
                },
            };
            if num > 62 || num >= self.max_match_variables {
                return Err(CompileError {
                    line_num,
                    line_pos,
                    error_type: ErrorType::InvalidMatchVariable(num),
                });
            }
            let _ = self.register_match_var(num);
            if num + 1 > self.vars_match_max {
                self.vars_match_max = num + 1;
            }
            return Ok(Some(VariableType::Match(num)));
        }
        match find_dot(&inner) {
            Some(d) => {
                let ns = fold_bytes_range(&inner, 0, d);
                let rest = fold_bytes_range(&inner, d + 1, inner.len());
                if crate::words::ident_is(&ns, "global") {
                    if rest.len() > self.max_variable_name_size {
                        return Err(CompileError {
                            line_num,
                            line_pos,
                            error_type: ErrorType::VariableTooLong,
                        });
                    }
                    Ok(Some(VariableType::Global(rest)))
                } else if crate::words::ident_is(&ns, "env") {
                    Ok(Some(VariableType::Environment(rest)))
                } else {
                    Err(CompileError {
                        line_num,
                        line_pos,
                        error_type: ErrorType::InvalidNamespace(ns),
                    })
                }
            },
            None => {
                let folded = fold_bytes_range(&inner, 0, inner.len());
                if folded.len() > self.max_variable_name_size {
                    return Err(CompileError {
                        line_num,
                        line_pos,
                        error_type: ErrorType::VariableTooLong,
                    });
                }
                match self.get_local_var(&folded) {
                    Some(id) => Ok(Some(VariableType::Local(id))),
                    None => Ok(Some(VariableType::Global(folded))),
                }
            },
        }
    }

    /// Reads one string, or a bracketed list of strings, into values.
    fn parse_string_list(&mut self) -> (r: Result<Vec<Value>, CompileError>)
        requires
            old(self).swf(),
        ensures
            Self::parse_step(*old(self), *final(self)),
            final(self).instructions@.len() == old(self).instructions@.len(),
            final(self).vars_num == old(self).vars_num,
            final(self).vars_num_max == old(self).vars_num_max,
            r is Ok ==> final(self).tokens.measure() < old(self).tokens.measure(),
            r matches Err(e) ==> err_in_range(e, final(self).tokens.script@.len() as int)
                && err_gated(e, final(self).no_capability_check),
    {
        let ti = match self.unwrap_next() {
            Ok(ti) => ti,
            Err(e) => {
                return Err(e);
            },
        };
        match ti.token {
            Token::BracketOpen => {
                let mut out: Vec<Value> = Vec::new();
                loop
                    invariant
                        Self::parse_step(*old(self), *self),
                        self.instructions@.len() == old(self).instructions@.len(),
                        self.vars_num == old(self).vars_num,
                        self.vars_num_max == old(self).vars_num_max,
                        self.tokens.measure() < old(self).tokens.measure(),
                    decreases self.tokens.measure(),
                {
                    let item = match self.unwrap_next() {
                        Ok(ti) => ti,
                        Err(e) => {
                            return Err(e);
                        },
                    };
                    let v = match self.parse_string_value(item) {
                        Ok(v) => v,
                        Err(e) => {
                            return Err(e);
                        },
                    };
                    out.push(v);
                    let sep = match self.unwrap_next() {
                        Ok(ti) => ti,
                        Err(e) => {
                            return Err(e);
                        },
                    };
                    match sep.token {
                        Token::Comma => {},
                        Token::BracketClose => {
                            return Ok(out);
                        },
                        _ => {
                            return Err(sep.expected("',' or ']'"));
                        },
                    }
                }
            },
            Token::StringConstant(_) | Token::StringVariable(_) => {
                let v = match self.parse_string_value(ti) {
                    Ok(v) => v,
                    Err(e) => {
                        return Err(e);
                    },
                };
                let mut out: Vec<Value> = Vec::new();
                out.push(v);
                Ok(out)
            },
            _ => Err(ti.expected("string or string list")),
        }
    }

    /// Reads one constant string, or a bracketed list of them.
    fn parse_static_strings(&mut self) -> (r: Result<Vec<Vec<u8>>, CompileError>)
        requires
            old(self).swf(),
        ensures
            Self::parse_step(*old(self), *final(self)),
            final(self).instructions@.len() == old(self).instructions@.len(),
            final(self).vars_num == old(self).vars_num,
            final(self).vars_num_max == old(self).vars_num_max,
            r is Ok ==> final(self).tokens.measure() < old(self).tokens.measure(),
            r matches Err(e) ==> err_in_range(e, final(self).tokens.script@.len() as int)
                && err_gated(e, final(self).no_capability_check),
    {
        let ti = match self.unwrap_next() {
            Ok(ti) => ti,
            Err(e) => {
                return Err(e);
            },
        };
        match ti.token {
            Token::StringConstant(s) => {
                let mut out: Vec<Vec<u8>> = Vec::new();
                out.push(s);
                Ok(out)
            },
            Token::StringVariable(_) => Err(ti.custom(ErrorType::ExpectedConstantString)),
            Token::BracketOpen => {
                let mut out: Vec<Vec<u8>> = Vec::new();
                loop
                    invariant
                        Self::parse_step(*old(self), *self),
                        self.instructions@.len() == old(self).instructions@.len(),
                        self.vars_num == old(self).vars_num,
                        self.vars_num_max == old(self).vars_num_max,
                        self.tokens.measure() < old(self).tokens.measure(),
                    decreases self.tokens.measure(),
                {
                    let item = match self.unwrap_next() {
                        Ok(ti) => ti,
                        Err(e) => {
                            return Err(e);
                        },
                    };
                    match item.token {
                        Token::StringConstant(s) => {
                            out.push(s);
                        },
                        Token::StringVariable(_) => {
                            return Err(item.custom(ErrorType::ExpectedConstantString));
                        },
                        _ => {
                            return Err(item.expected("string"));
                        },
                    }
                    let sep = match self.unwrap_next() {
                        Ok(ti) => ti,
                        Err(e) => {
                            return Err(e);
                        },
                    };
                    match sep.token {
                        Token::Comma => {},
                        Token::BracketClose => {
                            return Ok(out);
                        },
                        _ => {
                            return Err(sep.expected("',' or ']'"));
                        },
                    }
                }
            },
            _ => Err(ti.expected("string or string list")),
        }
    }

    /// Consumes an unknown command's arguments: everything up to its `;`, or
    /// a whole braced block if one opens.
    fn ignore_command(&mut self) -> (r: Result<(), CompileError>)
        requires
            old(self).swf(),
        ensures
            Self::parse_step(*old(self), *final(self)),
            final(self).instructions@.len() == old(self).instructions@.len(),
            final(self).vars_num == old(self).vars_num,
            final(self).vars_num_max == old(self).vars_num_max,
            r matches Err(e) ==> err_in_range(e, final(self).tokens.script@.len() as int)
                && err_gated(e, final(self).no_capability_check),
    {
        let mut depth: usize = 0;
        loop
            invariant
                Self::parse_step(*old(self), *self),
                self.instructions@.len() == old(self).instructions@.len(),
                self.vars_num == old(self).vars_num,
                self.vars_num_max == old(self).vars_num_max,
            decreases self.tokens.measure(),
        {
            match self.tokens.fill_peek() {
                Ok(()) => {},
                Err(e) => {
                    return Err(e);
                },
            }
            if self.tokens.peeked_is_none() {
                // end of script ends the statement
                return Ok(());
            }
            if depth == 0 && self.tokens.peeked_is_curly_close() {
                // the brace belongs to the enclosing block
                return Ok(());
            }
            let ti = match self.tokens.next() {
                Ok(Some(ti)) => ti,
                Ok(None) => {
                    return Ok(());
                },
                Err(e) => {
                    return Err(e);
                },
            };
            match ti.token {
                Token::Semicolon => {
                    if depth == 0 {
                        return Ok(());
                    }
                },
                Token::CurlyOpen => {
                    if depth < usize::MAX {
                        depth += 1;
                    }
                },
                Token::CurlyClose => {
                    if depth == 1 {
                        return Ok(());
                    }
                    if depth > 0 {
                        depth -= 1;
                    }
                },
                _ => {},
            }
        }
    }
}

/// Whether every byte is a decimal digit.
fn all_digits(v: &Vec<u8>) -> (r: bool) {
    let mut i: usize = 0;
    while i < v.len()
        invariant
            i <= v@.len(),
        decreases v@.len() - i,
    {
        let b = v[i];
        if !(48 <= b && b <= 57) {
            return false;
        }
        i += 1;
    }
    true
}

/// Reads a decimal number; `None` on overflow.
fn parse_decimal(v: &Vec<u8>) -> (r: Option<usize>) {
    let mut value: usize = 0;
    let mut i: usize = 0;
    while i < v.len()
        invariant
            i <= v@.len(),
        decreases v@.len() - i,
    {
        let b = v[i];
        if !(48 <= b && b <= 57) {
            return None;
        }
        if value > (usize::MAX - 9) / 10 {
            return None;
        }
        value = value * 10 + ((b - 48) as usize);
        i += 1;
    }
    Some(value)
}

/// The first dot in the bytes, if any.
fn find_dot(v: &Vec<u8>) -> (r: Option<usize>)
    ensures
        r matches Some(d) ==> d < v@.len(),
{
    let mut i: usize = 0;
    while i < v.len()
        invariant
            i <= v@.len(),
        decreases v@.len() - i,
    {
        if v[i] == 46 {
            return Some(i);
        }
        i += 1;
    }
    None
}

/// A lower-cased copy of the byte range `[from, to)`.
fn fold_bytes_range(v: &Vec<u8>, from: usize, to: usize) -> (r: Vec<u8>)
    requires
        from <= to <= v@.len(),
    ensures
        r@.len() == to - from,
{
    let mut out: Vec<u8> = Vec::new();
    let mut i: usize = from;
    while i < to
        invariant
            from <= i <= to <= v@.len(),
            out@.len() == i - from,
        decreases to - i,
    {
        let b = v[i];
        if b >= 65 && b <= 90 {
            out.push(b + 32);
        } else {
            out.push(b);
        }
        i += 1;
    }
    out
}


impl<'x> CompilerState<'x> {
    /// Compiles one test expression. The emitted code falls through when the
    /// result is not `jump_if`; when it is, control jumps to one of the
    /// still-unresolved positions collected in `jumps`.
    fn compile_test(&mut self, depth: usize, jump_if: bool, jumps: &mut Vec<usize>) -> (r: Result<
        (),
        CompileError,
    >)
        requires
            old(self).swf(),
        ensures
            Self::parse_step(*old(self), *final(self)),
            final(self).vars_num == old(self).vars_num,
            final(self).vars_num_max == old(self).vars_num_max,
            r is Ok ==> final(self).tokens.measure() < old(self).tokens.measure(),
            r matches Err(e) ==> err_in_range(e, final(self).tokens.script@.len() as int)
                && err_gated(e, final(self).no_capability_check),
        decreases old(self).max_nested_tests - depth,
    {
        if depth >= self.max_nested_tests {
            let line_num = self.cur_line();
            let line_pos = self.cur_col();
            return Err(CompileError {
                line_num,
                line_pos,
                error_type: ErrorType::TooManyNestedTests,
            });
        }
        let ti = match self.unwrap_next() {
            Ok(ti) => ti,
            Err(e) => {
                return Err(e);
            },
        };
        let line_num = ti.line_num;
        let line_pos = ti.line_pos;
        match ti.token {
            Token::Identifier(w) => match w {
                Word::True => self.emit_test_jump(Test::True, jump_if, jumps, line_num, line_pos),
                Word::False => self.emit_test_jump(Test::False, jump_if, jumps, line_num, line_pos),
                Word::Not => self.compile_test(depth + 1, !jump_if, jumps),
                Word::AllOf => {
                    if jump_if {
                        self.compile_junction(depth, false, jumps, line_num, line_pos)
                    } else {
                        self.compile_direct_junction(depth, false, jumps)
                    }
                },
                Word::AnyOf => {
                    if jump_if {
                        self.compile_direct_junction(depth, true, jumps)
                    } else {
                        self.compile_junction(depth, true, jumps, line_num, line_pos)
                    }
                },
                Word::Header => {
                    let t = match self.parse_test_header(line_num, line_pos) {
                        Ok(t) => t,
                        Err(e) => {
                            return Err(e);
                        },
                    };
                    self.emit_test_jump(t, jump_if, jumps, line_num, line_pos)
                },
                Word::String => {
                    match self.validate_capability(Capability::Variables, line_num, line_pos) {
                        Ok(()) => {},
                        Err(e) => {
                            return Err(e);
                        },
                    }
                    let t = match self.parse_test_string(line_num, line_pos) {
                        Ok(t) => t,
                        Err(e) => {
                            return Err(e);
                        },
                    };
                    self.emit_test_jump(t, jump_if, jumps, line_num, line_pos)
                },
                Word::Environment => {
                    let cap = capability_from_name(&crate::lexer::str_to_bytes("environment"));
                    match self.validate_capability(cap, line_num, line_pos) {
                        Ok(()) => {},
                        Err(e) => {
                            return Err(e);
                        },
                    }
                    let t = match self.parse_test_environment(line_num, line_pos) {
                        Ok(t) => t,
                        Err(e) => {
                            return Err(e);
                        },
                    };
                    self.emit_test_jump(t, jump_if, jumps, line_num, line_pos)
                },
                Word::Envelope => {
                    match self.validate_capability(Capability::Envelope, line_num, line_pos) {
                        Ok(()) => {},
                        Err(e) => {
                            return Err(e);
                        },
                    }
                    let t = match self.parse_test_envelope(line_num, line_pos) {
                        Ok(t) => t,
                        Err(e) => {
                            return Err(e);
                        },
                    };
                    self.emit_test_jump(t, jump_if, jumps, line_num, line_pos)
                },
                Word::Size => {
                    let t = match self.parse_test_size(line_num, line_pos) {
                        Ok(t) => t,
                        Err(e) => {
                            return Err(e);
                        },
                    };
                    self.emit_test_jump(t, jump_if, jumps, line_num, line_pos)
                },
                Word::Exists => {
                    let headers = match self.parse_string_list() {
                        Ok(h) => h,
                        Err(e) => {
                            return Err(e);
                        },
                    };
                    self.emit_test_jump(Test::Exists(headers), jump_if, jumps, line_num, line_pos)
                },
                _ => Err(ti.expected("test name")),
            },
            _ => Err(ti.expected("test name")),
        }
    }

    /// Compiles `allof`/`anyof` when each member can jump straight to the
    /// caller's targets: `allof` jumping on false, `anyof` jumping on true.
    fn compile_direct_junction(&mut self, depth: usize, jump_if: bool, jumps: &mut Vec<usize>) -> (r:
        Result<(), CompileError>)
        requires
            old(self).swf(),
            depth < old(self).max_nested_tests,
        ensures
            Self::parse_step(*old(self), *final(self)),
            final(self).vars_num == old(self).vars_num,
            final(self).vars_num_max == old(self).vars_num_max,
            r is Ok ==> final(self).tokens.measure() < old(self).tokens.measure(),
            r matches Err(e) ==> err_in_range(e, final(self).tokens.script@.len() as int)
                && err_gated(e, final(self).no_capability_check),
        decreases old(self).max_nested_tests - depth, 0int,
    {
        let open = match self.unwrap_next() {
            Ok(ti) => ti,
            Err(e) => {
                return Err(e);
            },
        };
        if !matches!(open.token, Token::ParenthesisOpen) {
            return Err(open.expected("("));
        }
        loop
            invariant
                Self::parse_step(*old(self), *self),
                self.vars_num == old(self).vars_num,
                self.vars_num_max == old(self).vars_num_max,
                self.tokens.measure() < old(self).tokens.measure(),
                depth < self.max_nested_tests,
            decreases self.tokens.measure(),
        {
            match self.compile_test(depth + 1, jump_if, jumps) {
                Ok(()) => {},
                Err(e) => {
                    return Err(e);
                },
            }
            let sep = match self.unwrap_next() {
                Ok(ti) => ti,
                Err(e) => {
                    return Err(e);
                },
            };
            match sep.token {
                Token::Comma => {},
                Token::ParenthesisClose => {
                    return Ok(());
                },
                _ => {
                    return Err(sep.expected("',' or ')'"));
                },
            }
        }
    }

    /// Compiles `allof`/`anyof` with the opposite polarity: members jump to a
    /// local join, and one unconditional jump serves the caller's targets.
    /// `member_jump_if` is the polarity each member jumps with.
    fn compile_junction(
        &mut self,
        depth: usize,
        member_jump_if: bool,
        jumps: &mut Vec<usize>,
        line_num: usize,
        line_pos: usize,
    ) -> (r: Result<(), CompileError>)
        requires
            old(self).swf(),
            depth < old(self).max_nested_tests,
            line_num <= old(self).tokens.script@.len() + 1,
            line_pos <= old(self).tokens.script@.len(),
        ensures
            Self::parse_step(*old(self), *final(self)),
            final(self).vars_num == old(self).vars_num,
            final(self).vars_num_max == old(self).vars_num_max,
            r is Ok ==> final(self).tokens.measure() < old(self).tokens.measure(),
            r matches Err(e) ==> err_in_range(e, final(self).tokens.script@.len() as int)
                && err_gated(e, final(self).no_capability_check),
        decreases old(self).max_nested_tests - depth, 0int,
    {
        let open = match self.unwrap_next() {
            Ok(ti) => ti,
            Err(e) => {
                return Err(e);
            },
        };
        if !matches!(open.token, Token::ParenthesisOpen) {
            return Err(open.expected("("));
        }
        let mut local: Vec<usize> = Vec::new();
        loop
            invariant
                Self::parse_step(*old(self), *self),
                self.vars_num == old(self).vars_num,
                self.vars_num_max == old(self).vars_num_max,
                self.tokens.measure() < old(self).tokens.measure(),
                depth < self.max_nested_tests,
                line_num <= self.tokens.script@.len() + 1,
                line_pos <= self.tokens.script@.len(),
            decreases self.tokens.measure(),
        {
            match self.compile_test(depth + 1, member_jump_if, &mut local) {
                Ok(()) => {},
                Err(e) => {
                    return Err(e);
                },
            }
            let sep = match self.unwrap_next() {
                Ok(ti) => ti,
                Err(e) => {
                    return Err(e);
                },
            };
            match sep.token {
                Token::Comma => {},
                Token::ParenthesisClose => {
                    break ;
                },
                _ => {
                    return Err(sep.expected("',' or ')'"));
                },
            }
        }
        // the junction's own exit: all members fell through
        let jump_pos = self.instructions.len();
        match self.emit(line_num, line_pos, Instruction::Jmp(usize::MAX)) {
            Ok(()) => {},
            Err(e) => {
                return Err(e);
            },
        }
        jumps.push(jump_pos);
        // members that jumped locally resume here
        let here = self.instructions.len();
        let mut k: usize = 0;
        let n = local.len();
        while k < n
            invariant
                Self::parse_step(*old(self), *self),
                self.vars_num == old(self).vars_num,
                self.vars_num_max == old(self).vars_num_max,
                self.tokens.measure() < old(self).tokens.measure(),
                n == local@.len(),
                k <= n,
            decreases n - k,
        {
            self.patch_jump(local[k], here);
            k += 1;
        }
        Ok(())
    }

    /// Emits a test instruction and the conditional jump that follows it,
    /// recording a match-type test for later capture-mask patching.
    fn emit_test_jump(
        &mut self,
        t: Test,
        jump_if: bool,
        jumps: &mut Vec<usize>,
        line_num: usize,
        line_pos: usize,
    ) -> (r: Result<(), CompileError>)
        requires
            old(self).swf(),
            line_num <= old(self).tokens.script@.len() + 1,
            line_pos <= old(self).tokens.script@.len(),
        ensures
            Self::parse_step(*old(self), *final(self)),
            final(self).tokens == old(self).tokens,
            final(self).vars_num == old(self).vars_num,
            final(self).vars_num_max == old(self).vars_num_max,
            r matches Err(e) ==> err_in_range(e, final(self).tokens.script@.len() as int)
                && err_gated(e, final(self).no_capability_check),
    {
        let records = match &t {
            Test::Header(h) => matches!(h.match_type, MatchType::Matches(_) | MatchType::Regex(_)),
            Test::StringTest(s) => matches!(
                s.match_type,
                MatchType::Matches(_) | MatchType::Regex(_),
            ),
            _ => false,
        };
        let test_pos = self.instructions.len();
        match self.emit(line_num, line_pos, Instruction::Test(t)) {
            Ok(()) => {},
            Err(e) => {
                return Err(e);
            },
        }
        if records {
            self.block.match_test_pos.push(test_pos);
        }
        let jump_pos = self.instructions.len();
        let instr = if jump_if {
            Instruction::Jnz(usize::MAX)
        } else {
            Instruction::Jz(usize::MAX)
        };
        match self.emit(line_num, line_pos, instr) {
            Ok(()) => {},
            Err(e) => {
                return Err(e);
            },
        }
        jumps.push(jump_pos);
        Ok(())
    }

    /// Reads the match-type and comparator tags a test accepts.
    fn parse_match_tags(&mut self, line_num: usize, line_pos: usize) -> (r: Result<
        MatchType,
        CompileError,
    >)
        requires
            old(self).swf(),
            line_num <= old(self).tokens.script@.len() + 1,
            line_pos <= old(self).tokens.script@.len(),
        ensures
            Self::parse_step(*old(self), *final(self)),
            final(self).instructions@.len() == old(self).instructions@.len(),
            final(self).vars_num == old(self).vars_num,
            final(self).vars_num_max == old(self).vars_num_max,
            r matches Err(e) ==> err_in_range(e, final(self).tokens.script@.len() as int)
                && err_gated(e, final(self).no_capability_check),
    {
        let mut match_type = MatchType::Is;
        loop
            invariant
                Self::parse_step(*old(self), *self),
                self.instructions@.len() == old(self).instructions@.len(),
                self.vars_num == old(self).vars_num,
                self.vars_num_max == old(self).vars_num_max,
                line_num <= self.tokens.script@.len() + 1,
                line_pos <= self.tokens.script@.len(),
            decreases self.tokens.measure(),
        {
            match self.tokens.fill_peek() {
                Ok(()) => {},
                Err(e) => {
                    return Err(e);
                },
            }
            let tag = self.tokens.peeked_tag();
            match tag {
                Some(Word::Is) => {
                    let _ = self.tokens.next();
                    match_type = MatchType::Is;
                },
                Some(Word::Contains) => {
                    let _ = self.tokens.next();
                    match_type = MatchType::Contains;
                },
                Some(Word::Matches) => {
                    let _ = self.tokens.next();
                    match_type = MatchType::Matches(0);
                },
                Some(Word::Regex) => {
                    match self.validate_capability(Capability::Regex, line_num, line_pos) {
                        Ok(()) => {},
                        Err(e) => {
                            return Err(e);
                        },
                    }
                    let _ = self.tokens.next();
                    match_type = MatchType::Regex(0);
                },
                Some(Word::Comparator) => {
                    let _ = self.tokens.next();
                    let name = match self.expect_static_string() {
                        Ok(n) => n,
                        Err(e) => {
                            return Err(e);
                        },
                    };
                    if crate::words::ident_is(&name, "i;octet") || crate::words::ident_is(
                        &name,
                        "i;ascii-casemap",
                    ) {
                        // the built-in comparators need no capability
                    } else if crate::words::ident_is(&name, "i;ascii-numeric") {
                        match self.validate_capability(
                            Capability::Comparator(Comparator::AsciiNumeric),
                            line_num,
                            line_pos,
                        ) {
                            Ok(()) => {},
                            Err(e) => {
                                return Err(e);
                            },
                        }
                    } else {
                        return Err(CompileError {
                            line_num,
                            line_pos,
                            error_type: ErrorType::UnsupportedComparator(name),
                        });
                    }
                },
                _ => {
                    return Ok(match_type);
                },
            }
        }
    }

    /// `header [tags] <header-names> <key-list>`.
    fn parse_test_header(&mut self, line_num: usize, line_pos: usize) -> (r: Result<
        Test,
        CompileError,
    >)
        requires
            old(self).swf(),
            line_num <= old(self).tokens.script@.len() + 1,
            line_pos <= old(self).tokens.script@.len(),
        ensures
            Self::parse_step(*old(self), *final(self)),
            final(self).instructions@.len() == old(self).instructions@.len(),
            final(self).vars_num == old(self).vars_num,
            final(self).vars_num_max == old(self).vars_num_max,
            r matches Err(e) ==> err_in_range(e, final(self).tokens.script@.len() as int)
                && err_gated(e, final(self).no_capability_check),
    {
        let match_type = match self.parse_match_tags(line_num, line_pos) {
            Ok(mt) => mt,
            Err(e) => {
                return Err(e);
            },
        };
        let header_list = match self.parse_string_list() {
            Ok(h) => h,
            Err(e) => {
                return Err(e);
            },
        };
        let key_list = match self.parse_string_list() {
            Ok(k) => k,
            Err(e) => {
                return Err(e);
            },
        };
        if matches!(match_type, MatchType::Regex(_)) {
            match check_regex_keys(&key_list, line_num, line_pos) {
                Ok(()) => {},
                Err(e) => {
                    return Err(e);
                },
            }
        }
        Ok(Test::Header(HeaderTest { header_list, key_list, match_type }))
    }

    /// `string [tags] <source> <key-list>`.
    fn parse_test_string(&mut self, line_num: usize, line_pos: usize) -> (r: Result<
        Test,
        CompileError,
    >)
        requires
            old(self).swf(),
            line_num <= old(self).tokens.script@.len() + 1,
            line_pos <= old(self).tokens.script@.len(),
        ensures
            Self::parse_step(*old(self), *final(self)),
            final(self).instructions@.len() == old(self).instructions@.len(),
            final(self).vars_num == old(self).vars_num,
            final(self).vars_num_max == old(self).vars_num_max,
            r matches Err(e) ==> err_in_range(e, final(self).tokens.script@.len() as int)
                && err_gated(e, final(self).no_capability_check),
    {
        let match_type = match self.parse_match_tags(line_num, line_pos) {
            Ok(mt) => mt,
            Err(e) => {
                return Err(e);
            },
        };
        let source = match self.parse_string_list() {
            Ok(h) => h,
            Err(e) => {
                return Err(e);
            },
        };
        let key_list = match self.parse_string_list() {
            Ok(k) => k,
            Err(e) => {
                return Err(e);
            },
        };
        if matches!(match_type, MatchType::Regex(_)) {
            match check_regex_keys(&key_list, line_num, line_pos) {
                Ok(()) => {},
                Err(e) => {
                    return Err(e);
                },
            }
        }
        Ok(Test::StringTest(StringTest { source, key_list, match_type }))
    }

    /// `environment [tags] <name> <key-list>`: a string test whose source
    /// reads the named environment item.
    fn parse_test_environment(&mut self, line_num: usize, line_pos: usize) -> (r: Result<
        Test,
        CompileError,
    >)
        requires
            old(self).swf(),
            line_num <= old(self).tokens.script@.len() + 1,
            line_pos <= old(self).tokens.script@.len(),
        ensures
            Self::parse_step(*old(self), *final(self)),
            final(self).instructions@.len() == old(self).instructions@.len(),
            final(self).vars_num == old(self).vars_num,
            final(self).vars_num_max == old(self).vars_num_max,
            r matches Err(e) ==> err_in_range(e, final(self).tokens.script@.len() as int)
                && err_gated(e, final(self).no_capability_check),
    {
        let match_type = match self.parse_match_tags(line_num, line_pos) {
            Ok(mt) => mt,
            Err(e) => {
                return Err(e);
            },
        };
        let name = match self.expect_static_string() {
            Ok(n) => n,
            Err(e) => {
                return Err(e);
            },
        };
        let key_list = match self.parse_string_list() {
            Ok(k) => k,
            Err(e) => {
                return Err(e);
            },
        };
        if matches!(match_type, MatchType::Regex(_)) {
            match check_regex_keys(&key_list, line_num, line_pos) {
                Ok(()) => {},
                Err(e) => {
                    return Err(e);
                },
            }
        }
        let mut source: Vec<Value> = Vec::new();
        source.push(Value::Variable(VariableType::Environment(name)));
        Ok(Test::StringTest(StringTest { source, key_list, match_type }))
    }

    /// `envelope [tags] <envelope-parts> <key-list>`: a string test whose
    /// sources read the named envelope fields.
    fn parse_test_envelope(&mut self, line_num: usize, line_pos: usize) -> (r: Result<
        Test,
        CompileError,
    >)
        requires
            old(self).swf(),
            line_num <= old(self).tokens.script@.len() + 1,
            line_pos <= old(self).tokens.script@.len(),
        ensures
            Self::parse_step(*old(self), *final(self)),
            final(self).instructions@.len() == old(self).instructions@.len(),
            final(self).vars_num == old(self).vars_num,
            final(self).vars_num_max == old(self).vars_num_max,
            r matches Err(e) ==> err_in_range(e, final(self).tokens.script@.len() as int)
                && err_gated(e, final(self).no_capability_check),
    {
        let match_type = match self.parse_match_tags(line_num, line_pos) {
            Ok(mt) => mt,
            Err(e) => {
                return Err(e);
            },
        };
        let parts = match self.parse_static_strings() {
            Ok(p) => p,
            Err(e) => {
                return Err(e);
            },
        };
        let mut source: Vec<Value> = Vec::new();
        let mut i: usize = 0;
        while i < parts.len()
            invariant
                Self::parse_step(*old(self), *self),
                self.instructions@.len() == old(self).instructions@.len(),
                self.vars_num == old(self).vars_num,
                self.vars_num_max == old(self).vars_num_max,
                line_num <= self.tokens.script@.len() + 1,
                line_pos <= self.tokens.script@.len(),
                i <= parts@.len(),
            decreases parts@.len() - i,
        {
            match envelope_kind(&parts[i]) {
                Some(kind) => {
                    source.push(Value::Variable(VariableType::Envelope(kind)));
                },
                None => {
                    return Err(CompileError {
                        line_num,
                        line_pos,
                        error_type: ErrorType::InvalidEnvelope(crate::lexer::clone_bytes(
                            &parts[i],
                        )),
                    });
                },
            }
            i += 1;
        }
        let key_list = match self.parse_string_list() {
            Ok(k) => k,
            Err(e) => {
                return Err(e);
            },
        };
        if matches!(match_type, MatchType::Regex(_)) {
            match check_regex_keys(&key_list, line_num, line_pos) {
                Ok(()) => {},
                Err(e) => {
                    return Err(e);
                },
            }
        }
        Ok(Test::StringTest(StringTest { source, key_list, match_type }))
    }

    /// `size :over|:under <limit>`.
    fn parse_test_size(&mut self, line_num: usize, line_pos: usize) -> (r: Result<
        Test,
        CompileError,
    >)
        requires
            old(self).swf(),
            line_num <= old(self).tokens.script@.len() + 1,
            line_pos <= old(self).tokens.script@.len(),
        ensures
            Self::parse_step(*old(self), *final(self)),
            final(self).instructions@.len() == old(self).instructions@.len(),
            final(self).vars_num == old(self).vars_num,
            final(self).vars_num_max == old(self).vars_num_max,
            r matches Err(e) ==> err_in_range(e, final(self).tokens.script@.len() as int)
                && err_gated(e, final(self).no_capability_check),
    {
        let ti = match self.unwrap_next() {
            Ok(ti) => ti,
            Err(e) => {
                return Err(e);
            },
        };
        let over = match ti.token {
            Token::Tag(Word::Over) => true,
            Token::Tag(Word::Under) => false,
            _ => {
                return Err(ti.missing_tag(":over or :under"));
            },
        };
        let num = match self.unwrap_next() {
            Ok(ti) => ti,
            Err(e) => {
                return Err(e);
            },
        };
        match num.token {
            Token::Number(limit) => Ok(Test::Size(SizeTest { over, limit })),
            _ => Err(num.expected("number")),
        }
    }
}

/// Every constant key of a `:regex` test must be a valid pattern.
fn check_regex_keys(keys: &Vec<Value>, line_num: usize, line_pos: usize) -> (r: Result<
    (),
    CompileError,
>)
    ensures
        r matches Err(e) ==> e.line_num == line_num && e.line_pos == line_pos && e.error_type
            is InvalidRegex,
{
    let mut i: usize = 0;
    while i < keys.len()
        invariant
            i <= keys@.len(),
        decreases keys@.len() - i,
    {
        if let Value::Text(pattern) = &keys[i] {
            if !crate::regexutil::regex_is_valid(pattern) {
                return Err(CompileError {
                    line_num,
                    line_pos,
                    error_type: ErrorType::InvalidRegex(crate::lexer::clone_bytes(pattern)),
                });
            }
        }
        i += 1;
    }
    Ok(())
}


impl<'x> CompilerState<'x> {
    /// `require` unions capability names into the current block's scope and
    /// stands in the program as its own instruction.
    fn parse_require(&mut self, line_num: usize, line_pos: usize) -> (r: Result<(), CompileError>)
        requires
            old(self).swf(),
            line_num <= old(self).tokens.script@.len() + 1,
            line_pos <= old(self).tokens.script@.len(),
        ensures
            Self::parse_step(*old(self), *final(self)),
            final(self).vars_num == old(self).vars_num,
            final(self).vars_num_max == old(self).vars_num_max,
            r matches Err(e) ==> err_in_range(e, final(self).tokens.script@.len() as int)
                && err_gated(e, final(self).no_capability_check),
    {
        let names = match self.parse_static_strings() {
            Ok(n) => n,
            Err(e) => {
                return Err(e);
            },
        };
        let mut listed: Vec<Capability> = Vec::new();
        let mut i: usize = 0;
        while i < names.len()
            invariant
                Self::parse_step(*old(self), *self),
                self.vars_num == old(self).vars_num,
                self.vars_num_max == old(self).vars_num_max,
                line_num <= self.tokens.script@.len() + 1,
                line_pos <= self.tokens.script@.len(),
                i <= names@.len(),
            decreases names@.len() - i,
        {
            let cap = capability_from_name(&names[i]);
            self.block.capabilities.push(cap);
            listed.push(capability_from_name(&names[i]));
            i += 1;
        }
        self.emit(line_num, line_pos, Instruction::Require(listed))
    }

    /// `global` declares variable names as shared across included scripts.
    fn parse_global(&mut self) -> (r: Result<(), CompileError>)
        requires
            old(self).swf(),
        ensures
            Self::parse_step(*old(self), *final(self)),
            final(self).vars_num == old(self).vars_num,
            final(self).vars_num_max == old(self).vars_num_max,
            r matches Err(e) ==> err_in_range(e, final(self).tokens.script@.len() as int)
                && err_gated(e, final(self).no_capability_check),
    {
        let names = match self.parse_static_strings() {
            Ok(n) => n,
            Err(e) => {
                return Err(e);
            },
        };
        let mut i: usize = 0;
        while i < names.len()
            invariant
                Self::parse_step(*old(self), *self),
                self.vars_num == old(self).vars_num,
                self.vars_num_max == old(self).vars_num_max,
                i <= names@.len(),
            decreases names@.len() - i,
        {
            let folded = fold_bytes_range(&names[i], 0, names[i].len());
            let line_num = self.cur_line();
            let line_pos = self.cur_col();
            if self.is_var_local(&folded) {
                return Err(CompileError {
                    line_num,
                    line_pos,
                    error_type: ErrorType::VariableIsLocal(folded),
                });
            }
            if folded.len() > self.max_variable_name_size {
                return Err(CompileError {
                    line_num,
                    line_pos,
                    error_type: ErrorType::VariableTooLong,
                });
            }
            self.register_global_var(folded);
            i += 1;
        }
        Ok(())
    }

    /// `fileinto [:copy] [:create] <folder>`.
    fn parse_fileinto(&mut self) -> (r: Result<(), CompileError>)
        requires
            old(self).swf(),
        ensures
            Self::parse_step(*old(self), *final(self)),
            r matches Err(e) ==> err_in_range(e, final(self).tokens.script@.len() as int)
                && err_gated(e, final(self).no_capability_check),
    {
        let mut copy = false;
        let mut create = false;
        loop
            invariant
                Self::parse_step(*old(self), *self),
            decreases self.tokens.measure(),
        {
            match self.tokens.fill_peek() {
                Ok(()) => {},
                Err(e) => {
                    return Err(e);
                },
            }
            match self.tokens.peeked_tag() {
                Some(Word::Copy) => {
                    let tag = match self.unwrap_next() {
                        Ok(t) => t,
                        Err(e) => {
                            return Err(e);
                        },
                    };
                    match self.validate_capability(Capability::Copy, tag.line_num, tag.line_pos) {
                        Ok(()) => {},
                        Err(e) => {
                            return Err(e);
                        },
                    }
                    if copy {
                        return Err(tag.custom(ErrorType::DuplicatedParameter));
                    }
                    copy = true;
                },
                Some(Word::Create) => {
                    let tag = match self.unwrap_next() {
                        Ok(t) => t,
                        Err(e) => {
                            return Err(e);
                        },
                    };
                    match self.validate_capability(
                        Capability::Mailbox,
                        tag.line_num,
                        tag.line_pos,
                    ) {
                        Ok(()) => {},
                        Err(e) => {
                            return Err(e);
                        },
                    }
                    if create {
                        return Err(tag.custom(ErrorType::DuplicatedParameter));
                    }
                    create = true;
                },
                _ => {
                    break ;
                },
            }
        }
        let ti = match self.unwrap_next() {
            Ok(t) => t,
            Err(e) => {
                return Err(e);
            },
        };
        let line_num = ti.line_num;
        let line_pos = ti.line_pos;
        let folder = match self.parse_string_value(ti) {
            Ok(v) => v,
            Err(e) => {
                return Err(e);
            },
        };
        self.emit(line_num, line_pos, Instruction::FileInto(FileInto { folder, copy, create }))
    }

    /// `redirect [:copy] <address>`.
    fn parse_redirect(&mut self) -> (r: Result<(), CompileError>)
        requires
            old(self).swf(),
        ensures
            Self::parse_step(*old(self), *final(self)),
            r matches Err(e) ==> err_in_range(e, final(self).tokens.script@.len() as int)
                && err_gated(e, final(self).no_capability_check),
    {
        let mut copy = false;
        loop
            invariant
                Self::parse_step(*old(self), *self),
            decreases self.tokens.measure(),
        {
            match self.tokens.fill_peek() {
                Ok(()) => {},
                Err(e) => {
                    return Err(e);
                },
            }
            match self.tokens.peeked_tag() {
                Some(Word::Copy) => {
                    let tag = match self.unwrap_next() {
                        Ok(t) => t,
                        Err(e) => {
                            return Err(e);
                        },
                    };
                    match self.validate_capability(Capability::Copy, tag.line_num, tag.line_pos) {
                        Ok(()) => {},
                        Err(e) => {
                            return Err(e);
                        },
                    }
                    if copy {
                        return Err(tag.custom(ErrorType::DuplicatedParameter));
                    }
                    copy = true;
                },
                _ => {
                    break ;
                },
            }
        }
        let ti = match self.unwrap_next() {
            Ok(t) => t,
            Err(e) => {
                return Err(e);
            },
        };
        let line_num = ti.line_num;
        let line_pos = ti.line_pos;
        let address = match self.parse_string_value(ti) {
            Ok(v) => v,
            Err(e) => {
                return Err(e);
            },
        };
        self.emit(line_num, line_pos, Instruction::Redirect(Redirect { address, copy }))
    }

    /// `reject`/`ereject <reason>`.
    fn parse_reject(&mut self, ereject: bool) -> (r: Result<(), CompileError>)
        requires
            old(self).swf(),
        ensures
            Self::parse_step(*old(self), *final(self)),
            r matches Err(e) ==> err_in_range(e, final(self).tokens.script@.len() as int)
                && err_gated(e, final(self).no_capability_check),
    {
        let ti = match self.unwrap_next() {
            Ok(t) => t,
            Err(e) => {
                return Err(e);
            },
        };
        let line_num = ti.line_num;
        let line_pos = ti.line_pos;
        let reason = match self.parse_string_value(ti) {
            Ok(v) => v,
            Err(e) => {
                return Err(e);
            },
        };
        self.emit(line_num, line_pos, Instruction::Reject(Reject { ereject, reason }))
    }

    /// `error <message>`, from the ihave extension.
    fn parse_error(&mut self) -> (r: Result<(), CompileError>)
        requires
            old(self).swf(),
        ensures
            Self::parse_step(*old(self), *final(self)),
            r matches Err(e) ==> err_in_range(e, final(self).tokens.script@.len() as int)
                && err_gated(e, final(self).no_capability_check),
    {
        let ti = match self.unwrap_next() {
            Ok(t) => t,
            Err(e) => {
                return Err(e);
            },
        };
        let line_num = ti.line_num;
        let line_pos = ti.line_pos;
        let message = match self.parse_string_value(ti) {
            Ok(v) => v,
            Err(e) => {
                return Err(e);
            },
        };
        self.emit(line_num, line_pos, Instruction::ErrorCmd(ErrorAction { message }))
    }

    /// `include [:personal|:global] [:once] [:optional] <name>`.
    fn parse_include(&mut self) -> (r: Result<(), CompileError>)
        requires
            old(self).swf(),
        ensures
            Self::parse_step(*old(self), *final(self)),
            r matches Err(e) ==> err_in_range(e, final(self).tokens.script@.len() as int)
                && err_gated(e, final(self).no_capability_check),
    {
        let mut location = Location::Personal;
        let mut once = false;
        let mut optional = false;
        loop
            invariant
                Self::parse_step(*old(self), *self),
            decreases self.tokens.measure(),
        {
            match self.tokens.fill_peek() {
                Ok(()) => {},
                Err(e) => {
                    return Err(e);
                },
            }
            match self.tokens.peeked_tag() {
                Some(Word::Personal) => {
                    let _ = match self.unwrap_next() {
                        Ok(t) => t,
                        Err(e) => {
                            return Err(e);
                        },
                    };
                    location = Location::Personal;
                },
                Some(Word::Global) => {
                    let _ = match self.unwrap_next() {
                        Ok(t) => t,
                        Err(e) => {
                            return Err(e);
                        },
                    };
                    location = Location::Global;
                },
                Some(Word::Once) => {
                    let _ = match self.unwrap_next() {
                        Ok(t) => t,
                        Err(e) => {
                            return Err(e);
                        },
                    };
                    once = true;
                },
                Some(Word::Optional) => {
                    let _ = match self.unwrap_next() {
                        Ok(t) => t,
                        Err(e) => {
                            return Err(e);
                        },
                    };
                    optional = true;
                },
                _ => {
                    break ;
                },
            }
        }
        let ti = match self.unwrap_next() {
            Ok(t) => t,
            Err(e) => {
                return Err(e);
            },
        };
        let line_num = ti.line_num;
        let line_pos = ti.line_pos;
        let name = match self.parse_string_value(ti) {
            Ok(v) => v,
            Err(e) => {
                return Err(e);
            },
        };
        self.emit(
            line_num,
            line_pos,
            Instruction::Include(Include { location, name, once, optional }),
        )
    }

    /// `set [modifiers] <name> <value>`.
    fn parse_set(&mut self) -> (r: Result<(), CompileError>)
        requires
            old(self).swf(),
        ensures
            Self::parse_step(*old(self), *final(self)),
            r matches Err(e) ==> err_in_range(e, final(self).tokens.script@.len() as int)
                && err_gated(e, final(self).no_capability_check),
    {
        let mut modifiers: Vec<Modifier> = Vec::new();
        loop
            invariant
                Self::parse_step(*old(self), *self),
            decreases self.tokens.measure(),
        {
            match self.tokens.fill_peek() {
                Ok(()) => {},
                Err(e) => {
                    return Err(e);
                },
            }
            let tag_word = self.tokens.peeked_tag();
            let code: u8 = match tag_word {
                Some(Word::Lower) => 1,
                Some(Word::Upper) => 2,
                Some(Word::LowerFirst) => 3,
                Some(Word::UpperFirst) => 4,
                Some(Word::QuoteWildcard) => 5,
                Some(Word::QuoteRegex) => 6,
                Some(Word::Length) => 7,
                Some(Word::EncodeUrl) => 8,
                Some(Word::Replace) => 9,
                _ => 0,
            };
            if code == 0 {
                break ;
            }
            let tag = match self.unwrap_next() {
                Ok(t) => t,
                Err(e) => {
                    return Err(e);
                },
            };
            if has_modifier(&modifiers, code) {
                return Err(tag.custom(ErrorType::DuplicatedParameter));
            }
            let m: Modifier = if code == 1 {
                Modifier::Lower
            } else if code == 2 {
                Modifier::Upper
            } else if code == 3 {
                Modifier::LowerFirst
            } else if code == 4 {
                Modifier::UpperFirst
            } else if code == 5 {
                Modifier::QuoteWildcard
            } else if code == 6 {
                Modifier::QuoteRegex
            } else if code == 7 {
                Modifier::Length
            } else if code == 8 {
                Modifier::EncodeUrl
            } else {
                let find_ti = match self.unwrap_next() {
                    Ok(t) => t,
                    Err(e) => {
                        return Err(e);
                    },
                };
                let find = match self.parse_string_value(find_ti) {
                    Ok(f) => f,
                    Err(e) => {
                        return Err(e);
                    },
                };
                let replace_ti = match self.unwrap_next() {
                    Ok(t) => t,
                    Err(e) => {
                        return Err(e);
                    },
                };
                let replace = match self.parse_string_value(replace_ti) {
                    Ok(f) => f,
                    Err(e) => {
                        return Err(e);
                    },
                };
                Modifier::Replace { find, replace }
            };
            modifiers.push(m);
        }
        let name_ti = match self.unwrap_next() {
            Ok(t) => t,
            Err(e) => {
                return Err(e);
            },
        };
        let name_line = name_ti.line_num;
        let name_pos = name_ti.line_pos;
        let name_bytes = match name_ti.token {
            Token::StringConstant(s) => s,
            Token::StringVariable(_) => {
                return Err(CompileError {
                    line_num: name_line,
                    line_pos: name_pos,
                    error_type: ErrorType::ExpectedConstantString,
                });
            },
            other => {
                return Err(
                    TokenInfo { token: other, line_num: name_line, line_pos: name_pos }.expected(
                        "string",
                    ),
                );
            },
        };
        let target = match self.resolve_set_name(name_bytes, name_line, name_pos) {
            Ok(t) => t,
            Err(e) => {
                return Err(e);
            },
        };
        let value_ti = match self.unwrap_next() {
            Ok(t) => t,
            Err(e) => {
                return Err(e);
            },
        };
        let line_num = value_ti.line_num;
        let line_pos = value_ti.line_pos;
        let value = match self.parse_string_value(value_ti) {
            Ok(v) => v,
            Err(e) => {
                return Err(e);
            },
        };
        proof {
            assert(instr_local_bound(
                Instruction::SetVar(
                    SetAction { name: target, value: value, modifiers: modifiers },
                ),
            ) <= self.peak());
        }
        self.emit(
            line_num,
            line_pos,
            Instruction::SetVar(SetAction { name: target, value, modifiers }),
        )
    }

    /// Resolves the variable a `set` writes: a `global.` name or a declared
    /// global stays global, anything else becomes a local of this block.
    fn resolve_set_name(&mut self, name: Vec<u8>, line_num: usize, line_pos: usize) -> (r: Result<
        VariableType,
        CompileError,
    >)
        requires
            old(self).swf(),
            line_num <= old(self).tokens.script@.len() + 1,
            line_pos <= old(self).tokens.script@.len(),
        ensures
            Self::parse_step(*old(self), *final(self)),
            final(self).tokens == old(self).tokens,
            final(self).instructions == old(self).instructions,
            r matches Ok(t) ==> (t matches VariableType::Local(id) ==> id < final(self).vars_num),
            r matches Err(e) ==> err_in_range(e, final(self).tokens.script@.len() as int)
                && err_gated(e, final(self).no_capability_check),
    {
        match find_dot(&name) {
            Some(d) => {
                if d >= name.len() {
                    return Err(CompileError {
                        line_num,
                        line_pos,
                        error_type: ErrorType::InvalidNamespace(name),
                    });
                }
                let ns = fold_bytes_range(&name, 0, d);
                let rest = fold_bytes_range(&name, d + 1, name.len());
                if crate::words::ident_is(&ns, "global") {
                    if rest.len() > self.max_variable_name_size {
                        return Err(CompileError {
                            line_num,
                            line_pos,
                            error_type: ErrorType::VariableTooLong,
                        });
                    }
                    Ok(VariableType::Global(rest))
                } else {
                    Err(CompileError {
                        line_num,
                        line_pos,
                        error_type: ErrorType::InvalidNamespace(ns),
                    })
                }
            },
            None => {
                let folded = fold_bytes_range(&name, 0, name.len());
                if folded.len() > self.max_variable_name_size {
                    return Err(CompileError {
                        line_num,
                        line_pos,
                        error_type: ErrorType::VariableTooLong,
                    });
                }
                if self.is_var_global(&folded) {
                    Ok(VariableType::Global(folded))
                } else {
                    match self.register_local_var(folded) {
                        Some(id) => Ok(VariableType::Local(id)),
                        None => Err(CompileError {
                            line_num,
                            line_pos,
                            error_type: ErrorType::InvalidArguments,
                        }),
                    }
                }
            },
        }
    }

    /// Records a pending `break` jump on the loop block it leaves.
    fn push_break(&mut self, in_stack: Option<usize>, pos: usize)
        requires
            old(self).swf(),
            in_stack matches Some(i) ==> i < old(self).block_stack@.len(),
        ensures
            Self::parse_step(*old(self), *final(self)),
            final(self).tokens == old(self).tokens,
            final(self).instructions == old(self).instructions,
            final(self).vars_num == old(self).vars_num,
            final(self).vars_num_max == old(self).vars_num_max,
    {
        match in_stack {
            None => {
                self.block.break_jmps.push(pos);
            },
            Some(i) => {
                let ghost before = self.block_stack@;
                self.block_stack[i].break_jmps.push(pos);
                proof {
                    assert forall|k: int|
                        0 <= k < self.block_stack@.len() implies block_loc_ok(
                        #[trigger] self.block_stack@[k],
                        self.tokens.script@.len() as int,
                    ) by {
                        if k != i {
                            assert(self.block_stack@[k] == before[k]);
                        } else {
                            assert(self.block_stack@[k].line_num == before[k].line_num);
                            assert(self.block_stack@[k].line_pos == before[k].line_pos);
                        }
                    }
                }
            },
        }
    }

    /// Finds the loop a `break` leaves: the innermost `foreverypart`, or the
    /// one with the given label. Yields where it sits (`None` meaning the
    /// current block) and how many part iterators the break crosses.
    fn find_break_target(&self, label: &Option<Vec<u8>>) -> (r: Option<(Option<usize>, usize)>)
        requires
            self.swf(),
        ensures
            r matches Some(t) ==> (t.0 matches Some(i) ==> i < self.block_stack@.len()),
    {
        let mut pops: usize = 0;
        if matches!(self.block.btype, Word::ForEveryPart) {
            pops = 1;
            match label {
                None => {
                    return Some((None, 1));
                },
                Some(l) => {
                    if label_matches(&self.block.label, l) {
                        return Some((None, 1));
                    }
                },
            }
        }
        let mut i: usize = self.block_stack.len();
        while i > 0
            invariant
                self.swf(),
                i <= self.block_stack@.len(),
            decreases i,
        {
            i -= 1;
            if matches!(self.block_stack[i].btype, Word::ForEveryPart) {
                if pops < usize::MAX {
                    pops += 1;
                }
                match label {
                    None => {
                        return Some((Some(i), pops));
                    },
                    Some(l) => {
                        if label_matches(&self.block_stack[i].label, l) {
                            return Some((Some(i), pops));
                        }
                    },
                }
            }
        }
        None
    }
}

/// The capability an action command needs, for commands this compiler
/// tolerates without compiling their grammar.
fn command_capability(w: Word) -> (r: Option<Capability>) {
    match w {
        Word::Vacation => Some(Capability::Vacation),
        Word::Notify => Some(Capability::Enotify),
        Word::AddHeader => Some(Capability::EditHeader),
        Word::DeleteHeader => Some(Capability::EditHeader),
        Word::SetFlag => Some(Capability::Imap4Flags),
        Word::AddFlag => Some(Capability::Imap4Flags),
        Word::RemoveFlag => Some(Capability::Imap4Flags),
        Word::Replace => Some(Capability::Replace),
        Word::Enclose => Some(Capability::Enclose),
        Word::ExtractText => Some(Capability::ExtractText),
        Word::Convert => Some(Capability::ConvertCap),
        _ => None,
    }
}

/// The envelope field a (case-insensitive) part name names.
fn envelope_kind(name: &Vec<u8>) -> (r: Option<crate::instruction::Envelope>) {
    let folded = fold_bytes_range(name, 0, name.len());
    if crate::words::ident_is(&folded, "from") {
        Some(crate::instruction::Envelope::From)
    } else if crate::words::ident_is(&folded, "to") {
        Some(crate::instruction::Envelope::To)
    } else if crate::words::ident_is(&folded, "bytimeabsolute") {
        Some(crate::instruction::Envelope::ByTimeAbsolute)
    } else if crate::words::ident_is(&folded, "bytimerelative") {
        Some(crate::instruction::Envelope::ByTimeRelative)
    } else if crate::words::ident_is(&folded, "bymode") {
        Some(crate::instruction::Envelope::ByMode)
    } else if crate::words::ident_is(&folded, "bytrace") {
        Some(crate::instruction::Envelope::ByTrace)
    } else if crate::words::ident_is(&folded, "notify") {
        Some(crate::instruction::Envelope::Notify)
    } else if crate::words::ident_is(&folded, "orcpt") {
        Some(crate::instruction::Envelope::Orcpt)
    } else if crate::words::ident_is(&folded, "ret") {
        Some(crate::instruction::Envelope::Ret)
    } else if crate::words::ident_is(&folded, "envid") {
        Some(crate::instruction::Envelope::Envid)
    } else {
        None
    }
}

/// Whether a block label matches the wanted one.
fn label_matches(opt: &Option<Vec<u8>>, l: &Vec<u8>) -> (r: bool) {
    match opt {
        Some(x) => bytes_eq(x, l),
        None => false,
    }
}

/// Whether a modifier of this code was already given.
fn has_modifier(mods: &Vec<Modifier>, code: u8) -> (r: bool) {
    let mut i: usize = 0;
    while i < mods.len()
        invariant
            i <= mods@.len(),
        decreases mods@.len() - i,
    {
        let c: u8 = match &mods[i] {
            Modifier::Lower => 1,
            Modifier::Upper => 2,
            Modifier::LowerFirst => 3,
            Modifier::UpperFirst => 4,
            Modifier::QuoteWildcard => 5,
            Modifier::QuoteRegex => 6,
            Modifier::Length => 7,
            Modifier::EncodeUrl => 8,
            Modifier::Replace { .. } => 9,
        };
        if c == code {
            return true;
        }
        i += 1;
    }
    false
}


impl Compiler {
    /// Compiles a Sieve script into a linear, jump-threaded program.
    ///
    /// On success every control transfer of the program is resolved and in
    /// range, and every local-variable reference lies under the program's
    /// peak local count. On failure the error locates a position within the
    /// script; a script over the configured size limit is rejected outright.
    pub fn compile(&self, script: &[u8]) -> (r: Result<Sieve, CompileError>)
        ensures
            r matches Ok(s) ==> s.wf(),
            r matches Err(e) ==> err_in_range(e, script@.len() as int),
            script@.len() > self.max_script_size ==> (r matches Err(e) && e.error_type
                is ScriptTooLong && e.line_num == 0 && e.line_pos == 0),
            script@.len() == 0 ==> (r matches Ok(s) && s.instructions@.len() == 0 && s.num_vars
                == 0 && s.num_match_vars == 0),
            r matches Ok(s) ==> s.num_match_vars <= 63,
            (script@.len() <= self.max_script_size && script@.len() < SCRIPT_CAP && (forall|k: int|
                0 <= k < script@.len() ==> crate::lexer::is_blank_byte(#[trigger] script@[k])))
                ==> (r matches Ok(s) && s.instructions@.len() == 0 && s.num_vars == 0
                && s.num_match_vars == 0),
            r matches Err(e) ==> (e.error_type is UndeclaredCapability
                ==> !self.no_capability_check),
    {
        if script.len() > self.max_script_size || script.len() >= SCRIPT_CAP {
            return Err(CompileError {
                line_num: 0,
                line_pos: 0,
                error_type: ErrorType::ScriptTooLong,
            });
        }
        if script.len() == 0 {
            // an empty script compiles to the empty program
            let s = Sieve { instructions: Vec::new(), num_vars: 0, num_match_vars: 0 };
            proof {
                assert(jumps_resolved(s.instructions@));
                assert(locals_bounded(s.instructions@, s.num_vars as int));
            }
            return Ok(s);
        }
        let mut state = CompilerState {
            tokens: Tokenizer::new(script, self.max_string_size),
            instructions: Vec::new(),
            block_stack: Vec::new(),
            block: Block::new(Word::Not),
            last_block_type: Word::Not,
            vars_global: Vec::new(),
            vars_num: 0,
            vars_num_max: 0,
            vars_match_max: 0,
            includes_num: 0,
            max_nested_blocks: self.max_nested_blocks,
            max_nested_tests: self.max_nested_tests,
            max_nested_foreverypart: self.max_nested_foreverypart,
            max_match_variables: self.max_match_variables,
            max_local_variables: self.max_local_variables,
            max_variable_name_size: self.max_variable_name_size,
            max_includes: self.max_includes,
            no_capability_check: self.no_capability_check,
        };
        loop
            invariant
                state.swf(),
                state.tokens.script == script,
                state.no_capability_check == self.no_capability_check,
                script@.len() <= self.max_script_size,
                script@.len() > 0,
                state.vars_match_max <= 63,
                (forall|k: int|
                    0 <= k < script@.len() ==> crate::lexer::is_blank_byte(#[trigger] script@[k]))
                    ==> (state.instructions@.len() == 0 && state.block_stack@.len() == 0
                    && state.vars_num == 0 && state.vars_num_max == 0 && state.vars_match_max == 0
                    && state.tokens.peeked is None),
            decreases state.tokens.measure(),
        {
            let ghost tok_pre = state.tokens;
            let ti = match state.tokens.next() {
                Err(e) => {
                    return Err(e);
                },
                Ok(None) => {
                    break ;
                },
                Ok(Some(ti)) => ti,
            };
            proof {
                // a script of blanks alone never yields a token
                if forall|k: int|
                    0 <= k < script@.len() ==> crate::lexer::is_blank_byte(#[trigger] script@[k]) {
                    assert(forall|k: int|
                        tok_pre.pos <= k < tok_pre.script@.len() ==> crate::lexer::is_blank_byte(
                            #[trigger] tok_pre.script@[k],
                        ));
                    assert(false);
                }
            }
            let line_num = ti.line_num;
            let line_pos = ti.line_pos;
            match ti.token {
                Token::Identifier(word) => {
                    let mut new_block: Option<Block> = None;
                    let mut handled_end = false;
                    match word {
                        Word::Require => {
                            if state.block.require_done {
                                return Err(
                                    TokenInfo {
                                        token: Token::Identifier(word),
                                        line_num,
                                        line_pos,
                                    }.expected("require before any other command"),
                                );
                            }
                            match state.parse_require(line_num, line_pos) {
                                Ok(()) => {},
                                Err(e) => {
                                    return Err(e);
                                },
                            }
                        },
                        Word::If => {
                            state.block.require_done = true;
                            let mut jz: Vec<usize> = Vec::new();
                            match state.compile_test(0, false, &mut jz) {
                                Ok(()) => {},
                                Err(e) => {
                                    return Err(e);
                                },
                            }
                            let mut b = Block::new(Word::If);
                            b.jz_jmps = jz;
                            new_block = Some(b);
                        },
                        Word::ElsIf => {
                            state.block.require_done = true;
                            if matches!(state.last_block_type, Word::If | Word::ElsIf) {
                                let mut jz: Vec<usize> = Vec::new();
                                match state.compile_test(0, false, &mut jz) {
                                    Ok(()) => {},
                                    Err(e) => {
                                        return Err(e);
                                    },
                                }
                                let mut b = Block::new(Word::ElsIf);
                                b.jz_jmps = jz;
                                new_block = Some(b);
                            } else {
                                return Err(
                                    TokenInfo {
                                        token: Token::Identifier(word),
                                        line_num,
                                        line_pos,
                                    }.expected("'if' before 'elsif'"),
                                );
                            }
                        },
                        Word::Else => {
                            state.block.require_done = true;
                            if matches!(state.last_block_type, Word::If | Word::ElsIf) {
                                new_block = Some(Block::new(Word::Else));
                            } else {
                                return Err(
                                    TokenInfo {
                                        token: Token::Identifier(word),
                                        line_num,
                                        line_pos,
                                    }.expected("'if' or 'elsif' before 'else'"),
                                );
                            }
                        },
                        Word::Keep => {
                            state.block.require_done = true;
                            match state.emit(line_num, line_pos, Instruction::Keep) {
                                Ok(()) => {},
                                Err(e) => {
                                    return Err(e);
                                },
                            }
                        },
                        Word::FileInto => {
                            state.block.require_done = true;
                            match state.validate_capability(
                                Capability::FileInto,
                                line_num,
                                line_pos,
                            ) {
                                Ok(()) => {},
                                Err(e) => {
                                    return Err(e);
                                },
                            }
                            match state.parse_fileinto() {
                                Ok(()) => {},
                                Err(e) => {
                                    return Err(e);
                                },
                            }
                        },
                        Word::Redirect => {
                            state.block.require_done = true;
                            match state.parse_redirect() {
                                Ok(()) => {},
                                Err(e) => {
                                    return Err(e);
                                },
                            }
                        },
                        Word::Discard => {
                            state.block.require_done = true;
                            match state.emit(line_num, line_pos, Instruction::Discard) {
                                Ok(()) => {},
                                Err(e) => {
                                    return Err(e);
                                },
                            }
                        },
                        Word::Stop => {
                            state.block.require_done = true;
                            match state.emit(line_num, line_pos, Instruction::Stop) {
                                Ok(()) => {},
                                Err(e) => {
                                    return Err(e);
                                },
                            }
                        },
                        Word::ForEveryPart => {
                            state.block.require_done = true;
                            match state.validate_capability(
                                Capability::ForEveryPart,
                                line_num,
                                line_pos,
                            ) {
                                Ok(()) => {},
                                Err(e) => {
                                    return Err(e);
                                },
                            }
                            let mut nested: usize = 0;
                            let mut i: usize = 0;
                            while i < state.block_stack.len()
                                invariant
                                    i <= state.block_stack@.len(),
                                    nested <= i,
                                decreases state.block_stack@.len() - i,
                            {
                                if matches!(state.block_stack[i].btype, Word::ForEveryPart) {
                                    nested += 1;
                                }
                                i += 1;
                            }
                            if nested >= state.max_nested_foreverypart {
                                return Err(CompileError {
                                    line_num,
                                    line_pos,
                                    error_type: ErrorType::TooManyNestedForEveryParts,
                                });
                            }
                            match state.tokens.fill_peek() {
                                Ok(()) => {},
                                Err(e) => {
                                    return Err(e);
                                },
                            }
                            let b: Block;
                            if matches!(state.tokens.peeked_tag(), Some(Word::Name)) {
                                let tag = match state.unwrap_next() {
                                    Ok(t) => t,
                                    Err(e) => {
                                        return Err(e);
                                    },
                                };
                                let label = match state.expect_static_string() {
                                    Ok(l) => l,
                                    Err(e) => {
                                        return Err(e);
                                    },
                                };
                                let mut i: usize = 0;
                                while i < state.block_stack.len()
                                    invariant
                                        i <= state.block_stack@.len(),
                                        state.tokens.script == script,
                                        script@.len() <= self.max_script_size,
                                        script@.len() > 0,
                                        tag.line_num <= script@.len() + 1,
                                        tag.line_pos <= script@.len(),
                                        !(forall|k: int|
                                            0 <= k < script@.len()
                                                ==> crate::lexer::is_blank_byte(
                                                #[trigger] script@[k],
                                            )),
                                    decreases state.block_stack@.len() - i,
                                {
                                    if label_matches(&state.block_stack[i].label, &label) {
                                        return Err(
                                            tag.custom(ErrorType::LabelAlreadyDefined(label)),
                                        );
                                    }
                                    i += 1;
                                }
                                b = Block::labeled(Word::ForEveryPart, label);
                            } else {
                                b = Block::new(Word::ForEveryPart);
                            }
                            match state.emit(line_num, line_pos, Instruction::ForEveryPartPush) {
                                Ok(()) => {},
                                Err(e) => {
                                    return Err(e);
                                },
                            }
                            match state.emit(
                                line_num,
                                line_pos,
                                Instruction::ForEveryPart(ForEveryPart { jz_pos: usize::MAX }),
                            ) {
                                Ok(()) => {},
                                Err(e) => {
                                    return Err(e);
                                },
                            }
                            new_block = Some(b);
                        },
                        Word::Break => {
                            state.block.require_done = true;
                            match state.validate_capability(
                                Capability::ForEveryPart,
                                line_num,
                                line_pos,
                            ) {
                                Ok(()) => {},
                                Err(e) => {
                                    return Err(e);
                                },
                            }
                            match state.tokens.fill_peek() {
                                Ok(()) => {},
                                Err(e) => {
                                    return Err(e);
                                },
                            }
                            let label: Option<Vec<u8>>;
                            if matches!(state.tokens.peeked_tag(), Some(Word::Name)) {
                                let _ = match state.unwrap_next() {
                                    Ok(t) => t,
                                    Err(e) => {
                                        return Err(e);
                                    },
                                };
                                let l = match state.expect_static_string() {
                                    Ok(l) => l,
                                    Err(e) => {
                                        return Err(e);
                                    },
                                };
                                label = Some(l);
                            } else {
                                label = None;
                            }
                            let target = state.find_break_target(&label);
                            match target {
                                Some((where_at, pops)) => {
                                    match state.emit(
                                        line_num,
                                        line_pos,
                                        Instruction::ForEveryPartPop(pops),
                                    ) {
                                        Ok(()) => {},
                                        Err(e) => {
                                            return Err(e);
                                        },
                                    }
                                    let jmp_pos = state.instructions.len();
                                    match state.emit(
                                        line_num,
                                        line_pos,
                                        Instruction::Jmp(usize::MAX),
                                    ) {
                                        Ok(()) => {},
                                        Err(e) => {
                                            return Err(e);
                                        },
                                    }
                                    state.push_break(where_at, jmp_pos);
                                },
                                None => {
                                    let e = match label {
                                        Some(l) => CompileError {
                                            line_num,
                                            line_pos,
                                            error_type: ErrorType::LabelUndefined(l),
                                        },
                                        None => CompileError {
                                            line_num,
                                            line_pos,
                                            error_type: ErrorType::BreakOutsideLoop,
                                        },
                                    };
                                    return Err(e);
                                },
                            }
                        },
                        Word::SetVar => {
                            state.block.require_done = true;
                            match state.validate_capability(
                                Capability::Variables,
                                line_num,
                                line_pos,
                            ) {
                                Ok(()) => {},
                                Err(e) => {
                                    return Err(e);
                                },
                            }
                            match state.parse_set() {
                                Ok(()) => {},
                                Err(e) => {
                                    return Err(e);
                                },
                            }
                        },
                        Word::Reject => {
                            state.block.require_done = true;
                            match state.validate_capability(Capability::Reject, line_num, line_pos)
                                {
                                Ok(()) => {},
                                Err(e) => {
                                    return Err(e);
                                },
                            }
                            match state.parse_reject(false) {
                                Ok(()) => {},
                                Err(e) => {
                                    return Err(e);
                                },
                            }
                        },
                        Word::Ereject => {
                            state.block.require_done = true;
                            match state.validate_capability(
                                Capability::Ereject,
                                line_num,
                                line_pos,
                            ) {
                                Ok(()) => {},
                                Err(e) => {
                                    return Err(e);
                                },
                            }
                            match state.parse_reject(true) {
                                Ok(()) => {},
                                Err(e) => {
                                    return Err(e);
                                },
                            }
                        },
                        Word::Error => {
                            state.block.require_done = true;
                            match state.validate_capability(Capability::Ihave, line_num, line_pos)
                                {
                                Ok(()) => {},
                                Err(e) => {
                                    return Err(e);
                                },
                            }
                            match state.parse_error() {
                                Ok(()) => {},
                                Err(e) => {
                                    return Err(e);
                                },
                            }
                        },
                        Word::Include => {
                            state.block.require_done = true;
                            if state.includes_num < state.max_includes {
                                state.includes_num += 1;
                                match state.validate_capability(
                                    Capability::Include,
                                    line_num,
                                    line_pos,
                                ) {
                                    Ok(()) => {},
                                    Err(e) => {
                                        return Err(e);
                                    },
                                }
                                match state.parse_include() {
                                    Ok(()) => {},
                                    Err(e) => {
                                        return Err(e);
                                    },
                                }
                            } else {
                                return Err(CompileError {
                                    line_num,
                                    line_pos,
                                    error_type: ErrorType::TooManyIncludes,
                                });
                            }
                        },
                        Word::Return => {
                            state.block.require_done = true;
                            match state.validate_capability(
                                Capability::Include,
                                line_num,
                                line_pos,
                            ) {
                                Ok(()) => {},
                                Err(e) => {
                                    return Err(e);
                                },
                            }
                            let pops = state.count_foreverypart();
                            if pops > 0 {
                                match state.emit(
                                    line_num,
                                    line_pos,
                                    Instruction::ForEveryPartPop(pops),
                                ) {
                                    Ok(()) => {},
                                    Err(e) => {
                                        return Err(e);
                                    },
                                }
                            }
                            match state.emit(line_num, line_pos, Instruction::Return) {
                                Ok(()) => {},
                                Err(e) => {
                                    return Err(e);
                                },
                            }
                        },
                        Word::Global => {
                            state.block.require_done = true;
                            match state.validate_capability(
                                Capability::Include,
                                line_num,
                                line_pos,
                            ) {
                                Ok(()) => {},
                                Err(e) => {
                                    return Err(e);
                                },
                            }
                            match state.validate_capability(
                                Capability::Variables,
                                line_num,
                                line_pos,
                            ) {
                                Ok(()) => {},
                                Err(e) => {
                                    return Err(e);
                                },
                            }
                            match state.parse_global() {
                                Ok(()) => {},
                                Err(e) => {
                                    return Err(e);
                                },
                            }
                        },
                        _ => {
                            // a command whose grammar this compiler does not
                            // carry: check its capability, then tolerate it,
                            // as `ihave` asks
                            state.block.require_done = true;
                            match command_capability(word) {
                                Some(cap) => {
                                    match state.validate_capability(cap, line_num, line_pos) {
                                        Ok(()) => {},
                                        Err(e) => {
                                            return Err(e);
                                        },
                                    }
                                },
                                None => {},
                            }
                            match state.ignore_command() {
                                Ok(()) => {},
                                Err(e) => {
                                    return Err(e);
                                },
                            }
                            let name = crate::lexer::str_to_bytes(crate::words::word_name(word));
                            match state.emit(
                                line_num,
                                line_pos,
                                Instruction::Invalid(Invalid { name, line_num, line_pos }),
                            ) {
                                Ok(()) => {},
                                Err(e) => {
                                    return Err(e);
                                },
                            }
                            handled_end = true;
                        },
                    }
                    if new_block.is_some() {
                        let mut b = match new_block {
                            Some(b) => b,
                            None => Block::new(Word::Not),
                        };
                        b.line_num = state.cur_line();
                        b.line_pos = state.cur_col();
                        match state.expect_curly_open() {
                            Ok(()) => {},
                            Err(e) => {
                                return Err(e);
                            },
                        }
                        if state.block_stack.len() < state.max_nested_blocks {
                            let n = state.instructions.len();
                            state.block.last_block_start = if n > 0 {
                                n - 1
                            } else {
                                0
                            };
                            let mut parent = b;
                            core::mem::swap(&mut parent, &mut state.block);
                            state.block_stack.push(parent);
                        } else {
                            return Err(CompileError {
                                line_num: state.block.line_num,
                                line_pos: state.block.line_pos,
                                error_type: ErrorType::TooManyNestedBlocks,
                            });
                        }
                    } else if !handled_end {
                        match state.expect_instruction_end() {
                            Ok(()) => {},
                            Err(e) => {
                                return Err(e);
                            },
                        }
                    }
                },
                Token::CurlyClose => {
                    if state.block_stack.len() > 0 {
                        match state.block_end() {
                            Ok(()) => {},
                            Err(e) => {
                                return Err(e);
                            },
                        }
                        let mut parent = match state.block_stack.pop() {
                            Some(b) => b,
                            None => Block::new(Word::Not),
                        };
                        let btype = state.block.btype;
                        if matches!(btype, Word::ForEveryPart) {
                            match state.emit(
                                line_num,
                                line_pos,
                                Instruction::Jmp(parent.last_block_start),
                            ) {
                                Ok(()) => {},
                                Err(e) => {
                                    return Err(e);
                                },
                            }
                            let cur = state.instructions.len();
                            state.patch_jump(parent.last_block_start, cur);
                            let breaks = copy_usizes(&state.block.break_jmps);
                            let ghost toks = state.tokens;
                            let mut k: usize = 0;
                            while k < breaks.len()
                                invariant
                                    state.swf(),
                                    state.tokens == toks,
                                    state.no_capability_check == self.no_capability_check,
                                    state.tokens.script == script,
                                    k <= breaks@.len(),
                                    state.vars_match_max <= 63,
                                decreases breaks@.len() - k,
                            {
                                state.patch_jump(breaks[k], cur);
                                k += 1;
                            }
                            state.last_block_type = Word::Not;
                        } else if matches!(btype, Word::If | Word::ElsIf) {
                            match state.tokens.fill_peek() {
                                Ok(()) => {},
                                Err(e) => {
                                    return Err(e);
                                },
                            }
                            let next_is_block = matches!(
                                state.tokens.peeked_identifier(),
                                Some(Word::ElsIf) | Some(Word::Else),
                            );
                            if next_is_block {
                                parent.if_jmps.push(state.instructions.len());
                                match state.emit(
                                    line_num,
                                    line_pos,
                                    Instruction::Jmp(usize::MAX),
                                ) {
                                    Ok(()) => {},
                                    Err(e) => {
                                        return Err(e);
                                    },
                                }
                            }
                            let cur = state.instructions.len();
                            let jzs = copy_usizes(&state.block.jz_jmps);
                            let ghost toks = state.tokens;
                            let mut k: usize = 0;
                            while k < jzs.len()
                                invariant
                                    state.swf(),
                                    state.tokens == toks,
                                    state.no_capability_check == self.no_capability_check,
                                    state.tokens.script == script,
                                    k <= jzs@.len(),
                                    state.vars_match_max <= 63,
                                decreases jzs@.len() - k,
                            {
                                state.patch_jump(jzs[k], cur);
                                k += 1;
                            }
                            if !next_is_block {
                                let ends = copy_usizes(&parent.if_jmps);
                                let ghost toks2 = state.tokens;
                                let mut k: usize = 0;
                                while k < ends.len()
                                    invariant
                                        state.swf(),
                                        state.tokens == toks2,
                                        state.no_capability_check == self.no_capability_check,
                                        state.tokens.script == script,
                                        k <= ends@.len(),
                                        state.vars_match_max <= 63,
                                    decreases ends@.len() - k,
                                {
                                    state.patch_jump(ends[k], cur);
                                    k += 1;
                                }
                                parent.if_jmps = Vec::new();
                                state.last_block_type = Word::Not;
                            } else {
                                state.last_block_type = btype;
                            }
                        } else if matches!(btype, Word::Else) {
                            let cur = state.instructions.len();
                            let ends = copy_usizes(&parent.if_jmps);
                            let ghost toks3 = state.tokens;
                            let mut k: usize = 0;
                            while k < ends.len()
                                invariant
                                    state.swf(),
                                    state.tokens == toks3,
                                    state.no_capability_check == self.no_capability_check,
                                    state.tokens.script == script,
                                    k <= ends@.len(),
                                    state.vars_match_max <= 63,
                                decreases ends@.len() - k,
                            {
                                state.patch_jump(ends[k], cur);
                                k += 1;
                            }
                            parent.if_jmps = Vec::new();
                            state.last_block_type = Word::Else;
                        }
                        state.block = parent;
                    } else {
                        return Err(
                            TokenInfo { token: Token::CurlyClose, line_num, line_pos }.expected(
                                "instruction",
                            ),
                        );
                    }
                },
                Token::Invalid(name) => {
                    state.block.require_done = true;
                    match state.ignore_command() {
                        Ok(()) => {},
                        Err(e) => {
                            return Err(e);
                        },
                    }
                    match state.emit(
                        line_num,
                        line_pos,
                        Instruction::Invalid(Invalid { name, line_num, line_pos }),
                    ) {
                        Ok(()) => {},
                        Err(e) => {
                            return Err(e);
                        },
                    }
                },
                other => {
                    return Err(
                        TokenInfo { token: other, line_num, line_pos }.expected("instruction"),
                    );
                },
            }
        }
        if state.block_stack.len() > 0 {
            return Err(CompileError {
                line_num: state.block.line_num,
                line_pos: state.block.line_pos,
                error_type: ErrorType::UnterminatedBlock,
            });
        }
        let ghost peak0 = state.peak();
        let mut instructions = state.instructions;
        normalize_jumps(&mut instructions);
        let num_vars = if state.vars_num_max >= state.vars_num {
            state.vars_num_max
        } else {
            state.vars_num
        };
        let s = Sieve { instructions, num_vars, num_match_vars: state.vars_match_max };
        proof {
            assert(jumps_resolved(s.instructions@));
            assert forall|k: int| 0 <= k < s.instructions@.len() implies instr_local_bound(
                #[trigger] s.instructions@[k],
            ) <= s.num_vars as int by {
                assert(instr_local_bound(s.instructions@[k]) == instr_local_bound(
                    state.instructions@[k],
                ));
                assert(instr_local_bound(state.instructions@[k]) <= peak0);
            }
        }
        Ok(s)
    }
}

} // verus!
