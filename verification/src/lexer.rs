use vstd::prelude::*;

use crate::error::{CompileError, ErrorType};
use crate::words::{chars_of, word_lookup, word_name, word_name_spec, Word};

verus! {


/// Byte values the lexer dispatches on.
pub const SP: u8 = 32;
pub const TAB: u8 = 9;
pub const CR: u8 = 13;
pub const LF: u8 = 10;
pub const HASH: u8 = 35;
pub const SLASH: u8 = 47;
pub const STAR: u8 = 42;
pub const QUOTE: u8 = 34;
pub const BSLASH: u8 = 92;
pub const DOLLAR: u8 = 36;
pub const LBRACE: u8 = 123;
pub const RBRACE: u8 = 125;
pub const LBRACKET: u8 = 91;
pub const RBRACKET: u8 = 93;
pub const LPAREN: u8 = 40;
pub const RPAREN: u8 = 41;
pub const COMMA: u8 = 44;
pub const SEMI: u8 = 59;
pub const COLON: u8 = 58;
pub const DOT: u8 = 46;
pub const UNDERSCORE: u8 = 95;
pub const LOW_A: u8 = 97;
pub const LOW_Z: u8 = 122;
pub const UP_A: u8 = 65;
pub const UP_Z: u8 = 90;
pub const D0: u8 = 48;
pub const D9: u8 = 57;

/// A lexical token of the Sieve source language.
pub enum Token {
    CurlyOpen,
    CurlyClose,
    BracketOpen,
    BracketClose,
    ParenthesisOpen,
    ParenthesisClose,
    Comma,
    Semicolon,
    StringConstant(Vec<u8>),
    StringVariable(Vec<u8>),
    Number(usize),
    Identifier(Word),
    Tag(Word),
    Invalid(Vec<u8>),
}

/// A token together with the line and column where it starts.
pub struct TokenInfo {
    pub token: Token,
    pub line_num: usize,
    pub line_pos: usize,
}

/// String payloads stay within the configured string-size limit.
pub open spec fn token_wf(t: Token, max_string_size: usize) -> bool {
    match t {
        Token::StringConstant(s) => s@.len() <= max_string_size,
        Token::StringVariable(s) => s@.len() <= max_string_size,
        _ => true,
    }
}

/// An error location that falls within a script of `len` bytes.
pub open spec fn err_in_range(e: CompileError, len: int) -> bool {
    e.line_num <= len + 1 && e.line_pos <= len
}

/// A lexical error: never a capability complaint.
pub open spec fn err_lexical(e: CompileError) -> bool {
    !(e.error_type is UndeclaredCapability)
}

/// The characters of an ASCII string, each as the byte that spells it.
pub open spec fn bytes_of_str(s: Seq<char>) -> Seq<u8> {
    Seq::new(s.len(), |i: int| s[i] as u8)
}

/// Writes each character of `s` as one byte.
pub fn str_to_bytes(s: &str) -> (r: Vec<u8>)
    ensures
        r@ == bytes_of_str(s@),
{
    let n = s.unicode_len();
    let mut r: Vec<u8> = Vec::new();
    let mut i: usize = 0;
    while i < n
        invariant
            i <= n,
            n == s@.len(),
            r@ =~= bytes_of_str(s@).take(i as int),
        decreases n - i,
    {
        let c = s.get_char(i);
        r.push(c as u8);
        i += 1;
        proof {
            assert(r@ =~= bytes_of_str(s@).take(i as int));
        }
    }
    proof {
        assert(r@ =~= bytes_of_str(s@));
    }
    r
}

/// The source text a token stands for, as shown in diagnostics.
pub open spec fn token_text_spec(t: Token) -> Seq<u8> {
    match t {
        Token::CurlyOpen => bytes_of_str("{"@),
        Token::CurlyClose => bytes_of_str("}"@),
        Token::BracketOpen => bytes_of_str("["@),
        Token::BracketClose => bytes_of_str("]"@),
        Token::ParenthesisOpen => bytes_of_str("("@),
        Token::ParenthesisClose => bytes_of_str(")"@),
        Token::Comma => bytes_of_str(","@),
        Token::Semicolon => bytes_of_str(";"@),
        Token::StringConstant(s) => s@,
        Token::StringVariable(s) => s@,
        Token::Number(n) => crate::strutil::decimal_bytes(n as nat),
        Token::Identifier(w) => bytes_of_str(word_name_spec(w)),
        Token::Tag(w) => bytes_of_str(":"@) + bytes_of_str(word_name_spec(w)),
        Token::Invalid(s) => s@,
    }
}

/// Renders a token as the source text it stands for.
pub fn token_text(t: &Token) -> (r: Vec<u8>)
    ensures
        r@ == token_text_spec(*t),
{
    match t {
        Token::CurlyOpen => str_to_bytes("{"),
        Token::CurlyClose => str_to_bytes("}"),
        Token::BracketOpen => str_to_bytes("["),
        Token::BracketClose => str_to_bytes("]"),
        Token::ParenthesisOpen => str_to_bytes("("),
        Token::ParenthesisClose => str_to_bytes(")"),
        Token::Comma => str_to_bytes(","),
        Token::Semicolon => str_to_bytes(";"),
        Token::StringConstant(s) => clone_bytes(s),
        Token::StringVariable(s) => clone_bytes(s),
        Token::Number(n) => crate::strutil::to_decimal_bytes(*n),
        Token::Identifier(w) => str_to_bytes(word_name(*w)),
        Token::Tag(w) => {
            let mut r = str_to_bytes(":");
            let mut name = str_to_bytes(word_name(*w));
            r.append(&mut name);
            r
        },
        Token::Invalid(s) => clone_bytes(s),
    }
}

/// Copies a byte vector.
pub fn clone_bytes(v: &Vec<u8>) -> (r: Vec<u8>)
    ensures
        r@ == v@,
{
    let mut r: Vec<u8> = Vec::new();
    let mut i: usize = 0;
    while i < v.len()
        invariant
            i <= v@.len(),
            r@ =~= v@.take(i as int),
        decreases v@.len() - i,
    {
        r.push(v[i]);
        i += 1;
        proof {
            assert(r@ =~= v@.take(i as int));
        }
    }
    proof {
        assert(r@ =~= v@);
    }
    r
}

impl TokenInfo {
    /// Builds the error raised when this token appears where `expected`
    /// (a description of the wanted construct) should have stood.
    pub fn expected(self, expected: &str) -> (r: CompileError)
        ensures
            r.line_num == self.line_num,
            r.line_pos == self.line_pos,
            r.error_type matches ErrorType::UnexpectedToken { expected: e, found: f }
                && e@ == bytes_of_str(expected@) && f@ == token_text_spec(self.token),
    {
        let found = token_text(&self.token);
        CompileError {
            line_num: self.line_num,
            line_pos: self.line_pos,
            error_type: ErrorType::UnexpectedToken { expected: str_to_bytes(expected), found },
        }
    }

    /// Builds the error raised when a required tag is absent.
    pub fn missing_tag(self, tag: &str) -> (r: CompileError)
        ensures
            r.line_num == self.line_num,
            r.line_pos == self.line_pos,
            r.error_type matches ErrorType::MissingTag(t) && t@ == bytes_of_str(tag@),
    {
        CompileError {
            line_num: self.line_num,
            line_pos: self.line_pos,
            error_type: ErrorType::MissingTag(str_to_bytes(tag)),
        }
    }

    /// Attaches this token's location to an error kind.
    pub fn custom(self, error_type: ErrorType) -> (r: CompileError)
        ensures
            r.line_num == self.line_num,
            r.line_pos == self.line_pos,
            r.error_type == error_type,
    {
        CompileError { line_num: self.line_num, line_pos: self.line_pos, error_type }
    }
}

/// Whether a byte starts or continues an identifier.
pub open spec fn is_ident_byte_spec(b: u8) -> bool {
    (97 <= b <= 122) || (65 <= b <= 90) || (48 <= b <= 57) || b == 95
}

fn is_ident_byte(b: u8) -> (r: bool)
    ensures
        r == is_ident_byte_spec(b),
{
    (b >= LOW_A && b <= LOW_Z) || (b >= UP_A && b <= UP_Z) || (b >= D0 && b <= D9) || b == UNDERSCORE
}

/// ASCII upper-case letters fold to lower case; all else is unchanged.
pub open spec fn fold_byte_spec(b: u8) -> u8 {
    if 65 <= b <= 90 {
        (b + 32) as u8
    } else {
        b
    }
}

fn fold_byte(b: u8) -> (r: u8)
    ensures
        r == fold_byte_spec(b),
{
    if b >= UP_A && b <= UP_Z {
        b + 32
    } else {
        b
    }
}

/// Whether the bytes contain a `${`, the opening of a variable reference.
pub open spec fn has_variable_ref(s: Seq<u8>) -> bool {
    exists|i: int| 0 <= i && i + 1 < s.len() && #[trigger] s[i] == 36 && s[i + 1] == 123
}

fn contains_variable_ref(v: &Vec<u8>) -> (r: bool)
    ensures
        r == has_variable_ref(v@),
{
    if v.len() < 2 {
        return false;
    }
    let mut i: usize = 0;
    let end = v.len() - 1;
    while i < end
        invariant
            v@.len() >= 2,
            end == v@.len() - 1,
            i <= end,
            forall|j: int| 0 <= j < i ==> !(#[trigger] v@[j] == 36 && v@[j + 1] == 123),
        decreases end - i,
    {
        if v[i] == DOLLAR && v[i + 1] == LBRACE {
            return true;
        }
        i += 1;
    }
    false
}

/// Whether a byte is plain whitespace.
pub open spec fn is_blank_byte(b: u8) -> bool {
    b == 32 || b == 9 || b == 13 || b == 10
}

/// Whether position `p` starts whitespace or a comment.
pub open spec fn is_trivia_start(s: Seq<u8>, p: int) -> bool {
    let b = s[p];
    b == 32 || b == 9 || b == 13 || b == 10 || b == 35 || (b == 47 && p + 1 < s.len() && s[p + 1]
        == 42)
}

/// A buffered one-token-look-ahead lexer over the script bytes.
pub struct Tokenizer<'x> {
    pub script: &'x [u8],
    pub pos: usize,
    pub line_num: usize,
    pub line_start: usize,
    pub max_string_size: usize,
    pub peeked: Option<TokenInfo>,
}

impl<'x> Tokenizer<'x> {
    pub open spec fn wf(self) -> bool {
        &&& self.script@.len() < usize::MAX
        &&& self.line_start <= self.pos <= self.script@.len()
        &&& 1 <= self.line_num <= self.pos + 1
        &&& match self.peeked {
            Some(ti) => token_wf(ti.token, self.max_string_size) && ti.line_num <= self.pos + 1
                && ti.line_pos <= self.script@.len(),
            None => true,
        }
    }

    /// A measure that every token handed out strictly shrinks.
    pub open spec fn measure(self) -> int {
        2 * (self.script@.len() - self.pos) + if self.peeked is Some {
            1int
        } else {
            0int
        }
    }

    pub open spec fn limits_unchanged(self, other: Self) -> bool {
        self.script == other.script && self.max_string_size == other.max_string_size
    }

    pub fn new(script: &'x [u8], max_string_size: usize) -> (r: Self)
        requires
            script@.len() < usize::MAX,
        ensures
            r.wf(),
            r.script == script,
            r.max_string_size == max_string_size,
            r.peeked is None,
            r.pos == 0,
    {
        Tokenizer { script, pos: 0, line_num: 1, line_start: 0, max_string_size, peeked: None }
    }

    /// The column (0-based) of the current position.
    fn col(&self) -> (r: usize)
        requires
            self.wf(),
        ensures
            r == self.pos - self.line_start,
    {
        self.pos - self.line_start
    }

    /// Skips whitespace and both comment forms; a `#` comment runs to end of
    /// line and a bracketed comment may span lines.
    fn skip_trivia(&mut self) -> (r: Result<(), CompileError>)
        requires
            old(self).wf(),
            old(self).peeked is None,
        ensures
            final(self).wf(),
            final(self).peeked is None,
            old(self).limits_unchanged(*final(self)),
            final(self).pos >= old(self).pos,
            r is Ok ==> (final(self).pos == final(self).script@.len() || !is_trivia_start(
                final(self).script@,
                final(self).pos as int,
            )),
            old(self).pos == old(self).script@.len() ==> r is Ok,
            (forall|k: int|
                old(self).pos <= k < old(self).script@.len() ==> is_blank_byte(
                    #[trigger] old(self).script@[k],
                )) ==> (r is Ok && final(self).pos == final(self).script@.len()),
            r matches Err(e) ==> err_in_range(e, final(self).script@.len() as int)
                && err_lexical(e),
        decreases old(self).script@.len() - old(self).pos,
    {
        let len = self.script.len();
        while self.pos < len
            invariant
                self.wf(),
                self.peeked is None,
                len == self.script@.len(),
                old(self).limits_unchanged(*self),
                self.pos >= old(self).pos,
            decreases len - self.pos,
        {
            let b = self.script[self.pos];
            if b == SP || b == TAB || b == CR {
                self.pos += 1;
            } else if b == LF {
                self.pos += 1;
                self.line_num += 1;
                self.line_start = self.pos;
            } else if b == HASH {
                // comment to end of line
                self.pos += 1;
                let ghost p0 = self.pos as int;
                while self.pos < len && self.script[self.pos] != LF
                    invariant
                        self.wf(),
                        self.peeked is None,
                        len == self.script@.len(),
                        old(self).limits_unchanged(*self),
                        self.pos >= p0,
                        self.pos >= old(self).pos,
                    decreases len - self.pos,
                {
                    self.pos += 1;
                }
            } else if b == SLASH {
                if self.pos + 1 < len && self.script[self.pos + 1] == STAR {
                    let start_line = self.line_num;
                    let start_col = self.col();
                    self.pos += 2;
                    let ghost p0 = self.pos as int;
                    let mut closed = false;
                    while !closed && self.pos < len
                        invariant
                            self.wf(),
                            self.peeked is None,
                            len == self.script@.len(),
                            old(self).limits_unchanged(*self),
                            self.pos >= p0,
                            self.pos >= old(self).pos,
                            start_line <= self.line_num,
                        decreases len - self.pos,
                    {
                        let c = self.script[self.pos];
                        if c == STAR && self.pos + 1 < len && self.script[self.pos + 1] == SLASH {
                            self.pos += 2;
                            closed = true;
                        } else if c == LF {
                            self.pos += 1;
                            self.line_num += 1;
                            self.line_start = self.pos;
                        } else {
                            self.pos += 1;
                        }
                    }
                    if !closed {
                        return Err(CompileError {
                            line_num: start_line,
                            line_pos: start_col,
                            error_type: ErrorType::UnterminatedComment,
                        });
                    }
                } else {
                    // a bare slash is not part of any token; the caller reports it
                    return Ok(());
                }
            } else {
                return Ok(());
            }
        }
        Ok(())
    }

    /// Lexes the identifier run starting at the current position (which must
    /// hold an identifier byte), folding it to lower case.
    fn lex_ident_run(&mut self) -> (r: Vec<u8>)
        requires
            old(self).wf(),
            old(self).peeked is None,
            old(self).pos < old(self).script@.len(),
            is_ident_byte_spec(old(self).script@[old(self).pos as int]),
        ensures
            final(self).wf(),
            final(self).peeked is None,
            old(self).limits_unchanged(*final(self)),
            final(self).pos > old(self).pos,
            final(self).line_num == old(self).line_num,
            final(self).line_start == old(self).line_start,
            r@.len() >= 1,
            r@.len() == final(self).pos - old(self).pos,
        decreases old(self).script@.len() - old(self).pos,
    {
        let len = self.script.len();
        let mut out: Vec<u8> = Vec::new();
        let b0 = self.script[self.pos];
        out.push(fold_byte(b0));
        self.pos += 1;
        while self.pos < len && is_ident_byte(self.script[self.pos])
            invariant
                self.wf(),
                self.peeked is None,
                len == self.script@.len(),
                old(self).limits_unchanged(*self),
                self.pos > old(self).pos,
                self.line_num == old(self).line_num,
                self.line_start == old(self).line_start,
                out@.len() == self.pos - old(self).pos,
            decreases len - self.pos,
        {
            let c = self.script[self.pos];
            out.push(fold_byte(c));
            self.pos += 1;
        }
        out
    }

    /// Lexes a number: decimal digits with an optional K/M/G scale suffix.
    fn lex_number(&mut self, start_line: usize, start_col: usize) -> (r: Result<
        Token,
        CompileError,
    >)
        requires
            old(self).wf(),
            old(self).peeked is None,
            old(self).pos < old(self).script@.len(),
            48 <= old(self).script@[old(self).pos as int] <= 57,
            start_line <= old(self).pos + 1,
            start_col <= old(self).script@.len(),
        ensures
            final(self).wf(),
            final(self).peeked is None,
            old(self).limits_unchanged(*final(self)),
            final(self).pos > old(self).pos,
            final(self).line_num == old(self).line_num,
            final(self).line_start == old(self).line_start,
            r matches Ok(t) ==> t is Number,
            r matches Err(e) ==> err_in_range(e, final(self).script@.len() as int)
                && err_lexical(e),
    {
        let len = self.script.len();
        let mut text: Vec<u8> = Vec::new();
        let mut value: usize = 0;
        let mut overflow = false;
        let b0 = self.script[self.pos];
        text.push(b0);
        value = (b0 - 48) as usize;
        self.pos += 1;
        while self.pos < len && D0 <= self.script[self.pos] && self.script[self.pos] <= D9
            invariant
                self.wf(),
                self.peeked is None,
                len == self.script@.len(),
                old(self).limits_unchanged(*self),
                self.pos > old(self).pos,
                self.line_num == old(self).line_num,
                self.line_start == old(self).line_start,
            decreases len - self.pos,
        {
            let d = self.script[self.pos] - 48;
            if value <= (usize::MAX - 9) / 10 {
                value = value * 10 + (d as usize);
            } else {
                overflow = true;
            }
            text.push(self.script[self.pos]);
            self.pos += 1;
        }
        // optional scale suffix
        if self.pos < len {
            let s = fold_byte(self.script[self.pos]);
            // k, m, g
            if s == 107 || s == 109 || s == 103 {
                let scale: usize = if s == 107 {
                    1024
                } else if s == 109 {
                    1048576
                } else {
                    1073741824
                };
                if value <= usize::MAX / scale {
                    value = value * scale;
                } else {
                    overflow = true;
                }
                text.push(self.script[self.pos]);
                self.pos += 1;
            }
        }
        // a number must not run straight into an identifier
        let mut trailing = false;
        while self.pos < len && is_ident_byte(self.script[self.pos])
            invariant
                self.wf(),
                self.peeked is None,
                len == self.script@.len(),
                old(self).limits_unchanged(*self),
                self.pos > old(self).pos,
                self.line_num == old(self).line_num,
                self.line_start == old(self).line_start,
            decreases len - self.pos,
        {
            text.push(self.script[self.pos]);
            self.pos += 1;
            trailing = true;
        }
        if overflow || trailing {
            Err(CompileError {
                line_num: start_line,
                line_pos: start_col,
                error_type: ErrorType::InvalidNumber(text),
            })
        } else {
            Ok(Token::Number(value))
        }
    }

    /// Lexes a quoted string; the current position holds the opening quote.
    /// A backslash escapes the next byte.
    fn lex_quoted(&mut self, start_line: usize, start_col: usize) -> (r: Result<
        Token,
        CompileError,
    >)
        requires
            old(self).wf(),
            old(self).peeked is None,
            old(self).pos < old(self).script@.len(),
            old(self).script@[old(self).pos as int] == 34,
            start_line <= old(self).pos + 1,
            start_col <= old(self).script@.len(),
        ensures
            final(self).wf(),
            final(self).peeked is None,
            old(self).limits_unchanged(*final(self)),
            final(self).pos > old(self).pos,
            r matches Ok(t) ==> token_wf(t, final(self).max_string_size) && (t is StringConstant
                || t is StringVariable),
            r matches Err(e) ==> err_in_range(e, final(self).script@.len() as int)
                && err_lexical(e),
    {
        let len = self.script.len();
        self.pos += 1;
        let mut s: Vec<u8> = Vec::new();
        let mut closed = false;
        while !closed && self.pos < len
            invariant
                self.wf(),
                self.peeked is None,
                len == self.script@.len(),
                old(self).limits_unchanged(*self),
                self.pos > old(self).pos,
                s@.len() <= self.max_string_size,
                start_line <= len,
                start_col <= len,
            decreases len - self.pos,
        {
            let b = self.script[self.pos];
            if b == QUOTE {
                self.pos += 1;
                closed = true;
            } else if b == BSLASH {
                if self.pos + 1 < len {
                    let c = self.script[self.pos + 1];
                    if s.len() >= self.max_string_size {
                        return Err(CompileError {
                            line_num: start_line,
                            line_pos: start_col,
                            error_type: ErrorType::StringTooLong,
                        });
                    }
                    s.push(c);
                    self.pos += 2;
                    if c == LF {
                        self.line_num += 1;
                        self.line_start = self.pos;
                    }
                } else {
                    self.pos += 1;
                }
            } else {
                if s.len() >= self.max_string_size {
                    return Err(CompileError {
                        line_num: start_line,
                        line_pos: start_col,
                        error_type: ErrorType::StringTooLong,
                    });
                }
                s.push(b);
                self.pos += 1;
                if b == LF {
                    self.line_num += 1;
                    self.line_start = self.pos;
                }
            }
        }
        if !closed {
            return Err(CompileError {
                line_num: start_line,
                line_pos: start_col,
                error_type: ErrorType::UnterminatedString,
            });
        }
        if contains_variable_ref(&s) {
            Ok(Token::StringVariable(s))
        } else {
            Ok(Token::StringConstant(s))
        }
    }

    /// Lexes a multi-line string; the current position is just past `text:`.
    /// Lines follow until one holding a single dot; a leading double dot is
    /// unstuffed to one.
    fn lex_multiline(&mut self, start_line: usize, start_col: usize) -> (r: Result<
        Token,
        CompileError,
    >)
        requires
            old(self).wf(),
            old(self).peeked is None,
            start_line <= old(self).pos + 1,
            start_col <= old(self).script@.len(),
        ensures
            final(self).wf(),
            final(self).peeked is None,
            old(self).limits_unchanged(*final(self)),
            final(self).pos >= old(self).pos,
            r matches Ok(t) ==> token_wf(t, final(self).max_string_size) && (t is StringConstant
                || t is StringVariable) && final(self).pos > old(self).pos,
            r matches Err(e) ==> err_in_range(e, final(self).script@.len() as int)
                && err_lexical(e),
    {
        let len = self.script.len();
        // the rest of the `text:` line: blanks, then an optional comment
        while self.pos < len && is_blank(self.script[self.pos])
            invariant
                self.wf(),
                self.peeked is None,
                len == self.script@.len(),
                old(self).limits_unchanged(*self),
                self.pos >= old(self).pos,
                start_line <= len + 1,
                start_col <= len,
            decreases len - self.pos,
        {
            self.pos += 1;
        }
        if self.pos < len && self.script[self.pos] == HASH {
            while self.pos < len && self.script[self.pos] != LF
                invariant
                    self.wf(),
                    self.peeked is None,
                    len == self.script@.len(),
                    old(self).limits_unchanged(*self),
                    self.pos >= old(self).pos,
                decreases len - self.pos,
            {
                self.pos += 1;
            }
        }
        if self.pos >= len {
            return Err(CompileError {
                line_num: start_line,
                line_pos: start_col,
                error_type: ErrorType::UnterminatedMultiline,
            });
        }
        let nl = self.script[self.pos];
        if nl != LF {
            return Err(CompileError {
                line_num: start_line,
                line_pos: start_col,
                error_type: ErrorType::InvalidCharacter(nl),
            });
        }
        self.pos += 1;
        self.line_num += 1;
        self.line_start = self.pos;

        let mut s: Vec<u8> = Vec::new();
        let mut at_start = true;
        let mut done = false;
        while !done && self.pos < len
            invariant
                self.wf(),
                self.peeked is None,
                len == self.script@.len(),
                old(self).limits_unchanged(*self),
                self.pos > old(self).pos,
                s@.len() <= self.max_string_size,
                start_line <= len + 1,
                start_col <= len,
            decreases 2 * (len - self.pos) + if at_start {
                1int
            } else {
                0int
            },
    {
            let b = self.script[self.pos];
            if at_start && b == DOT {
                if self.pos + 1 >= len {
                    // terminating dot at end of input
                    self.pos += 1;
                    done = true;
                } else {
                    let c = self.script[self.pos + 1];
                    if c == LF {
                        self.pos += 2;
                        self.line_num += 1;
                        self.line_start = self.pos;
                        done = true;
                    } else if c == CR {
                        self.pos += 2;
                        if self.pos < len && self.script[self.pos] == LF {
                            self.pos += 1;
                            self.line_num += 1;
                            self.line_start = self.pos;
                        }
                        done = true;
                    } else if c == DOT {
                        // dot-stuffed line: drop the first dot
                        self.pos += 1;
                        at_start = false;
                    } else {
                        at_start = false;
                    }
                }
            } else {
                if s.len() >= self.max_string_size {
                    return Err(CompileError {
                        line_num: start_line,
                        line_pos: start_col,
                        error_type: ErrorType::StringTooLong,
                    });
                }
                s.push(b);
                self.pos += 1;
                if b == LF {
                    self.line_num += 1;
                    self.line_start = self.pos;
                    at_start = true;
                } else {
                    at_start = false;
                }
            }
        }
        if !done {
            return Err(CompileError {
                line_num: start_line,
                line_pos: start_col,
                error_type: ErrorType::UnterminatedMultiline,
            });
        }
        if contains_variable_ref(&s) {
            Ok(Token::StringVariable(s))
        } else {
            Ok(Token::StringConstant(s))
        }
    }

    /// Lexes the next token, skipping what comes before it.
    fn lex_token(&mut self) -> (r: Result<Option<TokenInfo>, CompileError>)
        requires
            old(self).wf(),
            old(self).peeked is None,
        ensures
            final(self).wf(),
            final(self).peeked is None,
            old(self).limits_unchanged(*final(self)),
            final(self).pos >= old(self).pos,
            r matches Ok(Some(ti)) ==> final(self).pos > old(self).pos && token_wf(
                ti.token,
                final(self).max_string_size,
            ) && ti.line_num <= final(self).pos + 1 && ti.line_pos <= final(self).script@.len(),
            r matches Ok(None) ==> final(self).pos == final(self).script@.len(),
            old(self).pos == old(self).script@.len() ==> r matches Ok(None),
            (forall|k: int|
                old(self).pos <= k < old(self).script@.len() ==> is_blank_byte(
                    #[trigger] old(self).script@[k],
                )) ==> r matches Ok(None),
            r matches Err(e) ==> err_in_range(e, final(self).script@.len() as int)
                && err_lexical(e),
    {
        let res = self.skip_trivia();
        if let Err(e) = res {
            return Err(e);
        }
        let len = self.script.len();
        if self.pos >= len {
            return Ok(None);
        }
        let start_line = self.line_num;
        let start_col = self.col();
        let b = self.script[self.pos];
        let token: Token;
        if b == LBRACE {
            self.pos += 1;
            token = Token::CurlyOpen;
        } else if b == RBRACE {
            self.pos += 1;
            token = Token::CurlyClose;
        } else if b == LBRACKET {
            self.pos += 1;
            token = Token::BracketOpen;
        } else if b == RBRACKET {
            self.pos += 1;
            token = Token::BracketClose;
        } else if b == LPAREN {
            self.pos += 1;
            token = Token::ParenthesisOpen;
        } else if b == RPAREN {
            self.pos += 1;
            token = Token::ParenthesisClose;
        } else if b == COMMA {
            self.pos += 1;
            token = Token::Comma;
        } else if b == SEMI {
            self.pos += 1;
            token = Token::Semicolon;
        } else if b == QUOTE {
            match self.lex_quoted(start_line, start_col) {
                Ok(t) => {
                    token = t;
                },
                Err(e) => {
                    return Err(e);
                },
            }
        } else if D0 <= b && b <= D9 {
            match self.lex_number(start_line, start_col) {
                Ok(t) => {
                    token = t;
                },
                Err(e) => {
                    return Err(e);
                },
            }
        } else if is_ident_byte(b) {
            let name = self.lex_ident_run();
            if crate::words::ident_is(&name, "text") && self.pos < len && self.script[self.pos] == COLON {
                self.pos += 1;
                match self.lex_multiline(start_line, start_col) {
                    Ok(t) => {
                        token = t;
                    },
                    Err(e) => {
                        return Err(e);
                    },
                }
            } else {
                match word_lookup(&name) {
                    Some(w) => {
                        token = Token::Identifier(w);
                    },
                    None => {
                        token = Token::Invalid(name);
                    },
                }
            }
        } else if b == COLON {
            if self.pos + 1 < len && is_ident_byte(self.script[self.pos + 1]) {
                self.pos += 1;
                let name = self.lex_ident_run();
                match word_lookup(&name) {
                    Some(w) => {
                        token = Token::Tag(w);
                    },
                    None => {
                        let mut t: Vec<u8> = Vec::new();
                        t.push(COLON);
                        let mut name = name;
                        t.append(&mut name);
                        token = Token::Invalid(t);
                    },
                }
            } else {
                return Err(CompileError {
                    line_num: start_line,
                    line_pos: start_col,
                    error_type: ErrorType::InvalidCharacter(b),
                });
            }
        } else {
            return Err(CompileError {
                line_num: start_line,
                line_pos: start_col,
                error_type: ErrorType::InvalidCharacter(b),
            });
        }
        Ok(Some(TokenInfo { token, line_num: start_line, line_pos: start_col }))
    }

    /// Hands out the next token: the buffered one if a look-ahead is pending,
    /// else a freshly lexed one. `Ok(None)` means the end of the script.
    pub fn next(&mut self) -> (r: Result<Option<TokenInfo>, CompileError>)
        requires
            old(self).wf(),
        ensures
            final(self).wf(),
            final(self).peeked is None,
            old(self).limits_unchanged(*final(self)),
            final(self).measure() <= old(self).measure(),
            old(self).peeked matches Some(t) ==> r matches Ok(Some(t2)) && t2 == t,
            r matches Ok(Some(ti)) ==> final(self).measure() < old(self).measure() && token_wf(
                ti.token,
                final(self).max_string_size,
            ) && ti.line_num <= final(self).pos + 1 && ti.line_pos <= final(self).script@.len(),
            r matches Ok(None) ==> final(self).pos == final(self).script@.len(),
            old(self).peeked is None && old(self).pos == old(self).script@.len() ==> r matches Ok(
                None,
            ),
            (old(self).peeked is None && forall|k: int|
                old(self).pos <= k < old(self).script@.len() ==> is_blank_byte(
                    #[trigger] old(self).script@[k],
                )) ==> r matches Ok(None),
            r matches Err(e) ==> err_in_range(e, final(self).script@.len() as int)
                && err_lexical(e),
    {
        let taken = self.peeked.take();
        match taken {
            Some(t) => Ok(Some(t)),
            None => self.lex_token(),
        }
    }

    /// Makes sure the look-ahead buffer is filled, unless the script is over.
    pub fn fill_peek(&mut self) -> (r: Result<(), CompileError>)
        requires
            old(self).wf(),
        ensures
            final(self).wf(),
            old(self).limits_unchanged(*final(self)),
            final(self).measure() <= old(self).measure(),
            old(self).peeked matches Some(t) ==> final(self).peeked == Some(t) && *final(self)
                == *old(self),
            r is Ok ==> (final(self).peeked is Some || final(self).pos == final(self).script@.len()),
            r matches Err(e) ==> err_in_range(e, final(self).script@.len() as int)
                && err_lexical(e),
    {
        if self.peeked.is_some() {
            return Ok(());
        }
        match self.lex_token() {
            Ok(Some(ti)) => {
                self.peeked = Some(ti);
                Ok(())
            },
            Ok(None) => Ok(()),
            Err(e) => Err(e),
        }
    }

    /// The buffered token's identifier word, if the buffer holds one.
    pub fn peeked_identifier(&self) -> (r: Option<Word>)
        ensures
            r == peeked_identifier_spec(*self),
    {
        match &self.peeked {
            Some(ti) => match ti.token {
                Token::Identifier(w) => Some(w),
                _ => None,
            },
            None => None,
        }
    }

    /// The buffered token's tag word, if the buffer holds one.
    pub fn peeked_tag(&self) -> (r: Option<Word>)
        ensures
            r == peeked_tag_spec(*self),
    {
        match &self.peeked {
            Some(ti) => match ti.token {
                Token::Tag(w) => Some(w),
                _ => None,
            },
            None => None,
        }
    }

    /// Whether the buffered token is a semicolon.
    pub fn peeked_is_semicolon(&self) -> (r: bool)
        ensures
            r == (self.peeked matches Some(ti) && ti.token is Semicolon),
    {
        match &self.peeked {
            Some(ti) => matches!(ti.token, Token::Semicolon),
            None => false,
        }
    }

    /// Whether the buffered token opens a block.
    pub fn peeked_is_curly_open(&self) -> (r: bool)
        ensures
            r == (self.peeked matches Some(ti) && ti.token is CurlyOpen),
    {
        match &self.peeked {
            Some(ti) => matches!(ti.token, Token::CurlyOpen),
            None => false,
        }
    }

    /// Whether the buffered token closes a block.
    pub fn peeked_is_curly_close(&self) -> (r: bool)
        ensures
            r == (self.peeked matches Some(ti) && ti.token is CurlyClose),
    {
        match &self.peeked {
            Some(ti) => matches!(ti.token, Token::CurlyClose),
            None => false,
        }
    }

    /// Whether the look-ahead buffer is empty.
    pub fn peeked_is_none(&self) -> (r: bool)
        ensures
            r == (self.peeked is None),
    {
        self.peeked.is_none()
    }
}

/// The identifier word sitting in the look-ahead buffer, if any.
pub open spec fn peeked_identifier_spec(t: Tokenizer<'_>) -> Option<Word> {
    match t.peeked {
        Some(ti) => match ti.token {
            Token::Identifier(w) => Some(w),
            _ => None,
        },
        None => None,
    }
}

/// The tag word sitting in the look-ahead buffer, if any.
pub open spec fn peeked_tag_spec(t: Tokenizer<'_>) -> Option<Word> {
    match t.peeked {
        Some(ti) => match ti.token {
            Token::Tag(w) => Some(w),
            _ => None,
        },
        None => None,
    }
}

/// Whether a byte is blank space within a line.
fn is_blank(b: u8) -> (r: bool)
    ensures
        r == (b == 32 || b == 9 || b == 13),
{
    b == SP || b == TAB || b == CR
}

} // verus!
