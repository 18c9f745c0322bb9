//! The lexical scanner: it turns raw characters into positioned tokens,
//! tracking the current line, the offset within the line, and the running
//! parenthesis depth, and reports malformed input as a typed error.
//!
//! Every scanning step is specified by the `spec_*` functions below, which
//! form a small state machine over the character sequence; `next_token`
//! returns exactly what that machine says.

use crate::rational::{lemma_pow10_gt_i64, lemma_pow10_le_i64, pow10, Rat, Rational};
use vstd::prelude::*;

verus! {

/// A lexical unit. Parentheses carry the line and in-line offset they were
/// read at; numbers carry their value; symbols, string literals and
/// comments carry their text.
#[derive(Debug, Clone)]
pub enum Token {
    LParen(usize, i64),
    RParen(usize, i64),
    Float(Rational),
    Integer(i64),
    Symbol(String),
    StringLiteral(String),
    Comment(String),
}

/// The mathematical model of a token.
pub enum Tok {
    LParen(int, int),
    RParen(int, int),
    Float(Rat),
    Int(int),
    Sym(Seq<char>),
    StrLit(Seq<char>),
    Comment(Seq<char>),
}

impl Token {
    /// The model of this token.
    pub open spec fn model(self) -> Tok {
        match self {
            Token::LParen(line, col) => Tok::LParen(line as int, col as int),
            Token::RParen(line, col) => Tok::RParen(line as int, col as int),
            Token::Float(q) => Tok::Float(q@),
            Token::Integer(i) => Tok::Int(i as int),
            Token::Symbol(s) => Tok::Sym(s@),
            Token::StringLiteral(s) => Tok::StrLit(s@),
            Token::Comment(s) => Tok::Comment(s@),
        }
    }
}

impl View for Token {
    type V = Tok;

    open spec fn view(&self) -> Tok {
        (*self).model()
    }
}

/// A lexical error: an unmatched parenthesis, an unexpected character with
/// the line and in-line offset it was met at, or input that ended inside a
/// string literal.
#[derive(Debug, PartialEq, Eq, Structural)]
pub enum LexerError {
    UnmatchedParen,
    UnexpectedChar(char, usize, i64),
    UnexpectedEof,
}

/// The mathematical model of a lexical error.
pub enum LexErr {
    UnmatchedParen,
    UnexpectedChar(char, int, int),
    UnexpectedEof,
}

impl LexerError {
    /// The model of this error.
    pub open spec fn model(self) -> LexErr {
        match self {
            LexerError::UnmatchedParen => LexErr::UnmatchedParen,
            LexerError::UnexpectedChar(c, line, col) => LexErr::UnexpectedChar(
                c,
                line as int,
                col as int,
            ),
            LexerError::UnexpectedEof => LexErr::UnexpectedEof,
        }
    }
}

/// The scanner's bookkeeping state: the reading position, the current line,
/// the offset within the line, and the parenthesis depth.
pub struct LexSt {
    pub pos: int,
    pub line: int,
    pub col: int,
    pub depth: int,
}

/// What one scanning step yields: the state after it, and a token, the end
/// of input, or an error.
pub type LexOut = (LexSt, Result<Option<Tok>, LexErr>);

/// The model of a scanning result.
pub open spec fn res_model(r: Result<Option<Token>, LexerError>) -> Result<Option<Tok>, LexErr> {
    match r {
        Ok(None) => Ok(None),
        Ok(Some(t)) => Ok(Some(t.model())),
        Err(e) => Err(e.model()),
    }
}

/// Whether the Unicode tables class the character as whitespace. Its
/// definition is those tables; the scanner's machine is stated over the
/// name, and `is_space` ties it to the machine's implementation.
pub uninterp spec fn is_space_char(c: char) -> bool;

/// Whether the Unicode tables class the character as a letter.
pub uninterp spec fn is_alpha_char(c: char) -> bool;

/// Whether the Unicode tables class the character as a letter or a digit.
pub uninterp spec fn is_alnum_char(c: char) -> bool;

/// Relies on `char::is_whitespace`: whether the character is whitespace,
/// a function of the character alone.
#[verifier::external_body]
fn is_space(c: char) -> (r: bool)
    ensures
        r == is_space_char(c),
{
    c.is_whitespace()
}

/// Relies on `char::is_alphabetic`: whether the character is a letter,
/// a function of the character alone.
#[verifier::external_body]
fn is_alpha(c: char) -> (r: bool)
    ensures
        r == is_alpha_char(c),
{
    c.is_alphabetic()
}

/// Relies on `char::is_alphanumeric`: whether the character is a letter or
/// a digit, a function of the character alone.
#[verifier::external_body]
fn is_alnum(c: char) -> (r: bool)
    ensures
        r == is_alnum_char(c),
{
    c.is_alphanumeric()
}

/// A decimal digit.
pub open spec fn is_digit_c(c: char) -> bool {
    48 <= c as u32 <= 57
}

/// The value of a decimal digit.
pub open spec fn digit_val(c: char) -> int {
    c as u32 - 48
}

/// One of the reserved symbol characters.
pub open spec fn is_symb_char(c: char) -> bool {
    c == '\'' || c == '=' || c == '+' || c == '-' || c == '!' || c == '*' || c == '/' || c == '>'
        || c == '<'
}

/// A character that may start a symbol: a letter or a reserved symbol
/// character.
pub open spec fn symbol_start_c(c: char) -> bool {
    is_alpha_char(c) || is_symb_char(c)
}

/// A character that may continue a symbol: a letter, a digit or a reserved
/// symbol character.
pub open spec fn symbol_part_c(c: char) -> bool {
    is_alnum_char(c) || is_symb_char(c)
}

/// Skipping whitespace: a line break starts a new line and resets the
/// offset, other whitespace only advances, the first other character stops.
pub open spec fn spec_skip_ws(inp: Seq<char>, st: LexSt) -> LexSt
    decreases inp.len() - st.pos,
{
    if st.pos < 0 || st.pos >= inp.len() {
        st
    } else if inp[st.pos] == '\n' {
        spec_skip_ws(inp, LexSt { pos: st.pos + 1, line: st.line + 1, col: 0, depth: st.depth })
    } else if is_space_char(inp[st.pos]) {
        spec_skip_ws(
            inp,
            LexSt { pos: st.pos + 1, line: st.line, col: st.col + 1, depth: st.depth },
        )
    } else {
        st
    }
}

/// Scanning the body of a symbol: the maximal run of symbol characters.
pub open spec fn spec_scan_sym(inp: Seq<char>, st: LexSt, acc: Seq<char>) -> (LexSt, Seq<char>)
    decreases inp.len() - st.pos,
{
    if 0 <= st.pos < inp.len() && symbol_part_c(inp[st.pos]) {
        spec_scan_sym(
            inp,
            LexSt { pos: st.pos + 1, line: st.line, col: st.col + 1, depth: st.depth },
            acc.push(inp[st.pos]),
        )
    } else {
        (st, acc)
    }
}

/// Reading a symbol token at the current position.
pub open spec fn spec_read_symbol(inp: Seq<char>, st: LexSt) -> LexOut {
    let (st2, acc) = spec_scan_sym(inp, st, seq![]);
    (st2, Ok(Some(Tok::Sym(acc))))
}

/// Scanning the body of a string literal, after the opening quote: it runs
/// to the closing quote; a line break or the end of input before that is an
/// error.
pub open spec fn spec_scan_str(inp: Seq<char>, st: LexSt, acc: Seq<char>) -> LexOut
    decreases inp.len() - st.pos,
{
    if st.pos < 0 || st.pos >= inp.len() {
        (st, Err(LexErr::UnexpectedEof))
    } else if inp[st.pos] == '"' {
        (
            LexSt { pos: st.pos + 1, line: st.line, col: st.col + 1, depth: st.depth },
            Ok(Some(Tok::StrLit(acc))),
        )
    } else if inp[st.pos] == '\n' {
        (st, Err(LexErr::UnexpectedEof))
    } else {
        spec_scan_str(
            inp,
            LexSt { pos: st.pos + 1, line: st.line, col: st.col + 1, depth: st.depth },
            acc.push(inp[st.pos]),
        )
    }
}

/// Reading a string literal token at the opening quote.
pub open spec fn spec_read_string(inp: Seq<char>, st: LexSt) -> LexOut {
    spec_scan_str(
        inp,
        LexSt { pos: st.pos + 1, line: st.line, col: st.col + 1, depth: st.depth },
        seq![],
    )
}

/// Scanning the body of a comment: it runs to the end of the line or of the
/// input; a closing line break is consumed and kept in the text.
pub open spec fn spec_scan_comment(inp: Seq<char>, st: LexSt, acc: Seq<char>) -> LexOut
    decreases inp.len() - st.pos,
{
    if st.pos < 0 || st.pos >= inp.len() {
        (st, Ok(Some(Tok::Comment(acc))))
    } else if inp[st.pos] == '\n' {
        (
            LexSt { pos: st.pos + 1, line: st.line + 1, col: 0, depth: st.depth },
            Ok(Some(Tok::Comment(acc.push('\n')))),
        )
    } else {
        spec_scan_comment(
            inp,
            LexSt { pos: st.pos + 1, line: st.line, col: st.col + 1, depth: st.depth },
            acc.push(inp[st.pos]),
        )
    }
}

/// Reading a comment token at the semicolon.
pub open spec fn spec_read_comment(inp: Seq<char>, st: LexSt) -> LexOut {
    spec_scan_comment(
        inp,
        LexSt { pos: st.pos + 1, line: st.line, col: st.col + 1, depth: st.depth },
        seq![],
    )
}

/// Scanning a numeral after its sign: digits and at most one decimal point
/// are taken; a second point, or a digit that would push the value or the
/// scale beyond the machine range, is an error at that character; the first
/// other character ends the numeral, which is an integer when no point was
/// seen and a fraction over a power of ten otherwise.
pub open spec fn spec_scan_num(
    inp: Seq<char>,
    st: LexSt,
    neg: bool,
    acc: int,
    scale: Option<int>,
) -> LexOut
    decreases inp.len() - st.pos,
{
    if 0 <= st.pos < inp.len() && is_digit_c(inp[st.pos]) {
        let c = inp[st.pos];
        let acc2 = acc * 10 + digit_val(c);
        if (neg && -acc2 < i64::MIN) || (!neg && acc2 > i64::MAX) {
            (st, Err(LexErr::UnexpectedChar(c, st.line, st.col)))
        } else if scale matches Some(s) && pow10((s + 1) as nat) > i64::MAX {
            (st, Err(LexErr::UnexpectedChar(c, st.line, st.col)))
        } else {
            spec_scan_num(
                inp,
                LexSt { pos: st.pos + 1, line: st.line, col: st.col + 1, depth: st.depth },
                neg,
                acc2,
                match scale {
                    None => None,
                    Some(s) => Some(s + 1),
                },
            )
        }
    } else if 0 <= st.pos < inp.len() && inp[st.pos] == '.' && scale is None {
        spec_scan_num(
            inp,
            LexSt { pos: st.pos + 1, line: st.line, col: st.col + 1, depth: st.depth },
            neg,
            acc,
            Some(0),
        )
    } else if 0 <= st.pos < inp.len() && inp[st.pos] == '.' {
        (st, Err(LexErr::UnexpectedChar('.', st.line, st.col)))
    } else {
        let v = if neg {
            -acc
        } else {
            acc
        };
        match scale {
            None => (st, Ok(Some(Tok::Int(v)))),
            Some(s) => (st, Ok(Some(Tok::Float(Rat { n: v, d: pow10(s as nat) })))),
        }
    }
}

/// Reading a numeral at the current position, which holds a digit or a sign
/// directly followed by a digit.
pub open spec fn spec_read_number(inp: Seq<char>, st: LexSt) -> LexOut {
    if 0 <= st.pos < inp.len() && (inp[st.pos] == '-' || inp[st.pos] == '+') {
        spec_scan_num(
            inp,
            LexSt { pos: st.pos + 1, line: st.line, col: st.col + 1, depth: st.depth },
            inp[st.pos] == '-',
            0,
            None,
        )
    } else {
        spec_scan_num(inp, st, false, 0, None)
    }
}

/// One whole scanning step: whitespace is skipped, then the next token is
/// read, dispatched on its first character. At the end of input a nonzero
/// parenthesis depth is an unmatched parenthesis; a closing parenthesis
/// below depth zero likewise; a character no token can start is an error
/// naming it and its position.
pub open spec fn spec_next_token(inp: Seq<char>, st: LexSt) -> LexOut {
    let st1 = spec_skip_ws(inp, st);
    if st1.pos >= inp.len() {
        if st1.depth != 0 {
            (st1, Err(LexErr::UnmatchedParen))
        } else {
            (st1, Ok(None))
        }
    } else {
        let c = inp[st1.pos];
        if c == '(' {
            let st2 = LexSt {
                pos: st1.pos + 1,
                line: st1.line,
                col: st1.col + 1,
                depth: st1.depth + 1,
            };
            (st2, Ok(Some(Tok::LParen(st2.line, st2.col))))
        } else if c == ')' {
            let st2 = LexSt {
                pos: st1.pos + 1,
                line: st1.line,
                col: st1.col + 1,
                depth: st1.depth - 1,
            };
            if st2.depth < 0 {
                (st2, Err(LexErr::UnmatchedParen))
            } else {
                (st2, Ok(Some(Tok::RParen(st2.line, st2.col))))
            }
        } else if c == '"' {
            spec_read_string(inp, st1)
        } else if c == ';' {
            spec_read_comment(inp, st1)
        } else if c == '-' || c == '+' {
            if st1.pos + 1 < inp.len() && is_digit_c(inp[st1.pos + 1]) {
                spec_read_number(inp, st1)
            } else {
                spec_read_symbol(inp, st1)
            }
        } else if is_digit_c(c) {
            spec_read_number(inp, st1)
        } else if symbol_start_c(c) {
            spec_read_symbol(inp, st1)
        } else {
            (st1, Err(LexErr::UnexpectedChar(c, st1.line, st1.col)))
        }
    }
}

/// Relies on `String::push`: it appends exactly the one character.
#[verifier::external_body]
fn push_char(s: &mut String, c: char)
    ensures
        final(s)@ == old(s)@ + seq![c],
{
    s.push(c);
}

/// The characters of a string slice, one by one.
fn str_chars(input: &str) -> (r: Vec<char>)
    ensures
        r@ == input@,
{
    let n: usize = input.unicode_len();
    let mut v: Vec<char> = Vec::new();
    let mut i: usize = 0;
    while i < n
        invariant
            i <= n,
            n == input@.len(),
            v@ == input@.take(i as int),
        decreases n - i,
    {
        v.push(input.get_char(i));
        i = i + 1;
        proof {
            assert(v@ =~= input@.take(i as int));
        }
    }
    proof {
        assert(v@ =~= input@);
    }
    v
}

/// Whether this character is a decimal digit.
fn is_digit(c: char) -> (r: bool)
    ensures
        r == is_digit_c(c),
{
    let u = c as u32;
    48 <= u && u <= 57
}

/// Whether this character may start a symbol: a letter or one of the
/// reserved symbol characters.
pub fn is_symbol_start(c: char) -> (r: bool)
    ensures
        r == symbol_start_c(c),
{
    is_alpha(c) || c == '\'' || c == '=' || c == '+' || c == '-' || c == '!' || c == '*'
        || c == '/' || c == '>' || c == '<'
}

/// Whether this character may continue a symbol: a letter, a digit or one
/// of the reserved symbol characters.
pub fn is_symbol_part(c: char) -> (r: bool)
    ensures
        r == symbol_part_c(c),
{
    is_alnum(c) || c == '\'' || c == '=' || c == '+' || c == '-' || c == '!' || c == '*'
        || c == '/' || c == '>' || c == '<'
}

/// The scanner over one piece of source text.
pub struct Lexer {
    input: Vec<char>,
    position: usize,
    string: usize,
    string_position: i64,
    paren_count: i64,
}

impl Lexer {
    #[verifier::type_invariant]
    spec fn inv(self) -> bool {
        &&& self.position <= self.input@.len()
        &&& self.input@.len() <= i64::MAX
        &&& self.string <= self.position
        &&& 0 <= self.string_position <= self.position
        &&& -(self.position as int) <= self.paren_count <= self.position as int
    }

    /// The text being scanned.
    pub closed spec fn inp(&self) -> Seq<char> {
        self.input@
    }

    /// The scanner's bookkeeping state.
    pub closed spec fn st(&self) -> LexSt {
        LexSt {
            pos: self.position as int,
            line: self.string as int,
            col: self.string_position as int,
            depth: self.paren_count as int,
        }
    }

    /// A fresh scanner at the start of the text. The length bound is what
    /// lets the in-line offset live in a machine word.
    pub fn new(input: &str) -> (r: Self)
        requires
            input@.len() <= i64::MAX,
        ensures
            r.inp() == input@,
            r.st() == (LexSt { pos: 0, line: 0, col: 0, depth: 0 }),
    {
        Lexer {
            input: str_chars(input),
            position: 0,
            string: 0,
            string_position: 0,
            paren_count: 0,
        }
    }

    /// The current line and the offset within it.
    pub fn get_position(&self) -> (r: (usize, i64))
        ensures
            r.0 as int == self.st().line,
            r.1 as int == self.st().col,
    {
        (self.string, self.string_position)
    }

    /// The character after the current one, if any.
    fn peek_char(&self) -> (r: Option<char>)
        ensures
            match r {
                Some(c) => self.st().pos + 1 < self.inp().len() && c == self.inp()[self.st().pos
                    + 1],
                None => self.st().pos + 1 >= self.inp().len(),
            },
    {
        proof {
            use_type_invariant(self);
        }
        if self.position < self.input.len() && self.position + 1 < self.input.len() {
            Some(self.input[self.position + 1])
        } else {
            None
        }
    }

    /// Whether whitespace remains at the current position.
    fn ws_more(&self) -> (r: bool)
        ensures
            r == (self.st().pos < self.inp().len() && (self.inp()[self.st().pos] == '\n'
                || is_space_char(self.inp()[self.st().pos]))),
    {
        proof {
            use_type_invariant(self);
        }
        if self.position < self.input.len() {
            let c = self.input[self.position];
            c == '\n' || is_space(c)
        } else {
            false
        }
    }

    /// Skips whitespace, counting lines and in-line offsets.
    fn skip_whitespace(&mut self)
        ensures
            final(self).inp() == old(self).inp(),
            final(self).st() == spec_skip_ws(old(self).inp(), old(self).st()),
    {
        while self.ws_more()
            invariant
                spec_skip_ws(self.inp(), self.st()) == spec_skip_ws(old(self).inp(), old(
                    self,
                ).st()),
                self.inp() == old(self).inp(),
            decreases self.inp().len() - self.st().pos,
        {
            proof {
                use_type_invariant(&*self);
                vstd::std_specs::vec::axiom_spec_len(&self.input);
            }
            let c = self.input[self.position];
            if c == '\n' {
                self.position = self.position + 1;
                self.string = self.string + 1;
                self.string_position = 0;
            } else {
                self.position = self.position + 1;
                self.string_position = self.string_position + 1;
            }
        }
    }

    /// Whether a symbol character stands at the current position.
    fn sym_more(&self) -> (r: bool)
        ensures
            r == (self.st().pos < self.inp().len() && symbol_part_c(self.inp()[self.st().pos])),
    {
        proof {
            use_type_invariant(self);
        }
        if self.position < self.input.len() {
            is_symbol_part(self.input[self.position])
        } else {
            false
        }
    }

    /// Reads the maximal run of symbol characters as one symbol token.
    fn read_symbol(&mut self) -> (r: Result<Option<Token>, LexerError>)
        ensures
            ({
                let (st2, res) = spec_read_symbol(old(self).inp(), old(self).st());
                final(self).inp() == old(self).inp() && final(self).st() == st2 && res_model(r)
                    == res
            }),
    {
        let mut acc = String::new();
        while self.sym_more()
            invariant
                self.inp() == old(self).inp(),
                spec_scan_sym(self.inp(), self.st(), acc@) == spec_scan_sym(
                    old(self).inp(),
                    old(self).st(),
                    Seq::<char>::empty(),
                ),
            decreases self.inp().len() - self.st().pos,
        {
            proof {
                use_type_invariant(&*self);
                vstd::std_specs::vec::axiom_spec_len(&self.input);
            }
            let ghost acc0 = acc@;
            let c = self.input[self.position];
            push_char(&mut acc, c);
            self.position = self.position + 1;
            self.string_position = self.string_position + 1;
            proof {
                assert(acc@ =~= acc0.push(c));
            }
        }
        Ok(Some(Token::Symbol(acc)))
    }

    /// Whether the current position is still inside a string literal's body.
    fn str_more(&self) -> (r: bool)
        ensures
            r == (self.st().pos < self.inp().len() && self.inp()[self.st().pos] != '"'
                && self.inp()[self.st().pos] != '\n'),
    {
        proof {
            use_type_invariant(self);
        }
        if self.position < self.input.len() {
            let c = self.input[self.position];
            c != '"' && c != '\n'
        } else {
            false
        }
    }

    /// Reads a string literal: the text up to the closing quote. Input that
    /// ends, or a line that breaks, before the closing quote is an error.
    fn read_string(&mut self) -> (r: Result<Option<Token>, LexerError>)
        requires
            old(self).st().pos < old(self).inp().len(),
        ensures
            ({
                let (st2, res) = spec_read_string(old(self).inp(), old(self).st());
                final(self).inp() == old(self).inp() && final(self).st() == st2 && res_model(r)
                    == res
            }),
    {
        proof {
            use_type_invariant(&*self);
            vstd::std_specs::vec::axiom_spec_len(&self.input);
        }
        self.position = self.position + 1;
        self.string_position = self.string_position + 1;
        let ghost st1 = self.st();
        let mut acc = String::new();
        while self.str_more()
            invariant
                self.inp() == old(self).inp(),
                spec_scan_str(self.inp(), self.st(), acc@) == spec_scan_str(
                    old(self).inp(),
                    st1,
                    Seq::<char>::empty(),
                ),
            decreases self.inp().len() - self.st().pos,
        {
            proof {
                use_type_invariant(&*self);
                vstd::std_specs::vec::axiom_spec_len(&self.input);
            }
            let ghost acc0 = acc@;
            let c = self.input[self.position];
            push_char(&mut acc, c);
            self.position = self.position + 1;
            self.string_position = self.string_position + 1;
            proof {
                assert(acc@ =~= acc0.push(c));
            }
        }
        proof {
            use_type_invariant(&*self);
            vstd::std_specs::vec::axiom_spec_len(&self.input);
        }
        if self.position >= self.input.len() {
            Err(LexerError::UnexpectedEof)
        } else if self.input[self.position] == '\n' {
            Err(LexerError::UnexpectedEof)
        } else {
            self.position = self.position + 1;
            self.string_position = self.string_position + 1;
            Ok(Some(Token::StringLiteral(acc)))
        }
    }

    /// Whether the current position is still inside a comment's body.
    fn com_more(&self) -> (r: bool)
        ensures
            r == (self.st().pos < self.inp().len() && self.inp()[self.st().pos] != '\n'),
    {
        proof {
            use_type_invariant(self);
        }
        if self.position < self.input.len() {
            self.input[self.position] != '\n'
        } else {
            false
        }
    }

    /// Reads a comment: the text after the semicolon to the end of the line
    /// or of the input; a closing line break is consumed and kept.
    fn read_comment(&mut self) -> (r: Result<Option<Token>, LexerError>)
        requires
            old(self).st().pos < old(self).inp().len(),
        ensures
            ({
                let (st2, res) = spec_read_comment(old(self).inp(), old(self).st());
                final(self).inp() == old(self).inp() && final(self).st() == st2 && res_model(r)
                    == res
            }),
    {
        proof {
            use_type_invariant(&*self);
            vstd::std_specs::vec::axiom_spec_len(&self.input);
        }
        self.position = self.position + 1;
        self.string_position = self.string_position + 1;
        let ghost st1 = self.st();
        let mut acc = String::new();
        while self.com_more()
            invariant
                self.inp() == old(self).inp(),
                spec_scan_comment(self.inp(), self.st(), acc@) == spec_scan_comment(
                    old(self).inp(),
                    st1,
                    Seq::<char>::empty(),
                ),
            decreases self.inp().len() - self.st().pos,
        {
            proof {
                use_type_invariant(&*self);
                vstd::std_specs::vec::axiom_spec_len(&self.input);
            }
            let ghost acc0 = acc@;
            let c = self.input[self.position];
            push_char(&mut acc, c);
            self.position = self.position + 1;
            self.string_position = self.string_position + 1;
            proof {
                assert(acc@ =~= acc0.push(c));
            }
        }
        proof {
            use_type_invariant(&*self);
            vstd::std_specs::vec::axiom_spec_len(&self.input);
        }
        if self.position < self.input.len() {
            let ghost acc0 = acc@;
            push_char(&mut acc, '\n');
            self.position = self.position + 1;
            self.string = self.string + 1;
            self.string_position = 0;
            proof {
                assert(acc@ =~= acc0.push('\n'));
            }
        }
        Ok(Some(Token::Comment(acc)))
    }

    /// Whether a character of the numeral being read stands at the current
    /// position: a digit or a decimal point.
    fn num_more(&self) -> (r: bool)
        ensures
            r == (self.st().pos < self.inp().len() && (is_digit_c(self.inp()[self.st().pos])
                || self.inp()[self.st().pos] == '.')),
    {
        proof {
            use_type_invariant(self);
        }
        if self.position < self.input.len() {
            let c = self.input[self.position];
            is_digit(c) || c == '.'
        } else {
            false
        }
    }

    /// Reads a numeral: an optional sign, digits, and at most one decimal
    /// point. A second point, or a digit that would push the value or the
    /// scale beyond the machine range, is an error at that character.
    fn read_number(&mut self) -> (r: Result<Option<Token>, LexerError>)
        requires
            old(self).st().pos < old(self).inp().len(),
        ensures
            ({
                let (st2, res) = spec_read_number(old(self).inp(), old(self).st());
                final(self).inp() == old(self).inp() && final(self).st() == st2 && res_model(r)
                    == res
            }),
    {
        proof {
            use_type_invariant(&*self);
            vstd::std_specs::vec::axiom_spec_len(&self.input);
        }
        let c0 = self.input[self.position];
        let mut neg = false;
        if c0 == '-' || c0 == '+' {
            neg = c0 == '-';
            self.position = self.position + 1;
            self.string_position = self.string_position + 1;
        }
        let ghost st1 = self.st();
        let mut acc: u64 = 0;
        let mut scale_seen = false;
        let mut scale: u32 = 0;
        while self.num_more()
            invariant
                self.inp() == old(self).inp(),
                neg ==> acc <= 0x8000000000000000u64,
                !neg ==> acc <= 0x7fffffffffffffffu64,
                scale <= 18,
                !scale_seen ==> scale == 0,
                spec_scan_num(
                    self.inp(),
                    self.st(),
                    neg,
                    acc as int,
                    if scale_seen {
                        Some(scale as int)
                    } else {
                        None
                    },
                ) == spec_read_number(old(self).inp(), old(self).st()),
            decreases self.inp().len() - self.st().pos,
        {
            proof {
                use_type_invariant(&*self);
                vstd::std_specs::vec::axiom_spec_len(&self.input);
            }
            let c = self.input[self.position];
            if is_digit(c) {
                let d: u64 = (c as u32 - 48) as u64;
                let t: u128 = acc as u128 * 10 + d as u128;
                let limit: u128 = if neg {
                    0x8000000000000000
                } else {
                    0x7fffffffffffffff
                };
                if t > limit {
                    return Err(
                        LexerError::UnexpectedChar(c, self.string, self.string_position),
                    );
                }
                if scale_seen {
                    if scale >= 18 {
                        proof {
                            lemma_pow10_gt_i64((scale + 1) as nat);
                        }
                        return Err(
                            LexerError::UnexpectedChar(c, self.string, self.string_position),
                        );
                    }
                    proof {
                        lemma_pow10_le_i64((scale + 1) as nat);
                    }
                    scale = scale + 1;
                }
                acc = t as u64;
                self.position = self.position + 1;
                self.string_position = self.string_position + 1;
            } else {
                if scale_seen {
                    return Err(
                        LexerError::UnexpectedChar('.', self.string, self.string_position),
                    );
                }
                scale_seen = true;
                self.position = self.position + 1;
                self.string_position = self.string_position + 1;
            }
        }
        let v: i64 = if neg {
            (-(acc as i128)) as i64
        } else {
            acc as i64
        };
        if scale_seen {
            proof {
                lemma_pow10_le_i64(scale as nat);
            }
            match Rational::from_decimal(v, scale) {
                Some(q) => Ok(Some(Token::Float(q))),
                None => {
                    proof {
                        assert(false);
                    }
                    Err(LexerError::UnexpectedEof)
                },
            }
        } else {
            Ok(Some(Token::Integer(v)))
        }
    }

    /// Reads the next token, or reports the end of the input or an error,
    /// exactly as the scanning machine `spec_next_token` states it.
    pub fn next_token(&mut self) -> (r: Result<Option<Token>, LexerError>)
        ensures
            ({
                let (st2, res) = spec_next_token(old(self).inp(), old(self).st());
                final(self).inp() == old(self).inp() && final(self).st() == st2 && res_model(r)
                    == res
            }),
    {
        self.skip_whitespace();
        proof {
            use_type_invariant(&*self);
            vstd::std_specs::vec::axiom_spec_len(&self.input);
        }
        if self.position >= self.input.len() {
            if self.paren_count != 0 {
                Err(LexerError::UnmatchedParen)
            } else {
                Ok(None)
            }
        } else {
            let c = self.input[self.position];
            if c == '(' {
                self.position = self.position + 1;
                self.string_position = self.string_position + 1;
                self.paren_count = self.paren_count + 1;
                Ok(Some(Token::LParen(self.string, self.string_position)))
            } else if c == ')' {
                self.position = self.position + 1;
                self.string_position = self.string_position + 1;
                self.paren_count = self.paren_count - 1;
                if self.paren_count < 0 {
                    Err(LexerError::UnmatchedParen)
                } else {
                    Ok(Some(Token::RParen(self.string, self.string_position)))
                }
            } else if c == '"' {
                self.read_string()
            } else if c == ';' {
                self.read_comment()
            } else if c == '-' || c == '+' {
                let digit_next = match self.peek_char() {
                    Some(c2) => is_digit(c2),
                    None => false,
                };
                if digit_next {
                    self.read_number()
                } else {
                    self.read_symbol()
                }
            } else if is_digit(c) {
                self.read_number()
            } else if is_symbol_start(c) {
                self.read_symbol()
            } else {
                Err(LexerError::UnexpectedChar(c, self.string, self.string_position))
            }
        }
    }
}

} // verus!
