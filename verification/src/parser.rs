use vstd::prelude::*;
use crate::definitions::{Token, TokenKind, TokenModel, TokenType};
use crate::statement::{agrees_items, parse_program, program_at, Statement};

verus! {

/// What a grammar rule makes of the tokens from some position on: a value and
/// the position behind it, or a message and the position of the token that
/// was not expected.
pub enum Parsed<T> {
    Done { value: T, next: int },
    Failed { msg: Seq<char>, at: int },
}

/// The values of a sequence of tokens.
pub open spec fn token_models(ts: Seq<Token>) -> Seq<TokenModel> {
    Seq::new(ts.len(), |i: int| ts[i]@)
}

/// The kind of the token at `i`; past either end of the stream, end of input.
pub open spec fn kind_at(toks: Seq<TokenModel>, i: int) -> TokenKind {
    if 0 <= i < toks.len() {
        toks[i].kind
    } else {
        TokenKind::EOF
    }
}

/// How many tokens stand at or behind `pos`.
pub open spec fn remaining(toks: Seq<TokenModel>, pos: int) -> nat {
    if 0 <= pos < toks.len() {
        (toks.len() - pos) as nat
    } else {
        0
    }
}

/// A result of a sub-rule that started at `pos` counts only where it ends
/// behind `pos` and inside the stream. Every rule that succeeds consumes at
/// least one token, as the module `advance` shows, so this changes no
/// result; it lets the rules be defined by recursion on what is left of the
/// stream.
pub open spec fn forward<T>(toks: Seq<TokenModel>, pos: int, r: Parsed<T>) -> Parsed<T> {
    match r {
        Parsed::Done { value, next } => if 0 <= pos < next <= toks.len() {
            r
        } else {
            Parsed::Failed { msg: Seq::empty(), at: pos }
        },
        Parsed::Failed { .. } => r,
    }
}

/// An executable result and the cursor's place behind it say what the
/// grammar says.
pub open spec fn agrees<T: View>(r: Result<T, &'static str>, end: usize, expected: Parsed<T::V>) -> bool {
    match r {
        Ok(v) => expected == (Parsed::Done { value: v@, next: end as int }),
        Err(m) => expected == (Parsed::<T::V>::Failed { msg: m@, at: end as int }),
    }
}

/// A cursor over a token stream.
#[derive(Debug)]
pub struct Parser {
    pub tokens: Vec<Token>,
    pub ptr: usize,
}

impl Parser {
    /// The values of the tokens.
    pub open spec fn toks(&self) -> Seq<TokenModel> {
        token_models(self.tokens@)
    }

    /// The stream ends with an end-of-input token and the cursor stands on a
    /// token of it.
    pub open spec fn wf(&self) -> bool {
        &&& self.tokens.len() > 0
        &&& self.tokens[self.tokens.len() - 1]@.kind == TokenKind::EOF
        &&& self.ptr < self.tokens.len()
    }

    /// What one step of parsing does to the cursor: the stream stays, the
    /// cursor does not go back, and a success has consumed a token.
    pub open spec fn stepped(&self, before: Parser, ok: bool) -> bool {
        &&& self.wf()
        &&& self.tokens == before.tokens
        &&& self.ptr >= before.ptr
        &&& ok ==> self.ptr > before.ptr
    }

    /// A cursor at the start of a token stream.
    pub fn new(tokens: Vec<Token>) -> (r: Self)
        ensures
            r.tokens == tokens,
            r.ptr == 0,
    {
        Parser { tokens: tokens, ptr: 0 }
    }

    /// The token `n` places from the cursor.
    pub fn peek(&self, n: i64) -> (r: Token)
        requires
            0 <= self.ptr + n < self.tokens.len(),
        ensures
            r@ == self.toks()[self.ptr + n],
    {
        let len: u64 = self.tokens.len() as u64;
        let at: u64 = self.ptr as u64;
        if n >= 0 {
            let d: u64 = n as u64;
            let i: usize = (at + d) as usize;
            self.tokens[i].clone()
        } else {
            let d: u64 = (-(n + 1)) as u64;
            let i: usize = (at - d - 1) as usize;
            self.tokens[i].clone()
        }
    }

    /// The token `n` places from the cursor, or nothing where that place is
    /// not in the stream.
    pub fn peek_forward(&self, n: i64) -> (r: Option<Token>)
        ensures
            match r {
                Some(t) => 0 <= self.ptr + n < self.tokens.len() && t@ == self.toks()[self.ptr + n],
                None => !(0 <= self.ptr + n < self.tokens.len()),
            },
    {
        let len: u64 = self.tokens.len() as u64;
        let at: u64 = self.ptr as u64;
        if n >= 0 {
            let d: u64 = n as u64;
            if d >= len || at >= len - d {
                return None;
            }
            let i: usize = (at + d) as usize;
            Some(self.tokens[i].clone())
        } else {
            let d: u64 = (-(n + 1)) as u64;
            if d >= at || at - d - 1 >= len {
                return None;
            }
            let i: usize = (at - d - 1) as usize;
            Some(self.tokens[i].clone())
        }
    }

    /// Moves the cursor one token on.
    pub fn advance(&mut self)
        requires
            old(self).ptr < usize::MAX,
        ensures
            final(self).ptr == old(self).ptr + 1,
            final(self).tokens == old(self).tokens,
    {
        self.ptr += 1;
    }

    /// Reads a whole program: declarations and statements from the cursor up
    /// to the end of input. The first token that is not expected ends the
    /// call with its message, and the cursor stays on that token.
    pub fn parse(&mut self) -> (r: Result<Vec<Statement>, &'static str>)
        requires
            old(self).wf(),
        ensures
            final(self).stepped(*old(self), false),
            agrees_items(r, final(self).ptr, program_at(old(self).toks(), old(self).ptr as int)),
    {
        parse_program(self)
    }

    /// Whether the token under the cursor is of the given kind.
    pub fn at(&self, kind: &TokenType) -> (r: bool)
        requires
            self.wf(),
        ensures
            r == (kind_at(self.toks(), self.ptr as int) == kind@),
            r && !(kind@ is EOF) ==> self.ptr + 1 < self.tokens.len(),
    {
        self.tokens[self.ptr].ttype == *kind
    }

    /// Whether the token under the cursor is an identifier.
    pub fn at_id(&self) -> (r: bool)
        requires
            self.wf(),
        ensures
            r == (kind_at(self.toks(), self.ptr as int) is Id),
            r ==> self.ptr + 1 < self.tokens.len(),
    {
        matches!(self.tokens[self.ptr].ttype, TokenType::Id(_))
    }

    /// Whether the token under the cursor is a literal.
    pub fn at_lit(&self) -> (r: bool)
        requires
            self.wf(),
        ensures
            r == (kind_at(self.toks(), self.ptr as int) is Lit),
            r ==> self.ptr + 1 < self.tokens.len(),
    {
        matches!(self.tokens[self.ptr].ttype, TokenType::Lit(_))
    }

    /// Whether the token under the cursor is the keyword with the given text.
    pub fn at_key(&self, text: &str) -> (r: bool)
        requires
            self.wf(),
        ensures
            r == (kind_at(self.toks(), self.ptr as int) == TokenKind::Key(text@)),
            r ==> self.ptr + 1 < self.tokens.len(),
    {
        self.tokens[self.ptr].ttype.is_key(text)
    }

    /// Whether the token under the cursor is the operator with the given text.
    pub fn at_op(&self, text: &str) -> (r: bool)
        requires
            self.wf(),
        ensures
            r == (kind_at(self.toks(), self.ptr as int) == TokenKind::Op(text@)),
            r ==> self.ptr + 1 < self.tokens.len(),
    {
        self.tokens[self.ptr].ttype.is_op(text)
    }

    /// Whether the token under the cursor is the relational operator with the
    /// given text.
    pub fn at_cond(&self, text: &str) -> (r: bool)
        requires
            self.wf(),
        ensures
            r == (kind_at(self.toks(), self.ptr as int) == TokenKind::Cond(text@)),
            r ==> self.ptr + 1 < self.tokens.len(),
    {
        self.tokens[self.ptr].ttype.is_cond(text)
    }
}

} // verus!
