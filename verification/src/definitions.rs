use vstd::prelude::*;
use vstd::string::*;
use vstd::std_specs::cmp::PartialEqSpecImpl;
use crate::parser::{Parser, Parsed, kind_at, remaining, agrees};
use crate::text::string_is;

verus! {

/// The mathematical value of a token kind: the text of a data-carrying kind
/// is a sequence of characters.
pub enum TokenKind {
    Key(Seq<char>),
    Op(Seq<char>),
    Cond(Seq<char>),
    Id(Seq<char>),
    Lit(Seq<char>),
    ParenOpen,
    ParenClose,
    SquareOpen,
    SquareClose,
    CurlyOpen,
    CurlyClose,
    SemiCol,
    Col,
    Comma,
    Period,
    Arrow,
    EOF,
}

impl TokenKind {
    /// Whether the kind carries text.
    pub open spec fn has_data(self) -> bool {
        self is Key || self is Op || self is Cond || self is Id || self is Lit
    }

    /// The text of a data-carrying kind; empty for the others.
    pub open spec fn data(self) -> Seq<char> {
        match self {
            TokenKind::Key(d) => d,
            TokenKind::Op(d) => d,
            TokenKind::Cond(d) => d,
            TokenKind::Id(d) => d,
            TokenKind::Lit(d) => d,
            _ => Seq::empty(),
        }
    }
}

/// The mathematical value of a token.
pub struct TokenModel {
    pub kind: TokenKind,
    pub pos: usize,
}

/// The kind of a token: a keyword, an operator, a relational operator, an
/// identifier or a literal with its text, a punctuation sign, or the end of
/// input.
#[derive(Debug)]
pub enum TokenType {
    Key(String),
    Op(String),
    Cond(String),
    Id(String),
    Lit(String),
    ParenOpen,
    ParenClose,
    SquareOpen,
    SquareClose,
    CurlyOpen,
    CurlyClose,
    SemiCol,
    Col,
    Comma,
    Period,
    Arrow,
    EOF,
}

impl View for TokenType {
    type V = TokenKind;

    open spec fn view(&self) -> TokenKind {
        match self {
            TokenType::Key(d) => TokenKind::Key(d@),
            TokenType::Op(d) => TokenKind::Op(d@),
            TokenType::Cond(d) => TokenKind::Cond(d@),
            TokenType::Id(d) => TokenKind::Id(d@),
            TokenType::Lit(d) => TokenKind::Lit(d@),
            TokenType::ParenOpen => TokenKind::ParenOpen,
            TokenType::ParenClose => TokenKind::ParenClose,
            TokenType::SquareOpen => TokenKind::SquareOpen,
            TokenType::SquareClose => TokenKind::SquareClose,
            TokenType::CurlyOpen => TokenKind::CurlyOpen,
            TokenType::CurlyClose => TokenKind::CurlyClose,
            TokenType::SemiCol => TokenKind::SemiCol,
            TokenType::Col => TokenKind::Col,
            TokenType::Comma => TokenKind::Comma,
            TokenType::Period => TokenKind::Period,
            TokenType::Arrow => TokenKind::Arrow,
            TokenType::EOF => TokenKind::EOF,
        }
    }
}

impl Clone for TokenType {
    fn clone(&self) -> (r: Self)
        ensures
            r@ == self@,
    {
        match self {
            TokenType::Key(d) => TokenType::Key(d.clone()),
            TokenType::Op(d) => TokenType::Op(d.clone()),
            TokenType::Cond(d) => TokenType::Cond(d.clone()),
            TokenType::Id(d) => TokenType::Id(d.clone()),
            TokenType::Lit(d) => TokenType::Lit(d.clone()),
            TokenType::ParenOpen => TokenType::ParenOpen,
            TokenType::ParenClose => TokenType::ParenClose,
            TokenType::SquareOpen => TokenType::SquareOpen,
            TokenType::SquareClose => TokenType::SquareClose,
            TokenType::CurlyOpen => TokenType::CurlyOpen,
            TokenType::CurlyClose => TokenType::CurlyClose,
            TokenType::SemiCol => TokenType::SemiCol,
            TokenType::Col => TokenType::Col,
            TokenType::Comma => TokenType::Comma,
            TokenType::Period => TokenType::Period,
            TokenType::Arrow => TokenType::Arrow,
            TokenType::EOF => TokenType::EOF,
        }
    }
}

impl PartialEq for TokenType {
    fn eq(&self, other: &Self) -> (r: bool) {
        match (self, other) {
            (TokenType::Key(a), TokenType::Key(b)) => *a == *b,
            (TokenType::Op(a), TokenType::Op(b)) => *a == *b,
            (TokenType::Cond(a), TokenType::Cond(b)) => *a == *b,
            (TokenType::Id(a), TokenType::Id(b)) => *a == *b,
            (TokenType::Lit(a), TokenType::Lit(b)) => *a == *b,
            (TokenType::ParenOpen, TokenType::ParenOpen) => true,
            (TokenType::ParenClose, TokenType::ParenClose) => true,
            (TokenType::SquareOpen, TokenType::SquareOpen) => true,
            (TokenType::SquareClose, TokenType::SquareClose) => true,
            (TokenType::CurlyOpen, TokenType::CurlyOpen) => true,
            (TokenType::CurlyClose, TokenType::CurlyClose) => true,
            (TokenType::SemiCol, TokenType::SemiCol) => true,
            (TokenType::Col, TokenType::Col) => true,
            (TokenType::Comma, TokenType::Comma) => true,
            (TokenType::Period, TokenType::Period) => true,
            (TokenType::Arrow, TokenType::Arrow) => true,
            (TokenType::EOF, TokenType::EOF) => true,
            _ => false,
        }
    }
}

impl PartialEqSpecImpl for TokenType {
    open spec fn obeys_eq_spec() -> bool {
        true
    }

    open spec fn eq_spec(&self, other: &Self) -> bool {
        self@ == other@
    }
}

impl TokenType {
    /// The text that the kind carries; empty where it carries none.
    pub fn data(&self) -> (r: String)
        ensures
            r@ == self@.data(),
    {
        match self {
            TokenType::Key(d) => d.clone(),
            TokenType::Op(d) => d.clone(),
            TokenType::Cond(d) => d.clone(),
            TokenType::Id(d) => d.clone(),
            TokenType::Lit(d) => d.clone(),
            _ => String::new(),
        }
    }
}

/// A token: its kind and the byte offset at which it starts in the source.
#[derive(Debug)]
pub struct Token {
    pub ttype: TokenType,
    pub pos: usize,
}

impl View for Token {
    type V = TokenModel;

    open spec fn view(&self) -> TokenModel {
        TokenModel { kind: self.ttype@, pos: self.pos }
    }
}

impl Clone for Token {
    fn clone(&self) -> (r: Self)
        ensures
            r@ == self@,
    {
        Token { ttype: self.ttype.clone(), pos: self.pos }
    }
}

impl Token {
    /// The text that the token carries; empty where it carries none.
    pub fn data(&self) -> (r: String)
        ensures
            r@ == self@.kind.data(),
    {
        self.ttype.data()
    }
}


impl TokenType {
    /// Whether this is the keyword with the given text.
    pub fn is_key(&self, text: &str) -> (r: bool)
        ensures
            r == (self@ == TokenKind::Key(text@)),
    {
        match self {
            TokenType::Key(d) => string_is(d, text),
            _ => false,
        }
    }

    /// Whether this is the operator with the given text.
    pub fn is_op(&self, text: &str) -> (r: bool)
        ensures
            r == (self@ == TokenKind::Op(text@)),
    {
        match self {
            TokenType::Op(d) => string_is(d, text),
            _ => false,
        }
    }

    /// Whether this is the relational operator with the given text.
    pub fn is_cond(&self, text: &str) -> (r: bool)
        ensures
            r == (self@ == TokenKind::Cond(text@)),
    {
        match self {
            TokenType::Cond(d) => string_is(d, text),
            _ => false,
        }
    }
}

/// The token that stands in the placeholders of the grammar levels: an arrow
/// at offset zero.
pub open spec fn blank_token_model() -> TokenModel {
    TokenModel { kind: TokenKind::Arrow, pos: 0 }
}

/// The token that stands in the placeholders of the grammar levels.
pub fn blank_token() -> (r: Token)
    ensures
        r@ == blank_token_model(),
{
    Token { ttype: TokenType::Arrow, pos: 0 }
}

/// The mathematical value of a type as it is written in source.
pub enum DeclrTypeModel {
    BasicType(TokenModel),
    Array(Box<DeclrTypeModel>, TokenModel),
    Pointer(Box<DeclrTypeModel>),
}

impl DeclrTypeModel {
    /// The token that names the innermost type.
    pub open spec fn token(self) -> TokenModel
        decreases self,
    {
        match self {
            DeclrTypeModel::BasicType(t) => t,
            DeclrTypeModel::Array(inner, _) => inner.token(),
            DeclrTypeModel::Pointer(inner) => inner.token(),
        }
    }
}

/// A type as it is written in source: a name, an array of a type with its
/// size literal, or a pointer to a type.
#[derive(Debug)]
pub enum DeclrType {
    BasicType(Token),
    Array(Box<DeclrType>, Token),
    Pointer(Box<DeclrType>),
}

/// The value of a written type.
pub open spec fn declr_type_model(t: DeclrType) -> DeclrTypeModel
    decreases t,
{
    match t {
        DeclrType::BasicType(tok) => DeclrTypeModel::BasicType(tok@),
        DeclrType::Array(inner, size) => DeclrTypeModel::Array(
            Box::new(declr_type_model(*inner)),
            size@,
        ),
        DeclrType::Pointer(inner) => DeclrTypeModel::Pointer(Box::new(declr_type_model(*inner))),
    }
}

impl View for DeclrType {
    type V = DeclrTypeModel;

    open spec fn view(&self) -> DeclrTypeModel {
        declr_type_model(*self)
    }
}

impl Clone for DeclrType {
    fn clone(&self) -> (r: Self)
        ensures
            r@ == self@,
        decreases self,
    {
        match self {
            DeclrType::BasicType(tok) => DeclrType::BasicType(tok.clone()),
            DeclrType::Array(inner, size) => {
                let i = (**inner).clone();
                DeclrType::Array(Box::new(i), size.clone())
            },
            DeclrType::Pointer(inner) => {
                let i = (**inner).clone();
                DeclrType::Pointer(Box::new(i))
            },
        }
    }
}

impl DeclrType {
    /// The token that names the innermost type: that of a basic type, or of
    /// what an array holds or a pointer points to.
    pub fn get_token(&self) -> (r: Token)
        ensures
            r@ == self@.token(),
        decreases self,
    {
        match self {
            DeclrType::BasicType(t) => t.clone(),
            DeclrType::Array(t, _) => t.get_token(),
            DeclrType::Pointer(t) => t.get_token(),
        }
    }
}

/// The type grammar, read from the token at `pos`: an identifier is a basic
/// type; `[` type `;` literal `]` is an array; the keyword `@` before a type
/// is a pointer to it.
pub open spec fn type_at(toks: Seq<TokenModel>, pos: int) -> Parsed<DeclrTypeModel>
    decreases remaining(toks, pos),
{
    let k = kind_at(toks, pos);
    if k is Id {
        Parsed::Done { value: DeclrTypeModel::BasicType(toks[pos]), next: pos + 1 }
    } else if k == TokenKind::SquareOpen {
        match type_at(toks, pos + 1) {
            Parsed::Failed { msg, at } => Parsed::Failed { msg, at },
            Parsed::Done { value, next } => {
                if kind_at(toks, next) != TokenKind::SemiCol {
                    Parsed::Failed { msg: "Expected Semicolon after Array Type"@, at: next }
                } else if !(kind_at(toks, next + 1) is Lit) {
                    Parsed::Failed { msg: "Expected Literal for Array Size"@, at: next + 1 }
                } else if kind_at(toks, next + 2) != TokenKind::SquareClose {
                    Parsed::Failed {
                        msg: "Expected Closing Square Bracket after Array Size"@,
                        at: next + 2,
                    }
                } else {
                    Parsed::Done {
                        value: DeclrTypeModel::Array(Box::new(value), toks[next + 1]),
                        next: next + 3,
                    }
                }
            },
        }
    } else if k == TokenKind::Key("@"@) {
        match type_at(toks, pos + 1) {
            Parsed::Failed { msg, at } => Parsed::Failed { msg, at },
            Parsed::Done { value, next } => Parsed::Done {
                value: DeclrTypeModel::Pointer(Box::new(value)),
                next,
            },
        }
    } else {
        Parsed::Failed { msg: "Cannot Parse Type"@, at: pos }
    }
}

/// Reads one type at the cursor. On success the cursor stands behind the
/// type; on failure it stands on the token that was not expected.
pub fn parse_type(p: &mut Parser) -> (r: Result<DeclrType, &'static str>)
    requires
        old(p).wf(),
    ensures
        final(p).stepped(*old(p), r is Ok),
        agrees(r, final(p).ptr, type_at(old(p).toks(), old(p).ptr as int)),
    decreases old(p).tokens.len() - old(p).ptr,
{
    if p.at_id() {
        let t = p.peek(0);
        p.advance();
        Ok(DeclrType::BasicType(t))
    } else if p.at(&TokenType::SquareOpen) {
        p.advance();
        let array_type = match parse_type(p) {
            Ok(t) => t,
            Err(m) => { return Err(m); },
        };
        if !p.at(&TokenType::SemiCol) {
            return Err("Expected Semicolon after Array Type");
        }
        p.advance();
        if !p.at_lit() {
            return Err("Expected Literal for Array Size");
        }
        let array_size = p.peek(0);
        p.advance();
        if !p.at(&TokenType::SquareClose) {
            return Err("Expected Closing Square Bracket after Array Size");
        }
        p.advance();
        Ok(DeclrType::Array(Box::new(array_type), array_size))
    } else if p.at_key("@") {
        p.advance();
        let points_to = match parse_type(p) {
            Ok(t) => t,
            Err(m) => { return Err(m); },
        };
        Ok(DeclrType::Pointer(Box::new(points_to)))
    } else {
        Err("Cannot Parse Type")
    }
}

} // verus!
