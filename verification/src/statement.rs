use vstd::prelude::*;
use crate::definitions::{
    blank_token, blank_token_model, parse_type, type_at, DeclrType, DeclrTypeModel, Token,
    TokenKind, TokenModel, TokenType,
};
use crate::expression::{assign_at, parse_assign, Expr, ExprModel};
use crate::parser::{agrees, forward, kind_at, remaining, token_models, Parsed, Parser};
use crate::text::str_eq;

verus! {

/// The mathematical value of a statement.
pub enum StatementModel {
    Base,
    Declr,
    FnDeclr(Box<FnDeclrModel>),
    StructDeclr(TokenModel, Box<StatementModel>),
    EnumDeclr(TokenModel, Box<StatementModel>),
    Parameters(Seq<(TokenModel, DeclrTypeModel)>),
    Variant(Seq<TokenModel>),
    VarDeclr(TokenModel, DeclrTypeModel, Option<ExprModel>),
    Stmt,
    LoopStmt(Box<StatementModel>),
    IfStmt(ExprModel, Box<StatementModel>, Option<Box<StatementModel>>),
    WhileStmt(ExprModel, Box<StatementModel>, Option<Box<StatementModel>>),
    BreakStmt(TokenModel),
    ReturnStmt(TokenModel, ExprModel),
    ExprStmt(ExprModel),
    Block(Seq<StatementModel>),
}

/// The mathematical value of a function declaration.
pub struct FnDeclrModel {
    pub name: TokenModel,
    pub params: StatementModel,
    pub ret_type: DeclrTypeModel,
    pub body: StatementModel,
}

/// A declaration or a statement. `Base`, `Declr` and `Stmt` are
/// placeholders for grammar levels and stand in no parsed program;
/// `Parameters` and `Variant` stand inside declarations only.
#[derive(Debug)]
pub enum Statement {
    Base,
    Declr,
    FnDeclr(Box<FnDeclr>),
    StructDeclr(Box<StructDeclr>),
    EnumDeclr(Box<EnumDeclr>),
    /// Pairs of a name and its type.
    Parameters(Vec<(Token, DeclrType)>),
    Variant(Vec<Token>),
    VarDeclr(VarDeclr),
    Stmt,
    LoopStmt(Box<Statement>),
    IfStmt(Box<CondStmt>),
    WhileStmt(Box<CondStmt>),
    BreakStmt(Token),
    ReturnStmt(Token, Expr),
    ExprStmt(Expr),
    Block(Vec<Statement>),
}

/// The declaration of a variable: its name, its written type and the value
/// it starts with, if any.
#[derive(Debug)]
pub struct VarDeclr {
    pub name: Token,
    pub var_type: DeclrType,
    pub value: Option<Expr>,
}

/// The declaration of a function: its name, its parameters (a parameter
/// list), its written return type and its body.
#[derive(Debug)]
pub struct FnDeclr {
    pub name: Token,
    pub params: Statement,
    pub ret_type: DeclrType,
    pub body: Statement,
}

/// The declaration of a struct: its name and its fields (a parameter list).
#[derive(Debug)]
pub struct StructDeclr {
    pub name: Token,
    pub params: Statement,
}

/// The declaration of an enum: its name and its variants (a list of
/// variants).
#[derive(Debug)]
pub struct EnumDeclr {
    pub name: Token,
    pub variants: Statement,
}

/// A condition and the statements that depend on it. A `while` loop has no
/// second branch.
#[derive(Debug)]
pub struct CondStmt {
    pub cond: Expr,
    pub true_branch: Statement,
    pub false_branch: Option<Statement>,
}

/// The values of a sequence of parameters, in order.
pub open spec fn param_models(ps: Seq<(Token, DeclrType)>) -> Seq<(TokenModel, DeclrTypeModel)>
    decreases ps.len(),
{
    if ps.len() == 0 {
        Seq::empty()
    } else {
        param_models(ps.drop_last()).push((ps.last().0@, ps.last().1@))
    }
}

/// `param_models` takes the value of each parameter in its place.
pub proof fn lemma_param_models(ps: Seq<(Token, DeclrType)>)
    ensures
        param_models(ps).len() == ps.len(),
        forall|i: int|
            0 <= i < ps.len() ==> (#[trigger] param_models(ps)[i]) == (ps[i].0@, ps[i].1@),
    decreases ps.len(),
{
    if ps.len() > 0 {
        lemma_param_models(ps.drop_last());
    }
}

/// The values of a sequence with one more parameter at its end.
pub proof fn lemma_param_models_push(ps: Seq<(Token, DeclrType)>, p: (Token, DeclrType))
    ensures
        param_models(ps.push(p)) == param_models(ps).push((p.0@, p.1@)),
{
    assert(ps.push(p).drop_last() =~= ps);
}

/// The values of a sequence with one more token at its end.
pub proof fn lemma_token_models_push(ts: Seq<Token>, t: Token)
    ensures
        token_models(ts.push(t)) == token_models(ts).push(t@),
{
    assert(token_models(ts.push(t)) =~= token_models(ts).push(t@));
}

/// The value of a statement.
pub open spec fn statement_model(s: Statement) -> StatementModel
    decreases s,
{
    match s {
        Statement::Base => StatementModel::Base,
        Statement::Declr => StatementModel::Declr,
        Statement::FnDeclr(d) => StatementModel::FnDeclr(
            Box::new(
                FnDeclrModel {
                    name: d.name@,
                    params: statement_model(d.params),
                    ret_type: d.ret_type@,
                    body: statement_model(d.body),
                },
            ),
        ),
        Statement::StructDeclr(d) => StatementModel::StructDeclr(
            d.name@,
            Box::new(statement_model(d.params)),
        ),
        Statement::EnumDeclr(d) => StatementModel::EnumDeclr(
            d.name@,
            Box::new(statement_model(d.variants)),
        ),
        Statement::Parameters(v) => StatementModel::Parameters(param_models(v@)),
        Statement::Variant(v) => StatementModel::Variant(token_models(v@)),
        Statement::VarDeclr(d) => StatementModel::VarDeclr(
            d.name@,
            d.var_type@,
            match d.value {
                Some(e) => Some(e@),
                None => None,
            },
        ),
        Statement::Stmt => StatementModel::Stmt,
        Statement::LoopStmt(b) => StatementModel::LoopStmt(Box::new(statement_model(*b))),
        Statement::IfStmt(c) => StatementModel::IfStmt(
            c.cond@,
            Box::new(statement_model(c.true_branch)),
            match c.false_branch {
                Some(f) => Some(Box::new(statement_model(f))),
                None => None,
            },
        ),
        Statement::WhileStmt(c) => StatementModel::WhileStmt(
            c.cond@,
            Box::new(statement_model(c.true_branch)),
            match c.false_branch {
                Some(f) => Some(Box::new(statement_model(f))),
                None => None,
            },
        ),
        Statement::BreakStmt(t) => StatementModel::BreakStmt(t@),
        Statement::ReturnStmt(t, e) => StatementModel::ReturnStmt(t@, e@),
        Statement::ExprStmt(e) => StatementModel::ExprStmt(e@),
        Statement::Block(v) => StatementModel::Block(statement_models(v@)),
    }
}

/// The values of a sequence of statements, in order.
pub open spec fn statement_models(ss: Seq<Statement>) -> Seq<StatementModel>
    decreases ss,
{
    if ss.len() == 0 {
        Seq::empty()
    } else {
        statement_models(ss.drop_last()).push(statement_model(ss.last()))
    }
}

impl View for Statement {
    type V = StatementModel;

    open spec fn view(&self) -> StatementModel {
        statement_model(*self)
    }
}

impl View for FnDeclr {
    type V = FnDeclrModel;

    open spec fn view(&self) -> FnDeclrModel {
        FnDeclrModel {
            name: self.name@,
            params: self.params@,
            ret_type: self.ret_type@,
            body: self.body@,
        }
    }
}

/// `statement_models` takes the value of each statement in its place.
pub proof fn lemma_statement_models(ss: Seq<Statement>)
    ensures
        statement_models(ss).len() == ss.len(),
        forall|i: int| 0 <= i < ss.len() ==> (#[trigger] statement_models(ss)[i]) == ss[i]@,
    decreases ss.len(),
{
    if ss.len() > 0 {
        lemma_statement_models(ss.drop_last());
    }
}

/// The values of a sequence with one more statement at its end.
pub proof fn lemma_statement_models_push(ss: Seq<Statement>, s: Statement)
    ensures
        statement_models(ss.push(s)) == statement_models(ss).push(s@),
{
    assert(ss.push(s).drop_last() =~= ss);
}

impl Statement {
    /// A function declaration.
    pub fn new_fn_declr(name: Token, params: Statement, ret_type: DeclrType, body: Statement) -> (r:
        Statement)
        ensures
            r@ == StatementModel::FnDeclr(
                Box::new(
                    FnDeclrModel { name: name@, params: params@, ret_type: ret_type@, body: body@ },
                ),
            ),
    {
        Statement::FnDeclr(Box::new(FnDeclr { name, params, ret_type, body }))
    }

    /// A struct declaration.
    pub fn new_struct_declr(name: Token, params: Statement) -> (r: Statement)
        ensures
            r@ == StatementModel::StructDeclr(name@, Box::new(params@)),
    {
        Statement::StructDeclr(Box::new(StructDeclr { name, params }))
    }

    /// An enum declaration.
    pub fn new_enum_declr(name: Token, variants: Statement) -> (r: Statement)
        ensures
            r@ == StatementModel::EnumDeclr(name@, Box::new(variants@)),
    {
        Statement::EnumDeclr(Box::new(EnumDeclr { name, variants }))
    }

    /// A parameter list.
    pub fn new_parameters(params: Vec<(Token, DeclrType)>) -> (r: Statement)
        ensures
            r@ == StatementModel::Parameters(param_models(params@)),
    {
        Statement::Parameters(params)
    }

    /// A list of variants.
    pub fn new_variant(variants: Vec<Token>) -> (r: Statement)
        ensures
            r@ == StatementModel::Variant(token_models(variants@)),
    {
        Statement::Variant(variants)
    }

    /// A variable declaration.
    pub fn new_var_declr(name: Token, var_type: DeclrType, value: Option<Expr>) -> (r: Statement)
        ensures
            r@ == StatementModel::VarDeclr(
                name@,
                var_type@,
                match value {
                    Some(e) => Some(e@),
                    None => None,
                },
            ),
    {
        Statement::VarDeclr(VarDeclr { name, var_type, value })
    }

    /// A `loop` with its body.
    pub fn new_loop(body: Statement) -> (r: Statement)
        ensures
            r@ == StatementModel::LoopStmt(Box::new(body@)),
    {
        Statement::LoopStmt(Box::new(body))
    }

    /// A conditional with one branch or two.
    pub fn new_if(cond: Expr, true_branch: Statement, false_branch: Option<Statement>) -> (r:
        Statement)
        ensures
            r@ == StatementModel::IfStmt(
                cond@,
                Box::new(true_branch@),
                match false_branch {
                    Some(f) => Some(Box::new(f@)),
                    None => None,
                },
            ),
    {
        Statement::IfStmt(Box::new(CondStmt { cond, true_branch, false_branch }))
    }

    /// A `while` loop with its body.
    pub fn new_while(cond: Expr, body: Statement) -> (r: Statement)
        ensures
            r@ == StatementModel::WhileStmt(cond@, Box::new(body@), None),
    {
        Statement::WhileStmt(Box::new(CondStmt { cond, true_branch: body, false_branch: None }))
    }

    /// A `break` with its token.
    pub fn new_break(token: Token) -> (r: Statement)
        ensures
            r@ == StatementModel::BreakStmt(token@),
    {
        Statement::BreakStmt(token)
    }

    /// A `return` with its token and its value.
    pub fn new_return(token: Token, value: Expr) -> (r: Statement)
        ensures
            r@ == StatementModel::ReturnStmt(token@, value@),
    {
        Statement::ReturnStmt(token, value)
    }

    /// An expression as a statement.
    pub fn new_expr_stmt(value: Expr) -> (r: Statement)
        ensures
            r@ == StatementModel::ExprStmt(value@),
    {
        Statement::ExprStmt(value)
    }

    /// A block of statements.
    pub fn new_block(items: Vec<Statement>) -> (r: Statement)
        ensures
            r@ == StatementModel::Block(statement_models(items@)),
    {
        Statement::Block(items)
    }
}

/// A copy of a list of tokens.
pub fn clone_tokens(ts: &Vec<Token>) -> (r: Vec<Token>)
    ensures
        token_models(r@) == token_models(ts@),
{
    let mut v: Vec<Token> = Vec::new();
    let mut i: usize = 0;
    while i < ts.len()
        invariant
            0 <= i <= ts.len(),
            v.len() == i,
            forall|j: int| 0 <= j < i ==> (#[trigger] v@[j])@ == ts@[j]@,
        decreases ts.len() - i,
    {
        let c = ts[i].clone();
        v.push(c);
        i += 1;
    }
    assert(token_models(v@) =~= token_models(ts@));
    v
}

/// A copy of a list of parameters.
pub fn clone_params(ps: &Vec<(Token, DeclrType)>) -> (r: Vec<(Token, DeclrType)>)
    ensures
        param_models(r@) == param_models(ps@),
{
    let mut v: Vec<(Token, DeclrType)> = Vec::new();
    let mut i: usize = 0;
    while i < ps.len()
        invariant
            0 <= i <= ps.len(),
            param_models(v@) == param_models(ps@.take(i as int)),
        decreases ps.len() - i,
    {
        let c = (ps[i].0.clone(), ps[i].1.clone());
        proof {
            lemma_param_models_push(v@, c);
            lemma_param_models_push(ps@.take(i as int), ps@[i as int]);
            assert(ps@.take(i as int).push(ps@[i as int]) =~= ps@.take(i + 1));
        }
        v.push(c);
        i += 1;
    }
    assert(ps@.take(ps.len() as int) =~= ps@);
    v
}

/// A copy of a list of statements.
pub fn clone_statements(ss: &Vec<Statement>) -> (r: Vec<Statement>)
    ensures
        statement_models(r@) == statement_models(ss@),
    decreases ss, 0nat,
{
    let mut v: Vec<Statement> = Vec::new();
    let mut i: usize = 0;
    while i < ss.len()
        invariant
            0 <= i <= ss.len(),
            statement_models(v@) == statement_models(ss@.take(i as int)),
        decreases ss.len() - i,
    {
        let c = ss[i].clone();
        proof {
            lemma_statement_models_push(v@, c);
            lemma_statement_models_push(ss@.take(i as int), ss@[i as int]);
            assert(ss@.take(i as int).push(ss@[i as int]) =~= ss@.take(i + 1));
        }
        v.push(c);
        i += 1;
    }
    assert(ss@.take(ss.len() as int) =~= ss@);
    v
}

fn clone_cond(c: &CondStmt) -> (r: CondStmt)
    ensures
        r.cond@ == c.cond@,
        r.true_branch@ == c.true_branch@,
        match (r.false_branch, c.false_branch) {
            (Some(a), Some(b)) => a@ == b@,
            (None, None) => true,
            _ => false,
        },
    decreases c, 0nat,
{
    let false_branch = match &c.false_branch {
        Some(f) => Some(f.clone()),
        None => None,
    };
    CondStmt { cond: c.cond.clone(), true_branch: c.true_branch.clone(), false_branch }
}

impl Clone for Statement {
    fn clone(&self) -> (r: Self)
        ensures
            r@ == self@,
        decreases self, 1nat,
    {
        match self {
            Statement::Base => Statement::Base,
            Statement::Declr => Statement::Declr,
            Statement::FnDeclr(d) => Statement::FnDeclr(
                Box::new(
                    FnDeclr {
                        name: d.name.clone(),
                        params: d.params.clone(),
                        ret_type: d.ret_type.clone(),
                        body: d.body.clone(),
                    },
                ),
            ),
            Statement::StructDeclr(d) => Statement::StructDeclr(
                Box::new(StructDeclr { name: d.name.clone(), params: d.params.clone() }),
            ),
            Statement::EnumDeclr(d) => Statement::EnumDeclr(
                Box::new(EnumDeclr { name: d.name.clone(), variants: d.variants.clone() }),
            ),
            Statement::Parameters(v) => Statement::Parameters(clone_params(v)),
            Statement::Variant(v) => Statement::Variant(clone_tokens(v)),
            Statement::VarDeclr(d) => {
                let value = match &d.value {
                    Some(e) => Some(e.clone()),
                    None => None,
                };
                Statement::VarDeclr(
                    VarDeclr { name: d.name.clone(), var_type: d.var_type.clone(), value },
                )
            },
            Statement::Stmt => Statement::Stmt,
            Statement::LoopStmt(b) => Statement::LoopStmt(Box::new((**b).clone())),
            Statement::IfStmt(c) => Statement::IfStmt(Box::new(clone_cond(c))),
            Statement::WhileStmt(c) => Statement::WhileStmt(Box::new(clone_cond(c))),
            Statement::BreakStmt(t) => Statement::BreakStmt(t.clone()),
            Statement::ReturnStmt(t, e) => Statement::ReturnStmt(t.clone(), e.clone()),
            Statement::ExprStmt(e) => Statement::ExprStmt(e.clone()),
            Statement::Block(v) => Statement::Block(clone_statements(v)),
        }
    }
}

impl Clone for FnDeclr {
    fn clone(&self) -> (r: Self)
        ensures
            r@ == self@,
    {
        FnDeclr {
            name: self.name.clone(),
            params: self.params.clone(),
            ret_type: self.ret_type.clone(),
            body: self.body.clone(),
        }
    }
}

/// One parameter, `name : type`, read from `pos`.
pub open spec fn param_at(toks: Seq<TokenModel>, pos: int) -> Parsed<(TokenModel, DeclrTypeModel)> {
    if !(kind_at(toks, pos) is Id) {
        Parsed::Failed { msg: "Expected Identifier for Parameter Name"@, at: pos }
    } else if kind_at(toks, pos + 1) != TokenKind::Col {
        Parsed::Failed { msg: "Expected Colon after Parameter Name"@, at: pos + 1 }
    } else {
        match type_at(toks, pos + 2) {
            Parsed::Failed { msg, at } => Parsed::Failed { msg, at },
            Parsed::Done { value, next } => Parsed::Done { value: (toks[pos], value), next },
        }
    }
}

/// The rest of a parameter list behind those read so far: while a comma
/// stands at `pos`, one more parameter follows it.
pub open spec fn params_tail(
    toks: Seq<TokenModel>,
    params: Seq<(TokenModel, DeclrTypeModel)>,
    pos: int,
) -> Parsed<Seq<(TokenModel, DeclrTypeModel)>>
    decreases remaining(toks, pos),
{
    if kind_at(toks, pos) == TokenKind::Comma {
        match forward(toks, pos + 1, param_at(toks, pos + 1)) {
            Parsed::Failed { msg, at } => Parsed::Failed { msg, at },
            Parsed::Done { value, next } => params_tail(toks, params.push(value), next),
        }
    } else {
        Parsed::Done { value: params, next: pos }
    }
}

/// A list of one or more parameters between commas.
pub open spec fn params_at(toks: Seq<TokenModel>, pos: int) -> Parsed<StatementModel> {
    match param_at(toks, pos) {
        Parsed::Failed { msg, at } => Parsed::Failed { msg, at },
        Parsed::Done { value, next } => match params_tail(toks, seq![value], next) {
            Parsed::Failed { msg, at } => Parsed::Failed { msg, at },
            Parsed::Done { value: params, next: end } => Parsed::Done {
                value: StatementModel::Parameters(params),
                next: end,
            },
        },
    }
}

/// The rest of a list of variants behind those read so far: while a comma
/// stands at `pos`, one more identifier follows it.
pub open spec fn variants_tail(toks: Seq<TokenModel>, variants: Seq<TokenModel>, pos: int) -> Parsed<
    Seq<TokenModel>,
>
    decreases remaining(toks, pos),
{
    if kind_at(toks, pos) == TokenKind::Comma {
        if kind_at(toks, pos + 1) is Id {
            variants_tail(toks, variants.push(toks[pos + 1]), pos + 2)
        } else {
            Parsed::Failed { msg: "Expected Identifier for Variant Name"@, at: pos + 1 }
        }
    } else {
        Parsed::Done { value: variants, next: pos }
    }
}

/// A list of one or more identifiers between commas.
pub open spec fn variants_at(toks: Seq<TokenModel>, pos: int) -> Parsed<StatementModel> {
    if kind_at(toks, pos) is Id {
        match variants_tail(toks, seq![toks[pos]], pos + 1) {
            Parsed::Failed { msg, at } => Parsed::Failed { msg, at },
            Parsed::Done { value, next } => Parsed::Done {
                value: StatementModel::Variant(value),
                next,
            },
        }
    } else {
        Parsed::Failed { msg: "Expected Identifier for Variant Name"@, at: pos }
    }
}

/// A variable declaration behind `let`: `name : type`, then `= value` or
/// nothing, then `;`.
pub open spec fn var_declr_at(toks: Seq<TokenModel>, pos: int) -> Parsed<StatementModel> {
    if !(kind_at(toks, pos) is Id) {
        Parsed::Failed { msg: "Expected Identifier for Variable Name"@, at: pos }
    } else if kind_at(toks, pos + 1) != TokenKind::Col {
        Parsed::Failed { msg: "Expected Colon After Variable Name"@, at: pos + 1 }
    } else {
        match type_at(toks, pos + 2) {
            Parsed::Failed { msg, at } => Parsed::Failed { msg, at },
            Parsed::Done { value: var_type, next } => if kind_at(toks, next) == TokenKind::Op(
                "="@,
            ) {
                match assign_at(toks, next + 1) {
                    Parsed::Failed { msg, at } => Parsed::Failed { msg, at },
                    Parsed::Done { value, next: end } => if kind_at(toks, end)
                        == TokenKind::SemiCol {
                        Parsed::Done {
                            value: StatementModel::VarDeclr(toks[pos], var_type, Some(value)),
                            next: end + 1,
                        }
                    } else {
                        Parsed::Failed { msg: "Expected Semicolon after Declaration"@, at: end }
                    },
                }
            } else if kind_at(toks, next) == TokenKind::SemiCol {
                Parsed::Done {
                    value: StatementModel::VarDeclr(toks[pos], var_type, None),
                    next: next + 1,
                }
            } else {
                Parsed::Failed { msg: "Expected Semicolon after Declaration"@, at: next }
            },
        }
    }
}

/// A struct declaration behind `struct`: a name and, between braces, a
/// parameter list or nothing.
pub open spec fn struct_declr_at(toks: Seq<TokenModel>, pos: int) -> Parsed<StatementModel> {
    if !(kind_at(toks, pos) is Id) {
        Parsed::Failed { msg: "Expected Identifier for Struct Name"@, at: pos }
    } else if kind_at(toks, pos + 1) != TokenKind::CurlyOpen {
        Parsed::Failed { msg: "Expected Curly Bracket after Struct Name"@, at: pos + 1 }
    } else {
        let fields = if kind_at(toks, pos + 2) != TokenKind::CurlyClose {
            params_at(toks, pos + 2)
        } else {
            Parsed::Done { value: StatementModel::Parameters(Seq::empty()), next: pos + 2 }
        };
        match fields {
            Parsed::Failed { msg, at } => Parsed::Failed { msg, at },
            Parsed::Done { value, next } => if kind_at(toks, next) != TokenKind::CurlyClose {
                Parsed::Failed {
                    msg: "Expected Closing Curly Bracket after Struct Declaration"@,
                    at: next,
                }
            } else {
                Parsed::Done {
                    value: StatementModel::StructDeclr(toks[pos], Box::new(value)),
                    next: next + 1,
                }
            },
        }
    }
}

/// An enum declaration behind `enum`: a name and, between braces, a list of
/// variants or nothing.
pub open spec fn enum_declr_at(toks: Seq<TokenModel>, pos: int) -> Parsed<StatementModel> {
    if !(kind_at(toks, pos) is Id) {
        Parsed::Failed { msg: "Expected Identifier for Enum Name"@, at: pos }
    } else if kind_at(toks, pos + 1) != TokenKind::CurlyOpen {
        Parsed::Failed { msg: "Expected Curly Bracket after Enum Name"@, at: pos + 1 }
    } else {
        let variants = if kind_at(toks, pos + 2) != TokenKind::CurlyClose {
            variants_at(toks, pos + 2)
        } else {
            Parsed::Done { value: StatementModel::Variant(Seq::empty()), next: pos + 2 }
        };
        match variants {
            Parsed::Failed { msg, at } => Parsed::Failed { msg, at },
            Parsed::Done { value, next } => if kind_at(toks, next) != TokenKind::CurlyClose {
                Parsed::Failed {
                    msg: "Expected Closing Curly Bracket after Enum Declaration"@,
                    at: next,
                }
            } else {
                Parsed::Done {
                    value: StatementModel::EnumDeclr(toks[pos], Box::new(value)),
                    next: next + 1,
                }
            },
        }
    }
}

/// The head of a function declaration behind `fn`, up to and with the brace
/// that opens the body: the name, the parameters between parentheses, `->`
/// and the return type.
pub open spec fn fn_head_at(toks: Seq<TokenModel>, pos: int) -> Parsed<
    (TokenModel, StatementModel, DeclrTypeModel),
> {
    if !(kind_at(toks, pos) is Id) {
        Parsed::Failed { msg: "Expected Identifier for Function Name"@, at: pos }
    } else if kind_at(toks, pos + 1) != TokenKind::ParenOpen {
        Parsed::Failed { msg: "Expected Opening Parentheses after Function Name"@, at: pos + 1 }
    } else {
        let params = if kind_at(toks, pos + 2) != TokenKind::ParenClose {
            params_at(toks, pos + 2)
        } else {
            Parsed::Done { value: StatementModel::Parameters(Seq::empty()), next: pos + 2 }
        };
        match params {
            Parsed::Failed { msg, at } => Parsed::Failed { msg, at },
            Parsed::Done { value, next } => if kind_at(toks, next) != TokenKind::ParenClose {
                Parsed::Failed {
                    msg: "Expected Closing Parentheses after Function Declaration"@,
                    at: next,
                }
            } else if kind_at(toks, next + 1) != TokenKind::Arrow {
                Parsed::Failed { msg: "Expected Arrow to Denote Function Type"@, at: next + 1 }
            } else {
                match type_at(toks, next + 2) {
                    Parsed::Failed { msg, at } => Parsed::Failed { msg, at },
                    Parsed::Done { value: ret_type, next: end } => if kind_at(toks, end)
                        != TokenKind::CurlyOpen {
                        Parsed::Failed {
                            msg: "Expected Opening Curly Brace for Function Body"@,
                            at: end,
                        }
                    } else {
                        Parsed::Done { value: (toks[pos], value, ret_type), next: end + 1 }
                    },
                }
            },
        }
    }
}

/// What stands behind `return`: an expression and `;`. The statement holds
/// the `return` token, which stands before `pos`.
pub open spec fn return_at(toks: Seq<TokenModel>, pos: int) -> Parsed<StatementModel> {
    match assign_at(toks, pos) {
        Parsed::Failed { msg, at } => Parsed::Failed { msg, at },
        Parsed::Done { value, next } => if kind_at(toks, next) == TokenKind::SemiCol {
            Parsed::Done { value: StatementModel::ReturnStmt(toks[pos - 1], value), next: next + 1 }
        } else {
            Parsed::Failed { msg: "Expected Semicolon after Return Statement"@, at: next }
        },
    }
}

/// The declaration level: `let`, `fn`, `struct` and `enum` start a
/// declaration; anything else is read at the statement level.
pub open spec fn statement_at(toks: Seq<TokenModel>, pos: int) -> Parsed<StatementModel>
    decreases remaining(toks, pos), 2nat,
{
    let k = kind_at(toks, pos);
    if k == TokenKind::Key("let"@) {
        var_declr_at(toks, pos + 1)
    } else if k == TokenKind::Key("fn"@) {
        fn_declr_at(toks, pos + 1)
    } else if k == TokenKind::Key("struct"@) {
        struct_declr_at(toks, pos + 1)
    } else if k == TokenKind::Key("enum"@) {
        enum_declr_at(toks, pos + 1)
    } else {
        stmt_at(toks, pos)
    }
}

/// The statement level: a block behind `{`; `loop`, `if`, `while`; `break`
/// and `;`; `return` with an expression and `;`; else an expression and
/// `;`.
pub open spec fn stmt_at(toks: Seq<TokenModel>, pos: int) -> Parsed<StatementModel>
    decreases remaining(toks, pos), 1nat,
{
    let k = kind_at(toks, pos);
    if k == TokenKind::CurlyOpen {
        block_at(toks, pos + 1)
    } else if k == TokenKind::Key("loop"@) {
        loop_at(toks, pos + 1)
    } else if k == TokenKind::Key("if"@) {
        if_at(toks, pos + 1)
    } else if k == TokenKind::Key("while"@) {
        while_at(toks, pos + 1)
    } else if k == TokenKind::Key("break"@) {
        if kind_at(toks, pos + 1) == TokenKind::SemiCol {
            Parsed::Done { value: StatementModel::BreakStmt(toks[pos]), next: pos + 2 }
        } else {
            Parsed::Failed { msg: "Expected Semicolon after Break"@, at: pos + 1 }
        }
    } else if k == TokenKind::Key("return"@) {
        return_at(toks, pos + 1)
    } else {
        match assign_at(toks, pos) {
            Parsed::Failed { msg, at } => Parsed::Failed { msg, at },
            Parsed::Done { value, next } => if kind_at(toks, next) == TokenKind::SemiCol {
                Parsed::Done { value: StatementModel::ExprStmt(value), next: next + 1 }
            } else {
                Parsed::Failed {
                    msg: "Expected Semicolon after Expression Statement"@,
                    at: next,
                }
            },
        }
    }
}

/// The statements of a block from `pos` up to and with the closing brace,
/// behind those read so far. End of input before the brace is an error.
pub open spec fn block_items(toks: Seq<TokenModel>, items: Seq<StatementModel>, pos: int) -> Parsed<
    Seq<StatementModel>,
>
    decreases remaining(toks, pos), 3nat,
{
    let k = kind_at(toks, pos);
    if k == TokenKind::CurlyClose {
        Parsed::Done { value: items, next: pos + 1 }
    } else if k == TokenKind::EOF {
        Parsed::Failed { msg: "Expected Closing Curly Bracket"@, at: pos }
    } else {
        match forward(toks, pos, statement_at(toks, pos)) {
            Parsed::Failed { msg, at } => Parsed::Failed { msg, at },
            Parsed::Done { value, next } => block_items(toks, items.push(value), next),
        }
    }
}

/// A block behind its opening brace.
pub open spec fn block_at(toks: Seq<TokenModel>, pos: int) -> Parsed<StatementModel>
    decreases remaining(toks, pos), 4nat,
{
    match block_items(toks, Seq::empty(), pos) {
        Parsed::Failed { msg, at } => Parsed::Failed { msg, at },
        Parsed::Done { value, next } => Parsed::Done { value: StatementModel::Block(value), next },
    }
}

/// What stands behind `loop`: a block.
pub open spec fn loop_at(toks: Seq<TokenModel>, pos: int) -> Parsed<StatementModel>
    decreases remaining(toks, pos), 5nat,
{
    if kind_at(toks, pos) != TokenKind::CurlyOpen {
        Parsed::Failed { msg: "Expected Block after Loop Statement"@, at: pos }
    } else {
        match block_at(toks, pos + 1) {
            Parsed::Failed { msg, at } => Parsed::Failed { msg, at },
            Parsed::Done { value, next } => Parsed::Done {
                value: StatementModel::LoopStmt(Box::new(value)),
                next,
            },
        }
    }
}

/// What stands behind `if`: a condition, a block, and behind `else` a
/// second block.
pub open spec fn if_at(toks: Seq<TokenModel>, pos: int) -> Parsed<StatementModel>
    decreases remaining(toks, pos), 5nat,
{
    match forward(toks, pos, assign_at(toks, pos)) {
        Parsed::Failed { msg, at } => Parsed::Failed { msg, at },
        Parsed::Done { value: cond, next } => if kind_at(toks, next) != TokenKind::CurlyOpen {
            Parsed::Failed { msg: "Expected Block after If Statement"@, at: next }
        } else {
            match forward(toks, next + 1, block_at(toks, next + 1)) {
                Parsed::Failed { msg, at } => Parsed::Failed { msg, at },
                Parsed::Done { value: true_branch, next: mid } => if kind_at(toks, mid)
                    == TokenKind::Key("else"@) {
                    if kind_at(toks, mid + 1) != TokenKind::CurlyOpen {
                        Parsed::Failed {
                            msg: "Expected Block After Else Statement"@,
                            at: mid + 1,
                        }
                    } else {
                        match block_at(toks, mid + 2) {
                            Parsed::Failed { msg, at } => Parsed::Failed { msg, at },
                            Parsed::Done { value: false_branch, next: end } => Parsed::Done {
                                value: StatementModel::IfStmt(
                                    cond,
                                    Box::new(true_branch),
                                    Some(Box::new(false_branch)),
                                ),
                                next: end,
                            },
                        }
                    }
                } else {
                    Parsed::Done {
                        value: StatementModel::IfStmt(cond, Box::new(true_branch), None),
                        next: mid,
                    }
                },
            }
        },
    }
}

/// What stands behind `while`: a condition and a block.
pub open spec fn while_at(toks: Seq<TokenModel>, pos: int) -> Parsed<StatementModel>
    decreases remaining(toks, pos), 5nat,
{
    match forward(toks, pos, assign_at(toks, pos)) {
        Parsed::Failed { msg, at } => Parsed::Failed { msg, at },
        Parsed::Done { value: cond, next } => if kind_at(toks, next) != TokenKind::CurlyOpen {
            Parsed::Failed { msg: "Expected Curly Brace after While Statement"@, at: next }
        } else {
            match block_at(toks, next + 1) {
                Parsed::Failed { msg, at } => Parsed::Failed { msg, at },
                Parsed::Done { value: body, next: end } => Parsed::Done {
                    value: StatementModel::WhileStmt(cond, Box::new(body), None),
                    next: end,
                },
            }
        },
    }
}

/// A function declaration behind `fn`: its head and its body, a block.
pub open spec fn fn_declr_at(toks: Seq<TokenModel>, pos: int) -> Parsed<StatementModel>
    decreases remaining(toks, pos), 5nat,
{
    match forward(toks, pos, fn_head_at(toks, pos)) {
        Parsed::Failed { msg, at } => Parsed::Failed { msg, at },
        Parsed::Done { value: head, next } => match block_at(toks, next) {
            Parsed::Failed { msg, at } => Parsed::Failed { msg, at },
            Parsed::Done { value: body, next: end } => Parsed::Done {
                value: StatementModel::FnDeclr(
                    Box::new(
                        FnDeclrModel { name: head.0, params: head.1, ret_type: head.2, body },
                    ),
                ),
                next: end,
            },
        },
    }
}

/// The statements of a program from `pos` up to the end of input, behind
/// those read so far.
pub open spec fn program_items(toks: Seq<TokenModel>, items: Seq<StatementModel>, pos: int) -> Parsed<
    Seq<StatementModel>,
>
    decreases remaining(toks, pos),
{
    if kind_at(toks, pos) == TokenKind::EOF {
        Parsed::Done { value: items, next: pos }
    } else {
        match forward(toks, pos, statement_at(toks, pos)) {
            Parsed::Failed { msg, at } => Parsed::Failed { msg, at },
            Parsed::Done { value, next } => program_items(toks, items.push(value), next),
        }
    }
}

/// A whole program: statements up to the end of input.
pub open spec fn program_at(toks: Seq<TokenModel>, pos: int) -> Parsed<Seq<StatementModel>> {
    program_items(toks, Seq::empty(), pos)
}

/// A list of statements and the cursor's place behind it say what the
/// grammar says.
pub open spec fn agrees_items(
    r: Result<Vec<Statement>, &'static str>,
    end: usize,
    expected: Parsed<Seq<StatementModel>>,
) -> bool {
    match r {
        Ok(v) => expected == (Parsed::Done { value: statement_models(v@), next: end as int }),
        Err(m) => expected == (Parsed::<Seq<StatementModel>>::Failed { msg: m@, at: end as int }),
    }
}

/// Reads one parameter, `name : type`, at the cursor.
fn parse_param(p: &mut Parser) -> (r: Result<(Token, DeclrType), &'static str>)
    requires
        old(p).wf(),
    ensures
        final(p).stepped(*old(p), r is Ok),
        match r {
            Ok(v) => param_at(old(p).toks(), old(p).ptr as int) == (Parsed::Done {
                value: (v.0@, v.1@),
                next: final(p).ptr as int,
            }),
            Err(m) => param_at(old(p).toks(), old(p).ptr as int) == (Parsed::<
                (TokenModel, DeclrTypeModel),
            >::Failed { msg: m@, at: final(p).ptr as int }),
        },
{
    if !p.at_id() {
        return Err("Expected Identifier for Parameter Name");
    }
    let name = p.peek(0);
    p.advance();
    if !p.at(&TokenType::Col) {
        return Err("Expected Colon after Parameter Name");
    }
    p.advance();
    let param_type = match parse_type(p) {
        Ok(v) => v,
        Err(m) => {
            return Err(m);
        },
    };
    Ok((name, param_type))
}

/// Reads a list of one or more parameters at the cursor.
fn parse_params(p: &mut Parser) -> (r: Result<Statement, &'static str>)
    requires
        old(p).wf(),
    ensures
        final(p).stepped(*old(p), r is Ok),
        agrees(r, final(p).ptr, params_at(old(p).toks(), old(p).ptr as int)),
{
    let ghost toks = p.toks();
    let ghost start = p.ptr as int;
    let mut params: Vec<(Token, DeclrType)> = Vec::new();
    let first = match parse_param(p) {
        Ok(v) => v,
        Err(m) => {
            return Err(m);
        },
    };
    proof {
        lemma_param_models_push(params@, first);
        assert(param_models(params@.push(first)) =~= seq![(first.0@, first.1@)]);
    }
    params.push(first);
    let ghost after_first = p.ptr as int;
    let ghost head = param_models(params@);
    loop
        invariant
            p.stepped(*old(p), true),
            toks == old(p).toks(),
            start == old(p).ptr,
            param_at(toks, start) == (Parsed::Done { value: head[0], next: after_first }),
            head == seq![head[0]],
            params_tail(toks, head, after_first) == params_tail(
                toks,
                param_models(params@),
                p.ptr as int,
            ),
        decreases p.tokens.len() - p.ptr,
    {
        if !p.at(&TokenType::Comma) {
            return Ok(Statement::new_parameters(params));
        }
        p.advance();
        let next = match parse_param(p) {
            Ok(v) => v,
            Err(m) => {
                return Err(m);
            },
        };
        proof {
            lemma_param_models_push(params@, next);
        }
        params.push(next);
    }
}

/// Reads a list of one or more variants at the cursor.
fn parse_variants(p: &mut Parser) -> (r: Result<Statement, &'static str>)
    requires
        old(p).wf(),
    ensures
        final(p).stepped(*old(p), r is Ok),
        agrees(r, final(p).ptr, variants_at(old(p).toks(), old(p).ptr as int)),
{
    let ghost toks = p.toks();
    let ghost start = p.ptr as int;
    let mut variants: Vec<Token> = Vec::new();
    if !p.at_id() {
        return Err("Expected Identifier for Variant Name");
    }
    let first = p.peek(0);
    p.advance();
    proof {
        lemma_token_models_push(variants@, first);
        assert(token_models(variants@.push(first)) =~= seq![first@]);
    }
    variants.push(first);
    let ghost head = token_models(variants@);
    loop
        invariant
            p.stepped(*old(p), true),
            toks == old(p).toks(),
            start == old(p).ptr,
            kind_at(toks, start) is Id,
            head == seq![toks[start]],
            variants_tail(toks, head, start + 1) == variants_tail(
                toks,
                token_models(variants@),
                p.ptr as int,
            ),
        decreases p.tokens.len() - p.ptr,
    {
        if !p.at(&TokenType::Comma) {
            return Ok(Statement::new_variant(variants));
        }
        p.advance();
        if !p.at_id() {
            return Err("Expected Identifier for Variant Name");
        }
        let next = p.peek(0);
        p.advance();
        proof {
            lemma_token_models_push(variants@, next);
        }
        variants.push(next);
    }
}

/// Reads a variable declaration behind `let`.
fn parse_var_declr(p: &mut Parser) -> (r: Result<Statement, &'static str>)
    requires
        old(p).wf(),
    ensures
        final(p).stepped(*old(p), r is Ok),
        agrees(r, final(p).ptr, var_declr_at(old(p).toks(), old(p).ptr as int)),
{
    if !p.at_id() {
        return Err("Expected Identifier for Variable Name");
    }
    let name = p.peek(0);
    p.advance();
    if !p.at(&TokenType::Col) {
        return Err("Expected Colon After Variable Name");
    }
    p.advance();
    let var_type = match parse_type(p) {
        Ok(v) => v,
        Err(m) => {
            return Err(m);
        },
    };
    let mut value: Option<Expr> = None;
    if p.at_op("=") {
        p.advance();
        let v = match parse_assign(p) {
            Ok(v) => v,
            Err(m) => {
                return Err(m);
            },
        };
        value = Some(v);
    }
    if !p.at(&TokenType::SemiCol) {
        return Err("Expected Semicolon after Declaration");
    }
    p.advance();
    Ok(Statement::new_var_declr(name, var_type, value))
}

/// Reads a struct declaration behind `struct`.
fn parse_struct_declr(p: &mut Parser) -> (r: Result<Statement, &'static str>)
    requires
        old(p).wf(),
    ensures
        final(p).stepped(*old(p), r is Ok),
        agrees(r, final(p).ptr, struct_declr_at(old(p).toks(), old(p).ptr as int)),
{
    if !p.at_id() {
        return Err("Expected Identifier for Struct Name");
    }
    let name = p.peek(0);
    p.advance();
    if !p.at(&TokenType::CurlyOpen) {
        return Err("Expected Curly Bracket after Struct Name");
    }
    p.advance();
    let params = if !p.at(&TokenType::CurlyClose) {
        match parse_params(p) {
            Ok(v) => v,
            Err(m) => {
                return Err(m);
            },
        }
    } else {
        empty_parameters()
    };
    if !p.at(&TokenType::CurlyClose) {
        return Err("Expected Closing Curly Bracket after Struct Declaration");
    }
    p.advance();
    Ok(Statement::new_struct_declr(name, params))
}

/// Reads an enum declaration behind `enum`.
fn parse_enum_declr(p: &mut Parser) -> (r: Result<Statement, &'static str>)
    requires
        old(p).wf(),
    ensures
        final(p).stepped(*old(p), r is Ok),
        agrees(r, final(p).ptr, enum_declr_at(old(p).toks(), old(p).ptr as int)),
{
    if !p.at_id() {
        return Err("Expected Identifier for Enum Name");
    }
    let name = p.peek(0);
    p.advance();
    if !p.at(&TokenType::CurlyOpen) {
        return Err("Expected Curly Bracket after Enum Name");
    }
    p.advance();
    let variants = if !p.at(&TokenType::CurlyClose) {
        match parse_variants(p) {
            Ok(v) => v,
            Err(m) => {
                return Err(m);
            },
        }
    } else {
        empty_variant()
    };
    if !p.at(&TokenType::CurlyClose) {
        return Err("Expected Closing Curly Bracket after Enum Declaration");
    }
    p.advance();
    Ok(Statement::new_enum_declr(name, variants))
}

/// A parameter list that holds nothing.
fn empty_parameters() -> (r: Statement)
    ensures
        r@ == StatementModel::Parameters(Seq::empty()),
{
    Statement::new_parameters(Vec::new())
}

/// A list of variants that holds nothing.
fn empty_variant() -> (r: Statement)
    ensures
        r@ == StatementModel::Variant(Seq::empty()),
{
    let v: Vec<Token> = Vec::new();
    assert(token_models(v@) =~= Seq::<TokenModel>::empty());
    Statement::new_variant(v)
}

/// A block that holds nothing.
fn empty_block() -> (r: Statement)
    ensures
        r@ == StatementModel::Block(Seq::empty()),
{
    Statement::new_block(Vec::new())
}

/// Reads the head of a function declaration behind `fn`, up to and with the
/// brace that opens the body.
fn parse_fn_head(p: &mut Parser) -> (r: Result<(Token, Statement, DeclrType), &'static str>)
    requires
        old(p).wf(),
    ensures
        final(p).stepped(*old(p), r is Ok),
        match r {
            Ok(v) => fn_head_at(old(p).toks(), old(p).ptr as int) == (Parsed::Done {
                value: (v.0@, v.1@, v.2@),
                next: final(p).ptr as int,
            }),
            Err(m) => fn_head_at(old(p).toks(), old(p).ptr as int) == (Parsed::<
                (TokenModel, StatementModel, DeclrTypeModel),
            >::Failed { msg: m@, at: final(p).ptr as int }),
        },
{
    if !p.at_id() {
        return Err("Expected Identifier for Function Name");
    }
    let name = p.peek(0);
    p.advance();
    if !p.at(&TokenType::ParenOpen) {
        return Err("Expected Opening Parentheses after Function Name");
    }
    p.advance();
    let params = if !p.at(&TokenType::ParenClose) {
        match parse_params(p) {
            Ok(v) => v,
            Err(m) => {
                return Err(m);
            },
        }
    } else {
        empty_parameters()
    };
    if !p.at(&TokenType::ParenClose) {
        return Err("Expected Closing Parentheses after Function Declaration");
    }
    p.advance();
    if !p.at(&TokenType::Arrow) {
        return Err("Expected Arrow to Denote Function Type");
    }
    p.advance();
    let ret_type = match parse_type(p) {
        Ok(v) => v,
        Err(m) => {
            return Err(m);
        },
    };
    if !p.at(&TokenType::CurlyOpen) {
        return Err("Expected Opening Curly Brace for Function Body");
    }
    p.advance();
    Ok((name, params, ret_type))
}

/// Reads what stands behind `return`.
fn parse_return(p: &mut Parser) -> (r: Result<Statement, &'static str>)
    requires
        old(p).wf(),
        old(p).ptr > 0,
    ensures
        final(p).stepped(*old(p), r is Ok),
        agrees(r, final(p).ptr, return_at(old(p).toks(), old(p).ptr as int)),
{
    let token = p.peek(-1);
    let value = match parse_assign(p) {
        Ok(v) => v,
        Err(m) => {
            return Err(m);
        },
    };
    if !p.at(&TokenType::SemiCol) {
        return Err("Expected Semicolon after Return Statement");
    }
    p.advance();
    Ok(Statement::new_return(token, value))
}

/// Reads a declaration or a statement at the cursor.
pub(crate) fn parse_statement(p: &mut Parser) -> (r: Result<Statement, &'static str>)
    requires
        old(p).wf(),
    ensures
        final(p).stepped(*old(p), r is Ok),
        agrees(r, final(p).ptr, statement_at(old(p).toks(), old(p).ptr as int)),
    decreases old(p).tokens.len() - old(p).ptr, 2nat,
{
    if p.at_key("let") {
        p.advance();
        parse_var_declr(p)
    } else if p.at_key("fn") {
        p.advance();
        parse_fn_declr(p)
    } else if p.at_key("struct") {
        p.advance();
        parse_struct_declr(p)
    } else if p.at_key("enum") {
        p.advance();
        parse_enum_declr(p)
    } else {
        parse_stmt(p)
    }
}

/// Reads a statement at the cursor.
pub(crate) fn parse_stmt(p: &mut Parser) -> (r: Result<Statement, &'static str>)
    requires
        old(p).wf(),
    ensures
        final(p).stepped(*old(p), r is Ok),
        agrees(r, final(p).ptr, stmt_at(old(p).toks(), old(p).ptr as int)),
    decreases old(p).tokens.len() - old(p).ptr, 1nat,
{
    if p.at(&TokenType::CurlyOpen) {
        p.advance();
        parse_block(p)
    } else if p.at_key("loop") {
        p.advance();
        parse_loop(p)
    } else if p.at_key("if") {
        p.advance();
        parse_if(p)
    } else if p.at_key("while") {
        p.advance();
        parse_while(p)
    } else if p.at_key("break") {
        let token = p.peek(0);
        p.advance();
        if p.at(&TokenType::SemiCol) {
            p.advance();
            Ok(Statement::new_break(token))
        } else {
            Err("Expected Semicolon after Break")
        }
    } else if p.at_key("return") {
        p.advance();
        parse_return(p)
    } else {
        let value = match parse_assign(p) {
            Ok(v) => v,
            Err(m) => {
                return Err(m);
            },
        };
        if !p.at(&TokenType::SemiCol) {
            return Err("Expected Semicolon after Expression Statement");
        }
        p.advance();
        Ok(Statement::new_expr_stmt(value))
    }
}

/// Reads the statements of a block up to and with its closing brace, and
/// puts them behind `items`.
pub(crate) fn parse_block_items(p: &mut Parser, before: Vec<Statement>) -> (r: Result<
    Vec<Statement>,
    &'static str,
>)
    requires
        old(p).wf(),
    ensures
        final(p).stepped(*old(p), r is Ok),
        agrees_items(
            r,
            final(p).ptr,
            block_items(old(p).toks(), statement_models(before@), old(p).ptr as int),
        ),
    decreases old(p).tokens.len() - old(p).ptr, 3nat,
{
    let ghost toks = p.toks();
    let ghost start = p.ptr as int;
    let ghost given = statement_models(before@);
    let mut items = before;
    loop
        invariant
            p.stepped(*old(p), false),
            given == statement_models(before@),
            toks == old(p).toks(),
            start == old(p).ptr,
            block_items(toks, given, start) == block_items(
                toks,
                statement_models(items@),
                p.ptr as int,
            ),
        decreases p.tokens.len() - p.ptr,
    {
        if p.at(&TokenType::CurlyClose) {
            p.advance();
            return Ok(items);
        }
        if p.at(&TokenType::EOF) {
            return Err("Expected Closing Curly Bracket");
        }
        let s = match parse_statement(p) {
            Ok(v) => v,
            Err(m) => {
                return Err(m);
            },
        };
        proof {
            lemma_statement_models_push(items@, s);
        }
        items.push(s);
    }
}

/// Reads a block behind its opening brace.
pub(crate) fn parse_block(p: &mut Parser) -> (r: Result<Statement, &'static str>)
    requires
        old(p).wf(),
    ensures
        final(p).stepped(*old(p), r is Ok),
        agrees(r, final(p).ptr, block_at(old(p).toks(), old(p).ptr as int)),
    decreases old(p).tokens.len() - old(p).ptr, 4nat,
{
    match parse_block_items(p, Vec::new()) {
        Ok(items) => Ok(Statement::new_block(items)),
        Err(m) => Err(m),
    }
}

/// Reads what stands behind `loop`.
pub(crate) fn parse_loop(p: &mut Parser) -> (r: Result<Statement, &'static str>)
    requires
        old(p).wf(),
    ensures
        final(p).stepped(*old(p), r is Ok),
        agrees(r, final(p).ptr, loop_at(old(p).toks(), old(p).ptr as int)),
    decreases old(p).tokens.len() - old(p).ptr, 5nat,
{
    if !p.at(&TokenType::CurlyOpen) {
        return Err("Expected Block after Loop Statement");
    }
    p.advance();
    let body = match parse_block(p) {
        Ok(v) => v,
        Err(m) => {
            return Err(m);
        },
    };
    Ok(Statement::new_loop(body))
}

/// Reads what stands behind `if`.
pub(crate) fn parse_if(p: &mut Parser) -> (r: Result<Statement, &'static str>)
    requires
        old(p).wf(),
    ensures
        final(p).stepped(*old(p), r is Ok),
        agrees(r, final(p).ptr, if_at(old(p).toks(), old(p).ptr as int)),
    decreases old(p).tokens.len() - old(p).ptr, 5nat,
{
    let cond = match parse_assign(p) {
        Ok(v) => v,
        Err(m) => {
            return Err(m);
        },
    };
    if !p.at(&TokenType::CurlyOpen) {
        return Err("Expected Block after If Statement");
    }
    p.advance();
    let true_branch = match parse_block(p) {
        Ok(v) => v,
        Err(m) => {
            return Err(m);
        },
    };
    if p.at_key("else") {
        p.advance();
        if !p.at(&TokenType::CurlyOpen) {
            return Err("Expected Block After Else Statement");
        }
        p.advance();
        let false_branch = match parse_block(p) {
            Ok(v) => v,
            Err(m) => {
                return Err(m);
            },
        };
        Ok(Statement::new_if(cond, true_branch, Some(false_branch)))
    } else {
        Ok(Statement::new_if(cond, true_branch, None))
    }
}

/// Reads what stands behind `while`.
pub(crate) fn parse_while(p: &mut Parser) -> (r: Result<Statement, &'static str>)
    requires
        old(p).wf(),
    ensures
        final(p).stepped(*old(p), r is Ok),
        agrees(r, final(p).ptr, while_at(old(p).toks(), old(p).ptr as int)),
    decreases old(p).tokens.len() - old(p).ptr, 5nat,
{
    let cond = match parse_assign(p) {
        Ok(v) => v,
        Err(m) => {
            return Err(m);
        },
    };
    if !p.at(&TokenType::CurlyOpen) {
        return Err("Expected Curly Brace after While Statement");
    }
    p.advance();
    let body = match parse_block(p) {
        Ok(v) => v,
        Err(m) => {
            return Err(m);
        },
    };
    Ok(Statement::new_while(cond, body))
}

/// Reads a function declaration behind `fn`.
pub(crate) fn parse_fn_declr(p: &mut Parser) -> (r: Result<Statement, &'static str>)
    requires
        old(p).wf(),
    ensures
        final(p).stepped(*old(p), r is Ok),
        agrees(r, final(p).ptr, fn_declr_at(old(p).toks(), old(p).ptr as int)),
    decreases old(p).tokens.len() - old(p).ptr, 5nat,
{
    let head = match parse_fn_head(p) {
        Ok(v) => v,
        Err(m) => {
            return Err(m);
        },
    };
    let body = match parse_block(p) {
        Ok(v) => v,
        Err(m) => {
            return Err(m);
        },
    };
    Ok(Statement::new_fn_declr(head.0, head.1, head.2, body))
}

/// Reads statements up to the end of input.
pub(crate) fn parse_program(p: &mut Parser) -> (r: Result<Vec<Statement>, &'static str>)
    requires
        old(p).wf(),
    ensures
        final(p).stepped(*old(p), false),
        agrees_items(r, final(p).ptr, program_at(old(p).toks(), old(p).ptr as int)),
{
    let ghost toks = p.toks();
    let ghost start = p.ptr as int;
    let mut program: Vec<Statement> = Vec::new();
    loop
        invariant
            p.stepped(*old(p), false),
            toks == old(p).toks(),
            start == old(p).ptr,
            program_at(toks, start) == program_items(
                toks,
                statement_models(program@),
                p.ptr as int,
            ),
        decreases p.tokens.len() - p.ptr,
    {
        if p.at(&TokenType::EOF) {
            return Ok(program);
        }
        let s = match parse_statement(p) {
            Ok(v) => v,
            Err(m) => {
                return Err(m);
            },
        };
        proof {
            lemma_statement_models_push(program@, s);
        }
        program.push(s);
    }
}

/// The placeholder of a function declaration.
pub open spec fn blank_fn_declr_model() -> StatementModel {
    StatementModel::FnDeclr(
        Box::new(
            FnDeclrModel {
                name: blank_token_model(),
                params: StatementModel::Base,
                ret_type: DeclrTypeModel::BasicType(blank_token_model()),
                body: StatementModel::Base,
            },
        ),
    )
}

/// The placeholder of a conditional: no condition, an empty block, no second
/// branch.
pub open spec fn blank_if_model() -> StatementModel {
    StatementModel::IfStmt(
        ExprModel::Base,
        Box::new(StatementModel::Block(Seq::empty())),
        None,
    )
}

/// The placeholder of a `while` loop.
pub open spec fn blank_while_model() -> StatementModel {
    StatementModel::WhileStmt(
        ExprModel::Base,
        Box::new(StatementModel::Block(Seq::empty())),
        None,
    )
}

/// The tags that name a grammar level of statements.
pub open spec fn is_statement_tag(tag: Seq<char>) -> bool {
    tag == "Base"@ || tag == "Declr"@ || tag == "FnDeclr"@ || tag == "StructDeclr"@ || tag
        == "EnumDeclr"@ || tag == "Params"@ || tag == "Variant"@ || tag == "VarDeclr"@ || tag
        == "Stmt"@ || tag == "ExprStmt"@ || tag == "Block"@ || tag == "LoopStmt"@ || tag
        == "IfStmt"@ || tag == "WhileStmt"@ || tag == "BreakStmt"@ || tag == "ReturnStmt"@
}

/// The placeholder statement that stands for the grammar level named by
/// `tag`: a statement of the level's variant with blank tokens, no
/// expressions and empty lists.
pub open spec fn statement_placeholder(tag: Seq<char>) -> StatementModel {
    if tag == "Base"@ {
        StatementModel::Base
    } else if tag == "Declr"@ {
        StatementModel::Declr
    } else if tag == "FnDeclr"@ {
        blank_fn_declr_model()
    } else if tag == "StructDeclr"@ {
        StatementModel::StructDeclr(blank_token_model(), Box::new(StatementModel::Base))
    } else if tag == "EnumDeclr"@ {
        StatementModel::EnumDeclr(blank_token_model(), Box::new(StatementModel::Base))
    } else if tag == "Params"@ {
        StatementModel::Parameters(Seq::empty())
    } else if tag == "Variant"@ {
        StatementModel::Variant(Seq::empty())
    } else if tag == "VarDeclr"@ {
        StatementModel::VarDeclr(
            blank_token_model(),
            DeclrTypeModel::BasicType(blank_token_model()),
            None,
        )
    } else if tag == "Stmt"@ {
        StatementModel::Stmt
    } else if tag == "ExprStmt"@ {
        StatementModel::ExprStmt(ExprModel::Base)
    } else if tag == "Block"@ {
        StatementModel::Block(Seq::empty())
    } else if tag == "LoopStmt"@ {
        StatementModel::LoopStmt(Box::new(StatementModel::Block(Seq::empty())))
    } else if tag == "IfStmt"@ {
        blank_if_model()
    } else if tag == "WhileStmt"@ {
        blank_while_model()
    } else if tag == "BreakStmt"@ {
        StatementModel::BreakStmt(blank_token_model())
    } else {
        StatementModel::ReturnStmt(blank_token_model(), ExprModel::Base)
    }
}

/// The placeholder statement for the grammar level that `t` names.
pub fn new_statement(t: &'static str) -> (r: Statement)
    requires
        is_statement_tag(t@),
    ensures
        r@ == statement_placeholder(t@),
{
    if str_eq(t, "Base") {
        Statement::Base
    } else if str_eq(t, "Declr") {
        Statement::Declr
    } else if str_eq(t, "FnDeclr") {
        Statement::new_fn_declr(
            blank_token(),
            Statement::Base,
            DeclrType::BasicType(blank_token()),
            Statement::Base,
        )
    } else if str_eq(t, "StructDeclr") {
        Statement::new_struct_declr(blank_token(), Statement::Base)
    } else if str_eq(t, "EnumDeclr") {
        Statement::new_enum_declr(blank_token(), Statement::Base)
    } else if str_eq(t, "Params") {
        empty_parameters()
    } else if str_eq(t, "Variant") {
        empty_variant()
    } else if str_eq(t, "VarDeclr") {
        Statement::new_var_declr(blank_token(), DeclrType::BasicType(blank_token()), None)
    } else if str_eq(t, "Stmt") {
        Statement::Stmt
    } else if str_eq(t, "ExprStmt") {
        Statement::new_expr_stmt(Expr::Base)
    } else if str_eq(t, "Block") {
        empty_block()
    } else if str_eq(t, "LoopStmt") {
        Statement::new_loop(empty_block())
    } else if str_eq(t, "IfStmt") {
        Statement::new_if(Expr::Base, empty_block(), None)
    } else if str_eq(t, "WhileStmt") {
        Statement::new_while(Expr::Base, empty_block())
    } else if str_eq(t, "BreakStmt") {
        Statement::new_break(blank_token())
    } else {
        Statement::new_return(blank_token(), Expr::Base)
    }
}

/// The levels of the statement grammar.
#[derive(Debug, Clone, Copy, PartialEq, Eq)]
pub enum StmtLevel {
    Declaration,
    Statement,
    FnDeclr,
    StructDeclr,
    EnumDeclr,
    Parameters,
    Variant,
    VarDeclr,
    Loop,
    If,
    While,
    Return,
    Block,
}

/// The grammar level that the variant of a statement names. A `break` and
/// an expression statement name none: they are read at the statement level
/// only.
pub open spec fn stmt_level_of(s: StatementModel) -> Option<StmtLevel> {
    match s {
        StatementModel::Base => Some(StmtLevel::Declaration),
        StatementModel::Declr => Some(StmtLevel::Declaration),
        StatementModel::FnDeclr(..) => Some(StmtLevel::FnDeclr),
        StatementModel::StructDeclr(..) => Some(StmtLevel::StructDeclr),
        StatementModel::EnumDeclr(..) => Some(StmtLevel::EnumDeclr),
        StatementModel::Parameters(..) => Some(StmtLevel::Parameters),
        StatementModel::Variant(..) => Some(StmtLevel::Variant),
        StatementModel::VarDeclr(..) => Some(StmtLevel::VarDeclr),
        StatementModel::Stmt => Some(StmtLevel::Statement),
        StatementModel::LoopStmt(..) => Some(StmtLevel::Loop),
        StatementModel::IfStmt(..) => Some(StmtLevel::If),
        StatementModel::WhileStmt(..) => Some(StmtLevel::While),
        StatementModel::BreakStmt(..) => None,
        StatementModel::ReturnStmt(..) => Some(StmtLevel::Return),
        StatementModel::ExprStmt(..) => None,
        StatementModel::Block(..) => Some(StmtLevel::Block),
    }
}

/// The statements that a block holds; of any other statement, none.
pub open spec fn items_of(s: StatementModel) -> Seq<StatementModel> {
    match s {
        StatementModel::Block(items) => items,
        _ => Seq::empty(),
    }
}

/// What the grammar makes of the tokens from `pos` on at a level. At the
/// block level the statements read are put behind `items`.
pub open spec fn stmt_level_at(
    level: StmtLevel,
    items: Seq<StatementModel>,
    toks: Seq<TokenModel>,
    pos: int,
) -> Parsed<StatementModel> {
    match level {
        StmtLevel::Declaration => statement_at(toks, pos),
        StmtLevel::Statement => stmt_at(toks, pos),
        StmtLevel::FnDeclr => fn_declr_at(toks, pos),
        StmtLevel::StructDeclr => struct_declr_at(toks, pos),
        StmtLevel::EnumDeclr => enum_declr_at(toks, pos),
        StmtLevel::Parameters => params_at(toks, pos),
        StmtLevel::Variant => variants_at(toks, pos),
        StmtLevel::VarDeclr => var_declr_at(toks, pos),
        StmtLevel::Loop => loop_at(toks, pos),
        StmtLevel::If => if_at(toks, pos),
        StmtLevel::While => while_at(toks, pos),
        StmtLevel::Return => return_at(toks, pos),
        StmtLevel::Block => match block_items(toks, items, pos) {
            Parsed::Failed { msg, at } => Parsed::Failed { msg, at },
            Parsed::Done { value, next } => Parsed::Done {
                value: StatementModel::Block(value),
                next,
            },
        },
    }
}

/// What the grammar makes of the tokens from `pos` on at the level that the
/// variant of `level` names, for a variant that names one.
pub open spec fn statement_as(level: StatementModel, toks: Seq<TokenModel>, pos: int) -> Parsed<
    StatementModel,
> {
    stmt_level_at(stmt_level_of(level)->Some_0, items_of(level), toks, pos)
}

/// Reads a statement at the cursor at the given level; at the block level
/// the statements read are put behind `before`.
fn parse_at_stmt_level(level: StmtLevel, before: Vec<Statement>, p: &mut Parser) -> (r: Result<
    Statement,
    &'static str,
>)
    requires
        old(p).wf(),
        level == StmtLevel::Return ==> old(p).ptr > 0,
    ensures
        final(p).stepped(*old(p), r is Ok),
        agrees(
            r,
            final(p).ptr,
            stmt_level_at(level, statement_models(before@), old(p).toks(), old(p).ptr as int),
        ),
{
    match level {
        StmtLevel::Declaration => parse_statement(p),
        StmtLevel::Statement => parse_stmt(p),
        StmtLevel::FnDeclr => parse_fn_declr(p),
        StmtLevel::StructDeclr => parse_struct_declr(p),
        StmtLevel::EnumDeclr => parse_enum_declr(p),
        StmtLevel::Parameters => parse_params(p),
        StmtLevel::Variant => parse_variants(p),
        StmtLevel::VarDeclr => parse_var_declr(p),
        StmtLevel::Loop => parse_loop(p),
        StmtLevel::If => parse_if(p),
        StmtLevel::While => parse_while(p),
        StmtLevel::Return => parse_return(p),
        StmtLevel::Block => match parse_block_items(p, before) {
            Ok(items) => Ok(Statement::new_block(items)),
            Err(m) => Err(m),
        },
    }
}

impl Statement {
    /// The grammar level that the variant of the statement names, if any.
    pub fn level(&self) -> (r: Option<StmtLevel>)
        ensures
            r == stmt_level_of(self@),
    {
        match self {
            Statement::Base => Some(StmtLevel::Declaration),
            Statement::Declr => Some(StmtLevel::Declaration),
            Statement::FnDeclr(_) => Some(StmtLevel::FnDeclr),
            Statement::StructDeclr(_) => Some(StmtLevel::StructDeclr),
            Statement::EnumDeclr(_) => Some(StmtLevel::EnumDeclr),
            Statement::Parameters(_) => Some(StmtLevel::Parameters),
            Statement::Variant(_) => Some(StmtLevel::Variant),
            Statement::VarDeclr(_) => Some(StmtLevel::VarDeclr),
            Statement::Stmt => Some(StmtLevel::Statement),
            Statement::LoopStmt(_) => Some(StmtLevel::Loop),
            Statement::IfStmt(_) => Some(StmtLevel::If),
            Statement::WhileStmt(_) => Some(StmtLevel::While),
            Statement::BreakStmt(_) => None,
            Statement::ReturnStmt(_, _) => Some(StmtLevel::Return),
            Statement::ExprStmt(_) => None,
            Statement::Block(_) => Some(StmtLevel::Block),
        }
    }

    /// A copy of the statements that a block holds; of any other statement,
    /// an empty list.
    pub fn items(&self) -> (r: Vec<Statement>)
        ensures
            statement_models(r@) == items_of(self@),
    {
        match self {
            Statement::Block(v) => clone_statements(v),
            _ => Vec::new(),
        }
    }

    /// A copy of the parameters that a parameter list holds.
    pub fn get_param_vec(&self) -> (r: Vec<(Token, DeclrType)>)
        requires
            self@ is Parameters,
        ensures
            param_models(r@) == self@->Parameters_0,
    {
        match self {
            Statement::Parameters(d) => clone_params(d),
            _ => unreached(),
        }
    }

    /// Reads a statement at the cursor, at the grammar level that the
    /// variant of `self` names; a block keeps the statements it holds and
    /// gets those read put behind them. On success `self` becomes the
    /// statement read, which is also returned, and the cursor stands behind
    /// it. On failure `self` is unchanged and the cursor stands on the token
    /// that was not expected.
    pub fn parse(&mut self, p: &mut Parser) -> (r: Result<Statement, &'static str>)
        requires
            old(p).wf(),
            stmt_level_of(old(self)@) is Some,
            old(self)@ is ReturnStmt ==> old(p).ptr > 0,
        ensures
            final(p).stepped(*old(p), r is Ok),
            agrees(r, final(p).ptr, statement_as(old(self)@, old(p).toks(), old(p).ptr as int)),
            r is Ok ==> final(self)@ == r->Ok_0@,
            r is Err ==> final(self)@ == old(self)@,
    {
        let level = self.level().unwrap();
        let before = self.items();
        match parse_at_stmt_level(level, before, p) {
            Ok(s) => {
                *self = s.clone();
                Ok(s)
            },
            Err(m) => Err(m),
        }
    }
}

/// Parsing is a function of the tokens: two runs from the same place over
/// streams with the same token values end at the same place, with
/// statements of the same value or with the same message.
pub proof fn lemma_parse_is_deterministic(
    first: Seq<TokenModel>,
    second: Seq<TokenModel>,
    pos: int,
    r1: Result<Vec<Statement>, &'static str>,
    end1: usize,
    r2: Result<Vec<Statement>, &'static str>,
    end2: usize,
)
    requires
        first == second,
        agrees_items(r1, end1, program_at(first, pos)),
        agrees_items(r2, end2, program_at(second, pos)),
    ensures
        end1 == end2,
        r1 is Ok <==> r2 is Ok,
        r1 is Ok ==> statement_models(r1->Ok_0@) == statement_models(r2->Ok_0@),
        r1 is Err ==> r1->Err_0@ == r2->Err_0@,
{
}

} // verus!
