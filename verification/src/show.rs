use vstd::prelude::*;
use vstd::string::*;
use crate::definitions::{DeclrType, DeclrTypeModel, Token, TokenKind, TokenModel, TokenType};
use crate::expression::{expr_models, lemma_expr_models, Expr, ExprModel, PrimaryExpr};
use crate::parser::token_models;
use crate::statement::{
    lemma_param_models, lemma_statement_models, param_models, statement_models, Statement,
    StatementModel,
};

verus! {

/// A token kind as text: the text it carries, or its sign.
pub open spec fn kind_text(k: TokenKind) -> Seq<char> {
    match k {
        TokenKind::Key(d) => d,
        TokenKind::Op(d) => d,
        TokenKind::Cond(d) => d,
        TokenKind::Id(d) => d,
        TokenKind::Lit(d) => d,
        TokenKind::ParenOpen => "("@,
        TokenKind::ParenClose => ")"@,
        TokenKind::SquareOpen => "["@,
        TokenKind::SquareClose => "]"@,
        TokenKind::CurlyOpen => "{"@,
        TokenKind::CurlyClose => "}"@,
        TokenKind::SemiCol => ";"@,
        TokenKind::Col => ":"@,
        TokenKind::Arrow => "->"@,
        TokenKind::EOF => "EOF"@,
        TokenKind::Comma => ","@,
        TokenKind::Period => "."@,
    }
}

/// A written type as text.
pub open spec fn declr_type_text(t: DeclrTypeModel) -> Seq<char>
    decreases t,
{
    match t {
        DeclrTypeModel::BasicType(token) => kind_text(token.kind),
        DeclrTypeModel::Array(element, size) => "Array of type: "@ + declr_type_text(*element)
            + " Size: "@ + kind_text(size.kind),
        DeclrTypeModel::Pointer(inner) => "Pointer at "@ + declr_type_text(*inner),
    }
}

/// A binary expression as text.
pub open spec fn binary_text(left: Seq<char>, operator: TokenModel, right: Seq<char>) -> Seq<char> {
    "("@ + left + " "@ + kind_text(operator.kind) + " "@ + right + ")"@
}

/// An expression as text.
pub open spec fn expr_text(e: ExprModel) -> Seq<char>
    decreases e,
{
    match e {
        ExprModel::Base => Seq::empty(),
        ExprModel::Assign(l, _, r) => "("@ + expr_text(*l) + " = "@ + expr_text(*r) + ")"@,
        ExprModel::Equality(l, op, r) => binary_text(expr_text(*l), op, expr_text(*r)),
        ExprModel::Comparison(l, op, r) => binary_text(expr_text(*l), op, expr_text(*r)),
        ExprModel::Term(l, op, r) => binary_text(expr_text(*l), op, expr_text(*r)),
        ExprModel::Shift(l, op, r) => binary_text(expr_text(*l), op, expr_text(*r)),
        ExprModel::Unary(op, r) => "("@ + kind_text(op.kind) + " "@ + expr_text(*r) + ")"@,
        ExprModel::Cast(value, to_type) => "("@ + expr_text(*value) + " cast to "@
            + declr_type_text(to_type) + ")"@,
        ExprModel::Ref(op, right) => op.kind.data() + " reference Op on "@ + right.kind.data(),
        ExprModel::FnCall(name, args) => "function call of "@ + kind_text(name.kind)
            + "  params:"@ + args_text(args),
        ExprModel::Grouping(inner) => "("@ + expr_text(*inner) + ")"@,
        ExprModel::Literal(t) => kind_text(t.kind),
        ExprModel::Id(t) => kind_text(t.kind),
        ExprModel::EnumVariant(owner, variant) => "varint "@ + kind_text(variant.kind)
            + " of enum "@ + kind_text(owner.kind),
        ExprModel::StructField(owner, field) => "field "@ + kind_text(field.kind)
            + " of struct "@ + kind_text(owner.kind),
        ExprModel::ArrayAccess(array, index) => "Access of Array "@ + kind_text(array.kind)
            + " at index "@ + expr_text(*index),
    }
}

/// The arguments of a call as text, each on a line of its own.
pub open spec fn args_text(args: Seq<ExprModel>) -> Seq<char>
    decreases args,
{
    if args.len() == 0 {
        Seq::empty()
    } else {
        args_text(args.drop_last()) + "\narg: "@ + expr_text(args.last())
    }
}

/// Parameters as text, each on a line of its own.
pub open spec fn params_text(params: Seq<(TokenModel, DeclrTypeModel)>) -> Seq<char>
    decreases params.len(),
{
    if params.len() == 0 {
        Seq::empty()
    } else {
        params_text(params.drop_last()) + "\nparam name: "@ + kind_text(params.last().0.kind)
            + "   param type: "@ + declr_type_text(params.last().1)
    }
}

/// Variants as text, each on a line of its own.
pub open spec fn variants_text(variants: Seq<TokenModel>) -> Seq<char>
    decreases variants.len(),
{
    if variants.len() == 0 {
        Seq::empty()
    } else {
        variants_text(variants.drop_last()) + "\nvariant: "@ + kind_text(variants.last().kind)
    }
}

/// A statement as text.
pub open spec fn statement_text(s: StatementModel) -> Seq<char>
    decreases s,
{
    match s {
        StatementModel::Base => Seq::empty(),
        StatementModel::Declr => Seq::empty(),
        StatementModel::Stmt => Seq::empty(),
        StatementModel::ExprStmt(e) => "Expression Stmt: "@ + expr_text(e) + ";"@,
        StatementModel::Block(items) => "Block:"@ + items_text(items),
        StatementModel::VarDeclr(name, var_type, value) => "declare "@ + name.kind.data()
            + " type: "@ + declr_type_text(var_type) + " value: "@ + match value {
            Some(e) => expr_text(e),
            None => Seq::empty(),
        },
        StatementModel::LoopStmt(body) => "Loop "@ + statement_text(*body),
        StatementModel::IfStmt(cond, yes, no) => "If "@ + expr_text(cond) + " then "@
            + statement_text(*yes) + "\nelse "@ + match no {
            Some(b) => statement_text(*b),
            None => Seq::empty(),
        },
        StatementModel::WhileStmt(cond, body, _) => "While "@ + expr_text(cond) + " do "@
            + statement_text(*body),
        StatementModel::BreakStmt(_) => "Break"@,
        StatementModel::FnDeclr(d) => "define function: "@ + kind_text(d.name.kind)
            + "   params: "@ + statement_text(d.params) + "  \nret type: "@ + declr_type_text(
            d.ret_type,
        ) + "   body: "@ + statement_text(d.body),
        StatementModel::ReturnStmt(_, value) => "return "@ + expr_text(value),
        StatementModel::Parameters(params) => params_text(params),
        StatementModel::Variant(variants) => variants_text(variants),
        StatementModel::StructDeclr(name, params) => "Declare Struct "@ + kind_text(name.kind)
            + " Params: "@ + statement_text(*params),
        StatementModel::EnumDeclr(name, variants) => "Declare Enum "@ + kind_text(name.kind)
            + " variants: "@ + statement_text(*variants),
    }
}

/// The statements of a block as text, each on a line of its own.
pub open spec fn items_text(items: Seq<StatementModel>) -> Seq<char>
    decreases items,
{
    if items.len() == 0 {
        Seq::empty()
    } else {
        items_text(items.drop_last()) + "\n"@ + statement_text(items.last())
    }
}

/// Text put behind text in one order, however it is grouped.
pub proof fn lemma_join(a: Seq<char>, b: Seq<char>, c: Seq<char>, d: Seq<char>)
    ensures
        a + (b + c + d) == a + b + c + d,
{
    assert(a + (b + c + d) =~= a + b + c + d);
}

/// The text of one more argument.
pub proof fn lemma_args_text_step(args: Seq<ExprModel>, i: int)
    requires
        0 <= i < args.len(),
    ensures
        args_text(args.take(i + 1)) == args_text(args.take(i)) + "\narg: "@ + expr_text(args[i]),
{
    assert(args.take(i + 1).drop_last() =~= args.take(i));
}

/// The text of one more statement of a block.
pub proof fn lemma_items_text_step(items: Seq<StatementModel>, i: int)
    requires
        0 <= i < items.len(),
    ensures
        items_text(items.take(i + 1)) == items_text(items.take(i)) + "\n"@ + statement_text(
            items[i],
        ),
{
    assert(items.take(i + 1).drop_last() =~= items.take(i));
}

impl TokenType {
    /// The token kind as text.
    pub fn to_string(&self) -> (r: String)
        ensures
            r@ == kind_text(self@),
    {
        match self {
            TokenType::Key(d) => d.clone(),
            TokenType::Op(d) => d.clone(),
            TokenType::Cond(d) => d.clone(),
            TokenType::Id(d) => d.clone(),
            TokenType::Lit(d) => d.clone(),
            TokenType::ParenOpen => String::from_str("("),
            TokenType::ParenClose => String::from_str(")"),
            TokenType::SquareOpen => String::from_str("["),
            TokenType::SquareClose => String::from_str("]"),
            TokenType::CurlyOpen => String::from_str("{"),
            TokenType::CurlyClose => String::from_str("}"),
            TokenType::SemiCol => String::from_str(";"),
            TokenType::Col => String::from_str(":"),
            TokenType::Arrow => String::from_str("->"),
            TokenType::EOF => String::from_str("EOF"),
            TokenType::Comma => String::from_str(","),
            TokenType::Period => String::from_str("."),
        }
    }
}

impl DeclrType {
    /// The written type as text.
    pub fn to_string(&self) -> (r: String)
        ensures
            r@ == declr_type_text(self@),
        decreases self,
    {
        match self {
            DeclrType::BasicType(t) => t.ttype.to_string(),
            DeclrType::Array(t, s) => {
                let mut out = String::from_str("Array of type: ");
                out.append(t.to_string().as_str());
                out.append(" Size: ");
                out.append(s.ttype.to_string().as_str());
                out
            },
            DeclrType::Pointer(t) => {
                let mut out = String::from_str("Pointer at ");
                out.append(t.to_string().as_str());
                out
            },
        }
    }
}

/// A binary expression as text.
fn binary_string(left: String, operator: &Token, right: String) -> (r: String)
    ensures
        r@ == binary_text(left@, operator@, right@),
{
    let mut out = String::from_str("(");
    out.append(left.as_str());
    out.append(" ");
    out.append(operator.ttype.to_string().as_str());
    out.append(" ");
    out.append(right.as_str());
    out.append(")");
    out
}

/// The arguments of a call as text, behind what `out` holds.
fn append_args(out: &mut String, args: &Vec<Expr>)
    ensures
        final(out)@ == old(out)@ + args_text(expr_models(args@)),
    decreases args, 0nat,
{
    let ghost ms = expr_models(args@);
    proof {
        lemma_expr_models(args@);
        assert(ms.take(0) =~= Seq::empty());
        assert(old(out)@ + args_text(ms.take(0)) =~= old(out)@);
    }
    let mut i: usize = 0;
    while i < args.len()
        invariant
            0 <= i <= args.len(),
            ms == expr_models(args@),
            ms.len() == args.len(),
            forall|k: int| 0 <= k < args.len() ==> (#[trigger] ms[k]) == args@[k]@,
            out@ == old(out)@ + args_text(ms.take(i as int)),
        decreases args.len() - i,
    {
        let text = args[i].to_string();
        proof {
            lemma_args_text_step(ms, i as int);
            lemma_join(old(out)@, args_text(ms.take(i as int)), "\narg: "@, text@);
        }
        out.append("\narg: ");
        out.append(text.as_str());
        i += 1;
    }
    assert(ms.take(args.len() as int) =~= ms);
}

impl Expr {
    /// The expression as text.
    pub fn to_string(&self) -> (r: String)
        ensures
            r@ == expr_text(self@),
        decreases self, 1nat,
    {
        match self {
            Expr::Base => String::new(),
            Expr::Assign(d) => {
                let mut out = String::from_str("(");
                out.append(d.left.to_string().as_str());
                out.append(" = ");
                out.append(d.right.to_string().as_str());
                out.append(")");
                out
            },
            Expr::Equality(d) => binary_string(d.left.to_string(), &d.operator, d.right.to_string()),
            Expr::Comparison(d) => binary_string(
                d.left.to_string(),
                &d.operator,
                d.right.to_string(),
            ),
            Expr::Term(d) => binary_string(d.left.to_string(), &d.operator, d.right.to_string()),
            Expr::Shift(d) => binary_string(d.left.to_string(), &d.operator, d.right.to_string()),
            Expr::Unary(d) => {
                let mut out = String::from_str("(");
                out.append(d.operator.ttype.to_string().as_str());
                out.append(" ");
                out.append(d.right.to_string().as_str());
                out.append(")");
                out
            },
            Expr::Cast(d) => {
                let mut out = String::from_str("(");
                out.append(d.value.to_string().as_str());
                out.append(" cast to ");
                out.append(d.to_type.to_string().as_str());
                out.append(")");
                out
            },
            Expr::Ref(d) => {
                let mut out = d.operator.data();
                out.append(" reference Op on ");
                out.append(d.right.data().as_str());
                out
            },
            Expr::FnCall(d) => {
                let mut out = String::from_str("function call of ");
                out.append(d.name.ttype.to_string().as_str());
                out.append("  params:");
                append_args(&mut out, &d.args);
                out
            },
            Expr::Primary(d) => match &**d {
                PrimaryExpr::Grouping(v) => {
                    let mut out = String::from_str("(");
                    out.append(v.to_string().as_str());
                    out.append(")");
                    out
                },
                PrimaryExpr::Literal(v) => v.ttype.to_string(),
                PrimaryExpr::Id(v) => v.ttype.to_string(),
                PrimaryExpr::EnumVariant(t1, t2) => {
                    let mut out = String::from_str("varint ");
                    out.append(t2.ttype.to_string().as_str());
                    out.append(" of enum ");
                    out.append(t1.ttype.to_string().as_str());
                    out
                },
                PrimaryExpr::StructField(s, field) => {
                    let mut out = String::from_str("field ");
                    out.append(field.ttype.to_string().as_str());
                    out.append(" of struct ");
                    out.append(s.ttype.to_string().as_str());
                    out
                },
                PrimaryExpr::ArrayAccess(name, index) => {
                    let mut out = String::from_str("Access of Array ");
                    out.append(name.ttype.to_string().as_str());
                    out.append(" at index ");
                    out.append(index.to_string().as_str());
                    out
                },
            },
        }
    }
}

/// Parameters as text.
fn params_string(params: &Vec<(Token, DeclrType)>) -> (r: String)
    ensures
        r@ == params_text(param_models(params@)),
{
    let ghost ms = param_models(params@);
    proof {
        lemma_param_models(params@);
        assert(ms.take(0) =~= Seq::empty());
    }
    let mut out = String::new();
    let mut i: usize = 0;
    while i < params.len()
        invariant
            0 <= i <= params.len(),
            ms == param_models(params@),
            ms.len() == params.len(),
            forall|k: int|
                0 <= k < params.len() ==> (#[trigger] ms[k]) == (params@[k].0@, params@[k].1@),
            out@ == params_text(ms.take(i as int)),
        decreases params.len() - i,
    {
        proof {
            assert(ms.take(i + 1).drop_last() =~= ms.take(i as int));
            assert(ms.take(i + 1).last() == (params@[i as int].0@, params@[i as int].1@));
        }
        out.append("\nparam name: ");
        out.append(params[i].0.ttype.to_string().as_str());
        out.append("   param type: ");
        out.append(params[i].1.to_string().as_str());
        i += 1;
    }
    assert(ms.take(params.len() as int) =~= ms);
    out
}

/// Variants as text.
fn variants_string(variants: &Vec<Token>) -> (r: String)
    ensures
        r@ == variants_text(token_models(variants@)),
{
    let ghost ms = token_models(variants@);
    proof {
        assert(ms.take(0) =~= Seq::empty());
    }
    let mut out = String::new();
    let mut i: usize = 0;
    while i < variants.len()
        invariant
            0 <= i <= variants.len(),
            ms == token_models(variants@),
            out@ == variants_text(ms.take(i as int)),
        decreases variants.len() - i,
    {
        proof {
            assert(ms.take(i + 1).drop_last() =~= ms.take(i as int));
            assert(ms.take(i + 1).last() == variants@[i as int]@);
        }
        out.append("\nvariant: ");
        out.append(variants[i].ttype.to_string().as_str());
        i += 1;
    }
    assert(ms.take(variants.len() as int) =~= ms);
    out
}

/// The statements of a block as text, behind what `out` holds.
fn append_items(out: &mut String, items: &Vec<Statement>)
    ensures
        final(out)@ == old(out)@ + items_text(statement_models(items@)),
    decreases items, 0nat,
{
    let ghost ms = statement_models(items@);
    proof {
        lemma_statement_models(items@);
        assert(ms.take(0) =~= Seq::empty());
        assert(old(out)@ + items_text(ms.take(0)) =~= old(out)@);
    }
    let mut i: usize = 0;
    while i < items.len()
        invariant
            0 <= i <= items.len(),
            ms == statement_models(items@),
            ms.len() == items.len(),
            forall|k: int| 0 <= k < items.len() ==> (#[trigger] ms[k]) == items@[k]@,
            out@ == old(out)@ + items_text(ms.take(i as int)),
        decreases items.len() - i,
    {
        let text = items[i].to_string();
        proof {
            lemma_items_text_step(ms, i as int);
            lemma_join(old(out)@, items_text(ms.take(i as int)), "\n"@, text@);
        }
        out.append("\n");
        out.append(text.as_str());
        i += 1;
    }
    assert(ms.take(items.len() as int) =~= ms);
}

impl Statement {
    /// The statement as text.
    pub fn to_string(&self) -> (r: String)
        ensures
            r@ == statement_text(self@),
        decreases self, 1nat,
    {
        match self {
            Statement::Base => String::new(),
            Statement::Declr => String::new(),
            Statement::Stmt => String::new(),
            Statement::ExprStmt(s) => {
                let mut out = String::from_str("Expression Stmt: ");
                out.append(s.to_string().as_str());
                out.append(";");
                out
            },
            Statement::Block(b) => {
                let mut out = String::from_str("Block:");
                append_items(&mut out, b);
                out
            },
            Statement::VarDeclr(d) => {
                let mut out = String::from_str("declare ");
                out.append(d.name.data().as_str());
                out.append(" type: ");
                out.append(d.var_type.to_string().as_str());
                out.append(" value: ");
                match &d.value {
                    Some(e) => {
                        out.append(e.to_string().as_str());
                    },
                    None => {
                        assert(out@ + Seq::<char>::empty() =~= out@);
                    },
                }
                out
            },
            Statement::LoopStmt(d) => {
                let mut out = String::from_str("Loop ");
                out.append(d.to_string().as_str());
                out
            },
            Statement::IfStmt(d) => {
                let mut out = String::from_str("If ");
                out.append(d.cond.to_string().as_str());
                out.append(" then ");
                out.append(d.true_branch.to_string().as_str());
                out.append("\nelse ");
                match &d.false_branch {
                    Some(b) => {
                        out.append(b.to_string().as_str());
                    },
                    None => {
                        assert(out@ + Seq::<char>::empty() =~= out@);
                    },
                }
                out
            },
            Statement::WhileStmt(d) => {
                let mut out = String::from_str("While ");
                out.append(d.cond.to_string().as_str());
                out.append(" do ");
                out.append(d.true_branch.to_string().as_str());
                out
            },
            Statement::BreakStmt(_) => String::from_str("Break"),
            Statement::FnDeclr(d) => {
                let mut out = String::from_str("define function: ");
                out.append(d.name.ttype.to_string().as_str());
                out.append("   params: ");
                out.append(d.params.to_string().as_str());
                out.append("  \nret type: ");
                out.append(d.ret_type.to_string().as_str());
                out.append("   body: ");
                out.append(d.body.to_string().as_str());
                out
            },
            Statement::ReturnStmt(_, d) => {
                let mut out = String::from_str("return ");
                out.append(d.to_string().as_str());
                out
            },
            Statement::Parameters(d) => params_string(d),
            Statement::Variant(v) => variants_string(v),
            Statement::StructDeclr(s) => {
                let mut out = String::from_str("Declare Struct ");
                out.append(s.name.ttype.to_string().as_str());
                out.append(" Params: ");
                out.append(s.params.to_string().as_str());
                out
            },
            Statement::EnumDeclr(e) => {
                let mut out = String::from_str("Declare Enum ");
                out.append(e.name.ttype.to_string().as_str());
                out.append(" variants: ");
                out.append(e.variants.to_string().as_str());
                out
            },
        }
    }
}

} // verus!
