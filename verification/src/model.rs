//! The syntax tree as plain values: texts are character sequences, lists are
//! sequences, and a parameter map is the sequence of its entries. The
//! grammar is stated over these.
use vstd::prelude::*;

use crate::ast::{AstNode, Expr, FunctionParameter, Literal, Stmt, VarDecl};
use crate::lexer::{Operator, TypeDefinition};
use crate::tables::parameter_entries;

verus! {

pub enum ExprView {
    Literal(Literal),
    Identifier(Seq<char>),
    BinaryOp { left: Box<ExprView>, op: Operator, right: Box<ExprView> },
    FunctionCall { name: Seq<char>, args: Seq<ExprView> },
    NewLine,
}

pub struct VarDeclView {
    pub name: Seq<char>,
    pub type_def: TypeDefinition,
    pub value: Option<ExprView>,
}

pub enum NodeView {
    Program(Seq<StmtView>),
    Stmt(Box<StmtView>),
}

pub struct FunctionView {
    pub name: Seq<char>,
    pub body: Box<NodeView>,
    pub params: Seq<(Seq<char>, FunctionParameter)>,
    pub return_type: Option<TypeDefinition>,
}

#[allow(inconsistent_fields)]
pub enum StmtView {
    VarDecl(VarDeclView),
    VarsDecl(Seq<VarDeclView>),
    Assign { name: Seq<char>, value: ExprView },
    Alg(FunctionView),
    Condition { condition: ExprView, left: Box<NodeView>, right: Option<Box<NodeView>> },
    Loop { condition: Option<ExprView>, body: Box<NodeView> },
    ForLoop { var: Seq<char>, start: ExprView, end: ExprView, body: Box<NodeView> },
    RepeatLoop { condition: Option<ExprView>, count: ExprView, body: Box<NodeView> },
    Output { values: Seq<ExprView> },
    FunctionCall { name: Seq<char>, args: Seq<ExprView> },
    ImportNamespace(Seq<char>),
    Break,
}

pub open spec fn expr_view(expr: Expr) -> ExprView
    decreases expr,
{
    match expr {
        Expr::Literal(literal) => ExprView::Literal(literal),
        Expr::Identifier(name) => ExprView::Identifier(name@),
        Expr::BinaryOp(operation) => ExprView::BinaryOp {
            left: Box::new(expr_view(*operation.left)),
            op: operation.op,
            right: Box::new(expr_view(*operation.right)),
        },
        Expr::FunctionCall(call) => ExprView::FunctionCall {
            name: call.name@,
            args: exprs_view(call.args@),
        },
        Expr::NewLine => ExprView::NewLine,
    }
}

pub open spec fn exprs_view(exprs: Seq<Expr>) -> Seq<ExprView>
    decreases exprs,
{
    Seq::new(
        exprs.len(),
        |i: int|
            if 0 <= i < exprs.len() {
                expr_view(exprs[i])
            } else {
                ExprView::NewLine
            },
    )
}

pub open spec fn option_expr_view(expr: Option<Expr>) -> Option<ExprView> {
    match expr {
        Some(expr) => Some(expr_view(expr)),
        None => None,
    }
}

pub open spec fn decl_view(declaration: VarDecl) -> VarDeclView {
    VarDeclView {
        name: declaration.name@,
        type_def: declaration.type_def,
        value: option_expr_view(declaration.value),
    }
}

pub open spec fn decls_view(declarations: Seq<VarDecl>) -> Seq<VarDeclView> {
    Seq::new(declarations.len(), |i: int| decl_view(declarations[i]))
}

pub open spec fn stmt_view(stmt: Stmt) -> StmtView
    decreases stmt,
{
    match stmt {
        Stmt::VarDecl(declaration) => StmtView::VarDecl(decl_view(declaration)),
        Stmt::VarsDecl(declarations) => StmtView::VarsDecl(decls_view(declarations@)),
        Stmt::Assign { name, value } => StmtView::Assign { name: name@, value: expr_view(value) },
        Stmt::Alg(function) => StmtView::Alg(
            FunctionView {
                name: function.name@,
                body: Box::new(node_view(*function.body)),
                params: parameter_entries(function.params),
                return_type: function.return_type,
            },
        ),
        Stmt::Condition(condition) => StmtView::Condition {
            condition: expr_view(condition.condition),
            left: Box::new(node_view(*condition.left)),
            right: match condition.right {
                Some(right) => Some(Box::new(node_view(*right))),
                None => None,
            },
        },
        Stmt::Loop(repeated) => StmtView::Loop {
            condition: option_expr_view(repeated.condition),
            body: Box::new(node_view(*repeated.body)),
        },
        Stmt::ForLoop(repeated) => StmtView::ForLoop {
            var: repeated.var@,
            start: expr_view(repeated.start),
            end: expr_view(repeated.end),
            body: Box::new(node_view(*repeated.body)),
        },
        Stmt::RepeatLoop(repeated) => StmtView::RepeatLoop {
            condition: option_expr_view(repeated.condition),
            count: expr_view(repeated.count),
            body: Box::new(node_view(*repeated.body)),
        },
        Stmt::Output { values } => StmtView::Output { values: exprs_view(values@) },
        Stmt::FunctionCall(call) => StmtView::FunctionCall {
            name: call.name@,
            args: exprs_view(call.args@),
        },
        Stmt::ImportNamespace(import) => StmtView::ImportNamespace(import.name@),
        Stmt::Break => StmtView::Break,
    }
}

pub open spec fn stmts_view(stmts: Seq<Stmt>) -> Seq<StmtView>
    decreases stmts,
{
    Seq::new(
        stmts.len(),
        |i: int|
            if 0 <= i < stmts.len() {
                stmt_view(stmts[i])
            } else {
                StmtView::Break
            },
    )
}

pub open spec fn node_view(node: AstNode) -> NodeView
    decreases node,
{
    match node {
        AstNode::Program(stmts) => NodeView::Program(stmts_view(stmts@)),
        AstNode::Stmt(stmt) => NodeView::Stmt(Box::new(stmt_view(stmt))),
    }
}

pub proof fn lemma_exprs_view_push(exprs: Seq<Expr>, expr: Expr)
    ensures
        exprs_view(exprs.push(expr)) == exprs_view(exprs).push(expr_view(expr)),
        exprs_view(Seq::<Expr>::empty()) == Seq::<ExprView>::empty(),
{
    assert(exprs_view(exprs.push(expr)) =~= exprs_view(exprs).push(expr_view(expr)));
    assert(exprs_view(Seq::<Expr>::empty()) =~= Seq::<ExprView>::empty());
}

pub proof fn lemma_stmts_view_push(stmts: Seq<Stmt>, stmt: Stmt)
    ensures
        stmts_view(stmts.push(stmt)) == stmts_view(stmts).push(stmt_view(stmt)),
        stmts_view(Seq::<Stmt>::empty()) == Seq::<StmtView>::empty(),
{
    assert(stmts_view(stmts.push(stmt)) =~= stmts_view(stmts).push(stmt_view(stmt)));
    assert(stmts_view(Seq::<Stmt>::empty()) =~= Seq::<StmtView>::empty());
}

pub proof fn lemma_decls_view_push(declarations: Seq<VarDecl>, declaration: VarDecl)
    ensures
        decls_view(declarations.push(declaration)) == decls_view(declarations).push(
            decl_view(declaration),
        ),
        decls_view(Seq::<VarDecl>::empty()) == Seq::<VarDeclView>::empty(),
{
    assert(decls_view(declarations.push(declaration)) =~= decls_view(declarations).push(
        decl_view(declaration),
    ));
    assert(decls_view(Seq::<VarDecl>::empty()) =~= Seq::<VarDeclView>::empty());
}

} // verus!
