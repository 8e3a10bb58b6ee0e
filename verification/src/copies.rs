//! Copies of trees. A copy of a tree is the same tree as plain values.
use vstd::prelude::*;

use crate::ast::{
    AstNode, BinaryOp, Condition, Expr, ForLoop, Function, FunctionCall, ImportNamespace, Loop,
    RepeatLoop, Stmt, VarDecl,
};
use crate::model::{
    decl_view, decls_view, expr_view, exprs_view, node_view, option_expr_view, stmt_view,
    stmts_view,
};
use crate::tables::{parameters_clone, share_function};

verus! {

fn clone_exprs(exprs: &Vec<Expr>) -> (copy: Vec<Expr>)
    ensures
        exprs_view(copy@) == exprs_view(exprs@),
    decreases exprs,
{
    let mut copy: Vec<Expr> = Vec::new();
    let mut i: usize = 0;
    while i < exprs.len()
        invariant
            i <= exprs.len(),
            copy@.len() == i,
            forall|k: int| 0 <= k < i ==> expr_view(#[trigger] copy@[k]) == expr_view(exprs@[k]),
        decreases exprs.len() - i,
    {
        copy.push(exprs[i].clone());
        i += 1;
    }
    assert(exprs_view(copy@) =~= exprs_view(exprs@));
    copy
}

fn clone_option_expr(expr: &Option<Expr>) -> (copy: Option<Expr>)
    ensures
        option_expr_view(copy) == option_expr_view(*expr),
    decreases expr,
{
    match expr {
        Some(expr) => Some(expr.clone()),
        None => None,
    }
}

impl Clone for Expr {
    fn clone(&self) -> (copy: Self)
        ensures
            expr_view(copy) == expr_view(*self),
        decreases self,
    {
        match self {
            Expr::Literal(literal) => Expr::Literal(literal.clone()),
            Expr::Identifier(name) => Expr::Identifier(name.clone()),
            Expr::BinaryOp(operation) => Expr::BinaryOp(
                BinaryOp {
                    left: Box::new((*operation.left).clone()),
                    op: operation.op,
                    right: Box::new((*operation.right).clone()),
                },
            ),
            Expr::FunctionCall(call) => Expr::FunctionCall(
                FunctionCall { name: call.name.clone(), args: clone_exprs(&call.args) },
            ),
            Expr::NewLine => Expr::NewLine,
        }
    }
}

impl Clone for BinaryOp {
    fn clone(&self) -> (copy: Self)
        ensures
            expr_view(Expr::BinaryOp(copy)) == expr_view(Expr::BinaryOp(*self)),
        decreases self,
    {
        BinaryOp {
            left: Box::new((*self.left).clone()),
            op: self.op,
            right: Box::new((*self.right).clone()),
        }
    }
}

impl Clone for FunctionCall {
    fn clone(&self) -> (copy: Self)
        ensures
            copy.name == self.name,
            exprs_view(copy.args@) == exprs_view(self.args@),
        decreases self,
    {
        FunctionCall { name: self.name.clone(), args: clone_exprs(&self.args) }
    }
}

impl Clone for VarDecl {
    fn clone(&self) -> (copy: Self)
        ensures
            decl_view(copy) == decl_view(*self),
    {
        VarDecl {
            name: self.name.clone(),
            type_def: self.type_def,
            value: clone_option_expr(&self.value),
        }
    }
}

fn clone_decls(declarations: &Vec<VarDecl>) -> (copy: Vec<VarDecl>)
    ensures
        decls_view(copy@) == decls_view(declarations@),
{
    let mut copy: Vec<VarDecl> = Vec::new();
    let mut i: usize = 0;
    while i < declarations.len()
        invariant
            i <= declarations.len(),
            copy@.len() == i,
            forall|k: int|
                0 <= k < i ==> decl_view(#[trigger] copy@[k]) == decl_view(declarations@[k]),
        decreases declarations.len() - i,
    {
        copy.push(declarations[i].clone());
        i += 1;
    }
    assert(decls_view(copy@) =~= decls_view(declarations@));
    copy
}

impl Clone for ImportNamespace {
    fn clone(&self) -> (copy: Self)
        ensures
            copy == *self,
    {
        ImportNamespace { name: self.name.clone() }
    }
}

fn clone_stmts(stmts: &Vec<Stmt>) -> (copy: Vec<Stmt>)
    ensures
        stmts_view(copy@) == stmts_view(stmts@),
    decreases stmts,
{
    let mut copy: Vec<Stmt> = Vec::new();
    let mut i: usize = 0;
    while i < stmts.len()
        invariant
            i <= stmts.len(),
            copy@.len() == i,
            forall|k: int| 0 <= k < i ==> stmt_view(#[trigger] copy@[k]) == stmt_view(stmts@[k]),
        decreases stmts.len() - i,
    {
        copy.push(stmts[i].clone());
        i += 1;
    }
    assert(stmts_view(copy@) =~= stmts_view(stmts@));
    copy
}

impl Clone for AstNode {
    fn clone(&self) -> (copy: Self)
        ensures
            node_view(copy) == node_view(*self),
        decreases self,
    {
        match self {
            AstNode::Program(stmts) => AstNode::Program(clone_stmts(stmts)),
            AstNode::Stmt(stmt) => AstNode::Stmt(stmt.clone()),
        }
    }
}

impl Clone for Condition {
    fn clone(&self) -> (copy: Self)
        ensures
            stmt_view(Stmt::Condition(copy)) == stmt_view(Stmt::Condition(*self)),
        decreases self,
    {
        Condition {
            condition: self.condition.clone(),
            left: Box::new((*self.left).clone()),
            right: match &self.right {
                Some(right) => Some(Box::new((**right).clone())),
                None => None,
            },
        }
    }
}

impl Clone for Loop {
    fn clone(&self) -> (copy: Self)
        ensures
            stmt_view(Stmt::Loop(copy)) == stmt_view(Stmt::Loop(*self)),
        decreases self,
    {
        Loop { condition: clone_option_expr(&self.condition), body: Box::new((*self.body).clone()) }
    }
}

impl Clone for ForLoop {
    fn clone(&self) -> (copy: Self)
        ensures
            stmt_view(Stmt::ForLoop(copy)) == stmt_view(Stmt::ForLoop(*self)),
        decreases self,
    {
        ForLoop {
            var: self.var.clone(),
            start: self.start.clone(),
            end: self.end.clone(),
            body: Box::new((*self.body).clone()),
        }
    }
}

impl Clone for RepeatLoop {
    fn clone(&self) -> (copy: Self)
        ensures
            stmt_view(Stmt::RepeatLoop(copy)) == stmt_view(Stmt::RepeatLoop(*self)),
        decreases self,
    {
        RepeatLoop {
            condition: clone_option_expr(&self.condition),
            count: self.count.clone(),
            body: Box::new((*self.body).clone()),
        }
    }
}

impl Clone for Stmt {
    fn clone(&self) -> (copy: Self)
        ensures
            stmt_view(copy) == stmt_view(*self),
        decreases self,
    {
        match self {
            Stmt::VarDecl(declaration) => Stmt::VarDecl(declaration.clone()),
            Stmt::VarsDecl(declarations) => Stmt::VarsDecl(clone_decls(declarations)),
            Stmt::Assign { name, value } => Stmt::Assign {
                name: name.clone(),
                value: value.clone(),
            },
            Stmt::Alg(function) => Stmt::Alg(share_function(function)),
            Stmt::Condition(condition) => Stmt::Condition(condition.clone()),
            Stmt::Loop(repeated) => Stmt::Loop(repeated.clone()),
            Stmt::ForLoop(repeated) => Stmt::ForLoop(repeated.clone()),
            Stmt::RepeatLoop(repeated) => Stmt::RepeatLoop(repeated.clone()),
            Stmt::Output { values } => Stmt::Output { values: clone_exprs(values) },
            Stmt::FunctionCall(call) => Stmt::FunctionCall(call.clone()),
            Stmt::ImportNamespace(imported) => Stmt::ImportNamespace(imported.clone()),
            Stmt::Break => Stmt::Break,
        }
    }
}

impl Clone for Function {
    fn clone(&self) -> (copy: Self)
        ensures
            copy.name == self.name,
            copy.params == self.params,
            copy.return_type == self.return_type,
            node_view(*copy.body) == node_view(*self.body),
    {
        Function {
            name: self.name.clone(),
            body: Box::new((*self.body).clone()),
            params: parameters_clone(&self.params),
            return_type: self.return_type,
        }
    }
}

} // verus!
