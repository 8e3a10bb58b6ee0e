//! The parser: tokens to statements, by recursive descent; expressions by
//! precedence climbing. What each function reads is fixed by the function
//! of the same name in [`crate::grammar`].
use std::rc::Rc;
use vstd::prelude::*;
use vstd::string::*;

use crate::ast::{
    AstNode, BinaryOp, Condition, Expr, Float, ForLoop, Function, FunctionCall, FunctionParameter,
    ImportNamespace, Literal, Loop, RepeatLoop, Stmt, VarDecl,
};
use crate::grammar::{after, failure, found, Parsed};
use crate::lexer::{Delimiter, FunctionParamType, Keyword, Operator, Token, TypeDefinition, IO};
use crate::model::{
    decls_view, expr_view, exprs_view, lemma_decls_view_push, lemma_exprs_view_push,
    lemma_stmts_view_push, option_expr_view, stmt_view, stmts_view, ExprView, StmtView,
    VarDeclView,
};
use crate::tables::{parameter_entries, parameters_insert, parameters_new};

verus! {

/// What the parser was looking for where it stopped.
#[derive(Debug, PartialEq)]
pub enum Expectation {
    /// This very token.
    Token(Token),
    /// A name.
    Identifier,
    /// The name of a type.
    Type,
    /// The start of a statement.
    Statement,
    /// The start of an expression.
    Expression,
}

/// Why a token sequence is no program: what was expected, the token found
/// instead, and its index.
#[derive(Debug, PartialEq)]
pub struct ParseError {
    pub expected: Expectation,
    pub found: Token,
    pub position: usize,
}

pub struct Parser {
    pub tokens: Vec<Token>,
    pub position: usize,
}

/// Whether a parsing function did what the grammar says: on success the
/// tree it gave is, as plain values, the one of the grammar, and the cursor
/// stands where the grammar ends; on failure the error is the grammar's, and
/// the cursor stands on the token that the error names.
pub open spec fn agrees<T, V>(
    parsed: Result<T, ParseError>,
    position: usize,
    expected: Parsed<V>,
    view: spec_fn(T) -> V,
) -> bool {
    match expected {
        Ok((value, end)) => parsed is Ok && view(parsed->Ok_0) == value && position == end,
        Err(error) => parsed == Err::<T, ParseError>(error) && position == error.position,
    }
}

/// What a whole program is as plain values: its statements, or the
/// statements before the error and the error. A node that is a single
/// statement reads as a program of that statement; the parser gives none.
pub open spec fn program_view(parsed: Result<AstNode, (Vec<Stmt>, ParseError)>) -> Result<
    Seq<StmtView>,
    (Seq<StmtView>, ParseError),
> {
    match parsed {
        Ok(AstNode::Program(stmts)) => Ok(stmts_view(stmts@)),
        Ok(AstNode::Stmt(stmt)) => Ok(seq![stmt_view(stmt)]),
        Err((stmts, error)) => Err((stmts_view(stmts@), error)),
    }
}

impl Parser {
    pub fn new(tokens: Vec<Token>) -> (parser: Self)
        ensures
            parser.tokens == tokens,
            parser.position == 0,
    {
        Parser { tokens, position: 0 }
    }

    fn current_token(&self) -> (token: Token)
        ensures
            token == found(self.tokens@, self.position as int),
    {
        if self.position < self.tokens.len() {
            self.tokens[self.position].clone()
        } else {
            Token::Eof
        }
    }

    fn next_token(&self) -> (token: Token)
        ensures
            token == found(self.tokens@, self.position + 1),
    {
        if self.position < self.tokens.len() && self.position + 1 < self.tokens.len() {
            self.tokens[self.position + 1].clone()
        } else {
            Token::Eof
        }
    }

    /// Moves the cursor one token on; past the last token it stays.
    fn advance(&mut self)
        ensures
            final(self).tokens == old(self).tokens,
            final(self).position == after(old(self).tokens@, old(self).position as int),
    {
        if self.position < self.tokens.len() {
            self.position += 1;
        }
    }

    fn check_keyword(&self, keyword: Keyword) -> (b: bool)
        ensures
            b == crate::grammar::is_keyword(self.tokens@, self.position as int, keyword),
    {
        self.current_token().is_keyword(keyword)
    }

    fn check_delimiter(&self, delimiter: Delimiter) -> (b: bool)
        ensures
            b == crate::grammar::is_delimiter(self.tokens@, self.position as int, delimiter),
    {
        self.current_token().is_delimiter(delimiter)
    }

    fn is_eof(&self) -> (b: bool)
        ensures
            b == crate::grammar::is_end(self.tokens@, self.position as int),
    {
        self.current_token().is_eof()
    }

    fn error<T>(&self, expected: Expectation) -> (failed: Result<T, ParseError>)
        ensures
            failed == Err::<T, ParseError>(failure(self.tokens@, self.position as int, expected)),
    {
        Err(ParseError { expected, found: self.current_token(), position: self.position })
    }

    fn expect_keyword(&mut self, keyword: Keyword) -> (done: Result<(), ParseError>)
        ensures
            final(self).tokens == old(self).tokens,
            agrees(
                done,
                final(self).position,
                crate::grammar::expect_keyword(old(self).tokens@, old(self).position as int, keyword),
                |unit: ()| unit,
            ),
            done is Ok ==> old(self).position < old(self).tokens.len(),
    {
        if self.check_keyword(keyword) {
            self.advance();
            Ok(())
        } else {
            self.error(Expectation::Token(Token::Keyword(keyword)))
        }
    }

    fn expect_delimiter(&mut self, delimiter: Delimiter) -> (done: Result<(), ParseError>)
        ensures
            final(self).tokens == old(self).tokens,
            agrees(
                done,
                final(self).position,
                crate::grammar::expect_delimiter(
                    old(self).tokens@,
                    old(self).position as int,
                    delimiter,
                ),
                |unit: ()| unit,
            ),
            done is Ok ==> old(self).position < old(self).tokens.len(),
    {
        if self.check_delimiter(delimiter) {
            self.advance();
            Ok(())
        } else {
            self.error(Expectation::Token(Token::Delimiter(delimiter)))
        }
    }

    /// Parses the tokens from the cursor to their end. On the first error it
    /// hands back the statements parsed so far with the error.
    pub fn parse(&mut self) -> (parsed: Result<AstNode, (Vec<Stmt>, ParseError)>)
        ensures
            final(self).tokens == old(self).tokens,
            program_view(parsed) == crate::grammar::parse_program(
                old(self).tokens@,
                if old(self).position <= old(self).tokens.len() {
                    old(self).position as int
                } else {
                    old(self).tokens.len() as int
                },
                Seq::empty(),
            ),
            parsed matches Ok(node) ==> node is Program,
            parsed matches Err((_, error)) ==> final(self).position == error.position,
            parsed is Ok ==> crate::grammar::is_end(final(self).tokens@, final(self).position as int),
    {
        if self.position > self.tokens.len() {
            self.position = self.tokens.len();
        }
        let ghost start = self.position as int;
        let mut statements: Vec<Stmt> = Vec::new();
        proof {
            lemma_stmts_view_push(statements@, Stmt::Break);
        }
        loop
            invariant_except_break
                crate::grammar::parse_program(self.tokens@, start, Seq::empty())
                    == crate::grammar::parse_program(
                    self.tokens@,
                    self.position as int,
                    stmts_view(statements@),
                ),
            invariant
                self.tokens == old(self).tokens,
                self.position <= self.tokens.len(),
                start == if old(self).position <= old(self).tokens.len() {
                    old(self).position as int
                } else {
                    old(self).tokens.len() as int
                },
            ensures
                crate::grammar::parse_program(self.tokens@, start, Seq::empty()) == Ok::<
                    Seq<StmtView>,
                    (Seq<StmtView>, ParseError),
                >(stmts_view(statements@)),
                crate::grammar::is_end(self.tokens@, self.position as int),
            decreases self.tokens.len() - self.position,
        {
            if self.is_eof() {
                break ;
            }
            match self.parse_stmt() {
                Ok(stmt) => {
                    proof {
                        lemma_stmts_view_push(statements@, stmt);
                    }
                    statements.push(stmt);
                },
                Err(error) => {
                    return Err((statements, error));
                },
            }
        }
        Ok(AstNode::Program(statements))
    }

    fn parse_stmt(&mut self) -> (parsed: Result<Stmt, ParseError>)
        requires
            old(self).position <= old(self).tokens.len(),
        ensures
            final(self).tokens == old(self).tokens,
            old(self).position <= final(self).position <= final(self).tokens.len(),
            parsed is Ok ==> old(self).position < final(self).position,
            agrees(
                parsed,
                final(self).position,
                crate::grammar::parse_stmt(old(self).tokens@, old(self).position as int),
                |stmt: Stmt| stmt_view(stmt),
            ),
        decreases old(self).tokens.len() - old(self).position, 10nat,
    {
        match self.current_token() {
            Token::Keyword(Keyword::Function(crate::lexer::Function::Alg)) => self.parse_alg(),
            Token::Keyword(Keyword::Function(crate::lexer::Function::ImportNamespace)) => {
                self.parse_import_namespace()
            },
            Token::Keyword(Keyword::Condition(crate::lexer::Condition::If)) => {
                self.parse_condition()
            },
            Token::Keyword(Keyword::Loop(crate::lexer::Loop::Start)) => self.parse_loop(),
            Token::Keyword(Keyword::Loop(crate::lexer::Loop::Break)) => {
                self.advance();
                Ok(Stmt::Break)
            },
            Token::Keyword(Keyword::TypeDef(type_def)) => self.parse_var_decl(type_def),
            Token::Identifier(name) => {
                if self.next_token().is_operator(Operator::Assignment) {
                    self.parse_assign()
                } else {
                    self.parse_function_call_stmt(name)
                }
            },
            Token::Keyword(Keyword::IO(IO::Output)) => self.parse_output(),
            _ => self.error(Expectation::Statement),
        }
    }

    fn parse_import_namespace(&mut self) -> (parsed: Result<Stmt, ParseError>)
        requires
            old(self).position < old(self).tokens.len(),
        ensures
            final(self).tokens == old(self).tokens,
            old(self).position <= final(self).position <= final(self).tokens.len(),
            parsed is Ok ==> old(self).position < final(self).position,
            agrees(
                parsed,
                final(self).position,
                crate::grammar::parse_import_namespace(old(self).tokens@, old(self).position as int),
                |stmt: Stmt| stmt_view(stmt),
            ),
    {
        self.advance();
        match self.current_token() {
            Token::Identifier(name) => {
                self.advance();
                Ok(Stmt::ImportNamespace(ImportNamespace { name }))
            },
            _ => self.error(Expectation::Identifier),
        }
    }

    fn parse_function_call_stmt(&mut self, name: String) -> (parsed: Result<Stmt, ParseError>)
        requires
            old(self).position < old(self).tokens.len(),
            found(old(self).tokens@, old(self).position as int) == Token::Identifier(name),
        ensures
            final(self).tokens == old(self).tokens,
            old(self).position <= final(self).position <= final(self).tokens.len(),
            parsed is Ok ==> old(self).position < final(self).position,
            agrees(
                parsed,
                final(self).position,
                crate::grammar::parse_function_call(old(self).tokens@, old(self).position as int),
                |stmt: Stmt| stmt_view(stmt)->FunctionCall_args,
            ),
            parsed matches Ok(stmt) ==> stmt_view(stmt) is FunctionCall && stmt_view(stmt)->FunctionCall_name == name@,
        decreases old(self).tokens.len() - old(self).position, 9nat,
    {
        match self.parse_function_call(name) {
            Ok(call) => Ok(Stmt::FunctionCall(call)),
            Err(error) => Err(error),
        }
    }

    fn parse_function_call_expr(&mut self, name: String) -> (parsed: Result<Expr, ParseError>)
        requires
            old(self).position < old(self).tokens.len(),
            found(old(self).tokens@, old(self).position as int) == Token::Identifier(name),
        ensures
            final(self).tokens == old(self).tokens,
            old(self).position <= final(self).position <= final(self).tokens.len(),
            parsed is Ok ==> old(self).position < final(self).position,
            agrees(
                parsed,
                final(self).position,
                crate::grammar::parse_function_call(old(self).tokens@, old(self).position as int),
                |expr: Expr| expr_view(expr)->FunctionCall_args,
            ),
            parsed matches Ok(expr) ==> expr_view(expr) is FunctionCall && expr_view(expr)->FunctionCall_name == name@,
        decreases old(self).tokens.len() - old(self).position, 1nat,
    {
        match self.parse_function_call(name) {
            Ok(call) => Ok(Expr::FunctionCall(call)),
            Err(error) => Err(error),
        }
    }

    /// Parses a call, the cursor being on the callee's name: the name, and
    /// in parentheses the arguments, separated by commas. A name without
    /// parentheses is a call without arguments.
    fn parse_function_call(&mut self, name: String) -> (parsed: Result<FunctionCall, ParseError>)
        requires
            old(self).position < old(self).tokens.len(),
        ensures
            final(self).tokens == old(self).tokens,
            old(self).position <= final(self).position <= final(self).tokens.len(),
            parsed is Ok ==> old(self).position < final(self).position,
            agrees(
                parsed,
                final(self).position,
                crate::grammar::parse_function_call(old(self).tokens@, old(self).position as int),
                |call: FunctionCall| exprs_view(call.args@),
            ),
            parsed matches Ok(call) ==> call.name == name,
        decreases old(self).tokens.len() - old(self).position, 0nat,
    {
        self.advance();
        let mut args: Vec<Expr> = Vec::new();
        proof {
            lemma_exprs_view_push(args@, Expr::NewLine);
        }
        if self.check_delimiter(Delimiter::ParenthesisOpen) {
            self.advance();
            let ghost start = self.position as int;
            loop
                invariant_except_break
                    crate::grammar::parse_arguments(self.tokens@, start, Seq::empty())
                        == crate::grammar::parse_arguments(
                        self.tokens@,
                        self.position as int,
                        exprs_view(args@),
                    ),
                invariant
                    self.tokens == old(self).tokens,
                    old(self).position < self.position <= self.tokens.len(),
                    start == old(self).position + 2,
                    old(self).position + 1 < self.tokens.len(),
                    crate::grammar::is_delimiter(
                        self.tokens@,
                        old(self).position + 1,
                        Delimiter::ParenthesisOpen,
                    ),
                ensures
                    crate::grammar::parse_arguments(self.tokens@, start, Seq::empty()) == Ok::<
                        (Seq<ExprView>, int),
                        ParseError,
                    >((exprs_view(args@), self.position as int)),
                decreases self.tokens.len() - self.position,
            {
                if self.check_delimiter(Delimiter::ParenthesisClose) {
                    break ;
                }
                match self.parse_expr() {
                    Ok(expr) => {
                        proof {
                            lemma_exprs_view_push(args@, expr);
                        }
                        args.push(expr);
                    },
                    Err(error) => {
                        return Err(error);
                    },
                }
                if self.check_delimiter(Delimiter::Comma) {
                    self.advance();
                } else {
                    break ;
                }
            }
            match self.expect_delimiter(Delimiter::ParenthesisClose) {
                Ok(()) => {},
                Err(error) => {
                    return Err(error);
                },
            }
        }
        Ok(FunctionCall { name, args })
    }

    /// Parses an output statement: after the keyword, expressions and
    /// line-break markers, separated by commas, up to the next keyword.
    fn parse_output(&mut self) -> (parsed: Result<Stmt, ParseError>)
        requires
            old(self).position < old(self).tokens.len(),
        ensures
            final(self).tokens == old(self).tokens,
            old(self).position <= final(self).position <= final(self).tokens.len(),
            parsed is Ok ==> old(self).position < final(self).position,
            agrees(
                parsed,
                final(self).position,
                crate::grammar::parse_output(old(self).tokens@, old(self).position as int),
                |stmt: Stmt| stmt_view(stmt),
            ),
        decreases old(self).tokens.len() - old(self).position, 8nat,
    {
        self.advance();
        let ghost start = self.position as int;
        let mut values: Vec<Expr> = Vec::new();
        proof {
            lemma_exprs_view_push(values@, Expr::NewLine);
        }
        loop
            invariant_except_break
                crate::grammar::parse_output_values(self.tokens@, start, Seq::empty())
                    == crate::grammar::parse_output_values(
                    self.tokens@,
                    self.position as int,
                    exprs_view(values@),
                ),
            invariant
                self.tokens == old(self).tokens,
                old(self).position < self.position <= self.tokens.len(),
                start == old(self).position + 1,
            ensures
                crate::grammar::parse_output_values(self.tokens@, start, Seq::empty()) == Ok::<
                    (Seq<ExprView>, int),
                    ParseError,
                >((exprs_view(values@), self.position as int)),
            decreases self.tokens.len() - self.position,
        {
            if self.is_eof() {
                break ;
            }
            match self.current_token() {
                Token::Keyword(Keyword::IO(IO::ChangeLine)) => {
                    proof {
                        lemma_exprs_view_push(values@, Expr::NewLine);
                        assert(expr_view(Expr::NewLine) == ExprView::NewLine);
                    }
                    values.push(Expr::NewLine);
                    self.advance();
                },
                Token::Delimiter(Delimiter::Comma) => {
                    self.advance();
                },
                Token::Keyword(_) => {
                    break ;
                },
                _ => {
                    match self.parse_expr() {
                        Ok(expr) => {
                            proof {
                                lemma_exprs_view_push(values@, expr);
                            }
                            values.push(expr);
                        },
                        Err(error) => {
                            return Err(error);
                        },
                    }
                    if !self.check_delimiter(Delimiter::Comma) {
                        break ;
                    }
                },
            }
        }
        Ok(Stmt::Output { values })
    }

    /// Parses statements up to one of two closing keywords, which is left
    /// under the cursor; with `or_end`, the end of the tokens stops the list
    /// too.
    fn parse_block(&mut self, first: Keyword, second: Keyword, or_end: bool) -> (parsed: Result<
        Vec<Stmt>,
        ParseError,
    >)
        requires
            old(self).position <= old(self).tokens.len(),
        ensures
            final(self).tokens == old(self).tokens,
            old(self).position <= final(self).position <= final(self).tokens.len(),
            agrees(
                parsed,
                final(self).position,
                crate::grammar::parse_block(
                    old(self).tokens@,
                    old(self).position as int,
                    first,
                    second,
                    or_end,
                    Seq::empty(),
                ),
                |stmts: Vec<Stmt>| stmts_view(stmts@),
            ),
            parsed is Ok ==> crate::grammar::is_keyword(
                final(self).tokens@,
                final(self).position as int,
                first,
            ) || crate::grammar::is_keyword(final(self).tokens@, final(self).position as int, second)
                || (or_end && crate::grammar::is_end(
                final(self).tokens@,
                final(self).position as int,
            )),
        decreases old(self).tokens.len() - old(self).position, 11nat,
    {
        let ghost start = self.position as int;
        let mut statements: Vec<Stmt> = Vec::new();
        proof {
            lemma_stmts_view_push(statements@, Stmt::Break);
        }
        loop
            invariant_except_break
                crate::grammar::parse_block(
                    self.tokens@,
                    start,
                    first,
                    second,
                    or_end,
                    Seq::empty(),
                ) == crate::grammar::parse_block(
                    self.tokens@,
                    self.position as int,
                    first,
                    second,
                    or_end,
                    stmts_view(statements@),
                ),
            invariant
                self.tokens == old(self).tokens,
                old(self).position <= self.position <= self.tokens.len(),
                start == old(self).position,
            ensures
                crate::grammar::parse_block(
                    self.tokens@,
                    start,
                    first,
                    second,
                    or_end,
                    Seq::empty(),
                ) == Ok::<(Seq<StmtView>, int), ParseError>(
                    (stmts_view(statements@), self.position as int),
                ),
                crate::grammar::is_keyword(self.tokens@, self.position as int, first)
                    || crate::grammar::is_keyword(self.tokens@, self.position as int, second) || (
                or_end && crate::grammar::is_end(self.tokens@, self.position as int)),
            decreases self.tokens.len() - self.position,
        {
            if self.check_keyword(first) || self.check_keyword(second) || (or_end && self.is_eof()) {
                break ;
            }
            match self.parse_stmt() {
                Ok(stmt) => {
                    proof {
                        lemma_stmts_view_push(statements@, stmt);
                    }
                    statements.push(stmt);
                },
                Err(error) => {
                    return Err(error);
                },
            }
        }
        Ok(statements)
    }

    fn parse_condition(&mut self) -> (parsed: Result<Stmt, ParseError>)
        requires
            old(self).position < old(self).tokens.len(),
        ensures
            final(self).tokens == old(self).tokens,
            old(self).position <= final(self).position <= final(self).tokens.len(),
            parsed is Ok ==> old(self).position < final(self).position,
            agrees(
                parsed,
                final(self).position,
                crate::grammar::parse_condition(old(self).tokens@, old(self).position as int),
                |stmt: Stmt| stmt_view(stmt),
            ),
        decreases old(self).tokens.len() - old(self).position, 9nat,
    {
        self.advance();
        let condition = match self.parse_expr() {
            Ok(expr) => expr,
            Err(error) => {
                return Err(error);
            },
        };
        match self.expect_keyword(Keyword::Condition(crate::lexer::Condition::Then)) {
            Ok(()) => {},
            Err(error) => {
                return Err(error);
            },
        }
        let left = match self.parse_block(
            Keyword::Condition(crate::lexer::Condition::Else),
            Keyword::Condition(crate::lexer::Condition::EndCondition),
            false,
        ) {
            Ok(statements) => statements,
            Err(error) => {
                return Err(error);
            },
        };
        let right = if self.check_keyword(Keyword::Condition(crate::lexer::Condition::Else)) {
            self.advance();
            match self.parse_block(
                Keyword::Condition(crate::lexer::Condition::EndCondition),
                Keyword::Condition(crate::lexer::Condition::EndCondition),
                false,
            ) {
                Ok(statements) => Some(Box::new(AstNode::Program(statements))),
                Err(error) => {
                    return Err(error);
                },
            }
        } else {
            None
        };
        match self.expect_keyword(Keyword::Condition(crate::lexer::Condition::EndCondition)) {
            Ok(()) => {},
            Err(error) => {
                return Err(error);
            },
        }
        Ok(
            Stmt::Condition(
                Condition { condition, left: Box::new(AstNode::Program(left)), right },
            ),
        )
    }

    /// Parses a loop, the cursor being on the loop-start keyword. The token
    /// after it tells the form: the while-keyword, an integer literal (a
    /// counted loop), the for-keyword, or the first token of a bare body.
    fn parse_loop(&mut self) -> (parsed: Result<Stmt, ParseError>)
        requires
            old(self).position < old(self).tokens.len(),
        ensures
            final(self).tokens == old(self).tokens,
            old(self).position <= final(self).position <= final(self).tokens.len(),
            parsed is Ok ==> old(self).position < final(self).position,
            agrees(
                parsed,
                final(self).position,
                crate::grammar::parse_loop(old(self).tokens@, old(self).position as int),
                |stmt: Stmt| stmt_view(stmt),
            ),
        decreases old(self).tokens.len() - old(self).position, 9nat,
    {
        self.advance();
        match self.current_token() {
            Token::Keyword(Keyword::Loop(crate::lexer::Loop::While)) => self.parse_while_loop(),
            Token::Int(times) => self.parse_repeat_loop(Expr::Literal(Literal::Int(times))),
            Token::Keyword(Keyword::Range(crate::lexer::Range::For)) => self.parse_for_loop(),
            _ => self.parse_simple_loop(),
        }
    }

    /// Parses the body of a loop and its end: statements up to a loop-end
    /// keyword; then, where a guard is allowed, the plain keyword or the
    /// guarded one with its guard; where none is allowed, the keyword.
    fn parse_loop_body(&mut self, guard_allowed: bool) -> (parsed: Result<
        (Vec<Stmt>, Option<Expr>),
        ParseError,
    >)
        requires
            old(self).position <= old(self).tokens.len(),
        ensures
            final(self).tokens == old(self).tokens,
            old(self).position <= final(self).position <= final(self).tokens.len(),
            parsed is Ok ==> old(self).position < final(self).position,
            agrees(
                parsed,
                final(self).position,
                crate::grammar::parse_loop_body(
                    old(self).tokens@,
                    old(self).position as int,
                    guard_allowed,
                ),
                |body: (Vec<Stmt>, Option<Expr>)| (stmts_view(body.0@), option_expr_view(body.1)),
            ),
        decreases old(self).tokens.len() - old(self).position, 12nat,
    {
        let second = if guard_allowed {
            Keyword::Loop(crate::lexer::Loop::EndIf)
        } else {
            Keyword::Loop(crate::lexer::Loop::End)
        };
        let statements = match self.parse_block(
            Keyword::Loop(crate::lexer::Loop::End),
            second,
            false,
        ) {
            Ok(statements) => statements,
            Err(error) => {
                return Err(error);
            },
        };
        if guard_allowed {
            if self.check_keyword(Keyword::Loop(crate::lexer::Loop::EndIf)) {
                self.advance();
                match self.parse_expr() {
                    Ok(guard) => Ok((statements, Some(guard))),
                    Err(error) => Err(error),
                }
            } else {
                match self.expect_keyword(Keyword::Loop(crate::lexer::Loop::End)) {
                    Ok(()) => Ok((statements, None)),
                    Err(error) => Err(error),
                }
            }
        } else {
            self.advance();
            Ok((statements, None))
        }
    }

    /// Parses a loop without a head: statements up to a loop-end keyword.
    fn parse_simple_loop(&mut self) -> (parsed: Result<Stmt, ParseError>)
        requires
            0 < old(self).position <= old(self).tokens.len(),
            !(found(old(self).tokens@, old(self).position as int) is Int),
            found(old(self).tokens@, old(self).position as int) != Token::Keyword(
                Keyword::Loop(crate::lexer::Loop::While),
            ),
            found(old(self).tokens@, old(self).position as int) != Token::Keyword(
                Keyword::Range(crate::lexer::Range::For),
            ),
        ensures
            final(self).tokens == old(self).tokens,
            old(self).position <= final(self).position <= final(self).tokens.len(),
            agrees(
                parsed,
                final(self).position,
                crate::grammar::parse_loop(old(self).tokens@, old(self).position - 1),
                |stmt: Stmt| stmt_view(stmt),
            ),
        decreases old(self).tokens.len() - old(self).position, 13nat,
    {
        match self.parse_loop_body(true) {
            Ok((statements, condition)) => Ok(
                Stmt::Loop(Loop { condition, body: Box::new(AstNode::Program(statements)) }),
            ),
            Err(error) => Err(error),
        }
    }

    fn parse_while_loop(&mut self) -> (parsed: Result<Stmt, ParseError>)
        requires
            0 < old(self).position < old(self).tokens.len(),
            found(old(self).tokens@, old(self).position as int) == Token::Keyword(
                Keyword::Loop(crate::lexer::Loop::While),
            ),
        ensures
            final(self).tokens == old(self).tokens,
            old(self).position <= final(self).position <= final(self).tokens.len(),
            parsed is Ok ==> old(self).position < final(self).position,
            agrees(
                parsed,
                final(self).position,
                crate::grammar::parse_loop(old(self).tokens@, old(self).position - 1),
                |stmt: Stmt| stmt_view(stmt),
            ),
        decreases old(self).tokens.len() - old(self).position, 8nat,
    {
        self.advance();
        let condition = match self.parse_expr() {
            Ok(expr) => expr,
            Err(error) => {
                return Err(error);
            },
        };
        match self.parse_loop_body(false) {
            Ok((statements, _)) => Ok(
                Stmt::Loop(
                    Loop {
                        condition: Some(condition),
                        body: Box::new(AstNode::Program(statements)),
                    },
                ),
            ),
            Err(error) => Err(error),
        }
    }

    fn parse_for_loop(&mut self) -> (parsed: Result<Stmt, ParseError>)
        requires
            0 < old(self).position < old(self).tokens.len(),
            found(old(self).tokens@, old(self).position as int) == Token::Keyword(
                Keyword::Range(crate::lexer::Range::For),
            ),
        ensures
            final(self).tokens == old(self).tokens,
            old(self).position <= final(self).position <= final(self).tokens.len(),
            parsed is Ok ==> old(self).position < final(self).position,
            agrees(
                parsed,
                final(self).position,
                crate::grammar::parse_loop(old(self).tokens@, old(self).position - 1),
                |stmt: Stmt| stmt_view(stmt),
            ),
        decreases old(self).tokens.len() - old(self).position, 8nat,
    {
        self.advance();
        let var = match self.current_token() {
            Token::Identifier(name) => name,
            _ => {
                return self.error(Expectation::Identifier);
            },
        };
        self.advance();
        match self.expect_keyword(Keyword::Range(crate::lexer::Range::From)) {
            Ok(()) => {},
            Err(error) => {
                return Err(error);
            },
        }
        let start = match self.parse_expr() {
            Ok(expr) => expr,
            Err(error) => {
                return Err(error);
            },
        };
        match self.expect_keyword(Keyword::Range(crate::lexer::Range::To)) {
            Ok(()) => {},
            Err(error) => {
                return Err(error);
            },
        }
        let end = match self.parse_expr() {
            Ok(expr) => expr,
            Err(error) => {
                return Err(error);
            },
        };
        match self.parse_loop_body(false) {
            Ok((statements, _)) => Ok(
                Stmt::ForLoop(
                    ForLoop { var, start, end, body: Box::new(AstNode::Program(statements)) },
                ),
            ),
            Err(error) => Err(error),
        }
    }

    /// Parses a counted loop, the cursor being on the count: the count, the
    /// times-keyword, and statements up to a loop-end keyword.
    fn parse_repeat_loop(&mut self, count: Expr) -> (parsed: Result<Stmt, ParseError>)
        requires
            0 < old(self).position < old(self).tokens.len(),
            found(old(self).tokens@, old(self).position as int) is Int,
            count == Expr::Literal(
                Literal::Int(found(old(self).tokens@, old(self).position as int)->Int_0),
            ),
        ensures
            final(self).tokens == old(self).tokens,
            old(self).position <= final(self).position <= final(self).tokens.len(),
            parsed is Ok ==> old(self).position < final(self).position,
            agrees(
                parsed,
                final(self).position,
                crate::grammar::parse_loop(old(self).tokens@, old(self).position - 1),
                |stmt: Stmt| stmt_view(stmt),
            ),
        decreases old(self).tokens.len() - old(self).position, 8nat,
    {
        self.advance();
        match self.expect_keyword(Keyword::Loop(crate::lexer::Loop::Times)) {
            Ok(()) => {},
            Err(error) => {
                return Err(error);
            },
        }
        match self.parse_loop_body(true) {
            Ok((statements, condition)) => Ok(
                Stmt::RepeatLoop(
                    RepeatLoop { condition, count, body: Box::new(AstNode::Program(statements)) },
                ),
            ),
            Err(error) => Err(error),
        }
    }

    /// Parses the passing mode in front of a parameter: a marker keyword, or
    /// none, which means a value passed in. The argument marker followed by
    /// the result marker means a value passed in and out.
    fn parse_param_mode(&mut self) -> (mode: FunctionParamType)
        requires
            old(self).position <= old(self).tokens.len(),
        ensures
            final(self).tokens == old(self).tokens,
            old(self).position <= final(self).position <= final(self).tokens.len(),
            (mode, final(self).position as int) == crate::grammar::parse_param_mode(
                old(self).tokens@,
                old(self).position as int,
            ),
    {
        match self.current_token() {
            Token::Keyword(Keyword::Function(crate::lexer::Function::FunctionParamType(mode))) => {
                self.advance();
                if mode == FunctionParamType::ArgumentParam && self.check_keyword(
                    Keyword::Function(
                        crate::lexer::Function::FunctionParamType(FunctionParamType::ResultParam),
                    ),
                ) {
                    self.advance();
                    FunctionParamType::ArgumentResultParam
                } else {
                    mode
                }
            },
            _ => FunctionParamType::ArgumentParam,
        }
    }

    /// Parses the parameters of an algorithm, the cursor being after the
    /// opening parenthesis: groups of an optional mode, a type, and names
    /// separated by commas, up to the closing parenthesis.
    fn parse_params(&mut self) -> (parsed: Result<
        indexmap::IndexMap<String, FunctionParameter>,
        ParseError,
    >)
        requires
            old(self).position <= old(self).tokens.len(),
        ensures
            final(self).tokens == old(self).tokens,
            old(self).position <= final(self).position <= final(self).tokens.len(),
            agrees(
                parsed,
                final(self).position,
                crate::grammar::parse_params(
                    old(self).tokens@,
                    old(self).position as int,
                    Seq::empty(),
                ),
                |params: indexmap::IndexMap<String, FunctionParameter>| parameter_entries(params),
            ),
    {
        let ghost start = self.position as int;
        let mut params = parameters_new();
        loop
            invariant_except_break
                crate::grammar::parse_params(self.tokens@, start, Seq::empty())
                    == crate::grammar::parse_params(
                    self.tokens@,
                    self.position as int,
                    parameter_entries(params),
                ),
            invariant
                self.tokens == old(self).tokens,
                old(self).position <= self.position <= self.tokens.len(),
                start == old(self).position,
            ensures
                crate::grammar::parse_params(self.tokens@, start, Seq::empty()) == Ok::<
                    (Seq<(Seq<char>, FunctionParameter)>, int),
                    ParseError,
                >((parameter_entries(params), self.position as int)),
            decreases self.tokens.len() - self.position,
        {
            if self.check_delimiter(Delimiter::ParenthesisClose) || self.is_eof() {
                break ;
            }
            let ghost round = self.position as int;
            let ghost before = parameter_entries(params);
            let result_type = self.parse_param_mode();
            let type_definition = match self.current_token() {
                Token::Keyword(Keyword::TypeDef(type_def)) => type_def,
                _ => {
                    return self.error(Expectation::Type);
                },
            };
            self.advance();
            let ghost names = self.position as int;
            let parameter = FunctionParameter { type_definition, result_type };
            loop
                invariant_except_break
                    crate::grammar::parse_param_names(self.tokens@, names, parameter, before)
                        == crate::grammar::parse_param_names(
                        self.tokens@,
                        self.position as int,
                        parameter,
                        parameter_entries(params),
                    ),
                invariant
                    self.tokens == old(self).tokens,
                    old(self).position <= self.position <= self.tokens.len(),
                    round < self.position,
                ensures
                    crate::grammar::parse_param_names(self.tokens@, names, parameter, before) == (
                        parameter_entries(params),
                        self.position as int,
                    ),
                decreases self.tokens.len() - self.position,
            {
                match self.current_token() {
                    Token::Identifier(name) => {
                        parameters_insert(&mut params, name, parameter);
                        self.advance();
                        if !self.check_delimiter(Delimiter::Comma) {
                            break ;
                        }
                        self.advance();
                    },
                    _ => {
                        break ;
                    },
                }
            }
        }
        Ok(params)
    }

    /// Parses an algorithm declaration: an optional return type, a name
    /// (`main` where none is written), the parameters in parentheses, and
    /// the body between the start and stop keywords.
    fn parse_alg(&mut self) -> (parsed: Result<Stmt, ParseError>)
        requires
            old(self).position < old(self).tokens.len(),
        ensures
            final(self).tokens == old(self).tokens,
            old(self).position <= final(self).position <= final(self).tokens.len(),
            parsed is Ok ==> old(self).position < final(self).position,
            agrees(
                parsed,
                final(self).position,
                crate::grammar::parse_alg(old(self).tokens@, old(self).position as int),
                |stmt: Stmt| stmt_view(stmt),
            ),
        decreases old(self).tokens.len() - old(self).position, 9nat,
    {
        self.advance();
        let return_type = match self.current_token() {
            Token::Keyword(Keyword::TypeDef(return_type)) => {
                self.advance();
                Some(return_type)
            },
            _ => None,
        };
        let name = match self.current_token() {
            Token::Identifier(name) => {
                self.advance();
                name
            },
            _ => String::from_str("main"),
        };
        let params = if self.check_delimiter(Delimiter::ParenthesisOpen) {
            self.advance();
            match self.parse_params() {
                Ok(params) => params,
                Err(error) => {
                    return Err(error);
                },
            }
        } else {
            parameters_new()
        };
        match self.expect_delimiter(Delimiter::ParenthesisClose) {
            Ok(()) => {},
            Err(error) => {
                return Err(error);
            },
        }
        match self.expect_keyword(Keyword::Function(crate::lexer::Function::Start)) {
            Ok(()) => {},
            Err(error) => {
                return Err(error);
            },
        }
        let body = match self.parse_block(
            Keyword::Function(crate::lexer::Function::Stop),
            Keyword::Function(crate::lexer::Function::Stop),
            true,
        ) {
            Ok(statements) => statements,
            Err(error) => {
                return Err(error);
            },
        };
        match self.expect_keyword(Keyword::Function(crate::lexer::Function::Stop)) {
            Ok(()) => {},
            Err(error) => {
                return Err(error);
            },
        }
        Ok(
            Stmt::Alg(
                Rc::new(
                    Function { name, body: Box::new(AstNode::Program(body)), return_type, params },
                ),
            ),
        )
    }

    /// Parses a declaration, the cursor being on the type: one name with an
    /// optional initial value, or several names separated by commas.
    fn parse_var_decl(&mut self, type_def: TypeDefinition) -> (parsed: Result<Stmt, ParseError>)
        requires
            old(self).position < old(self).tokens.len(),
        ensures
            final(self).tokens == old(self).tokens,
            old(self).position <= final(self).position <= final(self).tokens.len(),
            parsed is Ok ==> old(self).position < final(self).position,
            agrees(
                parsed,
                final(self).position,
                crate::grammar::parse_var_decl(
                    old(self).tokens@,
                    old(self).position as int,
                    type_def,
                ),
                |stmt: Stmt| stmt_view(stmt),
            ),
        decreases old(self).tokens.len() - old(self).position, 9nat,
    {
        self.advance();
        let name = match self.current_token() {
            Token::Identifier(name) => name,
            _ => {
                return self.error(Expectation::Identifier);
            },
        };
        self.advance();
        match self.current_token() {
            Token::Operator(Operator::Assignment) => {
                self.advance();
                match self.parse_expr() {
                    Ok(value) => Ok(Stmt::VarDecl(VarDecl { name, type_def, value: Some(value) })),
                    Err(error) => Err(error),
                }
            },
            Token::Delimiter(Delimiter::Comma) => {
                let ghost start = self.position as int;
                let mut vars: Vec<VarDecl> = Vec::new();
                let first = VarDecl { name, type_def, value: None };
                proof {
                    lemma_decls_view_push(vars@, first);
                }
                vars.push(first);
                let ghost read = decls_view(vars@);
                assert(read =~= seq![VarDeclView { name: name@, type_def, value: None }]);
                loop
                    invariant_except_break
                        crate::grammar::parse_names(self.tokens@, start, type_def, read)
                            == crate::grammar::parse_names(
                            self.tokens@,
                            self.position as int,
                            type_def,
                            decls_view(vars@),
                        ),
                    invariant
                        self.tokens == old(self).tokens,
                        old(self).position < self.position <= self.tokens.len(),
                        start == old(self).position + 2,
                        found(self.tokens@, old(self).position + 1) is Identifier,
                        found(self.tokens@, old(self).position + 2) == Token::Delimiter(
                            Delimiter::Comma,
                        ),
                        read == seq![
                            VarDeclView {
                                name: found(self.tokens@, old(self).position + 1)->Identifier_0@,
                                type_def,
                                value: None,
                            },
                        ],
                    ensures
                        crate::grammar::parse_names(self.tokens@, start, type_def, read) == Ok::<
                            (Seq<VarDeclView>, int),
                            ParseError,
                        >((decls_view(vars@), self.position as int)),
                    decreases self.tokens.len() - self.position,
                {
                    if !self.check_delimiter(Delimiter::Comma) {
                        break ;
                    }
                    self.advance();
                    match self.current_token() {
                        Token::Identifier(name) => {
                            let next = VarDecl { name, type_def, value: None };
                            proof {
                                lemma_decls_view_push(vars@, next);
                            }
                            vars.push(next);
                        },
                        _ => {
                            return self.error(Expectation::Identifier);
                        },
                    }
                    self.advance();
                }
                Ok(Stmt::VarsDecl(vars))
            },
            _ => Ok(Stmt::VarDecl(VarDecl { name, type_def, value: None })),
        }
    }

    fn parse_assign(&mut self) -> (parsed: Result<Stmt, ParseError>)
        requires
            old(self).position < old(self).tokens.len(),
        ensures
            final(self).tokens == old(self).tokens,
            old(self).position <= final(self).position <= final(self).tokens.len(),
            parsed is Ok ==> old(self).position < final(self).position,
            agrees(
                parsed,
                final(self).position,
                crate::grammar::parse_assign(old(self).tokens@, old(self).position as int),
                |stmt: Stmt| stmt_view(stmt),
            ),
        decreases old(self).tokens.len() - old(self).position, 9nat,
    {
        let name = match self.current_token() {
            Token::Identifier(name) => name,
            _ => {
                return self.error(Expectation::Identifier);
            },
        };
        self.advance();
        if self.current_token().is_operator(Operator::Assignment) {
            self.advance();
        } else {
            return self.error(Expectation::Token(Token::Operator(Operator::Assignment)));
        }
        match self.parse_expr() {
            Ok(value) => Ok(Stmt::Assign { name, value }),
            Err(error) => Err(error),
        }
    }

    fn parse_expr(&mut self) -> (parsed: Result<Expr, ParseError>)
        requires
            old(self).position <= old(self).tokens.len(),
        ensures
            final(self).tokens == old(self).tokens,
            old(self).position <= final(self).position <= final(self).tokens.len(),
            parsed is Ok ==> old(self).position < final(self).position,
            agrees(
                parsed,
                final(self).position,
                crate::grammar::parse_expr(old(self).tokens@, old(self).position as int),
                |expr: Expr| expr_view(expr),
            ),
        decreases old(self).tokens.len() - old(self).position, 4nat,
    {
        self.parse_binary_expr(0)
    }

    /// Parses an operand and then, as long as an operator of at least the
    /// given precedence follows, that operator and a right operand that binds
    /// tighter than it: operators of one precedence group to the left, and a
    /// tighter operator takes its operands first.
    fn parse_binary_expr(&mut self, precedence: i32) -> (parsed: Result<Expr, ParseError>)
        requires
            old(self).position <= old(self).tokens.len(),
            precedence <= 4,
        ensures
            final(self).tokens == old(self).tokens,
            old(self).position <= final(self).position <= final(self).tokens.len(),
            parsed is Ok ==> old(self).position < final(self).position,
            agrees(
                parsed,
                final(self).position,
                crate::grammar::parse_binary_expr(
                    old(self).tokens@,
                    old(self).position as int,
                    precedence as int,
                ),
                |expr: Expr| expr_view(expr),
            ),
        decreases old(self).tokens.len() - old(self).position, 3nat,
    {
        let ghost start = self.position as int;
        let mut left = match self.parse_primary() {
            Ok(expr) => expr,
            Err(error) => {
                return Err(error);
            },
        };
        loop
            invariant_except_break
                crate::grammar::parse_binary_expr(self.tokens@, start, precedence as int)
                    == crate::grammar::parse_binary_rest(
                    self.tokens@,
                    self.position as int,
                    precedence as int,
                    expr_view(left),
                ),
            invariant
                self.tokens == old(self).tokens,
                old(self).position < self.position <= self.tokens.len(),
                precedence <= 4,
                start == old(self).position,
            ensures
                crate::grammar::parse_binary_expr(self.tokens@, start, precedence as int) == Ok::<
                    (ExprView, int),
                    ParseError,
                >((expr_view(left), self.position as int)),
            decreases self.tokens.len() - self.position,
        {
            let op = match self.current_token().as_operator() {
                Some(op) => op,
                None => {
                    break ;
                },
            };
            let op_precedence = op.precedence();
            if op_precedence < precedence {
                break ;
            }
            self.advance();
            let right = match self.parse_binary_expr(op_precedence + 1) {
                Ok(expr) => expr,
                Err(error) => {
                    return Err(error);
                },
            };
            left = Expr::BinaryOp(BinaryOp { left: Box::new(left), op, right: Box::new(right) });
        }
        Ok(left)
    }

    fn parse_primary(&mut self) -> (parsed: Result<Expr, ParseError>)
        requires
            old(self).position <= old(self).tokens.len(),
        ensures
            final(self).tokens == old(self).tokens,
            old(self).position <= final(self).position <= final(self).tokens.len(),
            parsed is Ok ==> old(self).position < final(self).position,
            agrees(
                parsed,
                final(self).position,
                crate::grammar::parse_primary(old(self).tokens@, old(self).position as int),
                |expr: Expr| expr_view(expr),
            ),
        decreases old(self).tokens.len() - old(self).position, 2nat,
    {
        match self.current_token() {
            Token::Int(value) => {
                self.advance();
                Ok(Expr::Literal(Literal::Int(value)))
            },
            Token::Float(text) => {
                self.advance();
                Ok(Expr::Literal(Literal::Float(Float::Written(text))))
            },
            Token::String(text) => {
                self.advance();
                Ok(Expr::Literal(Literal::String(text)))
            },
            Token::Char(value) => {
                self.advance();
                Ok(Expr::Literal(Literal::Char(value)))
            },
            Token::Bool(value) => {
                self.advance();
                Ok(Expr::Literal(Literal::Bool(value)))
            },
            Token::Identifier(name) => {
                if self.next_token().is_delimiter(Delimiter::ParenthesisOpen) {
                    return self.parse_function_call_expr(name);
                }
                self.advance();
                Ok(Expr::Identifier(name))
            },
            Token::Delimiter(Delimiter::ParenthesisOpen) => {
                self.advance();
                let expr = match self.parse_expr() {
                    Ok(expr) => expr,
                    Err(error) => {
                        return Err(error);
                    },
                };
                match self.expect_delimiter(Delimiter::ParenthesisClose) {
                    Ok(()) => Ok(expr),
                    Err(error) => Err(error),
                }
            },
            _ => self.error(Expectation::Expression),
        }
    }
}

} // verus!
