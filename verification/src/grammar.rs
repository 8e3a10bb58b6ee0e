//! The grammar of the language, as functions from a token sequence and a
//! position to what is read there and where the reading ends.
//!
//! Each function here is what the parser's function of the same name is
//! proved to compute. A function that reads a list takes what it has read so
//! far as an argument.
//!
//! Where a function goes on at the position that another one ended at, it
//! first tests that this position lies further on and inside the tokens.
//! The test never fails; it stands there to show that the reading ends.
use vstd::prelude::*;

use crate::ast::{Float, FunctionParameter, Literal};
use crate::lexer::{
    Condition, Delimiter, Function, FunctionParamType, Keyword, Loop, Operator, Range, Token,
    TokenView, TypeDefinition, IO,
};
use crate::model::{ExprView, FunctionView, NodeView, StmtView, VarDeclView};
use crate::parser::{Expectation, ParseError};
use crate::tables::with_parameter;

verus! {

/// What was read and the position after it, or the error.
pub type Parsed<T> = Result<(T, int), ParseError>;

/// The token at `pos`; `Eof` past the end.
pub open spec fn found(tokens: Seq<Token>, pos: int) -> Token {
    if 0 <= pos < tokens.len() {
        tokens[pos]
    } else {
        Token::Eof
    }
}

/// The position after the token at `pos`; past the last token the position
/// stays.
pub open spec fn after(tokens: Seq<Token>, pos: int) -> int {
    if pos < tokens.len() {
        pos + 1
    } else {
        pos
    }
}

/// The error of a token that is not what the grammar asks for at `pos`.
pub open spec fn failure(tokens: Seq<Token>, pos: int, expected: Expectation) -> ParseError {
    ParseError { expected, found: found(tokens, pos), position: pos as usize }
}

pub open spec fn is_keyword(tokens: Seq<Token>, pos: int, keyword: Keyword) -> bool {
    found(tokens, pos)@ == TokenView::Keyword(keyword)
}

pub open spec fn is_delimiter(tokens: Seq<Token>, pos: int, delimiter: Delimiter) -> bool {
    found(tokens, pos)@ == TokenView::Delimiter(delimiter)
}

pub open spec fn is_end(tokens: Seq<Token>, pos: int) -> bool {
    found(tokens, pos)@ == TokenView::Eof
}

/// Reads the keyword that must stand at `pos`.
pub open spec fn expect_keyword(tokens: Seq<Token>, pos: int, keyword: Keyword) -> Parsed<()> {
    if is_keyword(tokens, pos, keyword) {
        Ok(((), pos + 1))
    } else {
        Err(failure(tokens, pos, Expectation::Token(Token::Keyword(keyword))))
    }
}

/// Reads the delimiter that must stand at `pos`.
pub open spec fn expect_delimiter(tokens: Seq<Token>, pos: int, delimiter: Delimiter) -> Parsed<
    (),
> {
    if is_delimiter(tokens, pos, delimiter) {
        Ok(((), pos + 1))
    } else {
        Err(failure(tokens, pos, Expectation::Token(Token::Delimiter(delimiter))))
    }
}

pub open spec fn binary(left: ExprView, op: Operator, right: ExprView) -> ExprView {
    ExprView::BinaryOp { left: Box::new(left), op, right: Box::new(right) }
}

/// An expression: a binary expression of any precedence.
pub open spec fn parse_expr(tokens: Seq<Token>, pos: int) -> Parsed<ExprView>
    decreases tokens.len() - pos, 4nat,
{
    parse_binary_expr(tokens, pos, 0)
}

/// An operand, then the operators of at least the precedence `precedence`
/// that follow it, each with its right operand.
pub open spec fn parse_binary_expr(tokens: Seq<Token>, pos: int, precedence: int) -> Parsed<
    ExprView,
>
    decreases tokens.len() - pos, 3nat,
{
    match parse_primary(tokens, pos) {
        Err(error) => Err(error),
        Ok((left, end)) => if pos < end <= tokens.len() {
            parse_binary_rest(tokens, end, precedence, left)
        } else {
            Ok((left, end))
        },
    }
}

/// What follows an operand `left`: as long as the next token is an operator
/// of at least the precedence `precedence`, the operator and a right operand
/// in which only tighter operators are read; the two make the next `left`.
/// So operators of one precedence group to the left, and a tighter operator
/// takes its operands first.
pub open spec fn parse_binary_rest(
    tokens: Seq<Token>,
    pos: int,
    precedence: int,
    left: ExprView,
) -> Parsed<ExprView>
    decreases tokens.len() - pos, 0nat,
{
    match found(tokens, pos) {
        Token::Operator(op) => if op.spec_precedence() < precedence || pos >= tokens.len() {
            Ok((left, pos))
        } else {
            match parse_binary_expr(tokens, pos + 1, op.spec_precedence() + 1) {
                Err(error) => Err(error),
                Ok((right, end)) => if pos < end <= tokens.len() {
                    parse_binary_rest(tokens, end, precedence, binary(left, op, right))
                } else {
                    Ok((binary(left, op, right), end))
                },
            }
        },
        _ => Ok((left, pos)),
    }
}

/// An operand: a literal, a name, a call, or an expression in parentheses.
pub open spec fn parse_primary(tokens: Seq<Token>, pos: int) -> Parsed<ExprView>
    decreases tokens.len() - pos, 2nat,
{
    match found(tokens, pos) {
        Token::Int(value) => Ok((ExprView::Literal(Literal::Int(value)), pos + 1)),
        Token::Float(text) => Ok(
            (ExprView::Literal(Literal::Float(Float::Written(text))), pos + 1),
        ),
        Token::String(text) => Ok((ExprView::Literal(Literal::String(text)), pos + 1)),
        Token::Char(value) => Ok((ExprView::Literal(Literal::Char(value)), pos + 1)),
        Token::Bool(value) => Ok((ExprView::Literal(Literal::Bool(value)), pos + 1)),
        Token::Identifier(name) => if is_delimiter(tokens, pos + 1, Delimiter::ParenthesisOpen) {
            match parse_function_call(tokens, pos) {
                Err(error) => Err(error),
                Ok((args, end)) => Ok((ExprView::FunctionCall { name: name@, args }, end)),
            }
        } else {
            Ok((ExprView::Identifier(name@), pos + 1))
        },
        Token::Delimiter(Delimiter::ParenthesisOpen) => if pos < tokens.len() {
            match parse_expr(tokens, pos + 1) {
                Err(error) => Err(error),
                Ok((expr, end)) => match expect_delimiter(tokens, end, Delimiter::ParenthesisClose) {
                    Err(error) => Err(error),
                    Ok((_, end)) => Ok((expr, end)),
                },
            }
        } else {
            Err(failure(tokens, pos, Expectation::Expression))
        },
        _ => Err(failure(tokens, pos, Expectation::Expression)),
    }
}

/// The arguments of a call whose name stands at `pos`: none where no
/// parenthesis follows the name; else the expressions between the
/// parentheses.
pub open spec fn parse_function_call(tokens: Seq<Token>, pos: int) -> Parsed<Seq<ExprView>>
    decreases tokens.len() - pos, 1nat,
{
    if is_delimiter(tokens, pos + 1, Delimiter::ParenthesisOpen) && pos + 1 < tokens.len() {
        match parse_arguments(tokens, pos + 2, Seq::empty()) {
            Err(error) => Err(error),
            Ok((args, end)) => match expect_delimiter(tokens, end, Delimiter::ParenthesisClose) {
                Err(error) => Err(error),
                Ok((_, end)) => Ok((args, end)),
            },
        }
    } else {
        Ok((Seq::empty(), after(tokens, pos)))
    }
}

/// The arguments from `pos` on, after those in `read`: expressions
/// separated by commas, up to a closing parenthesis or to an expression that
/// no comma follows.
pub open spec fn parse_arguments(tokens: Seq<Token>, pos: int, read: Seq<ExprView>) -> Parsed<
    Seq<ExprView>,
>
    decreases tokens.len() - pos, 5nat,
{
    if is_delimiter(tokens, pos, Delimiter::ParenthesisClose) {
        Ok((read, pos))
    } else {
        match parse_expr(tokens, pos) {
            Err(error) => Err(error),
            Ok((expr, end)) => if is_delimiter(tokens, end, Delimiter::Comma) && pos < end
                < tokens.len() {
                parse_arguments(tokens, end + 1, read.push(expr))
            } else {
                Ok((read.push(expr), end))
            },
        }
    }
}

pub open spec fn program(stmts: Seq<StmtView>) -> Box<NodeView> {
    Box::new(NodeView::Program(stmts))
}

/// One statement, told by its first token.
pub open spec fn parse_stmt(tokens: Seq<Token>, pos: int) -> Parsed<StmtView>
    decreases tokens.len() - pos, 10nat,
{
    match found(tokens, pos) {
        Token::Keyword(Keyword::Function(Function::Alg)) => parse_alg(tokens, pos),
        Token::Keyword(Keyword::Function(Function::ImportNamespace)) => parse_import_namespace(
            tokens,
            pos,
        ),
        Token::Keyword(Keyword::Condition(Condition::If)) => parse_condition(tokens, pos),
        Token::Keyword(Keyword::Loop(Loop::Start)) => parse_loop(tokens, pos),
        Token::Keyword(Keyword::Loop(Loop::Break)) => Ok((StmtView::Break, pos + 1)),
        Token::Keyword(Keyword::TypeDef(type_def)) => parse_var_decl(tokens, pos, type_def),
        Token::Identifier(name) => if found(tokens, pos + 1)@ == TokenView::Operator(
            Operator::Assignment,
        ) {
            parse_assign(tokens, pos)
        } else {
            match parse_function_call(tokens, pos) {
                Err(error) => Err(error),
                Ok((args, end)) => Ok((StmtView::FunctionCall { name: name@, args }, end)),
            }
        },
        Token::Keyword(Keyword::IO(IO::Output)) => parse_output(tokens, pos),
        _ => Err(failure(tokens, pos, Expectation::Statement)),
    }
}

/// Statements from `pos` on, after those in `read`, up to one of two
/// keywords, which is not read; with `or_end`, the end of the tokens stops
/// the list too.
pub open spec fn parse_block(
    tokens: Seq<Token>,
    pos: int,
    first: Keyword,
    second: Keyword,
    or_end: bool,
    read: Seq<StmtView>,
) -> Parsed<Seq<StmtView>>
    decreases tokens.len() - pos, 11nat,
{
    if is_keyword(tokens, pos, first) || is_keyword(tokens, pos, second) || (or_end && is_end(
        tokens,
        pos,
    )) {
        Ok((read, pos))
    } else {
        match parse_stmt(tokens, pos) {
            Err(error) => Err(error),
            Ok((stmt, end)) => if pos < end <= tokens.len() {
                parse_block(tokens, end, first, second, or_end, read.push(stmt))
            } else {
                Ok((read.push(stmt), end))
            },
        }
    }
}

/// An import: the keyword and the name of the namespace.
pub open spec fn parse_import_namespace(tokens: Seq<Token>, pos: int) -> Parsed<StmtView> {
    match found(tokens, pos + 1) {
        Token::Identifier(name) => Ok((StmtView::ImportNamespace(name@), pos + 2)),
        _ => Err(failure(tokens, pos + 1, Expectation::Identifier)),
    }
}

/// An assignment: a name, the assignment operator, an expression.
pub open spec fn parse_assign(tokens: Seq<Token>, pos: int) -> Parsed<StmtView>
    decreases tokens.len() - pos, 9nat,
{
    match found(tokens, pos) {
        Token::Identifier(name) => if found(tokens, pos + 1)@ == TokenView::Operator(
            Operator::Assignment,
        ) {
            match parse_expr(tokens, pos + 2) {
                Err(error) => Err(error),
                Ok((value, end)) => Ok((StmtView::Assign { name: name@, value }, end)),
            }
        } else {
            Err(
                failure(
                    tokens,
                    pos + 1,
                    Expectation::Token(Token::Operator(Operator::Assignment)),
                ),
            )
        },
        _ => Err(failure(tokens, pos, Expectation::Identifier)),
    }
}

/// A declaration, the type standing at `pos`: one name, with an initial
/// value after an assignment operator, or several names separated by commas.
pub open spec fn parse_var_decl(tokens: Seq<Token>, pos: int, type_def: TypeDefinition) -> Parsed<
    StmtView,
>
    decreases tokens.len() - pos, 9nat,
{
    match found(tokens, pos + 1) {
        Token::Identifier(name) => match found(tokens, pos + 2) {
            Token::Operator(Operator::Assignment) => match parse_expr(tokens, pos + 3) {
                Err(error) => Err(error),
                Ok((value, end)) => Ok(
                    (
                        StmtView::VarDecl(VarDeclView { name: name@, type_def, value: Some(value) }),
                        end,
                    ),
                ),
            },
            Token::Delimiter(Delimiter::Comma) => match parse_names(
                tokens,
                pos + 2,
                type_def,
                seq![VarDeclView { name: name@, type_def, value: None }],
            ) {
                Err(error) => Err(error),
                Ok((declarations, end)) => Ok((StmtView::VarsDecl(declarations), end)),
            },
            _ => Ok(
                (StmtView::VarDecl(VarDeclView { name: name@, type_def, value: None }), pos + 2),
            ),
        },
        _ => Err(failure(tokens, pos + 1, Expectation::Identifier)),
    }
}

/// The further names of a declaration, after those in `read`: each after a
/// comma.
pub open spec fn parse_names(
    tokens: Seq<Token>,
    pos: int,
    type_def: TypeDefinition,
    read: Seq<VarDeclView>,
) -> Parsed<Seq<VarDeclView>>
    decreases tokens.len() - pos,
{
    if is_delimiter(tokens, pos, Delimiter::Comma) && pos < tokens.len() {
        match found(tokens, pos + 1) {
            Token::Identifier(name) => parse_names(
                tokens,
                pos + 2,
                type_def,
                read.push(VarDeclView { name: name@, type_def, value: None }),
            ),
            _ => Err(failure(tokens, pos + 1, Expectation::Identifier)),
        }
    } else {
        Ok((read, pos))
    }
}

/// An output statement: the keyword, then values and line-break markers.
pub open spec fn parse_output(tokens: Seq<Token>, pos: int) -> Parsed<StmtView>
    decreases tokens.len() - pos, 9nat,
{
    if pos < tokens.len() {
        match parse_output_values(tokens, pos + 1, Seq::empty()) {
            Err(error) => Err(error),
            Ok((values, end)) => Ok((StmtView::Output { values }, end)),
        }
    } else {
        Err(failure(tokens, pos, Expectation::Statement))
    }
}

/// The values of an output statement from `pos` on, after those in `read`:
/// expressions and line-break markers, with commas between them, up to the
/// next keyword, the end of the tokens, or an expression that no comma
/// follows.
pub open spec fn parse_output_values(tokens: Seq<Token>, pos: int, read: Seq<ExprView>) -> Parsed<
    Seq<ExprView>,
>
    decreases tokens.len() - pos, 5nat,
{
    if pos >= tokens.len() {
        Ok((read, pos))
    } else {
        match found(tokens, pos) {
            Token::Eof => Ok((read, pos)),
            Token::Keyword(Keyword::IO(IO::ChangeLine)) => parse_output_values(
                tokens,
                pos + 1,
                read.push(ExprView::NewLine),
            ),
            Token::Delimiter(Delimiter::Comma) => parse_output_values(tokens, pos + 1, read),
            Token::Keyword(_) => Ok((read, pos)),
            _ => match parse_expr(tokens, pos) {
                Err(error) => Err(error),
                Ok((expr, end)) => if is_delimiter(tokens, end, Delimiter::Comma) && pos < end
                    <= tokens.len() {
                    parse_output_values(tokens, end, read.push(expr))
                } else {
                    Ok((read.push(expr), end))
                },
            },
        }
    }
}

/// A condition: the if-keyword, an expression, the then-keyword, the
/// statements of the first branch; after an else-keyword those of the second
/// branch; the end-keyword.
pub open spec fn parse_condition(tokens: Seq<Token>, pos: int) -> Parsed<StmtView>
    decreases tokens.len() - pos, 9nat,
{
    if pos >= tokens.len() {
        Err(failure(tokens, pos, Expectation::Statement))
    } else {
        match parse_expr(tokens, pos + 1) {
            Err(error) => Err(error),
            Ok((condition, end)) => match expect_keyword(
                tokens,
                end,
                Keyword::Condition(Condition::Then),
            ) {
                Err(error) => Err(error),
                Ok((_, end)) => if !(pos < end <= tokens.len()) {
                    Err(failure(tokens, pos, Expectation::Statement))
                } else {
                    match parse_block(
                        tokens,
                        end,
                        Keyword::Condition(Condition::Else),
                        Keyword::Condition(Condition::EndCondition),
                        false,
                        Seq::empty(),
                    ) {
                        Err(error) => Err(error),
                        Ok((left, end)) => if is_keyword(
                            tokens,
                            end,
                            Keyword::Condition(Condition::Else),
                        ) {
                            if !(pos < end < tokens.len()) {
                                Err(failure(tokens, pos, Expectation::Statement))
                            } else {
                                match parse_block(
                                    tokens,
                                    end + 1,
                                    Keyword::Condition(Condition::EndCondition),
                                    Keyword::Condition(Condition::EndCondition),
                                    false,
                                    Seq::empty(),
                                ) {
                                    Err(error) => Err(error),
                                    Ok((right, end)) => match expect_keyword(
                                        tokens,
                                        end,
                                        Keyword::Condition(Condition::EndCondition),
                                    ) {
                                        Err(error) => Err(error),
                                        Ok((_, end)) => Ok(
                                            (
                                                StmtView::Condition {
                                                    condition,
                                                    left: program(left),
                                                    right: Some(program(right)),
                                                },
                                                end,
                                            ),
                                        ),
                                    },
                                }
                            }
                        } else {
                            match expect_keyword(
                                tokens,
                                end,
                                Keyword::Condition(Condition::EndCondition),
                            ) {
                                Err(error) => Err(error),
                                Ok((_, end)) => Ok(
                                    (
                                        StmtView::Condition {
                                            condition,
                                            left: program(left),
                                            right: None,
                                        },
                                        end,
                                    ),
                                ),
                            }
                        },
                    }
                },
            },
        }
    }
}

/// The end of a loop body: the plain loop-end keyword, or the guarded one
/// with the guard after it.
pub open spec fn parse_loop_end(tokens: Seq<Token>, pos: int) -> Parsed<Option<ExprView>>
    decreases tokens.len() - pos, 8nat,
{
    if is_keyword(tokens, pos, Keyword::Loop(Loop::EndIf)) && pos < tokens.len() {
        match parse_expr(tokens, pos + 1) {
            Err(error) => Err(error),
            Ok((guard, end)) => Ok((Some(guard), end)),
        }
    } else {
        match expect_keyword(tokens, pos, Keyword::Loop(Loop::End)) {
            Err(error) => Err(error),
            Ok((_, end)) => Ok((None, end)),
        }
    }
}

/// The statements of a loop body, up to a loop-end keyword, and the end of
/// the loop.
pub open spec fn parse_loop_body(tokens: Seq<Token>, pos: int, guard_allowed: bool) -> Parsed<
    (Seq<StmtView>, Option<ExprView>),
>
    decreases tokens.len() - pos, 12nat,
{
    match parse_block(
        tokens,
        pos,
        Keyword::Loop(Loop::End),
        if guard_allowed {
            Keyword::Loop(Loop::EndIf)
        } else {
            Keyword::Loop(Loop::End)
        },
        false,
        Seq::empty(),
    ) {
        Err(error) => Err(error),
        Ok((body, end)) => if guard_allowed {
            if !(pos <= end <= tokens.len()) {
                Err(failure(tokens, pos, Expectation::Statement))
            } else {
                match parse_loop_end(tokens, end) {
                    Err(error) => Err(error),
                    Ok((guard, end)) => Ok(((body, guard), end)),
                }
            }
        } else {
            Ok(((body, None), after(tokens, end)))
        },
    }
}

/// A loop, in one of its four forms, told by the token after the
/// loop-start keyword: the while-keyword (a guard, then the body); an
/// integer literal (the count, the times-keyword, then the body, which may
/// end with a guard); the for-keyword (a name, the from-keyword, the start,
/// the to-keyword, the end, then the body); anything else (a bare body, which
/// may end with a guard).
pub open spec fn parse_loop(tokens: Seq<Token>, pos: int) -> Parsed<StmtView>
    decreases tokens.len() - pos, 9nat,
{
    if pos >= tokens.len() {
        Err(failure(tokens, pos, Expectation::Statement))
    } else {
        match found(tokens, pos + 1) {
            Token::Keyword(Keyword::Loop(Loop::While)) => match parse_expr(tokens, pos + 2) {
                Err(error) => Err(error),
                Ok((guard, end)) => if !(pos < end <= tokens.len()) {
                    Err(failure(tokens, pos, Expectation::Statement))
                } else {
                    match parse_loop_body(tokens, end, false) {
                        Err(error) => Err(error),
                        Ok(((body, _), end)) => Ok(
                            (StmtView::Loop { condition: Some(guard), body: program(body) }, end),
                        ),
                    }
                },
            },
            Token::Int(times) => match expect_keyword(
                tokens,
                pos + 2,
                Keyword::Loop(Loop::Times),
            ) {
                Err(error) => Err(error),
                Ok((_, end)) => match parse_loop_body(tokens, end, true) {
                    Err(error) => Err(error),
                    Ok(((body, guard), end)) => Ok(
                        (
                            StmtView::RepeatLoop {
                                condition: guard,
                                count: ExprView::Literal(Literal::Int(times)),
                                body: program(body),
                            },
                            end,
                        ),
                    ),
                },
            },
            Token::Keyword(Keyword::Range(Range::For)) => match found(tokens, pos + 2) {
                Token::Identifier(var) => match expect_keyword(
                    tokens,
                    pos + 3,
                    Keyword::Range(Range::From),
                ) {
                    Err(error) => Err(error),
                    Ok((_, end)) => match parse_expr(tokens, end) {
                        Err(error) => Err(error),
                        Ok((start, end)) => match expect_keyword(
                            tokens,
                            end,
                            Keyword::Range(Range::To),
                        ) {
                            Err(error) => Err(error),
                            Ok((_, end)) => if !(pos < end <= tokens.len()) {
                                Err(failure(tokens, pos, Expectation::Statement))
                            } else {
                                match parse_expr(tokens, end) {
                                    Err(error) => Err(error),
                                    Ok((stop, end)) => if !(pos < end <= tokens.len()) {
                                        Err(failure(tokens, pos, Expectation::Statement))
                                    } else {
                                        match parse_loop_body(tokens, end, false) {
                                            Err(error) => Err(error),
                                            Ok(((body, _), end)) => Ok(
                                                (
                                                    StmtView::ForLoop {
                                                        var: var@,
                                                        start,
                                                        end: stop,
                                                        body: program(body),
                                                    },
                                                    end,
                                                ),
                                            ),
                                        }
                                    },
                                }
                            },
                        },
                    },
                },
                _ => Err(failure(tokens, pos + 2, Expectation::Identifier)),
            },
            _ => match parse_loop_body(tokens, pos + 1, true) {
                Err(error) => Err(error),
                Ok(((body, guard), end)) => Ok(
                    (StmtView::Loop { condition: guard, body: program(body) }, end),
                ),
            },
        }
    }
}

/// The passing mode in front of a parameter and the position after it: a
/// marker keyword, or none, which means a value passed in. The argument
/// marker followed by the result marker means a value passed in and out.
pub open spec fn parse_param_mode(tokens: Seq<Token>, pos: int) -> (FunctionParamType, int) {
    match found(tokens, pos) {
        Token::Keyword(Keyword::Function(Function::FunctionParamType(mode))) => if mode
            == FunctionParamType::ArgumentParam && is_keyword(
            tokens,
            pos + 1,
            Keyword::Function(Function::FunctionParamType(FunctionParamType::ResultParam)),
        ) {
            (FunctionParamType::ArgumentResultParam, pos + 2)
        } else {
            (mode, pos + 1)
        },
        _ => (FunctionParamType::ArgumentParam, pos),
    }
}

/// The names of one group of parameters from `pos` on, each made a
/// parameter of the group's type and mode and put into `read`: names
/// separated by commas, up to a name that no comma follows or to a token
/// that is no name.
pub open spec fn parse_param_names(
    tokens: Seq<Token>,
    pos: int,
    parameter: FunctionParameter,
    read: Seq<(Seq<char>, FunctionParameter)>,
) -> (Seq<(Seq<char>, FunctionParameter)>, int)
    decreases tokens.len() - pos,
{
    match found(tokens, pos) {
        Token::Identifier(name) => if is_delimiter(tokens, pos + 1, Delimiter::Comma) && pos + 1
            < tokens.len() {
            parse_param_names(tokens, pos + 2, parameter, with_parameter(read, name@, parameter))
        } else {
            (with_parameter(read, name@, parameter), pos + 1)
        },
        _ => (read, pos),
    }
}

/// The parameters from `pos` on, after those in `read`, up to a closing
/// parenthesis or the end of the tokens: groups of an optional mode, a
/// type, and names.
pub open spec fn parse_params(
    tokens: Seq<Token>,
    pos: int,
    read: Seq<(Seq<char>, FunctionParameter)>,
) -> Parsed<Seq<(Seq<char>, FunctionParameter)>>
    decreases tokens.len() - pos,
{
    if is_delimiter(tokens, pos, Delimiter::ParenthesisClose) || is_end(tokens, pos) {
        Ok((read, pos))
    } else {
        let (result_type, at_type) = parse_param_mode(tokens, pos);
        match found(tokens, at_type) {
            Token::Keyword(Keyword::TypeDef(type_definition)) => {
                let (read, end) = parse_param_names(
                    tokens,
                    at_type + 1,
                    FunctionParameter { type_definition, result_type },
                    read,
                );
                if pos < end <= tokens.len() {
                    parse_params(tokens, end, read)
                } else {
                    Ok((read, end))
                }
            },
            _ => Err(failure(tokens, at_type, Expectation::Type)),
        }
    }
}

/// The head of an algorithm after its keyword: an optional return type and
/// an optional name, `main` where none is written; with the position after
/// them.
pub open spec fn parse_alg_head(tokens: Seq<Token>, pos: int) -> (
    Option<TypeDefinition>,
    Seq<char>,
    int,
) {
    let (return_type, at_name) = match found(tokens, pos) {
        Token::Keyword(Keyword::TypeDef(type_def)) => (Some(type_def), pos + 1),
        _ => (None, pos),
    };
    match found(tokens, at_name) {
        Token::Identifier(name) => (return_type, name@, at_name + 1),
        _ => (return_type, "main"@, at_name),
    }
}

/// An algorithm: its keyword, the head, the parameters in parentheses, and
/// the body between the start and stop keywords.
pub open spec fn parse_alg(tokens: Seq<Token>, pos: int) -> Parsed<StmtView>
    decreases tokens.len() - pos, 9nat,
{
    if pos >= tokens.len() {
        Err(failure(tokens, pos, Expectation::Statement))
    } else {
        let (return_type, name, at_params) = parse_alg_head(tokens, pos + 1);
        let read = if is_delimiter(tokens, at_params, Delimiter::ParenthesisOpen) {
            parse_params(tokens, at_params + 1, Seq::empty())
        } else {
            Ok((Seq::empty(), at_params))
        };
        match read {
            Err(error) => Err(error),
            Ok((params, end)) => match expect_delimiter(tokens, end, Delimiter::ParenthesisClose) {
                Err(error) => Err(error),
                Ok((_, end)) => match expect_keyword(
                    tokens,
                    end,
                    Keyword::Function(Function::Start),
                ) {
                    Err(error) => Err(error),
                    Ok((_, end)) => if !(pos < end <= tokens.len()) {
                        Err(failure(tokens, pos, Expectation::Statement))
                    } else {
                        match parse_block(
                            tokens,
                            end,
                            Keyword::Function(Function::Stop),
                            Keyword::Function(Function::Stop),
                            true,
                            Seq::empty(),
                        ) {
                            Err(error) => Err(error),
                            Ok((body, end)) => match expect_keyword(
                                tokens,
                                end,
                                Keyword::Function(Function::Stop),
                            ) {
                                Err(error) => Err(error),
                                Ok((_, end)) => Ok(
                                    (
                                        StmtView::Alg(
                                            FunctionView {
                                                name,
                                                body: program(body),
                                                params,
                                                return_type,
                                            },
                                        ),
                                        end,
                                    ),
                                ),
                            },
                        }
                    },
                },
            },
        }
    }
}

/// A whole program from `pos` on, after the statements in `read`:
/// statements up to the end of the tokens. The first error ends the reading;
/// it comes with the statements read before it.
pub open spec fn parse_program(tokens: Seq<Token>, pos: int, read: Seq<StmtView>) -> Result<
    Seq<StmtView>,
    (Seq<StmtView>, ParseError),
>
    decreases tokens.len() - pos,
{
    if is_end(tokens, pos) {
        Ok(read)
    } else {
        match parse_stmt(tokens, pos) {
            Err(error) => Err((read, error)),
            Ok((stmt, end)) => if pos < end <= tokens.len() {
                parse_program(tokens, end, read.push(stmt))
            } else {
                Ok(read.push(stmt))
            },
        }
    }
}

} // verus!
