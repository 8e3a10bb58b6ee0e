//! What holds of the language as a whole, proved from the grammar, the
//! scopes and the evaluator's contracts.
use vstd::prelude::*;

use crate::ast::{ErrorView, EvalResult, Expr, FunctionResult, Literal, Loop, Stmt, Variable};
use crate::environment::{
    assigned, assignment, block_scope, chain_kept, import, lookup_function, lookup_variable,
    scope_kept, ScopeView,
};
use crate::eval::{
    call_finished, int_operation, nodes, operation_value, plain_value, written_back,
};
use crate::grammar::{binary, found, parse_binary_expr, parse_binary_rest, parse_expr, parse_primary};
use crate::lexer::{Operator, Token};
use crate::model::{expr_view, ExprView};
use crate::parser::ParseError;
use crate::semantics::{
    after, done, failed, parameters_of, run_arguments, run_call, run_call_start, run_expr, run_loop, run_node,
    run_operation, run_stmt, run_stmts, run_test, Run,
};

verus! {

/// The expression that a single token is, where it is an operand by itself:
/// a literal or a name.
pub open spec fn operand(token: Token) -> Option<ExprView> {
    match token {
        Token::Int(value) => Some(ExprView::Literal(Literal::Int(value))),
        Token::Float(text) => Some(
            ExprView::Literal(Literal::Float(crate::ast::Float::Written(text))),
        ),
        Token::String(text) => Some(ExprView::Literal(Literal::String(text))),
        Token::Char(value) => Some(ExprView::Literal(Literal::Char(value))),
        Token::Bool(value) => Some(ExprView::Literal(Literal::Bool(value))),
        Token::Identifier(name) => Some(ExprView::Identifier(name@)),
        _ => None,
    }
}

/// Whether an operator may stand in an expression: the multiplicative, the
/// additive and the relational operators, and the equality test.
pub open spec fn in_expressions(operator: Operator) -> bool {
    operator.spec_precedence() >= 0
}

/// Of two operators in a row, the one that binds tighter takes the operand
/// between them: `x o1 y o2 z` reads as `x o1 (y o2 z)` where `o2` binds
/// tighter than `o1`, and as `(x o1 y) o2 z` where it does not. So the
/// multiplicative operators take their operands before the additive ones,
/// these before the relational ones, these before the equality test, and
/// operators that bind alike group to the left.
pub proof fn law_tighter_operator_takes_the_operand(
    x: Token,
    first: Operator,
    y: Token,
    second: Operator,
    z: Token,
)
    requires
        operand(x) is Some,
        operand(y) is Some,
        operand(z) is Some,
        in_expressions(first),
        in_expressions(second),
    ensures
        parse_expr(seq![x, Token::Operator(first), y, Token::Operator(second), z], 0) == Ok::<
            (ExprView, int),
            ParseError,
        >(
            (
                if second.spec_precedence() > first.spec_precedence() {
                    binary(operand(x)->0, first, binary(operand(y)->0, second, operand(z)->0))
                } else {
                    binary(binary(operand(x)->0, first, operand(y)->0), second, operand(z)->0)
                },
                5,
            ),
        ),
{
    let tokens = seq![x, Token::Operator(first), y, Token::Operator(second), z];
    let (a, b, c) = (operand(x)->0, operand(y)->0, operand(z)->0);
    assert(tokens.len() == 5);
    assert(found(tokens, 0) == x && found(tokens, 1) == Token::Operator(first) && found(tokens, 2)
        == y && found(tokens, 3) == Token::Operator(second) && found(tokens, 4) == z && found(
        tokens,
        5,
    ) == Token::Eof);
    assert(parse_primary(tokens, 0) == Ok::<(ExprView, int), ParseError>((a, 1)));
    assert(parse_primary(tokens, 2) == Ok::<(ExprView, int), ParseError>((b, 3)));
    assert(parse_primary(tokens, 4) == Ok::<(ExprView, int), ParseError>((c, 5)));
    let p1 = first.spec_precedence() as int;
    let p2 = second.spec_precedence() as int;
    assert forall|precedence: int, left: ExprView| #[trigger]
        parse_binary_rest(tokens, 5, precedence, left) == Ok::<(ExprView, int), ParseError>(
            (left, 5),
        ) by {}
    assert forall|precedence: int|
        precedence <= 4 implies #[trigger] parse_binary_expr(tokens, 4, precedence) == Ok::<
            (ExprView, int),
            ParseError,
        >((c, 5)) by {}
    if p2 > p1 {
        assert(found(tokens, 3) == Token::Operator(second));
        assert(!(second.spec_precedence() < p1 + 1));
        assert(parse_binary_expr(tokens, 4, p2 + 1) == Ok::<(ExprView, int), ParseError>((c, 5)));
        assert(parse_binary_expr(tokens, 4, second.spec_precedence() + 1) == Ok::<
            (ExprView, int),
            ParseError,
        >((c, 5)));
        assert(parse_binary_rest(tokens, 5, p1 + 1, binary(b, second, c)) == Ok::<
            (ExprView, int),
            ParseError,
        >((binary(b, second, c), 5)));
        assert(parse_binary_rest(tokens, 3, p1 + 1, b) == Ok::<(ExprView, int), ParseError>(
            (binary(b, second, c), 5),
        ));
        assert(parse_binary_expr(tokens, 2, first.spec_precedence() + 1) == Ok::<
            (ExprView, int),
            ParseError,
        >((binary(b, second, c), 5)));
        assert(parse_binary_rest(tokens, 5, 0, binary(a, first, binary(b, second, c))) == Ok::<
            (ExprView, int),
            ParseError,
        >((binary(a, first, binary(b, second, c)), 5)));
        assert(found(tokens, 1) == Token::Operator(first));
        assert(parse_binary_rest(tokens, 1, 0, a) == Ok::<(ExprView, int), ParseError>(
            (binary(a, first, binary(b, second, c)), 5),
        ));
    } else {
        assert(found(tokens, 3) == Token::Operator(second));
        assert(parse_binary_rest(tokens, 3, p1 + 1, b) == Ok::<(ExprView, int), ParseError>(
            (b, 3),
        ));
        assert(parse_binary_expr(tokens, 2, first.spec_precedence() + 1) == Ok::<
            (ExprView, int),
            ParseError,
        >((b, 3)));
        assert(parse_binary_expr(tokens, 4, second.spec_precedence() + 1) == Ok::<
            (ExprView, int),
            ParseError,
        >((c, 5)));
        assert(parse_binary_rest(tokens, 5, 0, binary(binary(a, first, b), second, c)) == Ok::<
            (ExprView, int),
            ParseError,
        >((binary(binary(a, first, b), second, c), 5)));
        assert(parse_binary_rest(tokens, 3, 0, binary(a, first, b)) == Ok::<
            (ExprView, int),
            ParseError,
        >((binary(binary(a, first, b), second, c), 5)));
        assert(found(tokens, 1) == Token::Operator(first));
        assert(parse_binary_rest(tokens, 1, 0, a) == Ok::<(ExprView, int), ParseError>(
            (binary(binary(a, first, b), second, c), 5),
        ));
    }
    assert(parse_binary_expr(tokens, 0, 0) == parse_binary_rest(tokens, 1, 0, a));
}

/// The value of an expression follows its tree: an expression on three
/// integers has the value that the operators give when the tighter one is
/// applied first, whatever the scopes hold. With the grouping that the
/// grammar gives, `2 + 3 * 4` is `2 + 12`.
pub proof fn law_value_follows_the_tree(
    expr: Expr,
    a: i32,
    first: Operator,
    b: i32,
    second: Operator,
    c: i32,
    scopes: Seq<ScopeView>,
)
    requires
        in_expressions(first),
        in_expressions(second),
        parse_expr(
            seq![
                Token::Int(a),
                Token::Operator(first),
                Token::Int(b),
                Token::Operator(second),
                Token::Int(c),
            ],
            0,
        ) == Ok::<(ExprView, int), ParseError>((expr_view(expr), 5)),
    ensures
        plain_value(expr, scopes) == if second.spec_precedence() > first.spec_precedence() {
            operation_value(
                Some(Ok(Literal::Int(a))),
                first,
                Some(int_operation(b, second, c)),
            )
        } else {
            operation_value(
                Some(int_operation(a, first, b)),
                second,
                Some(Ok(Literal::Int(c))),
            )
        },
{
    law_tighter_operator_takes_the_operand(
        Token::Int(a),
        first,
        Token::Int(b),
        second,
        Token::Int(c),
    );
    reveal_with_fuel(expr_view, 3);
    reveal_with_fuel(plain_value, 3);
    match expr {
        Expr::BinaryOp(outer) => {
            if second.spec_precedence() > first.spec_precedence() {
                match *outer.right {
                    Expr::BinaryOp(inner) => {
                        assert(*outer.left == Expr::Literal(Literal::Int(a)));
                        assert(*inner.left == Expr::Literal(Literal::Int(b)));
                        assert(*inner.right == Expr::Literal(Literal::Int(c)));
                    },
                    _ => {},
                }
            } else {
                match *outer.left {
                    Expr::BinaryOp(inner) => {
                        assert(*outer.right == Expr::Literal(Literal::Int(c)));
                        assert(*inner.left == Expr::Literal(Literal::Int(a)));
                        assert(*inner.right == Expr::Literal(Literal::Int(b)));
                    },
                    _ => {},
                }
            }
        },
        _ => {},
    }
}

/// A lookup passes over the scopes that do not declare the name: the inner
/// scopes of a chain hide nothing that they do not declare themselves.
pub proof fn law_lookup_falls_through(
    inner: Seq<ScopeView>,
    outer: Seq<ScopeView>,
    name: Seq<char>,
)
    requires
        forall|i: int| 0 <= i < inner.len() ==> !(#[trigger] inner[i]).variables.contains_key(name),
    ensures
        lookup_variable(inner + outer, name) == lookup_variable(outer, name),
    decreases inner.len(),
{
    if inner.len() == 0 {
        assert(inner + outer =~= outer);
    } else {
        assert(!inner[0].variables.contains_key(name));
        assert((inner + outer)[0] == inner[0]);
        assert((inner + outer).drop_first() =~= inner.drop_first() + outer);
        assert forall|i: int| 0 <= i < inner.drop_first().len() implies !(
        #[trigger] inner.drop_first()[i]).variables.contains_key(name) by {
            assert(inner.drop_first()[i] == inner[i + 1]);
        }
        law_lookup_falls_through(inner.drop_first(), outer, name);
    }
}

/// The scope of a statement list starts without variables, so every name
/// means inside the list, until the list declares it, what it means around
/// the list.
pub proof fn law_block_sees_the_scopes_around_it(scopes: Seq<ScopeView>, name: Seq<char>)
    requires
        scopes.len() >= 1,
    ensures
        lookup_variable(seq![block_scope(scopes[0])] + scopes, name) == lookup_variable(
            scopes,
            name,
        ),
{
    law_lookup_falls_through(seq![block_scope(scopes[0])], scopes, name);
}

/// Where every scope of a chain has kept its declarations, as it has after
/// a statement list has run inside the chain, each name is declared or not
/// as before, and with the type it had: what the list declared is not to be
/// seen.
pub proof fn law_kept_chain_declares_the_same(
    before: Seq<ScopeView>,
    after: Seq<ScopeView>,
    name: Seq<char>,
)
    requires
        chain_kept(before, after),
    ensures
        lookup_variable(before, name) is Some <==> lookup_variable(after, name) is Some,
        lookup_variable(before, name) is Some ==> lookup_variable(before, name)->0.type_def
            == lookup_variable(after, name)->0.type_def,
    decreases before.len(),
{
    if before.len() > 0 {
        assert(scope_kept(before[0], after[0]));
        assert(before[0].variables.dom() == after[0].variables.dom());
        if before[0].variables.contains_key(name) {
            assert(after[0].variables.contains_key(name));
        } else {
            assert(!after[0].variables.contains_key(name));
            assert forall|i: int| 0 <= i < before.drop_first().len() implies scope_kept(
                #[trigger] before.drop_first()[i],
                after.drop_first()[i],
            ) by {
                assert(scope_kept(before[i + 1], after[i + 1]));
            }
            law_kept_chain_declares_the_same(before.drop_first(), after.drop_first(), name);
        }
    }
}

/// An assignment of a value whose type is not the declared one fails with a
/// type mismatch, whichever scope declares the variable; and an assignment
/// that succeeds changes the value of that one variable: every name keeps
/// its type, and every other name its value.
pub proof fn law_assignment_keeps_types(
    scopes: Seq<ScopeView>,
    name: Seq<char>,
    value: Literal,
    other: Seq<char>,
)
    ensures
        lookup_variable(scopes, name) is Some && lookup_variable(scopes, name)->0.type_def
            != value.type_of() ==> assignment(scopes, name, value) == Err::<
            Seq<ScopeView>,
            ErrorView,
        >(
            ErrorView::TypeMismatch {
                expected: lookup_variable(scopes, name)->0.type_def,
                found: value.type_of(),
            },
        ),
        lookup_variable(scopes, name) is Some ==> lookup_variable(
            assigned(scopes, name, value),
            name,
        ) == Some(
            Variable { type_def: lookup_variable(scopes, name)->0.type_def, value: Some(value) },
        ),
        other != name ==> lookup_variable(assigned(scopes, name, value), other)
            == lookup_variable(scopes, other),
    decreases scopes.len(),
{
    if scopes.len() > 0 {
        let after = assigned(scopes, name, value);
        if scopes[0].variables.contains_key(name) {
            assert(after.drop_first() =~= scopes.drop_first());
        } else {
            assert(after.drop_first() =~= assigned(scopes.drop_first(), name, value));
            law_assignment_keeps_types(scopes.drop_first(), name, value, other);
        }
    }
}

/// An import shows the functions of the namespace, under their bare names,
/// in the importing scope, and changes no other scope: a name of the
/// namespace means the namespace's function, every other name means what it
/// meant, and the chain around the importing scope is as it was, so that a
/// scope opened later in it does not see the import.
pub proof fn law_import_reaches_one_scope(
    scopes: Seq<ScopeView>,
    namespace: Seq<char>,
    name: Seq<char>,
)
    requires
        scopes.len() >= 1,
        scopes[0].namespaces.contains_key(namespace),
    ensures
        import(scopes, namespace) is Ok,
        import(scopes, namespace)->Ok_0.drop_first() == scopes.drop_first(),
        lookup_function(import(scopes, namespace)->Ok_0, name) == if scopes[0].namespaces[namespace].contains_key(
            name,
        ) {
            Some(scopes[0].namespaces[namespace][name])
        } else {
            lookup_function(scopes, name)
        },
        scopes.len() >= 2 ==> block_scope(import(scopes, namespace)->Ok_0[1]).functions
            == scopes[1].functions,
{
    let after = import(scopes, namespace)->Ok_0;
    assert(after.drop_first() =~= scopes.drop_first());
}

/// Importing a namespace twice gives what importing it once gives.
pub proof fn law_import_is_idempotent(scopes: Seq<ScopeView>, namespace: Seq<char>)
    requires
        scopes.len() >= 1,
        scopes[0].namespaces.contains_key(namespace),
    ensures
        import(import(scopes, namespace)->Ok_0, namespace) == import(scopes, namespace),
{
    let once = import(scopes, namespace)->Ok_0;
    let twice = import(once, namespace)->Ok_0;
    assert(twice[0].functions =~= once[0].functions);
    assert(twice =~= once);
}

/// A loop whose guard is false at the start runs its body not once: the
/// loop is over where the test of the guard is, with the scopes that the
/// test left.
pub proof fn law_false_guard_runs_nothing(
    repeated: Loop,
    scopes: Seq<ScopeView>,
    budget: nat,
    test: Run<bool>,
)
    requires
        repeated.condition is Some,
        run_test(repeated.condition->0, scopes, budget) == Some(test),
        test.result == Ok::<bool, ErrorView>(false),
    ensures
        run_loop(repeated, scopes, budget) == after(test, done((), test.scopes, test.budget)),
{
}

/// A loop keeps the `Break` of its body to itself: whatever the body does,
/// the loop statement ends with `Procedure` or with an error, never with
/// `Break`, so that the loop around it goes on. The same holds of the range
/// loop and of the counted loop.
pub proof fn law_break_ends_one_loop(stmt: Stmt, scopes: Seq<ScopeView>, budget: nat)
    requires
        stmt is Loop || stmt is ForLoop || stmt is RepeatLoop,
    ensures
        run_stmt(stmt, scopes, budget) matches Some(run) ==> run.result is Err || run.result
            == Ok::<EvalResult, ErrorView>(EvalResult::Procedure),
{
}

/// An error ends a statement list at the statement that gave it: no later
/// statement runs, and the list ends with that error.
pub proof fn law_error_ends_the_list(
    stmts: Seq<Stmt>,
    from: int,
    scopes: Seq<ScopeView>,
    budget: nat,
    run: Run<EvalResult>,
)
    requires
        0 <= from < stmts.len(),
        run_stmt(stmts[from], scopes, budget) == Some(run),
        run.result is Err,
    ensures
        run_stmts(stmts, from, scopes, budget) == Some(run),
{
}

/// The error with which the body of a call or a native function ended is
/// the error of the call, and the caller's scopes stay as they were.
pub proof fn law_callee_error_is_the_call_error(
    error: ErrorView,
    names: Seq<Seq<char>>,
    return_type: Option<crate::lexer::TypeDefinition>,
    scope: Seq<ScopeView>,
    caller: Seq<ScopeView>,
)
    ensures
        call_finished(Err(error), names, return_type, scope, caller) == (
            Err::<FunctionResult, ErrorView>(error),
            caller,
        ),
{
}

/// A call of a name that no function table in reach holds fails with
/// `UndefinedFunction`, which names it; nothing is evaluated and no scope
/// changes.
pub proof fn law_undeclared_function_is_named(
    name: Seq<char>,
    arguments: Seq<Expr>,
    scopes: Seq<ScopeView>,
    budget: nat,
)
    requires
        lookup_function(scopes, name) is None,
    ensures
        run_call(name, arguments, scopes, budget) == failed::<FunctionResult>(
            ErrorView::UndefinedFunction(name),
            scopes,
            budget,
        ),
{
}

/// The value that a call leaves in a result parameter goes back to the
/// caller's variable of the parameter's name: where the call's scope holds a
/// value for the name and the caller declares the name with the type of that
/// value, handing back succeeds, and the caller then finds that value under
/// the name.
pub proof fn law_result_parameter_goes_back(
    name: Seq<char>,
    value: Literal,
    scope: Seq<ScopeView>,
    caller: Seq<ScopeView>,
)
    requires
        lookup_variable(scope, name) is Some,
        lookup_variable(scope, name)->0.value == Some(value),
        lookup_variable(caller, name) is Some,
        lookup_variable(caller, name)->0.type_def == value.type_of(),
    ensures
        written_back(seq![name], scope, caller, 0) == (
            Ok::<(), ErrorView>(()),
            assigned(caller, name, value),
        ),
        lookup_variable(written_back(seq![name], scope, caller, 0).1, name) == Some(
            Variable { type_def: value.type_of(), value: Some(value) },
        ),
{
    law_assignment_keeps_types(caller, name, value, name);
    let names = seq![name];
    assert(names[0] == name);
    assert(written_back(names, scope, assigned(caller, name, value), 1) == (
        Ok::<(), ErrorView>(()),
        assigned(caller, name, value),
    ));
}

/// An expression that calls nothing runs no statement, so its evaluation
/// never looks at the interruption flag and cannot be interrupted: it leaves
/// the scopes as they are, takes at most one step for each of its nodes, and
/// gives its value wherever the budget has a step for each node.
pub proof fn law_plain_expression_asks_nothing(expr: Expr, scopes: Seq<ScopeView>, budget: nat)
    requires
        plain_value(expr, scopes) is Some,
    ensures
        run_expr(expr, scopes, budget) matches Some(run) && !run.asked && run.scopes == scopes
            && run.budget <= budget && budget - run.budget <= nodes(expr) && (run.result
            == plain_value(expr, scopes)->0 || run.result == Err::<Literal, ErrorView>(
            ErrorView::StepLimit,
        )) && (budget >= nodes(expr) ==> run.result == plain_value(expr, scopes)->0),
    decreases expr,
{
    if budget > 0 {
        match expr {
            Expr::BinaryOp(operation) => {
                let rest = (budget - 1) as nat;
                law_plain_expression_asks_nothing(*operation.left, scopes, rest);
                let left = run_expr(*operation.left, scopes, rest)->0;
                if left.result is Ok {
                    law_plain_expression_asks_nothing(*operation.right, scopes, left.budget);
                }
                assert(run_expr(expr, scopes, budget) == run_operation(operation, scopes, rest));
            },
            _ => {},
        }
    }
}

/// Arguments that call nothing are evaluated without a look at the
/// interruption flag, and leave the scopes as they are.
pub proof fn law_plain_arguments_ask_nothing(
    arguments: Seq<Expr>,
    parameters: Seq<(Seq<char>, crate::ast::FunctionParameter)>,
    scopes: Seq<ScopeView>,
    budget: nat,
    from: int,
    read: Map<usize, Literal>,
)
    requires
        forall|i: int| 0 <= i < arguments.len() ==> plain_value(#[trigger] arguments[i], scopes) is Some,
    ensures
        run_arguments(arguments, parameters, scopes, budget, from, read) matches Some(run)
            && !run.asked && run.scopes == scopes && run.budget <= budget,
    decreases arguments.len() - from,
{
    if 0 <= from < arguments.len() && from < parameters.len() {
        if parameters[from].1.result_type == crate::lexer::FunctionParamType::ResultParam {
            law_plain_arguments_ask_nothing(arguments, parameters, scopes, budget, from + 1, read);
        } else {
            law_plain_expression_asks_nothing(arguments[from], scopes, budget);
            let run = run_expr(arguments[from], scopes, budget)->0;
            if run.result is Ok {
                law_plain_arguments_ask_nothing(
                    arguments,
                    parameters,
                    scopes,
                    run.budget,
                    from + 1,
                    read.insert(from as usize, run.result->Ok_0),
                );
            }
        }
    }
}

/// A call whose arguments call nothing, and which fails before its callee
/// runs, fails with exactly that error and changes no scope, whether the
/// callee is an algorithm or a native function: so it is with a wrong
/// number of arguments, with an argument of a wrong type, and with a result
/// parameter that has no variable of its name and type in the caller's
/// reach. No statement is run before, so no interruption can come instead.
pub proof fn law_call_fails_before_its_callee_runs(
    name: Seq<char>,
    arguments: Seq<Expr>,
    scopes: Seq<ScopeView>,
    budget: nat,
)
    requires
        lookup_function(scopes, name) is Some,
        forall|i: int| 0 <= i < arguments.len() ==> plain_value(#[trigger] arguments[i], scopes) is Some,
    ensures
        ({
            let parameters = parameters_of(lookup_function(scopes, name)->0);
            let start = run_call_start(parameters, arguments, scopes, budget);
            &&& start matches Some(started) && !started.asked && started.scopes == scopes
            &&& start->0.result matches Err(error) ==> run_call(name, arguments, scopes, budget)
                == Some(
                Run::<FunctionResult> {
                    result: Err(error),
                    scopes,
                    budget: start->0.budget,
                    asked: false,
                },
            )
        }),
{
    let parameters = parameters_of(lookup_function(scopes, name)->0);
    law_plain_arguments_ask_nothing(arguments, parameters, scopes, budget, 0, Map::empty());
}

/// A statement list without statements ends with `Procedure` wherever it
/// has a step to take, and changes nothing.
pub proof fn law_empty_list_ends(node: crate::ast::AstNode, scopes: Seq<ScopeView>, budget: nat)
    requires
        node matches crate::ast::AstNode::Program(stmts) && stmts@.len() == 0,
        budget > 0,
        scopes.len() >= 1,
    ensures
        run_node(node, scopes, budget) == done(EvalResult::Procedure, scopes, (budget - 1) as nat),
{
    assert((seq![block_scope(scopes[0])] + scopes).drop_first() =~= scopes);
}

} // verus!
