//! What a program means: for each kind of tree the result of running it, the
//! scopes it leaves, and the steps it leaves of its budget.
//!
//! The meaning is stated of a run that no one interrupts, and it says
//! whether the run looks at the interruption flag at all. It is `None` where
//! the run reaches a native function or computes on reals: there the host
//! decides. The evaluator is proved to follow it.
//!
//! Where a run goes on with the budget that a part of it left, it first tests
//! that this budget is no larger than before, or smaller where a round of a
//! loop is over. The test never fails; it stands there to show that the
//! meaning is defined, since every run ends when its budget does.
use vstd::prelude::*;

use crate::ast::{
    AstNode, BinaryOp, Condition, ErrorView, EvalResult, Expr, ForLoop, FunctionResult,
    FunctionVariant, Literal, Loop, RepeatLoop, RuntimeError, Stmt, VarDecl, Variable,
};
use crate::environment::{
    assignment, block_scope, import, lookup_function, lookup_variable, scope_with_variable,
    ScopeView,
};
use crate::eval::{
    arguments_checked, binary_result, bound_variables, call_finished, result_names, truth,
    with_return_slot,
};
use crate::ast::FunctionParameter;
use crate::lexer::{FunctionParamType, TypeDefinition};
use crate::tables::parameter_entries;

verus! {

/// How a run ended: its result, the chain of scopes it left, what it left
/// of its budget, and whether it looked at the interruption flag, which a
/// run does at the start of every statement that it runs.
pub struct Run<T> {
    pub result: Result<T, ErrorView>,
    pub scopes: Seq<ScopeView>,
    pub budget: nat,
    pub asked: bool,
}

/// A run that ended with a value and did not look at the flag.
pub open spec fn done<T>(value: T, scopes: Seq<ScopeView>, budget: nat) -> Option<Run<T>> {
    Some(Run { result: Ok(value), scopes, budget, asked: false })
}

/// A run that ended with an error and did not look at the flag.
pub open spec fn failed<T>(error: ErrorView, scopes: Seq<ScopeView>, budget: nat) -> Option<
    Run<T>,
> {
    Some(Run { result: Err(error), scopes, budget, asked: false })
}

/// A run that comes after an earlier one: it has looked at the flag where
/// one of the two has.
pub open spec fn after<T, U>(earlier: Run<U>, run: Option<Run<T>>) -> Option<Run<T>> {
    match run {
        None => None,
        Some(run) => Some(Run { asked: run.asked || earlier.asked, ..run }),
    }
}

/// A run that has looked at the flag before anything else.
pub open spec fn asking<T>(run: Option<Run<T>>) -> Option<Run<T>> {
    match run {
        None => None,
        Some(run) => Some(Run { asked: true, ..run }),
    }
}

/// A run with its value mapped; an error stays.
pub open spec fn then<T, U>(run: Option<Run<T>>, f: spec_fn(T) -> Result<U, ErrorView>) -> Option<
    Run<U>,
> {
    match run {
        None => None,
        Some(run) => Some(
            Run {
                result: match run.result {
                    Ok(value) => f(value),
                    Err(error) => Err(error),
                },
                scopes: run.scopes,
                budget: run.budget,
                asked: run.asked,
            },
        ),
    }
}

/// The value that a call gives to an expression; a procedure gives none.
pub open spec fn value_of_call(result: FunctionResult) -> Result<Literal, ErrorView> {
    match result {
        FunctionResult::Literal(value) => Ok(value),
        FunctionResult::Procedure => Err(ErrorView::NotAValue),
    }
}

/// An integer, as a loop needs it for a bound or a count.
pub open spec fn integer(value: Literal) -> Result<i32, ErrorView> {
    match value {
        Literal::Int(value) => Ok(value),
        other => Err(ErrorView::NotInteger(other)),
    }
}

/// Whether a condition's value holds; it must be a boolean.
pub open spec fn holds(value: Literal) -> Result<bool, ErrorView> {
    truth(Ok(value))
}

/// The meaning of an expression. It takes one step for each node. A name
/// that a function table in reach holds is a call without arguments.
pub open spec fn run_expr(expr: Expr, scopes: Seq<ScopeView>, budget: nat) -> Option<Run<Literal>>
    decreases budget, 0nat, 0nat,
{
    if budget == 0 {
        failed(ErrorView::StepLimit, scopes, budget)
    } else {
        let budget = (budget - 1) as nat;
        match expr {
            Expr::Literal(literal) => done(literal, scopes, budget),
            Expr::Identifier(name) => if lookup_function(scopes, name@) is Some {
                then(
                    run_call(name@, Seq::empty(), scopes, budget),
                    |result: FunctionResult| value_of_call(result),
                )
            } else {
                match lookup_variable(scopes, name@) {
                    Some(Variable { type_def: _, value: Some(value) }) => done(
                        value,
                        scopes,
                        budget,
                    ),
                    _ => failed(ErrorView::UndefinedVariable(name@), scopes, budget),
                }
            },
            Expr::BinaryOp(operation) => run_operation(operation, scopes, budget),
            Expr::NewLine => failed(ErrorView::NotAValue, scopes, budget),
            Expr::FunctionCall(call) => then(
                run_call(call.name@, call.args@, scopes, budget),
                |result: FunctionResult| value_of_call(result),
            ),
        }
    }
}

/// The meaning of an operation: the left operand, then the right one, then
/// the operator on the two values.
pub open spec fn run_operation(operation: BinaryOp, scopes: Seq<ScopeView>, budget: nat) -> Option<
    Run<Literal>,
>
    decreases budget, 1nat, 0nat,
{
    match run_expr(*operation.left, scopes, budget) {
        None => None,
        Some(left) => after(left, match left.result {
            Err(error) => failed(error, left.scopes, left.budget),
            Ok(l) => if left.budget > budget {
                None
            } else {
                match run_expr(*operation.right, left.scopes, left.budget) {
                    None => None,
                    Some(right) => after(right, match right.result {
                        Err(error) => failed(error, right.scopes, right.budget),
                        Ok(r) => match binary_result(l, operation.op, r) {
                            None => None,
                            Some(value) => Some(
                                Run {
                                    result: value,
                                    scopes: right.scopes,
                                    budget: right.budget,
                                    asked: false,
                                },
                            ),
                        },
                    }),
                }
            },
        }),
    }
}

/// The meaning of the arguments of a call from position `from` on, after
/// those in `read`: each argument whose parameter takes a value in is
/// evaluated, in order; arguments beyond the last parameter are not.
pub open spec fn run_arguments(
    arguments: Seq<Expr>,
    parameters: Seq<(Seq<char>, FunctionParameter)>,
    scopes: Seq<ScopeView>,
    budget: nat,
    from: int,
    read: Map<usize, Literal>,
) -> Option<Run<Map<usize, Literal>>>
    decreases budget, 1nat, arguments.len() - from,
{
    if from < 0 || from >= arguments.len() || from >= parameters.len() {
        done(read, scopes, budget)
    } else if parameters[from].1.result_type == FunctionParamType::ResultParam {
        run_arguments(arguments, parameters, scopes, budget, from + 1, read)
    } else {
        match run_expr(arguments[from], scopes, budget) {
            None => None,
            Some(run) => after(run, match run.result {
                Err(error) => failed(error, run.scopes, run.budget),
                Ok(value) => if run.budget > budget {
                    None
                } else {
                    run_arguments(
                        arguments,
                        parameters,
                        run.scopes,
                        run.budget,
                        from + 1,
                        read.insert(from as usize, value),
                    )
                },
            }),
        }
    }
}

/// How the body of an algorithm ended, as the end of a call takes it.
pub open spec fn body_ended(result: Result<EvalResult, ErrorView>) -> Result<
    Option<Literal>,
    ErrorView,
> {
    match result {
        Ok(EvalResult::Literal(value)) => Ok(Some(value)),
        Ok(_) => Ok(None),
        Err(error) => Err(error),
    }
}

/// The scope that a call starts in: no scope around it, the caller's
/// function and namespace tables and interruption flag, the parameters and
/// the return slot.
pub open spec fn call_scope(
    variables: Map<Seq<char>, Variable>,
    return_type: Option<TypeDefinition>,
    caller: Seq<ScopeView>,
) -> Seq<ScopeView> {
    seq![
        ScopeView {
            variables: with_return_slot(variables, return_type),
            functions: caller[0].functions,
            namespaces: caller[0].namespaces,
            kill_flag: caller[0].kill_flag,
        },
    ]
}

/// The parameters of a function, in their order.
pub open spec fn parameters_of(function: FunctionVariant) -> Seq<(Seq<char>, FunctionParameter)> {
    match function {
        FunctionVariant::Native(native) => parameter_entries(native.params),
        FunctionVariant::Kumir(function) => parameter_entries(function.params),
    }
}

/// What a call has done when its callee is about to run: the arguments that
/// are passed in are evaluated, their number and types are checked, and the
/// variables of the call's scope are bound. An error on the way ends the
/// call.
pub open spec fn run_call_start(
    parameters: Seq<(Seq<char>, FunctionParameter)>,
    arguments: Seq<Expr>,
    scopes: Seq<ScopeView>,
    budget: nat,
) -> Option<Run<Map<Seq<char>, Variable>>>
    decreases budget, 2nat, 0nat,
{
    match run_arguments(arguments, parameters, scopes, budget, 0, Map::empty()) {
        None => None,
        Some(read) => after(read, match read.result {
            Err(error) => failed(error, read.scopes, read.budget),
            Ok(values) => match arguments_checked(arguments.len() as usize, parameters, values) {
                Err(error) => failed(error, read.scopes, read.budget),
                Ok(_) => match bound_variables(
                    parameters,
                    values,
                    read.scopes,
                    parameters.len() as int,
                ) {
                    Err(error) => failed(error, read.scopes, read.budget),
                    Ok(variables) => done(variables, read.scopes, read.budget),
                },
            },
        }),
    }
}

/// The meaning of a call: the callee is looked up, the arguments that are
/// passed in are evaluated, their number and types are checked, the scope of
/// the call is built, the body runs in it, the result parameters are handed
/// back, under the names of the parameters, and the value is taken. Of a
/// call of a native function the meaning says how it starts, and is `None`
/// where the native function is reached.
pub open spec fn run_call(
    name: Seq<char>,
    arguments: Seq<Expr>,
    scopes: Seq<ScopeView>,
    budget: nat,
) -> Option<Run<FunctionResult>>
    decreases budget, 3nat, 0nat,
{
    match lookup_function(scopes, name) {
        None => failed(ErrorView::UndefinedFunction(name), scopes, budget),
        Some(FunctionVariant::Native(native)) => match run_call_start(
            parameter_entries(native.params),
            arguments,
            scopes,
            budget,
        ) {
            None => None,
            Some(start) => after(start, match start.result {
                Err(error) => failed(error, start.scopes, start.budget),
                Ok(_) => None,
            }),
        },
        Some(FunctionVariant::Kumir(function)) => {
            let parameters = parameter_entries(function.params);
            match run_call_start(parameters, arguments, scopes, budget) {
                None => None,
                Some(start) => after(start, match start.result {
                    Err(error) => failed(error, start.scopes, start.budget),
                    Ok(variables) => if start.budget > budget {
                        None
                    } else {
                        match run_node(
                            *function.body,
                            call_scope(variables, function.return_type, start.scopes),
                            start.budget,
                        ) {
                            None => None,
                            Some(body) => {
                                let finished = call_finished(
                                    body_ended(body.result),
                                    result_names(parameters, parameters.len() as int),
                                    function.return_type,
                                    body.scopes,
                                    start.scopes,
                                );
                                Some(
                                    Run {
                                        result: finished.0,
                                        scopes: finished.1,
                                        budget: body.budget,
                                        asked: body.asked,
                                    },
                                )
                            },
                        }
                    },
                }),
            }
        },
    }
}

/// The meaning of a condition's test.
pub open spec fn run_test(condition: Expr, scopes: Seq<ScopeView>, budget: nat) -> Option<
    Run<bool>,
>
    decreases budget, 1nat, 0nat,
{
    then(run_expr(condition, scopes, budget), |value: Literal| holds(value))
}

/// The chain with a variable declared in its first scope.
pub open spec fn declared(
    scopes: Seq<ScopeView>,
    name: Seq<char>,
    type_def: TypeDefinition,
    value: Option<Literal>,
) -> Seq<ScopeView> {
    scopes.update(0, scope_with_variable(scopes[0], name, Variable { type_def, value }))
}

/// The meaning of one declaration: the initial value, if there is one, is
/// evaluated; then the variable is declared in the first scope. The type of
/// the initial value is not looked at.
pub open spec fn run_declare(declaration: VarDecl, scopes: Seq<ScopeView>, budget: nat) -> Option<
    Run<()>,
>
    decreases budget, 1nat, 0nat,
{
    match declaration.value {
        None => done((), declared(scopes, declaration.name@, declaration.type_def, None), budget),
        Some(expr) => match run_expr(expr, scopes, budget) {
            None => None,
            Some(run) => after(run, match run.result {
                Err(error) => failed(error, run.scopes, run.budget),
                Ok(value) => done(
                    (),
                    declared(run.scopes, declaration.name@, declaration.type_def, Some(value)),
                    run.budget,
                ),
            }),
        },
    }
}

/// The meaning of several declarations, from position `from` on.
pub open spec fn run_declares(
    declarations: Seq<VarDecl>,
    from: int,
    scopes: Seq<ScopeView>,
    budget: nat,
) -> Option<Run<()>>
    decreases budget, 2nat, declarations.len() - from,
{
    if from < 0 || from >= declarations.len() {
        done((), scopes, budget)
    } else {
        match run_declare(declarations[from], scopes, budget) {
            None => None,
            Some(run) => after(run, match run.result {
                Err(error) => failed(error, run.scopes, run.budget),
                Ok(_) => if run.budget > budget {
                    None
                } else {
                    run_declares(declarations, from + 1, run.scopes, run.budget)
                },
            }),
        }
    }
}

/// The meaning of the values of an output statement, from position `from`
/// on: each is evaluated, in order; a line-break marker is passed over.
/// What is written is the host's.
pub open spec fn run_output(values: Seq<Expr>, from: int, scopes: Seq<ScopeView>, budget: nat) -> Option<
    Run<()>,
>
    decreases budget, 1nat, values.len() - from,
{
    if from < 0 || from >= values.len() {
        done((), scopes, budget)
    } else if values[from] is NewLine {
        run_output(values, from + 1, scopes, budget)
    } else {
        match run_expr(values[from], scopes, budget) {
            None => None,
            Some(run) => after(run, match run.result {
                Err(error) => failed(error, run.scopes, run.budget),
                Ok(_) => if run.budget > budget {
                    None
                } else {
                    run_output(values, from + 1, run.scopes, run.budget)
                },
            }),
        }
    }
}

/// A statement that ran to its end.
pub open spec fn procedure(unit: ()) -> Result<EvalResult, ErrorView> {
    Ok(EvalResult::Procedure)
}

/// The meaning of a statement. It takes one step and looks at the
/// interruption flag; then, the flag not being set, it does what its kind
/// says.
pub open spec fn run_stmt(stmt: Stmt, scopes: Seq<ScopeView>, budget: nat) -> Option<
    Run<EvalResult>,
>
    decreases budget, 0nat, 0nat,
{
    if budget == 0 {
        failed(ErrorView::StepLimit, scopes, budget)
    } else {
        asking(run_started(stmt, scopes, (budget - 1) as nat))
    }
}

/// The meaning of a statement that has taken its step and has found the
/// interruption flag not set: what its kind says. Only `Break`, or a
/// condition whose branch ended so, ends with `Break`.
pub open spec fn run_started(stmt: Stmt, scopes: Seq<ScopeView>, budget: nat) -> Option<
    Run<EvalResult>,
>
    decreases budget, 4nat, 0nat,
{
    match stmt {
        Stmt::VarDecl(declaration) => then(
            run_declare(declaration, scopes, budget),
            |unit: ()| procedure(unit),
        ),
        Stmt::VarsDecl(declarations) => then(
            run_declares(declarations@, 0, scopes, budget),
            |unit: ()| procedure(unit),
        ),
        Stmt::Assign { name, value } => match run_expr(value, scopes, budget) {
            None => None,
            Some(run) => after(run, match run.result {
                Err(error) => failed(error, run.scopes, run.budget),
                Ok(value) => match assignment(run.scopes, name@, value) {
                    Ok(after) => done(EvalResult::Procedure, after, run.budget),
                    Err(error) => failed(error, run.scopes, run.budget),
                },
            }),
        },
        Stmt::Alg(_) => done(EvalResult::Procedure, scopes, budget),
        Stmt::Condition(condition) => run_branch(condition, scopes, budget),
        Stmt::Loop(repeated) => then(
            run_loop(repeated, scopes, budget),
            |unit: ()| procedure(unit),
        ),
        Stmt::ForLoop(repeated) => then(
            run_for(repeated, scopes, budget),
            |unit: ()| procedure(unit),
        ),
        Stmt::RepeatLoop(repeated) => then(
            run_repeat(repeated, scopes, budget),
            |unit: ()| procedure(unit),
        ),
        Stmt::Break => done(EvalResult::Break, scopes, budget),
        Stmt::Output { values } => then(
            run_output(values@, 0, scopes, budget),
            |unit: ()| procedure(unit),
        ),
        Stmt::FunctionCall(call) => then(
            run_call(call.name@, call.args@, scopes, budget),
            |result: FunctionResult| Ok(EvalResult::Procedure),
        ),
        Stmt::ImportNamespace(imported) => match import(scopes, imported.name@) {
            Ok(after) => done(EvalResult::Procedure, after, budget),
            Err(error) => failed(error, scopes, budget),
        },
    }
}

/// The meaning of a list of statements from position `from` on: they run in
/// order, in the scopes that the one before left; the first that does not
/// end with `Procedure` ends the list, which ends as it did.
pub open spec fn run_stmts(stmts: Seq<Stmt>, from: int, scopes: Seq<ScopeView>, budget: nat) -> Option<
    Run<EvalResult>,
>
    decreases budget, 1nat, stmts.len() - from,
{
    if from < 0 || from >= stmts.len() {
        done(EvalResult::Procedure, scopes, budget)
    } else {
        match run_stmt(stmts[from], scopes, budget) {
            None => None,
            Some(run) => after(run, match run.result {
                Ok(EvalResult::Procedure) => if run.budget > budget {
                    None
                } else {
                    run_stmts(stmts, from + 1, run.scopes, run.budget)
                },
                _ => Some(run),
            }),
        }
    }
}

/// The meaning of a node. It takes one step. A statement list runs in a
/// scope of its own, opened inside the chain and dropped at the end; a single
/// statement runs in the chain itself.
pub open spec fn run_node(node: AstNode, scopes: Seq<ScopeView>, budget: nat) -> Option<
    Run<EvalResult>,
>
    decreases budget, 0nat, 0nat,
{
    if budget == 0 {
        failed(ErrorView::StepLimit, scopes, budget)
    } else {
        let budget = (budget - 1) as nat;
        match node {
            AstNode::Stmt(stmt) => run_stmt(stmt, scopes, budget),
            AstNode::Program(stmts) => match run_stmts(
                stmts@,
                0,
                seq![block_scope(scopes[0])] + scopes,
                budget,
            ) {
                None => None,
                Some(run) => Some(
                    Run {
                        result: run.result,
                        scopes: run.scopes.drop_first(),
                        budget: run.budget,
                        asked: run.asked,
                    },
                ),
            },
        }
    }
}

/// The meaning of a condition: the test, then the branch that it chooses;
/// the statement ends as the branch did.
pub open spec fn run_branch(condition: Condition, scopes: Seq<ScopeView>, budget: nat) -> Option<
    Run<EvalResult>,
>
    decreases budget, 2nat, 0nat,
{
    match run_test(condition.condition, scopes, budget) {
        None => None,
        Some(test) => after(test, match test.result {
            Err(error) => failed(error, test.scopes, test.budget),
            Ok(chosen) => if test.budget > budget {
                None
            } else if chosen {
                run_node(*condition.left, test.scopes, test.budget)
            } else {
                match condition.right {
                    Some(right) => run_node(*right, test.scopes, test.budget),
                    None => done(EvalResult::Procedure, test.scopes, test.budget),
                }
            },
        }),
    }
}

/// The meaning of a loop: with a guard, the guard is tested before each
/// round and the loop ends where it fails; the body runs, and `Break` ends
/// the loop there.
pub open spec fn run_loop(repeated: Loop, scopes: Seq<ScopeView>, budget: nat) -> Option<Run<()>>
    decreases budget, 2nat, 0nat,
{
    match repeated.condition {
        Some(guard) => match run_test(guard, scopes, budget) {
            None => None,
            Some(test) => after(test, match test.result {
                Err(error) => failed(error, test.scopes, test.budget),
                Ok(false) => done((), test.scopes, test.budget),
                Ok(true) => if test.budget > budget {
                    None
                } else {
                    run_loop_round(repeated, test.scopes, test.budget)
                },
            }),
        },
        None => run_loop_round(repeated, scopes, budget),
    }
}

/// One round of a loop after its guard has held, and the rounds after it.
pub open spec fn run_loop_round(repeated: Loop, scopes: Seq<ScopeView>, budget: nat) -> Option<
    Run<()>,
>
    decreases budget, 1nat, 0nat,
{
    match run_node(*repeated.body, scopes, budget) {
        None => None,
        Some(body) => after(body, match body.result {
            Err(error) => failed(error, body.scopes, body.budget),
            Ok(EvalResult::Break) => done((), body.scopes, body.budget),
            Ok(_) => if body.budget < budget {
                run_loop(repeated, body.scopes, body.budget)
            } else {
                None
            },
        }),
    }
}

/// The integer value of the variable `name`, where it has one.
pub open spec fn counter(scopes: Seq<ScopeView>, name: Seq<char>) -> Option<i32> {
    match lookup_variable(scopes, name) {
        Some(Variable { type_def: _, value: Some(Literal::Int(value)) }) => Some(value),
        _ => None,
    }
}

/// The meaning of a range loop: the start and the end are evaluated and
/// must be integers; the loop variable is declared with the start; then
/// the rounds run.
pub open spec fn run_for(repeated: ForLoop, scopes: Seq<ScopeView>, budget: nat) -> Option<Run<()>>
    decreases budget, 2nat, 0nat,
{
    match then(run_expr(repeated.start, scopes, budget), |value: Literal| integer(value)) {
        None => None,
        Some(first) => after(first, match first.result {
            Err(error) => failed(error, first.scopes, first.budget),
            Ok(start) => if first.budget > budget {
                None
            } else {
                match then(
                    run_expr(repeated.end, first.scopes, first.budget),
                    |value: Literal| integer(value),
                ) {
                    None => None,
                    Some(last) => after(last, match last.result {
                        Err(error) => failed(error, last.scopes, last.budget),
                        Ok(end) => if last.budget > budget {
                            None
                        } else {
                            run_for_rounds(
                                repeated,
                                end,
                                declared(
                                    last.scopes,
                                    repeated.var@,
                                    TypeDefinition::Int,
                                    Some(Literal::Int(start)),
                                ),
                                last.budget,
                            )
                        },
                    }),
                }
            },
        }),
    }
}

/// The rounds of a range loop: as long as the loop variable holds an
/// integer other than `end`, the body runs and 1 is added to the variable.
/// The body does not run for `end` itself. `Break` ends the loop.
pub open spec fn run_for_rounds(
    repeated: ForLoop,
    end: i32,
    scopes: Seq<ScopeView>,
    budget: nat,
) -> Option<Run<()>>
    decreases budget, 1nat, 0nat,
{
    match counter(scopes, repeated.var@) {
        None => done((), scopes, budget),
        Some(current) => if current == end {
            done((), scopes, budget)
        } else {
            match run_node(*repeated.body, scopes, budget) {
                None => None,
                Some(body) => after(body, match body.result {
                    Err(error) => failed(error, body.scopes, body.budget),
                    Ok(EvalResult::Break) => done((), body.scopes, body.budget),
                    Ok(_) => match counter(body.scopes, repeated.var@) {
                        None => if body.budget < budget {
                            run_for_rounds(repeated, end, body.scopes, body.budget)
                        } else {
                            None
                        },
                        Some(value) => match assignment(
                            body.scopes,
                            repeated.var@,
                            Literal::Int(value.wrapping_add(1)),
                        ) {
                            Err(error) => failed(error, body.scopes, body.budget),
                            Ok(after) => if body.budget < budget {
                                run_for_rounds(repeated, end, after, body.budget)
                            } else {
                                None
                            },
                        },
                    },
                }),
            }
        },
    }
}

/// The meaning of a counted loop: the count is evaluated and must be an
/// integer; then the rounds run.
pub open spec fn run_repeat(repeated: RepeatLoop, scopes: Seq<ScopeView>, budget: nat) -> Option<
    Run<()>,
>
    decreases budget, 2nat, 0nat,
{
    match then(run_expr(repeated.count, scopes, budget), |value: Literal| integer(value)) {
        None => None,
        Some(count) => after(count, match count.result {
            Err(error) => failed(error, count.scopes, count.budget),
            Ok(times) => if count.budget > budget {
                None
            } else {
                run_repeat_rounds(repeated, times, count.scopes, count.budget)
            },
        }),
    }
}

/// The rounds of a counted loop: the body runs; then the loop ends where
/// the count has reached 0, or where its guard, if it has one, fails; else
/// 1 is taken from the count. A count of `n` so gives `n + 1` rounds.
/// `Break` ends the loop.
pub open spec fn run_repeat_rounds(
    repeated: RepeatLoop,
    times: i32,
    scopes: Seq<ScopeView>,
    budget: nat,
) -> Option<Run<()>>
    decreases budget, 1nat, 0nat,
{
    match run_node(*repeated.body, scopes, budget) {
        None => None,
        Some(body) => after(body, match body.result {
            Err(error) => failed(error, body.scopes, body.budget),
            Ok(EvalResult::Break) => done((), body.scopes, body.budget),
            Ok(_) => if times == 0 {
                done((), body.scopes, body.budget)
            } else if body.budget >= budget {
                None
            } else {
                match repeated.condition {
                    None => run_repeat_rounds(
                        repeated,
                        times.wrapping_sub(1),
                        body.scopes,
                        body.budget,
                    ),
                    Some(guard) => match run_test(guard, body.scopes, body.budget) {
                        None => None,
                        Some(test) => after(test, match test.result {
                            Err(error) => failed(error, test.scopes, test.budget),
                            Ok(false) => done((), test.scopes, test.budget),
                            Ok(true) => if test.budget > body.budget {
                                None
                            } else {
                                run_repeat_rounds(
                                    repeated,
                                    times.wrapping_sub(1),
                                    test.scopes,
                                    test.budget,
                                )
                            },
                        }),
                    },
                }
            },
        }),
    }
}

/// Whether a result, a chain and a budget are those of a run.
pub open spec fn ended_as<T, V>(
    result: Result<T, RuntimeError>,
    scopes: Seq<ScopeView>,
    budget: u64,
    run: Run<V>,
    view: spec_fn(T) -> V,
) -> bool {
    &&& match result {
        Ok(value) => run.result == Ok::<V, ErrorView>(view(value)),
        Err(error) => run.result == Err::<V, ErrorView>(error@),
    }
    &&& scopes == run.scopes
    &&& budget == run.budget
}

/// Whether the evaluator did what the meaning says, as far as the meaning
/// says anything. A run that, by its meaning, never looks at the
/// interruption flag ends with the result, the scopes and the budget of the
/// meaning, and so does a run that looks at the flag and never finds it
/// set. Only a run whose meaning looks at the flag may end with
/// `UserInterrupt` instead.
pub open spec fn follows<T, V>(
    result: Result<T, RuntimeError>,
    scopes: Seq<ScopeView>,
    budget: u64,
    meaning: Option<Run<V>>,
    view: spec_fn(T) -> V,
) -> bool {
    meaning matches Some(run) ==> (run.asked && result matches Err(RuntimeError::UserInterrupt))
        || ended_as(result, scopes, budget, run, view)
}

/// Whether the rest of a run leads to the end of the whole run: the rest
/// ends as the whole does, and the whole has looked at the flag where the
/// rest does.
pub open spec fn leads_to<V>(whole: Option<Run<V>>, rest: Option<Run<V>>) -> bool {
    whole matches Some(whole) ==> rest matches Some(rest) && rest.result == whole.result
        && rest.scopes == whole.scopes && rest.budget == whole.budget && (rest.asked
        ==> whole.asked)
}

} // verus!
