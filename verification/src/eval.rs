//! The evaluator: it walks the tree and works on a chain of scopes.
//!
//! Three things lie outside the library, and the evaluator asks the [`Host`]
//! for them: native functions, arithmetic on reals, and the output. The
//! interruption flag is outside too: any thread may set it, and every
//! statement looks at it when it starts. So a contract here says
//!
//! - exactly what is returned where none of them is asked: there the
//!   evaluator ends as the meaning that [`crate::semantics`] gives to the
//!   tree, and a run that starts no statement cannot be interrupted;
//! - that a run which starts statements ends as its meaning or with
//!   `UserInterrupt`;
//! - what holds whatever the outside gave: every scope keeps its names,
//!   types, tables and flag, and the budget does not grow.
//!
//! What is done with an answer from outside is said by functions that take
//! the answer: [`Stmt::eval_started`] takes what the flag held, and
//! [`finish_call`], [`call_statement_ended`], [`value_of_called`] and
//! [`list_goes_on`] take what a call gave.
//!
//! Every evaluation of an expression, a statement or a statement list takes
//! one step from a budget, and fails with `StepLimit` where none is left:
//! this bounds every run.
use vstd::prelude::*;
use vstd::string::*;

use crate::ast::{
    outcome, AstNode, BinaryOp, Condition, ErrorView, EvalResult, Expr, Float, ForLoop,
    FunctionCall, FunctionParameter, FunctionResult, FunctionVariant, ImportNamespace, Literal, Loop,
    RepeatLoop, RuntimeError, Stmt, VarDecl, Variable,
};
use crate::environment::{
    assignment, block_scope, chain_kept, import, lemma_assigned_kept, lemma_chain_kept_reflexive,
    lemma_chain_kept_transitive, lemma_outer_kept_transitive, lookup_function, lookup_variable,
    outer_kept, scope_kept, share_flag, Environment, ScopeView,
};
use crate::lexer::{FunctionParamType, Operator, TypeDefinition};
use crate::semantics::{
    follows, leads_to, run_arguments, run_branch, run_call, run_declare, run_declares, run_expr, run_for,
    declared, run_for_rounds, run_loop, run_node, run_operation, run_output, run_repeat,
    run_repeat_rounds, run_started, run_stmt, run_stmts, run_test,
};
use crate::tables::{
    parameter_entries, parameters_get_index, parameters_len, ArgumentTable, FunctionTable,
    NamespaceTable, VariableTable,
};

verus! {

/// What the embedding program does for a run. Each method says, as what it
/// requires, what the evaluator hands to it.
pub trait Host {
    /// Runs the native function that the host knows under `function`, on the
    /// fresh scope of the call, which holds the parameters and has no scope
    /// around it. The value it returns, if any, is the call's value; its
    /// error ends the run.
    fn call_native(&mut self, function: u64, scope: &mut Environment) -> Result<
        Option<Literal>,
        String,
    >
        requires
            old(scope)@.len() == 1,
    ;

    /// `left operator right` for `+ - * /` on two reals.
    fn float_arithmetic(&mut self, left: &Float, operator: Operator, right: &Float) -> Float
        requires
            is_arithmetic(operator),
    ;

    /// `left operator right` for `> >= < <= == <>` on two reals.
    fn float_comparison(&mut self, left: &Float, operator: Operator, right: &Float) -> bool
        requires
            is_comparison(operator),
    ;

    /// Writes one value of an output statement.
    fn output(&mut self, value: &Literal);

    /// Writes a line break of an output statement.
    fn line_break(&mut self);
}

pub open spec fn is_arithmetic(operator: Operator) -> bool {
    operator == Operator::Plus || operator == Operator::Minus || operator == Operator::Multiply
        || operator == Operator::Divide
}

pub open spec fn is_comparison(operator: Operator) -> bool {
    operator == Operator::Greater || operator == Operator::GreaterOrEqual || operator
        == Operator::Less || operator == Operator::LessOrEqual || operator == Operator::EqualBool
        || operator == Operator::NotEqual
}

/// The error of an operator that is not defined on its two operands.
pub open spec fn invalid_operation(left: Literal, operator: Operator, right: Literal) -> Result<
    Literal,
    ErrorView,
> {
    Err(ErrorView::InvalidOperation { left, operator, right })
}

/// `left operator right` on two integers. Sums, differences and products
/// wrap around; a quotient is an error where the divisor is 0 or the
/// quotient does not fit.
pub open spec fn int_operation(left: i32, operator: Operator, right: i32) -> Result<
    Literal,
    ErrorView,
> {
    match operator {
        Operator::Plus => Ok(Literal::Int(left.wrapping_add(right))),
        Operator::Minus => Ok(Literal::Int(left.wrapping_sub(right))),
        Operator::Multiply => Ok(Literal::Int(left.wrapping_mul(right))),
        Operator::Divide => match left.checked_div(right) {
            Some(quotient) => Ok(Literal::Int(quotient)),
            None => invalid_operation(Literal::Int(left), operator, Literal::Int(right)),
        },
        Operator::Greater => Ok(Literal::Bool(left > right)),
        Operator::GreaterOrEqual => Ok(Literal::Bool(left >= right)),
        Operator::Less => Ok(Literal::Bool(left < right)),
        Operator::LessOrEqual => Ok(Literal::Bool(left <= right)),
        Operator::EqualBool => Ok(Literal::Bool(left == right)),
        Operator::NotEqual => Ok(Literal::Bool(left != right)),
        _ => invalid_operation(Literal::Int(left), operator, Literal::Int(right)),
    }
}

/// The table of binary operations: what `left operator right` gives. `None`
/// where both operands are reals and the operator is defined on reals: then
/// the host computes. Operands of two different types never combine.
pub open spec fn binary_result(left: Literal, operator: Operator, right: Literal) -> Option<
    Result<Literal, ErrorView>,
> {
    match (left, right) {
        (Literal::Int(l), Literal::Int(r)) => Some(int_operation(l, operator, r)),
        (Literal::Float(_), Literal::Float(_)) => if is_arithmetic(operator) || is_comparison(
            operator,
        ) {
            None
        } else {
            Some(invalid_operation(left, operator, right))
        },
        (Literal::Bool(l), Literal::Bool(r)) => Some(
            match operator {
                Operator::EqualBool => Ok(Literal::Bool(l == r)),
                Operator::NotEqual => Ok(Literal::Bool(l != r)),
                _ => invalid_operation(left, operator, right),
            },
        ),
        (Literal::Char(l), Literal::Char(r)) => Some(
            match operator {
                Operator::EqualBool => Ok(Literal::Bool(l == r)),
                Operator::NotEqual => Ok(Literal::Bool(l != r)),
                _ => invalid_operation(left, operator, right),
            },
        ),
        (Literal::String(l), Literal::String(r)) => Some(
            match operator {
                Operator::EqualBool => Ok(Literal::Bool(l@ == r@)),
                Operator::NotEqual => Ok(Literal::Bool(l@ != r@)),
                _ => invalid_operation(left, operator, right),
            },
        ),
        _ => Some(invalid_operation(left, operator, right)),
    }
}

/// Applies a binary operator to two values.
pub fn apply_binary<H: Host>(left: Literal, operator: Operator, right: Literal, host: &mut H) -> (result:
    Result<Literal, RuntimeError>)
    ensures
        binary_result(left, operator, right) matches Some(expected) ==> outcome(result)
            == expected,
        binary_result(left, operator, right) is None ==> (match result {
            Ok(Literal::Float(_)) => is_arithmetic(operator),
            Ok(Literal::Bool(_)) => is_comparison(operator),
            _ => false,
        }),
{
    let value: Option<Literal> = match (&left, &right) {
        (Literal::Int(l), Literal::Int(r)) => match operator {
            Operator::Plus => Some(Literal::Int(l.wrapping_add(*r))),
            Operator::Minus => Some(Literal::Int(l.wrapping_sub(*r))),
            Operator::Multiply => Some(Literal::Int(l.wrapping_mul(*r))),
            Operator::Divide => match l.checked_div(*r) {
                Some(quotient) => Some(Literal::Int(quotient)),
                None => None,
            },
            Operator::Greater => Some(Literal::Bool(*l > *r)),
            Operator::GreaterOrEqual => Some(Literal::Bool(*l >= *r)),
            Operator::Less => Some(Literal::Bool(*l < *r)),
            Operator::LessOrEqual => Some(Literal::Bool(*l <= *r)),
            Operator::EqualBool => Some(Literal::Bool(*l == *r)),
            Operator::NotEqual => Some(Literal::Bool(*l != *r)),
            _ => None,
        },
        (Literal::Float(l), Literal::Float(r)) => match operator {
            Operator::Plus | Operator::Minus | Operator::Multiply | Operator::Divide => Some(
                Literal::Float(host.float_arithmetic(l, operator, r)),
            ),
            Operator::Greater
            | Operator::GreaterOrEqual
            | Operator::Less
            | Operator::LessOrEqual
            | Operator::EqualBool
            | Operator::NotEqual => Some(Literal::Bool(host.float_comparison(l, operator, r))),
            _ => None,
        },
        (Literal::Bool(l), Literal::Bool(r)) => match operator {
            Operator::EqualBool => Some(Literal::Bool(*l == *r)),
            Operator::NotEqual => Some(Literal::Bool(*l != *r)),
            _ => None,
        },
        (Literal::Char(l), Literal::Char(r)) => match operator {
            Operator::EqualBool => Some(Literal::Bool(*l == *r)),
            Operator::NotEqual => Some(Literal::Bool(*l != *r)),
            _ => None,
        },
        (Literal::String(l), Literal::String(r)) => match operator {
            Operator::EqualBool => Some(Literal::Bool(*l == *r)),
            Operator::NotEqual => Some(Literal::Bool(!(*l == *r))),
            _ => None,
        },
        _ => None,
    };
    match value {
        Some(value) => Ok(value),
        None => Err(RuntimeError::InvalidOperation { left, operator, right }),
    }
}

/// The number of nodes of an expression: the steps that its evaluation
/// takes where it calls no function.
pub open spec fn nodes(expr: Expr) -> nat
    decreases expr,
{
    match expr {
        Expr::BinaryOp(operation) => 1 + nodes(*operation.left) + nodes(*operation.right),
        _ => 1,
    }
}

/// The value of an operation, given what its operands gave: the error of
/// the left operand, else that of the right one, else what the table of
/// [`binary_result`] says of the two values. `None` where an operand or the
/// table leaves the value to the host.
pub open spec fn operation_value(
    left: Option<Result<Literal, ErrorView>>,
    operator: Operator,
    right: Option<Result<Literal, ErrorView>>,
) -> Option<Result<Literal, ErrorView>> {
    match left {
        None => None,
        Some(Err(error)) => Some(Err(error)),
        Some(Ok(left)) => match right {
            None => None,
            Some(Err(error)) => Some(Err(error)),
            Some(Ok(right)) => binary_result(left, operator, right),
        },
    }
}

/// The value of an expression that calls nothing: literals, variables, and
/// operations on them that the table of [`binary_result`] decides. `None`
/// for every other expression.
pub open spec fn plain_value(expr: Expr, scopes: Seq<ScopeView>) -> Option<
    Result<Literal, ErrorView>,
>
    decreases expr,
{
    match expr {
        Expr::Literal(literal) => Some(Ok(literal)),
        Expr::Identifier(name) => if lookup_function(scopes, name@) is Some {
            None
        } else {
            match lookup_variable(scopes, name@) {
                Some(Variable { type_def: _, value: Some(value) }) => Some(Ok(value)),
                _ => Some(Err(ErrorView::UndefinedVariable(name@))),
            }
        },
        Expr::BinaryOp(operation) => operation_value(
            plain_value(*operation.left, scopes),
            operation.op,
            plain_value(*operation.right, scopes),
        ),
        Expr::FunctionCall(_) => None,
        Expr::NewLine => Some(Err(ErrorView::NotAValue)),
    }
}

/// Reads the interruption flag, and clears it where it was set. Any thread
/// may set the flag at any moment, so nothing is known of the answer before
/// it is given: the caller is ready for either.
fn interrupted(environment: &Environment) -> bool {
    let set = environment.kill_flag.load(std::sync::atomic::Ordering::Relaxed);
    if set {
        environment.kill_flag.store(false, std::sync::atomic::Ordering::Relaxed);
    }
    set
}

/// Opens the scope of a statement list inside `environment`: the new scope
/// has no variables, copies the function and namespace tables, and owns the
/// scope it was opened in until [`leave_block`] hands that back.
fn enter_block(environment: &mut Environment) -> (scope: Environment)
    ensures
        scope@ == seq![block_scope(old(environment)@[0])] + old(environment)@,
{
    proof {
        environment.lemma_view();
    }
    let functions = environment.functions.duplicate();
    let namespaces = environment.namespaces.duplicate();
    let mut parent = Environment {
        environment: None,
        variables: VariableTable::new(),
        namespaces: NamespaceTable::new(),
        functions: FunctionTable::new(),
        kill_flag: share_flag(&environment.kill_flag),
    };
    std::mem::swap(environment, &mut parent);
    let kill_flag = share_flag(&parent.kill_flag);
    let scope = Environment {
        environment: Some(Box::new(parent)),
        variables: VariableTable::new(),
        namespaces,
        functions,
        kill_flag,
    };
    proof {
        scope.lemma_view();
        assert(scope@ =~= seq![block_scope(old(environment)@[0])] + old(environment)@);
    }
    scope
}

/// Closes the scope of a statement list: the scope it was opened in comes
/// back to `environment`, and the scope itself is dropped with its variables.
fn leave_block(scope: Environment, environment: &mut Environment)
    requires
        scope@.len() >= 2,
    ensures
        final(environment)@ == scope@.drop_first(),
{
    proof {
        scope.lemma_view();
    }
    match scope.environment {
        Some(parent) => {
            *environment = *parent;
        },
        None => {},
    }
}

/// The first evaluated argument, from position `from` on, whose type is not
/// that of its parameter: the two types.
pub open spec fn first_mismatch(
    parameters: Seq<(Seq<char>, FunctionParameter)>,
    arguments: Map<usize, Literal>,
    from: int,
) -> Option<(TypeDefinition, TypeDefinition)>
    decreases parameters.len() - from,
{
    if from < 0 || from >= parameters.len() {
        None
    } else if arguments.contains_key(from as usize) && arguments[from as usize].type_of()
        != parameters[from].1.type_definition {
        Some((parameters[from].1.type_definition, arguments[from as usize].type_of()))
    } else {
        first_mismatch(parameters, arguments, from + 1)
    }
}

/// Whether a call fits its callee: as many arguments as parameters, and each
/// evaluated argument of its parameter's type.
pub open spec fn arguments_checked(
    count: usize,
    parameters: Seq<(Seq<char>, FunctionParameter)>,
    arguments: Map<usize, Literal>,
) -> Result<(), ErrorView> {
    if count != parameters.len() {
        Err(ErrorView::ArityMismatch { parameters: parameters.len() as usize, arguments: count })
    } else {
        match first_mismatch(parameters, arguments, 0) {
            Some((expected, found)) => Err(ErrorView::TypeMismatch { expected, found }),
            None => Ok(()),
        }
    }
}

/// Checks the number of a call's arguments and the types of those that were
/// evaluated.
pub fn check_arguments(
    count: usize,
    parameters: &indexmap::IndexMap<String, FunctionParameter>,
    arguments: &ArgumentTable,
) -> (checked: Result<(), RuntimeError>)
    ensures
        outcome(checked) == arguments_checked(count, parameter_entries(*parameters), arguments@),
{
    let n = parameters_len(parameters);
    if count != n {
        return Err(RuntimeError::ArityMismatch { parameters: n, arguments: count });
    }
    let mut i: usize = 0;
    while i < n
        invariant
            i <= n,
            count == n,
            n == parameter_entries(*parameters).len(),
            first_mismatch(parameter_entries(*parameters), arguments@, 0) == first_mismatch(
                parameter_entries(*parameters),
                arguments@,
                i as int,
            ),
        decreases n - i,
    {
        match (parameters_get_index(parameters, i), arguments.get(i)) {
            (Some((_, parameter)), Some(argument)) => {
                let found = argument.get_type();
                if parameter.type_definition != found {
                    assert(first_mismatch(parameter_entries(*parameters), arguments@, i as int)
                        == Some((parameter.type_definition, found)));
                    return Err(
                        RuntimeError::TypeMismatch { expected: parameter.type_definition, found },
                    );
                }
            },
            _ => {},
        }
        i += 1;
    }
    Ok(())
}

/// The texts of a list of names.
pub open spec fn texts(names: Seq<String>) -> Seq<Seq<char>> {
    names.map_values(|name: String| name@)
}

/// The names of the parameters that hand a value back to the caller, in
/// their order, among the first `upto`.
pub open spec fn result_names(parameters: Seq<(Seq<char>, FunctionParameter)>, upto: int) -> Seq<
    Seq<char>,
>
    decreases upto,
{
    if upto <= 0 || upto > parameters.len() {
        Seq::empty()
    } else if parameters[upto - 1].1.result_type == FunctionParamType::ArgumentParam {
        result_names(parameters, upto - 1)
    } else {
        result_names(parameters, upto - 1).push(parameters[upto - 1].0)
    }
}

/// The variables that a call's scope starts with, after the first `upto`
/// parameters are bound, or the error of the first parameter that cannot be
/// bound. A parameter that takes a value in starts with its evaluated
/// argument; one that only hands a value out starts unset. A parameter that
/// hands a value out needs a variable of its own name and type in the
/// caller's reach.
pub open spec fn bound_variables(
    parameters: Seq<(Seq<char>, FunctionParameter)>,
    arguments: Map<usize, Literal>,
    caller: Seq<ScopeView>,
    upto: int,
) -> Result<Map<Seq<char>, Variable>, ErrorView>
    decreases upto,
{
    if upto <= 0 || upto > parameters.len() {
        Ok(Map::empty())
    } else {
        match bound_variables(parameters, arguments, caller, upto - 1) {
            Err(error) => Err(error),
            Ok(variables) => {
                let (name, parameter) = parameters[upto - 1];
                let value = if parameter.result_type != FunctionParamType::ResultParam
                    && arguments.contains_key((upto - 1) as usize) {
                    Some(arguments[(upto - 1) as usize])
                } else {
                    None
                };
                let bound = variables.insert(
                    name,
                    Variable { type_def: parameter.type_definition, value },
                );
                if parameter.result_type == FunctionParamType::ArgumentParam {
                    Ok(bound)
                } else {
                    match lookup_variable(caller, name) {
                        None => Err(ErrorView::UndefinedVariable(name)),
                        Some(variable) => if variable.type_def == parameter.type_definition {
                            Ok(bound)
                        } else {
                            Err(
                                ErrorView::TypeMismatch {
                                    expected: parameter.type_definition,
                                    found: variable.type_def,
                                },
                            )
                        },
                    }
                }
            },
        }
    }
}

/// The variables of a call's scope with the slot for the return value: a
/// function (an algorithm with a return type) finds the unset variable
/// `знач` of that type.
pub open spec fn with_return_slot(
    variables: Map<Seq<char>, Variable>,
    return_type: Option<TypeDefinition>,
) -> Map<Seq<char>, Variable> {
    match return_type {
        Some(type_def) => variables.insert("знач"@, Variable { type_def, value: None }),
        None => variables,
    }
}

/// Builds the scope of a call: it has no scope around it, copies the
/// caller's function and namespace tables, looks at the caller's
/// interruption flag, and holds the parameters and the return slot. With it
/// come the names to hand back to the caller.
pub fn bind_parameters(
    parameters: &indexmap::IndexMap<String, FunctionParameter>,
    arguments: &ArgumentTable,
    caller: &Environment,
    return_type: Option<TypeDefinition>,
) -> (bound: Result<(Environment, Vec<String>), RuntimeError>)
    ensures
        match bound_variables(
            parameter_entries(*parameters),
            arguments@,
            caller@,
            parameter_entries(*parameters).len() as int,
        ) {
            Err(error) => outcome(bound) == Err::<(Environment, Vec<String>), ErrorView>(error),
            Ok(variables) => {
                &&& bound is Ok
                &&& bound->Ok_0.0@ == seq![
                    ScopeView {
                        variables: with_return_slot(variables, return_type),
                        functions: caller@[0].functions,
                        namespaces: caller@[0].namespaces,
                        kill_flag: caller@[0].kill_flag,
                    },
                ]
                &&& texts(bound->Ok_0.1@) == result_names(
                    parameter_entries(*parameters),
                    parameter_entries(*parameters).len() as int,
                )
            },
        },
{
    proof {
        caller.lemma_view();
    }
    let mut scope = Environment {
        environment: None,
        variables: VariableTable::new(),
        namespaces: caller.namespaces.duplicate(),
        functions: caller.functions.duplicate(),
        kill_flag: share_flag(&caller.kill_flag),
    };
    let mut names: Vec<String> = Vec::new();
    assert(texts(names@) =~= Seq::<Seq<char>>::empty());
    let n = parameters_len(parameters);
    let ghost entries = parameter_entries(*parameters);
    let mut i: usize = 0;
    while i < n
        invariant
            i <= n,
            n == entries.len(),
            entries == parameter_entries(*parameters),
            scope.environment is None,
            scope.functions@ == caller@[0].functions,
            scope.namespaces@ == caller@[0].namespaces,
            scope.kill_flag == caller@[0].kill_flag,
            bound_variables(entries, arguments@, caller@, i as int) == Ok::<
                Map<Seq<char>, Variable>,
                ErrorView,
            >(scope.variables@),
            texts(names@) == result_names(entries, i as int),
        decreases n - i,
    {
        match parameters_get_index(parameters, i) {
            Some((name, parameter)) => {
                let value = if parameter.result_type != FunctionParamType::ResultParam {
                    match arguments.get(i) {
                        Some(argument) => Some(argument.clone()),
                        None => None,
                    }
                } else {
                    None
                };
                proof {
                    scope.lemma_view();
                }
                if parameter.result_type != FunctionParamType::ArgumentParam {
                    match caller.get_var_type(name.as_str()) {
                        None => {
                            proof {
                                lemma_bound_error(entries, arguments@, caller@, i + 1, n as int);
                            }
                            return Err(RuntimeError::UndefinedVariable(name.clone()));
                        },
                        Some(found) => {
                            if found != parameter.type_definition {
                                proof {
                                    lemma_bound_error(entries, arguments@, caller@, i + 1, n as int);
                                }
                                return Err(
                                    RuntimeError::TypeMismatch {
                                        expected: parameter.type_definition,
                                        found,
                                    },
                                );
                            }
                        },
                    }
                    proof {
                        assert(texts(names@.push(*name)) =~= texts(names@).push(name@));
                    }
                    names.push(name.clone());
                }
                scope.variables.insert(
                    name.clone(),
                    Variable { type_def: parameter.type_definition, value },
                );
            },
            None => {},
        }
        i += 1;
    }
    match return_type {
        Some(type_def) => {
            scope.variables.insert(String::from_str("знач"), Variable { type_def, value: None });
        },
        None => {},
    }
    proof {
        scope.lemma_view();
        assert(scope@ =~= seq![scope.scope()]);
    }
    Ok((scope, names))
}

/// Once a parameter cannot be bound, no later one mends it.
proof fn lemma_bound_error(
    parameters: Seq<(Seq<char>, FunctionParameter)>,
    arguments: Map<usize, Literal>,
    caller: Seq<ScopeView>,
    at: int,
    upto: int,
)
    requires
        0 < at <= upto <= parameters.len(),
        bound_variables(parameters, arguments, caller, at) is Err,
    ensures
        bound_variables(parameters, arguments, caller, upto) == bound_variables(
            parameters,
            arguments,
            caller,
            at,
        ),
    decreases upto - at,
{
    if at < upto {
        lemma_bound_error(parameters, arguments, caller, at, upto - 1);
    }
}

/// What handing the values of `names`, from position `from` on, back to the
/// caller does: the caller's chain afterwards, and the error that stopped
/// it, if one did. Each name is assigned in the caller the value that the
/// call's scope holds for it: a value goes back to the caller's variable of
/// the parameter's name, whatever the argument of the call was.
pub open spec fn written_back(
    names: Seq<Seq<char>>,
    scope: Seq<ScopeView>,
    caller: Seq<ScopeView>,
    from: int,
) -> (Result<(), ErrorView>, Seq<ScopeView>)
    decreases names.len() - from,
{
    if from < 0 || from >= names.len() {
        (Ok(()), caller)
    } else {
        match lookup_variable(scope, names[from]) {
            Some(Variable { type_def: _, value: Some(value) }) => match assignment(
                caller,
                names[from],
                value,
            ) {
                Ok(after) => written_back(names, scope, after, from + 1),
                Err(error) => (Err(error), caller),
            },
            _ => (Err(ErrorView::UnsetVariable(names[from])), caller),
        }
    }
}

pub proof fn lemma_written_back_kept(
    names: Seq<Seq<char>>,
    scope: Seq<ScopeView>,
    caller: Seq<ScopeView>,
    from: int,
)
    ensures
        chain_kept(caller, written_back(names, scope, caller, from).1),
    decreases names.len() - from,
{
    if from < 0 || from >= names.len() {
    } else {
        match lookup_variable(scope, names[from]) {
            Some(Variable { type_def: _, value: Some(value) }) => match assignment(
                caller,
                names[from],
                value,
            ) {
                Ok(after) => {
                    lemma_assigned_kept(caller, names[from], value);
                    lemma_written_back_kept(names, scope, after, from + 1);
                    lemma_chain_kept_transitive(
                        caller,
                        after,
                        written_back(names, scope, after, from + 1).1,
                    );
                },
                Err(error) => {},
            },
            _ => {},
        }
    }
}

/// Hands the values of the result parameters back to the caller.
pub fn write_back(names: &Vec<String>, scope: &Environment, caller: &mut Environment) -> (done:
    Result<(), RuntimeError>)
    ensures
        outcome(done) == written_back(texts(names@), scope@, old(caller)@, 0).0,
        final(caller)@ == written_back(texts(names@), scope@, old(caller)@, 0).1,
        chain_kept(old(caller)@, final(caller)@),
{
    proof {
        lemma_written_back_kept(texts(names@), scope@, caller@, 0);
    }
    let mut i: usize = 0;
    while i < names.len()
        invariant
            i <= names.len(),
            chain_kept(old(caller)@, written_back(texts(names@), scope@, old(caller)@, 0).1),
            written_back(texts(names@), scope@, caller@, i as int) == written_back(
                texts(names@),
                scope@,
                old(caller)@,
                0,
            ),
        decreases names.len() - i,
    {
        assert(texts(names@)[i as int] == names@[i as int]@);
        let value = match scope.get_var(names[i].as_str()) {
            Some(variable) => variable.value,
            None => None,
        };
        match value {
            Some(value) => {
                match caller.assign_var(names[i].as_str(), value) {
                    Ok(()) => {},
                    Err(error) => {
                        return Err(error);
                    },
                }
            },
            None => {
                return Err(RuntimeError::UnsetVariable(names[i].clone()));
            },
        }
        i += 1;
    }
    Ok(())
}

/// What a call gives once its body has run: for a function the value that
/// the body gave or, without one, the value of `знач`; for a procedure
/// nothing.
pub open spec fn call_value(
    return_type: Option<TypeDefinition>,
    value: Option<Literal>,
    scope: Seq<ScopeView>,
) -> Result<FunctionResult, ErrorView> {
    if return_type is None {
        Ok(FunctionResult::Procedure)
    } else {
        match value {
            Some(value) => Ok(FunctionResult::Literal(value)),
            None => match lookup_variable(scope, "знач"@) {
                Some(Variable { type_def: _, value: Some(value) }) => Ok(
                    FunctionResult::Literal(value),
                ),
                _ => Err(ErrorView::UnsetVariable("знач"@)),
            },
        }
    }
}

/// What the end of a call does, given how the body or the native function
/// ended: the call's result and the caller's chain afterwards. An error of
/// the body is the call's error, and the caller's scopes stay as they were;
/// else the result parameters are handed back, then the value is taken.
pub open spec fn call_finished(
    ended: Result<Option<Literal>, ErrorView>,
    names: Seq<Seq<char>>,
    return_type: Option<TypeDefinition>,
    scope: Seq<ScopeView>,
    caller: Seq<ScopeView>,
) -> (Result<FunctionResult, ErrorView>, Seq<ScopeView>) {
    match ended {
        Err(error) => (Err(error), caller),
        Ok(value) => {
            let (handed, after) = written_back(names, scope, caller, 0);
            match handed {
                Err(error) => (Err(error), after),
                Ok(_) => (call_value(return_type, value, scope), after),
            }
        },
    }
}

/// Ends a call: takes how the body or the native function ended, hands the
/// result parameters back to the caller and gives the call's result.
pub fn finish_call(
    ended: Result<Option<Literal>, RuntimeError>,
    names: &Vec<String>,
    return_type: Option<TypeDefinition>,
    scope: &Environment,
    caller: &mut Environment,
) -> (result: Result<FunctionResult, RuntimeError>)
    ensures
        outcome(result) == call_finished(
            outcome(ended),
            texts(names@),
            return_type,
            scope@,
            old(caller)@,
        ).0,
        final(caller)@ == call_finished(
            outcome(ended),
            texts(names@),
            return_type,
            scope@,
            old(caller)@,
        ).1,
        chain_kept(old(caller)@, final(caller)@),
{
    match ended {
        Err(error) => {
            proof {
                lemma_chain_kept_reflexive(caller@);
            }
            Err(error)
        },
        Ok(value) => {
            match write_back(names, scope, caller) {
                Err(error) => Err(error),
                Ok(()) => {
                    if return_type.is_none() {
                        Ok(FunctionResult::Procedure)
                    } else {
                        match value {
                            Some(value) => Ok(FunctionResult::Literal(value)),
                            None => match scope.get_value("знач") {
                                Some(value) => Ok(FunctionResult::Literal(value)),
                                None => Err(RuntimeError::UnsetVariable(String::from_str("знач"))),
                            },
                        }
                    }
                },
            }
        },
    }
}

/// Evaluates the arguments of a call that are passed in: those whose
/// parameter is not a pure result parameter. Arguments beyond the last
/// parameter are not evaluated.
fn evaluate_arguments<H: Host>(
    arguments: &Vec<Expr>,
    parameters: &indexmap::IndexMap<String, FunctionParameter>,
    environment: &mut Environment,
    host: &mut H,
    budget: &mut u64,
) -> (evaluated: Result<ArgumentTable, RuntimeError>)
    ensures
        chain_kept(old(environment)@, final(environment)@),
        *final(budget) <= *old(budget),
        follows(
            evaluated,
            final(environment)@,
            *final(budget),
            run_arguments(
                arguments@,
                parameter_entries(*parameters),
                old(environment)@,
                *old(budget) as nat,
                0,
                Map::empty(),
            ),
            |table: ArgumentTable| table@,
        ),
    decreases *old(budget), 1nat,
{
    let mut table = ArgumentTable::new();
    let n = parameters_len(parameters);
    let ghost entries = parameter_entries(*parameters);
    let ghost meaning = run_arguments(
        arguments@,
        entries,
        old(environment)@,
        *old(budget) as nat,
        0,
        Map::empty(),
    );
    let mut i: usize = 0;
    proof {
        lemma_chain_kept_reflexive(environment@);
    }
    while i < arguments.len() && i < n
        invariant
            i <= arguments.len(),
            n == entries.len(),
            entries == parameter_entries(*parameters),
            chain_kept(old(environment)@, environment@),
            *budget <= *old(budget),
            meaning == run_arguments(
                arguments@,
                entries,
                old(environment)@,
                *old(budget) as nat,
                0,
                Map::empty(),
            ),
            leads_to(meaning, run_arguments(
                arguments@,
                entries,
                environment@,
                *budget as nat,
                i as int,
                table@,
            )),
        decreases arguments.len() - i,
    {
        match parameters_get_index(parameters, i) {
            Some((_, parameter)) => {
                if parameter.result_type != FunctionParamType::ResultParam {
                    let ghost before = environment@;
                    match arguments[i].eval(environment, host, budget) {
                        Ok(value) => {
                            table.insert(i, value);
                        },
                        Err(error) => {
                            proof {
                                lemma_chain_kept_transitive(
                                    old(environment)@,
                                    before,
                                    environment@,
                                );
                            }
                            return Err(error);
                        },
                    }
                    proof {
                        lemma_chain_kept_transitive(old(environment)@, before, environment@);
                    }
                }
            },
            None => {},
        }
        i += 1;
    }
    Ok(table)
}

/// Evaluates a condition or a guard, which must give a boolean.
fn check_condition<H: Host>(
    condition: &Expr,
    environment: &mut Environment,
    host: &mut H,
    budget: &mut u64,
) -> (holds: Result<bool, RuntimeError>)
    ensures
        chain_kept(old(environment)@, final(environment)@),
        *final(budget) <= *old(budget),
        holds is Ok ==> *final(budget) < *old(budget),
        plain_value(*condition, old(environment)@) matches Some(value) ==> {
            &&& final(environment)@ == old(environment)@
            &&& *old(budget) >= nodes(*condition) ==> outcome(holds) == truth(value)
        },
        follows(
            holds,
            final(environment)@,
            *final(budget),
            run_test(*condition, old(environment)@, *old(budget) as nat),
            |chosen: bool| chosen,
        ),
    decreases *old(budget), 1nat,
{
    match condition.eval(environment, host, budget) {
        Ok(Literal::Bool(value)) => Ok(value),
        Ok(other) => Err(RuntimeError::NotBoolean(other)),
        Err(error) => Err(error),
    }
}

/// The boolean that a condition's value stands for; any other value is an
/// error.
pub open spec fn truth(value: Result<Literal, ErrorView>) -> Result<bool, ErrorView> {
    match value {
        Ok(Literal::Bool(holds)) => Ok(holds),
        Ok(other) => Err(ErrorView::NotBoolean(other)),
        Err(error) => Err(error),
    }
}

impl Expr {
    /// Evaluates the expression. A name that a function table in reach
    /// holds is a call without arguments; any other name is a variable,
    /// which must have a value.
    pub fn eval<H: Host>(
        &self,
        environment: &mut Environment,
        host: &mut H,
        budget: &mut u64,
    ) -> (result: Result<Literal, RuntimeError>)
        ensures
            chain_kept(old(environment)@, final(environment)@),
            *final(budget) <= *old(budget),
            result is Ok ==> *final(budget) < *old(budget),
            plain_value(*self, old(environment)@) matches Some(value) ==> {
                &&& final(environment)@ == old(environment)@
                &&& *old(budget) - *final(budget) <= nodes(*self)
                &&& outcome(result) == value || outcome(result) == Err::<Literal, ErrorView>(
                    ErrorView::StepLimit,
                )
                &&& *old(budget) >= nodes(*self) ==> outcome(result) == value
            },
            follows(
                result,
                final(environment)@,
                *final(budget),
                run_expr(*self, old(environment)@, *old(budget) as nat),
                |value: Literal| value,
            ),
        decreases *old(budget), 0nat,
    {
        proof {
            lemma_chain_kept_reflexive(environment@);
        }
        if *budget == 0 {
            return Err(RuntimeError::StepLimit);
        }
        *budget = *budget - 1;
        match self {
            Expr::Literal(literal) => Ok(literal.clone()),
            Expr::Identifier(name) => {
                if environment.get_function(name.as_str()).is_some() {
                    let call = FunctionCall { name: name.clone(), args: Vec::new() };
                    value_of_called(call.eval(environment, host, budget))
                } else {
                    match environment.get_value(name.as_str()) {
                        Some(value) => Ok(value),
                        None => Err(RuntimeError::UndefinedVariable(name.clone())),
                    }
                }
            },
            Expr::BinaryOp(operation) => operation.eval(environment, host, budget),
            Expr::NewLine => Err(RuntimeError::NotAValue),
            Expr::FunctionCall(call) => value_of_called(call.eval(environment, host, budget)),
        }
    }
}

impl BinaryOp {
    /// Evaluates the left operand, then the right one, then applies the
    /// operator.
    pub fn eval<H: Host>(
        &self,
        environment: &mut Environment,
        host: &mut H,
        budget: &mut u64,
    ) -> (result: Result<Literal, RuntimeError>)
        ensures
            chain_kept(old(environment)@, final(environment)@),
            *final(budget) <= *old(budget),
            result is Ok ==> *final(budget) < *old(budget),
            plain_value(Expr::BinaryOp(*self), old(environment)@) matches Some(value) ==> {
                &&& final(environment)@ == old(environment)@
                &&& *old(budget) - *final(budget) <= nodes(*self.left) + nodes(*self.right)
                &&& outcome(result) == value || outcome(result) == Err::<Literal, ErrorView>(
                    ErrorView::StepLimit,
                )
                &&& *old(budget) >= nodes(*self.left) + nodes(*self.right) ==> outcome(result)
                    == value
            },
            follows(
                result,
                final(environment)@,
                *final(budget),
                run_operation(*self, old(environment)@, *old(budget) as nat),
                |value: Literal| value,
            ),
        decreases *old(budget), 1nat,
    {
        let left = match self.left.eval(environment, host, budget) {
            Ok(value) => value,
            Err(error) => {
                return Err(error);
            },
        };
        let ghost between = environment@;
        let right = match self.right.eval(environment, host, budget) {
            Ok(value) => value,
            Err(error) => {
                proof {
                    lemma_chain_kept_transitive(old(environment)@, between, environment@);
                }
                return Err(error);
            },
        };
        proof {
            lemma_chain_kept_transitive(old(environment)@, between, environment@);
        }
        apply_binary(left, self.op, right, host)
    }
}

impl FunctionCall {
    /// Calls a function: looks the callee up, evaluates the arguments that
    /// are passed in, checks their number and types, builds the scope of
    /// the call, runs the body or asks the host, hands the result
    /// parameters back and gives the call's value.
    pub fn eval<H: Host>(
        &self,
        environment: &mut Environment,
        host: &mut H,
        budget: &mut u64,
    ) -> (result: Result<FunctionResult, RuntimeError>)
        ensures
            chain_kept(old(environment)@, final(environment)@),
            *final(budget) <= *old(budget),
            lookup_function(old(environment)@, self.name@) is None ==> {
                &&& outcome(result) == Err::<FunctionResult, ErrorView>(
                    ErrorView::UndefinedFunction(self.name@),
                )
                &&& final(environment)@ == old(environment)@
            },
            follows(
                result,
                final(environment)@,
                *final(budget),
                run_call(self.name@, self.args@, old(environment)@, *old(budget) as nat),
                |value: FunctionResult| value,
            ),
        decreases *old(budget), 3nat,
    {
        proof {
            lemma_chain_kept_reflexive(environment@);
        }
        let function = match environment.get_function(self.name.as_str()) {
            Some(function) => function,
            None => {
                return Err(RuntimeError::UndefinedFunction(self.name.clone()));
            },
        };
        match function {
            FunctionVariant::Native(native) => {
                let arguments = match evaluate_arguments(
                    &self.args,
                    &native.params,
                    environment,
                    host,
                    budget,
                ) {
                    Ok(arguments) => arguments,
                    Err(error) => {
                        return Err(error);
                    },
                };
                match check_arguments(self.args.len(), &native.params, &arguments) {
                    Ok(()) => {},
                    Err(error) => {
                        return Err(error);
                    },
                }
                let (mut scope, names) = match bind_parameters(
                    &native.params,
                    &arguments,
                    environment,
                    native.return_type,
                ) {
                    Ok(bound) => bound,
                    Err(error) => {
                        return Err(error);
                    },
                };
                let ended = match host.call_native(native.native_function, &mut scope) {
                    Ok(value) => Ok(value),
                    Err(text) => Err(RuntimeError::Native(text)),
                };
                let ghost between = environment@;
                let result = finish_call(ended, &names, native.return_type, &scope, environment);
                proof {
                    lemma_chain_kept_transitive(old(environment)@, between, environment@);
                }
                result
            },
            FunctionVariant::Kumir(function) => {
                let arguments = match evaluate_arguments(
                    &self.args,
                    &function.params,
                    environment,
                    host,
                    budget,
                ) {
                    Ok(arguments) => arguments,
                    Err(error) => {
                        return Err(error);
                    },
                };
                match check_arguments(self.args.len(), &function.params, &arguments) {
                    Ok(()) => {},
                    Err(error) => {
                        return Err(error);
                    },
                }
                let (mut scope, names) = match bind_parameters(
                    &function.params,
                    &arguments,
                    environment,
                    function.return_type,
                ) {
                    Ok(bound) => bound,
                    Err(error) => {
                        return Err(error);
                    },
                };
                let ended = match function.body.eval(&mut scope, host, budget) {
                    Ok(EvalResult::Literal(literal)) => Ok(Some(literal)),
                    Ok(_) => Ok(None),
                    Err(error) => Err(error),
                };
                let ghost between = environment@;
                let result = finish_call(
                    ended,
                    &names,
                    function.return_type,
                    &scope,
                    environment,
                );
                proof {
                    lemma_chain_kept_transitive(old(environment)@, between, environment@);
                }
                result
            },
        }
    }
}

impl ImportNamespace {
    pub fn eval(&self, environment: &mut Environment) -> (done: Result<(), RuntimeError>)
        ensures
            match import(old(environment)@, self.name@) {
                Ok(scopes) => done is Ok && final(environment)@ == scopes,
                Err(error) => outcome(done) == Err::<(), ErrorView>(error) && final(environment)@ == old(environment)@,
            },
    {
        environment.import_namespace(self.name.as_str())
    }
}

impl Condition {
    /// Runs the first branch where the condition holds, else the second, if
    /// there is one. How the branch ended is how the statement ends: a
    /// `Break` in a branch reaches the loop around the statement.
    pub fn eval<H: Host>(
        &self,
        environment: &mut Environment,
        host: &mut H,
        budget: &mut u64,
    ) -> (result: Result<EvalResult, RuntimeError>)
        ensures
            outer_kept(old(environment)@, final(environment)@),
            *final(budget) <= *old(budget),
            result is Ok ==> *final(budget) < *old(budget),
            !(result matches Ok(EvalResult::Literal(_))),
            follows(
                result,
                final(environment)@,
                *final(budget),
                run_branch(*self, old(environment)@, *old(budget) as nat),
                |ended: EvalResult| ended,
            ),
        decreases *old(budget), 2nat,
    {
        let holds = match check_condition(&self.condition, environment, host, budget) {
            Ok(holds) => holds,
            Err(error) => {
                return Err(error);
            },
        };
        let ghost between = environment@;
        let result = if holds {
            self.left.eval(environment, host, budget)
        } else {
            match &self.right {
                Some(right) => right.eval(environment, host, budget),
                None => {
                    proof {
                        lemma_chain_kept_reflexive(environment@);
                    }
                    Ok(EvalResult::Procedure)
                },
            }
        };
        proof {
            lemma_outer_kept_transitive(old(environment)@, between, environment@);
        }
        result
    }
}

/// Whether a loop has a guard that calls nothing, is false in `scopes`, and
/// can be evaluated within `budget` steps.
pub open spec fn guard_fails(condition: Option<Expr>, scopes: Seq<ScopeView>, budget: u64) -> bool {
    condition matches Some(guard) && plain_value(guard, scopes) matches Some(
        Ok(Literal::Bool(false)),
    ) && budget >= nodes(guard)
}

impl Loop {
    /// Runs the body while the guard holds, the guard being tested before
    /// each round; without a guard, until the body ends with `Break`.
    /// `Break` ends this loop and goes no further. A loop whose guard is
    /// false at the start runs its body not once.
    pub fn eval<H: Host>(
        &self,
        environment: &mut Environment,
        host: &mut H,
        budget: &mut u64,
    ) -> (done: Result<(), RuntimeError>)
        ensures
            outer_kept(old(environment)@, final(environment)@),
            *final(budget) <= *old(budget),
            guard_fails(self.condition, old(environment)@, *old(budget)) ==> done is Ok && final(environment)@ == old(environment)@,
            follows(
                done,
                final(environment)@,
                *final(budget),
                run_loop(*self, old(environment)@, *old(budget) as nat),
                |unit: ()| unit,
            ),
        decreases *old(budget), 2nat,
    {
        proof {
            lemma_chain_kept_reflexive(environment@);
        }
        let mut first = true;
        let ghost at_once = guard_fails(self.condition, old(environment)@, *old(budget));
        let ghost meaning = run_loop(*self, old(environment)@, *old(budget) as nat);
        loop
            invariant_except_break
                first ==> environment@ == old(environment)@ && *budget == *old(budget),
                leads_to(meaning, run_loop(*self, environment@, *budget as nat)),
            invariant
                outer_kept(old(environment)@, environment@),
                *budget <= *old(budget),
                !first ==> !at_once,
                at_once == guard_fails(self.condition, old(environment)@, *old(budget)),
                meaning == run_loop(*self, old(environment)@, *old(budget) as nat),
            ensures
                outer_kept(old(environment)@, environment@),
                *budget <= *old(budget),
                at_once ==> environment@ == old(environment)@,
                follows(Ok::<(), RuntimeError>(()), environment@, *budget, meaning, |unit: ()| unit),
            decreases *budget,
        {
            let ghost before = environment@;
            match &self.condition {
                Some(condition) => {
                    match check_condition(condition, environment, host, budget) {
                        Ok(true) => {},
                        Ok(false) => {
                            proof {
                                lemma_outer_kept_transitive(
                                    old(environment)@,
                                    before,
                                    environment@,
                                );
                            }
                            break ;
                        },
                        Err(error) => {
                            proof {
                                lemma_outer_kept_transitive(
                                    old(environment)@,
                                    before,
                                    environment@,
                                );
                            }
                            return Err(error);
                        },
                    }
                },
                None => {},
            }
            first = false;
            let ghost between = environment@;
            proof {
                lemma_outer_kept_transitive(old(environment)@, before, between);
            }
            match self.body.eval(environment, host, budget) {
                Ok(EvalResult::Break) => {
                    proof {
                        lemma_outer_kept_transitive(old(environment)@, between, environment@);
                    }
                    break ;
                },
                Ok(_) => {},
                Err(error) => {
                    proof {
                        lemma_outer_kept_transitive(old(environment)@, between, environment@);
                    }
                    return Err(error);
                },
            }
            proof {
                lemma_outer_kept_transitive(old(environment)@, between, environment@);
            }
        }
        Ok(())
    }
}

impl ForLoop {
    /// Declares the loop variable with the start value, then runs the body
    /// and adds 1 to the variable, until the variable equals the end value:
    /// the body does not run for the end value itself. `Break` ends this
    /// loop and goes no further.
    pub fn eval<H: Host>(
        &self,
        environment: &mut Environment,
        host: &mut H,
        budget: &mut u64,
    ) -> (done: Result<(), RuntimeError>)
        ensures
            outer_kept(old(environment)@, final(environment)@),
            *final(budget) <= *old(budget),
            follows(
                done,
                final(environment)@,
                *final(budget),
                run_for(*self, old(environment)@, *old(budget) as nat),
                |unit: ()| unit,
            ),
        decreases *old(budget), 2nat,
    {
        let ghost meaning = run_for(*self, old(environment)@, *old(budget) as nat);
        let start = match self.start.eval(environment, host, budget) {
            Ok(Literal::Int(value)) => value,
            Ok(other) => {
                return Err(RuntimeError::NotInteger(other));
            },
            Err(error) => {
                return Err(error);
            },
        };
        let ghost after_start = environment@;
        let end = match self.end.eval(environment, host, budget) {
            Ok(Literal::Int(value)) => value,
            Ok(other) => {
                proof {
                    lemma_chain_kept_transitive(old(environment)@, after_start, environment@);
                }
                return Err(RuntimeError::NotInteger(other));
            },
            Err(error) => {
                proof {
                    lemma_chain_kept_transitive(old(environment)@, after_start, environment@);
                }
                return Err(error);
            },
        };
        proof {
            lemma_chain_kept_transitive(old(environment)@, after_start, environment@);
            environment.lemma_view();
        }
        let ghost after_end = environment@;
        environment.new_var(self.var.as_str(), Some(Literal::Int(start)), TypeDefinition::Int);
        proof {
            lemma_outer_kept_transitive(old(environment)@, after_end, environment@);
        }
        loop
            invariant_except_break
                leads_to(meaning, run_for_rounds(*self, end, environment@, *budget as nat)),
            invariant
                outer_kept(old(environment)@, environment@),
                *budget <= *old(budget),
                meaning == run_for(*self, old(environment)@, *old(budget) as nat),
            ensures
                outer_kept(old(environment)@, environment@),
                *budget <= *old(budget),
                follows(Ok::<(), RuntimeError>(()), environment@, *budget, meaning, |unit: ()| unit),
            decreases *budget,
        {
            let current = match environment.get_value(self.var.as_str()) {
                Some(Literal::Int(value)) => value,
                _ => {
                    break ;
                },
            };
            if current == end {
                break ;
            }
            let ghost before = environment@;
            match self.body.eval(environment, host, budget) {
                Ok(EvalResult::Break) => {
                    proof {
                        lemma_outer_kept_transitive(old(environment)@, before, environment@);
                    }
                    break ;
                },
                Ok(_) => {},
                Err(error) => {
                    proof {
                        lemma_outer_kept_transitive(old(environment)@, before, environment@);
                    }
                    return Err(error);
                },
            }
            proof {
                lemma_outer_kept_transitive(old(environment)@, before, environment@);
            }
            let ghost between = environment@;
            match environment.get_value(self.var.as_str()) {
                Some(Literal::Int(value)) => {
                    proof {
                        lemma_assigned_kept(
                            between,
                            self.var@,
                            Literal::Int(value.wrapping_add(1)),
                        );
                    }
                    let stepped = environment.assign_var(
                        self.var.as_str(),
                        Literal::Int(value.wrapping_add(1)),
                    );
                    proof {
                        lemma_chain_kept_reflexive(between);
                        lemma_outer_kept_transitive(old(environment)@, between, environment@);
                    }
                    match stepped {
                        Ok(()) => {},
                        Err(error) => {
                            return Err(error);
                        },
                    }
                },
                _ => {},
            }
        }
        Ok(())
    }
}

impl RepeatLoop {
    /// Runs the body, then stops where the count has reached 0 or the guard,
    /// if there is one, does not hold; else takes 1 from the count and goes
    /// round again. A count of `n` so gives `n + 1` rounds. `Break` ends
    /// this loop and goes no further.
    pub fn eval<H: Host>(
        &self,
        environment: &mut Environment,
        host: &mut H,
        budget: &mut u64,
    ) -> (done: Result<(), RuntimeError>)
        ensures
            outer_kept(old(environment)@, final(environment)@),
            *final(budget) <= *old(budget),
            follows(
                done,
                final(environment)@,
                *final(budget),
                run_repeat(*self, old(environment)@, *old(budget) as nat),
                |unit: ()| unit,
            ),
        decreases *old(budget), 2nat,
    {
        let ghost meaning = run_repeat(*self, old(environment)@, *old(budget) as nat);
        let mut times = match self.count.eval(environment, host, budget) {
            Ok(Literal::Int(value)) => value,
            Ok(other) => {
                return Err(RuntimeError::NotInteger(other));
            },
            Err(error) => {
                return Err(error);
            },
        };
        loop
            invariant_except_break
                leads_to(meaning, run_repeat_rounds(*self, times, environment@, *budget as nat)),
            invariant
                outer_kept(old(environment)@, environment@),
                *budget <= *old(budget),
                meaning == run_repeat(*self, old(environment)@, *old(budget) as nat),
            ensures
                outer_kept(old(environment)@, environment@),
                *budget <= *old(budget),
                follows(Ok::<(), RuntimeError>(()), environment@, *budget, meaning, |unit: ()| unit),
            decreases *budget,
        {
            let ghost before = environment@;
            match self.body.eval(environment, host, budget) {
                Ok(EvalResult::Break) => {
                    proof {
                        lemma_outer_kept_transitive(old(environment)@, before, environment@);
                    }
                    break ;
                },
                Ok(_) => {},
                Err(error) => {
                    proof {
                        lemma_outer_kept_transitive(old(environment)@, before, environment@);
                    }
                    return Err(error);
                },
            }
            proof {
                lemma_outer_kept_transitive(old(environment)@, before, environment@);
            }
            if times == 0 {
                break ;
            }
            let ghost between = environment@;
            match &self.condition {
                Some(condition) => {
                    let holds = check_condition(condition, environment, host, budget);
                    proof {
                        lemma_outer_kept_transitive(old(environment)@, between, environment@);
                    }
                    match holds {
                        Ok(true) => {},
                        Ok(false) => {
                            break ;
                        },
                        Err(error) => {
                            return Err(error);
                        },
                    }
                },
                None => {},
            }
            times = times.wrapping_sub(1);
        }
        Ok(())
    }
}

/// Declares one variable; its initial value, if it has one, is evaluated
/// first.
fn declare<H: Host>(
    declaration: &VarDecl,
    environment: &mut Environment,
    host: &mut H,
    budget: &mut u64,
) -> (done: Result<(), RuntimeError>)
    ensures
        outer_kept(old(environment)@, final(environment)@),
        *final(budget) <= *old(budget),
        *old(budget) >= plain_cost(Stmt::VarDecl(*declaration)) ==> (plain_declaration(
            *declaration,
            old(environment)@,
        ) matches Some((ended, scopes)) ==> outcome(done) == ended && final(environment)@
            == scopes),
        follows(
            done,
            final(environment)@,
            *final(budget),
            run_declare(*declaration, old(environment)@, *old(budget) as nat),
            |unit: ()| unit,
        ),
    decreases *old(budget), 1nat,
{
    let value = match &declaration.value {
        Some(expr) => match expr.eval(environment, host, budget) {
            Ok(value) => Some(value),
            Err(error) => {
                return Err(error);
            },
        },
        None => {
            proof {
                lemma_chain_kept_reflexive(environment@);
            }
            None
        },
    };
    let ghost between = environment@;
    proof {
        environment.lemma_view();
    }
    environment.new_var(declaration.name.as_str(), value, declaration.type_def);
    proof {
        lemma_outer_kept_transitive(old(environment)@, between, environment@);
    }
    Ok(())
}

/// What a statement does that runs no further statement and calls nothing,
/// once it has started: the result and the chain afterwards. Such are
/// `Break`, the declaration of an algorithm, an import, and an assignment or
/// a declaration of one variable whose expression calls nothing. `None` for
/// every other statement.
pub open spec fn plain_step(stmt: Stmt, scopes: Seq<ScopeView>) -> Option<
    (Result<EvalResult, ErrorView>, Seq<ScopeView>),
> {
    match stmt {
        Stmt::Break => Some((Ok(EvalResult::Break), scopes)),
        Stmt::Alg(_) => Some((Ok(EvalResult::Procedure), scopes)),
        Stmt::ImportNamespace(imported) => match import(scopes, imported.name@) {
            Ok(after) => Some((Ok(EvalResult::Procedure), after)),
            Err(error) => Some((Err(error), scopes)),
        },
        Stmt::Assign { name, value } => match plain_value(value, scopes) {
            None => None,
            Some(Err(error)) => Some((Err(error), scopes)),
            Some(Ok(value)) => match assignment(scopes, name@, value) {
                Ok(after) => Some((Ok(EvalResult::Procedure), after)),
                Err(error) => Some((Err(error), scopes)),
            },
        },
        Stmt::VarDecl(declaration) => match plain_declaration(declaration, scopes) {
            None => None,
            Some((Err(error), after)) => Some((Err(error), after)),
            Some((Ok(_), after)) => Some((Ok(EvalResult::Procedure), after)),
        },
        _ => None,
    }
}

/// What the declaration of one variable does whose initial value, if it has
/// one, calls nothing: the result and the chain afterwards.
pub open spec fn plain_declaration(declaration: VarDecl, scopes: Seq<ScopeView>) -> Option<
    (Result<(), ErrorView>, Seq<ScopeView>),
> {
    match declaration.value {
        None => Some((Ok(()), declared(scopes, declaration.name@, declaration.type_def, None))),
        Some(expr) => match plain_value(expr, scopes) {
            None => None,
            Some(Err(error)) => Some((Err(error), scopes)),
            Some(Ok(value)) => Some(
                (Ok(()), declared(scopes, declaration.name@, declaration.type_def, Some(value))),
            ),
        },
    }
}

/// The steps that the expression of a statement of [`plain_step`] takes.
pub open spec fn plain_cost(stmt: Stmt) -> nat {
    match stmt {
        Stmt::Assign { name: _, value } => nodes(value),
        Stmt::VarDecl(declaration) => match declaration.value {
            Some(expr) => nodes(expr),
            None => 0,
        },
        _ => 0,
    }
}

/// What a call statement gives, given what the call gave: a call that ended
/// is a statement that ended, whatever value the call had; the error of a
/// call is the error of the statement.
pub fn call_statement_ended(called: Result<FunctionResult, RuntimeError>) -> (result: Result<
    EvalResult,
    RuntimeError,
>)
    ensures
        match called {
            Ok(_) => result == Ok::<EvalResult, RuntimeError>(EvalResult::Procedure),
            Err(error) => result == Err::<EvalResult, RuntimeError>(error),
        },
{
    match called {
        Ok(_) => Ok(EvalResult::Procedure),
        Err(error) => Err(error),
    }
}

/// What a call gives to the expression that it stands in, given what the
/// call gave: the value of a function; a procedure has none; the error of a
/// call is the error of the expression.
pub fn value_of_called(called: Result<FunctionResult, RuntimeError>) -> (result: Result<
    Literal,
    RuntimeError,
>)
    ensures
        match called {
            Ok(FunctionResult::Literal(value)) => result == Ok::<Literal, RuntimeError>(value),
            Ok(FunctionResult::Procedure) => result == Err::<Literal, RuntimeError>(
                RuntimeError::NotAValue,
            ),
            Err(error) => result == Err::<Literal, RuntimeError>(error),
        },
{
    match called {
        Ok(FunctionResult::Literal(value)) => Ok(value),
        Ok(FunctionResult::Procedure) => Err(RuntimeError::NotAValue),
        Err(error) => Err(error),
    }
}

/// Whether a statement list goes on after a statement that ended so: it
/// goes on after `Procedure` alone. Any other end of a statement, an error
/// among them, is the end of the list, and no later statement runs.
pub fn list_goes_on(ended: &Result<EvalResult, RuntimeError>) -> (goes_on: bool)
    ensures
        goes_on == (*ended == Ok::<EvalResult, RuntimeError>(EvalResult::Procedure)),
{
    match ended {
        Ok(EvalResult::Procedure) => true,
        _ => false,
    }
}

impl Stmt {
    /// Runs one statement. It first takes a step from the budget and looks
    /// at the interruption flag, then does what [`Stmt::eval_started`] says
    /// of the statement and of what the flag held.
    pub fn eval<H: Host>(
        &self,
        environment: &mut Environment,
        host: &mut H,
        budget: &mut u64,
    ) -> (result: Result<EvalResult, RuntimeError>)
        ensures
            outer_kept(old(environment)@, final(environment)@),
            *final(budget) <= *old(budget),
            result is Ok ==> *final(budget) < *old(budget),
            !(result matches Ok(EvalResult::Literal(_))),
            result matches Ok(EvalResult::Break) ==> self is Break || self is Condition,
            *old(budget) == 0 ==> outcome(result) == Err::<EvalResult, ErrorView>(
                ErrorView::StepLimit,
            ) && final(environment)@ == old(environment)@,
            follows(
                result,
                final(environment)@,
                *final(budget),
                run_stmt(*self, old(environment)@, *old(budget) as nat),
                |ended: EvalResult| ended,
            ),
        decreases *old(budget), 0nat,
    {
        if *budget == 0 {
            return Err(RuntimeError::StepLimit);
        }
        *budget = *budget - 1;
        let flag_set = interrupted(environment);
        self.eval_started(flag_set, environment, host, budget)
    }

    /// Runs a statement that has taken its step, given what the
    /// interruption flag held when the statement looked at it. Where the
    /// flag was set, the statement fails with `UserInterrupt` and nothing
    /// else is done: nothing is evaluated, no scope changes, no step is
    /// taken. Where it was not set, the statement does what its kind says.
    /// Only the statement `Break`, or a condition whose branch ended so,
    /// ends with `Break`: a loop keeps to itself the `Break` of its body.
    pub fn eval_started<H: Host>(
        &self,
        interrupted: bool,
        environment: &mut Environment,
        host: &mut H,
        budget: &mut u64,
    ) -> (result: Result<EvalResult, RuntimeError>)
        ensures
            outer_kept(old(environment)@, final(environment)@),
            *final(budget) <= *old(budget),
            !(result matches Ok(EvalResult::Literal(_))),
            result matches Ok(EvalResult::Break) ==> self is Break || self is Condition,
            interrupted ==> outcome(result) == Err::<EvalResult, ErrorView>(
                ErrorView::UserInterrupt,
            ) && final(environment)@ == old(environment)@ && *final(budget) == *old(budget),
            !interrupted ==> follows(
                result,
                final(environment)@,
                *final(budget),
                run_started(*self, old(environment)@, *old(budget) as nat),
                |ended: EvalResult| ended,
            ),
            !interrupted && *old(budget) >= plain_cost(*self) ==> (plain_step(
                *self,
                old(environment)@,
            ) matches Some((ended, scopes)) ==> outcome(result) == ended && final(environment)@
                == scopes),
        decreases *old(budget), 4nat,
    {
        proof {
            lemma_chain_kept_reflexive(environment@);
        }
        if interrupted {
            return Err(RuntimeError::UserInterrupt);
        }
        match self {
            Stmt::VarDecl(declaration) => {
                match declare(declaration, environment, host, budget) {
                    Ok(()) => Ok(EvalResult::Procedure),
                    Err(error) => Err(error),
                }
            },
            Stmt::VarsDecl(declarations) => {
                let ghost meaning = run_declares(
                    declarations@,
                    0,
                    environment@,
                    *budget as nat,
                );
                let mut i: usize = 0;
                while i < declarations.len()
                    invariant
                        i <= declarations.len(),
                        outer_kept(old(environment)@, environment@),
                        *budget <= *old(budget),
                        self == Stmt::VarsDecl(*declarations),
                        !interrupted,
                        meaning == run_declares(
                            declarations@,
                            0,
                            old(environment)@,
                            *old(budget) as nat,
                        ),
                        leads_to(meaning, run_declares(
                            declarations@,
                            i as int,
                            environment@,
                            *budget as nat,
                        )),
                    decreases declarations.len() - i,
                {
                    let ghost before = environment@;
                    let done = declare(&declarations[i], environment, host, budget);
                    proof {
                        lemma_outer_kept_transitive(old(environment)@, before, environment@);
                    }
                    match done {
                        Ok(()) => {},
                        Err(error) => {
                            return Err(error);
                        },
                    }
                    i += 1;
                }
                Ok(EvalResult::Procedure)
            },
            Stmt::Assign { name, value } => {
                let value = match value.eval(environment, host, budget) {
                    Ok(value) => value,
                    Err(error) => {
                        return Err(error);
                    },
                };
                let ghost between = environment@;
                proof {
                    lemma_assigned_kept(between, name@, value);
                    lemma_chain_kept_reflexive(between);
                }
                let done = environment.assign_var(name.as_str(), value);
                proof {
                    lemma_chain_kept_transitive(old(environment)@, between, environment@);
                }
                match done {
                    Ok(()) => Ok(EvalResult::Procedure),
                    Err(error) => Err(error),
                }
            },
            Stmt::Alg(_) => Ok(EvalResult::Procedure),
            Stmt::Condition(condition) => condition.eval(environment, host, budget),
            Stmt::Loop(loop_stmt) => match loop_stmt.eval(environment, host, budget) {
                Ok(()) => Ok(EvalResult::Procedure),
                Err(error) => Err(error),
            },
            Stmt::ForLoop(for_loop) => match for_loop.eval(environment, host, budget) {
                Ok(()) => Ok(EvalResult::Procedure),
                Err(error) => Err(error),
            },
            Stmt::RepeatLoop(repeat_loop) => match repeat_loop.eval(environment, host, budget) {
                Ok(()) => Ok(EvalResult::Procedure),
                Err(error) => Err(error),
            },
            Stmt::Break => Ok(EvalResult::Break),
            Stmt::Output { values } => {
                host.line_break();
                let ghost meaning = run_output(values@, 0, environment@, *budget as nat);
                let mut i: usize = 0;
                while i < values.len()
                    invariant
                        i <= values.len(),
                        chain_kept(old(environment)@, environment@),
                        *budget <= *old(budget),
                        self == (Stmt::Output { values: *values }),
                        !interrupted,
                        meaning == run_output(
                            values@,
                            0,
                            old(environment)@,
                            *old(budget) as nat,
                        ),
                        leads_to(meaning, run_output(
                            values@,
                            i as int,
                            environment@,
                            *budget as nat,
                        )),
                    decreases values.len() - i,
                {
                    match &values[i] {
                        Expr::NewLine => {
                            host.line_break();
                        },
                        value => {
                            let ghost before = environment@;
                            let shown = value.eval(environment, host, budget);
                            proof {
                                lemma_chain_kept_transitive(
                                    old(environment)@,
                                    before,
                                    environment@,
                                );
                            }
                            match shown {
                                Ok(literal) => {
                                    host.output(&literal);
                                },
                                Err(error) => {
                                    return Err(error);
                                },
                            }
                        },
                    }
                    i += 1;
                }
                Ok(EvalResult::Procedure)
            },
            Stmt::FunctionCall(call) => {
                call_statement_ended(call.eval(environment, host, budget))
            },
            Stmt::ImportNamespace(import_namespace) => {
                proof {
                    environment.lemma_view();
                }
                match import_namespace.eval(environment) {
                    Ok(()) => Ok(EvalResult::Procedure),
                    Err(error) => Err(error),
                }
            },
        }
    }
}

impl AstNode {
    /// Runs a statement list in a scope of its own, opened inside
    /// `environment` and dropped at the end: what the list declares is gone
    /// afterwards, and every scope of `environment` keeps the names and
    /// types of its variables. The list stops at the first statement that
    /// does not end with `Procedure`, and ends as that statement did.
    ///
    /// A single statement runs in `environment` itself.
    pub fn eval<H: Host>(
        &self,
        environment: &mut Environment,
        host: &mut H,
        budget: &mut u64,
    ) -> (result: Result<EvalResult, RuntimeError>)
        ensures
            outer_kept(old(environment)@, final(environment)@),
            self is Program ==> chain_kept(old(environment)@, final(environment)@),
            *final(budget) <= *old(budget),
            result is Ok ==> *final(budget) < *old(budget),
            !(result matches Ok(EvalResult::Literal(_))),
            *old(budget) == 0 ==> outcome(result) == Err::<EvalResult, ErrorView>(
                ErrorView::StepLimit,
            ) && final(environment)@ == old(environment)@,
            self matches AstNode::Program(body) && body@.len() == 0 && *old(budget) > 0 ==> result
                == Ok::<EvalResult, RuntimeError>(EvalResult::Procedure) && final(environment)@
                == old(environment)@,
            follows(
                result,
                final(environment)@,
                *final(budget),
                run_node(*self, old(environment)@, *old(budget) as nat),
                |ended: EvalResult| ended,
            ),
        decreases *old(budget), 0nat,
    {
        proof {
            lemma_chain_kept_reflexive(environment@);
        }
        if *budget == 0 {
            return Err(RuntimeError::StepLimit);
        }
        *budget = *budget - 1;
        match self {
            AstNode::Stmt(stmt) => stmt.eval(environment, host, budget),
            AstNode::Program(body) => {
                proof {
                    environment.lemma_view();
                }
                let mut scope = enter_block(environment);
                let ghost opened = scope@;
                let ghost meaning = run_stmts(body@, 0, opened, *budget as nat);
                let mut result = Ok(EvalResult::Procedure);
                let mut i: usize = 0;
                proof {
                    lemma_chain_kept_reflexive(opened);
                }
                while i < body.len()
                    invariant_except_break
                        result == Ok::<EvalResult, RuntimeError>(EvalResult::Procedure),
                        leads_to(meaning, run_stmts(body@, i as int, scope@, *budget as nat)),
                    invariant
                        i <= body.len(),
                        outer_kept(opened, scope@),
                        *budget < *old(budget),
                    ensures
                        outer_kept(opened, scope@),
                        *budget < *old(budget),
                        !(result matches Ok(EvalResult::Literal(_))),
                        follows(result, scope@, *budget, meaning, |ended: EvalResult| ended),
                    decreases body.len() - i,
                {
                    let ghost before = scope@;
                    let ended = body[i].eval(&mut scope, host, budget);
                    proof {
                        lemma_outer_kept_transitive(opened, before, scope@);
                    }
                    if !list_goes_on(&ended) {
                        result = ended;
                        break ;
                    }
                    i += 1;
                }
                proof {
                    assert forall|k: int| 0 <= k < old(environment)@.len() implies scope_kept(
                        #[trigger] old(environment)@[k],
                        scope@.drop_first()[k],
                    ) by {
                        assert(old(environment)@[k] == opened[k + 1]);
                        assert(scope_kept(opened[k + 1], scope@[k + 1]));
                    }
                }
                leave_block(scope, environment);
                result
            },
        }
    }
}

} // verus!
