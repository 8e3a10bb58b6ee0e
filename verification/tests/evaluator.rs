use std::sync::atomic::{AtomicBool, Ordering};
use std::sync::Arc;

use indexmap::IndexMap;
use kumir_lang::ast::{
    AstNode, BinaryOp, EvalResult, Expr, Float, FunctionCall, FunctionParameter, FunctionResult,
    FunctionVariant, Literal, NativeFunction, RuntimeError, Stmt,
};
use kumir_lang::environment::{Environment, Namespace};
use kumir_lang::eval::{
    apply_binary, bind_parameters, call_statement_ended, check_arguments, finish_call,
    list_goes_on, value_of_called, write_back, Host,
};
use kumir_lang::interpreter::{program_ended, Interpreter, SourceError};
use kumir_lang::lexer::{FunctionParamType, LexError, Operator, TypeDefinition};

type Callback = Box<dyn FnMut(&mut Environment) -> Result<Option<Literal>, String>>;

/// A host for the tests: native functions are closures, reals are `f32`, and
/// what a program writes is kept as text.
struct TestHost {
    natives: Vec<Callback>,
    written: String,
}

fn as_f32(value: &Float) -> f32 {
    match value {
        Float::Written(text) => text.parse().unwrap_or(0.0),
        Float::Bits(bits) => f32::from_bits(*bits),
    }
}

impl TestHost {
    fn new() -> Self {
        TestHost { natives: Vec::new(), written: String::new() }
    }

    fn native(&mut self, callback: Callback) -> u64 {
        self.natives.push(callback);
        (self.natives.len() - 1) as u64
    }
}

impl Host for TestHost {
    fn call_native(
        &mut self,
        function: u64,
        scope: &mut Environment,
    ) -> Result<Option<Literal>, String> {
        match self.natives.get_mut(function as usize) {
            Some(callback) => callback(scope),
            None => Err(format!("no native function {}", function)),
        }
    }

    fn float_arithmetic(&mut self, left: &Float, operator: Operator, right: &Float) -> Float {
        let (l, r) = (as_f32(left), as_f32(right));
        let value = match operator {
            Operator::Plus => l + r,
            Operator::Minus => l - r,
            Operator::Multiply => l * r,
            _ => l / r,
        };
        Float::Bits(value.to_bits())
    }

    fn float_comparison(&mut self, left: &Float, operator: Operator, right: &Float) -> bool {
        let (l, r) = (as_f32(left), as_f32(right));
        match operator {
            Operator::Greater => l > r,
            Operator::GreaterOrEqual => l >= r,
            Operator::Less => l < r,
            Operator::LessOrEqual => l <= r,
            Operator::EqualBool => l == r,
            _ => l != r,
        }
    }

    fn output(&mut self, value: &Literal) {
        match value {
            Literal::Int(v) => self.written.push_str(&format!("{}", v)),
            Literal::Float(v) => self.written.push_str(&format!("{}", as_f32(v))),
            Literal::String(v) => self.written.push_str(&format!("\"{}\"", v)),
            Literal::Char(v) => self.written.push_str(&format!("'{}'", v)),
            Literal::Bool(v) => self.written.push_str(&format!("{}", v)),
        }
    }

    fn line_break(&mut self) {
        self.written.push('\n');
    }
}

/// Runs the top-level statements of a program one by one in the
/// interpreter's own scope, so that what they declare can be looked at
/// afterwards.
fn run_in_scope(
    interpreter: &mut Interpreter,
    host: &mut TestHost,
    budget: &mut u64,
) -> Result<(), RuntimeError> {
    interpreter.register_functions();
    if let AstNode::Program(statements) = &interpreter.ast {
        for statement in statements {
            statement.eval(&mut interpreter.environment, host, budget)?;
        }
    }
    Ok(())
}

fn program(source: &str) -> Interpreter {
    Interpreter::new_from_string(source).expect("the text is a program")
}

fn run(source: &str) -> (Interpreter, TestHost, Result<(), RuntimeError>) {
    let mut interpreter = program(source);
    let mut host = TestHost::new();
    let mut budget = u64::MAX;
    let done = run_in_scope(&mut interpreter, &mut host, &mut budget);
    (interpreter, host, done)
}

fn whole(value: i32) -> Option<Literal> {
    Some(Literal::Int(value))
}

fn parameter(type_definition: TypeDefinition, result_type: FunctionParamType) -> FunctionParameter {
    FunctionParameter { type_definition, result_type }
}

fn native(
    params: &[(&str, FunctionParameter)],
    return_type: Option<TypeDefinition>,
    handle: u64,
) -> NativeFunction {
    let mut map = IndexMap::new();
    for (name, parameter) in params {
        map.insert(name.to_string(), *parameter);
    }
    NativeFunction { params: map, return_type, native_function: handle }
}

#[test]
fn multiplication_binds_tighter_than_addition() {
    let (interpreter, _, done) = run("цел a\na := 2+3*4");
    assert_eq!(done, Ok(()));
    assert_eq!(interpreter.environment.get_value("a"), whole(14));
}

#[test]
fn precedence_holds_on_every_level() {
    let (interpreter, _, done) = run(
        "цел a\nцел b\nлог c\nлог d\nлог e\n\
         a := 2*3+4*5\nb := 20-6/2-1\nc := 1+2 < 2*2\nd := 1 < 2 == 3 > 2\ne := 2+2 == 2*2",
    );
    assert_eq!(done, Ok(()));
    assert_eq!(interpreter.environment.get_value("a"), whole(26));
    assert_eq!(interpreter.environment.get_value("b"), whole(16));
    assert_eq!(interpreter.environment.get_value("c"), Some(Literal::Bool(true)));
    assert_eq!(interpreter.environment.get_value("d"), Some(Literal::Bool(true)));
    assert_eq!(interpreter.environment.get_value("e"), Some(Literal::Bool(true)));
}

#[test]
fn parentheses_group_first() {
    let (interpreter, _, done) = run("цел a\na := (2+3)*4");
    assert_eq!(done, Ok(()));
    assert_eq!(interpreter.environment.get_value("a"), whole(20));
}

#[test]
fn operators_of_one_precedence_group_to_the_left() {
    let (interpreter, _, done) = run("цел a\nцел b\na := 10-4-3\nb := 100/10/5");
    assert_eq!(done, Ok(()));
    assert_eq!(interpreter.environment.get_value("a"), whole(3));
    assert_eq!(interpreter.environment.get_value("b"), whole(2));
}

#[test]
fn assignment_of_another_type_fails_and_changes_nothing() {
    let (interpreter, _, done) = run("цел a := 1\na := \"текст\"");
    assert_eq!(
        done,
        Err(RuntimeError::TypeMismatch {
            expected: TypeDefinition::Int,
            found: TypeDefinition::String
        })
    );
    assert_eq!(interpreter.environment.get_value("a"), whole(1));
    assert_eq!(interpreter.environment.get_var_type("a"), Some(TypeDefinition::Int));
}

#[test]
fn assignment_never_coerces() {
    for (declaration, value, expected, found) in [
        ("вещ x", "1", TypeDefinition::Float, TypeDefinition::Int),
        ("цел x", "1.5", TypeDefinition::Int, TypeDefinition::Float),
        ("лог x", "0", TypeDefinition::Bool, TypeDefinition::Int),
        ("сим x", "\"a\"", TypeDefinition::Char, TypeDefinition::String),
        ("лит x", "'a'", TypeDefinition::String, TypeDefinition::Char),
    ] {
        let (interpreter, _, done) = run(&format!("{}\nx := {}", declaration, value));
        assert_eq!(done, Err(RuntimeError::TypeMismatch { expected, found }));
        assert_eq!(interpreter.environment.get_value("x"), None);
    }
}

#[test]
fn assignment_to_an_undeclared_variable_fails() {
    let (_, _, done) = run("a := 1");
    assert_eq!(done, Err(RuntimeError::UndefinedVariable("a".to_string())));
}

#[test]
fn a_variable_without_value_cannot_be_read() {
    let (_, _, done) = run("цел a\nцел b\nb := a");
    assert_eq!(done, Err(RuntimeError::UndefinedVariable("a".to_string())));
}

#[test]
fn a_block_variable_is_gone_after_the_block() {
    let (interpreter, _, done) = run(
        "цел a := 1\nесли да то\n  цел b := 2\n  a := a + b\nвсе",
    );
    assert_eq!(done, Ok(()));
    assert_eq!(interpreter.environment.get_value("a"), whole(3));
    assert_eq!(interpreter.environment.get_var("b"), None);
    assert!(!interpreter.environment.get_all_vars().iter().any(|(name, _)| name == "b"));
}

#[test]
fn a_block_variable_is_unknown_to_the_statement_after() {
    let (_, _, done) = run("если да то\n  цел b := 2\nвсе\nцел c\nc := b");
    assert_eq!(done, Err(RuntimeError::UndefinedVariable("b".to_string())));
}

#[test]
fn lookups_fall_through_nested_scopes() {
    let (interpreter, _, done) = run(
        "цел a := 1\nцел r\nесли да то\n  если да то\n    если да то\n      r := a + 1\n    все\n  все\nвсе",
    );
    assert_eq!(done, Ok(()));
    assert_eq!(interpreter.environment.get_value("r"), whole(2));
}

#[test]
fn an_inner_declaration_shadows_the_outer_one() {
    let (interpreter, _, done) = run(
        "цел a := 1\nцел r\nесли да то\n  цел a := 5\n  r := a\nвсе",
    );
    assert_eq!(done, Ok(()));
    assert_eq!(interpreter.environment.get_value("r"), whole(5));
    assert_eq!(interpreter.environment.get_value("a"), whole(1));
}

#[test]
fn break_ends_only_the_innermost_loop() {
    let (interpreter, _, done) = run(
        "цел outer := 0\nцел inner := 0\nцел i := 0\n\
         нц пока i < 3\n  i := i + 1\n  outer := outer + 1\n  нц\n    inner := inner + 1\n    выход\n  кц\nкц",
    );
    assert_eq!(done, Ok(()));
    assert_eq!(interpreter.environment.get_value("outer"), whole(3));
    assert_eq!(interpreter.environment.get_value("inner"), whole(3));
}

#[test]
fn break_in_a_branch_ends_the_loop_around_it() {
    let (interpreter, _, done) = run(
        "цел i := 0\nнц\n  i := i + 1\n  если i == 5 то\n    выход\n  все\nкц",
    );
    assert_eq!(done, Ok(()));
    assert_eq!(interpreter.environment.get_value("i"), whole(5));
}

#[test]
fn break_outside_a_loop_ends_the_statement_list() {
    let mut interpreter = program("цел a := 1\nвыход\na := 2");
    let mut host = TestHost::new();
    assert_eq!(interpreter.run(&mut host), Ok(()));
    let mut budget = 100;
    assert_eq!(
        Stmt::Break.eval(&mut interpreter.environment, &mut host, &mut budget),
        Ok(EvalResult::Break)
    );
    assert_eq!(budget, 99);
}

#[test]
fn a_guard_false_at_entry_runs_the_body_not_once() {
    let (interpreter, _, done) = run("цел n := 0\nнц пока 1 > 2\n  n := n + 1\nкц");
    assert_eq!(done, Ok(()));
    assert_eq!(interpreter.environment.get_value("n"), whole(0));
}

#[test]
fn a_guarded_loop_runs_while_the_guard_holds() {
    let (interpreter, _, done) = run("цел n := 0\nнц пока n < 4\n  n := n + 1\nкц");
    assert_eq!(done, Ok(()));
    assert_eq!(interpreter.environment.get_value("n"), whole(4));
}

#[test]
fn a_guard_must_be_a_boolean() {
    let (_, _, done) = run("нц пока 1\nкц");
    assert_eq!(done, Err(RuntimeError::NotBoolean(Literal::Int(1))));
    let (_, _, done) = run("если \"да\" то\nвсе");
    assert_eq!(done, Err(RuntimeError::NotBoolean(Literal::String("да".to_string()))));
}

#[test]
fn a_range_loop_stops_before_its_end_value() {
    let (interpreter, _, done) = run("цел s := 0\nнц для i от 1 до 4\n  s := s + i\nкц");
    assert_eq!(done, Ok(()));
    assert_eq!(interpreter.environment.get_value("s"), whole(6));
    assert_eq!(interpreter.environment.get_value("i"), whole(4));
}

#[test]
fn a_range_loop_with_equal_bounds_runs_not_once() {
    let (interpreter, _, done) = run("цел s := 0\nнц для i от 3 до 3\n  s := s + 1\nкц");
    assert_eq!(done, Ok(()));
    assert_eq!(interpreter.environment.get_value("s"), whole(0));
}

#[test]
fn range_bounds_must_be_integers() {
    let (_, _, done) = run("нц для i от да до 3\nкц");
    assert_eq!(done, Err(RuntimeError::NotInteger(Literal::Bool(true))));
    let (_, _, done) = run("нц для i от 1 до 'a'\nкц");
    assert_eq!(done, Err(RuntimeError::NotInteger(Literal::Char('a'))));
}

#[test]
fn a_counted_loop_runs_once_more_than_its_count() {
    let (interpreter, _, done) = run("цел n := 0\nнц 3 раз\n  n := n + 1\nкц");
    assert_eq!(done, Ok(()));
    assert_eq!(interpreter.environment.get_value("n"), whole(4));
    let (interpreter, _, done) = run("цел n := 0\nнц 0 раз\n  n := n + 1\nкц");
    assert_eq!(done, Ok(()));
    assert_eq!(interpreter.environment.get_value("n"), whole(1));
}

#[test]
fn a_counted_loop_stops_when_its_guard_fails() {
    let (interpreter, _, done) = run("цел n := 0\nнц 10 раз\n  n := n + 1\nкц_при n < 3");
    assert_eq!(done, Ok(()));
    assert_eq!(interpreter.environment.get_value("n"), whole(3));
}

#[test]
fn a_bare_loop_with_a_guard_tests_it_before_each_round() {
    let (interpreter, _, done) = run("цел n := 0\nнц\n  n := n + 1\nкц_при n < 3");
    assert_eq!(done, Ok(()));
    assert_eq!(interpreter.environment.get_value("n"), whole(3));
}

#[test]
fn a_result_parameter_is_handed_back_under_its_name() {
    let (interpreter, _, done) = run(
        "алг уст(рез цел x)\nнач\n  x := 7\nкон\nцел x := 0\nуст(x)",
    );
    assert_eq!(done, Ok(()));
    assert_eq!(interpreter.environment.get_value("x"), whole(7));
}

#[test]
fn a_result_parameter_binds_by_the_parameter_name_not_the_argument() {
    let (interpreter, _, done) = run(
        "алг уст(рез цел x)\nнач\n  x := 7\nкон\nцел x := 0\nцел y := 1\nуст(y)",
    );
    assert_eq!(done, Ok(()));
    assert_eq!(interpreter.environment.get_value("x"), whole(7));
    assert_eq!(interpreter.environment.get_value("y"), whole(1));
}

#[test]
fn a_result_parameter_needs_a_variable_of_its_name_in_the_caller() {
    let (_, _, done) = run("алг уст(рез цел x)\nнач\n  x := 7\nкон\nцел y := 0\nуст(y)");
    assert_eq!(done, Err(RuntimeError::UndefinedVariable("x".to_string())));
    let (_, _, done) = run("алг уст(рез цел x)\nнач\n  x := 7\nкон\nлог x\nуст(x)");
    assert_eq!(
        done,
        Err(RuntimeError::TypeMismatch {
            expected: TypeDefinition::Int,
            found: TypeDefinition::Bool
        })
    );
}

#[test]
fn a_result_parameter_never_set_is_an_error() {
    let (interpreter, _, done) = run("алг уст(рез цел x)\nнач\nкон\nцел x := 0\nуст(x)");
    assert_eq!(done, Err(RuntimeError::UnsetVariable("x".to_string())));
    assert_eq!(interpreter.environment.get_value("x"), whole(0));
}

#[test]
fn an_argument_result_parameter_goes_in_and_out() {
    let (interpreter, _, done) = run(
        "алг удвоить(аргрез цел x)\nнач\n  x := x * 2\nкон\nцел x := 21\nудвоить(x)",
    );
    assert_eq!(done, Ok(()));
    assert_eq!(interpreter.environment.get_value("x"), whole(42));
    let (interpreter, _, done) = run(
        "алг удвоить(арг рез цел x)\nнач\n  x := x * 2\nкон\nцел x := 4\nудвоить(x)",
    );
    assert_eq!(done, Ok(()));
    assert_eq!(interpreter.environment.get_value("x"), whole(8));
}

#[test]
fn an_argument_parameter_does_not_touch_the_caller() {
    let (interpreter, _, done) = run(
        "алг f(цел x)\nнач\n  x := x + 1\nкон\nцел x := 1\nf(x)",
    );
    assert_eq!(done, Ok(()));
    assert_eq!(interpreter.environment.get_value("x"), whole(1));
}

#[test]
fn a_function_returns_its_return_slot() {
    let (interpreter, _, done) = run(
        "алг цел сумма(цел a, b)\nнач\n  знач := a + b\nкон\nцел r\nr := сумма(2, 3) * 2",
    );
    assert_eq!(done, Ok(()));
    assert_eq!(interpreter.environment.get_value("r"), whole(10));
}

#[test]
fn a_function_that_sets_no_value_is_an_error() {
    let (_, _, done) = run("алг цел f()\nнач\nкон\nцел r\nr := f()");
    assert_eq!(done, Err(RuntimeError::UnsetVariable("знач".to_string())));
}

#[test]
fn a_procedure_gives_no_value() {
    let (_, _, done) = run("алг p()\nнач\nкон\nцел r\nr := p()");
    assert_eq!(done, Err(RuntimeError::NotAValue));
}

#[test]
fn a_name_of_a_function_is_a_call_without_arguments() {
    let (interpreter, _, done) = run("алг цел семь()\nнач\n  знач := 7\nкон\nцел r\nr := семь + 1");
    assert_eq!(done, Ok(()));
    assert_eq!(interpreter.environment.get_value("r"), whole(8));
}

#[test]
fn a_function_does_not_see_the_variables_of_its_caller() {
    let (_, _, done) = run("алг f()\nнач\n  a := 2\nкон\nцел a := 1\nf()");
    assert_eq!(done, Err(RuntimeError::UndefinedVariable("a".to_string())));
}

#[test]
fn recursion_works() {
    let (interpreter, _, done) = run(
        "алг цел факт(цел n)\nнач\n  если n < 2 то\n    знач := 1\n  иначе\n    знач := n * факт(n - 1)\n  все\nкон\n\
         цел r\nr := факт(10)",
    );
    assert_eq!(done, Ok(()));
    assert_eq!(interpreter.environment.get_value("r"), whole(3628800));
}

#[test]
fn calling_an_undeclared_function_names_it() {
    let (_, _, done) = run("цел a := 1\nнеизвестная(a)");
    assert_eq!(done, Err(RuntimeError::UndefinedFunction("неизвестная".to_string())));
    let mut interpreter = program("нет_такой()");
    let mut host = TestHost::new();
    assert_eq!(
        interpreter.run(&mut host),
        Err(RuntimeError::UndefinedFunction("нет_такой".to_string()))
    );
}

#[test]
fn the_number_of_arguments_must_fit() {
    let (_, _, done) = run("алг f(цел a, b)\nнач\nкон\nf(1)");
    assert_eq!(done, Err(RuntimeError::ArityMismatch { parameters: 2, arguments: 1 }));
    let (_, _, done) = run("алг f(цел a)\nнач\nкон\nf(1, 2)");
    assert_eq!(done, Err(RuntimeError::ArityMismatch { parameters: 1, arguments: 2 }));
}

#[test]
fn the_types_of_arguments_must_fit() {
    let (_, _, done) = run("алг f(цел a, лог b)\nнач\nкон\nf(1, 2)");
    assert_eq!(
        done,
        Err(RuntimeError::TypeMismatch {
            expected: TypeDefinition::Bool,
            found: TypeDefinition::Int
        })
    );
}

#[test]
fn a_native_function_is_called_with_its_parameters() {
    let mut interpreter = program("цел r\nr := удвоить(21)");
    let mut host = TestHost::new();
    let handle = host.native(Box::new(|scope| match scope.get_value("число") {
        Some(Literal::Int(n)) => Ok(Some(Literal::Int(n * 2))),
        other => Err(format!("unexpected {:?}", other)),
    }));
    interpreter.register_native_function(
        "удвоить",
        native(
            &[("число", parameter(TypeDefinition::Int, FunctionParamType::ArgumentParam))],
            Some(TypeDefinition::Int),
            handle,
        ),
    );
    let mut budget = u64::MAX;
    assert_eq!(run_in_scope(&mut interpreter, &mut host, &mut budget), Ok(()));
    assert_eq!(interpreter.environment.get_value("r"), whole(42));
}

#[test]
fn a_native_function_may_set_result_parameters() {
    let mut interpreter = program("цел x := 0\nуст(x)");
    let mut host = TestHost::new();
    let handle = host.native(Box::new(|scope| {
        scope.assign_var("x", Literal::Int(9)).map_err(|error| format!("{:?}", error))?;
        Ok(None)
    }));
    interpreter.register_native_function(
        "уст",
        native(
            &[("x", parameter(TypeDefinition::Int, FunctionParamType::ResultParam))],
            None,
            handle,
        ),
    );
    let mut budget = u64::MAX;
    assert_eq!(run_in_scope(&mut interpreter, &mut host, &mut budget), Ok(()));
    assert_eq!(interpreter.environment.get_value("x"), whole(9));
}

#[test]
fn the_error_of_a_native_function_ends_the_run() {
    let mut interpreter = program("цел a := 1\nсломать()\na := 2");
    let mut host = TestHost::new();
    let handle = host.native(Box::new(|_| Err("стена".to_string())));
    interpreter.register_native_function("сломать", native(&[], None, handle));
    let mut budget = u64::MAX;
    assert_eq!(
        run_in_scope(&mut interpreter, &mut host, &mut budget),
        Err(RuntimeError::Native("стена".to_string()))
    );
    assert_eq!(interpreter.environment.get_value("a"), whole(1));
    let mut again = program("нц 5 раз\n  если да то\n    сломать()\n  все\nкц");
    again.register_native_function("сломать", native(&[], None, handle));
    assert_eq!(again.run(&mut host), Err(RuntimeError::Native("стена".to_string())));
}

#[test]
fn a_native_function_unknown_to_the_host_fails() {
    let mut interpreter = program("f()");
    let mut host = TestHost::new();
    interpreter.register_native_function("f", native(&[], None, 17));
    assert_eq!(
        interpreter.run(&mut host),
        Err(RuntimeError::Native("no native function 17".to_string()))
    );
}

#[test]
fn an_imported_namespace_shows_its_functions() {
    let mut interpreter = program("использовать Робот\nлог r\nr := проверка()");
    let mut host = TestHost::new();
    let handle = host.native(Box::new(|_| Ok(Some(Literal::Bool(true)))));
    interpreter.register_native_function_in_namespace(
        "проверка",
        native(&[], Some(TypeDefinition::Bool), handle),
        "Робот",
    );
    let mut budget = u64::MAX;
    assert_eq!(run_in_scope(&mut interpreter, &mut host, &mut budget), Ok(()));
    assert_eq!(interpreter.environment.get_value("r"), Some(Literal::Bool(true)));
}

#[test]
fn a_namespace_not_imported_hides_its_functions() {
    let mut interpreter = program("лог r\nr := проверка()");
    let mut host = TestHost::new();
    let handle = host.native(Box::new(|_| Ok(Some(Literal::Bool(true)))));
    interpreter.register_native_function_in_namespace(
        "проверка",
        native(&[], Some(TypeDefinition::Bool), handle),
        "Робот",
    );
    assert_eq!(
        interpreter.run(&mut host),
        Err(RuntimeError::UndefinedFunction("проверка".to_string()))
    );
}

#[test]
fn an_import_reaches_the_importing_scope_only() {
    let source = "лог r := нет\n\
                  если да то\n  использовать Робот\n  r := проверка()\nвсе\n\
                  если да то\n  r := проверка()\nвсе";
    let mut interpreter = program(source);
    let mut host = TestHost::new();
    let handle = host.native(Box::new(|_| Ok(Some(Literal::Bool(true)))));
    let mut namespace = Namespace::default();
    namespace.register_native_function("проверка", native(&[], Some(TypeDefinition::Bool), handle));
    interpreter.register_namespace("Робот", namespace);
    let mut budget = u64::MAX;
    assert_eq!(
        run_in_scope(&mut interpreter, &mut host, &mut budget),
        Err(RuntimeError::UndefinedFunction("проверка".to_string()))
    );
    assert_eq!(interpreter.environment.get_value("r"), Some(Literal::Bool(true)));
    assert!(interpreter.environment.get_function("проверка").is_none());
}

#[test]
fn importing_twice_changes_nothing_more() {
    let mut interpreter = program("использовать Робот\nиспользовать Робот\nлог r\nr := проверка()");
    let mut host = TestHost::new();
    let handle = host.native(Box::new(|_| Ok(Some(Literal::Bool(false)))));
    interpreter.register_native_function_in_namespace(
        "проверка",
        native(&[], Some(TypeDefinition::Bool), handle),
        "Робот",
    );
    let mut budget = u64::MAX;
    assert_eq!(run_in_scope(&mut interpreter, &mut host, &mut budget), Ok(()));
    assert_eq!(interpreter.environment.get_value("r"), Some(Literal::Bool(false)));
    assert!(interpreter.environment.get_function("проверка").is_some());
}

#[test]
fn importing_an_unknown_namespace_fails() {
    let (_, _, done) = run("использовать Чертёжник");
    assert_eq!(done, Err(RuntimeError::UndefinedNamespace("Чертёжник".to_string())));
}

#[test]
fn the_interruption_flag_stops_the_run_at_the_next_statement() {
    let flag = Arc::new(AtomicBool::new(false));
    let mut interpreter = program("цел a := 0\nцел b := 0\na := стоп() + 1\nb := 1");
    interpreter.environment.set_kill_flag(flag.clone());
    let mut host = TestHost::new();
    let setter = flag.clone();
    let handle = host.native(Box::new(move |_| {
        setter.store(true, Ordering::Relaxed);
        Ok(Some(Literal::Int(1)))
    }));
    interpreter.register_native_function("стоп", native(&[], Some(TypeDefinition::Int), handle));
    let mut budget = u64::MAX;
    assert_eq!(
        run_in_scope(&mut interpreter, &mut host, &mut budget),
        Err(RuntimeError::UserInterrupt)
    );
    assert_eq!(interpreter.environment.get_value("a"), whole(2));
    assert_eq!(interpreter.environment.get_value("b"), whole(0));
    assert!(!flag.load(Ordering::Relaxed));
}

#[test]
fn a_flag_set_before_the_run_stops_it_at_once() {
    let flag = Arc::new(AtomicBool::new(true));
    let mut interpreter = program("цел a := 0");
    interpreter.environment.set_kill_flag(flag.clone());
    let mut host = TestHost::new();
    assert_eq!(interpreter.run(&mut host), Err(RuntimeError::UserInterrupt));
    assert!(!flag.load(Ordering::Relaxed));
    assert_eq!(interpreter.run(&mut host), Ok(()));
}

#[test]
fn the_flag_reaches_the_scopes_of_calls() {
    let flag = Arc::new(AtomicBool::new(false));
    let mut interpreter = program(
        "алг f()\nнач\n  стоп()\n  цел a := 1\nкон\nf()",
    );
    interpreter.environment.set_kill_flag(flag.clone());
    let mut host = TestHost::new();
    let setter = flag.clone();
    let handle = host.native(Box::new(move |_| {
        setter.store(true, Ordering::Relaxed);
        Ok(None)
    }));
    interpreter.register_native_function("стоп", native(&[], None, handle));
    assert_eq!(interpreter.run(&mut host), Err(RuntimeError::UserInterrupt));
}

#[test]
fn integer_arithmetic_wraps_around() {
    let (interpreter, _, done) = run(
        "цел a := 2147483647\nцел b\nцел c\nцел d\nb := a + 1\nc := 0 - a - 2\nd := a * 2",
    );
    assert_eq!(done, Ok(()));
    assert_eq!(interpreter.environment.get_value("b"), whole(i32::MIN));
    assert_eq!(interpreter.environment.get_value("c"), whole(i32::MAX));
    assert_eq!(interpreter.environment.get_value("d"), whole(-2));
}

#[test]
fn integer_division_truncates() {
    let (interpreter, _, done) = run("цел a\nцел b\na := 7 / 2\nb := (0 - 7) / 2");
    assert_eq!(done, Ok(()));
    assert_eq!(interpreter.environment.get_value("a"), whole(3));
    assert_eq!(interpreter.environment.get_value("b"), whole(-3));
}

#[test]
fn division_by_zero_is_an_error() {
    let (_, _, done) = run("цел a\na := 1 / 0");
    assert_eq!(
        done,
        Err(RuntimeError::InvalidOperation {
            left: Literal::Int(1),
            operator: Operator::Divide,
            right: Literal::Int(0)
        })
    );
    let mut host = TestHost::new();
    assert_eq!(
        apply_binary(Literal::Int(i32::MIN), Operator::Divide, Literal::Int(-1), &mut host),
        Err(RuntimeError::InvalidOperation {
            left: Literal::Int(i32::MIN),
            operator: Operator::Divide,
            right: Literal::Int(-1)
        })
    );
}

#[test]
fn operands_of_two_types_never_combine() {
    let (_, _, done) = run("цел a\na := 1 + да");
    assert_eq!(
        done,
        Err(RuntimeError::InvalidOperation {
            left: Literal::Int(1),
            operator: Operator::Plus,
            right: Literal::Bool(true)
        })
    );
    let mut host = TestHost::new();
    assert_eq!(
        apply_binary(
            Literal::Int(1),
            Operator::EqualBool,
            Literal::Float(Float::Written("1.0".to_string())),
            &mut host
        ),
        Err(RuntimeError::InvalidOperation {
            left: Literal::Int(1),
            operator: Operator::EqualBool,
            right: Literal::Float(Float::Written("1.0".to_string()))
        })
    );
}

#[test]
fn the_table_of_binary_operations() {
    let mut host = TestHost::new();
    let mut apply = |l: Literal, op: Operator, r: Literal| apply_binary(l, op, r, &mut host);
    assert_eq!(apply(Literal::Int(7), Operator::Plus, Literal::Int(5)), Ok(Literal::Int(12)));
    assert_eq!(apply(Literal::Int(7), Operator::Minus, Literal::Int(5)), Ok(Literal::Int(2)));
    assert_eq!(apply(Literal::Int(7), Operator::Multiply, Literal::Int(5)), Ok(Literal::Int(35)));
    assert_eq!(apply(Literal::Int(7), Operator::Divide, Literal::Int(5)), Ok(Literal::Int(1)));
    assert_eq!(apply(Literal::Int(7), Operator::Greater, Literal::Int(5)), Ok(Literal::Bool(true)));
    assert_eq!(apply(Literal::Int(7), Operator::Less, Literal::Int(5)), Ok(Literal::Bool(false)));
    assert_eq!(
        apply(Literal::Int(5), Operator::GreaterOrEqual, Literal::Int(5)),
        Ok(Literal::Bool(true))
    );
    assert_eq!(
        apply(Literal::Int(6), Operator::LessOrEqual, Literal::Int(5)),
        Ok(Literal::Bool(false))
    );
    assert_eq!(apply(Literal::Int(5), Operator::EqualBool, Literal::Int(5)), Ok(Literal::Bool(true)));
    assert_eq!(apply(Literal::Int(5), Operator::NotEqual, Literal::Int(5)), Ok(Literal::Bool(false)));
    assert_eq!(
        apply(Literal::Bool(true), Operator::EqualBool, Literal::Bool(false)),
        Ok(Literal::Bool(false))
    );
    assert_eq!(
        apply(Literal::Bool(true), Operator::NotEqual, Literal::Bool(false)),
        Ok(Literal::Bool(true))
    );
    assert_eq!(
        apply(Literal::Char('a'), Operator::EqualBool, Literal::Char('a')),
        Ok(Literal::Bool(true))
    );
    assert_eq!(
        apply(Literal::Char('a'), Operator::NotEqual, Literal::Char('b')),
        Ok(Literal::Bool(true))
    );
    assert_eq!(
        apply(
            Literal::String("аб".to_string()),
            Operator::EqualBool,
            Literal::String("аб".to_string())
        ),
        Ok(Literal::Bool(true))
    );
    assert_eq!(
        apply(
            Literal::String("аб".to_string()),
            Operator::NotEqual,
            Literal::String("аб".to_string())
        ),
        Ok(Literal::Bool(false))
    );
    assert_eq!(
        apply(Literal::Bool(true), Operator::Plus, Literal::Bool(true)),
        Err(RuntimeError::InvalidOperation {
            left: Literal::Bool(true),
            operator: Operator::Plus,
            right: Literal::Bool(true)
        })
    );
    assert_eq!(
        apply(Literal::Int(1), Operator::Equal, Literal::Int(1)),
        Err(RuntimeError::InvalidOperation {
            left: Literal::Int(1),
            operator: Operator::Equal,
            right: Literal::Int(1)
        })
    );
}

#[test]
fn reals_are_computed_by_the_host() {
    let (interpreter, _, done) = run(
        "вещ a := 1.5\nвещ b\nлог c\nлог d\nb := a * 2.0 + 0.25\nc := b > a\nd := b == 3.25",
    );
    assert_eq!(done, Ok(()));
    assert_eq!(
        interpreter.environment.get_value("a"),
        Some(Literal::Float(Float::Written("1.5".to_string())))
    );
    assert_eq!(
        interpreter.environment.get_value("b"),
        Some(Literal::Float(Float::Bits(3.25f32.to_bits())))
    );
    assert_eq!(interpreter.environment.get_value("c"), Some(Literal::Bool(true)));
    assert_eq!(interpreter.environment.get_value("d"), Some(Literal::Bool(true)));
    let mut host = TestHost::new();
    assert_eq!(
        apply_binary(
            Literal::Float(Float::Bits(1.0f32.to_bits())),
            Operator::Assignment,
            Literal::Float(Float::Bits(1.0f32.to_bits())),
            &mut host
        ),
        Err(RuntimeError::InvalidOperation {
            left: Literal::Float(Float::Bits(1.0f32.to_bits())),
            operator: Operator::Assignment,
            right: Literal::Float(Float::Bits(1.0f32.to_bits()))
        })
    );
}

#[test]
fn output_goes_to_the_host() {
    let (_, host, done) = run("цел a := 5\nвывод a, \" и \", 'c', нс, да, 2 + 2");
    assert_eq!(done, Ok(()));
    assert_eq!(host.written, "\n5\" и \"'c'\ntrue4");
}

#[test]
fn a_line_break_is_no_value() {
    let mut environment = Environment::default();
    let mut host = TestHost::new();
    let mut budget = 10;
    assert_eq!(
        Expr::NewLine.eval(&mut environment, &mut host, &mut budget),
        Err(RuntimeError::NotAValue)
    );
}

#[test]
fn every_evaluation_takes_a_step() {
    let mut environment = Environment::default();
    let mut host = TestHost::new();
    let sum = Expr::BinaryOp(BinaryOp {
        left: Box::new(Expr::Literal(Literal::Int(1))),
        op: Operator::Plus,
        right: Box::new(Expr::Literal(Literal::Int(2))),
    });
    let mut budget = 3;
    assert_eq!(sum.eval(&mut environment, &mut host, &mut budget), Ok(Literal::Int(3)));
    assert_eq!(budget, 0);
    let mut budget = 2;
    assert_eq!(sum.eval(&mut environment, &mut host, &mut budget), Err(RuntimeError::StepLimit));
    let mut budget = 0;
    assert_eq!(
        Stmt::Break.eval(&mut environment, &mut host, &mut budget),
        Err(RuntimeError::StepLimit)
    );
    assert_eq!(
        AstNode::Program(vec![]).eval(&mut environment, &mut host, &mut budget),
        Err(RuntimeError::StepLimit)
    );
}

#[test]
fn a_loop_without_end_uses_up_the_budget() {
    let mut interpreter = program("нц\nкц");
    let mut host = TestHost::new();
    assert_eq!(interpreter.run_within(&mut host, 1000), Err(RuntimeError::StepLimit));
    let mut endless = program("алг f()\nнач\n  f()\nкон\nf()");
    assert_eq!(endless.run_within(&mut host, 1000), Err(RuntimeError::StepLimit));
}

#[test]
fn declarations_of_algorithms_do_nothing_when_run() {
    let mut interpreter = program("алг main()\nнач\n  вывод 1\nкон");
    let mut host = TestHost::new();
    assert_eq!(interpreter.run(&mut host), Ok(()));
    assert_eq!(host.written, "");
    assert!(matches!(
        interpreter.environment.get_function("main"),
        Some(FunctionVariant::Kumir(_))
    ));
}

#[test]
fn a_later_declaration_replaces_an_earlier_one() {
    let (interpreter, _, done) = run(
        "алг цел f()\nнач\n  знач := 1\nкон\nалг цел f()\nнач\n  знач := 2\nкон\nцел r\nr := f()",
    );
    assert_eq!(done, Ok(()));
    assert_eq!(interpreter.environment.get_value("r"), whole(2));
}

#[test]
fn several_variables_are_declared_at_once() {
    let (interpreter, _, done) = run("цел a, b, c\nb := 2");
    assert_eq!(done, Ok(()));
    assert_eq!(interpreter.environment.get_var_type("a"), Some(TypeDefinition::Int));
    assert_eq!(interpreter.environment.get_value("b"), whole(2));
    assert_eq!(interpreter.environment.get_var_type("c"), Some(TypeDefinition::Int));
    assert_eq!(interpreter.environment.get_value("c"), None);
}

#[test]
fn a_text_that_is_no_program_gives_no_interpreter() {
    assert!(matches!(
        Interpreter::new_from_string("цел a := #"),
        Err(SourceError::Lex(LexError::UnknownCharacter('#')))
    ));
    match Interpreter::new_from_string("цел a\nцел 5") {
        Err(SourceError::Parse(statements, error)) => {
            assert_eq!(statements.len(), 1);
            assert_eq!(error.position, 3);
        }
        _ => panic!("a parse error was expected"),
    }
}

#[test]
fn arguments_are_checked_by_number_then_by_type() {
    let mut interpreter = program("цел x := 1\nлог r := да\nf(x, r)");
    let mut host = TestHost::new();
    let mut budget = u64::MAX;
    let handle = host.native(Box::new(|_| Ok(None)));
    interpreter.register_native_function(
        "f",
        native(
            &[
                ("x", parameter(TypeDefinition::Int, FunctionParamType::ArgumentParam)),
                ("r", parameter(TypeDefinition::Int, FunctionParamType::ResultParam)),
            ],
            None,
            handle,
        ),
    );
    assert_eq!(
        run_in_scope(&mut interpreter, &mut host, &mut budget),
        Err(RuntimeError::TypeMismatch {
            expected: TypeDefinition::Int,
            found: TypeDefinition::Bool
        })
    );
}

#[test]
fn a_call_is_ended_by_its_parts() {
    let mut caller = Environment::default();
    caller.new_var("x", Some(Literal::Int(0)), TypeDefinition::Int);
    let mut scope = Environment::default();
    scope.new_var("x", Some(Literal::Int(5)), TypeDefinition::Int);
    scope.new_var("знач", Some(Literal::Int(6)), TypeDefinition::Int);
    let names = vec!["x".to_string()];
    assert_eq!(
        finish_call(
            Err(RuntimeError::Native("нет".to_string())),
            &names,
            Some(TypeDefinition::Int),
            &scope,
            &mut caller
        ),
        Err(RuntimeError::Native("нет".to_string()))
    );
    assert_eq!(caller.get_value("x"), whole(0));
    assert_eq!(
        finish_call(Ok(None), &names, Some(TypeDefinition::Int), &scope, &mut caller),
        Ok(FunctionResult::Literal(Literal::Int(6)))
    );
    assert_eq!(caller.get_value("x"), whole(5));
    assert_eq!(
        finish_call(Ok(Some(Literal::Int(8))), &names, Some(TypeDefinition::Int), &scope, &mut caller),
        Ok(FunctionResult::Literal(Literal::Int(8)))
    );
    assert_eq!(
        finish_call(Ok(Some(Literal::Int(8))), &names, None, &scope, &mut caller),
        Ok(FunctionResult::Procedure)
    );
    scope.new_var("x", None, TypeDefinition::Int);
    assert_eq!(
        write_back(&names, &scope, &mut caller),
        Err(RuntimeError::UnsetVariable("x".to_string()))
    );
    let unknown = vec!["y".to_string()];
    assert_eq!(
        write_back(&unknown, &scope, &mut caller),
        Err(RuntimeError::UnsetVariable("y".to_string()))
    );
}

#[test]
fn parameters_are_bound_in_their_order() {
    let mut caller = Environment::default();
    caller.new_var("out", None, TypeDefinition::Bool);
    caller.register_function("f", FunctionVariant::Native(native(&[], None, 0)));
    let function = native(
        &[
            ("b", parameter(TypeDefinition::Int, FunctionParamType::ArgumentParam)),
            ("out", parameter(TypeDefinition::Bool, FunctionParamType::ResultParam)),
            ("a", parameter(TypeDefinition::Int, FunctionParamType::ArgumentResultParam)),
        ],
        Some(TypeDefinition::Char),
        0,
    );
    caller.new_var("a", Some(Literal::Int(1)), TypeDefinition::Int);
    let call = FunctionCall {
        name: "f".to_string(),
        args: vec![
            Expr::Literal(Literal::Int(10)),
            Expr::Identifier("out".to_string()),
            Expr::Literal(Literal::Int(30)),
        ],
    };
    assert_eq!(call.args.len(), 3);
    let mut host = TestHost::new();
    let seen = std::rc::Rc::new(std::cell::RefCell::new(Vec::new()));
    let sink = seen.clone();
    let handle = host.native(Box::new(move |scope| {
        sink.borrow_mut().push((
            scope.get_var("b"),
            scope.get_var("out"),
            scope.get_var("a"),
            scope.get_var("знач"),
            scope.get_function("f").is_some(),
        ));
        scope.assign_var("out", Literal::Bool(true)).map_err(|e| format!("{:?}", e))?;
        Ok(Some(Literal::Char('z')))
    }));
    let function = NativeFunction { native_function: handle, ..function };
    caller.register_function("f", FunctionVariant::Native(function));
    let mut budget = 100;
    assert_eq!(
        call.eval(&mut caller, &mut host, &mut budget),
        Ok(FunctionResult::Literal(Literal::Char('z')))
    );
    let seen = seen.borrow();
    assert_eq!(seen.len(), 1);
    let variable = |type_def, value| Some(kumir_lang::ast::Variable { type_def, value });
    assert_eq!(seen[0].0, variable(TypeDefinition::Int, whole(10)));
    assert_eq!(seen[0].1, variable(TypeDefinition::Bool, None));
    assert_eq!(seen[0].2, variable(TypeDefinition::Int, whole(30)));
    assert_eq!(seen[0].3, variable(TypeDefinition::Char, None));
    assert!(seen[0].4);
    assert_eq!(caller.get_value("out"), Some(Literal::Bool(true)));
    assert_eq!(caller.get_value("a"), whole(30));
}

#[test]
fn the_parts_of_a_call_check_and_bind() {
    let function = native(
        &[
            ("a", parameter(TypeDefinition::Int, FunctionParamType::ArgumentParam)),
            ("r", parameter(TypeDefinition::Int, FunctionParamType::ResultParam)),
        ],
        None,
        0,
    );
    let mut caller = Environment::default();
    let mut host = TestHost::new();
    let mut budget = 100;
    caller.register_function("f", FunctionVariant::Native(function));
    let call = FunctionCall {
        name: "f".to_string(),
        args: vec![Expr::Literal(Literal::Int(1)), Expr::Identifier("нет".to_string())],
    };
    assert_eq!(
        call.eval(&mut caller, &mut host, &mut budget),
        Err(RuntimeError::UndefinedVariable("r".to_string()))
    );
    let _ = (check_arguments, bind_parameters);
}

#[test]
fn construction_registers_the_algorithms() {
    let interpreter = program("алг f()\nнач\nкон\nцел a\nалг цел g(цел x)\nнач\n  знач := x\nкон");
    assert!(matches!(interpreter.environment.get_function("f"), Some(FunctionVariant::Kumir(_))));
    assert!(matches!(interpreter.environment.get_function("g"), Some(FunctionVariant::Kumir(_))));
    assert!(interpreter.environment.get_function("a").is_none());
    assert!(interpreter.environment.get_all_vars().is_empty());
    match interpreter.environment.get_function("g") {
        Some(FunctionVariant::Kumir(function)) => {
            assert_eq!(function.name, "g");
            assert_eq!(function.return_type, Some(TypeDefinition::Int));
        }
        _ => panic!("an algorithm was expected"),
    }
}

#[test]
fn a_native_function_registered_later_replaces_an_algorithm() {
    let mut interpreter = program("алг цел f()\nнач\n  знач := 1\nкон\nцел r\nr := f()");
    let mut host = TestHost::new();
    let handle = host.native(Box::new(|_| Ok(Some(Literal::Int(2)))));
    interpreter.register_native_function("f", native(&[], Some(TypeDefinition::Int), handle));
    let mut budget = 1000;
    if let AstNode::Program(statements) = &interpreter.ast {
        for statement in statements {
            assert!(statement.eval(&mut interpreter.environment, &mut host, &mut budget).is_ok());
        }
    }
    assert_eq!(interpreter.environment.get_value("r"), whole(2));
    interpreter.register_functions();
    assert!(matches!(interpreter.environment.get_function("f"), Some(FunctionVariant::Kumir(_))));
}

#[test]
fn the_top_level_scope_is_dropped_after_a_run() {
    let mut interpreter = program("цел a := 1");
    let mut host = TestHost::new();
    assert_eq!(interpreter.run(&mut host), Ok(()));
    assert_eq!(interpreter.environment.get_var("a"), None);
}

#[test]
fn a_scope_opened_in_a_scope_shares_its_flag() {
    let flag = Arc::new(AtomicBool::new(false));
    let mut interpreter = program("если да то\n  нц 2 раз\n    стоп()\n  кц\nвсе");
    interpreter.environment.set_kill_flag(flag.clone());
    let mut host = TestHost::new();
    let setter = flag.clone();
    let calls = std::rc::Rc::new(std::cell::Cell::new(0));
    let counter = calls.clone();
    let handle = host.native(Box::new(move |_| {
        counter.set(counter.get() + 1);
        setter.store(true, Ordering::Relaxed);
        Ok(None)
    }));
    interpreter.register_native_function("стоп", native(&[], None, handle));
    assert_eq!(interpreter.run(&mut host), Err(RuntimeError::UserInterrupt));
    assert_eq!(calls.get(), 1);
    assert!(Arc::ptr_eq(&interpreter.environment.kill_flag, &flag));
}

/// A small generator of pseudo-random numbers, the same on every run.
struct Sequence(u64);

impl Sequence {
    fn next(&mut self, bound: u64) -> u64 {
        self.0 = self.0.wrapping_mul(6364136223846793005).wrapping_add(1442695040888963407);
        (self.0 >> 33) % bound
    }
}

/// Writes a random arithmetic expression of the given depth and computes its
/// value by the grouping that the text shows: every operation stands in its
/// own parentheses, or not, and then the precedence of the operators must
/// give the same grouping.
fn random_sum(sequence: &mut Sequence, terms: u64) -> (String, i32) {
    let mut text = String::new();
    let mut total: i32 = 0;
    let mut sign = 1;
    for term in 0..terms {
        if term > 0 {
            if sequence.next(2) == 0 {
                text.push_str(" + ");
                sign = 1;
            } else {
                text.push_str(" - ");
                sign = -1;
            }
        }
        let factors = 1 + sequence.next(3);
        let mut product: i32 = 1;
        for factor in 0..factors {
            if factor > 0 {
                text.push_str(" * ");
            }
            let value = sequence.next(10) as i32;
            if sequence.next(4) == 0 {
                let other = sequence.next(10) as i32;
                text.push_str(&format!("({} + {})", value, other));
                product = product.wrapping_mul(value + other);
            } else {
                text.push_str(&format!("{}", value));
                product = product.wrapping_mul(value);
            }
        }
        total = total.wrapping_add(sign * product);
    }
    (text, total)
}

#[test]
fn sums_of_products_have_the_value_of_their_grouping() {
    let mut sequence = Sequence(2024);
    for _ in 0..200 {
        let terms = 1 + sequence.next(5);
        let (text, expected) = random_sum(&mut sequence, terms);
        let (interpreter, _, done) = run(&format!("цел r\nr := {}", text));
        assert_eq!(done, Ok(()), "{}", text);
        assert_eq!(interpreter.environment.get_value("r"), whole(expected), "{}", text);
    }
}

#[test]
fn comparisons_of_sums_compare_the_sums() {
    let mut sequence = Sequence(7);
    for _ in 0..100 {
        let (left, l) = random_sum(&mut sequence, 2);
        let (right, r) = random_sum(&mut sequence, 2);
        let (interpreter, _, done) = run(&format!(
            "лог a\nлог b\nлог c\na := {l} < {r}\nb := {l} >= {r}\nc := {l} < {r} == {r} > {l}",
            l = left,
            r = right
        ));
        assert_eq!(done, Ok(()));
        assert_eq!(interpreter.environment.get_value("a"), Some(Literal::Bool(l < r)));
        assert_eq!(interpreter.environment.get_value("b"), Some(Literal::Bool(l >= r)));
        assert_eq!(interpreter.environment.get_value("c"), Some(Literal::Bool(true)));
    }
}

#[test]
fn a_whole_program_runs() {
    let source = "\
| наибольший общий делитель и сумма цифр
алг цел нод(цел a, b)
нач
  цел x := a
  цел y := b
  нц пока y > 0
    цел t := y
    y := x - x / y * y
    x := t
  кц
  знач := x
кон

алг цифры(цел n, рез цел сумма)
нач
  цел m := n
  сумма := 0
  нц
    если m == 0 то
      выход
    все
    сумма := сумма + m - m / 10 * 10
    m := m / 10
  кц
кон

цел сумма := 0
цел d
d := нод(1071, 462)
цифры(98765, сумма)
вывод \"нод = \", d, нс, \"сумма = \", сумма
";
    let (interpreter, host, done) = run(source);
    assert_eq!(done, Ok(()));
    assert_eq!(interpreter.environment.get_value("d"), whole(21));
    assert_eq!(interpreter.environment.get_value("сумма"), whole(35));
    assert_eq!(host.written, "\n\"нод = \"21\n\"сумма = \"35");
}

#[test]
fn inequality_is_defined_for_every_type() {
    let (interpreter, _, done) = run(
        "лог a\nлог b\nлог c\nлог d\nлог e\n\
         a := 1 <> 2\nb := да <> да\nc := 'x' <> 'y'\nd := \"аб\" <> \"аб\"\ne := 1.5 <> 2.5",
    );
    assert_eq!(done, Ok(()));
    assert_eq!(interpreter.environment.get_value("a"), Some(Literal::Bool(true)));
    assert_eq!(interpreter.environment.get_value("b"), Some(Literal::Bool(false)));
    assert_eq!(interpreter.environment.get_value("c"), Some(Literal::Bool(true)));
    assert_eq!(interpreter.environment.get_value("d"), Some(Literal::Bool(false)));
    assert_eq!(interpreter.environment.get_value("e"), Some(Literal::Bool(true)));
}

#[test]
fn a_statement_that_finds_the_flag_set_does_nothing() {
    let mut environment = Environment::default();
    environment.new_var("a", Some(Literal::Int(1)), TypeDefinition::Int);
    let mut host = TestHost::new();
    let assign = Stmt::Assign { name: "a".to_string(), value: Expr::Literal(Literal::Int(2)) };
    let mut budget = 10;
    assert_eq!(
        assign.eval_started(true, &mut environment, &mut host, &mut budget),
        Err(RuntimeError::UserInterrupt)
    );
    assert_eq!(environment.get_value("a"), whole(1));
    assert_eq!(budget, 10);
    assert_eq!(
        assign.eval_started(false, &mut environment, &mut host, &mut budget),
        Ok(EvalResult::Procedure)
    );
    assert_eq!(environment.get_value("a"), whole(2));
    assert_eq!(budget, 9);
    assert_eq!(
        Stmt::Break.eval_started(true, &mut environment, &mut host, &mut budget),
        Err(RuntimeError::UserInterrupt)
    );
    assert_eq!(
        Stmt::Break.eval_started(false, &mut environment, &mut host, &mut budget),
        Ok(EvalResult::Break)
    );
    assert_eq!(budget, 9);
}

#[test]
fn a_set_flag_is_cleared_by_the_statement_that_finds_it() {
    let flag = Arc::new(AtomicBool::new(true));
    let mut environment = Environment::default();
    environment.set_kill_flag(flag.clone());
    environment.new_var("a", Some(Literal::Int(1)), TypeDefinition::Int);
    let mut host = TestHost::new();
    let assign = Stmt::Assign { name: "a".to_string(), value: Expr::Literal(Literal::Int(2)) };
    let mut budget = 10;
    assert_eq!(
        assign.eval(&mut environment, &mut host, &mut budget),
        Err(RuntimeError::UserInterrupt)
    );
    assert!(!flag.load(Ordering::Relaxed));
    assert_eq!(environment.get_value("a"), whole(1));
    assert_eq!(budget, 9);
    assert_eq!(assign.eval(&mut environment, &mut host, &mut budget), Ok(EvalResult::Procedure));
    assert_eq!(environment.get_value("a"), whole(2));
}

#[test]
fn what_a_call_gave_is_what_its_statement_and_its_list_go_by() {
    let failed = || Err(RuntimeError::Native("стена".to_string()));
    assert_eq!(call_statement_ended(Ok(FunctionResult::Procedure)), Ok(EvalResult::Procedure));
    assert_eq!(
        call_statement_ended(Ok(FunctionResult::Literal(Literal::Int(1)))),
        Ok(EvalResult::Procedure)
    );
    assert_eq!(call_statement_ended(failed()), Err(RuntimeError::Native("стена".to_string())));
    assert_eq!(value_of_called(Ok(FunctionResult::Literal(Literal::Int(1)))), Ok(Literal::Int(1)));
    assert_eq!(value_of_called(Ok(FunctionResult::Procedure)), Err(RuntimeError::NotAValue));
    assert_eq!(value_of_called(failed()), Err(RuntimeError::Native("стена".to_string())));
    assert!(list_goes_on(&Ok(EvalResult::Procedure)));
    assert!(!list_goes_on(&Ok(EvalResult::Break)));
    assert!(!list_goes_on(&Ok(EvalResult::Literal(Literal::Int(1)))));
    assert!(!list_goes_on(&Err(RuntimeError::UserInterrupt)));
    assert!(!list_goes_on(&Err(RuntimeError::Native("стена".to_string()))));
    assert_eq!(program_ended(Ok(EvalResult::Procedure)), Ok(()));
    assert_eq!(program_ended(Ok(EvalResult::Break)), Ok(()));
    assert_eq!(
        program_ended(Err(RuntimeError::Native("стена".to_string()))),
        Err(RuntimeError::Native("стена".to_string()))
    );
}

#[test]
fn runs_that_run_no_statement_cannot_be_interrupted() {
    let flag = Arc::new(AtomicBool::new(true));
    let mut environment = Environment::default();
    environment.set_kill_flag(flag.clone());
    let mut host = TestHost::new();
    let mut budget = 100;
    assert_eq!(
        AstNode::Program(vec![]).eval(&mut environment, &mut host, &mut budget),
        Ok(EvalResult::Procedure)
    );
    assert_eq!(budget, 99);
    let mut interpreter = program("алг f(цел a)\nнач\nкон\nалг g()\nнач\nкон");
    interpreter.environment.set_kill_flag(flag.clone());
    let call = |name: &str, args: Vec<Expr>| FunctionCall { name: name.to_string(), args };
    assert_eq!(
        call("f", vec![]).eval(&mut interpreter.environment, &mut host, &mut budget),
        Err(RuntimeError::ArityMismatch { parameters: 1, arguments: 0 })
    );
    assert_eq!(
        call("f", vec![Expr::Literal(Literal::Int(1)), Expr::Literal(Literal::Int(2))])
            .eval(&mut interpreter.environment, &mut host, &mut budget),
        Err(RuntimeError::ArityMismatch { parameters: 1, arguments: 2 })
    );
    assert_eq!(
        call("f", vec![Expr::Literal(Literal::Bool(true))])
            .eval(&mut interpreter.environment, &mut host, &mut budget),
        Err(RuntimeError::TypeMismatch {
            expected: TypeDefinition::Int,
            found: TypeDefinition::Bool
        })
    );
    assert_eq!(
        call("g", vec![]).eval(&mut interpreter.environment, &mut host, &mut budget),
        Ok(FunctionResult::Procedure)
    );
    assert!(flag.load(Ordering::Relaxed));
    let mut empty = program("");
    empty.environment.set_kill_flag(flag.clone());
    assert_eq!(empty.run(&mut host), Ok(()));
    assert_eq!(empty.run_within(&mut host, 0), Err(RuntimeError::StepLimit));
    assert!(flag.load(Ordering::Relaxed));
}
