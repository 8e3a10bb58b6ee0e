use indexmap::IndexMap;
use kumir_lang::ast::{FunctionVariant, Literal, NativeFunction, RuntimeError, Variable};
use kumir_lang::environment::{Environment, Namespace};
use kumir_lang::lexer::TypeDefinition;

fn native(handle: u64) -> FunctionVariant {
    FunctionVariant::Native(NativeFunction {
        params: IndexMap::new(),
        return_type: None,
        native_function: handle,
    })
}

fn handle_of(function: Option<FunctionVariant>) -> Option<u64> {
    match function {
        Some(FunctionVariant::Native(function)) => Some(function.native_function),
        _ => None,
    }
}

fn child_of(parent: Environment) -> Environment {
    let mut child = Environment::default();
    child.environment = Some(Box::new(parent));
    child
}

#[test]
fn a_new_scope_is_empty() {
    let scope = Environment::default();
    assert_eq!(scope.get_var("a"), None);
    assert_eq!(scope.get_value("a"), None);
    assert_eq!(scope.get_var_type("a"), None);
    assert!(scope.get_function("f").is_none());
    assert!(scope.get_all_vars().is_empty());
    assert!(scope.environment.is_none());
}

#[test]
fn new_var_declares_and_redeclares() {
    let mut scope = Environment::default();
    scope.new_var("a", None, TypeDefinition::Int);
    assert_eq!(scope.get_var("a"), Some(Variable { type_def: TypeDefinition::Int, value: None }));
    assert_eq!(scope.get_value("a"), None);
    assert!(scope.var_is_some("a"));
    assert!(!scope.var_is_some("b"));
    scope.new_var("a", Some(Literal::Bool(true)), TypeDefinition::Bool);
    assert_eq!(scope.get_var_type("a"), Some(TypeDefinition::Bool));
    assert_eq!(scope.get_value("a"), Some(Literal::Bool(true)));
    assert_eq!(scope.get_all_vars().len(), 1);
}

#[test]
fn assign_var_checks_the_declared_type() {
    let mut scope = Environment::default();
    scope.new_var("a", Some(Literal::Int(1)), TypeDefinition::Int);
    assert_eq!(scope.assign_var("a", Literal::Int(2)), Ok(()));
    assert_eq!(scope.get_value("a"), Some(Literal::Int(2)));
    assert_eq!(
        scope.assign_var("a", Literal::Char('x')),
        Err(RuntimeError::TypeMismatch {
            expected: TypeDefinition::Int,
            found: TypeDefinition::Char
        })
    );
    assert_eq!(scope.get_value("a"), Some(Literal::Int(2)));
    assert_eq!(
        scope.assign_var("b", Literal::Int(2)),
        Err(RuntimeError::UndefinedVariable("b".to_string()))
    );
    assert_eq!(scope.get_var("b"), None);
}

#[test]
fn assign_var_changes_the_declaring_scope() {
    let mut outer = Environment::default();
    outer.new_var("a", Some(Literal::Int(1)), TypeDefinition::Int);
    outer.new_var("b", Some(Literal::Int(10)), TypeDefinition::Int);
    let mut inner = child_of(child_of(outer));
    inner.new_var("b", Some(Literal::Int(20)), TypeDefinition::Int);
    assert_eq!(inner.assign_var("a", Literal::Int(2)), Ok(()));
    assert_eq!(inner.assign_var("b", Literal::Int(21)), Ok(()));
    assert_eq!(inner.get_value("a"), Some(Literal::Int(2)));
    assert_eq!(inner.get_value("b"), Some(Literal::Int(21)));
    let middle = *inner.environment.take().expect("the scope has a scope around it");
    assert_eq!(middle.get_value("b"), Some(Literal::Int(10)));
    let outer = *middle.environment.expect("the scope has a scope around it");
    assert_eq!(outer.get_value("a"), Some(Literal::Int(2)));
    assert_eq!(outer.get_value("b"), Some(Literal::Int(10)));
    assert_eq!(outer.get_all_vars().len(), 2);
}

#[test]
fn a_mismatch_in_an_outer_scope_changes_nothing() {
    let mut outer = Environment::default();
    outer.new_var("a", Some(Literal::Int(1)), TypeDefinition::Int);
    let mut inner = child_of(outer);
    assert_eq!(
        inner.assign_var("a", Literal::Bool(true)),
        Err(RuntimeError::TypeMismatch {
            expected: TypeDefinition::Int,
            found: TypeDefinition::Bool
        })
    );
    assert_eq!(inner.get_value("a"), Some(Literal::Int(1)));
    assert!(inner.get_all_vars().iter().all(|(name, _)| name == "a"));
}

#[test]
fn get_all_vars_lists_the_inner_scope_first() {
    let mut outer = Environment::default();
    outer.new_var("a", Some(Literal::Int(1)), TypeDefinition::Int);
    let mut inner = child_of(outer);
    inner.new_var("a", None, TypeDefinition::Bool);
    inner.new_var("b", None, TypeDefinition::Char);
    let all = inner.get_all_vars();
    assert_eq!(all.len(), 3);
    let mut first: Vec<&str> = all[..2].iter().map(|(name, _)| name.as_str()).collect();
    first.sort();
    assert_eq!(first, vec!["a", "b"]);
    assert_eq!(
        all[2],
        ("a".to_string(), Variable { type_def: TypeDefinition::Int, value: Some(Literal::Int(1)) })
    );
}

#[test]
fn functions_are_found_through_the_chain() {
    let mut outer = Environment::default();
    outer.register_function("f", native(1));
    outer.register_function("g", native(2));
    let mut inner = child_of(outer);
    inner.register_function("g", native(3));
    assert_eq!(handle_of(inner.get_function("f")), Some(1));
    assert_eq!(handle_of(inner.get_function("g")), Some(3));
    assert_eq!(handle_of(inner.get_function("h")), None);
    inner.register_function("g", native(4));
    assert_eq!(handle_of(inner.get_function("g")), Some(4));
}

#[test]
fn a_namespace_holds_its_functions() {
    let mut namespace = Namespace::default();
    assert!(namespace.get_function("f").is_none());
    assert!(namespace.functions().is_empty());
    namespace.register_function("f", native(1));
    namespace.register_native_function(
        "g",
        NativeFunction { params: IndexMap::new(), return_type: None, native_function: 2 },
    );
    namespace.register_function("f", native(3));
    assert_eq!(handle_of(namespace.get_function("f")), Some(3));
    assert_eq!(handle_of(namespace.get_function("g")), Some(2));
    let mut names: Vec<String> = namespace.functions().into_iter().map(|(name, _)| name).collect();
    names.sort();
    assert_eq!(names, vec!["f".to_string(), "g".to_string()]);
    let copy = namespace.clone();
    namespace.register_function("h", native(5));
    assert!(copy.get_function("h").is_none());
    assert_eq!(handle_of(copy.get_function("f")), Some(3));
}

#[test]
fn import_copies_and_keeps_the_namespace() {
    let mut scope = Environment::default();
    scope.register_function("f", native(1));
    scope.register_function("own", native(2));
    scope.register_function_in_namespace("Робот", "f", native(10));
    scope.register_function_in_namespace("Робот", "вверх", native(11));
    scope.register_function_in_namespace("Другой", "вниз", native(20));
    assert_eq!(handle_of(scope.get_function("вверх")), None);
    assert_eq!(scope.import_namespace("Робот"), Ok(()));
    assert_eq!(handle_of(scope.get_function("f")), Some(10));
    assert_eq!(handle_of(scope.get_function("вверх")), Some(11));
    assert_eq!(handle_of(scope.get_function("own")), Some(2));
    assert_eq!(handle_of(scope.get_function("вниз")), None);
    scope.register_function("f", native(1));
    assert_eq!(scope.import_namespace("Робот"), Ok(()));
    assert_eq!(handle_of(scope.get_function("f")), Some(10));
    assert_eq!(
        scope.import_namespace("Чертёжник"),
        Err(RuntimeError::UndefinedNamespace("Чертёжник".to_string()))
    );
}

#[test]
fn register_namespace_replaces_a_namespace() {
    let mut scope = Environment::default();
    scope.register_function_in_namespace("Робот", "вверх", native(1));
    let mut other = Namespace::default();
    other.register_function("вниз", native(2));
    scope.register_namespace("Робот", other);
    assert_eq!(scope.import_namespace("Робот"), Ok(()));
    assert_eq!(handle_of(scope.get_function("вверх")), None);
    assert_eq!(handle_of(scope.get_function("вниз")), Some(2));
}

#[test]
fn values_are_copied_out() {
    let mut scope = Environment::default();
    scope.new_var("s", Some(Literal::String("текст".to_string())), TypeDefinition::String);
    let first = scope.get_value("s");
    assert_eq!(scope.assign_var("s", Literal::String("другой".to_string())), Ok(()));
    assert_eq!(first, Some(Literal::String("текст".to_string())));
    assert_eq!(scope.get_value("s"), Some(Literal::String("другой".to_string())));
    assert_eq!(Literal::Int(1).get_type(), TypeDefinition::Int);
    assert_eq!(Literal::Bool(true).get_type(), TypeDefinition::Bool);
    assert_eq!(Literal::Char('c').get_type(), TypeDefinition::Char);
    assert_eq!(Literal::String(String::new()).get_type(), TypeDefinition::String);
    assert_eq!(
        Literal::Float(kumir_lang::ast::Float::Bits(0)).get_type(),
        TypeDefinition::Float
    );
}
