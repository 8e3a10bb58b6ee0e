//! Scopes: variables, functions and namespaces, with a chain of enclosing
//! scopes behind them.
//!
//! An [`Environment`] is one scope and owns the scope that encloses it. Its
//! model is the chain as a sequence of [`ScopeView`]s, the scope itself first.
use std::sync::atomic::AtomicBool;
use std::sync::Arc;
use vstd::prelude::*;
use vstd::string::*;

use crate::ast::{outcome, ErrorView, FunctionVariant, Literal, NativeFunction, RuntimeError, Variable};
use crate::lexer::TypeDefinition;
use crate::tables::{FunctionTable, NamespaceTable, VariableTable};

verus! {

/// A named bundle of functions. A scope sees them only after it has imported
/// the namespace.
#[derive(Debug)]
pub struct Namespace {
    functions: FunctionTable,
}

impl View for Namespace {
    type V = Map<Seq<char>, FunctionVariant>;

    closed spec fn view(&self) -> Map<Seq<char>, FunctionVariant> {
        self.functions@
    }
}

impl Clone for Namespace {
    fn clone(&self) -> (copy: Self)
        ensures
            copy@ == self@,
    {
        Namespace { functions: self.functions.duplicate() }
    }
}

impl Default for Namespace {
    fn default() -> (namespace: Self)
        ensures
            namespace@ == Map::<Seq<char>, FunctionVariant>::empty(),
    {
        Namespace { functions: FunctionTable::new() }
    }
}

impl Namespace {
    pub fn get_function(&self, name: &str) -> (function: Option<FunctionVariant>)
        ensures
            function == if self@.contains_key(name@) {
                Some(self@[name@])
            } else {
                None
            },
    {
        match self.functions.get(name) {
            Some(function) => Some(function.clone()),
            None => None,
        }
    }

    pub fn register_function(&mut self, name: &str, function: FunctionVariant)
        ensures
            final(self)@ == old(self)@.insert(name@, function),
    {
        self.functions.insert(String::from_str(name), function);
    }

    pub fn register_native_function(&mut self, name: &str, function: NativeFunction)
        ensures
            final(self)@ == old(self)@.insert(name@, FunctionVariant::Native(function)),
    {
        self.register_function(name, FunctionVariant::Native(function));
    }

    /// The functions of the namespace, each once, in no stated order.
    pub fn functions(&self) -> (entries: Vec<(String, FunctionVariant)>)
        ensures
            forall|i: int|
                0 <= i < entries@.len() ==> self@.contains_key(#[trigger] entries@[i].0@)
                    && self@[entries@[i].0@] == entries@[i].1,
            forall|name: Seq<char>|
                self@.contains_key(name) ==> exists|i: int|
                    0 <= i < entries@.len() && #[trigger] entries@[i].0@ == name,
            forall|i: int, j: int|
                0 <= i < j < entries@.len() ==> entries@[i].0@ != entries@[j].0@,
    {
        self.functions.entries()
    }
}

/// One scope as plain values, with the interruption flag that it looks at.
pub struct ScopeView {
    pub variables: Map<Seq<char>, Variable>,
    pub functions: Map<Seq<char>, FunctionVariant>,
    pub namespaces: Map<Seq<char>, Map<Seq<char>, FunctionVariant>>,
    pub kill_flag: Arc<AtomicBool>,
}

/// Whether a scope holds nothing: no variable, no function, no namespace.
pub open spec fn is_empty_scope(scope: ScopeView) -> bool {
    &&& scope.variables == Map::<Seq<char>, Variable>::empty()
    &&& scope.functions == Map::<Seq<char>, FunctionVariant>::empty()
    &&& scope.namespaces == Map::<Seq<char>, Map<Seq<char>, FunctionVariant>>::empty()
}

/// `Arc::clone`: another handle on the same flag.
#[verifier::external_body]
pub(crate) fn share_flag(flag: &Arc<AtomicBool>) -> (shared: Arc<AtomicBool>)
    ensures
        shared == *flag,
{
    Arc::clone(flag)
}

/// The variable that `name` means in a chain of scopes: that of the first
/// scope that declares it.
pub open spec fn lookup_variable(scopes: Seq<ScopeView>, name: Seq<char>) -> Option<Variable>
    decreases scopes.len(),
{
    if scopes.len() == 0 {
        None
    } else if scopes[0].variables.contains_key(name) {
        Some(scopes[0].variables[name])
    } else {
        lookup_variable(scopes.drop_first(), name)
    }
}

/// The function that `name` means in a chain of scopes: that of the first
/// scope whose table holds it.
pub open spec fn lookup_function(scopes: Seq<ScopeView>, name: Seq<char>) -> Option<
    FunctionVariant,
>
    decreases scopes.len(),
{
    if scopes.len() == 0 {
        None
    } else if scopes[0].functions.contains_key(name) {
        Some(scopes[0].functions[name])
    } else {
        lookup_function(scopes.drop_first(), name)
    }
}

/// A scope with `name` declared anew: any earlier variable of that name in
/// this scope is replaced.
pub open spec fn scope_with_variable(
    scope: ScopeView,
    name: Seq<char>,
    variable: Variable,
) -> ScopeView {
    ScopeView { variables: scope.variables.insert(name, variable), ..scope }
}

/// The chain after `value` has been stored in the variable that `name` means:
/// the scope that declares it changes, in place; no scope gains a variable.
pub open spec fn assigned(scopes: Seq<ScopeView>, name: Seq<char>, value: Literal) -> Seq<
    ScopeView,
>
    decreases scopes.len(),
{
    if scopes.len() == 0 {
        scopes
    } else if scopes[0].variables.contains_key(name) {
        seq![
            scope_with_variable(
                scopes[0],
                name,
                Variable { type_def: scopes[0].variables[name].type_def, value: Some(value) },
            ),
        ] + scopes.drop_first()
    } else {
        seq![scopes[0]] + assigned(scopes.drop_first(), name, value)
    }
}

/// What an assignment to `name` does to a chain of scopes: the chain after
/// it, or the error. The value must have the type that the variable was
/// declared with.
pub open spec fn assignment(scopes: Seq<ScopeView>, name: Seq<char>, value: Literal) -> Result<
    Seq<ScopeView>,
    ErrorView,
> {
    match lookup_variable(scopes, name) {
        None => Err(ErrorView::UndefinedVariable(name)),
        Some(variable) => if variable.type_def == value.type_of() {
            Ok(assigned(scopes, name, value))
        } else {
            Err(ErrorView::TypeMismatch { expected: variable.type_def, found: value.type_of() })
        },
    }
}

/// What the import of the namespace `name` does to a chain of scopes: the
/// chain after it, in which the first scope alone has changed, or the error.
pub open spec fn import(scopes: Seq<ScopeView>, name: Seq<char>) -> Result<
    Seq<ScopeView>,
    ErrorView,
> {
    if scopes[0].namespaces.contains_key(name) {
        Ok(scopes.update(0, scope_with_import(scopes[0], name)))
    } else {
        Err(ErrorView::UndefinedNamespace(name))
    }
}

/// Whether two variable tables declare the same names with the same types.
pub open spec fn same_declarations(
    before: Map<Seq<char>, Variable>,
    after: Map<Seq<char>, Variable>,
) -> bool {
    &&& before.dom() == after.dom()
    &&& forall|name: Seq<char>| #[trigger]
        before.contains_key(name) ==> before[name].type_def == after[name].type_def
}

/// Whether a scope has kept its functions, its namespaces, its interruption
/// flag, and the names and types of its variables; the values may have
/// changed.
pub open spec fn scope_kept(before: ScopeView, after: ScopeView) -> bool {
    &&& before.functions == after.functions
    &&& before.namespaces == after.namespaces
    &&& before.kill_flag == after.kill_flag
    &&& same_declarations(before.variables, after.variables)
}

/// Whether every scope of a chain has kept its declarations.
pub open spec fn chain_kept(before: Seq<ScopeView>, after: Seq<ScopeView>) -> bool {
    &&& before.len() == after.len()
    &&& forall|i: int| 0 <= i < before.len() ==> scope_kept(#[trigger] before[i], after[i])
}

/// Whether every scope of a chain but the first has kept its declarations.
pub open spec fn outer_kept(before: Seq<ScopeView>, after: Seq<ScopeView>) -> bool {
    &&& before.len() == after.len()
    &&& forall|i: int| 1 <= i < before.len() ==> scope_kept(#[trigger] before[i], after[i])
}

/// A chain keeps its own declarations; and a chain that keeps all keeps the
/// outer ones.
pub proof fn lemma_chain_kept_reflexive(a: Seq<ScopeView>)
    ensures
        chain_kept(a, a),
        outer_kept(a, a),
{
}

pub proof fn lemma_chain_kept_transitive(a: Seq<ScopeView>, b: Seq<ScopeView>, c: Seq<ScopeView>)
    requires
        chain_kept(a, b),
        chain_kept(b, c),
    ensures
        chain_kept(a, c),
{
    assert forall|i: int| 0 <= i < a.len() implies scope_kept(#[trigger] a[i], c[i]) by {
        assert(scope_kept(a[i], b[i]));
        assert(scope_kept(b[i], c[i]));
        assert(a[i].variables.dom() =~= c[i].variables.dom());
    }
}

pub proof fn lemma_outer_kept_transitive(a: Seq<ScopeView>, b: Seq<ScopeView>, c: Seq<ScopeView>)
    requires
        outer_kept(a, b),
        outer_kept(b, c),
    ensures
        outer_kept(a, c),
{
    assert forall|i: int| 1 <= i < a.len() implies scope_kept(#[trigger] a[i], c[i]) by {
        assert(scope_kept(a[i], b[i]));
        assert(scope_kept(b[i], c[i]));
        assert(a[i].variables.dom() =~= c[i].variables.dom());
    }
}

/// An assignment changes a value and nothing else: no scope gains or loses
/// a name, and no variable changes its type.
pub proof fn lemma_assigned_kept(scopes: Seq<ScopeView>, name: Seq<char>, value: Literal)
    ensures
        chain_kept(scopes, assigned(scopes, name, value)),
    decreases scopes.len(),
{
    let after = assigned(scopes, name, value);
    if scopes.len() == 0 {
    } else if scopes[0].variables.contains_key(name) {
        assert(after[0].variables.dom() =~= scopes[0].variables.dom());
        assert forall|i: int| 0 <= i < scopes.len() implies scope_kept(
            #[trigger] scopes[i],
            after[i],
        ) by {
            if i > 0 {
                assert(after[i] == scopes.drop_first()[i - 1]);
            }
        }
    } else {
        lemma_assigned_kept(scopes.drop_first(), name, value);
        let rest = assigned(scopes.drop_first(), name, value);
        assert forall|i: int| 0 <= i < scopes.len() implies scope_kept(
            #[trigger] scopes[i],
            after[i],
        ) by {
            if i > 0 {
                assert(after[i] == rest[i - 1]);
                assert(scopes[i] == scopes.drop_first()[i - 1]);
                assert(scope_kept(scopes.drop_first()[i - 1], rest[i - 1]));
            }
        }
    }
}

/// A scope with `function` under `name`, in place of any function of that
/// name.
pub open spec fn scope_with_function(
    scope: ScopeView,
    name: Seq<char>,
    function: FunctionVariant,
) -> ScopeView {
    ScopeView { functions: scope.functions.insert(name, function), ..scope }
}

/// A scope with `namespace` under `name`, in place of any namespace of that
/// name.
pub open spec fn scope_with_namespace(
    scope: ScopeView,
    name: Seq<char>,
    namespace: Map<Seq<char>, FunctionVariant>,
) -> ScopeView {
    ScopeView { namespaces: scope.namespaces.insert(name, namespace), ..scope }
}

/// The functions of a namespace of the scope; none where the scope has no
/// namespace of that name.
pub open spec fn namespace_or_empty(scope: ScopeView, name: Seq<char>) -> Map<
    Seq<char>,
    FunctionVariant,
> {
    if scope.namespaces.contains_key(name) {
        scope.namespaces[name]
    } else {
        Map::empty()
    }
}

/// A scope whose functions are joined by those of a namespace; where both
/// hold a name, the namespace's function takes it.
pub open spec fn scope_with_import(scope: ScopeView, name: Seq<char>) -> ScopeView {
    ScopeView { functions: scope.functions.union_prefer_right(scope.namespaces[name]), ..scope }
}

/// The scope that a statement list runs in: no variables of its own, and the
/// function and namespace tables and the interruption flag of the scope
/// around it.
pub open spec fn block_scope(around: ScopeView) -> ScopeView {
    ScopeView { variables: Map::empty(), ..around }
}

/// Whether a list names the variables of a table: each entry is a variable
/// of the table, each variable of the table is an entry, and no name comes
/// twice.
pub open spec fn lists_variables(
    entries: Seq<(String, Variable)>,
    variables: Map<Seq<char>, Variable>,
) -> bool {
    &&& forall|i: int|
        0 <= i < entries.len() ==> variables.contains_key(#[trigger] entries[i].0@)
            && variables[entries[i].0@] == entries[i].1
    &&& forall|name: Seq<char>|
        variables.contains_key(name) ==> exists|i: int|
            0 <= i < entries.len() && #[trigger] entries[i].0@ == name
    &&& forall|i: int, j: int| 0 <= i < j < entries.len() ==> entries[i].0@ != entries[j].0@
}

/// Whether a list names the variables of a chain of scopes: those of the
/// first scope, then those of the next, and so on.
pub open spec fn lists_chain(entries: Seq<(String, Variable)>, scopes: Seq<ScopeView>) -> bool
    decreases scopes.len(),
{
    if scopes.len() == 0 {
        entries.len() == 0
    } else {
        exists|n: int|
            0 <= n <= entries.len() && lists_variables(
                #[trigger] entries.take(n),
                scopes[0].variables,
            ) && lists_chain(entries.skip(n), scopes.drop_first())
    }
}

/// Whether one of the first `upto` entries has the name `name`.
pub open spec fn listed(entries: Seq<(String, FunctionVariant)>, upto: int, name: Seq<char>) -> bool {
    exists|k: int| 0 <= k < upto && k < entries.len() && #[trigger] entries[k].0@ == name
}

/// The function of the entry that has the name `name`.
pub open spec fn entry_named(entries: Seq<(String, FunctionVariant)>, name: Seq<char>) -> FunctionVariant {
    entries[choose|k: int| 0 <= k < entries.len() && #[trigger] entries[k].0@ == name].1
}

proof fn lemma_listed_step(entries: Seq<(String, FunctionVariant)>, i: int, name: Seq<char>)
    requires
        0 <= i < entries.len(),
    ensures
        listed(entries, i + 1, name) == (listed(entries, i, name) || name == entries[i].0@),
{
    if listed(entries, i + 1, name) {
        let k = choose|k: int| 0 <= k < i + 1 && k < entries.len() && #[trigger] entries[k].0@ == name;
        if k < i {
            assert(0 <= k < i && k < entries.len() && entries[k].0@ == name);
        }
    }
    if listed(entries, i, name) {
        let k = choose|k: int| 0 <= k < i && k < entries.len() && #[trigger] entries[k].0@ == name;
        assert(0 <= k < i + 1 && k < entries.len() && entries[k].0@ == name);
    }
    if name == entries[i].0@ {
        assert(0 <= i < i + 1 && i < entries.len() && entries[i].0@ == name);
    }
}

proof fn lemma_entry_named(entries: Seq<(String, FunctionVariant)>, i: int)
    requires
        0 <= i < entries.len(),
        forall|a: int, b: int| 0 <= a < b < entries.len() ==> entries[a].0@ != entries[b].0@,
    ensures
        entry_named(entries, entries[i].0@) == entries[i].1,
{
    let name = entries[i].0@;
    let k = choose|k: int| 0 <= k < entries.len() && #[trigger] entries[k].0@ == name;
    assert(0 <= i < entries.len() && entries[i].0@ == name);
    if k < i {
        assert(entries[k].0@ != entries[i].0@);
    } else if i < k {
        assert(entries[i].0@ != entries[k].0@);
    }
}

/// One scope: its variables, functions and namespaces, the scope around it,
/// and the flag by which the host asks a run to stop.
#[derive(Debug)]
pub struct Environment {
    pub environment: Option<Box<Environment>>,
    pub variables: VariableTable,
    pub namespaces: NamespaceTable,
    pub functions: FunctionTable,
    pub kill_flag: Arc<AtomicBool>,
}

impl View for Environment {
    type V = Seq<ScopeView>;

    open spec fn view(&self) -> Seq<ScopeView> {
        self.chain()
    }
}

impl Default for Environment {
    /// A scope that holds nothing and has no scope around it, with a flag
    /// of its own.
    fn default() -> (environment: Self)
        ensures
            environment@.len() == 1,
            is_empty_scope(environment@[0]),
    {
        Environment {
            environment: None,
            variables: VariableTable::new(),
            namespaces: NamespaceTable::new(),
            functions: FunctionTable::new(),
            kill_flag: Arc::new(AtomicBool::new(false)),
        }
    }
}

impl Environment {
    /// This scope alone, without the chain behind it.
    pub open spec fn scope(&self) -> ScopeView {
        ScopeView {
            variables: self.variables@,
            functions: self.functions@,
            namespaces: self.namespaces@,
            kill_flag: self.kill_flag,
        }
    }

    /// This scope and the scopes around it, from the inside out.
    pub open spec fn chain(&self) -> Seq<ScopeView>
        decreases self,
    {
        match self.environment {
            Some(parent) => seq![self.scope()] + parent.chain(),
            None => seq![self.scope()],
        }
    }

    /// The chain is never empty, and its first scope is this one.
    pub proof fn lemma_view(&self)
        ensures
            self@.len() >= 1,
            self@[0] == self.scope(),
            self.environment is Some ==> self@.drop_first() == self.environment->0@,
            self.environment is None ==> self@.drop_first() == Seq::<ScopeView>::empty(),
    {
        match self.environment {
            Some(parent) => {
                assert(self@.drop_first() =~= parent@);
            },
            None => {
                assert(self@.drop_first() =~= Seq::<ScopeView>::empty());
            },
        }
    }

    /// Declares a variable in this scope.
    pub fn new_var(&mut self, name: &str, value: Option<Literal>, type_def: TypeDefinition)
        ensures
            final(self)@ == old(self)@.update(
                0,
                scope_with_variable(old(self)@[0], name@, Variable { type_def, value }),
            ),
    {
        proof {
            self.lemma_view();
        }
        self.variables.insert(String::from_str(name), Variable { type_def, value });
        proof {
            self.lemma_view();
            assert(self@ =~= old(self)@.update(
                0,
                scope_with_variable(old(self)@[0], name@, Variable { type_def, value }),
            ));
        }
    }

    /// Stores a value in the variable that `name` means, in the scope that
    /// declares it. The value's type must be the declared one: nothing is
    /// coerced, and a value of another type changes nothing.
    pub fn assign_var(&mut self, name: &str, value: Literal) -> (done: Result<(), RuntimeError>)
        ensures
            match assignment(old(self)@, name@, value) {
                Ok(scopes) => done is Ok && final(self)@ == scopes,
                Err(error) => outcome(done) == Err::<(), ErrorView>(error) && final(self)@ == old(
                    self,
                )@,
            },
        decreases *old(self),
    {
        proof {
            self.lemma_view();
        }
        let declared = match self.variables.get(name) {
            Some(variable) => Some(variable.type_def),
            None => None,
        };
        match declared {
            Some(type_def) => {
                let found = value.get_type();
                if type_def == found {
                    self.variables.insert(
                        String::from_str(name),
                        Variable { type_def, value: Some(value) },
                    );
                    proof {
                        self.lemma_view();
                        assert(self@ =~= assigned(old(self)@, name@, value));
                    }
                    Ok(())
                } else {
                    Err(RuntimeError::TypeMismatch { expected: type_def, found })
                }
            },
            None => {
                let ghost rest = old(self)@.drop_first();
                assert(lookup_variable(old(self)@, name@) == lookup_variable(rest, name@));
                assert(assigned(old(self)@, name@, value) == seq![old(self)@[0]] + assigned(
                    rest,
                    name@,
                    value,
                ));
                match &mut self.environment {
                    Some(parent) => {
                        let done = parent.assign_var(name, value);
                        proof {
                            self.lemma_view();
                            assert(self@ =~= seq![old(self)@[0]] + self.environment->0@);
                            assert(old(self)@ =~= seq![old(self)@[0]] + rest);
                        }
                        done
                    },
                    None => Err(RuntimeError::UndefinedVariable(String::from_str(name))),
                }
            },
        }
    }

    /// The variable that `name` means, looked for in this scope and then in
    /// the scopes around it.
    pub fn get_var(&self, name: &str) -> (variable: Option<Variable>)
        ensures
            variable == lookup_variable(self@, name@),
        decreases self,
    {
        proof {
            self.lemma_view();
        }
        match self.variables.get(name) {
            Some(variable) => Some(variable.clone()),
            None => match &self.environment {
                Some(parent) => parent.get_var(name),
                None => None,
            },
        }
    }

    pub fn get_var_type(&self, name: &str) -> (type_def: Option<TypeDefinition>)
        ensures
            type_def == match lookup_variable(self@, name@) {
                Some(variable) => Some(variable.type_def),
                None => None,
            },
    {
        match self.get_var(name) {
            Some(variable) => Some(variable.type_def),
            None => None,
        }
    }

    pub fn var_is_some(&mut self, name: &str) -> (declared: bool)
        ensures
            declared == lookup_variable(old(self)@, name@) is Some,
            *final(self) == *old(self),
    {
        self.get_var(name).is_some()
    }

    /// Puts a function into this scope's table, in place of any of that name.
    pub fn register_function(&mut self, name: &str, function: FunctionVariant)
        ensures
            final(self)@ == old(self)@.update(
                0,
                scope_with_function(old(self)@[0], name@, function),
            ),
    {
        proof {
            self.lemma_view();
        }
        self.functions.insert(String::from_str(name), function);
        proof {
            self.lemma_view();
            assert(self@ =~= old(self)@.update(
                0,
                scope_with_function(old(self)@[0], name@, function),
            ));
        }
    }

    /// Puts a function into a namespace of this scope, which is created
    /// where the scope has none of that name.
    pub fn register_function_in_namespace(
        &mut self,
        namespace_name: &str,
        name: &str,
        function: FunctionVariant,
    )
        ensures
            final(self)@ == old(self)@.update(
                0,
                scope_with_namespace(
                    old(self)@[0],
                    namespace_name@,
                    namespace_or_empty(old(self)@[0], namespace_name@).insert(name@, function),
                ),
            ),
    {
        proof {
            self.lemma_view();
        }
        let mut namespace = match self.namespaces.remove(namespace_name) {
            Some(namespace) => namespace,
            None => Namespace::default(),
        };
        namespace.register_function(name, function);
        self.namespaces.insert(String::from_str(namespace_name), namespace);
        proof {
            self.lemma_view();
            assert(self.namespaces@ =~= old(self).namespaces@.insert(
                namespace_name@,
                namespace_or_empty(old(self)@[0], namespace_name@).insert(name@, function),
            ));
            assert(self@ =~= old(self)@.update(
                0,
                scope_with_namespace(
                    old(self)@[0],
                    namespace_name@,
                    namespace_or_empty(old(self)@[0], namespace_name@).insert(name@, function),
                ),
            ));
        }
    }

    /// Makes the functions of a namespace of this scope callable by their
    /// bare names, in this scope. The namespace stays; importing it again
    /// gives the same table.
    pub fn import_namespace(&mut self, name: &str) -> (done: Result<(), RuntimeError>)
        ensures
            match import(old(self)@, name@) {
                Ok(scopes) => done is Ok && final(self)@ == scopes,
                Err(error) => outcome(done) == Err::<(), ErrorView>(error) && final(self)@ == old(
                    self,
                )@,
            },
    {
        proof {
            self.lemma_view();
        }
        let entries = match self.namespaces.get(name) {
            Some(namespace) => namespace.functions(),
            None => {
                return Err(RuntimeError::UndefinedNamespace(String::from_str(name)));
            },
        };
        let ghost imported = self.namespaces@[name@];
        let ghost before = self.functions@;
        let mut i: usize = 0;
        while i < entries.len()
            invariant
                i <= entries.len(),
                self.environment == old(self).environment,
                self.variables == old(self).variables,
                self.namespaces == old(self).namespaces,
                self.kill_flag == old(self).kill_flag,
                forall|a: int, b: int|
                    0 <= a < b < entries@.len() ==> entries@[a].0@ != entries@[b].0@,
                forall|n: Seq<char>| #[trigger]
                    self.functions@.contains_key(n) <==> before.contains_key(n) || listed(
                        entries@,
                        i as int,
                        n,
                    ),
                forall|n: Seq<char>| #[trigger]
                    self.functions@.contains_key(n) ==> self.functions@[n] == if listed(
                        entries@,
                        i as int,
                        n,
                    ) {
                        entry_named(entries@, n)
                    } else {
                        before[n]
                    },
            decreases entries.len() - i,
        {
            let ghost table = self.functions@;
            let name_i = entries[i].0.clone();
            let function_i = entries[i].1.clone();
            self.functions.insert(name_i, function_i);
            proof {
                let key = entries@[i as int].0@;
                assert(self.functions@ == table.insert(key, entries@[i as int].1));
                lemma_entry_named(entries@, i as int);
                assert forall|n: Seq<char>| #[trigger]
                    self.functions@.contains_key(n) <==> before.contains_key(n) || listed(
                        entries@,
                        i + 1,
                        n,
                    ) by {
                    lemma_listed_step(entries@, i as int, n);
                    assert(table.contains_key(n) <==> before.contains_key(n) || listed(
                        entries@,
                        i as int,
                        n,
                    ));
                }
                assert forall|n: Seq<char>| #[trigger]
                    self.functions@.contains_key(n) implies self.functions@[n] == if listed(
                        entries@,
                        i + 1,
                        n,
                    ) {
                        entry_named(entries@, n)
                    } else {
                        before[n]
                    } by {
                    lemma_listed_step(entries@, i as int, n);
                    if n != key {
                        assert(table.contains_key(n));
                    }
                }
            }
            i += 1;
        }
        proof {
            self.lemma_view();
            assert forall|n: Seq<char>| imported.contains_key(n) == listed(
                entries@,
                entries@.len() as int,
                n,
            ) by {
                if listed(entries@, entries@.len() as int, n) {
                    let k = choose|k: int| 0 <= k < entries@.len() && #[trigger] entries@[k].0@ == n;
                    assert(imported.contains_key(entries@[k].0@));
                }
                if imported.contains_key(n) {
                    let k = choose|k: int| 0 <= k < entries@.len() && #[trigger] entries@[k].0@ == n;
                    assert(0 <= k < entries@.len() && entries@[k].0@ == n);
                }
            }
            assert forall|n: Seq<char>| imported.contains_key(n) implies entry_named(entries@, n)
                == imported[n] by {
                let k = choose|k: int| 0 <= k < entries@.len() && #[trigger] entries@[k].0@ == n;
                lemma_entry_named(entries@, k);
                assert(imported.contains_key(entries@[k].0@));
            }
            assert(self.functions@ =~= before.union_prefer_right(imported));
            assert(self@ =~= old(self)@.update(0, scope_with_import(old(self)@[0], name@)));
        }
        Ok(())
    }

    /// Puts a namespace into this scope, in place of any of that name.
    pub fn register_namespace(&mut self, name: &str, namespace: Namespace)
        ensures
            final(self)@ == old(self)@.update(
                0,
                scope_with_namespace(old(self)@[0], name@, namespace@),
            ),
    {
        proof {
            self.lemma_view();
        }
        self.namespaces.insert(String::from_str(name), namespace);
        proof {
            self.lemma_view();
            assert(self@ =~= old(self)@.update(
                0,
                scope_with_namespace(old(self)@[0], name@, namespace@),
            ));
        }
    }

    /// The function that `name` means, looked for in this scope's table and
    /// then in those of the scopes around it.
    pub fn get_function(&self, name: &str) -> (function: Option<FunctionVariant>)
        ensures
            function == lookup_function(self@, name@),
        decreases self,
    {
        proof {
            self.lemma_view();
        }
        match self.functions.get(name) {
            Some(function) => Some(function.clone()),
            None => match &self.environment {
                Some(parent) => parent.get_function(name),
                None => None,
            },
        }
    }

    /// The variables in reach with their names: those of this scope, each
    /// once and in no stated order, then those of the scopes around it, from
    /// the inside out. A name that several scopes declare is listed for each.
    pub fn get_all_vars(&self) -> (entries: Vec<(String, Variable)>)
        ensures
            lists_chain(entries@, self@),
        decreases self,
    {
        proof {
            self.lemma_view();
        }
        let mut entries = self.variables.entries();
        let ghost own = entries@;
        match &self.environment {
            Some(parent) => {
                let mut outer = parent.get_all_vars();
                let ghost rest = outer@;
                entries.append(&mut outer);
                proof {
                    assert(entries@.take(own.len() as int) =~= own);
                    assert(entries@.skip(own.len() as int) =~= rest);
                }
            },
            None => {
                proof {
                    assert(entries@.take(own.len() as int) =~= own);
                    assert(entries@.skip(own.len() as int) =~= Seq::<(String, Variable)>::empty());
                    assert(lists_chain(entries@.skip(own.len() as int), self@.drop_first()));
                }
            },
        }
        proof {
            assert(lists_variables(entries@.take(own.len() as int), self@[0].variables));
            assert(lists_chain(entries@.skip(own.len() as int), self@.drop_first()));
        }
        entries
    }

    /// Takes the flag by which the host asks a run to stop. The scopes
    /// opened in this one from now on look at that flag.
    pub fn set_kill_flag(&mut self, kill_flag: Arc<AtomicBool>)
        ensures
            final(self)@ == old(self)@.update(0, ScopeView { kill_flag, ..old(self)@[0] }),
    {
        proof {
            self.lemma_view();
        }
        self.kill_flag = kill_flag;
        proof {
            self.lemma_view();
            assert(self@ =~= old(self)@.update(0, ScopeView { kill_flag, ..old(self)@[0] }));
        }
    }

    /// The value of the variable that `name` means; `None` also where the
    /// variable is declared and not yet set.
    pub fn get_value(&self, name: &str) -> (value: Option<Literal>)
        ensures
            value == match lookup_variable(self@, name@) {
                Some(variable) => variable.value,
                None => None,
            },
    {
        match self.get_var(name) {
            Some(variable) => variable.value,
            None => None,
        }
    }
}

} // verus!
