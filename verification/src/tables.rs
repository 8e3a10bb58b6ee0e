//! The collections that the interpreter keeps its names in.
//!
//! Parameters live in an `indexmap::IndexMap`, which keeps the order of
//! insertion; variables, functions, namespaces and evaluated arguments live in
//! `hashbrown::HashMap`s. Verus does not look inside either. Each table has a
//! model (a `Seq` or a `Map`), and each operation on it is a thin function
//! whose contract states, over that model, what the collection's own
//! documentation says of the method it calls. These contracts are believed,
//! not proved.
use std::rc::Rc;
use vstd::prelude::*;

use crate::ast::{Function, FunctionParameter, FunctionVariant, Literal, Variable};
use crate::environment::Namespace;

verus! {

#[verifier::external_type_specification]
#[verifier::external_body]
#[verifier::reject_recursive_types(K)]
#[verifier::reject_recursive_types(V)]
#[verifier::reject_recursive_types(S)]
pub struct ExIndexMap<K, V, S>(indexmap::IndexMap<K, V, S>);

/// The entries of a parameter map, in its order: name and parameter.
pub uninterp spec fn parameter_entries(
    parameters: indexmap::IndexMap<String, FunctionParameter>,
) -> Seq<(Seq<char>, FunctionParameter)>;

/// Index of the entry named `name`, if there is one.
pub open spec fn parameter_position(
    entries: Seq<(Seq<char>, FunctionParameter)>,
    name: Seq<char>,
) -> Option<int>
    decreases entries.len(),
{
    if entries.len() == 0 {
        None
    } else if entries.last().0 == name {
        Some(entries.len() - 1)
    } else {
        parameter_position(entries.drop_last(), name)
    }
}

/// The entries after an insertion: a name already present keeps its place and
/// takes the new parameter; a new name goes last.
pub open spec fn with_parameter(
    entries: Seq<(Seq<char>, FunctionParameter)>,
    name: Seq<char>,
    parameter: FunctionParameter,
) -> Seq<(Seq<char>, FunctionParameter)> {
    match parameter_position(entries, name) {
        Some(i) => entries.update(i, (name, parameter)),
        None => entries.push((name, parameter)),
    }
}

/// `IndexMap::new`: a map without entries.
#[verifier::external_body]
pub(crate) fn parameters_new() -> (parameters: indexmap::IndexMap<String, FunctionParameter>)
    ensures
        parameter_entries(parameters) == Seq::<(Seq<char>, FunctionParameter)>::empty(),
{
    indexmap::IndexMap::new()
}

/// `IndexMap::insert`: replaces the value of a key that is present, in its
/// place, and appends a key that is not.
#[verifier::external_body]
pub(crate) fn parameters_insert(
    parameters: &mut indexmap::IndexMap<String, FunctionParameter>,
    name: String,
    parameter: FunctionParameter,
)
    ensures
        parameter_entries(*final(parameters)) == with_parameter(
            parameter_entries(*old(parameters)),
            name@,
            parameter,
        ),
{
    parameters.insert(name, parameter);
}

/// `IndexMap::len`: the number of entries.
#[verifier::external_body]
pub(crate) fn parameters_len(parameters: &indexmap::IndexMap<String, FunctionParameter>) -> (n:
    usize)
    ensures
        n == parameter_entries(*parameters).len(),
{
    parameters.len()
}

/// `IndexMap::get_index`: the entry at a position of the order, `None` past
/// the end.
#[verifier::external_body]
pub(crate) fn parameters_get_index(
    parameters: &indexmap::IndexMap<String, FunctionParameter>,
    index: usize,
) -> (entry: Option<(&String, &FunctionParameter)>)
    ensures
        match entry {
            Some((name, parameter)) => index < parameter_entries(*parameters).len() && (
            name@, *parameter) == parameter_entries(*parameters)[index as int],
            None => index >= parameter_entries(*parameters).len(),
        },
{
    parameters.get_index(index)
}

/// `IndexMap::clone`: a map with the same entries in the same order. A name
/// is copied as a text and a parameter as a plain value, so the copy of a
/// parameter map is the same map.
#[verifier::external_body]
pub(crate) fn parameters_clone(parameters: &indexmap::IndexMap<String, FunctionParameter>) -> (copy:
    indexmap::IndexMap<String, FunctionParameter>)
    ensures
        copy == *parameters,
{
    parameters.clone()
}

/// `Rc::clone`: another handle on the same declaration.
#[verifier::external_body]
pub(crate) fn share_function(function: &Rc<Function>) -> (shared: Rc<Function>)
    ensures
        shared == *function,
{
    Rc::clone(function)
}

/// The variables of one scope, by name.
#[verifier::external_body]
#[derive(Debug)]
pub struct VariableTable {
    inner: hashbrown::HashMap<String, Variable>,
}

/// What a variable table holds.
pub uninterp spec fn variable_entries(table: VariableTable) -> Map<Seq<char>, Variable>;

impl View for VariableTable {
    type V = Map<Seq<char>, Variable>;

    open spec fn view(&self) -> Map<Seq<char>, Variable> {
        variable_entries(*self)
    }
}

impl VariableTable {
    /// `HashMap::new`: an empty map.
    #[verifier::external_body]
    pub(crate) fn new() -> (table: VariableTable)
        ensures
            variable_entries(table) == (Map::<Seq<char>, Variable>::empty()),
    {
        VariableTable { inner: hashbrown::HashMap::new() }
    }

    /// `HashMap::insert`: the key holds the new value, whether or not it
    /// held one before; no other key changes.
    #[verifier::external_body]
    pub(crate) fn insert(&mut self, name: String, variable: Variable)
        ensures
            variable_entries(*final(self)) == variable_entries(*old(self)).insert(name@, variable),
    {
        self.inner.insert(name, variable);
    }

    /// `HashMap::get`: the value of the key, if the map holds the key.
    #[verifier::external_body]
    pub(crate) fn get(&self, name: &str) -> (variable: Option<&Variable>)
        ensures
            variable_entries(*self).contains_key(name@) ==> variable == Some(&variable_entries(*self)[name@]),
            !variable_entries(*self).contains_key(name@) ==> variable is None,
    {
        self.inner.get(name)
    }

    /// `HashMap::iter`: every entry once, in no stated order; each is copied.
    #[verifier::external_body]
    pub(crate) fn entries(&self) -> (entries: Vec<(String, Variable)>)
        ensures
            forall|i: int|
                0 <= i < entries@.len() ==> variable_entries(*self).contains_key(#[trigger] entries@[i].0@)
                    && variable_entries(*self)[entries@[i].0@] == entries@[i].1,
            forall|name: Seq<char>|
                variable_entries(*self).contains_key(name) ==> exists|i: int|
                    0 <= i < entries@.len() && #[trigger] entries@[i].0@ == name,
            forall|i: int, j: int|
                0 <= i < j < entries@.len() ==> entries@[i].0@ != entries@[j].0@,
    {
        self.inner.iter().map(|(name, variable)| (name.clone(), variable.clone())).collect()
    }
}

/// Functions by name: the table of a scope or of a namespace.
#[verifier::external_body]
#[derive(Debug)]
pub struct FunctionTable {
    inner: hashbrown::HashMap<String, FunctionVariant>,
}

/// What a function table holds.
pub uninterp spec fn function_entries(table: FunctionTable) -> Map<Seq<char>, FunctionVariant>;

impl View for FunctionTable {
    type V = Map<Seq<char>, FunctionVariant>;

    open spec fn view(&self) -> Map<Seq<char>, FunctionVariant> {
        function_entries(*self)
    }
}

impl FunctionTable {
    /// `HashMap::new`: an empty map.
    #[verifier::external_body]
    pub(crate) fn new() -> (table: FunctionTable)
        ensures
            function_entries(table) == (Map::<Seq<char>, FunctionVariant>::empty()),
    {
        FunctionTable { inner: hashbrown::HashMap::new() }
    }

    /// `HashMap::insert`: the key holds the new value, whether or not it
    /// held one before; no other key changes.
    #[verifier::external_body]
    pub(crate) fn insert(&mut self, name: String, function: FunctionVariant)
        ensures
            function_entries(*final(self)) == function_entries(*old(self)).insert(name@, function),
    {
        self.inner.insert(name, function);
    }

    /// `HashMap::get`: the value of the key, if the map holds the key.
    #[verifier::external_body]
    pub(crate) fn get(&self, name: &str) -> (function: Option<&FunctionVariant>)
        ensures
            function_entries(*self).contains_key(name@) ==> function == Some(&function_entries(*self)[name@]),
            !function_entries(*self).contains_key(name@) ==> function is None,
    {
        self.inner.get(name)
    }

    /// `HashMap::clone`: a map with the same keys, each with a copy of its
    /// value.
    #[verifier::external_body]
    pub(crate) fn duplicate(&self) -> (copy: FunctionTable)
        ensures
            function_entries(copy) == function_entries(*self),
    {
        FunctionTable { inner: self.inner.clone() }
    }

    /// `HashMap::iter`: every entry once, in no stated order; each is copied.
    #[verifier::external_body]
    pub(crate) fn entries(&self) -> (entries: Vec<(String, FunctionVariant)>)
        ensures
            forall|i: int|
                0 <= i < entries@.len() ==> function_entries(*self).contains_key(#[trigger] entries@[i].0@)
                    && function_entries(*self)[entries@[i].0@] == entries@[i].1,
            forall|name: Seq<char>|
                function_entries(*self).contains_key(name) ==> exists|i: int|
                    0 <= i < entries@.len() && #[trigger] entries@[i].0@ == name,
            forall|i: int, j: int|
                0 <= i < j < entries@.len() ==> entries@[i].0@ != entries@[j].0@,
    {
        self.inner.iter().map(|(name, function)| (name.clone(), function.clone())).collect()
    }
}

/// Namespaces by name.
#[verifier::external_body]
#[derive(Debug)]
pub struct NamespaceTable {
    inner: hashbrown::HashMap<String, Namespace>,
}

/// What a namespace table holds: for each name the functions of that
/// namespace.
pub uninterp spec fn namespace_entries(table: NamespaceTable) -> Map<
    Seq<char>,
    Map<Seq<char>, FunctionVariant>,
>;

impl View for NamespaceTable {
    type V = Map<Seq<char>, Map<Seq<char>, FunctionVariant>>;

    open spec fn view(&self) -> Map<Seq<char>, Map<Seq<char>, FunctionVariant>> {
        namespace_entries(*self)
    }
}

impl NamespaceTable {
    /// `HashMap::new`: an empty map.
    #[verifier::external_body]
    pub(crate) fn new() -> (table: NamespaceTable)
        ensures
            namespace_entries(table) == (Map::<Seq<char>, Map<Seq<char>, FunctionVariant>>::empty()),
    {
        NamespaceTable { inner: hashbrown::HashMap::new() }
    }

    /// `HashMap::insert`: the key holds the new value, whether or not it
    /// held one before; no other key changes.
    #[verifier::external_body]
    pub(crate) fn insert(&mut self, name: String, namespace: Namespace)
        ensures
            namespace_entries(*final(self)) == namespace_entries(*old(self)).insert(name@, namespace@),
    {
        self.inner.insert(name, namespace);
    }

    /// `HashMap::get`: the value of the key, if the map holds the key.
    #[verifier::external_body]
    pub(crate) fn get(&self, name: &str) -> (namespace: Option<&Namespace>)
        ensures
            namespace_entries(*self).contains_key(name@) ==> namespace is Some && namespace->0@ == namespace_entries(*self)[name@],
            !namespace_entries(*self).contains_key(name@) ==> namespace is None,
    {
        self.inner.get(name)
    }

    /// `HashMap::remove`: takes the key out and hands its value back, if the
    /// map holds the key; no other key changes.
    #[verifier::external_body]
    pub(crate) fn remove(&mut self, name: &str) -> (namespace: Option<Namespace>)
        ensures
            namespace_entries(*final(self)) == namespace_entries(*old(self)).remove(name@),
            namespace_entries(*old(self)).contains_key(name@) ==> namespace is Some && namespace->0@ == namespace_entries(*old(self))[name@],
            !namespace_entries(*old(self)).contains_key(name@) ==> namespace is None,
    {
        self.inner.remove(name)
    }

    /// `HashMap::clone`: a map with the same keys, each with a copy of its
    /// value.
    #[verifier::external_body]
    pub(crate) fn duplicate(&self) -> (copy: NamespaceTable)
        ensures
            namespace_entries(copy) == namespace_entries(*self),
    {
        NamespaceTable { inner: self.inner.clone() }
    }
}

/// The evaluated arguments of one call, by the position of their parameter.
#[verifier::external_body]
#[derive(Debug)]
pub struct ArgumentTable {
    inner: hashbrown::HashMap<usize, Literal>,
}

/// What an argument table holds.
pub uninterp spec fn argument_entries(table: ArgumentTable) -> Map<usize, Literal>;

impl View for ArgumentTable {
    type V = Map<usize, Literal>;

    open spec fn view(&self) -> Map<usize, Literal> {
        argument_entries(*self)
    }
}

impl ArgumentTable {
    /// `HashMap::new`: an empty map.
    #[verifier::external_body]
    pub(crate) fn new() -> (table: ArgumentTable)
        ensures
            argument_entries(table) == (Map::<usize, Literal>::empty()),
    {
        ArgumentTable { inner: hashbrown::HashMap::new() }
    }

    /// `HashMap::insert`: the key holds the new value, whether or not it
    /// held one before; no other key changes.
    #[verifier::external_body]
    pub(crate) fn insert(&mut self, position: usize, value: Literal)
        ensures
            argument_entries(*final(self)) == argument_entries(*old(self)).insert(position, value),
    {
        self.inner.insert(position, value);
    }

    /// `HashMap::get`: the value of the key, if the map holds the key.
    #[verifier::external_body]
    pub(crate) fn get(&self, position: usize) -> (value: Option<&Literal>)
        ensures
            argument_entries(*self).contains_key(position) ==> value == Some(&argument_entries(*self)[position]),
            !argument_entries(*self).contains_key(position) ==> value is None,
    {
        self.inner.get(&position)
    }
}

} // verus!
