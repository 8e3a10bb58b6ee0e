//! The facade: from source text to a run.
use vstd::prelude::*;

use crate::ast::{
    outcome, AstNode, ErrorView, EvalResult, FunctionVariant, NativeFunction, RuntimeError, Stmt, Variable,
};
use crate::environment::{
    chain_kept, namespace_or_empty, scope_with_function, scope_with_namespace, Environment, Namespace,
    ScopeView,
};
use crate::eval::Host;
use crate::grammar::parse_program;
use crate::lexer::{token_views, tokenize, tokens_from, LexError, Token};
use crate::model::{stmt_view, stmts_view, StmtView};
use crate::parser::{ParseError, Parser};
use crate::semantics::{run_node, Run};
use crate::tables::share_function;

verus! {

/// Why a source text gave no interpreter.
#[derive(Debug, PartialEq)]
pub enum SourceError {
    /// The text is no token sequence.
    Lex(LexError),
    /// The tokens are no program: the statements parsed before the error,
    /// and the error.
    Parse(Vec<Stmt>, ParseError),
}

/// A program with the scope that it runs in.
pub struct Interpreter {
    pub ast: AstNode,
    pub environment: Environment,
}

/// The function table after the algorithms among the first `upto`
/// statements have been put into it, each under its name; a later
/// declaration of a name replaces an earlier one.
pub open spec fn with_algorithms(
    functions: Map<Seq<char>, FunctionVariant>,
    statements: Seq<Stmt>,
    upto: int,
) -> Map<Seq<char>, FunctionVariant>
    decreases upto,
{
    if upto <= 0 || upto > statements.len() {
        functions
    } else {
        let before = with_algorithms(functions, statements, upto - 1);
        match statements[upto - 1] {
            Stmt::Alg(function) => before.insert(function.name@, FunctionVariant::Kumir(function)),
            _ => before,
        }
    }
}

/// The statements that a run evaluates: those of a program, or the one
/// statement.
pub open spec fn top_level(ast: AstNode) -> Seq<Stmt> {
    match ast {
        AstNode::Program(statements) => statements@,
        AstNode::Stmt(_) => Seq::empty(),
    }
}

/// The statements of a node as plain values.
pub open spec fn node_statements(ast: AstNode) -> Seq<StmtView> {
    match ast {
        AstNode::Program(stmts) => stmts_view(stmts@),
        AstNode::Stmt(stmt) => seq![stmt_view(stmt)],
    }
}

/// What the making of an interpreter from tokens gave, as plain values: the
/// statements of its program, or the statements before the error and the
/// error.
pub open spec fn parsed_view(made: Result<Interpreter, (Vec<Stmt>, ParseError)>) -> Result<
    Seq<StmtView>,
    (Seq<StmtView>, ParseError),
> {
    match made {
        Ok(interpreter) => Ok(node_statements(interpreter.ast)),
        Err((stmts, error)) => Err((stmts_view(stmts@), error)),
    }
}

/// What the making of an interpreter from a text gave, where the text was a
/// token sequence, as plain values.
pub open spec fn source_view(made: Result<Interpreter, SourceError>) -> Result<
    Seq<StmtView>,
    (Seq<StmtView>, ParseError),
> {
    match made {
        Ok(interpreter) => Ok(node_statements(interpreter.ast)),
        Err(SourceError::Parse(stmts, error)) => Err((stmts_view(stmts@), error)),
        Err(SourceError::Lex(_)) => Ok(Seq::empty()),
    }
}

/// The scopes of an interpreter after the algorithms of its program have
/// been put into the function table.
pub open spec fn registered(ast: AstNode, scopes: Seq<ScopeView>) -> Seq<ScopeView> {
    scopes.update(
        0,
        ScopeView {
            functions: with_algorithms(
                scopes[0].functions,
                top_level(ast),
                top_level(ast).len() as int,
            ),
            ..scopes[0]
        },
    )
}

/// Whether a chain is what an interpreter for `ast` starts with: one scope,
/// which holds the algorithms of the program and nothing else.
pub open spec fn starts(ast: AstNode, scopes: Seq<ScopeView>) -> bool {
    &&& scopes.len() == 1
    &&& scopes[0].variables == Map::<Seq<char>, Variable>::empty()
    &&& scopes[0].namespaces == Map::<Seq<char>, Map<Seq<char>, FunctionVariant>>::empty()
    &&& scopes[0].functions == with_algorithms(
        Map::empty(),
        top_level(ast),
        top_level(ast).len() as int,
    )
}

/// Whether a run did what the program means, as far as the meaning says
/// anything: it ended with the result and the scopes of the meaning; or,
/// where the meaning runs a statement and so looks at the interruption flag,
/// it was interrupted.
pub open spec fn ran(
    done: Result<(), RuntimeError>,
    scopes: Seq<ScopeView>,
    meaning: Option<Run<EvalResult>>,
) -> bool {
    meaning matches Some(run) ==> (run.asked && done matches Err(RuntimeError::UserInterrupt)) || ({
        &&& match done {
            Ok(_) => run.result is Ok,
            Err(error) => run.result == Err::<EvalResult, ErrorView>(error@),
        }
        &&& scopes == run.scopes
    })
}

/// What a run gives, given how the evaluation of the program ended: a run
/// whose evaluation ended, however it ended, has succeeded; the error of the
/// evaluation is the error of the run.
pub fn program_ended(ended: Result<EvalResult, RuntimeError>) -> (done: Result<(), RuntimeError>)
    ensures
        match ended {
            Ok(_) => done == Ok::<(), RuntimeError>(()),
            Err(error) => done == Err::<(), RuntimeError>(error),
        },
{
    match ended {
        Ok(_) => Ok(()),
        Err(error) => Err(error),
    }
}

impl Interpreter {
    /// An interpreter for a program. Its scope holds the algorithms that the
    /// program declares at its top level, each callable under its name.
    pub fn new(ast: AstNode) -> (interpreter: Self)
        ensures
            interpreter.ast == ast,
            starts(interpreter.ast, interpreter.environment@),
    {
        let mut interpreter = Interpreter { ast, environment: Environment::default() };
        interpreter.register_functions();
        interpreter
    }

    /// Parses the tokens and makes an interpreter for the program.
    pub fn new_from_tokens(tokens: Vec<Token>) -> (made: Result<Self, (Vec<Stmt>, ParseError)>)
        ensures
            made matches Ok(interpreter) ==> interpreter.ast is Program && starts(
                interpreter.ast,
                interpreter.environment@,
            ),
            parsed_view(made) == parse_program(tokens@, 0, Seq::empty()),
    {
        let mut parser = Parser::new(tokens);
        match parser.parse() {
            Ok(ast) => Ok(Interpreter::new(ast)),
            Err(error) => Err(error),
        }
    }

    /// Reads the text into tokens, parses them and makes an interpreter for
    /// the program. The text must be a token sequence, and the tokens a
    /// program: the first lexical error, or else the first parse error with
    /// the statements before it, is handed back.
    pub fn new_from_string(input: &str) -> (made: Result<Self, SourceError>)
        ensures
            made matches Ok(interpreter) ==> interpreter.ast is Program && starts(
                interpreter.ast,
                interpreter.environment@,
            ),
            match tokens_from(input@, 0) {
                Err(error) => made matches Err(SourceError::Lex(e)) && e == error,
                Ok(views) => !(made matches Err(SourceError::Lex(_))) && exists|tokens: Seq<Token>|
                    #![trigger token_views(tokens)]
                    token_views(tokens) == views && source_view(made) == parse_program(
                        tokens,
                        0,
                        Seq::empty(),
                    ),
            },
    {
        match tokenize(input) {
            Err(error) => Err(SourceError::Lex(error)),
            Ok(tokens) => {
                let ghost read = tokens@;
                let made = match Interpreter::new_from_tokens(tokens) {
                    Ok(interpreter) => Ok(interpreter),
                    Err((statements, error)) => Err(SourceError::Parse(statements, error)),
                };
                proof {
                    assert(token_views(read) == tokens_from(input@, 0)->Ok_0);
                    assert(source_view(made) == parse_program(read, 0, Seq::empty()));
                }
                made
            },
        }
    }

    /// Puts every algorithm that the program declares at its top level into
    /// the function table, under its name.
    pub fn register_functions(&mut self)
        ensures
            final(self).ast == old(self).ast,
            final(self).environment@ == registered(old(self).ast, old(self).environment@),
    {
        proof {
            self.environment.lemma_view();
        }
        match &self.ast {
            AstNode::Program(body) => {
                let mut i: usize = 0;
                assert(self.environment@ =~= old(self).environment@.update(
                    0,
                    ScopeView {
                        functions: with_algorithms(
                            old(self).environment@[0].functions,
                            body@,
                            0,
                        ),
                        ..old(self).environment@[0]
                    },
                ));
                while i < body.len()
                    invariant
                        i <= body.len(),
                        self.ast == old(self).ast,
                        self.environment@.len() >= 1,
                        old(self).environment@.len() >= 1,
                        self.environment@ == old(self).environment@.update(
                            0,
                            ScopeView {
                                functions: with_algorithms(
                                    old(self).environment@[0].functions,
                                    body@,
                                    i as int,
                                ),
                                ..old(self).environment@[0]
                            },
                        ),
                    decreases body.len() - i,
                {
                    match &body[i] {
                        Stmt::Alg(function) => {
                            self.environment.register_function(
                                function.name.as_str(),
                                FunctionVariant::Kumir(share_function(function)),
                            );
                            assert(self.environment@ =~= old(self).environment@.update(
                                0,
                                ScopeView {
                                    functions: with_algorithms(
                                        old(self).environment@[0].functions,
                                        body@,
                                        i + 1,
                                    ),
                                    ..old(self).environment@[0]
                                },
                            ));
                        },
                        _ => {},
                    }
                    i += 1;
                }
            },
            AstNode::Stmt(_) => {
                assert(self.environment@ =~= old(self).environment@.update(
                    0,
                    ScopeView {
                        functions: with_algorithms(
                            old(self).environment@[0].functions,
                            Seq::empty(),
                            0,
                        ),
                        ..old(self).environment@[0]
                    },
                ));
            },
        }
    }

    /// Makes a native function callable under `name`.
    pub fn register_native_function(&mut self, name: &str, function: NativeFunction)
        ensures
            final(self).ast == old(self).ast,
            final(self).environment@ == old(self).environment@.update(
                0,
                scope_with_function(
                    old(self).environment@[0],
                    name@,
                    FunctionVariant::Native(function),
                ),
            ),
    {
        self.environment.register_function(name, FunctionVariant::Native(function));
    }

    /// Puts a native function into a namespace, which a program must import
    /// before it can call the function.
    pub fn register_native_function_in_namespace(
        &mut self,
        name: &str,
        function: NativeFunction,
        namespace: &str,
    )
        ensures
            final(self).ast == old(self).ast,
            final(self).environment@ == old(self).environment@.update(
                0,
                scope_with_namespace(
                    old(self).environment@[0],
                    namespace@,
                    namespace_or_empty(old(self).environment@[0], namespace@).insert(
                        name@,
                        FunctionVariant::Native(function),
                    ),
                ),
            ),
    {
        self.environment.register_function_in_namespace(
            namespace,
            name,
            FunctionVariant::Native(function),
        );
    }

    /// Puts a whole namespace into the scope, in place of any of that name.
    pub fn register_namespace(&mut self, name: &str, namespace: Namespace)
        ensures
            final(self).ast == old(self).ast,
            final(self).environment@ == old(self).environment@.update(
                0,
                scope_with_namespace(old(self).environment@[0], name@, namespace@),
            ),
    {
        self.environment.register_namespace(name, namespace);
    }

    /// Evaluates the top-level statements of the program once, in order,
    /// within `budget` steps. Declarations of algorithms do nothing here: an
    /// algorithm runs when a statement calls it.
    pub fn run_within<H: Host>(&mut self, host: &mut H, budget: u64) -> (done: Result<
        (),
        RuntimeError,
    >)
        ensures
            final(self).ast == old(self).ast,
            old(self).ast is Program ==> chain_kept(
                old(self).environment@,
                final(self).environment@,
            ),
            budget == 0 ==> outcome(done) == Err::<(), ErrorView>(ErrorView::StepLimit)
                && final(self).environment@ == old(self).environment@,
            old(self).ast matches AstNode::Program(body) && body@.len() == 0 && budget > 0
                ==> done is Ok && final(self).environment@ == old(self).environment@,
            ran(
                done,
                final(self).environment@,
                run_node(old(self).ast, old(self).environment@, budget as nat),
            ),
    {
        let mut budget = budget;
        program_ended(self.ast.eval(&mut self.environment, host, &mut budget))
    }

    /// Evaluates the top-level statements of the program once, in order.
    /// The run has the largest budget that there is.
    pub fn run<H: Host>(&mut self, host: &mut H) -> (done: Result<(), RuntimeError>)
        ensures
            final(self).ast == old(self).ast,
            old(self).ast is Program ==> chain_kept(
                old(self).environment@,
                final(self).environment@,
            ),
            old(self).ast matches AstNode::Program(body) && body@.len() == 0 ==> done is Ok
                && final(self).environment@ == old(self).environment@,
            ran(
                done,
                final(self).environment@,
                run_node(old(self).ast, old(self).environment@, u64::MAX as nat),
            ),
    {
        self.run_within(host, u64::MAX)
    }
}

} // verus!
