use vstd::prelude::*;
use vstd::string::*;
use crate::ast::{Expr, Stmt};
use crate::class::ClassType;
use crate::error::{Fault, HezenError, HezenErrorList};
use crate::function::FunctionType;
use crate::interpreter::Interpreter;
use crate::table::Table;
use crate::token::{Token, TokenView};

verus! {

/// The state of a resolution as a mathematical value: the scopes from the
/// outermost to the innermost, each mapping a name to whether it is defined
/// yet; what kind of function and of class the resolver stands in; the
/// distance table; and the diagnostics so far.
pub struct Resolution {
    pub scopes: Seq<Map<Seq<char>, bool>>,
    pub current_function: FunctionType,
    pub current_class: ClassType,
    pub locals: Map<TokenView, usize>,
    pub errors: Seq<Fault>,
}

impl Resolution {
    /// The resolution inside one more scope, which holds nothing yet.
    pub open spec fn begin_scope(self) -> Resolution {
        Resolution { scopes: self.scopes.push(Map::empty()), ..self }
    }

    /// The resolution outside of its innermost scope.
    pub open spec fn end_scope(self) -> Resolution {
        if self.scopes.len() > 0 {
            Resolution { scopes: self.scopes.drop_last(), ..self }
        } else {
            self
        }
    }

    /// The innermost scope maps a name to a flag; without a scope nothing
    /// changes.
    pub open spec fn put(self, name: Seq<char>, defined: bool) -> Resolution {
        Resolution { scopes: put_in(self.scopes, name, defined), ..self }
    }

    /// The innermost scope holds a name that is not defined yet.
    pub open spec fn declare(self, name: Token) -> Resolution {
        self.put(name.lexeme@, false)
    }

    /// The innermost scope holds a name that is defined.
    pub open spec fn define(self, name: Token) -> Resolution {
        self.put(name.lexeme@, true)
    }

    /// The resolution with one more validation error, at the place of a token.
    pub open spec fn error(self, token: Token, message: Seq<char>) -> Resolution {
        Resolution { errors: self.errors.push(Fault::Validation(token@.position, message)), ..self }
    }

    /// The distance table takes the occurrence of a name with the number of
    /// scopes between it and the nearest scope that holds the name; a name
    /// that no scope holds is left to the globals.
    pub open spec fn resolve_local(self, name: Token) -> Resolution {
        match depth_from(self.scopes, name.lexeme@, 0) {
            Some(depth) => Resolution { locals: self.locals.insert(name@, depth as usize), ..self },
            None => self,
        }
    }

    /// Whether the innermost scope has declared a name and not yet defined it.
    pub open spec fn pending(self, name: Seq<char>) -> bool {
        pending_in(self.scopes, name)
    }

    /// The parameters from position `i` on are declared and defined.
    pub open spec fn parameters(self, parameters: Seq<Token>, i: int) -> Resolution
        decreases parameters.len() - i,
    {
        if 0 <= i < parameters.len() {
            self.declare(parameters[i]).define(parameters[i]).parameters(parameters, i + 1)
        } else {
            self
        }
    }
}

/// How many scopes out from the innermost the nearest scope that holds a name
/// is, looking from `depth` scopes out.
pub open spec fn depth_from(scopes: Seq<Map<Seq<char>, bool>>, name: Seq<char>, depth: nat) -> Option<
    nat,
>
    decreases scopes.len() - depth,
{
    if depth >= scopes.len() {
        None
    } else if scopes[scopes.len() - 1 - depth].contains_key(name) {
        Some(depth)
    } else {
        depth_from(scopes, name, depth + 1)
    }
}

/// Whether the innermost scope has declared a name and not yet defined it.
pub open spec fn pending_in(scopes: Seq<Map<Seq<char>, bool>>, name: Seq<char>) -> bool {
    scopes.len() > 0 && scopes.last().contains_key(name) && !scopes.last()[name]
}

/// The scopes after the innermost one mapped a name to a flag.
pub open spec fn put_in(scopes: Seq<Map<Seq<char>, bool>>, name: Seq<char>, defined: bool) -> Seq<
    Map<Seq<char>, bool>,
> {
    if scopes.len() > 0 {
        scopes.update(scopes.len() - 1, scopes.last().insert(name, defined))
    } else {
        scopes
    }
}

/// The complaint about a variable that is read in its own initializer.
pub open spec fn own_initializer() -> Seq<char> {
    "Cannot read local variable in its own initializer."@
}

/// The complaint about `self` outside of every class.
pub open spec fn self_outside() -> Seq<char> {
    "Cannot use 'self' outside of a class."@
}

/// The complaint about `super` outside of every class.
pub open spec fn super_outside() -> Seq<char> {
    "Cannot use 'super' outside of a class."@
}

/// The complaint about `super` in a class that has no superclass.
pub open spec fn super_without_superclass() -> Seq<char> {
    "Cannot use 'super' in a class with no superclass."@
}

/// The complaint about a class that names itself as its superclass.
pub open spec fn inherits_itself() -> Seq<char> {
    "A class cannot inherit from itself."@
}

/// The complaint about a `return` outside of every function.
pub open spec fn return_at_top() -> Seq<char> {
    "Cannot return from top-level code."@
}

/// The complaint about a `return` with a value inside an initializer.
pub open spec fn return_from_initializer() -> Seq<char> {
    "Cannot return a value from an initializer."@
}

/// The complaint about a function whose body is no block.
pub open spec fn body_not_block() -> Seq<char> {
    "Expected block statement in function body"@
}

/// What resolving an expression does to a resolution.
pub open spec fn resolve_expr(r: Resolution, expr: Expr) -> Resolution
    decreases expr, 3nat, 0nat,
{
    match expr {
        Expr::Assign(name, value) => resolve_expr(r, *value).resolve_local(name),
        Expr::Binary(left, _, right) => resolve_expr(resolve_expr(r, *left), *right),
        Expr::Call(callee, _, _) => resolve_arguments(resolve_expr(r, *callee), expr, 0),
        Expr::Get(object, _) => resolve_expr(r, *object),
        Expr::Grouping(inner) => resolve_expr(r, *inner),
        Expr::Literal(_) => r,
        Expr::Logical(left, _, right) => resolve_expr(resolve_expr(r, *left), *right),
        Expr::SetProperty(object, _, value) => resolve_expr(resolve_expr(r, *object), *value),
        Expr::Super(keyword, _) => (if r.current_class == ClassType::NoClass {
            r.error(keyword, super_outside())
        } else if r.current_class != ClassType::Subclass {
            r.error(keyword, super_without_superclass())
        } else {
            r
        }).resolve_local(keyword),
        Expr::Self_(keyword) => if r.current_class == ClassType::NoClass {
            r.error(keyword, self_outside())
        } else {
            r.resolve_local(keyword)
        },
        Expr::Unary(_, right) => resolve_expr(r, *right),
        Expr::Variable(name) => (if r.pending(name.lexeme@) {
            r.error(name, own_initializer())
        } else {
            r
        }).resolve_local(name),
    }
}

/// What resolving the arguments of a call, from position `i` on, does.
pub open spec fn resolve_arguments(r: Resolution, call: Expr, i: int) -> Resolution
    decreases call, 1nat, (match call {
        Expr::Call(_, _, arguments) => arguments@.len() - i,
        _ => 0,
    }),
{
    match call {
        Expr::Call(_, _, arguments) => if 0 <= i < arguments@.len() {
            resolve_arguments(resolve_expr(r, arguments@[i]), call, i + 1)
        } else {
            r
        },
        _ => r,
    }
}

/// What resolving a statement does to a resolution.
pub open spec fn resolve_stmt(r: Resolution, stmt: Stmt) -> Resolution
    decreases stmt, 3nat, 0nat,
{
    match stmt {
        Stmt::Block(_) => resolve_statements(r.begin_scope(), stmt, 0).end_scope(),
        Stmt::Class(_, _, _) => resolve_class(r, stmt),
        Stmt::Expression(expr) => resolve_expr(r, expr),
        Stmt::Function(declaration) => resolve_function(
            r.declare(declaration.name).define(declaration.name),
            stmt,
            FunctionType::Function,
        ),
        Stmt::If(condition, then_branch, else_branch) => {
            let then_done = resolve_stmt(resolve_expr(r, condition), *then_branch);
            match else_branch {
                Some(branch) => resolve_stmt(then_done, *branch),
                None => then_done,
            }
        },
        Stmt::Return(keyword, value) => {
            let placed = if r.current_function == FunctionType::TopLevel {
                r.error(keyword, return_at_top())
            } else {
                r
            };
            match value {
                Some(value) => resolve_expr(
                    if placed.current_function == FunctionType::Initializer {
                        placed.error(keyword, return_from_initializer())
                    } else {
                        placed
                    },
                    value,
                ),
                None => placed,
            }
        },
        Stmt::Var(name, initializer) => (match initializer {
            Some(initializer) => resolve_expr(r.declare(name), initializer),
            None => r.declare(name),
        }).define(name),
        Stmt::VarMut(name, initializer) => (match initializer {
            Some(initializer) => resolve_expr(r.declare(name), initializer),
            None => r.declare(name),
        }).define(name),
        Stmt::While(condition, body) => resolve_stmt(resolve_expr(r, condition), *body),
        Stmt::Break => r,
        Stmt::Continue => r,
    }
}

/// What resolving a class does: its name is declared and defined; with a
/// superclass a scope that holds `super` is opened; inside it, or else
/// directly, a scope that holds `self`; in that one the methods are resolved.
pub open spec fn resolve_class(r: Resolution, stmt: Stmt) -> Resolution
    decreases stmt, 2nat, 0nat,
{
    match stmt {
        Stmt::Class(name, superclass, _) => {
            let named = Resolution { current_class: ClassType::Class, ..r }.declare(name).define(name);
            let opened = match superclass {
                Some(superclass) => {
                    let checked = match superclass {
                        Expr::Variable(parent) => if parent.lexeme@ == name.lexeme@ {
                            named.error(parent, inherits_itself())
                        } else {
                            named
                        },
                        _ => named,
                    };
                    resolve_expr(
                        Resolution { current_class: ClassType::Subclass, ..checked },
                        superclass,
                    ).begin_scope().put("super"@, true)
                },
                None => named,
            };
            let closed = resolve_methods(opened.begin_scope().put("self"@, true), stmt, 0).end_scope();
            Resolution {
                current_class: r.current_class,
                ..(if superclass.is_some() {
                    closed.end_scope()
                } else {
                    closed
                })
            }
        },
        _ => r,
    }
}

/// What resolving the statements of a block, from position `i` on, does.
pub open spec fn resolve_statements(r: Resolution, block: Stmt, i: int) -> Resolution
    decreases block, 1nat, (match block {
        Stmt::Block(statements) => statements@.len() - i,
        _ => 0,
    }),
{
    match block {
        Stmt::Block(statements) => if 0 <= i < statements@.len() {
            resolve_statements(resolve_stmt(r, statements@[i]), block, i + 1)
        } else {
            r
        },
        _ => r,
    }
}

/// What resolving the methods of a class, from position `i` on, does: a
/// method named `init` is resolved as an initializer.
pub open spec fn resolve_methods(r: Resolution, class: Stmt, i: int) -> Resolution
    decreases class, 1nat, (match class {
        Stmt::Class(_, _, methods) => methods@.len() - i,
        _ => 0,
    }),
{
    match class {
        Stmt::Class(_, _, methods) => if 0 <= i < methods@.len() {
            resolve_methods(
                match methods@[i] {
                    Stmt::Function(declaration) => resolve_function(
                        r,
                        methods@[i],
                        if declaration.name.lexeme@ == "init"@ {
                            FunctionType::Initializer
                        } else {
                            FunctionType::Method
                        },
                    ),
                    _ => r,
                },
                class,
                i + 1,
            )
        } else {
            r
        },
        _ => r,
    }
}

/// What resolving a function does: one scope holds its parameters and the
/// names that its body declares.
pub open spec fn resolve_function(r: Resolution, function: Stmt, kind: FunctionType) -> Resolution
    decreases function, 1nat, 0nat,
{
    match function {
        Stmt::Function(declaration) => {
            let entered = Resolution { current_function: kind, ..r }.begin_scope().parameters(
                declaration.parameters@,
                0,
            );
            let resolved = match declaration.body {
                Stmt::Block(_) => resolve_statements(entered, declaration.body, 0),
                _ => Resolution {
                    errors: entered.errors.push(
                        Fault::Runtime(declaration.name@.position, body_not_block()),
                    ),
                    ..entered
                },
            };
            Resolution { current_function: r.current_function, ..resolved.end_scope() }
        },
        _ => r,
    }
}

/// What resolving the statements of a program, from position `i` on, does.
pub open spec fn resolve_program(r: Resolution, statements: Seq<Stmt>, i: int) -> Resolution
    decreases statements.len() - i,
{
    if 0 <= i < statements.len() {
        resolve_program(resolve_stmt(r, statements[i]), statements, i + 1)
    } else {
        r
    }
}

/// The resolver: a pass over a program before it runs, which tells the
/// interpreter how many frames out each occurrence of a name is bound, and
/// reports the misuse of names, of `self`, `super` and `return`.
pub struct Resolver {
    pub scopes: Vec<Table<String, bool>>,
    pub current_function: FunctionType,
    pub current_class: ClassType,
}

/// A validation error at the place of a token.
pub fn validation_at(token: &Token, message: &str) -> (r: HezenError)
    ensures
        r@ == Fault::Validation(token@.position, message@),
{
    HezenError::validation(
        token.position.file.clone(),
        token.position.line,
        token.position.column,
        String::from_str(message),
    )
}

impl Resolver {
    /// The scopes as mathematical values, outermost first.
    pub open spec fn scopes_view(&self) -> Seq<Map<Seq<char>, bool>> {
        Seq::new(self.scopes@.len(), |i: int| self.scopes@[i]@)
    }

    /// The state of the resolution, given the distance table and the
    /// diagnostics that it writes to.
    pub open spec fn resolution(&self, locals: Map<TokenView, usize>, errors: Seq<Fault>) -> Resolution {
        Resolution {
            scopes: self.scopes_view(),
            current_function: self.current_function,
            current_class: self.current_class,
            locals,
            errors,
        }
    }

    /// A resolver outside of every scope, function and class.
    pub fn new() -> (r: Self)
        ensures
            r.scopes_view() == Seq::<Map<Seq<char>, bool>>::empty(),
            r.current_function == FunctionType::TopLevel,
            r.current_class == ClassType::NoClass,
    {
        let r = Resolver {
            scopes: Vec::new(),
            current_function: FunctionType::TopLevel,
            current_class: ClassType::NoClass,
        };
        assert(r.scopes_view() =~= Seq::<Map<Seq<char>, bool>>::empty());
        r
    }

    /// Resolves a program inside a scope of its own.
    #[verifier::loop_isolation(false)]
    pub fn resolve(&mut self, interpreter: &mut Interpreter, errors: &mut HezenErrorList, statements: &Vec<Stmt>)
        ensures
            final(self).resolution(final(interpreter).locals@, final(errors)@) == resolve_program(old(self).resolution(old(interpreter).locals@, old(errors)@).begin_scope(), statements@, 0).end_scope(),
            final(interpreter).heap == old(interpreter).heap,
            final(interpreter).globals == old(interpreter).globals,
            final(interpreter).environment == old(interpreter).environment,
    {
        self.begin_scope();
        let mut i: usize = 0;
        while i < statements.len()
            invariant
                i <= statements.len(),
                interpreter.heap == old(interpreter).heap,
                interpreter.globals == old(interpreter).globals,
                interpreter.environment == old(interpreter).environment,
                resolve_program(old(self).resolution(old(interpreter).locals@, old(errors)@).begin_scope(), statements@, 0)
                    == resolve_program(self.resolution(interpreter.locals@, errors@), statements@, i as int),
            decreases statements.len() - i,
        {
            self.resolve_stmt(interpreter, errors, &statements[i]);
            i = i + 1;
        }
        self.end_scope();
    }

    fn begin_scope(&mut self)
        ensures
            final(self).scopes_view() == old(self).scopes_view().push(Map::empty()),
            final(self).current_function == old(self).current_function,
            final(self).current_class == old(self).current_class,
    {
        self.scopes.push(Table::new());
        assert(self.scopes_view() =~= old(self).scopes_view().push(Map::empty()));
    }

    fn end_scope(&mut self)
        ensures
            final(self).scopes_view() == (if old(self).scopes_view().len() > 0 {
                old(self).scopes_view().drop_last()
            } else {
                old(self).scopes_view()
            }),
            final(self).current_function == old(self).current_function,
            final(self).current_class == old(self).current_class,
    {
        if self.scopes.len() > 0 {
            self.scopes.pop();
            assert(self.scopes_view() =~= old(self).scopes_view().drop_last());
        }
    }

    fn put(&mut self, name: String, defined: bool)
        ensures
            final(self).scopes_view() == put_in(old(self).scopes_view(), name@, defined),
            final(self).current_function == old(self).current_function,
            final(self).current_class == old(self).current_class,
    {
        let count = self.scopes.len();
        if count > 0 {
            self.scopes[count - 1].insert(name, defined);
            assert(self.scopes_view() =~= put_in(old(self).scopes_view(), name@, defined));
        }
    }

    fn declare(&mut self, name: &Token)
        ensures
            final(self).scopes_view() == put_in(old(self).scopes_view(), name.lexeme@, false),
            final(self).current_function == old(self).current_function,
            final(self).current_class == old(self).current_class,
    {
        self.put(name.lexeme.clone(), false);
    }

    fn define(&mut self, name: &Token)
        ensures
            final(self).scopes_view() == put_in(old(self).scopes_view(), name.lexeme@, true),
            final(self).current_function == old(self).current_function,
            final(self).current_class == old(self).current_class,
    {
        self.put(name.lexeme.clone(), true);
    }

    /// How many scopes out the nearest scope that holds a name is.
    fn depth(&self, name: &String) -> (r: Option<usize>)
        ensures
            depth_from(self.scopes_view(), name@, 0) == match r {
                Some(depth) => Some(depth as nat),
                None => None,
            },
    {
        let count = self.scopes.len();
        let mut depth: usize = 0;
        while depth < count
            invariant
                depth <= count,
                count == self.scopes@.len(),
                depth_from(self.scopes_view(), name@, 0) == depth_from(
                    self.scopes_view(),
                    name@,
                    depth as nat,
                ),
            decreases count - depth,
        {
            if self.scopes[count - 1 - depth].contains_key(name) {
                return Some(depth);
            }
            depth = depth + 1;
        }
        None
    }

    fn resolve_local(&self, interpreter: &mut Interpreter, name: &Token)
        ensures
            final(interpreter).locals@ == (match depth_from(self.scopes_view(), name.lexeme@, 0) {
                Some(depth) => old(interpreter).locals@.insert(name@, depth as usize),
                None => old(interpreter).locals@,
            }),
            final(interpreter).heap == old(interpreter).heap,
            final(interpreter).globals == old(interpreter).globals,
            final(interpreter).environment == old(interpreter).environment,
    {
        match self.depth(&name.lexeme) {
            Some(depth) => {
                interpreter.resolve(name, depth);
            },
            None => {},
        }
    }

    fn error(&self, errors: &mut HezenErrorList, token: &Token, message: &str)
        ensures
            final(errors)@ == old(errors)@.push(Fault::Validation(token@.position, message@)),
    {
        errors.add(validation_at(token, message));
    }

    fn pending(&self, name: &String) -> (r: bool)
        ensures
            r == pending_in(self.scopes_view(), name@),
    {
        let count = self.scopes.len();
        if count > 0 {
            match self.scopes[count - 1].get(name) {
                Some(defined) => !*defined,
                None => false,
            }
        } else {
            false
        }
    }

    #[verifier::loop_isolation(false)]
    fn resolve_expr(&mut self, interpreter: &mut Interpreter, errors: &mut HezenErrorList, expr: &Expr)
        ensures
            final(self).resolution(final(interpreter).locals@, final(errors)@) == resolve_expr(old(self).resolution(old(interpreter).locals@, old(errors)@), *expr),
            final(interpreter).heap == old(interpreter).heap,
            final(interpreter).globals == old(interpreter).globals,
            final(interpreter).environment == old(interpreter).environment,
        decreases expr, 3nat, 0nat,
    {
        match expr {
            Expr::Assign(name, value) => {
                self.resolve_expr(interpreter, errors, value);
                self.resolve_local(interpreter, name);
            },
            Expr::Binary(left, _, right) => {
                self.resolve_expr(interpreter, errors, left);
                self.resolve_expr(interpreter, errors, right);
            },
            Expr::Call(callee, _, arguments) => {
                self.resolve_expr(interpreter, errors, callee);
                let ghost begun = self.resolution(interpreter.locals@, errors@);
                let mut i: usize = 0;
                while i < arguments.len()
                    invariant
                        i <= arguments.len(),
                        interpreter.heap == old(interpreter).heap,
                        interpreter.globals == old(interpreter).globals,
                        interpreter.environment == old(interpreter).environment,
                        resolve_arguments(begun, *expr, 0) == resolve_arguments(
                            self.resolution(interpreter.locals@, errors@),
                            *expr,
                            i as int,
                        ),
                    decreases arguments.len() - i,
                {
                    self.resolve_expr(interpreter, errors, &arguments[i]);
                    i = i + 1;
                }
            },
            Expr::Get(object, _) => self.resolve_expr(interpreter, errors, object),
            Expr::Grouping(inner) => self.resolve_expr(interpreter, errors, inner),
            Expr::Literal(_) => {},
            Expr::Logical(left, _, right) => {
                self.resolve_expr(interpreter, errors, left);
                self.resolve_expr(interpreter, errors, right);
            },
            Expr::SetProperty(object, _, value) => {
                self.resolve_expr(interpreter, errors, object);
                self.resolve_expr(interpreter, errors, value);
            },
            Expr::Super(keyword, _) => {
                if self.current_class == ClassType::NoClass {
                    self.error(errors, keyword, "Cannot use 'super' outside of a class.");
                } else if self.current_class != ClassType::Subclass {
                    self.error(errors, keyword, "Cannot use 'super' in a class with no superclass.");
                }
                self.resolve_local(interpreter, keyword);
            },
            Expr::Self_(keyword) => {
                if self.current_class == ClassType::NoClass {
                    self.error(errors, keyword, "Cannot use 'self' outside of a class.");
                } else {
                    self.resolve_local(interpreter, keyword);
                }
            },
            Expr::Unary(_, right) => self.resolve_expr(interpreter, errors, right),
            Expr::Variable(name) => {
                if self.pending(&name.lexeme) {
                    self.error(errors, name, "Cannot read local variable in its own initializer.");
                }
                self.resolve_local(interpreter, name);
            },
        }
    }

    #[verifier::loop_isolation(false)]
    fn resolve_function(
        &mut self,
        interpreter: &mut Interpreter,
        errors: &mut HezenErrorList,
        function: &Stmt,
        kind: FunctionType,
    )
        ensures
            final(self).resolution(final(interpreter).locals@, final(errors)@) == resolve_function(old(self).resolution(old(interpreter).locals@, old(errors)@), *function, kind),
            final(interpreter).heap == old(interpreter).heap,
            final(interpreter).globals == old(interpreter).globals,
            final(interpreter).environment == old(interpreter).environment,
        decreases function, 1nat, 0nat,
    {
        match function {
            Stmt::Function(declaration) => {
                let enclosing = self.current_function;
                self.current_function = kind;
                self.begin_scope();
                let ghost begun = self.resolution(interpreter.locals@, errors@);
                let mut i: usize = 0;
                while i < declaration.parameters.len()
                    invariant
                        i <= declaration.parameters.len(),
                        self.current_function == kind,
                        self.current_class == old(self).current_class,
                        interpreter == old(interpreter),
                        errors == old(errors),
                        begun.parameters(declaration.parameters@, 0) == self.resolution(interpreter.locals@, errors@).parameters(
                            declaration.parameters@,
                            i as int,
                        ),
                    decreases declaration.parameters.len() - i,
                {
                    self.declare(&declaration.parameters[i]);
                    self.define(&declaration.parameters[i]);
                    i = i + 1;
                }
                match &declaration.body {
                    Stmt::Block(statements) => {
                        let ghost entered = self.resolution(interpreter.locals@, errors@);
                        let mut j: usize = 0;
                        while j < statements.len()
                            invariant
                                j <= statements.len(),
                                interpreter.heap == old(interpreter).heap,
                                interpreter.globals == old(interpreter).globals,
                                interpreter.environment == old(interpreter).environment,
                                resolve_statements(entered, declaration.body, 0)
                                    == resolve_statements(
                                    self.resolution(interpreter.locals@, errors@),
                                    declaration.body,
                                    j as int,
                                ),
                            decreases statements.len() - j,
                        {
                            self.resolve_stmt(interpreter, errors, &statements[j]);
                            j = j + 1;
                        }
                    },
                    _ => {
                        errors.add(
                            HezenError::runtime(
                                declaration.name.position.file.clone(),
                                declaration.name.position.line,
                                declaration.name.position.column,
                                String::from_str("Expected block statement in function body"),
                            ),
                        );
                    },
                }
                self.end_scope();
                self.current_function = enclosing;
            },
            _ => {},
        }
    }

    #[verifier::loop_isolation(false)]
    fn resolve_class(&mut self, interpreter: &mut Interpreter, errors: &mut HezenErrorList, stmt: &Stmt)
        ensures
            final(self).resolution(final(interpreter).locals@, final(errors)@) == resolve_class(old(self).resolution(old(interpreter).locals@, old(errors)@), *stmt),
            final(interpreter).heap == old(interpreter).heap,
            final(interpreter).globals == old(interpreter).globals,
            final(interpreter).environment == old(interpreter).environment,
        decreases stmt, 2nat, 0nat,
    {
        match stmt {
            Stmt::Class(name, superclass, methods) => {
                let enclosing = self.current_class;
                self.current_class = ClassType::Class;
                self.declare(name);
                self.define(name);
                match superclass {
                    Some(superclass) => {
                        match superclass {
                            Expr::Variable(parent) => {
                                if parent.lexeme == name.lexeme {
                                    self.error(errors, parent, "A class cannot inherit from itself.");
                                }
                            },
                            _ => {},
                        }
                        self.current_class = ClassType::Subclass;
                        self.resolve_expr(interpreter, errors, superclass);
                        self.begin_scope();
                        self.put(String::from_str("super"), true);
                    },
                    None => {},
                }
                self.begin_scope();
                self.put(String::from_str("self"), true);
                let ghost begun = self.resolution(interpreter.locals@, errors@);
                let init = String::from_str("init");
                let mut i: usize = 0;
                while i < methods.len()
                    invariant
                        i <= methods.len(),
                        interpreter.heap == old(interpreter).heap,
                        interpreter.globals == old(interpreter).globals,
                        interpreter.environment == old(interpreter).environment,
                        resolve_methods(begun, *stmt, 0) == resolve_methods(
                            self.resolution(interpreter.locals@, errors@),
                            *stmt,
                            i as int,
                        ),
                    decreases methods.len() - i,
                {
                    match &methods[i] {
                        Stmt::Function(declaration) => {
                            let kind = if declaration.name.lexeme == init {
                                FunctionType::Initializer
                            } else {
                                FunctionType::Method
                            };
                            self.resolve_function(interpreter, errors, &methods[i], kind);
                        },
                        _ => {},
                    }
                    i = i + 1;
                }
                self.end_scope();
                if superclass.is_some() {
                    self.end_scope();
                }
                self.current_class = enclosing;
            },
            _ => {},
        }
    }

    #[verifier::loop_isolation(false)]
    fn resolve_stmt(&mut self, interpreter: &mut Interpreter, errors: &mut HezenErrorList, stmt: &Stmt)
        ensures
            final(self).resolution(final(interpreter).locals@, final(errors)@) == resolve_stmt(old(self).resolution(old(interpreter).locals@, old(errors)@), *stmt),
            final(interpreter).heap == old(interpreter).heap,
            final(interpreter).globals == old(interpreter).globals,
            final(interpreter).environment == old(interpreter).environment,
        decreases stmt, 3nat, 0nat,
    {
        match stmt {
            Stmt::Block(statements) => {
                self.begin_scope();
                let ghost begun = self.resolution(interpreter.locals@, errors@);
                let mut i: usize = 0;
                while i < statements.len()
                    invariant
                        i <= statements.len(),
                        interpreter.heap == old(interpreter).heap,
                        interpreter.globals == old(interpreter).globals,
                        interpreter.environment == old(interpreter).environment,
                        resolve_statements(begun, *stmt, 0) == resolve_statements(
                            self.resolution(interpreter.locals@, errors@),
                            *stmt,
                            i as int,
                        ),
                    decreases statements.len() - i,
                {
                    self.resolve_stmt(interpreter, errors, &statements[i]);
                    i = i + 1;
                }
                self.end_scope();
            },
            Stmt::Class(_, _, _) => self.resolve_class(interpreter, errors, stmt),
            Stmt::Expression(expr) => self.resolve_expr(interpreter, errors, expr),
            Stmt::Function(declaration) => {
                self.declare(&declaration.name);
                self.define(&declaration.name);
                self.resolve_function(interpreter, errors, stmt, FunctionType::Function);
            },
            Stmt::If(condition, then_branch, else_branch) => {
                self.resolve_expr(interpreter, errors, condition);
                self.resolve_stmt(interpreter, errors, then_branch);
                match else_branch {
                    Some(branch) => self.resolve_stmt(interpreter, errors, branch),
                    None => {},
                }
            },
            Stmt::Return(keyword, value) => {
                if self.current_function == FunctionType::TopLevel {
                    self.error(errors, keyword, "Cannot return from top-level code.");
                }
                match value {
                    Some(value) => {
                        if self.current_function == FunctionType::Initializer {
                            self.error(errors, keyword, "Cannot return a value from an initializer.");
                        }
                        self.resolve_expr(interpreter, errors, value);
                    },
                    None => {},
                }
            },
            Stmt::Var(name, initializer) => {
                self.declare(name);
                match initializer {
                    Some(initializer) => self.resolve_expr(interpreter, errors, initializer),
                    None => {},
                }
                self.define(name);
            },
            Stmt::VarMut(name, initializer) => {
                self.declare(name);
                match initializer {
                    Some(initializer) => self.resolve_expr(interpreter, errors, initializer),
                    None => {},
                }
                self.define(name);
            },
            Stmt::While(condition, body) => {
                self.resolve_expr(interpreter, errors, condition);
                self.resolve_stmt(interpreter, errors, body);
            },
            Stmt::Break => {},
            Stmt::Continue => {},
        }
    }
}

} // verus!
