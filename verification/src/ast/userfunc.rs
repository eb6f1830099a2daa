//! A function of the program, the references into its arenas, and the
//! builder that turns a syntax tree into it.
use crate::ast::model::{
    lemma_build_block_stops, lemma_build_exprs_stops, lemma_extended_by_refl,
    lemma_extended_by_trans, lemma_steps_extend, ExprView, StatementView, UserFunctionView,
};
use crate::ast::{Expr, Function, RuleMeta, Statement};
use crate::errors::{LangError, LangErrorMsg, LangResult, Span};
use crate::lexer::{ComparisonToken, OperatorToken, PunctuationToken};
use crate::parser;
use crate::parser::Spanned;
use crate::types::Type;
use std::rc::Rc;
use vstd::prelude::*;

verus! {

/// Refers to an expression of a function, by its index in the arena.
#[derive(Debug, Clone, Copy, PartialEq, Eq, Structural)]
pub struct ExprRef(pub usize);

/// Refers to a statement of a function, by its index in the arena.
#[derive(Debug, Clone, Copy, PartialEq, Eq, Structural)]
pub struct StatementRef(pub usize);

/// Refers to an error point of a function: a runtime error that the
/// function's code can end with.
#[derive(Debug, Clone, Copy)]
pub struct ErrorPointRef {
    pub idx: usize,
    pub error: LangError,
}

impl PartialEq for ErrorPointRef {
    /// Two references are equal when they have the same index.
    fn eq(&self, other: &Self) -> (equal: bool) {
        self.idx == other.idx
    }
}

impl vstd::std_specs::cmp::PartialEqSpecImpl for ErrorPointRef {
    open spec fn obeys_eq_spec() -> bool {
        true
    }

    open spec fn eq_spec(&self, other: &Self) -> bool {
        self.idx == other.idx
    }
}

impl Eq for ErrorPointRef {

}

impl ErrorPointRef {
    /// The error that this refers to.
    pub fn error(&self) -> (error: LangError)
        ensures
            error == self.error,
    {
        self.error
    }

    /// The failure with the error that this refers to.
    pub fn err<T>(&self) -> (result: LangResult<T>)
        ensures
            result == Err::<T, LangError>(self.error),
    {
        Err(self.error)
    }
}

/// A variable of a function: its name and the type that its first
/// assignment gave it.
pub struct Variable {
    pub name: String,
    pub ty: Type,
}

/// Whether `types` holds the variables `vars` and no others.
pub open spec fn vars_agree(vars: Seq<Variable>, types: Map<Seq<char>, Type>) -> bool {
    &&& forall|i: int|
        0 <= i < vars.len() ==> types.contains_pair((#[trigger] vars[i]).name@, vars[i].ty)
    &&& forall|name: Seq<char>| #[trigger]
        types.dom().contains(name) ==> exists|i: int|
            0 <= i < vars.len() && (#[trigger] vars[i]).name@ == name
}

/// A function of the program: the arenas of its statements, expressions and
/// error points, and the types of its variables.
pub struct UserFunction {
    /// What is known of the rule that this function is part of.
    rule_meta: Rc<RuleMeta>,
    /// Type of the value that the function gives.
    return_type: Type,
    /// Whether this is the transition function of its rule, which leaves by
    /// `become`, or a helper function, which leaves by `return`.
    is_transition_function: bool,
    /// Every statement of the function.
    statements: Vec<Statement>,
    /// Every expression of the function.
    expressions: Vec<Expr>,
    /// Every runtime error that the function's code can end with.
    error_points: Vec<LangError>,
    /// The variables in the order of their first assignment.
    variables: Vec<Variable>,
    /// The types of the variables by name.
    variable_types: Ghost<Map<Seq<char>, Type>>,
}

impl View for UserFunction {
    type V = UserFunctionView;

    closed spec fn view(&self) -> UserFunctionView {
        UserFunctionView {
            rule_meta: *self.rule_meta,
            return_type: self.return_type,
            is_transition_function: self.is_transition_function,
            statements: self.statements@.map_values(|s: Statement| s@),
            expressions: self.expressions@.map_values(|e: Expr| e@),
            error_points: self.error_points@,
            variables: self.variable_types@,
        }
    }
}

/// Appending an expression that is well formed at its index keeps a function
/// well formed.
pub proof fn lemma_add_expr_wf(f: UserFunctionView, expr: ExprView)
    requires
        f.wf(),
        f.add_expr(expr).0.expr_wf_at(f.expressions.len() as int),
    ensures
        f.add_expr(expr).0.wf(),
{
    let g = f.add_expr(expr).0;
    assert forall|i: int| 0 <= i < g.expressions.len() implies #[trigger] g.expr_wf_at(i) by {
        if i < f.expressions.len() {
            assert(f.expr_wf_at(i));
            let e = f.expressions[i];
            assert(g.expressions[i] == e);
            assert(g.arg_types(e.args) =~= f.arg_types(e.args));
        }
    }
    assert forall|i: int| 0 <= i < g.statements.len() implies #[trigger] g.statement_wf_at(i) by {
        assert(f.statement_wf_at(i));
    }
}

/// Appending an error point keeps a function well formed.
pub proof fn lemma_add_error_point_wf(f: UserFunctionView, error: LangError)
    requires
        f.wf(),
    ensures
        f.add_error_point(error).0.wf(),
{
    let g = f.add_error_point(error).0;
    assert forall|i: int| 0 <= i < g.expressions.len() implies #[trigger] g.expr_wf_at(i) by {
        assert(f.expr_wf_at(i));
        let e = f.expressions[i];
        assert(g.arg_types(e.args) =~= f.arg_types(e.args));
    }
    assert forall|i: int| 0 <= i < g.statements.len() implies #[trigger] g.statement_wf_at(i) by {
        assert(f.statement_wf_at(i));
    }
}

/// Looking a variable up, or giving a new one its type, keeps a function well
/// formed.
pub proof fn lemma_get_or_create_var_wf(f: UserFunctionView, name: Seq<char>, new_ty: Type)
    requires
        f.wf(),
    ensures
        f.get_or_create_var(name, new_ty).0.wf(),
{
    let g = f.get_or_create_var(name, new_ty).0;
    assert forall|i: int| 0 <= i < g.expressions.len() implies #[trigger] g.expr_wf_at(i) by {
        assert(f.expr_wf_at(i));
        let e = f.expressions[i];
        assert(g.arg_types(e.args) =~= f.arg_types(e.args));
    }
    assert forall|i: int| 0 <= i < g.statements.len() implies #[trigger] g.statement_wf_at(i) by {
        assert(f.statement_wf_at(i));
    }
}

/// Appending a statement that is well formed at its index keeps a function
/// well formed.
pub proof fn lemma_add_statement_wf(f: UserFunctionView, statement: StatementView)
    requires
        f.wf(),
        f.add_statement(statement).0.statement_wf_at(f.statements.len() as int),
    ensures
        f.add_statement(statement).0.wf(),
{
    let g = f.add_statement(statement).0;
    assert forall|i: int| 0 <= i < g.expressions.len() implies #[trigger] g.expr_wf_at(i) by {
        assert(f.expr_wf_at(i));
        let e = f.expressions[i];
        assert(g.arg_types(e.args) =~= f.arg_types(e.args));
    }
    assert forall|i: int| 0 <= i < g.statements.len() implies #[trigger] g.statement_wf_at(i) by {
        if i < f.statements.len() {
            assert(f.statement_wf_at(i));
            assert(g.statements[i] == f.statements[i]);
        }
    }
}

impl UserFunction {
    /// Whether the function is well formed: its model is, and the variables
    /// it holds are those of its model.
    pub closed spec fn wf(&self) -> bool {
        &&& self@.wf()
        &&& vars_agree(self.variables@, self.variable_types@)
    }

    /// Makes the transition function of a rule, with nothing in it yet. It
    /// gives a cell state.
    pub fn new_transition_function(rule_meta: Rc<RuleMeta>) -> (function: Self)
        ensures
            function.wf(),
            function@ == UserFunctionView::empty(*rule_meta, Type::CellState, true),
    {
        let function = UserFunction {
            rule_meta,
            return_type: Type::CellState,
            is_transition_function: true,
            statements: Vec::new(),
            expressions: Vec::new(),
            error_points: Vec::new(),
            variables: Vec::new(),
            variable_types: Ghost(Map::empty()),
        };
        proof {
            assert(function@ =~= UserFunctionView::empty(*rule_meta, Type::CellState, true));
        }
        function
    }

    /// Makes a helper function that gives a value of the given type, with
    /// nothing in it yet.
    pub fn new_helper_function(rule_meta: Rc<RuleMeta>, return_type: Type) -> (function: Self)
        ensures
            function.wf(),
            function@ == UserFunctionView::empty(*rule_meta, return_type, false),
    {
        let function = UserFunction {
            rule_meta,
            return_type,
            is_transition_function: false,
            statements: Vec::new(),
            expressions: Vec::new(),
            error_points: Vec::new(),
            variables: Vec::new(),
            variable_types: Ghost(Map::empty()),
        };
        proof {
            assert(function@ =~= UserFunctionView::empty(*rule_meta, return_type, false));
        }
        function
    }

    /// What is known of the rule that this function is part of.
    pub fn rule_meta(&self) -> (rule_meta: &Rc<RuleMeta>)
        ensures
            **rule_meta == self@.rule_meta,
    {
        &self.rule_meta
    }

    /// Type of the value that the function gives.
    pub fn return_type(&self) -> (return_type: Type)
        ensures
            return_type == self@.return_type,
    {
        self.return_type
    }

    /// Whether this is the transition function of its rule.
    pub fn is_transition_function(&self) -> (b: bool)
        ensures
            b == self@.is_transition_function,
    {
        self.is_transition_function
    }

    /// Number of expressions in the arena.
    pub fn expr_count(&self) -> (count: usize)
        ensures
            count == self@.expressions.len(),
    {
        self.expressions.len()
    }

    /// Number of statements in the arena.
    pub fn statement_count(&self) -> (count: usize)
        ensures
            count == self@.statements.len(),
    {
        self.statements.len()
    }

    /// Number of error points.
    pub fn error_point_count(&self) -> (count: usize)
        ensures
            count == self@.error_points.len(),
    {
        self.error_points.len()
    }

    /// Number of variables.
    pub fn var_count(&self) -> (count: usize)
        ensures
            count == self.spec_var_names().len(),
    {
        self.variables.len()
    }

    /// The names of the variables in the order of their first assignment.
    pub closed spec fn spec_var_names(&self) -> Seq<Seq<char>> {
        self.variables@.map_values(|v: Variable| v.name@)
    }

    /// The variables are those that the model gives a type.
    pub proof fn lemma_var_names(&self)
        requires
            self.wf(),
        ensures
            forall|i: int|
                0 <= i < self.spec_var_names().len() ==> self@.variables.dom().contains(
                    #[trigger] self.spec_var_names()[i],
                ),
            forall|name: Seq<char>| #[trigger]
                self@.variables.dom().contains(name) ==> self.spec_var_names().contains(name),
    {
        assert forall|i: int| 0 <= i < self.spec_var_names().len() implies self@.variables.dom().contains(
            #[trigger] self.spec_var_names()[i],
        ) by {
            assert(self.variable_types@.contains_pair(self.variables@[i].name@, self.variables@[i].ty));
        }
        assert forall|name: Seq<char>| #[trigger]
            self@.variables.dom().contains(name) implies self.spec_var_names().contains(name) by {
            let i = choose|i: int|
                0 <= i < self.variables@.len() && (#[trigger] self.variables@[i]).name@ == name;
            assert(self.spec_var_names()[i] == name);
        }
    }

    /// The variable at `index` in the order of first assignment.
    pub fn var(&self, index: usize) -> (variable: &Variable)
        requires
            self.wf(),
            index < self.spec_var_names().len(),
        ensures
            variable.name@ == self.spec_var_names()[index as int],
            self@.variables.contains_pair(variable.name@, variable.ty),
    {
        &self.variables[index]
    }

    /// The expression that `expr` refers to.
    pub fn expr(&self, expr: ExprRef) -> (node: &Expr)
        requires
            self@.has_expr(expr),
        ensures
            node@ == self@.expressions[expr.0 as int],
    {
        &self.expressions[expr.0]
    }

    /// The statement that `statement` refers to.
    pub fn statement(&self, statement: StatementRef) -> (node: &Statement)
        requires
            self@.has_statement(statement),
        ensures
            node@ == self@.statements[statement.0 as int],
    {
        &self.statements[statement.0]
    }

    /// The error at the index that `error_point` holds.
    pub fn error_point(&self, error_point: &ErrorPointRef) -> (error: LangError)
        requires
            error_point.idx < self@.error_points.len(),
        ensures
            error == self@.error_points[error_point.idx as int],
    {
        self.error_points[error_point.idx]
    }

    /// Index of the variable `name` among the variables, if there is one.
    fn find_var(&self, name: &String) -> (found: Option<usize>)
        requires
            self.wf(),
        ensures
            match found {
                Some(i) => i < self.variables@.len() && self.variables@[i as int].name@ == name@
                    && self@.variables.contains_pair(name@, self.variables@[i as int].ty),
                None => !self@.variables.dom().contains(name@),
            },
    {
        let mut i: usize = 0;
        while i < self.variables.len()
            invariant
                i <= self.variables.len(),
                self.wf(),
                forall|j: int| 0 <= j < i ==> (#[trigger] self.variables@[j]).name@ != name@,
            decreases self.variables.len() - i,
        {
            if self.variables[i].name == *name {
                return Some(i);
            }
            i = i + 1;
        }
        None
    }

    /// The type of the variable `var_name`, or the error
    /// `UseOfUninitializedVariable` at `span` if nothing was assigned to it.
    pub fn try_get_var(&self, span: Span, var_name: &str) -> (result: LangResult<Type>)
        requires
            self.wf(),
        ensures
            result == self@.try_get_var(span, var_name@),
    {
        let name = var_name.to_owned();
        match self.find_var(&name) {
            Some(i) => Ok(self.variables[i].ty),
            None => Err(LangErrorMsg::UseOfUninitializedVariable.with_span(span)),
        }
    }

    /// The type of the variable `var_name`. A variable that exists keeps its
    /// type, whatever `new_ty` is; a new one is made with the type `new_ty`.
    pub fn get_or_create_var(&mut self, var_name: &str, new_ty: Type) -> (ty: Type)
        requires
            old(self).wf(),
        ensures
            final(self).wf(),
            final(self)@ == old(self)@.get_or_create_var(var_name@, new_ty).0,
            ty == old(self)@.get_or_create_var(var_name@, new_ty).1,
    {
        let name = var_name.to_owned();
        match self.find_var(&name) {
            Some(i) => self.variables[i].ty,
            None => {
                proof {
                    lemma_get_or_create_var_wf(self@, name@, new_ty);
                }
                self.variables.push(Variable { name, ty: new_ty });
                self.variable_types = Ghost(self.variable_types@.insert(var_name@, new_ty));
                proof {
                    assert(self@ =~= old(self)@.get_or_create_var(var_name@, new_ty).0);
                    let vars = self.variables@;
                    let types = self.variable_types@;
                    assert forall|i: int| 0 <= i < vars.len() implies types.contains_pair(
                        (#[trigger] vars[i]).name@,
                        vars[i].ty,
                    ) by {
                        if i < vars.len() - 1 {
                            assert(vars[i] == old(self).variables@[i]);
                        }
                    }
                    assert forall|n: Seq<char>| #[trigger] types.dom().contains(n) implies exists|
                        i: int,
                    |
                        0 <= i < vars.len() && (#[trigger] vars[i]).name@ == n by {
                        if n == var_name@ {
                            assert(vars[vars.len() - 1].name@ == n);
                        } else {
                            let i = choose|i: int|
                                0 <= i < old(self).variables@.len() && (#[trigger] old(
                                    self,
                                ).variables@[i]).name@ == n;
                            assert(vars[i].name@ == n);
                        }
                    }
                }
                new_ty
            },
        }
    }

    /// Adds an error point to the function and gives the reference to it.
    pub fn add_error_point(&mut self, error: LangError) -> (error_point: ErrorPointRef)
        requires
            old(self).wf(),
        ensures
            final(self).wf(),
            final(self)@ == old(self)@.add_error_point(error).0,
            error_point.idx == old(self)@.add_error_point(error).1.idx,
            error_point.error == error,
            final(self)@.has_error_point(error_point),
    {
        let idx = self.error_points.len();
        self.error_points.push(error);
        proof {
            lemma_add_error_point_wf(old(self)@, error);
            assert(self@ =~= old(self)@.add_error_point(error).0);
        }
        ErrorPointRef { idx, error }
    }

    /// Adds an expression to the function and gives the reference to it.
    pub fn add_expr(&mut self, expr: Expr) -> (expr_ref: ExprRef)
        requires
            old(self).wf(),
            old(self)@.add_expr(expr@).0.expr_wf_at(old(self)@.expressions.len() as int),
        ensures
            final(self).wf(),
            final(self)@ == old(self)@.add_expr(expr@).0,
            expr_ref == old(self)@.add_expr(expr@).1,
            final(self)@.has_expr(expr_ref),
    {
        let idx = self.expressions.len();
        let ghost view = expr@;
        self.expressions.push(expr);
        proof {
            lemma_add_expr_wf(old(self)@, view);
            assert(self@.expressions =~= old(self)@.expressions.push(view));
            assert(self@ =~= old(self)@.add_expr(view).0);
        }
        ExprRef(idx)
    }

    /// Adds a statement to the function and gives the reference to it.
    pub fn add_statement(&mut self, statement: Statement) -> (statement_ref: StatementRef)
        requires
            old(self).wf(),
            old(self)@.add_statement(statement@).0.statement_wf_at(
                old(self)@.statements.len() as int,
            ),
        ensures
            final(self).wf(),
            final(self)@ == old(self)@.add_statement(statement@).0,
            statement_ref == old(self)@.add_statement(statement@).1,
            final(self)@.has_statement(statement_ref),
    {
        let idx = self.statements.len();
        let ghost view = statement@;
        self.statements.push(statement);
        proof {
            lemma_add_statement_wf(old(self)@, view);
            assert(self@.statements =~= old(self)@.statements.push(view));
            assert(self@ =~= old(self)@.add_statement(view).0);
        }
        StatementRef(idx)
    }

    /// Checks `function` against the expressions `args` and, where they
    /// fit, adds the expression at `span` that applies it to them.
    fn finish_expr(&mut self, span: Span, function: Function, args: Vec<ExprRef>) -> (result:
        LangResult<ExprRef>)
        requires
            old(self).wf(),
            old(self)@.function_wf(function@),
            forall|k: int| 0 <= k < args@.len() ==> old(self)@.has_expr(#[trigger] args@[k]),
        ensures
            final(self).wf(),
            final(self)@ == old(self)@.finish_expr(span, function@, args@).0,
            result == old(self)@.finish_expr(span, function@, args@).1,
            old(self)@.extended_by(final(self)@),
            result is Ok ==> final(self)@.has_expr(result->Ok_0),
    {
        let ghost f0 = self@;
        let ghost arg_refs = args@;
        proof {
            lemma_steps_extend(f0);
        }
        match Expr::try_new(span, &*self, function, args) {
            Err(error) => Err(error),
            Ok(expr) => {
                proof {
                    let g = f0.add_expr(expr@).0;
                    assert(g.arg_types(arg_refs) =~= f0.arg_types(arg_refs));
                    assert(g.expressions[f0.expressions.len() as int] == expr@);
                }
                Ok(self.add_expr(expr))
            },
        }
    }

    /// Builds the expression that applies `op` to `lhs` and `rhs`, at
    /// `span`: what the syntax tree of `lhs op rhs` at `span` builds.
    fn build_binary_op_ast(
        &mut self,
        span: Span,
        lhs: &Spanned<parser::Expr>,
        op: OperatorToken,
        rhs: &Spanned<parser::Expr>,
    ) -> (result: LangResult<ExprRef>)
        requires
            old(self).wf(),
        ensures
            final(self).wf(),
            final(self)@ == old(self)@.build_expr(
                UserFunctionView::desugared_value(span, *lhs, op, *rhs),
            ).0,
            result == old(self)@.build_expr(
                UserFunctionView::desugared_value(span, *lhs, op, *rhs),
            ).1,
            old(self)@.extended_by(final(self)@),
            result is Ok ==> final(self)@.has_expr(result->Ok_0),
        decreases UserFunctionView::desugared_value(span, *lhs, op, *rhs), 0int,
    {
        let ghost f0 = self@;
        if op.is_binary_int_op() {
            match self.build_expression_ast(lhs) {
                Err(error) => Err(error),
                Ok(lhs_ref) => {
                    let ghost f1 = self@;
                    match self.build_expression_ast(rhs) {
                        Err(error) => {
                            proof {
                                lemma_extended_by_trans(f0, f1, self@);
                            }
                            Err(error)
                        },
                        Ok(rhs_ref) => {
                            let ghost f2 = self@;
                            proof {
                                lemma_steps_extend(f2);
                                lemma_extended_by_trans(f0, f1, f2);
                            }
                            let function = match Function::binary_int_op(self, span, op) {
                                Ok(function) => function,
                                Err(error) => {
                                    return Err(error);
                                },
                            };
                            let ghost f3 = self@;
                            let mut args: Vec<ExprRef> = Vec::new();
                            args.push(lhs_ref);
                            args.push(rhs_ref);
                            proof {
                                lemma_extended_by_trans(f0, f2, f3);
                                assert(args@ =~= seq![lhs_ref, rhs_ref]);
                            }
                            let result = self.finish_expr(span, function, args);
                            proof {
                                lemma_extended_by_trans(f0, f3, self@);
                            }
                            result
                        },
                    }
                },
            }
        } else {
            proof {
                lemma_extended_by_refl(f0);
            }
            match op {
                OperatorToken::Dot | OperatorToken::DotDot => Err(
                    LangErrorMsg::Unimplemented.with_span(span),
                ),
                _ => Err(LangErrorMsg::InternalError("Invalid binary operator").with_span(span)),
            }
        }
    }

    /// Builds an expression of the syntax tree into the function and gives
    /// the reference to it. The operands are built from left to right, each
    /// before the expression that uses it; a group in round brackets is the
    /// expression inside it. Building stops at the first error: what was
    /// built before it stays in the function.
    pub fn build_expression_ast(&mut self, parser_expr: &Spanned<parser::Expr>) -> (result:
        LangResult<ExprRef>)
        requires
            old(self).wf(),
        ensures
            final(self).wf(),
            final(self)@ == old(self)@.build_expr(*parser_expr).0,
            result == old(self)@.build_expr(*parser_expr).1,
            old(self)@.extended_by(final(self)@),
            result is Ok ==> final(self)@.has_expr(result->Ok_0),
        decreases *parser_expr, 1int,
    {
        let ghost f0 = self@;
        let span = parser_expr.span;
        proof {
            lemma_extended_by_refl(f0);
        }
        match &parser_expr.inner {
            parser::Expr::Int(i) => self.finish_expr(span, Function::Int(*i), Vec::new()),
            parser::Expr::Ident(name) => match Function::get_var(&*self, span, name.clone()) {
                Err(error) => Err(error),
                Ok(function) => self.finish_expr(span, function, Vec::new()),
            },
            parser::Expr::Group { start_token, inner } => match start_token {
                PunctuationToken::LParen => self.build_expression_ast(inner),
                PunctuationToken::LBracket => Err(LangErrorMsg::Unimplemented.with_span(span)),
                _ => Err(LangErrorMsg::InternalError("Invalid group").with_span(span)),
            },
            parser::Expr::List(_) => Err(
                LangErrorMsg::ExpectedGot {
                    expected: "expression",
                    got: "comma-separated list",
                }.with_span(span),
            ),
            parser::Expr::UnaryOp { op, operand } => match op {
                OperatorToken::Minus => match self.build_expression_ast(operand) {
                    Err(error) => Err(error),
                    Ok(arg) => {
                        let ghost f1 = self@;
                        let function = Function::neg_int(self, span);
                        let ghost f2 = self@;
                        let mut args: Vec<ExprRef> = Vec::new();
                        args.push(arg);
                        proof {
                            lemma_steps_extend(f1);
                            lemma_extended_by_trans(f0, f1, f2);
                            assert(args@ =~= seq![arg]);
                        }
                        let result = self.finish_expr(span, function, args);
                        proof {
                            lemma_extended_by_trans(f0, f2, self@);
                        }
                        result
                    },
                },
                OperatorToken::Tag => match self.build_expression_ast(operand) {
                    Err(error) => Err(error),
                    Ok(arg) => {
                        let ghost f1 = self@;
                        let function = Function::int_to_cell_state(self, span);
                        let ghost f2 = self@;
                        let mut args: Vec<ExprRef> = Vec::new();
                        args.push(arg);
                        proof {
                            lemma_steps_extend(f1);
                            lemma_extended_by_trans(f0, f1, f2);
                            assert(args@ =~= seq![arg]);
                        }
                        let result = self.finish_expr(span, function, args);
                        proof {
                            lemma_extended_by_trans(f0, f2, self@);
                        }
                        result
                    },
                },
                _ => Err(LangErrorMsg::InternalError("Invalid unary operator").with_span(span)),
            },
            parser::Expr::BinaryOp { lhs, op, rhs } => self.build_binary_op_ast(
                span,
                lhs,
                *op,
                rhs,
            ),
            parser::Expr::Cmp { exprs, comparisons } => {
                let mut args: Vec<ExprRef> = Vec::new();
                let mut i: usize = 0;
                while i < exprs.len()
                    invariant
                        i <= exprs.len(),
                        self.wf(),
                        f0 == old(self)@,
                        parser_expr.inner == (parser::Expr::Cmp {
                            exprs: *exprs,
                            comparisons: *comparisons,
                        }),
                        self@ == f0.build_exprs(exprs@.take(i as int)).0,
                        f0.build_exprs(exprs@.take(i as int)).1 == Ok::<Seq<ExprRef>, LangError>(
                            args@,
                        ),
                        f0.extended_by(self@),
                        forall|k: int| 0 <= k < args@.len() ==> self@.has_expr(#[trigger] args@[k]),
                    decreases exprs.len() - i,
                {
                    let ghost f1 = self@;
                    let ghost built = args@;
                    proof {
                        assert(exprs@.take(i + 1).drop_last() =~= exprs@.take(i as int));
                        assert(exprs@.take(i + 1).last() == exprs@[i as int]);
                    }
                    match self.build_expression_ast(&exprs[i]) {
                        Err(error) => {
                            proof {
                                lemma_extended_by_trans(f0, f1, self@);
                                lemma_build_exprs_stops(f0, exprs@, i + 1);
                            }
                            return Err(error);
                        },
                        Ok(arg) => {
                            args.push(arg);
                            proof {
                                lemma_extended_by_trans(f0, f1, self@);
                                assert forall|k: int| 0 <= k < args@.len() implies self@.has_expr(
                                    #[trigger] args@[k],
                                ) by {
                                    if k < built.len() {
                                        assert(f1.has_expr(built[k]));
                                    }
                                }
                            }
                        },
                    }
                    i = i + 1;
                }
                proof {
                    assert(exprs@.take(i as int) =~= exprs@);
                }
                let ghost f1 = self@;
                let function = Function::Cmp { comparisons: copy_comparisons(comparisons) };
                let result = self.finish_expr(span, function, args);
                proof {
                    lemma_extended_by_trans(f0, f1, self@);
                }
                result
            },
        }
    }

    /// Builds the exit with the value of `ret_expr` at `span`, once the
    /// keyword was found to fit the kind of the function.
    fn build_exit_ast(&mut self, span: Span, ret_expr: &Spanned<parser::Expr>) -> (result:
        LangResult<StatementRef>)
        requires
            old(self).wf(),
        ensures
            final(self).wf(),
            final(self)@ == old(self)@.build_exit(span, *ret_expr).0,
            result == old(self)@.build_exit(span, *ret_expr).1,
            old(self)@.extended_by(final(self)@),
            result is Ok ==> final(self)@.has_statement(result->Ok_0),
    {
        let ghost f0 = self@;
        match self.build_expression_ast(ret_expr) {
            Err(error) => Err(error),
            Ok(ret) => {
                let ghost f1 = self@;
                match Statement::try_new_return(span, &*self, ret) {
                    Err(error) => Err(error),
                    Ok(statement) => {
                        proof {
                            lemma_steps_extend(f1);
                            let g = f1.add_statement(statement@).0;
                            assert(g.statements[f1.statements.len() as int] == statement@);
                        }
                        let statement_ref = self.add_statement(statement);
                        proof {
                            lemma_extended_by_trans(f0, f1, self@);
                        }
                        Ok(statement_ref)
                    },
                }
            },
        }
    }

    /// Builds a statement of the syntax tree into the function and gives the
    /// reference to it. An assignment with an operator, `x op= e`, is built
    /// as `x = x op e`. A transition function leaves by `become` and a
    /// helper function by `return`: the other keyword is an error. Building
    /// stops at the first error: what was built before it stays in the
    /// function.
    pub fn build_statement_ast(&mut self, parser_statement: &Spanned<parser::Statement>) -> (result:
        LangResult<StatementRef>)
        requires
            old(self).wf(),
        ensures
            final(self).wf(),
            final(self)@ == old(self)@.build_statement(*parser_statement).0,
            result == old(self)@.build_statement(*parser_statement).1,
            old(self)@.extended_by(final(self)@),
            result is Ok ==> final(self)@.has_statement(result->Ok_0),
        decreases *parser_statement,
    {
        let ghost f0 = self@;
        let span = parser_statement.span;
        proof {
            lemma_extended_by_refl(f0);
        }
        match &parser_statement.inner {
            parser::Statement::SetVar { var_expr, assign_op, value_expr } => {
                match &var_expr.inner {
                    parser::Expr::Ident(var_name) => {
                        let value = match assign_op.op() {
                            Some(op) => self.build_binary_op_ast(span, var_expr, op, value_expr),
                            None => self.build_expression_ast(value_expr),
                        };
                        match value {
                            Err(error) => Err(error),
                            Ok(value_ref) => {
                                let ghost f1 = self@;
                                let statement = Statement::new_set_var(
                                    span,
                                    self,
                                    var_name.clone(),
                                    value_ref,
                                );
                                let ghost f2 = self@;
                                proof {
                                    lemma_steps_extend(f1);
                                    lemma_steps_extend(f2);
                                    lemma_extended_by_trans(f0, f1, f2);
                                    let g = f2.add_statement(statement@).0;
                                    assert(g.statements[f2.statements.len() as int]
                                        == statement@);
                                }
                                let statement_ref = self.add_statement(statement);
                                proof {
                                    lemma_extended_by_trans(f0, f2, self@);
                                }
                                Ok(statement_ref)
                            },
                        }
                    },
                    _ => Err(LangErrorMsg::Expected("variable name").with_span(span)),
                }
            },
            parser::Statement::If { cond_expr, if_true, if_false } => {
                match self.build_expression_ast(cond_expr) {
                    Err(error) => Err(error),
                    Ok(cond) => {
                        let ghost f1 = self@;
                        match self.build_statement_block_ast(if_true) {
                            Err(error) => {
                                proof {
                                    lemma_extended_by_trans(f0, f1, self@);
                                }
                                Err(error)
                            },
                            Ok(true_refs) => {
                                let ghost f2 = self@;
                                proof {
                                    lemma_extended_by_trans(f0, f1, f2);
                                }
                                match self.build_statement_block_ast(if_false) {
                                    Err(error) => {
                                        proof {
                                            lemma_extended_by_trans(f0, f2, self@);
                                        }
                                        Err(error)
                                    },
                                    Ok(false_refs) => {
                                        let ghost f3 = self@;
                                        proof {
                                            lemma_extended_by_trans(f0, f2, f3);
                                            lemma_extended_by_trans(f1, f2, f3);
                                            assert(f3.expressions[cond.0 as int]
                                                == f1.expressions[cond.0 as int]);
                                        }
                                        let ghost true_view = true_refs@;
                                        let ghost false_view = false_refs@;
                                        match Statement::try_new_if(
                                            span,
                                            &*self,
                                            cond,
                                            true_refs,
                                            false_refs,
                                        ) {
                                            Err(error) => Err(error),
                                            Ok(statement) => {
                                                proof {
                                                    lemma_steps_extend(f3);
                                                    let g = f3.add_statement(statement@).0;
                                                    assert(g.statements[f3.statements.len() as int]
                                                        == statement@);
                                                    assert forall|k: int|
                                                        0 <= k < true_view.len() implies (
                                                    #[trigger] true_view[k]).0
                                                        < f3.statements.len() by {
                                                        assert(f2.has_statement(true_view[k]));
                                                    }
                                                    assert forall|k: int|
                                                        0 <= k < false_view.len() implies (
                                                    #[trigger] false_view[k]).0
                                                        < f3.statements.len() by {
                                                        assert(f3.has_statement(false_view[k]));
                                                    }
                                                }
                                                let statement_ref = self.add_statement(statement);
                                                proof {
                                                    lemma_extended_by_trans(f0, f3, self@);
                                                }
                                                Ok(statement_ref)
                                            },
                                        }
                                    },
                                }
                            },
                        }
                    },
                }
            },
            parser::Statement::Become(ret_expr) => {
                if self.is_transition_function {
                    self.build_exit_ast(span, ret_expr)
                } else {
                    Err(LangErrorMsg::BecomeInHelperFunction.with_span(span))
                }
            },
            parser::Statement::Return(ret_expr) => {
                if self.is_transition_function {
                    Err(LangErrorMsg::ReturnInTransitionFunction.with_span(span))
                } else {
                    self.build_exit_ast(span, ret_expr)
                }
            },
        }
    }

    /// Builds a block of statements of the syntax tree into the function, in
    /// their order, and gives the references to them in that order. Building
    /// stops at the first error: what was built before it stays in the
    /// function.
    pub fn build_statement_block_ast(&mut self, parser_statements: &parser::StatementBlock) -> (result:
        LangResult<Vec<StatementRef>>)
        requires
            old(self).wf(),
        ensures
            final(self).wf(),
            final(self)@ == old(self)@.build_block(parser_statements@).0,
            match old(self)@.build_block(parser_statements@).1 {
                Ok(refs) => result is Ok && result->Ok_0@ == refs,
                Err(error) => result == Err::<Vec<StatementRef>, LangError>(error),
            },
            old(self)@.extended_by(final(self)@),
            result is Ok ==> forall|k: int|
                0 <= k < result->Ok_0@.len() ==> final(self)@.has_statement(
                    #[trigger] result->Ok_0@[k],
                ),
        decreases *parser_statements,
    {
        let ghost f0 = self@;
        let mut block: Vec<StatementRef> = Vec::new();
        let mut i: usize = 0;
        proof {
            lemma_extended_by_refl(f0);
            assert(parser_statements@.take(0) =~= Seq::empty());
        }
        while i < parser_statements.len()
            invariant
                i <= parser_statements.len(),
                self.wf(),
                f0 == old(self)@,
                self@ == f0.build_block(parser_statements@.take(i as int)).0,
                f0.build_block(parser_statements@.take(i as int)).1 == Ok::<
                    Seq<StatementRef>,
                    LangError,
                >(block@),
                f0.extended_by(self@),
                forall|k: int| 0 <= k < block@.len() ==> self@.has_statement(#[trigger] block@[k]),
            decreases parser_statements.len() - i,
        {
            let ghost f1 = self@;
            let ghost built = block@;
            proof {
                assert(parser_statements@.take(i + 1).drop_last() =~= parser_statements@.take(
                    i as int,
                ));
                assert(parser_statements@.take(i + 1).last() == parser_statements@[i as int]);
            }
            match self.build_statement_ast(&parser_statements[i]) {
                Err(error) => {
                    proof {
                        lemma_extended_by_trans(f0, f1, self@);
                        lemma_build_block_stops(f0, parser_statements@, i + 1);
                    }
                    return Err(error);
                },
                Ok(statement_ref) => {
                    block.push(statement_ref);
                    proof {
                        lemma_extended_by_trans(f0, f1, self@);
                        assert forall|k: int| 0 <= k < block@.len() implies self@.has_statement(
                            #[trigger] block@[k],
                        ) by {
                            if k < built.len() {
                                assert(f1.has_statement(built[k]));
                            }
                        }
                    }
                },
            }
            i = i + 1;
        }
        proof {
            assert(parser_statements@.take(i as int) =~= parser_statements@);
        }
        Ok(block)
    }
}

/// A copy of a chain of comparisons.
fn copy_comparisons(comparisons: &Vec<ComparisonToken>) -> (copy: Vec<ComparisonToken>)
    ensures
        copy@ == comparisons@,
{
    let mut copy: Vec<ComparisonToken> = Vec::new();
    let mut i: usize = 0;
    while i < comparisons.len()
        invariant
            i <= comparisons.len(),
            copy@ == comparisons@.take(i as int),
        decreases comparisons.len() - i,
    {
        copy.push(comparisons[i]);
        i = i + 1;
    }
    proof {
        assert(comparisons@.take(i as int) =~= comparisons@);
    }
    copy
}

} // verus!
