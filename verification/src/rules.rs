//! The typing rules, as functions on the views of the syntax tree.
//!
//! `check_expression` says, for a typing environment and an expression,
//! either the environment and the annotated expression that checking leaves
//! behind, or the diagnostic of the first rule that is broken. Each
//! syntactic form has a function of its own, which leaves every other form
//! as it is.

use crate::ast::{
    BinOp, BlockView, ExprView, ExpressionView, LetType, LocalsView, MemoryLocationView,
    SignatureView, Span, Type, UnaryOp,
};
use crate::diag::{
    spec_duplicate_definition, spec_expected_constant, spec_expected_type, spec_immutable_assign, spec_missing_label,
    spec_missing_type, spec_no_matching_function, spec_type_mismatch, spec_unknown_function,
    spec_unknown_variable, Definition, DiagnosticView,
};
use crate::names::lookup_scopes;
use vstd::prelude::*;

verus! {

/// A global variable as the type checker knows it.
#[derive(Clone, Copy, Debug, PartialEq, Eq, Structural)]
pub struct Var {
    pub span: Span,
    pub type_: Type,
    pub mutable: bool,
}

impl View for Var {
    type V = Var;

    open spec fn view(&self) -> Var {
        *self
    }
}

/// What a function stands for in the table of functions.
pub ghost struct FunctionTypeView {
    pub span: Span,
    pub params: Seq<Type>,
    pub type_: Option<Type>,
}

/// What the type checker knows while it walks a function body.
#[verifier::ext_equal]
pub ghost struct Env {
    pub globals: Map<Seq<char>, Var>,
    pub functions: Map<Seq<char>, FunctionTypeView>,
    pub intrinsics: Map<Seq<char>, Seq<SignatureView>>,
    pub locals: LocalsView,
    /// The open scopes, outermost first.
    pub scopes: Seq<Map<Seq<char>, usize>>,
    /// The labels of the enclosing loops and labelled blocks, outermost first.
    pub labels: Seq<Seq<char>>,
    pub return_type: Option<Type>,
}

pub type Checked = Result<(Env, ExpressionView), DiagnosticView>;

impl Env {
    /// At least one scope is open, and every name in scope stands for a
    /// local that exists.
    pub open spec fn wf(self) -> bool {
        &&& self.scopes.len() > 0
        &&& forall|i: int, name: Seq<char>|
            0 <= i < self.scopes.len() && #[trigger] self.scopes[i].contains_key(name)
                ==> self.scopes[i][name] < self.locals.locals.len()
    }

    /// `self` can be what checking an expression leaves of `before`: the
    /// same tables, labels and number of open scopes, and the same locals
    /// with more of them behind.
    pub open spec fn follows(self, before: Env) -> bool {
        &&& self.wf()
        &&& self.globals == before.globals
        &&& self.functions == before.functions
        &&& self.intrinsics == before.intrinsics
        &&& self.return_type == before.return_type
        &&& self.labels == before.labels
        &&& self.scopes.len() == before.scopes.len()
        &&& self.locals.params == before.locals.params
        &&& before.locals.locals.len() <= self.locals.locals.len()
        &&& forall|i: int|
            0 <= i < before.locals.locals.len() ==> self.locals.locals[i]
                == #[trigger] before.locals.locals[i]
    }

    /// The id of the local that `name` stands for: that of the innermost
    /// scope that declares it.
    pub open spec fn resolve(self, name: Seq<char>) -> Option<usize> {
        lookup_scopes(self.scopes, self.scopes.len(), name)
    }

    /// With one more scope, which declares nothing yet.
    pub open spec fn push_scope(self) -> Env {
        Env { scopes: self.scopes.push(Map::empty()), ..self }
    }

    /// Without the innermost scope.
    pub open spec fn pop_scope(self) -> Env {
        Env {
            scopes: if self.scopes.len() > 0 {
                self.scopes.drop_last()
            } else {
                self.scopes
            },
            ..self
        }
    }

    /// Inside a loop or labelled block of the given label.
    pub open spec fn push_label(self, label: Seq<char>) -> Env {
        Env { labels: self.labels.push(label), ..self }
    }

    /// Outside the innermost loop or labelled block.
    pub open spec fn pop_label(self) -> Env {
        Env {
            labels: if self.labels.len() > 0 {
                self.labels.drop_last()
            } else {
                self.labels
            },
            ..self
        }
    }

    /// The id of the local that the innermost scope itself declares under
    /// `name`.
    pub open spec fn declared_here(self, name: Seq<char>) -> Option<usize> {
        if self.scopes.last().contains_key(name) {
            Some(self.scopes.last()[name])
        } else {
            None
        }
    }

    /// The id of the local that the next `let` binds.
    pub open spec fn let_id(self) -> usize {
        self.locals.locals.len() as usize
    }

    /// The environment after a `let` of `name` in the innermost scope: the
    /// name stands for a new local.
    pub open spec fn declare(self, span: Span, name: Seq<char>, type_: Type, store: bool) -> Env {
        Env {
            locals: self.locals.add_local(span, name, type_, store),
            scopes: self.scopes.update(
                self.scopes.len() - 1,
                self.scopes.last().insert(name, self.let_id()),
            ),
            ..self
        }
    }

    /// What a `let` of `name` at `span` does: it binds the name to a new
    /// local, unless the innermost scope declares the name already; then
    /// the diagnostic names both places.
    pub open spec fn bind_let(self, span: Span, name: Seq<char>, type_: Type, store: bool)
        -> Result<(Env, usize), DiagnosticView> {
        match self.declared_here(name) {
            Some(id) => Err(
                spec_duplicate_definition(
                    Definition::Variable,
                    span,
                    self.locals.locals[id as int].span,
                ),
            ),
            None => Ok((self.declare(span, name, type_, store), self.let_id())),
        }
    }

    /// The signatures that a call of `name` chooses from: that of the
    /// script's function of that name, else those of the built-in.
    pub open spec fn candidates(self, name: Seq<char>) -> Option<Seq<SignatureView>> {
        if self.functions.contains_key(name) {
            Some(
                seq![
                    SignatureView {
                        params: self.functions[name].params,
                        result: self.functions[name].type_,
                    },
                ],
            )
        } else if self.intrinsics.contains_key(name) {
            Some(self.intrinsics[name])
        } else {
            None
        }
    }

    /// Type and defining span of the variable that an assignment to `name`
    /// writes, with the local's id if it is a local.
    pub open spec fn assign_target(self, name: Seq<char>, span: Span) -> Result<
        (Option<usize>, Type, Span),
        DiagnosticView,
    > {
        match self.resolve(name) {
            Some(id) => {
                let local = self.locals.locals[id as int];
                if local.index is None {
                    Err(spec_immutable_assign(span))
                } else {
                    Ok((Some(id), local.type_, local.span))
                }
            },
            None => if self.globals.contains_key(name) {
                if !self.globals[name].mutable {
                    Err(spec_immutable_assign(span))
                } else {
                    Ok((None, self.globals[name].type_, self.globals[name].span))
                }
            } else {
                Err(spec_unknown_variable(span))
            },
        }
    }

    /// Type and defining span of the local that a tee to `name` writes.
    pub open spec fn tee_target(self, name: Seq<char>, span: Span) -> Result<
        (usize, Type, Span),
        DiagnosticView,
    > {
        match self.resolve(name) {
            Some(id) => {
                let local = self.locals.locals[id as int];
                if local.index is None {
                    Err(spec_immutable_assign(span))
                } else {
                    Ok((id, local.type_, local.span))
                }
            },
            None => Err(spec_unknown_variable(span)),
        }
    }
}

/// The type of a literal; `None` for anything else.
pub open spec fn constant_type(e: ExprView) -> Option<Type> {
    match e {
        ExprView::I32Const(_) => Some(Type::I32),
        ExprView::I64Const(_) => Some(Type::I64),
        ExprView::F32Const(_) => Some(Type::F32),
        ExprView::F64Const(_) => Some(Type::F64),
        _ => None,
    }
}

/// Checks an expression that has to be a literal.
pub open spec fn check_const(e: ExpressionView) -> Result<ExpressionView, DiagnosticView> {
    match constant_type(e.expr) {
        Some(t) => Ok(ExpressionView { type_: Some(t), ..e }),
        None => Err(spec_expected_constant(e.span)),
    }
}

/// The operations of every numeric type, which have the type of their
/// operands.
pub open spec fn is_arithmetic(op: BinOp) -> bool {
    op == BinOp::Add || op == BinOp::Sub || op == BinOp::Mul || op == BinOp::Div
}

/// The comparisons of every numeric type.
pub open spec fn is_comparison(op: BinOp) -> bool {
    op == BinOp::Eq || op == BinOp::Ne || op == BinOp::Lt || op == BinOp::Le || op == BinOp::Gt
        || op == BinOp::Ge
}

/// The comparisons of integers taken as unsigned.
pub open spec fn is_unsigned_comparison(op: BinOp) -> bool {
    op == BinOp::LtU || op == BinOp::LeU || op == BinOp::GtU || op == BinOp::GeU
}

/// The type of a unary operation on an operand of type `t` at `value_span`.
pub open spec fn unary_result(op: UnaryOp, t: Option<Type>, span: Span, value_span: Span)
    -> Result<Option<Type>, DiagnosticView> {
    match t {
        None => Err(spec_expected_type(value_span)),
        Some(ty) => match op {
            UnaryOp::Negate => Ok(Some(ty)),
            UnaryOp::Not => if ty.is_integer() {
                Ok(Some(Type::I32))
            } else {
                Err(spec_type_mismatch(Some(Type::I32), span, t, value_span))
            },
        },
    }
}

/// The type of a binary operation on operands of the given types.
pub open spec fn binary_result(
    op: BinOp,
    left: Option<Type>,
    left_span: Span,
    right: Option<Type>,
    right_span: Span,
) -> Result<Option<Type>, DiagnosticView> {
    match left {
        None => Err(spec_expected_type(left_span)),
        Some(t) => if left != right {
            Err(spec_type_mismatch(Some(t), left_span, right, right_span))
        } else if is_arithmetic(op) {
            Ok(left)
        } else if is_comparison(op) {
            Ok(Some(Type::I32))
        } else if !t.is_integer() {
            Err(spec_type_mismatch(Some(Type::I32), left_span, left, left_span))
        } else if is_unsigned_comparison(op) {
            Ok(Some(Type::I32))
        } else {
            Ok(left)
        },
    }
}

/// What is wrong with a memory location whose address and offset have the
/// given types: both have to be of the address type.
pub open spec fn mem_location_result(
    left: Option<Type>,
    left_span: Span,
    right: Option<Type>,
    right_span: Span,
) -> Result<(), DiagnosticView> {
    if left != Some(Type::I32) {
        Err(spec_type_mismatch(Some(Type::I32), left_span, left, left_span))
    } else if right != Some(Type::I32) {
        Err(spec_type_mismatch(Some(Type::I32), right_span, right, right_span))
    } else {
        Ok(())
    }
}

/// The result of the first signature from index `i` on that takes exactly
/// `args`.
pub open spec fn find_signature(candidates: Seq<SignatureView>, args: Seq<Type>, i: nat)
    -> Option<Option<Type>>
    decreases candidates.len() - i,
{
    if i >= candidates.len() {
        None
    } else if candidates[i as int].params == args {
        Some(candidates[i as int].result)
    } else {
        find_signature(candidates, args, i + 1)
    }
}

/// The type of a call of `name` with arguments of the types `args`.
pub open spec fn call_result(env: Env, name: Seq<char>, args: Seq<Type>, span: Span) -> Result<
    Option<Type>,
    DiagnosticView,
> {
    match env.candidates(name) {
        None => Err(spec_unknown_function(name, span)),
        Some(candidates) => match find_signature(candidates, args, 0) {
            Some(result) => Ok(result),
            None => Err(spec_no_matching_function(name, candidates, span)),
        },
    }
}

/// The types of checked arguments.
pub open spec fn argument_types(args: Seq<ExpressionView>) -> Seq<Type> {
    Seq::new(args.len(), |i: int| args[i].type_.unwrap())
}

/// The type of a select whose condition and branches have the given types.
pub open spec fn select_result(
    condition: Option<Type>,
    condition_span: Span,
    if_true: Option<Type>,
    if_true_span: Span,
    if_false: Option<Type>,
    if_false_span: Span,
) -> Result<Option<Type>, DiagnosticView> {
    if condition != Some(Type::I32) {
        Err(spec_type_mismatch(Some(Type::I32), condition_span, condition, condition_span))
    } else if if_true is None {
        Err(spec_expected_type(if_true_span))
    } else if if_true != if_false {
        Err(spec_type_mismatch(if_true, if_true_span, if_false, if_false_span))
    } else {
        Ok(if_true)
    }
}

/// The declared or inferred type of a `let`; `value` holds type and span
/// of its checked value, if it has one.
pub open spec fn let_type_result(
    declared: Option<Type>,
    value: Option<(Option<Type>, Span)>,
    span: Span,
) -> Result<Type, DiagnosticView> {
    match value {
        Some(v) => match declared {
            Some(t) => if Some(t) != v.0 {
                Err(spec_type_mismatch(Some(t), span, v.0, v.1))
            } else {
                Ok(t)
            },
            None => match v.0 {
                None => Err(spec_expected_type(v.1)),
                Some(t) => Ok(t),
            },
        },
        None => match declared {
            Some(t) => Ok(t),
            None => Err(spec_missing_type(span)),
        },
    }
}

/// The node `e` with its type and its checked parts.
pub open spec fn typed(e: ExpressionView, type_: Option<Type>, expr: ExprView) -> ExpressionView {
    ExpressionView { type_, expr, span: e.span }
}

/// Checks the first `n` expressions of `s` in order. With `need_value`,
/// each of them has to have a value.
pub open spec fn check_sequence(env: Env, s: Seq<ExpressionView>, n: nat, need_value: bool)
    -> Result<(Env, Seq<ExpressionView>), DiagnosticView>
    decreases s, n,
{
    if n == 0 || n > s.len() {
        Ok((env, Seq::empty()))
    } else {
        match check_sequence(env, s, (n - 1) as nat, need_value) {
            Err(d) => Err(d),
            Ok((env1, done)) => match check_expression(env1, s[n - 1]) {
                Err(d) => Err(d),
                Ok((env2, e)) => if need_value && e.type_ is None {
                    Err(spec_expected_type(e.span))
                } else {
                    Ok((env2, done.push(e)))
                },
            },
        }
    }
}

/// A variable read has the type of the innermost local of that name, else
/// of the global of that name.
pub open spec fn check_variable(env: Env, e: ExpressionView) -> Checked {
    match e.expr {
        ExprView::Variable { name, local_id } => match env.resolve(name) {
            Some(id) => Ok(
                (
                    env,
                    typed(
                        e,
                        Some(env.locals.locals[id as int].type_),
                        ExprView::Variable { name, local_id: Some(id) },
                    ),
                ),
            ),
            None => if env.globals.contains_key(name) {
                Ok((env, typed(e, Some(env.globals[name].type_), e.expr)))
            } else {
                Err(spec_unknown_variable(e.span))
            },
        },
        _ => Ok((env, e)),
    }
}

/// A `let` checks its value, takes the declared type or that of the value,
/// and binds the name in the innermost scope, which must not declare the
/// name already. It has no value itself.
pub open spec fn check_let(env: Env, e: ExpressionView) -> Checked
    decreases e, 0nat,
{
    match e.expr {
        ExprView::Let { name, type_, value, let_type, local_id } => {
            let checked_value: Result<(Env, Option<ExpressionView>), DiagnosticView> = match value {
                None => Ok((env, None)),
                Some(v) => match check_expression(env, *v) {
                    Err(d) => Err(d),
                    Ok((env1, v1)) => Ok((env1, Some(v1))),
                },
            };
            match checked_value {
                Err(d) => Err(d),
                Ok((env1, value1)) => match let_type_result(
                    type_,
                    match value1 {
                        Some(v1) => Some((v1.type_, v1.span)),
                        None => None,
                    },
                    e.span,
                ) {
                    Err(d) => Err(d),
                    Ok(t) => match env1.bind_let(e.span, name, t, let_type != LetType::Inline) {
                        Err(d) => Err(d),
                        Ok((env2, id)) => Ok(
                            (
                                env2,
                                typed(
                                    e,
                                    None,
                                    ExprView::Let {
                                        name,
                                        type_: Some(t),
                                        value: match value1 {
                                            Some(v1) => Some(Box::new(v1)),
                                            None => None,
                                        },
                                        let_type,
                                        local_id: Some(id),
                                    },
                                ),
                            ),
                        ),
                    },
                },
            }
        },
        _ => Ok((env, e)),
    }
}

/// An assignment writes a value of the variable's type to a stored local
/// or a mutable global. It has no value itself.
pub open spec fn check_assign(env: Env, e: ExpressionView) -> Checked
    decreases e, 0nat,
{
    match e.expr {
        ExprView::Assign { name, value, local_id } => match check_expression(env, *value) {
            Err(d) => Err(d),
            Ok((env1, v1)) => match env1.assign_target(name, e.span) {
                Err(d) => Err(d),
                Ok((id, t, target_span)) => if v1.type_ != Some(t) {
                    Err(spec_type_mismatch(Some(t), target_span, v1.type_, v1.span))
                } else {
                    Ok(
                        (
                            env1,
                            typed(
                                e,
                                None,
                                ExprView::Assign {
                                    name,
                                    value: Box::new(v1),
                                    local_id: if id is Some {
                                        id
                                    } else {
                                        local_id
                                    },
                                },
                            ),
                        ),
                    )
                },
            },
        },
        _ => Ok((env, e)),
    }
}

/// A tee writes a value of the local's type to a stored local and has that
/// value.
pub open spec fn check_tee(env: Env, e: ExpressionView) -> Checked
    decreases e, 0nat,
{
    match e.expr {
        ExprView::LocalTee { name, value, local_id } => match check_expression(env, *value) {
            Err(d) => Err(d),
            Ok((env1, v1)) => match env1.tee_target(name, e.span) {
                Err(d) => Err(d),
                Ok((id, t, target_span)) => if v1.type_ != Some(t) {
                    Err(spec_type_mismatch(Some(t), target_span, v1.type_, v1.span))
                } else {
                    Ok(
                        (
                            env1,
                            typed(
                                e,
                                Some(t),
                                ExprView::LocalTee { name, value: Box::new(v1), local_id: Some(id) },
                            ),
                        ),
                    )
                },
            },
        },
        _ => Ok((env, e)),
    }
}

/// Checks the address and the offset of a memory location.
pub open spec fn check_mem_location(env: Env, m: MemoryLocationView) -> Result<
    (Env, MemoryLocationView),
    DiagnosticView,
>
    decreases m, 0nat,
{
    match check_expression(env, *m.left) {
        Err(d) => Err(d),
        Ok((env1, left)) => match check_const(*m.right) {
            Err(d) => Err(d),
            Ok(right) => match mem_location_result(left.type_, left.span, right.type_, right.span) {
                Err(d) => Err(d),
                Ok(_) => Ok(
                    (env1, MemoryLocationView { left: Box::new(left), right: Box::new(right), ..m }),
                ),
            },
        },
    }
}

/// A read from memory has the address type.
pub open spec fn check_peek(env: Env, e: ExpressionView) -> Checked
    decreases e, 0nat,
{
    match e.expr {
        ExprView::Peek(m) => match check_mem_location(env, m) {
            Err(d) => Err(d),
            Ok((env1, m1)) => Ok((env1, typed(e, Some(Type::I32), ExprView::Peek(m1)))),
        },
        _ => Ok((env, e)),
    }
}

/// A write to memory stores a value of the address type and has no value.
pub open spec fn check_poke(env: Env, e: ExpressionView) -> Checked
    decreases e, 0nat,
{
    match e.expr {
        ExprView::Poke { mem_location, value } => match check_mem_location(env, mem_location) {
            Err(d) => Err(d),
            Ok((env1, m1)) => match check_expression(env1, *value) {
                Err(d) => Err(d),
                Ok((env2, v1)) => if v1.type_ != Some(Type::I32) {
                    Err(spec_type_mismatch(Some(Type::I32), e.span, v1.type_, v1.span))
                } else {
                    Ok(
                        (
                            env2,
                            typed(e, None, ExprView::Poke { mem_location: m1, value: Box::new(v1) }),
                        ),
                    )
                },
            },
        },
        _ => Ok((env, e)),
    }
}

/// A unary operation checks its operand, which needs a value.
pub open spec fn check_unary(env: Env, e: ExpressionView) -> Checked
    decreases e, 0nat,
{
    match e.expr {
        ExprView::UnaryOp { op, value } => match check_expression(env, *value) {
            Err(d) => Err(d),
            Ok((env1, v1)) => match unary_result(op, v1.type_, e.span, v1.span) {
                Err(d) => Err(d),
                Ok(t) => Ok((env1, typed(e, t, ExprView::UnaryOp { op, value: Box::new(v1) }))),
            },
        },
        _ => Ok((env, e)),
    }
}

/// A binary operation checks both operands, which need values of one
/// type.
pub open spec fn check_binary(env: Env, e: ExpressionView) -> Checked
    decreases e, 0nat,
{
    match e.expr {
        ExprView::BinOp { op, left, right } => match check_expression(env, *left) {
            Err(d) => Err(d),
            Ok((env1, l1)) => match check_expression(env1, *right) {
                Err(d) => Err(d),
                Ok((env2, r1)) => match binary_result(op, l1.type_, l1.span, r1.type_, r1.span) {
                    Err(d) => Err(d),
                    Ok(t) => Ok(
                        (
                            env2,
                            typed(
                                e,
                                t,
                                ExprView::BinOp { op, left: Box::new(l1), right: Box::new(r1) },
                            ),
                        ),
                    ),
                },
            },
        },
        _ => Ok((env, e)),
    }
}

/// A block checks its statements and its trailing expression in a scope of
/// its own; it has the type of the trailing expression, or none.
pub open spec fn check_block(env: Env, e: ExpressionView) -> Checked
    decreases e, 0nat,
{
    match e.expr {
        ExprView::Block(b) => match check_sequence(
            env.push_scope(),
            b.statements,
            b.statements.len(),
            false,
        ) {
            Err(d) => Err(d),
            Ok((env1, statements)) => match b.final_expression {
                None => Ok(
                    (
                        env1.pop_scope(),
                        typed(
                            e,
                            None,
                            ExprView::Block(BlockView { statements, final_expression: None }),
                        ),
                    ),
                ),
                Some(f) => match check_expression(env1, *f) {
                    Err(d) => Err(d),
                    Ok((env2, f1)) => Ok(
                        (
                            env2.pop_scope(),
                            typed(
                                e,
                                f1.type_,
                                ExprView::Block(
                                    BlockView { statements, final_expression: Some(Box::new(f1)) },
                                ),
                            ),
                        ),
                    ),
                },
            },
        },
        _ => Ok((env, e)),
    }
}

/// A loop checks its body with its label as a branch target and has the
/// body's type.
pub open spec fn check_loop(env: Env, e: ExpressionView) -> Checked
    decreases e, 0nat,
{
    match e.expr {
        ExprView::Loop { label, block } => match check_expression(env.push_label(label), *block) {
            Err(d) => Err(d),
            Ok((env1, b1)) => Ok(
                (
                    env1.pop_label(),
                    typed(e, b1.type_, ExprView::Loop { label, block: Box::new(b1) }),
                ),
            ),
        },
        _ => Ok((env, e)),
    }
}

/// A labelled block checks its body with its label as a branch target; the
/// body must have no value.
pub open spec fn check_label_block(env: Env, e: ExpressionView) -> Checked
    decreases e, 0nat,
{
    match e.expr {
        ExprView::LabelBlock { label, block } => match check_expression(
            env.push_label(label),
            *block,
        ) {
            Err(d) => Err(d),
            Ok((env1, b1)) => if b1.type_ is Some {
                Err(spec_type_mismatch(None, e.span, b1.type_, b1.span))
            } else {
                Ok(
                    (
                        env1.pop_label(),
                        typed(e, None, ExprView::LabelBlock { label, block: Box::new(b1) }),
                    ),
                )
            },
        },
        _ => Ok((env, e)),
    }
}

/// A branch needs an enclosing loop or labelled block of its label.
pub open spec fn check_branch(env: Env, e: ExpressionView) -> Checked {
    match e.expr {
        ExprView::Branch(label) => if env.labels.contains(label) {
            Ok((env, typed(e, None, e.expr)))
        } else {
            Err(spec_missing_label(e.span))
        },
        _ => Ok((env, e)),
    }
}

/// A conditional branch needs a condition of the address type and an
/// enclosing loop or labelled block of its label.
pub open spec fn check_branch_if(env: Env, e: ExpressionView) -> Checked
    decreases e, 0nat,
{
    match e.expr {
        ExprView::BranchIf { condition, label } => match check_expression(env, *condition) {
            Err(d) => Err(d),
            Ok((env1, c1)) => if c1.type_ != Some(Type::I32) {
                Err(spec_type_mismatch(Some(Type::I32), e.span, c1.type_, c1.span))
            } else if !env1.labels.contains(label) {
                Err(spec_missing_label(e.span))
            } else {
                Ok((env1, typed(e, None, ExprView::BranchIf { condition: Box::new(c1), label })))
            },
        },
        _ => Ok((env, e)),
    }
}

/// A cast of a value has the type that it names.
pub open spec fn check_cast(env: Env, e: ExpressionView) -> Checked
    decreases e, 0nat,
{
    match e.expr {
        ExprView::Cast { value, type_ } => match check_expression(env, *value) {
            Err(d) => Err(d),
            Ok((env1, v1)) => if v1.type_ is None {
                Err(spec_expected_type(e.span))
            } else {
                Ok((env1, typed(e, Some(type_), ExprView::Cast { value: Box::new(v1), type_ })))
            },
        },
        _ => Ok((env, e)),
    }
}

/// A call checks its arguments, which all need a value, and has the result
/// type of the signature that takes exactly their types.
pub open spec fn check_call(env: Env, e: ExpressionView) -> Checked
    decreases e, 0nat,
{
    match e.expr {
        ExprView::FuncCall { name, params } => match check_sequence(
            env,
            params,
            params.len(),
            true,
        ) {
            Err(d) => Err(d),
            Ok((env1, params1)) => match call_result(env1, name, argument_types(params1), e.span) {
                Err(d) => Err(d),
                Ok(t) => Ok((env1, typed(e, t, ExprView::FuncCall { name, params: params1 }))),
            },
        },
        _ => Ok((env, e)),
    }
}

/// A select checks its condition and both branches; the condition is of
/// the address type and the branches have values of one type.
pub open spec fn check_select(env: Env, e: ExpressionView) -> Checked
    decreases e, 0nat,
{
    match e.expr {
        ExprView::Select { condition, if_true, if_false } => match check_expression(
            env,
            *condition,
        ) {
            Err(d) => Err(d),
            Ok((env1, c1)) => match check_expression(env1, *if_true) {
                Err(d) => Err(d),
                Ok((env2, t1)) => match check_expression(env2, *if_false) {
                    Err(d) => Err(d),
                    Ok((env3, f1)) => match select_result(
                        c1.type_,
                        c1.span,
                        t1.type_,
                        t1.span,
                        f1.type_,
                        f1.span,
                    ) {
                        Err(d) => Err(d),
                        Ok(t) => Ok(
                            (
                                env3,
                                typed(
                                    e,
                                    t,
                                    ExprView::Select {
                                        condition: Box::new(c1),
                                        if_true: Box::new(t1),
                                        if_false: Box::new(f1),
                                    },
                                ),
                            ),
                        ),
                    },
                },
            },
        },
        _ => Ok((env, e)),
    }
}

/// An `if` with an `else` needs branches of one type and has that type;
/// without an `else` it has no value.
pub open spec fn check_if(env: Env, e: ExpressionView) -> Checked
    decreases e, 0nat,
{
    match e.expr {
        ExprView::If { condition, if_true, if_false } => match check_expression(env, *condition) {
            Err(d) => Err(d),
            Ok((env1, c1)) => match check_expression(env1, *if_true) {
                Err(d) => Err(d),
                Ok((env2, t1)) => match if_false {
                    None => Ok(
                        (
                            env2,
                            typed(
                                e,
                                None,
                                ExprView::If {
                                    condition: Box::new(c1),
                                    if_true: Box::new(t1),
                                    if_false: None,
                                },
                            ),
                        ),
                    ),
                    Some(f) => match check_expression(env2, *f) {
                        Err(d) => Err(d),
                        Ok((env3, f1)) => if t1.type_ != f1.type_ {
                            Err(spec_type_mismatch(t1.type_, t1.span, f1.type_, f1.span))
                        } else {
                            Ok(
                                (
                                    env3,
                                    typed(
                                        e,
                                        t1.type_,
                                        ExprView::If {
                                            condition: Box::new(c1),
                                            if_true: Box::new(t1),
                                            if_false: Some(Box::new(f1)),
                                        },
                                    ),
                                ),
                            )
                        },
                    },
                },
            },
        },
        _ => Ok((env, e)),
    }
}

/// A `return` gives back a value of the function's return type, or nothing
/// where the function returns nothing.
pub open spec fn check_return(env: Env, e: ExpressionView) -> Checked
    decreases e, 0nat,
{
    match e.expr {
        ExprView::Return { value } => match value {
            None => if env.return_type is Some {
                Err(spec_type_mismatch(env.return_type, e.span, None, e.span))
            } else {
                Ok((env, typed(e, None, e.expr)))
            },
            Some(v) => match check_expression(env, *v) {
                Err(d) => Err(d),
                Ok((env1, v1)) => if v1.type_ != env1.return_type {
                    Err(spec_type_mismatch(env1.return_type, e.span, v1.type_, v1.span))
                } else {
                    Ok((env1, typed(e, None, ExprView::Return { value: Some(Box::new(v1)) })))
                },
            },
        },
        _ => Ok((env, e)),
    }
}

/// `first` checks both expressions and has the type of the first.
pub open spec fn check_first(env: Env, e: ExpressionView) -> Checked
    decreases e, 0nat,
{
    match e.expr {
        ExprView::First { value, drop } => match check_expression(env, *value) {
            Err(d) => Err(d),
            Ok((env1, v1)) => match check_expression(env1, *drop) {
                Err(d) => Err(d),
                Ok((env2, d1)) => Ok(
                    (
                        env2,
                        typed(
                            e,
                            v1.type_,
                            ExprView::First { value: Box::new(v1), drop: Box::new(d1) },
                        ),
                    ),
                ),
            },
        },
        _ => Ok((env, e)),
    }
}

/// Checks an expression: the environment and the annotated expression
/// afterwards, or the first diagnostic. There is no rule for the error
/// placeholder of the parser: it is left as it is, and a tree that holds
/// one is not meant to be checked.
pub open spec fn check_expression(env: Env, e: ExpressionView) -> Checked
    decreases e, 1nat,
{
    match e.expr {
        ExprView::I32Const(_) => Ok((env, typed(e, Some(Type::I32), e.expr))),
        ExprView::I64Const(_) => Ok((env, typed(e, Some(Type::I64), e.expr))),
        ExprView::F32Const(_) => Ok((env, typed(e, Some(Type::F32), e.expr))),
        ExprView::F64Const(_) => Ok((env, typed(e, Some(Type::F64), e.expr))),
        ExprView::Variable { .. } => check_variable(env, e),
        ExprView::Let { .. } => check_let(env, e),
        ExprView::Assign { .. } => check_assign(env, e),
        ExprView::LocalTee { .. } => check_tee(env, e),
        ExprView::Peek(_) => check_peek(env, e),
        ExprView::Poke { .. } => check_poke(env, e),
        ExprView::UnaryOp { .. } => check_unary(env, e),
        ExprView::BinOp { .. } => check_binary(env, e),
        ExprView::Block(_) => check_block(env, e),
        ExprView::Loop { .. } => check_loop(env, e),
        ExprView::LabelBlock { .. } => check_label_block(env, e),
        ExprView::Branch(_) => check_branch(env, e),
        ExprView::BranchIf { .. } => check_branch_if(env, e),
        ExprView::Cast { .. } => check_cast(env, e),
        ExprView::FuncCall { .. } => check_call(env, e),
        ExprView::Select { .. } => check_select(env, e),
        ExprView::If { .. } => check_if(env, e),
        ExprView::Return { .. } => check_return(env, e),
        ExprView::First { .. } => check_first(env, e),
        ExprView::Error => Ok((env, e)),
    }
}

/// Once an expression of a sequence fails, the whole sequence fails with
/// its diagnostic.
pub proof fn lemma_sequence_error(
    env: Env,
    s: Seq<ExpressionView>,
    i: nat,
    n: nat,
    need_value: bool,
)
    requires
        i <= n <= s.len(),
        check_sequence(env, s, i, need_value) is Err,
    ensures
        check_sequence(env, s, n, need_value) == check_sequence(env, s, i, need_value),
    decreases n - i,
{
    if i < n {
        lemma_sequence_error(env, s, i, (n - 1) as nat, need_value);
    }
}

} // verus!
