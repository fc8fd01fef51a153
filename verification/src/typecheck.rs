//! The type checker: it resolves names, checks and annotates every
//! expression in place, validates branch targets, resolves calls and gives
//! the stored locals of each function their slots.

use crate::ast::{
    expression_views, lemma_view_parts, same_type, signature_views, BinOp, Block, Expr,
    Expression, ExpressionView, LetType, Locals, MemoryLocation, Signature, SignatureView, Span,
    Type, UnaryOp,
};
use crate::annotation::{
    annotated, lemma_annotated_itself, lemma_check_annotates, lemma_const_annotated,
    location_annotated,
};
use crate::diag::{
    expected_constant, expected_type, immutable_assign, missing_label, missing_type,
    no_matching_function, report_duplicate_definition, type_mismatch, unknown_function,
    unknown_variable, Definition, Diagnostic, DiagnosticView,
};
use crate::names::{LocalVars, NameMap};
use crate::rules::{
    argument_types, binary_result, call_result, check_assign, check_binary, check_block,
    check_branch, check_branch_if, check_call, check_cast, check_const, check_expression,
    check_first, check_if, check_label_block, check_let, check_loop, check_mem_location,
    check_peek, check_poke, check_return, check_select, check_sequence, check_tee, check_unary,
    check_variable, find_signature, lemma_sequence_error, let_type_result, mem_location_result,
    select_result, unary_result, Checked, Env, FunctionTypeView, Var,
};
use vstd::prelude::*;

verus! {

/// A function as the type checker knows it.
#[derive(Clone, Debug, PartialEq)]
pub struct FunctionType {
    pub span: Span,
    pub params: Vec<Type>,
    pub type_: Option<Type>,
}

impl View for FunctionType {
    type V = FunctionTypeView;

    open spec fn view(&self) -> FunctionTypeView {
        FunctionTypeView { span: self.span, params: self.params@, type_: self.type_ }
    }
}

/// The signatures of one built-in.
#[derive(Clone, Debug, PartialEq)]
pub struct Overloads(pub Vec<Signature>);

impl View for Overloads {
    type V = Seq<SignatureView>;

    open spec fn view(&self) -> Seq<SignatureView> {
        signature_views(self.0@)
    }
}

/// The built-in operations: each name with its signatures.
pub struct Intrinsics {
    pub table: NameMap<Overloads>,
}

impl View for Intrinsics {
    type V = Map<Seq<char>, Seq<SignatureView>>;

    open spec fn view(&self) -> Map<Seq<char>, Seq<SignatureView>> {
        self.table@
    }
}

impl Intrinsics {
    /// No built-ins at all.
    pub fn new() -> (r: Intrinsics)
        ensures
            r@ == Map::<Seq<char>, Seq<SignatureView>>::empty(),
    {
        Intrinsics { table: NameMap::new() }
    }

    /// Makes `name` a built-in with the given signatures.
    pub fn add(&mut self, name: String, signatures: Vec<Signature>)
        ensures
            final(self)@ == old(self)@.insert(name@, signature_views(signatures@)),
    {
        self.table.insert(name, Overloads(signatures));
    }

    /// The signatures of the built-in `name`; `None` if there is none.
    pub fn find_types(&self, name: &String) -> (r: Option<&Vec<Signature>>)
        ensures
            match r {
                Some(v) => self@.contains_key(name@) && self@[name@] == signature_views(v@),
                None => !self@.contains_key(name@),
            },
    {
        match self.table.get(name) {
            Some(o) => Some(&o.0),
            None => None,
        }
    }
}

/// Whether a computed result is what the rules give: the same value, or a
/// diagnostic with the same content.
pub open spec fn agrees<T>(r: Result<T, Diagnostic>, s: Result<T, DiagnosticView>) -> bool {
    match r {
        Ok(v) => s == Ok::<T, DiagnosticView>(v),
        Err(d) => s == Err::<T, DiagnosticView>(d@),
    }
}

/// Whether two lists of types are the same.
pub fn same_types(a: &Vec<Type>, b: &Vec<Type>) -> (r: bool)
    ensures
        r == (a@ == b@),
{
    if a.len() != b.len() {
        return false;
    }
    let mut i: usize = 0;
    while i < a.len()
        invariant
            a@.len() == b@.len(),
            i <= a@.len(),
            forall|j: int| 0 <= j < i ==> a@[j] == b@[j],
        decreases a.len() - i,
    {
        if a[i] != b[i] {
            return false;
        }
        i += 1;
    }
    assert(a@ =~= b@);
    true
}

/// A copy of a list of types.
pub fn copy_types(a: &Vec<Type>) -> (r: Vec<Type>)
    ensures
        r@ == a@,
{
    let mut r: Vec<Type> = Vec::new();
    let mut i: usize = 0;
    while i < a.len()
        invariant
            i <= a@.len(),
            r@ == a@.take(i as int),
        decreases a.len() - i,
    {
        r.push(a[i]);
        i += 1;
        assert(r@ =~= a@.take(i as int));
    }
    assert(r@ =~= a@);
    r
}

/// The result type of the first candidate that takes exactly `args`.
pub fn find_overload(candidates: &Vec<Signature>, args: &Vec<Type>) -> (r: Option<Option<Type>>)
    ensures
        r == find_signature(signature_views(candidates@), args@, 0),
{
    let mut i: usize = 0;
    while i < candidates.len()
        invariant
            i <= candidates@.len(),
            find_signature(signature_views(candidates@), args@, 0) == find_signature(
                signature_views(candidates@),
                args@,
                i as nat,
            ),
        decreases candidates.len() - i,
    {
        if same_types(&candidates[i].params, args) {
            return Some(candidates[i].result);
        }
        i += 1;
    }
    None
}

/// The type of a unary operation on an operand of type `t`.
pub fn unary_type(op: UnaryOp, t: Option<Type>, span: Span, value_span: Span) -> (r: Result<
    Option<Type>,
    Diagnostic,
>)
    ensures
        agrees(r, unary_result(op, t, span, value_span)),
{
    match t {
        None => Err(expected_type(value_span)),
        Some(ty) => match op {
            UnaryOp::Negate => Ok(Some(ty)),
            UnaryOp::Not => if ty.is_int() {
                Ok(Some(Type::I32))
            } else {
                Err(type_mismatch(Some(Type::I32), span, t, value_span))
            },
        },
    }
}

/// The type of a binary operation on operands of the given types.
pub fn binary_type(
    op: BinOp,
    left: Option<Type>,
    left_span: Span,
    right: Option<Type>,
    right_span: Span,
) -> (r: Result<Option<Type>, Diagnostic>)
    ensures
        agrees(r, binary_result(op, left, left_span, right, right_span)),
{
    match left {
        None => Err(expected_type(left_span)),
        Some(t) => {
            if !same_type(left, right) {
                return Err(type_mismatch(Some(t), left_span, right, right_span));
            }
            match op {
                BinOp::Add | BinOp::Sub | BinOp::Mul | BinOp::Div => Ok(left),
                BinOp::Eq | BinOp::Ne | BinOp::Lt | BinOp::Le | BinOp::Gt | BinOp::Ge => Ok(
                    Some(Type::I32),
                ),
                BinOp::LtU | BinOp::LeU | BinOp::GtU | BinOp::GeU => if t.is_int() {
                    Ok(Some(Type::I32))
                } else {
                    Err(type_mismatch(Some(Type::I32), left_span, left, left_span))
                },
                _ => if t.is_int() {
                    Ok(left)
                } else {
                    Err(type_mismatch(Some(Type::I32), left_span, left, left_span))
                },
            }
        },
    }
}

/// The type of a select whose parts have the given types.
pub fn select_type(
    condition: Option<Type>,
    condition_span: Span,
    if_true: Option<Type>,
    if_true_span: Span,
    if_false: Option<Type>,
    if_false_span: Span,
) -> (r: Result<Option<Type>, Diagnostic>)
    ensures
        agrees(
            r,
            select_result(condition, condition_span, if_true, if_true_span, if_false, if_false_span),
        ),
{
    if !same_type(condition, Some(Type::I32)) {
        return Err(type_mismatch(Some(Type::I32), condition_span, condition, condition_span));
    }
    if if_true.is_none() {
        return Err(expected_type(if_true_span));
    }
    if !same_type(if_true, if_false) {
        return Err(type_mismatch(if_true, if_true_span, if_false, if_false_span));
    }
    Ok(if_true)
}

/// The declared or inferred type of a `let`; `value` holds type and span of
/// its checked value, if it has one.
pub fn let_type_of(declared: Option<Type>, value: Option<(Option<Type>, Span)>, span: Span) -> (r:
    Result<Type, Diagnostic>)
    ensures
        agrees(r, let_type_result(declared, value, span)),
{
    match value {
        Some(v) => match declared {
            Some(t) => if !same_type(Some(t), v.0) {
                Err(type_mismatch(Some(t), span, v.0, v.1))
            } else {
                Ok(t)
            },
            None => match v.0 {
                None => Err(expected_type(v.1)),
                Some(t) => Ok(t),
            },
        },
        None => match declared {
            Some(t) => Ok(t),
            None => Err(missing_type(span)),
        },
    }
}

/// What is wrong with a memory location whose address and offset have the
/// given types.
pub fn mem_location_types(
    left: Option<Type>,
    left_span: Span,
    right: Option<Type>,
    right_span: Span,
) -> (r: Result<(), Diagnostic>)
    ensures
        agrees(r, mem_location_result(left, left_span, right, right_span)),
{
    if !same_type(left, Some(Type::I32)) {
        return Err(type_mismatch(Some(Type::I32), left_span, left, left_span));
    }
    if !same_type(right, Some(Type::I32)) {
        return Err(type_mismatch(Some(Type::I32), right_span, right, right_span));
    }
    Ok(())
}

/// Checks an expression that has to be a literal, and gives it its type.
pub fn tc_const(expr: &mut Expression) -> (r: Result<(), Diagnostic>)
    ensures
        match check_const(old(expr)@) {
            Ok(e) => r is Ok && final(expr)@ == e,
            Err(d) => r is Err && r->Err_0@ == d && *final(expr) == *old(expr),
        },
        annotated(old(expr)@, final(expr)@),
{
    proof {
        lemma_annotated_itself(old(expr)@);
        if check_const(old(expr)@) is Ok {
            lemma_const_annotated(old(expr)@);
        }
    }
    let t = match &expr.expr {
        Expr::I32Const(_) => Type::I32,
        Expr::I64Const(_) => Type::I64,
        Expr::F32Const(_) => Type::F32,
        Expr::F64Const(_) => Type::F64,
        _ => {
            return Err(expected_constant(expr.span));
        },
    };
    expr.type_ = Some(t);
    Ok(())
}

/// The state of the type checker.
pub struct Context<'a> {
    pub global_vars: NameMap<Var>,
    pub functions: NameMap<FunctionType>,
    pub locals: Locals,
    pub local_vars: LocalVars,
    pub block_stack: Vec<String>,
    pub return_type: Option<Type>,
    pub intrinsics: &'a Intrinsics,
}

impl<'a> View for Context<'a> {
    type V = Env;

    open spec fn view(&self) -> Env {
        Env {
            globals: self.global_vars@,
            functions: self.functions@,
            intrinsics: self.intrinsics@,
            locals: self.locals@,
            scopes: self.local_vars@,
            labels: Seq::new(self.block_stack@.len(), |i: int| self.block_stack@[i]@),
            return_type: self.return_type,
        }
    }
}

impl<'a> Context<'a> {
    /// A context without globals, functions, locals, scopes or labels.
    pub fn new(intrinsics: &'a Intrinsics) -> (r: Context<'a>)
        ensures
            r@ == (Env {
                globals: Map::empty(),
                functions: Map::empty(),
                intrinsics: intrinsics@,
                locals: crate::ast::LocalsView::empty(),
                scopes: Seq::empty(),
                labels: Seq::empty(),
                return_type: None,
            }),
    {
        Context {
            global_vars: NameMap::new(),
            functions: NameMap::new(),
            locals: Locals::new(),
            local_vars: LocalVars::new(),
            block_stack: Vec::new(),
            return_type: None,
            intrinsics,
        }
    }

    /// Opens a scope.
    pub fn push_scope(&mut self)
        ensures
            final(self)@ == old(self)@.push_scope(),
            old(self)@.wf() ==> final(self)@.wf(),
    {
        self.local_vars.push_scope();
    }

    /// Closes the innermost scope.
    pub fn pop_scope(&mut self)
        ensures
            final(self)@ == old(self)@.pop_scope(),
    {
        self.local_vars.pop_scope();
    }

    /// Enters a loop or labelled block.
    pub fn push_label(&mut self, label: String)
        ensures
            final(self)@ == old(self)@.push_label(label@),
            old(self)@.wf() ==> final(self)@.wf(),
    {
        self.block_stack.push(label);
        assert(self@.labels =~= old(self)@.labels.push(label@));
    }

    /// Leaves the innermost loop or labelled block.
    pub fn pop_label(&mut self)
        ensures
            final(self)@ == old(self)@.pop_label(),
            old(self)@.wf() ==> final(self)@.wf(),
    {
        self.block_stack.pop();
        assert(self@.labels =~= old(self)@.pop_label().labels);
    }

    /// Whether `label` names an enclosing loop or labelled block.
    pub fn has_label(&self, label: &String) -> (r: bool)
        ensures
            r == self@.labels.contains(label@),
    {
        let mut i: usize = 0;
        while i < self.block_stack.len()
            invariant
                i <= self.block_stack@.len(),
                forall|j: int| 0 <= j < i ==> self@.labels[j] != label@,
            decreases self.block_stack.len() - i,
        {
            if self.block_stack[i] == *label {
                assert(self@.labels[i as int] == label@);
                return true;
            }
            i += 1;
        }
        false
    }

    /// Binds `name` in the innermost scope for a `let` at `span`: to a new
    /// local, unless the scope declares the name already. Then nothing
    /// changes and the diagnostic names both places.
    pub fn declare(&mut self, span: Span, name: &String, type_: Type, store: bool) -> (r: Result<
        usize,
        Diagnostic,
    >)
        requires
            old(self)@.wf(),
        ensures
            match old(self)@.bind_let(span, name@, type_, store) {
                Ok((env, id)) => r == Ok::<usize, Diagnostic>(id) && final(self)@ == env
                    && env.follows(old(self)@),
                Err(d) => r is Err && r->Err_0@ == d && final(self)@ == old(self)@,
            },
    {
        match self.local_vars.get_in_current(name) {
            Some(previous) => {
                let previous_span = self.locals.get(previous).span;
                Err(report_duplicate_definition(Definition::Variable, span, previous_span))
            },
            None => {
                let id = self.locals.add_local(span, name.clone(), type_, store);
                self.local_vars.insert(name.clone(), id);
                proof {
                    let after = self@;
                    let before = old(self)@;
                    assert forall|i: int, n: Seq<char>|
                        0 <= i < after.scopes.len() && #[trigger] after.scopes[i].contains_key(n)
                        implies after.scopes[i][n] < after.locals.locals.len() by {
                        if i < before.scopes.len() - 1 || n != name@ {
                            assert(before.scopes[i].contains_key(n));
                        }
                    }
                }
                Ok(id)
            },
        }
    }

    /// The variable that an assignment to `name` writes.
    pub fn assign_target(&self, name: &String, span: Span) -> (r: Result<
        (Option<usize>, Type, Span),
        Diagnostic,
    >)
        requires
            self@.wf(),
        ensures
            agrees(r, self@.assign_target(name@, span)),
    {
        match self.local_vars.get(name) {
            Some(id) => {
                proof {
                    lemma_resolve_in_range(self@, name@);
                }
                let local = self.locals.get(id);
                if local.index.is_none() {
                    Err(immutable_assign(span))
                } else {
                    Ok((Some(id), local.type_, local.span))
                }
            },
            None => match self.global_vars.get(name) {
                Some(var) => if !var.mutable {
                    Err(immutable_assign(span))
                } else {
                    Ok((None, var.type_, var.span))
                },
                None => Err(unknown_variable(span)),
            },
        }
    }

    /// The local that a tee to `name` writes.
    pub fn tee_target(&self, name: &String, span: Span) -> (r: Result<(usize, Type, Span), Diagnostic>)
        requires
            self@.wf(),
        ensures
            agrees(r, self@.tee_target(name@, span)),
    {
        match self.local_vars.get(name) {
            Some(id) => {
                proof {
                    lemma_resolve_in_range(self@, name@);
                }
                let local = self.locals.get(id);
                if local.index.is_none() {
                    Err(immutable_assign(span))
                } else {
                    Ok((id, local.type_, local.span))
                }
            },
            None => Err(unknown_variable(span)),
        }
    }

    /// The type of a call of `name` with arguments of the types `args`.
    pub fn call_type(&self, name: &String, args: &Vec<Type>, span: Span) -> (r: Result<
        Option<Type>,
        Diagnostic,
    >)
        ensures
            agrees(r, call_result(self@, name@, args@, span)),
    {
        match self.functions.get(name) {
            Some(f) => {
                let ghost sig = SignatureView { params: f.params@, result: f.type_ };
                assert(self@.candidates(name@) == Some(seq![sig]));
                reveal_with_fuel(find_signature, 2);
                if same_types(&f.params, args) {
                    Ok(f.type_)
                } else {
                    let mut candidates: Vec<Signature> = Vec::new();
                    candidates.push(Signature { params: copy_types(&f.params), result: f.type_ });
                    assert(signature_views(candidates@) =~= seq![sig]);
                    Err(no_matching_function(name.as_str(), &candidates, span))
                }
            },
            None => match self.intrinsics.find_types(name) {
                Some(candidates) => match find_overload(candidates, args) {
                    Some(result) => Ok(result),
                    None => Err(no_matching_function(name.as_str(), candidates, span)),
                },
                None => Err(unknown_function(name.as_str(), span)),
            },
        }
    }
}

/// A name that resolves stands for a local that exists.
pub proof fn lemma_resolve_in_range(env: Env, name: Seq<char>)
    requires
        env.wf(),
    ensures
        env.resolve(name) matches Some(id) ==> id < env.locals.locals.len(),
{
    lemma_lookup_in_range(env, env.scopes.len(), name);
}

proof fn lemma_lookup_in_range(env: Env, n: nat, name: Seq<char>)
    requires
        env.wf(),
        n <= env.scopes.len(),
    ensures
        crate::names::lookup_scopes(env.scopes, n, name) matches Some(id) ==> id
            < env.locals.locals.len(),
    decreases n,
{
    if n > 0 && !env.scopes[n - 1].contains_key(name) {
        lemma_lookup_in_range(env, (n - 1) as nat, name);
    }
}

/// Checks the address and the offset of a memory location.
pub fn tc_mem_location(ctx: &mut Context, mem_location: &mut MemoryLocation) -> (r: Result<
    (),
    Diagnostic,
>)
    requires
        old(ctx)@.wf(),
        old(mem_location).left@.error_free(),
    ensures
        match check_mem_location(old(ctx)@, old(mem_location)@) {
            Ok((env, m)) => r is Ok && final(ctx)@ == env && final(mem_location)@ == m
                && env.follows(old(ctx)@),
            Err(d) => r is Err && r->Err_0@ == d && final(ctx)@.follows(old(ctx)@),
        },
        location_annotated(old(mem_location)@, final(mem_location)@),
    decreases *old(mem_location), 0nat,
{
    proof {
        lemma_annotated_itself(old(mem_location).left@);
        lemma_annotated_itself(old(mem_location).right@);
        if check_const(old(mem_location).right@) is Ok {
            lemma_const_annotated(old(mem_location).right@);
        }
    }
    tc_expression(ctx, &mut *mem_location.left)?;
    match tc_const(&mut *mem_location.right) {
        Err(d) => {
            return Err(d);
        },
        Ok(()) => {},
    }
    mem_location_types(
        mem_location.left.type_,
        mem_location.left.span,
        mem_location.right.type_,
        mem_location.right.span,
    )
}

/// Checks expressions one after the other. With `need_value`, each of them
/// has to have a value.
pub fn tc_sequence(ctx: &mut Context, items: &mut Vec<Expression>, need_value: bool) -> (r:
    Result<(), Diagnostic>)
    requires
        old(ctx)@.wf(),
        forall|i: int| 0 <= i < old(items)@.len() ==> (#[trigger] old(items)@[i])@.error_free(),
    ensures
        match check_sequence(
            old(ctx)@,
            expression_views(old(items)@),
            old(items)@.len(),
            need_value,
        ) {
            Ok((env, s)) => r is Ok && final(ctx)@ == env && expression_views(final(items)@) == s
                && env.follows(old(ctx)@) && (need_value ==> forall|i: int|
                0 <= i < final(items)@.len() ==> (#[trigger] final(items)@[i]).type_ is Some),
            Err(d) => r is Err && r->Err_0@ == d && final(ctx)@.follows(old(ctx)@),
        },
        final(items)@.len() == old(items)@.len(),
        forall|i: int|
            0 <= i < old(items)@.len() ==> annotated(
                (#[trigger] old(items)@[i])@,
                final(items)@[i]@,
            ),
    decreases *old(items), 0nat,
{
    let ghost env0 = ctx@;
    let ghost orig = items@;
    let ghost views = expression_views(orig);
    let mut i: usize = 0;
    proof {
        assert forall|j: int| 0 <= j < orig.len() implies decreases_to!(*old(items) => orig[j]) by {
            vstd::std_specs::vec::axiom_vec_index_decreases(*old(items), j);
        }
        assert(expression_views(items@).take(0) =~= Seq::empty());
        assert forall|j: int| 0 <= j < orig.len() implies annotated(
            (#[trigger] orig[j])@,
            orig[j]@,
        ) by {
            lemma_annotated_itself(orig[j]@);
        }
    }
    while i < items.len()
        invariant
            i <= items@.len(),
            forall|j: int| 0 <= j < orig.len() ==> annotated((#[trigger] orig[j])@, orig[j]@),
            forall|j: int| 0 <= j < i ==> annotated((#[trigger] orig[j])@, items@[j]@),
            items@.len() == orig.len(),
            orig == old(items)@,
            env0 == old(ctx)@,
            views == expression_views(orig),
            forall|j: int| i <= j < orig.len() ==> items@[j] == orig[j],
            forall|j: int| 0 <= j < orig.len() ==> decreases_to!(*old(items) => orig[j]),
            forall|j: int| 0 <= j < orig.len() ==> (#[trigger] orig[j])@.error_free(),
            check_sequence(env0, views, i as nat, need_value) == Ok::<
                (Env, Seq<ExpressionView>),
                DiagnosticView,
            >((ctx@, expression_views(items@).take(i as int))),
            ctx@.follows(env0),
            need_value ==> forall|j: int| 0 <= j < i ==> (#[trigger] items@[j]).type_ is Some,
        decreases items.len() - i,
    {
        let ghost before = items@;
        let ghost env1 = ctx@;
        assert(views[i as int] == orig[i as int]@);
        match tc_expression(ctx, &mut items[i]) {
            Err(d) => {
                proof {
                    lemma_sequence_error(env0, views, (i + 1) as nat, orig.len(), need_value);
                }
                return Err(d);
            },
            Ok(()) => {},
        }
        if need_value && items[i].type_.is_none() {
            proof {
                lemma_sequence_error(env0, views, (i + 1) as nat, orig.len(), need_value);
            }
            return Err(expected_type(items[i].span));
        }
        proof {
            assert(expression_views(items@).take(i + 1) =~= expression_views(before).take(
                i as int,
            ).push(items@[i as int]@));
        }
        i += 1;
    }
    proof {
        assert(expression_views(items@).take(i as int) =~= expression_views(items@));
    }
    Ok(())
}

/// The types of expressions that all have one.
fn value_types(items: &Vec<Expression>) -> (r: Vec<Type>)
    requires
        forall|i: int| 0 <= i < items@.len() ==> (#[trigger] items@[i]).type_ is Some,
    ensures
        r@ == argument_types(expression_views(items@)),
{
    let mut r: Vec<Type> = Vec::new();
    let mut i: usize = 0;
    while i < items.len()
        invariant
            i <= items@.len(),
            r@.len() == i,
            forall|j: int| 0 <= j < items@.len() ==> (#[trigger] items@[j]).type_ is Some,
            forall|j: int| 0 <= j < i ==> r@[j] == (#[trigger] items@[j]).type_.unwrap(),
        decreases items.len() - i,
    {
        match items[i].type_ {
            Some(t) => {
                r.push(t);
            },
            None => {},
        }
        i += 1;
    }
    assert(r@ =~= argument_types(expression_views(items@)));
    r
}/// Whether a check ended as the rules say: with the environment and the
/// annotated expression that they give, or with their diagnostic. After a
/// failure too the tables, the labels and the number of open scopes are as
/// before, and the locals of before are still there, unchanged. Either way
/// the expression is the expression of before with annotations.
pub open spec fn checked(
    r: Result<(), Diagnostic>,
    env_after: Env,
    expr_after: ExpressionView,
    expected: Checked,
    env_before: Env,
    expr_before: ExpressionView,
) -> bool {
    &&& annotated(expr_before, expr_after)
    &&& match expected {
        Ok((env, e)) => r is Ok && env_after == env && expr_after == e && env.follows(env_before),
        Err(d) => r is Err && r->Err_0@ == d && env_after.follows(env_before),
    }
}

/// Resolves a variable read.
fn tc_variable(ctx: &mut Context, expr: &mut Expression) -> (r: Result<(), Diagnostic>)
    requires
        old(ctx)@.wf(),
        old(expr)@.error_free(),
        old(expr).expr is Variable,
    ensures
        checked(
            r,
            final(ctx)@,
            final(expr)@,
            check_variable(old(ctx)@, old(expr)@),
            old(ctx)@,
            old(expr)@,
        ),
{
    let span = expr.span;
    proof {
        lemma_annotated_itself(old(expr)@);
        if check_expression(old(ctx)@, old(expr)@) is Ok {
            lemma_check_annotates(old(ctx)@, old(expr)@);
        }
    }
    let t: Option<Type> = match &mut expr.expr {
        Expr::Variable { name, local_id } => match ctx.local_vars.get(name) {
            Some(id) => {
                proof {
                    lemma_resolve_in_range(ctx@, name@);
                }
                *local_id = Some(id);
                Some(ctx.locals.get(id).type_)
            },
            None => match ctx.global_vars.get(name) {
                Some(var) => Some(var.type_),
                None => {
                    return Err(unknown_variable(span));
                },
            },
        },
        _ => None,
    };
    expr.type_ = t;
    Ok(())
}

/// Checks a `let` and binds its name.
fn tc_let(ctx: &mut Context, expr: &mut Expression) -> (r: Result<(), Diagnostic>)
    requires
        old(ctx)@.wf(),
        old(expr)@.error_free(),
        old(expr).expr is Let,
    ensures
        checked(
            r,
            final(ctx)@,
            final(expr)@,
            check_let(old(ctx)@, old(expr)@),
            old(ctx)@,
            old(expr)@,
        ),
    decreases *old(expr), 0nat,
{
    let span = expr.span;
    proof {
        lemma_annotated_itself(old(expr)@);
        if check_expression(old(ctx)@, old(expr)@) is Ok {
            lemma_check_annotates(old(ctx)@, old(expr)@);
        }
    }
    let t: Option<Type> = match &mut expr.expr {
        Expr::Let { name, type_, value, let_type, local_id } => {
            let value_type: Option<(Option<Type>, Span)> = match value {
                Some(v) => {
                    tc_expression(ctx, &mut **v)?;
                    Some((v.type_, v.span))
                },
                None => None,
            };
            let t = match let_type_of(*type_, value_type, span) {
                Ok(t) => t,
                Err(d) => {
                    return Err(d);
                },
            };
            let store = *let_type != LetType::Inline;
            let id = match ctx.declare(span, name, t, store) {
                Ok(id) => id,
                Err(d) => {
                    return Err(d);
                },
            };
            *type_ = Some(t);
            *local_id = Some(id);
            None
        },
        _ => None,
    };
    expr.type_ = t;
    Ok(())
}

/// Checks an assignment.
fn tc_assign(ctx: &mut Context, expr: &mut Expression) -> (r: Result<(), Diagnostic>)
    requires
        old(ctx)@.wf(),
        old(expr)@.error_free(),
        old(expr).expr is Assign,
    ensures
        checked(
            r,
            final(ctx)@,
            final(expr)@,
            check_assign(old(ctx)@, old(expr)@),
            old(ctx)@,
            old(expr)@,
        ),
    decreases *old(expr), 0nat,
{
    let span = expr.span;
    proof {
        lemma_annotated_itself(old(expr)@);
        if check_expression(old(ctx)@, old(expr)@) is Ok {
            lemma_check_annotates(old(ctx)@, old(expr)@);
        }
    }
    let t: Option<Type> = match &mut expr.expr {
        Expr::Assign { name, value, local_id } => {
            tc_expression(ctx, &mut **value)?;
            let (id, t, target_span) = match ctx.assign_target(name, span) {
                Ok(target) => target,
                Err(d) => {
                    return Err(d);
                },
            };
            if !same_type(value.type_, Some(t)) {
                return Err(type_mismatch(Some(t), target_span, value.type_, value.span));
            }
            if id.is_some() {
                *local_id = id;
            }
            None
        },
        _ => None,
    };
    expr.type_ = t;
    Ok(())
}

/// Checks a tee.
fn tc_tee(ctx: &mut Context, expr: &mut Expression) -> (r: Result<(), Diagnostic>)
    requires
        old(ctx)@.wf(),
        old(expr)@.error_free(),
        old(expr).expr is LocalTee,
    ensures
        checked(
            r,
            final(ctx)@,
            final(expr)@,
            check_tee(old(ctx)@, old(expr)@),
            old(ctx)@,
            old(expr)@,
        ),
    decreases *old(expr), 0nat,
{
    let span = expr.span;
    proof {
        lemma_annotated_itself(old(expr)@);
        if check_expression(old(ctx)@, old(expr)@) is Ok {
            lemma_check_annotates(old(ctx)@, old(expr)@);
        }
    }
    let t: Option<Type> = match &mut expr.expr {
        Expr::LocalTee { name, value, local_id } => {
            tc_expression(ctx, &mut **value)?;
            let (id, t, target_span) = match ctx.tee_target(name, span) {
                Ok(target) => target,
                Err(d) => {
                    return Err(d);
                },
            };
            if !same_type(value.type_, Some(t)) {
                return Err(type_mismatch(Some(t), target_span, value.type_, value.span));
            }
            *local_id = Some(id);
            Some(t)
        },
        _ => None,
    };
    expr.type_ = t;
    Ok(())
}

/// Checks a read from memory.
fn tc_peek(ctx: &mut Context, expr: &mut Expression) -> (r: Result<(), Diagnostic>)
    requires
        old(ctx)@.wf(),
        old(expr)@.error_free(),
        old(expr).expr is Peek,
    ensures
        checked(
            r,
            final(ctx)@,
            final(expr)@,
            check_peek(old(ctx)@, old(expr)@),
            old(ctx)@,
            old(expr)@,
        ),
    decreases *old(expr), 0nat,
{
    let span = expr.span;
    proof {
        lemma_annotated_itself(old(expr)@);
        if check_expression(old(ctx)@, old(expr)@) is Ok {
            lemma_check_annotates(old(ctx)@, old(expr)@);
        }
    }
    proof {
        lemma_view_parts(*old(expr));
    }
    let checked = match &mut expr.expr {
        Expr::Peek(mem_location) => tc_mem_location(ctx, mem_location),
        _ => Ok(()),
    };
    proof {
        lemma_view_parts(*expr);
    }
    match checked {
        Err(d) => {
            return Err(d);
        },
        Ok(()) => {},
    }
    expr.type_ = Some(Type::I32);
    proof {
        lemma_view_parts(*expr);
    }
    Ok(())
}

/// Checks a write to memory.
fn tc_poke(ctx: &mut Context, expr: &mut Expression) -> (r: Result<(), Diagnostic>)
    requires
        old(ctx)@.wf(),
        old(expr)@.error_free(),
        old(expr).expr is Poke,
    ensures
        checked(
            r,
            final(ctx)@,
            final(expr)@,
            check_poke(old(ctx)@, old(expr)@),
            old(ctx)@,
            old(expr)@,
        ),
    decreases *old(expr), 0nat,
{
    let span = expr.span;
    proof {
        lemma_annotated_itself(old(expr)@);
        if check_expression(old(ctx)@, old(expr)@) is Ok {
            lemma_check_annotates(old(ctx)@, old(expr)@);
        }
    }
    proof {
        lemma_view_parts(*old(expr));
    }
    let checked = match &mut expr.expr {
        Expr::Poke { mem_location, value } => match tc_mem_location(ctx, mem_location) {
            Err(d) => Err(d),
            Ok(()) => match tc_expression(ctx, &mut **value) {
                Err(d) => Err(d),
                Ok(()) => if !same_type(value.type_, Some(Type::I32)) {
                    Err(type_mismatch(Some(Type::I32), span, value.type_, value.span))
                } else {
                    Ok(())
                },
            },
        },
        _ => Ok(()),
    };
    proof {
        lemma_view_parts(*expr);
    }
    match checked {
        Err(d) => {
            return Err(d);
        },
        Ok(()) => {},
    }
    expr.type_ = None;
    proof {
        lemma_view_parts(*expr);
    }
    Ok(())
}

/// Checks a unary operation.
fn tc_unary(ctx: &mut Context, expr: &mut Expression) -> (r: Result<(), Diagnostic>)
    requires
        old(ctx)@.wf(),
        old(expr)@.error_free(),
        old(expr).expr is UnaryOp,
    ensures
        checked(
            r,
            final(ctx)@,
            final(expr)@,
            check_unary(old(ctx)@, old(expr)@),
            old(ctx)@,
            old(expr)@,
        ),
    decreases *old(expr), 0nat,
{
    let span = expr.span;
    proof {
        lemma_annotated_itself(old(expr)@);
        if check_expression(old(ctx)@, old(expr)@) is Ok {
            lemma_check_annotates(old(ctx)@, old(expr)@);
        }
    }
    let t: Option<Type> = match &mut expr.expr {
        Expr::UnaryOp { op, value } => {
            tc_expression(ctx, &mut **value)?;
            match unary_type(*op, value.type_, span, value.span) {
                Ok(t) => t,
                Err(d) => {
                    return Err(d);
                },
            }
        },
        _ => None,
    };
    expr.type_ = t;
    Ok(())
}

/// Checks a binary operation.
fn tc_binary(ctx: &mut Context, expr: &mut Expression) -> (r: Result<(), Diagnostic>)
    requires
        old(ctx)@.wf(),
        old(expr)@.error_free(),
        old(expr).expr is BinOp,
    ensures
        checked(
            r,
            final(ctx)@,
            final(expr)@,
            check_binary(old(ctx)@, old(expr)@),
            old(ctx)@,
            old(expr)@,
        ),
    decreases *old(expr), 0nat,
{
    let span = expr.span;
    proof {
        lemma_annotated_itself(old(expr)@);
        if check_expression(old(ctx)@, old(expr)@) is Ok {
            lemma_check_annotates(old(ctx)@, old(expr)@);
        }
    }
    let t: Option<Type> = match &mut expr.expr {
        Expr::BinOp { op, left, right } => {
            tc_expression(ctx, &mut **left)?;
            tc_expression(ctx, &mut **right)?;
            match binary_type(*op, left.type_, left.span, right.type_, right.span) {
                Ok(t) => t,
                Err(d) => {
                    return Err(d);
                },
            }
        },
        _ => None,
    };
    expr.type_ = t;
    Ok(())
}

/// Checks a block in a scope of its own.
fn tc_block(ctx: &mut Context, expr: &mut Expression) -> (r: Result<(), Diagnostic>)
    requires
        old(ctx)@.wf(),
        old(expr)@.error_free(),
        old(expr).expr is Block,
    ensures
        checked(
            r,
            final(ctx)@,
            final(expr)@,
            check_block(old(ctx)@, old(expr)@),
            old(ctx)@,
            old(expr)@,
        ),
    decreases *old(expr), 0nat,
{
    let span = expr.span;
    proof {
        lemma_annotated_itself(old(expr)@);
        if check_expression(old(ctx)@, old(expr)@) is Ok {
            lemma_check_annotates(old(ctx)@, old(expr)@);
        }
    }
    proof {
        lemma_view_parts(*old(expr));
    }
    let checked = match &mut expr.expr {
        Expr::Block(block) => {
            proof {
                assert forall|i: int| 0 <= i < block.statements@.len() implies (
                #[trigger] block.statements@[i])@.error_free() by {
                    assert(block@.statements[i].error_free());
                }
            }
            ctx.push_scope();
            let mut checked = tc_sequence(ctx, &mut block.statements, false);
            if checked.is_ok() {
                match &mut block.final_expression {
                    Some(f) => {
                        checked = tc_expression(ctx, &mut **f);
                    },
                    None => {},
                }
            }
            ctx.pop_scope();
            checked
        },
        _ => Ok(()),
    };
    proof {
        lemma_view_parts(*expr);
    }
    match checked {
        Err(d) => {
            return Err(d);
        },
        Ok(()) => {},
    }
    let t = match &expr.expr {
        Expr::Block(block) => block.type_(),
        _ => None,
    };
    expr.type_ = t;
    proof {
        lemma_view_parts(*expr);
    }
    Ok(())
}

/// Checks a loop.
fn tc_loop(ctx: &mut Context, expr: &mut Expression) -> (r: Result<(), Diagnostic>)
    requires
        old(ctx)@.wf(),
        old(expr)@.error_free(),
        old(expr).expr is Loop,
    ensures
        checked(
            r,
            final(ctx)@,
            final(expr)@,
            check_loop(old(ctx)@, old(expr)@),
            old(ctx)@,
            old(expr)@,
        ),
    decreases *old(expr), 0nat,
{
    let span = expr.span;
    proof {
        lemma_annotated_itself(old(expr)@);
        if check_expression(old(ctx)@, old(expr)@) is Ok {
            lemma_check_annotates(old(ctx)@, old(expr)@);
        }
    }
    let t: Option<Type> = match &mut expr.expr {
        Expr::Loop { label, block } => {
            ctx.push_label(label.clone());
            let checked = tc_expression(ctx, &mut **block);
            ctx.pop_label();
            proof {
                assert(ctx@.labels =~= old(ctx)@.labels);
            }
            match checked {
                Err(d) => {
                    return Err(d);
                },
                Ok(()) => {},
            }
            block.type_
        },
        _ => None,
    };
    expr.type_ = t;
    Ok(())
}

/// Checks a labelled block.
fn tc_label_block(ctx: &mut Context, expr: &mut Expression) -> (r: Result<(), Diagnostic>)
    requires
        old(ctx)@.wf(),
        old(expr)@.error_free(),
        old(expr).expr is LabelBlock,
    ensures
        checked(
            r,
            final(ctx)@,
            final(expr)@,
            check_label_block(old(ctx)@, old(expr)@),
            old(ctx)@,
            old(expr)@,
        ),
    decreases *old(expr), 0nat,
{
    let span = expr.span;
    proof {
        lemma_annotated_itself(old(expr)@);
        if check_expression(old(ctx)@, old(expr)@) is Ok {
            lemma_check_annotates(old(ctx)@, old(expr)@);
        }
    }
    let t: Option<Type> = match &mut expr.expr {
        Expr::LabelBlock { label, block } => {
            ctx.push_label(label.clone());
            let checked = tc_expression(ctx, &mut **block);
            ctx.pop_label();
            proof {
                assert(ctx@.labels =~= old(ctx)@.labels);
            }
            match checked {
                Err(d) => {
                    return Err(d);
                },
                Ok(()) => {},
            }
            if block.type_.is_some() {
                return Err(type_mismatch(None, span, block.type_, block.span));
            }
            None
        },
        _ => None,
    };
    expr.type_ = t;
    Ok(())
}

/// Checks a branch.
fn tc_branch(ctx: &mut Context, expr: &mut Expression) -> (r: Result<(), Diagnostic>)
    requires
        old(ctx)@.wf(),
        old(expr)@.error_free(),
        old(expr).expr is Branch,
    ensures
        checked(
            r,
            final(ctx)@,
            final(expr)@,
            check_branch(old(ctx)@, old(expr)@),
            old(ctx)@,
            old(expr)@,
        ),
{
    let span = expr.span;
    proof {
        lemma_annotated_itself(old(expr)@);
        if check_expression(old(ctx)@, old(expr)@) is Ok {
            lemma_check_annotates(old(ctx)@, old(expr)@);
        }
    }
    let t: Option<Type> = match &mut expr.expr {
        Expr::Branch(label) => {
            if !ctx.has_label(label) {
                return Err(missing_label(span));
            }
            None
        },
        _ => None,
    };
    expr.type_ = t;
    Ok(())
}

/// Checks a conditional branch.
fn tc_branch_if(ctx: &mut Context, expr: &mut Expression) -> (r: Result<(), Diagnostic>)
    requires
        old(ctx)@.wf(),
        old(expr)@.error_free(),
        old(expr).expr is BranchIf,
    ensures
        checked(
            r,
            final(ctx)@,
            final(expr)@,
            check_branch_if(old(ctx)@, old(expr)@),
            old(ctx)@,
            old(expr)@,
        ),
    decreases *old(expr), 0nat,
{
    let span = expr.span;
    proof {
        lemma_annotated_itself(old(expr)@);
        if check_expression(old(ctx)@, old(expr)@) is Ok {
            lemma_check_annotates(old(ctx)@, old(expr)@);
        }
    }
    let t: Option<Type> = match &mut expr.expr {
        Expr::BranchIf { condition, label } => {
            tc_expression(ctx, &mut **condition)?;
            if !same_type(condition.type_, Some(Type::I32)) {
                return Err(type_mismatch(Some(Type::I32), span, condition.type_, condition.span));
            }
            if !ctx.has_label(label) {
                return Err(missing_label(span));
            }
            None
        },
        _ => None,
    };
    expr.type_ = t;
    Ok(())
}

/// Checks a cast.
fn tc_cast(ctx: &mut Context, expr: &mut Expression) -> (r: Result<(), Diagnostic>)
    requires
        old(ctx)@.wf(),
        old(expr)@.error_free(),
        old(expr).expr is Cast,
    ensures
        checked(
            r,
            final(ctx)@,
            final(expr)@,
            check_cast(old(ctx)@, old(expr)@),
            old(ctx)@,
            old(expr)@,
        ),
    decreases *old(expr), 0nat,
{
    let span = expr.span;
    proof {
        lemma_annotated_itself(old(expr)@);
        if check_expression(old(ctx)@, old(expr)@) is Ok {
            lemma_check_annotates(old(ctx)@, old(expr)@);
        }
    }
    let t: Option<Type> = match &mut expr.expr {
        Expr::Cast { value, type_ } => {
            tc_expression(ctx, &mut **value)?;
            if value.type_.is_none() {
                return Err(expected_type(span));
            }
            Some(*type_)
        },
        _ => None,
    };
    expr.type_ = t;
    Ok(())
}

/// Checks a call and resolves its overload.
fn tc_call(ctx: &mut Context, expr: &mut Expression) -> (r: Result<(), Diagnostic>)
    requires
        old(ctx)@.wf(),
        old(expr)@.error_free(),
        old(expr).expr is FuncCall,
    ensures
        checked(
            r,
            final(ctx)@,
            final(expr)@,
            check_call(old(ctx)@, old(expr)@),
            old(ctx)@,
            old(expr)@,
        ),
    decreases *old(expr), 0nat,
{
    let span = expr.span;
    proof {
        lemma_annotated_itself(old(expr)@);
        if check_expression(old(ctx)@, old(expr)@) is Ok {
            lemma_check_annotates(old(ctx)@, old(expr)@);
        }
    }
    proof {
        lemma_view_parts(*old(expr));
    }
    let checked = match &mut expr.expr {
        Expr::FuncCall { name, params } => {
            proof {
                assert forall|i: int| 0 <= i < params@.len() implies (
                #[trigger] params@[i])@.error_free() by {
                    assert(expression_views(params@)[i].error_free());
                }
            }
            match tc_sequence(ctx, params, true) {
                Err(d) => Err(d),
                Ok(()) => {
                    let args = value_types(params);
                    ctx.call_type(name, &args, span)
                },
            }
        },
        _ => Ok(None),
    };
    proof {
        lemma_view_parts(*expr);
    }
    let t = match checked {
        Err(d) => {
            return Err(d);
        },
        Ok(t) => t,
    };
    expr.type_ = t;
    proof {
        lemma_view_parts(*expr);
    }
    Ok(())
}

/// Checks a select.
fn tc_select(ctx: &mut Context, expr: &mut Expression) -> (r: Result<(), Diagnostic>)
    requires
        old(ctx)@.wf(),
        old(expr)@.error_free(),
        old(expr).expr is Select,
    ensures
        checked(
            r,
            final(ctx)@,
            final(expr)@,
            check_select(old(ctx)@, old(expr)@),
            old(ctx)@,
            old(expr)@,
        ),
    decreases *old(expr), 0nat,
{
    let span = expr.span;
    proof {
        lemma_annotated_itself(old(expr)@);
        if check_expression(old(ctx)@, old(expr)@) is Ok {
            lemma_check_annotates(old(ctx)@, old(expr)@);
        }
    }
    let t: Option<Type> = match &mut expr.expr {
        Expr::Select { condition, if_true, if_false } => {
            tc_expression(ctx, &mut **condition)?;
            tc_expression(ctx, &mut **if_true)?;
            tc_expression(ctx, &mut **if_false)?;
            match select_type(
                condition.type_,
                condition.span,
                if_true.type_,
                if_true.span,
                if_false.type_,
                if_false.span,
            ) {
                Ok(t) => t,
                Err(d) => {
                    return Err(d);
                },
            }
        },
        _ => None,
    };
    expr.type_ = t;
    Ok(())
}

/// Checks an `if`.
fn tc_if(ctx: &mut Context, expr: &mut Expression) -> (r: Result<(), Diagnostic>)
    requires
        old(ctx)@.wf(),
        old(expr)@.error_free(),
        old(expr).expr is If,
    ensures
        checked(
            r,
            final(ctx)@,
            final(expr)@,
            check_if(old(ctx)@, old(expr)@),
            old(ctx)@,
            old(expr)@,
        ),
    decreases *old(expr), 0nat,
{
    let span = expr.span;
    proof {
        lemma_annotated_itself(old(expr)@);
        if check_expression(old(ctx)@, old(expr)@) is Ok {
            lemma_check_annotates(old(ctx)@, old(expr)@);
        }
    }
    let t: Option<Type> = match &mut expr.expr {
        Expr::If { condition, if_true, if_false } => {
            tc_expression(ctx, &mut **condition)?;
            tc_expression(ctx, &mut **if_true)?;
            match if_false {
                Some(f) => {
                    tc_expression(ctx, &mut **f)?;
                    if !same_type(if_true.type_, f.type_) {
                        return Err(type_mismatch(if_true.type_, if_true.span, f.type_, f.span));
                    }
                    if_true.type_
                },
                None => None,
            }
        },
        _ => None,
    };
    expr.type_ = t;
    Ok(())
}

/// Checks a `return`.
fn tc_return(ctx: &mut Context, expr: &mut Expression) -> (r: Result<(), Diagnostic>)
    requires
        old(ctx)@.wf(),
        old(expr)@.error_free(),
        old(expr).expr is Return,
    ensures
        checked(
            r,
            final(ctx)@,
            final(expr)@,
            check_return(old(ctx)@, old(expr)@),
            old(ctx)@,
            old(expr)@,
        ),
    decreases *old(expr), 0nat,
{
    let span = expr.span;
    proof {
        lemma_annotated_itself(old(expr)@);
        if check_expression(old(ctx)@, old(expr)@) is Ok {
            lemma_check_annotates(old(ctx)@, old(expr)@);
        }
    }
    let t: Option<Type> = match &mut expr.expr {
        Expr::Return { value } => match value {
            Some(v) => {
                tc_expression(ctx, &mut **v)?;
                if !same_type(v.type_, ctx.return_type) {
                    return Err(type_mismatch(ctx.return_type, span, v.type_, v.span));
                }
                None
            },
            None => {
                if ctx.return_type.is_some() {
                    return Err(type_mismatch(ctx.return_type, span, None, span));
                }
                None
            },
        },
        _ => None,
    };
    expr.type_ = t;
    Ok(())
}

/// Checks a `first`.
fn tc_first(ctx: &mut Context, expr: &mut Expression) -> (r: Result<(), Diagnostic>)
    requires
        old(ctx)@.wf(),
        old(expr)@.error_free(),
        old(expr).expr is First,
    ensures
        checked(
            r,
            final(ctx)@,
            final(expr)@,
            check_first(old(ctx)@, old(expr)@),
            old(ctx)@,
            old(expr)@,
        ),
    decreases *old(expr), 0nat,
{
    let span = expr.span;
    proof {
        lemma_annotated_itself(old(expr)@);
        if check_expression(old(ctx)@, old(expr)@) is Ok {
            lemma_check_annotates(old(ctx)@, old(expr)@);
        }
    }
    let t: Option<Type> = match &mut expr.expr {
        Expr::First { value, drop } => {
            tc_expression(ctx, &mut **value)?;
            tc_expression(ctx, &mut **drop)?;
            value.type_
        },
        _ => None,
    };
    expr.type_ = t;
    Ok(())
}

/// The syntactic form of an expression, without its parts.
enum Form {
    Const(Type),
    Variable,
    Let,
    Assign,
    LocalTee,
    Peek,
    Poke,
    UnaryOp,
    BinOp,
    Block,
    Loop,
    LabelBlock,
    Branch,
    BranchIf,
    Cast,
    FuncCall,
    Select,
    If,
    Return,
    First,
    Error,
}

fn form_of(expr: &Expr) -> (f: Form)
    ensures
        match f {
            Form::Const(t) => constant_type_of(*expr) == Some(t),
            Form::Variable => expr is Variable,
            Form::Let => expr is Let,
            Form::Assign => expr is Assign,
            Form::LocalTee => expr is LocalTee,
            Form::Peek => expr is Peek,
            Form::Poke => expr is Poke,
            Form::UnaryOp => expr is UnaryOp,
            Form::BinOp => expr is BinOp,
            Form::Block => expr is Block,
            Form::Loop => expr is Loop,
            Form::LabelBlock => expr is LabelBlock,
            Form::Branch => expr is Branch,
            Form::BranchIf => expr is BranchIf,
            Form::Cast => expr is Cast,
            Form::FuncCall => expr is FuncCall,
            Form::Select => expr is Select,
            Form::If => expr is If,
            Form::Return => expr is Return,
            Form::First => expr is First,
            Form::Error => expr is Error,
        },
{
    match expr {
        Expr::I32Const(_) => Form::Const(Type::I32),
        Expr::I64Const(_) => Form::Const(Type::I64),
        Expr::F32Const(_) => Form::Const(Type::F32),
        Expr::F64Const(_) => Form::Const(Type::F64),
        Expr::Variable { .. } => Form::Variable,
        Expr::Let { .. } => Form::Let,
        Expr::Assign { .. } => Form::Assign,
        Expr::LocalTee { .. } => Form::LocalTee,
        Expr::Peek(_) => Form::Peek,
        Expr::Poke { .. } => Form::Poke,
        Expr::UnaryOp { .. } => Form::UnaryOp,
        Expr::BinOp { .. } => Form::BinOp,
        Expr::Block(_) => Form::Block,
        Expr::Loop { .. } => Form::Loop,
        Expr::LabelBlock { .. } => Form::LabelBlock,
        Expr::Branch(_) => Form::Branch,
        Expr::BranchIf { .. } => Form::BranchIf,
        Expr::Cast { .. } => Form::Cast,
        Expr::FuncCall { .. } => Form::FuncCall,
        Expr::Select { .. } => Form::Select,
        Expr::If { .. } => Form::If,
        Expr::Return { .. } => Form::Return,
        Expr::First { .. } => Form::First,
        Expr::Error => Form::Error,
    }
}

/// The type of a literal; `None` for anything else.
pub open spec fn constant_type_of(e: Expr) -> Option<Type> {
    match e {
        Expr::I32Const(_) => Some(Type::I32),
        Expr::I64Const(_) => Some(Type::I64),
        Expr::F32Const(_) => Some(Type::F32),
        Expr::F64Const(_) => Some(Type::F64),
        _ => None,
    }
}

/// Checks an expression and everything in it, and writes into each node
/// its type and the id of the local that it names. The first rule that is
/// broken ends the check with its diagnostic.
pub fn tc_expression(ctx: &mut Context, expr: &mut Expression) -> (r: Result<(), Diagnostic>)
    requires
        old(ctx)@.wf(),
        old(expr)@.error_free(),
    ensures
        checked(
            r,
            final(ctx)@,
            final(expr)@,
            check_expression(old(ctx)@, old(expr)@),
            old(ctx)@,
            old(expr)@,
        ),
    decreases *old(expr), 1nat,
{
    proof {
        lemma_annotated_itself(old(expr)@);
    }
    match form_of(&expr.expr) {
        Form::Const(t) => {
            expr.type_ = Some(t);
            Ok(())
        },
        Form::Variable => tc_variable(ctx, expr),
        Form::Let => tc_let(ctx, expr),
        Form::Assign => tc_assign(ctx, expr),
        Form::LocalTee => tc_tee(ctx, expr),
        Form::Peek => tc_peek(ctx, expr),
        Form::Poke => tc_poke(ctx, expr),
        Form::UnaryOp => tc_unary(ctx, expr),
        Form::BinOp => tc_binary(ctx, expr),
        Form::Block => tc_block(ctx, expr),
        Form::Loop => tc_loop(ctx, expr),
        Form::LabelBlock => tc_label_block(ctx, expr),
        Form::Branch => tc_branch(ctx, expr),
        Form::BranchIf => tc_branch_if(ctx, expr),
        Form::Cast => tc_cast(ctx, expr),
        Form::FuncCall => tc_call(ctx, expr),
        Form::Select => tc_select(ctx, expr),
        Form::If => tc_if(ctx, expr),
        Form::Return => tc_return(ctx, expr),
        Form::First => tc_first(ctx, expr),
        Form::Error => Ok(()),
    }
}

} // verus!
