//! What holds of the typing rules in general: checking an expression
//! leaves the tables, the labels and the open scopes as they were and only
//! adds locals; a scope declares a name once; an inline `let` binds a local
//! without a slot and cannot be written to; a call that matches no
//! candidate names them all.

use crate::ast::{ExprView, ExpressionView, LetType, LocalView, SignatureView, Span, Type};
use crate::diag::{
    candidate_text, spec_duplicate_definition, Definition, DiagnosticView, ErrorKind,
};
use crate::rules::{
    argument_types, call_result, check_assign, check_binary, check_block, check_branch_if,
    check_call, check_cast, check_const, check_expression, check_first, check_if,
    check_label_block, check_let, check_loop, check_mem_location, check_peek, check_poke,
    check_return, check_select, check_sequence, check_tee, check_unary, find_signature,
    let_type_result, Env,
};
use vstd::prelude::*;

verus! {

/// What follows something that follows `a` follows `a`.
pub proof fn lemma_follows_transitive(a: Env, b: Env, c: Env)
    requires
        b.follows(a),
        c.follows(b),
    ensures
        c.follows(a),
{
    assert forall|i: int| 0 <= i < a.locals.locals.len() implies c.locals.locals[i]
        == #[trigger] a.locals.locals[i] by {
        assert(b.locals.locals[i] == a.locals.locals[i]);
        assert(c.locals.locals[i] == b.locals.locals[i]);
    }
}

/// Binding a name to a new local for a `let` keeps what was there.
pub proof fn lemma_declare_follows(
    env: Env,
    span: Span,
    name: Seq<char>,
    type_: Type,
    store: bool,
)
    requires
        env.wf(),
    ensures
        env.declare(span, name, type_, store).follows(env),
{
    let after = env.declare(span, name, type_, store);
    assert forall|i: int, n: Seq<char>|
        0 <= i < after.scopes.len() && #[trigger] after.scopes[i].contains_key(n)
        implies after.scopes[i][n] < after.locals.locals.len() by {
        if i < env.scopes.len() - 1 || n != name {
            assert(env.scopes[i].contains_key(n));
        }
    }
}

/// What a scope of its own leaves behind follows what was there before it.
pub proof fn lemma_scope_follows(env: Env, inner: Env)
    requires
        env.wf(),
        inner.follows(env.push_scope()),
    ensures
        env.push_scope().wf(),
        inner.pop_scope().follows(env),
{
    let after = inner.pop_scope();
    assert forall|i: int, n: Seq<char>|
        0 <= i < after.scopes.len() && #[trigger] after.scopes[i].contains_key(n)
        implies after.scopes[i][n] < after.locals.locals.len() by {
        assert(inner.scopes[i].contains_key(n));
    }
}

proof fn lemma_pushed_scope_wf(env: Env)
    requires
        env.wf(),
    ensures
        env.push_scope().wf(),
{
    let after = env.push_scope();
    assert forall|i: int, n: Seq<char>|
        0 <= i < after.scopes.len() && #[trigger] after.scopes[i].contains_key(n)
        implies after.scopes[i][n] < after.locals.locals.len() by {
        if i < env.scopes.len() {
            assert(env.scopes[i].contains_key(n));
        }
    }
}

/// What a loop or a labelled block leaves behind follows what was there
/// before it.
pub proof fn lemma_label_follows(env: Env, label: Seq<char>, inner: Env)
    requires
        env.wf(),
        inner.follows(env.push_label(label)),
    ensures
        inner.pop_label().follows(env),
{
    assert(inner.pop_label().labels =~= env.labels);
}

proof fn lemma_let_follows(env: Env, e: ExpressionView)
    requires
        env.wf(),
        e.expr is Let,
        check_let(env, e) is Ok,
    ensures
        check_let(env, e)->Ok_0.0.follows(env),
    decreases e, 0nat,
{
    match e.expr {
        ExprView::Let { name, type_, value, let_type, local_id } => {
            let store = let_type != LetType::Inline;
            match value {
                Some(v) => {
                    lemma_check_follows(env, *v);
                    let env1 = check_expression(env, *v)->Ok_0.0;
                    let after = check_let(env, e)->Ok_0.0;
                    match check_let(env, e)->Ok_0.1.expr {
                        ExprView::Let { type_: Some(t), .. } => {
                            lemma_declare_follows(env1, e.span, name, t, store);
                            lemma_follows_transitive(env, env1, after);
                        },
                        _ => {},
                    }
                },
                None => {
                    match check_let(env, e)->Ok_0.1.expr {
                        ExprView::Let { type_: Some(t), .. } => {
                            lemma_declare_follows(env, e.span, name, t, store);
                        },
                        _ => {},
                    }
                },
            }
        },
        _ => {},
    }
}

proof fn lemma_one_follows(env: Env, e: ExpressionView)
    requires
        env.wf(),
        e.expr is Assign || e.expr is LocalTee || e.expr is UnaryOp || e.expr is Cast
            || e.expr is BranchIf || e.expr is Return,
        check_expression(env, e) is Ok,
    ensures
        check_expression(env, e)->Ok_0.0.follows(env),
    decreases e, 0nat,
{
    match e.expr {
        ExprView::Assign { value, .. } => {
            assert(check_expression(env, e) == check_assign(env, e));
            lemma_check_follows(env, *value);
        },
        ExprView::LocalTee { value, .. } => {
            assert(check_expression(env, e) == check_tee(env, e));
            lemma_check_follows(env, *value);
        },
        ExprView::UnaryOp { value, .. } => {
            assert(check_expression(env, e) == check_unary(env, e));
            lemma_check_follows(env, *value);
        },
        ExprView::Cast { value, .. } => {
            assert(check_expression(env, e) == check_cast(env, e));
            lemma_check_follows(env, *value);
        },
        ExprView::BranchIf { condition, .. } => {
            assert(check_expression(env, e) == check_branch_if(env, e));
            lemma_check_follows(env, *condition);
        },
        ExprView::Return { value } => {
            assert(check_expression(env, e) == check_return(env, e));
            match value {
                Some(v) => {
                    lemma_check_follows(env, *v);
                },
                None => {},
            }
        },
        _ => {},
    }
}

proof fn lemma_two_follows(env: Env, e: ExpressionView)
    requires
        env.wf(),
        e.expr is BinOp || e.expr is First,
        check_expression(env, e) is Ok,
    ensures
        check_expression(env, e)->Ok_0.0.follows(env),
    decreases e, 0nat,
{
    match e.expr {
        ExprView::BinOp { left, right, .. } => {
            assert(check_expression(env, e) == check_binary(env, e));
            lemma_check_follows(env, *left);
            let env1 = check_expression(env, *left)->Ok_0.0;
            lemma_check_follows(env1, *right);
            let env2 = check_expression(env1, *right)->Ok_0.0;
            lemma_follows_transitive(env, env1, env2);
        },
        ExprView::First { value, drop } => {
            assert(check_expression(env, e) == check_first(env, e));
            lemma_check_follows(env, *value);
            let env1 = check_expression(env, *value)->Ok_0.0;
            lemma_check_follows(env1, *drop);
            let env2 = check_expression(env1, *drop)->Ok_0.0;
            lemma_follows_transitive(env, env1, env2);
        },
        _ => {},
    }
}

proof fn lemma_three_follows(env: Env, e: ExpressionView)
    requires
        env.wf(),
        e.expr is Select || e.expr is If,
        check_expression(env, e) is Ok,
    ensures
        check_expression(env, e)->Ok_0.0.follows(env),
    decreases e, 0nat,
{
    match e.expr {
        ExprView::Select { condition, if_true, if_false } => {
            assert(check_expression(env, e) == check_select(env, e));
            lemma_check_follows(env, *condition);
            let env1 = check_expression(env, *condition)->Ok_0.0;
            lemma_check_follows(env1, *if_true);
            let env2 = check_expression(env1, *if_true)->Ok_0.0;
            lemma_check_follows(env2, *if_false);
            let env3 = check_expression(env2, *if_false)->Ok_0.0;
            lemma_follows_transitive(env, env1, env2);
            lemma_follows_transitive(env, env2, env3);
        },
        ExprView::If { condition, if_true, if_false } => {
            assert(check_expression(env, e) == check_if(env, e));
            lemma_check_follows(env, *condition);
            let env1 = check_expression(env, *condition)->Ok_0.0;
            lemma_check_follows(env1, *if_true);
            let env2 = check_expression(env1, *if_true)->Ok_0.0;
            lemma_follows_transitive(env, env1, env2);
            match if_false {
                Some(f) => {
                    lemma_check_follows(env2, *f);
                    let env3 = check_expression(env2, *f)->Ok_0.0;
                    lemma_follows_transitive(env, env2, env3);
                },
                None => {},
            }
        },
        _ => {},
    }
}

proof fn lemma_memory_follows(env: Env, e: ExpressionView)
    requires
        env.wf(),
        e.expr is Peek || e.expr is Poke,
        check_expression(env, e) is Ok,
    ensures
        check_expression(env, e)->Ok_0.0.follows(env),
    decreases e, 0nat,
{
    match e.expr {
        ExprView::Peek(m) => {
            assert(check_expression(env, e) == check_peek(env, e));
            assert(check_mem_location(env, m) is Ok);
            lemma_check_follows(env, *m.left);
        },
        ExprView::Poke { mem_location, value } => {
            assert(check_expression(env, e) == check_poke(env, e));
            assert(check_mem_location(env, mem_location) is Ok);
            lemma_check_follows(env, *mem_location.left);
            let env1 = check_expression(env, *mem_location.left)->Ok_0.0;
            lemma_check_follows(env1, *value);
            let env2 = check_expression(env1, *value)->Ok_0.0;
            lemma_follows_transitive(env, env1, env2);
        },
        _ => {},
    }
}

proof fn lemma_label_body_follows(env: Env, e: ExpressionView)
    requires
        env.wf(),
        e.expr is Loop || e.expr is LabelBlock,
        check_expression(env, e) is Ok,
    ensures
        check_expression(env, e)->Ok_0.0.follows(env),
    decreases e, 0nat,
{
    match e.expr {
        ExprView::Loop { label, block } => {
            assert(check_expression(env, e) == check_loop(env, e));
            lemma_check_follows(env.push_label(label), *block);
            lemma_label_follows(
                env,
                label,
                check_expression(env.push_label(label), *block)->Ok_0.0,
            );
        },
        ExprView::LabelBlock { label, block } => {
            assert(check_expression(env, e) == check_label_block(env, e));
            lemma_check_follows(env.push_label(label), *block);
            lemma_label_follows(
                env,
                label,
                check_expression(env.push_label(label), *block)->Ok_0.0,
            );
        },
        _ => {},
    }
}

proof fn lemma_block_follows(env: Env, e: ExpressionView)
    requires
        env.wf(),
        e.expr is Block,
        check_expression(env, e) is Ok,
    ensures
        check_expression(env, e)->Ok_0.0.follows(env),
    decreases e, 0nat,
{
    match e.expr {
        ExprView::Block(b) => {
            assert(check_expression(env, e) == check_block(env, e));
            let pushed = env.push_scope();
            lemma_pushed_scope_wf(env);
            lemma_sequence_follows(pushed, b.statements, b.statements.len(), false);
            let env1 = check_sequence(pushed, b.statements, b.statements.len(), false)->Ok_0.0;
            match b.final_expression {
                Some(f) => {
                    lemma_check_follows(env1, *f);
                    let env2 = check_expression(env1, *f)->Ok_0.0;
                    lemma_follows_transitive(pushed, env1, env2);
                    lemma_scope_follows(env, env2);
                },
                None => {
                    lemma_scope_follows(env, env1);
                },
            }
        },
        _ => {},
    }
}

proof fn lemma_call_follows(env: Env, e: ExpressionView)
    requires
        env.wf(),
        e.expr is FuncCall,
        check_expression(env, e) is Ok,
    ensures
        check_expression(env, e)->Ok_0.0.follows(env),
    decreases e, 0nat,
{
    match e.expr {
        ExprView::FuncCall { name, params } => {
            assert(check_expression(env, e) == check_call(env, e));
            lemma_sequence_follows(env, params, params.len(), true);
        },
        _ => {},
    }
}

/// Checking expressions one after the other leaves the tables, the labels
/// and the open scopes as they were and only adds locals.
pub proof fn lemma_sequence_follows(env: Env, s: Seq<ExpressionView>, n: nat, need_value: bool)
    requires
        env.wf(),
        check_sequence(env, s, n, need_value) is Ok,
    ensures
        check_sequence(env, s, n, need_value)->Ok_0.0.follows(env),
    decreases s, n,
{
    if n == 0 || n > s.len() {
    } else {
        lemma_sequence_follows(env, s, (n - 1) as nat, need_value);
        let env1 = check_sequence(env, s, (n - 1) as nat, need_value)->Ok_0.0;
        lemma_check_follows(env1, s[n - 1]);
        let env2 = check_expression(env1, s[n - 1])->Ok_0.0;
        lemma_follows_transitive(env, env1, env2);
    }
}

/// Checking an expression leaves the tables, the labels and the open
/// scopes as they were and only adds locals.
pub proof fn lemma_check_follows(env: Env, e: ExpressionView)
    requires
        env.wf(),
        check_expression(env, e) is Ok,
    ensures
        check_expression(env, e)->Ok_0.0.follows(env),
    decreases e, 1nat,
{
    match e.expr {
        ExprView::Let { .. } => {
            lemma_let_follows(env, e);
        },
        ExprView::Assign { .. } => {
            lemma_one_follows(env, e);
        },
        ExprView::LocalTee { .. } => {
            lemma_one_follows(env, e);
        },
        ExprView::UnaryOp { .. } => {
            lemma_one_follows(env, e);
        },
        ExprView::Cast { .. } => {
            lemma_one_follows(env, e);
        },
        ExprView::BranchIf { .. } => {
            lemma_one_follows(env, e);
        },
        ExprView::Return { .. } => {
            lemma_one_follows(env, e);
        },
        ExprView::BinOp { .. } => {
            lemma_two_follows(env, e);
        },
        ExprView::First { .. } => {
            lemma_two_follows(env, e);
        },
        ExprView::Select { .. } => {
            lemma_three_follows(env, e);
        },
        ExprView::If { .. } => {
            lemma_three_follows(env, e);
        },
        ExprView::Peek(_) => {
            lemma_memory_follows(env, e);
        },
        ExprView::Poke { .. } => {
            lemma_memory_follows(env, e);
        },
        ExprView::Loop { .. } => {
            lemma_label_body_follows(env, e);
        },
        ExprView::LabelBlock { .. } => {
            lemma_label_body_follows(env, e);
        },
        ExprView::Block(_) => {
            lemma_block_follows(env, e);
        },
        ExprView::FuncCall { .. } => {
            lemma_call_follows(env, e);
        },
        _ => {},
    }
}

/// An inline `let` that checks binds a local without a slot, as long as
/// the ids of the locals can be held.
pub proof fn lemma_inline_let_has_no_slot(env: Env, e: ExpressionView)
    requires
        env.wf(),
        e.expr matches ExprView::Let { let_type, .. } && let_type == LetType::Inline,
        check_expression(env, e) matches Ok((after, _)) && after.locals.locals.len()
            <= usize::MAX,
    ensures
        check_expression(env, e) matches Ok((after, checked)) && (checked.expr matches ExprView::Let {
            local_id: Some(id),
            ..
        } && id < after.locals.locals.len() && after.locals.locals[id as int].index is None),
{
    match e.expr {
        ExprView::Let { name, type_, value, let_type, local_id } => {
            match value {
                Some(v) => {
                    lemma_check_follows(env, *v);
                    let env1 = check_expression(env, *v)->Ok_0.0;
                    match check_let(env, e)->Ok_0.1.expr {
                        ExprView::Let { type_: Some(t), .. } => {
                            lemma_declare_follows(env1, e.span, name, t, false);
                        },
                        _ => {},
                    }
                },
                None => {
                    match check_let(env, e)->Ok_0.1.expr {
                        ExprView::Let { type_: Some(t), .. } => {
                            lemma_declare_follows(env, e.span, name, t, false);
                        },
                        _ => {},
                    }
                },
            }
        },
        _ => {},
    }
}

/// An assignment to a name that stands for an inline local fails as an
/// assignment to something immutable, whatever the value is, once the
/// value itself has been checked.
pub proof fn lemma_assign_to_inline_fails(env: Env, e: ExpressionView)
    requires
        e.expr matches ExprView::Assign { name, value, .. } && (check_expression(env, *value)
            matches Ok((after, _)) && (after.resolve(name) matches Some(id)
            && after.locals.locals[id as int].index is None)),
    ensures
        check_expression(env, e) matches Err(d) && d.kind
            == ErrorKind::ImmutableAssignment,
{
}

/// A tee to a name that stands for an inline local fails as an assignment
/// to something immutable, whatever the value is, once the value itself
/// has been checked.
pub proof fn lemma_tee_to_inline_fails(env: Env, e: ExpressionView)
    requires
        e.expr matches ExprView::LocalTee { name, value, .. } && (check_expression(env, *value)
            matches Ok((after, _)) && (after.resolve(name) matches Some(id)
            && after.locals.locals[id as int].index is None)),
    ensures
        check_expression(env, e) matches Err(d) && d.kind
            == ErrorKind::ImmutableAssignment,
{
}

/// A call with checked arguments whose types no candidate takes fails
/// with a diagnostic that has one label for each candidate of the name, in
/// their order.
pub proof fn lemma_no_overload_lists_candidates(
    env: Env,
    name: Seq<char>,
    args: Seq<Type>,
    span: Span,
)
    requires
        env.candidates(name) matches Some(candidates) && find_signature(candidates, args, 0)
            is None,
    ensures
        call_result(env, name, args, span) matches Err(d) && d.kind
            == ErrorKind::NoMatchingOverload && d.labels.len()
            == env.candidates(name).unwrap().len() && forall|i: int|
            0 <= i < d.labels.len() ==> (#[trigger] d.labels[i]).message
                == candidate_text(name, env.candidates(name).unwrap()[i]),
{
}

/// A signature is found exactly if one of the candidates takes the
/// arguments.
pub proof fn lemma_find_signature(candidates: Seq<SignatureView>, args: Seq<Type>, i: nat)
    ensures
        find_signature(candidates, args, i) is Some <==> exists|j: int|
            i <= j < candidates.len() && (#[trigger] candidates[j]).params == args,
    decreases candidates.len() - i,
{
    if i < candidates.len() {
        lemma_find_signature(candidates, args, i + 1);
        if candidates[i as int].params != args {
            if find_signature(candidates, args, i) is Some {
                let j = choose|j: int|
                    i + 1 <= j < candidates.len() && (#[trigger] candidates[j]).params == args;
                assert(i <= j < candidates.len() && candidates[j].params == args);
            }
        }
    }
}

/// A call whose arguments check, and whose argument types none of the
/// candidates of its name takes, fails: the diagnostic says that no
/// function matches and has one label for each candidate, in their order.
pub proof fn lemma_call_without_match_fails(env: Env, e: ExpressionView)
    requires
        e.expr matches ExprView::FuncCall { name, params } && (check_sequence(
            env,
            params,
            params.len(),
            true,
        ) matches Ok((after, checked)) && (after.candidates(name) matches Some(candidates)
            && forall|j: int|
            0 <= j < candidates.len() ==> (#[trigger] candidates[j]).params != argument_types(
                checked,
            ))),
    ensures
        e.expr matches ExprView::FuncCall { name, params } && (check_sequence(
            env,
            params,
            params.len(),
            true,
        ) matches Ok((after, _)) && (check_expression(env, e) matches Err(d) && d.kind
            == ErrorKind::NoMatchingOverload && d.span == e.span && d.labels.len()
            == after.candidates(name).unwrap().len() && forall|i: int|
            0 <= i < d.labels.len() ==> (#[trigger] d.labels[i]).message == candidate_text(
                name,
                after.candidates(name).unwrap()[i],
            ))),
{
    match e.expr {
        ExprView::FuncCall { name, params } => {
            let (after, checked) = check_sequence(env, params, params.len(), true)->Ok_0;
            let candidates = after.candidates(name)->0;
            lemma_find_signature(candidates, argument_types(checked), 0);
            lemma_no_overload_lists_candidates(after, name, argument_types(checked), e.span);
        },
        _ => {},
    }
}

/// A `let` of a name that the innermost scope declares already fails, once
/// its value has been checked and its type is known: the diagnostic is a
/// duplicate definition at the `let`, and names the place of the local that
/// the scope has under the name.
pub proof fn lemma_second_let_is_duplicate(env: Env, e: ExpressionView)
    requires
        e.expr matches ExprView::Let { name, type_, value, .. } && match value {
            Some(v) => check_expression(env, *v) matches Ok((env1, v1)) && let_type_result(
                type_,
                Some((v1.type_, v1.span)),
                e.span,
            ) is Ok && env1.declared_here(name) is Some,
            None => type_ is Some && env.declared_here(name) is Some,
        },
    ensures
        e.expr matches ExprView::Let { name, value, .. } && check_expression(env, e) == Err::<
            (Env, ExpressionView),
            DiagnosticView,
        >(
            spec_duplicate_definition(
                Definition::Variable,
                e.span,
                match value {
                    Some(v) => {
                        let env1 = check_expression(env, *v)->Ok_0.0;
                        env1.locals.locals[env1.declared_here(name)->0 as int].span
                    },
                    None => env.locals.locals[env.declared_here(name)->0 as int].span,
                },
            ),
        ),
{
}

/// Every `let` in the tree is bound to a local of `locals`, and that local
/// has a slot exactly if the `let` is a stored one.
pub open spec fn lets_bound(e: ExpressionView, locals: Seq<LocalView>) -> bool
    decreases e,
{
    match e.expr {
        ExprView::I32Const(_) => true,
        ExprView::I64Const(_) => true,
        ExprView::F32Const(_) => true,
        ExprView::F64Const(_) => true,
        ExprView::Variable { .. } => true,
        ExprView::Let { value, let_type, local_id, .. } => {
            &&& local_id matches Some(id) && id < locals.len() && (locals[id as int].index is None
                <==> let_type == LetType::Inline)
            &&& match value {
                Some(v) => lets_bound(*v, locals),
                None => true,
            }
        },
        ExprView::Assign { value, .. } => lets_bound(*value, locals),
        ExprView::LocalTee { value, .. } => lets_bound(*value, locals),
        ExprView::Peek(m) => lets_bound(*m.left, locals) && lets_bound(*m.right, locals),
        ExprView::Poke { mem_location, value } => lets_bound(*mem_location.left, locals)
            && lets_bound(*mem_location.right, locals) && lets_bound(*value, locals),
        ExprView::UnaryOp { value, .. } => lets_bound(*value, locals),
        ExprView::BinOp { left, right, .. } => lets_bound(*left, locals) && lets_bound(
            *right,
            locals,
        ),
        ExprView::Block(b) => {
            &&& forall|i: int|
                0 <= i < b.statements.len() ==> lets_bound(#[trigger] b.statements[i], locals)
            &&& match b.final_expression {
                Some(f) => lets_bound(*f, locals),
                None => true,
            }
        },
        ExprView::Loop { block, .. } => lets_bound(*block, locals),
        ExprView::LabelBlock { block, .. } => lets_bound(*block, locals),
        ExprView::Branch(_) => true,
        ExprView::BranchIf { condition, .. } => lets_bound(*condition, locals),
        ExprView::Cast { value, .. } => lets_bound(*value, locals),
        ExprView::FuncCall { params, .. } => forall|i: int|
            0 <= i < params.len() ==> lets_bound(#[trigger] params[i], locals),
        ExprView::Select { condition, if_true, if_false } => lets_bound(*condition, locals)
            && lets_bound(*if_true, locals) && lets_bound(*if_false, locals),
        ExprView::If { condition, if_true, if_false } => lets_bound(*condition, locals)
            && lets_bound(*if_true, locals) && match if_false {
            Some(f) => lets_bound(*f, locals),
            None => true,
        },
        ExprView::Return { value } => match value {
            Some(v) => lets_bound(*v, locals),
            None => true,
        },
        ExprView::First { value, drop } => lets_bound(*value, locals) && lets_bound(*drop, locals),
        ExprView::Error => true,
    }
}

/// The locals `later` have every local of `earlier` at its place, with a
/// slot exactly where `earlier` has one.
pub open spec fn keeps_slots(earlier: Seq<LocalView>, later: Seq<LocalView>) -> bool {
    &&& earlier.len() <= later.len()
    &&& forall|i: int|
        0 <= i < earlier.len() ==> ((#[trigger] later[i]).index is None <==> earlier[i].index
            is None)
}

/// What is bound stays bound when locals are added and when slots are
/// given out.
pub proof fn lemma_lets_stay_bound(e: ExpressionView, earlier: Seq<LocalView>, later: Seq<LocalView>)
    requires
        lets_bound(e, earlier),
        keeps_slots(earlier, later),
    ensures
        lets_bound(e, later),
    decreases e,
{
    match e.expr {
        ExprView::Let { value, local_id, .. } => {
            assert(later[local_id->0 as int].index is None <==> earlier[local_id->0 as int].index
                is None);
            match value {
                Some(v) => {
                    lemma_lets_stay_bound(*v, earlier, later);
                },
                None => {},
            }
        },
        ExprView::Assign { value, .. } => {
            lemma_lets_stay_bound(*value, earlier, later);
        },
        ExprView::LocalTee { value, .. } => {
            lemma_lets_stay_bound(*value, earlier, later);
        },
        ExprView::Peek(m) => {
            lemma_lets_stay_bound(*m.left, earlier, later);
            lemma_lets_stay_bound(*m.right, earlier, later);
        },
        ExprView::Poke { mem_location, value } => {
            lemma_lets_stay_bound(*mem_location.left, earlier, later);
            lemma_lets_stay_bound(*mem_location.right, earlier, later);
            lemma_lets_stay_bound(*value, earlier, later);
        },
        ExprView::UnaryOp { value, .. } => {
            lemma_lets_stay_bound(*value, earlier, later);
        },
        ExprView::BinOp { left, right, .. } => {
            lemma_lets_stay_bound(*left, earlier, later);
            lemma_lets_stay_bound(*right, earlier, later);
        },
        ExprView::Block(b) => {
            assert forall|i: int| 0 <= i < b.statements.len() implies lets_bound(
                #[trigger] b.statements[i],
                later,
            ) by {
                lemma_lets_stay_bound(b.statements[i], earlier, later);
            }
            match b.final_expression {
                Some(f) => {
                    lemma_lets_stay_bound(*f, earlier, later);
                },
                None => {},
            }
        },
        ExprView::Loop { block, .. } => {
            lemma_lets_stay_bound(*block, earlier, later);
        },
        ExprView::LabelBlock { block, .. } => {
            lemma_lets_stay_bound(*block, earlier, later);
        },
        ExprView::BranchIf { condition, .. } => {
            lemma_lets_stay_bound(*condition, earlier, later);
        },
        ExprView::Cast { value, .. } => {
            lemma_lets_stay_bound(*value, earlier, later);
        },
        ExprView::FuncCall { params, .. } => {
            assert forall|i: int| 0 <= i < params.len() implies lets_bound(
                #[trigger] params[i],
                later,
            ) by {
                lemma_lets_stay_bound(params[i], earlier, later);
            }
        },
        ExprView::Select { condition, if_true, if_false } => {
            lemma_lets_stay_bound(*condition, earlier, later);
            lemma_lets_stay_bound(*if_true, earlier, later);
            lemma_lets_stay_bound(*if_false, earlier, later);
        },
        ExprView::If { condition, if_true, if_false } => {
            lemma_lets_stay_bound(*condition, earlier, later);
            lemma_lets_stay_bound(*if_true, earlier, later);
            match if_false {
                Some(f) => {
                    lemma_lets_stay_bound(*f, earlier, later);
                },
                None => {},
            }
        },
        ExprView::Return { value } => {
            match value {
                Some(v) => {
                    lemma_lets_stay_bound(*v, earlier, later);
                },
                None => {},
            }
        },
        ExprView::First { value, drop } => {
            lemma_lets_stay_bound(*value, earlier, later);
            lemma_lets_stay_bound(*drop, earlier, later);
        },
        _ => {},
    }
}

/// What was bound in an environment is bound in one that follows it.
proof fn lemma_carry(e: ExpressionView, earlier: Env, later: Env)
    requires
        lets_bound(e, earlier.locals.locals),
        later.follows(earlier),
    ensures
        lets_bound(e, later.locals.locals),
{
    assert forall|i: int| 0 <= i < earlier.locals.locals.len() implies ((
    #[trigger] later.locals.locals[i]).index is None <==> earlier.locals.locals[i].index
        is None) by {
        assert(later.locals.locals[i] == earlier.locals.locals[i]);
    }
    lemma_lets_stay_bound(e, earlier.locals.locals, later.locals.locals);
}

proof fn lemma_let_binds(env: Env, e: ExpressionView)
    requires
        env.wf(),
        e.expr is Let,
        check_expression(env, e) matches Ok((after, _)) && after.locals.locals.len()
            <= usize::MAX,
    ensures
        check_expression(env, e) matches Ok((after, checked)) && lets_bound(
            checked,
            after.locals.locals,
        ),
    decreases e, 0nat,
{
    match e.expr {
        ExprView::Let { name, type_, value, let_type, local_id } => {
            let store = let_type != LetType::Inline;
            let after = check_let(env, e)->Ok_0.0;
            match value {
                Some(v) => {
                    lemma_check_follows(env, *v);
                    let (env1, v1) = check_expression(env, *v)->Ok_0;
                    match check_let(env, e)->Ok_0.1.expr {
                        ExprView::Let { type_: Some(t), .. } => {
                            lemma_declare_follows(env1, e.span, name, t, store);
                            lemma_check_binds(env, *v);
                            lemma_carry(v1, env1, after);
                        },
                        _ => {},
                    }
                },
                None => {},
            }
        },
        _ => {},
    }
}

proof fn lemma_one_binds(env: Env, e: ExpressionView)
    requires
        env.wf(),
        e.expr is Assign || e.expr is LocalTee || e.expr is UnaryOp || e.expr is Cast || e.expr is BranchIf || e.expr is Return,
        check_expression(env, e) matches Ok((after, _)) && after.locals.locals.len()
            <= usize::MAX,
    ensures
        check_expression(env, e) matches Ok((after, checked)) && lets_bound(
            checked,
            after.locals.locals,
        ),
    decreases e, 0nat,
{
    match e.expr {
        ExprView::Assign { value, .. } => {
            assert(check_expression(env, e) == check_assign(env, e));
            lemma_check_follows(env, *value);
            lemma_check_binds(env, *value);
        },
        ExprView::LocalTee { value, .. } => {
            assert(check_expression(env, e) == check_tee(env, e));
            lemma_check_follows(env, *value);
            lemma_check_binds(env, *value);
        },
        ExprView::UnaryOp { value, .. } => {
            assert(check_expression(env, e) == check_unary(env, e));
            lemma_check_follows(env, *value);
            lemma_check_binds(env, *value);
        },
        ExprView::Cast { value, .. } => {
            assert(check_expression(env, e) == check_cast(env, e));
            lemma_check_follows(env, *value);
            lemma_check_binds(env, *value);
        },
        ExprView::BranchIf { condition, .. } => {
            assert(check_expression(env, e) == check_branch_if(env, e));
            lemma_check_follows(env, *condition);
            lemma_check_binds(env, *condition);
        },
        ExprView::Return { value } => {
            assert(check_expression(env, e) == check_return(env, e));
            match value {
                Some(v) => {
                    lemma_check_follows(env, *v);
                    lemma_check_binds(env, *v);
                },
                None => {},
            }
        },
        _ => {},
    }
}

proof fn lemma_two_binds(env: Env, e: ExpressionView)
    requires
        env.wf(),
        e.expr is BinOp || e.expr is First,
        check_expression(env, e) matches Ok((after, _)) && after.locals.locals.len()
            <= usize::MAX,
    ensures
        check_expression(env, e) matches Ok((after, checked)) && lets_bound(
            checked,
            after.locals.locals,
        ),
    decreases e, 0nat,
{
    match e.expr {
        ExprView::BinOp { left, right, .. } => {
            assert(check_expression(env, e) == check_binary(env, e));
            lemma_check_follows(env, *left);
            let (env1, first) = check_expression(env, *left)->Ok_0;
            lemma_check_follows(env1, *right);
            let env2 = check_expression(env1, *right)->Ok_0.0;
            lemma_check_binds(env, *left);
            lemma_check_binds(env1, *right);
            lemma_carry(first, env1, env2);
        },
        ExprView::First { value, drop } => {
            assert(check_expression(env, e) == check_first(env, e));
            lemma_check_follows(env, *value);
            let (env1, first) = check_expression(env, *value)->Ok_0;
            lemma_check_follows(env1, *drop);
            let env2 = check_expression(env1, *drop)->Ok_0.0;
            lemma_check_binds(env, *value);
            lemma_check_binds(env1, *drop);
            lemma_carry(first, env1, env2);
        },
        _ => {},
    }
}

proof fn lemma_three_binds(env: Env, e: ExpressionView)
    requires
        env.wf(),
        e.expr is Select || e.expr is If,
        check_expression(env, e) matches Ok((after, _)) && after.locals.locals.len()
            <= usize::MAX,
    ensures
        check_expression(env, e) matches Ok((after, checked)) && lets_bound(
            checked,
            after.locals.locals,
        ),
    decreases e, 0nat,
{
    match e.expr {
        ExprView::Select { condition, if_true, if_false } => {
            assert(check_expression(env, e) == check_select(env, e));
            lemma_check_follows(env, *condition);
            let (env1, c1) = check_expression(env, *condition)->Ok_0;
            lemma_check_follows(env1, *if_true);
            let (env2, t1) = check_expression(env1, *if_true)->Ok_0;
            lemma_check_follows(env2, *if_false);
            let env3 = check_expression(env2, *if_false)->Ok_0.0;
            lemma_check_binds(env, *condition);
            lemma_check_binds(env1, *if_true);
            lemma_check_binds(env2, *if_false);
            lemma_carry(c1, env1, env2);
            lemma_carry(c1, env2, env3);
            lemma_carry(t1, env2, env3);
        },
        ExprView::If { condition, if_true, if_false } => {
            assert(check_expression(env, e) == check_if(env, e));
            lemma_check_follows(env, *condition);
            let (env1, c1) = check_expression(env, *condition)->Ok_0;
            lemma_check_follows(env1, *if_true);
            let (env2, t1) = check_expression(env1, *if_true)->Ok_0;
            match if_false {
                Some(f) => {
                    lemma_check_follows(env2, *f);
                    let env3 = check_expression(env2, *f)->Ok_0.0;
                    lemma_check_binds(env, *condition);
                    lemma_check_binds(env1, *if_true);
                    lemma_check_binds(env2, *f);
                    lemma_carry(c1, env1, env2);
                    lemma_carry(c1, env2, env3);
                    lemma_carry(t1, env2, env3);
                },
                None => {
                    lemma_check_binds(env, *condition);
                    lemma_check_binds(env1, *if_true);
                    lemma_carry(c1, env1, env2);
                },
            }
        },
        _ => {},
    }
}

proof fn lemma_memory_binds(env: Env, e: ExpressionView)
    requires
        env.wf(),
        e.expr is Peek || e.expr is Poke,
        check_expression(env, e) matches Ok((after, _)) && after.locals.locals.len()
            <= usize::MAX,
    ensures
        check_expression(env, e) matches Ok((after, checked)) && lets_bound(
            checked,
            after.locals.locals,
        ),
    decreases e, 0nat,
{
    match e.expr {
        ExprView::Peek(m) => {
            assert(check_expression(env, e) == check_peek(env, e));
            assert(check_mem_location(env, m) is Ok);
            lemma_check_follows(env, *m.left);
            lemma_check_binds(env, *m.left);
            let env1 = check_expression(env, *m.left)->Ok_0.0;
            assert(lets_bound(check_const(*m.right)->Ok_0, env1.locals.locals));
        },
        ExprView::Poke { mem_location, value } => {
            assert(check_expression(env, e) == check_poke(env, e));
            assert(check_mem_location(env, mem_location) is Ok);
            lemma_check_follows(env, *mem_location.left);
            let (env1, left) = check_expression(env, *mem_location.left)->Ok_0;
            lemma_check_follows(env1, *value);
            let env2 = check_expression(env1, *value)->Ok_0.0;
            lemma_check_binds(env, *mem_location.left);
            lemma_check_binds(env1, *value);
            lemma_carry(left, env1, env2);
            assert(lets_bound(check_const(*mem_location.right)->Ok_0, env2.locals.locals));
        },
        _ => {},
    }
}

proof fn lemma_label_body_binds(env: Env, e: ExpressionView)
    requires
        env.wf(),
        e.expr is Loop || e.expr is LabelBlock,
        check_expression(env, e) matches Ok((after, _)) && after.locals.locals.len()
            <= usize::MAX,
    ensures
        check_expression(env, e) matches Ok((after, checked)) && lets_bound(
            checked,
            after.locals.locals,
        ),
    decreases e, 0nat,
{
    match e.expr {
        ExprView::Loop { label, block } => {
            assert(check_expression(env, e) == check_loop(env, e));
            lemma_check_follows(env.push_label(label), *block);
            lemma_check_binds(env.push_label(label), *block);
        },
        ExprView::LabelBlock { label, block } => {
            assert(check_expression(env, e) == check_label_block(env, e));
            lemma_check_follows(env.push_label(label), *block);
            lemma_check_binds(env.push_label(label), *block);
        },
        _ => {},
    }
}

proof fn lemma_block_binds(env: Env, e: ExpressionView)
    requires
        env.wf(),
        e.expr is Block,
        check_expression(env, e) matches Ok((after, _)) && after.locals.locals.len()
            <= usize::MAX,
    ensures
        check_expression(env, e) matches Ok((after, checked)) && lets_bound(
            checked,
            after.locals.locals,
        ),
    decreases e, 0nat,
{
    match e.expr {
        ExprView::Block(b) => {
            assert(check_expression(env, e) == check_block(env, e));
            let pushed = env.push_scope();
            lemma_pushed_scope_wf(env);
            lemma_sequence_follows(pushed, b.statements, b.statements.len(), false);
            let (env1, statements) = check_sequence(
                pushed,
                b.statements,
                b.statements.len(),
                false,
            )->Ok_0;
            match b.final_expression {
                Some(f) => {
                    lemma_check_follows(env1, *f);
                    let env2 = check_expression(env1, *f)->Ok_0.0;
                    lemma_sequence_binds(pushed, b.statements, b.statements.len(), false);
                    lemma_check_binds(env1, *f);
                    assert forall|i: int| 0 <= i < statements.len() implies lets_bound(
                        #[trigger] statements[i],
                        env2.locals.locals,
                    ) by {
                        lemma_carry(statements[i], env1, env2);
                    }
                },
                None => {
                    lemma_sequence_binds(pushed, b.statements, b.statements.len(), false);
                },
            }
        },
        _ => {},
    }
}

proof fn lemma_call_binds(env: Env, e: ExpressionView)
    requires
        env.wf(),
        e.expr is FuncCall,
        check_expression(env, e) matches Ok((after, _)) && after.locals.locals.len()
            <= usize::MAX,
    ensures
        check_expression(env, e) matches Ok((after, checked)) && lets_bound(
            checked,
            after.locals.locals,
        ),
    decreases e, 0nat,
{
    match e.expr {
        ExprView::FuncCall { name, params } => {
            assert(check_expression(env, e) == check_call(env, e));
            lemma_sequence_binds(env, params, params.len(), true);
        },
        _ => {},
    }
}

/// After expressions are checked one after the other, every `let` in them
/// is bound to a local, which has a slot exactly if the `let` is a stored
/// one.
pub proof fn lemma_sequence_binds(env: Env, s: Seq<ExpressionView>, n: nat, need_value: bool)
    requires
        env.wf(),
        check_sequence(env, s, n, need_value) matches Ok((after, _)) && after.locals.locals.len()
            <= usize::MAX,
    ensures
        check_sequence(env, s, n, need_value) matches Ok((after, checked)) && forall|i: int|
            0 <= i < checked.len() ==> lets_bound(#[trigger] checked[i], after.locals.locals),
    decreases s, n,
{
    if n == 0 || n > s.len() {
    } else {
        lemma_sequence_follows(env, s, (n - 1) as nat, need_value);
        let (env1, done) = check_sequence(env, s, (n - 1) as nat, need_value)->Ok_0;
        lemma_check_follows(env1, s[n - 1]);
        let (env2, last) = check_expression(env1, s[n - 1])->Ok_0;
        lemma_sequence_binds(env, s, (n - 1) as nat, need_value);
        lemma_check_binds(env1, s[n - 1]);
        let checked = done.push(last);
        assert forall|i: int| 0 <= i < checked.len() implies lets_bound(
            #[trigger] checked[i],
            env2.locals.locals,
        ) by {
            if i < done.len() {
                lemma_carry(done[i], env1, env2);
            }
        }
    }
}

/// After an expression is checked, every `let` in it is bound to a local,
/// which has a slot exactly if the `let` is a stored one: an inline `let`
/// takes no slot.
pub proof fn lemma_check_binds(env: Env, e: ExpressionView)
    requires
        env.wf(),
        check_expression(env, e) matches Ok((after, _)) && after.locals.locals.len()
            <= usize::MAX,
    ensures
        check_expression(env, e) matches Ok((after, checked)) && lets_bound(
            checked,
            after.locals.locals,
        ),
    decreases e, 1nat,
{
    match e.expr {
        ExprView::Let { .. } => {
            lemma_let_binds(env, e);
        },
        ExprView::Assign { .. } => {
            lemma_one_binds(env, e);
        },
        ExprView::LocalTee { .. } => {
            lemma_one_binds(env, e);
        },
        ExprView::UnaryOp { .. } => {
            lemma_one_binds(env, e);
        },
        ExprView::Cast { .. } => {
            lemma_one_binds(env, e);
        },
        ExprView::BranchIf { .. } => {
            lemma_one_binds(env, e);
        },
        ExprView::Return { .. } => {
            lemma_one_binds(env, e);
        },
        ExprView::BinOp { .. } => {
            lemma_two_binds(env, e);
        },
        ExprView::First { .. } => {
            lemma_two_binds(env, e);
        },
        ExprView::Select { .. } => {
            lemma_three_binds(env, e);
        },
        ExprView::If { .. } => {
            lemma_three_binds(env, e);
        },
        ExprView::Peek(_) => {
            lemma_memory_binds(env, e);
        },
        ExprView::Poke { .. } => {
            lemma_memory_binds(env, e);
        },
        ExprView::Loop { .. } => {
            lemma_label_body_binds(env, e);
        },
        ExprView::LabelBlock { .. } => {
            lemma_label_body_binds(env, e);
        },
        ExprView::Block(_) => {
            lemma_block_binds(env, e);
        },
        ExprView::FuncCall { .. } => {
            lemma_call_binds(env, e);
        },
        _ => {},
    }
}

} // verus!
