//! What checking changes in a tree: annotations only. The forms, spans,
//! names, operators, constants and labels of a checked tree are those of
//! the tree before; types and the ids of locals are filled in.

use crate::ast::{
    DataValuesView, DataView, ExprView, ExpressionView, FunctionView, GlobalVarView,
    MemoryLocationView, ScriptView, SignatureView, Type,
};
use crate::diag::{spec_type_mismatch, DiagnosticView};
use crate::rules::{
    check_assign, check_binary, check_block, check_branch_if, check_call, check_cast,
    check_const, check_expression, check_first, check_if, check_label_block, check_let,
    check_loop, check_mem_location, check_peek, check_poke, check_return, check_select,
    check_sequence, check_tee, check_unary, Env, FunctionTypeView, Var,
};
use crate::script::{
    bind_params, check_data, check_functions, check_parts, check_script, check_values,
    element_type, function_env, no_tables, register_functions, register_globals,
    register_imports, Bound, Signatures,
};
use vstd::prelude::*;

verus! {

/// `after` is `before` with annotations: both have the same form and span,
/// the same names, operators, constants and labels, and their parts are
/// related in the same way. A type that a `let` declares is kept.
pub open spec fn annotated(before: ExpressionView, after: ExpressionView) -> bool
    decreases before,
{
    &&& before.span == after.span
    &&& match (before.expr, after.expr) {
        (ExprView::I32Const(a), ExprView::I32Const(b)) => a == b,
        (ExprView::I64Const(a), ExprView::I64Const(b)) => a == b,
        (ExprView::F32Const(a), ExprView::F32Const(b)) => a == b,
        (ExprView::F64Const(a), ExprView::F64Const(b)) => a == b,
        (ExprView::Variable { name, .. }, ExprView::Variable { name: name2, .. }) => name == name2,
        (
            ExprView::Let { name, type_, value, let_type, .. },
            ExprView::Let { name: name2, type_: type2, value: value2, let_type: let_type2, .. },
        ) => {
            &&& name == name2
            &&& let_type == let_type2
            &&& type_ is Some ==> type2 == type_
            &&& match (value, value2) {
                (Some(v), Some(v2)) => annotated(*v, *v2),
                (None, None) => true,
                _ => false,
            }
        },
        (ExprView::Assign { name, value, .. }, ExprView::Assign { name: name2, value: value2, .. }) => {
            name == name2 && annotated(*value, *value2)
        },
        (
            ExprView::LocalTee { name, value, .. },
            ExprView::LocalTee { name: name2, value: value2, .. },
        ) => name == name2 && annotated(*value, *value2),
        (ExprView::Peek(m), ExprView::Peek(m2)) => {
            &&& m.span == m2.span
            &&& m.size == m2.size
            &&& annotated(*m.left, *m2.left)
            &&& annotated(*m.right, *m2.right)
        },
        (
            ExprView::Poke { mem_location: m, value },
            ExprView::Poke { mem_location: m2, value: value2 },
        ) => {
            &&& m.span == m2.span
            &&& m.size == m2.size
            &&& annotated(*m.left, *m2.left)
            &&& annotated(*m.right, *m2.right)
            &&& annotated(*value, *value2)
        },
        (ExprView::UnaryOp { op, value }, ExprView::UnaryOp { op: op2, value: value2 }) => {
            op == op2 && annotated(*value, *value2)
        },
        (
            ExprView::BinOp { op, left, right },
            ExprView::BinOp { op: op2, left: left2, right: right2 },
        ) => op == op2 && annotated(*left, *left2) && annotated(*right, *right2),
        (ExprView::Block(b), ExprView::Block(b2)) => {
            &&& b.statements.len() == b2.statements.len()
            &&& forall|i: int|
                0 <= i < b.statements.len() ==> annotated(
                    #[trigger] b.statements[i],
                    b2.statements[i],
                )
            &&& match (b.final_expression, b2.final_expression) {
                (Some(f), Some(f2)) => annotated(*f, *f2),
                (None, None) => true,
                _ => false,
            }
        },
        (ExprView::Loop { label, block }, ExprView::Loop { label: label2, block: block2 }) => {
            label == label2 && annotated(*block, *block2)
        },
        (
            ExprView::LabelBlock { label, block },
            ExprView::LabelBlock { label: label2, block: block2 },
        ) => label == label2 && annotated(*block, *block2),
        (ExprView::Branch(label), ExprView::Branch(label2)) => label == label2,
        (
            ExprView::BranchIf { condition, label },
            ExprView::BranchIf { condition: condition2, label: label2 },
        ) => label == label2 && annotated(*condition, *condition2),
        (ExprView::Cast { value, type_ }, ExprView::Cast { value: value2, type_: type2 }) => {
            type_ == type2 && annotated(*value, *value2)
        },
        (
            ExprView::FuncCall { name, params },
            ExprView::FuncCall { name: name2, params: params2 },
        ) => {
            &&& name == name2
            &&& params.len() == params2.len()
            &&& forall|i: int|
                0 <= i < params.len() ==> annotated(#[trigger] params[i], params2[i])
        },
        (
            ExprView::Select { condition, if_true, if_false },
            ExprView::Select { condition: condition2, if_true: if_true2, if_false: if_false2 },
        ) => annotated(*condition, *condition2) && annotated(*if_true, *if_true2) && annotated(
            *if_false,
            *if_false2,
        ),
        (
            ExprView::If { condition, if_true, if_false },
            ExprView::If { condition: condition2, if_true: if_true2, if_false: if_false2 },
        ) => {
            &&& annotated(*condition, *condition2)
            &&& annotated(*if_true, *if_true2)
            &&& match (if_false, if_false2) {
                (Some(f), Some(f2)) => annotated(*f, *f2),
                (None, None) => true,
                _ => false,
            }
        },
        (ExprView::Return { value }, ExprView::Return { value: value2 }) => match (value, value2) {
            (Some(v), Some(v2)) => annotated(*v, *v2),
            (None, None) => true,
            _ => false,
        },
        (
            ExprView::First { value, drop },
            ExprView::First { value: value2, drop: drop2 },
        ) => annotated(*value, *value2) && annotated(*drop, *drop2),
        (ExprView::Error, ExprView::Error) => true,
        _ => false,
    }
}

/// A memory location that is the location of before with annotations.
pub open spec fn location_annotated(before: MemoryLocationView, after: MemoryLocationView) -> bool {
    &&& before.span == after.span
    &&& before.size == after.size
    &&& annotated(*before.left, *after.left)
    &&& annotated(*before.right, *after.right)
}

/// A constant that checks is the constant of before with its type.
pub proof fn lemma_const_annotated(e: ExpressionView)
    requires
        check_const(e) is Ok,
    ensures
        annotated(e, check_const(e)->Ok_0),
{
}

proof fn lemma_some_annotated(env: Env, e: ExpressionView)
    requires
        e.expr is Let || e.expr is Assign || e.expr is LocalTee || e.expr is UnaryOp
            || e.expr is Cast || e.expr is BranchIf || e.expr is Loop || e.expr is LabelBlock
            || e.expr is Return || e.expr is BinOp || e.expr is First || e.expr is Select
            || e.expr is If,
        check_expression(env, e) is Ok,
    ensures
        annotated(e, check_expression(env, e)->Ok_0.1),
    decreases e, 0nat,
{
    match e.expr {
        ExprView::Let { value, .. } => {
            assert(check_expression(env, e) == check_let(env, e));
            match value {
                Some(v) => {
                    lemma_check_annotates(env, *v);
                },
                None => {},
            }
        },
        ExprView::Assign { value, .. } => {
            assert(check_expression(env, e) == check_assign(env, e));
            lemma_check_annotates(env, *value);
        },
        ExprView::LocalTee { value, .. } => {
            assert(check_expression(env, e) == check_tee(env, e));
            lemma_check_annotates(env, *value);
        },
        ExprView::UnaryOp { value, .. } => {
            assert(check_expression(env, e) == check_unary(env, e));
            lemma_check_annotates(env, *value);
        },
        ExprView::Cast { value, .. } => {
            assert(check_expression(env, e) == check_cast(env, e));
            lemma_check_annotates(env, *value);
        },
        ExprView::BranchIf { condition, .. } => {
            assert(check_expression(env, e) == check_branch_if(env, e));
            lemma_check_annotates(env, *condition);
        },
        ExprView::Loop { label, block } => {
            assert(check_expression(env, e) == check_loop(env, e));
            lemma_check_annotates(env.push_label(label), *block);
        },
        ExprView::LabelBlock { label, block } => {
            assert(check_expression(env, e) == check_label_block(env, e));
            lemma_check_annotates(env.push_label(label), *block);
        },
        ExprView::Return { value } => {
            assert(check_expression(env, e) == check_return(env, e));
            match value {
                Some(v) => {
                    lemma_check_annotates(env, *v);
                },
                None => {},
            }
        },
        ExprView::BinOp { left, right, .. } => {
            assert(check_expression(env, e) == check_binary(env, e));
            lemma_check_annotates(env, *left);
            lemma_check_annotates(check_expression(env, *left)->Ok_0.0, *right);
        },
        ExprView::First { value, drop } => {
            assert(check_expression(env, e) == check_first(env, e));
            lemma_check_annotates(env, *value);
            lemma_check_annotates(check_expression(env, *value)->Ok_0.0, *drop);
        },
        ExprView::Select { condition, if_true, if_false } => {
            assert(check_expression(env, e) == check_select(env, e));
            lemma_check_annotates(env, *condition);
            let env1 = check_expression(env, *condition)->Ok_0.0;
            lemma_check_annotates(env1, *if_true);
            lemma_check_annotates(check_expression(env1, *if_true)->Ok_0.0, *if_false);
        },
        ExprView::If { condition, if_true, if_false } => {
            assert(check_expression(env, e) == check_if(env, e));
            lemma_check_annotates(env, *condition);
            let env1 = check_expression(env, *condition)->Ok_0.0;
            lemma_check_annotates(env1, *if_true);
            match if_false {
                Some(f) => {
                    lemma_check_annotates(check_expression(env1, *if_true)->Ok_0.0, *f);
                },
                None => {},
            }
        },
        _ => {},
    }
}

proof fn lemma_memory_annotated(env: Env, e: ExpressionView)
    requires
        e.expr is Peek || e.expr is Poke,
        check_expression(env, e) is Ok,
    ensures
        annotated(e, check_expression(env, e)->Ok_0.1),
    decreases e, 0nat,
{
    match e.expr {
        ExprView::Peek(m) => {
            assert(check_expression(env, e) == check_peek(env, e));
            assert(check_mem_location(env, m) is Ok);
            lemma_check_annotates(env, *m.left);
            lemma_const_annotated(*m.right);
        },
        ExprView::Poke { mem_location, value } => {
            assert(check_expression(env, e) == check_poke(env, e));
            assert(check_mem_location(env, mem_location) is Ok);
            lemma_check_annotates(env, *mem_location.left);
            lemma_const_annotated(*mem_location.right);
            lemma_check_annotates(check_expression(env, *mem_location.left)->Ok_0.0, *value);
        },
        _ => {},
    }
}

proof fn lemma_parts_annotated(env: Env, e: ExpressionView)
    requires
        e.expr is Block || e.expr is FuncCall,
        check_expression(env, e) is Ok,
    ensures
        annotated(e, check_expression(env, e)->Ok_0.1),
    decreases e, 0nat,
{
    match e.expr {
        ExprView::Block(b) => {
            assert(check_expression(env, e) == check_block(env, e));
            let pushed = env.push_scope();
            lemma_sequence_annotates(pushed, b.statements, b.statements.len(), false);
            match b.final_expression {
                Some(f) => {
                    let env1 = check_sequence(
                        pushed,
                        b.statements,
                        b.statements.len(),
                        false,
                    )->Ok_0.0;
                    lemma_check_annotates(env1, *f);
                },
                None => {},
            }
        },
        ExprView::FuncCall { params, .. } => {
            assert(check_expression(env, e) == check_call(env, e));
            lemma_sequence_annotates(env, params, params.len(), true);
        },
        _ => {},
    }
}

/// Expressions that are checked one after the other come out one for one,
/// each as it was before, with annotations.
pub proof fn lemma_sequence_annotates(env: Env, s: Seq<ExpressionView>, n: nat, need_value: bool)
    requires
        n <= s.len(),
        check_sequence(env, s, n, need_value) is Ok,
    ensures
        check_sequence(env, s, n, need_value)->Ok_0.1.len() == n,
        forall|i: int|
            0 <= i < n ==> annotated(
                #[trigger] s[i],
                check_sequence(env, s, n, need_value)->Ok_0.1[i],
            ),
    decreases s, n,
{
    if n > 0 {
        lemma_sequence_annotates(env, s, (n - 1) as nat, need_value);
        let (env1, done) = check_sequence(env, s, (n - 1) as nat, need_value)->Ok_0;
        lemma_check_annotates(env1, s[n - 1]);
    }
}

/// A checked expression is the expression of before with annotations.
pub proof fn lemma_check_annotates(env: Env, e: ExpressionView)
    requires
        check_expression(env, e) is Ok,
    ensures
        annotated(e, check_expression(env, e)->Ok_0.1),
    decreases e, 1nat,
{
    match e.expr {
        ExprView::Peek(_) => {
            lemma_memory_annotated(env, e);
        },
        ExprView::Poke { .. } => {
            lemma_memory_annotated(env, e);
        },
        ExprView::Block(_) => {
            lemma_parts_annotated(env, e);
        },
        ExprView::FuncCall { .. } => {
            lemma_parts_annotated(env, e);
        },
        ExprView::I32Const(_) => {},
        ExprView::I64Const(_) => {},
        ExprView::F32Const(_) => {},
        ExprView::F64Const(_) => {},
        ExprView::Variable { .. } => {},
        ExprView::Branch(_) => {},
        ExprView::Error => {},
        _ => {
            lemma_some_annotated(env, e);
        },
    }
}

/// Every tree is itself with annotations.
pub proof fn lemma_annotated_itself(e: ExpressionView)
    ensures
        annotated(e, e),
    decreases e,
{
    match e.expr {
        ExprView::Let { value, .. } => {
            match value {
                Some(v) => {
                    lemma_annotated_itself(*v);
                },
                None => {},
            }
        },
        ExprView::Assign { value, .. } => {
            lemma_annotated_itself(*value);
        },
        ExprView::LocalTee { value, .. } => {
            lemma_annotated_itself(*value);
        },
        ExprView::Peek(m) => {
            lemma_annotated_itself(*m.left);
            lemma_annotated_itself(*m.right);
        },
        ExprView::Poke { mem_location, value } => {
            lemma_annotated_itself(*mem_location.left);
            lemma_annotated_itself(*mem_location.right);
            lemma_annotated_itself(*value);
        },
        ExprView::UnaryOp { value, .. } => {
            lemma_annotated_itself(*value);
        },
        ExprView::BinOp { left, right, .. } => {
            lemma_annotated_itself(*left);
            lemma_annotated_itself(*right);
        },
        ExprView::Block(b) => {
            assert forall|i: int| 0 <= i < b.statements.len() implies annotated(
                #[trigger] b.statements[i],
                b.statements[i],
            ) by {
                lemma_annotated_itself(b.statements[i]);
            }
            match b.final_expression {
                Some(f) => {
                    lemma_annotated_itself(*f);
                },
                None => {},
            }
        },
        ExprView::Loop { block, .. } => {
            lemma_annotated_itself(*block);
        },
        ExprView::LabelBlock { block, .. } => {
            lemma_annotated_itself(*block);
        },
        ExprView::BranchIf { condition, .. } => {
            lemma_annotated_itself(*condition);
        },
        ExprView::Cast { value, .. } => {
            lemma_annotated_itself(*value);
        },
        ExprView::FuncCall { params, .. } => {
            assert forall|i: int| 0 <= i < params.len() implies annotated(
                #[trigger] params[i],
                params[i],
            ) by {
                lemma_annotated_itself(params[i]);
            }
        },
        ExprView::Select { condition, if_true, if_false } => {
            lemma_annotated_itself(*condition);
            lemma_annotated_itself(*if_true);
            lemma_annotated_itself(*if_false);
        },
        ExprView::If { condition, if_true, if_false } => {
            lemma_annotated_itself(*condition);
            lemma_annotated_itself(*if_true);
            match if_false {
                Some(f) => {
                    lemma_annotated_itself(*f);
                },
                None => {},
            }
        },
        ExprView::Return { value } => {
            match value {
                Some(v) => {
                    lemma_annotated_itself(*v);
                },
                None => {},
            }
        },
        ExprView::First { value, drop } => {
            lemma_annotated_itself(*value);
            lemma_annotated_itself(*drop);
        },
        _ => {},
    }
}

/// A global that is the global of before with annotations: its value is
/// annotated, and its type is the declared one, or filled in where none
/// was declared.
pub open spec fn global_annotated(before: GlobalVarView, after: GlobalVarView) -> bool {
    &&& before.span == after.span
    &&& before.name == after.name
    &&& before.mutable == after.mutable
    &&& before.type_ is Some ==> after.type_ == before.type_
    &&& annotated(before.value, after.value)
}

/// A function that is the function of before with an annotated body; what
/// it declares is the same. Its locals are not compared.
pub open spec fn function_annotated(before: FunctionView, after: FunctionView) -> bool {
    &&& before.span == after.span
    &&& before.export == after.export
    &&& before.start == after.start
    &&& before.name == after.name
    &&& before.params == after.params
    &&& before.type_ == after.type_
    &&& annotated(before.body, after.body)
}

/// A part of a data segment that is the part of before, with annotated
/// values where it is an array.
pub open spec fn part_annotated(before: DataValuesView, after: DataValuesView) -> bool {
    match (before, after) {
        (
            DataValuesView::Array { type_, values },
            DataValuesView::Array { type_: type2, values: values2 },
        ) => {
            &&& type_ == type2
            &&& values.len() == values2.len()
            &&& forall|i: int|
                0 <= i < values.len() ==> annotated(#[trigger] values[i], values2[i])
        },
        (DataValuesView::String(a), DataValuesView::String(b)) => a == b,
        (DataValuesView::File { path }, DataValuesView::File { path: path2 }) => path == path2,
        _ => false,
    }
}

/// A data segment that is the segment of before with annotations.
pub open spec fn segment_annotated(before: DataView, after: DataView) -> bool {
    &&& annotated(before.offset, after.offset)
    &&& before.data.len() == after.data.len()
    &&& forall|i: int|
        0 <= i < before.data.len() ==> part_annotated(#[trigger] before.data[i], after.data[i])
}

/// A script that is the script of before with annotations: the same items
/// in the same order, every one as it was but for the types and the ids
/// of locals in its expressions, types of globals that were left to the
/// value, and the locals of the functions.
pub open spec fn script_annotated(before: ScriptView, after: ScriptView) -> bool {
    &&& before.imports == after.imports
    &&& before.global_vars.len() == after.global_vars.len()
    &&& forall|i: int|
        0 <= i < before.global_vars.len() ==> global_annotated(
            #[trigger] before.global_vars[i],
            after.global_vars[i],
        )
    &&& before.functions.len() == after.functions.len()
    &&& forall|i: int|
        0 <= i < before.functions.len() ==> function_annotated(
            #[trigger] before.functions[i],
            after.functions[i],
        )
    &&& before.data.len() == after.data.len()
    &&& forall|i: int|
        0 <= i < before.data.len() ==> segment_annotated(#[trigger] before.data[i], after.data[i])
}

proof fn lemma_globals_annotated(
    globals: Map<Seq<char>, Var>,
    diagnostics: Seq<DiagnosticView>,
    vars: Seq<GlobalVarView>,
    n: nat,
)
    requires
        n <= vars.len(),
    ensures
        ({
            let s = register_globals(globals, diagnostics, vars, n);
            &&& s.fatal ==> s.diagnostics.len() > 0
            &&& !s.fatal ==> s.vars.len() == n && forall|i: int|
                0 <= i < n ==> global_annotated(#[trigger] vars[i], s.vars[i])
        }),
    decreases n,
{
    if n > 0 {
        lemma_globals_annotated(globals, diagnostics, vars, (n - 1) as nat);
        let before = register_globals(globals, diagnostics, vars, (n - 1) as nat);
        if !before.fatal {
            let v = vars[n - 1];
            lemma_annotated_itself(v.value);
            if check_const(v.value) is Ok {
                lemma_const_annotated(v.value);
            }
        }
    }
}

proof fn lemma_values_annotated(
    diagnostics: Seq<DiagnosticView>,
    needed: Type,
    values: Seq<ExpressionView>,
    n: nat,
)
    requires
        n <= values.len(),
    ensures
        ({
            let s = check_values(diagnostics, needed, values, n);
            &&& s.fatal ==> s.diagnostics.len() > 0
            &&& !s.fatal ==> s.values.len() == n && forall|i: int|
                0 <= i < n ==> annotated(#[trigger] values[i], s.values[i])
        }),
    decreases n,
{
    if n > 0 {
        lemma_values_annotated(diagnostics, needed, values, (n - 1) as nat);
        let before = check_values(diagnostics, needed, values, (n - 1) as nat);
        if !before.fatal && check_const(values[n - 1]) is Ok {
            lemma_const_annotated(values[n - 1]);
        }
    }
}

proof fn lemma_parts_of_data_annotated(
    diagnostics: Seq<DiagnosticView>,
    parts: Seq<DataValuesView>,
    n: nat,
)
    requires
        n <= parts.len(),
    ensures
        ({
            let s = check_parts(diagnostics, parts, n);
            &&& s.fatal ==> s.diagnostics.len() > 0
            &&& !s.fatal ==> s.parts.len() == n && forall|i: int|
                0 <= i < n ==> part_annotated(#[trigger] parts[i], s.parts[i])
        }),
    decreases n,
{
    if n > 0 {
        lemma_parts_of_data_annotated(diagnostics, parts, (n - 1) as nat);
        let before = check_parts(diagnostics, parts, (n - 1) as nat);
        if !before.fatal {
            match parts[n - 1] {
                DataValuesView::Array { type_, values } => {
                    lemma_values_annotated(
                        before.diagnostics,
                        element_type(type_),
                        values,
                        values.len(),
                    );
                },
                _ => {},
            }
        }
    }
}

proof fn lemma_data_annotated(diagnostics: Seq<DiagnosticView>, data: Seq<DataView>, n: nat)
    requires
        n <= data.len(),
    ensures
        ({
            let s = check_data(diagnostics, data, n);
            &&& s.fatal ==> s.diagnostics.len() > 0
            &&& !s.fatal ==> s.data.len() == n && forall|i: int|
                0 <= i < n ==> segment_annotated(#[trigger] data[i], s.data[i])
        }),
    decreases n,
{
    if n > 0 {
        lemma_data_annotated(diagnostics, data, (n - 1) as nat);
        let before = check_data(diagnostics, data, (n - 1) as nat);
        if !before.fatal {
            let d = data[n - 1];
            if check_const(d.offset) is Ok {
                lemma_const_annotated(d.offset);
                let offset = check_const(d.offset)->Ok_0;
                let found = if offset.type_ != Some(Type::I32) {
                    before.diagnostics.push(
                        spec_type_mismatch(Some(Type::I32), offset.span, offset.type_, offset.span),
                    )
                } else {
                    before.diagnostics
                };
                lemma_parts_of_data_annotated(found, d.data, d.data.len());
            }
        }
    }
}

proof fn lemma_functions_annotated(
    globals: Map<Seq<char>, Var>,
    functions: Map<Seq<char>, FunctionTypeView>,
    intrinsics: Map<Seq<char>, Seq<SignatureView>>,
    diagnostics: Seq<DiagnosticView>,
    fs: Seq<FunctionView>,
    n: nat,
)
    requires
        n <= fs.len(),
    ensures
        ({
            let s = check_functions(globals, functions, intrinsics, diagnostics, fs, n);
            &&& s.fatal ==> s.diagnostics.len() > 0
            &&& !s.fatal ==> s.functions.len() == n && forall|i: int|
                0 <= i < n ==> function_annotated(#[trigger] fs[i], s.functions[i])
        }),
    decreases n,
{
    if n > 0 {
        lemma_functions_annotated(globals, functions, intrinsics, diagnostics, fs, (n - 1) as nat);
        let before = check_functions(
            globals,
            functions,
            intrinsics,
            diagnostics,
            fs,
            (n - 1) as nat,
        );
        if !before.fatal {
            let f = fs[n - 1];
            let bound = bind_params(
                Bound {
                    env: function_env(globals, functions, intrinsics, f.type_),
                    diagnostics: before.diagnostics,
                },
                f.span,
                f.params,
                f.params.len(),
            );
            if check_expression(bound.env, f.body) is Ok {
                lemma_check_annotates(bound.env, f.body);
            }
        }
    }
}

/// A script that checks is the script of before with annotations.
pub proof fn lemma_script_annotated(
    script: ScriptView,
    intrinsics: Map<Seq<char>, Seq<SignatureView>>,
)
    requires
        check_script(script, intrinsics) is Ok,
    ensures
        script_annotated(script, check_script(script, intrinsics)->Ok_0),
{
    let imported = register_imports(no_tables(), script.imports, script.imports.len());
    lemma_globals_annotated(
        imported.globals,
        Seq::empty(),
        script.global_vars,
        script.global_vars.len(),
    );
    lemma_data_annotated(Seq::empty(), script.data, script.data.len());
    let globals = register_globals(
        imported.globals,
        Seq::empty(),
        script.global_vars,
        script.global_vars.len(),
    );
    let signatures = register_functions(
        Signatures { functions: imported.functions, diagnostics: Seq::empty() },
        script.functions,
        script.functions.len(),
    );
    lemma_functions_annotated(
        globals.globals,
        signatures.functions,
        intrinsics,
        Seq::empty(),
        script.functions,
        script.functions.len(),
    );
}

/// Every part of a data segment is itself with annotations.
pub proof fn lemma_part_itself(part: DataValuesView)
    ensures
        part_annotated(part, part),
{
    match part {
        DataValuesView::Array { values, .. } => {
            assert forall|i: int| 0 <= i < values.len() implies annotated(
                #[trigger] values[i],
                values[i],
            ) by {
                lemma_annotated_itself(values[i]);
            }
        },
        _ => {},
    }
}

/// Every data segment is itself with annotations.
pub proof fn lemma_segment_itself(segment: DataView)
    ensures
        segment_annotated(segment, segment),
{
    lemma_annotated_itself(segment.offset);
    assert forall|i: int| 0 <= i < segment.data.len() implies part_annotated(
        #[trigger] segment.data[i],
        segment.data[i],
    ) by {
        lemma_part_itself(segment.data[i]);
    }
}

/// Every script is itself with annotations, and so is every item of it.
pub proof fn lemma_script_itself(script: ScriptView)
    ensures
        script_annotated(script, script),
        forall|i: int|
            0 <= i < script.global_vars.len() ==> global_annotated(
                #[trigger] script.global_vars[i],
                script.global_vars[i],
            ),
        forall|i: int|
            0 <= i < script.functions.len() ==> function_annotated(
                #[trigger] script.functions[i],
                script.functions[i],
            ),
        forall|i: int|
            0 <= i < script.data.len() ==> segment_annotated(
                #[trigger] script.data[i],
                script.data[i],
            ),
{
    assert forall|i: int| 0 <= i < script.global_vars.len() implies global_annotated(
        #[trigger] script.global_vars[i],
        script.global_vars[i],
    ) by {
        lemma_annotated_itself(script.global_vars[i].value);
    }
    assert forall|i: int| 0 <= i < script.functions.len() implies function_annotated(
        #[trigger] script.functions[i],
        script.functions[i],
    ) by {
        lemma_annotated_itself(script.functions[i].body);
    }
    assert forall|i: int| 0 <= i < script.data.len() implies segment_annotated(
        #[trigger] script.data[i],
        script.data[i],
    ) by {
        lemma_segment_itself(script.data[i]);
    }
}

} // verus!
