//! Checking a whole script: the tables of globals and functions are filled
//! first, then the start function and the data segments are validated, then
//! every function body is checked and its locals get their slots.
//!
//! Problems with declarations are collected; a step that found any ends the
//! check before the next step. A problem inside an expression ends the
//! check at once.

use crate::ast::{
    data_views, expression_views, function_views, global_views, import_views, same_type, Data,
    DataType, DataValues, DataValuesView, DataView, Expression, ExpressionView, Function,
    FunctionView, GlobalVar, GlobalVarView, Import, ImportType, ImportTypeView, ImportView, Locals,
    LocalsView, Script, ScriptView, SignatureView, Span, Type,
};
use crate::annotation::{
    annotated, function_annotated, global_annotated, lemma_annotated_itself, lemma_part_itself,
    lemma_script_itself, lemma_segment_itself, part_annotated, script_annotated,
    segment_annotated,
};
use crate::diag::{
    diagnostic_views, invalid_start, report_duplicate_definition, spec_duplicate_definition,
    spec_invalid_start, spec_type_mismatch, type_mismatch, Definition, Diagnostic, DiagnosticView,
};
use crate::laws::{lemma_check_binds, lemma_lets_stay_bound, lets_bound};
use crate::names::{LocalVars, NameMap};
use crate::rules::{check_const, check_expression, Env, FunctionTypeView, Var};
use crate::slots::{assign_slots, lemma_slots_packed, slots_packed};
use crate::typecheck::{
    copy_types, lemma_resolve_in_range, tc_const, tc_expression, Context, FunctionType,
    Intrinsics,
};
use vstd::prelude::*;

verus! {

/// The globals and functions known so far, and what was found wrong.
#[verifier::ext_equal]
pub ghost struct Tables {
    pub globals: Map<Seq<char>, Var>,
    pub functions: Map<Seq<char>, FunctionTypeView>,
    pub diagnostics: Seq<DiagnosticView>,
}

/// An imported variable or function enters its table, unless the name is
/// taken: then the first entry stays and a diagnostic names both places.
pub open spec fn register_import(t: Tables, import: ImportView) -> Tables {
    match import.type_ {
        ImportTypeView::Variable { name, type_, mutable } => if t.globals.contains_key(name) {
            Tables {
                diagnostics: t.diagnostics.push(
                    spec_duplicate_definition(
                        Definition::Global,
                        import.span,
                        t.globals[name].span,
                    ),
                ),
                ..t
            }
        } else {
            Tables {
                globals: t.globals.insert(name, Var { span: import.span, type_, mutable }),
                ..t
            }
        },
        ImportTypeView::Function { name, params, result } => if t.functions.contains_key(name) {
            Tables {
                diagnostics: t.diagnostics.push(
                    spec_duplicate_definition(
                        Definition::Function,
                        import.span,
                        t.functions[name].span,
                    ),
                ),
                ..t
            }
        } else {
            Tables {
                functions: t.functions.insert(
                    name,
                    FunctionTypeView { span: import.span, params, type_: result },
                ),
                ..t
            }
        },
        ImportTypeView::Memory(_) => t,
    }
}

/// The tables after the first `n` imports, on top of `t`.
pub open spec fn register_imports(t: Tables, imports: Seq<ImportView>, n: nat) -> Tables
    decreases n,
{
    if n == 0 || n > imports.len() {
        t
    } else {
        register_import(register_imports(t, imports, (n - 1) as nat), imports[n - 1])
    }
}

/// Tables without entries and without diagnostics.
pub open spec fn no_tables() -> Tables {
    Tables { globals: Map::empty(), functions: Map::empty(), diagnostics: Seq::empty() }
}

/// The globals known so far, the declarations as checking leaves them, and
/// what was found wrong. `fatal` says that a value was no constant, which
/// ends the check.
#[verifier::ext_equal]
pub ghost struct GlobalsChecked {
    pub globals: Map<Seq<char>, Var>,
    pub vars: Seq<GlobalVarView>,
    pub diagnostics: Seq<DiagnosticView>,
    pub fatal: bool,
}

/// A global enters the table with its declared type, or with the type of
/// its constant value where none is declared. A declared type that differs
/// from that of the value is reported.
pub open spec fn register_global(s: GlobalsChecked, v: GlobalVarView) -> GlobalsChecked {
    if s.globals.contains_key(v.name) {
        GlobalsChecked {
            vars: s.vars.push(v),
            diagnostics: s.diagnostics.push(
                spec_duplicate_definition(Definition::Global, v.span, s.globals[v.name].span),
            ),
            ..s
        }
    } else {
        match check_const(v.value) {
            Err(d) => GlobalsChecked {
                vars: s.vars.push(v),
                diagnostics: s.diagnostics.push(d),
                fatal: true,
                ..s
            },
            Ok(value) => {
                let t = if v.type_ is Some {
                    v.type_.unwrap()
                } else {
                    value.type_.unwrap()
                };
                GlobalsChecked {
                    globals: s.globals.insert(
                        v.name,
                        Var { span: v.span, type_: t, mutable: v.mutable },
                    ),
                    vars: s.vars.push(GlobalVarView { value, type_: Some(t), ..v }),
                    diagnostics: if v.type_ is Some && v.type_ != value.type_ {
                        s.diagnostics.push(
                            spec_type_mismatch(v.type_, v.span, value.type_, value.span),
                        )
                    } else {
                        s.diagnostics
                    },
                    fatal: false,
                }
            },
        }
    }
}

/// The state after the first `n` globals, on top of the imported `globals`
/// and of the `diagnostics` of before.
pub open spec fn register_globals(
    globals: Map<Seq<char>, Var>,
    diagnostics: Seq<DiagnosticView>,
    vars: Seq<GlobalVarView>,
    n: nat,
) -> GlobalsChecked
    decreases n,
{
    if n == 0 || n > vars.len() {
        GlobalsChecked { globals, vars: Seq::empty(), diagnostics, fatal: false }
    } else {
        let before = register_globals(globals, diagnostics, vars, (n - 1) as nat);
        if before.fatal {
            before
        } else {
            register_global(before, vars[n - 1])
        }
    }
}

/// The types of a function's parameters.
pub open spec fn param_types(params: Seq<(Seq<char>, Type)>) -> Seq<Type> {
    Seq::new(params.len(), |i: int| params[i].1)
}

/// The functions known so far, and what was found wrong.
#[verifier::ext_equal]
pub ghost struct Signatures {
    pub functions: Map<Seq<char>, FunctionTypeView>,
    pub diagnostics: Seq<DiagnosticView>,
}

/// A function of the script enters the table of functions, unless the name
/// is taken.
pub open spec fn register_function(t: Signatures, f: FunctionView) -> Signatures {
    if t.functions.contains_key(f.name) {
        Signatures {
            diagnostics: t.diagnostics.push(
                spec_duplicate_definition(Definition::Function, f.span, t.functions[f.name].span),
            ),
            ..t
        }
    } else {
        Signatures {
            functions: t.functions.insert(
                f.name,
                FunctionTypeView { span: f.span, params: param_types(f.params), type_: f.type_ },
            ),
            ..t
        }
    }
}

/// The table after the first `n` functions, on top of `t`.
pub open spec fn register_functions(t: Signatures, functions: Seq<FunctionView>, n: nat)
    -> Signatures
    decreases n,
{
    if n == 0 || n > functions.len() {
        t
    } else {
        register_function(register_functions(t, functions, (n - 1) as nat), functions[n - 1])
    }
}

/// Where the start function was seen, and what was found wrong.
#[verifier::ext_equal]
pub ghost struct StartChecked {
    pub previous: Option<Span>,
    pub diagnostics: Seq<DiagnosticView>,
}

/// A start function takes nothing and returns nothing, and there is at
/// most one.
pub open spec fn check_start(s: StartChecked, f: FunctionView) -> StartChecked {
    if !f.start {
        s
    } else {
        let diagnostics = if f.params.len() > 0 || f.type_ is Some {
            s.diagnostics.push(spec_invalid_start(f.span))
        } else {
            s.diagnostics
        };
        match s.previous {
            Some(previous) => StartChecked {
                previous: s.previous,
                diagnostics: diagnostics.push(
                    spec_duplicate_definition(Definition::StartFunction, f.span, previous),
                ),
            },
            None => StartChecked { previous: Some(f.span), diagnostics },
        }
    }
}

/// The state after the first `n` functions, on top of the `diagnostics` of
/// before.
pub open spec fn check_starts(
    diagnostics: Seq<DiagnosticView>,
    functions: Seq<FunctionView>,
    n: nat,
) -> StartChecked
    decreases n,
{
    if n == 0 || n > functions.len() {
        StartChecked { previous: None, diagnostics }
    } else {
        check_start(check_starts(diagnostics, functions, (n - 1) as nat), functions[n - 1])
    }
}

fn push_diagnostic(diagnostics: &mut Vec<Diagnostic>, d: Diagnostic)
    ensures
        diagnostic_views(final(diagnostics)@) == diagnostic_views(old(diagnostics)@).push(d@),
        final(diagnostics)@.len() == old(diagnostics)@.len() + 1,
{
    diagnostics.push(d);
    assert(diagnostic_views(diagnostics@) =~= diagnostic_views(old(diagnostics)@).push(d@));
}

fn types_of_params(params: &Vec<(String, Type)>) -> (r: Vec<Type>)
    ensures
        r@ == param_types(Seq::new(params@.len(), |i: int| (params@[i].0@, params@[i].1))),
{
    let mut r: Vec<Type> = Vec::new();
    let mut i: usize = 0;
    while i < params.len()
        invariant
            i <= params@.len(),
            r@.len() == i,
            forall|j: int| 0 <= j < i ==> r@[j] == params@[j].1,
        decreases params.len() - i,
    {
        r.push(params[i].1);
        i += 1;
    }
    assert(r@ =~= param_types(Seq::new(params@.len(), |i: int| (params@[i].0@, params@[i].1))));
    r
}

/// What the tables and the collected diagnostics stand for.
pub open spec fn tables_view(
    globals: &NameMap<Var>,
    functions: &NameMap<FunctionType>,
    diagnostics: &Vec<Diagnostic>,
) -> Tables {
    Tables {
        globals: globals@,
        functions: functions@,
        diagnostics: diagnostic_views(diagnostics@),
    }
}

/// Enters the imported variables and functions into the tables, on top of
/// what the tables hold, and adds what is wrong to the diagnostics.
pub fn register_imported(
    imports: &Vec<Import>,
    globals: &mut NameMap<Var>,
    functions: &mut NameMap<FunctionType>,
    diagnostics: &mut Vec<Diagnostic>,
)
    ensures
        tables_view(final(globals), final(functions), final(diagnostics)) == register_imports(
            tables_view(old(globals), old(functions), old(diagnostics)),
            import_views(imports@),
            imports@.len(),
        ),
{
    let ghost views = import_views(imports@);
    let ghost t0 = tables_view(globals, functions, diagnostics);
    let mut i: usize = 0;
    while i < imports.len()
        invariant
            i <= imports@.len(),
            views == import_views(imports@),
            t0 == tables_view(old(globals), old(functions), old(diagnostics)),
            tables_view(globals, functions, diagnostics) == register_imports(
                t0,
                views,
                i as nat,
            ),
        decreases imports.len() - i,
    {
        let import = &imports[i];
        assert(views[i as int] == import@);
        match &import.type_ {
            ImportType::Variable { name, type_, mutable } => {
                let previous = match globals.get(name) {
                    Some(var) => Some(var.span),
                    None => None,
                };
                match previous {
                    Some(span) => {
                        push_diagnostic(
                            diagnostics,
                            report_duplicate_definition(Definition::Global, import.span, span),
                        );
                    },
                    None => {
                        globals.insert(
                            name.clone(),
                            Var { span: import.span, type_: *type_, mutable: *mutable },
                        );
                    },
                }
            },
            ImportType::Function { name, params, result } => {
                let previous = match functions.get(name) {
                    Some(f) => Some(f.span),
                    None => None,
                };
                match previous {
                    Some(span) => {
                        push_diagnostic(
                            diagnostics,
                            report_duplicate_definition(Definition::Function, import.span, span),
                        );
                    },
                    None => {
                        functions.insert(
                            name.clone(),
                            FunctionType {
                                span: import.span,
                                params: copy_types(params),
                                type_: *result,
                            },
                        );
                    },
                }
            },
            ImportType::Memory(_) => {},
        }
        i += 1;
    }
}

/// What the table of globals, the declarations and the collected
/// diagnostics stand for after the first `n` declarations.
pub open spec fn globals_view(
    globals: &NameMap<Var>,
    vars: &Vec<GlobalVar>,
    n: int,
    diagnostics: &Vec<Diagnostic>,
    fatal: bool,
) -> GlobalsChecked {
    GlobalsChecked {
        globals: globals@,
        vars: global_views(vars@).take(n),
        diagnostics: diagnostic_views(diagnostics@),
        fatal,
    }
}

proof fn lemma_globals_fatal(
    globals: Map<Seq<char>, Var>,
    diagnostics: Seq<DiagnosticView>,
    vars: Seq<GlobalVarView>,
    i: nat,
    n: nat,
)
    requires
        i <= n <= vars.len(),
        register_globals(globals, diagnostics, vars, i).fatal,
    ensures
        register_globals(globals, diagnostics, vars, n) == register_globals(
            globals,
            diagnostics,
            vars,
            i,
        ),
    decreases n - i,
{
    if i < n {
        lemma_globals_fatal(globals, diagnostics, vars, i, (n - 1) as nat);
    }
}

/// Checks the global variables and enters them into the table. Returns
/// `false` when a value is no constant: the check ends there.
pub fn register_global_vars(
    vars: &mut Vec<GlobalVar>,
    globals: &mut NameMap<Var>,
    diagnostics: &mut Vec<Diagnostic>,
) -> (complete: bool)
    ensures
        ({
            let s = register_globals(
                old(globals)@,
                diagnostic_views(old(diagnostics)@),
                global_views(old(vars)@),
                old(vars)@.len(),
            );
            &&& s.diagnostics == diagnostic_views(final(diagnostics)@)
            &&& s.fatal == !complete
            &&& !complete ==> final(diagnostics)@.len() > 0
            &&& complete ==> s.globals == final(globals)@ && s.vars == global_views(
                final(vars)@,
            )
        }),
        final(vars)@.len() == old(vars)@.len(),
        forall|i: int|
            0 <= i < old(vars)@.len() ==> global_annotated(
                (#[trigger] old(vars)@[i])@,
                final(vars)@[i]@,
            ),
{
    let ghost g0 = globals@;
    let ghost d0 = diagnostic_views(diagnostics@);
    let ghost orig = vars@;
    let ghost views = global_views(orig);
    let mut i: usize = 0;
    assert(global_views(vars@).take(0) =~= Seq::empty());
    proof {
        assert forall|j: int| 0 <= j < orig.len() implies global_annotated(
            (#[trigger] orig[j])@,
            orig[j]@,
        ) by {
            lemma_annotated_itself(orig[j]@.value);
        }
    }
    while i < vars.len()
        invariant
            forall|j: int|
                0 <= j < orig.len() ==> global_annotated((#[trigger] orig[j])@, orig[j]@),
            forall|j: int| 0 <= j < i ==> global_annotated((#[trigger] orig[j])@, vars@[j]@),
            i <= vars@.len(),
            vars@.len() == orig.len(),
            orig == old(vars)@,
            g0 == old(globals)@,
            d0 == diagnostic_views(old(diagnostics)@),
            views == global_views(orig),
            forall|j: int| i <= j < orig.len() ==> vars@[j] == orig[j],
            globals_view(globals, vars, i as int, diagnostics, false) == register_globals(
                g0,
                d0,
                views,
                i as nat,
            ),
        decreases vars.len() - i,
    {
        let ghost before = global_views(vars@);
        assert(views[i as int] == vars@[i as int]@);
        let span = vars[i].span;
        let previous = match globals.get(&vars[i].name) {
            Some(var) => Some(var.span),
            None => None,
        };
        match previous {
            Some(previous_span) => {
                push_diagnostic(
                    diagnostics,
                    report_duplicate_definition(Definition::Global, span, previous_span),
                );
            },
            None => {
                match tc_const(&mut vars[i].value) {
                    Err(d) => {
                        push_diagnostic(diagnostics, d);
                        proof {
                            lemma_globals_fatal(g0, d0, views, (i + 1) as nat, orig.len());
                        }
                        return false;
                    },
                    Ok(()) => {},
                }
                let value_type = vars[i].value.type_;
                let value_span = vars[i].value.span;
                let declared = vars[i].type_;
                let t = match declared {
                    Some(t) => {
                        if !same_type(declared, value_type) {
                            push_diagnostic(
                                diagnostics,
                                type_mismatch(declared, span, value_type, value_span),
                            );
                        }
                        t
                    },
                    None => match value_type {
                        Some(t) => t,
                        None => Type::I32,
                    },
                };
                vars[i].type_ = Some(t);
                globals.insert(
                    vars[i].name.clone(),
                    Var { span, type_: t, mutable: vars[i].mutable },
                );
            },
        }
        proof {
            assert(global_views(vars@).take(i + 1) =~= before.take(i as int).push(
                vars@[i as int]@,
            ));
        }
        i += 1;
    }
    proof {
        assert(global_views(vars@).take(i as int) =~= global_views(vars@));
    }
    true
}

/// Enters the functions of the script into the table of functions.
pub fn register_signatures(
    script_functions: &Vec<Function>,
    functions: &mut NameMap<FunctionType>,
    diagnostics: &mut Vec<Diagnostic>,
)
    ensures
        (Signatures {
            functions: final(functions)@,
            diagnostics: diagnostic_views(final(diagnostics)@),
        }) == register_functions(
            Signatures {
                functions: old(functions)@,
                diagnostics: diagnostic_views(old(diagnostics)@),
            },
            function_views(script_functions@),
            script_functions@.len(),
        ),
{
    let ghost views = function_views(script_functions@);
    let ghost t0 = Signatures {
        functions: functions@,
        diagnostics: diagnostic_views(diagnostics@),
    };
    let mut i: usize = 0;
    while i < script_functions.len()
        invariant
            i <= script_functions@.len(),
            views == function_views(script_functions@),
            (Signatures { functions: functions@, diagnostics: diagnostic_views(diagnostics@) })
                == register_functions(t0, views, i as nat),
        decreases script_functions.len() - i,
    {
        let f = &script_functions[i];
        assert(views[i as int] == f@);
        let previous = match functions.get(&f.name) {
            Some(known) => Some(known.span),
            None => None,
        };
        match previous {
            Some(span) => {
                push_diagnostic(
                    diagnostics,
                    report_duplicate_definition(Definition::Function, f.span, span),
                );
            },
            None => {
                functions.insert(
                    f.name.clone(),
                    FunctionType {
                        span: f.span,
                        params: types_of_params(&f.params),
                        type_: f.type_,
                    },
                );
            },
        }
        i += 1;
    }
}

/// Validates the start function: it takes nothing, returns nothing, and
/// there is at most one.
pub fn check_start_functions(functions: &Vec<Function>, diagnostics: &mut Vec<Diagnostic>)
    ensures
        diagnostic_views(final(diagnostics)@) == check_starts(
            diagnostic_views(old(diagnostics)@),
            function_views(functions@),
            functions@.len(),
        ).diagnostics,
{
    let ghost views = function_views(functions@);
    let ghost d0 = diagnostic_views(diagnostics@);
    let mut previous: Option<Span> = None;
    let mut i: usize = 0;
    while i < functions.len()
        invariant
            i <= functions@.len(),
            views == function_views(functions@),
            d0 == diagnostic_views(old(diagnostics)@),
            (StartChecked { previous, diagnostics: diagnostic_views(diagnostics@) })
                == check_starts(d0, views, i as nat),
        decreases functions.len() - i,
    {
        let f = &functions[i];
        assert(views[i as int] == f@);
        if f.start {
            if f.params.len() > 0 || f.type_.is_some() {
                push_diagnostic(diagnostics, invalid_start(f.span));
            }
            match previous {
                Some(span) => {
                    push_diagnostic(
                        diagnostics,
                        report_duplicate_definition(Definition::StartFunction, f.span, span),
                    );
                },
                None => {
                    previous = Some(f.span);
                },
            }
        }
        i += 1;
    }
}

/// An environment and what was found wrong so far.
#[verifier::ext_equal]
pub ghost struct Bound {
    pub env: Env,
    pub diagnostics: Seq<DiagnosticView>,
}

/// A parameter becomes a stored local in the innermost scope, unless a
/// parameter or a global has its name already.
pub open spec fn bind_param(s: Bound, span: Span, name: Seq<char>, type_: Type) -> Bound {
    match s.env.resolve(name) {
        Some(id) => Bound {
            diagnostics: s.diagnostics.push(
                spec_duplicate_definition(
                    Definition::Variable,
                    span,
                    s.env.locals.locals[id as int].span,
                ),
            ),
            ..s
        },
        None => if s.env.globals.contains_key(name) {
            Bound {
                diagnostics: s.diagnostics.push(
                    spec_duplicate_definition(
                        Definition::Variable,
                        span,
                        s.env.globals[name].span,
                    ),
                ),
                ..s
            }
        } else {
            Bound {
                env: Env {
                    locals: s.env.locals.add_param(span, name, type_),
                    scopes: s.env.scopes.update(
                        s.env.scopes.len() - 1,
                        s.env.scopes.last().insert(name, s.env.locals.locals.len() as usize),
                    ),
                    ..s.env
                },
                ..s
            }
        },
    }
}

/// The state after the first `n` parameters.
pub open spec fn bind_params(s: Bound, span: Span, params: Seq<(Seq<char>, Type)>, n: nat)
    -> Bound
    decreases n,
{
    if n == 0 || n > params.len() {
        s
    } else {
        bind_param(
            bind_params(s, span, params, (n - 1) as nat),
            span,
            params[n - 1].0,
            params[n - 1].1,
        )
    }
}

/// The environment in which the checking of a function starts: one empty
/// scope, no locals, no labels.
pub open spec fn function_env(
    globals: Map<Seq<char>, Var>,
    functions: Map<Seq<char>, FunctionTypeView>,
    intrinsics: Map<Seq<char>, Seq<SignatureView>>,
    return_type: Option<Type>,
) -> Env {
    Env {
        globals,
        functions,
        intrinsics,
        locals: LocalsView::empty(),
        scopes: seq![Map::empty()],
        labels: Seq::empty(),
        return_type,
    }
}

/// A function as checking leaves it, what was found wrong so far, and
/// whether an expression of the body failed, which ends the check.
pub ghost struct FunctionChecked {
    pub function: FunctionView,
    pub diagnostics: Seq<DiagnosticView>,
    pub fatal: bool,
}

/// Checks one function: binds the parameters, checks the body, gives the
/// stored locals their slots, and compares the type of the body with the
/// declared return type.
pub open spec fn check_function(
    globals: Map<Seq<char>, Var>,
    functions: Map<Seq<char>, FunctionTypeView>,
    intrinsics: Map<Seq<char>, Seq<SignatureView>>,
    diagnostics: Seq<DiagnosticView>,
    f: FunctionView,
) -> FunctionChecked {
    let bound = bind_params(
        Bound { env: function_env(globals, functions, intrinsics, f.type_), diagnostics },
        f.span,
        f.params,
        f.params.len(),
    );
    match check_expression(bound.env, f.body) {
        Err(d) => FunctionChecked {
            function: f,
            diagnostics: bound.diagnostics.push(d),
            fatal: true,
        },
        Ok((env, body)) => FunctionChecked {
            function: FunctionView { body, locals: assign_slots(env.locals), ..f },
            diagnostics: if body.type_ != f.type_ {
                bound.diagnostics.push(spec_type_mismatch(f.type_, f.span, body.type_, body.span))
            } else {
                bound.diagnostics
            },
            fatal: false,
        },
    }
}

/// The functions checked so far, what was found wrong, and whether the
/// check has ended.
#[verifier::ext_equal]
pub ghost struct BodiesChecked {
    pub functions: Seq<FunctionView>,
    pub diagnostics: Seq<DiagnosticView>,
    pub fatal: bool,
}

/// The state after the first `n` functions, on top of the `diagnostics` of
/// before.
pub open spec fn check_functions(
    globals: Map<Seq<char>, Var>,
    functions: Map<Seq<char>, FunctionTypeView>,
    intrinsics: Map<Seq<char>, Seq<SignatureView>>,
    diagnostics: Seq<DiagnosticView>,
    fs: Seq<FunctionView>,
    n: nat,
) -> BodiesChecked
    decreases n,
{
    if n == 0 || n > fs.len() {
        BodiesChecked { functions: Seq::empty(), diagnostics, fatal: false }
    } else {
        let before = check_functions(
            globals,
            functions,
            intrinsics,
            diagnostics,
            fs,
            (n - 1) as nat,
        );
        if before.fatal {
            before
        } else {
            let c = check_function(globals, functions, intrinsics, before.diagnostics, fs[n - 1]);
            BodiesChecked {
                functions: before.functions.push(c.function),
                diagnostics: c.diagnostics,
                fatal: c.fatal,
            }
        }
    }
}

proof fn lemma_functions_fatal(
    globals: Map<Seq<char>, Var>,
    functions: Map<Seq<char>, FunctionTypeView>,
    intrinsics: Map<Seq<char>, Seq<SignatureView>>,
    diagnostics: Seq<DiagnosticView>,
    fs: Seq<FunctionView>,
    i: nat,
    n: nat,
)
    requires
        i <= n <= fs.len(),
        check_functions(globals, functions, intrinsics, diagnostics, fs, i).fatal,
    ensures
        check_functions(globals, functions, intrinsics, diagnostics, fs, n) == check_functions(
            globals,
            functions,
            intrinsics,
            diagnostics,
            fs,
            i,
        ),
    decreases n - i,
{
    if i < n {
        lemma_functions_fatal(
            globals,
            functions,
            intrinsics,
            diagnostics,
            fs,
            i,
            (n - 1) as nat,
        );
    }
}

/// The type checker is between two functions: it holds no locals and no
/// labels.
pub open spec fn idle(env: Env) -> bool {
    env.locals == LocalsView::empty() && env.labels == Seq::<Seq<char>>::empty()
}

/// The views of a function's parameters.
pub open spec fn param_views(params: Seq<(String, Type)>) -> Seq<(Seq<char>, Type)> {
    Seq::new(params.len(), |i: int| (params[i].0@, params[i].1))
}

/// Binds the parameters of a function in the innermost scope.
pub fn bind_parameters(
    ctx: &mut Context,
    span: Span,
    params: &Vec<(String, Type)>,
    diagnostics: &mut Vec<Diagnostic>,
)
    requires
        old(ctx)@.wf(),
        old(ctx)@.locals.wf(),
        old(ctx)@.locals.params == old(ctx)@.locals.locals.len(),
    ensures
        (Bound { env: final(ctx)@, diagnostics: diagnostic_views(final(diagnostics)@) })
            == bind_params(
            Bound { env: old(ctx)@, diagnostics: diagnostic_views(old(diagnostics)@) },
            span,
            param_views(params@),
            params@.len(),
        ),
        final(ctx)@.wf(),
        final(ctx)@.locals.wf(),
        final(ctx)@.labels == old(ctx)@.labels,
        final(ctx)@.globals == old(ctx)@.globals,
        final(ctx)@.functions == old(ctx)@.functions,
        final(ctx)@.intrinsics == old(ctx)@.intrinsics,
        final(diagnostics)@.len() >= old(diagnostics)@.len(),
        final(ctx)@.locals.params == final(ctx)@.locals.locals.len(),
        final(diagnostics)@.len() == old(diagnostics)@.len() ==> final(ctx)@.locals.params == old(
            ctx,
        )@.locals.params + params@.len(),
{
    let ghost views = param_views(params@);
    let ghost s0 = Bound { env: ctx@, diagnostics: diagnostic_views(diagnostics@) };
    let mut i: usize = 0;
    while i < params.len()
        invariant
            i <= params@.len(),
            views == param_views(params@),
            ctx@.wf(),
            ctx@.locals.wf(),
            ctx@.locals.params == ctx@.locals.locals.len(),
            ctx@.labels == s0.env.labels,
            ctx@.globals == s0.env.globals,
            ctx@.functions == s0.env.functions,
            ctx@.intrinsics == s0.env.intrinsics,
            diagnostics@.len() >= old(diagnostics)@.len(),
            s0.env == old(ctx)@,
            diagnostics@.len() == old(diagnostics)@.len() ==> ctx@.locals.params
                == s0.env.locals.params + i,
            (Bound { env: ctx@, diagnostics: diagnostic_views(diagnostics@) }) == bind_params(
                s0,
                span,
                views,
                i as nat,
            ),
        decreases params.len() - i,
    {
        let name = &params[i].0;
        let type_ = params[i].1;
        assert(views[i as int] == (name@, type_));
        let previous = match ctx.local_vars.get(name) {
            Some(id) => {
                proof {
                    lemma_resolve_in_range(ctx@, name@);
                }
                Some(ctx.locals.get(id).span)
            },
            None => match ctx.global_vars.get(name) {
                Some(var) => Some(var.span),
                None => None,
            },
        };
        match previous {
            Some(previous_span) => {
                push_diagnostic(
                    diagnostics,
                    report_duplicate_definition(Definition::Variable, span, previous_span),
                );
            },
            None => {
                let id = ctx.locals.add_param(span, name.clone(), type_);
                ctx.local_vars.insert(name.clone(), id);
            },
        }
        i += 1;
    }
}

/// Checks one function and fills in its locals. Returns `false` when an
/// expression of the body failed: the check ends there.
pub fn tc_function(ctx: &mut Context, f: &mut Function, diagnostics: &mut Vec<Diagnostic>) -> (complete:
    bool)
    requires
        idle(old(ctx)@),
        old(f)@.body.error_free(),
    ensures
        ({
            let c = check_function(
                old(ctx)@.globals,
                old(ctx)@.functions,
                old(ctx)@.intrinsics,
                diagnostic_views(old(diagnostics)@),
                old(f)@,
            );
            &&& diagnostic_views(final(diagnostics)@) == c.diagnostics
            &&& complete == !c.fatal
            &&& final(diagnostics)@.len() >= old(diagnostics)@.len()
            &&& !complete ==> final(diagnostics)@.len() > 0
            &&& complete ==> final(f)@ == c.function && slots_packed(
                final(f)@.locals,
            ) && lets_bound(final(f)@.body, final(f)@.locals.locals) && idle(final(ctx)@)
                && final(ctx)@.globals == old(ctx)@.globals && final(ctx)@.functions == old(
                ctx,
            )@.functions && final(ctx)@.intrinsics == old(ctx)@.intrinsics
            &&& complete && final(diagnostics)@.len() == old(diagnostics)@.len()
                ==> params_counted(final(f)@)
        }),
        function_annotated(old(f)@, final(f)@),
{
    ctx.local_vars.clear();
    ctx.local_vars.push_scope();
    ctx.return_type = f.type_;
    proof {
        assert(ctx@.scopes =~= seq![Map::<Seq<char>, usize>::empty()]);
        assert(ctx@ == function_env(
            old(ctx)@.globals,
            old(ctx)@.functions,
            old(ctx)@.intrinsics,
            f.type_,
        ));
        assert(f@.params == param_views(f.params@));
    }
    let span = f.span;
    bind_parameters(ctx, span, &f.params, diagnostics);
    let ghost bound = ctx@;
    match tc_expression(ctx, &mut f.body) {
        Err(d) => {
            push_diagnostic(diagnostics, d);
            return false;
        },
        Ok(()) => {},
    }
    proof {
        assert forall|i: int| 0 <= i < ctx@.locals.params implies (
        #[trigger] ctx@.locals.locals[i]).index == Some(i as usize) by {
            assert(ctx@.locals.locals[i] == bound.locals.locals[i]);
        }
        assert(ctx@.locals.locals.len() == ctx.locals.locals.len());
        lemma_slots_packed(ctx@.locals);
        lemma_check_binds(bound, old(f)@.body);
        lemma_lets_stay_bound(f.body@, ctx@.locals.locals, assign_slots(ctx@.locals).locals);
    }
    ctx.locals.assign_slots();
    let mut locals = Locals::new();
    core::mem::swap(&mut ctx.locals, &mut locals);
    f.locals = locals;
    if !same_type(f.body.type_, f.type_) {
        push_diagnostic(diagnostics, type_mismatch(f.type_, span, f.body.type_, f.body.span));
    }
    true
}

/// The script's functions have no placeholder for an unreadable expression
/// in their bodies.
pub open spec fn bodies_error_free(functions: Seq<FunctionView>) -> bool {
    forall|i: int| 0 <= i < functions.len() ==> (#[trigger] functions[i]).body.error_free()
}

/// The locals of a checked function are in order: the stored locals have
/// their slots, packed behind the parameters, and every `let` of the body
/// is bound to a local, which has a slot exactly if the `let` is a stored
/// one.
pub open spec fn locals_settled(f: FunctionView) -> bool {
    slots_packed(f.locals) && lets_bound(f.body, f.locals.locals)
}

/// The locals of the function count as many parameters as the function
/// declares.
pub open spec fn params_counted(f: FunctionView) -> bool {
    f.locals.params == f.params.len()
}

/// Checks the bodies of all functions in order. Returns `false` when an
/// expression failed: the check ends there.
pub fn tc_functions(
    ctx: &mut Context,
    functions: &mut Vec<Function>,
    diagnostics: &mut Vec<Diagnostic>,
) -> (complete: bool)
    requires
        idle(old(ctx)@),
        bodies_error_free(function_views(old(functions)@)),
    ensures
        ({
            let c = check_functions(
                old(ctx)@.globals,
                old(ctx)@.functions,
                old(ctx)@.intrinsics,
                diagnostic_views(old(diagnostics)@),
                function_views(old(functions)@),
                old(functions)@.len(),
            );
            &&& diagnostic_views(final(diagnostics)@) == c.diagnostics
            &&& complete == !c.fatal
            &&& !complete ==> final(diagnostics)@.len() > 0
            &&& complete ==> function_views(final(functions)@) == c.functions
                && forall|i: int|
                0 <= i < final(functions)@.len() ==> locals_settled(
                    (#[trigger] final(functions)@[i])@,
                )
            &&& complete && final(diagnostics)@.len() == old(diagnostics)@.len()
                ==> forall|i: int|
                0 <= i < final(functions)@.len() ==> params_counted(
                    (#[trigger] final(functions)@[i])@,
                )
        }),
        final(functions)@.len() == old(functions)@.len(),
        forall|i: int|
            0 <= i < old(functions)@.len() ==> function_annotated(
                (#[trigger] old(functions)@[i])@,
                final(functions)@[i]@,
            ),
{
    let ghost env0 = ctx@;
    let ghost d0 = diagnostic_views(diagnostics@);
    let ghost orig = functions@;
    let ghost views = function_views(orig);
    let mut i: usize = 0;
    assert(function_views(functions@).take(0) =~= Seq::empty());
    proof {
        assert forall|j: int| 0 <= j < orig.len() implies function_annotated(
            (#[trigger] orig[j])@,
            orig[j]@,
        ) by {
            lemma_annotated_itself(orig[j]@.body);
        }
    }
    while i < functions.len()
        invariant
            forall|j: int|
                0 <= j < orig.len() ==> function_annotated((#[trigger] orig[j])@, orig[j]@),
            forall|j: int|
                0 <= j < i ==> function_annotated((#[trigger] orig[j])@, functions@[j]@),
            i <= functions@.len(),
            functions@.len() == orig.len(),
            orig == old(functions)@,
            env0 == old(ctx)@,
            views == function_views(orig),
            bodies_error_free(views),
            forall|j: int| i <= j < orig.len() ==> functions@[j] == orig[j],
            idle(ctx@),
            ctx@.globals == env0.globals,
            ctx@.functions == env0.functions,
            ctx@.intrinsics == env0.intrinsics,
            (BodiesChecked {
                functions: function_views(functions@).take(i as int),
                diagnostics: diagnostic_views(diagnostics@),
                fatal: false,
            }) == check_functions(
                env0.globals,
                env0.functions,
                env0.intrinsics,
                d0,
                views,
                i as nat,
            ),
            d0 == diagnostic_views(old(diagnostics)@),
            diagnostics@.len() >= old(diagnostics)@.len(),
            forall|j: int| 0 <= j < i ==> locals_settled((#[trigger] functions@[j])@),
            diagnostics@.len() == old(diagnostics)@.len() ==> forall|j: int|
                0 <= j < i ==> params_counted((#[trigger] functions@[j])@),
        decreases functions.len() - i,
    {
        let ghost before = function_views(functions@);
        let ghost before_functions = functions@;
        assert(views[i as int] == functions@[i as int]@);
        let complete = tc_function(ctx, &mut functions[i], diagnostics);
        if !complete {
            proof {
                lemma_functions_fatal(
                    env0.globals,
                    env0.functions,
                    env0.intrinsics,
                    d0,
                    views,
                    (i + 1) as nat,
                    orig.len(),
                );
            }
            return false;
        }
        proof {
            assert(function_views(functions@).take(i + 1) =~= before.take(
                i as int,
            ).push(functions@[i as int]@));
            assert forall|j: int| 0 <= j < i + 1 implies locals_settled(
                (#[trigger] functions@[j])@,
            ) by {
                if j < i {
                    assert(functions@[j] == before_functions[j]);
                }
            }
            if diagnostics@.len() == old(diagnostics)@.len() {
                assert forall|j: int| 0 <= j < i + 1 implies params_counted(
                    (#[trigger] functions@[j])@,
                ) by {
                    if j < i {
                        assert(functions@[j] == before_functions[j]);
                    }
                }
            }
        }
        i += 1;
    }
    proof {
        assert(function_views(functions@).take(i as int)
            =~= function_views(functions@));
    }
    true
}

/// The type that the values of an array of a data segment have.
pub open spec fn element_type(t: DataType) -> Type {
    match t {
        DataType::I8 => Type::I32,
        DataType::I16 => Type::I32,
        DataType::I32 => Type::I32,
        DataType::I64 => Type::I64,
        DataType::F32 => Type::F32,
        DataType::F64 => Type::F64,
    }
}

/// The type that the values of an array of a data segment have.
pub fn needed_type(t: DataType) -> (r: Type)
    ensures
        r == element_type(t),
{
    match t {
        DataType::I8 => Type::I32,
        DataType::I16 => Type::I32,
        DataType::I32 => Type::I32,
        DataType::I64 => Type::I64,
        DataType::F32 => Type::F32,
        DataType::F64 => Type::F64,
    }
}

/// Checked values, what was found wrong so far, and whether a value was no
/// constant, which ends the check.
#[verifier::ext_equal]
pub ghost struct ValuesChecked {
    pub values: Seq<ExpressionView>,
    pub diagnostics: Seq<DiagnosticView>,
    pub fatal: bool,
}

/// A value of an array is a constant of the array's type.
pub open spec fn check_value(s: ValuesChecked, needed: Type, v: ExpressionView) -> ValuesChecked {
    match check_const(v) {
        Err(d) => ValuesChecked {
            values: s.values.push(v),
            diagnostics: s.diagnostics.push(d),
            fatal: true,
        },
        Ok(value) => ValuesChecked {
            values: s.values.push(value),
            diagnostics: if value.type_ != Some(needed) {
                s.diagnostics.push(
                    spec_type_mismatch(Some(needed), value.span, value.type_, value.span),
                )
            } else {
                s.diagnostics
            },
            fatal: false,
        },
    }
}

/// The state after the first `n` values.
pub open spec fn check_values(
    diagnostics: Seq<DiagnosticView>,
    needed: Type,
    values: Seq<ExpressionView>,
    n: nat,
) -> ValuesChecked
    decreases n,
{
    if n == 0 || n > values.len() {
        ValuesChecked { values: Seq::empty(), diagnostics, fatal: false }
    } else {
        let before = check_values(diagnostics, needed, values, (n - 1) as nat);
        if before.fatal {
            before
        } else {
            check_value(before, needed, values[n - 1])
        }
    }
}

proof fn lemma_values_fatal(
    diagnostics: Seq<DiagnosticView>,
    needed: Type,
    values: Seq<ExpressionView>,
    i: nat,
    n: nat,
)
    requires
        i <= n <= values.len(),
        check_values(diagnostics, needed, values, i).fatal,
    ensures
        check_values(diagnostics, needed, values, n) == check_values(diagnostics, needed, values, i),
    decreases n - i,
{
    if i < n {
        lemma_values_fatal(diagnostics, needed, values, i, (n - 1) as nat);
    }
}

/// Checked parts of a data segment, what was found wrong so far, and
/// whether the check has ended.
#[verifier::ext_equal]
pub ghost struct PartsChecked {
    pub parts: Seq<DataValuesView>,
    pub diagnostics: Seq<DiagnosticView>,
    pub fatal: bool,
}

/// The values of an array are checked; strings and files are taken as they
/// are.
pub open spec fn check_part(s: PartsChecked, part: DataValuesView) -> PartsChecked {
    match part {
        DataValuesView::Array { type_, values } => {
            let c = check_values(s.diagnostics, element_type(type_), values, values.len());
            PartsChecked {
                parts: s.parts.push(DataValuesView::Array { type_, values: c.values }),
                diagnostics: c.diagnostics,
                fatal: c.fatal,
            }
        },
        _ => PartsChecked { parts: s.parts.push(part), ..s },
    }
}

/// The state after the first `n` parts.
pub open spec fn check_parts(diagnostics: Seq<DiagnosticView>, parts: Seq<DataValuesView>, n: nat)
    -> PartsChecked
    decreases n,
{
    if n == 0 || n > parts.len() {
        PartsChecked { parts: Seq::empty(), diagnostics, fatal: false }
    } else {
        let before = check_parts(diagnostics, parts, (n - 1) as nat);
        if before.fatal {
            before
        } else {
            check_part(before, parts[n - 1])
        }
    }
}

proof fn lemma_parts_fatal(
    diagnostics: Seq<DiagnosticView>,
    parts: Seq<DataValuesView>,
    i: nat,
    n: nat,
)
    requires
        i <= n <= parts.len(),
        check_parts(diagnostics, parts, i).fatal,
    ensures
        check_parts(diagnostics, parts, n) == check_parts(diagnostics, parts, i),
    decreases n - i,
{
    if i < n {
        lemma_parts_fatal(diagnostics, parts, i, (n - 1) as nat);
    }
}

/// Checked data segments, what was found wrong so far, and whether the
/// check has ended.
#[verifier::ext_equal]
pub ghost struct DataChecked {
    pub data: Seq<DataView>,
    pub diagnostics: Seq<DiagnosticView>,
    pub fatal: bool,
}

/// The offset of a data segment is a constant of the address type, and its
/// parts are checked.
pub open spec fn check_segment(s: DataChecked, d: DataView) -> DataChecked {
    match check_const(d.offset) {
        Err(e) => DataChecked {
            data: s.data.push(d),
            diagnostics: s.diagnostics.push(e),
            fatal: true,
        },
        Ok(offset) => {
            let diagnostics = if offset.type_ != Some(Type::I32) {
                s.diagnostics.push(
                    spec_type_mismatch(Some(Type::I32), offset.span, offset.type_, offset.span),
                )
            } else {
                s.diagnostics
            };
            let c = check_parts(diagnostics, d.data, d.data.len());
            DataChecked {
                data: s.data.push(DataView { offset, data: c.parts }),
                diagnostics: c.diagnostics,
                fatal: c.fatal,
            }
        },
    }
}

/// The state after the first `n` data segments, on top of the
/// `diagnostics` of before.
pub open spec fn check_data(diagnostics: Seq<DiagnosticView>, data: Seq<DataView>, n: nat)
    -> DataChecked
    decreases n,
{
    if n == 0 || n > data.len() {
        DataChecked { data: Seq::empty(), diagnostics, fatal: false }
    } else {
        let before = check_data(diagnostics, data, (n - 1) as nat);
        if before.fatal {
            before
        } else {
            check_segment(before, data[n - 1])
        }
    }
}

proof fn lemma_data_fatal(diagnostics: Seq<DiagnosticView>, data: Seq<DataView>, i: nat, n: nat)
    requires
        i <= n <= data.len(),
        check_data(diagnostics, data, i).fatal,
    ensures
        check_data(diagnostics, data, n) == check_data(diagnostics, data, i),
    decreases n - i,
{
    if i < n {
        lemma_data_fatal(diagnostics, data, i, (n - 1) as nat);
    }
}

/// Checks the values of an array of a data segment. Returns `false` when a
/// value is no constant: the check ends there.
pub fn tc_data_values(
    values: &mut Vec<Expression>,
    needed: Type,
    diagnostics: &mut Vec<Diagnostic>,
) -> (complete: bool)
    ensures
        ({
            let c = check_values(
                diagnostic_views(old(diagnostics)@),
                needed,
                expression_views(old(values)@),
                old(values)@.len(),
            );
            &&& diagnostic_views(final(diagnostics)@) == c.diagnostics
            &&& complete == !c.fatal
            &&& final(diagnostics)@.len() >= old(diagnostics)@.len()
            &&& !complete ==> final(diagnostics)@.len() > 0
            &&& complete ==> expression_views(final(values)@) == c.values
        }),
        final(values)@.len() == old(values)@.len(),
        forall|i: int|
            0 <= i < old(values)@.len() ==> annotated(
                (#[trigger] old(values)@[i])@,
                final(values)@[i]@,
            ),
{
    let ghost d0 = diagnostic_views(diagnostics@);
    let ghost orig = values@;
    let ghost views = expression_views(orig);
    let mut i: usize = 0;
    assert(expression_views(values@).take(0) =~= Seq::empty());
    proof {
        assert forall|j: int| 0 <= j < orig.len() implies annotated(
            (#[trigger] orig[j])@,
            orig[j]@,
        ) by {
            lemma_annotated_itself(orig[j]@);
        }
    }
    while i < values.len()
        invariant
            forall|j: int| 0 <= j < orig.len() ==> annotated((#[trigger] orig[j])@, orig[j]@),
            forall|j: int| 0 <= j < i ==> annotated((#[trigger] orig[j])@, values@[j]@),
            i <= values@.len(),
            values@.len() == orig.len(),
            orig == old(values)@,
            d0 == diagnostic_views(old(diagnostics)@),
            views == expression_views(orig),
            diagnostics@.len() >= old(diagnostics)@.len(),
            forall|j: int| i <= j < orig.len() ==> values@[j] == orig[j],
            (ValuesChecked {
                values: expression_views(values@).take(i as int),
                diagnostics: diagnostic_views(diagnostics@),
                fatal: false,
            }) == check_values(d0, needed, views, i as nat),
        decreases values.len() - i,
    {
        let ghost before = expression_views(values@);
        assert(views[i as int] == values@[i as int]@);
        match tc_const(&mut values[i]) {
            Err(d) => {
                push_diagnostic(diagnostics, d);
                proof {
                    lemma_values_fatal(d0, needed, views, (i + 1) as nat, orig.len());
                }
                return false;
            },
            Ok(()) => {},
        }
        if !same_type(values[i].type_, Some(needed)) {
            let span = values[i].span;
            push_diagnostic(
                diagnostics,
                type_mismatch(Some(needed), span, values[i].type_, span),
            );
        }
        proof {
            assert(expression_views(values@).take(i + 1) =~= before.take(i as int).push(
                values@[i as int]@,
            ));
        }
        i += 1;
    }
    proof {
        assert(expression_views(values@).take(i as int) =~= expression_views(values@));
    }
    true
}

/// The views of the parts of a data segment, element by element.
pub open spec fn part_views(s: Seq<DataValues>) -> Seq<DataValuesView> {
    Seq::new(s.len(), |i: int| s[i]@)
}

/// Checks the parts of a data segment. Returns `false` when a value is no
/// constant: the check ends there.
pub fn tc_data_parts(parts: &mut Vec<DataValues>, diagnostics: &mut Vec<Diagnostic>) -> (complete:
    bool)
    ensures
        ({
            let c = check_parts(
                diagnostic_views(old(diagnostics)@),
                part_views(old(parts)@),
                old(parts)@.len(),
            );
            &&& diagnostic_views(final(diagnostics)@) == c.diagnostics
            &&& complete == !c.fatal
            &&& final(diagnostics)@.len() >= old(diagnostics)@.len()
            &&& !complete ==> final(diagnostics)@.len() > 0
            &&& complete ==> part_views(final(parts)@) == c.parts
        }),
        final(parts)@.len() == old(parts)@.len(),
        forall|i: int|
            0 <= i < old(parts)@.len() ==> part_annotated(
                (#[trigger] old(parts)@[i])@,
                final(parts)@[i]@,
            ),
{
    let ghost d0 = diagnostic_views(diagnostics@);
    let ghost orig = parts@;
    let ghost views = part_views(orig);
    let mut i: usize = 0;
    assert(part_views(parts@).take(0) =~= Seq::empty());
    proof {
        assert forall|j: int| 0 <= j < orig.len() implies part_annotated(
            (#[trigger] orig[j])@,
            orig[j]@,
        ) by {
            lemma_part_itself(orig[j]@);
        }
    }
    while i < parts.len()
        invariant
            forall|j: int| 0 <= j < orig.len() ==> part_annotated((#[trigger] orig[j])@, orig[j]@),
            forall|j: int| 0 <= j < i ==> part_annotated((#[trigger] orig[j])@, parts@[j]@),
            i <= parts@.len(),
            parts@.len() == orig.len(),
            orig == old(parts)@,
            d0 == diagnostic_views(old(diagnostics)@),
            views == part_views(orig),
            diagnostics@.len() >= old(diagnostics)@.len(),
            forall|j: int| i <= j < orig.len() ==> parts@[j] == orig[j],
            (PartsChecked {
                parts: part_views(parts@).take(i as int),
                diagnostics: diagnostic_views(diagnostics@),
                fatal: false,
            }) == check_parts(d0, views, i as nat),
        decreases parts.len() - i,
    {
        let ghost before = part_views(parts@);
        assert(views[i as int] == parts@[i as int]@);
        match &mut parts[i] {
            DataValues::Array { type_, values } => {
                let complete = tc_data_values(values, needed_type(*type_), diagnostics);
                if !complete {
                    proof {
                        lemma_parts_fatal(d0, views, (i + 1) as nat, orig.len());
                    }
                    return false;
                }
            },
            _ => {},
        }
        proof {
            assert(part_views(parts@).take(i + 1) =~= before.take(i as int).push(
                parts@[i as int]@,
            ));
        }
        i += 1;
    }
    proof {
        assert(part_views(parts@).take(i as int) =~= part_views(parts@));
    }
    true
}

/// Checks the data segments. Returns `false` when an offset or a value is
/// no constant: the check ends there.
pub fn tc_data(data: &mut Vec<Data>, diagnostics: &mut Vec<Diagnostic>) -> (complete: bool)
    ensures
        ({
            let c = check_data(
                diagnostic_views(old(diagnostics)@),
                data_views(old(data)@),
                old(data)@.len(),
            );
            &&& diagnostic_views(final(diagnostics)@) == c.diagnostics
            &&& complete == !c.fatal
            &&& !complete ==> final(diagnostics)@.len() > 0
            &&& complete ==> data_views(final(data)@) == c.data
        }),
        final(data)@.len() == old(data)@.len(),
        forall|i: int|
            0 <= i < old(data)@.len() ==> segment_annotated(
                (#[trigger] old(data)@[i])@,
                final(data)@[i]@,
            ),
{
    let ghost d0 = diagnostic_views(diagnostics@);
    let ghost orig = data@;
    let ghost views = data_views(orig);
    let mut i: usize = 0;
    assert(data_views(data@).take(0) =~= Seq::empty());
    proof {
        assert forall|j: int| 0 <= j < orig.len() implies segment_annotated(
            (#[trigger] orig[j])@,
            orig[j]@,
        ) by {
            lemma_segment_itself(orig[j]@);
        }
    }
    while i < data.len()
        invariant
            forall|j: int|
                0 <= j < orig.len() ==> segment_annotated((#[trigger] orig[j])@, orig[j]@),
            forall|j: int| 0 <= j < i ==> segment_annotated((#[trigger] orig[j])@, data@[j]@),
            i <= data@.len(),
            data@.len() == orig.len(),
            orig == old(data)@,
            views == data_views(orig),
            forall|j: int| i <= j < orig.len() ==> data@[j] == orig[j],
            (DataChecked {
                data: data_views(data@).take(i as int),
                diagnostics: diagnostic_views(diagnostics@),
                fatal: false,
            }) == check_data(d0, views, i as nat),
            d0 == diagnostic_views(old(diagnostics)@),
        decreases data.len() - i,
    {
        let ghost before = data_views(data@);
        assert(views[i as int] == data@[i as int]@);
        assert(data@[i as int]@.data == part_views(data@[i as int].data@));
        let segment = &mut data[i];
        match tc_const(&mut *segment.offset) {
            Err(d) => {
                push_diagnostic(diagnostics, d);
                proof {
                    lemma_data_fatal(d0, views, (i + 1) as nat, orig.len());
                }
                return false;
            },
            Ok(()) => {},
        }
        if !same_type(segment.offset.type_, Some(Type::I32)) {
            let span = segment.offset.span;
            push_diagnostic(
                diagnostics,
                type_mismatch(Some(Type::I32), span, segment.offset.type_, span),
            );
        }
        let complete = tc_data_parts(&mut segment.data, diagnostics);
        if !complete {
            proof {
                lemma_data_fatal(d0, views, (i + 1) as nat, orig.len());
            }
            return false;
        }
        proof {
            assert(data@[i as int]@.data == part_views(data@[i as int].data@));
            assert(data_views(data@).take(i + 1) =~= before.take(i as int).push(
                data@[i as int]@,
            ));
        }
        i += 1;
    }
    proof {
        assert(data_views(data@).take(i as int) =~= data_views(data@));
    }
    true
}

impl ScriptView {
    /// No function body holds the placeholder that the parser leaves where
    /// it could not read an expression.
    pub open spec fn error_free(self) -> bool {
        bodies_error_free(self.functions)
    }
}

/// Whether no function body of the script holds an error placeholder: the
/// condition under which the script can be checked.
pub fn is_error_free(script: &Script) -> (r: bool)
    ensures
        r == script@.error_free(),
{
    let mut i: usize = 0;
    while i < script.functions.len()
        invariant
            i <= script.functions@.len(),
            forall|j: int| 0 <= j < i ==> (#[trigger] script@.functions[j]).body.error_free(),
        decreases script.functions.len() - i,
    {
        if !script.functions[i].body.is_error_free() {
            assert(!script@.functions[i as int].body.error_free());
            return false;
        }
        i += 1;
    }
    true
}

/// Checks a whole script: the annotated script, or everything that was
/// found wrong up to the step that ended the check.
pub open spec fn check_script(script: ScriptView, intrinsics: Map<Seq<char>, Seq<SignatureView>>)
    -> Result<ScriptView, Seq<DiagnosticView>> {
    let imported = register_imports(no_tables(), script.imports, script.imports.len());
    if imported.diagnostics.len() > 0 {
        Err(imported.diagnostics)
    } else {
        let globals = register_globals(
            imported.globals,
            Seq::empty(),
            script.global_vars,
            script.global_vars.len(),
        );
        if globals.diagnostics.len() > 0 {
            Err(globals.diagnostics)
        } else {
            let signatures = register_functions(
                Signatures { functions: imported.functions, diagnostics: Seq::empty() },
                script.functions,
                script.functions.len(),
            );
            if signatures.diagnostics.len() > 0 {
                Err(signatures.diagnostics)
            } else {
                let start = check_starts(
                    Seq::empty(),
                    script.functions,
                    script.functions.len(),
                );
                if start.diagnostics.len() > 0 {
                    Err(start.diagnostics)
                } else {
                    let data = check_data(Seq::empty(), script.data, script.data.len());
                    if data.diagnostics.len() > 0 {
                        Err(data.diagnostics)
                    } else {
                        let bodies = check_functions(
                            globals.globals,
                            signatures.functions,
                            intrinsics,
                            Seq::empty(),
                            script.functions,
                            script.functions.len(),
                        );
                        if bodies.diagnostics.len() > 0 {
                            Err(bodies.diagnostics)
                        } else {
                            Ok(
                                ScriptView {
                                    imports: script.imports,
                                    global_vars: globals.vars,
                                    functions: bodies.functions,
                                    data: data.data,
                                },
                            )
                        }
                    }
                }
            }
        }
    }
}

/// Checks a script and annotates it in place: every expression gets its
/// type, every name that stands for a local the local's id, and every
/// function its locals with their slots. On failure the diagnostics say
/// what is wrong; the script is then left partly annotated.
///
/// After success and after failure the script is the script of before
/// with annotations, and nothing else changed. After success the locals of
/// every function are in order, and they count the function's parameters.
///
/// Only a script that was read without errors can be checked: its function
/// bodies hold no error placeholder (`is_error_free` tests that). A tree is
/// checked once; to check a script again, check another copy of it.
pub fn tc_script(script: &mut Script, intrinsics: &Intrinsics) -> (r: Result<(), Vec<Diagnostic>>)
    requires
        old(script)@.error_free(),
    ensures
        match check_script(old(script)@, intrinsics@) {
            Ok(s) => r is Ok && final(script)@ == s && (forall|i: int|
                0 <= i < final(script).functions@.len() ==> locals_settled(
                    (#[trigger] final(script).functions@[i])@,
                ) && params_counted(final(script).functions@[i]@)),
            Err(d) => r is Err && diagnostic_views(r->Err_0@) == d && d.len() > 0,
        },
        script_annotated(old(script)@, final(script)@),
{
    proof {
        lemma_script_itself(script@);
    }
    let mut globals: NameMap<Var> = NameMap::new();
    let mut functions: NameMap<FunctionType> = NameMap::new();
    let mut diagnostics: Vec<Diagnostic> = Vec::new();
    assert(tables_view(&globals, &functions, &diagnostics) =~= no_tables());
    register_imported(&script.imports, &mut globals, &mut functions, &mut diagnostics);
    if diagnostics.len() > 0 {
        return Err(diagnostics);
    }
    assert(diagnostic_views(diagnostics@) =~= Seq::empty());
    let complete = register_global_vars(&mut script.global_vars, &mut globals, &mut diagnostics);
    if !complete || diagnostics.len() > 0 {
        return Err(diagnostics);
    }
    assert(diagnostic_views(diagnostics@) =~= Seq::empty());
    register_signatures(&script.functions, &mut functions, &mut diagnostics);
    if diagnostics.len() > 0 {
        return Err(diagnostics);
    }
    assert(diagnostic_views(diagnostics@) =~= Seq::empty());
    check_start_functions(&script.functions, &mut diagnostics);
    if diagnostics.len() > 0 {
        return Err(diagnostics);
    }
    assert(diagnostic_views(diagnostics@) =~= Seq::empty());
    let complete = tc_data(&mut script.data, &mut diagnostics);
    if !complete || diagnostics.len() > 0 {
        return Err(diagnostics);
    }
    assert(diagnostic_views(diagnostics@) =~= Seq::empty());
    let mut ctx = Context {
        global_vars: globals,
        functions,
        locals: Locals::new(),
        local_vars: LocalVars::new(),
        block_stack: Vec::new(),
        return_type: None,
        intrinsics,
    };
    assert(ctx@.labels =~= Seq::empty());
    let complete = tc_functions(&mut ctx, &mut script.functions, &mut diagnostics);
    if !complete || diagnostics.len() > 0 {
        return Err(diagnostics);
    }
    Ok(())
}

} // verus!
