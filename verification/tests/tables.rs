use curlywas::ast::{Locals, Signature, Span, Type};
use curlywas::diag::{
    candidate_message, no_matching_function, report_duplicate_definition, type_mismatch,
    Definition, ErrorKind,
};
use curlywas::names::{LocalVars, NameMap};
use curlywas::syntax::{syntax_diagnostic, Expected, SyntaxError, SyntaxErrorKind};
use curlywas::typecheck::{
    binary_type, find_overload, same_types, unary_type, Intrinsics,
};
use curlywas::ast::{BinOp, UnaryOp};

fn name(s: &str) -> String {
    s.to_string()
}

#[test]
fn name_map_keeps_the_last_value() {
    let mut m: NameMap<usize> = NameMap::new();
    assert_eq!(m.get(&name("a")), None);
    m.insert(name("a"), 1);
    m.insert(name("b"), 2);
    assert_eq!(m.get(&name("a")), Some(&1));
    assert_eq!(m.get(&name("b")), Some(&2));
    m.insert(name("a"), 3);
    assert_eq!(m.get(&name("a")), Some(&3));
    assert_eq!(m.get(&name("c")), None);
    assert_eq!(m.get(&name("")), None);
}

#[test]
fn scopes_resolve_innermost_first() {
    let mut v = LocalVars::new();
    assert_eq!(v.get(&name("x")), None);
    v.push_scope();
    v.insert(name("x"), 0);
    v.insert(name("y"), 1);
    assert_eq!(v.get(&name("x")), Some(0));
    assert_eq!(v.get_in_current(&name("x")), Some(0));
    v.push_scope();
    assert_eq!(v.get(&name("x")), Some(0));
    assert_eq!(v.get_in_current(&name("x")), None);
    v.insert(name("x"), 2);
    assert_eq!(v.get(&name("x")), Some(2));
    assert_eq!(v.get_in_current(&name("x")), Some(2));
    assert_eq!(v.get(&name("y")), Some(1));
    v.insert(name("x"), 5);
    assert_eq!(v.get(&name("x")), Some(5));
    v.pop_scope();
    assert_eq!(v.get(&name("x")), Some(0));
    v.pop_scope();
    assert_eq!(v.get(&name("x")), None);
    v.pop_scope();
    assert_eq!(v.get(&name("x")), None);
}

#[test]
fn clearing_closes_every_scope() {
    let mut v = LocalVars::new();
    v.push_scope();
    v.insert(name("x"), 0);
    v.push_scope();
    v.insert(name("y"), 1);
    v.clear();
    assert_eq!(v.get(&name("x")), None);
    assert_eq!(v.get(&name("y")), None);
    assert_eq!(v.0.len(), 0);
    v.push_scope();
    assert_eq!(v.get_in_current(&name("x")), None);
}

#[test]
fn locals_get_their_ids_in_order() {
    let mut l = Locals::new();
    assert_eq!(l.add_param(Span::new(0, 1), name("a"), Type::I32), 0);
    assert_eq!(l.add_param(Span::new(0, 1), name("b"), Type::F32), 1);
    assert_eq!(l.add_local(Span::new(2, 3), name("c"), Type::F64, true), 2);
    assert_eq!(l.add_local(Span::new(4, 5), name("d"), Type::I64, false), 3);
    assert_eq!(l.params, 2);
    assert_eq!(l.get(1).name, "b");
    assert_eq!(l.get(1).index, Some(1));
    assert_eq!(l.get(2).index, Some(0));
    assert_eq!(l.get(3).index, None);
    assert_eq!(l.get(3).type_, Type::I64);
}

#[test]
fn overloads_are_found_by_exact_types() {
    let candidates = vec![
        Signature { params: vec![Type::I32], result: Some(Type::I32) },
        Signature { params: vec![Type::F32, Type::F32], result: None },
        Signature { params: vec![Type::I32], result: Some(Type::F64) },
        Signature { params: Vec::new(), result: Some(Type::I64) },
    ];
    assert_eq!(find_overload(&candidates, &vec![Type::I32]), Some(Some(Type::I32)));
    assert_eq!(find_overload(&candidates, &vec![Type::F32, Type::F32]), Some(None));
    assert_eq!(find_overload(&candidates, &Vec::new()), Some(Some(Type::I64)));
    assert_eq!(find_overload(&candidates, &vec![Type::F32]), None);
    assert_eq!(find_overload(&candidates, &vec![Type::I32, Type::I32]), None);
    assert_eq!(find_overload(&Vec::new(), &Vec::new()), None);
    assert!(same_types(&vec![Type::I32, Type::F64], &vec![Type::I32, Type::F64]));
    assert!(!same_types(&vec![Type::I32, Type::F64], &vec![Type::I32, Type::F32]));
    assert!(!same_types(&vec![Type::I32], &vec![Type::I32, Type::I32]));
}

#[test]
fn built_ins_are_found_by_name() {
    let mut i = Intrinsics::new();
    assert_eq!(i.find_types(&name("sqrt")), None);
    let signatures = vec![Signature { params: vec![Type::F32], result: Some(Type::F32) }];
    i.add(name("sqrt"), signatures.clone());
    assert_eq!(i.find_types(&name("sqrt")), Some(&signatures));
    assert_eq!(i.find_types(&name("sqr")), None);
}

#[test]
fn candidate_messages() {
    let sig = |params: Vec<Type>, result: Option<Type>| Signature { params, result };
    assert_eq!(candidate_message("f", &sig(Vec::new(), None)), "Found f()");
    assert_eq!(candidate_message("f", &sig(vec![Type::I64], None)), "Found f(i64)");
    assert_eq!(
        candidate_message("max", &sig(vec![Type::I32, Type::I64, Type::F32, Type::F64], Some(Type::F64))),
        "Found max(i32, i64, f32, f64) -> f64"
    );
    let d = no_matching_function("f", &Vec::new(), Span::new(1, 2));
    assert_eq!(d.kind, ErrorKind::NoMatchingOverload);
    assert_eq!(d.message, "No matching function found");
    assert_eq!(d.labels, Vec::new());
}

#[test]
fn mismatch_messages_name_the_types() {
    let d = type_mismatch(None, Span::new(0, 1), Some(Type::I64), Span::new(2, 3));
    assert_eq!(d.labels[0].message, "Expected type \"void\"...");
    assert_eq!(d.labels[1].message, "...but found type I64");
    let d = type_mismatch(Some(Type::F64), Span::new(0, 1), None, Span::new(2, 3));
    assert_eq!(d.labels[0].message, "Expected type \"F64\"...");
    assert_eq!(d.labels[1].message, "...but found type void");
    assert_eq!(d.span, Span::new(2, 3));
    assert!(!d.labels[0].primary);
    assert!(d.labels[1].primary);
}

#[test]
fn duplicate_definition_messages() {
    let at = Span::new(5, 6);
    let before = Span::new(1, 2);
    let d = report_duplicate_definition(Definition::Global, at, before);
    assert_eq!((d.kind, d.message.as_str()), (ErrorKind::DuplicateDefinition, "Global already defined"));
    let d = report_duplicate_definition(Definition::Function, at, before);
    assert_eq!((d.kind, d.message.as_str()), (ErrorKind::DuplicateDefinition, "Function already defined"));
    let d = report_duplicate_definition(Definition::Variable, at, before);
    assert_eq!((d.kind, d.message.as_str()), (ErrorKind::DuplicateDefinition, "Variable already defined"));
    let d = report_duplicate_definition(Definition::StartFunction, at, before);
    assert_eq!(
        (d.kind, d.message.as_str()),
        (ErrorKind::InvalidStartFunction, "Start function already defined")
    );
    assert_eq!(d.span, at);
    assert_eq!(d.labels[0].span, at);
    assert_eq!(d.labels[1].span, before);
}

#[test]
fn operator_types_on_their_own() {
    assert_eq!(unary_type(UnaryOp::Not, Some(Type::I64), Span::new(0, 2), Span::new(1, 2)), Ok(Some(Type::I32)));
    assert_eq!(
        binary_type(BinOp::Shl, Some(Type::I64), Span::new(0, 1), Some(Type::I64), Span::new(2, 3)),
        Ok(Some(Type::I64))
    );
    assert_eq!(
        binary_type(BinOp::GeU, Some(Type::I64), Span::new(0, 1), Some(Type::I64), Span::new(2, 3)),
        Ok(Some(Type::I32))
    );
}

#[test]
fn syntax_diagnostics_name_what_was_expected() {
    let error = |kind: SyntaxErrorKind| SyntaxError { span: Span::new(4, 6), kind };
    let expected = |e: Expected| syntax_diagnostic(error(SyntaxErrorKind::Unexpected(e)), Some("->")).message;
    assert_eq!(expected(Expected::Item), "Unexpected token in input, expected one of import, export, fn");
    assert_eq!(expected(Expected::Type), "Unexpected token in input, expected one of i32, i64, f32, f64");
    assert_eq!(expected(Expected::Identifier), "Unexpected token in input, expected one of identifier");
    assert_eq!(expected(Expected::Integer), "Unexpected token in input, expected one of integer");
    assert_eq!(expected(Expected::String), "Unexpected token in input, expected one of string");
    assert_eq!(expected(Expected::ImportKind), "Unexpected token in input, expected one of memory, global");
    assert_eq!(expected(Expected::Function), "Unexpected token in input, expected one of fn");
    assert_eq!(expected(Expected::Assign), "Unexpected token in input, expected one of =");
    assert_eq!(expected(Expected::Ctrl(';')), "Unexpected token in input, expected one of ;");
    let d = syntax_diagnostic(error(SyntaxErrorKind::Unexpected(Expected::Ctrl(')'))), Some("->"));
    assert_eq!(d.kind, ErrorKind::UnexpectedToken);
    assert_eq!(d.labels[0].message, "Unexpected token ->");
    let d = syntax_diagnostic(
        error(SyntaxErrorKind::Unclosed { open: Span::new(1, 2) }),
        Some("}"),
    );
    assert_eq!(d.labels[1].message, "Must be closed before this }");
}
