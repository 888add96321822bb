use vrl_compiler::diagnostic::{literal_keywords, Label, LabelMessage, LabelStyle, UNDEFINED_VARIABLE};
use vrl_compiler::env::{Binding, ExternalEnv, LocalEnv};
use vrl_compiler::ident::{Ident, Span};
use vrl_compiler::levenshtein::{distance, nearest};
use vrl_compiler::state::RuntimeState;
use vrl_compiler::type_def::TypeDef;
use vrl_compiler::value::Value;
use vrl_compiler::variable::Variable;
use vrl_compiler::vm::{Instruction, OpCode, Vm, VmError};

fn chars(s: &str) -> Vec<char> {
    s.chars().collect()
}

fn int_binding() -> Binding {
    Binding::new(TypeDef::integer().infallible(), None)
}

fn env_of(names: &[&str]) -> LocalEnv {
    let mut local = LocalEnv::new();
    for n in names {
        local.insert_variable(Ident::new(n), int_binding());
    }
    local
}

fn suggestion(labels: &[Label]) -> Option<Ident> {
    match labels.get(1) {
        Some(Label { message: LabelMessage::DidYouMean(g), .. }) => Some(g.clone()),
        _ => None,
    }
}

#[test]
fn resolves_declared_integer() {
    let local = env_of(&["x"]);
    let mut state = RuntimeState::new();
    state.insert_variable(Ident::new("x"), Value::Integer(5));
    let v = Variable::new(Span::new(0, 1), Ident::new("x"), &local).unwrap();
    assert_eq!(v.resolve(&state), Value::Integer(5));
    let t = v.type_def(&local, &ExternalEnv::new());
    assert!(!t.is_fallible());
    assert!(t.kind.integer && !t.kind.null && !t.kind.boolean);
}

#[test]
fn declared_type_is_the_bindings() {
    let mut local = LocalEnv::new();
    let bt = TypeDef::boolean().merge(TypeDef::null());
    local.insert_variable(Ident::new("flag"), Binding::new(bt, Some(Value::Boolean(true))));
    let v = Variable::new(Span::new(3, 7), Ident::new("flag"), &local).unwrap();
    assert_eq!(v.type_def(&local, &ExternalEnv::new()), bt);
    assert_eq!(v.value(), Some(&Value::Boolean(true)));
    assert_eq!(v.ident(), &Ident::new("flag"));
}

#[test]
fn declared_but_unset_reads_null() {
    let local = env_of(&["y"]);
    let state = RuntimeState::new();
    let v = Variable::new(Span::new(0, 1), Ident::new("y"), &local).unwrap();
    assert_eq!(v.resolve(&state), Value::Null);
    let mut vm = Vm::new();
    v.compile_to_vm(&mut vm).unwrap();
    assert_eq!(vm.run(&state), Ok(vec![Value::Null]));
}

#[test]
fn undefined_reference_lists_declared_names() {
    let local = env_of(&["b", "a", "c"]);
    let err = Variable::new(Span::new(4, 9), Ident::new("zzz"), &local).unwrap_err();
    assert_eq!(err.code(), UNDEFINED_VARIABLE);
    assert_eq!(err.code(), 701);
    assert_eq!(err.ident(), &Ident::new("zzz"));
    assert_eq!(err.span(), Span::new(4, 9));
    assert_eq!(err.idents(), &vec![Ident::new("b"), Ident::new("a"), Ident::new("c")]);
    let labels = err.labels();
    assert_eq!(labels.len(), 2);
    assert_eq!(labels[0].style, LabelStyle::Primary);
    assert_eq!(labels[0].message, LabelMessage::UndefinedVariable);
    assert_eq!(labels[0].span, Span::new(4, 9));
    assert_eq!(labels[1].style, LabelStyle::Context);
    assert_eq!(labels[1].span, Span::new(4, 9));
}

#[test]
fn suggests_nearest_declared_name() {
    let local = env_of(&["count", "countery", "foo"]);
    let err = Variable::new(Span::new(0, 5), Ident::new("coutn"), &local).unwrap_err();
    assert_eq!(suggestion(&err.labels()), Some(Ident::new("count")));
    assert_eq!(distance(&chars("coutn"), &chars("count")), 2);
    assert_eq!(distance(&chars("coutn"), &chars("countery")), 4);
}

#[test]
fn ties_go_to_the_earlier_name() {
    let cands = vec![Ident::new("ab"), Ident::new("ba"), Ident::new("bb")];
    assert_eq!(nearest(&chars("aa"), &cands), Some(0));
    let local = env_of(&["ax", "xa"]);
    let err = Variable::new(Span::new(0, 2), Ident::new("aa"), &local).unwrap_err();
    assert_eq!(suggestion(&err.labels()), Some(Ident::new("ax")));
}

#[test]
fn suggests_a_literal_keyword() {
    let local = env_of(&["count"]);
    let err = Variable::new(Span::new(0, 4), Ident::new("tru"), &local).unwrap_err();
    assert_eq!(suggestion(&err.labels()), Some(Ident::new("true")));
    let empty = LocalEnv::new();
    let err = Variable::new(Span::new(0, 4), Ident::new("nul"), &empty).unwrap_err();
    assert_eq!(suggestion(&err.labels()), Some(Ident::new("null")));
}

#[test]
fn no_suggestion_without_candidates() {
    let empty = LocalEnv::new();
    let err = Variable::new(Span::new(1, 2), Ident::new("q"), &empty).unwrap_err();
    assert!(err.idents().is_empty());
    let labels = err.labels_with_keywords(&Vec::new());
    assert_eq!(labels.len(), 1);
    assert_eq!(labels[0].message, LabelMessage::UndefinedVariable);
    assert_eq!(literal_keywords(), vec![Ident::new("null"), Ident::new("true"), Ident::new("false")]);
    assert_eq!(nearest(&chars("q"), &Vec::new()), None);
}

#[test]
fn edit_distance_values() {
    assert_eq!(distance(&chars(""), &chars("abc")), 3);
    assert_eq!(distance(&chars("abc"), &chars("")), 3);
    assert_eq!(distance(&chars("kitten"), &chars("sitting")), 3);
    assert_eq!(distance(&chars("flaw"), &chars("lawn")), 2);
    assert_eq!(distance(&chars("same"), &chars("same")), 0);
}

#[test]
fn noop_is_null_in_every_backend() {
    let local = env_of(&["x"]);
    let mut state = RuntimeState::new();
    state.insert_variable(Ident::new("x"), Value::Integer(9));
    let v = Variable::noop(Ident::new("x"));
    assert_eq!(v.value(), None);
    assert_eq!(v.resolve(&state), Value::Null);
    assert_eq!(v.type_def(&local, &ExternalEnv::new()), TypeDef::null().infallible());
    let mut vm = Vm::new();
    v.compile_to_vm(&mut vm).unwrap();
    assert_eq!(vm.instructions(), &vec![Instruction::OpCode(OpCode::PushNull)]);
    assert_eq!(vm.run(&state), Ok(vec![Value::Null]));
}

#[test]
fn vm_agrees_with_interpreter() {
    let local = env_of(&["a", "b"]);
    let mut state = RuntimeState::new();
    state.insert_variable(Ident::new("b"), Value::Boolean(false));
    let a = Variable::new(Span::new(0, 1), Ident::new("a"), &local).unwrap();
    let b = Variable::new(Span::new(2, 3), Ident::new("b"), &local).unwrap();
    let mut vm = Vm::new();
    a.compile_to_vm(&mut vm).unwrap();
    b.compile_to_vm(&mut vm).unwrap();
    assert_eq!(vm.run(&state), Ok(vec![a.resolve(&state), b.resolve(&state)]));
    assert_eq!(vm.run(&state), Ok(vec![Value::Null, Value::Boolean(false)]));
}

#[test]
fn slot_is_given_once_per_binding() {
    let local = env_of(&["a", "b"]);
    let a = Variable::new(Span::new(0, 1), Ident::new("a"), &local).unwrap();
    let b = Variable::new(Span::new(2, 3), Ident::new("b"), &local).unwrap();
    let mut vm = Vm::new();
    a.compile_to_vm(&mut vm).unwrap();
    assert_eq!(vm.targets(), vec![Ident::new("a")]);
    b.compile_to_vm(&mut vm).unwrap();
    a.compile_to_vm(&mut vm).unwrap();
    assert_eq!(vm.targets(), vec![Ident::new("a"), Ident::new("b")]);
    assert_eq!(
        vm.instructions(),
        &vec![
            Instruction::OpCode(OpCode::GetPath),
            Instruction::Primitive(0),
            Instruction::OpCode(OpCode::GetPath),
            Instruction::Primitive(1),
            Instruction::OpCode(OpCode::GetPath),
            Instruction::Primitive(0),
        ]
    );
}

#[test]
fn malformed_bytecode_is_refused() {
    let state = RuntimeState::new();
    let mut vm = Vm::new();
    vm.write_primitive(0);
    assert_eq!(vm.run(&state), Err(VmError::Malformed { at: 0 }));
    let mut vm = Vm::new();
    vm.write_opcode(OpCode::GetPath);
    vm.write_primitive(3);
    assert_eq!(vm.run(&state), Err(VmError::Malformed { at: 0 }));
}

#[test]
fn redeclaring_returns_the_previous_binding() {
    let mut local = LocalEnv::new();
    assert_eq!(local.insert_variable(Ident::new("x"), int_binding()), None);
    let b2 = Binding::new(TypeDef::boolean(), Some(Value::Boolean(true)));
    assert_eq!(local.insert_variable(Ident::new("y"), b2), None);
    assert_eq!(local.insert_variable(Ident::new("x"), b2), Some(int_binding()));
    assert_eq!(local.variable_idents(), vec![Ident::new("x"), Ident::new("y")]);
    assert_eq!(local.variable(&Ident::new("x")), Some(b2));
    let mut ext = ExternalEnv::new();
    assert_eq!(ext.insert_variable(Ident::new("g"), b2), None);
    assert_eq!(ext.variable(&Ident::new("g")), Some(b2));
    assert_eq!(ext.variable(&Ident::new("x")), None);
}

#[test]
fn inner_scope_shadows_outer() {
    let mut local = LocalEnv::new();
    let outer = Binding::new(TypeDef::integer(), Some(Value::Integer(1)));
    let inner = Binding::new(TypeDef::boolean().infallible(), Some(Value::Boolean(true)));
    local.insert_variable(Ident::new("x"), outer);
    local.insert_variable(Ident::new("z"), outer);
    local.push_scope();
    assert_eq!(local.insert_variable(Ident::new("x"), inner), Some(outer));
    local.insert_variable(Ident::new("w"), inner);
    assert_eq!(local.variable(&Ident::new("x")), Some(inner));
    assert_eq!(local.variable(&Ident::new("z")), Some(outer));
    assert_eq!(
        local.variable_idents(),
        vec![Ident::new("x"), Ident::new("z"), Ident::new("x"), Ident::new("w")]
    );
    let v = Variable::new(Span::new(0, 1), Ident::new("x"), &local).unwrap();
    assert_eq!(v.type_def(&local, &ExternalEnv::new()), inner.type_def);
    assert_eq!(v.value(), Some(&Value::Boolean(true)));
    assert!(local.pop_scope());
    assert_eq!(local.variable(&Ident::new("x")), Some(outer));
    assert_eq!(local.variable(&Ident::new("w")), None);
    assert!(!local.pop_scope());
    assert_eq!(local.variable_idents(), vec![Ident::new("x"), Ident::new("z")]);
}

#[test]
fn undefined_after_scope_closes() {
    let mut local = env_of(&["a"]);
    local.push_scope();
    local.insert_variable(Ident::new("inner"), int_binding());
    assert!(Variable::new(Span::new(0, 5), Ident::new("inner"), &local).is_ok());
    local.pop_scope();
    let err = Variable::new(Span::new(0, 5), Ident::new("inner"), &local).unwrap_err();
    assert_eq!(err.idents(), &vec![Ident::new("a")]);
}
