use vrl_compiler::env::{Binding, LocalEnv};
use vrl_compiler::ident::{Ident, Span};
use vrl_compiler::native::{variable_helper, NativeContext, NativeError, NativeOp};
use vrl_compiler::state::RuntimeState;
use vrl_compiler::type_def::TypeDef;
use vrl_compiler::value::Value;
use vrl_compiler::variable::Variable;
use vrl_compiler::vm::Vm;

fn env_of(names: &[&str]) -> LocalEnv {
    let mut local = LocalEnv::new();
    for n in names {
        local.insert_variable(Ident::new(n), Binding::new(TypeDef::integer(), None));
    }
    local
}

#[test]
fn native_code_calls_the_helper() {
    let local = env_of(&["x", "y"]);
    let x = Variable::new(Span::new(0, 1), Ident::new("x"), &local).unwrap();
    let y = Variable::new(Span::new(2, 3), Ident::new("y"), &local).unwrap();
    let mut ctx = NativeContext::new(vec![variable_helper()]);
    x.emit_native(&mut ctx).unwrap();
    y.emit_native(&mut ctx).unwrap();
    x.emit_native(&mut ctx).unwrap();
    assert_eq!(
        ctx.ops(),
        &vec![
            NativeOp::Branch { block: 0 },
            NativeOp::Enter { block: 0 },
            NativeOp::CallVariableImpl { cell: 0 },
            NativeOp::Branch { block: 1 },
            NativeOp::Enter { block: 1 },
            NativeOp::CallVariableImpl { cell: 1 },
            NativeOp::Branch { block: 2 },
            NativeOp::Enter { block: 2 },
            NativeOp::CallVariableImpl { cell: 0 },
        ]
    );
}

#[test]
fn all_backends_agree() {
    let local = env_of(&["x", "y"]);
    let mut state = RuntimeState::new();
    state.insert_variable(Ident::new("x"), Value::Integer(-4));
    for name in ["x", "y"] {
        let v = Variable::new(Span::new(0, 1), Ident::new(name), &local).unwrap();
        let mut vm = Vm::new();
        v.compile_to_vm(&mut vm).unwrap();
        let mut ctx = NativeContext::new(vec![variable_helper()]);
        v.emit_native(&mut ctx).unwrap();
        let direct = v.resolve(&state);
        assert_eq!(vm.run(&state), Ok(vec![direct]));
        assert_eq!(ctx.run(&state), Ok(direct));
    }
    let x = Variable::new(Span::new(0, 1), Ident::new("x"), &local).unwrap();
    assert_eq!(x.resolve(&state), Value::Integer(-4));
}

#[test]
fn native_placeholder_stores_null() {
    let mut state = RuntimeState::new();
    state.insert_variable(Ident::new("x"), Value::Integer(1));
    let v = Variable::noop(Ident::new("x"));
    let mut ctx = NativeContext::new(vec![variable_helper()]);
    v.emit_native(&mut ctx).unwrap();
    assert_eq!(ctx.ops().last(), Some(&NativeOp::StoreNull));
    assert_eq!(ctx.run(&state), Ok(Value::Null));
}

#[test]
fn native_needs_the_helper() {
    let local = env_of(&["x"]);
    let v = Variable::new(Span::new(0, 1), Ident::new("x"), &local).unwrap();
    let mut ctx = NativeContext::new(vec![Ident::new("other")]);
    assert_eq!(
        v.emit_native(&mut ctx),
        Err(NativeError::MissingFunction(Ident::new("vrl_expression_variable_impl")))
    );
}

#[test]
fn native_call_without_cell_is_refused() {
    let mut ctx = NativeContext::new(Vec::new());
    ctx.build(NativeOp::CallVariableImpl { cell: 0 });
    assert_eq!(ctx.run(&RuntimeState::new()), Err(NativeError::Malformed { at: 0 }));
}
