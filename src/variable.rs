use vstd::prelude::*;

use crate::diagnostic::Error;
use crate::env::{ExternalEnv, LocalEnv};
use crate::ident::{Ident, Span};
use crate::native::{
    lemma_native_append, lemma_native_more_cells, native_run_from, native_run_spec, variable_helper,
    variable_helper_name, NativeContext, NativeError, NativeOp,
};
use crate::state::RuntimeState;
use crate::type_def::{Kind, TypeDef};
use crate::value::Value;
use crate::vm::{fetch, lemma_run_append, lemma_run_more_slots, run_from, run_spec, Instruction, OpCode, Vm};

verus! {

/// The type of the placeholder: always null, never failing.
pub open spec fn null_infallible() -> TypeDef {
    TypeDef { fallible: false, kind: Kind { null: true, boolean: false, integer: false } }
}

/// A reference to a binding by name.
#[derive(Clone, Debug, PartialEq)]
pub struct Variable {
    ident: Ident,
    value: Option<Value>,
    placeholder: bool,
}

/// `after` is `before` with the code for reading `v` appended: a fetch of the
/// binding's slot, the slot being given on first use; or a null for the
/// placeholder.
pub open spec fn compiled(v: Variable, before: Vm, after: Vm) -> bool {
    &&& after.wf()
    &&& if v.is_noop() {
        &&& after.code() == before.code().push(Instruction::OpCode(OpCode::PushNull))
        &&& after.slots() == before.slots()
    } else {
        &&& exists|s: usize|
            #[trigger] after.code() == before.code().push(Instruction::OpCode(OpCode::GetPath)).push(
                Instruction::Primitive(s),
            ) && s < after.slots().len() && after.slots()[s as int] == v.name()
        &&& before.slots().contains(v.name()) ==> after.slots() == before.slots()
        &&& !before.slots().contains(v.name()) ==> after.slots() == before.slots().push(v.name())
    }
}

/// The name of the block that native code for a reference starts.
pub open spec fn begin_block_name() -> Seq<char> {
    seq!['v', 'a', 'r', 'i', 'a', 'b', 'l', 'e', '_', 'b', 'e', 'g', 'i', 'n']
}

/// `after` is `before` with the native code for reading `v` appended: a new
/// block entered by a branch, then a call of the runtime helper on the
/// binding's storage cell, the cell being made on first use; or a null for
/// the placeholder.
pub open spec fn emitted(v: Variable, before: NativeContext, after: NativeContext) -> bool {
    let b = before.block_names().len() as usize;
    let head = before.code().push(NativeOp::Branch { block: b }).push(NativeOp::Enter { block: b });
    &&& after.wf()
    &&& after.block_names() == before.block_names().push(begin_block_name())
    &&& after.function_names() == before.function_names()
    &&& if v.is_noop() {
        &&& after.code() == head.push(NativeOp::StoreNull)
        &&& after.cell_names() == before.cell_names()
    } else {
        &&& exists|c: usize|
            #[trigger] after.code() == head.push(NativeOp::CallVariableImpl { cell: c }) && c
                < after.cell_names().len() && after.cell_names()[c as int] == v.name()
        &&& before.cell_names().contains(v.name()) ==> after.cell_names() == before.cell_names()
        &&& !before.cell_names().contains(v.name()) ==> after.cell_names() == before.cell_names().push(
            v.name(),
        )
    }
}

impl Variable {
    /// The name referenced.
    pub closed spec fn name(&self) -> Seq<char> {
        self.ident@
    }

    /// The value the binding was known to have when the reference was made.
    pub closed spec fn snapshot(&self) -> Option<Value> {
        self.value
    }

    /// Whether this is the placeholder that stands in for a bad reference.
    pub closed spec fn is_noop(&self) -> bool {
        self.placeholder
    }

    /// The value the reference reads in `state`.
    pub open spec fn resolved(&self, state: RuntimeState) -> Value {
        if self.is_noop() {
            Value::Null
        } else {
            fetch(state, self.name())
        }
    }

    /// The static type of the reference under `local`.
    pub open spec fn typed(&self, local: LocalEnv) -> TypeDef {
        if self.is_noop() {
            null_infallible()
        } else {
            match local.lookup(self.name()) {
                Some(b) => b.type_def,
                None => null_infallible(),
            }
        }
    }

    /// Makes a reference to `ident`, which must be declared in `local`.
    pub fn new(span: Span, ident: Ident, local: &LocalEnv) -> (r: Result<Variable, Error>)
        requires
            local.wf(),
        ensures
            r is Ok <==> local.lookup(ident@) is Some,
            r matches Ok(v) ==> {
                &&& v.name() == ident@
                &&& !v.is_noop()
                &&& v.snapshot() == local.lookup(ident@)->0.value
            },
            r matches Err(e) ==> {
                &&& e.name() == ident@
                &&& e.at() == span
                &&& e.candidates() == local.declared()
            },
    {
        let value = match local.variable(&ident) {
            Some(binding) => binding.value,
            None => {
                let idents = local.variable_idents();
                return Err(Error::undefined(ident, span, idents));
            },
        };
        Ok(Variable { ident, value, placeholder: false })
    }

    pub fn ident(&self) -> (r: &Ident)
        ensures
            r@ == self.name(),
    {
        &self.ident
    }

    pub fn value(&self) -> (r: Option<&Value>)
        ensures
            r is Some <==> self.snapshot() is Some,
            r matches Some(x) ==> *x == self.snapshot()->0,
    {
        self.value.as_ref()
    }

    /// A placeholder for a reference that could not be made, so that the rest
    /// of the program can still be checked.
    pub fn noop(ident: Ident) -> (r: Variable)
        ensures
            r.name() == ident@,
            r.is_noop(),
            r.snapshot() is None,
    {
        Variable { ident, value: None, placeholder: true }
    }

    /// The value of the binding in `state`, or null where it holds none.
    pub fn resolve(&self, state: &RuntimeState) -> (r: Value)
        requires
            state.wf(),
        ensures
            r == self.resolved(*state),
    {
        if self.placeholder {
            return Value::Null;
        }
        match state.variable(&self.ident) {
            Some(v) => v,
            None => Value::Null,
        }
    }

    /// The type recorded for the binding in `local`.
    pub fn type_def(&self, local: &LocalEnv, _external: &ExternalEnv) -> (r: TypeDef)
        requires
            local.wf(),
        ensures
            r == self.typed(*local),
    {
        if self.placeholder {
            return TypeDef::null().infallible();
        }
        match local.variable(&self.ident) {
            Some(binding) => binding.type_def,
            None => TypeDef::null().infallible(),
        }
    }

    /// Appends the bytecode that reads the binding.
    pub fn compile_to_vm(&self, vm: &mut Vm) -> (r: Result<(), String>)
        requires
            old(vm).wf(),
        ensures
            r is Ok,
            compiled(*self, *old(vm), *final(vm)),
    {
        if self.placeholder {
            vm.write_opcode(OpCode::PushNull);
            return Ok(());
        }
        vm.write_opcode(OpCode::GetPath);
        // The slot of the binding goes after the opcode.
        let target = vm.get_target(&self.ident);
        vm.write_primitive(target);
        assert(vm.code() == old(vm).code().push(Instruction::OpCode(OpCode::GetPath)).push(
            Instruction::Primitive(target),
        ));
        Ok(())
    }

    /// Appends native code that reads the binding through the runtime helper,
    /// which the module must hold.
    pub fn emit_native(&self, ctx: &mut NativeContext) -> (r: Result<(), NativeError>)
        requires
            old(ctx).wf(),
        ensures
            r is Ok <==> old(ctx).function_names().contains(variable_helper_name()),
            r is Ok ==> emitted(*self, *old(ctx), *final(ctx)),
            r matches Err(e) ==> e matches NativeError::MissingFunction(f) && f@ == variable_helper_name(),
    {
        let block = ctx.append_basic_block(
            Ident::from_chars(vec!['v', 'a', 'r', 'i', 'a', 'b', 'l', 'e', '_', 'b', 'e', 'g', 'i', 'n']),
        );
        ctx.build(NativeOp::Branch { block });
        ctx.build(NativeOp::Enter { block });
        let helper = variable_helper();
        if !ctx.has_function(&helper) {
            return Err(NativeError::MissingFunction(helper));
        }
        assert(ctx.block_names() =~= old(ctx).block_names().push(begin_block_name()));
        if self.placeholder {
            ctx.build(NativeOp::StoreNull);
            return Ok(());
        }
        let cell = ctx.get_variable_ref(&self.ident);
        ctx.build(NativeOp::CallVariableImpl { cell });
        Ok(())
    }
}

/// A reference made to a declared binding has the type recorded on that
/// binding.
pub proof fn lemma_declared_reference_type(v: Variable, local: LocalEnv, name: Seq<char>)
    requires
        local.lookup(name) is Some,
        v.name() == name,
        !v.is_noop(),
    ensures
        v.typed(local) == local.lookup(name)->0.type_def,
{
}

/// The placeholder is typed as null that cannot fail, and reads null in
/// every state.
pub proof fn lemma_noop_reads_null(v: Variable, local: LocalEnv, state: RuntimeState)
    requires
        v.is_noop(),
    ensures
        v.typed(local) == null_infallible(),
        v.resolved(state) == Value::Null,
{
}

/// Running the bytecode of a reference pushes the value that interpreting
/// the reference gives, in every state, whether or not the binding holds a
/// value there.
pub proof fn lemma_vm_agrees_with_resolve(
    v: Variable,
    before: Vm,
    after: Vm,
    state: RuntimeState,
    stack: Seq<Value>,
)
    requires
        compiled(v, before, after),
        run_spec(before.code(), before.slots(), state) == Some(stack),
    ensures
        run_spec(after.code(), after.slots(), state) == Some(stack.push(v.resolved(state))),
{
    let code = before.code();
    let slots = after.slots();
    assert(slots.subrange(0, before.slots().len() as int) =~= before.slots());
    lemma_run_more_slots(code, before.slots(), slots, state, 0, Seq::empty());
    let n = code.len();
    if v.is_noop() {
        let extra = seq![Instruction::OpCode(OpCode::PushNull)];
        assert(after.code() =~= code + extra);
        lemma_run_append(code, extra, slots, state, 0, Seq::empty());
        assert(run_from(after.code(), slots, state, n + 1, stack.push(Value::Null)) == Some(stack.push(Value::Null)));
    } else {
        let s = choose|s: usize|
            #[trigger] after.code() == before.code().push(Instruction::OpCode(OpCode::GetPath)).push(
                Instruction::Primitive(s),
            ) && s < after.slots().len() && after.slots()[s as int] == v.name();
        let extra = seq![Instruction::OpCode(OpCode::GetPath), Instruction::Primitive(s)];
        assert(after.code() =~= code + extra);
        lemma_run_append(code, extra, slots, state, 0, Seq::empty());
        let pushed = stack.push(fetch(state, slots[s as int]));
        assert(after.code()[n as int] == Instruction::OpCode(OpCode::GetPath));
        assert(after.code()[n + 1int] == Instruction::Primitive(s));
        assert(run_from(after.code(), slots, state, n + 2, pushed) == Some(pushed));
    }
}

/// Compiling two reads of one binding in one unit gives it at most one new
/// slot, on the first read; the second read uses the same slot, and no slot
/// given earlier changes.
pub proof fn lemma_slot_stability(v: Variable, vm0: Vm, vm1: Vm, vm2: Vm)
    requires
        !v.is_noop(),
        compiled(v, vm0, vm1),
        compiled(v, vm1, vm2),
    ensures
        vm1.slots().len() <= vm0.slots().len() + 1,
        vm1.slots().subrange(0, vm0.slots().len() as int) == vm0.slots(),
        !vm0.slots().contains(v.name()) ==> vm1.slots() == vm0.slots().push(v.name()),
        vm2.slots() == vm1.slots(),
        vm1.code()[vm0.code().len() + 1int] == vm2.code()[vm1.code().len() + 1int],
{
    assert(vm0.slots().push(v.name()).subrange(0, vm0.slots().len() as int) =~= vm0.slots());
    assert(vm0.slots().subrange(0, vm0.slots().len() as int) =~= vm0.slots());
    let s1 = choose|s: usize|
        #[trigger] vm1.code() == vm0.code().push(Instruction::OpCode(OpCode::GetPath)).push(Instruction::Primitive(s))
            && s < vm1.slots().len() && vm1.slots()[s as int] == v.name();
    let s2 = choose|s: usize|
        #[trigger] vm2.code() == vm1.code().push(Instruction::OpCode(OpCode::GetPath)).push(Instruction::Primitive(s))
            && s < vm2.slots().len() && vm2.slots()[s as int] == v.name();
    assert(vm1.slots().contains(v.name())) by {
        assert(vm1.slots()[s1 as int] == v.name());
    }
    vm1.lemma_slot_unique(s1 as int, s2 as int);
}

/// Running the native code of a reference leaves in the result slot the
/// value that interpreting the reference gives, in every state, whether or
/// not the binding holds a value there.
pub proof fn lemma_native_agrees_with_resolve(
    v: Variable,
    before: NativeContext,
    after: NativeContext,
    state: RuntimeState,
    result: Value,
)
    requires
        emitted(v, before, after),
        native_run_spec(before.code(), before.cell_names(), state) == Some(result),
    ensures
        native_run_spec(after.code(), after.cell_names(), state) == Some(v.resolved(state)),
{
    let ops = before.code();
    let cells = after.cell_names();
    let n = ops.len();
    let b = before.block_names().len() as usize;
    assert(cells.subrange(0, before.cell_names().len() as int) =~= before.cell_names());
    lemma_native_more_cells(ops, before.cell_names(), cells, state, 0, Value::Null);
    let last = if v.is_noop() {
        NativeOp::StoreNull
    } else {
        let c = choose|c: usize|
            #[trigger] after.code() == ops.push(NativeOp::Branch { block: b }).push(NativeOp::Enter { block: b }).push(
                NativeOp::CallVariableImpl { cell: c },
            ) && c < after.cell_names().len() && after.cell_names()[c as int] == v.name();
        NativeOp::CallVariableImpl { cell: c }
    };
    let extra = seq![NativeOp::Branch { block: b }, NativeOp::Enter { block: b }, last];
    assert(after.code() =~= ops + extra);
    lemma_native_append(ops, extra, cells, state, 0, Value::Null);
    let all = after.code();
    assert(all[n as int] == NativeOp::Branch { block: b });
    assert(all[n + 1int] == NativeOp::Enter { block: b });
    assert(all[n + 2int] == last);
    assert(native_run_from(all, cells, state, n + 3, v.resolved(state)) == Some(v.resolved(state)));
    if !v.is_noop() {
        let c = last->cell;
        assert(cells[c as int] == v.name());
    }
    assert(native_run_from(all, cells, state, n + 2, result) == Some(v.resolved(state)));
    assert(native_run_from(all, cells, state, n + 1, result) == Some(v.resolved(state)));
    assert(native_run_from(all, cells, state, n, result) == Some(v.resolved(state)));
}

} // verus!
