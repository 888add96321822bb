use vstd::prelude::*;

use crate::ident::{names, Ident};
use crate::state::RuntimeState;
use crate::value::Value;

verus! {

#[derive(Clone, Copy, Debug, PartialEq, Eq, Structural)]
pub enum OpCode {
    /// Push the value of the binding whose slot follows as an operand.
    GetPath,
    /// Push null.
    PushNull,
}

#[derive(Clone, Copy, Debug, PartialEq, Eq, Structural)]
pub enum Instruction {
    OpCode(OpCode),
    Primitive(usize),
}

/// Bytecode that does not decode: an operand where an opcode belongs, or a
/// fetch without a valid slot operand.
#[derive(Clone, Copy, Debug, PartialEq, Eq, Structural)]
pub enum VmError {
    Malformed { at: usize },
}

/// The value a binding has in `state`, or null where it holds none.
pub open spec fn fetch(state: RuntimeState, name: Seq<char>) -> Value {
    match state.lookup(name) {
        Some(v) => v,
        None => Value::Null,
    }
}

/// Runs `code` from position `pc` with `stack` already on the stack; the
/// final stack, or nothing where the code does not decode.
pub open spec fn run_from(
    code: Seq<Instruction>,
    slots: Seq<Seq<char>>,
    state: RuntimeState,
    pc: nat,
    stack: Seq<Value>,
) -> Option<Seq<Value>>
    decreases code.len() - pc,
{
    if pc >= code.len() {
        Some(stack)
    } else {
        match code[pc as int] {
            Instruction::OpCode(OpCode::PushNull) => run_from(code, slots, state, pc + 1, stack.push(Value::Null)),
            Instruction::OpCode(OpCode::GetPath) => {
                if pc + 1 < code.len() {
                    match code[pc + 1int] {
                        Instruction::Primitive(s) => {
                            if s < slots.len() {
                                run_from(code, slots, state, pc + 2, stack.push(fetch(state, slots[s as int])))
                            } else {
                                None
                            }
                        },
                        _ => None,
                    }
                } else {
                    None
                }
            },
            Instruction::Primitive(_) => None,
        }
    }
}

/// The stack left by running `code` from the start.
pub open spec fn run_spec(code: Seq<Instruction>, slots: Seq<Seq<char>>, state: RuntimeState) -> Option<Seq<Value>> {
    run_from(code, slots, state, 0, Seq::empty())
}

/// Running more code after a prefix that runs to the end continues from the
/// stack the prefix left.
pub proof fn lemma_run_append(
    code: Seq<Instruction>,
    extra: Seq<Instruction>,
    slots: Seq<Seq<char>>,
    state: RuntimeState,
    pc: nat,
    stack: Seq<Value>,
)
    requires
        pc <= code.len(),
        run_from(code, slots, state, pc, stack) is Some,
    ensures
        run_from(code + extra, slots, state, pc, stack) == run_from(
            code + extra,
            slots,
            state,
            code.len(),
            run_from(code, slots, state, pc, stack)->0,
        ),
    decreases code.len() - pc,
{
    let all = code + extra;
    if pc < code.len() {
        assert(all[pc as int] == code[pc as int]);
        match code[pc as int] {
            Instruction::OpCode(OpCode::PushNull) => {
                lemma_run_append(code, extra, slots, state, pc + 1, stack.push(Value::Null));
            },
            Instruction::OpCode(OpCode::GetPath) => {
                assert(all[pc + 1int] == code[pc + 1int]);
                match code[pc + 1int] {
                    Instruction::Primitive(s) => {
                        lemma_run_append(code, extra, slots, state, pc + 2, stack.push(fetch(state, slots[s as int])));
                    },
                    _ => {},
                }
            },
            _ => {},
        }
    }
}

/// Slots added to the table after code was written do not change what that
/// code does.
pub proof fn lemma_run_more_slots(
    code: Seq<Instruction>,
    slots: Seq<Seq<char>>,
    more: Seq<Seq<char>>,
    state: RuntimeState,
    pc: nat,
    stack: Seq<Value>,
)
    requires
        slots.len() <= more.len(),
        more.subrange(0, slots.len() as int) == slots,
        run_from(code, slots, state, pc, stack) is Some,
    ensures
        run_from(code, more, state, pc, stack) == run_from(code, slots, state, pc, stack),
    decreases code.len() - pc,
{
    if pc < code.len() {
        match code[pc as int] {
            Instruction::OpCode(OpCode::PushNull) => {
                lemma_run_more_slots(code, slots, more, state, pc + 1, stack.push(Value::Null));
            },
            Instruction::OpCode(OpCode::GetPath) => {
                match code[pc + 1int] {
                    Instruction::Primitive(s) => {
                        assert(more[s as int] == more.subrange(0, slots.len() as int)[s as int]);
                        lemma_run_more_slots(code, slots, more, state, pc + 2, stack.push(fetch(state, slots[s as int])));
                    },
                    _ => {},
                }
            },
            _ => {},
        }
    }
}

/// A program for the stack machine: its instructions, and the table that
/// gives each binding it reads a slot.
#[derive(Clone, Debug)]
pub struct Vm {
    instructions: Vec<Instruction>,
    targets: Vec<Ident>,
}

impl Vm {
    pub closed spec fn code(&self) -> Seq<Instruction> {
        self.instructions@
    }

    /// The binding of each slot, by slot index.
    pub closed spec fn slots(&self) -> Seq<Seq<char>> {
        names(self.targets@)
    }

    /// Each binding has at most one slot.
    pub closed spec fn wf(&self) -> bool {
        forall|a: int, b: int|
            0 <= a < b < self.targets@.len() ==> #[trigger] self.targets@[a]@ != #[trigger] self.targets@[b]@
    }

    /// Two slots of one binding are the same slot.
    pub proof fn lemma_slot_unique(&self, a: int, b: int)
        requires
            self.wf(),
            0 <= a < self.slots().len(),
            0 <= b < self.slots().len(),
            self.slots()[a] == self.slots()[b],
        ensures
            a == b,
    {
        if a < b {
            assert(self.targets@[a]@ == self.targets@[b]@);
        } else if b < a {
            assert(self.targets@[b]@ == self.targets@[a]@);
        }
    }

    pub fn new() -> (r: Vm)
        ensures
            r.wf(),
            r.code() == Seq::<Instruction>::empty(),
            r.slots() == Seq::<Seq<char>>::empty(),
    {
        let r = Vm { instructions: Vec::new(), targets: Vec::new() };
        assert(names(r.targets@) =~= Seq::<Seq<char>>::empty());
        r
    }

    pub fn write_opcode(&mut self, op: OpCode)
        ensures
            final(self).code() == old(self).code().push(Instruction::OpCode(op)),
            final(self).slots() == old(self).slots(),
            final(self).wf() == old(self).wf(),
    {
        self.instructions.push(Instruction::OpCode(op));
    }

    pub fn write_primitive(&mut self, primitive: usize)
        ensures
            final(self).code() == old(self).code().push(Instruction::Primitive(primitive)),
            final(self).slots() == old(self).slots(),
            final(self).wf() == old(self).wf(),
    {
        self.instructions.push(Instruction::Primitive(primitive));
    }

    /// The slot of `ident`, given the next free one on its first use.
    /// Slots already given keep their index.
    pub fn get_target(&mut self, ident: &Ident) -> (r: usize)
        requires
            old(self).wf(),
        ensures
            final(self).wf(),
            final(self).code() == old(self).code(),
            r < final(self).slots().len(),
            final(self).slots()[r as int] == ident@,
            old(self).slots().contains(ident@) ==> final(self).slots() == old(self).slots(),
            !old(self).slots().contains(ident@) ==> final(self).slots() == old(self).slots().push(ident@)
                && r == old(self).slots().len(),
    {
        let mut i: usize = 0;
        while i < self.targets.len()
            invariant
                self.wf(),
                self.targets@ == old(self).targets@,
                self.instructions@ == old(self).instructions@,
                i <= self.targets@.len(),
                forall|k: int| 0 <= k < i ==> #[trigger] self.targets@[k]@ != ident@,
            decreases self.targets@.len() - i,
        {
            if self.targets[i].same_as(ident) {
                assert(self.slots()[i as int] == ident@);
                return i;
            }
            i = i + 1;
        }
        let ghost before = *self;
        assert(!before.slots().contains(ident@)) by {
            if before.slots().contains(ident@) {
                let k = choose|k: int| 0 <= k < before.slots().len() && before.slots()[k] == ident@;
                assert(before.targets@[k]@ == ident@);
            }
        }
        self.targets.push(ident.duplicate());
        assert(self.slots() =~= before.slots().push(ident@));
        i
    }

    pub fn instructions(&self) -> (r: &Vec<Instruction>)
        ensures
            r@ == self.code(),
    {
        &self.instructions
    }

    /// Copies of the slot table's identifiers, by slot index.
    pub fn targets(&self) -> (r: Vec<Ident>)
        ensures
            names(r@) == self.slots(),
    {
        let mut r: Vec<Ident> = Vec::new();
        let mut i: usize = 0;
        while i < self.targets.len()
            invariant
                i <= self.targets@.len(),
                r@.len() == i,
                forall|k: int| 0 <= k < i ==> #[trigger] r@[k]@ == self.targets@[k]@,
            decreases self.targets@.len() - i,
        {
            r.push(self.targets[i].duplicate());
            i = i + 1;
        }
        assert(names(r@) =~= names(self.targets@));
        r
    }

    /// Runs the program against `state` and returns the values it pushed.
    pub fn run(&self, state: &RuntimeState) -> (r: Result<Vec<Value>, VmError>)
        requires
            state.wf(),
        ensures
            r is Ok <==> run_spec(self.code(), self.slots(), *state) is Some,
            r matches Ok(stack) ==> run_spec(self.code(), self.slots(), *state) == Some(stack@),
    {
        let ghost code = self.code();
        let ghost slots = self.slots();
        let mut stack: Vec<Value> = Vec::new();
        let mut pc: usize = 0;
        while pc < self.instructions.len()
            invariant
                state.wf(),
                code == self.code(),
                slots == self.slots(),
                slots.len() == self.targets@.len(),
                pc <= code.len(),
                run_from(code, slots, *state, pc as nat, stack@) == run_spec(code, slots, *state),
            decreases code.len() - pc,
        {
            match self.instructions[pc] {
                Instruction::OpCode(OpCode::PushNull) => {
                    stack.push(Value::Null);
                    pc = pc + 1;
                },
                Instruction::OpCode(OpCode::GetPath) => {
                    if pc + 1 >= self.instructions.len() {
                        return Err(VmError::Malformed { at: pc });
                    }
                    match self.instructions[pc + 1] {
                        Instruction::Primitive(s) => {
                            if s >= self.targets.len() {
                                return Err(VmError::Malformed { at: pc });
                            }
                            let v = match state.variable(&self.targets[s]) {
                                Some(v) => v,
                                None => Value::Null,
                            };
                            stack.push(v);
                            pc = pc + 2;
                        },
                        Instruction::OpCode(_) => {
                            return Err(VmError::Malformed { at: pc });
                        },
                    }
                },
                Instruction::Primitive(_) => {
                    return Err(VmError::Malformed { at: pc });
                },
            }
        }
        Ok(stack)
    }
}

} // verus!
