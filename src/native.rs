use vstd::prelude::*;

use crate::ident::{names, Ident};
use crate::state::RuntimeState;
use crate::value::Value;
use crate::vm::fetch;

verus! {

/// One step of native code, in the order it runs.
#[derive(Clone, Copy, Debug, PartialEq, Eq, Structural)]
pub enum NativeOp {
    /// Jump to a block.
    Branch { block: usize },
    /// Start emitting into a block.
    Enter { block: usize },
    /// Call the runtime helper that writes the value of a storage cell, or
    /// null where it holds none, to the result slot.
    CallVariableImpl { cell: usize },
    /// Write null to the result slot.
    StoreNull,
}

#[derive(Clone, Debug, PartialEq, Eq)]
pub enum NativeError {
    /// The runtime helper the code calls is not in the module.
    MissingFunction(Ident),
    /// A call names a storage cell that does not exist.
    Malformed { at: usize },
}

/// The name of the runtime helper that reads a binding's storage cell.
pub open spec fn variable_helper_name() -> Seq<char> {
    seq![
        'v', 'r', 'l', '_', 'e', 'x', 'p', 'r', 'e', 's', 's', 'i', 'o', 'n', '_', 'v', 'a', 'r', 'i', 'a', 'b',
        'l', 'e', '_', 'i', 'm', 'p', 'l',
    ]
}

pub fn variable_helper() -> (r: Ident)
    ensures
        r@ == variable_helper_name(),
{
    let r = Ident::from_chars(
        vec![
            'v', 'r', 'l', '_', 'e', 'x', 'p', 'r', 'e', 's', 's', 'i', 'o', 'n', '_', 'v', 'a', 'r', 'i', 'a', 'b',
            'l', 'e', '_', 'i', 'm', 'p', 'l',
        ],
    );
    assert(r@ =~= variable_helper_name());
    r
}

/// Runs `ops` from position `pc` with `result` in the result slot; the final
/// result, or nothing where a call names no storage cell.
pub open spec fn native_run_from(
    ops: Seq<NativeOp>,
    cells: Seq<Seq<char>>,
    state: RuntimeState,
    pc: nat,
    result: Value,
) -> Option<Value>
    decreases ops.len() - pc,
{
    if pc >= ops.len() {
        Some(result)
    } else {
        match ops[pc as int] {
            NativeOp::CallVariableImpl { cell } => {
                if cell < cells.len() {
                    native_run_from(ops, cells, state, pc + 1, fetch(state, cells[cell as int]))
                } else {
                    None
                }
            },
            NativeOp::StoreNull => native_run_from(ops, cells, state, pc + 1, Value::Null),
            _ => native_run_from(ops, cells, state, pc + 1, result),
        }
    }
}

/// The result slot after running `ops` from the start with null in it.
pub open spec fn native_run_spec(ops: Seq<NativeOp>, cells: Seq<Seq<char>>, state: RuntimeState) -> Option<Value> {
    native_run_from(ops, cells, state, 0, Value::Null)
}

/// Running more code after a prefix that runs to the end continues from the
/// result the prefix left.
pub proof fn lemma_native_append(
    ops: Seq<NativeOp>,
    extra: Seq<NativeOp>,
    cells: Seq<Seq<char>>,
    state: RuntimeState,
    pc: nat,
    result: Value,
)
    requires
        pc <= ops.len(),
        native_run_from(ops, cells, state, pc, result) is Some,
    ensures
        native_run_from(ops + extra, cells, state, pc, result) == native_run_from(
            ops + extra,
            cells,
            state,
            ops.len(),
            native_run_from(ops, cells, state, pc, result)->0,
        ),
    decreases ops.len() - pc,
{
    if pc < ops.len() {
        assert((ops + extra)[pc as int] == ops[pc as int]);
        match ops[pc as int] {
            NativeOp::CallVariableImpl { cell } => {
                lemma_native_append(ops, extra, cells, state, pc + 1, fetch(state, cells[cell as int]));
            },
            NativeOp::StoreNull => {
                lemma_native_append(ops, extra, cells, state, pc + 1, Value::Null);
            },
            _ => {
                lemma_native_append(ops, extra, cells, state, pc + 1, result);
            },
        }
    }
}

/// Storage cells added after code was emitted do not change what that code
/// does.
pub proof fn lemma_native_more_cells(
    ops: Seq<NativeOp>,
    cells: Seq<Seq<char>>,
    more: Seq<Seq<char>>,
    state: RuntimeState,
    pc: nat,
    result: Value,
)
    requires
        cells.len() <= more.len(),
        more.subrange(0, cells.len() as int) == cells,
        native_run_from(ops, cells, state, pc, result) is Some,
    ensures
        native_run_from(ops, more, state, pc, result) == native_run_from(ops, cells, state, pc, result),
    decreases ops.len() - pc,
{
    if pc < ops.len() {
        match ops[pc as int] {
            NativeOp::CallVariableImpl { cell } => {
                assert(more[cell as int] == more.subrange(0, cells.len() as int)[cell as int]);
                lemma_native_more_cells(ops, cells, more, state, pc + 1, fetch(state, cells[cell as int]));
            },
            NativeOp::StoreNull => {
                lemma_native_more_cells(ops, cells, more, state, pc + 1, Value::Null);
            },
            _ => {
                lemma_native_more_cells(ops, cells, more, state, pc + 1, result);
            },
        }
    }
}

/// A unit of native code being generated: its blocks, its steps, the storage
/// cell of each binding it reads, and whether the module holds the runtime
/// helper.
#[derive(Clone, Debug)]
pub struct NativeContext {
    blocks: Vec<Ident>,
    ops: Vec<NativeOp>,
    cells: Vec<Ident>,
    functions: Vec<Ident>,
}

impl NativeContext {
    pub closed spec fn code(&self) -> Seq<NativeOp> {
        self.ops@
    }

    /// The binding of each storage cell, by index.
    pub closed spec fn cell_names(&self) -> Seq<Seq<char>> {
        names(self.cells@)
    }

    /// The names of the blocks, by index.
    pub closed spec fn block_names(&self) -> Seq<Seq<char>> {
        names(self.blocks@)
    }

    /// The functions the module holds.
    pub closed spec fn function_names(&self) -> Seq<Seq<char>> {
        names(self.functions@)
    }

    /// Each binding has at most one storage cell.
    pub closed spec fn wf(&self) -> bool {
        forall|a: int, b: int|
            0 <= a < b < self.cells@.len() ==> #[trigger] self.cells@[a]@ != #[trigger] self.cells@[b]@
    }

    /// Two storage cells of one binding are the same cell.
    pub proof fn lemma_cell_unique(&self, a: int, b: int)
        requires
            self.wf(),
            0 <= a < self.cell_names().len(),
            0 <= b < self.cell_names().len(),
            self.cell_names()[a] == self.cell_names()[b],
        ensures
            a == b,
    {
        if a < b {
            assert(self.cells@[a]@ == self.cells@[b]@);
        } else if b < a {
            assert(self.cells@[b]@ == self.cells@[a]@);
        }
    }

    /// An empty unit for a module that holds `functions`.
    pub fn new(functions: Vec<Ident>) -> (r: NativeContext)
        ensures
            r.wf(),
            r.code() == Seq::<NativeOp>::empty(),
            r.cell_names() == Seq::<Seq<char>>::empty(),
            r.block_names() == Seq::<Seq<char>>::empty(),
            r.function_names() == names(functions@),
    {
        let r = NativeContext { blocks: Vec::new(), ops: Vec::new(), cells: Vec::new(), functions };
        assert(names(r.cells@) =~= Seq::<Seq<char>>::empty());
        assert(names(r.blocks@) =~= Seq::<Seq<char>>::empty());
        r
    }

    /// Adds a block named `name`; returns its index.
    pub fn append_basic_block(&mut self, name: Ident) -> (r: usize)
        ensures
            r == old(self).block_names().len(),
            final(self).block_names() == old(self).block_names().push(name@),
            final(self).code() == old(self).code(),
            final(self).cell_names() == old(self).cell_names(),
            final(self).function_names() == old(self).function_names(),
            final(self).wf() == old(self).wf(),
    {
        let r = self.blocks.len();
        let ghost before = self.blocks@;
        self.blocks.push(name);
        assert(names(self.blocks@) =~= names(before).push(name@));
        r
    }

    /// Appends one step.
    pub fn build(&mut self, op: NativeOp)
        ensures
            final(self).code() == old(self).code().push(op),
            final(self).block_names() == old(self).block_names(),
            final(self).cell_names() == old(self).cell_names(),
            final(self).function_names() == old(self).function_names(),
            final(self).wf() == old(self).wf(),
    {
        self.ops.push(op);
    }

    /// Whether the module holds a function named `name`.
    pub fn has_function(&self, name: &Ident) -> (r: bool)
        ensures
            r == self.function_names().contains(name@),
    {
        let mut i: usize = 0;
        while i < self.functions.len()
            invariant
                i <= self.functions@.len(),
                forall|k: int| 0 <= k < i ==> #[trigger] self.functions@[k]@ != name@,
            decreases self.functions@.len() - i,
        {
            if self.functions[i].same_as(name) {
                assert(self.function_names()[i as int] == name@);
                return true;
            }
            i = i + 1;
        }
        assert(!self.function_names().contains(name@)) by {
            if self.function_names().contains(name@) {
                let k = choose|k: int| 0 <= k < self.function_names().len() && self.function_names()[k] == name@;
                assert(self.functions@[k]@ == name@);
            }
        }
        false
    }

    /// The storage cell of `ident`, made on its first use. Cells already made
    /// keep their index.
    pub fn get_variable_ref(&mut self, ident: &Ident) -> (r: usize)
        requires
            old(self).wf(),
        ensures
            final(self).wf(),
            final(self).code() == old(self).code(),
            final(self).block_names() == old(self).block_names(),
            final(self).function_names() == old(self).function_names(),
            r < final(self).cell_names().len(),
            final(self).cell_names()[r as int] == ident@,
            old(self).cell_names().contains(ident@) ==> final(self).cell_names() == old(self).cell_names(),
            !old(self).cell_names().contains(ident@) ==> final(self).cell_names() == old(self).cell_names().push(
                ident@,
            ) && r == old(self).cell_names().len(),
    {
        let mut i: usize = 0;
        while i < self.cells.len()
            invariant
                self.wf(),
                self.cells@ == old(self).cells@,
                self.ops@ == old(self).ops@,
                self.blocks@ == old(self).blocks@,
                self.functions@ == old(self).functions@,
                i <= self.cells@.len(),
                forall|k: int| 0 <= k < i ==> #[trigger] self.cells@[k]@ != ident@,
            decreases self.cells@.len() - i,
        {
            if self.cells[i].same_as(ident) {
                assert(self.cell_names()[i as int] == ident@);
                return i;
            }
            i = i + 1;
        }
        let ghost before = *self;
        assert(!before.cell_names().contains(ident@)) by {
            if before.cell_names().contains(ident@) {
                let k = choose|k: int| 0 <= k < before.cell_names().len() && before.cell_names()[k] == ident@;
                assert(before.cells@[k]@ == ident@);
            }
        }
        self.cells.push(ident.duplicate());
        assert(self.cell_names() =~= before.cell_names().push(ident@));
        i
    }

    pub fn ops(&self) -> (r: &Vec<NativeOp>)
        ensures
            r@ == self.code(),
    {
        &self.ops
    }

    /// Runs the unit against `state`; the value left in the result slot.
    pub fn run(&self, state: &RuntimeState) -> (r: Result<Value, NativeError>)
        requires
            state.wf(),
        ensures
            r is Ok <==> native_run_spec(self.code(), self.cell_names(), *state) is Some,
            r matches Ok(v) ==> native_run_spec(self.code(), self.cell_names(), *state) == Some(v),
    {
        let ghost ops = self.code();
        let ghost cells = self.cell_names();
        let mut result = Value::Null;
        let mut pc: usize = 0;
        while pc < self.ops.len()
            invariant
                state.wf(),
                ops == self.code(),
                cells == self.cell_names(),
                cells.len() == self.cells@.len(),
                pc <= ops.len(),
                native_run_from(ops, cells, *state, pc as nat, result) == native_run_spec(ops, cells, *state),
            decreases ops.len() - pc,
        {
            match self.ops[pc] {
                NativeOp::CallVariableImpl { cell } => {
                    if cell >= self.cells.len() {
                        return Err(NativeError::Malformed { at: pc });
                    }
                    result = match state.variable(&self.cells[cell]) {
                        Some(v) => v,
                        None => Value::Null,
                    };
                },
                NativeOp::StoreNull => {
                    result = Value::Null;
                },
                _ => {},
            }
            pc = pc + 1;
        }
        Ok(result)
    }
}

} // verus!
