use crate::expr::{
    imm, imm_expr, isa_b, isa_imc, isa_mop, load_expr, load_of, register_expr, register_index,
    register_ref, version_one, PC_INDEX,
};
use ckb_vm::instructions::ast::Value;
use vstd::prelude::*;

verus! {

/// Number of general-purpose registers.
pub const REGISTER_COUNT: usize = 32;

/// One recorded effect of an instruction, in the order it was issued.
#[derive(Debug, Clone)]
pub enum Write {
    Memory { address: Value, size: u8, value: Value },
    Register { index: usize, value: Value },
    Lr { value: Value },
    Ecall,
    Ebreak,
}

/// The placeholder that register `i` holds at instruction entry: the zero constant
/// for `x0`, the register's own identity otherwise.
pub open spec fn identity_slot(i: int) -> Value {
    if i == 0 {
        imm_expr(0)
    } else {
        register_expr(i as usize)
    }
}

/// A register file in which every slot holds its entry placeholder.
pub open spec fn fresh_registers() -> Seq<Value> {
    Seq::new(REGISTER_COUNT as nat, |i: int| identity_slot(i))
}

/// Every store width that the machine records.
pub open spec fn valid_width(size: u8) -> bool {
    size == 1 || size == 2 || size == 4 || size == 8
}

/// A recorded write whose fields are in range.
pub open spec fn write_ok(w: Write) -> bool {
    match w {
        Write::Memory { size, .. } => valid_width(size),
        Write::Register { index, .. } => index < REGISTER_COUNT,
        _ => true,
    }
}

/// Every write of the sequence is in range.
pub open spec fn writes_ok(ws: Seq<Write>) -> bool {
    forall|k: int| 0 <= k < ws.len() ==> write_ok(#[trigger] ws[k])
}

/// The effects of one instruction: its writes in order, and the new pc if it set one.
#[derive(Debug)]
pub struct PendingBatch {
    pub writes: Vec<Write>,
    pub next_pc: Option<Value>,
}

/// Builds the register file of instruction entry.
pub fn init_registers() -> (r: [Value; 32])
    ensures
        r@ == fresh_registers(),
{
    let r = [
        imm(0),
        register_ref(1),
        register_ref(2),
        register_ref(3),
        register_ref(4),
        register_ref(5),
        register_ref(6),
        register_ref(7),
        register_ref(8),
        register_ref(9),
        register_ref(10),
        register_ref(11),
        register_ref(12),
        register_ref(13),
        register_ref(14),
        register_ref(15),
        register_ref(16),
        register_ref(17),
        register_ref(18),
        register_ref(19),
        register_ref(20),
        register_ref(21),
        register_ref(22),
        register_ref(23),
        register_ref(24),
        register_ref(25),
        register_ref(26),
        register_ref(27),
        register_ref(28),
        register_ref(29),
        register_ref(30),
        register_ref(31),
    ];
    assert(r@ =~= fresh_registers());
    r
}

/// A machine that stands in for the real one while an instruction executes: every
/// mutation becomes a recorded symbolic effect, every read a symbolic expression.
pub struct AstCoreMachine {
    registers: [Value; 32],
    pc: Value,
    next_pc: Value,
    writes: Vec<Write>,
    version: u32,
    isa: u8,
}

impl AstCoreMachine {
    /// The register slots.
    pub closed spec fn slots(&self) -> Seq<Value> {
        self.registers@
    }

    /// The committed pc expression.
    pub closed spec fn pc_view(&self) -> Value {
        self.pc
    }

    /// The staged pc expression.
    pub closed spec fn next_pc_view(&self) -> Value {
        self.next_pc
    }

    /// The writes recorded so far.
    pub closed spec fn writes_view(&self) -> Seq<Write> {
        self.writes@
    }

    pub closed spec fn version_view(&self) -> u32 {
        self.version
    }

    pub closed spec fn isa_view(&self) -> u8 {
        self.isa
    }

    /// Thirty-two slots, `x0` fixed at zero, every recorded write in range.
    pub closed spec fn wf(&self) -> bool {
        &&& self.registers@.len() == REGISTER_COUNT
        &&& self.registers@[0] == imm_expr(0)
        &&& writes_ok(self.writes@)
    }

    /// The state at instruction entry: fresh slots, both pc slots on the pc identity.
    pub open spec fn is_entry_state(&self) -> bool {
        &&& self.slots() == fresh_registers()
        &&& self.pc_view() == register_expr(PC_INDEX)
        &&& self.next_pc_view() == register_expr(PC_INDEX)
    }

    /// A machine at instruction entry with no writes, for the given version and ISA set.
    pub fn new(version: u32, isa: u8) -> (r: Self)
        ensures
            r.wf(),
            r.is_entry_state(),
            r.writes_view().len() == 0,
            r.version_view() == version,
            r.isa_view() == isa,
    {
        let mut m = AstCoreMachine::default();
        m.version = version;
        m.isa = isa;
        m
    }

    /// Puts every register and both pc slots back on their entry placeholders and
    /// clears the write log: the machine is ready for the next instruction.
    pub fn reset_registers(&mut self)
        requires
            old(self).wf(),
        ensures
            final(self).wf(),
            final(self).is_entry_state(),
            final(self).slots()[0] == imm_expr(0),
            forall|i: int|
                1 <= i < REGISTER_COUNT ==> #[trigger] final(self).slots()[i] == register_expr(i as usize),
            final(self).writes_view().len() == 0,
            final(self).version_view() == old(self).version_view(),
            final(self).isa_view() == old(self).isa_view(),
    {
        self.registers = init_registers();
        self.pc = register_ref(PC_INDEX);
        self.next_pc = register_ref(PC_INDEX);
        self.writes = Vec::new();
    }

    /// Removes and returns the recorded writes, in order.
    pub fn take_writes(&mut self) -> (r: Vec<Write>)
        requires
            old(self).wf(),
        ensures
            final(self).wf(),
            r@ == old(self).writes_view(),
            writes_ok(r@),
            final(self).writes_view().len() == 0,
            final(self).slots() == old(self).slots(),
            final(self).pc_view() == old(self).pc_view(),
            final(self).next_pc_view() == old(self).next_pc_view(),
            final(self).version_view() == old(self).version_view(),
            final(self).isa_view() == old(self).isa_view(),
    {
        let mut taken: Vec<Write> = Vec::new();
        std::mem::swap(&mut taken, &mut self.writes);
        taken
    }

    /// Removes the committed pc expression, leaving the pc identity behind.
    /// Returns `None` when it was the pc identity (the instruction set no pc).
    pub fn take_pc(&mut self) -> (r: Option<Value>)
        requires
            old(self).wf(),
        ensures
            final(self).wf(),
            final(self).pc_view() == register_expr(PC_INDEX),
            r == (if old(self).pc_view() == register_expr(PC_INDEX) {
                None
            } else {
                Some(old(self).pc_view())
            }),
            final(self).slots() == old(self).slots(),
            final(self).next_pc_view() == old(self).next_pc_view(),
            final(self).writes_view() == old(self).writes_view(),
            final(self).version_view() == old(self).version_view(),
            final(self).isa_view() == old(self).isa_view(),
    {
        let mut pc = register_ref(PC_INDEX);
        std::mem::swap(&mut pc, &mut self.pc);
        match register_index(&pc) {
            Some(i) => {
                if i == PC_INDEX {
                    None
                } else {
                    Some(pc)
                }
            },
            None => Some(pc),
        }
    }

    /// Hands over the instruction's effects: its writes and the pc it set, if any.
    pub fn drain_batch(&mut self) -> (r: PendingBatch)
        requires
            old(self).wf(),
        ensures
            final(self).wf(),
            r.writes@ == old(self).writes_view(),
            writes_ok(r.writes@),
            r.next_pc == (if old(self).pc_view() == register_expr(PC_INDEX) {
                None
            } else {
                Some(old(self).pc_view())
            }),
            final(self).writes_view().len() == 0,
            final(self).pc_view() == register_expr(PC_INDEX),
            final(self).next_pc_view() == old(self).next_pc_view(),
            final(self).slots() == old(self).slots(),
            final(self).version_view() == old(self).version_view(),
            final(self).isa_view() == old(self).isa_view(),
    {
        let next_pc = self.take_pc();
        let writes = self.take_writes();
        PendingBatch { writes, next_pc }
    }

    /// Records an environment call.
    pub fn ecall(&mut self)
        requires
            old(self).wf(),
        ensures
            final(self).wf(),
            final(self).writes_view() == old(self).writes_view().push(Write::Ecall),
            final(self).slots() == old(self).slots(),
            final(self).pc_view() == old(self).pc_view(),
            final(self).next_pc_view() == old(self).next_pc_view(),
            final(self).version_view() == old(self).version_view(),
            final(self).isa_view() == old(self).isa_view(),
    {
        self.writes.push(Write::Ecall);
    }

    /// Records an environment break.
    pub fn ebreak(&mut self)
        requires
            old(self).wf(),
        ensures
            final(self).wf(),
            final(self).writes_view() == old(self).writes_view().push(Write::Ebreak),
            final(self).slots() == old(self).slots(),
            final(self).pc_view() == old(self).pc_view(),
            final(self).next_pc_view() == old(self).next_pc_view(),
            final(self).version_view() == old(self).version_view(),
            final(self).isa_view() == old(self).isa_view(),
    {
        self.writes.push(Write::Ebreak);
    }

    /// The committed pc expression.
    pub fn pc(&self) -> (r: &Value)
        ensures
            *r == self.pc_view(),
    {
        &self.pc
    }

    /// Stages a new pc; it becomes visible through `pc` only after `commit_pc`.
    pub fn update_pc(&mut self, pc: Value)
        requires
            old(self).wf(),
        ensures
            final(self).wf(),
            final(self).next_pc_view() == pc,
            final(self).pc_view() == old(self).pc_view(),
            final(self).slots() == old(self).slots(),
            final(self).writes_view() == old(self).writes_view(),
            final(self).version_view() == old(self).version_view(),
            final(self).isa_view() == old(self).isa_view(),
    {
        self.next_pc = pc;
    }

    /// Makes the staged pc the committed one.
    pub fn commit_pc(&mut self)
        requires
            old(self).wf(),
        ensures
            final(self).wf(),
            final(self).pc_view() == old(self).next_pc_view(),
            final(self).next_pc_view() == old(self).next_pc_view(),
            final(self).slots() == old(self).slots(),
            final(self).writes_view() == old(self).writes_view(),
            final(self).version_view() == old(self).version_view(),
            final(self).isa_view() == old(self).isa_view(),
    {
        self.pc = self.next_pc.clone();
    }

    /// The register slots: entry placeholders, or what this instruction wrote.
    pub fn registers(&self) -> (r: &[Value])
        requires
            self.wf(),
        ensures
            r@ == self.slots(),
            r@.len() == REGISTER_COUNT,
            r@[0] == imm_expr(0),
    {
        self.registers.as_slice()
    }

    /// Stores `value` in slot `index` (slot 0 keeps the zero constant) and records the write.
    pub fn set_register(&mut self, index: usize, value: Value)
        requires
            old(self).wf(),
            index < REGISTER_COUNT,
        ensures
            final(self).wf(),
            final(self).slots() == (if index == 0 {
                old(self).slots()
            } else {
                old(self).slots().update(index as int, value)
            }),
            index != 0 ==> final(self).slots()[index as int] == value,
            final(self).slots()[0] == imm_expr(0),
            final(self).writes_view() == old(self).writes_view().push(
                Write::Register { index, value },
            ),
            final(self).pc_view() == old(self).pc_view(),
            final(self).next_pc_view() == old(self).next_pc_view(),
            final(self).version_view() == old(self).version_view(),
            final(self).isa_view() == old(self).isa_view(),
    {
        if index != 0 {
            self.registers[index] = value.clone();
        }
        self.writes.push(Write::Register { index, value });
        proof {
            let ws = self.writes@;
            assert forall|k: int| 0 <= k < ws.len() implies write_ok(#[trigger] ws[k]) by {
                if k < ws.len() - 1 {
                    assert(ws[k] == old(self).writes@[k]);
                }
            }
        }
    }

    /// The value of `width` bytes at `address` as of instruction entry. The result does
    /// not depend on the machine: a store recorded earlier in the same instruction is
    /// not seen.
    fn load(&self, address: &Value, width: u8) -> (r: Value)
        ensures
            r == load_expr(*address, width),
    {
        load_of(address, width)
    }

    /// Memory byte at `address` as of instruction entry.
    pub fn load8(&self, address: &Value) -> (r: Value)
        ensures
            r == load_expr(*address, 1),
    {
        self.load(address, 1)
    }

    /// Memory half-word at `address` as of instruction entry.
    pub fn load16(&self, address: &Value) -> (r: Value)
        ensures
            r == load_expr(*address, 2),
    {
        self.load(address, 2)
    }

    /// Memory word at `address` as of instruction entry.
    pub fn load32(&self, address: &Value) -> (r: Value)
        ensures
            r == load_expr(*address, 4),
    {
        self.load(address, 4)
    }

    /// Memory double-word at `address` as of instruction entry.
    pub fn load64(&self, address: &Value) -> (r: Value)
        ensures
            r == load_expr(*address, 8),
    {
        self.load(address, 8)
    }

    /// Records a store of `width` bytes; nothing else changes.
    fn store(&mut self, address: &Value, width: u8, value: &Value)
        requires
            old(self).wf(),
            valid_width(width),
        ensures
            final(self).wf(),
            final(self).writes_view() == old(self).writes_view().push(
                Write::Memory { address: *address, size: width, value: *value },
            ),
            final(self).slots() == old(self).slots(),
            final(self).pc_view() == old(self).pc_view(),
            final(self).next_pc_view() == old(self).next_pc_view(),
            final(self).version_view() == old(self).version_view(),
            final(self).isa_view() == old(self).isa_view(),
    {
        self.writes.push(Write::Memory { address: address.clone(), size: width, value: value.clone() });
        proof {
            let ws = self.writes@;
            assert forall|k: int| 0 <= k < ws.len() implies write_ok(#[trigger] ws[k]) by {
                if k < ws.len() - 1 {
                    assert(ws[k] == old(self).writes@[k]);
                }
            }
        }
    }

    /// Records a 1-byte store of `value` at `address`.
    pub fn store8(&mut self, address: &Value, value: &Value)
        requires
            old(self).wf(),
        ensures
            final(self).wf(),
            final(self).writes_view() == old(self).writes_view().push(
                Write::Memory { address: *address, size: 1, value: *value },
            ),
            final(self).slots() == old(self).slots(),
            final(self).pc_view() == old(self).pc_view(),
            final(self).next_pc_view() == old(self).next_pc_view(),
            final(self).version_view() == old(self).version_view(),
            final(self).isa_view() == old(self).isa_view(),
    {
        self.store(address, 1, value)
    }

    /// Records a 2-byte store of `value` at `address`.
    pub fn store16(&mut self, address: &Value, value: &Value)
        requires
            old(self).wf(),
        ensures
            final(self).wf(),
            final(self).writes_view() == old(self).writes_view().push(
                Write::Memory { address: *address, size: 2, value: *value },
            ),
            final(self).slots() == old(self).slots(),
            final(self).pc_view() == old(self).pc_view(),
            final(self).next_pc_view() == old(self).next_pc_view(),
            final(self).version_view() == old(self).version_view(),
            final(self).isa_view() == old(self).isa_view(),
    {
        self.store(address, 2, value)
    }

    /// Records a 4-byte store of `value` at `address`.
    pub fn store32(&mut self, address: &Value, value: &Value)
        requires
            old(self).wf(),
        ensures
            final(self).wf(),
            final(self).writes_view() == old(self).writes_view().push(
                Write::Memory { address: *address, size: 4, value: *value },
            ),
            final(self).slots() == old(self).slots(),
            final(self).pc_view() == old(self).pc_view(),
            final(self).next_pc_view() == old(self).next_pc_view(),
            final(self).version_view() == old(self).version_view(),
            final(self).isa_view() == old(self).isa_view(),
    {
        self.store(address, 4, value)
    }

    /// Records a 8-byte store of `value` at `address`.
    pub fn store64(&mut self, address: &Value, value: &Value)
        requires
            old(self).wf(),
        ensures
            final(self).wf(),
            final(self).writes_view() == old(self).writes_view().push(
                Write::Memory { address: *address, size: 8, value: *value },
            ),
            final(self).slots() == old(self).slots(),
            final(self).pc_view() == old(self).pc_view(),
            final(self).next_pc_view() == old(self).next_pc_view(),
            final(self).version_view() == old(self).version_view(),
            final(self).isa_view() == old(self).isa_view(),
    {
        self.store(address, 8, value)
    }

    /// Records a write of the linked-reservation address.
    pub fn set_lr(&mut self, value: &Value)
        requires
            old(self).wf(),
        ensures
            final(self).wf(),
            final(self).writes_view() == old(self).writes_view().push(Write::Lr { value: *value }),
            final(self).slots() == old(self).slots(),
            final(self).pc_view() == old(self).pc_view(),
            final(self).next_pc_view() == old(self).next_pc_view(),
            final(self).version_view() == old(self).version_view(),
            final(self).isa_view() == old(self).isa_view(),
    {
        self.writes.push(Write::Lr { value: value.clone() });
        proof {
            let ws = self.writes@;
            assert forall|k: int| 0 <= k < ws.len() implies write_ok(#[trigger] ws[k]) by {
                if k < ws.len() - 1 {
                    assert(ws[k] == old(self).writes@[k]);
                }
            }
        }
    }

    pub fn version(&self) -> (r: u32)
        ensures
            r == self.version_view(),
    {
        self.version
    }

    pub fn isa(&self) -> (r: u8)
        ensures
            r == self.isa_view(),
    {
        self.isa
    }
}

impl Default for AstCoreMachine {
    /// A machine at instruction entry for ckb-vm's first version, with the base integer,
    /// multiply/divide and compressed set, macro-op fusion and bit manipulation.
    fn default() -> (r: Self)
        ensures
            r.wf(),
            r.is_entry_state(),
            r.writes_view().len() == 0,
            r.version_view() == 1,
            r.isa_view() == 3,
    {
        let (imc, mop, b) = (isa_imc(), isa_mop(), isa_b());
        let isa = imc | mop | b;
        assert(0u8 | 2u8 | 1u8 == 3u8) by (bit_vector);
        AstCoreMachine {
            registers: init_registers(),
            pc: register_ref(PC_INDEX),
            next_pc: register_ref(PC_INDEX),
            writes: Vec::new(),
            version: version_one(),
            isa: isa,
        }
    }
}

} // verus!
