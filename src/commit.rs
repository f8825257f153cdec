use crate::recorder::Write;
use ckb_vm::instructions::ast::Value;
use vstd::prelude::*;

verus! {

/// A recorded write whose expressions have been reduced to concrete values.
#[derive(PartialEq, Eq, Structural, Debug, Clone, Copy)]
pub enum Resolved {
    Memory { address: u64, size: u8, value: u64 },
    Register { index: usize, value: u64 },
    Lr { value: u64 },
    Ecall,
    Ebreak,
}

/// One step of applying an instruction's effects to the concrete machine.
#[derive(PartialEq, Eq, Structural, Debug, Clone, Copy)]
pub enum CommitAction {
    SetPc(u64),
    Store { address: u64, size: u8, value: u64 },
    SetLr(u64),
    SetRegister { index: usize, value: u64 },
    Ecall,
    Ebreak,
}

/// The expressions of a write that must be evaluated, in order: address before value.
pub open spec fn write_exprs(w: Write) -> Seq<Value> {
    match w {
        Write::Memory { address, value, .. } => seq![address, value],
        Write::Register { value, .. } => seq![value],
        Write::Lr { value } => seq![value],
        _ => Seq::empty(),
    }
}

/// A write with its expressions replaced by `vals`, given in the order of `write_exprs`.
pub open spec fn resolve_spec(w: Write, vals: Seq<u64>) -> Resolved {
    match w {
        Write::Memory { size, .. } => Resolved::Memory { address: vals[0], size, value: vals[1] },
        Write::Register { index, .. } => Resolved::Register { index, value: vals[0] },
        Write::Lr { .. } => Resolved::Lr { value: vals[0] },
        Write::Ecall => Resolved::Ecall,
        Write::Ebreak => Resolved::Ebreak,
    }
}

/// A write with each expression reduced by `eval`, the evaluation against one snapshot.
pub open spec fn evaluate_write(w: Write, eval: spec_fn(Value) -> u64) -> Resolved {
    match w {
        Write::Memory { address, size, value } => Resolved::Memory {
            address: eval(address),
            size,
            value: eval(value),
        },
        Write::Register { index, value } => Resolved::Register { index, value: eval(value) },
        Write::Lr { value } => Resolved::Lr { value: eval(value) },
        Write::Ecall => Resolved::Ecall,
        Write::Ebreak => Resolved::Ebreak,
    }
}

/// The stores of a batch, in record order.
pub open spec fn memory_actions(ws: Seq<Resolved>) -> Seq<CommitAction>
    decreases ws.len(),
{
    if ws.len() == 0 {
        Seq::empty()
    } else {
        let prev = memory_actions(ws.drop_last());
        match ws.last() {
            Resolved::Memory { address, size, value } => prev.push(
                CommitAction::Store { address, size, value },
            ),
            _ => prev,
        }
    }
}

/// The register writes of a batch, in record order.
pub open spec fn register_actions(ws: Seq<Resolved>) -> Seq<CommitAction>
    decreases ws.len(),
{
    if ws.len() == 0 {
        Seq::empty()
    } else {
        let prev = register_actions(ws.drop_last());
        match ws.last() {
            Resolved::Register { index, value } => prev.push(
                CommitAction::SetRegister { index, value },
            ),
            _ => prev,
        }
    }
}

/// The last linked-reservation write of a batch, if there is one.
pub open spec fn last_lr(ws: Seq<Resolved>) -> Option<u64>
    decreases ws.len(),
{
    if ws.len() == 0 {
        None
    } else {
        match ws.last() {
            Resolved::Lr { value } => Some(value),
            _ => last_lr(ws.drop_last()),
        }
    }
}

/// Whether the batch holds an environment call.
pub open spec fn has_ecall(ws: Seq<Resolved>) -> bool {
    exists|k: int| 0 <= k < ws.len() && ws[k] is Ecall
}

/// Whether the batch holds an environment break.
pub open spec fn has_ebreak(ws: Seq<Resolved>) -> bool {
    exists|k: int| 0 <= k < ws.len() && ws[k] is Ebreak
}

/// The commit order of one instruction: the new pc, the stores in record order, the
/// linked reservation, the register writes in record order, then the environment call
/// and the environment break.
pub open spec fn commit_plan(next_pc: Option<u64>, ws: Seq<Resolved>) -> Seq<CommitAction> {
    let pc_part = match next_pc {
        Some(pc) => seq![CommitAction::SetPc(pc)],
        None => Seq::empty(),
    };
    let lr_part = match last_lr(ws) {
        Some(v) => seq![CommitAction::SetLr(v)],
        None => Seq::empty(),
    };
    let ecall_part = if has_ecall(ws) {
        seq![CommitAction::Ecall]
    } else {
        Seq::empty()
    };
    let ebreak_part = if has_ebreak(ws) {
        seq![CommitAction::Ebreak]
    } else {
        Seq::empty()
    };
    pc_part + memory_actions(ws) + lr_part + register_actions(ws) + ecall_part + ebreak_part
}

/// The register file after the register writes among `acts`, applied in order; other
/// actions leave it as it is.
pub open spec fn registers_after(regs: Seq<u64>, acts: Seq<CommitAction>) -> Seq<u64>
    decreases acts.len(),
{
    if acts.len() == 0 {
        regs
    } else {
        let prev = registers_after(regs, acts.drop_last());
        match acts.last() {
            CommitAction::SetRegister { index, value } => if index < prev.len() {
                prev.update(index as int, value)
            } else {
                prev
            },
            _ => prev,
        }
    }
}

/// No action of the sequence writes a register.
pub open spec fn no_register_action(acts: Seq<CommitAction>) -> bool {
    forall|k: int| 0 <= k < acts.len() ==> !(#[trigger] acts[k] is SetRegister)
}

proof fn lemma_registers_after_len(regs: Seq<u64>, acts: Seq<CommitAction>)
    ensures
        registers_after(regs, acts).len() == regs.len(),
    decreases acts.len(),
{
    if acts.len() > 0 {
        lemma_registers_after_len(regs, acts.drop_last());
    }
}

proof fn lemma_registers_after_concat(regs: Seq<u64>, a: Seq<CommitAction>, b: Seq<CommitAction>)
    ensures
        registers_after(regs, a + b) == registers_after(registers_after(regs, a), b),
    decreases b.len(),
{
    if b.len() == 0 {
        assert(a + b =~= a);
    } else {
        assert((a + b).drop_last() =~= a + b.drop_last());
        assert((a + b).last() == b.last());
        lemma_registers_after_concat(regs, a, b.drop_last());
    }
}

proof fn lemma_registers_after_none(regs: Seq<u64>, acts: Seq<CommitAction>)
    requires
        no_register_action(acts),
    ensures
        registers_after(regs, acts) == regs,
    decreases acts.len(),
{
    if acts.len() > 0 {
        assert(!(acts[acts.len() - 1] is SetRegister));
        assert forall|k: int| 0 <= k < acts.drop_last().len() implies !(#[trigger] acts.drop_last()[k] is SetRegister) by {
            assert(acts.drop_last()[k] == acts[k]);
        }
        lemma_registers_after_none(regs, acts.drop_last());
    }
}

proof fn lemma_memory_actions_no_register(ws: Seq<Resolved>)
    ensures
        no_register_action(memory_actions(ws)),
    decreases ws.len(),
{
    if ws.len() > 0 {
        lemma_memory_actions_no_register(ws.drop_last());
        let prev = memory_actions(ws.drop_last());
        let cur = memory_actions(ws);
        assert forall|k: int| 0 <= k < cur.len() implies !(#[trigger] cur[k] is SetRegister) by {
            if k < prev.len() {
                assert(cur[k] == prev[k]);
            }
        }
    }
}

proof fn lemma_last_register_write(regs: Seq<u64>, ws: Seq<Resolved>, k: int, index: usize, value: u64)
    requires
        index < regs.len(),
        0 <= k < ws.len(),
        ws[k] == (Resolved::Register { index, value }),
        forall|l: int| k < l < ws.len() ==> !(#[trigger] ws[l] matches Resolved::Register { index: j, .. } && j == index),
    ensures
        registers_after(regs, register_actions(ws))[index as int] == value,
    decreases ws.len(),
{
    let prev = ws.drop_last();
    lemma_registers_after_len(regs, register_actions(prev));
    if k == ws.len() - 1 {
        assert(register_actions(ws) == register_actions(prev).push(
            CommitAction::SetRegister { index, value },
        ));
        assert(register_actions(ws).drop_last() =~= register_actions(prev));
    } else {
        assert(forall|l: int| k < l < prev.len() ==> prev[l] == ws[l]);
        lemma_last_register_write(regs, prev, k, index, value);
        let last = ws.last();
        assert(!(ws[ws.len() - 1] matches Resolved::Register { index: j, .. } && j == index));
        match last {
            Resolved::Register { index: j, value: v } => {
                assert(register_actions(ws).drop_last() =~= register_actions(prev));
            },
            _ => {},
        }
    }
}

/// Batch purity: when every expression of a batch is evaluated against one snapshot
/// (`eval`), each resolved write, and so the whole commit plan, depends only on that
/// write's own expressions, never on another member of the batch or on the order in
/// which the expressions were evaluated.
pub proof fn batch_purity(next_pc: Option<Value>, ws: Seq<Write>, eval: spec_fn(Value) -> u64)
    ensures
        forall|k: int|
            0 <= k < ws.len() ==> #[trigger] resolve_spec(ws[k], write_exprs(ws[k]).map_values(eval))
                == evaluate_write(ws[k], eval),
        commit_plan(
            match next_pc {
                Some(e) => Some(eval(e)),
                None => None,
            },
            ws.map_values(|w: Write| resolve_spec(w, write_exprs(w).map_values(eval))),
        ) == commit_plan(
            match next_pc {
                Some(e) => Some(eval(e)),
                None => None,
            },
            ws.map_values(|w: Write| evaluate_write(w, eval)),
        ),
{
    assert forall|k: int|
        0 <= k < ws.len() implies #[trigger] resolve_spec(ws[k], write_exprs(ws[k]).map_values(eval))
        == evaluate_write(ws[k], eval) by {
        lemma_resolve_evaluated(ws[k], eval);
    }
    let a = ws.map_values(|w: Write| resolve_spec(w, write_exprs(w).map_values(eval)));
    let b = ws.map_values(|w: Write| evaluate_write(w, eval));
    assert forall|k: int| 0 <= k < ws.len() implies a[k] == b[k] by {
        lemma_resolve_evaluated(ws[k], eval);
    }
    assert(a =~= b);
}

proof fn lemma_resolve_evaluated(w: Write, eval: spec_fn(Value) -> u64)
    ensures
        resolve_spec(w, write_exprs(w).map_values(eval)) == evaluate_write(w, eval),
{
    let vals = write_exprs(w).map_values(eval);
    match w {
        Write::Memory { address, value, .. } => {
            assert(vals[0] == eval(address));
            assert(vals[1] == eval(value));
        },
        Write::Register { value, .. } => {
            assert(vals[0] == eval(value));
        },
        Write::Lr { value } => {
            assert(vals[0] == eval(value));
        },
        _ => {},
    }
}

/// Commit-order determinism: when a batch writes register `index` more than once, the
/// register ends up holding the value of the last of those writes.
pub proof fn later_register_write_wins(
    regs: Seq<u64>,
    next_pc: Option<u64>,
    ws: Seq<Resolved>,
    k: int,
    index: usize,
    value: u64,
)
    requires
        index < regs.len(),
        0 <= k < ws.len(),
        ws[k] == (Resolved::Register { index, value }),
        forall|l: int| k < l < ws.len() ==> !(#[trigger] ws[l] matches Resolved::Register { index: j, .. } && j == index),
    ensures
        registers_after(regs, commit_plan(next_pc, ws))[index as int] == value,
{
    let pc_part = match next_pc {
        Some(pc) => seq![CommitAction::SetPc(pc)],
        None => Seq::<CommitAction>::empty(),
    };
    let lr_part = match last_lr(ws) {
        Some(v) => seq![CommitAction::SetLr(v)],
        None => Seq::<CommitAction>::empty(),
    };
    let ecall_part = if has_ecall(ws) {
        seq![CommitAction::Ecall]
    } else {
        Seq::<CommitAction>::empty()
    };
    let ebreak_part = if has_ebreak(ws) {
        seq![CommitAction::Ebreak]
    } else {
        Seq::<CommitAction>::empty()
    };
    let before = pc_part + memory_actions(ws) + lr_part;
    let after = ecall_part + ebreak_part;
    let regs_part = register_actions(ws);
    assert(commit_plan(next_pc, ws) =~= before + regs_part + after);
    lemma_memory_actions_no_register(ws);
    assert(no_register_action(before)) by {
        let m = memory_actions(ws);
        assert forall|i: int| 0 <= i < before.len() implies !(#[trigger] before[i] is SetRegister) by {
            if i >= pc_part.len() && i < pc_part.len() + m.len() {
                assert(before[i] == m[i - pc_part.len()]);
            }
        }
    }
    assert(no_register_action(after));
    lemma_registers_after_concat(regs, before + regs_part, after);
    lemma_registers_after_concat(regs, before, regs_part);
    lemma_registers_after_none(regs, before);
    lemma_registers_after_none(registers_after(regs, before + regs_part), after);
    lemma_last_register_write(regs, ws, k, index, value);
}

/// Commit-order determinism for a recorded batch: when every write is evaluated against
/// one snapshot (`eval`) and committed in plan order, register `index` ends up holding
/// the evaluation of the expression of the last recorded write to it.
pub proof fn recorded_later_write_wins(
    regs: Seq<u64>,
    next_pc: Option<u64>,
    ws: Seq<Write>,
    eval: spec_fn(Value) -> u64,
    k: int,
    index: usize,
    value: Value,
)
    requires
        index < regs.len(),
        0 <= k < ws.len(),
        ws[k] == (Write::Register { index, value }),
        forall|l: int| k < l < ws.len() ==> !(#[trigger] ws[l] matches Write::Register { index: j, .. } && j == index),
    ensures
        registers_after(regs, commit_plan(next_pc, ws.map_values(|w: Write| evaluate_write(w, eval))))[index as int]
            == eval(value),
{
    let rs = ws.map_values(|w: Write| evaluate_write(w, eval));
    assert(rs[k] == (Resolved::Register { index, value: eval(value) }));
    assert forall|l: int| k < l < rs.len() implies !(#[trigger] rs[l] matches Resolved::Register { index: j, .. } && j == index) by {
        assert(rs[l] == evaluate_write(ws[l], eval));
        assert(!(ws[l] matches Write::Register { index: j, .. } && j == index));
    }
    later_register_write_wins(regs, next_pc, rs, k, index, eval(value));
}

/// The expressions of `w` that must be evaluated before it can be committed.
pub fn write_expressions(w: &Write) -> (r: Vec<Value>)
    ensures
        r@ == write_exprs(*w),
{
    let mut r: Vec<Value> = Vec::new();
    match w {
        Write::Memory { address, value, .. } => {
            r.push(address.clone());
            r.push(value.clone());
        },
        Write::Register { value, .. } => {
            r.push(value.clone());
        },
        Write::Lr { value } => {
            r.push(value.clone());
        },
        _ => {},
    }
    assert(r@ =~= write_exprs(*w));
    r
}

/// `w` with its expressions replaced by the values that they evaluated to, given in the
/// order of `write_expressions`.
pub fn resolve_write(w: &Write, values: &[u64]) -> (r: Resolved)
    requires
        values@.len() == write_exprs(*w).len(),
    ensures
        r == resolve_spec(*w, values@),
{
    match w {
        Write::Memory { size, .. } => Resolved::Memory {
            address: values[0],
            size: *size,
            value: values[1],
        },
        Write::Register { index, .. } => Resolved::Register { index: *index, value: values[0] },
        Write::Lr { .. } => Resolved::Lr { value: values[0] },
        Write::Ecall => Resolved::Ecall,
        Write::Ebreak => Resolved::Ebreak,
    }
}

/// Puts the resolved effects of one instruction in commit order.
pub fn plan_commit(next_pc: Option<u64>, writes: &[Resolved]) -> (r: Vec<CommitAction>)
    ensures
        r@ == commit_plan(next_pc, writes@),
{
    let mut stores: Vec<CommitAction> = Vec::new();
    let mut registers: Vec<CommitAction> = Vec::new();
    let mut lr: Option<u64> = None;
    let mut ecall = false;
    let mut ebreak = false;
    let mut i: usize = 0;
    while i < writes.len()
        invariant
            0 <= i <= writes@.len(),
            stores@ == memory_actions(writes@.subrange(0, i as int)),
            registers@ == register_actions(writes@.subrange(0, i as int)),
            lr == last_lr(writes@.subrange(0, i as int)),
            ecall == has_ecall(writes@.subrange(0, i as int)),
            ebreak == has_ebreak(writes@.subrange(0, i as int)),
        decreases writes@.len() - i,
    {
        let ghost prefix = writes@.subrange(0, i as int);
        let ghost next = writes@.subrange(0, i + 1);
        assert(next.drop_last() =~= prefix);
        assert(next.last() == writes@[i as int]);
        match writes[i] {
            Resolved::Memory { address, size, value } => {
                stores.push(CommitAction::Store { address, size, value });
            },
            Resolved::Register { index, value } => {
                registers.push(CommitAction::SetRegister { index, value });
            },
            Resolved::Lr { value } => {
                lr = Some(value);
            },
            Resolved::Ecall => {
                ecall = true;
            },
            Resolved::Ebreak => {
                ebreak = true;
            },
        }
        proof {
            if writes@[i as int] is Ecall {
                assert(next[i as int] is Ecall);
            } else if ecall {
                let k = choose|k: int| 0 <= k < prefix.len() && prefix[k] is Ecall;
                assert(next[k] is Ecall);
            } else {
                assert forall|k: int| 0 <= k < next.len() implies !(next[k] is Ecall) by {
                    if k < i {
                        assert(next[k] == prefix[k]);
                    }
                }
            }
            if writes@[i as int] is Ebreak {
                assert(next[i as int] is Ebreak);
            } else if ebreak {
                let k = choose|k: int| 0 <= k < prefix.len() && prefix[k] is Ebreak;
                assert(next[k] is Ebreak);
            } else {
                assert forall|k: int| 0 <= k < next.len() implies !(next[k] is Ebreak) by {
                    if k < i {
                        assert(next[k] == prefix[k]);
                    }
                }
            }
        }
        i = i + 1;
    }
    assert(writes@.subrange(0, writes@.len() as int) =~= writes@);
    let mut r: Vec<CommitAction> = Vec::new();
    match next_pc {
        Some(pc) => r.push(CommitAction::SetPc(pc)),
        None => {},
    }
    r.append(&mut stores);
    match lr {
        Some(v) => r.push(CommitAction::SetLr(v)),
        None => {},
    }
    r.append(&mut registers);
    if ecall {
        r.push(CommitAction::Ecall);
    }
    if ebreak {
        r.push(CommitAction::Ebreak);
    }
    assert(r@ =~= commit_plan(next_pc, writes@));
    r
}

} // verus!
