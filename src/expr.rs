use ckb_vm::instructions::ast::Value;
use std::rc::Rc;
use vstd::prelude::*;

verus! {

/// Symbolic expressions are ckb-vm's AST values; Verus sees them as opaque.
#[verifier::external_type_specification]
#[verifier::external_body]
pub struct ExValue(Value);

/// Register index that the expression interpreter resolves to the program counter.
pub const PC_INDEX: usize = 0xFFFF;

/// The expression `Value::Imm(x)`.
pub uninterp spec fn imm_expr(x: u64) -> Value;

/// The expression `Value::Register(index)`: the value of that register at instruction entry.
pub uninterp spec fn register_expr(index: usize) -> Value;

/// The expression `Value::Load(address, width)`: memory at instruction entry.
pub uninterp spec fn load_expr(address: Value, width: u8) -> Value;

/// Relies on the derived `Clone` of ckb-vm's `Value`: the copy is the same expression
/// (shared children stay shared through `Rc::clone`).
pub assume_specification[ <Value as Clone>::clone ](v: &Value) -> (r: Value)
    ensures
        r == *v,
;

/// Builds the constant expression `Value::Imm(x)`.
#[verifier::external_body]
pub(crate) fn imm(x: u64) -> (r: Value)
    ensures
        r == imm_expr(x),
{
    Value::Imm(x)
}

/// Builds the register-identity expression `Value::Register(index)`.
#[verifier::external_body]
pub(crate) fn register_ref(index: usize) -> (r: Value)
    ensures
        r == register_expr(index),
{
    Value::Register(index)
}

/// Builds the load expression `Value::Load(address, width)`.
#[verifier::external_body]
pub(crate) fn load_of(address: &Value, width: u8) -> (r: Value)
    ensures
        r == load_expr(*address, width),
{
    Value::Load(Rc::new(address.clone()), width)
}

/// Tells the `Value::Register` variant apart from the others and reads its index.
#[verifier::external_body]
pub(crate) fn register_index(v: &Value) -> (r: Option<usize>)
    ensures
        match r {
            Some(i) => forall|j: usize| (*v == register_expr(j)) <==> j == i,
            None => forall|i: usize| *v != register_expr(i),
        },
{
    match v {
        Value::Register(i) => Some(*i),
        _ => None,
    }
}

/// Relies on ckb_vm::machine::VERSION1, the first instruction-set version.
#[verifier::external_body]
pub(crate) fn version_one() -> (r: u32)
    ensures
        r == 1,
{
    ckb_vm::machine::VERSION1
}

/// Relies on ckb_vm::ISA_IMC, the flag of the base integer, multiply and compressed set.
#[verifier::external_body]
pub(crate) fn isa_imc() -> (r: u8)
    ensures
        r == 0,
{
    ckb_vm::ISA_IMC
}

/// Relies on ckb_vm::ISA_B, the flag of the bit-manipulation extension.
#[verifier::external_body]
pub(crate) fn isa_b() -> (r: u8)
    ensures
        r == 1,
{
    ckb_vm::ISA_B
}

/// Relies on ckb_vm::ISA_MOP, the flag of macro-op fusion.
#[verifier::external_body]
pub(crate) fn isa_mop() -> (r: u8)
    ensures
        r == 2,
{
    ckb_vm::ISA_MOP
}

} // verus!
