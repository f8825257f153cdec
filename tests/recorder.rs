use binary::recorder::REGISTER_COUNT;
use binary::{init_registers, AstCoreMachine, Write};
use ckb_vm::instructions::ast::Value;

fn text(v: &Value) -> String {
    format!("{:?}", v)
}

#[test]
fn init_registers_are_entry_placeholders() {
    let regs = init_registers();
    assert_eq!(regs.len(), REGISTER_COUNT);
    assert_eq!(text(&regs[0]), "Imm(0)");
    for i in 1..REGISTER_COUNT {
        assert_eq!(text(&regs[i]), format!("Register({})", i));
    }
}

#[test]
fn default_machine_configuration() {
    let m = AstCoreMachine::default();
    assert_eq!(m.version(), 1);
    assert_eq!(m.isa(), 3);
    assert_eq!(text(m.pc()), "Register(65535)");
    let m = AstCoreMachine::new(2, 5);
    assert_eq!(m.version(), 2);
    assert_eq!(m.isa(), 5);
}

#[test]
fn reset_registers_restores_identity() {
    let mut m = AstCoreMachine::default();
    m.set_register(5, Value::Imm(7));
    m.set_register(31, Value::Imm(9));
    m.update_pc(Value::Imm(0x100));
    m.commit_pc();
    m.reset_registers();
    assert!(m.take_writes().is_empty());
    assert_eq!(text(&m.registers()[5]), "Register(5)");
    assert_eq!(text(&m.registers()[31]), "Register(31)");
    assert_eq!(text(&m.registers()[0]), "Imm(0)");
    assert_eq!(text(m.pc()), "Register(65535)");
    assert!(m.take_pc().is_none());
}

#[test]
fn register_write_is_visible_to_later_read() {
    let mut m = AstCoreMachine::default();
    m.set_register(5, Value::Imm(42));
    assert_eq!(text(&m.registers()[5]), "Imm(42)");
    assert_eq!(text(&m.registers()[6]), "Register(6)");
}

#[test]
fn register_zero_keeps_zero() {
    let mut m = AstCoreMachine::default();
    m.set_register(0, Value::Imm(42));
    assert_eq!(text(&m.registers()[0]), "Imm(0)");
    let writes = m.take_writes();
    assert_eq!(writes.len(), 1);
    assert!(matches!(writes[0], Write::Register { index: 0, .. }));
    assert_eq!(
        format!("{:?}", writes[0].clone()),
        "Register { index: 0, value: Imm(42) }"
    );
}

#[test]
fn load_after_store_sees_entry_memory() {
    let mut m = AstCoreMachine::default();
    let address = Value::Register(10);
    m.store64(&address, &Value::Imm(99));
    let loaded = m.load64(&address);
    assert_eq!(text(&loaded), "Load(Register(10), 8)");
    assert_eq!(text(&m.load8(&address)), "Load(Register(10), 1)");
    assert_eq!(text(&m.load16(&address)), "Load(Register(10), 2)");
    assert_eq!(text(&m.load32(&address)), "Load(Register(10), 4)");
}

#[test]
fn stores_record_their_widths_in_order() {
    let mut m = AstCoreMachine::default();
    let a = Value::Imm(0x1000);
    let v = Value::Imm(1);
    m.store8(&a, &v);
    m.store16(&a, &v);
    m.store32(&a, &v);
    m.store64(&a, &v);
    let sizes: Vec<u8> = m
        .take_writes()
        .iter()
        .map(|w| match w {
            Write::Memory { size, .. } => *size,
            _ => 0,
        })
        .collect();
    assert_eq!(sizes, vec![1, 2, 4, 8]);
    assert!(m.take_writes().is_empty());
}

#[test]
fn markers_and_linked_reservation_are_recorded() {
    let mut m = AstCoreMachine::default();
    m.ecall();
    m.set_lr(&Value::Imm(8));
    m.ebreak();
    let writes = m.take_writes();
    assert_eq!(writes.len(), 3);
    assert!(matches!(writes[0], Write::Ecall));
    assert!(matches!(writes[1], Write::Lr { .. }));
    assert!(matches!(writes[2], Write::Ebreak));
}

#[test]
fn staged_pc_is_invisible_until_commit() {
    let mut m = AstCoreMachine::default();
    m.update_pc(Value::Imm(0x200));
    assert_eq!(text(m.pc()), "Register(65535)");
    assert!(m.take_pc().is_none());
    m.commit_pc();
    assert_eq!(text(m.pc()), "Imm(512)");
    let pc = m.take_pc();
    assert_eq!(text(&pc.unwrap()), "Imm(512)");
    assert_eq!(text(m.pc()), "Register(65535)");
}

#[test]
fn drain_batch_hands_over_writes_and_pc() {
    let mut m = AstCoreMachine::default();
    m.set_register(3, Value::Imm(1));
    m.ecall();
    m.update_pc(Value::Imm(8));
    m.commit_pc();
    let batch = m.drain_batch();
    assert_eq!(batch.writes.len(), 2);
    assert_eq!(text(&batch.next_pc.unwrap()), "Imm(8)");
    let empty = m.drain_batch();
    assert!(empty.writes.is_empty());
    assert!(empty.next_pc.is_none());
}
