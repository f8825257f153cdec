use binary::commit::{plan_commit, resolve_write, write_expressions, CommitAction, Resolved};
use binary::Write;
use ckb_vm::instructions::ast::Value;

fn text(v: &Value) -> String {
    format!("{:?}", v)
}

#[test]
fn write_expressions_list_address_before_value() {
    let w = Write::Memory {
        address: Value::Register(1),
        size: 4,
        value: Value::Imm(5),
    };
    let exprs: Vec<String> = write_expressions(&w).iter().map(text).collect();
    assert_eq!(exprs, vec!["Register(1)", "Imm(5)"]);
    let w = Write::Register {
        index: 2,
        value: Value::Imm(3),
    };
    assert_eq!(write_expressions(&w).len(), 1);
    assert!(write_expressions(&Write::Ecall).is_empty());
}

#[test]
fn resolve_write_places_values() {
    let w = Write::Memory {
        address: Value::Register(1),
        size: 4,
        value: Value::Imm(5),
    };
    assert_eq!(
        resolve_write(&w, &[0x1000, 5]),
        Resolved::Memory {
            address: 0x1000,
            size: 4,
            value: 5
        }
    );
    let w = Write::Lr {
        value: Value::Imm(3),
    };
    assert_eq!(resolve_write(&w, &[3]), Resolved::Lr { value: 3 });
    assert_eq!(resolve_write(&Write::Ebreak, &[]), Resolved::Ebreak);
}

#[test]
fn plan_commit_uses_fixed_order() {
    let writes = vec![
        Resolved::Ebreak,
        Resolved::Register { index: 1, value: 10 },
        Resolved::Ecall,
        Resolved::Lr { value: 7 },
        Resolved::Memory {
            address: 0x10,
            size: 8,
            value: 1,
        },
        Resolved::Register { index: 2, value: 20 },
        Resolved::Lr { value: 9 },
        Resolved::Memory {
            address: 0x20,
            size: 1,
            value: 2,
        },
    ];
    let plan = plan_commit(Some(0x400), &writes);
    assert_eq!(
        plan,
        vec![
            CommitAction::SetPc(0x400),
            CommitAction::Store {
                address: 0x10,
                size: 8,
                value: 1
            },
            CommitAction::Store {
                address: 0x20,
                size: 1,
                value: 2
            },
            CommitAction::SetLr(9),
            CommitAction::SetRegister { index: 1, value: 10 },
            CommitAction::SetRegister { index: 2, value: 20 },
            CommitAction::Ecall,
            CommitAction::Ebreak,
        ]
    );
}

#[test]
fn plan_commit_of_empty_batch() {
    assert!(plan_commit(None, &[]).is_empty());
    assert_eq!(plan_commit(Some(4), &[]), vec![CommitAction::SetPc(4)]);
}

#[test]
fn later_register_write_wins_on_commit() {
    let writes = vec![
        Resolved::Register { index: 5, value: 1 },
        Resolved::Register { index: 6, value: 2 },
        Resolved::Register { index: 5, value: 3 },
    ];
    let mut regs = [0u64; 32];
    for action in plan_commit(None, &writes) {
        if let CommitAction::SetRegister { index, value } = action {
            regs[index] = value;
        }
    }
    assert_eq!(regs[5], 3);
    assert_eq!(regs[6], 2);
}

#[test]
fn evaluation_order_does_not_change_the_plan() {
    // One snapshot: x1 = 0x100, x2 = 7.
    let eval = |v: &Value| match v {
        Value::Register(1) => 0x100u64,
        Value::Register(2) => 7,
        Value::Imm(x) => *x,
        _ => 0,
    };
    let writes = vec![
        Write::Memory {
            address: Value::Register(1),
            size: 8,
            value: Value::Register(2),
        },
        Write::Register {
            index: 2,
            value: Value::Imm(1),
        },
        Write::Register {
            index: 3,
            value: Value::Register(2),
        },
    ];
    let forward: Vec<Resolved> = writes
        .iter()
        .map(|w| {
            let vals: Vec<u64> = write_expressions(w).iter().map(|e| eval(e)).collect();
            resolve_write(w, &vals)
        })
        .collect();
    let mut backward: Vec<Resolved> = writes
        .iter()
        .rev()
        .map(|w| {
            let vals: Vec<u64> = write_expressions(w).iter().map(|e| eval(e)).collect();
            resolve_write(w, &vals)
        })
        .collect();
    backward.reverse();
    assert_eq!(forward, backward);
    let plan = plan_commit(None, &forward);
    assert_eq!(
        plan,
        vec![
            CommitAction::Store {
                address: 0x100,
                size: 8,
                value: 7
            },
            CommitAction::SetRegister { index: 2, value: 1 },
            CommitAction::SetRegister { index: 3, value: 7 },
        ]
    );
}
