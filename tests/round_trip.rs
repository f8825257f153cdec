use binary::roundtrip::{
    check_parsed, compare_states, exit_status, registers_printable, round_trip, Divergence,
    RoundTripError,
};
use ckb_vm::instructions::{insts, Rtype};
use ckb_vm::instructions::{b, i, instruction_length, rvc, set_instruction_length_n};
use ckb_vm::instructions::execute;
use ckb_vm::machine::{DefaultCoreMachine, DefaultMachine, DefaultMachineBuilder, VERSION1};
use ckb_vm::memory::sparse::SparseMemory;
use ckb_vm::{CoreMachine, SupportMachine, ISA_B, ISA_IMC};

type Concrete = DefaultMachine<DefaultCoreMachine<u64, SparseMemory<u64>>>;

fn machine() -> Concrete {
    let core = DefaultCoreMachine::<u64, SparseMemory<u64>>::new(ISA_IMC | ISA_B, VERSION1, u64::MAX);
    let mut m = DefaultMachineBuilder::new(core).build();
    m.set_register(6, 0x00f0_0000_0000_0001);
    m.set_running(true);
    m
}

fn decoded(word: Option<u64>, length: u8) -> u64 {
    set_instruction_length_n(word.expect("decodes"), length)
}

#[test]
fn check_parsed_restores_length_tag() {
    let original = decoded(i::factory::<u64>(0x02a0_0293, VERSION1), 4);
    assert_eq!(instruction_length(original), 4);
    let untagged = original & !(0x0f << 24);
    assert_ne!(untagged, original);
    assert_eq!(check_parsed(original, &[untagged]), Ok(original));
}

#[test]
fn check_parsed_rejects_word_counts() {
    assert_eq!(check_parsed(0x1234, &[]), Err(RoundTripError::WordCount(0)));
    assert_eq!(
        check_parsed(0x1234, &[0x1234, 0x1234]),
        Err(RoundTripError::WordCount(2))
    );
}

#[test]
fn check_parsed_reports_mismatch() {
    let original = decoded(i::factory::<u64>(0x02a0_0293, VERSION1), 4);
    let other = decoded(i::factory::<u64>(0x0010_0293, VERSION1), 4);
    assert_eq!(
        check_parsed(original, &[other]),
        Err(RoundTripError::Mismatch {
            original,
            parsed: other
        })
    );
}

#[test]
fn round_trip_of_base_compressed_and_bit_manipulation_words() {
    // addi x5, x0, 42
    let base = decoded(i::factory::<u64>(0x02a0_0293, VERSION1), 4);
    assert_eq!(round_trip(base), Ok(base));
    // c.li x5, 10
    let compressed = decoded(rvc::factory::<u64>(0x42a9, VERSION1), 2);
    assert_eq!(round_trip(compressed), Ok(compressed));
    // clz x5, x6
    let bits = decoded(b::factory::<u64>(0x6003_1293, VERSION1), 4);
    assert_eq!(round_trip(bits), Ok(bits));
}

#[test]
fn round_tripped_words_execute_identically() {
    let words = [
        decoded(i::factory::<u64>(0x02a0_0293, VERSION1), 4),
        decoded(rvc::factory::<u64>(0x42a9, VERSION1), 2),
        decoded(b::factory::<u64>(0x6003_1293, VERSION1), 4),
    ];
    let mut m1 = machine();
    let mut m2 = machine();
    for original in words {
        let parsed = round_trip(original).expect("round trip");
        execute(parsed, &mut m1).expect("execute parsed");
        execute(original, &mut m2).expect("execute original");
        assert_eq!(
            compare_states(
                *m1.pc(),
                m1.registers(),
                m1.exit_code(),
                *m2.pc(),
                m2.registers(),
                m2.exit_code()
            ),
            Ok(())
        );
    }
    assert_eq!(*m1.pc(), 10);
    assert_eq!(m1.registers()[5], 8);
}

#[test]
fn register_field_out_of_name_range_is_unrenderable() {
    let bad = set_instruction_length_n(Rtype::new(insts::OP_ADD, 40, 1, 2).0, 4);
    assert!(!registers_printable(bad));
    assert_eq!(round_trip(bad), Err(RoundTripError::Unrenderable));
    let good = set_instruction_length_n(Rtype::new(insts::OP_ADD, 5, 1, 2).0, 4);
    assert!(registers_printable(good));
    assert_eq!(round_trip(good), Ok(good));
}

#[test]
fn unknown_opcode_is_unrenderable() {
    assert_eq!(round_trip(0), Err(RoundTripError::Unrenderable));
}

#[test]
fn compare_states_finds_first_divergence() {
    let a = [1u64, 2, 3];
    let b = [1u64, 2, 4];
    assert_eq!(compare_states(8, &a, 0, 8, &a, 0), Ok(()));
    assert_eq!(compare_states(8, &a, 0, 12, &a, 0), Err(Divergence::Pc));
    assert_eq!(compare_states(8, &a, 0, 8, &b, 0), Err(Divergence::Registers));
    assert_eq!(compare_states(8, &a, 0, 8, &a[..2], 0), Err(Divergence::Registers));
    assert_eq!(compare_states(8, &a, 1, 8, &a, 2), Err(Divergence::ExitCode));
    assert_eq!(compare_states(8, &a, 1, 12, &b, 2), Err(Divergence::Pc));
}

#[test]
fn nonzero_exit_code_becomes_process_status() {
    assert_eq!(exit_status(7), Some(7));
    assert_eq!(exit_status(-1), Some(-1));
    assert_eq!(exit_status(0), None);
}
