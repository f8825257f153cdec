use ckb_vm::instructions::tagged::TaggedInstruction;
use ckb_vm::instructions::Instruction;
use ckb_vm_contrib::assembler::parse;
use ckb_vm_contrib::printer::InstructionPrinter;
use std::convert::TryInto;
use vstd::prelude::*;

verus! {

/// The operand layout that ckb-vm gives a word, `None` when its opcode is unknown.
#[derive(PartialEq, Eq, Structural, Debug, Clone, Copy)]
pub enum TaggedFormat {
    R,
    I,
    S,
    U,
    R4,
}

/// The layout that ckb-vm's `TryFrom<u64>` for `TaggedInstruction` picks for a word.
pub uninterp spec fn format_of(inst: u64) -> Option<TaggedFormat>;

/// The byte of `inst` that starts at bit `shift`: where ckb-vm keeps a register index.
pub open spec fn field(inst: u64, shift: u64) -> u64 {
    (inst >> shift) & 0xffu64
}

/// Every register index that ckb-vm's display of the word looks up by name is below 32
/// (rd at bit 8, rs1 at bit 32, rs2 at bit 40, rs3 at bit 48; the S layout keeps rs2 at
/// bit 8 and its immediate above bit 40, the I and U layouts keep immediates there too).
pub open spec fn printable(inst: u64) -> bool {
    match format_of(inst) {
        Some(TaggedFormat::R) => field(inst, 8) < 32 && field(inst, 32) < 32 && field(inst, 40) < 32,
        Some(TaggedFormat::I) => field(inst, 8) < 32 && field(inst, 32) < 32,
        Some(TaggedFormat::S) => field(inst, 8) < 32 && field(inst, 32) < 32,
        Some(TaggedFormat::U) => field(inst, 8) < 32,
        Some(TaggedFormat::R4) => field(inst, 8) < 32 && field(inst, 32) < 32 && field(inst, 40) < 32
            && field(inst, 48) < 32,
        None => true,
    }
}

/// The canonical text of a decoded instruction word, when it has one.
pub uninterp spec fn rendering_of(inst: u64) -> Option<Seq<char>>;

/// The instruction words that assembling `text` gives, when the text is accepted.
pub uninterp spec fn parsing_of(text: Seq<char>) -> Option<Seq<u64>>;

/// The length in bytes that a decoded word carries in its length tag.
pub open spec fn length_of(i: u64) -> u8 {
    (((i >> 24u64) & 0x0fu64) << 1u64) as u8
}

/// `i` with the length tag for `n` bytes set.
pub open spec fn with_length(i: u64, n: u8) -> u64 {
    i | ((((n as u64) & 0x1fu64) >> 1u64) << 24u64)
}

/// Relies on ckb_vm::instructions::instruction_length: the length tag read from bits 24..28.
pub assume_specification[ ckb_vm::instructions::instruction_length ](i: Instruction) -> (r: u8)
    ensures
        r == length_of(i),
;

/// Relies on ckb_vm::instructions::set_instruction_length_n: or-s the length tag into
/// bits 24..28; its debug assertions ask for an even length of at most 30.
pub assume_specification[ ckb_vm::instructions::set_instruction_length_n ](i: u64, n: u8) -> (r: u64)
    requires
        n % 2 == 0,
        n <= 30,
    ensures
        r == with_length(i, n),
;

/// Relies on ckb-vm's `TryFrom<u64>` for `TaggedInstruction`: which layout the word's
/// opcode selects, `None` when the opcode is unknown.
#[verifier::external_body]
fn tagged_format(inst: u64) -> (r: Option<TaggedFormat>)
    ensures
        r == format_of(inst),
{
    match TryInto::<TaggedInstruction>::try_into(inst) {
        Ok(TaggedInstruction::Rtype(_)) => Some(TaggedFormat::R),
        Ok(TaggedInstruction::Itype(_)) => Some(TaggedFormat::I),
        Ok(TaggedInstruction::Stype(_)) => Some(TaggedFormat::S),
        Ok(TaggedInstruction::Utype(_)) => Some(TaggedFormat::U),
        Ok(TaggedInstruction::R4type(_)) => Some(TaggedFormat::R4),
        Err(_) => None,
    }
}

/// Relies on ckb-vm's `TryFrom<u64>` for `TaggedInstruction` and ckb-vm-contrib's
/// `InstructionPrinter` display: the canonical text of a word, `None` when ckb-vm gives
/// the word no tagged form. The display indexes a 32-entry table of register names by
/// the word's register fields, so those must be in range.
#[verifier::external_body]
fn render(inst: u64) -> (r: Option<String>)
    requires
        printable(inst),
    ensures
        match r {
            Some(s) => rendering_of(inst) == Some(s@),
            None => rendering_of(inst) is None,
        },
{
    let tagged: Result<TaggedInstruction, _> = inst.try_into();
    match tagged {
        Ok(t) => Some(format!("{}", InstructionPrinter::new(t))),
        Err(_) => None,
    }
}

/// Relies on ckb_vm_contrib::assembler::parse: the words that the text assembles to,
/// `None` when the assembler rejects it.
#[verifier::external_body]
fn assemble(text: &str) -> (r: Option<Vec<u64>>)
    ensures
        match r {
            Some(ws) => parsing_of(text@) == Some(ws@),
            None => parsing_of(text@) is None,
        },
{
    match parse::<u64>(text) {
        Ok(insts) => Some(insts.into_iter().map(|t| t.into()).collect()),
        Err(_) => None,
    }
}

/// Why a word failed the text round trip.
#[derive(PartialEq, Eq, Structural, Debug, Clone, Copy)]
pub enum RoundTripError {
    /// The word has no canonical text, or names a register that the display cannot.
    Unrenderable,
    /// The assembler rejected the canonical text.
    Unparsable,
    /// The text assembled to this many words instead of one.
    WordCount(usize),
    /// The re-encoded word, length tag set, differs from the decoded one.
    Mismatch { original: u64, parsed: u64 },
}

/// The outcome of comparing what the text assembled to with the decoded word.
pub open spec fn check_parsed_spec(original: u64, parsed: Seq<u64>) -> Result<u64, RoundTripError> {
    if parsed.len() != 1 {
        Err(RoundTripError::WordCount(parsed.len() as usize))
    } else {
        let word = with_length(parsed[0], length_of(original));
        if word == original {
            Ok(word)
        } else {
            Err(RoundTripError::Mismatch { original, parsed: word })
        }
    }
}

/// The outcome of the round trip decode, render, parse, re-encode of one word.
pub open spec fn round_trip_spec(original: u64) -> Result<u64, RoundTripError> {
    if !printable(original) {
        Err(RoundTripError::Unrenderable)
    } else {
        match rendering_of(original) {
        None => Err(RoundTripError::Unrenderable),
        Some(text) => match parsing_of(text) {
            None => Err(RoundTripError::Unparsable),
            Some(words) => check_parsed_spec(original, words),
        },
        }
    }
}

proof fn lemma_length_tag_in_range(i: u64)
    ensures
        length_of(i) % 2 == 0,
        length_of(i) <= 30,
{
    let x = (i >> 24u64) & 0x0fu64;
    assert(x <= 15u64) by (bit_vector)
        requires
            x == (i >> 24u64) & 0x0fu64,
    ;
    assert((x << 1u64) == x * 2) by (bit_vector)
        requires
            x <= 15u64,
    ;
}

/// Checks what the canonical text of `original` assembled to: exactly one word that,
/// given the length tag of the decoded word (which text cannot carry), is that word.
pub fn check_parsed(original: u64, parsed: &[u64]) -> (r: Result<u64, RoundTripError>)
    ensures
        r == check_parsed_spec(original, parsed@),
{
    if parsed.len() != 1 {
        return Err(RoundTripError::WordCount(parsed.len()));
    }
    let n = ckb_vm::instructions::instruction_length(original);
    proof {
        lemma_length_tag_in_range(original);
    }
    let word = ckb_vm::instructions::set_instruction_length_n(parsed[0], n);
    if word == original {
        Ok(word)
    } else {
        Err(RoundTripError::Mismatch { original, parsed: word })
    }
}

/// Whether every register field that the display of `inst` names is in range.
pub fn registers_printable(inst: u64) -> (r: bool)
    ensures
        r == printable(inst),
{
    let rd = (inst >> 8u64) & 0xffu64;
    let rs1 = (inst >> 32u64) & 0xffu64;
    let rs2 = (inst >> 40u64) & 0xffu64;
    let rs3 = (inst >> 48u64) & 0xffu64;
    match tagged_format(inst) {
        Some(TaggedFormat::R) => rd < 32 && rs1 < 32 && rs2 < 32,
        Some(TaggedFormat::I) => rd < 32 && rs1 < 32,
        Some(TaggedFormat::S) => rd < 32 && rs1 < 32,
        Some(TaggedFormat::U) => rd < 32,
        Some(TaggedFormat::R4) => rd < 32 && rs1 < 32 && rs2 < 32 && rs3 < 32,
        None => true,
    }
}

/// Renders a decoded word to text, assembles the text and checks that it gives the
/// word back. A word whose register fields the display cannot name is `Unrenderable`.
pub fn round_trip(original: u64) -> (r: Result<u64, RoundTripError>)
    ensures
        r == round_trip_spec(original),
{
    if !registers_printable(original) {
        return Err(RoundTripError::Unrenderable);
    }
    match render(original) {
        None => Err(RoundTripError::Unrenderable),
        Some(text) => match assemble(text.as_str()) {
            None => Err(RoundTripError::Unparsable),
            Some(words) => check_parsed(original, words.as_slice()),
        },
    }
}

/// Where two machines run in lockstep first disagree.
#[derive(PartialEq, Eq, Structural, Debug, Clone, Copy)]
pub enum Divergence {
    Pc,
    Registers,
    ExitCode,
}

/// Compares the architectural state of two machines: pc, then registers, then exit code.
pub fn compare_states(
    pc1: u64,
    regs1: &[u64],
    exit1: i8,
    pc2: u64,
    regs2: &[u64],
    exit2: i8,
) -> (r: Result<(), Divergence>)
    ensures
        r == (if pc1 != pc2 {
            Err(Divergence::Pc)
        } else if regs1@ != regs2@ {
            Err(Divergence::Registers)
        } else if exit1 != exit2 {
            Err(Divergence::ExitCode)
        } else {
            Ok(())
        }),
{
    if pc1 != pc2 {
        return Err(Divergence::Pc);
    }
    if regs1.len() != regs2.len() {
        return Err(Divergence::Registers);
    }
    let mut i: usize = 0;
    while i < regs1.len()
        invariant
            0 <= i <= regs1@.len(),
            pc1 == pc2,
            regs1@.len() == regs2@.len(),
            forall|j: int| 0 <= j < i ==> regs1@[j] == regs2@[j],
        decreases regs1@.len() - i,
    {
        if regs1[i] != regs2[i] {
            assert(regs1@[i as int] != regs2@[i as int]);
            return Err(Divergence::Registers);
        }
        i = i + 1;
    }
    assert(regs1@ =~= regs2@);
    if exit1 != exit2 {
        return Err(Divergence::ExitCode);
    }
    Ok(())
}

/// The process status that a finished run ends with: none for exit code zero, the
/// guest's own code otherwise.
pub fn exit_status(code: i8) -> (r: Option<i32>)
    ensures
        r == (if code == 0 {
            None
        } else {
            Some(code as i32)
        }),
{
    if code == 0 {
        None
    } else {
        Some(code as i32)
    }
}

} // verus!
