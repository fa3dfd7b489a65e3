use vm16::executable::Executable;
use vm16::isa::{Instruction, InstructionSet, Type};

fn image(words: &[u16]) -> Vec<u8> {
    let mut b = Vec::new();
    for w in words {
        b.push((w & 0xff) as u8);
        b.push((w >> 8) as u8);
    }
    b
}

fn sweep(words: &[u16]) -> Executable {
    Executable::new(&image(words))
}

#[test]
fn sweep_records_straight_line_boundaries() {
    let exe = sweep(&[1, 100, 200, 21, 0]);
    let set = exe.instruction_at(0).unwrap();
    assert_eq!(set.instr, InstructionSet::SET);
    assert_eq!(set.size, 3);
    assert!(exe.instruction_at(1).is_none());
    assert!(exe.instruction_at(2).is_none());
    // re-decoding at 0 + size lands exactly on the next boundary
    assert_eq!(exe.instruction_at(3).unwrap().instr, InstructionSet::NOOP);
    assert_eq!(exe.instruction_at(4).unwrap().instr, InstructionSet::HALT);
    assert!(exe.instruction_at(5).is_none());
}

#[test]
fn sweep_skips_one_word_on_unknown_opcode() {
    let exe = sweep(&[999, 21, 0]);
    assert!(exe.instruction_at(0).is_none());
    assert_eq!(exe.instruction_at(1).unwrap().instr, InstructionSet::NOOP);
    assert_eq!(exe.instruction_at(2).unwrap().instr, InstructionSet::HALT);
}

#[test]
fn sweep_keeps_raw_words() {
    let exe = sweep(&[17, 3, 0, 18]);
    assert_eq!(exe.raw, vec![17u16, 3, 0, 18]);
}

#[test]
fn fresh_entries_are_unclassified() {
    let exe = sweep(&[17, 3, 0, 18]);
    assert_eq!(exe.instruction_at(0).unwrap().typ, Type::Unknown);
}

#[test]
fn call_reaching_ret_is_static() {
    let mut exe = sweep(&[17, 3, 0, 18]);
    exe.disassemble();
    assert_eq!(exe.instruction_at(0).unwrap().typ, Type::StaticCall);
}

#[test]
fn call_through_register_is_dynamic() {
    let mut exe = sweep(&[17, 0x8000, 0]);
    exe.disassemble();
    assert_eq!(exe.instruction_at(0).unwrap().typ, Type::DynamicCall);
}

#[test]
fn call_walk_off_the_map_stays_unknown() {
    // the walk from 3 passes the NOOP and leaves the recorded map
    let mut exe = sweep(&[17, 3, 0, 21]);
    exe.disassemble();
    assert_eq!(exe.instruction_at(0).unwrap().typ, Type::Unknown);
}

#[test]
fn call_into_data_stays_unknown() {
    // the target address was skipped by the sweep, so it is not in the map
    let mut exe = sweep(&[17, 2, 30000]);
    exe.disassemble();
    assert_eq!(exe.instruction_at(0).unwrap().typ, Type::Unknown);
}

#[test]
fn disassemble_leaves_non_calls_alone() {
    let mut exe = sweep(&[21, 18, 0]);
    exe.disassemble();
    assert_eq!(exe.instruction_at(0).unwrap().typ, Type::Unknown);
    assert_eq!(exe.instruction_at(1).unwrap().typ, Type::Unknown);
    assert_eq!(exe.instruction_at(2).unwrap().typ, Type::Unknown);
}

#[test]
fn walk_follows_sizes_to_ret() {
    let exe = sweep(&[21, 1, 100, 200, 18]);
    assert!(exe.disass_proc(0));
    // from 1: SET (size 3) then RET at 4
    assert!(exe.disass_proc(1));
    // 2 was swallowed by the SET, so it is not a recorded address
    assert!(!exe.disass_proc(2));
}

#[test]
fn instruction_sizes_follow_the_table() {
    assert_eq!(Instruction::new(InstructionSet::HALT).size, 1);
    assert_eq!(Instruction::new(InstructionSet::RET).size, 1);
    assert_eq!(Instruction::new(InstructionSet::NOOP).size, 1);
    assert_eq!(Instruction::new(InstructionSet::PUSH).size, 2);
    assert_eq!(Instruction::new(InstructionSet::CALL).size, 2);
    assert_eq!(Instruction::new(InstructionSet::SET).size, 3);
    assert_eq!(Instruction::new(InstructionSet::JT).size, 3);
    assert_eq!(Instruction::new(InstructionSet::WMEM).size, 3);
    assert_eq!(Instruction::new(InstructionSet::EQ).size, 4);
    assert_eq!(Instruction::new(InstructionSet::MULT).size, 4);
    assert_eq!(Instruction::new(InstructionSet::OR).size, 4);
}

#[test]
fn new_instruction_starts_unclassified() {
    let ins = Instruction::new(InstructionSet::CALL);
    assert_eq!(ins.instr, InstructionSet::CALL);
    assert_eq!(ins.typ, Type::Unknown);
    assert!(ins.expr.is_none());
}
