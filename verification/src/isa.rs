//! The ISA table: the fixed mapping from opcode value to operation and
//! instruction size (1 + operand count), shared by the execution engine
//! and the disassembler.

use vstd::prelude::*;

verus! {

/// The 22 operations of the instruction set, in opcode order starting at 0.
#[derive(Clone, Copy, PartialEq, Eq, Structural, Debug)]
pub enum InstructionSet {
    HALT,
    SET,
    PUSH,
    POP,
    EQ,
    GT,
    JMP,
    JT,
    JF,
    ADD,
    MULT,
    MOD,
    AND,
    OR,
    NOT,
    RMEM,
    WMEM,
    CALL,
    RET,
    OUT,
    IN,
    NOOP,
}

/// How a call site was classified by the disassembler's control-flow walk.
#[derive(Clone, Copy, PartialEq, Eq, Structural, Debug)]
pub enum Type {
    StaticCall,
    DynamicCall,
    Unknown,
}

/// One decoded instruction: the operation, its total size in words, and the
/// call-site classification (meaningful only for CALL entries).
#[derive(Clone, Copy, Debug)]
pub struct Instruction {
    pub instr: InstructionSet,
    pub size: u16,
    pub typ: Type,
    pub expr: Option<&'static str>,
}

/// Size in words of an instruction: one word of opcode plus its operands.
pub open spec fn op_size(op: InstructionSet) -> u16 {
    match op {
        InstructionSet::HALT => 1,
        InstructionSet::RET => 1,
        InstructionSet::NOOP => 1,
        InstructionSet::PUSH => 2,
        InstructionSet::POP => 2,
        InstructionSet::JMP => 2,
        InstructionSet::CALL => 2,
        InstructionSet::OUT => 2,
        InstructionSet::IN => 2,
        InstructionSet::SET => 3,
        InstructionSet::JT => 3,
        InstructionSet::JF => 3,
        InstructionSet::NOT => 3,
        InstructionSet::RMEM => 3,
        InstructionSet::WMEM => 3,
        InstructionSet::EQ => 4,
        InstructionSet::GT => 4,
        InstructionSet::ADD => 4,
        InstructionSet::MULT => 4,
        InstructionSet::MOD => 4,
        InstructionSet::AND => 4,
        InstructionSet::OR => 4,
    }
}

/// The opcode table: word values 0 through 21 select an operation; any other
/// word is not an opcode.
pub open spec fn opcode_decode(w: u16) -> Option<InstructionSet> {
    if w == 0 {
        Some(InstructionSet::HALT)
    } else if w == 1 {
        Some(InstructionSet::SET)
    } else if w == 2 {
        Some(InstructionSet::PUSH)
    } else if w == 3 {
        Some(InstructionSet::POP)
    } else if w == 4 {
        Some(InstructionSet::EQ)
    } else if w == 5 {
        Some(InstructionSet::GT)
    } else if w == 6 {
        Some(InstructionSet::JMP)
    } else if w == 7 {
        Some(InstructionSet::JT)
    } else if w == 8 {
        Some(InstructionSet::JF)
    } else if w == 9 {
        Some(InstructionSet::ADD)
    } else if w == 10 {
        Some(InstructionSet::MULT)
    } else if w == 11 {
        Some(InstructionSet::MOD)
    } else if w == 12 {
        Some(InstructionSet::AND)
    } else if w == 13 {
        Some(InstructionSet::OR)
    } else if w == 14 {
        Some(InstructionSet::NOT)
    } else if w == 15 {
        Some(InstructionSet::RMEM)
    } else if w == 16 {
        Some(InstructionSet::WMEM)
    } else if w == 17 {
        Some(InstructionSet::CALL)
    } else if w == 18 {
        Some(InstructionSet::RET)
    } else if w == 19 {
        Some(InstructionSet::OUT)
    } else if w == 20 {
        Some(InstructionSet::IN)
    } else if w == 21 {
        Some(InstructionSet::NOOP)
    } else {
        None
    }
}

/// Executable form of the opcode table.
pub fn decode_opcode(w: u16) -> (r: Option<InstructionSet>)
    ensures
        r == opcode_decode(w),
{
    match w {
        0 => Some(InstructionSet::HALT),
        1 => Some(InstructionSet::SET),
        2 => Some(InstructionSet::PUSH),
        3 => Some(InstructionSet::POP),
        4 => Some(InstructionSet::EQ),
        5 => Some(InstructionSet::GT),
        6 => Some(InstructionSet::JMP),
        7 => Some(InstructionSet::JT),
        8 => Some(InstructionSet::JF),
        9 => Some(InstructionSet::ADD),
        10 => Some(InstructionSet::MULT),
        11 => Some(InstructionSet::MOD),
        12 => Some(InstructionSet::AND),
        13 => Some(InstructionSet::OR),
        14 => Some(InstructionSet::NOT),
        15 => Some(InstructionSet::RMEM),
        16 => Some(InstructionSet::WMEM),
        17 => Some(InstructionSet::CALL),
        18 => Some(InstructionSet::RET),
        19 => Some(InstructionSet::OUT),
        20 => Some(InstructionSet::IN),
        21 => Some(InstructionSet::NOOP),
        _ => None,
    }
}

impl Instruction {
    /// A fresh table entry for one operation: size comes from the ISA table,
    /// the classification starts out Unknown.
    pub fn new(instr: InstructionSet) -> (r: Instruction)
        ensures
            r.instr == instr,
            r.size == op_size(instr),
            r.typ == Type::Unknown,
            r.expr.is_none(),
    {
        let size: u16 = match instr {
            InstructionSet::HALT | InstructionSet::RET | InstructionSet::NOOP => 1,
            InstructionSet::PUSH
            | InstructionSet::POP
            | InstructionSet::JMP
            | InstructionSet::CALL
            | InstructionSet::OUT
            | InstructionSet::IN => 2,
            InstructionSet::SET
            | InstructionSet::JT
            | InstructionSet::JF
            | InstructionSet::NOT
            | InstructionSet::RMEM
            | InstructionSet::WMEM => 3,
            InstructionSet::EQ
            | InstructionSet::GT
            | InstructionSet::ADD
            | InstructionSet::MULT
            | InstructionSet::MOD
            | InstructionSet::AND
            | InstructionSet::OR => 4,
        };
        Instruction { instr, size, typ: Type::Unknown, expr: None }
    }
}

} // verus!
