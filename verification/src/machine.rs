//! The execution engine: machine state, addressing-mode resolution, the
//! exact per-opcode semantics as a mathematical step function, and the
//! verified interpreter that implements it.
//!
//! Faults are atomic: a faulting instruction stops the machine (RunningFlag
//! cleared) and leaves every other field as it was, except that an IN
//! instruction commits its consumed input bytes (and an override's register 7
//! write) before the destination operand is validated, as the I/O protocol
//! consumes the stream first.

use vstd::prelude::*;

use crate::channel::{scan_in, InScan, IoChannel, IoSt};
use crate::image::{decode_image, words_of};
use crate::isa::{opcode_decode, InstructionSet};

verus! {

/// Words reserved past the program image so that every literal address
/// (0 through 32767) is a valid memory index.
pub const HEADROOM: usize = 0x8000;

/// The four unconditionally fatal conditions.
#[derive(Clone, Copy, PartialEq, Eq, Structural, Debug)]
pub enum Fault {
    StackUnderflow,
    DivideByZero,
    InvalidOperand,
    OutOfBounds,
}

/// What one step of the engine did.
#[derive(Clone, Copy, PartialEq, Eq, Structural, Debug)]
pub enum StepResult {
    /// The instruction completed and the machine is still running.
    Continue,
    /// A HALT instruction cleared the running flag.
    Halted,
    /// An IN instruction found the input buffer exhausted; nothing changed.
    NeedInput,
    /// An IN override sequence was not a 16-bit decimal number; nothing
    /// changed.
    BadInput,
    /// A fatal condition stopped the machine.
    Fault(Fault),
}

/// Why a run of the engine returned.
#[derive(Clone, Copy, PartialEq, Eq, Structural, Debug)]
pub enum RunStatus {
    /// The running flag is clear (HALT, a previous suspend, or a fault).
    Halted,
    /// The instruction pointer left the program bounds.
    OutOfProgram,
    NeedInput,
    BadInput,
    Fault(Fault),
    /// The step budget ran out first.
    OutOfFuel,
}

/// Mathematical machine state: the snapshot unit of the ISA.
pub ghost struct MState {
    pub ip: int,
    pub reg: Seq<u16>,
    pub stack: Seq<u16>,
    pub heap: Seq<u16>,
    pub progsize: int,
    pub running: bool,
}

/// Well-formedness: eight registers, and memory exactly as large as the
/// program image plus the reserved headroom.
pub open spec fn mwf(m: MState) -> bool {
    &&& m.reg.len() == 8
    &&& m.heap.len() == m.progsize + HEADROOM
    &&& 0 <= m.ip
    &&& 0 <= m.progsize
}

/// A word naming a value directly.
pub open spec fn is_lit(w: u16) -> bool {
    w < 0x8000
}

/// A word naming one of the eight registers.
pub open spec fn is_regref(w: u16) -> bool {
    0x8000 <= w && w < 0x8008
}

pub open spec fn reg_idx(w: u16) -> int {
    w - 0x8000
}

/// Addressing-mode resolution: a literal is its own value, a register
/// reference reads the register, anything else is invalid.
pub open spec fn resolve(m: MState, w: u16) -> Option<u16> {
    if is_lit(w) {
        Some(w)
    } else if is_regref(w) {
        Some(m.reg[reg_idx(w)])
    } else {
        None
    }
}

/// One step's outcome: machine state, channel state, and what happened.
pub ghost struct StepOut {
    pub m: MState,
    pub io: IoSt,
    pub r: StepResult,
}

/// The seven three-operand arithmetic/comparison operations.
pub open spec fn is_alu(op: InstructionSet) -> bool {
    ||| op == InstructionSet::EQ
    ||| op == InstructionSet::GT
    ||| op == InstructionSet::ADD
    ||| op == InstructionSet::MULT
    ||| op == InstructionSet::MOD
    ||| op == InstructionSet::AND
    ||| op == InstructionSet::OR
}

/// Result of an arithmetic/comparison operation on two resolved values:
/// equality and ordering yield 0 or 1, addition and multiplication wrap
/// modulo 32768, MOD by zero is fatal, AND/OR are bitwise.
pub open spec fn alu_op(op: InstructionSet, b: u16, c: u16) -> Result<u16, Fault> {
    match op {
        InstructionSet::EQ => Ok(if b == c { 1u16 } else { 0u16 }),
        InstructionSet::GT => Ok(if b > c { 1u16 } else { 0u16 }),
        InstructionSet::ADD => Ok(((b + c) % 0x8000) as u16),
        InstructionSet::MULT => Ok(((b * c) % 0x8000) as u16),
        InstructionSet::MOD => if c == 0 {
            Err(Fault::DivideByZero)
        } else {
            Ok((b % c) as u16)
        },
        InstructionSet::AND => Ok(b & c),
        InstructionSet::OR => Ok(b | c),
        _ => Err(Fault::InvalidOperand),
    }
}

/// SET a,b: the destination register takes the resolved source value.
pub open spec fn step_set(m: MState) -> (MState, StepResult) {
    let wa = m.heap[m.ip + 1];
    match resolve(m, m.heap[m.ip + 2]) {
        None => (MState { running: false, ..m }, StepResult::Fault(Fault::InvalidOperand)),
        Some(v) => if is_regref(wa) {
            (
                MState { ip: m.ip + 3, reg: m.reg.update(reg_idx(wa), v), ..m },
                StepResult::Continue,
            )
        } else {
            (MState { running: false, ..m }, StepResult::Fault(Fault::InvalidOperand))
        },
    }
}

/// PUSH a: the resolved value goes on the stack.
pub open spec fn step_push(m: MState) -> (MState, StepResult) {
    match resolve(m, m.heap[m.ip + 1]) {
        None => (MState { running: false, ..m }, StepResult::Fault(Fault::InvalidOperand)),
        Some(v) => (
            MState { ip: m.ip + 2, stack: m.stack.push(v), ..m },
            StepResult::Continue,
        ),
    }
}

/// POP a: the top of the stack moves into the destination register;
/// an empty stack is fatal.
pub open spec fn step_pop(m: MState) -> (MState, StepResult) {
    if m.stack.len() == 0 {
        (MState { running: false, ..m }, StepResult::Fault(Fault::StackUnderflow))
    } else {
        let wa = m.heap[m.ip + 1];
        if is_regref(wa) {
            (
                MState {
                    ip: m.ip + 2,
                    reg: m.reg.update(reg_idx(wa), m.stack.last()),
                    stack: m.stack.drop_last(),
                    ..m
                },
                StepResult::Continue,
            )
        } else {
            (MState { running: false, ..m }, StepResult::Fault(Fault::InvalidOperand))
        }
    }
}

/// EQ/GT/ADD/MULT/MOD/AND/OR a,b,c: both sources resolve, the operation
/// computes (MOD by zero is fatal), and the result lands in the destination
/// register.
pub open spec fn step_alu(m: MState, op: InstructionSet) -> (MState, StepResult) {
    let wa = m.heap[m.ip + 1];
    match (resolve(m, m.heap[m.ip + 2]), resolve(m, m.heap[m.ip + 3])) {
        (Some(b), Some(c)) => match alu_op(op, b, c) {
            Err(f) => (MState { running: false, ..m }, StepResult::Fault(f)),
            Ok(v) => if is_regref(wa) {
                (
                    MState { ip: m.ip + 4, reg: m.reg.update(reg_idx(wa), v), ..m },
                    StepResult::Continue,
                )
            } else {
                (MState { running: false, ..m }, StepResult::Fault(Fault::InvalidOperand))
            },
        },
        _ => (MState { running: false, ..m }, StepResult::Fault(Fault::InvalidOperand)),
    }
}

/// JMP a: the instruction pointer moves to the resolved target.
pub open spec fn step_jmp(m: MState) -> (MState, StepResult) {
    match resolve(m, m.heap[m.ip + 1]) {
        None => (MState { running: false, ..m }, StepResult::Fault(Fault::InvalidOperand)),
        Some(v) => (MState { ip: v as int, ..m }, StepResult::Continue),
    }
}

/// JT a,b: jump to the resolved target if the condition is non-zero,
/// else fall through to exactly ip + 3.  The target operand is only
/// resolved when the branch is taken.
pub open spec fn step_jt(m: MState) -> (MState, StepResult) {
    match resolve(m, m.heap[m.ip + 1]) {
        None => (MState { running: false, ..m }, StepResult::Fault(Fault::InvalidOperand)),
        Some(va) => if va != 0 {
            match resolve(m, m.heap[m.ip + 2]) {
                None => (MState { running: false, ..m }, StepResult::Fault(Fault::InvalidOperand)),
                Some(vb) => (MState { ip: vb as int, ..m }, StepResult::Continue),
            }
        } else {
            (MState { ip: m.ip + 3, ..m }, StepResult::Continue)
        },
    }
}

/// JF a,b: jump if the condition is zero, else fall through to ip + 3.
pub open spec fn step_jf(m: MState) -> (MState, StepResult) {
    match resolve(m, m.heap[m.ip + 1]) {
        None => (MState { running: false, ..m }, StepResult::Fault(Fault::InvalidOperand)),
        Some(va) => if va == 0 {
            match resolve(m, m.heap[m.ip + 2]) {
                None => (MState { running: false, ..m }, StepResult::Fault(Fault::InvalidOperand)),
                Some(vb) => (MState { ip: vb as int, ..m }, StepResult::Continue),
            }
        } else {
            (MState { ip: m.ip + 3, ..m }, StepResult::Continue)
        },
    }
}

/// NOT a,b: the destination register takes the 15-bit complement
/// 32767 XOR b of the resolved source value.
pub open spec fn step_not(m: MState) -> (MState, StepResult) {
    let wa = m.heap[m.ip + 1];
    match resolve(m, m.heap[m.ip + 2]) {
        None => (MState { running: false, ..m }, StepResult::Fault(Fault::InvalidOperand)),
        Some(b) => if is_regref(wa) {
            (
                MState { ip: m.ip + 3, reg: m.reg.update(reg_idx(wa), (0x7fff ^ b) as u16), ..m },
                StepResult::Continue,
            )
        } else {
            (MState { running: false, ..m }, StepResult::Fault(Fault::InvalidOperand))
        },
    }
}

/// RMEM a,b: the destination register takes the memory word at the resolved
/// address; an address past the end of memory is fatal.
pub open spec fn step_rmem(m: MState) -> (MState, StepResult) {
    let wa = m.heap[m.ip + 1];
    match resolve(m, m.heap[m.ip + 2]) {
        None => (MState { running: false, ..m }, StepResult::Fault(Fault::InvalidOperand)),
        Some(addr) => if addr as int >= m.heap.len() {
            (MState { running: false, ..m }, StepResult::Fault(Fault::OutOfBounds))
        } else if is_regref(wa) {
            (
                MState { ip: m.ip + 3, reg: m.reg.update(reg_idx(wa), m.heap[addr as int]), ..m },
                StepResult::Continue,
            )
        } else {
            (MState { running: false, ..m }, StepResult::Fault(Fault::InvalidOperand))
        },
    }
}

/// WMEM a,b: the memory word at the resolved address `a` takes the resolved
/// value `b`; an address past the end of memory is fatal.
pub open spec fn step_wmem(m: MState) -> (MState, StepResult) {
    match (resolve(m, m.heap[m.ip + 1]), resolve(m, m.heap[m.ip + 2])) {
        (Some(addr), Some(v)) => if addr as int >= m.heap.len() {
            (MState { running: false, ..m }, StepResult::Fault(Fault::OutOfBounds))
        } else {
            (
                MState { ip: m.ip + 3, heap: m.heap.update(addr as int, v), ..m },
                StepResult::Continue,
            )
        },
        _ => (MState { running: false, ..m }, StepResult::Fault(Fault::InvalidOperand)),
    }
}

/// CALL a: the address of the following instruction (ip + 2, as a 16-bit
/// word) goes on the stack and the instruction pointer moves to the target.
pub open spec fn step_call(m: MState) -> (MState, StepResult) {
    match resolve(m, m.heap[m.ip + 1]) {
        None => (MState { running: false, ..m }, StepResult::Fault(Fault::InvalidOperand)),
        Some(t) => (
            MState {
                ip: t as int,
                stack: m.stack.push(((m.ip + 2) % 0x10000) as u16),
                ..m
            },
            StepResult::Continue,
        ),
    }
}

/// RET: the instruction pointer returns to the popped address; an empty
/// stack is a terminal fault.
pub open spec fn step_ret(m: MState) -> (MState, StepResult) {
    if m.stack.len() == 0 {
        (MState { running: false, ..m }, StepResult::Fault(Fault::StackUnderflow))
    } else {
        (
            MState { ip: m.stack.last() as int, stack: m.stack.drop_last(), ..m },
            StepResult::Continue,
        )
    }
}

/// OUT a: the low 8 bits of the resolved value go to the output.
pub open spec fn step_out(m: MState, out: Seq<u8>) -> (MState, Seq<u8>, StepResult) {
    match resolve(m, m.heap[m.ip + 1]) {
        None => (MState { running: false, ..m }, out, StepResult::Fault(Fault::InvalidOperand)),
        Some(v) => (
            MState { ip: m.ip + 2, ..m },
            out.push((v % 256) as u8),
            StepResult::Continue,
        ),
    }
}

/// IN a: one protocol read from the input.  A plain byte goes to the
/// destination register; an override writes its value to register 7 first
/// and then delivers the byte after the closing delimiter.  Exhausted or
/// malformed input changes nothing.
pub open spec fn step_in(m: MState, inp: Seq<u8>, pos: int) -> (MState, int, StepResult) {
    let wa = m.heap[m.ip + 1];
    match scan_in(inp, pos) {
        InScan::NeedMore => (m, pos, StepResult::NeedInput),
        InScan::Malformed => (m, pos, StepResult::BadInput),
        InScan::Byte(b, p2) => if is_regref(wa) {
            (
                MState { ip: m.ip + 2, reg: m.reg.update(reg_idx(wa), b as u16), ..m },
                p2 as int,
                StepResult::Continue,
            )
        } else {
            (MState { running: false, ..m }, p2 as int, StepResult::Fault(Fault::InvalidOperand))
        },
        InScan::Override(v, b, p2) => {
            let m1 = MState { reg: m.reg.update(7, v), ..m };
            if is_regref(wa) {
                (
                    MState { ip: m1.ip + 2, reg: m1.reg.update(reg_idx(wa), b as u16), ..m1 },
                    p2 as int,
                    StepResult::Continue,
                )
            } else {
                (
                    MState { running: false, ..m1 },
                    p2 as int,
                    StepResult::Fault(Fault::InvalidOperand),
                )
            }
        },
    }
}

/// One step of the engine: fetch the opcode at the instruction pointer and
/// apply the operation's exact semantics.  A word that is not an opcode
/// changes nothing, so the engine spins on it until its step budget runs
/// out.
pub open spec fn spec_step(m: MState, io: IoSt) -> StepOut {
    match opcode_decode(m.heap[m.ip]) {
        None => StepOut { m, io, r: StepResult::Continue },
        Some(op) => match op {
            InstructionSet::HALT => StepOut {
                m: MState { running: false, ..m },
                io,
                r: StepResult::Halted,
            },
            InstructionSet::SET => {
                let (m2, r) = step_set(m);
                StepOut { m: m2, io, r }
            },
            InstructionSet::PUSH => {
                let (m2, r) = step_push(m);
                StepOut { m: m2, io, r }
            },
            InstructionSet::POP => {
                let (m2, r) = step_pop(m);
                StepOut { m: m2, io, r }
            },
            InstructionSet::JMP => {
                let (m2, r) = step_jmp(m);
                StepOut { m: m2, io, r }
            },
            InstructionSet::JT => {
                let (m2, r) = step_jt(m);
                StepOut { m: m2, io, r }
            },
            InstructionSet::JF => {
                let (m2, r) = step_jf(m);
                StepOut { m: m2, io, r }
            },
            InstructionSet::NOT => {
                let (m2, r) = step_not(m);
                StepOut { m: m2, io, r }
            },
            InstructionSet::RMEM => {
                let (m2, r) = step_rmem(m);
                StepOut { m: m2, io, r }
            },
            InstructionSet::WMEM => {
                let (m2, r) = step_wmem(m);
                StepOut { m: m2, io, r }
            },
            InstructionSet::CALL => {
                let (m2, r) = step_call(m);
                StepOut { m: m2, io, r }
            },
            InstructionSet::RET => {
                let (m2, r) = step_ret(m);
                StepOut { m: m2, io, r }
            },
            InstructionSet::OUT => {
                let (m2, out2, r) = step_out(m, io.out);
                StepOut { m: m2, io: IoSt { out: out2, ..io }, r }
            },
            InstructionSet::IN => {
                let (m2, pos2, r) = step_in(m, io.inp, io.pos);
                StepOut { m: m2, io: IoSt { pos: pos2, ..io }, r }
            },
            InstructionSet::NOOP => StepOut {
                m: MState { ip: m.ip + 1, ..m },
                io,
                r: StepResult::Continue,
            },
            _ => {
                let (m2, r) = step_alu(m, op);
                StepOut { m: m2, io, r }
            },
        },
    }
}

/// A run's outcome.
pub ghost struct RunOut {
    pub m: MState,
    pub io: IoSt,
    pub r: RunStatus,
}

/// The execution loop: step while the machine runs and the instruction
/// pointer is inside the program, up to `fuel` steps; stop early when input
/// is exhausted or malformed or a fault fires.
pub open spec fn spec_run(m: MState, io: IoSt, fuel: nat) -> RunOut
    decreases fuel,
{
    if !m.running {
        RunOut { m, io, r: RunStatus::Halted }
    } else if m.ip >= m.progsize {
        RunOut { m, io, r: RunStatus::OutOfProgram }
    } else if fuel == 0 {
        RunOut { m, io, r: RunStatus::OutOfFuel }
    } else {
        let s = spec_step(m, io);
        match s.r {
            StepResult::NeedInput => RunOut { m: s.m, io: s.io, r: RunStatus::NeedInput },
            StepResult::BadInput => RunOut { m: s.m, io: s.io, r: RunStatus::BadInput },
            StepResult::Fault(f) => RunOut { m: s.m, io: s.io, r: RunStatus::Fault(f) },
            _ => spec_run(s.m, s.io, (fuel - 1) as nat),
        }
    }
}

/// The virtual CPU: instruction pointer, eight registers, stack, memory,
/// program size, and the running flag.
pub struct VirtualMachine {
    pub ip: usize,
    pub reg: Vec<u16>,
    pub stack: Vec<u16>,
    pub heap: Vec<u16>,
    pub progsize: usize,
    pub running: bool,
}

impl View for VirtualMachine {
    type V = MState;

    open spec fn view(&self) -> MState {
        MState {
            ip: self.ip as int,
            reg: self.reg@,
            stack: self.stack@,
            heap: self.heap@,
            progsize: self.progsize as int,
            running: self.running,
        }
    }
}

impl VirtualMachine {
    pub open spec fn wf(self) -> bool {
        mwf(self@)
    }

    /// Boot a fresh machine over a program image: memory is the image's
    /// words followed by zeroed headroom, all registers zero, empty stack,
    /// instruction pointer at zero, running.
    pub fn new(bytes: &[u8]) -> (vm: VirtualMachine)
        requires
            bytes@.len() / 2 + HEADROOM <= usize::MAX,
        ensures
            vm.wf(),
            vm@.ip == 0,
            vm@.reg =~= seq![0u16, 0u16, 0u16, 0u16, 0u16, 0u16, 0u16, 0u16],
            vm@.stack =~= Seq::<u16>::empty(),
            vm@.heap == words_of(bytes@) + Seq::new(HEADROOM as nat, |i: int| 0u16),
            vm@.progsize == words_of(bytes@).len(),
            vm@.running,
    {
        let mut heap = decode_image(bytes);
        let progsize = heap.len();
        let mut k: usize = 0;
        while k < HEADROOM
            invariant
                k <= HEADROOM,
                progsize == words_of(bytes@).len(),
                progsize + HEADROOM <= usize::MAX,
                heap@ == words_of(bytes@) + Seq::new(k as nat, |i: int| 0u16),
            decreases HEADROOM - k,
        {
            heap.push(0u16);
            proof {
                assert(heap@ =~= words_of(bytes@) + Seq::new((k + 1) as nat, |i: int| 0u16));
            }
            k += 1;
        }
        let reg: Vec<u16> = vec![0u16, 0u16, 0u16, 0u16, 0u16, 0u16, 0u16, 0u16];
        VirtualMachine {
            ip: 0,
            reg,
            stack: Vec::new(),
            heap,
            progsize,
            running: true,
        }
    }

    /// Resolve the operand word at offset `k` past the instruction pointer.
    fn read_operand(&self, k: usize) -> (r: Option<u16>)
        requires
            self.wf(),
            self.ip + k < self@.heap.len(),
        ensures
            r == resolve(self@, self@.heap[self.ip + k]),
    {
        let n = self.heap.len();
        let w = self.heap[self.ip + k];
        if w < 0x8000 {
            Some(w)
        } else if w < 0x8008 {
            Some(self.reg[(w - 0x8000) as usize])
        } else {
            None
        }
    }

    /// Write a value through the operand word at offset `k`: the word must
    /// name a register.  Returns whether it did; on failure nothing changes.
    fn write_operand(&mut self, k: usize, val: u16) -> (ok: bool)
        requires
            old(self).wf(),
            old(self).ip + k < old(self)@.heap.len(),
        ensures
            final(self).wf(),
            ({
                let w = old(self)@.heap[old(self).ip + k];
                if is_regref(w) {
                    ok && final(self)@ == MState {
                        reg: old(self)@.reg.update(reg_idx(w), val),
                        ..old(self)@
                    }
                } else {
                    !ok && final(self)@ == old(self)@
                }
            }),
    {
        let n = self.heap.len();
        let w = self.heap[self.ip + k];
        if 0x8000 <= w && w < 0x8008 {
            self.reg.set((w - 0x8000) as usize, val);
            true
        } else {
            false
        }
    }

    /// Move the instruction pointer forward over the instruction just
    /// executed.
    fn advance(&mut self, d: usize)
        requires
            old(self).wf(),
            old(self).ip < old(self).progsize,
            d <= 4,
        ensures
            final(self)@ == (MState { ip: old(self)@.ip + d, ..old(self)@ }),
    {
        let n = self.heap.len();
        self.ip = self.ip + d;
    }

    fn op_set(&mut self) -> (r: StepResult)
        requires
            old(self).wf(),
            old(self).ip < old(self).progsize,
        ensures
            final(self).wf(),
            ({
                let t = step_set(old(self)@);
                final(self)@ == t.0 && r == t.1
            }),
    {
        match self.read_operand(2) {
            None => {
                self.running = false;
                StepResult::Fault(Fault::InvalidOperand)
            },
            Some(v) => {
                if self.write_operand(1, v) {
                    self.advance(3);
                    StepResult::Continue
                } else {
                    self.running = false;
                    StepResult::Fault(Fault::InvalidOperand)
                }
            },
        }
    }

    fn op_push(&mut self) -> (r: StepResult)
        requires
            old(self).wf(),
            old(self).ip < old(self).progsize,
        ensures
            final(self).wf(),
            ({
                let t = step_push(old(self)@);
                final(self)@ == t.0 && r == t.1
            }),
    {
        match self.read_operand(1) {
            None => {
                self.running = false;
                StepResult::Fault(Fault::InvalidOperand)
            },
            Some(v) => {
                self.stack.push(v);
                self.advance(2);
                StepResult::Continue
            },
        }
    }

    fn op_pop(&mut self) -> (r: StepResult)
        requires
            old(self).wf(),
            old(self).ip < old(self).progsize,
        ensures
            final(self).wf(),
            ({
                let t = step_pop(old(self)@);
                final(self)@ == t.0 && r == t.1
            }),
    {
        if self.stack.len() == 0 {
            self.running = false;
            return StepResult::Fault(Fault::StackUnderflow);
        }
        let v = self.stack[self.stack.len() - 1];
        if self.write_operand(1, v) {
            self.stack.pop();
            self.advance(2);
            proof {
                assert(self.stack@ =~= old(self).stack@.drop_last());
            }
            StepResult::Continue
        } else {
            self.running = false;
            StepResult::Fault(Fault::InvalidOperand)
        }
    }

    fn op_alu(&mut self, op: InstructionSet) -> (r: StepResult)
        requires
            old(self).wf(),
            old(self).ip < old(self).progsize,
            is_alu(op),
        ensures
            final(self).wf(),
            ({
                let t = step_alu(old(self)@, op);
                final(self)@ == t.0 && r == t.1
            }),
    {
        let b = self.read_operand(2);
        let c = self.read_operand(3);
        match (b, c) {
            (Some(b), Some(c)) => match alu_exec(op, b, c) {
                Err(f) => {
                    self.running = false;
                    StepResult::Fault(f)
                },
                Ok(v) => {
                    if self.write_operand(1, v) {
                        self.advance(4);
                        StepResult::Continue
                    } else {
                        self.running = false;
                        StepResult::Fault(Fault::InvalidOperand)
                    }
                },
            },
            _ => {
                self.running = false;
                StepResult::Fault(Fault::InvalidOperand)
            },
        }
    }

    fn op_jmp(&mut self) -> (r: StepResult)
        requires
            old(self).wf(),
            old(self).ip < old(self).progsize,
        ensures
            final(self).wf(),
            ({
                let t = step_jmp(old(self)@);
                final(self)@ == t.0 && r == t.1
            }),
    {
        match self.read_operand(1) {
            None => {
                self.running = false;
                StepResult::Fault(Fault::InvalidOperand)
            },
            Some(v) => {
                self.ip = v as usize;
                StepResult::Continue
            },
        }
    }

    fn op_jt(&mut self) -> (r: StepResult)
        requires
            old(self).wf(),
            old(self).ip < old(self).progsize,
        ensures
            final(self).wf(),
            ({
                let t = step_jt(old(self)@);
                final(self)@ == t.0 && r == t.1
            }),
    {
        match self.read_operand(1) {
            None => {
                self.running = false;
                StepResult::Fault(Fault::InvalidOperand)
            },
            Some(va) => {
                if va != 0 {
                    match self.read_operand(2) {
                        None => {
                            self.running = false;
                            StepResult::Fault(Fault::InvalidOperand)
                        },
                        Some(vb) => {
                            self.ip = vb as usize;
                            StepResult::Continue
                        },
                    }
                } else {
                    self.advance(3);
                    StepResult::Continue
                }
            },
        }
    }

    fn op_jf(&mut self) -> (r: StepResult)
        requires
            old(self).wf(),
            old(self).ip < old(self).progsize,
        ensures
            final(self).wf(),
            ({
                let t = step_jf(old(self)@);
                final(self)@ == t.0 && r == t.1
            }),
    {
        match self.read_operand(1) {
            None => {
                self.running = false;
                StepResult::Fault(Fault::InvalidOperand)
            },
            Some(va) => {
                if va == 0 {
                    match self.read_operand(2) {
                        None => {
                            self.running = false;
                            StepResult::Fault(Fault::InvalidOperand)
                        },
                        Some(vb) => {
                            self.ip = vb as usize;
                            StepResult::Continue
                        },
                    }
                } else {
                    self.advance(3);
                    StepResult::Continue
                }
            },
        }
    }

    fn op_not(&mut self) -> (r: StepResult)
        requires
            old(self).wf(),
            old(self).ip < old(self).progsize,
        ensures
            final(self).wf(),
            ({
                let t = step_not(old(self)@);
                final(self)@ == t.0 && r == t.1
            }),
    {
        match self.read_operand(2) {
            None => {
                self.running = false;
                StepResult::Fault(Fault::InvalidOperand)
            },
            Some(b) => {
                let v: u16 = 0x7fff ^ b;
                if self.write_operand(1, v) {
                    self.advance(3);
                    StepResult::Continue
                } else {
                    self.running = false;
                    StepResult::Fault(Fault::InvalidOperand)
                }
            },
        }
    }

    fn op_rmem(&mut self) -> (r: StepResult)
        requires
            old(self).wf(),
            old(self).ip < old(self).progsize,
        ensures
            final(self).wf(),
            ({
                let t = step_rmem(old(self)@);
                final(self)@ == t.0 && r == t.1
            }),
    {
        match self.read_operand(2) {
            None => {
                self.running = false;
                StepResult::Fault(Fault::InvalidOperand)
            },
            Some(addr) => {
                let n = self.heap.len();
                if addr as usize >= n {
                    self.running = false;
                    StepResult::Fault(Fault::OutOfBounds)
                } else {
                    let v = self.heap[addr as usize];
                    if self.write_operand(1, v) {
                        self.advance(3);
                        StepResult::Continue
                    } else {
                        self.running = false;
                        StepResult::Fault(Fault::InvalidOperand)
                    }
                }
            },
        }
    }

    fn op_wmem(&mut self) -> (r: StepResult)
        requires
            old(self).wf(),
            old(self).ip < old(self).progsize,
        ensures
            final(self).wf(),
            ({
                let t = step_wmem(old(self)@);
                final(self)@ == t.0 && r == t.1
            }),
    {
        let a = self.read_operand(1);
        let b = self.read_operand(2);
        match (a, b) {
            (Some(addr), Some(v)) => {
                let n = self.heap.len();
                if addr as usize >= n {
                    self.running = false;
                    StepResult::Fault(Fault::OutOfBounds)
                } else {
                    self.heap.set(addr as usize, v);
                    self.advance(3);
                    StepResult::Continue
                }
            },
            _ => {
                self.running = false;
                StepResult::Fault(Fault::InvalidOperand)
            },
        }
    }

    fn op_call(&mut self) -> (r: StepResult)
        requires
            old(self).wf(),
            old(self).ip < old(self).progsize,
        ensures
            final(self).wf(),
            ({
                let t = step_call(old(self)@);
                final(self)@ == t.0 && r == t.1
            }),
    {
        match self.read_operand(1) {
            None => {
                self.running = false;
                StepResult::Fault(Fault::InvalidOperand)
            },
            Some(t) => {
                let n = self.heap.len();
                let ret: u16 = ((self.ip + 2) % 0x10000) as u16;
                self.stack.push(ret);
                self.ip = t as usize;
                StepResult::Continue
            },
        }
    }

    fn op_ret(&mut self) -> (r: StepResult)
        requires
            old(self).wf(),
            old(self).ip < old(self).progsize,
        ensures
            final(self).wf(),
            ({
                let t = step_ret(old(self)@);
                final(self)@ == t.0 && r == t.1
            }),
    {
        if self.stack.len() == 0 {
            self.running = false;
            StepResult::Fault(Fault::StackUnderflow)
        } else {
            let v = self.stack[self.stack.len() - 1];
            self.stack.pop();
            self.ip = v as usize;
            proof {
                assert(self.stack@ =~= old(self).stack@.drop_last());
            }
            StepResult::Continue
        }
    }

    fn op_out(&mut self, io: &mut IoChannel) -> (r: StepResult)
        requires
            old(self).wf(),
            old(self).ip < old(self).progsize,
            old(io).wf(),
        ensures
            final(self).wf(),
            final(io).wf(),
            ({
                let t = step_out(old(self)@, old(io)@.out);
                final(self)@ == t.0 && final(io)@ == (IoSt { out: t.1, ..old(io)@ }) && r == t.2
            }),
    {
        match self.read_operand(1) {
            None => {
                self.running = false;
                StepResult::Fault(Fault::InvalidOperand)
            },
            Some(v) => {
                io.output.push((v % 256) as u8);
                self.advance(2);
                StepResult::Continue
            },
        }
    }

    fn op_in(&mut self, io: &mut IoChannel) -> (r: StepResult)
        requires
            old(self).wf(),
            old(self).ip < old(self).progsize,
            old(io).wf(),
        ensures
            final(self).wf(),
            final(io).wf(),
            ({
                let t = step_in(old(self)@, old(io)@.inp, old(io)@.pos);
                final(self)@ == t.0 && final(io)@ == (IoSt { pos: t.1, ..old(io)@ }) && r == t.2
            }),
    {
        match io.scan_input() {
            InScan::NeedMore => StepResult::NeedInput,
            InScan::Malformed => StepResult::BadInput,
            InScan::Byte(b, p2) => {
                io.pos = p2;
                if self.write_operand(1, b as u16) {
                    self.advance(2);
                    StepResult::Continue
                } else {
                    self.running = false;
                    StepResult::Fault(Fault::InvalidOperand)
                }
            },
            InScan::Override(v, b, p2) => {
                io.pos = p2;
                self.reg.set(7, v);
                if self.write_operand(1, b as u16) {
                    self.advance(2);
                    StepResult::Continue
                } else {
                    self.running = false;
                    StepResult::Fault(Fault::InvalidOperand)
                }
            },
        }
    }

    /// Execute the instruction at the instruction pointer, exactly as
    /// `spec_step` describes.
    pub fn step(&mut self, io: &mut IoChannel) -> (r: StepResult)
        requires
            old(self).wf(),
            old(self).running,
            old(self).ip < old(self).progsize,
            old(io).wf(),
        ensures
            final(self).wf(),
            final(io).wf(),
            ({
                let s = spec_step(old(self)@, old(io)@);
                final(self)@ == s.m && final(io)@ == s.io && r == s.r
            }),
    {
        let n = self.heap.len();
        let op = self.heap[self.ip];
        match op {
            0 => {
                self.running = false;
                StepResult::Halted
            },
            1 => self.op_set(),
            2 => self.op_push(),
            3 => self.op_pop(),
            4 => self.op_alu(InstructionSet::EQ),
            5 => self.op_alu(InstructionSet::GT),
            6 => self.op_jmp(),
            7 => self.op_jt(),
            8 => self.op_jf(),
            9 => self.op_alu(InstructionSet::ADD),
            10 => self.op_alu(InstructionSet::MULT),
            11 => self.op_alu(InstructionSet::MOD),
            12 => self.op_alu(InstructionSet::AND),
            13 => self.op_alu(InstructionSet::OR),
            14 => self.op_not(),
            15 => self.op_rmem(),
            16 => self.op_wmem(),
            17 => self.op_call(),
            18 => self.op_ret(),
            19 => self.op_out(io),
            20 => self.op_in(io),
            21 => {
                self.advance(1);
                StepResult::Continue
            },
            _ => StepResult::Continue,
        }
    }

    /// Run the machine for at most `fuel` steps, exactly as `spec_run`
    /// describes: until it halts, the instruction pointer leaves the
    /// program, input runs out or is malformed, a fault fires, or the
    /// budget is exhausted.
    #[verifier::loop_isolation(false)]
    pub fn run(&mut self, io: &mut IoChannel, fuel: usize) -> (r: RunStatus)
        requires
            old(self).wf(),
            old(io).wf(),
        ensures
            final(self).wf(),
            final(io).wf(),
            ({
                let t = spec_run(old(self)@, old(io)@, fuel as nat);
                final(self)@ == t.m && final(io)@ == t.io && r == t.r
            }),
    {
        let ghost m0 = self@;
        let ghost io0 = io@;
        let ghost f0 = fuel as nat;
        let mut remaining: usize = fuel;
        while self.running && self.ip < self.progsize
            invariant
                self.wf(),
                io.wf(),
                spec_run(m0, io0, f0) == spec_run(self@, io@, remaining as nat),
            decreases remaining,
        {
            if remaining == 0 {
                return RunStatus::OutOfFuel;
            }
            let ghost pre_m = self@;
            let ghost pre_io = io@;
            let ghost pre_fuel = remaining as nat;
            let r = self.step(io);
            remaining = remaining - 1;
            proof {
                assert(spec_run(pre_m, pre_io, pre_fuel) == match spec_step(pre_m, pre_io).r {
                    StepResult::NeedInput => RunOut {
                        m: self@,
                        io: io@,
                        r: RunStatus::NeedInput,
                    },
                    StepResult::BadInput => RunOut { m: self@, io: io@, r: RunStatus::BadInput },
                    StepResult::Fault(f) => RunOut { m: self@, io: io@, r: RunStatus::Fault(f) },
                    _ => spec_run(self@, io@, remaining as nat),
                });
            }
            match r {
                StepResult::NeedInput => {
                    return RunStatus::NeedInput;
                },
                StepResult::BadInput => {
                    return RunStatus::BadInput;
                },
                StepResult::Fault(f) => {
                    return RunStatus::Fault(f);
                },
                _ => {},
            }
        }
        if !self.running {
            RunStatus::Halted
        } else {
            RunStatus::OutOfProgram
        }
    }
}

/// NOT is the 15-bit complement: for every value b the source operand
/// resolves to, the destination register afterwards holds 32767 XOR b, and
/// the instruction pointer advances by 3.
pub proof fn lemma_not_law(m: MState, io: IoSt)
    requires
        mwf(m),
        m.ip + 2 < m.heap.len(),
        opcode_decode(m.heap[m.ip]) == Some(InstructionSet::NOT),
        is_regref(m.heap[m.ip + 1]),
        resolve(m, m.heap[m.ip + 2]).is_some(),
    ensures
        ({
            let b = resolve(m, m.heap[m.ip + 2]).unwrap();
            let s = spec_step(m, io);
            &&& s.m.reg[reg_idx(m.heap[m.ip + 1])] == (0x7fff ^ b)
            &&& s.m.ip == m.ip + 3
            &&& s.r == StepResult::Continue
        }),
{
}

/// ADD wraps modulo 32768: the destination register receives exactly
/// (b + c) mod 32768 for the resolved operand values b and c.
pub proof fn lemma_add_law(m: MState, io: IoSt)
    requires
        mwf(m),
        m.ip + 3 < m.heap.len(),
        opcode_decode(m.heap[m.ip]) == Some(InstructionSet::ADD),
        is_regref(m.heap[m.ip + 1]),
        resolve(m, m.heap[m.ip + 2]).is_some(),
        resolve(m, m.heap[m.ip + 3]).is_some(),
    ensures
        ({
            let b = resolve(m, m.heap[m.ip + 2]).unwrap();
            let c = resolve(m, m.heap[m.ip + 3]).unwrap();
            let s = spec_step(m, io);
            &&& s.m.reg[reg_idx(m.heap[m.ip + 1])] == (b + c) % 0x8000
            &&& s.m.ip == m.ip + 4
            &&& s.r == StepResult::Continue
        }),
{
}

/// MULT wraps modulo 32768: the destination register receives exactly the
/// mathematical product (b * c) mod 32768 for the resolved operand values.
pub proof fn lemma_mult_law(m: MState, io: IoSt)
    requires
        mwf(m),
        m.ip + 3 < m.heap.len(),
        opcode_decode(m.heap[m.ip]) == Some(InstructionSet::MULT),
        is_regref(m.heap[m.ip + 1]),
        resolve(m, m.heap[m.ip + 2]).is_some(),
        resolve(m, m.heap[m.ip + 3]).is_some(),
    ensures
        ({
            let b = resolve(m, m.heap[m.ip + 2]).unwrap();
            let c = resolve(m, m.heap[m.ip + 3]).unwrap();
            let s = spec_step(m, io);
            &&& s.m.reg[reg_idx(m.heap[m.ip + 1])] == (b * c) % 0x8000
            &&& s.m.ip == m.ip + 4
            &&& s.r == StepResult::Continue
        }),
{
}

/// A JT whose condition resolves to zero falls through to exactly the
/// pre-instruction ip + 3, touching nothing else.
pub proof fn lemma_jt_fall_through(m: MState, io: IoSt)
    requires
        mwf(m),
        m.ip + 2 < m.heap.len(),
        opcode_decode(m.heap[m.ip]) == Some(InstructionSet::JT),
        resolve(m, m.heap[m.ip + 1]) == Some(0u16),
    ensures
        spec_step(m, io).m == (MState { ip: m.ip + 3, ..m }),
        spec_step(m, io).io == io,
        spec_step(m, io).r == StepResult::Continue,
{
}

/// A JF whose condition resolves non-zero falls through to exactly the
/// pre-instruction ip + 3, touching nothing else.
pub proof fn lemma_jf_fall_through(m: MState, io: IoSt, va: u16)
    requires
        mwf(m),
        m.ip + 2 < m.heap.len(),
        opcode_decode(m.heap[m.ip]) == Some(InstructionSet::JF),
        resolve(m, m.heap[m.ip + 1]) == Some(va),
        va != 0,
    ensures
        spec_step(m, io).m == (MState { ip: m.ip + 3, ..m }),
        spec_step(m, io).io == io,
        spec_step(m, io).r == StepResult::Continue,
{
}

/// Executable arithmetic/comparison table, matching `alu_op` exactly.
fn alu_exec(op: InstructionSet, b: u16, c: u16) -> (r: Result<u16, Fault>)
    ensures
        r == alu_op(op, b, c),
{
    match op {
        InstructionSet::EQ => Ok(if b == c { 1u16 } else { 0u16 }),
        InstructionSet::GT => Ok(if b > c { 1u16 } else { 0u16 }),
        InstructionSet::ADD => Ok((((b as u32) + (c as u32)) % 0x8000) as u16),
        InstructionSet::MULT => {
            proof {
                assert((b as int) * (c as int) <= 65535 * 65535) by (nonlinear_arith)
                    requires
                        b <= 65535,
                        c <= 65535,
                ;
            }
            Ok((((b as u64) * (c as u64)) % 0x8000) as u16)
        },
        InstructionSet::MOD => if c == 0 {
            Err(Fault::DivideByZero)
        } else {
            Ok(b % c)
        },
        InstructionSet::AND => Ok(b & c),
        InstructionSet::OR => Ok(b | c),
        _ => Err(Fault::InvalidOperand),
    }
}

} // verus!

