use vm16::channel::IoChannel;
use vm16::machine::{Fault, RunStatus, StepResult, VirtualMachine};

fn image(words: &[u16]) -> Vec<u8> {
    let mut b = Vec::new();
    for w in words {
        b.push((w & 0xff) as u8);
        b.push((w >> 8) as u8);
    }
    b
}

fn boot(words: &[u16]) -> VirtualMachine {
    VirtualMachine::new(&image(words))
}

fn io_empty() -> IoChannel {
    IoChannel::new(Vec::new())
}

#[test]
fn noop_halt_visits_each_address() {
    let mut vm = boot(&[21, 21, 21, 0]);
    let mut io = io_empty();
    assert_eq!(vm.ip, 0);
    vm.step(&mut io);
    assert_eq!(vm.ip, 1);
    vm.step(&mut io);
    assert_eq!(vm.ip, 2);
    vm.step(&mut io);
    assert_eq!(vm.ip, 3);
    let r = vm.step(&mut io);
    assert_eq!(r, StepResult::Halted);
    assert_eq!(vm.ip, 3);
    assert!(!vm.running);
}

#[test]
fn run_noops_then_halt() {
    let mut vm = boot(&[21, 21, 21, 0]);
    let mut io = io_empty();
    let r = vm.run(&mut io, 100);
    assert_eq!(r, RunStatus::Halted);
    assert_eq!(vm.ip, 3);
    assert!(!vm.running);
}

#[test]
fn set_out_halt_emits_one_byte() {
    let mut vm = boot(&[1, 0x8000, 4, 19, 0x8000, 0]);
    let mut io = io_empty();
    let r = vm.run(&mut io, 100);
    assert_eq!(r, RunStatus::Halted);
    assert_eq!(io.output, vec![4u8]);
    assert_eq!(vm.reg[0], 4);
}

#[test]
fn add_wraps_modulo_32768() {
    let mut vm = boot(&[9, 0x8000, 32767, 1, 0]);
    let mut io = io_empty();
    vm.run(&mut io, 10);
    assert_eq!(vm.reg[0], 0);
}

#[test]
fn mult_wraps_modulo_32768() {
    let mut vm = boot(&[10, 0x8000, 16384, 3, 0]);
    let mut io = io_empty();
    vm.run(&mut io, 10);
    assert_eq!(vm.reg[0], 16384);
}

#[test]
fn not_is_fifteen_bit_complement() {
    let mut vm = boot(&[14, 0x8000, 0, 14, 0x8001, 32767, 0]);
    let mut io = io_empty();
    vm.run(&mut io, 10);
    assert_eq!(vm.reg[0], 32767);
    assert_eq!(vm.reg[1], 0);
}

#[test]
fn jt_false_branch_lands_at_ip_plus_3() {
    let mut vm = boot(&[7, 0, 9]);
    let mut io = io_empty();
    let r = vm.run(&mut io, 10);
    assert_eq!(vm.ip, 3);
    assert_eq!(r, RunStatus::OutOfProgram);
}

#[test]
fn jf_false_branch_lands_at_ip_plus_3() {
    let mut vm = boot(&[8, 1, 9]);
    let mut io = io_empty();
    let r = vm.run(&mut io, 10);
    assert_eq!(vm.ip, 3);
    assert_eq!(r, RunStatus::OutOfProgram);
}

#[test]
fn jt_taken_jumps_to_target() {
    let mut vm = boot(&[7, 1, 4, 0, 21]);
    let mut io = io_empty();
    let r = vm.run(&mut io, 10);
    assert_eq!(vm.ip, 5);
    assert_eq!(r, RunStatus::OutOfProgram);
}

#[test]
fn jmp_moves_ip() {
    let mut vm = boot(&[6, 2, 21]);
    let mut io = io_empty();
    let r = vm.run(&mut io, 10);
    assert_eq!(vm.ip, 3);
    assert_eq!(r, RunStatus::OutOfProgram);
}

#[test]
fn in_override_sets_register_7_and_delivers_next_byte() {
    let mut vm = boot(&[20, 0x8000, 0]);
    let mut io = IoChannel::new(b"|1234|X".to_vec());
    let r = vm.run(&mut io, 10);
    assert_eq!(r, RunStatus::Halted);
    assert_eq!(vm.reg[7], 1234);
    assert_eq!(vm.reg[0], 'X' as u16);
    // exactly the bytes |1234| were consumed before X was read
    assert_eq!(io.pos, 7);
}

#[test]
fn in_plain_byte_goes_to_destination() {
    let mut vm = boot(&[20, 0x8003, 0]);
    let mut io = IoChannel::new(b"A".to_vec());
    let r = vm.run(&mut io, 10);
    assert_eq!(r, RunStatus::Halted);
    assert_eq!(vm.reg[3], 65);
    assert_eq!(vm.reg[7], 0);
    assert_eq!(io.pos, 1);
}

#[test]
fn in_on_empty_input_wants_more() {
    let mut vm = boot(&[20, 0x8000, 0]);
    let mut io = io_empty();
    let r = vm.run(&mut io, 10);
    assert_eq!(r, RunStatus::NeedInput);
    assert_eq!(vm.ip, 0);
    io.extend_input(b"Z");
    let r2 = vm.run(&mut io, 10);
    assert_eq!(r2, RunStatus::Halted);
    assert_eq!(vm.reg[0], 90);
}

#[test]
fn in_partial_override_wants_more() {
    let mut vm = boot(&[20, 0x8000, 0]);
    let mut io = IoChannel::new(b"|123".to_vec());
    let r = vm.run(&mut io, 10);
    assert_eq!(r, RunStatus::NeedInput);
    assert_eq!(io.pos, 0);
}

#[test]
fn in_override_with_non_digit_is_bad_input() {
    let mut vm = boot(&[20, 0x8000, 0]);
    let mut io = IoChannel::new(b"|12a4|X".to_vec());
    let r = vm.run(&mut io, 10);
    assert_eq!(r, RunStatus::BadInput);
}

#[test]
fn in_override_with_empty_digits_is_bad_input() {
    let mut vm = boot(&[20, 0x8000, 0]);
    let mut io = IoChannel::new(b"||X".to_vec());
    let r = vm.run(&mut io, 10);
    assert_eq!(r, RunStatus::BadInput);
}

#[test]
fn in_override_too_large_is_bad_input() {
    let mut vm = boot(&[20, 0x8000, 0]);
    let mut io = IoChannel::new(b"|70000|X".to_vec());
    let r = vm.run(&mut io, 10);
    assert_eq!(r, RunStatus::BadInput);
}

#[test]
fn mod_by_zero_faults() {
    let mut vm = boot(&[11, 0x8000, 5, 0, 0]);
    let mut io = io_empty();
    let r = vm.run(&mut io, 10);
    assert_eq!(r, RunStatus::Fault(Fault::DivideByZero));
    assert!(!vm.running);
}

#[test]
fn mod_computes_remainder() {
    let mut vm = boot(&[11, 0x8000, 7, 3, 0]);
    let mut io = io_empty();
    vm.run(&mut io, 10);
    assert_eq!(vm.reg[0], 1);
}

#[test]
fn pop_on_empty_stack_faults() {
    let mut vm = boot(&[3, 0x8000]);
    let mut io = io_empty();
    let r = vm.run(&mut io, 10);
    assert_eq!(r, RunStatus::Fault(Fault::StackUnderflow));
}

#[test]
fn ret_on_empty_stack_faults() {
    let mut vm = boot(&[18]);
    let mut io = io_empty();
    let r = vm.run(&mut io, 10);
    assert_eq!(r, RunStatus::Fault(Fault::StackUnderflow));
}

#[test]
fn literal_destination_operand_faults() {
    let mut vm = boot(&[1, 5, 7]);
    let mut io = io_empty();
    let r = vm.run(&mut io, 10);
    assert_eq!(r, RunStatus::Fault(Fault::InvalidOperand));
}

#[test]
fn operand_word_past_register_range_faults() {
    let mut vm = boot(&[2, 0x8008]);
    let mut io = io_empty();
    let r = vm.run(&mut io, 10);
    assert_eq!(r, RunStatus::Fault(Fault::InvalidOperand));
}

#[test]
fn rmem_past_memory_end_faults() {
    // First RMEM loads 0xffff from the image into a register; the second
    // uses that register as an address far past the allocated memory.
    let mut vm = boot(&[15, 0x8000, 6, 15, 0x8001, 0x8000, 0xffff]);
    let mut io = io_empty();
    let r = vm.run(&mut io, 10);
    assert_eq!(vm.reg[0], 0xffff);
    assert_eq!(r, RunStatus::Fault(Fault::OutOfBounds));
}

#[test]
fn wmem_then_rmem_round_trips_through_memory() {
    let mut vm = boot(&[16, 7, 42, 15, 0x8000, 7, 0, 99]);
    let mut io = io_empty();
    let r = vm.run(&mut io, 10);
    assert_eq!(r, RunStatus::Halted);
    assert_eq!(vm.reg[0], 42);
    assert_eq!(vm.heap[7], 42);
}

#[test]
fn eq_gt_write_one_or_zero() {
    let mut vm = boot(&[4, 0x8000, 5, 5, 5, 0x8001, 7, 3, 0]);
    let mut io = io_empty();
    vm.run(&mut io, 10);
    assert_eq!(vm.reg[0], 1);
    assert_eq!(vm.reg[1], 1);
    let mut vm2 = boot(&[4, 0x8000, 5, 6, 5, 0x8001, 3, 7, 0]);
    let mut io2 = io_empty();
    vm2.run(&mut io2, 10);
    assert_eq!(vm2.reg[0], 0);
    assert_eq!(vm2.reg[1], 0);
}

#[test]
fn and_or_are_bitwise() {
    let mut vm = boot(&[12, 0x8000, 12, 10, 13, 0x8001, 12, 10, 0]);
    let mut io = io_empty();
    vm.run(&mut io, 10);
    assert_eq!(vm.reg[0], 8);
    assert_eq!(vm.reg[1], 14);
}

#[test]
fn push_pop_move_through_stack() {
    let mut vm = boot(&[2, 5, 3, 0x8000, 0]);
    let mut io = io_empty();
    let r = vm.run(&mut io, 10);
    assert_eq!(r, RunStatus::Halted);
    assert_eq!(vm.reg[0], 5);
    assert!(vm.stack.is_empty());
}

#[test]
fn call_pushes_return_address_and_ret_pops_it() {
    let mut vm = boot(&[17, 3, 0, 18]);
    let mut io = io_empty();
    vm.step(&mut io);
    assert_eq!(vm.ip, 3);
    assert_eq!(vm.stack, vec![2u16]);
    vm.step(&mut io);
    assert_eq!(vm.ip, 2);
    assert!(vm.stack.is_empty());
    let r = vm.step(&mut io);
    assert_eq!(r, StepResult::Halted);
}

#[test]
fn out_writes_low_eight_bits() {
    let mut vm = boot(&[19, 260, 0]);
    let mut io = io_empty();
    vm.run(&mut io, 10);
    assert_eq!(io.output, vec![4u8]);
}

#[test]
fn infinite_loop_runs_out_of_fuel() {
    let mut vm = boot(&[6, 0]);
    let mut io = io_empty();
    let r = vm.run(&mut io, 10);
    assert_eq!(r, RunStatus::OutOfFuel);
    assert!(vm.running);
}

#[test]
fn unknown_opcode_spins_in_place() {
    let mut vm = boot(&[99]);
    let mut io = io_empty();
    let r = vm.run(&mut io, 5);
    assert_eq!(r, RunStatus::OutOfFuel);
    assert_eq!(vm.ip, 0);
}

#[test]
fn boot_lays_out_memory_with_headroom() {
    let vm = boot(&[21, 0]);
    assert_eq!(vm.progsize, 2);
    assert_eq!(vm.heap.len(), 2 + 0x8000);
    assert_eq!(vm.heap[0], 21);
    assert_eq!(vm.heap[1], 0);
    assert_eq!(vm.heap[2], 0);
    assert_eq!(vm.reg, vec![0u16; 8]);
    assert!(vm.stack.is_empty());
    assert!(vm.running);
}

#[test]
fn odd_trailing_byte_is_dropped() {
    let vm = VirtualMachine::new(&[21, 0, 7]);
    assert_eq!(vm.progsize, 1);
    assert_eq!(vm.heap[0], 21);
}

#[test]
fn wmem_past_memory_end_faults() {
    // load 0xffff from the image into a register, then use it as the
    // write address
    let mut vm = boot(&[15, 0x8000, 6, 16, 0x8000, 1, 0xffff]);
    let mut io = io_empty();
    let r = vm.run(&mut io, 10);
    assert_eq!(r, RunStatus::Fault(Fault::OutOfBounds));
}

#[test]
fn in_override_to_register_7_lets_the_byte_win() {
    // the override writes register 7 first; the delivered byte lands in the
    // destination afterwards, even when that destination is register 7
    let mut vm = boot(&[20, 0x8007, 0]);
    let mut io = IoChannel::new(b"|5|A".to_vec());
    let r = vm.run(&mut io, 10);
    assert_eq!(r, RunStatus::Halted);
    assert_eq!(vm.reg[7], 65);
}
