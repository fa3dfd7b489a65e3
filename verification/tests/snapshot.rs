use vm16::channel::IoChannel;
use vm16::machine::{RunStatus, VirtualMachine};

fn image(words: &[u16]) -> Vec<u8> {
    let mut b = Vec::new();
    for w in words {
        b.push((w & 0xff) as u8);
        b.push((w >> 8) as u8);
    }
    b
}

#[test]
fn save_forces_running_flag_clear() {
    let mut vm = VirtualMachine::new(&image(&[21, 0]));
    assert!(vm.running);
    vm.save();
    assert!(!vm.running);
}

#[test]
fn save_then_load_reproduces_every_field() {
    let mut vm = VirtualMachine::new(&image(&[2, 5, 21, 0]));
    let mut io = IoChannel::new(Vec::new());
    // execute the PUSH so that the stack is non-trivial
    vm.step(&mut io);
    assert_eq!(vm.stack, vec![5u16]);
    let bytes = vm.save();
    let vm2 = VirtualMachine::load(&bytes).unwrap();
    assert_eq!(vm2.ip, vm.ip);
    assert_eq!(vm2.reg, vm.reg);
    assert_eq!(vm2.stack, vm.stack);
    assert_eq!(vm2.heap, vm.heap);
    assert_eq!(vm2.progsize, vm.progsize);
    // resuming sets the flag again, while the saved machine stays stopped
    assert!(vm2.running);
    assert!(!vm.running);
}

#[test]
fn resumed_run_is_observationally_identical() {
    let words = [1u16, 0x8000, 4, 19, 0x8000, 0];
    // uninterrupted execution
    let mut straight = VirtualMachine::new(&image(&words));
    let mut io_a = IoChannel::new(Vec::new());
    let r = straight.run(&mut io_a, 100);
    assert_eq!(r, RunStatus::Halted);
    assert_eq!(io_a.output, vec![4u8]);
    // suspend after one step, then resume from the snapshot
    let mut first = VirtualMachine::new(&image(&words));
    let mut io_b = IoChannel::new(Vec::new());
    first.step(&mut io_b);
    let snap = first.save();
    let mut second = VirtualMachine::load(&snap).unwrap();
    let r2 = second.run(&mut io_b, 100);
    assert_eq!(r2, RunStatus::Halted);
    assert_eq!(io_b.output, vec![4u8]);
    assert_eq!(second.ip, straight.ip);
    assert_eq!(second.reg, straight.reg);
    assert_eq!(second.stack, straight.stack);
    assert_eq!(second.heap, straight.heap);
    assert_eq!(second.progsize, straight.progsize);
}

#[test]
fn load_rejects_bytes_that_are_not_a_snapshot() {
    assert!(VirtualMachine::load(&[]).is_none());
    assert!(VirtualMachine::load(&[0u8; 48]).is_none());
    let mut vm = VirtualMachine::new(&image(&[21, 0]));
    let mut bytes = vm.save();
    bytes.pop();
    assert!(VirtualMachine::load(&bytes).is_none());
}

#[test]
fn load_rejects_a_bad_running_byte() {
    let mut vm = VirtualMachine::new(&image(&[21, 0]));
    let mut bytes = vm.save();
    let last = bytes.len() - 1;
    bytes[last] = 2;
    assert!(VirtualMachine::load(&bytes).is_none());
}

#[test]
fn snapshot_layout_is_stable() {
    let mut vm = VirtualMachine::new(&image(&[21, 0]));
    let bytes = vm.save();
    // ip(8) + regs(16) + stack len(8) + heap len(8) + heap(2 * (2 + 0x8000))
    // + progsize(8) + flag(1)
    assert_eq!(bytes.len(), 49 + 2 * (2 + 0x8000));
    assert_eq!(bytes[0], 0); // ip low byte
    assert_eq!(bytes[24], 0); // empty stack
    assert_eq!(bytes[bytes.len() - 1], 0); // running flag forced clear
}
