use remu::regs::{EBP, EBX, ECX, EDX, ESP};
use remu::setup::{setup_steps, SetupStep, IMAGE_BASE, IMAGE_MAP_SIZE, STACK_BASE, STACK_SIZE, TRACE_SIZE};

#[test]
fn steps_for_entry() {
    let steps = setup_steps(0x401F8C);
    assert_eq!(
        steps,
        vec![
            SetupStep::MapMemory { address: 0x400000, size: 0x400000 },
            SetupStep::WriteImage { address: 0x400000 },
            SetupStep::MapMemory { address: 0x1000000, size: 0x250000 },
            SetupStep::ZeroFill { address: 0x1000000, size: 0x250000 },
            SetupStep::WriteRegister { register: ESP, value: 0x1000800 },
            SetupStep::WriteRegister { register: EBP, value: 0x1001000 },
            SetupStep::WriteRegister { register: EBX, value: 0 },
            SetupStep::WriteRegister { register: ECX, value: 0 },
            SetupStep::WriteRegister { register: EDX, value: 0 },
            SetupStep::HookCode { begin: 0x400000, end: 0x600000 },
            SetupStep::Start { begin: 0x401F8C, until: 0, timeout: 0, count: 0 },
        ]
    );
}

#[test]
fn constants() {
    assert_eq!(IMAGE_BASE, 0x400000);
    assert_eq!(STACK_BASE, 0x1000000);
    assert_eq!(STACK_SIZE, 0x250000);
    assert_eq!(IMAGE_MAP_SIZE, 1024 * 1024 * 4);
    assert_eq!(TRACE_SIZE, 1024 * 1024 * 2);
}

#[test]
fn stack_pointers_inside_stack() {
    for step in setup_steps(0) {
        if let SetupStep::WriteRegister { register, value } = step {
            if register == ESP || register == EBP {
                assert!(value >= STACK_BASE && value < STACK_BASE + STACK_SIZE as u64);
            }
        }
    }
}
