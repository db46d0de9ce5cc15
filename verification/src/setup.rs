//! How the emulator is prepared before the run: the memory it maps, what is
//! written there, the registers it sets, the range whose instructions are
//! traced, and where the run starts. The steps are data; the program that
//! drives the emulator performs them in order.

use vstd::prelude::*;

use crate::image::{lemma_virtual_image, virtual_image, MIN_FILE_LEN, VMEM_SIZE};
use crate::regs::{EBP, EBX, ECX, EDX, ESP};

verus! {

/// Address at which the image is mapped.
pub const IMAGE_BASE: u64 = 0x400000;

/// Address of the stack region.
pub const STACK_BASE: u64 = 0x1000000;

/// Size of the stack region.
pub const STACK_SIZE: usize = 0x00250000;

/// Size of the region mapped for the image.
pub const IMAGE_MAP_SIZE: u64 = 0x400000;

/// Size of the range, from the image base on, whose instructions are traced.
pub const TRACE_SIZE: u64 = 0x200000;

/// One step of preparing the emulator.
#[derive(Clone, Copy, Debug, PartialEq, Eq)]
pub enum SetupStep {
    /// Map `size` bytes at `address`, readable, writable and executable.
    MapMemory { address: u64, size: u64 },
    /// Write the memory image of the file at `address`.
    WriteImage { address: u64 },
    /// Write `size` zero bytes at `address`.
    ZeroFill { address: u64, size: u64 },
    /// Set register number `register` to `value`.
    WriteRegister { register: usize, value: u64 },
    /// Trace every instruction whose address lies in `begin..=end`.
    HookCode { begin: u64, end: u64 },
    /// Run from `begin` until `until` is reached, with no time or count limit
    /// when `timeout` and `count` are 0.
    Start { begin: u64, until: u64, timeout: u64, count: usize },
}

/// The steps that prepare the emulator and start the run at `entry`.
pub open spec fn spec_setup_steps(entry: u64) -> Seq<SetupStep> {
    seq![
        SetupStep::MapMemory { address: IMAGE_BASE, size: IMAGE_MAP_SIZE },
        SetupStep::WriteImage { address: IMAGE_BASE },
        SetupStep::MapMemory { address: STACK_BASE, size: STACK_SIZE as u64 },
        SetupStep::ZeroFill { address: STACK_BASE, size: STACK_SIZE as u64 },
        SetupStep::WriteRegister { register: ESP, value: (STACK_BASE + 0x800) as u64 },
        SetupStep::WriteRegister { register: EBP, value: (STACK_BASE + 0x1000) as u64 },
        SetupStep::WriteRegister { register: EBX, value: 0 },
        SetupStep::WriteRegister { register: ECX, value: 0 },
        SetupStep::WriteRegister { register: EDX, value: 0 },
        SetupStep::HookCode { begin: IMAGE_BASE, end: (IMAGE_BASE + TRACE_SIZE) as u64 },
        SetupStep::Start { begin: entry, until: 0, timeout: 0, count: 0 },
    ]
}

/// The steps that prepare the emulator and start the run at `entry`.
pub fn setup_steps(entry: u64) -> (steps: Vec<SetupStep>)
    ensures
        steps@ == spec_setup_steps(entry),
{
    let mut steps: Vec<SetupStep> = Vec::new();
    steps.push(SetupStep::MapMemory { address: IMAGE_BASE, size: IMAGE_MAP_SIZE });
    steps.push(SetupStep::WriteImage { address: IMAGE_BASE });
    steps.push(SetupStep::MapMemory { address: STACK_BASE, size: STACK_SIZE as u64 });
    steps.push(SetupStep::ZeroFill { address: STACK_BASE, size: STACK_SIZE as u64 });
    steps.push(SetupStep::WriteRegister { register: ESP, value: STACK_BASE + 0x800 });
    steps.push(SetupStep::WriteRegister { register: EBP, value: STACK_BASE + 0x1000 });
    steps.push(SetupStep::WriteRegister { register: EBX, value: 0 });
    steps.push(SetupStep::WriteRegister { register: ECX, value: 0 });
    steps.push(SetupStep::WriteRegister { register: EDX, value: 0 });
    steps.push(SetupStep::HookCode { begin: IMAGE_BASE, end: IMAGE_BASE + TRACE_SIZE });
    steps.push(SetupStep::Start { begin: entry, until: 0, timeout: 0, count: 0 });
    assert(steps@ =~= spec_setup_steps(entry));
    steps
}

/// Whether `len` bytes at `address` lie inside the region that step `i`
/// maps.
pub open spec fn inside_mapping(steps: Seq<SetupStep>, i: int, address: int, len: int) -> bool {
    0 <= i < steps.len() && match steps[i] {
        SetupStep::MapMemory { address: base, size } => base <= address && address + len <= base
            + size,
        _ => false,
    }
}

/// Every write of the preparation lands in memory that an earlier step has
/// mapped: the image of any file long enough to hold all sections, and the
/// zeroed stack. The traced range lies inside the image's mapping, the stack
/// and frame pointers inside the stack, and the run starts at `entry`.
pub proof fn lemma_setup_writes_are_mapped(entry: u64, pe: Seq<u8>)
    requires
        pe.len() >= MIN_FILE_LEN,
    ensures
        ({
            let steps = spec_setup_steps(entry);
            &&& steps[1] == SetupStep::WriteImage { address: IMAGE_BASE }
            &&& inside_mapping(steps, 0, IMAGE_BASE as int, virtual_image(pe).len() as int)
            &&& steps[3] == SetupStep::ZeroFill { address: STACK_BASE, size: STACK_SIZE as u64 }
            &&& inside_mapping(steps, 2, STACK_BASE as int, STACK_SIZE as int)
            &&& inside_mapping(steps, 0, IMAGE_BASE as int, TRACE_SIZE as int)
            &&& steps[9] == SetupStep::HookCode {
                begin: IMAGE_BASE,
                end: (IMAGE_BASE + TRACE_SIZE) as u64,
            }
            &&& steps[4] matches SetupStep::WriteRegister { register, value } && register == ESP
                && inside_mapping(steps, 2, value as int, 1)
            &&& steps[5] matches SetupStep::WriteRegister { register, value } && register == EBP
                && inside_mapping(steps, 2, value as int, 1)
            &&& steps.last() == SetupStep::Start { begin: entry, until: 0, timeout: 0, count: 0 }
        }),
{
    lemma_virtual_image(pe);
    assert(VMEM_SIZE + (MIN_FILE_LEN - 0x400) <= IMAGE_MAP_SIZE);
}

} // verus!
