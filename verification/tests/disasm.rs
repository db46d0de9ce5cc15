use remu::disasm::{
    first_decoded, instruction_from_parts, DisasmError, Disassembler, DisassemblerSettings, EmuReport, EmuState,
    Instruction, X86Mode, X86Syntax,
};
use remu::regs::RegState;

fn regs(eax: u64) -> RegState {
    RegState::from_values(&[eax, 0, 0, 0, 0, 0, 0, 0, 0, 0])
}

#[test]
fn new_report_is_empty() {
    let report = EmuReport::new().expect("capstone");
    assert!(report.state.is_empty());
}

#[test]
fn disassemble_single_instructions() {
    let report = EmuReport::new().unwrap();
    let nop = report.disassemble(&[0x90], 0x401000).unwrap();
    assert_eq!(nop.mnemonic, "nop");
    assert_eq!(nop.operands, "");
    assert_eq!(nop.address, 0x401000);
    let push = report.disassemble(&[0x55], 0x401001).unwrap();
    assert_eq!((push.mnemonic.as_str(), push.operands.as_str()), ("push", "ebp"));
    let mov = report.disassemble(&[0xB8, 1, 0, 0, 0], 0x401002).unwrap();
    assert_eq!((mov.mnemonic.as_str(), mov.operands.as_str()), ("mov", "eax, 1"));
}

#[test]
fn disassemble_takes_the_first_instruction() {
    let report = EmuReport::new().unwrap();
    let i = report.disassemble(&[0x55, 0x89, 0xE5], 0x10).unwrap();
    assert_eq!((i.mnemonic.as_str(), i.operands.as_str()), ("push", "ebp"));
}

#[test]
fn disassemble_errors() {
    let report = EmuReport::new().unwrap();
    assert_eq!(report.disassemble(&[], 0x10).unwrap_err(), DisasmError::NoInstruction);
    assert_eq!(report.disassemble(&[0x0F], 0x10).unwrap_err(), DisasmError::NoInstruction);
}

#[test]
fn record_step_appends() {
    let mut report = EmuReport::new().unwrap();
    report.record_step(0x401000, &[0x90], regs(7)).unwrap();
    report.record_step(0x401001, &[0x55], regs(8)).unwrap();
    assert_eq!(report.state.len(), 2);
    assert_eq!(report.state[0].instruction.address, 0x401000);
    assert_eq!(report.state[0].instruction.mnemonic, "nop");
    assert_eq!(report.state[0].reg_state.reg[19], 7);
    assert_eq!(report.state[1].instruction.mnemonic, "push");
    assert_eq!(report.state[1].reg_state.reg[19], 8);
}

#[test]
fn record_step_error_leaves_trace() {
    let mut report = EmuReport::new().unwrap();
    report.record_step(0x401000, &[0x90], regs(1)).unwrap();
    assert!(report.record_step(0x401002, &[], regs(3)).is_err());
    assert_eq!(report.state.len(), 1);
    assert_eq!(report.state[0].reg_state.reg[19], 1);
}

#[test]
fn record_pushes_given_step() {
    let mut report = EmuReport::new().unwrap();
    report.record(Instruction::new("ret".to_string(), String::new(), 5), regs(3));
    assert_eq!(report.state.len(), 1);
    let s: &EmuState = &report.state[0];
    assert_eq!(s.instruction.mnemonic, "ret");
    assert_eq!(s.instruction.address, 5);
}

#[test]
fn parts_to_instruction() {
    let i = instruction_from_parts(Some("xor"), Some("eax, eax"), 0xFFFF_FFFF).unwrap();
    assert_eq!((i.mnemonic.as_str(), i.operands.as_str(), i.address), ("xor", "eax, eax", 0xFFFF_FFFF));
    assert_eq!(instruction_from_parts(None, Some("x"), 1).unwrap_err(), DisasmError::MissingText);
    assert_eq!(instruction_from_parts(Some("x"), None, 1).unwrap_err(), DisasmError::MissingText);
    assert_eq!(
        instruction_from_parts(Some("x"), Some(""), 0x1_0000_0000).unwrap_err(),
        DisasmError::AddressOutOfRange
    );
}

#[test]
fn constructors_keep_fields() {
    let i = Instruction::new("jmp".to_string(), "0x10".to_string(), 9);
    let s = EmuState::new(i.clone(), regs(4));
    assert_eq!(s.instruction.mnemonic, "jmp");
    assert_eq!(s.instruction.operands, "0x10");
    assert_eq!(s.instruction.address, 9);
    assert_eq!(s.reg_state.reg[19], 4);
}

#[test]
fn report_disassembler_settings() {
    let report = EmuReport::new().unwrap();
    assert_eq!(
        report.disassembler.settings(),
        DisassemblerSettings { mode: X86Mode::Mode32, syntax: X86Syntax::Intel, detail: true }
    );
}

#[test]
fn decodes_relative_to_base_zero() {
    let report = EmuReport::new().unwrap();
    let jmp = report.disassemble(&[0xEB, 0x00], 0x401000).unwrap();
    assert_eq!((jmp.mnemonic.as_str(), jmp.operands.as_str()), ("jmp", "2"));
    assert_eq!(jmp.address, 0x401000);
}

#[test]
fn disassembler_with_other_settings() {
    let settings = DisassemblerSettings { mode: X86Mode::Mode64, syntax: X86Syntax::Att, detail: false };
    let d = Disassembler::new(settings).unwrap();
    assert_eq!(d.settings(), settings);
}

#[test]
fn first_decoded_cases() {
    assert_eq!(first_decoded(None, 0x10).unwrap_err(), DisasmError::NoInstruction);
    assert_eq!(first_decoded(Some((None, Some("x"))), 0x10).unwrap_err(), DisasmError::MissingText);
    assert_eq!(first_decoded(Some((Some("x"), None)), 0x10).unwrap_err(), DisasmError::MissingText);
    assert_eq!(
        first_decoded(Some((Some("nop"), Some(""))), 0x1_0000_0000).unwrap_err(),
        DisasmError::AddressOutOfRange
    );
    let i = first_decoded(Some((Some("inc"), Some("eax"))), 0x401000).unwrap();
    assert_eq!((i.mnemonic.as_str(), i.operands.as_str(), i.address), ("inc", "eax", 0x401000));
}

#[test]
fn disassembler_settings_shape_the_text() {
    let att = Disassembler::new(DisassemblerSettings { mode: X86Mode::Mode32, syntax: X86Syntax::Att, detail: true }).unwrap();
    let report = EmuReport { state: Vec::new(), disassembler: att };
    let push = report.disassemble(&[0x55], 0x10).unwrap();
    assert_eq!((push.mnemonic.as_str(), push.operands.as_str()), ("pushl", "%ebp"));
}
