//! The recorded trace: one step per executed instruction, holding the
//! instruction's disassembly and the register file.
//!
//! Disassembly is done by capstone, configured for 32-bit x86 in Intel
//! syntax; the calls into it stand behind the trusted items below.

use capstone::arch::BuildsCapstone;
use capstone::arch::BuildsCapstoneSyntax;
use vstd::prelude::*;

use crate::regs::RegState;

verus! {

#[verifier::external_type_specification]
#[verifier::external_body]
pub struct ExCapstone(capstone::Capstone);

#[verifier::external_type_specification]
#[verifier::external_body]
pub struct ExCapstoneBuilder(capstone::arch::CapstoneBuilder);

#[verifier::external_type_specification]
#[verifier::external_body]
pub struct ExX86CapstoneBuilder(capstone::arch::x86::ArchCapstoneBuilder);

#[verifier::external_type_specification]
#[verifier::external_body]
pub struct ExCapstoneError(capstone::Error);

#[verifier::external_type_specification]
#[verifier::external_body]
pub struct ExInstructions<'a>(capstone::Instructions<'a>);

// `Instructions` dereferences to a slice of `Insn`; Verus reads that impl and
// needs the element type declared.
#[verifier::external_type_specification]
#[verifier::external_body]
pub struct ExInsn<'a>(capstone::Insn<'a>);

/// Processor mode of an x86 disassembler.
#[derive(Clone, Copy, Debug, PartialEq, Eq)]
pub enum X86Mode {
    Mode16,
    Mode32,
    Mode64,
}

/// Assembly syntax of an x86 disassembler's text.
#[derive(Clone, Copy, Debug, PartialEq, Eq)]
pub enum X86Syntax {
    Intel,
    Att,
    Masm,
}

/// Calls `capstone::Capstone::new`, which starts a disassembler builder.
/// Nothing is claimed of the builder.
#[verifier::external_body]
fn cs_builder() -> capstone::arch::CapstoneBuilder {
    capstone::Capstone::new()
}

/// The settings a disassembler was opened with.
#[derive(Clone, Copy, Debug, PartialEq, Eq)]
pub struct DisassemblerSettings {
    pub mode: X86Mode,
    pub syntax: X86Syntax,
    pub detail: bool,
}

/// An open capstone disassembler for x86, together with the settings it was
/// opened with. `Disassembler::new` is the only place that makes one, and it
/// opens the handle with exactly the settings it records.
pub struct Disassembler {
    cs: capstone::Capstone,
    settings: DisassemblerSettings,
}

impl View for Disassembler {
    type V = DisassemblerSettings;

    closed spec fn view(&self) -> DisassemblerSettings {
        self.settings
    }
}

/// The mnemonic and operand text of each instruction that capstone decodes
/// from `code`, placed at address `base`, with an x86 disassembler opened with
/// `settings`, in order.
pub uninterp spec fn x86_disassembly(
    settings: DisassemblerSettings,
    code: Seq<u8>,
    base: u64,
) -> Seq<(Seq<char>, Seq<char>)>;

/// The mnemonic and operand text of each instruction held by `insns`, in
/// order.
pub uninterp spec fn decoded_texts(insns: capstone::Instructions) -> Seq<(Seq<char>, Seq<char>)>;

/// Calls `capstone::Capstone::disasm_all` on the handle of `d`, which
/// disassembles all of `code` as if it stood at address `address`. Claimed:
/// what comes back on success holds the texts that capstone decodes with the
/// settings `d` was opened with. Capstone's only error path there is a failed
/// allocation, which depends on the machine: when an error comes back is not
/// claimed.
#[verifier::external_body]
fn cs_disasm_all<'a>(d: &'a Disassembler, code: &[u8], address: u64) -> (r: Result<
    capstone::Instructions<'a>,
    capstone::Error,
>)
    ensures
        r matches Ok(insns) ==> decoded_texts(insns) == x86_disassembly(d@, code@, address),
{
    d.cs.disasm_all(code, address)
}

/// Calls the length of `capstone::Instructions` (through its `Deref` to a
/// slice). Claimed: it is the number of instructions held.
#[verifier::external_body]
fn cs_instruction_count(insns: &capstone::Instructions) -> (n: usize)
    ensures
        n == decoded_texts(*insns).len(),
{
    insns.len()
}

/// Calls `capstone::Insn::mnemonic` on the `i`-th instruction held by
/// `insns`. Claimed: the text is always there (capstone keeps it in a
/// NUL-terminated array of the instruction, never a null pointer) and is the
/// instruction's mnemonic.
#[verifier::external_body]
fn cs_mnemonic<'a, 'b>(insns: &'b capstone::Instructions<'a>, i: usize) -> (r: Option<&'b str>)
    requires
        i < decoded_texts(*insns).len(),
    ensures
        r is Some,
        r.unwrap()@ == decoded_texts(*insns)[i as int].0,
{
    insns[i].mnemonic()
}

/// Calls `capstone::Insn::op_str` on the `i`-th instruction held by `insns`.
/// Claimed: the text is always there (an array of the instruction, never a
/// null pointer) and is the instruction's operand text.
#[verifier::external_body]
fn cs_op_str<'a, 'b>(insns: &'b capstone::Instructions<'a>, i: usize) -> (r: Option<&'b str>)
    requires
        i < decoded_texts(*insns).len(),
    ensures
        r is Some,
        r.unwrap()@ == decoded_texts(*insns)[i as int].1,
{
    insns[i].op_str()
}

/// What has been set on an x86 capstone builder: the processor mode and the
/// syntax (none until set) and whether instruction details are kept.
#[derive(Clone, Copy, Debug, PartialEq, Eq)]
pub struct BuilderModel {
    pub mode: Option<X86Mode>,
    pub syntax: Option<X86Syntax>,
    pub detail: bool,
}

/// An x86 capstone builder together with what has been set on it; only the
/// wrappers below make or change one.
pub struct X86Builder {
    inner: capstone::arch::x86::ArchCapstoneBuilder,
    model: BuilderModel,
}

impl View for X86Builder {
    type V = BuilderModel;

    closed spec fn view(&self) -> BuilderModel {
        self.model
    }
}

/// What a builder holds once `settings` have all been set on it.
pub open spec fn builder_for(settings: DisassemblerSettings) -> BuilderModel {
    BuilderModel { mode: Some(settings.mode), syntax: Some(settings.syntax), detail: settings.detail }
}

/// Calls `capstone::arch::CapstoneBuilder::x86`, which gives an x86 builder
/// whose `Default` has no mode, no syntax and details off. Claimed: the
/// builder that comes back holds exactly that.
#[verifier::external_body]
fn cs_x86(builder: capstone::arch::CapstoneBuilder) -> (r: X86Builder)
    ensures
        r@ == (BuilderModel { mode: None, syntax: None, detail: false }),
{
    X86Builder {
        inner: builder.x86(),
        model: BuilderModel { mode: None, syntax: None, detail: false },
    }
}

/// Calls `BuildsCapstone::mode` of the x86 builder, which records the
/// processor mode `mode` and keeps the rest. Claimed: that.
#[verifier::external_body]
fn cs_mode(builder: X86Builder, mode: X86Mode) -> (r: X86Builder)
    ensures
        r@ == (BuilderModel { mode: Some(mode), ..builder@ }),
{
    X86Builder {
        inner: builder.inner.mode(
            match mode {
                X86Mode::Mode16 => capstone::arch::x86::ArchMode::Mode16,
                X86Mode::Mode32 => capstone::arch::x86::ArchMode::Mode32,
                X86Mode::Mode64 => capstone::arch::x86::ArchMode::Mode64,
            },
        ),
        model: BuilderModel { mode: Some(mode), ..builder.model },
    }
}

/// Calls `BuildsCapstoneSyntax::syntax` of the x86 builder, which records the
/// assembly syntax `syntax` and keeps the rest. Claimed: that.
#[verifier::external_body]
fn cs_syntax(builder: X86Builder, syntax: X86Syntax) -> (r: X86Builder)
    ensures
        r@ == (BuilderModel { syntax: Some(syntax), ..builder@ }),
{
    X86Builder {
        inner: builder.inner.syntax(
            match syntax {
                X86Syntax::Intel => capstone::arch::x86::ArchSyntax::Intel,
                X86Syntax::Att => capstone::arch::x86::ArchSyntax::Att,
                X86Syntax::Masm => capstone::arch::x86::ArchSyntax::Masm,
            },
        ),
        model: BuilderModel { syntax: Some(syntax), ..builder.model },
    }
}

/// Calls `BuildsCapstone::detail` of the x86 builder, which records whether
/// instruction details are kept and keeps the rest. Claimed: that.
#[verifier::external_body]
fn cs_detail(builder: X86Builder, enable: bool) -> (r: X86Builder)
    ensures
        r@ == (BuilderModel { detail: enable, ..builder@ }),
{
    X86Builder {
        inner: builder.inner.detail(enable),
        model: BuilderModel { detail: enable, ..builder.model },
    }
}

/// Calls `BuildsCapstone::build` of the x86 builder, which opens a capstone
/// handle with the mode, syntax and detail setting the builder holds, or
/// reports an error. Claimed: a handle that comes back was opened with
/// `settings`, which the builder holds. Capstone fails there only when an
/// allocation fails, which depends on the machine: when an error comes back
/// is not claimed.
#[verifier::external_body]
fn cs_build(builder: X86Builder, settings: DisassemblerSettings) -> (r: Result<
    Disassembler,
    capstone::Error,
>)
    requires
        builder@ == builder_for(settings),
    ensures
        r matches Ok(d) ==> d@ == settings,
{
    match builder.inner.build() {
        Ok(cs) => Ok(Disassembler { cs, settings }),
        Err(e) => Err(e),
    }
}

impl Disassembler {
    /// Opens an x86 disassembler with `settings`; an error when capstone
    /// cannot open it.
    pub fn new(settings: DisassemblerSettings) -> (r: Result<Disassembler, DisasmError>)
        ensures
            r matches Ok(d) ==> d@ == settings,
            r matches Err(e) ==> e is Capstone,
    {
        let builder = cs_x86(cs_builder());
        let builder = cs_mode(builder, settings.mode);
        let builder = cs_syntax(builder, settings.syntax);
        let builder = cs_detail(builder, settings.detail);
        match cs_build(builder, settings) {
            Ok(d) => Ok(d),
            Err(e) => Err(DisasmError::Capstone(e)),
        }
    }

    /// The settings this disassembler was opened with.
    pub fn settings(&self) -> (s: DisassemblerSettings)
        ensures
            s == self@,
    {
        self.settings
    }
}

/// Why a step could not be recorded.
#[derive(Clone, Copy, Debug, PartialEq, Eq)]
pub enum DisasmError {
    /// The disassembler could not be opened or failed on the bytes; the
    /// error capstone reported.
    Capstone(capstone::Error),
    /// The bytes decoded to no instruction.
    NoInstruction,
    /// The instruction came without its mnemonic or operand text.
    MissingText,
    /// The instruction's address does not fit in 32 bits.
    AddressOutOfRange,
}

/// One disassembled instruction.
#[derive(Clone, Debug)]
pub struct Instruction {
    pub mnemonic: String,
    pub operands: String,
    pub address: u32,
}

impl Instruction {
    pub fn new(mnemonic: String, operands: String, address: u32) -> (i: Instruction)
        ensures
            i.mnemonic == mnemonic,
            i.operands == operands,
            i.address == address,
    {
        Instruction { mnemonic, operands, address }
    }
}

/// One recorded step: the instruction about to execute and the registers.
#[derive(Clone, Debug)]
pub struct EmuState {
    pub instruction: Instruction,
    pub reg_state: RegState,
}

impl EmuState {
    pub fn new(instruction: Instruction, reg_state: RegState) -> (s: EmuState)
        ensures
            s.instruction == instruction,
            s.reg_state == reg_state,
    {
        EmuState { instruction, reg_state }
    }
}

/// The instruction made of a decoded mnemonic and operand text at `address`:
/// an error when either text is missing or the address needs more than 32 bits.
pub fn instruction_from_parts(mnemonic: Option<&str>, operands: Option<&str>, address: u64) -> (r:
    Result<Instruction, DisasmError>)
    ensures
        mnemonic is None ==> r == Err::<Instruction, DisasmError>(DisasmError::MissingText),
        mnemonic is Some && operands is None ==> r == Err::<Instruction, DisasmError>(
            DisasmError::MissingText,
        ),
        mnemonic is Some && operands is Some && address > u32::MAX ==> r == Err::<
            Instruction,
            DisasmError,
        >(DisasmError::AddressOutOfRange),
        mnemonic is Some && operands is Some && address <= u32::MAX ==> (r matches Ok(i)
            && i.mnemonic@ == mnemonic.unwrap()@ && i.operands@ == operands.unwrap()@ && i.address
            == address),
{
    let m = match mnemonic {
        Some(m) => m,
        None => return Err(DisasmError::MissingText),
    };
    let o = match operands {
        Some(o) => o,
        None => return Err(DisasmError::MissingText),
    };
    if address > 0xFFFF_FFFFu64 {
        return Err(DisasmError::AddressOutOfRange);
    }
    Ok(Instruction::new(m.to_owned(), o.to_owned(), address as u32))
}

/// The mnemonic and operand text as sequences, where they are there.
pub open spec fn text_view(t: Option<&str>) -> Option<Seq<char>> {
    match t {
        Some(s) => Some(s@),
        None => None,
    }
}

/// What the first decoded instruction gives at `address`: no instruction
/// when nothing was decoded, missing text when the mnemonic or the operand
/// text is absent, an address error above 32 bits, and otherwise the two
/// texts with the address as 32 bits.
pub open spec fn decoded_outcome(
    first: Option<(Option<Seq<char>>, Option<Seq<char>>)>,
    address: u64,
) -> Result<(Seq<char>, Seq<char>, u32), DisasmError> {
    match first {
        None => Err(DisasmError::NoInstruction),
        Some((None, _)) => Err(DisasmError::MissingText),
        Some((Some(_), None)) => Err(DisasmError::MissingText),
        Some((Some(m), Some(o))) => if address > u32::MAX {
            Err(DisasmError::AddressOutOfRange)
        } else {
            Ok((m, o, address as u32))
        },
    }
}

/// The instruction at `address` made of the first decoded instruction's
/// mnemonic and operand text (`None` when nothing was decoded).
pub fn first_decoded(first: Option<(Option<&str>, Option<&str>)>, address: u64) -> (r: Result<
    Instruction,
    DisasmError,
>)
    ensures
        instruction_view(r) == decoded_outcome(
            match first {
                None => None,
                Some((m, o)) => Some((text_view(m), text_view(o))),
            },
            address,
        ),
{
    match first {
        None => Err(DisasmError::NoInstruction),
        Some((m, o)) => instruction_from_parts(m, o, address),
    }
}

/// The settings of the disassembler that decodes a trace: 32-bit x86, Intel
/// syntax, instruction details on.
pub open spec fn trace_settings() -> DisassemblerSettings {
    DisassemblerSettings { mode: X86Mode::Mode32, syntax: X86Syntax::Intel, detail: true }
}

/// What disassembling at `address` gives when capstone decoded `decoded` from
/// the bytes: the mnemonic and operand text of the first instruction and the
/// address as 32 bits; an error when nothing was decoded or the address needs
/// more than 32 bits.
pub open spec fn first_instruction(decoded: Seq<(Seq<char>, Seq<char>)>, address: u64) -> Result<
    (Seq<char>, Seq<char>, u32),
    DisasmError,
> {
    if decoded.len() == 0 {
        Err(DisasmError::NoInstruction)
    } else if address > u32::MAX {
        Err(DisasmError::AddressOutOfRange)
    } else {
        Ok((decoded[0].0, decoded[0].1, address as u32))
    }
}

/// The texts and address of an instruction result, or its error.
pub open spec fn instruction_view(r: Result<Instruction, DisasmError>) -> Result<
    (Seq<char>, Seq<char>, u32),
    DisasmError,
> {
    match r {
        Ok(i) => Ok((i.mnemonic@, i.operands@, i.address)),
        Err(e) => Err(e),
    }
}

/// The trace of an emulation run and the disassembler that decodes its steps.
pub struct EmuReport {
    pub state: Vec<EmuState>,
    pub disassembler: Disassembler,
}

impl EmuReport {
    /// An empty trace with a disassembler for 32-bit x86 in Intel syntax, with
    /// instruction details on; an error when the disassembler cannot be opened.
    pub fn new() -> (r: Result<EmuReport, DisasmError>)
        ensures
            r matches Ok(report) ==> report.state@.len() == 0 && report.disassembler@
                == trace_settings(),
            r matches Err(e) ==> e is Capstone,
    {
        let settings = DisassemblerSettings {
            mode: X86Mode::Mode32,
            syntax: X86Syntax::Intel,
            detail: true,
        };
        match Disassembler::new(settings) {
            Ok(disassembler) => Ok(EmuReport { state: Vec::new(), disassembler }),
            Err(e) => Err(e),
        }
    }

    /// Disassembles the first instruction of `code`, which was read at
    /// `address`: capstone decodes the bytes as if they stood at address 0,
    /// and the first instruction's texts are kept with `address`. Apart from
    /// capstone failing (`Err(Capstone)`), the result is `first_instruction`
    /// of what capstone decodes; what follows the capstone call is
    /// `first_decoded`.
    pub fn disassemble(&self, code: &[u8], address: u64) -> (r: Result<Instruction, DisasmError>)
        requires
            address <= u32::MAX,
        ensures
            r matches Err(DisasmError::Capstone(_)) || instruction_view(r)
                == first_instruction(x86_disassembly(self.disassembler@, code@, 0), address),
            r matches Ok(i) ==> i.address == address,
    {
        let insns = match cs_disasm_all(&self.disassembler, code, 0) {
            Ok(insns) => insns,
            Err(e) => return Err(DisasmError::Capstone(e)),
        };
        let first = if cs_instruction_count(&insns) == 0 {
            None
        } else {
            Some((cs_mnemonic(&insns, 0), cs_op_str(&insns, 0)))
        };
        first_decoded(first, address)
    }

    /// Appends a step to the trace.
    pub fn record(&mut self, instruction: Instruction, reg_state: RegState)
        ensures
            final(self).disassembler == old(self).disassembler,
            final(self).state@ == old(self).state@.push(EmuState { instruction, reg_state }),
    {
        self.state.push(EmuState::new(instruction, reg_state));
    }

    /// Records the step at `address`: disassembles `code` (the bytes of the
    /// instruction there) and appends it with the register file `reg_state`.
    /// On an error the trace is unchanged; apart from capstone failing
    /// (`Err(Capstone)`), the error is that of `first_instruction`.
    pub fn record_step(&mut self, address: u64, code: &[u8], reg_state: RegState) -> (r: Result<
        (),
        DisasmError,
    >)
        requires
            address <= u32::MAX,
        ensures
            final(self).disassembler == old(self).disassembler,
            r is Ok ==> final(self).state@.len() == old(self).state@.len() + 1 && final(self).state@.take(
                old(self).state@.len() as int,
            ) == old(self).state@ && final(self).state@.last().reg_state == reg_state && (first_instruction(
                x86_disassembly(old(self).disassembler@, code@, 0),
                address,
            ) matches Ok((m, o, a)) && final(self).state@.last().instruction.mnemonic@ == m
                && final(self).state@.last().instruction.operands@ == o
                && final(self).state@.last().instruction.address == a),
            r is Err ==> final(self).state@ == old(self).state@,
            r matches Err(e) ==> e is Capstone || first_instruction(
                x86_disassembly(old(self).disassembler@, code@, 0),
                address,
            ) == Err::<(Seq<char>, Seq<char>, u32), DisasmError>(e),
            first_instruction(x86_disassembly(old(self).disassembler@, code@, 0), address) is Err
                ==> r is Err,
            r matches Ok(_) ==> final(self).state@.last().instruction.address == address,
    {
        match self.disassemble(code, address) {
            Ok(instruction) => {
                self.record(instruction, reg_state);
                assert(self.state@.take(old(self).state@.len() as int) =~= old(self).state@);
                Ok(())
            },
            Err(e) => Err(e),
        }
    }
}

} // verus!
