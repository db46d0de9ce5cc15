//! The trace viewer's state and decisions: a list of recorded steps with an
//! optional selection, what each key does to it, and the text of the
//! instruction list and of the register and flag panels.

use vstd::prelude::*;

use crate::disasm::EmuReport;
use crate::regs::{
    eflags_bits, flag_bit, RegState, EAX, EBP, EBX, ECX, EDI, EDX, EFLAGS, EIP, ESI, ESP,
    REG_COUNT,
};
use crate::text::{dec_string, decimal, hex_string, hex_upper};

verus! {

/// The selection after moving down in a list of `len` items: the next item,
/// wrapping from the last to the first; the first when nothing is selected.
pub open spec fn next_selection(selected: Option<usize>, len: nat) -> Option<usize> {
    match selected {
        Some(i) => if i >= len - 1 {
            Some(0usize)
        } else {
            Some((i + 1) as usize)
        },
        None => Some(0usize),
    }
}

/// The selection after moving up in a list of `len` items: the previous
/// item, wrapping from the first to the last; the first when nothing is
/// selected.
pub open spec fn previous_selection(selected: Option<usize>, len: nat) -> Option<usize> {
    match selected {
        Some(i) => if i == 0 {
            Some((len - 1) as usize)
        } else {
            Some((i - 1) as usize)
        },
        None => Some(0usize),
    }
}

/// Whether moving down is defined: it is, unless something is selected in
/// an empty list.
pub open spec fn can_move_down(selected: Option<usize>, len: nat) -> bool {
    selected is Some ==> len > 0
}

/// Whether moving up is defined: it is, unless the first item is selected
/// in an empty list.
pub open spec fn can_move_up(selected: Option<usize>, len: nat) -> bool {
    selected == Some(0usize) ==> len > 0
}

/// A list of items with at most one selected.
pub struct StatefulList<T> {
    pub selected: Option<usize>,
    pub items: Vec<T>,
}

impl<T> StatefulList<T> {
    /// The list of `items` with nothing selected.
    pub fn with_items(items: Vec<T>) -> (l: StatefulList<T>)
        ensures
            l.selected is None,
            l.items@ == items@,
    {
        StatefulList { selected: None, items }
    }

    /// Selects the next item, wrapping from the last to the first.
    pub fn next(&mut self)
        requires
            can_move_down(old(self).selected, old(self).items@.len()),
        ensures
            final(self).items@ == old(self).items@,
            final(self).selected == next_selection(old(self).selected, old(self).items@.len()),
    {
        let i: usize = match self.selected {
            Some(i) => {
                if i >= self.items.len() - 1 {
                    0
                } else {
                    i + 1
                }
            },
            None => 0,
        };
        self.selected = Some(i);
    }

    /// Selects the previous item, wrapping from the first to the last.
    pub fn previous(&mut self)
        requires
            can_move_up(old(self).selected, old(self).items@.len()),
        ensures
            final(self).items@ == old(self).items@,
            final(self).selected == previous_selection(old(self).selected, old(self).items@.len()),
    {
        let i: usize = match self.selected {
            Some(i) => {
                if i == 0 {
                    self.items.len() - 1
                } else {
                    i - 1
                }
            },
            None => 0,
        };
        self.selected = Some(i);
    }

    /// Clears the selection.
    pub fn unselect(&mut self)
        ensures
            final(self).items@ == old(self).items@,
            final(self).selected is None,
    {
        self.selected = None;
    }

    /// The selected index, or 0 when nothing is selected.
    pub fn get_selected(&self) -> (i: usize)
        ensures
            i == match self.selected {
                Some(j) => j,
                None => 0usize,
            },
    {
        match self.selected {
            Some(i) => i,
            None => 0,
        }
    }
}

/// Moving up undoes moving down, and moving down undoes moving up, from any
/// selected item of a list.
pub proof fn lemma_previous_undoes_next(i: usize, len: nat)
    requires
        i < len,
        len <= usize::MAX,
    ensures
        previous_selection(next_selection(Some(i), len), len) == Some(i),
        next_selection(previous_selection(Some(i), len), len) == Some(i),
        can_move_down(Some(i), len),
        can_move_up(Some(i), len),
{
}

/// Moving keeps a selection inside a non-empty list.
pub proof fn lemma_moves_stay_in_bounds(selected: Option<usize>, len: nat)
    requires
        len > 0,
        len <= usize::MAX,
        selected matches Some(i) ==> i < len,
    ensures
        next_selection(selected, len) matches Some(j) && j < len,
        previous_selection(selected, len) matches Some(j) && j < len,
{
}

/// The selection after moving down `k` times.
pub open spec fn next_selection_n(selected: Option<usize>, len: nat, k: nat) -> Option<usize>
    decreases k,
{
    if k == 0 {
        selected
    } else {
        next_selection(next_selection_n(selected, len, (k - 1) as nat), len)
    }
}

/// Moving down `k` times from item `i` selects item `(i + k) % len`.
proof fn lemma_next_steps(i: usize, len: nat, k: nat)
    requires
        i < len,
        len <= usize::MAX,
    ensures
        next_selection_n(Some(i), len, k) == Some(((i + k) % (len as int)) as usize),
    decreases k,
{
    if k == 0 {
        assert((i as int) % (len as int) == i) by (nonlinear_arith)
            requires
                i < len,
        ;
    } else {
        lemma_next_steps(i, len, (k - 1) as nat);
        let j = (i + k - 1) % (len as int);
        assert(0 <= j < len) by (nonlinear_arith)
            requires
                j == (i + k - 1) % (len as int),
                len > 0,
        ;
        if j == len - 1 {
            assert((i + k) % (len as int) == 0) by (nonlinear_arith)
                requires
                    j == (i + k - 1) % (len as int),
                    j == len - 1,
                    len > 0,
            ;
        } else {
            assert((i + k) % (len as int) == j + 1) by (nonlinear_arith)
                requires
                    j == (i + k - 1) % (len as int),
                    j < len - 1,
                    0 <= j,
                    len > 0,
            ;
        }
    }
}

/// Moving down `k` times from item `i` selects item `(i + k) % len`; in
/// particular, moving down once per item comes back to the start.
pub proof fn lemma_next_cycles(i: usize, len: nat, k: nat)
    requires
        i < len,
        len <= usize::MAX,
    ensures
        next_selection_n(Some(i), len, k) == Some(((i + k) % (len as int)) as usize),
        next_selection_n(Some(i), len, len) == Some(i),
{
    lemma_next_steps(i, len, k);
    lemma_next_steps(i, len, len);
    assert((i + len) % (len as int) == i) by (nonlinear_arith)
        requires
            i < len,
    ;
}

/// The item of the instruction list for one step: address, mnemonic,
/// operand text and register file.
pub type TraceItem = (u32, String, String, RegState);

/// The state of the trace viewer: the recorded steps, one list item each.
pub struct EmuReportApp {
    pub items: StatefulList<TraceItem>,
}

/// A key press, as far as the viewer tells keys apart.
#[derive(Clone, Copy, Debug, PartialEq, Eq)]
pub enum Key {
    Char(char),
    Left,
    Down,
    Up,
    Other,
}

/// Whether the viewer can act on `key` with selection `selected` in a list
/// of `len` items: moving down or up is undefined in the cases that
/// `can_move_down` and `can_move_up` leave out.
pub open spec fn key_defined(key: Key, selected: Option<usize>, len: nat) -> bool {
    match key {
        Key::Down => can_move_down(selected, len),
        Key::Up => can_move_up(selected, len),
        _ => true,
    }
}

/// The selection after the viewer acts on `key`: Left clears it, Down and
/// Up move it, any other key leaves it.
pub open spec fn key_selection(key: Key, selected: Option<usize>, len: nat) -> Option<usize> {
    match key {
        Key::Left => None,
        Key::Down => next_selection(selected, len),
        Key::Up => previous_selection(selected, len),
        _ => selected,
    }
}

/// The selection after the viewer acts on `keys` in order, starting from
/// `selected`, in a list of `len` items.
pub open spec fn keys_selection(keys: Seq<Key>, selected: Option<usize>, len: nat) -> Option<usize>
    decreases keys.len(),
{
    if keys.len() == 0 {
        selected
    } else {
        key_selection(keys.last(), keys_selection(keys.drop_last(), selected, len), len)
    }
}

/// Whether the viewer can act on each of `keys` in turn, starting from
/// `selected`, in a list of `len` items.
pub open spec fn keys_defined(keys: Seq<Key>, selected: Option<usize>, len: nat) -> bool
    decreases keys.len(),
{
    if keys.len() == 0 {
        true
    } else {
        keys_defined(keys.drop_last(), selected, len) && key_defined(
            keys.last(),
            keys_selection(keys.drop_last(), selected, len),
            len,
        )
    }
}

/// A run of keys folds key by key: acting on one more key after `keys` moves
/// the selection as `on_key` does from where `keys` left it. With nothing
/// selected at first, as a fresh viewer has, and any keys, the selection
/// stays inside a non-empty list (or is cleared), and every key is one the
/// viewer can act on.
pub proof fn lemma_keys_fold(keys: Seq<Key>, key: Key, selected: Option<usize>, len: nat)
    requires
        len <= usize::MAX,
        selected matches Some(i) ==> i < len,
    ensures
        keys_selection(keys.push(key), selected, len) == key_selection(
            key,
            keys_selection(keys, selected, len),
            len,
        ),
        keys_defined(keys.push(key), selected, len) == (keys_defined(keys, selected, len)
            && key_defined(key, keys_selection(keys, selected, len), len)),
        len > 0 ==> keys_defined(keys, selected, len),
        len > 0 ==> (keys_selection(keys, selected, len) matches Some(j) ==> j < len),
    decreases keys.len(),
{
    assert(keys.push(key).drop_last() =~= keys);
    assert(keys.push(key).last() == key);
    if keys.len() > 0 {
        lemma_keys_fold(keys.drop_last(), keys.last(), selected, len);
        assert(keys.drop_last().push(keys.last()) =~= keys);
        if len > 0 {
            lemma_moves_stay_in_bounds(keys_selection(keys.drop_last(), selected, len), len);
        }
    }
}

impl EmuReportApp {
    /// The viewer of `report`'s steps, in order, with nothing selected.
    pub fn new(report: &EmuReport) -> (app: EmuReportApp)
        ensures
            app.items.selected is None,
            app.items.items@.len() == report.state@.len(),
            forall|k: int|
                0 <= k < report.state@.len() ==> {
                    let item = #[trigger] app.items.items@[k];
                    let step = report.state@[k];
                    &&& item.0 == step.instruction.address
                    &&& item.1@ == step.instruction.mnemonic@
                    &&& item.2@ == step.instruction.operands@
                    &&& item.3 == step.reg_state
                },
    {
        let mut items: Vec<TraceItem> = Vec::new();
        let n: usize = report.state.len();
        let mut k: usize = 0;
        while k < n
            invariant
                n == report.state@.len(),
                k <= n,
                items@.len() == k,
                forall|j: int|
                    0 <= j < k ==> {
                        let item = #[trigger] items@[j];
                        let step = report.state@[j];
                        &&& item.0 == step.instruction.address
                        &&& item.1@ == step.instruction.mnemonic@
                        &&& item.2@ == step.instruction.operands@
                        &&& item.3 == step.reg_state
                    },
            decreases n - k,
        {
            let step = &report.state[k];
            items.push(
                (
                    step.instruction.address,
                    step.instruction.mnemonic.clone(),
                    step.instruction.operands.clone(),
                    step.reg_state,
                ),
            );
            k = k + 1;
        }
        EmuReportApp { items: StatefulList::with_items(items) }
    }

    /// Called on every tick of the viewer's clock; the viewer does nothing then.
    pub fn on_tick(&mut self)
        ensures
            final(self).items.selected == old(self).items.selected,
            final(self).items.items@ == old(self).items.items@,
    {
    }

    /// Whether `on_key` is defined for `key` in the current state.
    pub fn handles_key(&self, key: Key) -> (b: bool)
        ensures
            b == key_defined(key, self.items.selected, self.items.items@.len()),
    {
        match key {
            Key::Down => match self.items.selected {
                Some(_) => self.items.items.len() > 0,
                None => true,
            },
            Key::Up => match self.items.selected {
                Some(i) => i != 0 || self.items.items.len() > 0,
                None => true,
            },
            _ => true,
        }
    }

    /// Acts on a key press and says whether the viewer should quit: `q`
    /// quits, Left clears the selection, Down and Up move it, any other key
    /// does nothing.
    pub fn on_key(&mut self, key: Key) -> (quit: bool)
        requires
            key_defined(key, old(self).items.selected, old(self).items.items@.len()),
        ensures
            quit == (key == Key::Char('q')),
            final(self).items.items@ == old(self).items.items@,
            final(self).items.selected == key_selection(
                key,
                old(self).items.selected,
                old(self).items.items@.len(),
            ),
    {
        match key {
            Key::Char(c) => c == 'q',
            Key::Left => {
                self.items.unselect();
                false
            },
            Key::Down => {
                self.items.next();
                false
            },
            Key::Up => {
                self.items.previous();
                false
            },
            Key::Other => false,
        }
    }

    /// The register file of the selected step (of the first step when nothing
    /// is selected), which must exist.
    pub fn selected_registers(&self) -> (r: RegState)
        requires
            (match self.items.selected {
                Some(j) => j as int,
                None => 0,
            }) < self.items.items@.len(),
        ensures
            r == self.items.items@[match self.items.selected {
                Some(j) => j as int,
                None => 0,
            }].3,
    {
        let i: usize = self.items.get_selected();
        self.items.items[i].3
    }

    /// The text of every item of the instruction list, in order.
    pub fn instruction_lines(&self) -> (lines: Vec<String>)
        ensures
            lines@.len() == self.items.items@.len(),
            forall|k: int|
                0 <= k < lines@.len() ==> (#[trigger] lines@[k])@ == instruction_text(
                    self.items.items@[k].0,
                    self.items.items@[k].1@,
                    self.items.items@[k].2@,
                ),
    {
        let mut lines: Vec<String> = Vec::new();
        let n: usize = self.items.items.len();
        let mut k: usize = 0;
        while k < n
            invariant
                n == self.items.items@.len(),
                k <= n,
                lines@.len() == k,
                forall|j: int|
                    0 <= j < k ==> (#[trigger] lines@[j])@ == instruction_text(
                        self.items.items@[j].0,
                        self.items.items@[j].1@,
                        self.items.items@[j].2@,
                    ),
            decreases n - k,
        {
            let item = &self.items.items[k];
            lines.push(instruction_line(item.0, item.1.as_str(), item.2.as_str()));
            k = k + 1;
        }
        lines
    }
}

/// `0x`, the address in upper-case hexadecimal, the mnemonic and the operand
/// text, separated by spaces.
pub open spec fn instruction_text(address: u32, mnemonic: Seq<char>, operands: Seq<char>) -> Seq<
    char,
> {
    seq!['0', 'x'] + hex_string(address as nat) + seq![' '] + mnemonic + seq![' '] + operands
}

/// A register's name, `: 0x`, its value in upper-case hexadecimal, and its
/// value in decimal in parentheses.
pub open spec fn register_text(name: Seq<char>, value: u64) -> Seq<char> {
    name + seq![':', ' ', '0', 'x'] + hex_string(value as nat) + seq![' ', '('] + dec_string(
        value as nat,
    ) + seq![')']
}

/// A flag's name, `: 0x` and its bit in hexadecimal.
pub open spec fn flag_text(name: Seq<char>, bit: u64) -> Seq<char> {
    name + seq![':', ' ', '0', 'x'] + hex_string(bit as nat)
}

fn lit_hex_prefix() -> (s: &'static str)
    ensures
        s@ == seq!['0', 'x'],
{
    proof {
        reveal_strlit("0x");
    }
    "0x"
}

fn lit_space() -> (s: &'static str)
    ensures
        s@ == seq![' '],
{
    proof {
        reveal_strlit(" ");
    }
    " "
}

fn lit_colon_hex() -> (s: &'static str)
    ensures
        s@ == seq![':', ' ', '0', 'x'],
{
    proof {
        reveal_strlit(": 0x");
    }
    ": 0x"
}

fn lit_open_paren() -> (s: &'static str)
    ensures
        s@ == seq![' ', '('],
{
    proof {
        reveal_strlit(" (");
    }
    " ("
}

fn lit_close_paren() -> (s: &'static str)
    ensures
        s@ == seq![')'],
{
    proof {
        reveal_strlit(")");
    }
    ")"
}

/// The text of one item of the instruction list.
pub fn instruction_line(address: u32, mnemonic: &str, operands: &str) -> (s: String)
    ensures
        s@ == instruction_text(address, mnemonic@, operands@),
{
    let mut s = String::new();
    s.append(lit_hex_prefix());
    let h = hex_upper(address as u64);
    s.append(h.as_str());
    s.append(lit_space());
    s.append(mnemonic);
    s.append(lit_space());
    s.append(operands);
    assert(s@ =~= instruction_text(address, mnemonic@, operands@));
    s
}

/// The line of the register panel for a register called `name` holding `value`.
pub fn register_line(name: &str, value: u64) -> (s: String)
    ensures
        s@ == register_text(name@, value),
{
    let mut s = String::new();
    s.append(name);
    s.append(lit_colon_hex());
    let h = hex_upper(value);
    s.append(h.as_str());
    s.append(lit_open_paren());
    let d = decimal(value);
    s.append(d.as_str());
    s.append(lit_close_paren());
    assert(s@ =~= register_text(name@, value));
    s
}

/// The line of the flag panel for a flag called `name` with bit `bit`.
pub fn flag_line(name: &str, bit: u64) -> (s: String)
    ensures
        s@ == flag_text(name@, bit),
{
    let mut s = String::new();
    s.append(name);
    s.append(lit_colon_hex());
    let h = hex_upper(bit);
    s.append(h.as_str());
    assert(s@ =~= flag_text(name@, bit));
    s
}

/// The name of register `r`, as the panels show it.
pub open spec fn register_name(r: usize) -> Seq<char> {
    if r == EAX {
        seq!['E', 'A', 'X']
    } else if r == EBX {
        seq!['E', 'B', 'X']
    } else if r == ECX {
        seq!['E', 'C', 'X']
    } else if r == EDX {
        seq!['E', 'D', 'X']
    } else if r == EBP {
        seq!['E', 'B', 'P']
    } else if r == ESP {
        seq!['E', 'S', 'P']
    } else if r == ESI {
        seq!['E', 'S', 'I']
    } else if r == EDI {
        seq!['E', 'D', 'I']
    } else if r == EIP {
        seq!['E', 'I', 'P']
    } else {
        seq!['E', 'F', 'L', 'A', 'G', 'S']
    }
}

/// The name of register `r`, which is one of the registers the panels show.
fn register_name_str(r: usize) -> (s: &'static str)
    requires
        r == EAX || r == EBX || r == ECX || r == EDX || r == EBP || r == ESP || r == ESI || r
            == EDI || r == EIP || r == EFLAGS,
    ensures
        s@ == register_name(r),
{
    proof {
        reveal_strlit("EAX");
        reveal_strlit("EBX");
        reveal_strlit("ECX");
        reveal_strlit("EDX");
        reveal_strlit("EBP");
        reveal_strlit("ESP");
        reveal_strlit("ESI");
        reveal_strlit("EDI");
        reveal_strlit("EIP");
        reveal_strlit("EFLAGS");
    }
    let s = if r == EAX {
        "EAX"
    } else if r == EBX {
        "EBX"
    } else if r == ECX {
        "ECX"
    } else if r == EDX {
        "EDX"
    } else if r == EBP {
        "EBP"
    } else if r == ESP {
        "ESP"
    } else if r == ESI {
        "ESI"
    } else if r == EDI {
        "EDI"
    } else if r == EIP {
        "EIP"
    } else {
        "EFLAGS"
    };
    assert(s@ =~= register_name(r));
    s
}

/// The name of the `k`-th flag of the flag panel.
pub open spec fn flag_name(k: int) -> Seq<char> {
    if k == 0 {
        seq!['Z', 'F']
    } else if k == 1 {
        seq!['P', 'F']
    } else if k == 2 {
        seq!['A', 'F']
    } else if k == 3 {
        seq!['O', 'F']
    } else if k == 4 {
        seq!['S', 'F']
    } else if k == 5 {
        seq!['D', 'F']
    } else if k == 6 {
        seq!['C', 'F']
    } else if k == 7 {
        seq!['T', 'F']
    } else {
        seq!['I', 'F']
    }
}

/// The bit of EFLAGS that holds the `k`-th flag of the flag panel.
pub open spec fn flag_position(k: int) -> nat {
    if k == 0 {
        6
    } else if k == 1 {
        2
    } else if k == 2 {
        4
    } else if k == 3 {
        11
    } else if k == 4 {
        7
    } else if k == 5 {
        10
    } else if k == 6 {
        0
    } else if k == 7 {
        8
    } else {
        9
    }
}

/// The name of the `k`-th flag of the flag panel.
fn flag_name_str(k: usize) -> (s: &'static str)
    requires
        k < 9,
    ensures
        s@ == flag_name(k as int),
{
    proof {
        reveal_strlit("ZF");
        reveal_strlit("PF");
        reveal_strlit("AF");
        reveal_strlit("OF");
        reveal_strlit("SF");
        reveal_strlit("DF");
        reveal_strlit("CF");
        reveal_strlit("TF");
        reveal_strlit("IF");
    }
    let s = if k == 0 {
        "ZF"
    } else if k == 1 {
        "PF"
    } else if k == 2 {
        "AF"
    } else if k == 3 {
        "OF"
    } else if k == 4 {
        "SF"
    } else if k == 5 {
        "DF"
    } else if k == 6 {
        "CF"
    } else if k == 7 {
        "TF"
    } else {
        "IF"
    };
    assert(s@ =~= flag_name(k as int));
    s
}

/// The register shown on line `k` of the register panel.
pub open spec fn panel_register(k: int) -> usize {
    if k == 0 {
        EAX
    } else if k == 1 {
        EBX
    } else if k == 2 {
        ECX
    } else if k == 3 {
        EDX
    } else if k == 4 {
        EBP
    } else if k == 5 {
        ESP
    } else if k == 6 {
        ESI
    } else if k == 7 {
        EDI
    } else {
        EIP
    }
}

/// The register shown on line `k` of the register panel.
fn panel_register_at(k: usize) -> (r: usize)
    requires
        k < 9,
    ensures
        r == panel_register(k as int),
{
    if k == 0 {
        EAX
    } else if k == 1 {
        EBX
    } else if k == 2 {
        ECX
    } else if k == 3 {
        EDX
    } else if k == 4 {
        EBP
    } else if k == 5 {
        ESP
    } else if k == 6 {
        ESI
    } else if k == 7 {
        EDI
    } else {
        EIP
    }
}

/// Line `k` of the register panel of `regs`.
pub open spec fn register_panel_text(regs: RegState, k: int) -> Seq<char> {
    register_text(register_name(panel_register(k)), regs.reg@[panel_register(k) as int])
}

/// Line `k` of the flag panel of `regs`: the EFLAGS register first, then
/// one line per flag.
pub open spec fn flag_panel_text(regs: RegState, k: int) -> Seq<char> {
    if k == 0 {
        register_text(register_name(EFLAGS), regs.reg@[EFLAGS as int])
    } else {
        flag_text(flag_name(k - 1), flag_bit(regs.reg@[EFLAGS as int], flag_position(k - 1)))
    }
}

/// The register panel: EAX, EBX, ECX, EDX, EBP, ESP, ESI, EDI and EIP.
pub fn register_lines(regs: &RegState) -> (lines: Vec<String>)
    ensures
        lines@.len() == 9,
        forall|k: int| 0 <= k < 9 ==> (#[trigger] lines@[k])@ == register_panel_text(*regs, k),
        lines@[0]@ == register_text(seq!['E', 'A', 'X'], regs.reg@[19]),
        lines@[1]@ == register_text(seq!['E', 'B', 'X'], regs.reg@[21]),
        lines@[2]@ == register_text(seq!['E', 'C', 'X'], regs.reg@[22]),
        lines@[3]@ == register_text(seq!['E', 'D', 'X'], regs.reg@[24]),
        lines@[4]@ == register_text(seq!['E', 'B', 'P'], regs.reg@[20]),
        lines@[5]@ == register_text(seq!['E', 'S', 'P'], regs.reg@[30]),
        lines@[6]@ == register_text(seq!['E', 'S', 'I'], regs.reg@[29]),
        lines@[7]@ == register_text(seq!['E', 'D', 'I'], regs.reg@[23]),
        lines@[8]@ == register_text(seq!['E', 'I', 'P'], regs.reg@[26]),
{
    let mut lines: Vec<String> = Vec::new();
    let mut k: usize = 0;
    while k < 9
        invariant
            k <= 9,
            lines@.len() == k,
            forall|j: int| 0 <= j < k ==> (#[trigger] lines@[j])@ == register_panel_text(*regs, j),
        decreases 9 - k,
    {
        let r: usize = panel_register_at(k);
        lines.push(register_line(register_name_str(r), regs.get(r)));
        k = k + 1;
    }
    lines
}

/// The flag panel: the EFLAGS register, then ZF, PF, AF, OF, SF, DF, CF, TF
/// and IF.
pub fn flag_lines(regs: &RegState) -> (lines: Vec<String>)
    ensures
        lines@.len() == 10,
        forall|k: int| 0 <= k < 10 ==> (#[trigger] lines@[k])@ == flag_panel_text(*regs, k),
        lines@[0]@ == register_text(seq!['E', 'F', 'L', 'A', 'G', 'S'], regs.reg@[25]),
        lines@[1]@ == flag_text(seq!['Z', 'F'], flag_bit(regs.reg@[25], 6)),
        lines@[2]@ == flag_text(seq!['P', 'F'], flag_bit(regs.reg@[25], 2)),
        lines@[3]@ == flag_text(seq!['A', 'F'], flag_bit(regs.reg@[25], 4)),
        lines@[4]@ == flag_text(seq!['O', 'F'], flag_bit(regs.reg@[25], 11)),
        lines@[5]@ == flag_text(seq!['S', 'F'], flag_bit(regs.reg@[25], 7)),
        lines@[6]@ == flag_text(seq!['D', 'F'], flag_bit(regs.reg@[25], 10)),
        lines@[7]@ == flag_text(seq!['C', 'F'], flag_bit(regs.reg@[25], 0)),
        lines@[8]@ == flag_text(seq!['T', 'F'], flag_bit(regs.reg@[25], 8)),
        lines@[9]@ == flag_text(seq!['I', 'F'], flag_bit(regs.reg@[25], 9)),
{
    let flags: u64 = regs.get(EFLAGS);
    let f = eflags_bits(flags);
    let bits: [u64; 9] = [f.zf, f.pf, f.af, f.of, f.sf, f.df, f.cf, f.tf, f.if_];
    assert(forall|j: int| 0 <= j < 9 ==> bits@[j] == flag_bit(flags, flag_position(j)));
    let mut lines: Vec<String> = Vec::new();
    lines.push(register_line(register_name_str(EFLAGS), flags));
    let mut k: usize = 0;
    while k < 9
        invariant
            k <= 9,
            flags == regs.reg@[EFLAGS as int],
            forall|j: int| 0 <= j < 9 ==> bits@[j] == flag_bit(flags, flag_position(j)),
            lines@.len() == k + 1,
            forall|j: int| 0 <= j < k + 1 ==> (#[trigger] lines@[j])@ == flag_panel_text(*regs, j),
        decreases 9 - k,
    {
        lines.push(flag_line(flag_name_str(k), bits[k]));
        k = k + 1;
    }
    lines
}

} // verus!
