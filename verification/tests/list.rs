use remu::disasm::{EmuReport, Instruction};
use remu::list::{
    flag_line, flag_lines, instruction_line, register_line, register_lines, EmuReportApp, Key,
    StatefulList,
};
use remu::regs::RegState;

#[test]
fn next_wraps_around() {
    let mut l = StatefulList::with_items(vec![10, 20, 30]);
    assert_eq!(l.selected, None);
    assert_eq!(l.get_selected(), 0);
    l.next();
    assert_eq!(l.selected, Some(0));
    l.next();
    l.next();
    assert_eq!(l.selected, Some(2));
    l.next();
    assert_eq!(l.selected, Some(0));
}

#[test]
fn previous_wraps_around() {
    let mut l = StatefulList::with_items(vec!['a', 'b', 'c']);
    l.previous();
    assert_eq!(l.selected, Some(0));
    l.previous();
    assert_eq!(l.selected, Some(2));
    l.previous();
    assert_eq!(l.selected, Some(1));
}

#[test]
fn previous_undoes_next() {
    for start in 0..4usize {
        let mut l = StatefulList::with_items(vec![1, 2, 3, 4]);
        l.selected = Some(start);
        l.next();
        l.previous();
        assert_eq!(l.selected, Some(start));
        l.previous();
        l.next();
        assert_eq!(l.selected, Some(start));
    }
}

#[test]
fn next_once_per_item_comes_back() {
    let mut l = StatefulList::with_items(vec![(); 5]);
    l.selected = Some(3);
    for _ in 0..5 {
        l.next();
    }
    assert_eq!(l.selected, Some(3));
}

#[test]
fn unselect_clears() {
    let mut l = StatefulList::with_items(vec![1, 2]);
    l.next();
    l.next();
    assert_eq!(l.get_selected(), 1);
    l.unselect();
    assert_eq!(l.selected, None);
    assert_eq!(l.get_selected(), 0);
}

#[test]
fn empty_list_moves() {
    let mut l: StatefulList<u8> = StatefulList::with_items(vec![]);
    l.next();
    assert_eq!(l.selected, Some(0));
    let mut l: StatefulList<u8> = StatefulList::with_items(vec![]);
    l.previous();
    assert_eq!(l.selected, Some(0));
}

fn regs(eax: u64, eflags: u64) -> RegState {
    RegState::from_values(&[eax, 2, 3, 4, 5, 6, 0x401000, 0x1000800, 0x1001000, eflags])
}

fn sample_report() -> EmuReport {
    let mut report = EmuReport::new().unwrap();
    report.record(Instruction::new("push".to_string(), "ebp".to_string(), 0x401F8C), regs(1, 0x246));
    report.record(Instruction::new("nop".to_string(), String::new(), 0x401F8D), regs(2, 0x202));
    report
}

#[test]
fn app_items_follow_report() {
    let app = EmuReportApp::new(&sample_report());
    assert_eq!(app.items.items.len(), 2);
    assert_eq!(app.items.selected, None);
    assert_eq!(app.items.items[0].0, 0x401F8C);
    assert_eq!(app.items.items[0].1, "push");
    assert_eq!(app.items.items[0].2, "ebp");
    assert_eq!(app.items.items[1].3.reg[19], 2);
}

#[test]
fn app_keys() {
    let mut app = EmuReportApp::new(&sample_report());
    assert!(!app.on_key(Key::Down));
    assert_eq!(app.items.selected, Some(0));
    assert!(!app.on_key(Key::Down));
    assert_eq!(app.items.selected, Some(1));
    assert!(!app.on_key(Key::Down));
    assert_eq!(app.items.selected, Some(0));
    assert!(!app.on_key(Key::Up));
    assert_eq!(app.items.selected, Some(1));
    assert!(!app.on_key(Key::Char('x')));
    assert!(!app.on_key(Key::Other));
    assert_eq!(app.items.selected, Some(1));
    assert!(!app.on_key(Key::Left));
    assert_eq!(app.items.selected, None);
    assert!(app.on_key(Key::Char('q')));
    app.on_tick();
    assert_eq!(app.items.selected, None);
}

#[test]
fn handles_key_on_empty_list() {
    let mut app = EmuReportApp::new(&EmuReport::new().unwrap());
    assert!(app.handles_key(Key::Down));
    assert!(!app.on_key(Key::Down));
    assert!(!app.handles_key(Key::Down));
    assert!(!app.handles_key(Key::Up));
    assert!(app.handles_key(Key::Left));
    assert!(app.handles_key(Key::Char('q')));
}

#[test]
fn selected_registers() {
    let mut app = EmuReportApp::new(&sample_report());
    assert_eq!(app.selected_registers().reg[19], 1);
    app.on_key(Key::Up);
    app.on_key(Key::Up);
    assert_eq!(app.selected_registers().reg[19], 2);
}

#[test]
fn instruction_list_text() {
    let app = EmuReportApp::new(&sample_report());
    assert_eq!(app.instruction_lines(), vec!["0x401F8C push ebp".to_string(), "0x401F8D nop ".to_string()]);
    assert_eq!(instruction_line(0xAB, "mov", "eax, 1"), format!("0x{:X} {} {}", 0xABu32, "mov", "eax, 1"));
}

#[test]
fn register_panel_text() {
    let lines = register_lines(&regs(0x1F, 0));
    assert_eq!(
        lines,
        vec![
            "EAX: 0x1F (31)",
            "EBX: 0x2 (2)",
            "ECX: 0x3 (3)",
            "EDX: 0x4 (4)",
            "EBP: 0x1001000 (16781312)",
            "ESP: 0x1000800 (16779264)",
            "ESI: 0x6 (6)",
            "EDI: 0x5 (5)",
            "EIP: 0x401000 (4198400)",
        ]
    );
    assert_eq!(register_line("EAX", 255), format!("{}: 0x{:X} ({})", "EAX", 255, 255));
}

#[test]
fn flag_panel_text() {
    let lines = flag_lines(&regs(0, 0x246));
    assert_eq!(
        lines,
        vec![
            "EFLAGS: 0x246 (582)",
            "ZF: 0x1",
            "PF: 0x1",
            "AF: 0x0",
            "OF: 0x0",
            "SF: 0x0",
            "DF: 0x0",
            "CF: 0x0",
            "TF: 0x0",
            "IF: 0x1",
        ]
    );
    assert_eq!(flag_line("CF", 1), "CF: 0x1");
}

#[test]
fn key_sequence_folds() {
    let mut app = EmuReportApp::new(&sample_report());
    let keys = [Key::Down, Key::Down, Key::Char('x'), Key::Up, Key::Left, Key::Up, Key::Down];
    let mut expected: Option<usize> = None;
    for key in keys {
        assert!(app.handles_key(key));
        assert!(!app.on_key(key));
        let len = app.items.items.len();
        expected = match key {
            Key::Left => None,
            Key::Down => Some(match expected { Some(i) if i + 1 < len => i + 1, Some(_) => 0, None => 0 }),
            Key::Up => Some(match expected { Some(0) => len - 1, Some(i) => i - 1, None => 0 }),
            _ => expected,
        };
        assert_eq!(app.items.selected, expected);
    }
    assert_eq!(app.items.selected, Some(1));
    assert_eq!(app.items.items.len(), 2);
}

#[test]
fn next_k_times_selects_i_plus_k_mod_n() {
    for n in 1..6usize {
        for i in 0..n {
            for k in 0..(2 * n + 1) {
                let mut l = StatefulList::with_items(vec![0u8; n]);
                l.selected = Some(i);
                for _ in 0..k {
                    l.next();
                }
                assert_eq!(l.selected, Some((i + k) % n));
            }
        }
    }
}
