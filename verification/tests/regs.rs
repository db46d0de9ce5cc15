use remu::regs::{
    eflags_bits, tracked_register, RegState, EAX, EBP, EBX, ECX, EDI, EDX, EFLAGS, EIP, ESI, ESP,
    REG_COUNT, TRACKED_COUNT,
};

#[test]
fn from_values_fills_captured_registers() {
    let values = [1u64, 2, 3, 4, 5, 6, 7, 8, 9, 10];
    let s = RegState::from_values(&values);
    assert_eq!(s.reg[EAX], 1);
    assert_eq!(s.reg[EBX], 2);
    assert_eq!(s.reg[ECX], 3);
    assert_eq!(s.reg[EDX], 4);
    assert_eq!(s.reg[EDI], 5);
    assert_eq!(s.reg[ESI], 6);
    assert_eq!(s.reg[EIP], 7);
    assert_eq!(s.reg[ESP], 8);
    assert_eq!(s.reg[EBP], 9);
    assert_eq!(s.reg[EFLAGS], 10);
    let nonzero = s.reg.iter().filter(|v| **v != 0).count();
    assert_eq!(nonzero, TRACKED_COUNT);
    assert_eq!(s.get(0), 0);
    assert_eq!(s.get(REG_COUNT - 1), 0);
}

#[test]
fn capture_order() {
    let order: Vec<usize> = (0..TRACKED_COUNT).map(tracked_register).collect();
    assert_eq!(order, vec![EAX, EBX, ECX, EDX, EDI, ESI, EIP, ESP, EBP, EFLAGS]);
    assert_eq!((EAX, EBP, EBX, ECX, EDI, EDX, EFLAGS, EIP, ESI, ESP), (19, 20, 21, 22, 23, 24, 25, 26, 29, 30));
}

#[test]
fn eflags_split() {
    let f = eflags_bits(0);
    assert_eq!((f.cf, f.pf, f.af, f.zf, f.sf, f.tf, f.if_, f.df, f.of), (0, 0, 0, 0, 0, 0, 0, 0, 0));
    let f = eflags_bits(0x246);
    assert_eq!((f.cf, f.pf, f.af, f.zf, f.sf, f.tf, f.if_, f.df, f.of), (0, 1, 0, 1, 0, 0, 1, 0, 0));
    let f = eflags_bits(0xFFFF_FFFF_FFFF_FFFF);
    assert_eq!((f.cf, f.pf, f.af, f.zf, f.sf, f.tf, f.if_, f.df, f.of), (1, 1, 1, 1, 1, 1, 1, 1, 1));
    let f = eflags_bits(1 << 11 | 1 << 7 | 1);
    assert_eq!((f.cf, f.sf, f.of, f.zf), (1, 1, 1, 0));
}
