//! The x86 register file as the tracer records it.
//!
//! Registers are numbered as the emulator numbers them; a register state is
//! one 64-bit slot per register number, of which the tracer fills ten.

use vstd::prelude::*;

verus! {

/// Number of register slots (one past the highest register number).
pub const REG_COUNT: usize = 259;

/// Number of registers that a recorded step captures.
pub const TRACKED_COUNT: usize = 10;

pub const EAX: usize = 19;
pub const EBP: usize = 20;
pub const EBX: usize = 21;
pub const ECX: usize = 22;
pub const EDI: usize = 23;
pub const EDX: usize = 24;
pub const EFLAGS: usize = 25;
pub const EIP: usize = 26;
pub const ESI: usize = 29;
pub const ESP: usize = 30;

/// The register captured in position `k` of a step, in capture order.
pub open spec fn spec_tracked_register(k: int) -> usize {
    if k == 0 {
        EAX
    } else if k == 1 {
        EBX
    } else if k == 2 {
        ECX
    } else if k == 3 {
        EDX
    } else if k == 4 {
        EDI
    } else if k == 5 {
        ESI
    } else if k == 6 {
        EIP
    } else if k == 7 {
        ESP
    } else if k == 8 {
        EBP
    } else {
        EFLAGS
    }
}

/// The register captured in position `k` of a step.
pub fn tracked_register(k: usize) -> (r: usize)
    requires
        k < TRACKED_COUNT,
    ensures
        r == spec_tracked_register(k as int),
        r < REG_COUNT,
{
    if k == 0 {
        EAX
    } else if k == 1 {
        EBX
    } else if k == 2 {
        ECX
    } else if k == 3 {
        EDX
    } else if k == 4 {
        EDI
    } else if k == 5 {
        ESI
    } else if k == 6 {
        EIP
    } else if k == 7 {
        ESP
    } else if k == 8 {
        EBP
    } else {
        EFLAGS
    }
}

/// Whether register number `r` is one that a step captures.
pub open spec fn is_tracked(r: int) -> bool {
    exists|k: int| 0 <= k < TRACKED_COUNT && spec_tracked_register(k) == r
}

/// The register file of one step.
#[derive(Clone, Copy, Debug)]
pub struct RegState {
    pub reg: [u64; 259],
}

impl RegState {
    /// The register state whose captured registers hold `values` (in capture
    /// order) and whose other slots are zero.
    pub fn from_values(values: &[u64; 10]) -> (s: RegState)
        ensures
            forall|k: int| 0 <= k < TRACKED_COUNT ==> s.reg@[spec_tracked_register(k) as int]
                == #[trigger] values@[k],
            forall|r: int| 0 <= r < REG_COUNT && !is_tracked(r) ==> s.reg@[r] == 0,
    {
        let mut reg = [0u64; 259];
        let mut k: usize = 0;
        while k < TRACKED_COUNT
            invariant
                k <= TRACKED_COUNT,
                reg@.len() == REG_COUNT,
                forall|j: int| 0 <= j < k ==> reg@[spec_tracked_register(j) as int] == #[trigger] values@[j],
                forall|r: int|
                    0 <= r < REG_COUNT && !(exists|j: int| 0 <= j < k && spec_tracked_register(j) == r)
                        ==> reg@[r] == 0,
            decreases TRACKED_COUNT - k,
        {
            let r: usize = tracked_register(k);
            reg[r] = values[k];
            k = k + 1;
        }
        RegState { reg }
    }

    /// The value held in register slot `r`.
    pub fn get(&self, r: usize) -> (v: u64)
        requires
            r < REG_COUNT,
        ensures
            v == self.reg@[r as int],
    {
        self.reg[r]
    }
}

/// Bit `k` of `flags`.
pub open spec fn flag_bit(flags: u64, k: nat) -> u64 {
    ((flags as nat / vstd::arithmetic::power2::pow2(k)) % 2) as u64
}

/// The status and control flags of an EFLAGS value, each 0 or 1.
#[derive(Clone, Copy, Debug, PartialEq, Eq)]
pub struct Eflags {
    pub zf: u64,
    pub pf: u64,
    pub af: u64,
    pub of: u64,
    pub sf: u64,
    pub df: u64,
    pub cf: u64,
    pub tf: u64,
    pub if_: u64,
}

/// Splits an EFLAGS value into its flags: carry (bit 0), parity (2), adjust
/// (4), zero (6), sign (7), trap (8), interrupt (9), direction (10) and
/// overflow (11).
pub fn eflags_bits(flags: u64) -> (f: Eflags)
    ensures
        f.cf == flag_bit(flags, 0),
        f.pf == flag_bit(flags, 2),
        f.af == flag_bit(flags, 4),
        f.zf == flag_bit(flags, 6),
        f.sf == flag_bit(flags, 7),
        f.tf == flag_bit(flags, 8),
        f.if_ == flag_bit(flags, 9),
        f.df == flag_bit(flags, 10),
        f.of == flag_bit(flags, 11),
{
    let f = Eflags {
        zf: (flags >> 6u64) & 1,
        pf: (flags >> 2u64) & 1,
        af: (flags >> 4u64) & 1,
        of: (flags >> 11u64) & 1,
        sf: (flags >> 7u64) & 1,
        df: (flags >> 10u64) & 1,
        cf: (flags >> 0u64) & 1,
        tf: (flags >> 8u64) & 1,
        if_: (flags >> 9u64) & 1,
    };
    proof {
        lemma_bit(flags, 0);
        lemma_bit(flags, 2);
        lemma_bit(flags, 4);
        lemma_bit(flags, 6);
        lemma_bit(flags, 7);
        lemma_bit(flags, 8);
        lemma_bit(flags, 9);
        lemma_bit(flags, 10);
        lemma_bit(flags, 11);
    }
    f
}

/// Shifting right by `k` and masking the lowest bit gives bit `k`.
proof fn lemma_bit(flags: u64, k: u64)
    requires
        k < 64,
    ensures
        (flags >> k) & 1 == flag_bit(flags, k as nat),
{
    vstd::bits::lemma_u64_shr_is_div(flags, k);
    let q: u64 = flags >> k;
    assert(q & 1 == q % 2) by (bit_vector);
}

} // verus!
