//! Layout of the PE image in the emulator's memory.
//!
//! The image is built from a zeroed buffer into which every section of the
//! file is spliced at its virtual address: bytes already at or after that
//! address move up by the section's length.

use vstd::prelude::*;

verus! {

/// Size of the zeroed buffer into which the sections are spliced.
pub const VMEM_SIZE: usize = 0x200000;

/// Number of sections that the layout copies out of the file.
pub const SECTION_COUNT: usize = 9;

/// Smallest file length for which every section lies inside the file.
pub const MIN_FILE_LEN: usize = 0x27200;

/// One section of the file: where it starts in the file, how many bytes it
/// has, and the virtual address (relative to the image base) it is spliced at.
#[derive(Clone, Copy, Debug, PartialEq, Eq)]
pub struct Section {
    pub file_offset: usize,
    pub size: usize,
    pub vaddr: usize,
}

/// The section table, in the order in which the sections are spliced.
pub open spec fn spec_section(i: int) -> Section {
    if i == 0 {
        Section { file_offset: 0x400, size: 0x2A00, vaddr: 0x1000 }
    } else if i == 1 {
        Section { file_offset: 0x2E00, size: 0x1400, vaddr: 0x4000 }
    } else if i == 2 {
        Section { file_offset: 0x4200, size: 0x1200, vaddr: 0x6000 }
    } else if i == 3 {
        Section { file_offset: 0x5400, size: 0x200, vaddr: 0x8000 }
    } else if i == 4 {
        Section { file_offset: 0x5600, size: 0x10A00, vaddr: 0x9000 }
    } else if i == 5 {
        Section { file_offset: 0x16000, size: 0x800, vaddr: 0x1A000 }
    } else if i == 6 {
        Section { file_offset: 0x16800, size: 0x10200, vaddr: 0x1B000 }
    } else if i == 7 {
        Section { file_offset: 0x26A00, size: 0x200, vaddr: 0x2C000 }
    } else {
        Section { file_offset: 0x26C00, size: 0x600, vaddr: 0x2D000 }
    }
}

/// The `i`-th entry of the section table.
pub fn section(i: usize) -> (s: Section)
    requires
        i < SECTION_COUNT,
    ensures
        s == spec_section(i as int),
{
    if i == 0 {
        Section { file_offset: 0x400, size: 0x2A00, vaddr: 0x1000 }
    } else if i == 1 {
        Section { file_offset: 0x2E00, size: 0x1400, vaddr: 0x4000 }
    } else if i == 2 {
        Section { file_offset: 0x4200, size: 0x1200, vaddr: 0x6000 }
    } else if i == 3 {
        Section { file_offset: 0x5400, size: 0x200, vaddr: 0x8000 }
    } else if i == 4 {
        Section { file_offset: 0x5600, size: 0x10A00, vaddr: 0x9000 }
    } else if i == 5 {
        Section { file_offset: 0x16000, size: 0x800, vaddr: 0x1A000 }
    } else if i == 6 {
        Section { file_offset: 0x16800, size: 0x10200, vaddr: 0x1B000 }
    } else if i == 7 {
        Section { file_offset: 0x26A00, size: 0x200, vaddr: 0x2C000 }
    } else {
        Section { file_offset: 0x26C00, size: 0x600, vaddr: 0x2D000 }
    }
}

/// `s` spliced into `v` at index `at`.
pub open spec fn splice_at(v: Seq<u8>, s: Seq<u8>, at: int) -> Seq<u8> {
    v.take(at) + s + v.skip(at)
}

/// The bytes of the `i`-th section, taken from the file `pe`.
pub open spec fn section_bytes(pe: Seq<u8>, i: int) -> Seq<u8> {
    let s = spec_section(i);
    pe.subrange(s.file_offset as int, s.file_offset + s.size)
}

/// The buffer after the first `n` sections of `pe` have been spliced in.
pub open spec fn image_after(pe: Seq<u8>, n: nat) -> Seq<u8>
    decreases n,
{
    if n == 0 {
        Seq::new(VMEM_SIZE as nat, |i: int| 0u8)
    } else {
        splice_at(image_after(pe, (n - 1) as nat), section_bytes(pe, n - 1), spec_section(n - 1).vaddr as int)
    }
}

/// The memory image of the file `pe`: every section spliced in, in table order.
pub open spec fn virtual_image(pe: Seq<u8>) -> Seq<u8> {
    image_after(pe, SECTION_COUNT as nat)
}

/// Total number of section bytes among the first `n` table entries.
pub open spec fn sections_size(n: nat) -> nat
    decreases n,
{
    if n == 0 {
        0
    } else {
        sections_size((n - 1) as nat) + (spec_section(n - 1).size as nat)
    }
}

/// Splices `section` into `vmem` at index `vaddr`: the bytes from `vaddr` on
/// move up by the section's length.
pub fn map_to_vmem(vmem: &mut Vec<u8>, section: &[u8], vaddr: usize)
    requires
        vaddr <= old(vmem)@.len(),
        old(vmem)@.len() + section@.len() <= usize::MAX,
    ensures
        final(vmem)@ == splice_at(old(vmem)@, section@, vaddr as int),
{
    let mut tail = vmem.split_off(vaddr);
    let ghost head = vmem@;
    let n: usize = section.len();
    let mut i: usize = 0;
    while i < n
        invariant
            n == section@.len(),
            i <= n,
            vmem@ == head + section@.take(i as int),
        decreases n - i,
    {
        vmem.push(section[i]);
        i = i + 1;
        assert(section@.take(i as int) == section@.take((i - 1) as int).push(section@[i - 1]));
    }
    assert(section@.take(n as int) == section@);
    vmem.append(&mut tail);
}

/// The length of the image after `n` sections is the buffer size plus the
/// sizes of those sections, and every later splice address lies inside it.
pub proof fn lemma_image_len(pe: Seq<u8>, n: nat)
    requires
        n <= SECTION_COUNT,
        pe.len() >= MIN_FILE_LEN,
    ensures
        image_after(pe, n).len() == VMEM_SIZE + sections_size(n),
    decreases n,
{
    if n > 0 {
        lemma_image_len(pe, (n - 1) as nat);
        reveal_with_fuel(sections_size, 2);
    }
}

/// Each section starts at or after the end of the previous one's place.
proof fn lemma_sections_ordered(i: int, j: int)
    requires
        0 <= i < j < SECTION_COUNT,
    ensures
        spec_section(i).vaddr + spec_section(i).size <= spec_section(j).vaddr,
{
}

/// Once section `i` has been spliced in, it stays at its virtual address
/// while the later sections are spliced in.
proof fn lemma_section_stays(pe: Seq<u8>, i: int, n: nat)
    requires
        0 <= i < n <= SECTION_COUNT,
        pe.len() >= MIN_FILE_LEN,
    ensures
        image_after(pe, n).subrange(
            spec_section(i).vaddr as int,
            spec_section(i).vaddr + spec_section(i).size,
        ) == section_bytes(pe, i),
    decreases n,
{
    let s = spec_section(i);
    lemma_image_len(pe, (n - 1) as nat);
    if n - 1 == i {
        assert(image_after(pe, n).subrange(s.vaddr as int, s.vaddr + s.size) =~= section_bytes(
            pe,
            i,
        ));
    } else {
        lemma_section_stays(pe, i, (n - 1) as nat);
        lemma_sections_ordered(i, n - 1);
        let prev = image_after(pe, (n - 1) as nat);
        let cur = image_after(pe, n);
        assert(cur.subrange(s.vaddr as int, s.vaddr + s.size) =~= prev.subrange(
            s.vaddr as int,
            s.vaddr + s.size,
        ));
    }
}

/// The memory image is the zeroed buffer grown by the sizes of all sections,
/// and every section of the file stands at its virtual address in it.
pub proof fn lemma_virtual_image(pe: Seq<u8>)
    requires
        pe.len() >= MIN_FILE_LEN,
    ensures
        virtual_image(pe).len() == VMEM_SIZE + (MIN_FILE_LEN - 0x400),
        forall|i: int|
            0 <= i < SECTION_COUNT ==> #[trigger] virtual_image(pe).subrange(
                spec_section(i).vaddr as int,
                spec_section(i).vaddr + spec_section(i).size,
            ) == section_bytes(pe, i),
{
    lemma_image_len(pe, SECTION_COUNT as nat);
    reveal_with_fuel(sections_size, 10);
    assert forall|i: int| 0 <= i < SECTION_COUNT implies #[trigger] virtual_image(pe).subrange(
        spec_section(i).vaddr as int,
        spec_section(i).vaddr + spec_section(i).size,
    ) == section_bytes(pe, i) by {
        lemma_section_stays(pe, i, SECTION_COUNT as nat);
    }
}

/// Where each section of the file lands in the memory image: the bytes at
/// file offsets `0x400..0x2E00` (.text) at image offset `0x1000`,
/// `0x2E00..0x4200` at `0x4000`, `0x4200..0x5400` (.rdata) at `0x6000`,
/// `0x5400..0x5600` (.data) at `0x8000`, `0x5600..0x16000` at `0x9000`,
/// `0x16000..0x16800` at `0x1A000`, `0x16800..0x26A00` at `0x1B000`,
/// `0x26A00..0x26C00` (.rsrc) at `0x2C000` and `0x26C00..0x27200` (.reloc) at
/// `0x2D000`; the first `0x1000` bytes of the image are zero.
pub proof fn lemma_file_layout(pe: Seq<u8>)
    requires
        pe.len() >= MIN_FILE_LEN,
    ensures
        virtual_image(pe).subrange(0x1000, 0x3A00) == pe.subrange(0x400, 0x2E00),
        virtual_image(pe).subrange(0x4000, 0x5400) == pe.subrange(0x2E00, 0x4200),
        virtual_image(pe).subrange(0x6000, 0x7200) == pe.subrange(0x4200, 0x5400),
        virtual_image(pe).subrange(0x8000, 0x8200) == pe.subrange(0x5400, 0x5600),
        virtual_image(pe).subrange(0x9000, 0x19A00) == pe.subrange(0x5600, 0x16000),
        virtual_image(pe).subrange(0x1A000, 0x1A800) == pe.subrange(0x16000, 0x16800),
        virtual_image(pe).subrange(0x1B000, 0x2B200) == pe.subrange(0x16800, 0x26A00),
        virtual_image(pe).subrange(0x2C000, 0x2C200) == pe.subrange(0x26A00, 0x26C00),
        virtual_image(pe).subrange(0x2D000, 0x2D600) == pe.subrange(0x26C00, 0x27200),
        forall|j: int| 0 <= j < 0x1000 ==> virtual_image(pe)[j] == 0u8,
{
    lemma_virtual_image(pe);
    let img = virtual_image(pe);
    assert(img.subrange(spec_section(0).vaddr as int, spec_section(0).vaddr + spec_section(0).size)
        == section_bytes(pe, 0));
    assert(img.subrange(spec_section(1).vaddr as int, spec_section(1).vaddr + spec_section(1).size)
        == section_bytes(pe, 1));
    assert(img.subrange(spec_section(2).vaddr as int, spec_section(2).vaddr + spec_section(2).size)
        == section_bytes(pe, 2));
    assert(img.subrange(spec_section(3).vaddr as int, spec_section(3).vaddr + spec_section(3).size)
        == section_bytes(pe, 3));
    assert(img.subrange(spec_section(4).vaddr as int, spec_section(4).vaddr + spec_section(4).size)
        == section_bytes(pe, 4));
    assert(img.subrange(spec_section(5).vaddr as int, spec_section(5).vaddr + spec_section(5).size)
        == section_bytes(pe, 5));
    assert(img.subrange(spec_section(6).vaddr as int, spec_section(6).vaddr + spec_section(6).size)
        == section_bytes(pe, 6));
    assert(img.subrange(spec_section(7).vaddr as int, spec_section(7).vaddr + spec_section(7).size)
        == section_bytes(pe, 7));
    assert(img.subrange(spec_section(8).vaddr as int, spec_section(8).vaddr + spec_section(8).size)
        == section_bytes(pe, 8));
    lemma_zero_prefix(pe, SECTION_COUNT as nat);
}

/// Splicing never reaches below the first section's address, so the bytes
/// there stay zero.
proof fn lemma_zero_prefix(pe: Seq<u8>, n: nat)
    requires
        n <= SECTION_COUNT,
        pe.len() >= MIN_FILE_LEN,
    ensures
        forall|j: int| 0 <= j < 0x1000 ==> image_after(pe, n)[j] == 0u8,
    decreases n,
{
    if n > 0 {
        lemma_zero_prefix(pe, (n - 1) as nat);
        lemma_image_len(pe, (n - 1) as nat);
        reveal_with_fuel(sections_size, 10);
        let prev = image_after(pe, (n - 1) as nat);
        let at = spec_section(n - 1).vaddr as int;
        assert(at >= 0x1000);
        assert forall|j: int| 0 <= j < 0x1000 implies image_after(pe, n)[j] == 0u8 by {
            assert(image_after(pe, n)[j] == prev[j]);
        }
    }
}

/// Builds the memory image of the PE file `pe`.
pub fn virtual_mapping(pe: &[u8]) -> (vmem: Vec<u8>)
    requires
        pe@.len() >= MIN_FILE_LEN,
    ensures
        vmem@ == virtual_image(pe@),
{
    let mut vmem: Vec<u8> = vec![0u8; VMEM_SIZE];
    assert(vmem@ == image_after(pe@, 0));
    let mut i: usize = 0;
    while i < SECTION_COUNT
        invariant
            i <= SECTION_COUNT,
            pe@.len() >= MIN_FILE_LEN,
            vmem@ == image_after(pe@, i as nat),
        decreases SECTION_COUNT - i,
    {
        let s = section(i);
        proof {
            lemma_image_len(pe@, i as nat);
            reveal_with_fuel(sections_size, 10);
        }
        let bytes = &pe[s.file_offset..s.file_offset + s.size];
        map_to_vmem(&mut vmem, bytes, s.vaddr);
        i = i + 1;
    }
    vmem
}

} // verus!
