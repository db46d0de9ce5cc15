use remu::image::{map_to_vmem, section, virtual_mapping, MIN_FILE_LEN, SECTION_COUNT, VMEM_SIZE};

fn sample_file() -> Vec<u8> {
    (0..MIN_FILE_LEN).map(|i| (i % 251) as u8 + 1).collect()
}

#[test]
fn map_to_vmem_splices_in_place() {
    let mut v = vec![1u8, 2, 3, 4];
    map_to_vmem(&mut v, &[9, 8], 2);
    assert_eq!(v, vec![1, 2, 9, 8, 3, 4]);
}

#[test]
fn map_to_vmem_at_end_and_start() {
    let mut v = vec![1u8, 2];
    map_to_vmem(&mut v, &[7], 2);
    assert_eq!(v, vec![1, 2, 7]);
    map_to_vmem(&mut v, &[5, 6], 0);
    assert_eq!(v, vec![5, 6, 1, 2, 7]);
    map_to_vmem(&mut v, &[], 3);
    assert_eq!(v, vec![5, 6, 1, 2, 7]);
}

#[test]
fn virtual_mapping_length() {
    let pe = sample_file();
    let vmem = virtual_mapping(&pe);
    assert_eq!(vmem.len(), VMEM_SIZE + MIN_FILE_LEN - 0x400);
    assert_eq!(vmem.len(), 0x226E00);
}

#[test]
fn virtual_mapping_places_sections_at_their_addresses() {
    let pe = sample_file();
    let vmem = virtual_mapping(&pe);
    for i in 0..SECTION_COUNT {
        let s = section(i);
        assert_eq!(
            &vmem[s.vaddr..s.vaddr + s.size],
            &pe[s.file_offset..s.file_offset + s.size]
        );
    }
    assert!(vmem[..0x1000].iter().all(|b| *b == 0));
    assert!(vmem[0x3A00..0x4000].iter().all(|b| *b == 0));
}

#[test]
fn virtual_mapping_of_a_longer_file_ignores_the_rest() {
    let mut pe = sample_file();
    let a = virtual_mapping(&pe);
    pe.extend_from_slice(&[0xAA; 100]);
    let b = virtual_mapping(&pe);
    assert_eq!(a, b);
}

#[test]
fn section_table_entries() {
    let first = section(0);
    assert_eq!((first.file_offset, first.size, first.vaddr), (0x400, 0x2A00, 0x1000));
    let last = section(8);
    assert_eq!((last.file_offset, last.size, last.vaddr), (0x26C00, 0x600, 0x2D000));
    assert_eq!(last.file_offset + last.size, MIN_FILE_LEN);
}
