use imo::binary::BinaryError;
use imo::dwarf::{Abi, Endianness, SectionBases};
use imo::session::DebugSession;

/// A little-endian 64-bit ELF executable with the named sections (name,
/// address, contents) and a section name table.
fn elf(sections: &[(&str, u64, &[u8])]) -> Vec<u8> {
    let mut names: Vec<u8> = vec![0];
    let mut name_offsets = Vec::new();
    for (name, _, _) in sections {
        name_offsets.push(names.len() as u32);
        names.extend_from_slice(name.as_bytes());
        names.push(0);
    }
    let shstrtab_name = names.len() as u32;
    names.extend_from_slice(b".shstrtab\0");

    let mut data: Vec<u8> = Vec::new();
    let mut placed = Vec::new();
    let data_start = 64u64;
    for (_, _, contents) in sections {
        placed.push(data_start + data.len() as u64);
        data.extend_from_slice(contents);
    }
    let names_offset = data_start + data.len() as u64;
    data.extend_from_slice(&names);
    while data.len() % 8 != 0 {
        data.push(0);
    }
    let shoff = data_start + data.len() as u64;
    let shnum = sections.len() as u16 + 2;

    let mut out: Vec<u8> = Vec::new();
    out.extend_from_slice(&[0x7f, b'E', b'L', b'F', 2, 1, 1, 0, 0, 0, 0, 0, 0, 0, 0, 0]);
    out.extend_from_slice(&2u16.to_le_bytes());
    out.extend_from_slice(&62u16.to_le_bytes());
    out.extend_from_slice(&1u32.to_le_bytes());
    out.extend_from_slice(&0u64.to_le_bytes());
    out.extend_from_slice(&0u64.to_le_bytes());
    out.extend_from_slice(&shoff.to_le_bytes());
    out.extend_from_slice(&0u32.to_le_bytes());
    out.extend_from_slice(&64u16.to_le_bytes());
    out.extend_from_slice(&56u16.to_le_bytes());
    out.extend_from_slice(&0u16.to_le_bytes());
    out.extend_from_slice(&64u16.to_le_bytes());
    out.extend_from_slice(&shnum.to_le_bytes());
    out.extend_from_slice(&(shnum - 1).to_le_bytes());
    out.extend_from_slice(&data);

    let header = |out: &mut Vec<u8>, name: u32, kind: u32, addr: u64, offset: u64, size: u64| {
        out.extend_from_slice(&name.to_le_bytes());
        out.extend_from_slice(&kind.to_le_bytes());
        out.extend_from_slice(&0u64.to_le_bytes());
        out.extend_from_slice(&addr.to_le_bytes());
        out.extend_from_slice(&offset.to_le_bytes());
        out.extend_from_slice(&size.to_le_bytes());
        out.extend_from_slice(&0u32.to_le_bytes());
        out.extend_from_slice(&0u32.to_le_bytes());
        out.extend_from_slice(&1u64.to_le_bytes());
        out.extend_from_slice(&0u64.to_le_bytes());
    };
    header(&mut out, 0, 0, 0, 0, 0);
    for (i, (_, addr, contents)) in sections.iter().enumerate() {
        header(&mut out, name_offsets[i], 1, *addr, placed[i], contents.len() as u64);
    }
    header(&mut out, shstrtab_name, 3, 0, names_offset, names.len() as u64);
    out
}

#[test]
fn a_binary_sets_up_sections_byte_order_and_frame_data() {
    let binary = elf(&[(".text", 0x1000, &[0x90, 0xc3]), (".got", 0x2000, &[0; 8]), (".eh_frame", 0x3000, &[1, 2, 3, 4])]);
    let mut s = DebugSession::from_pid(7);
    assert_eq!(s.load_debug_info(&binary, &vec![], &vec![]), Ok(()));
    assert_eq!(s.metadata.text_address, 0x1000);
    assert_eq!(s.metadata.base_addresses, SectionBases { text: 0x1000, got: 0x2000, eh_frame: 0x3000 });
    assert_eq!(s.metadata.endian, Endianness::Little);
    assert_eq!(s.metadata.abi, Abi::SystemV);
    assert_eq!(s.raw_debug_frame.0, vec![1, 2, 3, 4]);
    assert_eq!(s.pid, 7);
}

#[test]
fn a_binary_without_a_got_is_refused() {
    let binary = elf(&[(".text", 0x1000, &[0x90]), (".eh_frame", 0x3000, &[1, 2, 3, 4])]);
    let mut s = DebugSession::from_pid(7);
    assert_eq!(s.load_debug_info(&binary, &vec![], &vec![]), Err(BinaryError::MissingSection));
    assert_eq!(s.metadata.text_address, 0);
}

#[test]
fn bytes_that_are_no_object_file_are_refused() {
    let mut s = DebugSession::from_pid(7);
    assert_eq!(s.load_debug_info(b"not an object file at all", &vec![], &vec![]), Err(BinaryError::Parsing));
}
