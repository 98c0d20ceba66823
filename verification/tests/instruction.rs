use iced_x86::Code;
use imo::instruction::get_instruction_info;

#[test]
fn zero_bytes_hold_no_instruction() {
    assert_eq!(get_instruction_info(&[0u8; 15]), None);
    assert_eq!(get_instruction_info(&[]), None);
}

#[test]
fn first_instruction_is_decoded() {
    let mut bytes = [0u8; 15];
    bytes[0] = 0x01;
    bytes[1] = 0x18;
    assert_eq!(get_instruction_info(&bytes), Some((2, Code::Add_rm32_r32)));
}

#[test]
fn invalid_instruction_gives_nothing() {
    let mut bytes = [0u8; 15];
    bytes[0] = 0xf0;
    bytes[1] = 0x01;
    bytes[2] = 0xce;
    assert_eq!(get_instruction_info(&bytes), None);
}
