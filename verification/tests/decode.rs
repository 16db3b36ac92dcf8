use chip8::chip8::Chip8;
use chip8::compat::Compatibility;
use chip8::decode::decode_word;
use chip8::error::Chip8Error;
use chip8::instruction::Chip8Instruction;
use chip8::u12::U12;

#[test]
fn decode_clear_screen() {
    assert_eq!(decode_word(0x00E0), Some(Chip8Instruction::ClearScreen()));
}

#[test]
fn decode_return() {
    assert_eq!(decode_word(0x00EE), Some(Chip8Instruction::Return()));
}

#[test]
fn decode_jump() {
    assert_eq!(
        decode_word(0x1123),
        Some(Chip8Instruction::Jump(U12::from_usize(0x123)))
    );
    assert_eq!(
        decode_word(0x1ABC),
        Some(Chip8Instruction::Jump(U12::from_usize(0xABC)))
    );
    assert_eq!(
        decode_word(0x1FFF),
        Some(Chip8Instruction::Jump(U12::from_usize(0xFFF)))
    );
}

#[test]
fn decode_call() {
    assert_eq!(
        decode_word(0x2123),
        Some(Chip8Instruction::Call(U12::from_usize(0x123)))
    );
}

#[test]
fn decode_skip_if_equal() {
    assert_eq!(decode_word(0x3123), Some(Chip8Instruction::SkipIfEqual(1, 0x23)));
    assert_eq!(decode_word(0x3FFF), Some(Chip8Instruction::SkipIfEqual(0xF, 0xFF)));
}

#[test]
fn decode_skip_if_not_equal() {
    assert_eq!(decode_word(0x4123), Some(Chip8Instruction::SkipIfNotEqual(1, 0x23)));
}

#[test]
fn decode_skip_if_equal_xy() {
    assert_eq!(decode_word(0x5123), Some(Chip8Instruction::SkipIfEqualXY(1, 2)));
}

#[test]
fn decode_skip_if_not_equal_xy() {
    assert_eq!(decode_word(0x9123), Some(Chip8Instruction::SkipIfNotEqualXY(1, 2)));
}

#[test]
fn decode_set_vx() {
    assert_eq!(decode_word(0x6123), Some(Chip8Instruction::SetVX(1, 0x23)));
    assert_eq!(decode_word(0x6F00), Some(Chip8Instruction::SetVX(0xF, 0x00)));
}

#[test]
fn decode_add_vx() {
    assert_eq!(decode_word(0x7123), Some(Chip8Instruction::AddVX(1, 0x23)));
}

#[test]
fn decode_alu_family() {
    assert_eq!(decode_word(0x8120), Some(Chip8Instruction::SetVXToVY(1, 2)));
    assert_eq!(decode_word(0x8121), Some(Chip8Instruction::OrVXVY(1, 2)));
    assert_eq!(decode_word(0x8122), Some(Chip8Instruction::AndVXVY(1, 2)));
    assert_eq!(decode_word(0x8123), Some(Chip8Instruction::XorVXVY(1, 2)));
    assert_eq!(decode_word(0x8124), Some(Chip8Instruction::AddVYRegisterToVX(1, 2)));
    assert_eq!(decode_word(0x8125), Some(Chip8Instruction::SubVYFromVX(1, 2)));
    assert_eq!(decode_word(0x8126), Some(Chip8Instruction::ShiftVXRight(1, 2)));
    assert_eq!(decode_word(0x8127), Some(Chip8Instruction::SubVXFromVY(1, 2)));
    assert_eq!(decode_word(0x812E), Some(Chip8Instruction::ShiftVXLeft(1, 2)));
}

#[test]
fn decode_set_i_register() {
    assert_eq!(decode_word(0xA123), Some(Chip8Instruction::SetIRegister(0x123)));
}

#[test]
fn decode_draw() {
    assert_eq!(decode_word(0xD123), Some(Chip8Instruction::Draw(1, 2, 3)));
    assert_eq!(decode_word(0xDFFF), Some(Chip8Instruction::Draw(0xF, 0xF, 0xF)));
}

#[test]
fn decode_unrecognized_words() {
    assert_eq!(decode_word(0xFFFF), None);
    assert_eq!(decode_word(0x0000), None);
    assert_eq!(decode_word(0x00E1), None);
    assert_eq!(decode_word(0x8128), None);
    assert_eq!(decode_word(0x812F), None);
    assert_eq!(decode_word(0xB123), None);
    assert_eq!(decode_word(0xC123), None);
    assert_eq!(decode_word(0xE123), None);
    assert_eq!(decode_word(0xF123), None);
}

#[test]
fn decode_failure_carries_origin_address() {
    let mut chip8 = Chip8::new(Compatibility::Cosmac);
    chip8.pc = U12::from_usize(0x202);
    assert_eq!(
        chip8.decode(0xFFFF),
        Err(Chip8Error::DecodeError { address: U12::from_usize(0x200), opcode: 0xFFFF })
    );
}

#[test]
fn decode_failure_address_wraps() {
    let mut chip8 = Chip8::new(Compatibility::Cosmac);
    chip8.pc = U12::from_usize(0x001);
    assert_eq!(
        chip8.decode(0xFFFF),
        Err(Chip8Error::DecodeError { address: U12::from_usize(0xFFF), opcode: 0xFFFF })
    );
}
