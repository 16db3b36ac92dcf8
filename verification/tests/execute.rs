use chip8::chip8::Chip8;
use chip8::compat::Compatibility;
use chip8::error::Chip8Error;
use chip8::framebuffer::FrameBuffer;
use chip8::instruction::Chip8Instruction;
use chip8::u12::U12;

fn test_machine() -> (Chip8, FrameBuffer) {
    (Chip8::new(Compatibility::Cosmac), FrameBuffer::new(64, 32))
}

#[test]
fn jump_sets_pc() {
    let (mut chip8, mut fb) = test_machine();
    chip8.execute(Chip8Instruction::Jump(U12::from_usize(0x123)), &mut fb).unwrap();
    assert_eq!(chip8.pc, U12::from_usize(0x123));
}

#[test]
fn set_vx() {
    let (mut chip8, mut fb) = test_machine();
    chip8.execute(Chip8Instruction::SetVX(1, 0x12), &mut fb).unwrap();
    assert_eq!(chip8.v_reg[1], 0x12);
}

#[test]
fn add_vx_simple() {
    let (mut chip8, mut fb) = test_machine();
    chip8.v_reg[0] = 0x12;
    chip8.execute(Chip8Instruction::AddVX(0, 0x12), &mut fb).unwrap();
    assert_eq!(chip8.v_reg[0], 0x24);
}

#[test]
fn add_vx_wraparound() {
    let (mut chip8, mut fb) = test_machine();
    chip8.v_reg[0] = 0xF0;
    chip8.execute(Chip8Instruction::AddVX(0, 0x20), &mut fb).unwrap();
    assert_eq!(chip8.v_reg[0], 0x10);
    // No flag change by this instruction.
    assert_eq!(chip8.v_reg[0xF], 0x00);
}

#[test]
fn set_vx_to_vy() {
    let (mut chip8, mut fb) = test_machine();
    chip8.v_reg[1] = 0x05;
    chip8.v_reg[2] = 0x12;
    chip8.execute(Chip8Instruction::SetVXToVY(1, 2), &mut fb).unwrap();
    assert_eq!(chip8.v_reg[1], 0x12);
}

#[test]
fn or_vx_vy() {
    let (mut chip8, mut fb) = test_machine();
    chip8.v_reg[1] = 0x05;
    chip8.v_reg[2] = 0x07;
    chip8.execute(Chip8Instruction::OrVXVY(1, 2), &mut fb).unwrap();
    assert_eq!(chip8.v_reg[1], 0x07);
}

#[test]
fn and_vx_vy() {
    let (mut chip8, mut fb) = test_machine();
    chip8.v_reg[1] = 0x05;
    chip8.v_reg[2] = 0x00;
    chip8.execute(Chip8Instruction::AndVXVY(1, 2), &mut fb).unwrap();
    assert_eq!(chip8.v_reg[1], 0x00);
}

#[test]
fn xor_vx_vy() {
    let (mut chip8, mut fb) = test_machine();
    chip8.v_reg[1] = 0x05;
    chip8.v_reg[2] = 0x07;
    chip8.execute(Chip8Instruction::XorVXVY(1, 2), &mut fb).unwrap();
    assert_eq!(chip8.v_reg[1], 0x02);
}

#[test]
fn add_vy_to_vx_no_carry() {
    let (mut chip8, mut fb) = test_machine();
    chip8.v_reg[1] = 0x05;
    chip8.v_reg[2] = 0x07;
    chip8.execute(Chip8Instruction::AddVYRegisterToVX(1, 2), &mut fb).unwrap();
    assert_eq!(chip8.v_reg[1], 0x0C);
    assert_eq!(chip8.v_reg[0xF], 0x00);
}

#[test]
fn add_vy_to_vx_carry() {
    let (mut chip8, mut fb) = test_machine();
    chip8.v_reg[1] = 0xFE;
    chip8.v_reg[2] = 0x03;
    chip8.execute(Chip8Instruction::AddVYRegisterToVX(1, 2), &mut fb).unwrap();
    assert_eq!(chip8.v_reg[1], 0x01);
    assert_eq!(chip8.v_reg[0xF], 0x01);
}

#[test]
fn sub_vy_from_vx_no_borrow() {
    let (mut chip8, mut fb) = test_machine();
    chip8.v_reg[1] = 0x05;
    chip8.v_reg[2] = 0x03;
    chip8.execute(Chip8Instruction::SubVYFromVX(1, 2), &mut fb).unwrap();
    assert_eq!(chip8.v_reg[1], 0x02);
    assert_eq!(chip8.v_reg[0xF], 0x01);
}

#[test]
fn sub_vy_from_vx_borrow() {
    let (mut chip8, mut fb) = test_machine();
    chip8.v_reg[1] = 0x05;
    chip8.v_reg[2] = 0x08;
    chip8.execute(Chip8Instruction::SubVYFromVX(1, 2), &mut fb).unwrap();
    assert_eq!(chip8.v_reg[1], 0xFD);
    assert_eq!(chip8.v_reg[0xF], 0x00);
}

#[test]
fn sub_vy_from_vx_reads_the_old_flag_operand() {
    let (mut chip8, mut fb) = test_machine();
    chip8.v_reg[1] = 0x05;
    chip8.v_reg[0xF] = 0x00;
    chip8.execute(Chip8Instruction::SubVYFromVX(1, 0xF), &mut fb).unwrap();
    // The subtrahend is v[0xF]'s value before the operation: 5 - 0.
    assert_eq!(chip8.v_reg[1], 0x05);
    assert_eq!(chip8.v_reg[0xF], 0x01);
}

#[test]
fn sub_vy_from_vx_flag_prevails_when_x_is_the_flag() {
    let (mut chip8, mut fb) = test_machine();
    chip8.v_reg[0xF] = 0x09;
    chip8.v_reg[2] = 0x03;
    chip8.execute(Chip8Instruction::SubVYFromVX(0xF, 2), &mut fb).unwrap();
    // The flag is written after the result: 9 - 3 = 6 is overwritten
    // by the no-borrow flag.
    assert_eq!(chip8.v_reg[0xF], 0x01);
}

#[test]
fn sub_vx_from_vy_reads_the_old_flag_operand() {
    let (mut chip8, mut fb) = test_machine();
    chip8.v_reg[1] = 0x05;
    chip8.v_reg[0xF] = 0x00;
    chip8.execute(Chip8Instruction::SubVXFromVY(1, 0xF), &mut fb).unwrap();
    // The minuend is v[0xF]'s value before the operation: 0 - 5 wraps.
    assert_eq!(chip8.v_reg[1], 0xFB);
    assert_eq!(chip8.v_reg[0xF], 0x00);
}

#[test]
fn sub_vx_from_vy_no_borrow() {
    let (mut chip8, mut fb) = test_machine();
    chip8.v_reg[1] = 0x03;
    chip8.v_reg[2] = 0x05;
    chip8.execute(Chip8Instruction::SubVXFromVY(1, 2), &mut fb).unwrap();
    assert_eq!(chip8.v_reg[1], 0x02);
    assert_eq!(chip8.v_reg[0xF], 0x01);
}

#[test]
fn sub_vx_from_vy_borrow() {
    let (mut chip8, mut fb) = test_machine();
    chip8.v_reg[1] = 0x03;
    chip8.v_reg[2] = 0x01;
    chip8.execute(Chip8Instruction::SubVXFromVY(1, 2), &mut fb).unwrap();
    assert_eq!(chip8.v_reg[1], 0xFE);
    assert_eq!(chip8.v_reg[0xF], 0x00);
}

#[test]
fn shift_right_cosmac_uses_vy() {
    let (mut chip8, mut fb) = test_machine();
    chip8.v_reg[1] = 0xFF;
    chip8.v_reg[2] = 0x05;
    chip8.execute(Chip8Instruction::ShiftVXRight(1, 2), &mut fb).unwrap();
    assert_eq!(chip8.v_reg[1], 0x02);
    assert_eq!(chip8.v_reg[0xF], 0x01);
}

#[test]
fn shift_right_chip48_uses_vx() {
    let mut chip8 = Chip8::new(Compatibility::Chip48);
    let mut fb = FrameBuffer::new(64, 32);
    chip8.v_reg[1] = 0x04;
    chip8.v_reg[2] = 0x05;
    chip8.execute(Chip8Instruction::ShiftVXRight(1, 2), &mut fb).unwrap();
    assert_eq!(chip8.v_reg[1], 0x02);
    assert_eq!(chip8.v_reg[0xF], 0x00);
}

#[test]
fn shift_left_cosmac_uses_vy() {
    let (mut chip8, mut fb) = test_machine();
    chip8.v_reg[1] = 0x00;
    chip8.v_reg[2] = 0x81;
    chip8.execute(Chip8Instruction::ShiftVXLeft(1, 2), &mut fb).unwrap();
    assert_eq!(chip8.v_reg[1], 0x02);
    assert_eq!(chip8.v_reg[0xF], 0x01);
}

#[test]
fn shift_left_chip48_uses_vx() {
    let mut chip8 = Chip8::new(Compatibility::Chip48);
    let mut fb = FrameBuffer::new(64, 32);
    chip8.v_reg[1] = 0x41;
    chip8.execute(Chip8Instruction::ShiftVXLeft(1, 2), &mut fb).unwrap();
    assert_eq!(chip8.v_reg[1], 0x82);
    assert_eq!(chip8.v_reg[0xF], 0x00);
}

#[test]
fn set_i_register() {
    let (mut chip8, mut fb) = test_machine();
    chip8.execute(Chip8Instruction::SetIRegister(0x123), &mut fb).unwrap();
    assert_eq!(chip8.i_reg, 0x123);
}

#[test]
fn skip_if_equal_skips() {
    let (mut chip8, mut fb) = test_machine();
    chip8.v_reg[0] = 0x12;
    chip8.execute(Chip8Instruction::SkipIfEqual(0, 0x12), &mut fb).unwrap();
    assert_eq!(chip8.pc, U12::from_usize(0x2));
}

#[test]
fn skip_if_equal_stays() {
    let (mut chip8, mut fb) = test_machine();
    chip8.v_reg[0] = 0x13;
    chip8.execute(Chip8Instruction::SkipIfEqual(0, 0x12), &mut fb).unwrap();
    assert_eq!(chip8.pc, U12::from_usize(0x0));
}

#[test]
fn skip_if_not_equal() {
    let (mut chip8, mut fb) = test_machine();
    chip8.v_reg[0] = 0x13;
    chip8.execute(Chip8Instruction::SkipIfNotEqual(0, 0x12), &mut fb).unwrap();
    assert_eq!(chip8.pc, U12::from_usize(0x2));
    chip8.pc = U12::from_usize(0x0);
    chip8.v_reg[0] = 0x12;
    chip8.execute(Chip8Instruction::SkipIfNotEqual(0, 0x12), &mut fb).unwrap();
    assert_eq!(chip8.pc, U12::from_usize(0x0));
}

#[test]
fn skip_if_equal_xy() {
    let (mut chip8, mut fb) = test_machine();
    chip8.v_reg[0] = 0x12;
    chip8.v_reg[1] = 0x12;
    chip8.execute(Chip8Instruction::SkipIfEqualXY(0, 1), &mut fb).unwrap();
    assert_eq!(chip8.pc, U12::from_usize(0x2));
    chip8.pc = U12::from_usize(0x0);
    chip8.v_reg[1] = 0x13;
    chip8.execute(Chip8Instruction::SkipIfEqualXY(0, 1), &mut fb).unwrap();
    assert_eq!(chip8.pc, U12::from_usize(0x0));
}

#[test]
fn skip_if_not_equal_xy() {
    let (mut chip8, mut fb) = test_machine();
    chip8.v_reg[0] = 0x13;
    chip8.v_reg[1] = 0x12;
    chip8.execute(Chip8Instruction::SkipIfNotEqualXY(0, 1), &mut fb).unwrap();
    assert_eq!(chip8.pc, U12::from_usize(0x2));
    chip8.pc = U12::from_usize(0x0);
    chip8.v_reg[0] = 0x12;
    chip8.execute(Chip8Instruction::SkipIfNotEqualXY(0, 1), &mut fb).unwrap();
    assert_eq!(chip8.pc, U12::from_usize(0x0));
}

#[test]
fn call_then_return_restores_pc() {
    let (mut chip8, mut fb) = test_machine();
    chip8.pc = U12::from_usize(0x202);
    chip8.execute(Chip8Instruction::Call(U12::from_usize(0x300)), &mut fb).unwrap();
    assert_eq!(chip8.pc, U12::from_usize(0x300));
    assert_eq!(chip8.stack, vec![U12::from_usize(0x202)]);
    chip8.execute(Chip8Instruction::Return(), &mut fb).unwrap();
    assert_eq!(chip8.pc, U12::from_usize(0x202));
    assert!(chip8.stack.is_empty());
}

#[test]
fn return_on_empty_stack_underflows() {
    let (mut chip8, mut fb) = test_machine();
    chip8.pc = U12::from_usize(0x202);
    let result = chip8.execute(Chip8Instruction::Return(), &mut fb);
    assert_eq!(result, Err(Chip8Error::StackUnderflow));
    assert_eq!(chip8.pc, U12::from_usize(0x202));
}

#[test]
fn clear_screen_resets_every_cell() {
    let (mut chip8, mut fb) = test_machine();
    for index in 0..64 * 32 {
        fb.set(index, true);
    }
    chip8.execute(Chip8Instruction::ClearScreen(), &mut fb).unwrap();
    for index in 0..64 * 32 {
        assert_eq!(fb.get(index), false);
    }
}

#[test]
fn clear_screen_resets_other_sizes_too() {
    let (mut chip8, _) = test_machine();
    let mut fb = FrameBuffer::new(8, 4);
    for index in 0..8 * 4 {
        fb.set(index, true);
    }
    chip8.execute(Chip8Instruction::ClearScreen(), &mut fb).unwrap();
    for index in 0..8 * 4 {
        assert_eq!(fb.get(index), false);
    }
}

#[test]
fn draw_sprite() {
    let (mut chip8, mut fb) = test_machine();
    let sprite = [0b11110000u8, 0b10010000, 0b10010000, 0b11110000];
    for (offset, byte) in sprite.iter().enumerate() {
        chip8.memory.write(U12::from_usize(0x300 + offset), *byte);
    }
    chip8.execute(Chip8Instruction::SetIRegister(0x300), &mut fb).unwrap();
    chip8.execute(Chip8Instruction::SetVX(0, 5), &mut fb).unwrap();
    chip8.execute(Chip8Instruction::SetVX(1, 10), &mut fb).unwrap();
    chip8.execute(Chip8Instruction::Draw(0, 1, 4), &mut fb).unwrap();

    // First sprite row at (5, 10).
    assert_eq!(fb.get(10 * 64 + 5), true);
    assert_eq!(fb.get(10 * 64 + 6), true);
    assert_eq!(fb.get(10 * 64 + 7), true);
    assert_eq!(fb.get(10 * 64 + 8), true);
    assert_eq!(fb.get(10 * 64 + 9), false);
    // Second sprite row at (5, 11).
    assert_eq!(fb.get(11 * 64 + 5), true);
    assert_eq!(fb.get(11 * 64 + 6), false);
    assert_eq!(fb.get(11 * 64 + 7), false);
    assert_eq!(fb.get(11 * 64 + 8), true);
    // Nothing lit before, so no collision.
    assert_eq!(chip8.v_reg[0xF], 0);
}

#[test]
fn draw_collision_turns_pixels_off() {
    let (mut chip8, mut fb) = test_machine();
    chip8.memory.write(U12::from_usize(0x400), 0b11110000);
    fb.set(5 * 64 + 3, true);
    fb.set(5 * 64 + 4, true);
    chip8.execute(Chip8Instruction::SetIRegister(0x400), &mut fb).unwrap();
    chip8.execute(Chip8Instruction::SetVX(0, 3), &mut fb).unwrap();
    chip8.execute(Chip8Instruction::SetVX(1, 5), &mut fb).unwrap();
    chip8.execute(Chip8Instruction::Draw(0, 1, 1), &mut fb).unwrap();

    assert_eq!(chip8.v_reg[0xF], 1);
    assert_eq!(fb.get(5 * 64 + 3), false);
    assert_eq!(fb.get(5 * 64 + 4), false);
    assert_eq!(fb.get(5 * 64 + 5), true);
    assert_eq!(fb.get(5 * 64 + 6), true);
}

#[test]
fn draw_same_sprite_twice_blanks_and_collides() {
    let (mut chip8, mut fb) = test_machine();
    chip8.memory.write(U12::from_usize(0x400), 0b11110000);
    chip8.execute(Chip8Instruction::SetIRegister(0x400), &mut fb).unwrap();
    chip8.execute(Chip8Instruction::SetVX(0, 8), &mut fb).unwrap();
    chip8.execute(Chip8Instruction::SetVX(1, 4), &mut fb).unwrap();

    chip8.execute(Chip8Instruction::Draw(0, 1, 1), &mut fb).unwrap();
    assert_eq!(chip8.v_reg[0xF], 0);
    for col in 8..12 {
        assert_eq!(fb.get(4 * 64 + col), true);
    }

    chip8.execute(Chip8Instruction::Draw(0, 1, 1), &mut fb).unwrap();
    assert_eq!(chip8.v_reg[0xF], 1);
    for col in 8..12 {
        assert_eq!(fb.get(4 * 64 + col), false);
    }
}

#[test]
fn draw_clips_at_right_edge() {
    let (mut chip8, mut fb) = test_machine();
    chip8.memory.write(U12::from_usize(0x400), 0b11111111);
    chip8.execute(Chip8Instruction::SetIRegister(0x400), &mut fb).unwrap();
    chip8.execute(Chip8Instruction::SetVX(0, 62), &mut fb).unwrap();
    chip8.execute(Chip8Instruction::SetVX(1, 0), &mut fb).unwrap();
    chip8.execute(Chip8Instruction::Draw(0, 1, 1), &mut fb).unwrap();

    assert_eq!(fb.get(62), true);
    assert_eq!(fb.get(63), true);
    // The row stops at the edge instead of wrapping to column 0.
    for col in 0..6 {
        assert_eq!(fb.get(col), false);
    }
}

#[test]
fn draw_reads_from_the_index_register() {
    let (mut chip8, mut fb) = test_machine();
    chip8.memory.write(U12::from_usize(0x200), 0b10101010);
    chip8.memory.write(U12::from_usize(0x300), 0b01010101);

    chip8.execute(Chip8Instruction::SetIRegister(0x200), &mut fb).unwrap();
    chip8.execute(Chip8Instruction::SetVX(0, 0), &mut fb).unwrap();
    chip8.execute(Chip8Instruction::SetVX(1, 0), &mut fb).unwrap();
    chip8.execute(Chip8Instruction::Draw(0, 1, 1), &mut fb).unwrap();
    assert_eq!(fb.get(0), true);
    assert_eq!(fb.get(1), false);
    assert_eq!(fb.get(2), true);
    assert_eq!(fb.get(3), false);

    chip8.execute(Chip8Instruction::ClearScreen(), &mut fb).unwrap();
    chip8.execute(Chip8Instruction::SetIRegister(0x300), &mut fb).unwrap();
    chip8.execute(Chip8Instruction::Draw(0, 1, 1), &mut fb).unwrap();
    assert_eq!(fb.get(0), false);
    assert_eq!(fb.get(1), true);
    assert_eq!(fb.get(2), false);
    assert_eq!(fb.get(3), true);
}

#[test]
fn draw_position_wraps_modulo_the_grid() {
    let (mut chip8, mut fb) = test_machine();
    chip8.memory.write(U12::from_usize(0x400), 0b10000000);
    chip8.execute(Chip8Instruction::SetIRegister(0x400), &mut fb).unwrap();
    chip8.execute(Chip8Instruction::SetVX(0, 64 + 3), &mut fb).unwrap();
    chip8.execute(Chip8Instruction::SetVX(1, 32 + 5), &mut fb).unwrap();
    chip8.execute(Chip8Instruction::Draw(0, 1, 1), &mut fb).unwrap();
    assert_eq!(fb.get(5 * 64 + 3), true);
}

#[test]
fn fetch_combines_big_endian_and_advances_pc() {
    let (mut chip8, _) = test_machine();
    chip8.memory.write(U12::from_usize(0x200), 0x12);
    chip8.memory.write(U12::from_usize(0x201), 0x34);
    chip8.pc = U12::from_usize(0x200);
    let code = chip8.fetch();
    assert_eq!(code, 0x1234);
    assert_eq!(chip8.pc, U12::from_usize(0x202));
}

#[test]
fn fetch_wraps_at_the_last_address() {
    let (mut chip8, _) = test_machine();
    chip8.memory.write(U12::from_usize(0xFFF), 0xAB);
    chip8.memory.write(U12::from_usize(0x000), 0xCD);
    chip8.pc = U12::from_usize(0xFFF);
    let code = chip8.fetch();
    assert_eq!(code, 0xABCD);
    assert_eq!(chip8.pc, U12::from_usize(0x001));
}

#[test]
fn load_program_writes_at_the_base_offset() {
    let (mut chip8, _) = test_machine();
    let program = vec![0x12u8, 0x34, 0x56];
    chip8.load_program(&program);
    assert_eq!(chip8.pc, U12::from_usize(0x200));
    assert_eq!(chip8.memory.read(U12::from_usize(0x1FF)), 0x00);
    assert_eq!(chip8.memory.read(U12::from_usize(0x200)), 0x12);
    assert_eq!(chip8.memory.read(U12::from_usize(0x201)), 0x34);
    assert_eq!(chip8.memory.read(U12::from_usize(0x202)), 0x56);
    assert_eq!(chip8.memory.read(U12::from_usize(0x203)), 0x00);
}
