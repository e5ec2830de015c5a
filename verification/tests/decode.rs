use chip8_core::machine::Emulator;
use chip8_core::Instruction;

fn decode(word: u16) -> Instruction {
    let mut m = Emulator::new();
    m.decode_instruction(word)
}

#[test]
fn decode_clear_and_return() {
    assert_eq!(decode(0x00E0), Instruction::ClearScreen);
    assert_eq!(decode(0x00EE), Instruction::SubroutineReturn);
    assert_eq!(decode(0x0123), Instruction::Unrecognized(0x0123));
}

#[test]
fn decode_jumps_and_calls() {
    assert_eq!(decode(0x1ABC), Instruction::Jump(0xABC));
    assert_eq!(decode(0x2DEF), Instruction::CallSubRoutine(0xDEF));
    assert_eq!(decode(0xB123), Instruction::JumpWithOffset(0x123));
}

#[test]
fn decode_skips() {
    assert_eq!(decode(0x3A42), Instruction::SkipIfEqual(0xA, 0x42));
    assert_eq!(decode(0x4B99), Instruction::SkipIfNotEqual(0xB, 0x99));
    assert_eq!(decode(0x5230), Instruction::SkipIfRegistersEqual(2, 3));
    assert_eq!(decode(0x9120), Instruction::SkipIfRegistersNotEqual(1, 2));
}

#[test]
fn decode_register_immediates() {
    assert_eq!(decode(0x6C0F), Instruction::SetRegister(0xC, 0x0F));
    assert_eq!(decode(0x7D80), Instruction::AddToRegister(0xD, 0x80));
    assert_eq!(decode(0xC2F0), Instruction::Random(2, 0xF0));
}

#[test]
fn decode_arithmetic_family() {
    assert_eq!(decode(0x8120), Instruction::CopyRegister(1, 2));
    assert_eq!(decode(0x8341), Instruction::Or(3, 4));
    assert_eq!(decode(0x8562), Instruction::And(5, 6));
    assert_eq!(decode(0x8783), Instruction::Xor(7, 8));
    assert_eq!(decode(0x89A4), Instruction::AddRegisters(9, 0xA));
    assert_eq!(decode(0x8BC5), Instruction::Subtract(0xB, 0xC));
    assert_eq!(decode(0x8DE6), Instruction::ShiftRight(0xD, 0xE));
    assert_eq!(decode(0x8F07), Instruction::ReverseSubtract(0xF, 0));
    assert_eq!(decode(0x812E), Instruction::ShiftLeft(1, 2));
}

#[test]
fn decode_arithmetic_family_unknown_low_nibble() {
    assert_eq!(decode(0x8128), Instruction::Unrecognized(0x8128));
    assert_eq!(decode(0x8008), Instruction::Unrecognized(0x8008));
    assert_eq!(decode(0x8FF8), Instruction::Unrecognized(0x8FF8));
    assert_eq!(decode(0x8129), Instruction::Unrecognized(0x8129));
    assert_eq!(decode(0x812D), Instruction::Unrecognized(0x812D));
}

#[test]
fn decode_index_and_draw() {
    assert_eq!(decode(0xA321), Instruction::SetIndexRegister(0x321));
    assert_eq!(decode(0xD123), Instruction::Draw(1, 2, 3));
    assert_eq!(decode(0xDF0F), Instruction::Draw(0xF, 0, 0xF));
}

#[test]
fn decode_key_family() {
    assert_eq!(decode(0xE39E), Instruction::SkipIfKey(3));
    assert_eq!(decode(0xE4A1), Instruction::SkipIfNotKey(4));
    assert_eq!(decode(0xE400), Instruction::Unrecognized(0xE400));
}

#[test]
fn decode_matches_opcode_layouts_exactly() {
    // 5XY0 and 9XY0 demand a zero low nibble
    assert_eq!(decode(0x5231), Instruction::Unrecognized(0x5231));
    assert_eq!(decode(0x523F), Instruction::Unrecognized(0x523F));
    assert_eq!(decode(0x9231), Instruction::Unrecognized(0x9231));
    assert_eq!(decode(0x923E), Instruction::Unrecognized(0x923E));
    // EXkk matches the whole low byte, not just its low nibble
    assert_eq!(decode(0xE30E), Instruction::Unrecognized(0xE30E));
    assert_eq!(decode(0xE311), Instruction::Unrecognized(0xE311));
    assert_eq!(decode(0xE3A2), Instruction::Unrecognized(0xE3A2));
}

#[test]
fn decode_timer_and_memory_family() {
    assert_eq!(decode(0xF107), Instruction::GetTimer(1));
    assert_eq!(decode(0xF20A), Instruction::GetKey(2));
    assert_eq!(decode(0xF315), Instruction::SetDelayTimer(3));
    assert_eq!(decode(0xF418), Instruction::SetSoundTimer(4));
    assert_eq!(decode(0xF51E), Instruction::AddToIndex(5));
    assert_eq!(decode(0xF629), Instruction::FontCharacter(6));
    assert_eq!(decode(0xF733), Instruction::BinaryDecimalConversion(7));
    assert_eq!(decode(0xF855), Instruction::StoreMemory(8));
    assert_eq!(decode(0xF965), Instruction::LoadMemory(9));
    assert_eq!(decode(0xFA99), Instruction::Unrecognized(0xFA99));
}

#[test]
fn decode_leaves_machine_untouched() {
    let mut m = Emulator::new();
    m.pc = 0x300;
    m.v_registers[2] = 9;
    let _ = m.decode_instruction(0xD123);
    assert_eq!(m.pc, 0x300);
    assert_eq!(m.v_registers[2], 9);
}
