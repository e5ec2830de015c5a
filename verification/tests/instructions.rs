use chip8_core::machine::Emulator;
use chip8_core::Chip8Error;
use chip8_core::ExecResult;
use chip8_core::Instruction;

fn machine() -> Emulator {
    Emulator::new()
}

#[test]
fn add_registers_without_carry() {
    let mut m = machine();
    m.v_registers[1] = 20;
    m.v_registers[2] = 30;
    m.v_registers[0xF] = 9;
    assert_eq!(m.execute_instruction(Instruction::AddRegisters(1, 2)), ExecResult::Continue);
    assert_eq!(m.v_registers[1], 50);
    assert_eq!(m.v_registers[0xF], 0);
}

#[test]
fn add_registers_with_carry_wraps_mod_256() {
    let mut m = machine();
    m.v_registers[1] = 200;
    m.v_registers[2] = 100;
    assert_eq!(m.execute_instruction(Instruction::AddRegisters(1, 2)), ExecResult::Continue);
    assert_eq!(m.v_registers[1], 44);
    assert_eq!(m.v_registers[0xF], 1);
}

#[test]
fn add_registers_boundary_just_reaches_carry() {
    let mut m = machine();
    m.v_registers[3] = 255;
    m.v_registers[4] = 1;
    assert_eq!(m.execute_instruction(Instruction::AddRegisters(3, 4)), ExecResult::Continue);
    assert_eq!(m.v_registers[3], 0);
    assert_eq!(m.v_registers[0xF], 1);
}

#[test]
fn subtract_wraps_without_fault_or_flag() {
    let mut m = machine();
    m.v_registers[1] = 10;
    m.v_registers[2] = 20;
    m.v_registers[0xF] = 7;
    assert_eq!(m.execute_instruction(Instruction::Subtract(1, 2)), ExecResult::Continue);
    assert_eq!(m.v_registers[1], 246);
    assert_eq!(m.v_registers[0xF], 7);
    m.v_registers[5] = 50;
    m.v_registers[6] = 8;
    assert_eq!(m.execute_instruction(Instruction::Subtract(5, 6)), ExecResult::Continue);
    assert_eq!(m.v_registers[5], 42);
}

#[test]
fn reverse_subtract_wraps_the_other_way() {
    let mut m = machine();
    m.v_registers[1] = 20;
    m.v_registers[2] = 5;
    assert_eq!(m.execute_instruction(Instruction::ReverseSubtract(1, 2)), ExecResult::Continue);
    assert_eq!(m.v_registers[1], 241);
    m.v_registers[3] = 5;
    m.v_registers[4] = 20;
    assert_eq!(m.execute_instruction(Instruction::ReverseSubtract(3, 4)), ExecResult::Continue);
    assert_eq!(m.v_registers[3], 15);
}

#[test]
fn shift_left_copies_vy_and_flags_bit_seven() {
    let mut m = machine();
    m.v_registers[1] = 0xFF;  // VX, must be ignored as a source
    m.v_registers[2] = 0b1000_0001;
    assert_eq!(m.execute_instruction(Instruction::ShiftLeft(1, 2)), ExecResult::Continue);
    assert_eq!(m.v_registers[1], 0b0000_0010);
    assert_eq!(m.v_registers[0xF], 1);
    m.v_registers[3] = 0;
    m.v_registers[4] = 0b0100_0000;
    assert_eq!(m.execute_instruction(Instruction::ShiftLeft(3, 4)), ExecResult::Continue);
    assert_eq!(m.v_registers[3], 0b1000_0000);
    assert_eq!(m.v_registers[0xF], 0);
}

#[test]
fn shift_right_copies_vy_and_flags_bit_zero() {
    let mut m = machine();
    m.v_registers[1] = 0xFF;
    m.v_registers[2] = 0b0000_0011;
    assert_eq!(m.execute_instruction(Instruction::ShiftRight(1, 2)), ExecResult::Continue);
    assert_eq!(m.v_registers[1], 0b0000_0001);
    assert_eq!(m.v_registers[0xF], 1);
    m.v_registers[3] = 0;
    m.v_registers[4] = 0b0000_0100;
    assert_eq!(m.execute_instruction(Instruction::ShiftRight(3, 4)), ExecResult::Continue);
    assert_eq!(m.v_registers[3], 0b0000_0010);
    assert_eq!(m.v_registers[0xF], 0);
}

#[test]
fn logic_ops_leave_vy_alone() {
    let mut m = machine();
    m.v_registers[1] = 0b1100;
    m.v_registers[2] = 0b1010;
    assert_eq!(m.execute_instruction(Instruction::Or(1, 2)), ExecResult::Continue);
    assert_eq!(m.v_registers[1], 0b1110);
    assert_eq!(m.v_registers[2], 0b1010);
    m.v_registers[1] = 0b1100;
    assert_eq!(m.execute_instruction(Instruction::And(1, 2)), ExecResult::Continue);
    assert_eq!(m.v_registers[1], 0b1000);
    m.v_registers[1] = 0b1100;
    assert_eq!(m.execute_instruction(Instruction::Xor(1, 2)), ExecResult::Continue);
    assert_eq!(m.v_registers[1], 0b0110);
    assert_eq!(m.execute_instruction(Instruction::CopyRegister(1, 2)), ExecResult::Continue);
    assert_eq!(m.v_registers[1], 0b1010);
}

#[test]
fn set_and_add_immediates() {
    let mut m = machine();
    assert_eq!(m.execute_instruction(Instruction::SetRegister(6, 0xAB)), ExecResult::Continue);
    assert_eq!(m.v_registers[6], 0xAB);
    assert_eq!(m.execute_instruction(Instruction::AddToRegister(6, 0x60)), ExecResult::Continue);
    assert_eq!(m.v_registers[6], 0x0B);
    assert_eq!(m.v_registers[0xF], 0);
}

#[test]
fn jumps_move_the_program_counter() {
    let mut m = machine();
    assert_eq!(m.execute_instruction(Instruction::Jump(0x456)), ExecResult::Continue);
    assert_eq!(m.pc, 0x456);
    m.v_registers[0] = 0x10;
    m.v_registers[5] = 0x99;  // any other register must be ignored
    assert_eq!(m.execute_instruction(Instruction::JumpWithOffset(0x300)), ExecResult::Continue);
    assert_eq!(m.pc, 0x310);
}

#[test]
fn skip_instructions_advance_by_two_when_met() {
    let mut m = machine();
    m.pc = 0x200;
    m.v_registers[1] = 5;
    assert_eq!(m.execute_instruction(Instruction::SkipIfEqual(1, 5)), ExecResult::Continue);
    assert_eq!(m.pc, 0x202);
    assert_eq!(m.execute_instruction(Instruction::SkipIfEqual(1, 6)), ExecResult::Continue);
    assert_eq!(m.pc, 0x202);
    assert_eq!(m.execute_instruction(Instruction::SkipIfNotEqual(1, 6)), ExecResult::Continue);
    assert_eq!(m.pc, 0x204);
    m.v_registers[2] = 5;
    assert_eq!(m.execute_instruction(Instruction::SkipIfRegistersEqual(1, 2)), ExecResult::Continue);
    assert_eq!(m.pc, 0x206);
    m.v_registers[2] = 9;
    assert_eq!(
        m.execute_instruction(Instruction::SkipIfRegistersNotEqual(1, 2)),
        ExecResult::Continue
    );
    assert_eq!(m.pc, 0x208);
}

#[test]
fn call_and_return_round_trip() {
    let mut m = machine();
    m.pc = 0x234;
    assert_eq!(m.execute_instruction(Instruction::CallSubRoutine(0x400)), ExecResult::Continue);
    assert_eq!(m.pc, 0x400);
    assert_eq!(m.stack, vec![0x234]);
    assert_eq!(m.execute_instruction(Instruction::SubroutineReturn), ExecResult::Continue);
    assert_eq!(m.pc, 0x234);
    assert!(m.stack.is_empty());
}

#[test]
fn call_on_full_stack_overflows() {
    let mut m = machine();
    for _ in 0..16 {
        assert_eq!(m.execute_instruction(Instruction::CallSubRoutine(0x300)), ExecResult::Continue);
    }
    assert_eq!(
        m.execute_instruction(Instruction::CallSubRoutine(0x300)),
        ExecResult::Fault(Chip8Error::StackOverflow)
    );
    assert_eq!(m.stack.len(), 16);
}

#[test]
fn return_on_empty_stack_underflows() {
    let mut m = machine();
    assert_eq!(
        m.execute_instruction(Instruction::SubroutineReturn),
        ExecResult::Fault(Chip8Error::StackUnderflow)
    );
    assert_eq!(m.pc, 0x200);
}

#[test]
fn random_respects_the_mask() {
    let mut m = machine();
    m.v_registers[1] = 0xAA;
    assert_eq!(m.execute_instruction(Instruction::Random(1, 0x00)), ExecResult::Continue);
    assert_eq!(m.v_registers[1], 0);
    for _ in 0..32 {
        assert_eq!(m.execute_instruction(Instruction::Random(1, 0x0F)), ExecResult::Continue);
        assert!(m.v_registers[1] < 16);
    }
}

#[test]
fn random_with_explicit_byte_is_deterministic() {
    let mut m = machine();
    assert_eq!(
        m.execute_with_random(Instruction::Random(2, 0xF0), 0xAB),
        ExecResult::Continue
    );
    assert_eq!(m.v_registers[2], 0xA0);
}

#[test]
fn index_register_instructions() {
    let mut m = machine();
    assert_eq!(m.execute_instruction(Instruction::SetIndexRegister(0x321)), ExecResult::Continue);
    assert_eq!(m.i_register, 0x321);
    m.v_registers[4] = 0x10;
    assert_eq!(m.execute_instruction(Instruction::AddToIndex(4)), ExecResult::Continue);
    assert_eq!(m.i_register, 0x331);
}

#[test]
fn font_character_points_into_font_region() {
    let mut m = machine();
    m.v_registers[3] = 0x0A;
    assert_eq!(m.execute_instruction(Instruction::FontCharacter(3)), ExecResult::Continue);
    assert_eq!(m.i_register, 0x50 + 5 * 10);
    // only the low nibble of VX matters
    m.v_registers[3] = 0xFA;
    assert_eq!(m.execute_instruction(Instruction::FontCharacter(3)), ExecResult::Continue);
    assert_eq!(m.i_register, 0x50 + 5 * 10);
}

#[test]
fn binary_decimal_conversion_writes_digits() {
    let mut m = machine();
    m.v_registers[2] = 205;
    m.i_register = 0x300;
    assert_eq!(
        m.execute_instruction(Instruction::BinaryDecimalConversion(2)),
        ExecResult::Continue
    );
    assert_eq!(m.ram[0x300], 2);
    assert_eq!(m.ram[0x301], 0);
    assert_eq!(m.ram[0x302], 5);
    m.v_registers[2] = 7;
    assert_eq!(
        m.execute_instruction(Instruction::BinaryDecimalConversion(2)),
        ExecResult::Continue
    );
    assert_eq!(m.ram[0x300], 0);
    assert_eq!(m.ram[0x301], 0);
    assert_eq!(m.ram[0x302], 7);
}

#[test]
fn binary_decimal_conversion_at_end_of_memory_faults() {
    let mut m = machine();
    m.v_registers[2] = 205;
    m.i_register = 4094;
    assert_eq!(
        m.execute_instruction(Instruction::BinaryDecimalConversion(2)),
        ExecResult::Fault(Chip8Error::MemoryAccessViolation)
    );
    assert_eq!(m.ram[4094], 0);
}

#[test]
fn store_and_load_memory_round_trip() {
    let mut m = machine();
    for j in 0..16 {
        m.v_registers[j] = (j as u8) * 3 + 1;
    }
    m.i_register = 0x500;
    assert_eq!(m.execute_instruction(Instruction::StoreMemory(0xF)), ExecResult::Continue);
    for j in 0..16 {
        assert_eq!(m.ram[0x500 + j], (j as u8) * 3 + 1);
    }
    let mut other = machine();
    other.ram = m.ram.clone();
    other.i_register = 0x500;
    assert_eq!(other.execute_instruction(Instruction::LoadMemory(0xF)), ExecResult::Continue);
    assert_eq!(other.v_registers, m.v_registers);
}

#[test]
fn store_memory_bound_is_inclusive() {
    let mut m = machine();
    m.v_registers[0] = 0xAA;
    m.v_registers[1] = 0xBB;
    m.v_registers[2] = 0xCC;
    m.i_register = 0x600;
    assert_eq!(m.execute_instruction(Instruction::StoreMemory(1)), ExecResult::Continue);
    assert_eq!(m.ram[0x600], 0xAA);
    assert_eq!(m.ram[0x601], 0xBB);
    assert_eq!(m.ram[0x602], 0);
}

#[test]
fn store_and_load_memory_out_of_bounds_fault() {
    let mut m = machine();
    m.i_register = 4090;
    assert_eq!(
        m.execute_instruction(Instruction::StoreMemory(0xF)),
        ExecResult::Fault(Chip8Error::MemoryAccessViolation)
    );
    assert_eq!(
        m.execute_instruction(Instruction::LoadMemory(0xF)),
        ExecResult::Fault(Chip8Error::MemoryAccessViolation)
    );
    assert_eq!(m.execute_instruction(Instruction::StoreMemory(5)), ExecResult::Continue);
}

#[test]
fn unrecognized_instruction_is_a_fault_not_a_no_op() {
    let mut m = machine();
    assert_eq!(
        m.execute_instruction(Instruction::Unrecognized(0x8128)),
        ExecResult::Fault(Chip8Error::InvalidOpcode)
    );
    assert_eq!(m.pc, 0x200);
}

#[test]
fn skip_if_key_reads_key_vector() {
    let mut m = machine();
    let mut keys = vec![false; 16];
    keys[0xB] = true;
    m.set_keys(&keys);
    m.v_registers[1] = 0xB;
    m.pc = 0x200;
    assert_eq!(m.execute_instruction(Instruction::SkipIfKey(1)), ExecResult::Continue);
    assert_eq!(m.pc, 0x202);
    assert_eq!(m.execute_instruction(Instruction::SkipIfNotKey(1)), ExecResult::Continue);
    assert_eq!(m.pc, 0x202);
    m.v_registers[1] = 0xC;
    assert_eq!(m.execute_instruction(Instruction::SkipIfKey(1)), ExecResult::Continue);
    assert_eq!(m.pc, 0x202);
    assert_eq!(m.execute_instruction(Instruction::SkipIfNotKey(1)), ExecResult::Continue);
    assert_eq!(m.pc, 0x204);
}

#[test]
fn skip_if_key_with_no_matching_key_index_faults() {
    let mut m = machine();
    m.v_registers[1] = 16;
    assert_eq!(
        m.execute_instruction(Instruction::SkipIfKey(1)),
        ExecResult::Fault(Chip8Error::MemoryAccessViolation)
    );
    assert_eq!(
        m.execute_instruction(Instruction::SkipIfNotKey(1)),
        ExecResult::Fault(Chip8Error::MemoryAccessViolation)
    );
}
