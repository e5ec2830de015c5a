use chip8_core::machine::Emulator;
use chip8_core::Chip8Error;
use chip8_core::ExecResult;
use chip8_core::Instruction;

fn machine() -> Emulator {
    Emulator::new()
}

fn pixel(m: &Emulator, x: usize, y: usize) -> bool {
    m.screen[64 * y + x]
}

#[test]
fn clear_screen_turns_every_pixel_off() {
    let mut m = machine();
    m.screen[0] = true;
    m.screen[64 * 32 - 1] = true;
    m.screen[777] = true;
    assert_eq!(m.execute_instruction(Instruction::ClearScreen), ExecResult::Continue);
    assert!(m.screen.iter().all(|&p| !p));
    assert_eq!(m.screen.len(), 64 * 32);
}

#[test]
fn draw_renders_sprite_bits_msb_first() {
    let mut m = machine();
    m.ram[0x300] = 0b1010_0001;
    m.i_register = 0x300;
    m.v_registers[0] = 4;  // x
    m.v_registers[1] = 2;  // y
    assert_eq!(m.execute_instruction(Instruction::Draw(0, 1, 1)), ExecResult::Continue);
    assert!(pixel(&m, 4, 2));
    assert!(!pixel(&m, 5, 2));
    assert!(pixel(&m, 6, 2));
    assert!(!pixel(&m, 7, 2));
    assert!(!pixel(&m, 8, 2));
    assert!(!pixel(&m, 9, 2));
    assert!(!pixel(&m, 10, 2));
    assert!(pixel(&m, 11, 2));
    assert_eq!(m.v_registers[0xF], 0);
}

#[test]
fn draw_same_sprite_twice_toggles_off_and_collides() {
    let mut m = machine();
    m.ram[0x300] = 0xFF;
    m.ram[0x301] = 0x81;
    m.i_register = 0x300;
    m.v_registers[0] = 10;
    m.v_registers[1] = 5;
    assert_eq!(m.execute_instruction(Instruction::Draw(0, 1, 2)), ExecResult::Continue);
    assert_eq!(m.v_registers[0xF], 0);
    assert!(pixel(&m, 10, 5));
    assert_eq!(m.execute_instruction(Instruction::Draw(0, 1, 2)), ExecResult::Continue);
    assert_eq!(m.v_registers[0xF], 1);
    assert!(m.screen.iter().all(|&p| !p));
}

#[test]
fn draw_collision_is_computed_before_toggling() {
    let mut m = machine();
    m.ram[0x300] = 0b1000_0000;
    m.i_register = 0x300;
    m.v_registers[0] = 3;
    m.v_registers[1] = 3;
    m.screen[64 * 3 + 3] = true;
    assert_eq!(m.execute_instruction(Instruction::Draw(0, 1, 1)), ExecResult::Continue);
    assert!(!pixel(&m, 3, 3));
    assert_eq!(m.v_registers[0xF], 1);
}

#[test]
fn draw_at_right_edge_clips_without_wrapping() {
    let mut m = machine();
    m.ram[0x300] = 0xFF;
    m.i_register = 0x300;
    m.v_registers[0] = 60;
    m.v_registers[1] = 0;
    assert_eq!(m.execute_instruction(Instruction::Draw(0, 1, 1)), ExecResult::Continue);
    assert!(pixel(&m, 60, 0));
    assert!(pixel(&m, 61, 0));
    assert!(pixel(&m, 62, 0));
    assert!(pixel(&m, 63, 0));
    // nothing wraps to the left edge of the same row or anywhere else
    for x in 0..60 {
        assert!(!pixel(&m, x, 0));
    }
    assert!(m.screen[64..].iter().all(|&p| !p));
}

#[test]
fn draw_at_bottom_edge_clips_rows() {
    let mut m = machine();
    m.ram[0x300] = 0x80;
    m.ram[0x301] = 0x80;
    m.ram[0x302] = 0x80;
    m.i_register = 0x300;
    m.v_registers[0] = 0;
    m.v_registers[1] = 30;
    assert_eq!(m.execute_instruction(Instruction::Draw(0, 1, 3)), ExecResult::Continue);
    assert!(pixel(&m, 0, 30));
    assert!(pixel(&m, 0, 31));
    assert!(!pixel(&m, 0, 0));
    assert!(!pixel(&m, 0, 1));
}

#[test]
fn draw_origin_wraps_once() {
    let mut m = machine();
    m.ram[0x300] = 0x80;
    m.i_register = 0x300;
    m.v_registers[0] = 64;  // wraps to x = 0
    m.v_registers[1] = 33;  // wraps to y = 1
    assert_eq!(m.execute_instruction(Instruction::Draw(0, 1, 1)), ExecResult::Continue);
    assert!(pixel(&m, 0, 1));
}

#[test]
fn draw_reading_past_end_of_memory_faults() {
    let mut m = machine();
    m.i_register = 4090;
    m.v_registers[0] = 0;
    m.v_registers[1] = 0;
    assert_eq!(
        m.execute_instruction(Instruction::Draw(0, 1, 8)),
        ExecResult::Fault(Chip8Error::MemoryAccessViolation)
    );
    assert!(m.screen.iter().all(|&p| !p));
}

#[test]
fn get_key_suspends_until_a_key_is_pressed() {
    let mut m = machine();
    // FX0A at 0x200 targeting V4, then 6A2B as the next instruction.
    m.ram[0x200] = 0xF4;
    m.ram[0x201] = 0x0A;
    m.ram[0x202] = 0x6A;
    m.ram[0x203] = 0x2B;
    assert_eq!(m.step(), ExecResult::AwaitingKey);
    assert_eq!(m.pc, 0x202);
    assert_eq!(m.waiting_for_key, Some(4));
    // no key pressed: further steps leave the program counter alone
    for _ in 0..3 {
        assert_eq!(m.step(), ExecResult::AwaitingKey);
        assert_eq!(m.pc, 0x202);
        assert_eq!(m.v_registers[0xA], 0);
    }
    // two keys pressed at once: the lowest index wins
    let mut keys = vec![false; 16];
    keys[9] = true;
    keys[5] = true;
    m.set_keys(&keys);
    assert_eq!(m.step(), ExecResult::Continue);
    assert_eq!(m.v_registers[4], 5);
    assert_eq!(m.waiting_for_key, None);
    assert_eq!(m.pc, 0x202);
    // normal execution resumes on the next step
    assert_eq!(m.step(), ExecResult::Continue);
    assert_eq!(m.v_registers[0xA], 0x2B);
    assert_eq!(m.pc, 0x204);
}

#[test]
fn timers_keep_counting_during_key_wait() {
    let mut m = machine();
    m.ram[0x200] = 0xF0;
    m.ram[0x201] = 0x0A;
    m.delay_timer = 3;
    m.sound_timer = 2;
    assert_eq!(m.step(), ExecResult::AwaitingKey);
    m.tick_timers();
    assert_eq!(m.step(), ExecResult::AwaitingKey);
    m.tick_timers();
    assert_eq!(m.delay_timer, 1);
    assert_eq!(m.sound_timer, 0);
    assert_eq!(m.pc, 0x202);
}
