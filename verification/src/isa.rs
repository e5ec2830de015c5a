//! The CHIP-8 instruction set: the tagged instruction type and the total
//! decoding function from 16-bit instruction words.

use crate::machine::Emulator;
use vstd::prelude::*;

verus! {

/// One decoded CHIP-8 instruction.
///
/// Register operands are 4-bit indices (0..=15), immediates are 8 bits,
/// addresses are 12 bits; [`Instruction::wf`] captures those ranges.
/// Any word that matches no known opcode decodes to `Unrecognized`,
/// which carries the offending word.
#[derive(Clone, Copy, Debug, PartialEq, Eq, Structural)]
pub enum Instruction {
    /// 00E0: set every pixel of the display buffer to off.
    ClearScreen,
    /// 00EE: pop the call stack into the program counter.
    SubroutineReturn,
    /// 1NNN: set the program counter to NNN.
    Jump(u16),
    /// 2NNN: push the program counter, then jump to NNN.
    CallSubRoutine(u16),
    /// 3XNN: skip the next instruction if VX equals NN.
    SkipIfEqual(u8, u8),
    /// 4XNN: skip the next instruction if VX differs from NN.
    SkipIfNotEqual(u8, u8),
    /// 5XY0: skip the next instruction if VX equals VY.
    SkipIfRegistersEqual(u8, u8),
    /// 9XY0: skip the next instruction if VX differs from VY.
    SkipIfRegistersNotEqual(u8, u8),
    /// 6XNN: set VX to NN.
    SetRegister(u8, u8),
    /// 7XNN: add NN to VX, wrapping modulo 256; the flag is untouched.
    AddToRegister(u8, u8),
    /// 8XY0: copy VY into VX.
    CopyRegister(u8, u8),
    /// 8XY1: set VX to VX | VY.
    Or(u8, u8),
    /// 8XY2: set VX to VX & VY.
    And(u8, u8),
    /// 8XY3: set VX to VX ^ VY.
    Xor(u8, u8),
    /// 8XY4: set VX to VX + VY modulo 256; VF becomes 1 on carry, else 0.
    AddRegisters(u8, u8),
    /// 8XY5: set VX to VX - VY modulo 256; the flag is untouched.
    Subtract(u8, u8),
    /// 8XY6: copy VY shifted right by one into VX; VF becomes VY's bit 0.
    ShiftRight(u8, u8),
    /// 8XY7: set VX to VY - VX modulo 256; the flag is untouched.
    ReverseSubtract(u8, u8),
    /// 8XYE: copy VY shifted left by one into VX; VF becomes VY's bit 7.
    ShiftLeft(u8, u8),
    /// ANNN: set the index register to NNN.
    SetIndexRegister(u16),
    /// BNNN: set the program counter to NNN + V0.
    JumpWithOffset(u16),
    /// CXNN: set VX to a random byte ANDed with NN.
    Random(u8, u8),
    /// DXYN: XOR an 8-wide, N-tall sprite at (VX mod 64, VY mod 32);
    /// VF becomes 1 if a lit pixel was turned off, else 0.
    Draw(u8, u8, u8),
    /// EX9E: skip the next instruction if the key with index VX is pressed.
    SkipIfKey(u8),
    /// EXA1: skip the next instruction if the key with index VX is not pressed.
    SkipIfNotKey(u8),
    /// FX0A: suspend execution until a key is pressed; its index goes to VX.
    GetKey(u8),
    /// FX07: set VX to the delay timer.
    GetTimer(u8),
    /// FX15: set the delay timer to VX.
    SetDelayTimer(u8),
    /// FX18: set the sound timer to VX.
    SetSoundTimer(u8),
    /// FX1E: add VX to the index register, wrapping modulo 2^16.
    AddToIndex(u8),
    /// FX29: point the index register at the font glyph for VX's low nibble.
    FontCharacter(u8),
    /// FX33: write the decimal digits of VX to memory at the index register.
    BinaryDecimalConversion(u8),
    /// FX55: store V0..=VX to memory starting at the index register.
    StoreMemory(u8),
    /// FX65: load V0..=VX from memory starting at the index register.
    LoadMemory(u8),
    /// A word that matches no opcode; executing it is a fatal fault.
    Unrecognized(u16),
}

impl Instruction {
    /// Ranges every decoded instruction satisfies: register operands are
    /// nibbles, addresses are 12 bits, sprite heights are nibbles.
    pub open spec fn wf(self) -> bool {
        match self {
            Instruction::ClearScreen => true,
            Instruction::SubroutineReturn => true,
            Instruction::Jump(nnn) => nnn <= 0xFFF,
            Instruction::CallSubRoutine(nnn) => nnn <= 0xFFF,
            Instruction::SkipIfEqual(x, _nn) => x < 16,
            Instruction::SkipIfNotEqual(x, _nn) => x < 16,
            Instruction::SkipIfRegistersEqual(x, y) => x < 16 && y < 16,
            Instruction::SkipIfRegistersNotEqual(x, y) => x < 16 && y < 16,
            Instruction::SetRegister(x, _nn) => x < 16,
            Instruction::AddToRegister(x, _nn) => x < 16,
            Instruction::CopyRegister(x, y) => x < 16 && y < 16,
            Instruction::Or(x, y) => x < 16 && y < 16,
            Instruction::And(x, y) => x < 16 && y < 16,
            Instruction::Xor(x, y) => x < 16 && y < 16,
            Instruction::AddRegisters(x, y) => x < 16 && y < 16,
            Instruction::Subtract(x, y) => x < 16 && y < 16,
            Instruction::ShiftRight(x, y) => x < 16 && y < 16,
            Instruction::ReverseSubtract(x, y) => x < 16 && y < 16,
            Instruction::ShiftLeft(x, y) => x < 16 && y < 16,
            Instruction::SetIndexRegister(nnn) => nnn <= 0xFFF,
            Instruction::JumpWithOffset(nnn) => nnn <= 0xFFF,
            Instruction::Random(x, _nn) => x < 16,
            Instruction::Draw(x, y, n) => x < 16 && y < 16 && n < 16,
            Instruction::SkipIfKey(x) => x < 16,
            Instruction::SkipIfNotKey(x) => x < 16,
            Instruction::GetKey(x) => x < 16,
            Instruction::GetTimer(x) => x < 16,
            Instruction::SetDelayTimer(x) => x < 16,
            Instruction::SetSoundTimer(x) => x < 16,
            Instruction::AddToIndex(x) => x < 16,
            Instruction::FontCharacter(x) => x < 16,
            Instruction::BinaryDecimalConversion(x) => x < 16,
            Instruction::StoreMemory(x) => x < 16,
            Instruction::LoadMemory(x) => x < 16,
            Instruction::Unrecognized(_w) => true,
        }
    }
}

/// The meaning of a 16-bit instruction word: the top nibble selects the
/// family, and the remaining nibbles are register indices, an 8-bit
/// immediate, or a 12-bit address, per the standard CHIP-8 layout.
/// Total over all 65536 words; unknown patterns map to `Unrecognized`.
pub open spec fn spec_decode(w: u16) -> Instruction {
    let x = ((w >> 8) & 0xF) as u8;
    let y = ((w >> 4) & 0xF) as u8;
    let nn = (w & 0xFF) as u8;
    let nnn = w & 0xFFF;
    let n = (w & 0xF) as u8;
    match (w >> 12) as u8 {
        0x0 => {
            if w == 0x00E0 {
                Instruction::ClearScreen
            } else if w == 0x00EE {
                Instruction::SubroutineReturn
            } else {
                Instruction::Unrecognized(w)
            }
        },
        0x1 => Instruction::Jump(nnn),
        0x2 => Instruction::CallSubRoutine(nnn),
        0x3 => Instruction::SkipIfEqual(x, nn),
        0x4 => Instruction::SkipIfNotEqual(x, nn),
        0x5 => {
            if n == 0 {
                Instruction::SkipIfRegistersEqual(x, y)
            } else {
                Instruction::Unrecognized(w)
            }
        },
        0x6 => Instruction::SetRegister(x, nn),
        0x7 => Instruction::AddToRegister(x, nn),
        0x8 => match n {
            0x0 => Instruction::CopyRegister(x, y),
            0x1 => Instruction::Or(x, y),
            0x2 => Instruction::And(x, y),
            0x3 => Instruction::Xor(x, y),
            0x4 => Instruction::AddRegisters(x, y),
            0x5 => Instruction::Subtract(x, y),
            0x6 => Instruction::ShiftRight(x, y),
            0x7 => Instruction::ReverseSubtract(x, y),
            0xE => Instruction::ShiftLeft(x, y),
            _ => Instruction::Unrecognized(w),
        },
        0x9 => {
            if n == 0 {
                Instruction::SkipIfRegistersNotEqual(x, y)
            } else {
                Instruction::Unrecognized(w)
            }
        },
        0xA => Instruction::SetIndexRegister(nnn),
        0xB => Instruction::JumpWithOffset(nnn),
        0xC => Instruction::Random(x, nn),
        0xD => Instruction::Draw(x, y, n),
        0xE => {
            if nn == 0x9E {
                Instruction::SkipIfKey(x)
            } else if nn == 0xA1 {
                Instruction::SkipIfNotKey(x)
            } else {
                Instruction::Unrecognized(w)
            }
        },
        0xF => match nn {
            0x07 => Instruction::GetTimer(x),
            0x0A => Instruction::GetKey(x),
            0x15 => Instruction::SetDelayTimer(x),
            0x18 => Instruction::SetSoundTimer(x),
            0x1E => Instruction::AddToIndex(x),
            0x29 => Instruction::FontCharacter(x),
            0x33 => Instruction::BinaryDecimalConversion(x),
            0x55 => Instruction::StoreMemory(x),
            0x65 => Instruction::LoadMemory(x),
            _ => Instruction::Unrecognized(w),
        },
        _ => Instruction::Unrecognized(w),
    }
}

impl Emulator {
    /// Decode a 16-bit instruction word.  Pure: the machine is left
    /// untouched, and decoding succeeds for every word — unknown
    /// patterns come back as `Unrecognized`.
    pub fn decode_instruction(&mut self, instruction: u16) -> (inst: Instruction)
        ensures
            final(self)@ == old(self)@,
            inst == spec_decode(instruction),
            inst.wf(),
    {
        proof {
            lemma_decode_wf(instruction);
        }
        let x = ((instruction >> 8) & 0xF) as u8;
        let y = ((instruction >> 4) & 0xF) as u8;
        let nn = (instruction & 0xFF) as u8;
        let nnn = instruction & 0xFFF;
        let n = (instruction & 0xF) as u8;
        match (instruction >> 12) as u8 {
            0x0 => {
                if instruction == 0x00E0 {
                    Instruction::ClearScreen
                } else if instruction == 0x00EE {
                    Instruction::SubroutineReturn
                } else {
                    Instruction::Unrecognized(instruction)
                }
            },
            0x1 => Instruction::Jump(nnn),
            0x2 => Instruction::CallSubRoutine(nnn),
            0x3 => Instruction::SkipIfEqual(x, nn),
            0x4 => Instruction::SkipIfNotEqual(x, nn),
            0x5 => {
                if n == 0 {
                    Instruction::SkipIfRegistersEqual(x, y)
                } else {
                    Instruction::Unrecognized(instruction)
                }
            },
            0x6 => Instruction::SetRegister(x, nn),
            0x7 => Instruction::AddToRegister(x, nn),
            0x8 => match n {
                0x0 => Instruction::CopyRegister(x, y),
                0x1 => Instruction::Or(x, y),
                0x2 => Instruction::And(x, y),
                0x3 => Instruction::Xor(x, y),
                0x4 => Instruction::AddRegisters(x, y),
                0x5 => Instruction::Subtract(x, y),
                0x6 => Instruction::ShiftRight(x, y),
                0x7 => Instruction::ReverseSubtract(x, y),
                0xE => Instruction::ShiftLeft(x, y),
                _ => Instruction::Unrecognized(instruction),
            },
            0x9 => {
                if n == 0 {
                    Instruction::SkipIfRegistersNotEqual(x, y)
                } else {
                    Instruction::Unrecognized(instruction)
                }
            },
            0xA => Instruction::SetIndexRegister(nnn),
            0xB => Instruction::JumpWithOffset(nnn),
            0xC => Instruction::Random(x, nn),
            0xD => Instruction::Draw(x, y, n),
            0xE => {
                if nn == 0x9E {
                    Instruction::SkipIfKey(x)
                } else if nn == 0xA1 {
                    Instruction::SkipIfNotKey(x)
                } else {
                    Instruction::Unrecognized(instruction)
                }
            },
            0xF => match nn {
                0x07 => Instruction::GetTimer(x),
                0x0A => Instruction::GetKey(x),
                0x15 => Instruction::SetDelayTimer(x),
                0x18 => Instruction::SetSoundTimer(x),
                0x1E => Instruction::AddToIndex(x),
                0x29 => Instruction::FontCharacter(x),
                0x33 => Instruction::BinaryDecimalConversion(x),
                0x55 => Instruction::StoreMemory(x),
                0x65 => Instruction::LoadMemory(x),
                _ => Instruction::Unrecognized(instruction),
            },
            _ => Instruction::Unrecognized(instruction),
        }
    }
}

/// Every decoded instruction satisfies the operand ranges of
/// [`Instruction::wf`].
pub proof fn lemma_decode_wf(w: u16)
    ensures
        spec_decode(w).wf(),
{
    assert(((w >> 8) & 0xF) < 16 && ((w >> 4) & 0xF) < 16 && (w & 0xFFF) <= 0xFFF && (w & 0xF)
        < 16) by (bit_vector);
}

} // verus!
