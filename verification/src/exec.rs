//! The executor: one decoded instruction applied to the machine state.
//!
//! [`spec_execute`] is the transition function every contract speaks
//! of; [`Emulator::execute_with_random`] implements it exactly, with
//! the random byte an explicit argument, and
//! [`Emulator::execute_instruction`] supplies that byte from the
//! process-wide random generator.

use crate::draw::spec_draw;
use crate::isa::Instruction;
use crate::machine::filled;
use crate::machine::Emulator;
use crate::machine::MachineView;
use crate::Chip8Error;
use crate::ExecResult;
use vstd::prelude::*;

verus! {

/// Byte addition wrapping modulo 256.
pub open spec fn wrap_add8(a: u8, b: u8) -> u8 {
    if a + b > 255 {
        (a + b - 256) as u8
    } else {
        (a + b) as u8
    }
}

/// Byte subtraction wrapping modulo 256.
pub open spec fn wrap_sub8(a: u8, b: u8) -> u8 {
    if a - b < 0 {
        (a - b + 256) as u8
    } else {
        (a - b) as u8
    }
}

/// 16-bit addition wrapping modulo 2^16.
pub open spec fn wrap_add16(a: u16, b: u16) -> u16 {
    if a + b > 0xFFFF {
        (a + b - 0x10000) as u16
    } else {
        (a + b) as u16
    }
}

/// Memory after registers V0..=VX are stored at `base`: register order
/// maps to address order, every other byte unchanged.
pub open spec fn store_regs(ram: Seq<u8>, base: int, v: Seq<u8>, x: int) -> Seq<u8> {
    Seq::new(4096, |a: int| if base <= a <= base + x {
        v[a - base]
    } else {
        ram[a]
    })
}

/// Registers after V0..=VX are loaded from memory at `base`: address
/// order maps to register order, every other register unchanged.
pub open spec fn load_regs(v: Seq<u8>, ram: Seq<u8>, base: int, x: int) -> Seq<u8> {
    Seq::new(16, |j: int| if j <= x {
        ram[base + j]
    } else {
        v[j]
    })
}

/// Memory after the decimal digits of `n` — hundreds, tens, ones — are
/// written at `base`, `base + 1`, `base + 2`.
pub open spec fn bcd_ram(ram: Seq<u8>, base: int, n: u8) -> Seq<u8> {
    ram.update(base, (n / 100) as u8).update(base + 1, ((n % 100) / 10) as u8).update(
        base + 2,
        (n % 10) as u8,
    )
}

/// The machine after executing `inst` on `pre` with random byte `rnd`,
/// and the result reported to the driver.
///
/// `rnd` matters only to the `Random` instruction.  A fault always
/// leaves the machine exactly as it was.
pub open spec fn spec_execute(pre: MachineView, inst: Instruction, rnd: u8) -> (MachineView,
    ExecResult) {
    match inst {
        Instruction::ClearScreen => (
            (MachineView { screen: Seq::new(64 * 32, |p: int| false), ..pre }),
            ExecResult::Continue,
        ),
        Instruction::SubroutineReturn => {
            if pre.stack.len() == 0 {
                (pre, ExecResult::Fault(Chip8Error::StackUnderflow))
            } else {
                (
                    (MachineView { pc: pre.stack.last(), stack: pre.stack.drop_last(), ..pre }),
                    ExecResult::Continue,
                )
            }
        },
        Instruction::Jump(nnn) => ((MachineView { pc: nnn, ..pre }), ExecResult::Continue),
        Instruction::CallSubRoutine(nnn) => {
            if pre.stack.len() >= 16 {
                (pre, ExecResult::Fault(Chip8Error::StackOverflow))
            } else {
                (
                    (MachineView { pc: nnn, stack: pre.stack.push(pre.pc), ..pre }),
                    ExecResult::Continue,
                )
            }
        },
        Instruction::SkipIfEqual(x, nn) => (
            (MachineView {
                pc: if pre.v[x as int] == nn {
                    wrap_add16(pre.pc, 2)
                } else {
                    pre.pc
                },
                ..pre
            }),
            ExecResult::Continue,
        ),
        Instruction::SkipIfNotEqual(x, nn) => (
            (MachineView {
                pc: if pre.v[x as int] != nn {
                    wrap_add16(pre.pc, 2)
                } else {
                    pre.pc
                },
                ..pre
            }),
            ExecResult::Continue,
        ),
        Instruction::SkipIfRegistersEqual(x, y) => (
            (MachineView {
                pc: if pre.v[x as int] == pre.v[y as int] {
                    wrap_add16(pre.pc, 2)
                } else {
                    pre.pc
                },
                ..pre
            }),
            ExecResult::Continue,
        ),
        Instruction::SkipIfRegistersNotEqual(x, y) => (
            (MachineView {
                pc: if pre.v[x as int] != pre.v[y as int] {
                    wrap_add16(pre.pc, 2)
                } else {
                    pre.pc
                },
                ..pre
            }),
            ExecResult::Continue,
        ),
        Instruction::SetRegister(x, nn) => (
            (MachineView { v: pre.v.update(x as int, nn), ..pre }),
            ExecResult::Continue,
        ),
        Instruction::AddToRegister(x, nn) => (
            (MachineView { v: pre.v.update(x as int, wrap_add8(pre.v[x as int], nn)), ..pre }),
            ExecResult::Continue,
        ),
        Instruction::CopyRegister(x, y) => (
            (MachineView { v: pre.v.update(x as int, pre.v[y as int]), ..pre }),
            ExecResult::Continue,
        ),
        Instruction::Or(x, y) => (
            (MachineView { v: pre.v.update(x as int, pre.v[x as int] | pre.v[y as int]), ..pre }),
            ExecResult::Continue,
        ),
        Instruction::And(x, y) => (
            (MachineView { v: pre.v.update(x as int, pre.v[x as int] & pre.v[y as int]), ..pre }),
            ExecResult::Continue,
        ),
        Instruction::Xor(x, y) => (
            (MachineView { v: pre.v.update(x as int, pre.v[x as int] ^ pre.v[y as int]), ..pre }),
            ExecResult::Continue,
        ),
        Instruction::AddRegisters(x, y) => {
            let a = pre.v[x as int];
            let b = pre.v[y as int];
            let carry: u8 = if a + b > 255 {
                1
            } else {
                0
            };
            (
                (MachineView { v: pre.v.update(x as int, wrap_add8(a, b)).update(15, carry), ..pre }),
                ExecResult::Continue,
            )
        },
        Instruction::Subtract(x, y) => (
            (MachineView {
                v: pre.v.update(x as int, wrap_sub8(pre.v[x as int], pre.v[y as int])),
                ..pre
            }),
            ExecResult::Continue,
        ),
        Instruction::ReverseSubtract(x, y) => (
            (MachineView {
                v: pre.v.update(x as int, wrap_sub8(pre.v[y as int], pre.v[x as int])),
                ..pre
            }),
            ExecResult::Continue,
        ),
        Instruction::ShiftRight(x, y) => {
            let src = pre.v[y as int];
            (
                (MachineView { v: pre.v.update(15, src & 1).update(x as int, src >> 1u8), ..pre }),
                ExecResult::Continue,
            )
        },
        Instruction::ShiftLeft(x, y) => {
            let src = pre.v[y as int];
            (
                (MachineView {
                    v: pre.v.update(15, (src >> 7u8) & 1).update(x as int, src << 1u8),
                    ..pre
                }),
                ExecResult::Continue,
            )
        },
        Instruction::SetIndexRegister(nnn) => (
            (MachineView { i: nnn, ..pre }),
            ExecResult::Continue,
        ),
        Instruction::JumpWithOffset(nnn) => (
            (MachineView { pc: wrap_add16(nnn, pre.v[0] as u16), ..pre }),
            ExecResult::Continue,
        ),
        Instruction::Random(x, nn) => (
            (MachineView { v: pre.v.update(x as int, rnd & nn), ..pre }),
            ExecResult::Continue,
        ),
        Instruction::Draw(x, y, n) => spec_draw(pre, x, y, n),
        Instruction::SkipIfKey(x) => {
            let k = pre.v[x as int];
            if k >= 16 {
                (pre, ExecResult::Fault(Chip8Error::MemoryAccessViolation))
            } else {
                (
                    (MachineView {
                        pc: if pre.keys[k as int] {
                            wrap_add16(pre.pc, 2)
                        } else {
                            pre.pc
                        },
                        ..pre
                    }),
                    ExecResult::Continue,
                )
            }
        },
        Instruction::SkipIfNotKey(x) => {
            let k = pre.v[x as int];
            if k >= 16 {
                (pre, ExecResult::Fault(Chip8Error::MemoryAccessViolation))
            } else {
                (
                    (MachineView {
                        pc: if !pre.keys[k as int] {
                            wrap_add16(pre.pc, 2)
                        } else {
                            pre.pc
                        },
                        ..pre
                    }),
                    ExecResult::Continue,
                )
            }
        },
        Instruction::GetKey(x) => (
            (MachineView { waiting: Some(x), ..pre }),
            ExecResult::AwaitingKey,
        ),
        Instruction::GetTimer(x) => (
            (MachineView { v: pre.v.update(x as int, pre.delay), ..pre }),
            ExecResult::Continue,
        ),
        Instruction::SetDelayTimer(x) => (
            (MachineView { delay: pre.v[x as int], ..pre }),
            ExecResult::Continue,
        ),
        Instruction::SetSoundTimer(x) => (
            (MachineView { sound: pre.v[x as int], ..pre }),
            ExecResult::Continue,
        ),
        Instruction::AddToIndex(x) => (
            (MachineView { i: wrap_add16(pre.i, pre.v[x as int] as u16), ..pre }),
            ExecResult::Continue,
        ),
        Instruction::FontCharacter(x) => (
            (MachineView { i: (0x50 + 5 * (pre.v[x as int] & 0xF)) as u16, ..pre }),
            ExecResult::Continue,
        ),
        Instruction::BinaryDecimalConversion(x) => {
            if pre.i as int + 2 >= 4096 {
                (pre, ExecResult::Fault(Chip8Error::MemoryAccessViolation))
            } else {
                (
                    (MachineView { ram: bcd_ram(pre.ram, pre.i as int, pre.v[x as int]), ..pre }),
                    ExecResult::Continue,
                )
            }
        },
        Instruction::StoreMemory(x) => {
            if pre.i as int + x as int >= 4096 {
                (pre, ExecResult::Fault(Chip8Error::MemoryAccessViolation))
            } else {
                (
                    (MachineView {
                        ram: store_regs(pre.ram, pre.i as int, pre.v, x as int),
                        ..pre
                    }),
                    ExecResult::Continue,
                )
            }
        },
        Instruction::LoadMemory(x) => {
            if pre.i as int + x as int >= 4096 {
                (pre, ExecResult::Fault(Chip8Error::MemoryAccessViolation))
            } else {
                (
                    (MachineView {
                        v: load_regs(pre.v, pre.ram, pre.i as int, x as int),
                        ..pre
                    }),
                    ExecResult::Continue,
                )
            }
        },
        Instruction::Unrecognized(_w) => (pre, ExecResult::Fault(Chip8Error::InvalidOpcode)),
    }
}

/// Relies on rand::random: a byte drawn from the process-wide
/// generator.  Nothing is promised of its value.  The call can panic
/// if the operating system's entropy source fails while the
/// thread-local generator initializes or reseeds; no input of ours can
/// rule that out.
#[verifier::external_body]
pub(crate) fn random_byte() -> u8 {
    rand::random::<u8>()
}

impl Emulator {
    /// Execute one instruction with the random byte given explicitly,
    /// so that the whole transition is deterministic: the machine and
    /// the result are exactly those of [`spec_execute`].
    pub fn execute_with_random(&mut self, instruction: Instruction, rnd: u8) -> (r: ExecResult)
        requires
            old(self)@.wf(),
            instruction.wf(),
        ensures
            final(self)@ == spec_execute(old(self)@, instruction, rnd).0,
            r == spec_execute(old(self)@, instruction, rnd).1,
            final(self)@.wf(),
    {
        match instruction {
            Instruction::ClearScreen => {
                self.screen = filled(64 * 32, false);
                ExecResult::Continue
            },
            Instruction::SubroutineReturn => {
                if self.stack.len() == 0 {
                    ExecResult::Fault(Chip8Error::StackUnderflow)
                } else {
                    let addr = self.stack.pop().unwrap();
                    self.pc = addr;
                    ExecResult::Continue
                }
            },
            Instruction::Jump(nnn) => {
                self.pc = nnn;
                ExecResult::Continue
            },
            Instruction::CallSubRoutine(nnn) => {
                if self.stack.len() >= 16 {
                    ExecResult::Fault(Chip8Error::StackOverflow)
                } else {
                    self.stack.push(self.pc);
                    self.pc = nnn;
                    ExecResult::Continue
                }
            },
            Instruction::SkipIfEqual(x, nn) => {
                if self.v_registers[x as usize] == nn {
                    self.pc = self.pc.wrapping_add(2);
                }
                ExecResult::Continue
            },
            Instruction::SkipIfNotEqual(x, nn) => {
                if self.v_registers[x as usize] != nn {
                    self.pc = self.pc.wrapping_add(2);
                }
                ExecResult::Continue
            },
            Instruction::SkipIfRegistersEqual(x, y) => {
                if self.v_registers[x as usize] == self.v_registers[y as usize] {
                    self.pc = self.pc.wrapping_add(2);
                }
                ExecResult::Continue
            },
            Instruction::SkipIfRegistersNotEqual(x, y) => {
                if self.v_registers[x as usize] != self.v_registers[y as usize] {
                    self.pc = self.pc.wrapping_add(2);
                }
                ExecResult::Continue
            },
            Instruction::SetRegister(x, nn) => {
                self.v_registers[x as usize] = nn;
                ExecResult::Continue
            },
            Instruction::AddToRegister(x, nn) => {
                self.v_registers[x as usize] = self.v_registers[x as usize].wrapping_add(nn);
                ExecResult::Continue
            },
            Instruction::CopyRegister(x, y) => {
                self.v_registers[x as usize] = self.v_registers[y as usize];
                ExecResult::Continue
            },
            Instruction::Or(x, y) => {
                self.v_registers[x as usize] = self.v_registers[x as usize] | self.v_registers[y
                    as usize];
                ExecResult::Continue
            },
            Instruction::And(x, y) => {
                self.v_registers[x as usize] = self.v_registers[x as usize] & self.v_registers[y
                    as usize];
                ExecResult::Continue
            },
            Instruction::Xor(x, y) => {
                self.v_registers[x as usize] = self.v_registers[x as usize] ^ self.v_registers[y
                    as usize];
                ExecResult::Continue
            },
            Instruction::AddRegisters(x, y) => {
                let a = self.v_registers[x as usize];
                let b = self.v_registers[y as usize];
                self.v_registers[x as usize] = a.wrapping_add(b);
                self.v_registers[15] = if (a as u16) + (b as u16) > 255 {
                    1
                } else {
                    0
                };
                ExecResult::Continue
            },
            Instruction::Subtract(x, y) => {
                let a = self.v_registers[x as usize];
                let b = self.v_registers[y as usize];
                self.v_registers[x as usize] = a.wrapping_sub(b);
                ExecResult::Continue
            },
            Instruction::ReverseSubtract(x, y) => {
                let a = self.v_registers[x as usize];
                let b = self.v_registers[y as usize];
                self.v_registers[x as usize] = b.wrapping_sub(a);
                ExecResult::Continue
            },
            Instruction::ShiftRight(x, y) => {
                let src = self.v_registers[y as usize];
                self.v_registers[15] = src & 1;
                self.v_registers[x as usize] = src >> 1u8;
                ExecResult::Continue
            },
            Instruction::ShiftLeft(x, y) => {
                let src = self.v_registers[y as usize];
                self.v_registers[15] = (src >> 7u8) & 1;
                self.v_registers[x as usize] = src << 1u8;
                ExecResult::Continue
            },
            Instruction::SetIndexRegister(nnn) => {
                self.i_register = nnn;
                ExecResult::Continue
            },
            Instruction::JumpWithOffset(nnn) => {
                self.pc = nnn.wrapping_add(self.v_registers[0] as u16);
                ExecResult::Continue
            },
            Instruction::Random(x, nn) => {
                self.v_registers[x as usize] = rnd & nn;
                ExecResult::Continue
            },
            Instruction::Draw(x, y, n) => self.draw_sprite(x, y, n),
            Instruction::SkipIfKey(x) => {
                let k = self.v_registers[x as usize];
                if k >= 16 {
                    ExecResult::Fault(Chip8Error::MemoryAccessViolation)
                } else {
                    if self.keys[k as usize] {
                        self.pc = self.pc.wrapping_add(2);
                    }
                    ExecResult::Continue
                }
            },
            Instruction::SkipIfNotKey(x) => {
                let k = self.v_registers[x as usize];
                if k >= 16 {
                    ExecResult::Fault(Chip8Error::MemoryAccessViolation)
                } else {
                    if !self.keys[k as usize] {
                        self.pc = self.pc.wrapping_add(2);
                    }
                    ExecResult::Continue
                }
            },
            Instruction::GetKey(x) => {
                self.waiting_for_key = Some(x);
                ExecResult::AwaitingKey
            },
            Instruction::GetTimer(x) => {
                self.v_registers[x as usize] = self.delay_timer;
                ExecResult::Continue
            },
            Instruction::SetDelayTimer(x) => {
                self.delay_timer = self.v_registers[x as usize];
                ExecResult::Continue
            },
            Instruction::SetSoundTimer(x) => {
                self.sound_timer = self.v_registers[x as usize];
                ExecResult::Continue
            },
            Instruction::AddToIndex(x) => {
                self.i_register = self.i_register.wrapping_add(
                    self.v_registers[x as usize] as u16,
                );
                ExecResult::Continue
            },
            Instruction::FontCharacter(x) => {
                let c = self.v_registers[x as usize] & 0xF;
                proof {
                    let vv = self.v_registers@[x as int];
                    assert(vv & 0xF < 16) by (bit_vector);
                }
                self.i_register = 0x50 + 5 * (c as u16);
                ExecResult::Continue
            },
            Instruction::BinaryDecimalConversion(x) => {
                if self.i_register as usize + 2 >= 4096 {
                    ExecResult::Fault(Chip8Error::MemoryAccessViolation)
                } else {
                    let n = self.v_registers[x as usize];
                    let base = self.i_register as usize;
                    self.ram[base] = n / 100;
                    self.ram[base + 1] = (n % 100) / 10;
                    self.ram[base + 2] = n % 10;
                    ExecResult::Continue
                }
            },
            Instruction::StoreMemory(x) => {
                if self.i_register as usize + x as usize >= 4096 {
                    ExecResult::Fault(Chip8Error::MemoryAccessViolation)
                } else {
                    let base = self.i_register as usize;
                    let mut j: usize = 0;
                    while j < x as usize + 1
                        invariant
                            old(self)@.wf(),
                            x < 16,
                            j <= x as int + 1,
                            base == old(self)@.i as int,
                            base + x < 4096,
                            self.ram@.len() == 4096,
                            forall|a: int|
                                base <= a < base + j ==> self.ram@[a] == old(self)@.v[a - base],
                            forall|a: int|
                                0 <= a < 4096 && !(base <= a < base + j) ==> self.ram@[a] == old(
                                    self,
                                )@.ram[a],
                            self.pc == old(self)@.pc,
                            self.screen@ == old(self)@.screen,
                            self.v_registers@ == old(self)@.v,
                            self.i_register == old(self)@.i,
                            self.stack@ == old(self)@.stack,
                            self.keys@ == old(self)@.keys,
                            self.delay_timer == old(self)@.delay,
                            self.sound_timer == old(self)@.sound,
                            self.waiting_for_key == old(self)@.waiting,
                        decreases x as int + 1 - j,
                    {
                        self.ram[base + j] = self.v_registers[j];
                        j = j + 1;
                    }
                    proof {
                        assert(self.ram@ =~= store_regs(
                            old(self)@.ram,
                            old(self)@.i as int,
                            old(self)@.v,
                            x as int,
                        ));
                    }
                    ExecResult::Continue
                }
            },
            Instruction::LoadMemory(x) => {
                if self.i_register as usize + x as usize >= 4096 {
                    ExecResult::Fault(Chip8Error::MemoryAccessViolation)
                } else {
                    let base = self.i_register as usize;
                    let mut j: usize = 0;
                    while j < x as usize + 1
                        invariant
                            old(self)@.wf(),
                            x < 16,
                            j <= x as int + 1,
                            base == old(self)@.i as int,
                            base + x < 4096,
                            self.v_registers@.len() == 16,
                            forall|k: int|
                                0 <= k < j ==> self.v_registers@[k] == old(self)@.ram[base + k],
                            forall|k: int|
                                j <= k < 16 ==> self.v_registers@[k] == old(self)@.v[k],
                            self.pc == old(self)@.pc,
                            self.ram@ == old(self)@.ram,
                            self.screen@ == old(self)@.screen,
                            self.i_register == old(self)@.i,
                            self.stack@ == old(self)@.stack,
                            self.keys@ == old(self)@.keys,
                            self.delay_timer == old(self)@.delay,
                            self.sound_timer == old(self)@.sound,
                            self.waiting_for_key == old(self)@.waiting,
                        decreases x as int + 1 - j,
                    {
                        self.v_registers[j] = self.ram[base + j];
                        j = j + 1;
                    }
                    proof {
                        assert(self.v_registers@ =~= load_regs(
                            old(self)@.v,
                            old(self)@.ram,
                            old(self)@.i as int,
                            x as int,
                        ));
                    }
                    ExecResult::Continue
                }
            },
            Instruction::Unrecognized(_w) => ExecResult::Fault(Chip8Error::InvalidOpcode),
        }
    }

    /// Execute one instruction, drawing the random byte internally.
    ///
    /// The machine and the result are those of [`spec_execute`] for
    /// some byte; every instruction except `Random` is unaffected by
    /// which byte was drawn.
    pub fn execute_instruction(&mut self, instruction: Instruction) -> (r: ExecResult)
        requires
            old(self)@.wf(),
            instruction.wf(),
        ensures
            final(self)@.wf(),
            exists|b: u8|
                {
                    &&& final(self)@ == #[trigger] spec_execute(old(self)@, instruction, b).0
                    &&& r == spec_execute(old(self)@, instruction, b).1
                },
    {
        let b = random_byte();
        let r = self.execute_with_random(instruction, b);
        assert(self@ == spec_execute(old(self)@, instruction, b).0);
        r
    }
}

} // verus!
