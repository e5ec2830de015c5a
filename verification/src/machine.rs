//! The machine state: memory, registers, timers, display buffer, key
//! vector and the key-wait marker, together with the loader, the fetch
//! stage and the timer decrement.

use crate::Chip8Error;
use vstd::prelude::*;

verus! {

/// Width of the display buffer in pixels.
pub const SCREEN_WIDTH: usize = 64;

/// Height of the display buffer in pixels.
pub const SCREEN_HEIGHT: usize = 32;

/// Size of the flat memory in bytes.
pub const RAM_SIZE: usize = 4096;

/// Number of general-purpose byte registers.
pub const NUM_REGS: usize = 16;

/// Capacity of the call stack.
pub const STACK_SIZE: usize = 16;

/// Number of keys in the input vector.
pub const NUM_KEYS: usize = 16;

/// First address of the font region; glyphs occupy 0x050..=0x09F.
pub const FONT_ADDR: u16 = 0x50;

/// Address at which program bytes are placed.
pub const START_ADDR: u16 = 0x200;

/// Largest program that fits between `START_ADDR` and the end of memory.
pub const MAX_ROM_SIZE: usize = 4096 - 0x200;

/// The mathematical model of the whole machine.  Every contract of the
/// library speaks of values of this type, reached through the view `@`
/// of [`Emulator`].
pub ghost struct MachineView {
    /// Program counter.
    pub pc: u16,
    /// The 4096 memory bytes.
    pub ram: Seq<u8>,
    /// The 64 x 32 display buffer, row-major; `true` is a lit pixel.
    pub screen: Seq<bool>,
    /// The sixteen general-purpose registers V0..=VF.
    pub v: Seq<u8>,
    /// The index register.
    pub i: u16,
    /// The call stack; the last element is the top.
    pub stack: Seq<u16>,
    /// The sixteen-key input vector; `true` is a pressed key.
    pub keys: Seq<bool>,
    /// The delay timer.
    pub delay: u8,
    /// The sound timer.
    pub sound: u8,
    /// The key-wait marker: `Some(r)` when execution is suspended until
    /// a key press is written to register r.
    pub waiting: Option<u8>,
}

impl MachineView {
    /// Well-formedness: the fixed sizes of the stores, the stack bound,
    /// and a register index as the key-wait marker.
    pub open spec fn wf(self) -> bool {
        &&& self.ram.len() == 4096
        &&& self.screen.len() == 64 * 32
        &&& self.v.len() == 16
        &&& self.keys.len() == 16
        &&& self.stack.len() <= 16
        &&& match self.waiting {
            Some(r) => r < 16,
            None => true,
        }
    }
}

/// The state a freshly created machine holds: everything zeroed or
/// cleared, the program counter at `START_ADDR`.
pub open spec fn init_view() -> MachineView {
    MachineView {
        pc: 0x200,
        ram: Seq::new(4096, |a: int| 0u8),
        screen: Seq::new(64 * 32, |p: int| false),
        v: Seq::new(16, |j: int| 0u8),
        i: 0,
        stack: Seq::empty(),
        keys: Seq::new(16, |k: int| false),
        delay: 0,
        sound: 0,
        waiting: None,
    }
}

/// The CHIP-8 machine: memory, register file, timers, display buffer,
/// key vector and key-wait marker.  Created by [`Emulator::new`],
/// mutated only by the loader, the executor and the timer tick.
pub struct Emulator {
    /// Program counter.
    pub pc: u16,
    /// Flat memory of `RAM_SIZE` bytes.
    pub ram: Vec<u8>,
    /// Monochrome display buffer, row-major, `SCREEN_WIDTH * SCREEN_HEIGHT` pixels.
    pub screen: Vec<bool>,
    /// General-purpose registers V0..=VF.
    pub v_registers: Vec<u8>,
    /// Index register, used as a memory pointer.
    pub i_register: u16,
    /// Call stack of return addresses; the last element is the top.
    pub stack: Vec<u16>,
    /// Snapshot of the sixteen-key input vector.
    pub keys: Vec<bool>,
    /// Delay timer.
    pub delay_timer: u8,
    /// Sound timer.
    pub sound_timer: u8,
    /// Key-wait marker: the register a pressed key's index is owed to.
    pub waiting_for_key: Option<u8>,
}

impl View for Emulator {
    type V = MachineView;

    open spec fn view(&self) -> MachineView {
        MachineView {
            pc: self.pc,
            ram: self.ram@,
            screen: self.screen@,
            v: self.v_registers@,
            i: self.i_register,
            stack: self.stack@,
            keys: self.keys@,
            delay: self.delay_timer,
            sound: self.sound_timer,
            waiting: self.waiting_for_key,
        }
    }
}

/// A vector of `len` copies of `value`.
pub(crate) fn filled<T: Copy>(len: usize, value: T) -> (v: Vec<T>)
    ensures
        v@ == Seq::new(len as nat, |j: int| value),
{
    let mut v: Vec<T> = Vec::new();
    let mut k: usize = 0;
    while k < len
        invariant
            k <= len,
            v@ =~= Seq::new(k as nat, |j: int| value),
        decreases len - k,
    {
        v.push(value);
        k = k + 1;
    }
    assert(v@ =~= Seq::new(len as nat, |j: int| value));
    v
}

/// One timer step: decrement toward zero, never below it.
pub open spec fn dec_timer(t: u8) -> u8 {
    if t > 0 {
        (t - 1) as u8
    } else {
        0
    }
}

/// The word the fetch stage reads at `pc`: two consecutive memory
/// bytes, big-endian.
pub open spec fn spec_fetch_word(ram: Seq<u8>, pc: u16) -> u16 {
    ((ram[pc as int] as u16) << 8) | (ram[pc as int + 1] as u16)
}

/// Memory with the 80-byte font table written over the font region and
/// every other byte unchanged.
pub open spec fn with_fonts(ram: Seq<u8>) -> Seq<u8> {
    Seq::new(4096, |a: int| if 0x50 <= a < 0xA0 {
        font_table()[a - 0x50]
    } else {
        ram[a]
    })
}

/// Memory with `prog` copied in starting at `START_ADDR` and every
/// other byte unchanged.
pub open spec fn with_program(ram: Seq<u8>, prog: Seq<u8>) -> Seq<u8> {
    Seq::new(4096, |a: int| if 0x200 <= a < 0x200 + prog.len() {
        prog[a - 0x200]
    } else {
        ram[a]
    })
}

/// The font table: one 5-byte glyph per hex digit 0..=F.
pub open spec fn font_table() -> Seq<u8> {
    seq![
        0xF0u8, 0x90, 0x90, 0x90, 0xF0,
        0x20, 0x60, 0x20, 0x20, 0x70,
        0xF0, 0x10, 0xF0, 0x80, 0xF0,
        0xF0, 0x10, 0xF0, 0x10, 0xF0,
        0x90, 0x90, 0xF0, 0x10, 0x10,
        0xF0, 0x80, 0xF0, 0x10, 0xF0,
        0xF0, 0x80, 0xF0, 0x90, 0xF0,
        0xF0, 0x10, 0x20, 0x40, 0x40,
        0xF0, 0x90, 0xF0, 0x90, 0xF0,
        0xF0, 0x90, 0xF0, 0x10, 0xF0,
        0xF0, 0x90, 0xF0, 0x90, 0x90,
        0xE0, 0x90, 0xE0, 0x90, 0xE0,
        0xF0, 0x80, 0x80, 0x80, 0xF0,
        0xE0, 0x90, 0x90, 0x90, 0xE0,
        0xF0, 0x80, 0xF0, 0x80, 0xF0,
        0xF0, 0x80, 0xF0, 0x80, 0x80,
    ]
}

/// The font table as an ordinary vector, glyph bytes in address order.
fn font_bytes() -> (v: Vec<u8>)
    ensures
        v@ == font_table(),
{
    let mut v: Vec<u8> = Vec::new();
    v.push(0xF0); v.push(0x90); v.push(0x90); v.push(0x90); v.push(0xF0);
    v.push(0x20); v.push(0x60); v.push(0x20); v.push(0x20); v.push(0x70);
    v.push(0xF0); v.push(0x10); v.push(0xF0); v.push(0x80); v.push(0xF0);
    v.push(0xF0); v.push(0x10); v.push(0xF0); v.push(0x10); v.push(0xF0);
    v.push(0x90); v.push(0x90); v.push(0xF0); v.push(0x10); v.push(0x10);
    v.push(0xF0); v.push(0x80); v.push(0xF0); v.push(0x10); v.push(0xF0);
    v.push(0xF0); v.push(0x80); v.push(0xF0); v.push(0x90); v.push(0xF0);
    v.push(0xF0); v.push(0x10); v.push(0x20); v.push(0x40); v.push(0x40);
    v.push(0xF0); v.push(0x90); v.push(0xF0); v.push(0x90); v.push(0xF0);
    v.push(0xF0); v.push(0x90); v.push(0xF0); v.push(0x10); v.push(0xF0);
    v.push(0xF0); v.push(0x90); v.push(0xF0); v.push(0x90); v.push(0x90);
    v.push(0xE0); v.push(0x90); v.push(0xE0); v.push(0x90); v.push(0xE0);
    v.push(0xF0); v.push(0x80); v.push(0x80); v.push(0x80); v.push(0xF0);
    v.push(0xE0); v.push(0x90); v.push(0x90); v.push(0x90); v.push(0xE0);
    v.push(0xF0); v.push(0x80); v.push(0xF0); v.push(0x80); v.push(0xF0);
    v.push(0xF0); v.push(0x80); v.push(0xF0); v.push(0x80); v.push(0x80);
    assert(v@ =~= font_table());
    v
}

impl Emulator {
    /// A freshly initialized machine: memory, registers, timers, display
    /// and key vector all zeroed or cleared, program counter at
    /// `START_ADDR`.
    pub fn new() -> (m: Emulator)
        ensures
            m@ == init_view(),
            m@.wf(),
    {
        let m = Emulator {
            pc: 0x200,
            ram: filled(4096, 0u8),
            screen: filled(64 * 32, false),
            v_registers: filled(16, 0u8),
            i_register: 0,
            stack: Vec::new(),
            keys: filled(16, false),
            delay_timer: 0,
            sound_timer: 0,
            waiting_for_key: None,
        };
        assert(m@ == init_view());
        m
    }

    /// Write the 80-byte font table into the font region.  Re-invoking
    /// rewrites the same bytes, so the operation is idempotent.
    pub fn load_fonts(&mut self)
        requires
            old(self)@.wf(),
        ensures
            final(self)@ == (MachineView { ram: with_fonts(old(self)@.ram), ..old(self)@ }),
            final(self)@.wf(),
    {
        let fonts = font_bytes();
        let mut idx: usize = 0;
        while idx < 80
            invariant
                idx <= 80,
                fonts@ == font_table(),
                self.ram@.len() == 4096,
                forall|a: int|
                    0x50 <= a < 0x50 + idx ==> self.ram@[a] == font_table()[a - 0x50],
                forall|a: int|
                    0 <= a < 4096 && !(0x50 <= a < 0x50 + idx) ==> self.ram@[a] == old(
                        self,
                    )@.ram[a],
                self.pc == old(self).pc,
                self.screen@ == old(self).screen@,
                self.v_registers@ == old(self).v_registers@,
                self.i_register == old(self).i_register,
                self.stack@ == old(self).stack@,
                self.keys@ == old(self).keys@,
                self.delay_timer == old(self).delay_timer,
                self.sound_timer == old(self).sound_timer,
                self.waiting_for_key == old(self).waiting_for_key,
            decreases 80 - idx,
        {
            self.ram[0x50 + idx] = fonts[idx];
            idx = idx + 1;
        }
        assert(self.ram@ =~= with_fonts(old(self)@.ram));
    }

    /// Copy a program into memory starting at `START_ADDR`.
    ///
    /// Fails with `RomTooLarge`, leaving the machine unchanged, exactly
    /// when the program does not fit between `START_ADDR` and the end of
    /// memory; on success every byte outside the program image is left
    /// as it was.
    pub fn load_program(&mut self, bytes: &Vec<u8>) -> (r: Result<(), Chip8Error>)
        requires
            old(self)@.wf(),
        ensures
            final(self)@.wf(),
            bytes@.len() > 4096 - 0x200 ==> {
                &&& r == Err::<(), Chip8Error>(Chip8Error::RomTooLarge)
                &&& final(self)@ == old(self)@
            },
            bytes@.len() <= 4096 - 0x200 ==> {
                &&& r == Ok::<(), Chip8Error>(())
                &&& final(self)@ == (MachineView {
                    ram: with_program(old(self)@.ram, bytes@),
                    ..old(self)@
                })
            },
    {
        if bytes.len() > MAX_ROM_SIZE {
            return Err(Chip8Error::RomTooLarge);
        }
        let mut j: usize = 0;
        while j < bytes.len()
            invariant
                j <= bytes@.len(),
                bytes@.len() <= 4096 - 0x200,
                self.ram@.len() == 4096,
                forall|a: int|
                    0x200 <= a < 0x200 + j ==> self.ram@[a] == bytes@[a - 0x200],
                forall|a: int|
                    0 <= a < 4096 && !(0x200 <= a < 0x200 + j) ==> self.ram@[a] == old(
                        self,
                    )@.ram[a],
                self.pc == old(self).pc,
                self.screen@ == old(self).screen@,
                self.v_registers@ == old(self).v_registers@,
                self.i_register == old(self).i_register,
                self.stack@ == old(self).stack@,
                self.keys@ == old(self).keys@,
                self.delay_timer == old(self).delay_timer,
                self.sound_timer == old(self).sound_timer,
                self.waiting_for_key == old(self).waiting_for_key,
            decreases bytes@.len() - j,
        {
            self.ram[0x200 + j] = bytes[j];
            j = j + 1;
        }
        assert(self.ram@ =~= with_program(old(self)@.ram, bytes@));
        Ok(())
    }

    /// Replace the key vector with a fresh snapshot from the driver.
    pub fn set_keys(&mut self, keys: &Vec<bool>)
        requires
            old(self)@.wf(),
            keys@.len() == 16,
        ensures
            final(self)@ == (MachineView { keys: keys@, ..old(self)@ }),
            final(self)@.wf(),
    {
        let mut k: usize = 0;
        while k < 16
            invariant
                k <= 16,
                keys@.len() == 16,
                self.keys@.len() == 16,
                forall|j: int| 0 <= j < k ==> self.keys@[j] == keys@[j],
                forall|j: int| k <= j < 16 ==> self.keys@[j] == old(self)@.keys[j],
                self.pc == old(self).pc,
                self.ram@ == old(self).ram@,
                self.screen@ == old(self).screen@,
                self.v_registers@ == old(self).v_registers@,
                self.i_register == old(self).i_register,
                self.stack@ == old(self).stack@,
                self.delay_timer == old(self).delay_timer,
                self.sound_timer == old(self).sound_timer,
                self.waiting_for_key == old(self).waiting_for_key,
            decreases 16 - k,
        {
            self.keys[k] = keys[k];
            k = k + 1;
        }
        assert(self.keys@ =~= keys@);
    }

    /// Read the 16-bit instruction word at the program counter and
    /// advance the counter by two.
    ///
    /// Fails with `MemoryAccessViolation`, leaving the machine
    /// unchanged, exactly when the two bytes at the program counter do
    /// not both lie inside memory.
    pub fn fetch_instruction(&mut self) -> (r: Result<u16, Chip8Error>)
        requires
            old(self)@.wf(),
        ensures
            final(self)@.wf(),
            old(self)@.pc as int + 1 < 4096 ==> {
                &&& r == Ok::<u16, Chip8Error>(spec_fetch_word(old(self)@.ram, old(self)@.pc))
                &&& final(self)@ == (MachineView {
                    pc: (old(self)@.pc + 2) as u16,
                    ..old(self)@
                })
            },
            old(self)@.pc as int + 1 >= 4096 ==> {
                &&& r == Err::<u16, Chip8Error>(Chip8Error::MemoryAccessViolation)
                &&& final(self)@ == old(self)@
            },
    {
        if self.pc as usize >= RAM_SIZE - 1 {
            return Err(Chip8Error::MemoryAccessViolation);
        }
        let hi = self.ram[self.pc as usize];
        let lo = self.ram[self.pc as usize + 1];
        let word = ((hi as u16) << 8) | (lo as u16);
        self.pc = self.pc + 2;
        Ok(word)
    }

    /// Decrement both timers by one, saturating at zero.  The driver
    /// calls this on its own fixed real-time cadence, independent of how
    /// many instructions it executes in between.
    pub fn tick_timers(&mut self)
        requires
            old(self)@.wf(),
        ensures
            final(self)@ == (MachineView {
                delay: dec_timer(old(self)@.delay),
                sound: dec_timer(old(self)@.sound),
                ..old(self)@
            }),
            final(self)@.wf(),
    {
        if self.delay_timer > 0 {
            self.delay_timer = self.delay_timer - 1;
        }
        if self.sound_timer > 0 {
            self.sound_timer = self.sound_timer - 1;
        }
    }
}

/// Writing the font table is idempotent: a second write changes nothing.
pub proof fn lemma_load_fonts_idempotent(ram: Seq<u8>)
    requires
        ram.len() == 4096,
    ensures
        with_fonts(with_fonts(ram)) == with_fonts(ram),
{
    assert(with_fonts(with_fonts(ram)) =~= with_fonts(ram));
}

} // verus!
