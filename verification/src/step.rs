//! One machine step: while a key is awaited the program counter stands
//! still; otherwise fetch, decode and execute one instruction.

use crate::exec::random_byte;
use crate::exec::spec_execute;
use crate::isa::spec_decode;
use crate::machine::spec_fetch_word;
use crate::machine::Emulator;
use crate::machine::MachineView;
use crate::Chip8Error;
use crate::ExecResult;
use vstd::prelude::*;

verus! {

/// The lowest pressed key index at or above `k`, if any.
pub open spec fn first_pressed_from(keys: Seq<bool>, k: int) -> Option<u8>
    decreases 16 - k,
{
    if k < 0 || k >= 16 {
        None
    } else if keys[k] {
        Some(k as u8)
    } else {
        first_pressed_from(keys, k + 1)
    }
}

/// The lowest pressed key index, if any key is pressed.
pub open spec fn first_pressed(keys: Seq<bool>) -> Option<u8> {
    first_pressed_from(keys, 0)
}

/// A found key is pressed, lies in range, and no lower index at or
/// above `k` is pressed.
pub proof fn lemma_first_pressed_some(keys: Seq<bool>, k: int, j: u8)
    requires
        0 <= k <= 16,
        keys.len() == 16,
        first_pressed_from(keys, k) == Some(j),
    ensures
        k <= j < 16,
        keys[j as int],
        forall|m: int| k <= m < j ==> !keys[m],
    decreases 16 - k,
{
    if k < 16 && !keys[k] {
        lemma_first_pressed_some(keys, k + 1, j);
    }
}

/// When no key is found, none is pressed at or above `k`.
pub proof fn lemma_first_pressed_none(keys: Seq<bool>, k: int)
    requires
        0 <= k <= 16,
        keys.len() == 16,
        first_pressed_from(keys, k) == None::<u8>,
    ensures
        forall|m: int| k <= m < 16 ==> !keys[m],
    decreases 16 - k,
{
    if k < 16 {
        assert(!keys[k]);
        lemma_first_pressed_none(keys, k + 1);
    }
}

/// The machine after one step on `pre` with random byte `rnd`, and the
/// result reported to the driver.
///
/// While a key is awaited nothing is fetched and the program counter
/// does not move: either the lowest pressed key resolves the wait —
/// its index goes to the pending register, and normal execution
/// resumes on the next step — or the machine is unchanged.  Otherwise
/// the word at the program counter is fetched (a fault if it is not
/// fully inside memory), decoded and executed.
pub open spec fn spec_step(pre: MachineView, rnd: u8) -> (MachineView, ExecResult) {
    match pre.waiting {
        Some(r) => match first_pressed(pre.keys) {
            Some(k) => (
                (MachineView { v: pre.v.update(r as int, k), waiting: None, ..pre }),
                ExecResult::Continue,
            ),
            None => (pre, ExecResult::AwaitingKey),
        },
        None => {
            if pre.pc as int + 1 >= 4096 {
                (pre, ExecResult::Fault(Chip8Error::MemoryAccessViolation))
            } else {
                let word = spec_fetch_word(pre.ram, pre.pc);
                let fetched = MachineView { pc: (pre.pc + 2) as u16, ..pre };
                spec_execute(fetched, spec_decode(word), rnd)
            }
        },
    }
}

impl Emulator {
    /// One step with the random byte given explicitly: the machine and
    /// the result are exactly those of [`spec_step`].
    pub fn step_with_random(&mut self, rnd: u8) -> (r: ExecResult)
        requires
            old(self)@.wf(),
        ensures
            final(self)@ == spec_step(old(self)@, rnd).0,
            r == spec_step(old(self)@, rnd).1,
            final(self)@.wf(),
    {
        match self.waiting_for_key {
            Some(reg) => {
                let mut k: usize = 0;
                while k < 16
                    invariant
                        old(self)@.wf(),
                        k <= 16,
                        self@ == old(self)@,
                        reg < 16,
                        self.waiting_for_key == Some(reg),
                        first_pressed(old(self)@.keys) == first_pressed_from(
                            old(self)@.keys,
                            k as int,
                        ),
                    decreases 16 - k,
                {
                    if self.keys[k] {
                        proof {
                            assert(first_pressed_from(old(self)@.keys, k as int) == Some(
                                k as u8,
                            ));
                        }
                        self.v_registers[reg as usize] = k as u8;
                        self.waiting_for_key = None;
                        return ExecResult::Continue;
                    }
                    k = k + 1;
                }
                ExecResult::AwaitingKey
            },
            None => {
                match self.fetch_instruction() {
                    Err(e) => ExecResult::Fault(e),
                    Ok(word) => {
                        let inst = self.decode_instruction(word);
                        self.execute_with_random(inst, rnd)
                    },
                }
            },
        }
    }

    /// One step, drawing the random byte internally: the machine and
    /// the result are those of [`spec_step`] for some byte.
    pub fn step(&mut self) -> (r: ExecResult)
        requires
            old(self)@.wf(),
        ensures
            final(self)@.wf(),
            exists|b: u8|
                {
                    &&& final(self)@ == #[trigger] spec_step(old(self)@, b).0
                    &&& r == spec_step(old(self)@, b).1
                },
    {
        let b = random_byte();
        let r = self.step_with_random(b);
        assert(self@ == spec_step(old(self)@, b).0);
        r
    }
}

} // verus!
