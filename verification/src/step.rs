//! Fetch, decode and dispatch: the fault check that guards a step, one
//! whole opcode, and the step itself with its timer tick and beep.

use vstd::prelude::*;
use rand::Rng;

use crate::emu::Chip8;
use crate::state::State;
use crate::state::LAST_FETCH_ADDR;
use crate::state::MEM_SIZE;
use crate::semantics::fetched;
use crate::semantics::op_group;
use crate::semantics::op_n;
use crate::semantics::op_x;
use crate::semantics::op_y;
use crate::semantics::opcode_next;
use crate::semantics::step_beeps;
use crate::semantics::step_fault;
use crate::semantics::step_next;
use crate::semantics::tick;
use crate::Fault;

verus! {

/// Relies on rand::thread_rng and rand::Rng::gen: draws one byte from the
/// thread-local generator. Nothing is assumed of the value; the callers
/// cope with all 256 outcomes.
#[verifier::external_body]
fn random_byte() -> u8 {
    rand::thread_rng().gen()
}

impl Chip8 {
    /// Nibble `i % 4` of the current opcode, counting from the low end.
    pub fn get_nibble(&self, i: u8) -> (r: u8)
        ensures
            i % 4 == 0 ==> r as int == op_n(self.opcode),
            i % 4 == 1 ==> r as int == op_y(self.opcode),
            i % 4 == 2 ==> r as int == op_x(self.opcode),
            i % 4 == 3 ==> r as int == op_group(self.opcode),
    {
        let sel = i % 4;
        if sel == 0 {
            (self.opcode % 16) as u8
        } else if sel == 1 {
            ((self.opcode / 16) % 16) as u8
        } else if sel == 2 {
            ((self.opcode / 256) % 16) as u8
        } else {
            (self.opcode / 4096) as u8
        }
    }

    /// The fault the next step would abort with, if any.
    fn check_fault(&self) -> (r: Option<Fault>)
        requires
            self.wf(),
        ensures
            r == step_fault(self@),
    {
        if self.pc > LAST_FETCH_ADDR {
            return Some(Fault::FetchOutOfBounds);
        }
        let pc = self.pc as usize;
        let op: u16 = (self.memory[pc] as u16) * 256 + (self.memory[pc + 1] as u16);
        proof {
            assert(op == fetched(self@));
        }
        let g = (op / 0x1000) as u8;
        let x = ((op / 0x100) % 16) as usize;
        let ynib = ((op / 16) % 16) as u8;
        let low = (op % 16) as u8;
        if g == 0x0 && low == 0xE {
            if self.sp == 0 {
                Some(Fault::StackUnderflow)
            } else {
                None
            }
        } else if g == 0x2 {
            if self.sp >= 16 {
                Some(Fault::StackOverflow)
            } else {
                None
            }
        } else if g == 0xD {
            if self.index as usize + low as usize > MEM_SIZE {
                Some(Fault::MemoryOutOfBounds)
            } else {
                None
            }
        } else if g == 0xE && (low == 0xE || low == 0x1) {
            if self.registers[x] >= 16 {
                Some(Fault::KeyOutOfBounds)
            } else {
                None
            }
        } else if g == 0xF && low == 0x3 {
            if self.index as usize + 2 >= MEM_SIZE {
                Some(Fault::MemoryOutOfBounds)
            } else {
                None
            }
        } else if g == 0xF && low == 0x5 && (ynib == 0x5 || ynib == 0x6) {
            if self.index as usize + x >= MEM_SIZE {
                Some(Fault::MemoryOutOfBounds)
            } else {
                None
            }
        } else {
            None
        }
    }

    /// Fetch, decode and run one opcode: the whole of a step except the
    /// timer tick. On a fault nothing at all changes. The ghost half of
    /// the result is the byte the random opcode drew, if it ran.
    fn perform_opcode(&mut self) -> (r: (Result<(), Fault>, Ghost<u8>))
        requires
            old(self).wf(),
        ensures
            final(self).wf(),
            match r.0 {
                Result::Err(f) => step_fault(old(self)@) == Some(f) && final(self)@ == old(
                    self,
                )@,
                Result::Ok(()) => step_fault(old(self)@) is None && final(self)@
                    == opcode_next(old(self)@, r.1@),
            },
    {
        if let Some(f) = self.check_fault() {
            return (Err(f), Ghost(0u8));
        }
        let pc = self.pc as usize;
        let op: u16 = (self.memory[pc] as u16) * 256 + (self.memory[pc + 1] as u16);
        self.opcode = op;
        let ghost s1 = State { opcode: op, ..old(self)@ };
        proof {
            assert(op == fetched(old(self)@));
            assert(self@ =~~= s1);
        }
        let x = self.get_nibble(2) as usize;
        let y = self.get_nibble(1) as usize;
        let n = (op % 16) as usize;
        let nn = (op % 256) as u8;
        let nnn = op % 0x1000;
        let g = (op / 0x1000) as u8;
        let low = (op % 16) as u8;
        let ghost wit: u8 = 0u8;
        if g == 0x0 {
            if low == 0x0 {
                self.op_clear_screen();
            } else if low == 0xE {
                self.op_return();
            } else {
                self.op_nop();
            }
        } else if g == 0x1 {
            self.op_jump(nnn);
        } else if g == 0x2 {
            self.op_call(nnn);
        } else if g == 0x3 {
            let cond = self.registers[x] == nn;
            self.op_skip(cond);
        } else if g == 0x4 {
            let cond = self.registers[x] != nn;
            self.op_skip(cond);
        } else if g == 0x5 {
            let cond = self.registers[x] == self.registers[y];
            self.op_skip(cond);
        } else if g == 0x6 {
            self.op_set_imm(x, nn);
        } else if g == 0x7 {
            self.op_add_imm(x, nn);
        } else if g == 0x8 {
            if low == 0x0 {
                self.op_assign(x, y);
            } else if low == 0x1 {
                self.op_or(x, y);
            } else if low == 0x2 {
                self.op_and(x, y);
            } else if low == 0x3 {
                self.op_xor(x, y);
            } else if low == 0x4 {
                self.op_add(x, y);
            } else if low == 0x5 {
                self.op_sub(x, y);
            } else if low == 0x6 {
                self.op_shr(x);
            } else if low == 0x7 {
                self.op_rsub(x, y);
            } else if low == 0xE {
                self.op_shl(x);
            } else {
                self.op_nop();
            }
        } else if g == 0x9 {
            let cond = self.registers[x] != self.registers[y];
            self.op_skip(cond);
        } else if g == 0xA {
            self.op_set_index(nnn);
        } else if g == 0xB {
            self.op_jump_offset(nnn);
        } else if g == 0xC {
            let rv = random_byte();
            proof {
                wit = rv;
            }
            self.op_rand(x, rv, nn);
        } else if g == 0xD {
            self.op_draw(x, y, n);
        } else if g == 0xE {
            if low == 0xE {
                let key = self.registers[x];
                let cond = self.keys[key as usize] != 0;
                self.op_skip(cond);
            } else if low == 0x1 {
                let key = self.registers[x];
                let cond = self.keys[key as usize] == 0;
                self.op_skip(cond);
            } else {
                self.op_nop();
            }
        } else {
            if low == 0x3 {
                self.op_bcd(x);
            } else if low == 0x5 {
                let ynib = y as u8;
                if ynib == 0x1 {
                    self.op_set_delay(x);
                } else if ynib == 0x5 {
                    self.op_reg_dump(x);
                } else if ynib == 0x6 {
                    self.op_reg_load(x);
                } else {
                    self.op_nop();
                }
            } else if low == 0x7 {
                self.op_read_delay(x);
            } else if low == 0x8 {
                self.op_set_sound(x);
            } else if low == 0x9 {
                self.op_font_index(x);
            } else if low == 0xA {
                self.op_key_wait(x);
            } else if low == 0xE {
                self.op_add_index(x);
            } else {
                self.op_nop();
            }
        }
        proof {
            assert(self@ == opcode_next(old(self)@, wit));
        }
        (Ok(()), Ghost(wit))
    }

    /// One whole step: one opcode — or a stall on the key wait, or a clean
    /// fault that changes nothing — then one timer tick. `Ok(beep)` tells
    /// the presenter whether the tick observed the sound timer at 1 and so
    /// sounded the buzzer.
    ///
    /// Whatever program is in memory, a step touches memory only inside its
    /// 4096 bytes, registers only at indices 0..16, the stack only inside
    /// its 16 slots, and the screen only inside the 64 x 32 grid: every
    /// access is proven in bounds, a step cannot panic, and the machine
    /// stays well formed.
    pub fn cycle(&mut self) -> (r: Result<bool, Fault>)
        requires
            old(self).wf(),
        ensures
            final(self).wf(),
            match r {
                Result::Err(f) => step_fault(old(self)@) == Some(f) && final(self)@ == old(
                    self,
                )@,
                Result::Ok(beep) => step_fault(old(self)@) is None && (exists|rb: u8|
                    final(self)@ == step_next(old(self)@, rb) && beep == step_beeps(
                        old(self)@,
                        rb,
                    )),
            },
    {
        let (res, Ghost(rb)) = self.perform_opcode();
        match res {
            Err(f) => Err(f),
            Ok(()) => {
                let ghost mid = self@;
                let beep = self.sound_timer == 1;
                if self.delay_timer > 0 {
                    self.delay_timer = self.delay_timer - 1;
                }
                if self.sound_timer > 0 {
                    self.sound_timer = self.sound_timer - 1;
                }
                proof {
                    assert(self@ =~~= tick(mid));
                    assert(exists|rbb: u8|
                        self@ == step_next(old(self)@, rbb) && beep == step_beeps(
                            old(self)@,
                            rbb,
                        )) by {
                        assert(self@ == step_next(old(self)@, rb) && beep == step_beeps(
                            old(self)@,
                            rb,
                        ));
                    }
                }
                Ok(beep)
            },
        }
    }
}

} // verus!
