//! One executable method per opcode, each proved to realise its arm of the
//! semantics in `semantics`. The dispatcher in `step` picks the method from
//! the fetched word's nibbles, so every case stays independently testable.

use vstd::prelude::*;

use crate::emu::Chip8;
use crate::state::State;
use crate::state::LAST_FETCH_ADDR;
use crate::state::MEM_SIZE;
use crate::state::SCREEN_W;
use crate::state::SCREEN_H;
use crate::semantics::col_mask;
use crate::semantics::draw_step;
use crate::semantics::draw_upto;
use crate::semantics::lemma_draw_upto_frame;
use crate::semantics::read_regs;
use crate::semantics::scan_keys;
use crate::semantics::spec_add;
use crate::semantics::spec_add_imm;
use crate::semantics::spec_add_index;
use crate::semantics::spec_and;
use crate::semantics::spec_assign;
use crate::semantics::spec_bcd;
use crate::semantics::spec_call;
use crate::semantics::spec_clear_screen;
use crate::semantics::spec_draw;
use crate::semantics::spec_font_index;
use crate::semantics::spec_jump;
use crate::semantics::spec_jump_offset;
use crate::semantics::spec_key_wait;
use crate::semantics::spec_nop;
use crate::semantics::spec_or;
use crate::semantics::spec_rand;
use crate::semantics::spec_read_delay;
use crate::semantics::spec_reg_dump;
use crate::semantics::spec_reg_load;
use crate::semantics::spec_return;
use crate::semantics::spec_rsub;
use crate::semantics::spec_set_delay;
use crate::semantics::spec_set_imm;
use crate::semantics::spec_set_index;
use crate::semantics::spec_set_sound;
use crate::semantics::spec_shl;
use crate::semantics::spec_shr;
use crate::semantics::spec_skip;
use crate::semantics::spec_sub;
use crate::semantics::spec_xor;
use crate::semantics::write_regs;

verus! {

/// The single-bit mask for sprite column `dx`.
fn col_mask_exec(dx: usize) -> (m: u8)
    requires
        dx < 8,
    ensures
        m == col_mask(dx as int),
{
    if dx == 0 {
        0x80
    } else if dx == 1 {
        0x40
    } else if dx == 2 {
        0x20
    } else if dx == 3 {
        0x10
    } else if dx == 4 {
        0x08
    } else if dx == 5 {
        0x04
    } else if dx == 6 {
        0x02
    } else {
        0x01
    }
}

impl Chip8 {
    /// Clear the screen and step on.
    pub fn op_clear_screen(&mut self)
        requires
            old(self).wf(),
            old(self)@.pc <= LAST_FETCH_ADDR,
        ensures
            final(self).wf(),
            final(self)@ == spec_clear_screen(old(self)@),
    {
        self.clear_screen();
        self.pc = self.pc + 2;
        proof {
            assert(self@ =~~= spec_clear_screen(old(self)@));
        }
    }

    /// Return from a subroutine.
    pub fn op_return(&mut self)
        requires
            old(self).wf(),
            old(self)@.sp >= 1,
        ensures
            final(self).wf(),
            final(self)@ == spec_return(old(self)@),
    {
        self.sp = self.sp - 1;
        self.pc = self.stack[self.sp as usize] + 2;
        proof {
            assert(self@ =~~= spec_return(old(self)@));
        }
    }

    /// Step past an opcode no case defines.
    pub fn op_nop(&mut self)
        requires
            old(self).wf(),
            old(self)@.pc <= LAST_FETCH_ADDR,
        ensures
            final(self).wf(),
            final(self)@ == spec_nop(old(self)@),
    {
        self.pc = self.pc + 2;
        proof {
            assert(self@ =~~= spec_nop(old(self)@));
        }
    }

    /// Jump to an absolute address.
    pub fn op_jump(&mut self, nnn: u16)
        requires
            old(self).wf(),
        ensures
            final(self).wf(),
            final(self)@ == spec_jump(old(self)@, nnn),
    {
        self.pc = nnn;
        proof {
            assert(self@ =~~= spec_jump(old(self)@, nnn));
        }
    }

    /// Call a subroutine: push the current program counter, then jump.
    pub fn op_call(&mut self, nnn: u16)
        requires
            old(self).wf(),
            old(self)@.sp < 16,
            old(self)@.pc <= LAST_FETCH_ADDR,
        ensures
            final(self).wf(),
            final(self)@ == spec_call(old(self)@, nnn),
    {
        self.stack[self.sp as usize] = self.pc;
        self.sp = self.sp + 1;
        self.pc = nnn;
        proof {
            assert(self@ =~~= spec_call(old(self)@, nnn));
        }
    }

    /// Advance by 4 when the condition holds, else by 2; used by the four
    /// compare-and-skip opcodes and the two key tests.
    pub fn op_skip(&mut self, cond: bool)
        requires
            old(self).wf(),
            old(self)@.pc <= LAST_FETCH_ADDR,
        ensures
            final(self).wf(),
            final(self)@ == spec_skip(old(self)@, cond),
    {
        if cond {
            self.pc = self.pc + 4;
        } else {
            self.pc = self.pc + 2;
        }
        proof {
            assert(self@ =~~= spec_skip(old(self)@, cond));
        }
    }

    /// Load an immediate into VX.
    pub fn op_set_imm(&mut self, x: usize, nn: u8)
        requires
            old(self).wf(),
            x < 16,
            old(self)@.pc <= LAST_FETCH_ADDR,
        ensures
            final(self).wf(),
            final(self)@ == spec_set_imm(old(self)@, x as int, nn),
    {
        self.registers[x] = nn;
        self.pc = self.pc + 2;
        proof {
            assert(self@ =~~= spec_set_imm(old(self)@, x as int, nn));
        }
    }

    /// Add an immediate into VX, wrapping modulo 256; the flag register is
    /// left alone.
    pub fn op_add_imm(&mut self, x: usize, nn: u8)
        requires
            old(self).wf(),
            x < 16,
            old(self)@.pc <= LAST_FETCH_ADDR,
        ensures
            final(self).wf(),
            final(self)@ == spec_add_imm(old(self)@, x as int, nn),
    {
        let sum: u16 = self.registers[x] as u16 + nn as u16;
        self.registers[x] = (sum % 256) as u8;
        self.pc = self.pc + 2;
        proof {
            assert(self@ =~~= spec_add_imm(old(self)@, x as int, nn));
        }
    }

    /// Copy VY into VX.
    pub fn op_assign(&mut self, x: usize, y: usize)
        requires
            old(self).wf(),
            x < 16,
            y < 16,
            old(self)@.pc <= LAST_FETCH_ADDR,
        ensures
            final(self).wf(),
            final(self)@ == spec_assign(old(self)@, x as int, y as int),
    {
        let v = self.registers[y];
        self.registers[x] = v;
        self.pc = self.pc + 2;
        proof {
            assert(self@ =~~= spec_assign(old(self)@, x as int, y as int));
        }
    }

    /// VX |= VY.
    pub fn op_or(&mut self, x: usize, y: usize)
        requires
            old(self).wf(),
            x < 16,
            y < 16,
            old(self)@.pc <= LAST_FETCH_ADDR,
        ensures
            final(self).wf(),
            final(self)@ == spec_or(old(self)@, x as int, y as int),
    {
        let v = self.registers[x] | self.registers[y];
        self.registers[x] = v;
        self.pc = self.pc + 2;
        proof {
            assert(self@ =~~= spec_or(old(self)@, x as int, y as int));
        }
    }

    /// VX &= VY.
    pub fn op_and(&mut self, x: usize, y: usize)
        requires
            old(self).wf(),
            x < 16,
            y < 16,
            old(self)@.pc <= LAST_FETCH_ADDR,
        ensures
            final(self).wf(),
            final(self)@ == spec_and(old(self)@, x as int, y as int),
    {
        let v = self.registers[x] & self.registers[y];
        self.registers[x] = v;
        self.pc = self.pc + 2;
        proof {
            assert(self@ =~~= spec_and(old(self)@, x as int, y as int));
        }
    }

    /// VX ^= VY.
    pub fn op_xor(&mut self, x: usize, y: usize)
        requires
            old(self).wf(),
            x < 16,
            y < 16,
            old(self)@.pc <= LAST_FETCH_ADDR,
        ensures
            final(self).wf(),
            final(self)@ == spec_xor(old(self)@, x as int, y as int),
    {
        let v = self.registers[x] ^ self.registers[y];
        self.registers[x] = v;
        self.pc = self.pc + 2;
        proof {
            assert(self@ =~~= spec_xor(old(self)@, x as int, y as int));
        }
    }

    /// VX += VY, wrapping modulo 256; the flag register becomes 1 exactly
    /// when the true sum exceeds 255.
    pub fn op_add(&mut self, x: usize, y: usize)
        requires
            old(self).wf(),
            x < 16,
            y < 16,
            old(self)@.pc <= LAST_FETCH_ADDR,
        ensures
            final(self).wf(),
            final(self)@ == spec_add(old(self)@, x as int, y as int),
    {
        let sum: u16 = self.registers[x] as u16 + self.registers[y] as u16;
        self.registers[x] = (sum % 256) as u8;
        self.registers[15] = if sum > 255 { 1 } else { 0 };
        self.pc = self.pc + 2;
        proof {
            assert(self@ =~~= spec_add(old(self)@, x as int, y as int));
        }
    }

    /// VX -= VY, wrapping modulo 256; the flag register becomes 0 exactly
    /// when a borrow occurred (VY > VX), else 1.
    pub fn op_sub(&mut self, x: usize, y: usize)
        requires
            old(self).wf(),
            x < 16,
            y < 16,
            old(self)@.pc <= LAST_FETCH_ADDR,
        ensures
            final(self).wf(),
            final(self)@ == spec_sub(old(self)@, x as int, y as int),
    {
        let a = self.registers[x];
        let b = self.registers[y];
        let diff: u8 = if a >= b {
            a - b
        } else {
            (a as u16 + 256 - b as u16) as u8
        };
        self.registers[x] = diff;
        self.registers[15] = if b > a { 0 } else { 1 };
        self.pc = self.pc + 2;
        proof {
            assert(self@ =~~= spec_sub(old(self)@, x as int, y as int));
        }
    }

    /// The flag register takes the low bit of VX, then VX shifts right once.
    pub fn op_shr(&mut self, x: usize)
        requires
            old(self).wf(),
            x < 16,
            old(self)@.pc <= LAST_FETCH_ADDR,
        ensures
            final(self).wf(),
            final(self)@ == spec_shr(old(self)@, x as int),
    {
        let v = self.registers[x];
        self.registers[x] = v / 2;
        self.registers[15] = v % 2;
        self.pc = self.pc + 2;
        proof {
            assert(self@ =~~= spec_shr(old(self)@, x as int));
        }
    }

    /// VX = VY - VX, wrapping modulo 256; the flag register becomes 0
    /// exactly when a borrow occurred (VX > VY), else 1.
    pub fn op_rsub(&mut self, x: usize, y: usize)
        requires
            old(self).wf(),
            x < 16,
            y < 16,
            old(self)@.pc <= LAST_FETCH_ADDR,
        ensures
            final(self).wf(),
            final(self)@ == spec_rsub(old(self)@, x as int, y as int),
    {
        let a = self.registers[x];
        let b = self.registers[y];
        let diff: u8 = if b >= a {
            b - a
        } else {
            (b as u16 + 256 - a as u16) as u8
        };
        self.registers[x] = diff;
        self.registers[15] = if a > b { 0 } else { 1 };
        self.pc = self.pc + 2;
        proof {
            assert(self@ =~~= spec_rsub(old(self)@, x as int, y as int));
        }
    }

    /// The flag register takes the high bit of VX, then VX shifts left
    /// once, dropping it.
    pub fn op_shl(&mut self, x: usize)
        requires
            old(self).wf(),
            x < 16,
            old(self)@.pc <= LAST_FETCH_ADDR,
        ensures
            final(self).wf(),
            final(self)@ == spec_shl(old(self)@, x as int),
    {
        let v = self.registers[x];
        self.registers[x] = ((v as u16 * 2) % 256) as u8;
        self.registers[15] = v / 128;
        self.pc = self.pc + 2;
        proof {
            assert(self@ =~~= spec_shl(old(self)@, x as int));
        }
    }

    /// Load the index register.
    pub fn op_set_index(&mut self, nnn: u16)
        requires
            old(self).wf(),
            old(self)@.pc <= LAST_FETCH_ADDR,
        ensures
            final(self).wf(),
            final(self)@ == spec_set_index(old(self)@, nnn),
    {
        self.index = nnn;
        self.pc = self.pc + 2;
        proof {
            assert(self@ =~~= spec_set_index(old(self)@, nnn));
        }
    }

    /// Jump to V0 plus the address immediate.
    pub fn op_jump_offset(&mut self, nnn: u16)
        requires
            old(self).wf(),
            nnn < 0x1000,
        ensures
            final(self).wf(),
            final(self)@ == spec_jump_offset(old(self)@, nnn),
    {
        self.pc = self.registers[0] as u16 + nnn;
        proof {
            assert(self@ =~~= spec_jump_offset(old(self)@, nnn));
        }
    }

    /// Store a drawn byte, masked by the immediate, into VX. The byte
    /// comes in as an argument, so this holds whatever its source drew.
    pub fn op_rand(&mut self, x: usize, r: u8, nn: u8)
        requires
            old(self).wf(),
            x < 16,
            old(self)@.pc <= LAST_FETCH_ADDR,
        ensures
            final(self).wf(),
            final(self)@ == spec_rand(old(self)@, x as int, r, nn),
    {
        self.registers[x] = r & nn;
        self.pc = self.pc + 2;
        proof {
            assert(self@ =~~= spec_rand(old(self)@, x as int, r, nn));
        }
    }

    /// Read the delay timer into VX.
    pub fn op_read_delay(&mut self, x: usize)
        requires
            old(self).wf(),
            x < 16,
            old(self)@.pc <= LAST_FETCH_ADDR,
        ensures
            final(self).wf(),
            final(self)@ == spec_read_delay(old(self)@, x as int),
    {
        let v = self.delay_timer;
        self.registers[x] = v;
        self.pc = self.pc + 2;
        proof {
            assert(self@ =~~= spec_read_delay(old(self)@, x as int));
        }
    }

    /// Load the delay timer from VX.
    pub fn op_set_delay(&mut self, x: usize)
        requires
            old(self).wf(),
            x < 16,
            old(self)@.pc <= LAST_FETCH_ADDR,
        ensures
            final(self).wf(),
            final(self)@ == spec_set_delay(old(self)@, x as int),
    {
        self.delay_timer = self.registers[x];
        self.pc = self.pc + 2;
        proof {
            assert(self@ =~~= spec_set_delay(old(self)@, x as int));
        }
    }

    /// Load the sound timer from VX.
    pub fn op_set_sound(&mut self, x: usize)
        requires
            old(self).wf(),
            x < 16,
            old(self)@.pc <= LAST_FETCH_ADDR,
        ensures
            final(self).wf(),
            final(self)@ == spec_set_sound(old(self)@, x as int),
    {
        self.sound_timer = self.registers[x];
        self.pc = self.pc + 2;
        proof {
            assert(self@ =~~= spec_set_sound(old(self)@, x as int));
        }
    }

    /// Point the index register at the font glyph for the low nibble of VX.
    pub fn op_font_index(&mut self, x: usize)
        requires
            old(self).wf(),
            x < 16,
            old(self)@.pc <= LAST_FETCH_ADDR,
        ensures
            final(self).wf(),
            final(self)@ == spec_font_index(old(self)@, x as int),
    {
        self.index = (self.registers[x] % 16) as u16 * 5;
        self.pc = self.pc + 2;
        proof {
            assert(self@ =~~= spec_font_index(old(self)@, x as int));
        }
    }

    /// Add VX into the index register, wrapping in 16 bits.
    pub fn op_add_index(&mut self, x: usize)
        requires
            old(self).wf(),
            x < 16,
            old(self)@.pc <= LAST_FETCH_ADDR,
        ensures
            final(self).wf(),
            final(self)@ == spec_add_index(old(self)@, x as int),
    {
        let sum: u32 = self.index as u32 + self.registers[x] as u32;
        self.index = (sum % 0x10000) as u16;
        self.pc = self.pc + 2;
        proof {
            assert(self@ =~~= spec_add_index(old(self)@, x as int));
        }
    }

    /// Store the decimal digits of VX at index, index + 1, index + 2.
    pub fn op_bcd(&mut self, x: usize)
        requires
            old(self).wf(),
            x < 16,
            old(self)@.pc <= LAST_FETCH_ADDR,
            old(self)@.index + 2 < MEM_SIZE,
        ensures
            final(self).wf(),
            final(self)@ == spec_bcd(old(self)@, x as int),
    {
        let v = self.registers[x];
        let base = self.index as usize;
        self.memory[base] = v / 100;
        self.memory[base + 1] = (v / 10) % 10;
        self.memory[base + 2] = v % 10;
        self.pc = self.pc + 2;
        proof {
            assert(self@ =~~= spec_bcd(old(self)@, x as int));
        }
    }

    /// Store V0..=V`end_index` to memory at the index register.
    fn reg_dump(&mut self, end_index: u8)
        requires
            old(self).wf(),
            end_index < 16,
            old(self)@.index + end_index < MEM_SIZE,
        ensures
            final(self).wf(),
            final(self)@ == (State {
                memory: write_regs(
                    old(self)@.memory,
                    old(self)@.registers,
                    old(self)@.index as int,
                    end_index as int + 1,
                ),
                ..old(self)@
            }),
    {
        let base = self.index as usize;
        let count = end_index as usize + 1;
        let mut i: usize = 0;
        while i < count
            invariant
                old(self).wf(),
                count == end_index as usize + 1,
                end_index < 16,
                old(self)@.index + end_index < MEM_SIZE,
                base == old(self)@.index,
                i <= count,
                self.memory@.len() == MEM_SIZE,
                self.memory@ == write_regs(
                    old(self)@.memory,
                    old(self)@.registers,
                    base as int,
                    i as int,
                ),
                self.opcode == old(self).opcode,
                self.registers@ == old(self).registers@,
                self.index == old(self).index,
                self.pc == old(self).pc,
                self.gfx@ == old(self).gfx@,
                self.delay_timer == old(self).delay_timer,
                self.sound_timer == old(self).sound_timer,
                self.stack@ == old(self).stack@,
                self.sp == old(self).sp,
                self.keys@ == old(self).keys@,
                self.redraw == old(self).redraw,
                self.draw_queue@ == old(self).draw_queue@,
            decreases count - i,
        {
            let v = self.registers[i];
            self.memory[base + i] = v;
            i = i + 1;
        }
        proof {
            assert(self@ =~~= (State {
                memory: write_regs(
                    old(self)@.memory,
                    old(self)@.registers,
                    old(self)@.index as int,
                    end_index as int + 1,
                ),
                ..old(self)@
            }));
        }
    }

    /// Load V0..=V`end_index` from memory at the index register.
    fn reg_load(&mut self, end_index: u8)
        requires
            old(self).wf(),
            end_index < 16,
            old(self)@.index + end_index < MEM_SIZE,
        ensures
            final(self).wf(),
            final(self)@ == (State {
                registers: read_regs(
                    old(self)@.registers,
                    old(self)@.memory,
                    old(self)@.index as int,
                    end_index as int + 1,
                ),
                ..old(self)@
            }),
    {
        let base = self.index as usize;
        let count = end_index as usize + 1;
        let mut i: usize = 0;
        while i < count
            invariant
                old(self).wf(),
                count == end_index as usize + 1,
                end_index < 16,
                old(self)@.index + end_index < MEM_SIZE,
                base == old(self)@.index,
                i <= count,
                self.registers@.len() == 16,
                self.registers@ == read_regs(
                    old(self)@.registers,
                    old(self)@.memory,
                    base as int,
                    i as int,
                ),
                self.opcode == old(self).opcode,
                self.memory@ == old(self).memory@,
                self.index == old(self).index,
                self.pc == old(self).pc,
                self.gfx@ == old(self).gfx@,
                self.delay_timer == old(self).delay_timer,
                self.sound_timer == old(self).sound_timer,
                self.stack@ == old(self).stack@,
                self.sp == old(self).sp,
                self.keys@ == old(self).keys@,
                self.redraw == old(self).redraw,
                self.draw_queue@ == old(self).draw_queue@,
            decreases count - i,
        {
            let v = self.memory[base + i];
            self.registers[i] = v;
            i = i + 1;
        }
        proof {
            assert(self@ =~~= (State {
                registers: read_regs(
                    old(self)@.registers,
                    old(self)@.memory,
                    old(self)@.index as int,
                    end_index as int + 1,
                ),
                ..old(self)@
            }));
        }
    }

    /// Store V0..=VX to memory at the index register and step on; the
    /// index register itself is unchanged.
    pub fn op_reg_dump(&mut self, x: usize)
        requires
            old(self).wf(),
            x < 16,
            old(self)@.pc <= LAST_FETCH_ADDR,
            old(self)@.index + x < MEM_SIZE,
        ensures
            final(self).wf(),
            final(self)@ == spec_reg_dump(old(self)@, x as int),
    {
        self.reg_dump(x as u8);
        self.pc = self.pc + 2;
        proof {
            assert(self@ =~~= spec_reg_dump(old(self)@, x as int));
        }
    }

    /// Load V0..=VX from memory at the index register and step on; the
    /// index register itself is unchanged.
    pub fn op_reg_load(&mut self, x: usize)
        requires
            old(self).wf(),
            x < 16,
            old(self)@.pc <= LAST_FETCH_ADDR,
            old(self)@.index + x < MEM_SIZE,
        ensures
            final(self).wf(),
            final(self)@ == spec_reg_load(old(self)@, x as int),
    {
        self.reg_load(x as u8);
        self.pc = self.pc + 2;
        proof {
            assert(self@ =~~= spec_reg_load(old(self)@, x as int));
        }
    }

    /// Scan the keypad. With no key down nothing moves and the opcode
    /// will be retried; otherwise the last pressed key the scan observes
    /// lands in VX and the machine steps on.
    pub fn op_key_wait(&mut self, x: usize)
        requires
            old(self).wf(),
            x < 16,
            old(self)@.pc <= LAST_FETCH_ADDR,
        ensures
            final(self).wf(),
            final(self)@ == spec_key_wait(old(self)@, x as int),
    {
        let mut found = false;
        let mut key: u8 = 0;
        let mut k: usize = 0;
        while k < 16
            invariant
                self.wf(),
                self == old(self),
                k <= 16,
                found <==> scan_keys(self@.keys, k as int) is Some,
                found ==> scan_keys(self@.keys, k as int) == Some(key),
            decreases 16 - k,
        {
            if self.keys[k] != 0 {
                key = k as u8;
                found = true;
            }
            k = k + 1;
        }
        if found {
            self.registers[x] = key;
            self.pc = self.pc + 2;
        }
        proof {
            assert(self@ =~~= spec_key_wait(old(self)@, x as int));
        }
    }

    /// Draw the `n`-row sprite at the index register at position (VX, VY),
    /// XORing pixels, clipping at the screen edges, raising the flag on
    /// collision, and queueing every flip.
    pub fn op_draw(&mut self, x: usize, y: usize, n: usize)
        requires
            old(self).wf(),
            x < 16,
            y < 16,
            n <= 15,
            old(self)@.pc <= LAST_FETCH_ADDR,
            old(self)@.index + n <= MEM_SIZE,
        ensures
            final(self).wf(),
            final(self)@ == spec_draw(old(self)@, x as int, y as int, n as int),
    {
        let vx = self.registers[x];
        let vy = self.registers[y];
        self.registers[15] = 0;
        let ghost s0 = self@;
        proof {
            assert(s0 =~~= (State { registers: old(self)@.registers.update(15, 0u8), ..old(self)@ }));
        }
        let mut dy: usize = 0;
        while dy < n
            invariant
                s0.wf(),
                n <= 15,
                s0.index + n <= MEM_SIZE,
                dy <= n,
                self@ == draw_upto(s0, vx as int, vy as int, 8 * dy),
                self.wf(),
            decreases n - dy,
        {
            proof {
                lemma_draw_upto_frame(s0, vx as int, vy as int, 8 * dy);
            }
            let row_byte = self.memory[self.index as usize + dy];
            let mut dx: usize = 0;
            while dx < 8
                invariant
                    s0.wf(),
                    n <= 15,
                    s0.index + n <= MEM_SIZE,
                    dy < n,
                    dx <= 8,
                    row_byte == s0.memory[s0.index + dy],
                    self@ == draw_upto(s0, vx as int, vy as int, 8 * dy + dx),
                    self.wf(),
                decreases 8 - dx,
            {
                let ghost k: int = 8 * dy + dx;
                let ghost prev = self@;
                proof {
                    lemma_draw_upto_frame(s0, vx as int, vy as int, k);
                    assert(k / 8 == dy && k % 8 == dx);
                }
                let mask = col_mask_exec(dx);
                if row_byte & mask != 0 {
                    let px = vx as usize + dx;
                    let py = vy as usize + dy;
                    if px < SCREEN_W && py < SCREEN_H {
                        proof {
                            assert(self@.gfx[py as int] == self.gfx@[py as int]@);
                            assert(self@.gfx[py as int].len() == SCREEN_W);
                        }
                        let oldv = self.gfx[py][px];
                        let newv: u8 = if oldv == 1 { 0 } else { 1 };
                        if oldv == 1 {
                            self.registers[15] = 1;
                        }
                        self.set_pixel(px, py, newv);
                        self.draw_queue.push_back((px as u16, py as u16, newv));
                    }
                }
                proof {
                    assert(self@ =~~= draw_step(prev, vx as int, vy as int, k));
                    assert(self@ =~~= draw_upto(s0, vx as int, vy as int, k + 1));
                    lemma_draw_upto_frame(s0, vx as int, vy as int, k + 1);
                }
                dx = dx + 1;
            }
            dy = dy + 1;
        }
        proof {
            lemma_draw_upto_frame(s0, vx as int, vy as int, 8 * n);
        }
        self.pc = self.pc + 2;
        proof {
            assert(self@ =~~= spec_draw(old(self)@, x as int, y as int, n as int));
        }
    }
}

} // verus!
