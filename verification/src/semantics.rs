//! The small-step semantics of the instruction set: decode helpers, the
//! fault predicate saying when a step aborts, and the function from a
//! machine state (plus the byte the random opcode draws) to the next state.

use vstd::prelude::*;

use crate::state::State;
use crate::state::zero_gfx;
use crate::state::LAST_FETCH_ADDR;
use crate::state::MEM_SIZE;
use crate::state::SCREEN_W;
use crate::state::SCREEN_H;
use crate::Fault;

verus! {

/// The instruction word at the program counter, high byte first.
pub open spec fn fetched(s: State) -> u16
    recommends
        s.wf(),
        s.pc <= LAST_FETCH_ADDR,
{
    (s.memory[s.pc as int] * 256 + s.memory[s.pc as int + 1]) as u16
}

/// Top nibble: the primary opcode group.
pub open spec fn op_group(op: u16) -> int {
    op as int / 0x1000
}

/// Second nibble: the first register selector.
pub open spec fn op_x(op: u16) -> int {
    (op as int / 0x100) % 16
}

/// Third nibble: the second register selector.
pub open spec fn op_y(op: u16) -> int {
    (op as int / 16) % 16
}

/// Low nibble: the short immediate.
pub open spec fn op_n(op: u16) -> int {
    op as int % 16
}

/// Low byte: the byte immediate.
pub open spec fn op_nn(op: u16) -> u8 {
    (op % 256) as u8
}

/// Low twelve bits: the address immediate.
pub open spec fn op_nnn(op: u16) -> u16 {
    (op % 0x1000) as u16
}

/// Opcode 00E0 (reached by any 0x0-group word whose low nibble is 0):
/// darken the screen and request a full redraw.
pub open spec fn spec_clear_screen(s: State) -> State {
    State { gfx: zero_gfx(), redraw: true, pc: (s.pc + 2) as u16, ..s }
}

/// Opcode 00EE: pop the call stack into the program counter, then step
/// past the call instruction that is returned to.
pub open spec fn spec_return(s: State) -> State
    recommends
        s.wf(),
        s.sp >= 1,
{
    State { sp: (s.sp - 1) as u16, pc: (s.stack[s.sp as int - 1] + 2) as u16, ..s }
}

/// An opcode no case defines: tolerated, stepped past.
pub open spec fn spec_nop(s: State) -> State {
    State { pc: (s.pc + 2) as u16, ..s }
}

/// Opcode 1NNN: jump.
pub open spec fn spec_jump(s: State, nnn: u16) -> State {
    State { pc: nnn, ..s }
}

/// Opcode 2NNN: push the current program counter and enter the subroutine.
pub open spec fn spec_call(s: State, nnn: u16) -> State
    recommends
        s.wf(),
        s.sp < 16,
{
    State { stack: s.stack.update(s.sp as int, s.pc), sp: (s.sp + 1) as u16, pc: nnn, ..s }
}

/// The four compare-and-skip opcodes and the two key-test opcodes: step
/// by 4 when the condition holds, else by 2.
pub open spec fn spec_skip(s: State, cond: bool) -> State {
    State { pc: if cond { (s.pc + 4) as u16 } else { (s.pc + 2) as u16 }, ..s }
}

/// Opcode 6XNN: load an immediate.
pub open spec fn spec_set_imm(s: State, x: int, nn: u8) -> State
    recommends
        s.wf(),
        0 <= x < 16,
{
    State { registers: s.registers.update(x, nn), pc: (s.pc + 2) as u16, ..s }
}

/// Opcode 7XNN: add an immediate, wrapping modulo 256; the flag register
/// is left alone.
pub open spec fn spec_add_imm(s: State, x: int, nn: u8) -> State
    recommends
        s.wf(),
        0 <= x < 16,
{
    State {
        registers: s.registers.update(x, ((s.registers[x] + nn) % 256) as u8),
        pc: (s.pc + 2) as u16,
        ..s
    }
}

/// Opcode 8XY0: copy VY into VX.
pub open spec fn spec_assign(s: State, x: int, y: int) -> State
    recommends
        s.wf(),
        0 <= x < 16,
        0 <= y < 16,
{
    State { registers: s.registers.update(x, s.registers[y]), pc: (s.pc + 2) as u16, ..s }
}

/// Opcode 8XY1: bitwise or.
pub open spec fn spec_or(s: State, x: int, y: int) -> State
    recommends
        s.wf(),
        0 <= x < 16,
        0 <= y < 16,
{
    State {
        registers: s.registers.update(x, s.registers[x] | s.registers[y]),
        pc: (s.pc + 2) as u16,
        ..s
    }
}

/// Opcode 8XY2: bitwise and.
pub open spec fn spec_and(s: State, x: int, y: int) -> State
    recommends
        s.wf(),
        0 <= x < 16,
        0 <= y < 16,
{
    State {
        registers: s.registers.update(x, s.registers[x] & s.registers[y]),
        pc: (s.pc + 2) as u16,
        ..s
    }
}

/// Opcode 8XY3: bitwise exclusive or.
pub open spec fn spec_xor(s: State, x: int, y: int) -> State
    recommends
        s.wf(),
        0 <= x < 16,
        0 <= y < 16,
{
    State {
        registers: s.registers.update(x, s.registers[x] ^ s.registers[y]),
        pc: (s.pc + 2) as u16,
        ..s
    }
}

/// Opcode 8XY4: VX += VY, wrapping modulo 256; the flag register becomes 1
/// exactly when the true sum exceeds 255, else 0.
pub open spec fn spec_add(s: State, x: int, y: int) -> State
    recommends
        s.wf(),
        0 <= x < 16,
        0 <= y < 16,
{
    let sum = s.registers[x] + s.registers[y];
    State {
        registers: s.registers.update(x, (sum % 256) as u8).update(
            15,
            if sum > 255 { 1u8 } else { 0u8 },
        ),
        pc: (s.pc + 2) as u16,
        ..s
    }
}

/// Opcode 8XY5: VX -= VY, wrapping modulo 256; the flag register becomes 0
/// exactly when a borrow occurred (VY > VX), else 1.
pub open spec fn spec_sub(s: State, x: int, y: int) -> State
    recommends
        s.wf(),
        0 <= x < 16,
        0 <= y < 16,
{
    let a = s.registers[x] as int;
    let b = s.registers[y] as int;
    let diff = if a >= b { a - b } else { a - b + 256 };
    State {
        registers: s.registers.update(x, diff as u8).update(
            15,
            if b > a { 0u8 } else { 1u8 },
        ),
        pc: (s.pc + 2) as u16,
        ..s
    }
}

/// Opcode 8XY6: the flag register takes the bit shifted out (the low bit
/// of VX before the shift), then VX is shifted right once.
pub open spec fn spec_shr(s: State, x: int) -> State
    recommends
        s.wf(),
        0 <= x < 16,
{
    let v = s.registers[x] as int;
    State {
        registers: s.registers.update(x, (v / 2) as u8).update(15, (v % 2) as u8),
        pc: (s.pc + 2) as u16,
        ..s
    }
}

/// Opcode 8XY7: VX = VY - VX, wrapping modulo 256; the flag register
/// becomes 0 exactly when a borrow occurred (VX > VY), else 1.
pub open spec fn spec_rsub(s: State, x: int, y: int) -> State
    recommends
        s.wf(),
        0 <= x < 16,
        0 <= y < 16,
{
    let a = s.registers[x] as int;
    let b = s.registers[y] as int;
    let diff = if b >= a { b - a } else { b - a + 256 };
    State {
        registers: s.registers.update(x, diff as u8).update(
            15,
            if a > b { 0u8 } else { 1u8 },
        ),
        pc: (s.pc + 2) as u16,
        ..s
    }
}

/// Opcode 8XYE: the flag register takes the bit shifted out (the high bit
/// of VX before the shift), then VX is shifted left once, dropping it.
pub open spec fn spec_shl(s: State, x: int) -> State
    recommends
        s.wf(),
        0 <= x < 16,
{
    let v = s.registers[x] as int;
    State {
        registers: s.registers.update(x, ((v * 2) % 256) as u8).update(15, (v / 128) as u8),
        pc: (s.pc + 2) as u16,
        ..s
    }
}

/// Opcode ANNN: load the index register.
pub open spec fn spec_set_index(s: State, nnn: u16) -> State {
    State { index: nnn, pc: (s.pc + 2) as u16, ..s }
}

/// Opcode BNNN: jump to V0 plus the address immediate.
pub open spec fn spec_jump_offset(s: State, nnn: u16) -> State
    recommends
        s.wf(),
{
    State { pc: (s.registers[0] + nnn) as u16, ..s }
}

/// Opcode CXNN: the freshly drawn byte `r` masked by the immediate.
pub open spec fn spec_rand(s: State, x: int, r: u8, nn: u8) -> State
    recommends
        s.wf(),
        0 <= x < 16,
{
    State { registers: s.registers.update(x, r & nn), pc: (s.pc + 2) as u16, ..s }
}

/// Opcode FX07: read the delay timer into VX.
pub open spec fn spec_read_delay(s: State, x: int) -> State
    recommends
        s.wf(),
        0 <= x < 16,
{
    State { registers: s.registers.update(x, s.delay_timer), pc: (s.pc + 2) as u16, ..s }
}

/// Opcode FX15: load the delay timer from VX.
pub open spec fn spec_set_delay(s: State, x: int) -> State
    recommends
        s.wf(),
        0 <= x < 16,
{
    State { delay_timer: s.registers[x], pc: (s.pc + 2) as u16, ..s }
}

/// Opcode FX18: load the sound timer from VX.
pub open spec fn spec_set_sound(s: State, x: int) -> State
    recommends
        s.wf(),
        0 <= x < 16,
{
    State { sound_timer: s.registers[x], pc: (s.pc + 2) as u16, ..s }
}

/// Opcode FX29: point the index register at the font glyph for the low
/// nibble of VX; glyph `d` starts at offset `5 * d`.
pub open spec fn spec_font_index(s: State, x: int) -> State
    recommends
        s.wf(),
        0 <= x < 16,
{
    State { index: ((s.registers[x] % 16) * 5) as u16, pc: (s.pc + 2) as u16, ..s }
}

/// Opcode FX1E: add VX into the index register, wrapping in 16 bits; no
/// flag is touched.
pub open spec fn spec_add_index(s: State, x: int) -> State
    recommends
        s.wf(),
        0 <= x < 16,
{
    State { index: ((s.index + s.registers[x]) % 0x10000) as u16, pc: (s.pc + 2) as u16, ..s }
}

/// Opcode FX33: the decimal digits of VX — hundreds, tens, ones — stored
/// at index, index + 1, index + 2.
pub open spec fn spec_bcd(s: State, x: int) -> State
    recommends
        s.wf(),
        0 <= x < 16,
        s.index + 2 < MEM_SIZE,
{
    let v = s.registers[x] as int;
    let base = s.index as int;
    State {
        memory: s.memory.update(base, (v / 100) as u8).update(
            base + 1,
            ((v / 10) % 10) as u8,
        ).update(base + 2, (v % 10) as u8),
        pc: (s.pc + 2) as u16,
        ..s
    }
}

/// Memory after the first `count` registers are stored at `base`.
pub open spec fn write_regs(mem: Seq<u8>, regs: Seq<u8>, base: int, count: int) -> Seq<u8>
    decreases count,
{
    if count <= 0 {
        mem
    } else {
        write_regs(mem, regs, base, count - 1).update(base + count - 1, regs[count - 1])
    }
}

/// Registers after the first `count` of them are loaded from `base`.
pub open spec fn read_regs(regs: Seq<u8>, mem: Seq<u8>, base: int, count: int) -> Seq<u8>
    decreases count,
{
    if count <= 0 {
        regs
    } else {
        read_regs(regs, mem, base, count - 1).update(count - 1, mem[base + count - 1])
    }
}

/// Opcode FX55: store V0..=VX to memory at the index register, which is
/// left unchanged.
pub open spec fn spec_reg_dump(s: State, x: int) -> State
    recommends
        s.wf(),
        0 <= x < 16,
        s.index + x < MEM_SIZE,
{
    State {
        memory: write_regs(s.memory, s.registers, s.index as int, x + 1),
        pc: (s.pc + 2) as u16,
        ..s
    }
}

/// Opcode FX65: load V0..=VX from memory at the index register, which is
/// left unchanged.
pub open spec fn spec_reg_load(s: State, x: int) -> State
    recommends
        s.wf(),
        0 <= x < 16,
        s.index + x < MEM_SIZE,
{
    State {
        registers: read_regs(s.registers, s.memory, s.index as int, x + 1),
        pc: (s.pc + 2) as u16,
        ..s
    }
}

/// The key the scan of opcode FX0A observes: the highest pressed key
/// index, if any key is down among the first `upto`.
pub open spec fn scan_keys(keys: Seq<u8>, upto: int) -> Option<u8>
    decreases upto,
{
    if upto <= 0 {
        None
    } else if keys[upto - 1] != 0 {
        Some((upto - 1) as u8)
    } else {
        scan_keys(keys, upto - 1)
    }
}

/// Opcode FX0A: with no key down nothing moves, and the opcode is retried
/// on the next step; otherwise the observed key lands in VX and the
/// machine steps on.
pub open spec fn spec_key_wait(s: State, x: int) -> State
    recommends
        s.wf(),
        0 <= x < 16,
{
    match scan_keys(s.keys, 16) {
        Some(k) => State {
            registers: s.registers.update(x, k),
            pc: (s.pc + 2) as u16,
            ..s
        },
        None => s,
    }
}

/// The sprite-row bit for column `dx`, counting the leftmost pixel as
/// column 0.
pub open spec fn sprite_bit(b: u8, dx: int) -> bool {
    b & col_mask(dx) != 0
}

/// The single-bit mask for sprite column `dx`.
pub open spec fn col_mask(dx: int) -> u8 {
    if dx == 0 {
        0x80u8
    } else if dx == 1 {
        0x40u8
    } else if dx == 2 {
        0x20u8
    } else if dx == 3 {
        0x10u8
    } else if dx == 4 {
        0x08u8
    } else if dx == 5 {
        0x04u8
    } else if dx == 6 {
        0x02u8
    } else {
        0x01u8
    }
}

/// The opposite pixel value.
pub open spec fn flip(v: u8) -> u8 {
    if v == 1 { 0u8 } else { 1u8 }
}

/// One unit of sprite drawing: bit `k % 8` of sprite row `k / 8`. A set
/// bit whose target cell is on the screen is XORed in: the cell flips, a
/// turned-off cell raises the collision flag, and the flip is queued.
/// Clipped or clear bits change nothing.
pub open spec fn draw_step(s: State, vx: int, vy: int, k: int) -> State
    recommends
        s.wf(),
        k >= 0,
        s.index + k / 8 < MEM_SIZE,
{
    let dy = k / 8;
    let dx = k % 8;
    let px = vx + dx;
    let py = vy + dy;
    if sprite_bit(s.memory[s.index + dy], dx) && 0 <= px < SCREEN_W && 0 <= py < SCREEN_H {
        let oldv = s.gfx[py][px];
        let newv = flip(oldv);
        State {
            gfx: s.gfx.update(py, s.gfx[py].update(px, newv)),
            registers: if oldv == 1 { s.registers.update(15, 1u8) } else { s.registers },
            draw_queue: s.draw_queue.push((px as u16, py as u16, newv)),
            ..s
        }
    } else {
        s
    }
}

/// The first `k` units of sprite drawing, in row-major order.
pub open spec fn draw_upto(s: State, vx: int, vy: int, k: int) -> State
    decreases k,
{
    if k <= 0 {
        s
    } else {
        draw_step(draw_upto(s, vx, vy, k - 1), vx, vy, k - 1)
    }
}

/// Sprite drawing only flips screen cells, raises the collision flag, and
/// appends to the queue: every other field is framed, screen and register
/// shapes survive, and well-formedness is preserved.
pub proof fn lemma_draw_upto_frame(s: State, vx: int, vy: int, k: int)
    requires
        k >= 0,
        s.wf(),
    ensures
        ({
            let t = draw_upto(s, vx, vy, k);
            &&& t.memory == s.memory
            &&& t.index == s.index
            &&& t.pc == s.pc
            &&& t.sp == s.sp
            &&& t.stack == s.stack
            &&& t.keys == s.keys
            &&& t.opcode == s.opcode
            &&& t.delay_timer == s.delay_timer
            &&& t.sound_timer == s.sound_timer
            &&& t.redraw == s.redraw
            &&& t.registers.len() == s.registers.len()
            &&& (forall|i: int|
                0 <= i < s.registers.len() && i != 15 ==> #[trigger] t.registers[i]
                    == s.registers[i])
            &&& (t.registers.len() == 16 ==> t.registers[15] == s.registers[15]
                || t.registers[15] == 1)
            &&& t.gfx.len() == s.gfx.len()
            &&& (forall|yy: int|
                0 <= yy < s.gfx.len() ==> (#[trigger] t.gfx[yy]).len() == s.gfx[yy].len())
            &&& t.draw_queue.len() >= s.draw_queue.len()
            &&& t.wf()
        }),
    decreases k,
{
    if k > 0 {
        lemma_draw_upto_frame(s, vx, vy, k - 1);
        let t1 = draw_upto(s, vx, vy, k - 1);
        let t = draw_upto(s, vx, vy, k);
        let dy = (k - 1) / 8;
        let dx = (k - 1) % 8;
        let px = vx + dx;
        let py = vy + dy;
        if sprite_bit(t1.memory[t1.index + dy], dx) && 0 <= px < SCREEN_W && 0 <= py
            < SCREEN_H {
            let newv = flip(t1.gfx[py][px]);
            assert(t.gfx == t1.gfx.update(py, t1.gfx[py].update(px, newv)));
            assert(newv == 0 || newv == 1);
            assert forall|yy: int| 0 <= yy < t1.gfx.len() implies (#[trigger] t.gfx[yy]).len()
                == t1.gfx[yy].len() by {
                if yy == py {
                    assert(t.gfx[yy] == t1.gfx[py].update(px, newv));
                }
            }
            assert forall|yy: int, xx: int|
                0 <= yy < SCREEN_H && 0 <= xx < SCREEN_W implies ((#[trigger] t.gfx[yy][xx])
                == 0 || t.gfx[yy][xx] == 1) by {
                if yy == py {
                    assert(t.gfx[yy] == t1.gfx[py].update(px, newv));
                    if xx != px {
                        assert(t.gfx[yy][xx] == t1.gfx[py][xx]);
                    }
                }
            }
        } else {
            assert(t == t1);
        }
    }
}

/// Opcode DXYN: draw the `n`-row sprite at the index register at screen
/// position (VX, VY). The flag register is cleared first and ends 1
/// exactly when some lit pixel was turned off. Pixels past the right or
/// bottom edge are clipped: they are neither drawn nor queued nor counted
/// for collision.
pub open spec fn spec_draw(s: State, x: int, y: int, n: int) -> State
    recommends
        s.wf(),
        0 <= x < 16,
        0 <= y < 16,
        0 <= n <= 15,
        s.index + n <= MEM_SIZE,
{
    let vx = s.registers[x] as int;
    let vy = s.registers[y] as int;
    let s0 = State { registers: s.registers.update(15, 0u8), ..s };
    let s1 = draw_upto(s0, vx, vy, 8 * n);
    State { pc: (s1.pc + 2) as u16, ..s1 }
}

/// Why a step refuses to run, if it does: a fetch that would leave
/// memory, a stack over- or underflow, a memory-indexed opcode reaching
/// past memory, or a key test naming a key past 15. Every other state
/// steps.
pub open spec fn step_fault(s: State) -> Option<Fault>
    recommends
        s.wf(),
{
    if s.pc > LAST_FETCH_ADDR {
        Some(Fault::FetchOutOfBounds)
    } else {
        let op = fetched(s);
        let g = op_group(op);
        let x = op_x(op);
        let low = op_n(op);
        if g == 0x0 && low == 0xE {
            if s.sp == 0 {
                Some(Fault::StackUnderflow)
            } else {
                None
            }
        } else if g == 0x2 {
            if s.sp >= 16 {
                Some(Fault::StackOverflow)
            } else {
                None
            }
        } else if g == 0xD {
            if s.index + low > MEM_SIZE {
                Some(Fault::MemoryOutOfBounds)
            } else {
                None
            }
        } else if g == 0xE && (low == 0xE || low == 0x1) {
            if s.registers[x] >= 16 {
                Some(Fault::KeyOutOfBounds)
            } else {
                None
            }
        } else if g == 0xF && low == 0x3 {
            if s.index + 2 >= MEM_SIZE {
                Some(Fault::MemoryOutOfBounds)
            } else {
                None
            }
        } else if g == 0xF && low == 0x5 && (op_y(op) == 0x5 || op_y(op) == 0x6) {
            if s.index + x >= MEM_SIZE {
                Some(Fault::MemoryOutOfBounds)
            } else {
                None
            }
        } else {
            None
        }
    }
}

/// Fetch, decode, and execute the opcode at the program counter:
/// everything one step does except the timer tick. `r` is the byte the
/// random opcode draws; no other opcode looks at it.
pub open spec fn opcode_next(s: State, r: u8) -> State
    recommends
        s.wf(),
        step_fault(s) is None,
{
    let op = fetched(s);
    let s1 = State { opcode: op, ..s };
    let x = op_x(op);
    let y = op_y(op);
    let n = op_n(op);
    let nn = op_nn(op);
    let nnn = op_nnn(op);
    let g = op_group(op);
    if g == 0x0 {
        if op % 16 == 0x0 {
            spec_clear_screen(s1)
        } else if op % 16 == 0xE {
            spec_return(s1)
        } else {
            spec_nop(s1)
        }
    } else if g == 0x1 {
        spec_jump(s1, nnn)
    } else if g == 0x2 {
        spec_call(s1, nnn)
    } else if g == 0x3 {
        spec_skip(s1, s1.registers[x] == nn)
    } else if g == 0x4 {
        spec_skip(s1, s1.registers[x] != nn)
    } else if g == 0x5 {
        spec_skip(s1, s1.registers[x] == s1.registers[y])
    } else if g == 0x6 {
        spec_set_imm(s1, x, nn)
    } else if g == 0x7 {
        spec_add_imm(s1, x, nn)
    } else if g == 0x8 {
        let low = op % 16;
        if low == 0x0 {
            spec_assign(s1, x, y)
        } else if low == 0x1 {
            spec_or(s1, x, y)
        } else if low == 0x2 {
            spec_and(s1, x, y)
        } else if low == 0x3 {
            spec_xor(s1, x, y)
        } else if low == 0x4 {
            spec_add(s1, x, y)
        } else if low == 0x5 {
            spec_sub(s1, x, y)
        } else if low == 0x6 {
            spec_shr(s1, x)
        } else if low == 0x7 {
            spec_rsub(s1, x, y)
        } else if low == 0xE {
            spec_shl(s1, x)
        } else {
            spec_nop(s1)
        }
    } else if g == 0x9 {
        spec_skip(s1, s1.registers[x] != s1.registers[y])
    } else if g == 0xA {
        spec_set_index(s1, nnn)
    } else if g == 0xB {
        spec_jump_offset(s1, nnn)
    } else if g == 0xC {
        spec_rand(s1, x, r, nn)
    } else if g == 0xD {
        spec_draw(s1, x, y, n)
    } else if g == 0xE {
        if op % 16 == 0xE {
            spec_skip(s1, s1.keys[s1.registers[x] as int] != 0)
        } else if op % 16 == 0x1 {
            spec_skip(s1, s1.keys[s1.registers[x] as int] == 0)
        } else {
            spec_nop(s1)
        }
    } else if g == 0xF {
        let low = op % 16;
        if low == 0x3 {
            spec_bcd(s1, x)
        } else if low == 0x5 {
            if y == 0x1 {
                spec_set_delay(s1, x)
            } else if y == 0x5 {
                spec_reg_dump(s1, x)
            } else if y == 0x6 {
                spec_reg_load(s1, x)
            } else {
                spec_nop(s1)
            }
        } else if low == 0x7 {
            spec_read_delay(s1, x)
        } else if low == 0x8 {
            spec_set_sound(s1, x)
        } else if low == 0x9 {
            spec_font_index(s1, x)
        } else if low == 0xA {
            spec_key_wait(s1, x)
        } else if low == 0xE {
            spec_add_index(s1, x)
        } else {
            spec_nop(s1)
        }
    } else {
        spec_nop(s1)
    }
}

/// The end-of-step timer tick: each positive timer counts down by one.
pub open spec fn tick(s: State) -> State {
    State {
        delay_timer: if s.delay_timer > 0 { (s.delay_timer - 1) as u8 } else { s.delay_timer },
        sound_timer: if s.sound_timer > 0 { (s.sound_timer - 1) as u8 } else { s.sound_timer },
        ..s
    }
}

/// A whole successful step: the opcode, then the timer tick.
pub open spec fn step_next(s: State, r: u8) -> State
    recommends
        s.wf(),
        step_fault(s) is None,
{
    tick(opcode_next(s, r))
}

/// Whether the step beeps: the sound timer stands at 1 when the tick
/// observes it, immediately after the opcode ran.
pub open spec fn step_beeps(s: State, r: u8) -> bool
    recommends
        s.wf(),
        step_fault(s) is None,
{
    opcode_next(s, r).sound_timer == 1
}

} // verus!
