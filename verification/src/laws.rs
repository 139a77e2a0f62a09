//! The general laws of the instruction set, stated over the semantics and
//! proved once for all inputs: arithmetic flag behaviour, the key-wait
//! stall, the call/return round trip, and the self-inverse draw opcode.

use vstd::prelude::*;

use crate::state::State;
use crate::state::LAST_FETCH_ADDR;
use crate::state::SCREEN_W;
use crate::state::SCREEN_H;
use crate::semantics::draw_step;
use crate::semantics::draw_upto;
use crate::semantics::fetched;
use crate::semantics::flip;
use crate::semantics::lemma_draw_upto_frame;
use crate::semantics::op_group;
use crate::semantics::op_n;
use crate::semantics::op_nnn;
use crate::semantics::op_x;
use crate::semantics::scan_keys;
use crate::semantics::spec_add;
use crate::semantics::spec_draw;
use crate::semantics::spec_sub;
use crate::semantics::sprite_bit;
use crate::semantics::step_fault;
use crate::semantics::step_next;

verus! {

/// The addition opcode wraps modulo 256 and raises the flag register
/// exactly when the true sum exceeds 255, whatever the operand registers
/// hold.
pub proof fn lemma_add_wraps_and_flags(s: State, x: int, y: int)
    requires
        s.wf(),
        0 <= x < 16,
        0 <= y < 16,
    ensures
        ({
            let a = s.registers[x] as int;
            let b = s.registers[y] as int;
            let t = spec_add(s, x, y);
            &&& t.registers[15] == (if a + b > 255 { 1u8 } else { 0u8 })
            &&& (x != 15 ==> t.registers[x] == (a + b) % 256)
        }),
{
}

/// The subtraction opcode wraps modulo 256 and leaves the flag register 1
/// exactly when no borrow occurred (VY at most VX), whatever the operand
/// registers hold.
pub proof fn lemma_sub_wraps_and_flags(s: State, x: int, y: int)
    requires
        s.wf(),
        0 <= x < 16,
        0 <= y < 16,
    ensures
        ({
            let a = s.registers[x] as int;
            let b = s.registers[y] as int;
            let t = spec_sub(s, x, y);
            &&& t.registers[15] == (if b <= a { 1u8 } else { 0u8 })
            &&& (x != 15 ==> t.registers[x] == (a - b + 256) % 256)
        }),
{
}

/// Only the random opcode reads the drawn byte: for every other fetched
/// word, a step is a function of the machine state alone.
pub proof fn lemma_step_deterministic(s: State, r1: u8, r2: u8)
    requires
        s.wf(),
        op_group(fetched(s)) != 0xC,
    ensures
        step_next(s, r1) == step_next(s, r2),
{
}

/// The key scan names no key exactly when none is down, and otherwise
/// names a down key with no down key above it.
pub proof fn lemma_scan_keys(keys: Seq<u8>, upto: int)
    requires
        0 <= upto <= keys.len(),
        upto <= 256,
    ensures
        (scan_keys(keys, upto) is None) <==> (forall|i: int|
            0 <= i < upto ==> #[trigger] keys[i] == 0),
        scan_keys(keys, upto) matches Some(k) ==> 0 <= k < upto && keys[k as int] != 0 && (
        forall|i: int| k < i < upto ==> #[trigger] keys[i] == 0),
    decreases upto,
{
    if upto > 0 {
        lemma_scan_keys(keys, upto - 1);
        if keys[upto - 1] != 0 {
            assert(scan_keys(keys, upto) == Some((upto - 1) as u8));
        } else {
            assert(scan_keys(keys, upto) == scan_keys(keys, upto - 1));
            match scan_keys(keys, upto) {
                Some(k) => {
                    assert(0 <= k < upto - 1 && keys[k as int] != 0);
                    assert forall|i: int| k < i < upto implies #[trigger] keys[i] == 0 by {
                        if i < upto - 1 {
                            assert(keys[i] == 0);
                        }
                    }
                },
                None => {},
            }
        }
    }
}

/// With the key-wait opcode fetched and no key down, a step moves the
/// program counter nowhere and no register; the moment a key is down, one
/// step stores the observed key in VX and advances by two.
pub proof fn lemma_key_wait(s: State, rb: u8)
    requires
        s.wf(),
        s.pc <= LAST_FETCH_ADDR,
        op_group(fetched(s)) == 0xF,
        op_n(fetched(s)) == 0xA,
    ensures
        (forall|i: int| 0 <= i < 16 ==> #[trigger] s.keys[i] == 0) ==> step_next(s, rb).pc
            == s.pc && step_next(s, rb).registers == s.registers,
        scan_keys(s.keys, 16) matches Some(k) ==> step_next(s, rb).pc == s.pc + 2 && step_next(
            s,
            rb,
        ).registers == s.registers.update(op_x(fetched(s)), k) && s.keys[k as int] != 0 && (
        forall|i: int| k < i < 16 ==> #[trigger] s.keys[i] == 0),
        (scan_keys(s.keys, 16) is None) <==> (forall|i: int|
            0 <= i < 16 ==> #[trigger] s.keys[i] == 0),
{
    lemma_scan_keys(s.keys, 16);
    assert(step_fault(s) is None);
}

/// A call, followed at its target by a return, brings the program counter
/// to the word after the call with the stack depth as before.
pub proof fn lemma_call_return_round_trip(s: State, r1: u8, r2: u8)
    requires
        s.wf(),
        s.pc <= LAST_FETCH_ADDR,
        op_group(fetched(s)) == 0x2,
        s.sp < 16,
        op_nnn(fetched(s)) <= LAST_FETCH_ADDR,
        s.memory[op_nnn(fetched(s)) as int] == 0x00,
        s.memory[op_nnn(fetched(s)) as int + 1] == 0xEE,
    ensures
        step_next(step_next(s, r1), r2).pc == s.pc + 2,
        step_next(step_next(s, r1), r2).sp == s.sp,
{
    let nnn = op_nnn(fetched(s));
    assert(step_fault(s) is None);
    let s1 = step_next(s, r1);
    assert(s1.pc == nnn);
    assert(s1.sp == s.sp + 1);
    assert(s1.memory == s.memory);
    assert(s1.stack == s.stack.update(s.sp as int, s.pc));
    assert(s1.stack[s.sp as int] == s.pc);
    assert(s1.wf());
    assert(fetched(s1) == 0x00EE) by {
        assert(s1.memory[nnn as int] == 0x00);
        assert(s1.memory[nnn as int + 1] == 0xEE);
    }
    assert(op_group(fetched(s1)) == 0x0 && op_n(fetched(s1)) == 0xE);
    assert(step_fault(s1) is None);
    let s2 = step_next(s1, r2);
    assert(s2.pc == s.pc + 2);
    assert(s2.sp == s.sp);
}

/// Whether the sprite unit with row-major number below `k` whose target is
/// the screen cell `(cx, cy)` exists, is a set bit, and is not clipped —
/// that is, whether drawing the first `k` units flips that cell.
pub open spec fn touched(s: State, vx: int, vy: int, k: int, cx: int, cy: int) -> bool {
    let dx = cx - vx;
    let dy = cy - vy;
    &&& 0 <= dx < 8
    &&& 0 <= dy
    &&& 8 * dy + dx < k
    &&& 0 <= cx < SCREEN_W
    &&& 0 <= cy < SCREEN_H
    &&& sprite_bit(s.memory[s.index + dy], dx)
}

/// How many of the first `k` sprite units flip a cell: the set bits that
/// are not clipped. Depends only on memory and the index register.
pub open spec fn flips_upto(s: State, vx: int, vy: int, k: int) -> int
    decreases k,
{
    if k <= 0 {
        0
    } else {
        let j = k - 1;
        let dy = j / 8;
        let dx = j % 8;
        flips_upto(s, vx, vy, j) + if sprite_bit(s.memory[s.index + dy], dx) && 0 <= vx + dx
            < SCREEN_W && 0 <= vy + dy < SCREEN_H {
            1int
        } else {
            0int
        }
    }
}

/// The flip count reads only memory and the index register.
pub proof fn lemma_flips_same(s1: State, s2: State, vx: int, vy: int, k: int)
    requires
        s1.memory == s2.memory,
        s1.index == s2.index,
    ensures
        flips_upto(s1, vx, vy, k) == flips_upto(s2, vx, vy, k),
    decreases k,
{
    if k > 0 {
        lemma_flips_same(s1, s2, vx, vy, k - 1);
    }
}

/// Pointwise account of sprite drawing: after `k` units a cell is flipped
/// exactly when one set, unclipped sprite bit lands on it — each cell is
/// touched at most once — and the queue has grown by one record per such
/// bit.
pub proof fn lemma_draw_upto_cells(s: State, vx: int, vy: int, k: int)
    requires
        s.wf(),
        k >= 0,
    ensures
        ({
            let t = draw_upto(s, vx, vy, k);
            &&& (forall|cy: int, cx: int|
                0 <= cy < SCREEN_H && 0 <= cx < SCREEN_W ==> #[trigger] t.gfx[cy][cx] == (
                if touched(s, vx, vy, k, cx, cy) {
                    flip(s.gfx[cy][cx])
                } else {
                    s.gfx[cy][cx]
                }))
            &&& t.draw_queue.len() == s.draw_queue.len() + flips_upto(s, vx, vy, k)
        }),
    decreases k,
{
    if k > 0 {
        lemma_draw_upto_cells(s, vx, vy, k - 1);
        lemma_draw_upto_frame(s, vx, vy, k - 1);
        let t1 = draw_upto(s, vx, vy, k - 1);
        let t = draw_upto(s, vx, vy, k);
        let j = k - 1;
        let dy = j / 8;
        let dx = j % 8;
        let px = vx + dx;
        let py = vy + dy;
        assert(t == draw_step(t1, vx, vy, j));
        if sprite_bit(s.memory[s.index + dy], dx) && 0 <= px < SCREEN_W && 0 <= py < SCREEN_H {
            assert(!touched(s, vx, vy, j, px, py));
            assert(t1.gfx[py][px] == s.gfx[py][px]);
            assert(t.gfx == t1.gfx.update(py, t1.gfx[py].update(px, flip(t1.gfx[py][px]))));
            assert forall|cy: int, cx: int|
                0 <= cy < SCREEN_H && 0 <= cx < SCREEN_W implies #[trigger] t.gfx[cy][cx] == (
            if touched(s, vx, vy, k, cx, cy) {
                flip(s.gfx[cy][cx])
            } else {
                s.gfx[cy][cx]
            }) by {
                if cy == py && cx == px {
                    assert(t.gfx[cy][cx] == flip(t1.gfx[py][px]));
                    assert(touched(s, vx, vy, k, cx, cy));
                } else {
                    if cy == py {
                        assert(t.gfx[cy][cx] == t1.gfx[py][cx]);
                    } else {
                        assert(t.gfx[cy][cx] == t1.gfx[cy][cx]);
                    }
                    assert(touched(s, vx, vy, k, cx, cy) == touched(s, vx, vy, j, cx, cy))
                        by {
                        if touched(s, vx, vy, k, cx, cy) && !touched(s, vx, vy, j, cx, cy) {
                            assert(8 * (cy - vy) + (cx - vx) == j);
                            assert(cx - vx == dx && cy - vy == dy);
                            assert(false);
                        }
                    }
                }
            }
            assert(t.draw_queue.len() == t1.draw_queue.len() + 1);
        } else {
            assert(t == t1);
            assert forall|cy: int, cx: int|
                0 <= cy < SCREEN_H && 0 <= cx < SCREEN_W implies touched(s, vx, vy, k, cx, cy)
                == touched(s, vx, vy, j, cx, cy) by {
                if touched(s, vx, vy, k, cx, cy) && !touched(s, vx, vy, j, cx, cy) {
                    assert(8 * (cy - vy) + (cx - vx) == j);
                    assert(cx - vx == dx && cy - vy == dy);
                    assert(sprite_bit(s.memory[s.index + dy], dx) && 0 <= px < SCREEN_W && 0
                        <= py < SCREEN_H);
                    assert(false);
                }
            }
        }
    }
}

/// Drawing the same sprite at the same spot twice restores every screen
/// cell and appends the same number of flip records each time.
pub proof fn lemma_draw_twice_restores(s: State, vx: int, vy: int, n: int)
    requires
        s.wf(),
        n >= 0,
    ensures
        ({
            let once = draw_upto(s, vx, vy, 8 * n);
            let twice = draw_upto(once, vx, vy, 8 * n);
            &&& twice.gfx == s.gfx
            &&& once.draw_queue.len() - s.draw_queue.len() == twice.draw_queue.len()
                - once.draw_queue.len()
        }),
{
    let once = draw_upto(s, vx, vy, 8 * n);
    let twice = draw_upto(once, vx, vy, 8 * n);
    lemma_draw_upto_frame(s, vx, vy, 8 * n);
    lemma_draw_upto_frame(once, vx, vy, 8 * n);
    lemma_draw_upto_cells(s, vx, vy, 8 * n);
    lemma_draw_upto_cells(once, vx, vy, 8 * n);
    lemma_flips_same(s, once, vx, vy, 8 * n);
    assert forall|cy: int| 0 <= cy < SCREEN_H implies twice.gfx[cy] =~= s.gfx[cy] by {
        assert(twice.gfx[cy].len() == SCREEN_W && s.gfx[cy].len() == SCREEN_W);
        assert forall|cx: int| 0 <= cx < SCREEN_W implies twice.gfx[cy][cx] == s.gfx[cy][cx]
            by {
            assert(touched(once, vx, vy, 8 * n, cx, cy) == touched(s, vx, vy, 8 * n, cx, cy));
            if touched(s, vx, vy, 8 * n, cx, cy) {
                assert(once.gfx[cy][cx] == flip(s.gfx[cy][cx]));
                assert(twice.gfx[cy][cx] == flip(once.gfx[cy][cx]));
                assert(s.gfx[cy][cx] == 0 || s.gfx[cy][cx] == 1);
            } else {
                assert(once.gfx[cy][cx] == s.gfx[cy][cx]);
                assert(twice.gfx[cy][cx] == once.gfx[cy][cx]);
            }
        }
    }
    assert(twice.gfx =~~= s.gfx);
}

/// Drawing reads only memory, the index register, and the screen: two
/// states that agree there draw the same pixels and queue the same number
/// of records.
pub proof fn lemma_draw_upto_congruence(s1: State, s2: State, vx: int, vy: int, k: int)
    requires
        s1.wf(),
        s2.wf(),
        s1.memory == s2.memory,
        s1.index == s2.index,
        s1.gfx == s2.gfx,
        k >= 0,
    ensures
        draw_upto(s1, vx, vy, k).gfx == draw_upto(s2, vx, vy, k).gfx,
        draw_upto(s1, vx, vy, k).draw_queue.len() - s1.draw_queue.len() == draw_upto(
            s2,
            vx,
            vy,
            k,
        ).draw_queue.len() - s2.draw_queue.len(),
    decreases k,
{
    if k > 0 {
        lemma_draw_upto_congruence(s1, s2, vx, vy, k - 1);
        lemma_draw_upto_frame(s1, vx, vy, k - 1);
        lemma_draw_upto_frame(s2, vx, vy, k - 1);
    }
}

/// The draw opcode run twice with the same selectors — neither naming the
/// flag register, which the first run overwrites — restores the screen
/// and appends the same number of flip records each time.
pub proof fn lemma_draw_opcode_twice_restores(s: State, x: int, y: int, n: int)
    requires
        s.wf(),
        0 <= x < 16,
        0 <= y < 16,
        x != 15,
        y != 15,
        0 <= n <= 15,
    ensures
        ({
            let t1 = spec_draw(s, x, y, n);
            let t2 = spec_draw(t1, x, y, n);
            &&& t2.gfx == s.gfx
            &&& t1.draw_queue.len() - s.draw_queue.len() == t2.draw_queue.len()
                - t1.draw_queue.len()
        }),
{
    let vx = s.registers[x] as int;
    let vy = s.registers[y] as int;
    let s0 = State { registers: s.registers.update(15, 0u8), ..s };
    assert(s0.wf());
    let d1 = draw_upto(s0, vx, vy, 8 * n);
    lemma_draw_upto_frame(s0, vx, vy, 8 * n);
    let t1 = spec_draw(s, x, y, n);
    assert(t1 == (State { pc: (d1.pc + 2) as u16, ..d1 }));
    assert(t1.registers[x] == s.registers[x] && t1.registers[y] == s.registers[y]);
    let s0b = State { registers: t1.registers.update(15, 0u8), ..t1 };
    assert(s0b.wf());
    let d2 = draw_upto(s0b, vx, vy, 8 * n);
    let t2 = spec_draw(t1, x, y, n);
    assert(t2 == (State { pc: (d2.pc + 2) as u16, ..d2 }));
    assert(d1.wf());
    assert(s0b.memory == d1.memory && s0b.index == d1.index && s0b.gfx == d1.gfx
        && s0b.draw_queue == d1.draw_queue);
    lemma_draw_upto_congruence(s0b, d1, vx, vy, 8 * n);
    lemma_draw_twice_restores(s0, vx, vy, n);
    assert(t2.gfx == draw_upto(d1, vx, vy, 8 * n).gfx);
    assert(t2.gfx == s0.gfx);
    assert(t1.draw_queue.len() - s.draw_queue.len() == t2.draw_queue.len()
        - t1.draw_queue.len());
}

} // verus!
