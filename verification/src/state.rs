//! The mathematical model of the machine: a ghost record with one field per
//! piece of state, its well-formedness condition, and the state a freshly
//! built machine is in.

use vstd::prelude::*;

verus! {

/// Size of the machine's memory in bytes.
pub const MEM_SIZE: usize = 4096;

/// First address a program image may occupy; everything below it is
/// reserved (the built-in font lives in the first 80 bytes).
pub const ROM_START: usize = 512;

/// Largest program counter from which a full two-byte fetch is possible.
pub const LAST_FETCH_ADDR: u16 = 4094;

/// Width of the screen in pixels.
pub const SCREEN_W: usize = 64;

/// Height of the screen in pixels.
pub const SCREEN_H: usize = 32;

/// The machine as mathematics: byte sequences for the storage arrays,
/// plain integers for the scalar registers.
#[verifier::ext_equal]
pub ghost struct State {
    /// The most recently fetched instruction word.
    pub opcode: u16,
    /// 4096 bytes of memory.
    pub memory: Seq<u8>,
    /// The sixteen 8-bit general registers V0..VF; VF doubles as the flag.
    pub registers: Seq<u8>,
    /// The 16-bit index register used by memory-indexed opcodes.
    pub index: u16,
    /// The program counter.
    pub pc: u16,
    /// The 64x32 screen, row by row; every cell is 0 or 1.
    pub gfx: Seq<Seq<u8>>,
    /// Countdown timer, decremented once per step while positive.
    pub delay_timer: u8,
    /// Countdown timer whose passage through 1 emits the beep.
    pub sound_timer: u8,
    /// The sixteen return-address slots of the call stack.
    pub stack: Seq<u16>,
    /// Number of call-stack slots in use.
    pub sp: u16,
    /// The sixteen keypad keys; every entry is 0 (up) or 1 (down).
    pub keys: Seq<u8>,
    /// Set when the whole screen must be redrawn (after a clear).
    pub redraw: bool,
    /// Every individual pixel flip, oldest first, as (x, y, new value).
    pub draw_queue: Seq<(u16, u16, u8)>,
}

impl State {
    /// Shapes and ranges every reachable machine state satisfies.
    pub open spec fn wf(self) -> bool {
        &&& self.memory.len() == MEM_SIZE
        &&& self.registers.len() == 16
        &&& self.gfx.len() == SCREEN_H
        &&& (forall|y: int| 0 <= y < SCREEN_H ==> (#[trigger] self.gfx[y]).len() == SCREEN_W)
        &&& (forall|y: int, x: int|
            0 <= y < SCREEN_H && 0 <= x < SCREEN_W ==> ((#[trigger] self.gfx[y][x]) == 0
                || self.gfx[y][x] == 1))
        &&& self.stack.len() == 16
        &&& (forall|i: int| 0 <= i < 16 ==> (#[trigger] self.stack[i]) <= LAST_FETCH_ADDR)
        &&& self.keys.len() == 16
        &&& (forall|i: int| 0 <= i < 16 ==> ((#[trigger] self.keys[i]) == 0 || self.keys[i] == 1))
        &&& self.sp <= 16
    }
}

/// The built-in font: 16 glyphs of five bytes each, one 4x5 hex digit per
/// glyph, stored at the bottom of memory.
pub open spec fn font_data() -> Seq<u8> {
    seq![
        0xF0u8, 0x90, 0x90, 0x90, 0xF0,
        0x20, 0x60, 0x20, 0x20, 0x70,
        0xF0, 0x10, 0xF0, 0x80, 0xF0,
        0xF0, 0x10, 0xF0, 0x10, 0xF0,
        0x90, 0x90, 0xF0, 0x10, 0x10,
        0xF0, 0x80, 0xF0, 0x10, 0xF0,
        0xF0, 0x80, 0xF0, 0x90, 0xF0,
        0xF0, 0x10, 0x20, 0x40, 0x40,
        0xF0, 0x90, 0xF0, 0x90, 0xF0,
        0xF0, 0x90, 0xF0, 0x10, 0xF0,
        0xF0, 0x90, 0xF0, 0x90, 0x90,
        0xE0, 0x90, 0xE0, 0x90, 0xE0,
        0xF0, 0x80, 0x80, 0x80, 0xF0,
        0xE0, 0x90, 0x90, 0x90, 0xE0,
        0xF0, 0x80, 0xF0, 0x80, 0xF0,
        0xF0, 0x80, 0xF0, 0x80, 0x80,
    ]
}

/// One all-dark screen row.
pub open spec fn zero_row() -> Seq<u8> {
    Seq::new(SCREEN_W as nat, |x: int| 0u8)
}

/// The all-dark screen.
pub open spec fn zero_gfx() -> Seq<Seq<u8>> {
    Seq::new(SCREEN_H as nat, |y: int| zero_row())
}

/// Memory as construction and reset leave it: the font, then zeroes.
pub open spec fn initial_memory() -> Seq<u8> {
    Seq::new(MEM_SIZE as nat, |i: int| if i < 80 { font_data()[i] } else { 0u8 })
}

/// The state after construction or reset. Reset leaves the pixel-change
/// queue and the key state alone: they belong to the presenter and the
/// input collaborator; construction passes both empty and released.
pub open spec fn initial_state(queue: Seq<(u16, u16, u8)>, keys: Seq<u8>) -> State {
    State {
        opcode: 0,
        memory: initial_memory(),
        registers: Seq::new(16, |i: int| 0u8),
        index: 0,
        pc: ROM_START as u16,
        gfx: zero_gfx(),
        delay_timer: 0,
        sound_timer: 0,
        stack: Seq::new(16, |i: int| 0u16),
        sp: 0,
        keys: keys,
        redraw: true,
        draw_queue: queue,
    }
}

} // verus!
