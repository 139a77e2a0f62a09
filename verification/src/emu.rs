//! The machine itself: storage, construction, reset, program loading, the
//! keypad and screen surfaces, and the small helpers the opcodes share.

use vstd::prelude::*;
use std::collections::VecDeque;

use crate::state::State;
use crate::state::initial_state;
use crate::state::initial_memory;
use crate::state::font_data;
use crate::state::zero_gfx;
use crate::state::zero_row;
use crate::state::MEM_SIZE;
use crate::state::ROM_START;
use crate::state::SCREEN_W;
use crate::state::SCREEN_H;
use crate::Fault;

verus! {

broadcast use vstd::std_specs::vecdeque::group_vec_dequeue_axioms;

/// The virtual machine. All mutation goes through its methods; `gfx`,
/// `redraw` and `draw_queue` are exposed for the presenter to read and
/// drain, as well as through the query methods.
pub struct Chip8 {
    /// The most recently fetched instruction word.
    pub opcode: u16,
    /// 4096 bytes of memory; the font sits in the first 80.
    pub memory: Vec<u8>,
    /// The sixteen general registers V0..VF.
    pub registers: Vec<u8>,
    /// The index register.
    pub index: u16,
    /// The program counter.
    pub pc: u16,
    /// Pixel values of the 64 x 32 screen, indexed `gfx[y][x]`.
    pub gfx: Vec<Vec<u8>>,
    /// Countdown timer read and written by opcodes.
    pub delay_timer: u8,
    /// Countdown timer whose passage through 1 beeps.
    pub sound_timer: u8,
    /// Return addresses of calls in progress.
    pub stack: Vec<u16>,
    /// Number of stack slots in use.
    pub sp: u16,
    /// Current key state, 1 for a held key.
    pub keys: Vec<u8>,
    /// Whether the whole screen must be redrawn.
    pub redraw: bool,
    /// Pixel flips the presenter has not drained yet.
    pub draw_queue: VecDeque<(u16, u16, u8)>,
}

impl View for Chip8 {
    type V = State;

    open spec fn view(&self) -> State {
        State {
            opcode: self.opcode,
            memory: self.memory@,
            registers: self.registers@,
            index: self.index,
            pc: self.pc,
            gfx: self.gfx@.map_values(|row: Vec<u8>| row@),
            delay_timer: self.delay_timer,
            sound_timer: self.sound_timer,
            stack: self.stack@,
            sp: self.sp,
            keys: self.keys@,
            redraw: self.redraw,
            draw_queue: self.draw_queue@,
        }
    }
}

/// A vector of `n` zero bytes.
fn zero_bytes(n: usize) -> (v: Vec<u8>)
    ensures
        v@ == Seq::new(n as nat, |i: int| 0u8),
{
    let mut v: Vec<u8> = Vec::new();
    let mut i: usize = 0;
    while i < n
        invariant
            i <= n,
            v@ == Seq::new(i as nat, |j: int| 0u8),
        decreases n - i,
    {
        v.push(0);
        i = i + 1;
        proof {
            assert(v@ =~= Seq::new(i as nat, |j: int| 0u8));
        }
    }
    v
}

/// A vector of `n` zero words.
fn zero_words(n: usize) -> (v: Vec<u16>)
    ensures
        v@ == Seq::new(n as nat, |i: int| 0u16),
{
    let mut v: Vec<u16> = Vec::new();
    let mut i: usize = 0;
    while i < n
        invariant
            i <= n,
            v@ == Seq::new(i as nat, |j: int| 0u16),
        decreases n - i,
    {
        v.push(0);
        i = i + 1;
        proof {
            assert(v@ =~= Seq::new(i as nat, |j: int| 0u16));
        }
    }
    v
}

/// The font as bytes, in glyph order.
fn font_vec() -> (v: Vec<u8>)
    ensures
        v@ == font_data(),
{
    let mut v: Vec<u8> = Vec::new();
    v.push(0xF0); v.push(0x90); v.push(0x90); v.push(0x90); v.push(0xF0);
    v.push(0x20); v.push(0x60); v.push(0x20); v.push(0x20); v.push(0x70);
    v.push(0xF0); v.push(0x10); v.push(0xF0); v.push(0x80); v.push(0xF0);
    v.push(0xF0); v.push(0x10); v.push(0xF0); v.push(0x10); v.push(0xF0);
    v.push(0x90); v.push(0x90); v.push(0xF0); v.push(0x10); v.push(0x10);
    v.push(0xF0); v.push(0x80); v.push(0xF0); v.push(0x10); v.push(0xF0);
    v.push(0xF0); v.push(0x80); v.push(0xF0); v.push(0x90); v.push(0xF0);
    v.push(0xF0); v.push(0x10); v.push(0x20); v.push(0x40); v.push(0x40);
    v.push(0xF0); v.push(0x90); v.push(0xF0); v.push(0x90); v.push(0xF0);
    v.push(0xF0); v.push(0x90); v.push(0xF0); v.push(0x10); v.push(0xF0);
    v.push(0xF0); v.push(0x90); v.push(0xF0); v.push(0x90); v.push(0x90);
    v.push(0xE0); v.push(0x90); v.push(0xE0); v.push(0x90); v.push(0xE0);
    v.push(0xF0); v.push(0x80); v.push(0x80); v.push(0x80); v.push(0xF0);
    v.push(0xE0); v.push(0x90); v.push(0x90); v.push(0x90); v.push(0xE0);
    v.push(0xF0); v.push(0x80); v.push(0xF0); v.push(0x80); v.push(0xF0);
    v.push(0xF0); v.push(0x80); v.push(0xF0); v.push(0x80); v.push(0x80);
    proof {
        assert(v@ =~= font_data());
    }
    v
}

impl Chip8 {
    /// Everything reachable machine states satisfy; constructors establish
    /// it and every method preserves it.
    pub open spec fn wf(&self) -> bool {
        self@.wf()
    }

    /// Build a machine: memory zeroed but for the font, registers and
    /// timers zero, screen dark, program counter at the program start.
    pub fn new() -> (c: Chip8)
        ensures
            c.wf(),
            c@ == initial_state(Seq::<(u16, u16, u8)>::empty(), Seq::new(16, |i: int| 0u8)),
    {
        let mut c = Chip8 {
            opcode: 0,
            memory: zero_bytes(MEM_SIZE),
            registers: zero_bytes(16),
            index: 0,
            pc: ROM_START as u16,
            gfx: fresh_gfx(),
            delay_timer: 0,
            sound_timer: 0,
            stack: zero_words(16),
            sp: 0,
            keys: zero_bytes(16),
            redraw: true,
            draw_queue: VecDeque::new(),
        };
        c.fontset_into_mem();
        proof {
            assert(c@ =~~= initial_state(Seq::<(u16, u16, u8)>::empty(), Seq::new(16, |i: int| 0u8)));
        }
        c
    }

    /// Mark a key as held down.
    pub fn key_pressed(&mut self, key_index: usize)
        requires
            old(self).wf(),
            key_index < 16,
        ensures
            final(self).wf(),
            final(self)@ == (State { keys: old(self)@.keys.update(key_index as int, 1u8), ..old(self)@ }),
    {
        self.keys[key_index] = 1;
    }

    /// Mark a key as released.
    pub fn key_released(&mut self, key_index: usize)
        requires
            old(self).wf(),
            key_index < 16,
        ensures
            final(self).wf(),
            final(self)@ == (State { keys: old(self)@.keys.update(key_index as int, 0u8), ..old(self)@ }),
    {
        self.keys[key_index] = 0;
    }

    /// Copy the font into the bottom of memory.
    fn fontset_into_mem(&mut self)
        requires
            old(self).memory@.len() == MEM_SIZE,
        ensures
            final(self)@ == (State {
                memory: Seq::new(MEM_SIZE as nat, |i: int| if i < 80 { font_data()[i] } else { old(self)@.memory[i] }),
                ..old(self)@
            }),
    {
        let f = font_vec();
        let mut i: usize = 0;
        while i < 80
            invariant
                i <= 80,
                f@ == font_data(),
                self.memory@.len() == MEM_SIZE,
                forall|j: int| 0 <= j < i ==> self.memory@[j] == font_data()[j],
                forall|j: int| i <= j < MEM_SIZE ==> self.memory@[j] == old(self)@.memory[j],
                self.opcode == old(self).opcode,
                self.registers@ == old(self).registers@,
                self.index == old(self).index,
                self.pc == old(self).pc,
                self.gfx@ == old(self).gfx@,
                self.delay_timer == old(self).delay_timer,
                self.sound_timer == old(self).sound_timer,
                self.stack@ == old(self).stack@,
                self.sp == old(self).sp,
                self.keys@ == old(self).keys@,
                self.redraw == old(self).redraw,
                self.draw_queue@ == old(self).draw_queue@,
            decreases 80 - i,
    {
            self.memory[i] = f[i];
            i = i + 1;
        }
        proof {
            assert(self@.memory =~= Seq::new(MEM_SIZE as nat, |i: int| if i < 80 { font_data()[i] } else { old(self)@.memory[i] }));
            assert(self@ =~~= (State {
                memory: Seq::new(MEM_SIZE as nat, |i: int| if i < 80 { font_data()[i] } else { old(self)@.memory[i] }),
                ..old(self)@
            }));
        }
    }

    /// Darken the whole screen and request a full redraw.
    pub(crate) fn clear_screen(&mut self)
        requires
            old(self).wf(),
        ensures
            final(self).wf(),
            final(self)@ == (State { gfx: zero_gfx(), redraw: true, ..old(self)@ }),
    {
        self.gfx = fresh_gfx();
        self.redraw = true;
        proof {
            assert(self@ =~~= (State { gfx: zero_gfx(), redraw: true, ..old(self)@ }));
        }
    }

    /// Reset to the freshly built state, re-seeding the font; the key state
    /// and any undrained pixel events belong to the collaborators and stay.
    pub fn init(&mut self)
        requires
            old(self).wf(),
        ensures
            final(self).wf(),
            final(self)@ == initial_state(old(self)@.draw_queue, old(self)@.keys),
    {
        self.pc = ROM_START as u16;
        self.opcode = 0;
        self.index = 0;
        self.sp = 0;
        self.clear_screen();
        self.stack = zero_words(16);
        self.registers = zero_bytes(16);
        self.memory = zero_bytes(MEM_SIZE);
        self.delay_timer = 0;
        self.sound_timer = 0;
        self.fontset_into_mem();
        self.redraw = true;
        proof {
            assert(self@.memory =~= initial_memory());
            assert(self@ =~~= initial_state(old(self)@.draw_queue, old(self)@.keys));
        }
    }

    /// Load a program image at the fixed program start. An image longer
    /// than the room above the start is rejected whole.
    pub fn load_rom(&mut self, rom: &[u8]) -> (r: Result<(), Fault>)
        requires
            old(self).wf(),
        ensures
            final(self).wf(),
            r is Ok <==> rom@.len() <= MEM_SIZE - ROM_START,
            r is Ok ==> final(self)@ == (State {
                memory: Seq::new(MEM_SIZE as nat, |i: int|
                    if ROM_START <= i < ROM_START + rom@.len() { rom@[i - ROM_START] } else { old(self)@.memory[i] }),
                ..old(self)@
            }),
            r is Err ==> r == Result::<(), Fault>::Err(Fault::RomTooLong) && final(self)@ == old(self)@,
    {
        if rom.len() > MEM_SIZE - ROM_START {
            return Err(Fault::RomTooLong);
        }
        let mut i: usize = 0;
        while i < rom.len()
            invariant
                old(self).wf(),
                i <= rom@.len(),
                rom@.len() <= MEM_SIZE - ROM_START,
                self.memory@.len() == MEM_SIZE,
                forall|j: int| ROM_START <= j < ROM_START + i ==> self.memory@[j] == rom@[j - ROM_START],
                forall|j: int| 0 <= j < MEM_SIZE && !(ROM_START <= j < ROM_START + i) ==> self.memory@[j] == old(self)@.memory[j],
                self.opcode == old(self).opcode,
                self.registers@ == old(self).registers@,
                self.index == old(self).index,
                self.pc == old(self).pc,
                self.gfx@ == old(self).gfx@,
                self.delay_timer == old(self).delay_timer,
                self.sound_timer == old(self).sound_timer,
                self.stack@ == old(self).stack@,
                self.sp == old(self).sp,
                self.keys@ == old(self).keys@,
                self.redraw == old(self).redraw,
                self.draw_queue@ == old(self).draw_queue@,
            decreases rom@.len() - i,
        {
            self.memory[ROM_START + i] = rom[i];
            i = i + 1;
        }
        proof {
            assert(self@.memory =~= Seq::new(MEM_SIZE as nat, |i: int|
                if ROM_START <= i < ROM_START + rom@.len() { rom@[i - ROM_START] } else { old(self)@.memory[i] }));
            assert(self@ =~~= (State {
                memory: Seq::new(MEM_SIZE as nat, |i: int|
                    if ROM_START <= i < ROM_START + rom@.len() { rom@[i - ROM_START] } else { old(self)@.memory[i] }),
                ..old(self)@
            }));
        }
        Ok(())
    }

    /// Replace the whole of memory, font region included.
    pub fn set_mem(&mut self, src_mem: &[u8])
        requires
            old(self).wf(),
            src_mem@.len() == MEM_SIZE,
        ensures
            final(self).wf(),
            final(self)@ == (State { memory: src_mem@, ..old(self)@ }),
    {
        let mut i: usize = 0;
        while i < MEM_SIZE
            invariant
                i <= MEM_SIZE,
                src_mem@.len() == MEM_SIZE,
                self.memory@.len() == MEM_SIZE,
                forall|j: int| 0 <= j < i ==> self.memory@[j] == src_mem@[j],
                self.opcode == old(self).opcode,
                self.registers@ == old(self).registers@,
                self.index == old(self).index,
                self.pc == old(self).pc,
                self.gfx@ == old(self).gfx@,
                self.delay_timer == old(self).delay_timer,
                self.sound_timer == old(self).sound_timer,
                self.stack@ == old(self).stack@,
                self.sp == old(self).sp,
                self.keys@ == old(self).keys@,
                self.redraw == old(self).redraw,
                self.draw_queue@ == old(self).draw_queue@,
                old(self).wf(),
            decreases MEM_SIZE - i,
        {
            self.memory[i] = src_mem[i];
            i = i + 1;
        }
        proof {
            assert(self@.memory =~= src_mem@);
            assert(self@ =~~= (State { memory: src_mem@, ..old(self)@ }));
        }
    }

    /// Whether the pixel at `(x, y)` is lit.
    pub fn should_fill_pixel(&self, x: usize, y: usize) -> (r: bool)
        requires
            self.wf(),
            x < SCREEN_W,
            y < SCREEN_H,
        ensures
            r <==> self@.gfx[y as int][x as int] == 1,
    {
        proof {
            assert(self@.gfx[y as int] == self.gfx@[y as int]@);
            assert(self@.gfx[y as int].len() == SCREEN_W);
        }
        self.gfx[y][x] == 1
    }

    /// Set one screen cell, leaving everything else alone.
    pub(crate) fn set_pixel(&mut self, px: usize, py: usize, v: u8)
        requires
            old(self).wf(),
            px < SCREEN_W,
            py < SCREEN_H,
        ensures
            final(self)@ == (State {
                gfx: old(self)@.gfx.update(py as int, old(self)@.gfx[py as int].update(px as int, v)),
                ..old(self)@
            }),
    {
        let mut row: Vec<u8> = self.gfx[py].clone();
        proof {
            assert(row@ =~= self.gfx@[py as int]@);
        }
        row[px] = v;
        self.gfx[py] = row;
        proof {
            assert(self@.gfx =~~= old(self)@.gfx.update(py as int, old(self)@.gfx[py as int].update(px as int, v)));
            assert(self@ =~~= (State {
                gfx: old(self)@.gfx.update(py as int, old(self)@.gfx[py as int].update(px as int, v)),
                ..old(self)@
            }));
        }
    }
}

/// A freshly built all-dark screen.
fn fresh_gfx() -> (g: Vec<Vec<u8>>)
    ensures
        g@.map_values(|row: Vec<u8>| row@) == zero_gfx(),
{
    let mut g: Vec<Vec<u8>> = Vec::new();
    let mut y: usize = 0;
    while y < SCREEN_H
        invariant
            y <= SCREEN_H,
            g@.len() == y,
            forall|i: int| 0 <= i < y ==> (#[trigger] g@[i])@ == zero_row(),
        decreases SCREEN_H - y,
    {
        let row = zero_bytes(SCREEN_W);
        proof {
            assert(row@ =~= zero_row());
        }
        g.push(row);
        y = y + 1;
    }
    proof {
        assert(g@.map_values(|row: Vec<u8>| row@) =~~= zero_gfx());
    }
    g
}

} // verus!
