use vstd::prelude::*;

verus! {

use crate::decode::{decode, spec_decode, nib0, Fields};
use crate::model::{
    apply_pc, dec1, fetch_word, first_key, first_key_from, instr_spec, some_key_down, state_inv,
    step_spec, write_block, State, StepError, PC,
};
use crate::screen::{
    blank_grid, collision_spec, draw_grid_spec, draw_sprite, grid_filled_false, grid_of, grid_wf,
};

/// The fixed font table: sixteen 5-byte glyphs for the digits 0 to F,
/// loaded at address 0x50 when a machine is created.
pub open spec fn font_table() -> Seq<u8> {
    seq![
        0xF0u8, 0x90, 0x90, 0x90, 0xF0,
        0x20, 0x60, 0x20, 0x20, 0x70,
        0xF0, 0x10, 0xF0, 0x80, 0xF0,
        0xF0, 0x10, 0xF0, 0x10, 0xF0,
        0x90, 0x90, 0xF0, 0x10, 0x10,
        0xF0, 0x80, 0xF0, 0x10, 0xF0,
        0xF0, 0x80, 0xF0, 0x90, 0xF0,
        0xF0, 0x10, 0x20, 0x40, 0x40,
        0xF0, 0x90, 0xF0, 0x90, 0xF0,
        0xF0, 0x90, 0xF0, 0x10, 0xF0,
        0xF0, 0x90, 0xF0, 0x90, 0x90,
        0xE0, 0x90, 0xE0, 0x90, 0xE0,
        0xF0, 0x80, 0x80, 0x80, 0xF0,
        0xE0, 0x90, 0x90, 0x90, 0xE0,
        0xF0, 0x80, 0xF0, 0x80, 0xF0,
        0xF0, 0x80, 0x80, 0x80, 0x80,
    ]
}

/// Memory as a fresh machine holds it: all zero but for the font table at
/// addresses 0x50 through 0x9F.
pub open spec fn initial_ram() -> Seq<u8> {
    Seq::new(
        4096,
        |j: int|
            if 0x50 <= j < 0xA0 {
                font_table()[j - 0x50]
            } else {
                0u8
            },
    )
}

/// The state of a fresh machine: everything zero except the two timers,
/// which start at their non-zero default, with the font loaded and the
/// frame buffer clear.
pub open spec fn initial_state() -> State {
    State {
        pc: 0,
        i: 0,
        v: Seq::new(16, |j: int| 0u8),
        stack: Seq::empty(),
        delay: 255,
        sound: 255,
        ram: initial_ram(),
        screen: blank_grid(),
        dirty: false,
        keys: Seq::new(16, |j: int| false),
        waiting: None,
    }
}

/// One CHIP-8 machine: registers, index register, program counter, call
/// stack, the two countdown timers, memory, the frame buffer with its dirty
/// flag, the key states, and the awaiting-key sub-state.
pub struct Chip8 {
    pub pc: u16,
    pub i: u16,
    pub v: Vec<u8>,
    pub stack: Vec<u16>,
    pub tim_delay: u8,
    pub tim_snd: u8,
    ram: Vec<u8>,
    vram: array2d::Array2D<bool>,
    pub vram_changed: bool,
    pub keys: Vec<bool>,
    waiting: Option<u8>,
}

impl View for Chip8 {
    type V = State;

    closed spec fn view(&self) -> State {
        State {
            pc: self.pc,
            i: self.i,
            v: self.v@,
            stack: self.stack@,
            delay: self.tim_delay,
            sound: self.tim_snd,
            ram: self.ram@,
            screen: grid_of(self.vram),
            dirty: self.vram_changed,
            keys: self.keys@,
            waiting: self.waiting,
        }
    }
}

/// A byte vector of the given length holding zero everywhere.
fn zero_bytes(n: usize) -> (out: Vec<u8>)
    ensures
        out@ == Seq::new(n as nat, |j: int| 0u8),
{
    let mut out: Vec<u8> = Vec::new();
    while out.len() < n
        invariant
            out@.len() <= n,
            forall|j: int| 0 <= j < out@.len() ==> out@[j] == 0u8,
        decreases n - out@.len(),
    {
        out.push(0u8);
    }
    assert(out@ =~= Seq::new(n as nat, |j: int| 0u8));
    out
}

/// A flag vector of the given length holding false everywhere.
fn cleared_flags(n: usize) -> (out: Vec<bool>)
    ensures
        out@ == Seq::new(n as nat, |j: int| false),
{
    let mut out: Vec<bool> = Vec::new();
    while out.len() < n
        invariant
            out@.len() <= n,
            forall|j: int| 0 <= j < out@.len() ==> !out@[j],
        decreases n - out@.len(),
    {
        out.push(false);
    }
    assert(out@ =~= Seq::new(n as nat, |j: int| false));
    out
}

/// The font table as bytes, in glyph order.
fn font_data() -> (out: Vec<u8>)
    ensures
        out@ == font_table(),
{
    let glyphs: [u8; 80] = [
        0xF0, 0x90, 0x90, 0x90, 0xF0,
        0x20, 0x60, 0x20, 0x20, 0x70,
        0xF0, 0x10, 0xF0, 0x80, 0xF0,
        0xF0, 0x10, 0xF0, 0x10, 0xF0,
        0x90, 0x90, 0xF0, 0x10, 0x10,
        0xF0, 0x80, 0xF0, 0x10, 0xF0,
        0xF0, 0x80, 0xF0, 0x90, 0xF0,
        0xF0, 0x10, 0x20, 0x40, 0x40,
        0xF0, 0x90, 0xF0, 0x90, 0xF0,
        0xF0, 0x90, 0xF0, 0x10, 0xF0,
        0xF0, 0x90, 0xF0, 0x90, 0x90,
        0xE0, 0x90, 0xE0, 0x90, 0xE0,
        0xF0, 0x80, 0x80, 0x80, 0xF0,
        0xE0, 0x90, 0x90, 0x90, 0xE0,
        0xF0, 0x80, 0xF0, 0x80, 0xF0,
        0xF0, 0x80, 0x80, 0x80, 0x80,
    ];
    let out = vstd::slice::slice_to_vec(glyphs.as_slice());
    assert(out@ =~= font_table());
    out
}

/// Writes `data` over the bytes of `ram` starting at `at`.
fn write_bytes(ram: &mut Vec<u8>, data: &[u8], at: usize)
    requires
        at + data@.len() <= old(ram)@.len(),
    ensures
        final(ram)@ == write_block(old(ram)@, at as int, data@),
{
    let n = data.len();
    let cap = ram.len();
    let mut k: usize = 0;
    while k < n
        invariant
            k <= n,
            n == data@.len(),
            at + n <= cap,
            cap == ram@.len(),
            ram@.len() == old(ram)@.len(),
            forall|j: int| at <= j < at + k ==> ram@[j] == data@[j - at],
            forall|j: int| 0 <= j < ram@.len() && !(at <= j < at + k) ==> ram@[j] == old(ram)@[j],
        decreases n - k,
    {
        let b = *vstd::slice::slice_index_get(data, k);
        ram[at + k] = b;
        k = k + 1;
    }
    assert(ram@ =~= write_block(old(ram)@, at as int, data@));
}

/// Copies `n` bytes of memory starting at `at` into a fresh vector.
fn read_block(ram: &Vec<u8>, at: usize, n: usize) -> (out: Vec<u8>)
    requires
        n > 0 ==> at + n <= ram@.len(),
    ensures
        out@ == Seq::new(n as nat, |j: int| ram@[at + j]),
{
    let cap = ram.len();
    let mut out: Vec<u8> = Vec::new();
    let mut k: usize = 0;
    while k < n
        invariant
            k <= n,
            n > 0 ==> at + n <= cap,
            cap == ram@.len(),
            out@.len() == k,
            forall|j: int| 0 <= j < k ==> out@[j] == ram@[at + j],
        decreases n - k,
    {
        out.push(ram[at + k]);
        k = k + 1;
    }
    assert(out@ =~= Seq::new(n as nat, |j: int| ram@[at + j]));
    out
}

/// Stores registers 0 through `xr` into memory starting at `at`.
fn store_regs(ram: &mut Vec<u8>, v: &Vec<u8>, at: usize, xr: usize)
    requires
        at + xr < old(ram)@.len(),
        xr < v@.len(),
    ensures
        final(ram)@ == write_block(old(ram)@, at as int, v@.subrange(0, xr + 1)),
{
    let cap = ram.len();
    let mut k: usize = 0;
    while k <= xr
        invariant
            k <= xr + 1,
            at + xr < cap,
            cap == ram@.len(),
            xr < v@.len(),
            forall|j: int| at <= j < at + k ==> ram@[j] == v@[j - at],
            forall|j: int| 0 <= j < ram@.len() && !(at <= j < at + k) ==> ram@[j] == old(ram)@[j],
        decreases xr + 1 - k,
    {
        let b = v[k];
        ram[at + k] = b;
        k = k + 1;
    }
    assert(ram@ =~= write_block(old(ram)@, at as int, v@.subrange(0, xr + 1)));
}

/// Loads registers 0 through `xr` from memory starting at `at`.
fn load_regs(v: &mut Vec<u8>, ram: &Vec<u8>, at: usize, xr: usize)
    requires
        at + xr < ram@.len(),
        xr < old(v)@.len(),
    ensures
        final(v)@ == Seq::new(
            old(v)@.len(),
            |j: int|
                if j <= xr {
                    ram@[at + j]
                } else {
                    old(v)@[j]
                },
        ),
{
    let cap = ram.len();
    let mut k: usize = 0;
    while k <= xr
        invariant
            k <= xr + 1,
            at + xr < cap,
            cap == ram@.len(),
            xr < v@.len(),
            v@.len() == old(v)@.len(),
            forall|j: int| 0 <= j < k ==> v@[j] == ram@[at + j],
            forall|j: int| k <= j < v@.len() ==> v@[j] == old(v)@[j],
        decreases xr + 1 - k,
    {
        let b = ram[at + k];
        v[k] = b;
        k = k + 1;
    }
    assert(v@ =~= Seq::new(
        old(v)@.len(),
        |j: int|
            if j <= xr {
                ram@[at + j]
            } else {
                old(v)@[j]
            },
    ));
}

/// Relies on rand::random: one byte drawn from the thread-local random
/// number source; nothing is assumed about which byte comes back.
#[verifier::external_body]
fn random_byte() -> u8 {
    rand::random::<u8>()
}

/// What one opcode handler leaves behind, before the program-counter policy
/// `r` carries is applied: on success the executed instruction's state with
/// the policy still to apply (and the program counter untouched unless the
/// opcode set it itself); on an error, an untouched machine, and the error
/// the instruction gives for every random byte.
pub open spec fn op_rel(pre: State, w: u16, rb: u8, post: State, r: Result<PC, StepError>) -> bool {
    match r {
        Ok(p) => {
            &&& (instr_spec(pre, w, rb) matches Ok(m) && apply_pc(post, p) =~~= m)
            &&& ((p == PC::Step || p == PC::Skip) ==> post.pc == pre.pc)
        },
        Err(e) => {
            &&& (forall|rb2: u8| instr_spec(pre, w, rb2) == Err::<State, StepError>(e))
            &&& post =~~= pre
        },
    }
}

impl Chip8 {
    /// Well-formedness of the machine: see `state_inv`.
    pub open spec fn wf(&self) -> bool {
        state_inv(self@)
    }

    /// A fresh machine: registers, stack, memory and frame buffer clear,
    /// timers at their non-zero default, and the font table loaded.
    pub fn new() -> (c: Chip8)
        ensures
            c.wf(),
            c@ =~~= initial_state(),
    {
        let mut ram = zero_bytes(4096);
        let font = font_data();
        write_bytes(&mut ram, font.as_slice(), 0x50);
        let c = Chip8 {
            pc: 0,
            i: 0,
            v: zero_bytes(16),
            stack: Vec::new(),
            tim_delay: 255,
            tim_snd: 255,
            ram,
            vram: grid_filled_false(),
            vram_changed: false,
            keys: cleared_flags(16),
            waiting: None,
        };
        proof {
            assert(c@.ram =~= initial_ram());
            assert(grid_wf(blank_grid()));
            assert(c@ =~~= initial_state());
        }
        c
    }

    /// Loads `data` verbatim into memory starting at `addr`; the block must
    /// lie inside the 4096 bytes of memory.
    pub fn load_ram(&mut self, data: &[u8], addr: usize)
        requires
            old(self).wf(),
            addr + data@.len() <= 4096,
        ensures
            final(self).wf(),
            final(self)@ =~~= (State { ram: write_block(old(self)@.ram, addr as int, data@), ..old(self)@ }),
    {
        write_bytes(&mut self.ram, data, addr);
    }

    /// Points the program counter at the fixed program base address 0x200.
    pub fn start(&mut self)
        requires
            old(self).wf(),
        ensures
            final(self).wf(),
            final(self)@ =~~= (State { pc: 0x200, ..old(self)@ }),
    {
        self.pc = 0x200;
    }

    /// The frame buffer, for the renderer to consume.
    pub fn get_vram(&self) -> (g: &array2d::Array2D<bool>)
        ensures
            grid_of(*g) == self@.screen,
    {
        &self.vram
    }

    /// One timer tick: decrements the delay and sound timers, floored at
    /// zero, so neither ever goes negative.
    pub fn decrease_timers(&mut self)
        requires
            old(self).wf(),
        ensures
            final(self).wf(),
            final(self)@ =~~= (State {
                delay: dec1(old(self)@.delay),
                sound: dec1(old(self)@.sound),
                ..old(self)@
            }),
    {
        if self.tim_delay > 0 {
            self.tim_delay = self.tim_delay - 1;
        }
        if self.tim_snd > 0 {
            self.tim_snd = self.tim_snd - 1;
        }
    }

    /// Records a key press (`pressed` true) or release (`pressed` false)
    /// for keypad key `k`, as the input mapper reports them.
    pub fn set_key(&mut self, k: u8, pressed: bool)
        requires
            old(self).wf(),
            k < 16,
        ensures
            final(self).wf(),
            final(self)@ =~~= (State { keys: old(self)@.keys.update(k as int, pressed), ..old(self)@ }),
    {
        self.keys[k as usize] = pressed;
    }

    /// Whether the audio collaborator should be playing the tone: exactly
    /// when the sound timer is above zero.
    pub fn tone_enabled(&self) -> (on: bool)
        ensures
            on == (self@.sound > 0),
    {
        self.tim_snd > 0
    }

    /// The byte at memory address `addr`.
    pub fn ram_byte(&self, addr: usize) -> (b: u8)
        requires
            self.wf(),
            addr < 4096,
        ensures
            b == self@.ram[addr as int],
    {
        self.ram[addr]
    }

    /// The lowest-numbered currently pressed key, if any key is pressed.
    fn first_pressed(&self) -> (r: Option<u8>)
        requires
            self.wf(),
        ensures
            (match r {
                Some(k) => some_key_down(self@.keys) && k == first_key(self@.keys) && k < 16,
                None => !some_key_down(self@.keys),
            }),
    {
        let mut k: usize = 0;
        while k < 16
            invariant
                self.wf(),
                k <= 16,
                forall|j: int| 0 <= j < k ==> !self@.keys[j],
                first_key(self@.keys) == first_key_from(self@.keys, k as int),
            decreases 16 - k,
        {
            if self.keys[k] {
                proof {
                    assert(0 <= k < 16 && self@.keys[k as int]);
                    assert(some_key_down(self@.keys));
                }
                return Some(k as u8);
            }
            k = k + 1;
        }
        None
    }

    /// Clear-screen, return, and the legacy jump (`00E0`, `00EE`, `0NNN`).
    fn op_0xxx(&mut self, w: u16) -> (r: Result<PC, StepError>)
        requires
            old(self).wf(),
            old(self)@.waiting is None,
            old(self).pc <= 4094,
            nib0(w) == 0x0,
        ensures
            final(self).wf(),
            op_rel(old(self)@, w, 0, final(self)@, r),
    {
        if w == 0x00E0 {
            self.vram = grid_filled_false();
            self.vram_changed = true;
            Ok(PC::Step)
        } else if w == 0x00EE {
            if self.stack.len() == 0 {
                return Err(StepError::StackUnderflow);
            }
            let a = self.stack.pop().unwrap();
            self.pc = a;
            proof {
                assert(self@.stack =~= old(self)@.stack.drop_last());
            }
            Ok(PC::Keep)
        } else {
            self.pc = w % 0x1000;
            Ok(PC::Keep)
        }
    }

    /// Subroutine call (`2NNN`): pushes the return address and jumps.
    fn op_2xxx(&mut self, w: u16) -> (r: Result<PC, StepError>)
        requires
            old(self).wf(),
            old(self)@.waiting is None,
            old(self).pc <= 4094,
            nib0(w) == 0x2,
        ensures
            final(self).wf(),
            op_rel(old(self)@, w, 0, final(self)@, r),
    {
        if self.stack.len() >= 16 {
            return Err(StepError::StackOverflow);
        }
        self.stack.push(self.pc + 2);
        self.pc = w % 0x1000;
        Ok(PC::Keep)
    }

    /// The conditional skips on immediates and registers
    /// (`3XKK`, `4XKK`, `5XY0`).
    fn op_3xxx_4xxx_5xxx(&mut self, w: u16, f: Fields) -> (r: Result<PC, StepError>)
        requires
            old(self).wf(),
            old(self)@.waiting is None,
            old(self).pc <= 4094,
            f == spec_decode(w),
            nib0(w) == 0x3 || nib0(w) == 0x4 || nib0(w) == 0x5,
        ensures
            final(self).wf(),
            op_rel(old(self)@, w, 0, final(self)@, r),
    {
        let x = f.n1 as usize;
        let vx = self.v[x];
        if f.n0 == 0x3 {
            if vx == f.kk {
                Ok(PC::Skip)
            } else {
                Ok(PC::Step)
            }
        } else if f.n0 == 0x4 {
            if vx != f.kk {
                Ok(PC::Skip)
            } else {
                Ok(PC::Step)
            }
        } else {
            if f.n3 != 0 {
                return Err(StepError::InvalidOpcode(w));
            }
            let vy = self.v[f.n2 as usize];
            if vx == vy {
                Ok(PC::Skip)
            } else {
                Ok(PC::Step)
            }
        }
    }

    /// Load-immediate and add-immediate (`6XKK`, `7XKK`; the add wraps
    /// modulo 256 and defines no flag).
    fn op_6xxx_7xxx(&mut self, w: u16, f: Fields) -> (r: Result<PC, StepError>)
        requires
            old(self).wf(),
            old(self)@.waiting is None,
            old(self).pc <= 4094,
            f == spec_decode(w),
            nib0(w) == 0x6 || nib0(w) == 0x7,
        ensures
            final(self).wf(),
            op_rel(old(self)@, w, 0, final(self)@, r),
    {
        let x = f.n1 as usize;
        if f.n0 == 0x6 {
            self.v[x] = f.kk;
        } else {
            let a = self.v[x];
            let sum = (a as u16 + f.kk as u16) % 256;
            self.v[x] = sum as u8;
        }
        Ok(PC::Step)
    }

    /// The arithmetic, logic and shift instructions (`8XYk`). Where an
    /// instruction defines a flag, V15 is written before the destination
    /// register, so the destination value remains when X is 15.
    fn op_8xxx(&mut self, w: u16, f: Fields) -> (r: Result<PC, StepError>)
        requires
            old(self).wf(),
            old(self)@.waiting is None,
            old(self).pc <= 4094,
            f == spec_decode(w),
            nib0(w) == 0x8,
        ensures
            final(self).wf(),
            op_rel(old(self)@, w, 0, final(self)@, r),
    {
        let x = f.n1 as usize;
        let y = f.n2 as usize;
        let a = self.v[x];
        let b = self.v[y];
        match f.n3 {
            0x0 => {
                self.v[x] = b;
            },
            0x1 => {
                self.v[x] = a | b;
            },
            0x2 => {
                self.v[x] = a & b;
            },
            0x3 => {
                self.v[x] = a ^ b;
            },
            0x4 => {
                let sum = a as u16 + b as u16;
                self.v[15] = if sum > 255 {
                    1
                } else {
                    0
                };
                self.v[x] = (sum % 256) as u8;
            },
            0x5 => {
                self.v[15] = if a >= b {
                    1
                } else {
                    0
                };
                self.v[x] = if a >= b {
                    a - b
                } else {
                    ((a as u16 + 256 - b as u16) % 256) as u8
                };
            },
            0x6 => {
                self.v[15] = b % 2;
                self.v[x] = b / 2;
            },
            0x7 => {
                self.v[15] = if b >= a {
                    1
                } else {
                    0
                };
                self.v[x] = if b >= a {
                    b - a
                } else {
                    ((b as u16 + 256 - a as u16) % 256) as u8
                };
            },
            0xE => {
                self.v[15] = b / 128;
                self.v[x] = ((b as u16 * 2) % 256) as u8;
            },
            _ => {
                return Err(StepError::InvalidOpcode(w));
            },
        }
        Ok(PC::Step)
    }

    /// Sprite drawing with collision detection (`DXYN`): XOR-composes an
    /// N-row sprite read from memory at I onto the frame buffer at
    /// (VX, VY), clipping at the edges; V15 reports whether any set pixel
    /// was turned off, and the dirty flag is always set.
    fn op_dxxx(&mut self, w: u16, f: Fields) -> (r: Result<PC, StepError>)
        requires
            old(self).wf(),
            old(self)@.waiting is None,
            old(self).pc <= 4094,
            f == spec_decode(w),
            nib0(w) == 0xD,
        ensures
            final(self).wf(),
            op_rel(old(self)@, w, 0, final(self)@, r),
    {
        let n = f.n3 as usize;
        let at = self.i as usize;
        if n > 0 && at + n - 1 > 4095 {
            return Err(StepError::AddressOverflow);
        }
        let sprite = read_block(&self.ram, at, n);
        let vx = self.v[f.n1 as usize];
        let vy = self.v[f.n2 as usize];
        let hit = draw_sprite(&mut self.vram, vx, vy, &sprite);
        self.v[15] = if hit {
            1
        } else {
            0
        };
        self.vram_changed = true;
        Ok(PC::Step)
    }

    /// The key-state skips (`EX9E`, `EXA1`): key indices outside 0..15
    /// name no key and count as not pressed.
    fn op_exxx(&mut self, w: u16, f: Fields) -> (r: Result<PC, StepError>)
        requires
            old(self).wf(),
            old(self)@.waiting is None,
            old(self).pc <= 4094,
            f == spec_decode(w),
            nib0(w) == 0xE,
        ensures
            final(self).wf(),
            op_rel(old(self)@, w, 0, final(self)@, r),
    {
        if f.kk != 0x9E && f.kk != 0xA1 {
            return Err(StepError::InvalidOpcode(w));
        }
        let vx = self.v[f.n1 as usize];
        let pressed = if vx < 16 {
            self.keys[vx as usize]
        } else {
            false
        };
        if f.kk == 0x9E {
            if pressed {
                Ok(PC::Skip)
            } else {
                Ok(PC::Step)
            }
        } else {
            if pressed {
                Ok(PC::Step)
            } else {
                Ok(PC::Skip)
            }
        }
    }

    /// The miscellaneous register instructions (`FXKK`): timers, the
    /// blocking key wait, index arithmetic, the font base, BCD, and the
    /// register block store and load.
    fn op_fxxx(&mut self, w: u16, f: Fields) -> (r: Result<PC, StepError>)
        requires
            old(self).wf(),
            old(self)@.waiting is None,
            old(self).pc <= 4094,
            f == spec_decode(w),
            nib0(w) == 0xF,
        ensures
            final(self).wf(),
            op_rel(old(self)@, w, 0, final(self)@, r),
    {
        let x = f.n1 as usize;
        if f.kk == 0x07 {
            let d = self.tim_delay;
            self.v[x] = d;
            Ok(PC::Step)
        } else if f.kk == 0x0A {
            match self.first_pressed() {
                Some(k) => {
                    self.v[x] = k;
                    Ok(PC::Step)
                },
                None => {
                    self.waiting = Some(f.n1);
                    Ok(PC::Keep)
                },
            }
        } else if f.kk == 0x15 {
            self.tim_delay = self.v[x];
            Ok(PC::Step)
        } else if f.kk == 0x18 {
            self.tim_snd = self.v[x];
            Ok(PC::Step)
        } else if f.kk == 0x1E {
            let add = self.v[x] as u16;
            self.i = self.i.saturating_add(add);
            Ok(PC::Step)
        } else if f.kk == 0x29 {
            self.i = self.v[x] as u16 * 5;
            Ok(PC::Step)
        } else if f.kk == 0x33 {
            let at = self.i as usize;
            if at + 2 > 4095 {
                return Err(StepError::AddressOverflow);
            }
            let b = self.v[x];
            self.ram[at] = b / 100;
            self.ram[at + 1] = (b / 10) % 10;
            self.ram[at + 2] = b % 10;
            Ok(PC::Step)
        } else if f.kk == 0x55 {
            let at = self.i as usize;
            if at + x > 4095 {
                return Err(StepError::AddressOverflow);
            }
            store_regs(&mut self.ram, &self.v, at, x);
            self.i = self.i + f.n1 as u16 + 1;
            Ok(PC::Step)
        } else if f.kk == 0x65 {
            let at = self.i as usize;
            if at + x > 4095 {
                return Err(StepError::AddressOverflow);
            }
            load_regs(&mut self.v, &self.ram, at, x);
            self.i = self.i + f.n1 as u16 + 1;
            proof {
                assert(self@.v =~= Seq::new(
                    16,
                    |j: int|
                        if j <= f.n1 as int {
                            old(self)@.ram[old(self)@.i + j]
                        } else {
                            old(self)@.v[j]
                        },
                ));
            }
            Ok(PC::Step)
        } else {
            Err(StepError::InvalidOpcode(w))
        }
    }

    /// Executes exactly one step: while awaiting a key, only the key check
    /// runs; otherwise the two bytes at the program counter are fetched as
    /// one big-endian instruction word, decoded, executed, and the
    /// program-counter policy applied. Every reported error leaves the
    /// machine untouched.
    #[verifier::rlimit(100)]
    pub fn cycle(&mut self) -> (r: Result<(), StepError>)
        requires
            old(self).wf(),
        ensures
            final(self).wf(),
            (match r {
                Ok(()) => exists|rb: u8|
                    #[trigger] step_spec(old(self)@, rb) matches Ok(m) && final(self)@ =~~= m,
                Err(e) => final(self)@ =~~= old(self)@ && forall|rb: u8|
                    step_spec(old(self)@, rb) == Err::<State, StepError>(e),
            }),
    {
        let waiting = self.waiting;
        match waiting {
            Some(x) => {
                let xi = x as usize;
                match self.first_pressed() {
                    Some(k) => {
                        self.v[xi] = k;
                        self.pc = self.pc + 2;
                        self.waiting = None;
                    },
                    None => {},
                }
                proof {
                    assert(step_spec(old(self)@, 0) matches Ok(m) && self@ =~~= m);
                }
                return Ok(());
            },
            None => {},
        }
        if self.pc > 4094 {
            return Err(StepError::AddressOverflow);
        }
        let pcu = self.pc as usize;
        let hi = self.ram[pcu];
        let lo = self.ram[pcu + 1];
        let w: u16 = (hi as u16) * 256 + (lo as u16);
        proof {
            assert(w == fetch_word(old(self)@));
        }
        let f = decode(w);
        let mut grb: Ghost<u8> = Ghost(0u8);
        let step_pc: Result<PC, StepError> = if f.n0 == 0x0 {
            self.op_0xxx(w)
        } else if f.n0 == 0x1 {
            self.pc = f.addr;
            Ok(PC::Keep)
        } else if f.n0 == 0x2 {
            self.op_2xxx(w)
        } else if f.n0 == 0x3 || f.n0 == 0x4 || f.n0 == 0x5 {
            self.op_3xxx_4xxx_5xxx(w, f)
        } else if f.n0 == 0x6 || f.n0 == 0x7 {
            self.op_6xxx_7xxx(w, f)
        } else if f.n0 == 0x8 {
            self.op_8xxx(w, f)
        } else if f.n0 == 0x9 {
            if f.n3 != 0 {
                Err(StepError::InvalidOpcode(w))
            } else {
                let vx = self.v[f.n1 as usize];
                let vy = self.v[f.n2 as usize];
                if vx != vy {
                    Ok(PC::Skip)
                } else {
                    Ok(PC::Step)
                }
            }
        } else if f.n0 == 0xA {
            self.i = f.addr;
            Ok(PC::Step)
        } else if f.n0 == 0xB {
            self.pc = f.addr + self.v[0] as u16;
            Ok(PC::Keep)
        } else if f.n0 == 0xC {
            let rb = random_byte();
            grb = Ghost(rb);
            let masked = rb & f.kk;
            self.v[f.n1 as usize] = masked;
            Ok(PC::Step)
        } else if f.n0 == 0xD {
            self.op_dxxx(w, f)
        } else if f.n0 == 0xE {
            self.op_exxx(w, f)
        } else {
            self.op_fxxx(w, f)
        };
        proof {
            assert(op_rel(old(self)@, w, grb@, self@, step_pc));
        }
        match step_pc {
            Ok(p) => {
                match p {
                    PC::Keep => {},
                    PC::Step => {
                        self.pc = self.pc + 2;
                    },
                    PC::Skip => {
                        self.pc = self.pc + 4;
                    },
                }
                proof {
                    assert(step_spec(old(self)@, grb@) matches Ok(m) && self@ =~~= m);
                }
                Ok(())
            },
            Err(e) => {
                proof {
                    assert(self@ =~~= old(self)@);
                    assert(forall|rb: u8|
                        step_spec(old(self)@, rb) == Err::<State, StepError>(e));
                }
                Err(e)
            },
        }
    }
}

} // verus!
