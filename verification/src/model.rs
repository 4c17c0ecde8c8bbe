use vstd::prelude::*;

verus! {

use crate::decode::{nib0, nib1, nib2, nib3, addr_of, kk_of};
use crate::screen::{blank_grid, collision_spec, draw_grid_spec, grid_wf};

/// How the program counter moves after one instruction: the opcode set it
/// itself (`Keep`), it advances past the instruction (`Step`), or it also
/// skips the following instruction (`Skip`).
#[derive(Clone, Copy, Debug, PartialEq, Eq, Structural)]
pub enum PC {
    Keep,
    Step,
    Skip,
}

/// The fatal conditions one step can report. The machine never continues
/// past any of them, since the state could be corrupt afterwards.
#[derive(Clone, Copy, Debug, PartialEq, Eq, Structural)]
pub enum StepError {
    /// No dispatch entry matches the fetched instruction word.
    InvalidOpcode(u16),
    /// The program counter or a computed memory reference would read or
    /// write outside the 4096 bytes of memory.
    AddressOverflow,
    /// A call would exceed the 16-entry stack depth.
    StackOverflow,
    /// A return was executed with an empty call stack.
    StackUnderflow,
}

/// The mathematical value of a whole machine: registers, stack, memory,
/// timers, frame buffer with its dirty flag, key states and the
/// awaiting-key sub-state (`waiting` holds the destination register while
/// the machine blocks on a key press).
#[verifier::ext_equal]
pub struct State {
    pub pc: u16,
    pub i: u16,
    pub v: Seq<u8>,
    pub stack: Seq<u16>,
    pub delay: u8,
    pub sound: u8,
    pub ram: Seq<u8>,
    pub screen: Seq<Seq<bool>>,
    pub dirty: bool,
    pub keys: Seq<bool>,
    pub waiting: Option<u8>,
}

/// Well-formedness of a machine state: 16 registers, at most 16 return
/// addresses, 4096 memory bytes, a 64x32 frame buffer, 16 key states, and,
/// while awaiting a key, a valid destination register and a program counter
/// still pointing at the fetchable key-wait instruction.
pub open spec fn state_inv(s: State) -> bool {
    &&& s.v.len() == 16
    &&& s.stack.len() <= 16
    &&& s.ram.len() == 4096
    &&& grid_wf(s.screen)
    &&& s.keys.len() == 16
    &&& (s.waiting matches Some(x) ==> x < 16 && s.pc <= 4094)
}

/// One timer count-down: decrement, floored at zero.
pub open spec fn dec1(t: u8) -> u8 {
    if t > 0 {
        (t - 1) as u8
    } else {
        0
    }
}

/// Byte addition, wrapping modulo 256.
pub open spec fn wrap_add(a: u8, b: u8) -> u8 {
    ((a + b) % 256) as u8
}

/// Byte subtraction, wrapping modulo 256.
pub open spec fn wrap_sub(a: u8, b: u8) -> u8 {
    if a >= b {
        (a - b) as u8
    } else {
        (a + 256 - b) as u8
    }
}

/// The program counter moved forward by `d` bytes (modulo the 16-bit
/// range, which the machine invariant keeps from ever mattering).
pub open spec fn pc_plus(pc: u16, d: int) -> u16 {
    (((pc + d) % 0x10000) as u16)
}

/// The program counter after a conditional skip: past the following
/// instruction when the condition held, past this one otherwise.
pub open spec fn skip_pc(pc: u16, cond: bool) -> u16 {
    if cond {
        pc_plus(pc, 4)
    } else {
        pc_plus(pc, 2)
    }
}

/// Whether keypad key `k` is currently pressed; indices outside 0..15 name
/// no key and count as not pressed.
pub open spec fn key_down(keys: Seq<bool>, k: u8) -> bool {
    k < 16 && keys[k as int]
}

/// Whether any keypad key is currently pressed.
pub open spec fn some_key_down(keys: Seq<bool>) -> bool {
    exists|k: int| 0 <= k < 16 && keys[k]
}

/// The lowest pressed key index at or after `k`, or 16 if none is.
pub open spec fn first_key_from(keys: Seq<bool>, k: int) -> u8
    decreases 16 - k,
{
    if k < 0 || k >= 16 {
        16u8
    } else if keys[k] {
        k as u8
    } else {
        first_key_from(keys, k + 1)
    }
}

/// The lowest pressed key index, or 16 if no key is pressed.
pub open spec fn first_key(keys: Seq<bool>) -> u8 {
    first_key_from(keys, 0)
}

/// Memory with `data` written over the bytes starting at `at`.
pub open spec fn write_block(ram: Seq<u8>, at: int, data: Seq<u8>) -> Seq<u8> {
    Seq::new(
        ram.len(),
        |j: int|
            if at <= j < at + data.len() {
                data[j - at]
            } else {
                ram[j]
            },
    )
}

/// The register file after one arithmetic/logic instruction `8XYk`, or
/// `None` when `k` names no such instruction. Where an instruction defines
/// a flag, V15 is written first and the destination register second, so on
/// X = 15 the destination value is what remains.
pub open spec fn alu(v: Seq<u8>, x: int, y: int, k: int) -> Option<Seq<u8>> {
    let a = v[x];
    let b = v[y];
    if k == 0x0 {
        Some(v.update(x, b))
    } else if k == 0x1 {
        Some(v.update(x, a | b))
    } else if k == 0x2 {
        Some(v.update(x, a & b))
    } else if k == 0x3 {
        Some(v.update(x, a ^ b))
    } else if k == 0x4 {
        Some(
            v.update(15, if a + b > 255 { 1u8 } else { 0u8 }).update(x, wrap_add(a, b)),
        )
    } else if k == 0x5 {
        Some(v.update(15, if a >= b { 1u8 } else { 0u8 }).update(x, wrap_sub(a, b)))
    } else if k == 0x6 {
        Some(v.update(15, (b % 2) as u8).update(x, (b / 2) as u8))
    } else if k == 0x7 {
        Some(v.update(15, if b >= a { 1u8 } else { 0u8 }).update(x, wrap_sub(b, a)))
    } else if k == 0xE {
        Some(v.update(15, (b / 128) as u8).update(x, ((b * 2) % 256) as u8))
    } else {
        None
    }
}

/// The state one `FXKK` miscellaneous instruction leaves behind.
pub open spec fn f_spec(s: State, w: u16, x: int, kk: u8) -> Result<State, StepError> {
    if kk == 0x07 {
        Ok(State { v: s.v.update(x, s.delay), pc: pc_plus(s.pc, 2), ..s })
    } else if kk == 0x0A {
        if some_key_down(s.keys) {
            Ok(State { v: s.v.update(x, first_key(s.keys)), pc: pc_plus(s.pc, 2), ..s })
        } else {
            Ok(State { waiting: Some(x as u8), ..s })
        }
    } else if kk == 0x15 {
        Ok(State { delay: s.v[x], pc: pc_plus(s.pc, 2), ..s })
    } else if kk == 0x18 {
        Ok(State { sound: s.v[x], pc: pc_plus(s.pc, 2), ..s })
    } else if kk == 0x1E {
        Ok(
            State {
                i: if s.i + s.v[x] > 0xFFFF {
                    0xFFFFu16
                } else {
                    (s.i + s.v[x]) as u16
                },
                pc: pc_plus(s.pc, 2),
                ..s
            },
        )
    } else if kk == 0x29 {
        Ok(State { i: (s.v[x] * 5) as u16, pc: pc_plus(s.pc, 2), ..s })
    } else if kk == 0x33 {
        if s.i + 2 > 4095 {
            Err(StepError::AddressOverflow)
        } else {
            let b = s.v[x];
            Ok(
                State {
                    ram: s.ram.update(s.i as int, (b / 100) as u8).update(
                        s.i + 1,
                        ((b / 10) % 10) as u8,
                    ).update(s.i + 2, (b % 10) as u8),
                    pc: pc_plus(s.pc, 2),
                    ..s
                },
            )
        }
    } else if kk == 0x55 {
        if s.i + x > 4095 {
            Err(StepError::AddressOverflow)
        } else {
            Ok(
                State {
                    ram: write_block(s.ram, s.i as int, s.v.subrange(0, x + 1)),
                    i: (s.i + x + 1) as u16,
                    pc: pc_plus(s.pc, 2),
                    ..s
                },
            )
        }
    } else if kk == 0x65 {
        if s.i + x > 4095 {
            Err(StepError::AddressOverflow)
        } else {
            Ok(
                State {
                    v: Seq::new(
                        16,
                        |j: int|
                            if j <= x {
                                s.ram[s.i + j]
                            } else {
                                s.v[j]
                            },
                    ),
                    i: (s.i + x + 1) as u16,
                    pc: pc_plus(s.pc, 2),
                    ..s
                },
            )
        }
    } else {
        Err(StepError::InvalidOpcode(w))
    }
}

/// The state one decoded instruction word `w` leaves behind, starting from
/// `s`; `rb` is the byte the random-number source produced, read only by
/// the `CXKK` instruction.
pub open spec fn instr_spec(s: State, w: u16, rb: u8) -> Result<State, StepError> {
    let n0 = nib0(w);
    let x = nib1(w) as int;
    let y = nib2(w) as int;
    let n3 = nib3(w);
    let nnn = addr_of(w);
    let kk = kk_of(w);
    if n0 == 0x0 {
        if w == 0x00E0 {
            Ok(State { screen: blank_grid(), dirty: true, pc: pc_plus(s.pc, 2), ..s })
        } else if w == 0x00EE {
            if s.stack.len() == 0 {
                Err(StepError::StackUnderflow)
            } else {
                Ok(State { pc: s.stack.last(), stack: s.stack.drop_last(), ..s })
            }
        } else {
            Ok(State { pc: nnn, ..s })
        }
    } else if n0 == 0x1 {
        Ok(State { pc: nnn, ..s })
    } else if n0 == 0x2 {
        if s.stack.len() >= 16 {
            Err(StepError::StackOverflow)
        } else {
            Ok(State { stack: s.stack.push(pc_plus(s.pc, 2)), pc: nnn, ..s })
        }
    } else if n0 == 0x3 {
        Ok(State { pc: skip_pc(s.pc, s.v[x] == kk), ..s })
    } else if n0 == 0x4 {
        Ok(State { pc: skip_pc(s.pc, s.v[x] != kk), ..s })
    } else if n0 == 0x5 {
        if n3 == 0 {
            Ok(State { pc: skip_pc(s.pc, s.v[x] == s.v[y]), ..s })
        } else {
            Err(StepError::InvalidOpcode(w))
        }
    } else if n0 == 0x6 {
        Ok(State { v: s.v.update(x, kk), pc: pc_plus(s.pc, 2), ..s })
    } else if n0 == 0x7 {
        Ok(State { v: s.v.update(x, wrap_add(s.v[x], kk)), pc: pc_plus(s.pc, 2), ..s })
    } else if n0 == 0x8 {
        match alu(s.v, x, y, n3 as int) {
            Some(v2) => Ok(State { v: v2, pc: pc_plus(s.pc, 2), ..s }),
            None => Err(StepError::InvalidOpcode(w)),
        }
    } else if n0 == 0x9 {
        if n3 == 0 {
            Ok(State { pc: skip_pc(s.pc, s.v[x] != s.v[y]), ..s })
        } else {
            Err(StepError::InvalidOpcode(w))
        }
    } else if n0 == 0xA {
        Ok(State { i: nnn, pc: pc_plus(s.pc, 2), ..s })
    } else if n0 == 0xB {
        Ok(State { pc: pc_plus(nnn, s.v[0] as int), ..s })
    } else if n0 == 0xC {
        Ok(State { v: s.v.update(x, rb & kk), pc: pc_plus(s.pc, 2), ..s })
    } else if n0 == 0xD {
        let n = n3 as int;
        if n > 0 && s.i + n - 1 > 4095 {
            Err(StepError::AddressOverflow)
        } else {
            let sprite = Seq::new(n as nat, |j: int| s.ram[s.i + j]);
            Ok(
                State {
                    screen: draw_grid_spec(s.screen, s.v[x] as int, s.v[y] as int, sprite),
                    v: s.v.update(
                        15,
                        if collision_spec(s.screen, s.v[x] as int, s.v[y] as int, sprite) {
                            1u8
                        } else {
                            0u8
                        },
                    ),
                    dirty: true,
                    pc: pc_plus(s.pc, 2),
                    ..s
                },
            )
        }
    } else if n0 == 0xE {
        if kk == 0x9E {
            Ok(State { pc: skip_pc(s.pc, key_down(s.keys, s.v[x])), ..s })
        } else if kk == 0xA1 {
            Ok(State { pc: skip_pc(s.pc, !key_down(s.keys, s.v[x])), ..s })
        } else {
            Err(StepError::InvalidOpcode(w))
        }
    } else {
        f_spec(s, w, x, kk)
    }
}

/// One step taken while the machine awaits a key press into register `x`:
/// the state is untouched until some key is pressed; the first press is
/// captured and the program counter finally moves past the instruction.
pub open spec fn wait_step(s: State, x: u8) -> State {
    if some_key_down(s.keys) {
        State {
            v: s.v.update(x as int, first_key(s.keys)),
            pc: pc_plus(s.pc, 2),
            waiting: None,
            ..s
        }
    } else {
        s
    }
}

/// The big-endian instruction word at the program counter.
pub open spec fn fetch_word(s: State) -> u16 {
    (s.ram[s.pc as int] * 256 + s.ram[s.pc as int + 1]) as u16
}

/// The outcome of executing exactly one step from `s`, with `rb` the byte
/// the random-number source produced: either the machine blocks or resumes
/// on the awaiting-key sub-state, or the word at the program counter is
/// fetched, decoded and executed.
pub open spec fn step_spec(s: State, rb: u8) -> Result<State, StepError> {
    match s.waiting {
        Some(x) => Ok(wait_step(s, x)),
        None => {
            if s.pc > 4094 {
                Err(StepError::AddressOverflow)
            } else {
                instr_spec(s, fetch_word(s), rb)
            }
        },
    }
}

/// A machine state with the program-counter policy `p` applied.
pub open spec fn apply_pc(s: State, p: PC) -> State {
    match p {
        PC::Keep => s,
        PC::Step => State { pc: pc_plus(s.pc, 2), ..s },
        PC::Skip => State { pc: pc_plus(s.pc, 4), ..s },
    }
}

} // verus!
