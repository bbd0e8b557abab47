//! Mathematical model of the CHIP-8 machine: the abstract state and a
//! functional specification of one fetch/decode/execute cycle.
//!
//! The executable interpreter in the other modules is verified against
//! `spec_step`, which maps a machine state (and the byte that the random
//! instruction draws) to the next state and the cycle's outcome.

use vstd::prelude::*;

verus! {

/// Number of addressable bytes of memory.
pub const MEM_SIZE: usize = 4096;
/// First address of the built-in font glyphs (16 glyphs of 5 bytes each).
pub const FONT_BASE: usize = 0x50;
/// Address at which a loaded program begins.
pub const PROGRAM_BASE: usize = 0x200;
/// Largest program that fits between `PROGRAM_BASE` and the end of memory.
pub const MAX_PROGRAM_LEN: usize = 3584;
/// Width of the display in pixels.
pub const SCREEN_WIDTH: usize = 64;
/// Height of the display in pixels.
pub const SCREEN_HEIGHT: usize = 32;
/// Total number of pixels of the display.
pub const SCREEN_PIXELS: usize = 2048;
/// Number of general-purpose registers.
pub const NUM_REGISTERS: usize = 16;
/// Number of logical keys.
pub const NUM_KEYS: usize = 16;

/// The structured errors that the interpreter can report instead of
/// aborting: each fatal condition names the offending instruction word and
/// the address it was fetched from.
#[derive(Clone, Copy, Debug, PartialEq, Eq, Structural)]
pub enum Chip8Error {
    /// The program counter points past the end of memory, so no two-byte
    /// instruction can be fetched.
    FetchOutOfBounds { pc: u16 },
    /// A return instruction was executed with an empty call stack.
    StackUnderflow { instr: u16, pc: u16 },
    /// An instruction word with no defined behaviour inside a family that
    /// admits no fallback.
    UnknownOpcode { instr: u16, pc: u16 },
    /// An instruction would read or write a memory address past the end of
    /// memory.
    AddrOutOfBounds { instr: u16, pc: u16 },
    /// A key-skip instruction names a key code outside the 16 logical keys.
    KeyOutOfRange { instr: u16, pc: u16 },
    /// A program longer than the memory region reserved for programs was
    /// rejected by `load_program`.
    ProgramTooLarge { len: usize },
}

/// Abstract machine state: every component of the interpreter as a plain
/// mathematical value.
#[verifier::ext_equal]
pub struct MachineState {
    /// Program counter.
    pub pc: u16,
    /// Index register.
    pub ireg: u16,
    /// The 16 general-purpose registers; register 15 is the flag register.
    pub regs: Seq<u8>,
    /// Call stack of return addresses, most recent last.
    pub stack: Seq<u16>,
    /// Delay timer.
    pub delay: u8,
    /// Sound timer.
    pub sound: u8,
    /// The 4096 bytes of memory.
    pub ram: Seq<u8>,
    /// The display: pixel (x, y) is at index `pix(x, y)`.
    pub screen: Seq<bool>,
    /// The 16 logical key states.
    pub keys: Seq<bool>,
}

impl MachineState {
    /// The sizes that every reachable state has.
    pub open spec fn wf(self) -> bool {
        &&& self.regs.len() == 16
        &&& self.ram.len() == 4096
        &&& self.screen.len() == 2048
        &&& self.keys.len() == 16
    }
}

/// Index of pixel (x, y) in the flat display sequence.
pub open spec fn pix(x: int, y: int) -> int {
    x * 32 + y
}

/// Top nibble of an instruction word: selects the opcode family.
pub open spec fn op_top(instr: u16) -> u16 {
    instr / 0x1000
}

/// The `x` register field of an instruction word (bits 8..12).
pub open spec fn op_x(instr: u16) -> int {
    ((instr / 0x100) % 0x10) as int
}

/// The `y` register field of an instruction word (bits 4..8).
pub open spec fn op_y(instr: u16) -> int {
    ((instr / 0x10) % 0x10) as int
}

/// The low nibble of an instruction word.
pub open spec fn op_n(instr: u16) -> u16 {
    instr % 0x10
}

/// The low byte of an instruction word.
pub open spec fn op_kk(instr: u16) -> u8 {
    (instr % 0x100) as u8
}

/// The low 12 bits of an instruction word: an address.
pub open spec fn op_nnn(instr: u16) -> u16 {
    instr % 0x1000
}

/// The instruction word at the program counter: two bytes, big-endian.
pub open spec fn spec_instr(s: MachineState) -> u16 {
    ((s.ram[s.pc as int] as u16) * 256 + s.ram[s.pc as int + 1] as u16) as u16
}

/// The state after the unconditional start of a cycle: the program counter
/// advanced by two and each nonzero timer decremented by one.
pub open spec fn spec_tick(s: MachineState) -> MachineState {
    MachineState {
        pc: (s.pc + 2) as u16,
        delay: if s.delay > 0 { (s.delay - 1) as u8 } else { 0 },
        sound: if s.sound > 0 { (s.sound - 1) as u8 } else { 0 },
        ..s
    }
}

/// `s` with register `x` set to `v`.
pub open spec fn set_reg(s: MachineState, x: int, v: u8) -> MachineState {
    MachineState { regs: s.regs.update(x, v), ..s }
}

/// `s` with the program counter set to `p`.
pub open spec fn with_pc(s: MachineState, p: u16) -> MachineState {
    MachineState { pc: p, ..s }
}

/// `s` with the next instruction skipped.
pub open spec fn skip(s: MachineState) -> MachineState {
    with_pc(s, (s.pc + 2) as u16)
}

/// An all-dark display.
pub open spec fn blank_screen() -> Seq<bool> {
    Seq::new(2048, |k: int| false)
}

/// Whether any pixel of `sc` is lit.
pub open spec fn any_lit(sc: Seq<bool>) -> bool {
    exists|k: int| 0 <= k < 2048 && sc[k]
}

/// The lowest pressed key at index `k` or above, if any.
pub open spec fn first_key_from(keys: Seq<bool>, k: int) -> Option<u8>
    decreases 16 - k,
{
    if k < 0 || k >= 16 {
        None
    } else if keys[k] {
        Some(k as u8)
    } else {
        first_key_from(keys, k + 1)
    }
}

/// Whether bit `j` (counted from the left) of a sprite byte is set.
pub open spec fn sprite_bit(byte: u8, j: int) -> bool {
    (byte >> ((7 - j) as u8)) & 1 == 1
}

/// One sprite row drawn by XOR onto the display, columns `j` to 7, clipped
/// at the right screen edge. Returns the new display, whether any lit pixel
/// was turned off (collision), and whether any pixel was touched at all.
pub open spec fn spec_draw_row(sc: Seq<bool>, byte: u8, x0: int, y: int, j: int) -> (Seq<
    bool,
>, bool, bool)
    decreases 8 - j,
{
    if j < 0 || j >= 8 || x0 + j >= 64 {
        (sc, false, false)
    } else {
        let p = pix(x0 + j, y);
        let bit = sprite_bit(byte, j);
        let cur = sc[p];
        let sc1 = if bit {
            sc.update(p, !cur)
        } else {
            sc
        };
        let rest = spec_draw_row(sc1, byte, x0, y, j + 1);
        (rest.0, (bit && cur) || rest.1, bit || rest.2)
    }
}

/// Sprite rows `i` to `n - 1` drawn onto the display, clipped at the bottom
/// screen edge; row `i` uses the sprite byte at address `ireg + i`, and an
/// address past the end of memory is an error.
pub open spec fn spec_draw_rows(
    sc: Seq<bool>,
    ram: Seq<u8>,
    ireg: int,
    x0: int,
    y0: int,
    n: int,
    i: int,
) -> Result<(Seq<bool>, bool, bool), ()>
    decreases n - i,
{
    if i < 0 || i >= n || y0 + i >= 32 {
        Ok((sc, false, false))
    } else if ireg + i >= 4096 {
        Err(())
    } else {
        let row = spec_draw_row(sc, ram[ireg + i], x0, y0 + i, 0);
        match spec_draw_rows(row.0, ram, ireg, x0, y0, n, i + 1) {
            Ok(rest) => Ok((rest.0, row.1 || rest.1, row.2 || rest.2)),
            Err(e) => Err(e),
        }
    }
}

/// Effect of the sprite-draw instruction on the ticked state `t`: the flag
/// register is reset, the sprite is drawn by XOR with clipping at the screen
/// edges, and the flag register reports a collision. The second component is
/// the cycle's outcome: whether the display changed, or the error.
pub open spec fn spec_draw_op(t: MachineState, pc0: u16, instr: u16) -> (MachineState, Result<
    bool,
    Chip8Error,
>) {
    let t0 = set_reg(t, 15, 0);
    let x0 = (t0.regs[op_x(instr)] % 64) as int;
    let y0 = (t0.regs[op_y(instr)] % 32) as int;
    match spec_draw_rows(t0.screen, t0.ram, t0.ireg as int, x0, y0, op_n(instr) as int, 0) {
        Ok(r) => (
            MachineState {
                screen: r.0,
                regs: t0.regs.update(15, if r.1 { 1u8 } else { 0u8 }),
                ..t0
            },
            Ok(r.2),
        ),
        Err(_) => (t, Err(Chip8Error::AddrOutOfBounds { instr, pc: pc0 })),
    }
}

/// Effect of the arithmetic/logic family (top nibble 8) on the ticked state.
/// Each operation writes its result first and the flag register last, so the
/// flag wins when the flag register is itself the destination.
pub open spec fn spec_alu(t: MachineState, pc0: u16, instr: u16) -> Result<
    MachineState,
    Chip8Error,
> {
    let x = op_x(instr);
    let y = op_y(instr);
    let vx = t.regs[x];
    let vy = t.regs[y];
    let n = op_n(instr);
    if n == 0 {
        Ok(set_reg(t, x, vy))
    } else if n == 1 {
        Ok(set_reg(t, x, vx | vy))
    } else if n == 2 {
        Ok(set_reg(t, x, vx & vy))
    } else if n == 3 {
        Ok(set_reg(t, x, vx ^ vy))
    } else if n == 4 {
        let sum = vx as int + vy as int;
        let flag: u8 = if sum > 255 {
            1
        } else {
            0
        };
        Ok(set_reg(set_reg(t, x, (sum % 256) as u8), 15, flag))
    } else if n == 5 {
        if vx >= vy {
            Ok(set_reg(set_reg(t, x, (vx - vy) as u8), 15, 1))
        } else {
            Ok(set_reg(set_reg(t, x, (256 - vy as int + vx as int) as u8), 15, 0))
        }
    } else if n == 6 {
        // Dialect quirk: the shift reads register y and writes both y and x.
        let t1 = set_reg(t, y, (vy / 2) as u8);
        let t2 = set_reg(t1, x, t1.regs[y]);
        Ok(set_reg(t2, 15, (vy % 2) as u8))
    } else if n == 7 {
        if vy >= vx {
            Ok(set_reg(set_reg(t, x, (vy - vx) as u8), 15, 1))
        } else {
            Ok(set_reg(set_reg(t, x, (256 - vx as int + vy as int) as u8), 15, 0))
        }
    } else if n == 0xE {
        let t1 = set_reg(t, y, ((vy as int * 2) % 256) as u8);
        let t2 = set_reg(t1, x, t1.regs[y]);
        Ok(set_reg(t2, 15, (vy / 128) as u8))
    } else {
        Err(Chip8Error::UnknownOpcode { instr, pc: pc0 })
    }
}

/// Effect of the key-skip family (top nibble E) on the ticked state.
pub open spec fn spec_ex(t: MachineState, pc0: u16, instr: u16) -> Result<
    MachineState,
    Chip8Error,
> {
    let vx = t.regs[op_x(instr)];
    let kk = op_kk(instr);
    if kk == 0x9E {
        if vx < 16 {
            Ok(
                if t.keys[vx as int] {
                    skip(t)
                } else {
                    t
                },
            )
        } else {
            Err(Chip8Error::KeyOutOfRange { instr, pc: pc0 })
        }
    } else if kk == 0xA1 {
        if vx < 16 {
            Ok(
                if !t.keys[vx as int] {
                    skip(t)
                } else {
                    t
                },
            )
        } else {
            Err(Chip8Error::KeyOutOfRange { instr, pc: pc0 })
        }
    } else {
        Err(Chip8Error::UnknownOpcode { instr, pc: pc0 })
    }
}

/// Effect of the timer/memory family (top nibble F) on the ticked state.
pub open spec fn spec_fx(t: MachineState, pc0: u16, instr: u16) -> Result<
    MachineState,
    Chip8Error,
> {
    let x = op_x(instr);
    let vx = t.regs[x];
    let kk = op_kk(instr);
    let i = t.ireg as int;
    if kk == 0x07 {
        Ok(set_reg(t, x, t.delay))
    } else if kk == 0x15 {
        Ok(MachineState { delay: vx, ..t })
    } else if kk == 0x18 {
        Ok(MachineState { sound: vx, ..t })
    } else if kk == 0x1E {
        let sum = i + vx as int;
        let flag: u8 = if sum > 0xFFFF {
            1
        } else {
            0
        };
        Ok(MachineState { ireg: (sum % 0x1000) as u16, ..set_reg(t, 15, flag) })
    } else if kk == 0x0A {
        match first_key_from(t.keys, 0) {
            Some(key) => Ok(set_reg(t, x, key)),
            None => Ok(with_pc(t, (t.pc - 2) as u16)),
        }
    } else if kk == 0x29 {
        Ok(MachineState { ireg: (vx as int * 5 + 0x50) as u16, ..t })
    } else if kk == 0x33 {
        if i + 2 < 4096 {
            Ok(
                MachineState {
                    ram: t.ram.update(i, (vx / 100) as u8).update(i + 1, ((vx / 10) % 10) as u8).update(
                        i + 2,
                        (vx % 10) as u8,
                    ),
                    ..t
                },
            )
        } else {
            Err(Chip8Error::AddrOutOfBounds { instr, pc: pc0 })
        }
    } else if kk == 0x55 {
        if i + x < 4096 {
            Ok(
                MachineState {
                    ram: Seq::new(
                        4096,
                        |a: int|
                            if i <= a <= i + x {
                                t.regs[a - i]
                            } else {
                                t.ram[a]
                            },
                    ),
                    ..t
                },
            )
        } else {
            Err(Chip8Error::AddrOutOfBounds { instr, pc: pc0 })
        }
    } else if kk == 0x65 {
        if i + x < 4096 {
            Ok(
                MachineState {
                    regs: Seq::new(
                        16,
                        |k: int|
                            if k <= x {
                                t.ram[i + k]
                            } else {
                                t.regs[k]
                            },
                    ),
                    ..t
                },
            )
        } else {
            Err(Chip8Error::AddrOutOfBounds { instr, pc: pc0 })
        }
    } else {
        Err(Chip8Error::UnknownOpcode { instr, pc: pc0 })
    }
}

/// Dispatch of one decoded instruction on the ticked state `t`. `pc0` is the
/// address the instruction was fetched from, reported in errors; `rb` is the
/// byte the random instruction draws. Returns the next state and the cycle's
/// outcome: whether the display changed, or the error. On an error the
/// instruction has no effect, so the next state is `t` itself.
pub open spec fn spec_dispatch(t: MachineState, pc0: u16, instr: u16, rb: u8) -> (MachineState, Result<
    bool,
    Chip8Error,
>) {
    let top = op_top(instr);
    let x = op_x(instr);
    let y = op_y(instr);
    let kk = op_kk(instr);
    let nnn = op_nnn(instr);
    if top == 0 {
        if x == 0 {
            if kk == 0xE0 {
                (MachineState { screen: blank_screen(), ..t }, Ok(any_lit(t.screen)))
            } else if kk == 0xEE {
                if t.stack.len() > 0 {
                    (MachineState { pc: t.stack.last(), stack: t.stack.drop_last(), ..t }, Ok(false))
                } else {
                    (t, Err(Chip8Error::StackUnderflow { instr, pc: pc0 }))
                }
            } else {
                (t, Err(Chip8Error::UnknownOpcode { instr, pc: pc0 }))
            }
        } else {
            // A machine-code routine of the original hardware: ignored.
            (t, Ok(false))
        }
    } else if top == 1 {
        (with_pc(t, nnn), Ok(false))
    } else if top == 2 {
        (MachineState { pc: nnn, stack: t.stack.push(t.pc), ..t }, Ok(false))
    } else if top == 3 {
        (
            if t.regs[x] == kk {
                skip(t)
            } else {
                t
            },
            Ok(false),
        )
    } else if top == 4 {
        (
            if t.regs[x] != kk {
                skip(t)
            } else {
                t
            },
            Ok(false),
        )
    } else if top == 5 {
        (
            if t.regs[x] == t.regs[y] {
                skip(t)
            } else {
                t
            },
            Ok(false),
        )
    } else if top == 6 {
        (set_reg(t, x, kk), Ok(false))
    } else if top == 7 {
        (set_reg(t, x, ((t.regs[x] as int + kk as int) % 256) as u8), Ok(false))
    } else if top == 8 {
        match spec_alu(t, pc0, instr) {
            Ok(t2) => (t2, Ok(false)),
            Err(e) => (t, Err(e)),
        }
    } else if top == 9 {
        (
            if t.regs[x] != t.regs[y] {
                skip(t)
            } else {
                t
            },
            Ok(false),
        )
    } else if top == 0xA {
        (MachineState { ireg: nnn, ..t }, Ok(false))
    } else if top == 0xB {
        (with_pc(t, (nnn + t.regs[0] as int) as u16), Ok(false))
    } else if top == 0xC {
        (set_reg(t, x, rb & kk), Ok(false))
    } else if top == 0xD {
        spec_draw_op(t, pc0, instr)
    } else if top == 0xE {
        match spec_ex(t, pc0, instr) {
            Ok(t2) => (t2, Ok(false)),
            Err(e) => (t, Err(e)),
        }
    } else {
        match spec_fx(t, pc0, instr) {
            Ok(t2) => (t2, Ok(false)),
            Err(e) => (t, Err(e)),
        }
    }
}

/// One full instruction cycle on state `s`, drawing `rb` if the instruction
/// is the random one: fetch, advance the program counter, tick the timers,
/// dispatch. If the fetch is out of bounds nothing happens; on a dispatch
/// error the advance and the tick remain applied, the instruction's own
/// effect does not.
pub open spec fn spec_step(s: MachineState, rb: u8) -> (MachineState, Result<bool, Chip8Error>) {
    if s.pc as int + 1 >= 4096 {
        (s, Err(Chip8Error::FetchOutOfBounds { pc: s.pc }))
    } else {
        spec_dispatch(spec_tick(s), s.pc, spec_instr(s), rb)
    }
}

/// The 16 five-byte font glyphs for the hexadecimal digits.
pub open spec fn font_seq() -> Seq<u8> {
    seq![
        0xF0, 0x90, 0x90, 0x90, 0xF0, 0x20, 0x60, 0x20, 0x20, 0x70, 0xF0, 0x10, 0xF0, 0x80, 0xF0,
        0xF0, 0x10, 0xF0, 0x10, 0xF0, 0x90, 0x90, 0xF0, 0x10, 0x10, 0xF0, 0x80, 0xF0, 0x10, 0xF0,
        0xF0, 0x80, 0xF0, 0x90, 0xF0, 0xF0, 0x10, 0x20, 0x40, 0x40, 0xF0, 0x90, 0xF0, 0x90, 0xF0,
        0xF0, 0x90, 0xF0, 0x10, 0xF0, 0xF0, 0x90, 0xF0, 0x90, 0x90, 0xE0, 0x90, 0xE0, 0x90, 0xE0,
        0xF0, 0x80, 0x80, 0x80, 0xF0, 0xE0, 0x90, 0x90, 0x90, 0xE0, 0xF0, 0x80, 0xF0, 0x80, 0xF0,
        0xF0, 0x80, 0xF0, 0x80, 0x80,
    ]
}

/// The state after startup: program counter at the program base, registers,
/// timers and display clear, the font in memory and nothing else.
pub open spec fn initial_state() -> MachineState {
    MachineState {
        pc: 0x200,
        ireg: 0,
        regs: Seq::new(16, |k: int| 0u8),
        stack: Seq::empty(),
        delay: 0,
        sound: 0,
        ram: Seq::new(
            4096,
            |a: int|
                if FONT_BASE <= a < FONT_BASE + 80 {
                    font_seq()[a - FONT_BASE]
                } else {
                    0u8
                },
        ),
        screen: Seq::new(2048, |k: int| false),
        keys: Seq::new(16, |k: int| false),
    }
}

/// Memory after a program is copied in at the program base: the program's
/// bytes there, every other byte unchanged.
pub open spec fn load_ram(ram: Seq<u8>, prog: Seq<u8>) -> Seq<u8> {
    Seq::new(
        4096,
        |a: int|
            if PROGRAM_BASE <= a < PROGRAM_BASE + prog.len() {
                prog[a - PROGRAM_BASE]
            } else {
                ram[a]
            },
    )
}

} // verus!
