//! The fetch/decode/execute cycle, verified against `spec_step`.

use vstd::prelude::*;

use crate::machine::{clear_screen, fetch_instruction, get_pressed_key, random_byte, Interpreter};
use crate::model::{
    op_kk, op_n, op_nnn, op_top, op_x, op_y, spec_alu, spec_draw_op, spec_draw_row,
    spec_draw_rows, spec_fx, spec_instr, spec_step, spec_tick, set_reg, sprite_bit, Chip8Error,
    MachineState, MEM_SIZE,
};

verus! {

use vstd::pervasive::VecAdditionalExecFns;

/// The arithmetic/logic family (top nibble 8); see `spec_alu`.
fn exec_alu(itp: &mut Interpreter, pc0: u16, instr: u16) -> (r: Result<(), Chip8Error>)
    requires
        old(itp).wf(),
    ensures
        final(itp).wf(),
        match spec_alu(old(itp)@, pc0, instr) {
            Ok(t2) => r == Ok::<(), Chip8Error>(()) && final(itp)@ == t2,
            Err(e) => r == Err::<(), Chip8Error>(e) && final(itp)@ == old(itp)@,
        },
{
    let x = ((instr / 0x100) % 0x10) as usize;
    let y = ((instr / 0x10) % 0x10) as usize;
    let n = instr % 0x10;
    let vx = itp.cpu.regs[x];
    let vy = itp.cpu.regs[y];
    if n == 0 {
        itp.cpu.regs.set(x, vy);
        Ok(())
    } else if n == 1 {
        itp.cpu.regs.set(x, vx | vy);
        Ok(())
    } else if n == 2 {
        itp.cpu.regs.set(x, vx & vy);
        Ok(())
    } else if n == 3 {
        itp.cpu.regs.set(x, vx ^ vy);
        Ok(())
    } else if n == 4 {
        let sum: u16 = vx as u16 + vy as u16;
        itp.cpu.regs.set(x, (sum % 256) as u8);
        itp.cpu.regs.set(
            15,
            if sum > 255 {
                1
            } else {
                0
            },
        );
        Ok(())
    } else if n == 5 {
        if vx >= vy {
            itp.cpu.regs.set(x, vx - vy);
            itp.cpu.regs.set(15, 1);
        } else {
            itp.cpu.regs.set(x, ((256u16 - vy as u16) + vx as u16) as u8);
            itp.cpu.regs.set(15, 0);
        }
        Ok(())
    } else if n == 6 {
        itp.cpu.regs.set(y, vy / 2);
        let nv = itp.cpu.regs[y];
        itp.cpu.regs.set(x, nv);
        itp.cpu.regs.set(15, vy % 2);
        Ok(())
    } else if n == 7 {
        if vy >= vx {
            itp.cpu.regs.set(x, vy - vx);
            itp.cpu.regs.set(15, 1);
        } else {
            itp.cpu.regs.set(x, ((256u16 - vx as u16) + vy as u16) as u8);
            itp.cpu.regs.set(15, 0);
        }
        Ok(())
    } else if n == 0xE {
        itp.cpu.regs.set(y, (((vy as u16) * 2) % 256) as u8);
        let nv = itp.cpu.regs[y];
        itp.cpu.regs.set(x, nv);
        itp.cpu.regs.set(15, vy / 128);
        Ok(())
    } else {
        Err(Chip8Error::UnknownOpcode { instr, pc: pc0 })
    }
}

/// The timer/memory family (top nibble F); see `spec_fx`.
fn exec_fx(itp: &mut Interpreter, pc0: u16, instr: u16) -> (r: Result<(), Chip8Error>)
    requires
        old(itp).wf(),
        old(itp)@.pc >= 2,
    ensures
        final(itp).wf(),
        match spec_fx(old(itp)@, pc0, instr) {
            Ok(t2) => r == Ok::<(), Chip8Error>(()) && final(itp)@ == t2,
            Err(e) => r == Err::<(), Chip8Error>(e) && final(itp)@ == old(itp)@,
        },
{
    let x = ((instr / 0x100) % 0x10) as usize;
    let vx = itp.cpu.regs[x];
    let kk = (instr % 0x100) as u8;
    if kk == 0x07 {
        let d = itp.cpu.delay_timer;
        itp.cpu.regs.set(x, d);
        Ok(())
    } else if kk == 0x15 {
        itp.cpu.delay_timer = vx;
        Ok(())
    } else if kk == 0x18 {
        itp.cpu.sound_timer = vx;
        Ok(())
    } else if kk == 0x1E {
        let sum: u32 = itp.cpu.i as u32 + vx as u32;
        itp.cpu.regs.set(
            15,
            if sum > 0xFFFF {
                1
            } else {
                0
            },
        );
        itp.cpu.i = (sum % 0x1000) as u16;
        Ok(())
    } else if kk == 0x0A {
        match get_pressed_key(&itp.input) {
            Some(key) => {
                itp.cpu.regs.set(x, key);
            },
            None => {
                itp.cpu.pc = itp.cpu.pc - 2;
            },
        }
        Ok(())
    } else if kk == 0x29 {
        itp.cpu.i = vx as u16 * 5 + 0x50;
        Ok(())
    } else if kk == 0x33 {
        let i = itp.cpu.i as usize;
        if i + 2 >= MEM_SIZE {
            return Err(Chip8Error::AddrOutOfBounds { instr, pc: pc0 });
        }
        itp.ram.set(i, vx / 100);
        itp.ram.set(i + 1, (vx / 10) % 10);
        itp.ram.set(i + 2, vx % 10);
        Ok(())
    } else if kk == 0x55 {
        let i = itp.cpu.i as usize;
        if i + x >= MEM_SIZE {
            return Err(Chip8Error::AddrOutOfBounds { instr, pc: pc0 });
        }
        let mut k: usize = 0;
        while k <= x
            invariant
                itp.wf(),
                x < 16,
                k <= x + 1,
                i + x < 4096,
                i == old(itp)@.ireg as int,
                itp@ == (MachineState { ram: itp@.ram, ..old(itp)@ }),
                forall|a: int|
                    0 <= a < 4096 && !(i <= a < i + k) ==> itp@.ram[a] == old(itp)@.ram[a],
                forall|a: int| i <= a < i + k ==> itp@.ram[a] == old(itp)@.regs[a - i],
            decreases x + 1 - k,
        {
            let v = itp.cpu.regs[k];
            itp.ram.set(i + k, v);
            k += 1;
        }
        proof {
            assert(itp@.ram =~= Seq::new(
                4096,
                |a: int|
                    if i <= a <= i + x {
                        old(itp)@.regs[a - i]
                    } else {
                        old(itp)@.ram[a]
                    },
            ));
            assert(itp@ =~= (MachineState {
                ram: Seq::new(
                    4096,
                    |a: int|
                        if i <= a <= i + x {
                            old(itp)@.regs[a - i]
                        } else {
                            old(itp)@.ram[a]
                        },
                ),
                ..old(itp)@
            }));
        }
        Ok(())
    } else if kk == 0x65 {
        let i = itp.cpu.i as usize;
        if i + x >= MEM_SIZE {
            return Err(Chip8Error::AddrOutOfBounds { instr, pc: pc0 });
        }
        let mut k: usize = 0;
        while k <= x
            invariant
                itp.wf(),
                x < 16,
                k <= x + 1,
                i + x < 4096,
                i == old(itp)@.ireg as int,
                itp@ == (MachineState { regs: itp@.regs, ..old(itp)@ }),
                forall|j: int| 0 <= j < k ==> itp@.regs[j] == old(itp)@.ram[i + j],
                forall|j: int| k <= j < 16 ==> itp@.regs[j] == old(itp)@.regs[j],
            decreases x + 1 - k,
        {
            let b = itp.ram[i + k];
            itp.cpu.regs.set(k, b);
            k += 1;
        }
        proof {
            assert(itp@.regs =~= Seq::new(
                16,
                |j: int|
                    if j <= x {
                        old(itp)@.ram[i + j]
                    } else {
                        old(itp)@.regs[j]
                    },
            ));
            assert(itp@ =~= (MachineState {
                regs: Seq::new(
                    16,
                    |j: int|
                        if j <= x {
                            old(itp)@.ram[i + j]
                        } else {
                            old(itp)@.regs[j]
                        },
                ),
                ..old(itp)@
            }));
        }
        Ok(())
    } else {
        Err(Chip8Error::UnknownOpcode { instr, pc: pc0 })
    }
}

/// One sprite row, columns clipped at the right edge; see `spec_draw_row`.
fn draw_sprite_row(screen: &mut Vec<bool>, byte: u8, x0: usize, y: usize) -> (r: (bool, bool))
    requires
        old(screen)@.len() == 2048,
        x0 < 64,
        y < 32,
    ensures
        final(screen)@.len() == 2048,
        ({
            let d = spec_draw_row(old(screen)@, byte, x0 as int, y as int, 0);
            final(screen)@ == d.0 && r.0 == d.1 && r.1 == d.2
        }),
{
    let cols = if 64 - x0 < 8 {
        64 - x0
    } else {
        8
    };
    let mut collision = false;
    let mut changed = false;
    let mut j: usize = 0;
    while j < cols
        invariant
            screen@.len() == 2048,
            j <= cols,
            x0 < 64,
            y < 32,
            cols <= 8,
            x0 + cols <= 64,
            (cols == 8 || x0 + cols == 64),
            ({
                let fin = spec_draw_row(old(screen)@, byte, x0 as int, y as int, 0);
                let rem = spec_draw_row(screen@, byte, x0 as int, y as int, j as int);
                fin.0 == rem.0 && fin.1 == (collision || rem.1) && fin.2 == (changed || rem.2)
            }),
        decreases cols - j,
    {
        let sh: u8 = (7 - j) as u8;
        let bit = (byte >> sh) & 1;
        proof {
            assert((bit == 1) == sprite_bit(byte, j as int));
        }
        if bit == 1 {
            let idx = (x0 + j) * 32 + y;
            if screen[idx] {
                collision = true;
                screen.set(idx, false);
            } else {
                screen.set(idx, true);
            }
            changed = true;
        }
        j += 1;
    }
    (collision, changed)
}

/// Sprite rows whose addresses stay in memory are all drawn.
proof fn lemma_draw_rows_ok(
    sc: Seq<bool>,
    ram: Seq<u8>,
    ireg: int,
    x0: int,
    y0: int,
    n: int,
    i: int,
)
    requires
        i >= n || y0 + i >= 32 || ireg + n <= 4096 || ireg + (32 - y0) <= 4096,
    ensures
        spec_draw_rows(sc, ram, ireg, x0, y0, n, i) is Ok,
    decreases n - i,
{
    if i < 0 || i >= n || y0 + i >= 32 {
    } else {
        let row = spec_draw_row(sc, ram[ireg + i], x0, y0 + i, 0);
        lemma_draw_rows_ok(row.0, ram, ireg, x0, y0, n, i + 1);
    }
}

/// A processed sprite row whose address leaves memory makes the draw fail.
proof fn lemma_draw_rows_err(
    sc: Seq<bool>,
    ram: Seq<u8>,
    ireg: int,
    x0: int,
    y0: int,
    n: int,
    i: int,
    k: int,
)
    requires
        0 <= i <= k < n,
        y0 + k < 32,
        ireg + k >= 4096,
    ensures
        spec_draw_rows(sc, ram, ireg, x0, y0, n, i) is Err,
    decreases k - i,
{
    if ireg + i >= 4096 {
    } else {
        let row = spec_draw_row(sc, ram[ireg + i], x0, y0 + i, 0);
        lemma_draw_rows_err(row.0, ram, ireg, x0, y0, n, i + 1, k);
    }
}

/// The sprite-draw instruction; see `spec_draw_op`.
fn exec_draw(itp: &mut Interpreter, pc0: u16, instr: u16) -> (r: Result<bool, Chip8Error>)
    requires
        old(itp).wf(),
    ensures
        final(itp).wf(),
        (final(itp)@, r) == spec_draw_op(old(itp)@, pc0, instr),
{
    let x = ((instr / 0x100) % 0x10) as usize;
    let y = ((instr / 0x10) % 0x10) as usize;
    let n = (instr % 0x10) as usize;
    let vx = if x == 15 {
        0
    } else {
        itp.cpu.regs[x]
    };
    let vy = if y == 15 {
        0
    } else {
        itp.cpu.regs[y]
    };
    let x0 = (vx % 64) as usize;
    let y0 = (vy % 32) as usize;
    let rows = if n < 32 - y0 {
        n
    } else {
        32 - y0
    };
    let ireg = itp.cpu.i as usize;
    let ghost t = old(itp)@;
    let ghost t0 = set_reg(t, 15, 0);
    proof {
        assert(t0.regs[op_x(instr)] == vx);
        assert(t0.regs[op_y(instr)] == vy);
    }
    if rows > 0 && ireg + (rows - 1) >= MEM_SIZE {
        proof {
            lemma_draw_rows_err(
                t0.screen,
                t0.ram,
                ireg as int,
                x0 as int,
                y0 as int,
                n as int,
                0,
                rows - 1,
            );
        }
        return Err(Chip8Error::AddrOutOfBounds { instr, pc: pc0 });
    }
    itp.cpu.regs.set(15, 0);
    proof {
        assert(itp@ =~= t0);
        lemma_draw_rows_ok(t0.screen, t0.ram, ireg as int, x0 as int, y0 as int, n as int, 0);
    }
    let ghost sc0 = itp@.screen;
    let mut collision = false;
    let mut changed = false;
    let mut i: usize = 0;
    while i < rows
        invariant
            itp.wf(),
            x0 < 64,
            y0 < 32,
            n < 16,
            i <= rows,
            rows <= n,
            rows <= 32 - y0,
            (rows == n || rows == 32 - y0),
            rows == 0 || ireg + rows <= 4096,
            ireg == t0.ireg as int,
            sc0 == t0.screen,
            itp@ == (MachineState { screen: itp@.screen, ..t0 }),
            itp@.screen.len() == 2048,
            ({
                let fin = spec_draw_rows(sc0, t0.ram, ireg as int, x0 as int, y0 as int, n as int, 0);
                let rem = spec_draw_rows(
                    itp@.screen,
                    t0.ram,
                    ireg as int,
                    x0 as int,
                    y0 as int,
                    n as int,
                    i as int,
                );
                fin is Ok && rem is Ok && fin->Ok_0.0 == rem->Ok_0.0 && fin->Ok_0.1 == (collision
                    || rem->Ok_0.1) && fin->Ok_0.2 == (changed || rem->Ok_0.2)
            }),
        decreases rows - i,
    {
        proof {
            lemma_draw_rows_ok(
                itp@.screen,
                t0.ram,
                ireg as int,
                x0 as int,
                y0 as int,
                n as int,
                i + 1,
            );
        }
        let byte = itp.ram[ireg + i];
        let rc = draw_sprite_row(&mut itp.screen, byte, x0, y0 + i);
        if rc.0 {
            collision = true;
        }
        if rc.1 {
            changed = true;
        }
        i += 1;
    }
    itp.cpu.regs.set(
        15,
        if collision {
            1
        } else {
            0
        },
    );
    let r = Ok(changed);
    proof {
        assert(itp@ =~= spec_draw_op(t, pc0, instr).0);
        assert(r == spec_draw_op(t, pc0, instr).1);
    }
    r
}

/// Executes exactly one instruction cycle: fetch the instruction at the
/// program counter, advance the counter by two, decrement the nonzero
/// timers, dispatch. Returns whether the display changed this cycle, or the
/// structured error that ends execution; on an error the failed
/// instruction's own effect is not applied.
///
/// The whole cycle equals the model's `spec_step` for some value of the
/// drawn random byte; for every instruction except the random one it equals
/// `spec_step` with the byte fixed at zero.
pub fn emulate(itp: &mut Interpreter) -> (r: Result<bool, Chip8Error>)
    requires
        old(itp).wf(),
    ensures
        final(itp).wf(),
        exists|rb: u8| (final(itp)@, r) == spec_step(old(itp)@, rb),
        (old(itp)@.pc as int + 1 >= 4096 || op_top(spec_instr(old(itp)@)) != 0xC) ==> (
        final(itp)@,
        r,
        ) == spec_step(old(itp)@, 0),
{
    let ghost pre = old(itp)@;
    let pc0 = itp.cpu.pc;
    if pc0 as usize + 1 >= MEM_SIZE {
        let r = Err(Chip8Error::FetchOutOfBounds { pc: pc0 });
        proof {
            assert((itp@, r) == spec_step(pre, 0));
        }
        return r;
    }
    let instr = fetch_instruction(itp);
    itp.cpu.pc = pc0 + 2;
    if itp.cpu.delay_timer > 0 {
        itp.cpu.delay_timer = itp.cpu.delay_timer - 1;
    }
    if itp.cpu.sound_timer > 0 {
        itp.cpu.sound_timer = itp.cpu.sound_timer - 1;
    }
    let ghost t = itp@;
    proof {
        assert(t =~= spec_tick(pre));
        assert(instr == spec_instr(pre));
    }
    let top = instr / 0x1000;
    let x = ((instr / 0x100) % 0x10) as usize;
    let y = ((instr / 0x10) % 0x10) as usize;
    let kk = (instr % 0x100) as u8;
    let nnn = instr % 0x1000;
    proof {
        assert(top == op_top(instr) && x == op_x(instr) && y == op_y(instr) && kk == op_kk(instr)
            && nnn == op_nnn(instr));
        assert(x < 16 && y < 16 && nnn < 4096);
    }
    if top == 0 {
        if x == 0 {
            if kk == 0xE0 {
                let changed = clear_screen(itp);
                let r = Ok(changed);
                proof {
                    assert(itp@ =~= spec_step(pre, 0).0);
                    assert((itp@, r) == spec_step(pre, 0));
                }
                r
            } else if kk == 0xEE {
                match itp.cpu.stack.pop() {
                    Some(ret) => {
                        itp.cpu.pc = ret;
                        let r = Ok(false);
                        proof {
                            assert(itp@ =~= spec_step(pre, 0).0);
                            assert((itp@, r) == spec_step(pre, 0));
                        }
                        r
                    },
                    None => {
                        let r = Err(Chip8Error::StackUnderflow { instr, pc: pc0 });
                        proof {
                            assert(itp@ =~= spec_step(pre, 0).0);
                            assert((itp@, r) == spec_step(pre, 0));
                        }
                        r
                    },
                }
            } else {
                let r = Err(Chip8Error::UnknownOpcode { instr, pc: pc0 });
                proof {
                    assert((itp@, r) == spec_step(pre, 0));
                }
                r
            }
        } else {
            let r = Ok(false);
            proof {
                assert((itp@, r) == spec_step(pre, 0));
            }
            r
        }
    } else if top == 1 {
        itp.cpu.pc = nnn;
        let r = Ok(false);
        proof {
            assert(itp@ =~= spec_step(pre, 0).0);
            assert((itp@, r) == spec_step(pre, 0));
        }
        r
    } else if top == 2 {
        let ret = itp.cpu.pc;
        itp.cpu.stack.push(ret);
        itp.cpu.pc = nnn;
        let r = Ok(false);
        proof {
            assert(itp@ =~= spec_step(pre, 0).0);
            assert((itp@, r) == spec_step(pre, 0));
        }
        r
    } else if top == 3 {
        let vx = itp.cpu.regs[x];
        if vx == kk {
            itp.cpu.pc = itp.cpu.pc + 2;
        }
        let r = Ok(false);
        proof {
            assert(itp@ =~= spec_step(pre, 0).0);
            assert((itp@, r) == spec_step(pre, 0));
        }
        r
    } else if top == 4 {
        let vx = itp.cpu.regs[x];
        if vx != kk {
            itp.cpu.pc = itp.cpu.pc + 2;
        }
        let r = Ok(false);
        proof {
            assert(itp@ =~= spec_step(pre, 0).0);
            assert((itp@, r) == spec_step(pre, 0));
        }
        r
    } else if top == 5 {
        let vx = itp.cpu.regs[x];
        let vy = itp.cpu.regs[y];
        if vx == vy {
            itp.cpu.pc = itp.cpu.pc + 2;
        }
        let r = Ok(false);
        proof {
            assert(itp@ =~= spec_step(pre, 0).0);
            assert((itp@, r) == spec_step(pre, 0));
        }
        r
    } else if top == 6 {
        itp.cpu.regs.set(x, kk);
        let r = Ok(false);
        proof {
            assert(itp@ =~= spec_step(pre, 0).0);
            assert((itp@, r) == spec_step(pre, 0));
        }
        r
    } else if top == 7 {
        let vx = itp.cpu.regs[x];
        let sum: u16 = vx as u16 + kk as u16;
        itp.cpu.regs.set(x, (sum % 256) as u8);
        let r = Ok(false);
        proof {
            assert(itp@ =~= spec_step(pre, 0).0);
            assert((itp@, r) == spec_step(pre, 0));
        }
        r
    } else if top == 8 {
        match exec_alu(itp, pc0, instr) {
            Ok(_) => {
                let r = Ok(false);
                proof {
                    assert(itp@ =~= spec_step(pre, 0).0);
                    assert((itp@, r) == spec_step(pre, 0));
                }
                r
            },
            Err(e) => {
                let r = Err(e);
                proof {
                    assert(itp@ =~= spec_step(pre, 0).0);
                    assert((itp@, r) == spec_step(pre, 0));
                }
                r
            },
        }
    } else if top == 9 {
        let vx = itp.cpu.regs[x];
        let vy = itp.cpu.regs[y];
        if vx != vy {
            itp.cpu.pc = itp.cpu.pc + 2;
        }
        let r = Ok(false);
        proof {
            assert(itp@ =~= spec_step(pre, 0).0);
            assert((itp@, r) == spec_step(pre, 0));
        }
        r
    } else if top == 0xA {
        itp.cpu.i = nnn;
        let r = Ok(false);
        proof {
            assert(itp@ =~= spec_step(pre, 0).0);
            assert((itp@, r) == spec_step(pre, 0));
        }
        r
    } else if top == 0xB {
        let v0 = itp.cpu.regs[0];
        itp.cpu.pc = nnn + v0 as u16;
        let r = Ok(false);
        proof {
            assert(itp@ =~= spec_step(pre, 0).0);
            assert((itp@, r) == spec_step(pre, 0));
        }
        r
    } else if top == 0xC {
        let rb = random_byte();
        itp.cpu.regs.set(x, rb & kk);
        let r = Ok(false);
        proof {
            assert(itp@ =~= spec_step(pre, rb).0);
            assert((itp@, r) == spec_step(pre, rb));
        }
        r
    } else if top == 0xD {
        let r = exec_draw(itp, pc0, instr);
        proof {
            assert((itp@, r) == spec_step(pre, 0));
        }
        r
    } else if top == 0xE {
        let vx = itp.cpu.regs[x];
        if kk == 0x9E {
            if vx >= 16 {
                let r = Err(Chip8Error::KeyOutOfRange { instr, pc: pc0 });
                proof {
                    assert((itp@, r) == spec_step(pre, 0));
                }
                r
            } else {
                if itp.input[vx as usize] {
                    itp.cpu.pc = itp.cpu.pc + 2;
                }
                let r = Ok(false);
                proof {
                    assert(itp@ =~= spec_step(pre, 0).0);
                    assert((itp@, r) == spec_step(pre, 0));
                }
                r
            }
        } else if kk == 0xA1 {
            if vx >= 16 {
                let r = Err(Chip8Error::KeyOutOfRange { instr, pc: pc0 });
                proof {
                    assert((itp@, r) == spec_step(pre, 0));
                }
                r
            } else {
                if !itp.input[vx as usize] {
                    itp.cpu.pc = itp.cpu.pc + 2;
                }
                let r = Ok(false);
                proof {
                    assert(itp@ =~= spec_step(pre, 0).0);
                    assert((itp@, r) == spec_step(pre, 0));
                }
                r
            }
        } else {
            let r = Err(Chip8Error::UnknownOpcode { instr, pc: pc0 });
            proof {
                assert((itp@, r) == spec_step(pre, 0));
            }
            r
        }
    } else {
        match exec_fx(itp, pc0, instr) {
            Ok(_) => {
                let r = Ok(false);
                proof {
                    assert(itp@ =~= spec_step(pre, 0).0);
                    assert((itp@, r) == spec_step(pre, 0));
                }
                r
            },
            Err(e) => {
                let r = Err(e);
                proof {
                    assert(itp@ =~= spec_step(pre, 0).0);
                    assert((itp@, r) == spec_step(pre, 0));
                }
                r
            },
        }
    }
}

} // verus!
