//! Laws of the cycle model: properties that hold of every machine state,
//! proved once and for all against `spec_step`.

use vstd::prelude::*;

use crate::model::{
    first_key_from, op_kk, op_n, op_nnn, op_top, op_x, op_y, pix, spec_draw_row, spec_instr,
    spec_step, sprite_bit, Chip8Error, MachineState,
};

verus! {

/// Loading an immediate into a register stores exactly that byte there and
/// leaves every other register unchanged.
pub proof fn lemma_load_register(s: MachineState, rb: u8)
    requires
        s.wf(),
        s.pc as int + 1 < 4096,
        op_top(spec_instr(s)) == 6,
    ensures
        spec_step(s, rb).1 == Ok::<bool, Chip8Error>(false),
        spec_step(s, rb).0.regs[op_x(spec_instr(s))] == op_kk(spec_instr(s)),
        forall|k: int|
            0 <= k < 16 && k != op_x(spec_instr(s)) ==> spec_step(s, rb).0.regs[k] == s.regs[k],
{
}

/// The clear instruction leaves every pixel of the display dark.
pub proof fn lemma_clear_display(s: MachineState, rb: u8)
    requires
        s.wf(),
        s.pc as int + 1 < 4096,
        spec_instr(s) == 0x00E0,
    ensures
        spec_step(s, rb).1 is Ok,
        forall|k: int| 0 <= k < 2048 ==> !spec_step(s, rb).0.screen[k],
{
}

/// A subroutine call followed by a return comes back to the instruction
/// after the call.
pub proof fn lemma_call_then_return(s: MachineState, rb1: u8, rb2: u8)
    requires
        s.wf(),
        s.pc as int + 1 < 4096,
        op_top(spec_instr(s)) == 2,
        op_nnn(spec_instr(s)) as int + 1 < 4096,
        s.ram[op_nnn(spec_instr(s)) as int] == 0x00,
        s.ram[op_nnn(spec_instr(s)) as int + 1] == 0xEE,
    ensures
        spec_step(s, rb1).1 == Ok::<bool, Chip8Error>(false),
        spec_step(spec_step(s, rb1).0, rb2).1 == Ok::<bool, Chip8Error>(false),
        spec_step(spec_step(s, rb1).0, rb2).0.pc == s.pc + 2,
{
    let s1 = spec_step(s, rb1).0;
    assert(s1.pc == op_nnn(spec_instr(s)));
    assert(spec_instr(s1) == 0xEE);
}

proof fn lemma_first_key_none(keys: Seq<bool>, k: int)
    requires
        forall|j: int| 0 <= j < 16 ==> !keys[j],
        0 <= k,
    ensures
        first_key_from(keys, k) is None,
    decreases 16 - k,
{
    if k >= 16 {
    } else {
        lemma_first_key_none(keys, k + 1);
    }
}

proof fn lemma_first_key_at(keys: Seq<bool>, k: int, p: int)
    requires
        0 <= k <= p < 16,
        keys[p],
        forall|j: int| k <= j < p ==> !keys[j],
    ensures
        first_key_from(keys, k) == Some(p as u8),
    decreases p - k,
{
    if k == p {
    } else {
        lemma_first_key_at(keys, k + 1, p);
    }
}

/// With no key pressed, the key-wait instruction leaves the program counter
/// and everything but the timers exactly where they were, so the cycle can
/// be retried.
pub proof fn lemma_wait_key_blocks(s: MachineState, rb: u8)
    requires
        s.wf(),
        s.pc as int + 1 < 4096,
        op_top(spec_instr(s)) == 0xF,
        op_kk(spec_instr(s)) == 0x0A,
        forall|j: int| 0 <= j < 16 ==> !s.keys[j],
    ensures
        spec_step(s, rb).1 == Ok::<bool, Chip8Error>(false),
        spec_step(s, rb).0.pc == s.pc,
        spec_step(s, rb).0.regs == s.regs,
        spec_step(s, rb).0.ireg == s.ireg,
        spec_step(s, rb).0.stack == s.stack,
        spec_step(s, rb).0.ram == s.ram,
        spec_step(s, rb).0.screen == s.screen,
{
    lemma_first_key_none(s.keys, 0);
}

/// With a key pressed, the key-wait instruction stores the lowest pressed
/// key code and lets the program counter advance normally.
pub proof fn lemma_wait_key_pressed(s: MachineState, rb: u8, p: int)
    requires
        s.wf(),
        s.pc as int + 1 < 4096,
        op_top(spec_instr(s)) == 0xF,
        op_kk(spec_instr(s)) == 0x0A,
        0 <= p < 16,
        s.keys[p],
        forall|j: int| 0 <= j < p ==> !s.keys[j],
    ensures
        spec_step(s, rb).1 == Ok::<bool, Chip8Error>(false),
        spec_step(s, rb).0.pc == s.pc + 2,
        spec_step(s, rb).0.regs[op_x(spec_instr(s))] == p as u8,
{
    lemma_first_key_at(s.keys, 0, p);
}

/// Whatever byte the random instruction draws, the target register holds a
/// value whose bits outside the instruction's mask are clear, every other
/// register keeps its value, and the program counter advances normally.
pub proof fn lemma_random_masked(s: MachineState, rb: u8)
    requires
        s.wf(),
        s.pc as int + 1 < 4096,
        op_top(spec_instr(s)) == 0xC,
    ensures
        spec_step(s, rb).1 == Ok::<bool, Chip8Error>(false),
        spec_step(s, rb).0.regs[op_x(spec_instr(s))] & !op_kk(spec_instr(s)) == 0,
        forall|k: int|
            0 <= k < 16 && k != op_x(spec_instr(s)) ==> spec_step(s, rb).0.regs[k] == s.regs[k],
        spec_step(s, rb).0.pc == s.pc + 2,
{
    let kk = op_kk(spec_instr(s));
    assert((rb & kk) & !kk == 0) by (bit_vector);
}

/// Full characterization of one drawn sprite row: pixels away from the row
/// keep their state, each visible pixel of the row is XOR-ed with its sprite
/// bit, a collision is reported exactly when a visible set bit hits a lit
/// pixel, and the display changed exactly when some visible bit is set.
proof fn lemma_draw_row_frame(sc: Seq<bool>, byte: u8, x0: int, y: int, j: int)
    requires
        sc.len() == 2048,
        0 <= x0 < 64,
        0 <= y < 32,
        0 <= j,
    ensures
        ({
            let d = spec_draw_row(sc, byte, x0, y, j);
            d.0.len() == 2048 && (forall|xx: int, yy: int|
                0 <= xx < 64 && 0 <= yy < 32 && !(yy == y && x0 + j <= xx < x0 + 8)
                    ==> d.0[pix(xx, yy)] == sc[pix(xx, yy)]) && (forall|jj: int|
                j <= jj < 8 && x0 + jj < 64 ==> d.0[pix(x0 + jj, y)] == (
                if sprite_bit(byte, jj) {
                    !sc[pix(x0 + jj, y)]
                } else {
                    sc[pix(x0 + jj, y)]
                })) && d.1 == (exists|jj: int|
                j <= jj < 8 && x0 + jj < 64 && sprite_bit(byte, jj) && sc[pix(x0 + jj, y)]) && d.2
                == (exists|jj: int| j <= jj < 8 && x0 + jj < 64 && sprite_bit(byte, jj))
        }),
    decreases 8 - j,
{
    if j >= 8 || x0 + j >= 64 {
        let d = spec_draw_row(sc, byte, x0, y, j);
        assert(!(exists|jj: int| j <= jj < 8 && x0 + jj < 64 && sprite_bit(byte, jj)));
    } else {
        let p = pix(x0 + j, y);
        let bit = sprite_bit(byte, j);
        let cur = sc[p];
        let sc1 = if bit {
            sc.update(p, !cur)
        } else {
            sc
        };
        lemma_draw_row_frame(sc1, byte, x0, y, j + 1);
        let d = spec_draw_row(sc, byte, x0, y, j);
        let rest = spec_draw_row(sc1, byte, x0, y, j + 1);
        assert(forall|xx: int, yy: int|
            0 <= xx < 64 && 0 <= yy < 32 && !(xx == x0 + j && yy == y) ==> sc1[pix(xx, yy)]
                == sc[pix(xx, yy)]);
        assert(forall|xx: int|
            x0 + j < xx < x0 + 8 && xx < 64 ==> sc1[pix(xx, y)] == sc[pix(xx, y)]);
        // collision equivalence, split on whether column j itself collides
        if bit && cur {
            assert(d.1);
            assert(exists|jj: int|
                j <= jj < 8 && x0 + jj < 64 && sprite_bit(byte, jj) && sc[pix(x0 + jj, y)]);
        } else {
            assert(d.1 == rest.1);
            if rest.1 {
                let jj = choose|jj: int|
                    j + 1 <= jj < 8 && x0 + jj < 64 && sprite_bit(byte, jj) && sc1[pix(x0 + jj, y)];
                assert(sc[pix(x0 + jj, y)]);
                assert(j <= jj < 8 && x0 + jj < 64 && sprite_bit(byte, jj) && sc[pix(x0 + jj, y)]);
            } else {
                if exists|jj: int|
                    j <= jj < 8 && x0 + jj < 64 && sprite_bit(byte, jj) && sc[pix(x0 + jj, y)] {
                    let jj = choose|jj: int|
                        j <= jj < 8 && x0 + jj < 64 && sprite_bit(byte, jj) && sc[pix(x0 + jj, y)];
                    assert(jj != j);
                    assert(sc1[pix(x0 + jj, y)]);
                    assert(false);
                }
            }
        }
        // changed equivalence
        if bit {
            assert(d.2);
            assert(exists|jj: int| j <= jj < 8 && x0 + jj < 64 && sprite_bit(byte, jj));
        } else {
            assert(d.2 == rest.2);
            assert((exists|jj: int| j <= jj < 8 && x0 + jj < 64 && sprite_bit(byte, jj)) == (
            exists|jj: int| j + 1 <= jj < 8 && x0 + jj < 64 && sprite_bit(byte, jj)));
        }
    }
}

/// Drawing the same one-row sprite twice at the same position, onto pixels
/// that start dark, lights its set pixels and then toggles them off again:
/// the display is restored, the first draw reports no collision and the
/// second draw reports one.
pub proof fn lemma_draw_twice_restores(s: MachineState, rb1: u8, rb2: u8)
    requires
        s.wf(),
        s.pc as int + 3 < 4096,
        op_top(spec_instr(s)) == 0xD,
        op_n(spec_instr(s)) == 1,
        op_x(spec_instr(s)) != 15,
        op_y(spec_instr(s)) != 15,
        s.ireg < 4096,
        s.ram[s.pc as int + 2] == s.ram[s.pc as int],
        s.ram[s.pc as int + 3] == s.ram[s.pc as int + 1],
        ({
            let byte = s.ram[s.ireg as int];
            let x0 = (s.regs[op_x(spec_instr(s))] % 64) as int;
            let y0 = (s.regs[op_y(spec_instr(s))] % 32) as int;
            forall|jj: int|
                0 <= jj < 8 && x0 + jj < 64 && sprite_bit(byte, jj) ==> !s.screen[pix(x0 + jj, y0)]
        }),
        ({
            let byte = s.ram[s.ireg as int];
            let x0 = (s.regs[op_x(spec_instr(s))] % 64) as int;
            exists|jj: int| 0 <= jj < 8 && x0 + jj < 64 && sprite_bit(byte, jj)
        }),
    ensures
        spec_step(s, rb1).1 == Ok::<bool, Chip8Error>(true),
        spec_step(s, rb1).0.regs[15] == 0,
        spec_step(spec_step(s, rb1).0, rb2).1 == Ok::<bool, Chip8Error>(true),
        spec_step(spec_step(s, rb1).0, rb2).0.regs[15] == 1,
        spec_step(spec_step(s, rb1).0, rb2).0.screen == s.screen,
{
    reveal_with_fuel(crate::model::spec_draw_rows, 3);
    let instr = spec_instr(s);
    let x = op_x(instr);
    let y = op_y(instr);
    let byte = s.ram[s.ireg as int];
    let x0 = (s.regs[x] % 64) as int;
    let y0 = (s.regs[y] % 32) as int;
    lemma_draw_row_frame(s.screen, byte, x0, y0, 0);
    let d1 = spec_draw_row(s.screen, byte, x0, y0, 0);
    assert(!d1.1);
    let s1 = spec_step(s, rb1).0;
    assert(s1.screen == d1.0);
    assert(spec_instr(s1) == instr);
    assert(s1.ram == s.ram && s1.ireg == s.ireg && s1.screen.len() == 2048);
    assert(s1.regs[x] == s.regs[x] && s1.regs[y] == s.regs[y]);
    lemma_draw_row_frame(s1.screen, byte, x0, y0, 0);
    let d2 = spec_draw_row(s1.screen, byte, x0, y0, 0);
    assert(d2.1) by {
        let jj = choose|jj: int| 0 <= jj < 8 && x0 + jj < 64 && sprite_bit(byte, jj);
        assert(s1.screen[pix(x0 + jj, y0)]);
    }
    let s2 = spec_step(s1, rb2).0;
    assert(s2.screen == d2.0);
    assert(s2.screen =~= s.screen) by {
        assert(forall|p: int| 0 <= p < 2048 ==> s2.screen[p] == s.screen[p]) by {
            assert forall|p: int| 0 <= p < 2048 implies s2.screen[p] == s.screen[p] by {
                let xx = p / 32;
                let yy = p % 32;
                assert(p == pix(xx, yy));
                assert(0 <= xx < 64 && 0 <= yy < 32);
                if yy == y0 && x0 <= xx < x0 + 8 {
                    let jj = xx - x0;
                    assert(d1.0[pix(x0 + jj, y0)] == (if sprite_bit(byte, jj) {
                        !s.screen[pix(x0 + jj, y0)]
                    } else {
                        s.screen[pix(x0 + jj, y0)]
                    }));
                    assert(d2.0[pix(x0 + jj, y0)] == (if sprite_bit(byte, jj) {
                        !s1.screen[pix(x0 + jj, y0)]
                    } else {
                        s1.screen[pix(x0 + jj, y0)]
                    }));
                } else {
                    assert(d1.0[pix(xx, yy)] == s.screen[pix(xx, yy)]);
                    assert(d2.0[pix(xx, yy)] == s1.screen[pix(xx, yy)]);
                }
            }
        }
    }
}

} // verus!

