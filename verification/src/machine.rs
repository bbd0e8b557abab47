//! The interpreter's concrete state and the operations around the cycle:
//! construction, program loading, the input snapshot, and read access for a
//! renderer.

use vstd::prelude::*;

use crate::model::{
    blank_screen, first_key_from, font_seq, initial_state, load_ram, pix, spec_instr,
    Chip8Error, MachineState, FONT_BASE, MAX_PROGRAM_LEN, MEM_SIZE, NUM_KEYS, NUM_REGISTERS,
    PROGRAM_BASE, SCREEN_HEIGHT, SCREEN_PIXELS, SCREEN_WIDTH,
};

verus! {

use vstd::pervasive::VecAdditionalExecFns;

/// CPU registers and timers.
pub struct Chip8Cpu {
    /// Program counter.
    pub pc: u16,
    /// Index register.
    pub i: u16,
    /// Call stack of return addresses.
    pub stack: Vec<u16>,
    /// Delay timer.
    pub delay_timer: u8,
    /// Sound timer.
    pub sound_timer: u8,
    /// The 16 general-purpose registers.
    pub regs: Vec<u8>,
}

/// The whole machine: CPU, memory, display and the current input snapshot.
pub struct Interpreter {
    pub cpu: Chip8Cpu,
    /// The 4096 bytes of memory.
    pub ram: Vec<u8>,
    /// The display; pixel (x, y) is at index `pix(x, y)`.
    pub screen: Vec<bool>,
    /// The 16 logical key states, written only through `set_input`.
    pub input: Vec<bool>,
}

impl View for Interpreter {
    type V = MachineState;

    open spec fn view(&self) -> MachineState {
        MachineState {
            pc: self.cpu.pc,
            ireg: self.cpu.i,
            regs: self.cpu.regs@,
            stack: self.cpu.stack@,
            delay: self.cpu.delay_timer,
            sound: self.cpu.sound_timer,
            ram: self.ram@,
            screen: self.screen@,
            keys: self.input@,
        }
    }
}

impl Interpreter {
    /// The collections have their fixed sizes.
    pub open spec fn wf(&self) -> bool {
        self@.wf()
    }

    /// One general-purpose register.
    pub fn reg(&self, x: usize) -> (r: u8)
        requires
            self.wf(),
            x < NUM_REGISTERS,
        ensures
            r == self@.regs[x as int],
    {
        self.cpu.regs[x]
    }

    /// The program counter.
    pub fn pc(&self) -> (r: u16)
        ensures
            r == self@.pc,
    {
        self.cpu.pc
    }

    /// The index register.
    pub fn index_reg(&self) -> (r: u16)
        ensures
            r == self@.ireg,
    {
        self.cpu.i
    }

    /// The delay timer.
    pub fn delay(&self) -> (r: u8)
        ensures
            r == self@.delay,
    {
        self.cpu.delay_timer
    }

    /// The sound timer.
    pub fn sound(&self) -> (r: u8)
        ensures
            r == self@.sound,
    {
        self.cpu.sound_timer
    }

    /// How many return addresses the call stack holds.
    pub fn stack_depth(&self) -> (r: usize)
        ensures
            r == self@.stack.len(),
    {
        self.cpu.stack.len()
    }

    /// One byte of memory.
    pub fn mem(&self, addr: usize) -> (r: u8)
        requires
            self.wf(),
            addr < MEM_SIZE,
        ensures
            r == self@.ram[addr as int],
    {
        self.ram[addr]
    }

    /// Whether pixel (x, y) of the display is lit: the read access for a
    /// renderer.
    pub fn pixel(&self, x: usize, y: usize) -> (r: bool)
        requires
            self.wf(),
            x < SCREEN_WIDTH,
            y < SCREEN_HEIGHT,
        ensures
            r == self@.screen[pix(x as int, y as int)],
    {
        self.screen[x * 32 + y]
    }
}

/// A vector holding `n` copies of `v`.
fn filled<T: Copy>(n: usize, v: T) -> (r: Vec<T>)
    ensures
        r@ == Seq::new(n as nat, |k: int| v),
{
    let mut r: Vec<T> = Vec::new();
    let mut k: usize = 0;
    while k < n
        invariant
            k <= n,
            r@ =~= Seq::new(k as nat, |j: int| v),
        decreases n - k,
    {
        r.push(v);
        k += 1;
    }
    proof {
        assert(r@ =~= Seq::new(n as nat, |k: int| v));
    }
    r
}

/// A fresh machine: program counter at the program base, registers, timers,
/// stack, display and keys clear, and the font glyphs copied into memory.
pub fn setup_emulator() -> (itp: Interpreter)
    ensures
        itp.wf(),
        itp@ == initial_state(),
{
    let font: [u8; 80] = [
        0xF0, 0x90, 0x90, 0x90, 0xF0, 0x20, 0x60, 0x20, 0x20, 0x70, 0xF0, 0x10, 0xF0, 0x80, 0xF0,
        0xF0, 0x10, 0xF0, 0x10, 0xF0, 0x90, 0x90, 0xF0, 0x10, 0x10, 0xF0, 0x80, 0xF0, 0x10, 0xF0,
        0xF0, 0x80, 0xF0, 0x90, 0xF0, 0xF0, 0x10, 0x20, 0x40, 0x40, 0xF0, 0x90, 0xF0, 0x90, 0xF0,
        0xF0, 0x90, 0xF0, 0x10, 0xF0, 0xF0, 0x90, 0xF0, 0x90, 0x90, 0xE0, 0x90, 0xE0, 0x90, 0xE0,
        0xF0, 0x80, 0x80, 0x80, 0xF0, 0xE0, 0x90, 0x90, 0x90, 0xE0, 0xF0, 0x80, 0xF0, 0x80, 0xF0,
        0xF0, 0x80, 0xF0, 0x80, 0x80,
    ];
    proof {
        assert(font@ =~= font_seq());
    }
    let mut ram: Vec<u8> = filled(MEM_SIZE, 0u8);
    let mut k: usize = 0;
    while k < 80
        invariant
            k <= 80,
            font@ == font_seq(),
            ram@.len() == 4096,
            forall|a: int|
                0 <= a < 4096 && !(FONT_BASE <= a < FONT_BASE + k) ==> ram@[a] == 0u8,
            forall|a: int|
                FONT_BASE <= a < FONT_BASE + k ==> ram@[a] == font_seq()[a - FONT_BASE],
        decreases 80 - k,
    {
        ram.set(FONT_BASE + k, font[k]);
        k += 1;
    }
    let itp = Interpreter {
        cpu: Chip8Cpu {
            pc: 0x200,
            i: 0,
            stack: Vec::new(),
            delay_timer: 0,
            sound_timer: 0,
            regs: filled(NUM_REGISTERS, 0u8),
        },
        ram,
        screen: filled(SCREEN_PIXELS, false),
        input: filled(NUM_KEYS, false),
    };
    proof {
        assert(itp@.ram =~= initial_state().ram);
        assert(itp@ =~= initial_state());
    }
    itp
}

/// Copies a program into memory starting at the program base. A program
/// longer than the reserved region is rejected whole: nothing is copied and
/// the error reports the length.
pub fn load_program(itp: &mut Interpreter, program: &Vec<u8>) -> (r: Result<(), Chip8Error>)
    requires
        old(itp).wf(),
    ensures
        final(itp).wf(),
        program@.len() <= MAX_PROGRAM_LEN ==> r == Ok::<(), Chip8Error>(())
            && final(itp)@ == (MachineState { ram: load_ram(old(itp)@.ram, program@), ..old(itp)@ }),
        program@.len() > MAX_PROGRAM_LEN ==> r == Err::<(), Chip8Error>(
            Chip8Error::ProgramTooLarge { len: program@.len() as usize },
        ) && final(itp)@ == old(itp)@,
{
    let len = program.len();
    if len > MAX_PROGRAM_LEN {
        return Err(Chip8Error::ProgramTooLarge { len });
    }
    let mut k: usize = 0;
    while k < len
        invariant
            k <= len,
            len == program@.len(),
            len <= MAX_PROGRAM_LEN,
            itp@.ram.len() == 4096,
            itp@ == (MachineState { ram: itp@.ram, ..old(itp)@ }),
            forall|a: int|
                0 <= a < 4096 && !(PROGRAM_BASE <= a < PROGRAM_BASE + k) ==> itp@.ram[a]
                    == old(itp)@.ram[a],
            forall|a: int|
                PROGRAM_BASE <= a < PROGRAM_BASE + k ==> itp@.ram[a] == program@[a - PROGRAM_BASE],
        decreases len - k,
    {
        itp.ram.set(PROGRAM_BASE + k, program[k]);
        k += 1;
    }
    proof {
        assert(itp@.ram =~= load_ram(old(itp)@.ram, program@));
        assert(itp@ =~= (MachineState { ram: load_ram(old(itp)@.ram, program@), ..old(itp)@ }));
    }
    Ok(())
}

/// Replaces the input snapshot with a full 16-element one.
pub fn set_input(itp: &mut Interpreter, keys: &Vec<bool>)
    requires
        old(itp).wf(),
        keys@.len() == NUM_KEYS,
    ensures
        final(itp).wf(),
        final(itp)@ == (MachineState { keys: keys@, ..old(itp)@ }),
{
    let mut k: usize = 0;
    while k < NUM_KEYS
        invariant
            k <= NUM_KEYS,
            keys@.len() == NUM_KEYS,
            itp@.keys.len() == 16,
            itp@ == (MachineState { keys: itp@.keys, ..old(itp)@ }),
            forall|j: int| 0 <= j < k ==> itp@.keys[j] == keys@[j],
            forall|j: int| k <= j < 16 ==> itp@.keys[j] == old(itp)@.keys[j],
        decreases NUM_KEYS - k,
    {
        itp.input.set(k, keys[k]);
        k += 1;
    }
    proof {
        assert(itp@.keys =~= keys@);
        assert(itp@ =~= (MachineState { keys: keys@, ..old(itp)@ }));
    }
}

/// The instruction word at the program counter, big-endian.
pub(crate) fn fetch_instruction(itp: &Interpreter) -> (r: u16)
    requires
        itp.wf(),
        itp@.pc as int + 1 < 4096,
    ensures
        r == spec_instr(itp@),
{
    let hi = itp.ram[itp.cpu.pc as usize];
    let lo = itp.ram[itp.cpu.pc as usize + 1];
    (hi as u16) * 256 + (lo as u16)
}

/// The lowest pressed key, if any.
pub(crate) fn get_pressed_key(input: &Vec<bool>) -> (r: Option<u8>)
    requires
        input@.len() == NUM_KEYS,
    ensures
        r == first_key_from(input@, 0),
{
    let mut k: usize = 0;
    while k < NUM_KEYS
        invariant
            k <= NUM_KEYS,
            input@.len() == NUM_KEYS,
            first_key_from(input@, 0) == first_key_from(input@, k as int),
        decreases NUM_KEYS - k,
    {
        if input[k] {
            return Some(k as u8);
        }
        k += 1;
    }
    None
}

/// Turns every pixel off; reports whether any was lit.
pub(crate) fn clear_screen(itp: &mut Interpreter) -> (changed: bool)
    requires
        old(itp).wf(),
    ensures
        final(itp).wf(),
        final(itp)@ == (MachineState { screen: blank_screen(), ..old(itp)@ }),
        changed == crate::model::any_lit(old(itp)@.screen),
{
    let mut changed = false;
    let mut k: usize = 0;
    while k < SCREEN_PIXELS
        invariant
            k <= SCREEN_PIXELS,
            itp@.screen.len() == 2048,
            itp@ == (MachineState { screen: itp@.screen, ..old(itp)@ }),
            forall|p: int| 0 <= p < k ==> !itp@.screen[p],
            forall|p: int| k <= p < 2048 ==> itp@.screen[p] == old(itp)@.screen[p],
            changed == exists|p: int| 0 <= p < k && old(itp)@.screen[p],
        decreases SCREEN_PIXELS - k,
    {
        if itp.screen[k] {
            changed = true;
        }
        itp.screen.set(k, false);
        k += 1;
    }
    proof {
        assert(itp@.screen =~= blank_screen());
        assert(itp@ =~= (MachineState { screen: blank_screen(), ..old(itp)@ }));
    }
    changed
}

/// Relies on rand's thread_rng and Rng::gen_range: a byte drawn uniformly
/// from 0..=255. Nothing is assumed of the value.
#[verifier::external_body]
pub(crate) fn random_byte() -> u8 {
    rand::Rng::gen_range(&mut rand::thread_rng(), 0..=0xFFu8)
}

} // verus!
