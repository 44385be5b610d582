//! The interpreter state, its construction, and program loading.

use vstd::prelude::*;
use crate::model::{
    m_wf, with_font, with_program, initial_machine, fontset, Chip8Error, MachineModel, FB_SIZE,
    MEM_SIZE, PROG_START,
};

verus! {

/// The CHIP-8 machine: 4096 bytes of memory, sixteen 8-bit registers, the
/// 16-bit address register I, a call stack, a 64x32 monochrome framebuffer,
/// two countdown timers and sixteen key flags.  The host loop owns one value
/// of this type, sets `keys` before a cycle and reads `framebuffer` and
/// `draw` after it.
pub struct Chip8 {
    /// Program counter.
    pub pc: usize,
    /// General purpose registers V0..VF; VF doubles as the flag register.
    pub v: Vec<u8>,
    /// Byte-addressable memory; the font area starts at 0, programs at
    /// 0x200.
    pub mem: Vec<u8>,
    /// Return addresses, most recent call last.
    pub stack: Vec<usize>,
    /// One cell per pixel, row-major, 0 or 1.
    pub framebuffer: Vec<u8>,
    /// The address register I.
    pub i: usize,
    /// One flag per hexadecimal key, set by the host while pressed.
    pub keys: Vec<bool>,
    /// Delay timer.
    pub delay_timer: u8,
    /// Sound timer.
    pub sound_timer: u8,
    /// True when the last cycle changed the framebuffer.
    pub draw: bool,
}

impl View for Chip8 {
    type V = MachineModel;

    open spec fn view(&self) -> MachineModel {
        MachineModel {
            pc: self.pc,
            v: self.v@,
            mem: self.mem@,
            stack: self.stack@,
            fb: self.framebuffer@,
            i: self.i,
            keys: self.keys@,
            delay_timer: self.delay_timer,
            sound_timer: self.sound_timer,
            draw: self.draw,
        }
    }
}

impl Chip8 {
    /// The machine is well formed: see [`m_wf`].
    pub open spec fn wf(&self) -> bool {
        m_wf(self@)
    }

    /// A fresh machine: everything zeroed, the program counter at the
    /// program origin, and the font table resident at address 0.
    pub fn new() -> (machine: Chip8)
        ensures
            machine.wf(),
            machine@ == initial_machine(),
    {
        let mut machine = Chip8 {
            pc: PROG_START,
            v: zero_bytes(16),
            mem: zero_bytes(MEM_SIZE),
            stack: Vec::new(),
            framebuffer: zero_bytes(FB_SIZE),
            i: 0,
            keys: cleared_keys(),
            sound_timer: 0,
            delay_timer: 0,
            draw: false,
        };
        machine.load_fontset();
        proof {
            assert(machine@.mem =~= initial_machine().mem);
            assert(machine@ =~= initial_machine());
        }
        machine
    }

    /// Copies the raw program bytes to the program origin, leaving all other
    /// state alone.  A program longer than the space from the origin to the
    /// end of memory is rejected and nothing is written.
    pub fn load_program(&mut self, program: &Vec<u8>) -> (res: Result<(), Chip8Error>)
        requires
            old(self).wf(),
        ensures
            final(self).wf(),
            program@.len() <= MEM_SIZE - PROG_START ==> res == Ok::<(), Chip8Error>(())
                && final(self)@ == (MachineModel {
                mem: with_program(old(self)@.mem, program@),
                ..old(self)@
            }),
            program@.len() > MEM_SIZE - PROG_START ==> res == Err::<(), Chip8Error>(
                Chip8Error::ProgramTooLarge { len: program@.len() as usize },
            ) && final(self)@ == old(self)@,
    {
        if program.len() > MEM_SIZE - PROG_START {
            return Err(Chip8Error::ProgramTooLarge { len: program.len() });
        }
        let mut j: usize = 0;
        while j < program.len()
            invariant
                old(self).wf(),
                self.wf(),
                j <= program.len(),
                program@.len() <= MEM_SIZE - PROG_START,
                self@ == (MachineModel { mem: self@.mem, ..old(self)@ }),
                self.mem@.len() == MEM_SIZE,
                forall|k: int|
                    0 <= k < j ==> self.mem@[PROG_START + k] == program@[k],
                forall|k: int|
                    0 <= k < MEM_SIZE && !(PROG_START <= k < PROG_START + j) ==> self.mem@[k]
                        == old(self)@.mem[k],
            decreases program.len() - j,
        {
            self.mem.set(PROG_START + j, program[j]);
            j += 1;
        }
        proof {
            assert(self@.mem =~= with_program(old(self)@.mem, program@));
        }
        Ok(())
    }

    /// Copies the eighty font bytes over the start of memory.
    fn load_fontset(&mut self)
        requires
            old(self).wf(),
        ensures
            final(self).wf(),
            final(self)@ == (MachineModel { mem: with_font(old(self)@.mem), ..old(self)@ }),
    {
        let font = font_bytes();
        let mut j: usize = 0;
        while j < 80
            invariant
                old(self).wf(),
                self.wf(),
                j <= 80,
                font@ == fontset(),
                self@ == (MachineModel { mem: self@.mem, ..old(self)@ }),
                self.mem@.len() == MEM_SIZE,
                forall|k: int| 0 <= k < j ==> self.mem@[k] == fontset()[k],
                forall|k: int| j <= k < MEM_SIZE ==> self.mem@[k] == old(self)@.mem[k],
            decreases 80 - j,
        {
            self.mem.set(j, font[j]);
            j += 1;
        }
        proof {
            assert(self@.mem =~= with_font(old(self)@.mem));
        }
    }
}

/// A vector of `n` zero bytes.
fn zero_bytes(n: usize) -> (v: Vec<u8>)
    ensures
        v@ == Seq::new(n as nat, |k: int| 0u8),
{
    let mut v: Vec<u8> = Vec::new();
    let mut j: usize = 0;
    while j < n
        invariant
            j <= n,
            v@.len() == j,
            forall|k: int| 0 <= k < j ==> v@[k] == 0u8,
        decreases n - j,
    {
        v.push(0);
        j += 1;
    }
    proof {
        assert(v@ =~= Seq::new(n as nat, |k: int| 0u8));
    }
    v
}

/// Sixteen cleared key flags.
fn cleared_keys() -> (v: Vec<bool>)
    ensures
        v@ == Seq::new(16, |k: int| false),
{
    let mut v: Vec<bool> = Vec::new();
    let mut j: usize = 0;
    while j < 16
        invariant
            j <= 16,
            v@.len() == j,
            forall|k: int| 0 <= k < j ==> v@[k] == false,
        decreases 16 - j,
    {
        v.push(false);
        j += 1;
    }
    proof {
        assert(v@ =~= Seq::new(16, |k: int| false));
    }
    v
}

/// The eighty bytes of the sixteen 5-byte hexadecimal digit glyphs.
fn font_bytes() -> (v: Vec<u8>)
    ensures
        v@ == fontset(),
{
    let mut v: Vec<u8> = Vec::new();
    v.push(0xF0);
    v.push(0x90);
    v.push(0x90);
    v.push(0x90);
    v.push(0xF0);
    v.push(0x20);
    v.push(0x60);
    v.push(0x20);
    v.push(0x20);
    v.push(0x70);
    v.push(0xF0);
    v.push(0x10);
    v.push(0xF0);
    v.push(0x80);
    v.push(0xF0);
    v.push(0xF0);
    v.push(0x10);
    v.push(0xF0);
    v.push(0x10);
    v.push(0xF0);
    v.push(0x90);
    v.push(0x90);
    v.push(0xF0);
    v.push(0x10);
    v.push(0x10);
    v.push(0xF0);
    v.push(0x80);
    v.push(0xF0);
    v.push(0x10);
    v.push(0xF0);
    v.push(0xF0);
    v.push(0x80);
    v.push(0xF0);
    v.push(0x90);
    v.push(0xF0);
    v.push(0xF0);
    v.push(0x10);
    v.push(0x20);
    v.push(0x40);
    v.push(0x40);
    v.push(0xF0);
    v.push(0x90);
    v.push(0xF0);
    v.push(0x90);
    v.push(0xF0);
    v.push(0xF0);
    v.push(0x90);
    v.push(0xF0);
    v.push(0x10);
    v.push(0xF0);
    v.push(0xF0);
    v.push(0x90);
    v.push(0xF0);
    v.push(0x90);
    v.push(0x90);
    v.push(0xE0);
    v.push(0x90);
    v.push(0xE0);
    v.push(0x90);
    v.push(0xE0);
    v.push(0xF0);
    v.push(0x80);
    v.push(0x80);
    v.push(0x80);
    v.push(0xF0);
    v.push(0xE0);
    v.push(0x90);
    v.push(0x90);
    v.push(0x90);
    v.push(0xE0);
    v.push(0xF0);
    v.push(0x80);
    v.push(0xF0);
    v.push(0x80);
    v.push(0xF0);
    v.push(0xF0);
    v.push(0x80);
    v.push(0xF0);
    v.push(0x80);
    v.push(0x80);
    proof {
        assert(v@ =~= fontset());
    }
    v
}

} // verus!
