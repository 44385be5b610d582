//! The mathematical model of the interpreter: the abstract machine state
//! and the exact semantics of one fetch-decode-execute cycle.
//!
//! [`spec_step`] is the reference transition function.  Every executable
//! instruction handler is proved to produce exactly the state this module
//! describes.

use vstd::prelude::*;
use crate::draw::blit_sprite;

verus! {

/// Size of the byte-addressable memory.
pub const MEM_SIZE: usize = 4096;

/// Number of pixels of the 64x32 monochrome framebuffer.
pub const FB_SIZE: usize = 2048;

/// Address at which user programs are loaded and execution starts.
pub const PROG_START: usize = 0x200;

/// Abstract machine state: registers, memory, stack, framebuffer, timers,
/// keypad and the redraw flag, all as mathematical values.
#[verifier::ext_equal]
pub struct MachineModel {
    /// Program counter.
    pub pc: usize,
    /// The sixteen general purpose registers V0..VF.
    pub v: Seq<u8>,
    /// The 4096 bytes of memory.
    pub mem: Seq<u8>,
    /// Return addresses, most recent call last.
    pub stack: Seq<usize>,
    /// The 64x32 framebuffer, row-major, one cell per pixel, 0 or 1.
    pub fb: Seq<u8>,
    /// The address register I (a 16-bit register).
    pub i: usize,
    /// One flag per hexadecimal key, true while pressed.
    pub keys: Seq<bool>,
    /// Delay timer, decremented once per cycle while nonzero.
    pub delay_timer: u8,
    /// Sound timer, decremented once per cycle while nonzero.
    pub sound_timer: u8,
    /// True when the cycle that just ran changed the framebuffer.
    pub draw: bool,
}

/// A fatal condition: the interpreter reports it and makes no progress.
#[derive(Clone, Copy, Debug, PartialEq, Eq, Structural)]
pub enum Chip8Error {
    /// The opcode pattern is not one of the defined instructions.
    UnknownOpcode { opcode: u16, pc: usize },
    /// A return was executed with an empty call stack.
    StackUnderflow,
    /// The program counter does not address two bytes of memory.
    PcOutOfRange { pc: usize },
    /// A memory access through the address register I falls outside memory.
    AddressOutOfRange { addr: usize },
    /// A register names a key outside the sixteen-key keypad.
    KeyOutOfRange { key: u8 },
    /// The program does not fit between the load address and the end of
    /// memory.
    ProgramTooLarge { len: usize },
}

/// Shape of a well-formed machine: fixed sizes, 16-bit program counter and
/// address register, 16-bit return addresses, 1-bit pixels.
pub open spec fn m_wf(m: MachineModel) -> bool {
    &&& m.v.len() == 16
    &&& m.mem.len() == MEM_SIZE
    &&& m.fb.len() == FB_SIZE
    &&& m.keys.len() == 16
    &&& m.pc <= 0xFFFF
    &&& m.i <= 0xFFFF
    &&& (forall|k: int| 0 <= k < m.stack.len() ==> m.stack[k] <= 0xFFFF)
    &&& (forall|p: int| 0 <= p < m.fb.len() ==> m.fb[p] == 0 || m.fb[p] == 1)
}

/// The font table: sixteen hexadecimal digit glyphs of five bytes each,
/// resident at address 0 from machine creation on.
pub open spec fn fontset() -> Seq<u8> {
    seq![
        0xF0u8, 0x90, 0x90, 0x90, 0xF0,
        0x20, 0x60, 0x20, 0x20, 0x70,
        0xF0, 0x10, 0xF0, 0x80, 0xF0,
        0xF0, 0x10, 0xF0, 0x10, 0xF0,
        0x90, 0x90, 0xF0, 0x10, 0x10,
        0xF0, 0x80, 0xF0, 0x10, 0xF0,
        0xF0, 0x80, 0xF0, 0x90, 0xF0,
        0xF0, 0x10, 0x20, 0x40, 0x40,
        0xF0, 0x90, 0xF0, 0x90, 0xF0,
        0xF0, 0x90, 0xF0, 0x10, 0xF0,
        0xF0, 0x90, 0xF0, 0x90, 0x90,
        0xE0, 0x90, 0xE0, 0x90, 0xE0,
        0xF0, 0x80, 0x80, 0x80, 0xF0,
        0xE0, 0x90, 0x90, 0x90, 0xE0,
        0xF0, 0x80, 0xF0, 0x80, 0xF0,
        0xF0, 0x80, 0xF0, 0x80, 0x80,
    ]
}

/// Memory with the font table copied over its first eighty bytes.
pub open spec fn with_font(mem: Seq<u8>) -> Seq<u8> {
    Seq::new(mem.len(), |k: int| if 0 <= k < 80 { fontset()[k] } else { mem[k] })
}

/// Memory with the program bytes copied in at the program origin.
pub open spec fn with_program(mem: Seq<u8>, program: Seq<u8>) -> Seq<u8> {
    Seq::new(
        mem.len(),
        |k: int|
            if PROG_START <= k < PROG_START + program.len() {
                program[k - PROG_START]
            } else {
                mem[k]
            },
    )
}

/// The state of a freshly created machine.
pub open spec fn initial_machine() -> MachineModel {
    MachineModel {
        pc: PROG_START,
        v: Seq::new(16, |k: int| 0u8),
        mem: with_font(Seq::new(MEM_SIZE as nat, |k: int| 0u8)),
        stack: Seq::empty(),
        fb: Seq::new(FB_SIZE as nat, |k: int| 0u8),
        i: 0,
        keys: Seq::new(16, |k: int| false),
        delay_timer: 0,
        sound_timer: 0,
        draw: false,
    }
}

/// The register index in bits 8-11 of an opcode.
pub open spec fn op_x(op: u16) -> int {
    ((op >> 8) & 0xF) as int
}

/// The register index in bits 4-7 of an opcode.
pub open spec fn op_y(op: u16) -> int {
    ((op >> 4) & 0xF) as int
}

/// The nibble in bits 0-3 of an opcode.
pub open spec fn op_n(op: u16) -> int {
    (op & 0xF) as int
}

/// The immediate byte in bits 0-7 of an opcode.
pub open spec fn op_nn(op: u16) -> u8 {
    (op & 0xFF) as u8
}

/// The immediate address in bits 0-11 of an opcode.
pub open spec fn op_nnn(op: u16) -> int {
    (op & 0xFFF) as int
}

/// Ranges of the opcode fields.
pub proof fn lemma_op_fields(op: u16)
    ensures
        0 <= op_x(op) < 16,
        0 <= op_y(op) < 16,
        0 <= op_n(op) < 16,
        op_nn(op) == op & 0xFF,
        0 <= op_nnn(op) < 4096,
        op >> 12 < 16,
{
    assert(((op >> 8) & 0xF) < 16) by (bit_vector);
    assert(((op >> 4) & 0xF) < 16) by (bit_vector);
    assert((op & 0xF) < 16) by (bit_vector);
    assert((op & 0xFF) < 256) by (bit_vector);
    assert((op & 0xFFF) < 4096) by (bit_vector);
    assert((op >> 12) < 16) by (bit_vector);
}

/// The two bytes at the program counter combined big-endian into an opcode.
pub open spec fn spec_fetch(m: MachineModel) -> u16 {
    ((m.mem[m.pc as int] as u16) << 8) | (m.mem[m.pc as int + 1] as u16)
}

/// The state a cycle starts from: the redraw flag of the previous cycle is
/// cleared, nothing else changes.  It is also the state the machine is left
/// in when the cycle fails.
pub open spec fn spec_halt(m: MachineModel) -> MachineModel {
    MachineModel { draw: false, ..m }
}

/// Normal advance past the 2-byte instruction.
pub open spec fn adv2(m: MachineModel) -> MachineModel {
    MachineModel { pc: (m.pc + 2) as usize, ..m }
}

/// Conditional skip: over the next instruction when `c` holds, else a normal
/// advance.
pub open spec fn spec_skip_if(m: MachineModel, c: bool) -> MachineModel {
    MachineModel { pc: (m.pc + if c { 4int } else { 2int }) as usize, ..m }
}

/// The malformed-opcode outcome, reporting the opcode and where it stood.
pub open spec fn unknown_op(m: MachineModel, op: u16) -> Chip8Error {
    Chip8Error::UnknownOpcode { opcode: op, pc: m.pc }
}

/// 8-bit addition with the carry flag value: the wrapped sum and 1 iff the
/// true sum exceeds 255.
pub open spec fn alu_add(a: u8, b: u8) -> (u8, u8) {
    (((a + b) % 256) as u8, if a + b > 255 { 1u8 } else { 0u8 })
}

/// 8-bit subtraction with the not-borrow flag value: the wrapped difference
/// and 1 iff no borrow occurred, that is, iff `a >= b`.
pub open spec fn alu_sub(a: u8, b: u8) -> (u8, u8) {
    (((a - b) % 256) as u8, if a >= b { 1u8 } else { 0u8 })
}

/// The 0x0 family: clear screen and return from subroutine.
pub open spec fn spec_exec_sys(m: MachineModel, op: u16) -> Result<MachineModel, Chip8Error> {
    if op == 0x00E0 {
        Ok(adv2(MachineModel { fb: Seq::new(FB_SIZE as nat, |p: int| 0u8), ..m }))
    } else if op == 0x00EE {
        if m.stack.len() == 0 {
            Err(Chip8Error::StackUnderflow)
        } else {
            Ok(MachineModel { pc: m.stack.last(), stack: m.stack.drop_last(), ..m })
        }
    } else {
        Err(unknown_op(m, op))
    }
}

/// The 0x8 family: register-to-register moves, bitwise operations,
/// arithmetic with flags, and shifts.  VF is written last, so the flag
/// overrides the plain result when X is 15; a shift reads VY again after the
/// flag write, so the flag value is shifted when Y is 15.
pub open spec fn spec_exec_alu(m: MachineModel, op: u16) -> Result<MachineModel, Chip8Error> {
    let x = op_x(op);
    let y = op_y(op);
    let k = op & 0xF;
    let a = m.v[x];
    let b = m.v[y];
    if k == 0x0 {
        Ok(adv2(MachineModel { v: m.v.update(x, b), ..m }))
    } else if k == 0x1 {
        Ok(adv2(MachineModel { v: m.v.update(x, a | b), ..m }))
    } else if k == 0x2 {
        Ok(adv2(MachineModel { v: m.v.update(x, a & b), ..m }))
    } else if k == 0x3 {
        Ok(adv2(MachineModel { v: m.v.update(x, a ^ b), ..m }))
    } else if k == 0x4 {
        let r = alu_add(a, b);
        Ok(adv2(MachineModel { v: m.v.update(x, r.0).update(15, r.1), ..m }))
    } else if k == 0x5 {
        let r = alu_sub(a, b);
        Ok(adv2(MachineModel { v: m.v.update(x, r.0).update(15, r.1), ..m }))
    } else if k == 0x6 {
        let v1 = m.v.update(15, b & 1);
        Ok(adv2(MachineModel { v: v1.update(x, v1[y] >> 1u8), ..m }))
    } else if k == 0x7 {
        let r = alu_sub(b, a);
        Ok(adv2(MachineModel { v: m.v.update(x, r.0).update(15, r.1), ..m }))
    } else if k == 0xE {
        let v1 = m.v.update(15, (b & 0x80) >> 7u8);
        Ok(adv2(MachineModel { v: v1.update(x, v1[y] << 1u8), ..m }))
    } else {
        Err(unknown_op(m, op))
    }
}

/// The draw instruction DXYN: XOR-blit an N-row sprite from `mem[I..]` at
/// (VX, VY) with wraparound, set VF to the collision flag, raise the redraw
/// flag.  The whole sprite must lie in memory.
pub open spec fn spec_exec_draw(m: MachineModel, op: u16) -> Result<MachineModel, Chip8Error> {
    let x = op_x(op);
    let y = op_y(op);
    let n = op_n(op);
    if m.i + n > MEM_SIZE {
        Err(Chip8Error::AddressOutOfRange { addr: m.i })
    } else {
        let r = blit_sprite(m.fb, m.mem, m.i as int, m.v[x], m.v[y], n);
        Ok(
            adv2(
                MachineModel {
                    fb: r.0,
                    v: m.v.update(15, if r.1 { 1u8 } else { 0u8 }),
                    draw: true,
                    ..m
                },
            ),
        )
    }
}

/// The 0xE family: skips on key state.  EX9E consumes the matched key; EXA1
/// does not touch it.  The key number must name one of the sixteen keys.
pub open spec fn spec_exec_key(m: MachineModel, op: u16) -> Result<MachineModel, Chip8Error> {
    let x = op_x(op);
    let nn = op_nn(op);
    let key = m.v[x];
    if nn == 0x9E {
        if key >= 16 {
            Err(Chip8Error::KeyOutOfRange { key })
        } else if m.keys[key as int] {
            Ok(spec_skip_if(MachineModel { keys: m.keys.update(key as int, false), ..m }, true))
        } else {
            Ok(adv2(m))
        }
    } else if nn == 0xA1 {
        if key >= 16 {
            Err(Chip8Error::KeyOutOfRange { key })
        } else {
            Ok(spec_skip_if(m, !m.keys[key as int]))
        }
    } else {
        Err(unknown_op(m, op))
    }
}

/// The lowest-numbered pressed key at or after position `k`, if any.
pub open spec fn first_pressed_from(keys: Seq<bool>, k: int) -> Option<u8>
    decreases 16 - k,
{
    if k < 0 || k >= 16 {
        None
    } else if keys[k] {
        Some(k as u8)
    } else {
        first_pressed_from(keys, k + 1)
    }
}

/// The lowest-numbered pressed key, if any.
pub open spec fn first_pressed(keys: Seq<bool>) -> Option<u8> {
    first_pressed_from(keys, 0)
}

/// Memory with the first `cnt` registers stored at `base` (FX55).
pub open spec fn regs_to_mem(mem: Seq<u8>, v: Seq<u8>, base: int, cnt: int) -> Seq<u8>
    decreases cnt,
{
    if cnt <= 0 {
        mem
    } else {
        regs_to_mem(mem, v, base, cnt - 1).update(base + cnt - 1, v[cnt - 1])
    }
}

/// Registers with the first `cnt` loaded from memory at `base` (FX65).
pub open spec fn regs_from_mem(v: Seq<u8>, mem: Seq<u8>, base: int, cnt: int) -> Seq<u8>
    decreases cnt,
{
    if cnt <= 0 {
        v
    } else {
        regs_from_mem(v, mem, base, cnt - 1).update(cnt - 1, mem[base + cnt - 1])
    }
}

/// The 0xF family: timers, key wait, address arithmetic, font addressing,
/// decimal conversion, and the register block transfers.
pub open spec fn spec_exec_f(m: MachineModel, op: u16) -> Result<MachineModel, Chip8Error> {
    let x = op_x(op);
    let nn = op_nn(op);
    let vx = m.v[x];
    if nn == 0x07 {
        Ok(adv2(MachineModel { v: m.v.update(x, m.delay_timer), ..m }))
    } else if nn == 0x0A {
        match first_pressed(m.keys) {
            // No key is pressed: the cycle makes no progress and will retry.
            None => Ok(m),
            Some(k) => Ok(
                adv2(
                    MachineModel {
                        v: m.v.update(x, k),
                        keys: m.keys.update(k as int, false),
                        ..m
                    },
                ),
            ),
        }
    } else if nn == 0x15 {
        Ok(adv2(MachineModel { delay_timer: vx, ..m }))
    } else if nn == 0x18 {
        Ok(adv2(MachineModel { sound_timer: vx, ..m }))
    } else if nn == 0x1E {
        // I is a 16-bit register: the sum wraps at 16 bits; an out-of-range
        // value is caught when it is used to address memory.
        Ok(adv2(MachineModel { i: ((m.i + vx) % 0x10000) as usize, ..m }))
    } else if nn == 0x29 {
        Ok(adv2(MachineModel { i: (vx * 5) as usize, ..m }))
    } else if nn == 0x33 {
        if m.i + 2 >= MEM_SIZE {
            Err(Chip8Error::AddressOutOfRange { addr: m.i })
        } else {
            let mem1 = m.mem.update(m.i as int, (vx / 100) as u8).update(
                m.i as int + 1,
                ((vx / 10) % 10) as u8,
            ).update(m.i as int + 2, (vx % 10) as u8);
            Ok(adv2(MachineModel { mem: mem1, ..m }))
        }
    } else if nn == 0x55 {
        if m.i + x >= MEM_SIZE {
            Err(Chip8Error::AddressOutOfRange { addr: m.i })
        } else {
            Ok(
                adv2(
                    MachineModel {
                        mem: regs_to_mem(m.mem, m.v, m.i as int, x + 1),
                        i: (m.i + x + 1) as usize,
                        ..m
                    },
                ),
            )
        }
    } else if nn == 0x65 {
        if m.i + x >= MEM_SIZE {
            Err(Chip8Error::AddressOutOfRange { addr: m.i })
        } else {
            Ok(
                adv2(
                    MachineModel {
                        v: regs_from_mem(m.v, m.mem, m.i as int, x + 1),
                        i: (m.i + x + 1) as usize,
                        ..m
                    },
                ),
            )
        }
    } else {
        Err(unknown_op(m, op))
    }
}

/// One decoded instruction executed on machine `m`; `rand` is the random
/// byte that a CXNN instruction masks.
pub open spec fn spec_exec(m: MachineModel, op: u16, rand: u8) -> Result<MachineModel, Chip8Error> {
    let t = op >> 12;
    let x = op_x(op);
    let y = op_y(op);
    let n = op_n(op);
    let nn = op_nn(op);
    let nnn = op_nnn(op);
    if t == 0x0 {
        spec_exec_sys(m, op)
    } else if t == 0x1 {
        Ok(MachineModel { pc: nnn as usize, ..m })
    } else if t == 0x2 {
        Ok(MachineModel { pc: nnn as usize, stack: m.stack.push((m.pc + 2) as usize), ..m })
    } else if t == 0x3 {
        Ok(spec_skip_if(m, m.v[x] == nn))
    } else if t == 0x4 {
        Ok(spec_skip_if(m, m.v[x] != nn))
    } else if t == 0x5 {
        if n == 0 {
            Ok(spec_skip_if(m, m.v[x] == m.v[y]))
        } else {
            Err(unknown_op(m, op))
        }
    } else if t == 0x6 {
        Ok(adv2(MachineModel { v: m.v.update(x, nn), ..m }))
    } else if t == 0x7 {
        Ok(adv2(MachineModel { v: m.v.update(x, ((m.v[x] + nn) % 256) as u8), ..m }))
    } else if t == 0x8 {
        spec_exec_alu(m, op)
    } else if t == 0x9 {
        if n == 0 {
            Ok(spec_skip_if(m, m.v[x] != m.v[y]))
        } else {
            Err(unknown_op(m, op))
        }
    } else if t == 0xA {
        Ok(adv2(MachineModel { i: nnn as usize, ..m }))
    } else if t == 0xB {
        Ok(MachineModel { pc: (nnn + m.v[0]) as usize, ..m })
    } else if t == 0xC {
        Ok(adv2(MachineModel { v: m.v.update(x, rand & nn), ..m }))
    } else if t == 0xD {
        spec_exec_draw(m, op)
    } else if t == 0xE {
        spec_exec_key(m, op)
    } else {
        spec_exec_f(m, op)
    }
}

/// The timer tick that ends every successful cycle: each nonzero timer is
/// decremented by one, and a beep fires exactly when the sound timer stood
/// at 1 before its decrement.
pub open spec fn spec_tick(m: MachineModel) -> (MachineModel, bool) {
    let beep = m.sound_timer == 1;
    let d = if m.delay_timer > 0 { (m.delay_timer - 1) as u8 } else { 0u8 };
    let s = if m.sound_timer > 0 { (m.sound_timer - 1) as u8 } else { 0u8 };
    (MachineModel { delay_timer: d, sound_timer: s, ..m }, beep)
}

/// One whole cycle: clear the redraw flag, fetch, execute, tick the timers.
/// The result carries the new state and whether a beep fires; a failure
/// leaves the machine as [`spec_halt`] describes.
pub open spec fn spec_step(m: MachineModel, rand: u8) -> Result<(MachineModel, bool), Chip8Error> {
    let m0 = spec_halt(m);
    if m.pc + 1 >= MEM_SIZE {
        Err(Chip8Error::PcOutOfRange { pc: m.pc })
    } else {
        let op = spec_fetch(m0);
        match spec_exec(m0, op, rand) {
            Ok(m1) => Ok(spec_tick(m1)),
            Err(e) => Err(e),
        }
    }
}

} // verus!
