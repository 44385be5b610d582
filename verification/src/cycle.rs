//! One fetch-decode-execute cycle, proved to follow [`spec_step`] exactly.

use vstd::prelude::*;
use crate::machine::Chip8;
use crate::model::{
    lemma_op_fields, spec_exec, spec_exec_alu, spec_exec_draw, spec_exec_f, spec_exec_key,
    spec_exec_sys, spec_fetch, spec_halt, spec_step, spec_tick, first_pressed,
    first_pressed_from, regs_from_mem, regs_to_mem, Chip8Error, MachineModel, FB_SIZE, MEM_SIZE,
};
use crate::draw::{blit_row, blit_sprite, lemma_sbit_bounds, pix_idx, sbit};

verus! {

/// Relies on rand::random::<u8>, which draws from the thread-local
/// generator: a uniformly distributed byte; any byte may come back.
#[verifier::external_body]
fn random_byte() -> u8 {
    rand::random()
}

impl Chip8 {
    /// The two bytes at the program counter combined big-endian.
    fn get_opcode(&self) -> (op: u16)
        requires
            self.wf(),
            self.pc + 1 < MEM_SIZE,
        ensures
            op == spec_fetch(self@),
    {
        ((self.mem[self.pc] as u16) << 8) | (self.mem[self.pc + 1] as u16)
    }

    /// Runs one cycle with a random byte drawn from the thread-local
    /// generator.  Exactly like [`Chip8::execute_cycle_with`], with the CXNN
    /// instruction masking an arbitrary byte.
    pub fn execute_cycle(&mut self) -> (res: Result<bool, Chip8Error>)
        requires
            old(self).wf(),
        ensures
            final(self).wf(),
            exists|rand: u8|
                match #[trigger] spec_step(old(self)@, rand) {
                    Ok(p) => res == Ok::<bool, Chip8Error>(p.1) && final(self)@ == p.0,
                    Err(e) => res == Err::<bool, Chip8Error>(e) && final(self)@ == spec_halt(
                        old(self)@,
                    ),
                },
    {
        let rand = random_byte();
        let res = self.execute_cycle_with(rand);
        proof {
            assert(match spec_step(old(self)@, rand) {
                Ok(p) => res == Ok::<bool, Chip8Error>(p.1) && self@ == p.0,
                Err(e) => res == Err::<bool, Chip8Error>(e) && self@ == spec_halt(old(self)@),
            });
        }
        res
    }

    /// Runs exactly one fetch-decode-execute cycle with `rand` as the byte
    /// the CXNN instruction masks, then decrements both timers.  Returns
    /// whether a beep fires; the redraw flag is left in `draw`.  On a fatal
    /// condition the machine is unchanged but for the cleared redraw flag,
    /// and the error says what was wrong.
    pub fn execute_cycle_with(&mut self, rand: u8) -> (res: Result<bool, Chip8Error>)
        requires
            old(self).wf(),
        ensures
            final(self).wf(),
            (match spec_step(old(self)@, rand) {
                Ok(p) => res == Ok::<bool, Chip8Error>(p.1) && final(self)@ == p.0,
                Err(e) => res == Err::<bool, Chip8Error>(e) && final(self)@ == spec_halt(
                    old(self)@,
                ),
            }),
    {
        self.draw = false;
        let ghost m0 = self@;
        proof {
            assert(m0 =~= spec_halt(old(self)@));
        }
        if self.pc + 1 >= MEM_SIZE {
            return Err(Chip8Error::PcOutOfRange { pc: self.pc });
        }
        let opcode = self.get_opcode();
        proof {
            lemma_op_fields(opcode);
        }
        let t: u16 = opcode >> 12;
        let x: usize = ((opcode >> 8) & 0xF) as usize;
        let y: usize = ((opcode >> 4) & 0xF) as usize;
        let nn: u8 = (opcode & 0xFF) as u8;
        let nnn: usize = (opcode & 0xFFF) as usize;

        if t == 0x0 {
            match self.exec_sys(opcode) {
                Err(e) => return Err(e),
                Ok(()) => {},
            }
        } else if t == 0x1 {
            self.pc = nnn;
        } else if t == 0x2 {
            self.stack.push(self.pc + 2);
            self.pc = nnn;
        } else if t == 0x3 {
            if self.v[x] == nn {
                self.pc += 2;
            }
            self.pc += 2;
        } else if t == 0x4 {
            if self.v[x] != nn {
                self.pc += 2;
            }
            self.pc += 2;
        } else if t == 0x5 {
            if opcode & 0xF != 0 {
                return Err(Chip8Error::UnknownOpcode { opcode, pc: self.pc });
            }
            if self.v[x] == self.v[y] {
                self.pc += 2;
            }
            self.pc += 2;
        } else if t == 0x6 {
            self.v.set(x, nn);
            self.pc += 2;
        } else if t == 0x7 {
            let s: u16 = self.v[x] as u16 + nn as u16;
            self.v.set(x, (s % 256) as u8);
            self.pc += 2;
        } else if t == 0x8 {
            match self.exec_alu(opcode) {
                Err(e) => return Err(e),
                Ok(()) => {},
            }
        } else if t == 0x9 {
            if opcode & 0xF != 0 {
                return Err(Chip8Error::UnknownOpcode { opcode, pc: self.pc });
            }
            if self.v[x] != self.v[y] {
                self.pc += 2;
            }
            self.pc += 2;
        } else if t == 0xA {
            self.i = nnn;
            self.pc += 2;
        } else if t == 0xB {
            self.pc = nnn + self.v[0] as usize;
        } else if t == 0xC {
            self.v.set(x, rand & nn);
            self.pc += 2;
        } else if t == 0xD {
            match self.exec_draw(opcode) {
                Err(e) => return Err(e),
                Ok(()) => {},
            }
        } else if t == 0xE {
            match self.exec_key(opcode) {
                Err(e) => return Err(e),
                Ok(()) => {},
            }
        } else {
            proof {
                assert(t == 0xF);
            }
            match self.exec_f(opcode) {
                Err(e) => return Err(e),
                Ok(()) => {},
            }
        }
        let ghost m1 = self@;
        proof {
            assert(spec_exec(m0, opcode, rand) == Ok::<MachineModel, Chip8Error>(m1));
        }
        let beep = self.sound_timer == 1;
        if self.delay_timer > 0 {
            self.delay_timer = self.delay_timer - 1;
        }
        if self.sound_timer > 0 {
            self.sound_timer = self.sound_timer - 1;
        }
        proof {
            assert(self@ =~= spec_tick(m1).0);
        }
        Ok(beep)
    }

    /// The 0x0 family: clear screen, return from subroutine.
    fn exec_sys(&mut self, op: u16) -> (res: Result<(), Chip8Error>)
        requires
            old(self).wf(),
            old(self).pc + 1 < MEM_SIZE,
            op >> 12 == 0x0,
        ensures
            final(self).wf(),
            (match spec_exec_sys(old(self)@, op) {
                Ok(m1) => res == Ok::<(), Chip8Error>(()) && final(self)@ == m1,
                Err(e) => res == Err::<(), Chip8Error>(e) && final(self)@ == old(self)@,
            }),
    {
        if op == 0x00E0 {
            let mut p: usize = 0;
            while p < FB_SIZE
                invariant
                    old(self).wf(),
                    self.wf(),
                    p <= FB_SIZE,
                    self.framebuffer@.len() == FB_SIZE,
                    self@ == (MachineModel { fb: self@.fb, ..old(self)@ }),
                    forall|k: int| 0 <= k < p ==> self.framebuffer@[k] == 0,
                decreases FB_SIZE - p,
            {
                self.framebuffer.set(p, 0);
                p += 1;
            }
            self.pc += 2;
            proof {
                assert(self@.fb =~= Seq::new(FB_SIZE as nat, |q: int| 0u8));
                assert(self@ =~= spec_exec_sys(old(self)@, op).unwrap());
            }
            Ok(())
        } else if op == 0x00EE {
            match self.stack.pop() {
                None => Err(Chip8Error::StackUnderflow),
                Some(addr) => {
                    self.pc = addr;
                    Ok(())
                },
            }
        } else {
            Err(Chip8Error::UnknownOpcode { opcode: op, pc: self.pc })
        }
    }

    /// The 0x8 family: moves, bitwise operations, add/sub with flags,
    /// shifts.
    fn exec_alu(&mut self, op: u16) -> (res: Result<(), Chip8Error>)
        requires
            old(self).wf(),
            old(self).pc + 1 < MEM_SIZE,
            op >> 12 == 0x8,
        ensures
            final(self).wf(),
            (match spec_exec_alu(old(self)@, op) {
                Ok(m1) => res == Ok::<(), Chip8Error>(()) && final(self)@ == m1,
                Err(e) => res == Err::<(), Chip8Error>(e) && final(self)@ == old(self)@,
            }),
    {
        proof {
            lemma_op_fields(op);
        }
        let x: usize = ((op >> 8) & 0xF) as usize;
        let y: usize = ((op >> 4) & 0xF) as usize;
        let k: u16 = op & 0xF;
        let a: u8 = self.v[x];
        let b: u8 = self.v[y];
        if k == 0x0 {
            self.v.set(x, b);
        } else if k == 0x1 {
            self.v.set(x, a | b);
        } else if k == 0x2 {
            self.v.set(x, a & b);
        } else if k == 0x3 {
            self.v.set(x, a ^ b);
        } else if k == 0x4 {
            let s: u16 = a as u16 + b as u16;
            self.v.set(x, (s % 256) as u8);
            if s > 255 {
                self.v.set(15, 1);
            } else {
                self.v.set(15, 0);
            }
        } else if k == 0x5 {
            let d: u16 = (a as u16 + 256) - b as u16;
            self.v.set(x, (d % 256) as u8);
            if a >= b {
                self.v.set(15, 1);
            } else {
                self.v.set(15, 0);
            }
            proof {
                assert(d % 256 == (a - b) % 256);
            }
        } else if k == 0x6 {
            self.v.set(15, b & 1);
            let b2: u8 = self.v[y];
            self.v.set(x, b2 >> 1u8);
        } else if k == 0x7 {
            let d: u16 = (b as u16 + 256) - a as u16;
            self.v.set(x, (d % 256) as u8);
            if b >= a {
                self.v.set(15, 1);
            } else {
                self.v.set(15, 0);
            }
            proof {
                assert(d % 256 == (b - a) % 256);
            }
        } else if k == 0xE {
            self.v.set(15, (b & 0x80) >> 7u8);
            let b2: u8 = self.v[y];
            self.v.set(x, b2 << 1u8);
        } else {
            return Err(Chip8Error::UnknownOpcode { opcode: op, pc: self.pc });
        }
        self.pc += 2;
        Ok(())
    }

    /// The 0xE family: skips on the state of the key named by VX.
    fn exec_key(&mut self, op: u16) -> (res: Result<(), Chip8Error>)
        requires
            old(self).wf(),
            old(self).pc + 1 < MEM_SIZE,
            op >> 12 == 0xE,
        ensures
            final(self).wf(),
            (match spec_exec_key(old(self)@, op) {
                Ok(m1) => res == Ok::<(), Chip8Error>(()) && final(self)@ == m1,
                Err(e) => res == Err::<(), Chip8Error>(e) && final(self)@ == old(self)@,
            }),
    {
        proof {
            lemma_op_fields(op);
        }
        let x: usize = ((op >> 8) & 0xF) as usize;
        let nn: u8 = (op & 0xFF) as u8;
        let key: u8 = self.v[x];
        if nn == 0x9E {
            if key >= 16 {
                return Err(Chip8Error::KeyOutOfRange { key });
            }
            if self.keys[key as usize] {
                self.keys.set(key as usize, false);
                self.pc += 2;
            }
            self.pc += 2;
            Ok(())
        } else if nn == 0xA1 {
            if key >= 16 {
                return Err(Chip8Error::KeyOutOfRange { key });
            }
            if !self.keys[key as usize] {
                self.pc += 2;
            }
            self.pc += 2;
            Ok(())
        } else {
            Err(Chip8Error::UnknownOpcode { opcode: op, pc: self.pc })
        }
    }

    /// The draw instruction DXYN: XOR-blit with wraparound and collision
    /// flag.
    fn exec_draw(&mut self, op: u16) -> (res: Result<(), Chip8Error>)
        requires
            old(self).wf(),
            old(self).pc + 1 < MEM_SIZE,
            op >> 12 == 0xD,
        ensures
            final(self).wf(),
            (match spec_exec_draw(old(self)@, op) {
                Ok(m1) => res == Ok::<(), Chip8Error>(()) && final(self)@ == m1,
                Err(e) => res == Err::<(), Chip8Error>(e) && final(self)@ == old(self)@,
            }),
    {
        proof {
            lemma_op_fields(op);
        }
        let x: usize = ((op >> 8) & 0xF) as usize;
        let y: usize = ((op >> 4) & 0xF) as usize;
        let n: usize = (op & 0xF) as usize;
        if self.i + n > MEM_SIZE {
            return Err(Chip8Error::AddressOutOfRange { addr: self.i });
        }
        let vx: u8 = self.v[x];
        let vy: u8 = self.v[y];
        let mut hit: bool = false;
        let mut row: usize = 0;
        while row < n
            invariant
                old(self).wf(),
                row <= n,
                n < 16,
                old(self).i + n <= MEM_SIZE,
                vx == old(self)@.v[((op >> 8) & 0xF) as int],
                vy == old(self)@.v[((op >> 4) & 0xF) as int],
                self@ == (MachineModel { fb: self@.fb, ..old(self)@ }),
                self.framebuffer@.len() == FB_SIZE,
                forall|p: int|
                    0 <= p < FB_SIZE ==> self.framebuffer@[p] == 0 || self.framebuffer@[p] == 1,
                (self.framebuffer@ == blit_sprite(
                    old(self)@.fb,
                    old(self)@.mem,
                    old(self)@.i as int,
                    vx,
                    vy,
                    row as int,
                ).0),
                (hit == blit_sprite(
                    old(self)@.fb,
                    old(self)@.mem,
                    old(self)@.i as int,
                    vx,
                    vy,
                    row as int,
                ).1),
            decreases n - row,
        {
            let b: u8 = self.mem[self.i + row];
            let ghost fb_row_start = self.framebuffer@;
            let ghost hit_row_start = hit;
            let mut col: usize = 0;
            while col < 8
                invariant
                    old(self).wf(),
                    col <= 8,
                    row < n,
                    n < 16,
                    old(self).i + n <= MEM_SIZE,
                    self@ == (MachineModel { fb: self@.fb, ..old(self)@ }),
                    self.framebuffer@.len() == FB_SIZE,
                    fb_row_start.len() == FB_SIZE,
                    b == old(self)@.mem[old(self)@.i + row],
                    forall|p: int|
                        0 <= p < FB_SIZE ==> self.framebuffer@[p] == 0 || self.framebuffer@[p]
                            == 1,
                    (self.framebuffer@ == blit_row(
                        fb_row_start,
                        hit_row_start,
                        vx,
                        vy,
                        row as int,
                        b,
                        col as int,
                    ).0),
                    (hit == blit_row(
                        fb_row_start,
                        hit_row_start,
                        vx,
                        vy,
                        row as int,
                        b,
                        col as int,
                    ).1),
                decreases 8 - col,
            {
                let sh: u8 = (7 - col) as u8;
                let bit: u8 = (b >> sh) & 1;
                let xc: usize = (vx as usize + col) % 64;
                let yc: usize = (vy as usize + row) % 32;
                let idx: usize = xc + yc * 64;
                proof {
                    lemma_sbit_bounds(b, col as int);
                    assert(bit == sbit(b, col as int));
                    assert(idx == pix_idx(vx, vy, row as int, col as int));
                    assert(idx < FB_SIZE);
                }
                let px: u8 = self.framebuffer[idx];
                if px == 1 && bit == 1 {
                    hit = true;
                }
                self.framebuffer.set(idx, px ^ bit);
                proof {
                    assert(px ^ bit == 0 || px ^ bit == 1) by (bit_vector)
                        requires
                            (px == 0 || px == 1) && (bit == 0 || bit == 1),
                    ;
                }
                col += 1;
            }
            row += 1;
        }
        if hit {
            self.v.set(15, 1);
        } else {
            self.v.set(15, 0);
        }
        self.draw = true;
        self.pc += 2;
        proof {
            assert(self@ =~= spec_exec_draw(old(self)@, op).unwrap());
        }
        Ok(())
    }

    /// The 0xF family: timers, key wait, address arithmetic, font
    /// addressing, decimal conversion, block transfers.
    fn exec_f(&mut self, op: u16) -> (res: Result<(), Chip8Error>)
        requires
            old(self).wf(),
            old(self).pc + 1 < MEM_SIZE,
            op >> 12 == 0xF,
        ensures
            final(self).wf(),
            (match spec_exec_f(old(self)@, op) {
                Ok(m1) => res == Ok::<(), Chip8Error>(()) && final(self)@ == m1,
                Err(e) => res == Err::<(), Chip8Error>(e) && final(self)@ == old(self)@,
            }),
    {
        proof {
            lemma_op_fields(op);
        }
        let x: usize = ((op >> 8) & 0xF) as usize;
        let nn: u8 = (op & 0xFF) as u8;
        if nn == 0x07 {
            self.v.set(x, self.delay_timer);
            self.pc += 2;
            Ok(())
        } else if nn == 0x0A {
            let mut k: usize = 0;
            while k < 16 && !self.keys[k]
                invariant
                    old(self).wf(),
                    k <= 16,
                    self@ == old(self)@,
                    first_pressed(old(self)@.keys) == first_pressed_from(self@.keys, k as int),
                decreases 16 - k,
            {
                k += 1;
            }
            if k < 16 {
                self.v.set(x, k as u8);
                self.keys.set(k, false);
                self.pc += 2;
            }
            Ok(())
        } else if nn == 0x15 {
            self.delay_timer = self.v[x];
            self.pc += 2;
            Ok(())
        } else if nn == 0x18 {
            self.sound_timer = self.v[x];
            self.pc += 2;
            Ok(())
        } else if nn == 0x1E {
            self.i = (self.i + self.v[x] as usize) % 0x10000;
            self.pc += 2;
            Ok(())
        } else if nn == 0x29 {
            self.i = self.v[x] as usize * 5;
            self.pc += 2;
            Ok(())
        } else if nn == 0x33 {
            if self.i + 2 >= MEM_SIZE {
                return Err(Chip8Error::AddressOutOfRange { addr: self.i });
            }
            let vx: u8 = self.v[x];
            self.mem.set(self.i, vx / 100);
            self.mem.set(self.i + 1, (vx / 10) % 10);
            self.mem.set(self.i + 2, vx % 10);
            self.pc += 2;
            Ok(())
        } else if nn == 0x55 {
            if self.i + x >= MEM_SIZE {
                return Err(Chip8Error::AddressOutOfRange { addr: self.i });
            }
            let mut j: usize = 0;
            while j < x + 1
                invariant
                    old(self).wf(),
                    self.wf(),
                    x < 16,
                    j <= x + 1,
                    old(self).i + x < MEM_SIZE,
                    self@ == (MachineModel { mem: self@.mem, ..old(self)@ }),
                    self.mem@ == regs_to_mem(
                        old(self)@.mem,
                        old(self)@.v,
                        old(self)@.i as int,
                        j as int,
                    ),
                decreases x + 1 - j,
            {
                self.mem.set(self.i + j, self.v[j]);
                j += 1;
            }
            self.i = self.i + x + 1;
            self.pc += 2;
            Ok(())
        } else if nn == 0x65 {
            if self.i + x >= MEM_SIZE {
                return Err(Chip8Error::AddressOutOfRange { addr: self.i });
            }
            let mut j: usize = 0;
            while j < x + 1
                invariant
                    old(self).wf(),
                    self.wf(),
                    x < 16,
                    j <= x + 1,
                    old(self).i + x < MEM_SIZE,
                    self@ == (MachineModel { v: self@.v, ..old(self)@ }),
                    self.v@ == regs_from_mem(
                        old(self)@.v,
                        old(self)@.mem,
                        old(self)@.i as int,
                        j as int,
                    ),
                decreases x + 1 - j,
            {
                self.v.set(j, self.mem[self.i + j]);
                j += 1;
            }
            self.i = self.i + x + 1;
            self.pc += 2;
            Ok(())
        } else {
            Err(Chip8Error::UnknownOpcode { opcode: op, pc: self.pc })
        }
    }
}

} // verus!
