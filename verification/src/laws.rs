//! General properties of the instruction semantics, stated and proved over
//! the model of `model.rs`.

use vstd::prelude::*;
use crate::model::{
    first_pressed, first_pressed_from, m_wf, op_n, op_x, op_y, lemma_op_fields, regs_from_mem,
    regs_to_mem, spec_exec_alu, spec_exec_draw, spec_exec_f, spec_exec_sys, spec_fetch, spec_halt,
    spec_step, Chip8Error, MachineModel, FB_SIZE, MEM_SIZE,
};
use crate::draw::{lemma_draw_twice_restores, pix_idx, sbit};

verus! {

/// The add instruction 8XY4: for any register values `a` and `b`, VX becomes
/// `(a + b) mod 256` and VF becomes 1 exactly when the true sum exceeds 255.
/// When X is 15, VX and VF are one cell and the flag write wins, so that
/// case is excluded here.
pub proof fn lemma_add_sets_carry(m: MachineModel, op: u16)
    requires
        m_wf(m),
        op >> 12 == 0x8,
        op & 0xF == 0x4,
        op_x(op) != 15,
    ensures
        spec_exec_alu(m, op) is Ok,
        ({
            let a = m.v[op_x(op)];
            let b = m.v[op_y(op)];
            let m1 = spec_exec_alu(m, op).unwrap();
            &&& m1.v[op_x(op)] == (a + b) % 256
            &&& (m1.v[15] == 1 <==> a + b > 255)
            &&& (m1.v[15] == 0 <==> a + b <= 255)
        }),
{
    lemma_op_fields(op);
}

/// The subtract instruction 8XY5: for any register values `a` and `b`, VX
/// becomes `(a - b) mod 256` and VF becomes 1 exactly when no borrow occurs,
/// that is, when `a >= b`.  As above, X = 15 is the flag cell itself and is
/// excluded.
pub proof fn lemma_sub_sets_borrow(m: MachineModel, op: u16)
    requires
        m_wf(m),
        op >> 12 == 0x8,
        op & 0xF == 0x5,
        op_x(op) != 15,
    ensures
        spec_exec_alu(m, op) is Ok,
        ({
            let a = m.v[op_x(op)];
            let b = m.v[op_y(op)];
            let m1 = spec_exec_alu(m, op).unwrap();
            &&& m1.v[op_x(op)] == (a - b) % 256
            &&& (m1.v[15] == 1 <==> a >= b)
            &&& (m1.v[15] == 0 <==> a < b)
        }),
{
    lemma_op_fields(op);
}

/// The clear instruction 00E0 zeroes every pixel and does not raise the
/// redraw flag itself.
pub proof fn lemma_clear_screen(m: MachineModel)
    requires
        m_wf(m),
    ensures
        spec_exec_sys(m, 0x00E0) is Ok,
        ({
            let m1 = spec_exec_sys(m, 0x00E0).unwrap();
            &&& m1.fb.len() == FB_SIZE
            &&& (forall|p: int| 0 <= p < FB_SIZE ==> m1.fb[p] == 0)
            &&& m1.draw == m.draw
            &&& m1.pc == m.pc + 2
        }),
{
}

/// After a successful cycle the redraw flag is set exactly when the
/// instruction that ran was a draw instruction DXYN: a cycle clears the flag
/// first, and only the draw instruction raises it.
pub proof fn lemma_redraw_flag(m: MachineModel, rand: u8)
    requires
        spec_step(m, rand) is Ok,
    ensures
        spec_step(m, rand).unwrap().0.draw <==> spec_fetch(m) >> 12 == 0xD,
{
    let m0 = spec_halt(m);
    let op = spec_fetch(m);
    assert(spec_fetch(m0) == op);
    lemma_op_fields(op);
}

/// Executing the same draw instruction DXYN twice restores the framebuffer
/// exactly, and both executions raise the redraw flag.  The second
/// execution's collision flag is 1 exactly when some 1 bit of the sprite
/// lands on a pixel the first draw turned on, that is, one that was 0
/// before.  VF holds the collision flag after a draw, so coordinate
/// registers X and Y must not be the flag register itself.
pub proof fn lemma_draw_instruction_twice(m: MachineModel, op: u16)
    requires
        m_wf(m),
        op >> 12 == 0xD,
        op_x(op) != 15,
        op_y(op) != 15,
        m.i + op_n(op) <= MEM_SIZE,
    ensures
        spec_exec_draw(m, op) is Ok,
        ({
            let m1 = spec_exec_draw(m, op).unwrap();
            let m2 = spec_exec_draw(m1, op).unwrap();
            let vx = m.v[op_x(op)];
            let vy = m.v[op_y(op)];
            &&& spec_exec_draw(m1, op) is Ok
            &&& m1.draw
            &&& m2.draw
            &&& m2.fb == m.fb
            &&& (m2.v[15] == 1 <==> exists|r: int, c: int|
                0 <= r < op_n(op) && 0 <= c < 8 && m.fb[#[trigger] pix_idx(vx, vy, r, c)] == 0
                    && sbit(m.mem[m.i + r], c) == 1)
        }),
{
    lemma_op_fields(op);
    let x = op_x(op);
    let y = op_y(op);
    let n = op_n(op);
    let vx = m.v[x];
    let vy = m.v[y];
    let m1 = spec_exec_draw(m, op).unwrap();
    assert(m1.v[x] == vx && m1.v[y] == vy);
    lemma_draw_twice_restores(m.fb, m.mem, m.i as int, vx, vy, n);
}

/// Storing V0..=VX at I (FX55) then loading the same region back (FX65, with
/// I restored in between, as a program would with ANNN) yields the identical
/// register file, and I advances by X + 1 in both directions.
pub proof fn lemma_store_load_round_trip(m: MachineModel, store_op: u16, load_op: u16)
    requires
        m_wf(m),
        store_op >> 12 == 0xF,
        store_op & 0xFF == 0x55,
        load_op >> 12 == 0xF,
        load_op & 0xFF == 0x65,
        op_x(store_op) == op_x(load_op),
        m.i + op_x(store_op) < MEM_SIZE,
    ensures
        spec_exec_f(m, store_op) is Ok,
        ({
            let x = op_x(store_op);
            let m1 = spec_exec_f(m, store_op).unwrap();
            let m1r = MachineModel { i: m.i, ..m1 };
            &&& m1.i == m.i + x + 1
            &&& m1.v == m.v
            &&& spec_exec_f(m1r, load_op) is Ok
            &&& spec_exec_f(m1r, load_op).unwrap().i == m.i + x + 1
            &&& spec_exec_f(m1r, load_op).unwrap().v == m.v
        }),
{
    lemma_op_fields(store_op);
    lemma_op_fields(load_op);
    let x = op_x(store_op);
    let m1 = spec_exec_f(m, store_op).unwrap();
    let m1r = MachineModel { i: m.i, ..m1 };
    let mem1 = regs_to_mem(m.mem, m.v, m.i as int, x + 1);
    lemma_regs_to_mem_props(m.mem, m.v, m.i as int, x + 1);
    assert(m1r.mem == mem1);
    let v2 = regs_from_mem(m.v, mem1, m.i as int, x + 1);
    lemma_regs_from_mem_props(m.v, mem1, m.i as int, x + 1);
    assert(v2 =~= m.v);
    assert(spec_exec_f(m1r, load_op).unwrap().v == v2);
}

/// What FX55 writes: the first `cnt` registers land at `base`, everything
/// else in memory is untouched.
pub proof fn lemma_regs_to_mem_props(mem: Seq<u8>, v: Seq<u8>, base: int, cnt: int)
    requires
        0 <= base,
        0 <= cnt,
        base + cnt <= mem.len(),
    ensures
        regs_to_mem(mem, v, base, cnt).len() == mem.len(),
        forall|j: int| 0 <= j < cnt ==> regs_to_mem(mem, v, base, cnt)[base + j] == v[j],
        forall|j: int|
            0 <= j < mem.len() && !(base <= j < base + cnt) ==> regs_to_mem(mem, v, base, cnt)[j]
                == mem[j],
    decreases cnt,
{
    if cnt > 0 {
        lemma_regs_to_mem_props(mem, v, base, cnt - 1);
        assert forall|j: int| 0 <= j < cnt implies regs_to_mem(mem, v, base, cnt)[base + j]
            == v[j] by {
            if j < cnt - 1 {
                assert(base + j != base + cnt - 1);
            }
        }
    }
}

/// What FX65 reads: the first `cnt` registers come from memory at `base`,
/// the higher registers keep their values.
pub proof fn lemma_regs_from_mem_props(v: Seq<u8>, mem: Seq<u8>, base: int, cnt: int)
    requires
        0 <= cnt <= v.len(),
    ensures
        regs_from_mem(v, mem, base, cnt).len() == v.len(),
        forall|j: int| 0 <= j < cnt ==> regs_from_mem(v, mem, base, cnt)[j] == mem[base + j],
        forall|j: int| cnt <= j < v.len() ==> regs_from_mem(v, mem, base, cnt)[j] == v[j],
    decreases cnt,
{
    if cnt > 0 {
        lemma_regs_from_mem_props(v, mem, base, cnt - 1);
    }
}

/// The random byte matters only to the CXNN instruction: on every other
/// opcode a cycle is deterministic, whatever byte the generator produced.
pub proof fn lemma_step_random_irrelevant(m: MachineModel, r1: u8, r2: u8)
    requires
        m.pc + 1 < MEM_SIZE ==> spec_fetch(m) >> 12 != 0xC,
    ensures
        spec_step(m, r1) == spec_step(m, r2),
{
    let m0 = spec_halt(m);
    assert(spec_fetch(m0) == spec_fetch(m));
    lemma_op_fields(spec_fetch(m));
}

/// A return instruction 00EE on an empty stack is reported as a stack
/// underflow, never silently ignored.
pub proof fn lemma_return_on_empty_stack(m: MachineModel, rand: u8)
    requires
        m.pc + 1 < MEM_SIZE,
        m.stack.len() == 0,
        spec_fetch(m) == 0x00EE,
    ensures
        spec_step(m, rand) == Err::<(MachineModel, bool), Chip8Error>(Chip8Error::StackUnderflow),
{
    assert(0x00EEu16 >> 12 == 0x0) by (bit_vector);
}

/// Which key the wait instruction FX0A reports, looking from position `s`
/// on: none when nothing at or after `s` is pressed, else the first pressed
/// key.
pub proof fn lemma_first_pressed_from(keys: Seq<bool>, s: int)
    requires
        keys.len() == 16,
        0 <= s <= 16,
    ensures
        match first_pressed_from(keys, s) {
            None => forall|j: int| s <= j < 16 ==> !keys[j],
            Some(k) => s <= k < 16 && keys[k as int] && (forall|j: int| s <= j < k ==> !keys[j]),
        },
    decreases 16 - s,
{
    if s < 16 && !keys[s] {
        lemma_first_pressed_from(keys, s + 1);
    }
}

/// With no key pressed, a cycle on FX0A leaves the program counter, the
/// registers, the keys, the framebuffer and the stack untouched: the machine
/// makes no progress and will poll again on the next cycle.
pub proof fn lemma_wait_key_blocks(m: MachineModel, rand: u8, op: u16)
    requires
        m_wf(m),
        m.pc + 1 < MEM_SIZE,
        spec_fetch(m) == op,
        op >> 12 == 0xF,
        op & 0xFF == 0x0A,
        forall|k: int| 0 <= k < 16 ==> !m.keys[k],
    ensures
        spec_step(m, rand) is Ok,
        ({
            let m1 = spec_step(m, rand).unwrap().0;
            &&& m1.pc == m.pc
            &&& m1.v == m.v
            &&& m1.keys == m.keys
            &&& m1.fb == m.fb
            &&& m1.stack == m.stack
        }),
{
    lemma_op_fields(op);
    lemma_first_pressed_from(m.keys, 0);
    if first_pressed(m.keys) is Some {
        let k = first_pressed(m.keys).unwrap();
        assert(m.keys[k as int]);
    }
    assert(spec_fetch(spec_halt(m)) == op);
}

/// With at least one key pressed, a cycle on FX0A stores the lowest-numbered
/// pressed key in VX, clears that key's flag, and advances the program
/// counter normally.
pub proof fn lemma_wait_key_proceeds(m: MachineModel, rand: u8, op: u16)
    requires
        m_wf(m),
        m.pc + 1 < MEM_SIZE,
        spec_fetch(m) == op,
        op >> 12 == 0xF,
        op & 0xFF == 0x0A,
        exists|k: int| 0 <= k < 16 && m.keys[k],
    ensures
        spec_step(m, rand) is Ok,
        first_pressed(m.keys) is Some,
        ({
            let k = first_pressed(m.keys).unwrap();
            let m1 = spec_step(m, rand).unwrap().0;
            &&& 0 <= k < 16
            &&& m.keys[k as int]
            &&& (forall|j: int| 0 <= j < k ==> !m.keys[j])
            &&& m1.pc == m.pc + 2
            &&& m1.v == m.v.update(op_x(op), k)
            &&& m1.keys == m.keys.update(k as int, false)
        }),
{
    lemma_op_fields(op);
    lemma_first_pressed_from(m.keys, 0);
    if first_pressed(m.keys) is None {
        let w = choose|k: int| 0 <= k < 16 && m.keys[k];
        assert(!m.keys[w]);
    }
    assert(spec_fetch(spec_halt(m)) == op);
}

} // verus!
