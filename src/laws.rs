//! Properties of the instruction set, stated over the model and proved.

use vstd::prelude::*;

use crate::error::Error;
use crate::model::{
    bit, lemma_register_fields, op_group, op_kk, op_n, op_x, op_y, rows_on_screen, sprite_line, step, well_formed, xorshift, low_byte,
    MachineView, FLAG, MEM_SIZE, NUM_ROWS,
};

verus! {

/// Runs `instrs` one after another from `s`, stopping at the first error.
pub open spec fn run(s: MachineView, instrs: Seq<u16>) -> Result<MachineView, Error>
    decreases instrs.len(),
{
    if instrs.len() == 0 {
        Ok(s)
    } else {
        match step(s, instrs[0]) {
            Ok(t) => run(t, instrs.drop_first()),
            Err(e) => Err(e),
        }
    }
}

/// The values that the `CXKK` instructions among `instrs` write, in order,
/// when `instrs` run from `s`.
pub open spec fn random_writes(s: MachineView, instrs: Seq<u16>) -> Seq<u8>
    decreases instrs.len(),
{
    if instrs.len() == 0 {
        Seq::empty()
    } else {
        match step(s, instrs[0]) {
            Ok(t) => {
                let rest = random_writes(t, instrs.drop_first());
                if op_group(instrs[0]) == 0xC {
                    seq![t.reg[op_x(instrs[0])]] + rest
                } else {
                    rest
                }
            },
            Err(_) => Seq::empty(),
        }
    }
}

/// Every step keeps the sizes of memory, registers and framebuffer.
pub proof fn lemma_step_well_formed(s: MachineView, instr: u16)
    requires
        well_formed(s),
    ensures
        step(s, instr) is Ok ==> well_formed(step(s, instr)->Ok_0),
{
    lemma_register_fields(instr);
    if instr == 0x00E0 && step(s, instr) is Ok {
        assert(step(s, instr)->Ok_0.fbuf.len() == NUM_ROWS);
    }
}

/// `7XKK` whose sum exceeds 255 leaves the sum minus 256 in register X.
pub proof fn lemma_add_immediate_wraps(s: MachineView, instr: u16)
    requires
        well_formed(s),
        op_group(instr) == 0x7,
        s.reg[op_x(instr)] + op_kk(instr) > 255,
    ensures
        step(s, instr) is Ok,
        step(s, instr)->Ok_0.reg[op_x(instr)] == s.reg[op_x(instr)] + op_kk(instr) - 256,
{
    lemma_register_fields(instr);
}

/// `8XY4` whose sum exceeds 255 sets the carry flag to 1 and, unless X is the
/// flag register itself, leaves the sum minus 256 in register X.
pub proof fn lemma_add_registers_wraps(s: MachineView, instr: u16)
    requires
        well_formed(s),
        op_group(instr) == 0x8,
        op_n(instr) == 0x4,
        s.reg[op_x(instr)] + s.reg[op_y(instr)] > 255,
    ensures
        step(s, instr) is Ok,
        step(s, instr)->Ok_0.reg[FLAG as int] == 1,
        op_x(instr) != FLAG ==> step(s, instr)->Ok_0.reg[op_x(instr)] == s.reg[op_x(instr)]
            + s.reg[op_y(instr)] - 256,
{
    lemma_register_fields(instr);
}

/// `8XY5` and `8XY7` set the flag to 1 exactly when the minuend (X for `5`, Y
/// for `7`), as it was before, is greater than the subtrahend; unless X is the
/// flag register, X receives the difference modulo 256 whatever the flag.
pub proof fn lemma_subtract_borrow(s: MachineView, instr: u16)
    requires
        well_formed(s),
        op_group(instr) == 0x8,
        op_n(instr) == 0x5 || op_n(instr) == 0x7,
    ensures
        ({
            let a = s.reg[op_x(instr)];
            let b = s.reg[op_y(instr)];
            let (m, d) = if op_n(instr) == 0x5 { (a, b) } else { (b, a) };
            &&& step(s, instr) is Ok
            &&& step(s, instr)->Ok_0.reg[FLAG as int] == bit(m > d)
            &&& op_x(instr) != FLAG ==> step(s, instr)->Ok_0.reg[op_x(instr)] == (m - d) % 256
        }),
{
    lemma_register_fields(instr);
}

/// `00E0` leaves every framebuffer row zero.
pub proof fn lemma_clear_screen(s: MachineView)
    requires
        well_formed(s),
    ensures
        step(s, 0x00E0) is Ok,
        step(s, 0x00E0)->Ok_0.fbuf == Seq::new(NUM_ROWS as nat, |r: int| 0u64),
{
    assert(op_group(0x00E0) == 0) by (bit_vector);
}

/// A `2NNN` call followed by a `00EE` return resumes right after the call, with
/// the call stack as it was.
pub proof fn lemma_call_then_return(s: MachineView, instr: u16)
    requires
        well_formed(s),
        s.pc + 1 < MEM_SIZE,
        op_group(instr) == 0x2,
    ensures
        step(s, instr) is Ok,
        step(step(s, instr)->Ok_0, 0x00EE) is Ok,
        step(step(s, instr)->Ok_0, 0x00EE)->Ok_0.pc == s.pc + 2,
        step(step(s, instr)->Ok_0, 0x00EE)->Ok_0.stack == s.stack,
{
    assert(op_group(0x00EE) == 0) by (bit_vector);
    let t = step(s, instr)->Ok_0;
    assert(t.stack.drop_last() =~= s.stack);
}

/// `00EE` on an empty call stack is `PoppedEmptyStack`; `tick` then leaves the
/// machine, program counter included, as it was.
pub proof fn lemma_return_on_empty_stack(s: MachineView)
    requires
        s.stack.len() == 0,
    ensures
        step(s, 0x00EE) == Err::<MachineView, Error>(Error::PoppedEmptyStack),
{
    assert(op_group(0x00EE) == 0) by (bit_vector);
}

/// A `5XY_` word whose low nibble is not zero is an undefined instruction.
pub proof fn lemma_compare_low_nibble_undefined(s: MachineView, instr: u16)
    requires
        op_group(instr) == 0x5,
        op_n(instr) != 0,
    ensures
        step(s, instr) == Err::<MachineView, Error>(Error::UndefinedOp(instr)),
{
}

/// The random state moves only on `CXKK`, by one xorshift step, and `CXKK`
/// writes the low byte of the new state masked by `KK`.
pub proof fn lemma_random_state(s: MachineView, instr: u16)
    requires
        well_formed(s),
    ensures
        step(s, instr) is Ok ==> step(s, instr)->Ok_0.seed == if op_group(instr) == 0xC {
            xorshift(s.seed)
        } else {
            s.seed
        },
        op_group(instr) == 0xC ==> step(s, instr) is Ok && step(s, instr)->Ok_0.reg[op_x(instr)]
            == low_byte(xorshift(s.seed)) & op_kk(instr),
{
    lemma_register_fields(instr);
}

/// Two machines with the same random state, driven through the same
/// instruction sequence, draw the same sequence of random values.
pub proof fn lemma_same_seed_same_random_values(a: MachineView, b: MachineView, instrs: Seq<u16>)
    requires
        well_formed(a),
        well_formed(b),
        a.seed == b.seed,
        run(a, instrs) is Ok,
        run(b, instrs) is Ok,
    ensures
        random_writes(a, instrs) == random_writes(b, instrs),
    decreases instrs.len(),
{
    if instrs.len() > 0 {
        let instr = instrs[0];
        lemma_random_state(a, instr);
        lemma_random_state(b, instr);
        lemma_step_well_formed(a, instr);
        lemma_step_well_formed(b, instr);
        lemma_same_seed_same_random_values(
            step(a, instr)->Ok_0,
            step(b, instr)->Ok_0,
            instrs.drop_first(),
        );
    }
}

/// Drawing the same sprite at the same place twice without clearing gives the
/// framebuffer back, unless the flag register is one of the coordinates. When
/// the first drawing landed on blank rows, the second reports a collision
/// exactly when its last row holds a set pixel.
pub proof fn lemma_draw_twice(s: MachineView, instr: u16)
    requires
        well_formed(s),
        op_group(instr) == 0xD,
        op_x(instr) != FLAG,
        op_y(instr) != FLAG,
    ensures
        ({
            let t = step(s, instr)->Ok_0;
            let u = step(t, instr)->Ok_0;
            let col = (s.reg[op_x(instr)] % 64) as u64;
            let row = (s.reg[op_y(instr)] % 32) as int;
            let count = rows_on_screen(op_n(instr) as int, row);
            &&& step(s, instr) is Ok
            &&& step(t, instr) is Ok
            &&& u.fbuf == s.fbuf
            &&& count > 0 && (forall|r: int| row <= r < row + count ==> s.fbuf[r] == 0u64)
                ==> u.reg[FLAG as int] == bit(sprite_line(s.mem[s.i + count - 1], col) != 0)
        }),
{
    lemma_register_fields(instr);
    let t = step(s, instr)->Ok_0;
    let u = step(t, instr)->Ok_0;
    assert forall|a: u64, l: u64| (#[trigger] ((a ^ l) ^ l)) == a by {
        assert((a ^ l) ^ l == a) by (bit_vector);
    }
    assert forall|l: u64| (#[trigger] ((0u64 ^ l) & l) != 0) == (l != 0) by {
        assert(((0u64 ^ l) & l != 0) == (l != 0)) by (bit_vector);
    }
    assert(u.fbuf =~= s.fbuf);
}

} // verus!
