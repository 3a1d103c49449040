//! The mathematical model of the machine: its state as plain sequences and
//! integers, and the effect of one instruction on that state.

use vstd::prelude::*;

use crate::error::Error;

verus! {

/// Size of the address space in bytes.
pub const MEM_SIZE: usize = 0x1000;

/// Number of general-purpose registers.
pub const NUM_REGS: usize = 0x10;

/// Number of framebuffer rows; each row is one 64-bit mask.
pub const NUM_ROWS: usize = 0x20;

/// Address at which programs are loaded and execution starts.
pub const PROGRAM_START: u16 = 0x200;

/// Largest program that fits between `PROGRAM_START` and the end of memory.
pub const MAX_PROGRAM_LEN: usize = 0xE00;

/// Index of the flag register.
pub const FLAG: usize = 0xF;

/// The whole machine state, as the contracts see it.
#[verifier::ext_equal]
pub ghost struct MachineView {
    pub mem: Seq<u8>,
    pub reg: Seq<u8>,
    pub i: u16,
    pub pc: u16,
    pub stack: Seq<u16>,
    pub fbuf: Seq<u64>,
    pub keys: u16,
    pub delay: u8,
    pub sound: u8,
    pub seed: u64,
}

/// The sizes that every machine state has.
pub open spec fn well_formed(s: MachineView) -> bool {
    &&& s.mem.len() == MEM_SIZE
    &&& s.reg.len() == NUM_REGS
    &&& s.fbuf.len() == NUM_ROWS
}

/// The sixteen hexadecimal digit glyphs, five bytes each, digit `d` at `5 * d`.
pub open spec fn glyphs() -> Seq<u8> {
    seq![
        0xF0, 0x90, 0x90, 0x90, 0xF0,
        0x20, 0x60, 0x20, 0x20, 0x70,
        0xF0, 0x10, 0xF0, 0x80, 0xF0,
        0xF0, 0x10, 0xF0, 0x10, 0xF0,
        0x90, 0x90, 0xF0, 0x10, 0x10,
        0xF0, 0x80, 0xF0, 0x10, 0xF0,
        0xF0, 0x80, 0xF0, 0x90, 0xF0,
        0xF0, 0x10, 0x20, 0x40, 0x40,
        0xF0, 0x90, 0xF0, 0x90, 0xF0,
        0xF0, 0x90, 0xF0, 0x10, 0xF0,
        0xF0, 0x90, 0xF0, 0x90, 0x90,
        0xE0, 0x90, 0xE0, 0x90, 0xE0,
        0xF0, 0x80, 0x80, 0x80, 0xF0,
        0xE0, 0x90, 0x90, 0x90, 0xE0,
        0xF0, 0x80, 0xF0, 0x80, 0xF0,
        0xF0, 0x80, 0xF0, 0x80, 0x80,
    ]
}

/// A freshly initialised machine: glyphs at the bottom of zeroed memory,
/// everything else zero or empty, and the given random seed.
pub open spec fn initial(seed: u64) -> MachineView {
    MachineView {
        mem: Seq::new(MEM_SIZE as nat, |a: int| if a < glyphs().len() { glyphs()[a] } else { 0u8 }),
        reg: Seq::new(NUM_REGS as nat, |r: int| 0u8),
        i: 0,
        pc: 0,
        stack: Seq::empty(),
        fbuf: Seq::new(NUM_ROWS as nat, |r: int| 0u64),
        keys: 0,
        delay: 0,
        sound: 0,
        seed,
    }
}

/// `s` with `rom` copied to memory at `PROGRAM_START` and the program counter there.
pub open spec fn loaded(s: MachineView, rom: Seq<u8>) -> MachineView {
    MachineView {
        mem: Seq::new(
            s.mem.len(),
            |a: int|
                if PROGRAM_START <= a < PROGRAM_START + rom.len() {
                    rom[a - PROGRAM_START]
                } else {
                    s.mem[a]
                },
        ),
        pc: PROGRAM_START,
        ..s
    }
}

/// The instruction word at the program counter: two bytes, big-endian.
pub open spec fn fetch(s: MachineView) -> u16 {
    (s.mem[s.pc as int] as u16 * 256 + s.mem[s.pc + 1] as u16) as u16
}

/// The top nibble, which selects the instruction group.
pub open spec fn op_group(instr: u16) -> u16 {
    instr >> 12u16
}

/// The second nibble: register `X`.
pub open spec fn op_x(instr: u16) -> int {
    ((instr >> 8u16) & 0xFu16) as int
}

/// The third nibble: register `Y`.
pub open spec fn op_y(instr: u16) -> int {
    ((instr >> 4u16) & 0xFu16) as int
}

/// The register fields of an instruction name one of the sixteen registers.
pub proof fn lemma_register_fields(instr: u16)
    ensures
        0 <= op_x(instr) < 16,
        0 <= op_y(instr) < 16,
{
    assert((instr >> 8u16) & 0xFu16 < 16u16) by (bit_vector);
    assert((instr >> 4u16) & 0xFu16 < 16u16) by (bit_vector);
}

/// The lowest nibble.
pub open spec fn op_n(instr: u16) -> u16 {
    instr & 0xFu16
}

/// The low byte.
pub open spec fn op_kk(instr: u16) -> u8 {
    (instr & 0xFFu16) as u8
}

/// The low twelve bits: an address.
pub open spec fn op_nnn(instr: u16) -> u16 {
    instr & 0xFFFu16
}

/// 8-bit addition modulo 256.
pub open spec fn wrap_add(a: u8, b: u8) -> u8 {
    if a + b > 255 {
        (a + b - 256) as u8
    } else {
        (a + b) as u8
    }
}

/// 8-bit subtraction modulo 256.
pub open spec fn wrap_sub(a: u8, b: u8) -> u8 {
    if a >= b {
        (a - b) as u8
    } else {
        (a - b + 256) as u8
    }
}

/// 1 when the condition holds, else 0.
pub open spec fn bit(c: bool) -> u8 {
    if c {
        1
    } else {
        0
    }
}

/// Whether `op` names an arithmetic/logic instruction of the `8XY_` group.
pub open spec fn alu_defined(op: u16) -> bool {
    op <= 7 || op == 0xE
}

/// The value an `8XY_` instruction writes to register `X`, from `a = reg[X]`
/// and `b = reg[Y]` before the instruction.
pub open spec fn alu_value(op: u16, a: u8, b: u8) -> u8 {
    if op == 0x0 {
        b
    } else if op == 0x1 {
        a | b
    } else if op == 0x2 {
        a & b
    } else if op == 0x3 {
        a ^ b
    } else if op == 0x4 {
        wrap_add(a, b)
    } else if op == 0x5 {
        wrap_sub(a, b)
    } else if op == 0x6 {
        b >> 1u8
    } else if op == 0x7 {
        wrap_sub(b, a)
    } else {
        b << 1u8
    }
}

/// The value an `8XY_` instruction (other than `8XY0`) writes to the flag
/// register after the result.
pub open spec fn alu_flag(op: u16, a: u8, b: u8) -> u8 {
    if op == 0x4 {
        bit(a + b > 255)
    } else if op == 0x5 {
        bit(a > b)
    } else if op == 0x6 {
        b & 1u8
    } else if op == 0x7 {
        bit(b > a)
    } else if op == 0xE {
        b >> 7u8
    } else {
        0
    }
}

/// Registers after an `8XY_` instruction.
pub open spec fn alu_regs(reg: Seq<u8>, op: u16, x: int, y: int) -> Seq<u8> {
    let v = alu_value(op, reg[x], reg[y]);
    if op == 0 {
        reg.update(x, v)
    } else {
        reg.update(x, v).update(FLAG as int, alu_flag(op, reg[x], reg[y]))
    }
}

/// Whether key `k` is down in the mask; only keys 0 to 15 exist.
pub open spec fn key_down(keys: u16, k: u8) -> bool {
    k < 16 && (keys >> (k as u16)) & 1u16 == 1u16
}

/// The lowest key at or above `k` that is down, if any.
pub open spec fn first_key_from(keys: u16, k: int) -> Option<u8>
    decreases 16 - k,
{
    if !(0 <= k < 16) {
        None
    } else if key_down(keys, k as u8) {
        Some(k as u8)
    } else {
        first_key_from(keys, k + 1)
    }
}

/// One xorshift step of the 64-bit random state.
pub open spec fn xorshift(s: u64) -> u64 {
    let a = s ^ (s << 13u64);
    let b = a ^ (a >> 17u64);
    b ^ (b << 5u64)
}

/// The byte a random state yields: its low eight bits.
pub open spec fn low_byte(s: u64) -> u8 {
    (s & 0xFFu64) as u8
}

/// A sprite byte placed as a framebuffer row with its left edge at column
/// `col`; bits past the right edge fall off.
pub open spec fn sprite_line(byte: u8, col: u64) -> u64 {
    ((byte as u64) << 56u64) >> col
}

/// How many of `n` sprite rows starting at `row` lie on screen.
pub open spec fn rows_on_screen(n: int, row: int) -> int {
    if n <= NUM_ROWS - row {
        n
    } else {
        NUM_ROWS - row
    }
}

/// The framebuffer after XOR-drawing `count` sprite rows, read from memory at
/// `addr`, onto rows `row ..` at column `col`.
pub open spec fn drawn(fbuf: Seq<u64>, mem: Seq<u8>, addr: int, col: u64, row: int, count: int) -> Seq<u64> {
    Seq::new(
        fbuf.len(),
        |r: int|
            if row <= r < row + count {
                fbuf[r] ^ sprite_line(mem[addr + r - row], col)
            } else {
                fbuf[r]
            },
    )
}

/// The collision flag of such a drawing: whether its last row hit a set pixel,
/// 0 when nothing was drawn.
pub open spec fn draw_flag(fbuf: Seq<u64>, mem: Seq<u8>, addr: int, col: u64, row: int, count: int) -> u8 {
    if count <= 0 {
        0
    } else {
        bit(fbuf[row + count - 1] & sprite_line(mem[addr + count - 1], col) != 0)
    }
}

/// `s` after a `DXYN` instruction, before the program counter moves.
pub open spec fn draw(s: MachineView, x: int, y: int, n: int) -> MachineView {
    let col = (s.reg[x] % 64) as u64;
    let row = (s.reg[y] % 32) as int;
    let count = rows_on_screen(n, row);
    MachineView {
        fbuf: drawn(s.fbuf, s.mem, s.i as int, col, row, count),
        reg: s.reg.update(FLAG as int, draw_flag(s.fbuf, s.mem, s.i as int, col, row, count)),
        ..s
    }
}

/// `s` with the program counter on the next instruction.
pub open spec fn next(s: MachineView) -> MachineView {
    MachineView { pc: (s.pc + 2) as u16, ..s }
}

/// `s` with the program counter past the next instruction when `c` holds.
pub open spec fn skip_if(s: MachineView, c: bool) -> MachineView {
    MachineView { pc: (s.pc + if c { 4int } else { 2int }) as u16, ..s }
}

/// `s` with register `x` set to `v`.
pub open spec fn set_reg(s: MachineView, x: int, v: u8) -> MachineView {
    MachineView { reg: s.reg.update(x, v), ..s }
}

/// The `FX__` group.
pub open spec fn execute_misc(s: MachineView, instr: u16) -> Result<MachineView, Error> {
    let x = op_x(instr);
    let vx = s.reg[x];
    let kk = op_kk(instr);
    if kk == 0x07 {
        Ok(next(set_reg(s, x, s.delay)))
    } else if kk == 0x0A {
        match first_key_from(s.keys, 0) {
            Some(k) => Ok(next(set_reg(s, x, k))),
            None => Ok(s),
        }
    } else if kk == 0x15 {
        Ok(next(MachineView { delay: vx, ..s }))
    } else if kk == 0x18 {
        Ok(next(MachineView { sound: vx, ..s }))
    } else if kk == 0x1E {
        Ok(next(MachineView { i: (s.i + vx) as u16, ..s }))
    } else if kk == 0x29 {
        Ok(next(MachineView { i: (vx * 5) as u16, ..s }))
    } else if kk == 0x33 {
        let mem = Seq::new(
            s.mem.len(),
            |a: int|
                if a == s.i {
                    vx / 100
                } else if a == s.i + 1 {
                    (vx % 100) / 10
                } else if a == s.i + 2 {
                    vx % 10
                } else {
                    s.mem[a]
                },
        );
        Ok(next(MachineView { mem, ..s }))
    } else if kk == 0x55 {
        let mem = Seq::new(
            s.mem.len(),
            |a: int| if s.i <= a <= s.i + x { s.reg[a - s.i] } else { s.mem[a] },
        );
        Ok(next(MachineView { mem, i: (s.i + 1) as u16, ..s }))
    } else if kk == 0x65 {
        let reg = Seq::new(s.reg.len(), |r: int| if r <= x { s.mem[s.i + r] } else { s.reg[r] });
        Ok(next(MachineView { reg, i: (s.i + 1) as u16, ..s }))
    } else {
        Err(Error::UndefinedOp(instr))
    }
}

/// The effect of one instruction, before the timers count down.
pub open spec fn execute(s: MachineView, instr: u16) -> Result<MachineView, Error> {
    let group = op_group(instr);
    let x = op_x(instr);
    let y = op_y(instr);
    let kk = op_kk(instr);
    let nnn = op_nnn(instr);
    let vx = s.reg[x];
    let vy = s.reg[y];
    if group == 0x0 {
        if instr == 0x00E0 {
            Ok(next(MachineView { fbuf: Seq::new(NUM_ROWS as nat, |r: int| 0u64), ..s }))
        } else if instr == 0x00EE {
            if s.stack.len() == 0 {
                Err(Error::PoppedEmptyStack)
            } else {
                Ok(MachineView { pc: s.stack.last(), stack: s.stack.drop_last(), ..s })
            }
        } else {
            Err(Error::UndefinedOp(instr))
        }
    } else if group == 0x1 {
        Ok(MachineView { pc: nnn, ..s })
    } else if group == 0x2 {
        Ok(MachineView { pc: nnn, stack: s.stack.push((s.pc + 2) as u16), ..s })
    } else if group == 0x3 {
        Ok(skip_if(s, vx == kk))
    } else if group == 0x4 {
        Ok(skip_if(s, vx != kk))
    } else if group == 0x5 {
        if op_n(instr) != 0 {
            Err(Error::UndefinedOp(instr))
        } else {
            Ok(skip_if(s, vx == vy))
        }
    } else if group == 0x6 {
        Ok(next(set_reg(s, x, kk)))
    } else if group == 0x7 {
        Ok(next(set_reg(s, x, wrap_add(vx, kk))))
    } else if group == 0x8 {
        if alu_defined(op_n(instr)) {
            Ok(next(MachineView { reg: alu_regs(s.reg, op_n(instr), x, y), ..s }))
        } else {
            Err(Error::UndefinedOp(instr))
        }
    } else if group == 0x9 {
        if op_n(instr) != 0 {
            Err(Error::UndefinedOp(instr))
        } else {
            Ok(skip_if(s, vx != vy))
        }
    } else if group == 0xA {
        Ok(next(MachineView { i: nnn, ..s }))
    } else if group == 0xB {
        Ok(MachineView { pc: (nnn + s.reg[0]) as u16, ..s })
    } else if group == 0xC {
        let seed = xorshift(s.seed);
        Ok(next(MachineView { seed, reg: s.reg.update(x, low_byte(seed) & kk), ..s }))
    } else if group == 0xD {
        Ok(next(draw(s, x, y, op_n(instr) as int)))
    } else if group == 0xE {
        if kk == 0x9E {
            Ok(skip_if(s, key_down(s.keys, vx)))
        } else if kk == 0xA1 {
            Ok(skip_if(s, !key_down(s.keys, vx)))
        } else {
            Err(Error::UndefinedOp(instr))
        }
    } else {
        execute_misc(s, instr)
    }
}

/// A timer after one count-down: one less, stopping at zero.
pub open spec fn count_down(t: u8) -> u8 {
    if t == 0 {
        0
    } else {
        (t - 1) as u8
    }
}

/// The effect of one instruction, timers included. An error leaves the
/// machine as it was.
pub open spec fn step(s: MachineView, instr: u16) -> Result<MachineView, Error> {
    match execute(s, instr) {
        Ok(t) => Ok(MachineView { delay: count_down(t.delay), sound: count_down(t.sound), ..t }),
        Err(e) => Err(e),
    }
}

/// The memory an instruction touches lies inside the address space, and the
/// index register does not leave 16 bits.
pub open spec fn operands_in_range(s: MachineView, instr: u16) -> bool {
    let group = op_group(instr);
    let x = op_x(instr);
    let kk = op_kk(instr);
    if group == 0xD {
        let count = rows_on_screen(op_n(instr) as int, (s.reg[op_y(instr)] % 32) as int);
        count > 0 ==> s.i + count <= MEM_SIZE
    } else if group == 0xF {
        &&& kk == 0x1E ==> s.i + s.reg[x] <= 0xFFFF
        &&& kk == 0x33 ==> s.i + 2 < MEM_SIZE
        &&& (kk == 0x55 || kk == 0x65) ==> s.i + x < MEM_SIZE
    } else {
        true
    }
}

/// The machine can execute its next instruction: the program counter lies in
/// memory and the instruction stays inside the address space.
pub open spec fn can_step(s: MachineView) -> bool {
    &&& s.pc + 1 < MEM_SIZE
    &&& operands_in_range(s, fetch(s))
}

} // verus!
