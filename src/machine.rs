//! The executable machine and its proof against the model.

use vstd::prelude::*;

use crate::error::Error;
use crate::model::{
    alu_defined, alu_regs, can_step, draw, draw_flag, drawn, execute, execute_misc,
    fetch, first_key_from, glyphs, initial, key_down, loaded, low_byte, op_group, op_kk,
    op_x, rows_on_screen, sprite_line, step, well_formed, xorshift, MachineView,
    FLAG, MAX_PROGRAM_LEN, MEM_SIZE, NUM_REGS, NUM_ROWS, PROGRAM_START,
};

verus! {

/// The register file: sixteen bytes indexed by a nibble.
struct Registers(Vec<u8>);

impl Registers {
    fn new() -> (r: Registers)
        ensures
            r.0@ == Seq::new(NUM_REGS as nat, |k: int| 0u8),
    {
        Registers(vec![0u8; NUM_REGS])
    }

    fn get(&self, x: usize) -> (r: u8)
        requires
            x < self.0@.len(),
        ensures
            r == self.0@[x as int],
    {
        self.0[x]
    }

    fn set(&mut self, x: usize, v: u8)
        requires
            x < old(self).0@.len(),
        ensures
            final(self).0@ == old(self).0@.update(x as int, v),
    {
        self.0[x] = v;
    }
}

/// A CHIP-8 machine.
pub struct ChipState {
    mem: Vec<u8>,
    reg: Registers,
    i: u16,
    pc: u16,
    stack: Vec<u16>,
    fbuf: Vec<u64>,
    /// The key mask: bit `k` is set while key `k` is down.
    pub keys: u16,
    d_tim: u8,
    s_tim: u8,
    rng_seed: u64,
}

impl View for ChipState {
    type V = MachineView;

    closed spec fn view(&self) -> MachineView {
        MachineView {
            mem: self.mem@,
            reg: self.reg.0@,
            i: self.i,
            pc: self.pc,
            stack: self.stack@,
            fbuf: self.fbuf@,
            keys: self.keys,
            delay: self.d_tim,
            sound: self.s_tim,
            seed: self.rng_seed,
        }
    }
}

/// The glyph table as bytes.
fn glyph_bytes() -> (r: Vec<u8>)
    ensures
        r@ == glyphs(),
{
    let r = vec![
        0xF0u8, 0x90, 0x90, 0x90, 0xF0,
        0x20, 0x60, 0x20, 0x20, 0x70,
        0xF0, 0x10, 0xF0, 0x80, 0xF0,
        0xF0, 0x10, 0xF0, 0x10, 0xF0,
        0x90, 0x90, 0xF0, 0x10, 0x10,
        0xF0, 0x80, 0xF0, 0x10, 0xF0,
        0xF0, 0x80, 0xF0, 0x90, 0xF0,
        0xF0, 0x10, 0x20, 0x40, 0x40,
        0xF0, 0x90, 0xF0, 0x90, 0xF0,
        0xF0, 0x90, 0xF0, 0x10, 0xF0,
        0xF0, 0x90, 0xF0, 0x90, 0x90,
        0xE0, 0x90, 0xE0, 0x90, 0xE0,
        0xF0, 0x80, 0x80, 0x80, 0xF0,
        0xE0, 0x90, 0x90, 0x90, 0xE0,
        0xF0, 0x80, 0xF0, 0x80, 0xF0,
        0xF0, 0x80, 0xF0, 0x80, 0x80,
    ];
    assert(r@ =~= glyphs());
    r
}

impl ChipState {
    /// The sizes of memory, registers and framebuffer are fixed.
    pub open spec fn wf(&self) -> bool {
        well_formed(self@)
    }

    /// A fresh machine with the glyphs in memory and the given random seed.
    pub fn new(seed: u64) -> (r: ChipState)
        ensures
            r.wf(),
            r@ == initial(seed),
    {
        let font = glyph_bytes();
        let mut mem = vec![0u8; MEM_SIZE];
        let mut k: usize = 0;
        while k < font.len()
            invariant
                font@ == glyphs(),
                k <= font@.len(),
                mem@.len() == MEM_SIZE,
                forall|a: int| 0 <= a < k ==> mem@[a] == glyphs()[a],
                forall|a: int| k <= a < MEM_SIZE ==> mem@[a] == 0u8,
            decreases font@.len() - k,
        {
            mem[k] = font[k];
            k += 1;
        }
        let r = ChipState {
            mem,
            reg: Registers::new(),
            i: 0,
            pc: 0,
            stack: Vec::with_capacity(0x10),
            fbuf: vec![0u64; NUM_ROWS],
            keys: 0,
            d_tim: 0,
            s_tim: 0,
            rng_seed: seed,
        };
        assert(r@ =~= initial(seed));
        r
    }

    /// Copies `rom` into memory at `PROGRAM_START` and points the program
    /// counter there.
    pub fn load(&mut self, rom: &[u8])
        requires
            old(self).wf(),
            rom@.len() <= MAX_PROGRAM_LEN,
        ensures
            final(self).wf(),
            final(self)@ == loaded(old(self)@, rom@),
    {
        let start = PROGRAM_START as usize;
        let mut k: usize = 0;
        while k < rom.len()
            invariant
                self.wf(),
                k <= rom@.len() <= MAX_PROGRAM_LEN,
                start == PROGRAM_START,
                self@ == (MachineView { mem: self@.mem, ..old(self)@ }),
                forall|a: int|
                    0 <= a < MEM_SIZE ==> self.mem@[a] == if start <= a < start + k {
                        rom@[a - start]
                    } else {
                        old(self).mem@[a]
                    },
            decreases rom@.len() - k,
        {
            self.mem[start + k] = rom[k];
            k += 1;
        }
        self.pc = PROGRAM_START;
        assert(self@ =~= loaded(old(self)@, rom@));
    }

    /// The framebuffer: 32 rows, bit 63 of a row is its leftmost pixel.
    pub fn get_fbuf(&self) -> (r: &[u64])
        ensures
            r@ == self@.fbuf,
    {
        self.fbuf.as_slice()
    }

    /// The value of register `x`.
    pub fn register(&self, x: u8) -> (r: u8)
        requires
            self.wf(),
            x < 16,
        ensures
            r == self@.reg[x as int],
    {
        self.reg.get(x as usize)
    }

    /// The program counter.
    pub fn program_counter(&self) -> (r: u16)
        ensures
            r == self@.pc,
    {
        self.pc
    }

    /// Marks key `key` as down.
    pub fn press_key(&mut self, key: u8)
        requires
            key < 16,
        ensures
            final(self)@ == (MachineView { keys: old(self)@.keys | (1u16 << key as u16), ..old(self)@ }),
    {
        self.keys = self.keys | (1u16 << key as u16);
    }

    /// Marks key `key` as up.
    pub fn release_key(&mut self, key: u8)
        requires
            key < 16,
        ensures
            final(self)@ == (MachineView { keys: old(self)@.keys & !(1u16 << key as u16), ..old(self)@ }),
    {
        self.keys = self.keys & !(1u16 << key as u16);
    }

    fn key_is_pressed(&self, key: u8) -> (r: bool)
        ensures
            r == key_down(self@.keys, key),
    {
        key < 16 && (self.keys >> key as u16) & 1 == 1
    }

    /// Advances the random state by one xorshift step and returns its low byte.
    fn rand(&mut self) -> (r: u8)
        ensures
            final(self)@ == (MachineView { seed: xorshift(old(self)@.seed), ..old(self)@ }),
            r == low_byte(xorshift(old(self)@.seed)),
    {
        self.rng_seed = self.rng_seed ^ (self.rng_seed << 13u64);
        self.rng_seed = self.rng_seed ^ (self.rng_seed >> 17u64);
        self.rng_seed = self.rng_seed ^ (self.rng_seed << 5u64);
        (self.rng_seed & 0xFF) as u8
    }

    /// Runs an `8XY_` instruction whose low nibble `op` is defined.
    fn alu(&mut self, op: u16, x: usize, y: usize)
        requires
            old(self).wf(),
            alu_defined(op),
            x < 16,
            y < 16,
        ensures
            final(self)@ == (MachineView { reg: alu_regs(old(self)@.reg, op, x as int, y as int), ..old(self)@ }),
    {
        let a = self.reg.get(x);
        let b = self.reg.get(y);
        let (v, flag): (u8, u8) = if op == 0x0 {
            (b, 0)
        } else if op == 0x1 {
            (a | b, 0)
        } else if op == 0x2 {
            (a & b, 0)
        } else if op == 0x3 {
            (a ^ b, 0)
        } else if op == 0x4 {
            (a.wrapping_add(b), if a as u16 + b as u16 > 255 { 1 } else { 0 })
        } else if op == 0x5 {
            (a.wrapping_sub(b), if a > b { 1 } else { 0 })
        } else if op == 0x6 {
            (b >> 1u8, b & 1)
        } else if op == 0x7 {
            (b.wrapping_sub(a), if b > a { 1 } else { 0 })
        } else {
            (b << 1u8, b >> 7u8)
        };
        self.reg.set(x, v);
        if op != 0 {
            self.reg.set(FLAG, flag);
        }
        assert(self@ =~= (MachineView { reg: alu_regs(old(self)@.reg, op, x as int, y as int), ..old(self)@ }));
    }

    /// XOR-draws `n` bytes from memory at I as sprite rows at
    /// (`reg[x] mod 64`, `reg[y] mod 32`), clipped at the bottom edge, and
    /// sets the flag register to the collision bit of the last row drawn.
    fn draw_sprite(&mut self, x: usize, y: usize, n: usize)
        requires
            old(self).wf(),
            x < 16,
            y < 16,
            n < 16,
            rows_on_screen(n as int, (old(self)@.reg[y as int] % 32) as int) > 0 ==> old(self)@.i
                + rows_on_screen(n as int, (old(self)@.reg[y as int] % 32) as int) <= MEM_SIZE,
        ensures
            final(self)@ == draw(old(self)@, x as int, y as int, n as int),
    {
        let col = (self.reg.get(x) % 64) as u64;
        let row = (self.reg.get(y) % 32) as usize;
        let count: usize = if n <= NUM_ROWS - row { n } else { NUM_ROWS - row };
        let addr = self.i as usize;
        let ghost s = self@;
        let mut flag: u8 = 0;
        let mut k: usize = 0;
        while k < count
            invariant
                self.wf(),
                s == old(self)@,
                col == (s.reg[x as int] % 64) as u64,
                row == (s.reg[y as int] % 32) as int,
                count == rows_on_screen(n as int, row as int),
                row + count <= NUM_ROWS,
                addr == s.i,
                count > 0 ==> addr + count <= MEM_SIZE,
                k <= count,
                self@ == (MachineView { fbuf: self@.fbuf, ..s }),
                self@.fbuf == drawn(s.fbuf, s.mem, addr as int, col, row as int, k as int),
                flag == draw_flag(s.fbuf, s.mem, addr as int, col, row as int, k as int),
            decreases count - k,
        {
            let byte = self.mem[addr + k];
            let line = ((byte as u64) << 56u64) >> col;
            let old_row = self.fbuf[row + k];
            let compare = old_row | line;
            let new_row = old_row ^ line;
            self.fbuf[row + k] = new_row;
            flag = if new_row != compare { 1 } else { 0 };
            proof {
                assert((old_row ^ line != old_row | line) == (old_row & line != 0)) by (bit_vector);
                assert(line == sprite_line(s.mem[addr + k], col));
                assert(old_row == s.fbuf[row + k]);
            }
            k += 1;
            assert(self@.fbuf =~= drawn(s.fbuf, s.mem, addr as int, col, row as int, k as int));
        }
        self.reg.set(FLAG, flag);
        assert(self@ =~= draw(old(self)@, x as int, y as int, n as int));
    }

    /// Runs an `FX__` instruction, before the timers count down.
    fn execute_misc(&mut self, instr: u16, x: usize, kk: u8) -> (r: Result<(), Error>)
        requires
            old(self).wf(),
            old(self)@.pc + 1 < MEM_SIZE,
            op_group(instr) == 0xF,
            x == op_x(instr),
            kk == op_kk(instr),
            x < 16,
            kk == 0x1E ==> old(self)@.i + old(self)@.reg[x as int] <= 0xFFFF,
            kk == 0x33 ==> old(self)@.i + 2 < MEM_SIZE,
            (kk == 0x55 || kk == 0x65) ==> old(self)@.i + x < MEM_SIZE,
        ensures
            final(self).wf(),
            match execute_misc(old(self)@, instr) {
                Ok(t) => r is Ok && final(self)@ == t,
                Err(e) => r == Err::<(), Error>(e) && final(self)@ == old(self)@,
            },
    {
        let ghost s = self@;
        let vx = self.reg.get(x);
        if kk == 0x07 {
            self.reg.set(x, self.d_tim);
        } else if kk == 0x0A {
            let mut k: u8 = 0;
            while k < 16
                invariant
                    self@ == s,
                    self.wf(),
                    x < 16,
                    k <= 16,
                    s == old(self)@,
                    s.pc + 1 < MEM_SIZE,
                    op_group(instr) == 0xF,
                    x == op_x(instr),
                    kk == op_kk(instr),
                    kk == 0x0A,
                    first_key_from(s.keys, 0) == first_key_from(s.keys, k as int),
                decreases 16 - k,
            {
                if self.key_is_pressed(k) {
                    self.reg.set(x, k);
                    self.pc = self.pc + 2;
                    assert(self@ =~= execute_misc(s, instr).unwrap());
                    return Ok(());
                }
                k += 1;
            }
            assert(first_key_from(s.keys, 16) is None);
            return Ok(());
        } else if kk == 0x15 {
            self.d_tim = vx;
        } else if kk == 0x18 {
            self.s_tim = vx;
        } else if kk == 0x1E {
            self.i = self.i + vx as u16;
        } else if kk == 0x29 {
            self.i = vx as u16 * 5;
        } else if kk == 0x33 {
            let a = self.i as usize;
            self.mem[a] = vx / 100;
            self.mem[a + 1] = (vx % 100) / 10;
            self.mem[a + 2] = vx % 10;
        } else if kk == 0x55 {
            let a = self.i as usize;
            let mut k: usize = 0;
            while k <= x
                invariant
                    self.wf(),
                    x < 16,
                    a == s.i,
                    a + x < MEM_SIZE,
                    k <= x + 1,
                    self@ == (MachineView { mem: self@.mem, ..s }),
                    forall|m: int|
                        0 <= m < MEM_SIZE ==> self@.mem[m] == if a <= m < a + k {
                            s.reg[m - a]
                        } else {
                            s.mem[m]
                        },
                decreases x + 1 - k,
            {
                let v = self.reg.get(k);
                self.mem[a + k] = v;
                k += 1;
            }
            self.i = self.i + 1;
        } else if kk == 0x65 {
            let a = self.i as usize;
            let mut k: usize = 0;
            while k <= x
                invariant
                    self.wf(),
                    x < 16,
                    a == s.i,
                    a + x < MEM_SIZE,
                    k <= x + 1,
                    self@ == (MachineView { reg: self@.reg, ..s }),
                    forall|m: int|
                        0 <= m < NUM_REGS ==> self@.reg[m] == if m < k {
                            s.mem[a + m]
                        } else {
                            s.reg[m]
                        },
                decreases x + 1 - k,
            {
                let v = self.mem[a + k];
                self.reg.set(k, v);
                k += 1;
            }
            self.i = self.i + 1;
        } else {
            return Err(Error::UndefinedOp(instr));
        }
        self.pc = self.pc + 2;
        assert(self@ =~= execute_misc(s, instr).unwrap());
        Ok(())
    }

    /// Runs one instruction, before the timers count down.
    fn execute_op(&mut self, instr: u16) -> (r: Result<(), Error>)
        requires
            old(self).wf(),
            old(self)@.pc + 1 < MEM_SIZE,
            crate::model::operands_in_range(old(self)@, instr),
        ensures
            final(self).wf(),
            match execute(old(self)@, instr) {
                Ok(t) => r is Ok && final(self)@ == t,
                Err(e) => r == Err::<(), Error>(e) && final(self)@ == old(self)@,
            },
    {
        let ghost s = self@;
        let group = instr >> 12u16;
        let x = ((instr >> 8u16) & 0xF) as usize;
        let y = ((instr >> 4u16) & 0xF) as usize;
        let n = instr & 0xF;
        let kk = (instr & 0xFF) as u8;
        let nnn = instr & 0xFFF;
        proof {
            assert((instr >> 8u16) & 0xFu16 < 16) by (bit_vector);
            assert((instr >> 4u16) & 0xFu16 < 16) by (bit_vector);
            assert(instr & 0xFu16 < 16) by (bit_vector);
            assert(instr & 0xFFFu16 < 0x1000) by (bit_vector);
            assert(instr >> 12u16 < 16) by (bit_vector);
        }
        if group == 0x0 {
            if instr == 0x00E0 {
                self.fbuf = vec![0u64; NUM_ROWS];
            } else if instr == 0x00EE {
                match self.stack.pop() {
                    Some(a) => {
                        self.pc = a;
                        assert(self@ =~= execute(s, instr).unwrap());
                        return Ok(());
                    },
                    None => {
                        return Err(Error::PoppedEmptyStack);
                    },
                }
            } else {
                return Err(Error::UndefinedOp(instr));
            }
        } else if group == 0x1 {
            self.pc = nnn;
            assert(self@ =~= execute(s, instr).unwrap());
            return Ok(());
        } else if group == 0x2 {
            self.stack.push(self.pc + 2);
            self.pc = nnn;
            assert(self@ =~= execute(s, instr).unwrap());
            return Ok(());
        } else if group == 0x3 {
            if self.reg.get(x) == kk {
                self.pc = self.pc + 2;
            }
        } else if group == 0x4 {
            if self.reg.get(x) != kk {
                self.pc = self.pc + 2;
            }
        } else if group == 0x5 {
            if n != 0 {
                return Err(Error::UndefinedOp(instr));
            }
            if self.reg.get(x) == self.reg.get(y) {
                self.pc = self.pc + 2;
            }
        } else if group == 0x6 {
            self.reg.set(x, kk);
        } else if group == 0x7 {
            let v = self.reg.get(x).wrapping_add(kk);
            self.reg.set(x, v);
        } else if group == 0x8 {
            if !(n <= 7 || n == 0xE) {
                return Err(Error::UndefinedOp(instr));
            }
            self.alu(n, x, y);
        } else if group == 0x9 {
            if n != 0 {
                return Err(Error::UndefinedOp(instr));
            }
            if self.reg.get(x) != self.reg.get(y) {
                self.pc = self.pc + 2;
            }
        } else if group == 0xA {
            self.i = nnn;
        } else if group == 0xB {
            self.pc = nnn + self.reg.get(0) as u16;
            assert(self@ =~= execute(s, instr).unwrap());
            return Ok(());
        } else if group == 0xC {
            let v = self.rand() & kk;
            self.reg.set(x, v);
        } else if group == 0xD {
            self.draw_sprite(x, y, n as usize);
        } else if group == 0xE {
            let key = self.reg.get(x);
            if kk == 0x9E {
                if self.key_is_pressed(key) {
                    self.pc = self.pc + 2;
                }
            } else if kk == 0xA1 {
                if !self.key_is_pressed(key) {
                    self.pc = self.pc + 2;
                }
            } else {
                return Err(Error::UndefinedOp(instr));
            }
        } else {
            return self.execute_misc(instr, x, kk);
        }
        self.pc = self.pc + 2;
        assert(self@ =~= execute(s, instr).unwrap());
        Ok(())
    }

    /// Runs one instruction and counts both timers down.
    fn eval(&mut self, instr: u16) -> (r: Result<(), Error>)
        requires
            old(self).wf(),
            old(self)@.pc + 1 < MEM_SIZE,
            crate::model::operands_in_range(old(self)@, instr),
        ensures
            final(self).wf(),
            match step(old(self)@, instr) {
                Ok(t) => r is Ok && final(self)@ == t,
                Err(e) => r == Err::<(), Error>(e) && final(self)@ == old(self)@,
            },
    {
        let r = self.execute_op(instr);
        if r.is_ok() {
            self.d_tim = self.d_tim.saturating_sub(1);
            self.s_tim = self.s_tim.saturating_sub(1);
        }
        r
    }

    /// Fetches the instruction at the program counter, runs it and counts
    /// both timers down. On an error the machine is left as it was.
    pub fn tick(&mut self) -> (r: Result<(), Error>)
        requires
            old(self).wf(),
            can_step(old(self)@),
        ensures
            final(self).wf(),
            match step(old(self)@, fetch(old(self)@)) {
                Ok(t) => r is Ok && final(self)@ == t,
                Err(e) => r == Err::<(), Error>(e) && final(self)@ == old(self)@,
            },
    {
        let pc = self.pc as usize;
        let instr = self.mem[pc] as u16 * 256 + self.mem[pc + 1] as u16;
        self.eval(instr)
    }

    /// Whether `tick` may be called: the program counter and the memory the
    /// next instruction touches lie inside the address space.
    pub fn can_tick(&self) -> (r: bool)
        requires
            self.wf(),
        ensures
            r == can_step(self@),
    {
        let pc = self.pc as usize;
        if pc + 1 >= MEM_SIZE {
            return false;
        }
        let instr = self.mem[pc] as u16 * 256 + self.mem[pc + 1] as u16;
        let group = instr >> 12u16;
        let x = ((instr >> 8u16) & 0xF) as usize;
        let y = ((instr >> 4u16) & 0xF) as usize;
        let n = (instr & 0xF) as usize;
        let kk = (instr & 0xFF) as u8;
        let i = self.i as usize;
        proof {
            assert((instr >> 8u16) & 0xFu16 < 16) by (bit_vector);
            assert((instr >> 4u16) & 0xFu16 < 16) by (bit_vector);
        }
        if group == 0xD {
            let row = (self.reg.get(y) % 32) as usize;
            let count: usize = if n <= NUM_ROWS - row { n } else { NUM_ROWS - row };
            count == 0 || i + count <= MEM_SIZE
        } else if group == 0xF {
            (kk != 0x1E || i + self.reg.get(x) as usize <= 0xFFFF) && (kk != 0x33 || i + 2
                < MEM_SIZE) && (!(kk == 0x55 || kk == 0x65) || i + x < MEM_SIZE)
        } else {
            true
        }
    }
}

} // verus!
