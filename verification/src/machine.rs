//! The executable machine: owns all architectural state and performs one
//! fetch-decode-execute cycle per [`CPU::step`], proved to follow
//! [`crate::model::spec_step`].

use vstd::prelude::*;
use crate::decode::{Instr, decode, instr_wf};
use crate::model::{
    StateV, StepOutcome, Fault, state_wf, spec_font, spec_initial, spec_word_at, spec_step,
    spec_execute, spec_tick, flag, sprite_rows, draw_fb, draw_collision, draw_upto,
    collision_upto, lemma_draw_upto_complete, row_bit, pix,
};

verus! {

broadcast use vstd::array::group_array_axioms;

/// The machine: 4096 bytes of memory, 16 byte registers, the address
/// register, the program counter, a 16-frame call stack, two countdown
/// timers and the 64x32 framebuffer.
pub struct CPU {
    memory: [u8; 4096],
    registers: [u8; 16],
    register_i: u16,
    program_counter: u16,
    call_stack: [u16; 16],
    stack_pointer: usize,
    delay_timer: u8,
    sound_timer: u8,
    framebuffer: [bool; 2048],
}

impl View for CPU {
    type V = StateV;

    closed spec fn view(&self) -> StateV {
        StateV {
            memory: self.memory@,
            registers: self.registers@,
            register_i: self.register_i,
            program_counter: self.program_counter,
            call_stack: self.call_stack@.subrange(0, self.stack_pointer as int),
            delay_timer: self.delay_timer,
            sound_timer: self.sound_timer,
            framebuffer: self.framebuffer@,
        }
    }
}

impl CPU {
    /// The machine's internal invariant: the stack pointer stays within the
    /// 16-frame call stack.
    pub closed spec fn wf(&self) -> bool {
        self.stack_pointer <= 16
    }

    /// A well-formed machine abstracts to a well-formed state.
    pub proof fn lemma_state_wf(&self)
        requires
            self.wf(),
        ensures
            state_wf(self@),
    {
    }

    /// A fresh machine: all state zeroed except the font at addresses 0..80
    /// and the program counter at 512.
    pub fn new() -> (m: CPU)
        ensures
            m.wf(),
            m@ == spec_initial(),
    {
        let mut m = CPU {
            memory: [0u8; 4096],
            registers: [0u8; 16],
            register_i: 0,
            program_counter: 512,
            call_stack: [0u16; 16],
            stack_pointer: 0,
            delay_timer: 0,
            sound_timer: 0,
            framebuffer: [false; 2048],
        };
        m.write_font();
        proof {
            assert(m@.memory =~= spec_initial().memory);
            assert(m@.registers =~= spec_initial().registers);
            assert(m@.call_stack =~= spec_initial().call_stack);
            assert(m@.framebuffer =~= spec_initial().framebuffer);
            assert(m@ =~= spec_initial());
        }
        m
    }

    /// Write the 16 architecture-mandated glyphs, 5 bytes each, at 0..80.
    #[verifier::rlimit(30)]
    fn write_font(&mut self)
        ensures
            final(self).wf() == old(self).wf(),
            forall|a: int| 0 <= a < 80 ==> final(self)@.memory[a] == spec_font()[a],
            forall|a: int| 80 <= a < 4096 ==> final(self)@.memory[a] == old(self)@.memory[a],
            final(self)@ == (StateV { memory: final(self)@.memory, ..old(self)@ }),
    {
        self.memory[0] = 0xF0;
        self.memory[1] = 0x90;
        self.memory[2] = 0x90;
        self.memory[3] = 0x90;
        self.memory[4] = 0xF0;
        self.memory[5] = 0x20;
        self.memory[6] = 0x60;
        self.memory[7] = 0x20;
        self.memory[8] = 0x20;
        self.memory[9] = 0x70;
        self.memory[10] = 0xF0;
        self.memory[11] = 0x10;
        self.memory[12] = 0xF0;
        self.memory[13] = 0x80;
        self.memory[14] = 0xF0;
        self.memory[15] = 0xF0;
        self.memory[16] = 0x10;
        self.memory[17] = 0xF0;
        self.memory[18] = 0x10;
        self.memory[19] = 0xF0;
        self.memory[20] = 0x90;
        self.memory[21] = 0x90;
        self.memory[22] = 0xF0;
        self.memory[23] = 0x10;
        self.memory[24] = 0x10;
        self.memory[25] = 0xF0;
        self.memory[26] = 0x80;
        self.memory[27] = 0xF0;
        self.memory[28] = 0x10;
        self.memory[29] = 0xF0;
        self.memory[30] = 0xF0;
        self.memory[31] = 0x80;
        self.memory[32] = 0xF0;
        self.memory[33] = 0x90;
        self.memory[34] = 0xF0;
        self.memory[35] = 0xF0;
        self.memory[36] = 0x10;
        self.memory[37] = 0x20;
        self.memory[38] = 0x40;
        self.memory[39] = 0x40;
        self.memory[40] = 0xF0;
        self.memory[41] = 0x90;
        self.memory[42] = 0xF0;
        self.memory[43] = 0x90;
        self.memory[44] = 0xF0;
        self.memory[45] = 0xF0;
        self.memory[46] = 0x90;
        self.memory[47] = 0xF0;
        self.memory[48] = 0x10;
        self.memory[49] = 0xF0;
        self.memory[50] = 0xF0;
        self.memory[51] = 0x90;
        self.memory[52] = 0xF0;
        self.memory[53] = 0x90;
        self.memory[54] = 0x90;
        self.memory[55] = 0xE0;
        self.memory[56] = 0x90;
        self.memory[57] = 0xE0;
        self.memory[58] = 0x90;
        self.memory[59] = 0xE0;
        self.memory[60] = 0xF0;
        self.memory[61] = 0x80;
        self.memory[62] = 0x80;
        self.memory[63] = 0x80;
        self.memory[64] = 0xF0;
        self.memory[65] = 0xE0;
        self.memory[66] = 0x90;
        self.memory[67] = 0x90;
        self.memory[68] = 0x90;
        self.memory[69] = 0xE0;
        self.memory[70] = 0xF0;
        self.memory[71] = 0x80;
        self.memory[72] = 0xF0;
        self.memory[73] = 0x80;
        self.memory[74] = 0xF0;
        self.memory[75] = 0xF0;
        self.memory[76] = 0x80;
        self.memory[77] = 0xF0;
        self.memory[78] = 0x80;
        self.memory[79] = 0x80;
    }

    /// Copy a program image into memory at address 512. Shorter images are
    /// padded by whatever the memory already held there (zero, on a fresh
    /// machine).
    pub fn load_program(&mut self, rom: &Vec<u8>)
        requires
            old(self).wf(),
            rom@.len() <= 3584,
        ensures
            final(self).wf(),
            forall|a: int|
                512 <= a < 512 + rom@.len() ==> final(self)@.memory[a] == rom@[a - 512],
            forall|a: int|
                0 <= a < 4096 && !(512 <= a < 512 + rom@.len()) ==> final(self)@.memory[a] == old(
                    self,
                )@.memory[a],
            final(self)@ == (StateV { memory: final(self)@.memory, ..old(self)@ }),
    {
        let ghost orig = self@;
        let mut i: usize = 0;
        while i < rom.len()
            invariant
                self.wf(),
                i <= rom@.len() <= 3584,
                forall|a: int| 512 <= a < 512 + i ==> self@.memory[a] == rom@[a - 512],
                forall|a: int|
                    0 <= a < 4096 && !(512 <= a < 512 + i) ==> self@.memory[a] == orig.memory[a],
                self@ == (StateV { memory: self@.memory, ..orig }),
            decreases rom@.len() - i,
        {
            self.memory[512 + i] = rom[i];
            i = i + 1;
        }
    }

    /// Read the two bytes at the program counter, combined big-endian into
    /// one instruction word.
    pub fn read_opcode(&self) -> (op: u16)
        requires
            self@.program_counter + 1 < 4096,
        ensures
            op == spec_word_at(self@, self@.program_counter as int),
    {
        let hi = self.memory[self.program_counter as usize] as u16;
        let lo = self.memory[self.program_counter as usize + 1] as u16;
        hi * 256 + lo
    }

    /// Skip the next instruction word when the two values are equal.
    pub fn se(&mut self, x: u8, y: u8)
        requires
            old(self).wf(),
            old(self)@.program_counter + 2 <= u16::MAX,
        ensures
            final(self).wf(),
            final(self)@ == (StateV {
                program_counter: if x == y {
                    (old(self)@.program_counter + 2) as u16
                } else {
                    old(self)@.program_counter
                },
                ..old(self)@
            }),
    {
        if x == y {
            self.program_counter = self.program_counter + 2;
        }
    }

    /// Skip the next instruction word when the two values differ.
    pub fn sne(&mut self, x: u8, y: u8)
        requires
            old(self).wf(),
            old(self)@.program_counter + 2 <= u16::MAX,
        ensures
            final(self).wf(),
            final(self)@ == (StateV {
                program_counter: if x != y {
                    (old(self)@.program_counter + 2) as u16
                } else {
                    old(self)@.program_counter
                },
                ..old(self)@
            }),
    {
        if x != y {
            self.program_counter = self.program_counter + 2;
        }
    }

    /// The value of general-purpose register `x`.
    pub fn register(&self, x: u8) -> (r: u8)
        requires
            x < 16,
        ensures
            r == self@.registers[x as int],
    {
        self.registers[x as usize]
    }

    /// The address register.
    pub fn register_i(&self) -> (r: u16)
        ensures
            r == self@.register_i,
    {
        self.register_i
    }

    /// The program counter.
    pub fn program_counter(&self) -> (r: u16)
        ensures
            r == self@.program_counter,
    {
        self.program_counter
    }

    /// The delay timer.
    pub fn delay_timer(&self) -> (r: u8)
        ensures
            r == self@.delay_timer,
    {
        self.delay_timer
    }

    /// The sound timer.
    pub fn sound_timer(&self) -> (r: u8)
        ensures
            r == self@.sound_timer,
    {
        self.sound_timer
    }

    /// How many frames the call stack currently holds.
    pub fn stack_depth(&self) -> (r: usize)
        requires
            self.wf(),
        ensures
            r == self@.call_stack.len(),
    {
        self.stack_pointer
    }

    /// The byte at memory address `addr`.
    pub fn mem_at(&self, addr: u16) -> (r: u8)
        requires
            addr < 4096,
        ensures
            r == self@.memory[addr as int],
    {
        self.memory[addr as usize]
    }

    /// The framebuffer pixel at (row, col); `true` is on.
    pub fn pixel(&self, row: usize, col: usize) -> (r: bool)
        requires
            row < 32,
            col < 64,
        ensures
            r == self@.framebuffer[row * 64 + col],
    {
        self.framebuffer[row * 64 + col]
    }

    /// Decrement both timers by one, clamped at zero: the decay every
    /// executed instruction applies.
    fn tick_timers(&mut self)
        ensures
            final(self).wf() == old(self).wf(),
            final(self)@ == spec_tick(old(self)@),
    {
        if self.delay_timer > 0 {
            self.delay_timer = self.delay_timer - 1;
        }
        if self.sound_timer > 0 {
            self.sound_timer = self.sound_timer - 1;
        }
    }

    /// XOR-composite the `n`-row sprite at memory address I onto the
    /// framebuffer at origin (Vx, Vy), wrapping toroidally, and record in
    /// register 0xF whether any on pixel was turned off.
    fn draw_sprite(&mut self, x: u8, y: u8, n: u8)
        requires
            old(self).wf(),
            x < 16,
            y < 16,
            n < 16,
            old(self)@.register_i + n <= 4096,
        ensures
            final(self).wf(),
            ({
                let s = old(self)@;
                let rows = sprite_rows(s.memory, s.register_i as int, n as int);
                let vx = (s.registers[x as int] % 64) as int;
                let vy = (s.registers[y as int] % 32) as int;
                final(self)@ == (StateV {
                    framebuffer: draw_fb(s.framebuffer, rows, vx, vy),
                    registers: s.registers.update(
                        15,
                        flag(draw_collision(s.framebuffer, rows, vx, vy)),
                    ),
                    ..s
                })
            }),
    {
        let ghost s = self@;
        let ghost rows = sprite_rows(s.memory, s.register_i as int, n as int);
        let vx = (self.registers[x as usize] % 64) as usize;
        let vy = (self.registers[y as usize] % 32) as usize;
        let base = self.register_i as usize;
        let mut collided = false;
        let mut i: usize = 0;
        proof {
            assert(self@.framebuffer =~= draw_upto(s.framebuffer, rows, vx as int, vy as int, 0, 0));
        }
        while i < n as usize
            invariant
                self.wf(),
                s == old(self)@,
                self.wf() == old(self).wf(),
                rows == sprite_rows(s.memory, s.register_i as int, n as int),
                rows.len() == n,
                x < 16,
                y < 16,
                n < 16,
                s.register_i + n <= 4096,
                vx == s.registers[x as int] % 64,
                vy == s.registers[y as int] % 32,
                vx < 64,
                vy < 32,
                base == s.register_i,
                0 <= i <= n,
                self@ == (StateV { framebuffer: self@.framebuffer, ..s }),
                self@.framebuffer == draw_upto(s.framebuffer, rows, vx as int, vy as int, i as int, 0),
                collided == collision_upto(s.framebuffer, rows, vx as int, vy as int, i as int, 0),
            decreases n - i,
        {
            let row_byte = self.memory[base + i];
            proof {
                assert(row_byte == rows[i as int]);
            }
            let mut j: usize = 0;
            while j < 8
                invariant
                    self.wf(),
                    s == old(self)@,
                    self.wf() == old(self).wf(),
                    rows == sprite_rows(s.memory, s.register_i as int, n as int),
                    rows.len() == n,
                    n < 16,
                    i < n,
                    vx < 64,
                    vy < 32,
                    row_byte == rows[i as int],
                    0 <= j <= 8,
                    self@ == (StateV { framebuffer: self@.framebuffer, ..s }),
                    self@.framebuffer == draw_upto(
                        s.framebuffer,
                        rows,
                        vx as int,
                        vy as int,
                        i as int,
                        j as int,
                    ),
                    collided == collision_upto(
                        s.framebuffer,
                        rows,
                        vx as int,
                        vy as int,
                        i as int,
                        j as int,
                    ),
                decreases 8 - j,
            {
                let sh: u8 = (7 - j) as u8;
                let bit = (row_byte >> sh) & 1 == 1;
                let r = (vy + i) % 32;
                let c = (vx + j) % 64;
                let p = r * 64 + c;
                let ghost fb_pre = self@.framebuffer;
                proof {
                    assert(bit == row_bit(rows[i as int], j as int));
                    assert(p / 64 == r && p % 64 == c);
                    assert((r - vy + 32) % 32 == i && (c - vx + 64) % 64 == j);
                    assert(pix(vy + i, vx + j) == p);
                    assert(fb_pre[p as int] == s.framebuffer[p as int]);
                }
                if bit {
                    let prev = self.framebuffer[p];
                    self.framebuffer[p] = !prev;
                    if prev {
                        collided = true;
                    }
                }
                proof {
                    assert forall|q: int| 0 <= q < 2048 implies self@.framebuffer[q] == draw_upto(
                        s.framebuffer,
                        rows,
                        vx as int,
                        vy as int,
                        i as int,
                        j as int + 1,
                    )[q] by {
                        let qi = (q / 64 - vy + 32) % 32;
                        let qj = (q % 64 - vx + 64) % 64;
                        if q != p {
                            // q's sprite position, if any, is not (i, j):
                            // otherwise q and p would be the same pixel.
                            if qi == i as int && qj == j as int {
                                assert(q / 64 == r && q % 64 == c);
                                assert(q == p);
                            }
                        }
                    }
                    assert(self@.framebuffer =~= draw_upto(
                        s.framebuffer,
                        rows,
                        vx as int,
                        vy as int,
                        i as int,
                        j as int + 1,
                    ));
                    if collided {
                        assert(collision_upto(
                            s.framebuffer,
                            rows,
                            vx as int,
                            vy as int,
                            i as int,
                            j as int + 1,
                        ));
                    }
                    if collision_upto(
                        s.framebuffer,
                        rows,
                        vx as int,
                        vy as int,
                        i as int,
                        j as int + 1,
                    ) {
                        let (pi, pj) = choose|pi: int, pj: int|
                            0 <= pi < rows.len() && 0 <= pj < 8 && (pi < i as int || (pi == i as int
                                && pj < j as int + 1)) && #[trigger] row_bit(rows[pi], pj)
                                && s.framebuffer[pix(vy + pi, vx + pj)];
                        if pi == i as int && pj == j as int {
                            assert(bit && s.framebuffer[p as int]);
                        } else {
                            assert(collision_upto(
                                s.framebuffer,
                                rows,
                                vx as int,
                                vy as int,
                                i as int,
                                j as int,
                            ));
                        }
                        assert(collided);
                    }
                }
                j = j + 1;
            }
            proof {
                assert(draw_upto(s.framebuffer, rows, vx as int, vy as int, i as int, 8) =~= draw_upto(
                    s.framebuffer,
                    rows,
                    vx as int,
                    vy as int,
                    i as int + 1,
                    0,
                ));
                if collision_upto(s.framebuffer, rows, vx as int, vy as int, i as int, 8) {
                    assert(collision_upto(
                        s.framebuffer,
                        rows,
                        vx as int,
                        vy as int,
                        i as int + 1,
                        0,
                    ));
                }
                if collision_upto(s.framebuffer, rows, vx as int, vy as int, i as int + 1, 0) {
                    assert(collision_upto(s.framebuffer, rows, vx as int, vy as int, i as int, 8));
                }
            }
            i = i + 1;
        }
        proof {
            lemma_draw_upto_complete(s.framebuffer, rows, vx as int, vy as int);
        }
        self.registers[15] = if collided {
            1
        } else {
            0
        };
        proof {
            assert(self@ =~~= (StateV {
                framebuffer: draw_fb(
                    s.framebuffer,
                    rows,
                    (s.registers[x as int] % 64) as int,
                    (s.registers[y as int] % 32) as int,
                ),
                registers: s.registers.update(
                    15,
                    flag(
                        draw_collision(
                            s.framebuffer,
                            rows,
                            (s.registers[x as int] % 64) as int,
                            (s.registers[y as int] % 32) as int,
                        ),
                    ),
                ),
                ..s
            }));
        }
    }

    /// Apply one decoded instruction: the dispatch table of the
    /// architecture. The program counter advances by 2 first; a fault leaves
    /// the machine untouched; both timers tick after every executed
    /// instruction.
    #[verifier::rlimit(100)]
    fn execute(&mut self, instr: Instr, keys_down: u16, key_event: Option<u8>) -> (r: Result<
        StepOutcome,
        Fault,
    >)
        requires
            old(self).wf(),
            old(self)@.program_counter + 2 <= 4096,
            instr_wf(instr),
        ensures
            final(self).wf(),
            exists|rb: u8|
                (final(self)@, r) == spec_execute(old(self)@, instr, rb, keys_down, key_event),
    {
        match instr {
            Instr::Halt => {
                self.program_counter = self.program_counter + 2;
                proof {
                    let target = spec_execute(old(self)@, instr, 0u8, keys_down, key_event);
                    assert(self@ =~~= target.0);
                }
                Ok(StepOutcome::Halt)
            },
            Instr::Cls => {
                self.program_counter = self.program_counter + 2;
                self.framebuffer = [false; 2048];
                self.tick_timers();
                proof {
                    let target = spec_execute(old(self)@, instr, 0u8, keys_down, key_event);
                    assert(self@ =~~= target.0);
                }
                Ok(StepOutcome::Continue)
            },
            Instr::Ret => {
                if self.stack_pointer == 0 {
                    proof {
                        let target = spec_execute(old(self)@, instr, 0u8, keys_down, key_event);
                        assert(target == (old(self)@, Err::<StepOutcome, Fault>(
                            Fault::StackUnderflow,
                        )));
                    }
                    return Err(Fault::StackUnderflow);
                }
                self.stack_pointer = self.stack_pointer - 1;
                self.program_counter = self.call_stack[self.stack_pointer];
                self.tick_timers();
                proof {
                    let target = spec_execute(old(self)@, instr, 0u8, keys_down, key_event);
                    assert(self@ =~~= target.0);
                }
                Ok(StepOutcome::Continue)
            },
            Instr::Jp { nnn } => {
                self.program_counter = nnn;
                self.tick_timers();
                proof {
                    let target = spec_execute(old(self)@, instr, 0u8, keys_down, key_event);
                    assert(self@ =~~= target.0);
                }
                Ok(StepOutcome::Continue)
            },
            Instr::Call { nnn } => {
                if self.stack_pointer >= 16 {
                    proof {
                        let target = spec_execute(old(self)@, instr, 0u8, keys_down, key_event);
                        assert(target == (old(self)@, Err::<StepOutcome, Fault>(
                            Fault::StackOverflow,
                        )));
                    }
                    return Err(Fault::StackOverflow);
                }
                self.call_stack[self.stack_pointer] = self.program_counter + 2;
                self.stack_pointer = self.stack_pointer + 1;
                self.program_counter = nnn;
                self.tick_timers();
                proof {
                    let target = spec_execute(old(self)@, instr, 0u8, keys_down, key_event);
                    assert(self@ =~~= target.0);
                }
                Ok(StepOutcome::Continue)
            },
            Instr::SeImm { x, kk } => {
                self.program_counter = self.program_counter + 2;
                let a = self.registers[x as usize];
                self.se(a, kk);
                self.tick_timers();
                proof {
                    let target = spec_execute(old(self)@, instr, 0u8, keys_down, key_event);
                    assert(self@ =~~= target.0);
                }
                Ok(StepOutcome::Continue)
            },
            Instr::SneImm { x, kk } => {
                self.program_counter = self.program_counter + 2;
                let a = self.registers[x as usize];
                self.sne(a, kk);
                self.tick_timers();
                proof {
                    let target = spec_execute(old(self)@, instr, 0u8, keys_down, key_event);
                    assert(self@ =~~= target.0);
                }
                Ok(StepOutcome::Continue)
            },
            Instr::SeReg { x, y } => {
                self.program_counter = self.program_counter + 2;
                let a = self.registers[x as usize];
                let b = self.registers[y as usize];
                self.se(a, b);
                self.tick_timers();
                proof {
                    let target = spec_execute(old(self)@, instr, 0u8, keys_down, key_event);
                    assert(self@ =~~= target.0);
                }
                Ok(StepOutcome::Continue)
            },
            Instr::SneReg { x, y } => {
                self.program_counter = self.program_counter + 2;
                let a = self.registers[x as usize];
                let b = self.registers[y as usize];
                self.sne(a, b);
                self.tick_timers();
                proof {
                    let target = spec_execute(old(self)@, instr, 0u8, keys_down, key_event);
                    assert(self@ =~~= target.0);
                }
                Ok(StepOutcome::Continue)
            },
            Instr::LdImm { x, kk } => {
                self.program_counter = self.program_counter + 2;
                self.registers[x as usize] = kk;
                self.tick_timers();
                proof {
                    let target = spec_execute(old(self)@, instr, 0u8, keys_down, key_event);
                    assert(self@ =~~= target.0);
                }
                Ok(StepOutcome::Continue)
            },
            Instr::AddImm { x, kk } => {
                self.program_counter = self.program_counter + 2;
                let a = self.registers[x as usize];
                let sum: u16 = a as u16 + kk as u16;
                self.registers[x as usize] = (sum % 256) as u8;
                self.tick_timers();
                proof {
                    let target = spec_execute(old(self)@, instr, 0u8, keys_down, key_event);
                    assert(self@ =~~= target.0);
                }
                Ok(StepOutcome::Continue)
            },
            Instr::LdReg { x, y } => {
                self.program_counter = self.program_counter + 2;
                let b = self.registers[y as usize];
                self.registers[x as usize] = b;
                self.tick_timers();
                proof {
                    let target = spec_execute(old(self)@, instr, 0u8, keys_down, key_event);
                    assert(self@ =~~= target.0);
                }
                Ok(StepOutcome::Continue)
            },
            Instr::OrReg { x, y } => {
                self.program_counter = self.program_counter + 2;
                let a = self.registers[x as usize];
                let b = self.registers[y as usize];
                self.registers[x as usize] = a | b;
                self.tick_timers();
                proof {
                    let target = spec_execute(old(self)@, instr, 0u8, keys_down, key_event);
                    assert(self@ =~~= target.0);
                }
                Ok(StepOutcome::Continue)
            },
            Instr::AndReg { x, y } => {
                self.program_counter = self.program_counter + 2;
                let a = self.registers[x as usize];
                let b = self.registers[y as usize];
                self.registers[x as usize] = a & b;
                self.tick_timers();
                proof {
                    let target = spec_execute(old(self)@, instr, 0u8, keys_down, key_event);
                    assert(self@ =~~= target.0);
                }
                Ok(StepOutcome::Continue)
            },
            Instr::XorReg { x, y } => {
                self.program_counter = self.program_counter + 2;
                let a = self.registers[x as usize];
                let b = self.registers[y as usize];
                self.registers[x as usize] = a ^ b;
                self.tick_timers();
                proof {
                    let target = spec_execute(old(self)@, instr, 0u8, keys_down, key_event);
                    assert(self@ =~~= target.0);
                }
                Ok(StepOutcome::Continue)
            },
            Instr::AddReg { x, y } => {
                self.program_counter = self.program_counter + 2;
                let a = self.registers[x as usize];
                let b = self.registers[y as usize];
                let sum: u16 = a as u16 + b as u16;
                self.registers[x as usize] = (sum % 256) as u8;
                self.registers[15] = if sum > 255 {
                    1
                } else {
                    0
                };
                self.tick_timers();
                proof {
                    let target = spec_execute(old(self)@, instr, 0u8, keys_down, key_event);
                    assert(self@ =~~= target.0);
                }
                Ok(StepOutcome::Continue)
            },
            Instr::SubReg { x, y } => {
                self.program_counter = self.program_counter + 2;
                let gt = self.registers[x as usize] > self.registers[y as usize];
                self.registers[15] = if gt {
                    1
                } else {
                    0
                };
                let a = self.registers[x as usize];
                let b = self.registers[y as usize];
                let diff: u16 = a as u16 + 256 - b as u16;
                self.registers[x as usize] = (diff % 256) as u8;
                self.tick_timers();
                proof {
                    let target = spec_execute(old(self)@, instr, 0u8, keys_down, key_event);
                    assert(self@ =~~= target.0);
                }
                Ok(StepOutcome::Continue)
            },
            Instr::Shr { x } => {
                self.program_counter = self.program_counter + 2;
                self.registers[15] = self.registers[x as usize] % 2;
                let a = self.registers[x as usize];
                self.registers[x as usize] = a / 2;
                self.tick_timers();
                proof {
                    let target = spec_execute(old(self)@, instr, 0u8, keys_down, key_event);
                    assert(self@ =~~= target.0);
                }
                Ok(StepOutcome::Continue)
            },
            Instr::SubnReg { x, y } => {
                self.program_counter = self.program_counter + 2;
                let gt = self.registers[y as usize] > self.registers[x as usize];
                self.registers[15] = if gt {
                    1
                } else {
                    0
                };
                let a = self.registers[x as usize];
                let b = self.registers[y as usize];
                let diff: u16 = b as u16 + 256 - a as u16;
                self.registers[x as usize] = (diff % 256) as u8;
                self.tick_timers();
                proof {
                    let target = spec_execute(old(self)@, instr, 0u8, keys_down, key_event);
                    assert(self@ =~~= target.0);
                }
                Ok(StepOutcome::Continue)
            },
            Instr::Shl { x } => {
                self.program_counter = self.program_counter + 2;
                self.registers[15] = if self.registers[x as usize] >= 128 {
                    1
                } else {
                    0
                };
                let a = self.registers[x as usize];
                let prod: u16 = a as u16 * 2;
                self.registers[x as usize] = (prod % 256) as u8;
                self.tick_timers();
                proof {
                    let target = spec_execute(old(self)@, instr, 0u8, keys_down, key_event);
                    assert(self@ =~~= target.0);
                }
                Ok(StepOutcome::Continue)
            },
            Instr::LdI { nnn } => {
                self.program_counter = self.program_counter + 2;
                self.register_i = nnn;
                self.tick_timers();
                proof {
                    let target = spec_execute(old(self)@, instr, 0u8, keys_down, key_event);
                    assert(self@ =~~= target.0);
                }
                Ok(StepOutcome::Continue)
            },
            Instr::JpV0 { nnn } => {
                self.program_counter = nnn + self.registers[0] as u16;
                self.tick_timers();
                proof {
                    let target = spec_execute(old(self)@, instr, 0u8, keys_down, key_event);
                    assert(self@ =~~= target.0);
                }
                Ok(StepOutcome::Continue)
            },
            Instr::Rnd { x, kk } => {
                self.program_counter = self.program_counter + 2;
                let rb = crate::rng::random_byte();
                self.registers[x as usize] = rb & kk;
                self.tick_timers();
                proof {
                    let target = spec_execute(old(self)@, instr, rb, keys_down, key_event);
                    assert(self@ =~~= target.0);
                }
                Ok(StepOutcome::Continue)
            },
            Instr::Drw { x, y, n } => {
                if self.register_i as usize + n as usize > 4096 {
                    proof {
                        let target = spec_execute(old(self)@, instr, 0u8, keys_down, key_event);
                        assert(target == (old(self)@, Err::<StepOutcome, Fault>(
                            Fault::OutOfBounds,
                        )));
                    }
                    return Err(Fault::OutOfBounds);
                }
                self.program_counter = self.program_counter + 2;
                self.draw_sprite(x, y, n);
                self.tick_timers();
                proof {
                    let target = spec_execute(old(self)@, instr, 0u8, keys_down, key_event);
                    assert(self@ =~~= target.0);
                }
                Ok(StepOutcome::Draw)
            },
            Instr::Skp { x } => {
                self.program_counter = self.program_counter + 2;
                let vxv = self.registers[x as usize];
                let pressed = vxv < 16 && (keys_down >> (vxv as u16)) & 1 == 1;
                if pressed {
                    self.program_counter = self.program_counter + 2;
                }
                self.tick_timers();
                proof {
                    let target = spec_execute(old(self)@, instr, 0u8, keys_down, key_event);
                    assert(self@ =~~= target.0);
                }
                Ok(StepOutcome::Continue)
            },
            Instr::Sknp { x } => {
                self.program_counter = self.program_counter + 2;
                let vxv = self.registers[x as usize];
                let pressed = vxv < 16 && (keys_down >> (vxv as u16)) & 1 == 1;
                if !pressed {
                    self.program_counter = self.program_counter + 2;
                }
                self.tick_timers();
                proof {
                    let target = spec_execute(old(self)@, instr, 0u8, keys_down, key_event);
                    assert(self@ =~~= target.0);
                }
                Ok(StepOutcome::Continue)
            },
            Instr::LdDt { x } => {
                self.program_counter = self.program_counter + 2;
                self.registers[x as usize] = self.delay_timer;
                self.tick_timers();
                proof {
                    let target = spec_execute(old(self)@, instr, 0u8, keys_down, key_event);
                    assert(self@ =~~= target.0);
                }
                Ok(StepOutcome::Continue)
            },
            Instr::LdKey { x } => {
                match key_event {
                    None => {
                        proof {
                            let target = spec_execute(old(self)@, instr, 0u8, keys_down, key_event);
                            assert(target == (old(self)@, Ok::<StepOutcome, Fault>(
                                StepOutcome::WaitingForKey,
                            )));
                        }
                        Ok(StepOutcome::WaitingForKey)
                    },
                    Some(k) => {
                        self.program_counter = self.program_counter + 2;
                        self.registers[x as usize] = k;
                        self.tick_timers();
                        proof {
                            let target = spec_execute(old(self)@, instr, 0u8, keys_down, key_event);
                            assert(self@ =~~= target.0);
                        }
                        Ok(StepOutcome::Continue)
                    },
                }
            },
            Instr::SetDt { x } => {
                self.program_counter = self.program_counter + 2;
                self.delay_timer = self.registers[x as usize];
                self.tick_timers();
                proof {
                    let target = spec_execute(old(self)@, instr, 0u8, keys_down, key_event);
                    assert(self@ =~~= target.0);
                }
                Ok(StepOutcome::Continue)
            },
            Instr::SetSt { x } => {
                self.program_counter = self.program_counter + 2;
                self.sound_timer = self.registers[x as usize];
                self.tick_timers();
                proof {
                    let target = spec_execute(old(self)@, instr, 0u8, keys_down, key_event);
                    assert(self@ =~~= target.0);
                }
                Ok(StepOutcome::Continue)
            },
            Instr::AddI { x } => {
                self.program_counter = self.program_counter + 2;
                let sum: u32 = self.register_i as u32 + self.registers[x as usize] as u32;
                self.register_i = (sum % 0x10000) as u16;
                self.tick_timers();
                proof {
                    let target = spec_execute(old(self)@, instr, 0u8, keys_down, key_event);
                    assert(self@ =~~= target.0);
                }
                Ok(StepOutcome::Continue)
            },
            Instr::LdFont { x } => {
                self.program_counter = self.program_counter + 2;
                self.register_i = self.registers[x as usize] as u16 * 5;
                self.tick_timers();
                proof {
                    let target = spec_execute(old(self)@, instr, 0u8, keys_down, key_event);
                    assert(self@ =~~= target.0);
                }
                Ok(StepOutcome::Continue)
            },
            Instr::Bcd { x } => {
                if self.register_i >= 4094 {
                    proof {
                        let target = spec_execute(old(self)@, instr, 0u8, keys_down, key_event);
                        assert(target == (old(self)@, Err::<StepOutcome, Fault>(
                            Fault::OutOfBounds,
                        )));
                    }
                    return Err(Fault::OutOfBounds);
                }
                self.program_counter = self.program_counter + 2;
                let v = self.registers[x as usize];
                let base = self.register_i as usize;
                self.memory[base] = v / 100;
                self.memory[base + 1] = (v / 10) % 10;
                self.memory[base + 2] = v % 10;
                self.tick_timers();
                proof {
                    let target = spec_execute(old(self)@, instr, 0u8, keys_down, key_event);
                    assert(self@ =~~= target.0);
                }
                Ok(StepOutcome::Continue)
            },
            Instr::StoreRegs { x } => {
                if self.register_i as usize + x as usize >= 4096 {
                    proof {
                        let target = spec_execute(old(self)@, instr, 0u8, keys_down, key_event);
                        assert(target == (old(self)@, Err::<StepOutcome, Fault>(
                            Fault::OutOfBounds,
                        )));
                    }
                    return Err(Fault::OutOfBounds);
                }
                self.program_counter = self.program_counter + 2;
                let base = self.register_i as usize;
                let ghost mid = self@;
                let mut k: usize = 0;
                while k <= x as usize
                    invariant
                        self.wf(),
                        self.wf() == old(self).wf(),
                        x < 16,
                        base + x < 4096,
                        base == mid.register_i as usize,
                        k <= x as usize + 1,
                        mid.registers.len() == 16,
                        self@ == (StateV { memory: self@.memory, ..mid }),
                        forall|a: int|
                            0 <= a < 4096 && !(base <= a < base + k) ==> self@.memory[a]
                                == mid.memory[a],
                        forall|a: int|
                            base <= a < base + k ==> self@.memory[a] == mid.registers[a - base],
                    decreases x as usize + 1 - k,
                {
                    self.memory[base + k] = self.registers[k];
                    k = k + 1;
                }
                self.tick_timers();
                proof {
                    let target = spec_execute(old(self)@, instr, 0u8, keys_down, key_event);
                    assert(self@ =~~= target.0);
                }
                Ok(StepOutcome::Continue)
            },
            Instr::LoadRegs { x } => {
                if self.register_i as usize + x as usize >= 4096 {
                    proof {
                        let target = spec_execute(old(self)@, instr, 0u8, keys_down, key_event);
                        assert(target == (old(self)@, Err::<StepOutcome, Fault>(
                            Fault::OutOfBounds,
                        )));
                    }
                    return Err(Fault::OutOfBounds);
                }
                self.program_counter = self.program_counter + 2;
                let base = self.register_i as usize;
                let ghost mid = self@;
                let mut k: usize = 0;
                while k <= x as usize
                    invariant
                        self.wf(),
                        self.wf() == old(self).wf(),
                        x < 16,
                        base + x < 4096,
                        base == mid.register_i as usize,
                        k <= x as usize + 1,
                        mid.memory.len() == 4096,
                        self@ == (StateV { registers: self@.registers, ..mid }),
                        forall|q: int|
                            k <= q < 16 ==> self@.registers[q] == mid.registers[q],
                        forall|q: int|
                            0 <= q < k ==> self@.registers[q] == mid.memory[base + q],
                    decreases x as usize + 1 - k,
                {
                    self.registers[k] = self.memory[base + k];
                    k = k + 1;
                }
                self.tick_timers();
                proof {
                    let target = spec_execute(old(self)@, instr, 0u8, keys_down, key_event);
                    assert(self@ =~~= target.0);
                }
                Ok(StepOutcome::Continue)
            },
            Instr::Unknown => {
                proof {
                    let target = spec_execute(old(self)@, instr, 0u8, keys_down, key_event);
                    assert(target == (old(self)@, Err::<StepOutcome, Fault>(Fault::UnknownOpcode)));
                }
                Err(Fault::UnknownOpcode)
            },
        }
    }

    /// One fetch-decode-execute cycle.
    ///
    /// `keys_down` is the key bitmask the input collaborator currently
    /// reports (bit k set means key k is held), and `key_event` hands a key
    /// press to a pending key-wait instruction. The cycle follows
    /// [`spec_step`] exactly, for some byte of the random source; a fault
    /// leaves the machine unchanged.
    pub fn step(&mut self, keys_down: u16, key_event: Option<u8>) -> (r: Result<StepOutcome, Fault>)
        requires
            old(self).wf(),
            key_event matches Some(k) ==> k < 16,
        ensures
            final(self).wf(),
            exists|rb: u8|
                (final(self)@, r) == spec_step(old(self)@, rb, keys_down, key_event),
    {
        if self.program_counter >= 4095 {
            proof {
                assert(spec_step(old(self)@, 0u8, keys_down, key_event) == (old(self)@, Err::<
                    StepOutcome,
                    Fault,
                >(Fault::OutOfBounds)));
            }
            return Err(Fault::OutOfBounds);
        }
        let op = self.read_opcode();
        let instr = decode(op);
        let r = self.execute(instr, keys_down, key_event);
        proof {
            let rb = choose|rb: u8|
                (self@, r) == spec_execute(old(self)@, instr, rb, keys_down, key_event);
            assert((self@, r) == spec_step(old(self)@, rb, keys_down, key_event));
        }
        r
    }
}

} // verus!
