//! The mathematical model of the machine: its abstract state and the exact
//! effect of one fetch-decode-execute step, as the architecture defines it.
//!
//! [`spec_step`] is the semantics table in spec form; the executable
//! [`crate::machine::CPU::step`] is proved to follow it.

use vstd::prelude::*;
use crate::decode::{Instr, spec_decode};

verus! {

/// Abstract machine state: what every contract of this crate speaks of.
#[verifier::ext_equal]
pub ghost struct StateV {
    /// 4096 addressable bytes; the font lives at 0..80, programs at 512..
    pub memory: Seq<u8>,
    /// The 16 general-purpose byte registers; register 0xF doubles as the
    /// carry/borrow/collision flag.
    pub registers: Seq<u8>,
    /// The 16-bit address register used by memory-indexed operations.
    pub register_i: u16,
    /// Address of the next instruction to fetch.
    pub program_counter: u16,
    /// Saved return addresses, most recent last; at most 16 frames.
    pub call_stack: Seq<u16>,
    /// Countdown timer, decremented once per executed instruction, floor 0.
    pub delay_timer: u8,
    /// Countdown timer for sound, same decrement rule.
    pub sound_timer: u8,
    /// 32 rows of 64 pixels, row-major; `true` is an on pixel.
    pub framebuffer: Seq<bool>,
}

/// What `step` reports for one executed instruction.
#[derive(Clone, Copy, PartialEq, Eq, Structural, Debug)]
pub enum StepOutcome {
    /// The instruction completed; execution may continue.
    Continue,
    /// The instruction completed and changed the framebuffer, which should
    /// now be handed to the display sink.
    Draw,
    /// The halt word was executed; the run loop must stop.
    Halt,
    /// The key-wait instruction found no key event; the machine is
    /// unchanged and the same instruction re-executes once a key arrives.
    WaitingForKey,
}

/// The fatal errors: none is recoverable, and a faulting step leaves the
/// machine exactly as it was.
#[derive(Clone, Copy, PartialEq, Eq, Structural, Debug)]
pub enum Fault {
    /// The fetched word matches no pattern of the semantics table.
    UnknownOpcode,
    /// A call would push a seventeenth frame.
    StackOverflow,
    /// A return found no frame to pop.
    StackUnderflow,
    /// A fetch or a memory-indexed operation would pass the 4096-byte end.
    OutOfBounds,
}

/// The shape every reachable machine state has.
pub open spec fn state_wf(s: StateV) -> bool {
    &&& s.memory.len() == 4096
    &&& s.registers.len() == 16
    &&& s.call_stack.len() <= 16
    &&& s.framebuffer.len() == 2048
}

/// The architecture-mandated font: 16 glyphs of 5 bytes, one 4x5 bitmap per
/// hex digit, preloaded at addresses 0..80.
pub open spec fn spec_font() -> Seq<u8> {
    seq![
        0xF0u8, 0x90, 0x90, 0x90, 0xF0, 0x20, 0x60, 0x20, 0x20, 0x70, 0xF0, 0x10, 0xF0, 0x80, 0xF0,
        0xF0, 0x10, 0xF0, 0x10, 0xF0, 0x90, 0x90, 0xF0, 0x10, 0x10, 0xF0, 0x80, 0xF0, 0x10, 0xF0,
        0xF0, 0x80, 0xF0, 0x90, 0xF0, 0xF0, 0x10, 0x20, 0x40, 0x40, 0xF0, 0x90, 0xF0, 0x90, 0xF0,
        0xF0, 0x90, 0xF0, 0x10, 0xF0, 0xF0, 0x90, 0xF0, 0x90, 0x90, 0xE0, 0x90, 0xE0, 0x90, 0xE0,
        0xF0, 0x80, 0x80, 0x80, 0xF0, 0xE0, 0x90, 0x90, 0x90, 0xE0, 0xF0, 0x80, 0xF0, 0x80, 0xF0,
        0xF0, 0x80, 0xF0, 0x80, 0x80,
    ]
}

/// The state a freshly constructed machine is in: all zero but for the font
/// and the program counter at 512.
pub open spec fn spec_initial() -> StateV {
    StateV {
        memory: Seq::new(4096, |a: int| if a < 80 { spec_font()[a] } else { 0u8 }),
        registers: Seq::new(16, |r: int| 0u8),
        register_i: 0u16,
        program_counter: 512u16,
        call_stack: Seq::empty(),
        delay_timer: 0u8,
        sound_timer: 0u8,
        framebuffer: Seq::new(2048, |p: int| false),
    }
}

/// Two consecutive memory bytes at `addr`, combined big-endian.
pub open spec fn spec_word_at(s: StateV, addr: int) -> u16 {
    (s.memory[addr] * 256 + s.memory[addr + 1]) as u16
}

/// 1 for a raised flag, 0 for a lowered one.
pub open spec fn flag(b: bool) -> u8 {
    if b {
        1u8
    } else {
        0u8
    }
}

/// Byte addition truncated to 8 bits.
pub open spec fn wrap_add8(a: u8, b: u8) -> u8 {
    ((a + b) % 256) as u8
}

/// Byte subtraction wrapped modulo 256.
pub open spec fn wrap_sub8(a: u8, b: u8) -> u8 {
    ((a - b + 256) % 256) as u8
}

/// Both timers decremented by one, clamped at zero.
pub open spec fn spec_tick(s: StateV) -> StateV {
    StateV {
        delay_timer: if s.delay_timer > 0 { (s.delay_timer - 1) as u8 } else { 0u8 },
        sound_timer: if s.sound_timer > 0 { (s.sound_timer - 1) as u8 } else { 0u8 },
        ..s
    }
}

/// Whether key `k` is down in the bitmask `keys_down` (bit `k` set); a value
/// of 16 or more names no key and counts as up.
pub open spec fn spec_key_down(keys_down: u16, k: u8) -> bool {
    k < 16 && (keys_down >> (k as u16)) & 1 == 1
}

/// Bit `j` of a sprite row byte, counted from the left: bit 0 is the
/// most-significant bit, the leftmost pixel.
pub open spec fn row_bit(b: u8, j: int) -> bool {
    (b >> ((7 - j) as u8)) & 1 == 1
}

/// Row-major framebuffer index of the wrapped coordinate (row, col).
pub open spec fn pix(row: int, col: int) -> int {
    (row % 32) * 64 + (col % 64)
}

/// The `n` sprite rows read from memory starting at `base`.
pub open spec fn sprite_rows(mem: Seq<u8>, base: int, n: int) -> Seq<u8> {
    Seq::new(n as nat, |i: int| mem[base + i])
}

/// The framebuffer after XOR-compositing the sprite `rows` at origin
/// (vx, vy), columns wrapping modulo 64 and rows modulo 32.
///
/// Requires 0 <= vx < 64, 0 <= vy < 32 and rows.len() <= 15, so each pixel is
/// touched by at most one sprite position; the sprite position covering
/// pixel `p` is then recovered from `p` directly.
pub open spec fn draw_fb(fb: Seq<bool>, rows: Seq<u8>, vx: int, vy: int) -> Seq<bool> {
    Seq::new(2048, |p: int|
        {
            let i = (p / 64 - vy + 32) % 32;
            let j = (p % 64 - vx + 64) % 64;
            if i < rows.len() && j < 8 && row_bit(rows[i], j) {
                !fb[p]
            } else {
                fb[p]
            }
        },
    )
}

/// Whether XOR-compositing the sprite `rows` at (vx, vy) turns any on pixel
/// off: the collision condition of the draw instruction.
pub open spec fn draw_collision(fb: Seq<bool>, rows: Seq<u8>, vx: int, vy: int) -> bool {
    exists|i: int, j: int|
        0 <= i < rows.len() && 0 <= j < 8 && #[trigger] row_bit(rows[i], j) && fb[pix(
            vy + i,
            vx + j,
        )]
}

/// The framebuffer after the sprite positions strictly before (i, j) in
/// row-major order have been XOR-composited: what the draw loop has done so
/// far.
pub open spec fn draw_upto(
    fb: Seq<bool>,
    rows: Seq<u8>,
    vx: int,
    vy: int,
    i: int,
    j: int,
) -> Seq<bool> {
    Seq::new(2048, |p: int|
        {
            let pi = (p / 64 - vy + 32) % 32;
            let pj = (p % 64 - vx + 64) % 64;
            if pi < rows.len() && pj < 8 && (pi < i || (pi == i && pj < j)) && row_bit(
                rows[pi],
                pj,
            ) {
                !fb[p]
            } else {
                fb[p]
            }
        },
    )
}

/// Whether some sprite position strictly before (i, j) in row-major order
/// collided: the draw loop's running collision flag.
pub open spec fn collision_upto(
    fb: Seq<bool>,
    rows: Seq<u8>,
    vx: int,
    vy: int,
    i: int,
    j: int,
) -> bool {
    exists|pi: int, pj: int|
        0 <= pi < rows.len() && 0 <= pj < 8 && (pi < i || (pi == i && pj < j)) && #[trigger] row_bit(
            rows[pi],
            pj,
        ) && fb[pix(vy + pi, vx + pj)]
}

/// Once every sprite position has been composited, the loop's partial
/// framebuffer and collision flag are exactly the draw model's.
pub proof fn lemma_draw_upto_complete(fb: Seq<bool>, rows: Seq<u8>, vx: int, vy: int)
    ensures
        draw_upto(fb, rows, vx, vy, rows.len() as int, 0) =~= draw_fb(fb, rows, vx, vy),
        collision_upto(fb, rows, vx, vy, rows.len() as int, 0) == draw_collision(
            fb,
            rows,
            vx,
            vy,
        ),
{
    assert(draw_upto(fb, rows, vx, vy, rows.len() as int, 0) =~= draw_fb(fb, rows, vx, vy));
    if collision_upto(fb, rows, vx, vy, rows.len() as int, 0) {
        let (pi, pj) = choose|pi: int, pj: int|
            0 <= pi < rows.len() && 0 <= pj < 8 && (pi < rows.len() || (pi == rows.len() && pj < 0))
                && #[trigger] row_bit(rows[pi], pj) && fb[pix(vy + pi, vx + pj)];
        assert(0 <= pi < rows.len() && 0 <= pj < 8 && row_bit(rows[pi], pj) && fb[pix(
            vy + pi,
            vx + pj,
        )]);
    }
    if draw_collision(fb, rows, vx, vy) {
        let (pi, pj) = choose|pi: int, pj: int|
            0 <= pi < rows.len() && 0 <= pj < 8 && #[trigger] row_bit(rows[pi], pj) && fb[pix(
                vy + pi,
                vx + pj,
            )];
        assert(0 <= pi < rows.len() && 0 <= pj < 8 && (pi < rows.len() as int || (pi
            == rows.len() as int && pj < 0)) && row_bit(rows[pi], pj) && fb[pix(vy + pi, vx + pj)]);
    }
}

/// State `s` with register `x` set to `v`.
pub open spec fn with_reg(s: StateV, x: int, v: u8) -> StateV {
    StateV { registers: s.registers.update(x, v), ..s }
}

/// One fetch-decode-execute step on the abstract state.
///
/// `rand_byte` stands for the byte the random source produced, `keys_down`
/// is the key bitmask the input collaborator reports, and `key_event` is the
/// key press handed to a pending key-wait, if any. A fault leaves the state
/// exactly as it was.
pub open spec fn spec_step(
    s: StateV,
    rand_byte: u8,
    keys_down: u16,
    key_event: Option<u8>,
) -> (StateV, Result<StepOutcome, Fault>) {
    if s.program_counter + 1 >= 4096 {
        (s, Err(Fault::OutOfBounds))
    } else {
        let instr = spec_decode(spec_word_at(s, s.program_counter as int));
        if instr is Unknown {
            (s, Err(Fault::UnknownOpcode))
        } else {
            spec_execute(s, instr, rand_byte, keys_down, key_event)
        }
    }
}

/// The effect of one decoded instruction on state `s`, the program counter
/// advancing by 2 before the instruction's own effect, and both timers
/// ticking after every executed instruction (not after a halt, a wait or a
/// fault).
pub open spec fn spec_execute(
    s: StateV,
    instr: Instr,
    rand_byte: u8,
    keys_down: u16,
    key_event: Option<u8>,
) -> (StateV, Result<StepOutcome, Fault>) {
    // The baseline every instruction starts from: the address of the next
    // sequential instruction.
    let t = StateV { program_counter: (s.program_counter + 2) as u16, ..s };
    match instr {
        Instr::Halt => (t, Ok(StepOutcome::Halt)),
        Instr::Cls => (
            spec_tick(StateV { framebuffer: Seq::new(2048, |p: int| false), ..t }),
            Ok(StepOutcome::Continue),
        ),
        Instr::Ret => {
            if s.call_stack.len() == 0 {
                (s, Err(Fault::StackUnderflow))
            } else {
                (
                    spec_tick(
                        StateV {
                            program_counter: s.call_stack.last(),
                            call_stack: s.call_stack.drop_last(),
                            ..t
                        },
                    ),
                    Ok(StepOutcome::Continue),
                )
            }
        },
        Instr::Jp { nnn } => (spec_tick(StateV { program_counter: nnn, ..t }), Ok(
            StepOutcome::Continue,
        )),
        Instr::Call { nnn } => {
            if s.call_stack.len() >= 16 {
                (s, Err(Fault::StackOverflow))
            } else {
                (
                    spec_tick(
                        StateV {
                            program_counter: nnn,
                            call_stack: s.call_stack.push(t.program_counter),
                            ..t
                        },
                    ),
                    Ok(StepOutcome::Continue),
                )
            }
        },
        Instr::SeImm { x, kk } => (
            spec_tick(
                StateV {
                    program_counter: if s.registers[x as int] == kk {
                        (s.program_counter + 4) as u16
                    } else {
                        (s.program_counter + 2) as u16
                    },
                    ..s
                },
            ),
            Ok(StepOutcome::Continue),
        ),
        Instr::SneImm { x, kk } => (
            spec_tick(
                StateV {
                    program_counter: if s.registers[x as int] != kk {
                        (s.program_counter + 4) as u16
                    } else {
                        (s.program_counter + 2) as u16
                    },
                    ..s
                },
            ),
            Ok(StepOutcome::Continue),
        ),
        Instr::SeReg { x, y } => (
            spec_tick(
                StateV {
                    program_counter: if s.registers[x as int] == s.registers[y as int] {
                        (s.program_counter + 4) as u16
                    } else {
                        (s.program_counter + 2) as u16
                    },
                    ..s
                },
            ),
            Ok(StepOutcome::Continue),
        ),
        Instr::SneReg { x, y } => (
            spec_tick(
                StateV {
                    program_counter: if s.registers[x as int] != s.registers[y as int] {
                        (s.program_counter + 4) as u16
                    } else {
                        (s.program_counter + 2) as u16
                    },
                    ..s
                },
            ),
            Ok(StepOutcome::Continue),
        ),
        Instr::LdImm { x, kk } => (spec_tick(with_reg(t, x as int, kk)), Ok(StepOutcome::Continue)),
        Instr::AddImm { x, kk } => (
            spec_tick(with_reg(t, x as int, wrap_add8(s.registers[x as int], kk))),
            Ok(StepOutcome::Continue),
        ),
        Instr::LdReg { x, y } => (
            spec_tick(with_reg(t, x as int, s.registers[y as int])),
            Ok(StepOutcome::Continue),
        ),
        Instr::OrReg { x, y } => (
            spec_tick(with_reg(t, x as int, s.registers[x as int] | s.registers[y as int])),
            Ok(StepOutcome::Continue),
        ),
        Instr::AndReg { x, y } => (
            spec_tick(with_reg(t, x as int, s.registers[x as int] & s.registers[y as int])),
            Ok(StepOutcome::Continue),
        ),
        Instr::XorReg { x, y } => (
            spec_tick(with_reg(t, x as int, s.registers[x as int] ^ s.registers[y as int])),
            Ok(StepOutcome::Continue),
        ),
        Instr::AddReg { x, y } => {
            let sum = s.registers[x as int] + s.registers[y as int];
            let r1 = t.registers.update(x as int, (sum % 256) as u8);
            let r2 = r1.update(15, flag(sum > 255));
            (spec_tick(StateV { registers: r2, ..t }), Ok(StepOutcome::Continue))
        },
        Instr::SubReg { x, y } => {
            let r1 = t.registers.update(15, flag(s.registers[x as int] > s.registers[y as int]));
            let r2 = r1.update(x as int, wrap_sub8(r1[x as int], r1[y as int]));
            (spec_tick(StateV { registers: r2, ..t }), Ok(StepOutcome::Continue))
        },
        Instr::Shr { x } => {
            let r1 = t.registers.update(15, (s.registers[x as int] % 2) as u8);
            let r2 = r1.update(x as int, (r1[x as int] / 2) as u8);
            (spec_tick(StateV { registers: r2, ..t }), Ok(StepOutcome::Continue))
        },
        Instr::SubnReg { x, y } => {
            let r1 = t.registers.update(15, flag(s.registers[y as int] > s.registers[x as int]));
            let r2 = r1.update(x as int, wrap_sub8(r1[y as int], r1[x as int]));
            (spec_tick(StateV { registers: r2, ..t }), Ok(StepOutcome::Continue))
        },
        Instr::Shl { x } => {
            let r1 = t.registers.update(15, flag(s.registers[x as int] >= 128));
            let r2 = r1.update(x as int, ((r1[x as int] * 2) % 256) as u8);
            (spec_tick(StateV { registers: r2, ..t }), Ok(StepOutcome::Continue))
        },
        Instr::LdI { nnn } => (spec_tick(StateV { register_i: nnn, ..t }), Ok(
            StepOutcome::Continue,
        )),
        Instr::JpV0 { nnn } => (
            spec_tick(StateV { program_counter: (nnn + s.registers[0]) as u16, ..t }),
            Ok(StepOutcome::Continue),
        ),
        Instr::Rnd { x, kk } => (spec_tick(with_reg(t, x as int, rand_byte & kk)), Ok(
            StepOutcome::Continue,
        )),
        Instr::Drw { x, y, n } => {
            if s.register_i + n > 4096 {
                (s, Err(Fault::OutOfBounds))
            } else {
                let rows = sprite_rows(s.memory, s.register_i as int, n as int);
                let vx = s.registers[x as int] % 64;
                let vy = s.registers[y as int] % 32;
                let collided = draw_collision(s.framebuffer, rows, vx as int, vy as int);
                (
                    spec_tick(
                        StateV {
                            framebuffer: draw_fb(s.framebuffer, rows, vx as int, vy as int),
                            registers: t.registers.update(15, flag(collided)),
                            ..t
                        },
                    ),
                    Ok(StepOutcome::Draw),
                )
            }
        },
        Instr::Skp { x } => (
            spec_tick(
                StateV {
                    program_counter: if spec_key_down(keys_down, s.registers[x as int]) {
                        (s.program_counter + 4) as u16
                    } else {
                        (s.program_counter + 2) as u16
                    },
                    ..s
                },
            ),
            Ok(StepOutcome::Continue),
        ),
        Instr::Sknp { x } => (
            spec_tick(
                StateV {
                    program_counter: if !spec_key_down(keys_down, s.registers[x as int]) {
                        (s.program_counter + 4) as u16
                    } else {
                        (s.program_counter + 2) as u16
                    },
                    ..s
                },
            ),
            Ok(StepOutcome::Continue),
        ),
        Instr::LdDt { x } => (spec_tick(with_reg(t, x as int, s.delay_timer)), Ok(
            StepOutcome::Continue,
        )),
        Instr::LdKey { x } => {
            match key_event {
                None => (s, Ok(StepOutcome::WaitingForKey)),
                Some(k) => (spec_tick(with_reg(t, x as int, k)), Ok(StepOutcome::Continue)),
            }
        },
        Instr::SetDt { x } => (
            spec_tick(StateV { delay_timer: s.registers[x as int], ..t }),
            Ok(StepOutcome::Continue),
        ),
        Instr::SetSt { x } => (
            spec_tick(StateV { sound_timer: s.registers[x as int], ..t }),
            Ok(StepOutcome::Continue),
        ),
        Instr::AddI { x } => (
            spec_tick(
                StateV {
                    register_i: ((s.register_i + s.registers[x as int]) % 0x10000) as u16,
                    ..t
                },
            ),
            Ok(StepOutcome::Continue),
        ),
        Instr::LdFont { x } => (
            spec_tick(StateV { register_i: (s.registers[x as int] * 5) as u16, ..t }),
            Ok(StepOutcome::Continue),
        ),
        Instr::Bcd { x } => {
            if s.register_i + 2 >= 4096 {
                (s, Err(Fault::OutOfBounds))
            } else {
                let v = s.registers[x as int];
                let base = s.register_i as int;
                let mem = s.memory.update(base, (v / 100) as u8).update(
                    base + 1,
                    ((v / 10) % 10) as u8,
                ).update(base + 2, (v % 10) as u8);
                (spec_tick(StateV { memory: mem, ..t }), Ok(StepOutcome::Continue))
            }
        },
        Instr::StoreRegs { x } => {
            if s.register_i + x >= 4096 {
                (s, Err(Fault::OutOfBounds))
            } else {
                let base = s.register_i as int;
                let mem = Seq::new(
                    4096,
                    |a: int|
                        if base <= a <= base + x {
                            s.registers[a - base]
                        } else {
                            s.memory[a]
                        },
                );
                (spec_tick(StateV { memory: mem, ..t }), Ok(StepOutcome::Continue))
            }
        },
        Instr::LoadRegs { x } => {
            if s.register_i + x >= 4096 {
                (s, Err(Fault::OutOfBounds))
            } else {
                let base = s.register_i as int;
                let regs = Seq::new(
                    16,
                    |r: int|
                        if r <= x {
                            s.memory[base + r]
                        } else {
                            s.registers[r]
                        },
                );
                (spec_tick(StateV { registers: regs, ..t }), Ok(StepOutcome::Continue))
            }
        },
        Instr::Unknown => (s, Err(Fault::UnknownOpcode)),
    }
}

} // verus!
