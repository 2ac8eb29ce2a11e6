//! General properties of the machine, proved once and for all inputs from
//! the contracts of the model: arithmetic flags, XOR-draw behaviour,
//! call/return pairing and timer decay.

use vstd::prelude::*;
use crate::decode::{Instr, spec_decode, spec_field_nnn};
use crate::model::{
    StateV, StepOutcome, Fault, state_wf, spec_word_at, spec_step, spec_execute, row_bit, pix,
    draw_fb, draw_collision,
};

verus! {

/// Executing ADD Vx,Vy with Vx=a and Vy=b yields Vx=(a+b) mod 256 and sets
/// the flag register to 1 exactly when a+b exceeds 255. Register 0xF is the
/// flag itself, so it is excluded as the destination.
pub proof fn lemma_add_reg(
    s: StateV,
    x: u8,
    y: u8,
    a: u8,
    b: u8,
    rb: u8,
    keys: u16,
    ev: Option<u8>,
)
    requires
        state_wf(s),
        x < 15,
        y < 16,
        s.registers[x as int] == a,
        s.registers[y as int] == b,
    ensures
        ({
            let (s1, r) = spec_execute(s, Instr::AddReg { x, y }, rb, keys, ev);
            &&& r == Ok::<StepOutcome, Fault>(StepOutcome::Continue)
            &&& s1.registers[x as int] == (a + b) % 256
            &&& s1.registers[15] == (if a + b > 255 {
                1u8
            } else {
                0u8
            })
        }),
{
}

/// Executing SUB Vx,Vy with Vx=a and Vy=b sets the flag to 1 exactly when
/// a > b, and stores (a-b) mod 256: wrapped, not saturated. Register 0xF
/// holds the flag, so neither operand register may be 0xF.
pub proof fn lemma_sub_reg(
    s: StateV,
    x: u8,
    y: u8,
    a: u8,
    b: u8,
    rb: u8,
    keys: u16,
    ev: Option<u8>,
)
    requires
        state_wf(s),
        x < 15,
        y < 15,
        s.registers[x as int] == a,
        s.registers[y as int] == b,
    ensures
        ({
            let (s1, r) = spec_execute(s, Instr::SubReg { x, y }, rb, keys, ev);
            &&& r == Ok::<StepOutcome, Fault>(StepOutcome::Continue)
            &&& s1.registers[x as int] == (a - b) % 256
            &&& s1.registers[15] == (if a > b {
                1u8
            } else {
                0u8
            })
        }),
{
    assert((a - b) % 256 == (a - b + 256) % 256);
}

/// Executing SHR Vx with Vx=a leaves the flag at a's least-significant bit,
/// taken before the shift, and halves a. The flag register cannot be the
/// shifted register.
pub proof fn lemma_shr(s: StateV, x: u8, a: u8, rb: u8, keys: u16, ev: Option<u8>)
    requires
        state_wf(s),
        x < 15,
        s.registers[x as int] == a,
    ensures
        ({
            let (s1, r) = spec_execute(s, Instr::Shr { x }, rb, keys, ev);
            &&& r == Ok::<StepOutcome, Fault>(StepOutcome::Continue)
            &&& s1.registers[15] == a % 2
            &&& s1.registers[x as int] == a / 2
        }),
{
}

/// Executing SHL Vx with Vx=a leaves the flag at a's most-significant bit,
/// taken before the shift, and doubles a modulo 256. The flag register
/// cannot be the shifted register.
pub proof fn lemma_shl(s: StateV, x: u8, a: u8, rb: u8, keys: u16, ev: Option<u8>)
    requires
        state_wf(s),
        x < 15,
        s.registers[x as int] == a,
    ensures
        ({
            let (s1, r) = spec_execute(s, Instr::Shl { x }, rb, keys, ev);
            &&& r == Ok::<StepOutcome, Fault>(StepOutcome::Continue)
            &&& s1.registers[15] == (if a >= 128 {
                1u8
            } else {
                0u8
            })
            &&& s1.registers[x as int] == (a * 2) % 256
        }),
{
}

proof fn lemma_clear_draw_no_collision(fb: Seq<bool>, rows: Seq<u8>, vx: int, vy: int)
    requires
        fb.len() == 2048,
        forall|p: int| 0 <= p < 2048 ==> !fb[p],
        0 <= vx < 64,
        0 <= vy < 32,
    ensures
        !draw_collision(fb, rows, vx, vy),
{
    if draw_collision(fb, rows, vx, vy) {
        let (i, j) = choose|i: int, j: int|
            0 <= i < rows.len() && 0 <= j < 8 && #[trigger] row_bit(rows[i], j) && fb[pix(
                vy + i,
                vx + j,
            )];
        assert(0 <= pix(vy + i, vx + j) < 2048);
    }
}

proof fn lemma_clear_draw_sprite_bits(fb: Seq<bool>, rows: Seq<u8>, vx: int, vy: int)
    requires
        fb.len() == 2048,
        forall|p: int| 0 <= p < 2048 ==> !fb[p],
        rows.len() <= 15,
        0 <= vx < 64,
        0 <= vy < 32,
    ensures
        forall|i: int, j: int|
            0 <= i < rows.len() && 0 <= j < 8 ==> draw_fb(fb, rows, vx, vy)[#[trigger] pix(
                vy + i,
                vx + j,
            )] == row_bit(rows[i], j),
{
    assert forall|i: int, j: int|
        0 <= i < rows.len() && 0 <= j < 8 implies draw_fb(fb, rows, vx, vy)[#[trigger] pix(
        vy + i,
        vx + j,
    )] == row_bit(rows[i], j) by {
        let p = pix(vy + i, vx + j);
        assert(p / 64 == (vy + i) % 32 && p % 64 == (vx + j) % 64);
        assert((p / 64 - vy + 32) % 32 == i && (p % 64 - vx + 64) % 64 == j);
    }
}

proof fn lemma_clear_draw_rest_off(fb: Seq<bool>, rows: Seq<u8>, vx: int, vy: int)
    requires
        fb.len() == 2048,
        forall|p: int| 0 <= p < 2048 ==> !fb[p],
        rows.len() <= 15,
        0 <= vx < 64,
        0 <= vy < 32,
    ensures
        forall|p: int|
            0 <= p < 2048 && #[trigger] draw_fb(fb, rows, vx, vy)[p] ==> exists|i: int, j: int|
                0 <= i < rows.len() && 0 <= j < 8 && p == #[trigger] pix(vy + i, vx + j),
{
    assert forall|p: int| 0 <= p < 2048 && #[trigger] draw_fb(fb, rows, vx, vy)[p] implies exists|
        i: int,
        j: int,
    |
        0 <= i < rows.len() && 0 <= j < 8 && p == #[trigger] pix(vy + i, vx + j) by {
        let pi = (p / 64 - vy + 32) % 32;
        let pj = (p % 64 - vx + 64) % 64;
        assert(pi < rows.len() && pj < 8);
        assert(p == pix(vy + pi, vx + pj));
    }
}

/// Drawing on an all-off framebuffer, as the clear instruction leaves it,
/// reports no collision, shows exactly the sprite's own bits at the wrapped
/// sprite positions, and lights no other pixel.
pub proof fn lemma_draw_on_clear(fb: Seq<bool>, rows: Seq<u8>, vx: int, vy: int)
    requires
        fb.len() == 2048,
        forall|p: int| 0 <= p < 2048 ==> !fb[p],
        rows.len() <= 15,
        0 <= vx < 64,
        0 <= vy < 32,
    ensures
        !draw_collision(fb, rows, vx, vy),
        forall|i: int, j: int|
            0 <= i < rows.len() && 0 <= j < 8 ==> draw_fb(fb, rows, vx, vy)[#[trigger] pix(
                vy + i,
                vx + j,
            )] == row_bit(rows[i], j),
        forall|p: int|
            0 <= p < 2048 && #[trigger] draw_fb(fb, rows, vx, vy)[p] ==> exists|i: int, j: int|
                0 <= i < rows.len() && 0 <= j < 8 && p == #[trigger] pix(vy + i, vx + j),
{
    lemma_clear_draw_no_collision(fb, rows, vx, vy);
    lemma_clear_draw_sprite_bits(fb, rows, vx, vy);
    lemma_clear_draw_rest_off(fb, rows, vx, vy);
}

/// Drawing the same sprite at the same origin twice in succession restores
/// the framebuffer it started from: XOR self-cancellation.
pub proof fn lemma_draw_twice_restores(fb: Seq<bool>, rows: Seq<u8>, vx: int, vy: int)
    requires
        fb.len() == 2048,
        0 <= vx < 64,
        0 <= vy < 32,
    ensures
        draw_fb(draw_fb(fb, rows, vx, vy), rows, vx, vy) =~= fb,
{
}

/// When the first draw started from an all-off framebuffer and the sprite
/// has an on bit at row i, column j, repeating the same draw reports a
/// collision (an all-off sprite collides with nothing, so one on bit is
/// required).
pub proof fn lemma_second_draw_collides(fb: Seq<bool>, rows: Seq<u8>, vx: int, vy: int, i: int, j: int)
    requires
        fb.len() == 2048,
        forall|p: int| 0 <= p < 2048 ==> !fb[p],
        rows.len() <= 15,
        0 <= vx < 64,
        0 <= vy < 32,
        0 <= i < rows.len(),
        0 <= j < 8,
        row_bit(rows[i], j),
    ensures
        draw_collision(draw_fb(fb, rows, vx, vy), rows, vx, vy),
{
    lemma_draw_on_clear(fb, rows, vx, vy);
    assert(draw_fb(fb, rows, vx, vy)[pix(vy + i, vx + j)]);
}

/// The clear instruction turns every pixel off, so a draw right after it
/// starts from exactly the all-off framebuffer that `lemma_draw_on_clear`
/// speaks of.
pub proof fn lemma_cls_clears(s: StateV, rb: u8, keys: u16, ev: Option<u8>)
    requires
        state_wf(s),
        s.program_counter + 1 < 4096,
        spec_decode(spec_word_at(s, s.program_counter as int)) is Cls,
    ensures
        ({
            let (s1, r) = spec_step(s, rb, keys, ev);
            &&& r == Ok::<StepOutcome, Fault>(StepOutcome::Continue)
            &&& s1.framebuffer.len() == 2048
            &&& forall|p: int| 0 <= p < 2048 ==> !s1.framebuffer[p]
        }),
{
}

/// A call followed immediately by a return leaves the program counter at
/// the instruction just after the call.
pub proof fn lemma_call_then_ret(s: StateV, rb1: u8, rb2: u8, keys: u16, ev: Option<u8>)
    requires
        state_wf(s),
        s.program_counter + 1 < 4096,
        spec_word_at(s, s.program_counter as int) / 0x1000 == 2,
        s.call_stack.len() < 16,
        ({
            let nnn = spec_field_nnn(spec_word_at(s, s.program_counter as int));
            &&& nnn + 1 < 4096
            &&& s.memory[nnn as int] == 0x00
            &&& s.memory[nnn as int + 1] == 0xEE
        }),
    ensures
        ({
            let (s1, r1) = spec_step(s, rb1, keys, ev);
            let (s2, r2) = spec_step(s1, rb2, keys, ev);
            &&& r1 == Ok::<StepOutcome, Fault>(StepOutcome::Continue)
            &&& r2 == Ok::<StepOutcome, Fault>(StepOutcome::Continue)
            &&& s2.program_counter == s.program_counter + 2
        }),
{
    let op = spec_word_at(s, s.program_counter as int);
    let nnn = spec_field_nnn(op);
    assert(spec_decode(op) == Instr::Call { nnn });
    let (s1, r1) = spec_step(s, rb1, keys, ev);
    assert(s1.program_counter == nnn);
    assert(s1.call_stack.last() == s.program_counter + 2);
    assert(spec_word_at(s1, nnn as int) == 0x00EE);
    assert(spec_decode(0x00EE) == Instr::Ret);
}

/// Every executed instruction that does not itself load the delay timer
/// decrements it by one, and once at zero it stays at zero. A halt, a
/// key-wait with no key, and a fault leave the timer alone because no
/// instruction executed.
pub proof fn lemma_delay_timer_decay(s: StateV, rb: u8, keys: u16, ev: Option<u8>)
    requires
        state_wf(s),
    ensures
        ({
            let (s1, r) = spec_step(s, rb, keys, ev);
            ((r == Ok::<StepOutcome, Fault>(StepOutcome::Continue) || r == Ok::<StepOutcome, Fault>(
                StepOutcome::Draw,
            )) && !(spec_decode(spec_word_at(s, s.program_counter as int)) is SetDt))
                ==> s1.delay_timer == (if s.delay_timer > 0 {
                (s.delay_timer - 1) as u8
            } else {
                0u8
            })
        }),
{
}

} // verus!

