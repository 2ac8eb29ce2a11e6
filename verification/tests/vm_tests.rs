use chip8::machine::CPU;
use chip8::model::{Fault, StepOutcome};

fn machine_with(prog: &[u8]) -> CPU {
    let mut m = CPU::new();
    m.load_program(&prog.to_vec());
    m
}

fn step_ok(m: &mut CPU) -> StepOutcome {
    m.step(0, None).unwrap()
}

#[test]
fn initial_state() {
    let m = CPU::new();
    assert_eq!(m.program_counter(), 512);
    assert_eq!(m.register_i(), 0);
    assert_eq!(m.delay_timer(), 0);
    assert_eq!(m.sound_timer(), 0);
    assert_eq!(m.stack_depth(), 0);
    for x in 0..16 {
        assert_eq!(m.register(x), 0);
    }
    assert!(!m.pixel(0, 0));
    assert!(!m.pixel(31, 63));
}

#[test]
fn font_is_preloaded() {
    let m = CPU::new();
    assert_eq!(m.mem_at(0), 0xF0);
    assert_eq!(m.mem_at(1), 0x90);
    assert_eq!(m.mem_at(5), 0x20);
    assert_eq!(m.mem_at(79), 0x80);
    assert_eq!(m.mem_at(80), 0);
    assert_eq!(m.mem_at(511), 0);
}

#[test]
fn load_program_copies_at_512() {
    let m = machine_with(&[0x6A, 0x05, 0x7A, 0x03]);
    assert_eq!(m.mem_at(512), 0x6A);
    assert_eq!(m.mem_at(513), 0x05);
    assert_eq!(m.mem_at(514), 0x7A);
    assert_eq!(m.mem_at(515), 0x03);
    assert_eq!(m.mem_at(516), 0);
}

#[test]
fn read_opcode_combines_big_endian() {
    let m = machine_with(&[0x6A, 0x05]);
    assert_eq!(m.read_opcode(), 0x6A05);
}

#[test]
fn se_and_sne_skip_by_two() {
    let mut m = CPU::new();
    m.se(1, 1);
    assert_eq!(m.program_counter(), 514);
    m.se(1, 2);
    assert_eq!(m.program_counter(), 514);
    m.sne(1, 2);
    assert_eq!(m.program_counter(), 516);
    m.sne(3, 3);
    assert_eq!(m.program_counter(), 516);
}

#[test]
fn load_then_add_immediate() {
    // LD VA,5 then ADD VA,3: register A ends at 8 and the program counter
    // has advanced by 4 from its start.
    let mut m = machine_with(&[0x6A, 0x05, 0x7A, 0x03]);
    assert_eq!(step_ok(&mut m), StepOutcome::Continue);
    assert_eq!(step_ok(&mut m), StepOutcome::Continue);
    assert_eq!(m.register(0xA), 8);
    assert_eq!(m.program_counter(), 516);
}

#[test]
fn add_immediate_wraps_without_flag() {
    let mut m = machine_with(&[0x6A, 0xFF, 0x7A, 0x02]);
    step_ok(&mut m);
    step_ok(&mut m);
    assert_eq!(m.register(0xA), 1);
    assert_eq!(m.register(0xF), 0);
}

#[test]
fn add_registers_with_carry() {
    // 200 + 100 = 300: wrapped to 44 with the carry flag raised.
    let mut m = machine_with(&[0x6A, 0xC8, 0x6B, 0x64, 0x8A, 0xB4]);
    step_ok(&mut m);
    step_ok(&mut m);
    step_ok(&mut m);
    assert_eq!(m.register(0xA), 44);
    assert_eq!(m.register(0xF), 1);
}

#[test]
fn add_registers_without_carry() {
    let mut m = machine_with(&[0x6A, 0x05, 0x6B, 0x03, 0x8A, 0xB4]);
    step_ok(&mut m);
    step_ok(&mut m);
    step_ok(&mut m);
    assert_eq!(m.register(0xA), 8);
    assert_eq!(m.register(0xF), 0);
}

#[test]
fn sub_borrows_and_wraps() {
    // 5 - 10 wraps to 251 and the flag stays 0 because 5 <= 10.
    let mut m = machine_with(&[0x6A, 0x05, 0x6B, 0x0A, 0x8A, 0xB5]);
    step_ok(&mut m);
    step_ok(&mut m);
    step_ok(&mut m);
    assert_eq!(m.register(0xA), 251);
    assert_eq!(m.register(0xF), 0);
}

#[test]
fn sub_sets_flag_when_greater() {
    let mut m = machine_with(&[0x6A, 0x0A, 0x6B, 0x05, 0x8A, 0xB5]);
    step_ok(&mut m);
    step_ok(&mut m);
    step_ok(&mut m);
    assert_eq!(m.register(0xA), 5);
    assert_eq!(m.register(0xF), 1);
}

#[test]
fn subn_uses_reversed_operands() {
    let mut m = machine_with(&[0x6A, 0x05, 0x6B, 0x0A, 0x8A, 0xB7]);
    step_ok(&mut m);
    step_ok(&mut m);
    step_ok(&mut m);
    assert_eq!(m.register(0xA), 5);
    assert_eq!(m.register(0xF), 1);
}

#[test]
fn shr_flag_is_old_lsb() {
    let mut m = machine_with(&[0x6A, 0x0B, 0x8A, 0x06]);
    step_ok(&mut m);
    step_ok(&mut m);
    assert_eq!(m.register(0xF), 1);
    assert_eq!(m.register(0xA), 5);
}

#[test]
fn shl_flag_is_old_msb() {
    let mut m = machine_with(&[0x6A, 0x81, 0x8A, 0x0E]);
    step_ok(&mut m);
    step_ok(&mut m);
    assert_eq!(m.register(0xF), 1);
    assert_eq!(m.register(0xA), 2);
}

#[test]
fn logic_or_and_xor() {
    let mut m = machine_with(&[0x6A, 0x0C, 0x6B, 0x0A, 0x8A, 0xB1]);
    step_ok(&mut m);
    step_ok(&mut m);
    step_ok(&mut m);
    assert_eq!(m.register(0xA), 0x0E);

    let mut m = machine_with(&[0x6A, 0x0C, 0x6B, 0x0A, 0x8A, 0xB2]);
    step_ok(&mut m);
    step_ok(&mut m);
    step_ok(&mut m);
    assert_eq!(m.register(0xA), 0x08);

    let mut m = machine_with(&[0x6A, 0x0C, 0x6B, 0x0A, 0x8A, 0xB3]);
    step_ok(&mut m);
    step_ok(&mut m);
    step_ok(&mut m);
    assert_eq!(m.register(0xA), 0x06);
}

#[test]
fn ld_register_copies() {
    let mut m = machine_with(&[0x6B, 0x2A, 0x8A, 0xB0]);
    step_ok(&mut m);
    step_ok(&mut m);
    assert_eq!(m.register(0xA), 0x2A);
}

#[test]
fn skip_if_equal_immediate() {
    // VA == 7, so SE skips LD VB,1 and LD VB,2 runs instead.
    let mut m = machine_with(&[0x6A, 0x07, 0x3A, 0x07, 0x6B, 0x01, 0x6B, 0x02]);
    step_ok(&mut m);
    step_ok(&mut m);
    assert_eq!(m.program_counter(), 518);
    step_ok(&mut m);
    assert_eq!(m.register(0xB), 2);
}

#[test]
fn skip_if_not_equal_immediate_stays() {
    // VA == 7, so SNE does not skip and LD VB,1 runs.
    let mut m = machine_with(&[0x6A, 0x07, 0x4A, 0x07, 0x6B, 0x01, 0x6B, 0x02]);
    step_ok(&mut m);
    step_ok(&mut m);
    assert_eq!(m.program_counter(), 516);
    step_ok(&mut m);
    assert_eq!(m.register(0xB), 1);
}

#[test]
fn skip_if_registers_equal() {
    let mut m = machine_with(&[0x6A, 0x07, 0x6B, 0x07, 0x5A, 0xB0, 0x6C, 0x01, 0x6C, 0x02]);
    step_ok(&mut m);
    step_ok(&mut m);
    step_ok(&mut m);
    step_ok(&mut m);
    assert_eq!(m.register(0xC), 2);
}

#[test]
fn jump_sets_program_counter() {
    let mut m = machine_with(&[0x13, 0x00]);
    step_ok(&mut m);
    assert_eq!(m.program_counter(), 0x300);
}

#[test]
fn jump_adds_register_zero() {
    let mut m = machine_with(&[0x60, 0x05, 0xB3, 0x00]);
    step_ok(&mut m);
    step_ok(&mut m);
    assert_eq!(m.program_counter(), 0x305);
}

#[test]
fn call_then_ret_returns_after_call() {
    // CALL 0x300 at 0x200, RET at 0x300: the program counter comes back to
    // 0x202, the instruction right after the call.
    let mut prog = vec![0x23, 0x00];
    prog.resize(0x100, 0);
    prog.push(0x00);
    prog.push(0xEE);
    let mut m = machine_with(&prog);
    step_ok(&mut m);
    assert_eq!(m.program_counter(), 0x300);
    assert_eq!(m.stack_depth(), 1);
    step_ok(&mut m);
    assert_eq!(m.program_counter(), 0x202);
    assert_eq!(m.stack_depth(), 0);
}

#[test]
fn halt_stops_the_run() {
    let mut m = machine_with(&[0x00, 0x00]);
    assert_eq!(step_ok(&mut m), StepOutcome::Halt);
}

#[test]
fn delay_timer_counts_down_to_zero_and_stays() {
    // DT is loaded with 5 and then decrements once per executed
    // instruction, the loading instruction included, clamping at 0.
    let mut m = machine_with(&[
        0x6A, 0x05, 0xFA, 0x15, 0x6B, 0x00, 0x6B, 0x00, 0x6B, 0x00, 0x6B, 0x00, 0x6B, 0x00,
    ]);
    step_ok(&mut m);
    step_ok(&mut m);
    assert_eq!(m.delay_timer(), 4);
    step_ok(&mut m);
    assert_eq!(m.delay_timer(), 3);
    step_ok(&mut m);
    step_ok(&mut m);
    step_ok(&mut m);
    assert_eq!(m.delay_timer(), 0);
    step_ok(&mut m);
    assert_eq!(m.delay_timer(), 0);
}

#[test]
fn sound_timer_counts_down() {
    let mut m = machine_with(&[0x6A, 0x03, 0xFA, 0x18, 0x6B, 0x00]);
    step_ok(&mut m);
    step_ok(&mut m);
    assert_eq!(m.sound_timer(), 2);
    step_ok(&mut m);
    assert_eq!(m.sound_timer(), 1);
}

#[test]
fn read_delay_timer_into_register() {
    let mut m = machine_with(&[0x6A, 0x05, 0xFA, 0x15, 0xFB, 0x07]);
    step_ok(&mut m);
    step_ok(&mut m);
    step_ok(&mut m);
    // DT was 4 when the read executed; the tick after it leaves 3.
    assert_eq!(m.register(0xB), 4);
    assert_eq!(m.delay_timer(), 3);
}

#[test]
fn bcd_stores_three_digits() {
    // 234 decomposes to 2, 3, 4 at I, I+1, I+2.
    let mut m = machine_with(&[0x6A, 0xEA, 0xA4, 0x00, 0xFA, 0x33]);
    step_ok(&mut m);
    step_ok(&mut m);
    step_ok(&mut m);
    assert_eq!(m.mem_at(0x400), 2);
    assert_eq!(m.mem_at(0x401), 3);
    assert_eq!(m.mem_at(0x402), 4);
}

#[test]
fn store_and_load_registers_roundtrip() {
    let mut m = machine_with(&[
        0x60, 0x01, 0x61, 0x02, 0x62, 0x03, 0xA4, 0x00, 0xF2, 0x55, 0x60, 0x00, 0x61, 0x00, 0x62,
        0x00, 0xF2, 0x65,
    ]);
    for _ in 0..9 {
        step_ok(&mut m);
    }
    assert_eq!(m.register(0), 1);
    assert_eq!(m.register(1), 2);
    assert_eq!(m.register(2), 3);
    assert_eq!(m.mem_at(0x400), 1);
    assert_eq!(m.mem_at(0x401), 2);
    assert_eq!(m.mem_at(0x402), 3);
}

#[test]
fn add_i_accumulates() {
    let mut m = machine_with(&[0xA1, 0x23, 0x6A, 0x10, 0xFA, 0x1E]);
    step_ok(&mut m);
    step_ok(&mut m);
    step_ok(&mut m);
    assert_eq!(m.register_i(), 0x133);
}

#[test]
fn font_address_is_five_per_digit() {
    let mut m = machine_with(&[0x6A, 0x03, 0xFA, 0x29]);
    step_ok(&mut m);
    step_ok(&mut m);
    assert_eq!(m.register_i(), 15);
}

#[test]
fn random_byte_is_masked() {
    // RND VA,0 must store 0 whatever byte the generator produced.
    let mut m = machine_with(&[0x6A, 0xFF, 0xCA, 0x00]);
    step_ok(&mut m);
    step_ok(&mut m);
    assert_eq!(m.register(0xA), 0);
}

#[test]
fn random_byte_respects_mask_bits() {
    let mut m = machine_with(&[0xCA, 0x0F]);
    step_ok(&mut m);
    assert!(m.register(0xA) <= 0x0F);
}

#[test]
fn skip_when_key_down() {
    // VA names key 2; with key 2 held, SKP skips LD VB,1.
    let mut m = machine_with(&[0x6A, 0x02, 0xEA, 0x9E, 0x6B, 0x01, 0x6B, 0x02]);
    m.step(0, None).unwrap();
    m.step(0b100, None).unwrap();
    m.step(0b100, None).unwrap();
    assert_eq!(m.register(0xB), 2);
}

#[test]
fn no_skip_when_key_up() {
    let mut m = machine_with(&[0x6A, 0x02, 0xEA, 0x9E, 0x6B, 0x01, 0x6B, 0x02]);
    m.step(0, None).unwrap();
    m.step(0, None).unwrap();
    m.step(0, None).unwrap();
    assert_eq!(m.register(0xB), 1);
}

#[test]
fn skip_when_key_not_pressed() {
    let mut m = machine_with(&[0x6A, 0x02, 0xEA, 0xA1, 0x6B, 0x01, 0x6B, 0x02]);
    m.step(0, None).unwrap();
    m.step(0, None).unwrap();
    m.step(0, None).unwrap();
    assert_eq!(m.register(0xB), 2);
}

#[test]
fn wait_for_key_blocks_until_event() {
    let mut m = machine_with(&[0xFA, 0x0A, 0x6B, 0x01]);
    assert_eq!(m.step(0, None).unwrap(), StepOutcome::WaitingForKey);
    assert_eq!(m.program_counter(), 512);
    assert_eq!(m.step(0, Some(7)).unwrap(), StepOutcome::Continue);
    assert_eq!(m.register(0xA), 7);
    assert_eq!(m.program_counter(), 514);
}

#[test]
fn unknown_opcode_faults_and_leaves_machine_unchanged() {
    let mut m = machine_with(&[0x5A, 0xB1]);
    assert_eq!(m.step(0, None), Err(Fault::UnknownOpcode));
    assert_eq!(m.program_counter(), 512);
}

#[test]
fn ret_with_empty_stack_underflows() {
    let mut m = machine_with(&[0x00, 0xEE]);
    assert_eq!(m.step(0, None), Err(Fault::StackUnderflow));
    assert_eq!(m.program_counter(), 512);
}

#[test]
fn seventeenth_nested_call_overflows() {
    // CALL 0x200 calls itself; the seventeenth push has no room.
    let mut m = machine_with(&[0x22, 0x00]);
    for _ in 0..16 {
        assert_eq!(m.step(0, None), Ok(StepOutcome::Continue));
    }
    assert_eq!(m.stack_depth(), 16);
    assert_eq!(m.step(0, None), Err(Fault::StackOverflow));
    assert_eq!(m.stack_depth(), 16);
}

#[test]
fn fetch_at_memory_end_is_out_of_bounds() {
    let mut m = machine_with(&[0x1F, 0xFF]);
    step_ok(&mut m);
    assert_eq!(m.program_counter(), 0xFFF);
    assert_eq!(m.step(0, None), Err(Fault::OutOfBounds));
}

#[test]
fn draw_past_memory_end_is_out_of_bounds() {
    let mut m = machine_with(&[0xAF, 0xFF, 0x6A, 0x00, 0x6B, 0x00, 0xDA, 0xB2]);
    step_ok(&mut m);
    step_ok(&mut m);
    step_ok(&mut m);
    assert_eq!(m.step(0, None), Err(Fault::OutOfBounds));
}
