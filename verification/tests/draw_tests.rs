use chip8::machine::CPU;
use chip8::model::StepOutcome;

fn machine_with(prog: &[u8]) -> CPU {
    let mut m = CPU::new();
    m.load_program(&prog.to_vec());
    m
}

fn step_ok(m: &mut CPU) -> StepOutcome {
    m.step(0, None).unwrap()
}

#[test]
fn draw_after_clear_shows_the_sprite_bits() {
    // CLS, then draw the font glyph for 0 (5 rows at address 0) at (0,0):
    // the framebuffer holds exactly the glyph's bits and no collision is
    // reported.
    let mut m = machine_with(&[0x00, 0xE0, 0xA0, 0x00, 0x6A, 0x00, 0x6B, 0x00, 0xDA, 0xB5]);
    step_ok(&mut m);
    step_ok(&mut m);
    step_ok(&mut m);
    step_ok(&mut m);
    assert_eq!(step_ok(&mut m), StepOutcome::Draw);
    // Glyph 0 is F0 90 90 90 F0: a 4-wide box.
    let expected = [0xF0u8, 0x90, 0x90, 0x90, 0xF0];
    for (row, byte) in expected.iter().enumerate() {
        for col in 0..8 {
            let want = (byte >> (7 - col)) & 1 == 1;
            assert_eq!(m.pixel(row, col), want);
        }
    }
    // Nothing outside the sprite is lit.
    assert!(!m.pixel(5, 0));
    assert!(!m.pixel(0, 8));
    assert_eq!(m.register(0xF), 0);
}

#[test]
fn drawing_twice_restores_and_collides() {
    // The same glyph drawn twice at the same origin XOR-cancels back to an
    // all-off framebuffer, and the second draw reports the collision.
    let mut m = machine_with(&[
        0xA0, 0x00, 0x6A, 0x00, 0x6B, 0x00, 0xDA, 0xB5, 0xDA, 0xB5,
    ]);
    step_ok(&mut m);
    step_ok(&mut m);
    step_ok(&mut m);
    step_ok(&mut m);
    assert_eq!(m.register(0xF), 0);
    assert!(m.pixel(0, 0));
    step_ok(&mut m);
    assert_eq!(m.register(0xF), 1);
    for row in 0..32 {
        for col in 0..64 {
            assert!(!m.pixel(row, col));
        }
    }
}

#[test]
fn draw_wraps_toroidally_at_the_edges() {
    // An 8x4 all-on sprite drawn at (60,30): columns past 63 wrap to 0..4
    // and rows past 31 wrap to 0..2.
    let mut m = machine_with(&[
        0x60, 0xFF, 0x61, 0xFF, 0x62, 0xFF, 0x63, 0xFF, // V0..V3 = FF
        0xA4, 0x00, // I = 0x400
        0xF3, 0x55, // store V0..V3 at I
        0x6A, 0x3C, // VA = 60
        0x6B, 0x1E, // VB = 30
        0xDA, 0xB4, // draw 8x4 at (60,30)
    ]);
    for _ in 0..9 {
        step_ok(&mut m);
    }
    for i in 0..4 {
        let row = (30 + i) % 32;
        for j in 0..8 {
            let col = (60 + j) % 64;
            assert!(m.pixel(row, col));
        }
    }
    assert!(m.pixel(30, 60));
    assert!(m.pixel(30, 3));
    assert!(m.pixel(0, 0));
    assert!(m.pixel(1, 63));
    assert!(!m.pixel(2, 0));
    assert!(!m.pixel(29, 60));
    assert!(!m.pixel(0, 4));
    assert_eq!(m.register(0xF), 0);
}

#[test]
fn clear_screen_turns_every_pixel_off() {
    let mut m = machine_with(&[
        0xA0, 0x00, 0x6A, 0x00, 0x6B, 0x00, 0xDA, 0xB5, 0x00, 0xE0,
    ]);
    step_ok(&mut m);
    step_ok(&mut m);
    step_ok(&mut m);
    step_ok(&mut m);
    assert!(m.pixel(0, 0));
    step_ok(&mut m);
    for row in 0..32 {
        for col in 0..64 {
            assert!(!m.pixel(row, col));
        }
    }
}

#[test]
fn partial_overlap_collides_and_xors() {
    // Draw the glyph for 0 at (0,0), then the glyph for 1 at (0,0): the
    // overlap XORs and the collision flag is raised.
    let mut m = machine_with(&[
        0xA0, 0x00, 0x6A, 0x00, 0x6B, 0x00, 0xDA, 0xB5, // draw glyph 0
        0xA0, 0x05, 0xDA, 0xB5, // draw glyph 1 (address 5)
    ]);
    for _ in 0..6 {
        step_ok(&mut m);
    }
    assert_eq!(m.register(0xF), 1);
    // Row 0: F0 ^ 20 = D0: bits 1101 0000.
    assert!(m.pixel(0, 0));
    assert!(m.pixel(0, 1));
    assert!(!m.pixel(0, 2));
    assert!(m.pixel(0, 3));
}
