//! Tests driving the interpreter cycle by cycle on small programs.

use c8::Chip;
use c8::Effect;
use c8::VmError;

/// A machine with `program` loaded at 0x200, ready to run.
fn boot(program: &[u8]) -> Chip {
    let mut chip = Chip::new(700, false);
    chip.load(&program.to_vec());
    chip
}

/// Run `n` cycles, asserting each one succeeds.
fn run(chip: &mut Chip, n: usize) -> Effect {
    let mut last = Effect { redraw: false, beep: false };
    for _ in 0..n {
        last = chip.exec_cycle().expect("cycle should succeed");
    }
    last
}

#[test]
fn initial_state() {
    let chip = Chip::new(700, false);
    assert_eq!(chip.program_counter(), 0x200);
    assert_eq!(chip.stack_pointer(), 0);
    assert_eq!(chip.index_register(), 0);
    assert_eq!(chip.delay(), 0);
    assert_eq!(chip.sound(), 0);
    for x in 0..16 {
        assert_eq!(chip.reg(x), 0);
        assert!(!chip.key(x as usize));
    }
    for row in 0..32 {
        for col in 0..64 {
            assert!(!chip.pixel(row, col));
        }
    }
    // The font table sits at the bottom of memory.
    assert_eq!(chip.mem_at(0), 0xF0);
    assert_eq!(chip.mem_at(4), 0xF0);
    assert_eq!(chip.mem_at(5), 0x20);
    assert_eq!(chip.mem_at(79), 0x80);
    assert_eq!(chip.mem_at(80), 0x00);
    assert_eq!(chip.mem_at(512), 0x00);
}

#[test]
fn load_places_program_at_512() {
    let mut chip = Chip::new(700, false);
    chip.load(&vec![0xAB, 0xCD, 0xEF]);
    assert_eq!(chip.mem_at(512), 0xAB);
    assert_eq!(chip.mem_at(513), 0xCD);
    assert_eq!(chip.mem_at(514), 0xEF);
    assert_eq!(chip.mem_at(515), 0x00);
    // The font survives a load.
    assert_eq!(chip.mem_at(0), 0xF0);
}

#[test]
fn load_truncates_oversized_image() {
    let mut chip = Chip::new(700, false);
    let image: Vec<u8> = (0..4000).map(|i| (i % 251) as u8).collect();
    chip.load(&image);
    assert_eq!(chip.mem_at(512), 0);
    assert_eq!(chip.mem_at(4095), ((3583u32) % 251) as u8);
}

#[test]
fn ld_and_add_wrap() {
    // 7xFF applied when Vx = 0x01 wraps to 0x00 and sets no flag.
    let mut chip = boot(&[0x60, 0x01, 0x70, 0xFF]);
    run(&mut chip, 2);
    assert_eq!(chip.reg(0), 0x00);
    assert_eq!(chip.reg(0xF), 0x00);
    assert_eq!(chip.program_counter(), 0x204);
}

#[test]
fn alu_add_carry_set() {
    // Vx=0xFF, Vy=0x01: sum wraps to 0x00 and VF = 1.
    let mut chip = boot(&[0x60, 0xFF, 0x61, 0x01, 0x80, 0x14]);
    run(&mut chip, 3);
    assert_eq!(chip.reg(0), 0x00);
    assert_eq!(chip.reg(0xF), 1);
}

#[test]
fn alu_add_carry_clear() {
    // Vx=0x01, Vy=0x01: sum 0x02 and VF = 0.
    let mut chip = boot(&[0x60, 0x01, 0x61, 0x01, 0x80, 0x14]);
    run(&mut chip, 3);
    assert_eq!(chip.reg(0), 0x02);
    assert_eq!(chip.reg(0xF), 0);
}

#[test]
fn alu_sub_borrow_flag_set() {
    // Vx=0x05, Vy=0x03: VF = 1 (no borrow), Vx = 0x02.
    let mut chip = boot(&[0x60, 0x05, 0x61, 0x03, 0x80, 0x15]);
    run(&mut chip, 3);
    assert_eq!(chip.reg(0xF), 1);
    assert_eq!(chip.reg(0), 0x02);
}

#[test]
fn alu_sub_borrow_flag_clear() {
    // Vx=0x03, Vy=0x05: VF = 0 (borrow), Vx wraps to 0xFE.
    let mut chip = boot(&[0x60, 0x03, 0x61, 0x05, 0x80, 0x15]);
    run(&mut chip, 3);
    assert_eq!(chip.reg(0xF), 0);
    assert_eq!(chip.reg(0), 0xFE);
}

#[test]
fn alu_bitwise_and_loads() {
    // 8xy0 / 8xy1 / 8xy2 / 8xy3 on V0 = 0x0F, V1 = 0x35.
    let mut chip = boot(&[0x60, 0x0F, 0x61, 0x35, 0x80, 0x11]);
    run(&mut chip, 3);
    assert_eq!(chip.reg(0), 0x3F); // OR

    let mut chip = boot(&[0x60, 0x0F, 0x61, 0x35, 0x80, 0x12]);
    run(&mut chip, 3);
    assert_eq!(chip.reg(0), 0x05); // AND

    let mut chip = boot(&[0x60, 0x0F, 0x61, 0x35, 0x80, 0x13]);
    run(&mut chip, 3);
    assert_eq!(chip.reg(0), 0x3A); // XOR

    let mut chip = boot(&[0x60, 0x0F, 0x61, 0x35, 0x80, 0x10]);
    run(&mut chip, 3);
    assert_eq!(chip.reg(0), 0x35); // LD Vx Vy
}

#[test]
fn alu_subn() {
    // 8xy7: Vx := Vy - Vx, VF = 1 when Vx < Vy.
    let mut chip = boot(&[0x60, 0x03, 0x61, 0x05, 0x80, 0x17]);
    run(&mut chip, 3);
    assert_eq!(chip.reg(0xF), 1);
    assert_eq!(chip.reg(0), 0x02);

    let mut chip = boot(&[0x60, 0x05, 0x61, 0x03, 0x80, 0x17]);
    run(&mut chip, 3);
    assert_eq!(chip.reg(0xF), 0);
    assert_eq!(chip.reg(0), 0xFE);
}

#[test]
fn alu_shift_right() {
    // 8xy6: VF takes the dropped low bit.
    let mut chip = boot(&[0x60, 0x05, 0x80, 0x16]);
    run(&mut chip, 2);
    assert_eq!(chip.reg(0), 0x02);
    assert_eq!(chip.reg(0xF), 1);

    let mut chip = boot(&[0x60, 0x04, 0x80, 0x16]);
    run(&mut chip, 2);
    assert_eq!(chip.reg(0), 0x02);
    assert_eq!(chip.reg(0xF), 0);
}

#[test]
fn alu_shift_left_quirk() {
    // 8xyE on this machine assigns `Vx & 0x10` to VF, not the dropped high
    // bit: a documented quirk kept for compatibility.
    let mut chip = boot(&[0x60, 0x9F, 0x80, 0x1E]);
    run(&mut chip, 2);
    assert_eq!(chip.reg(0), 0x3E);
    assert_eq!(chip.reg(0xF), 0x10);

    let mut chip = boot(&[0x60, 0x81, 0x80, 0x1E]);
    run(&mut chip, 2);
    assert_eq!(chip.reg(0), 0x02);
    assert_eq!(chip.reg(0xF), 0x00);
}

#[test]
fn skip_equal_immediate() {
    // 3xnn skips when Vx == nn.
    let mut chip = boot(&[0x60, 0x07, 0x30, 0x07]);
    run(&mut chip, 2);
    assert_eq!(chip.program_counter(), 0x206);

    let mut chip = boot(&[0x60, 0x07, 0x30, 0x08]);
    run(&mut chip, 2);
    assert_eq!(chip.program_counter(), 0x204);
}

#[test]
fn skip_not_equal_immediate() {
    let mut chip = boot(&[0x60, 0x07, 0x40, 0x08]);
    run(&mut chip, 2);
    assert_eq!(chip.program_counter(), 0x206);

    let mut chip = boot(&[0x60, 0x07, 0x40, 0x07]);
    run(&mut chip, 2);
    assert_eq!(chip.program_counter(), 0x204);
}

#[test]
fn skip_register_compare() {
    // 5xy0 and 9xy0.
    let mut chip = boot(&[0x60, 0x07, 0x61, 0x07, 0x50, 0x10]);
    run(&mut chip, 3);
    assert_eq!(chip.program_counter(), 0x208);

    let mut chip = boot(&[0x60, 0x07, 0x61, 0x08, 0x90, 0x10]);
    run(&mut chip, 3);
    assert_eq!(chip.program_counter(), 0x208);

    let mut chip = boot(&[0x60, 0x07, 0x61, 0x07, 0x90, 0x10]);
    run(&mut chip, 3);
    assert_eq!(chip.program_counter(), 0x206);
}

#[test]
fn jump_absolute_and_offset() {
    let mut chip = boot(&[0x12, 0x34]);
    run(&mut chip, 1);
    assert_eq!(chip.program_counter(), 0x234);

    // Bnnn: pc := nnn + V0.
    let mut chip = boot(&[0x60, 0x10, 0xB2, 0x06]);
    run(&mut chip, 2);
    assert_eq!(chip.program_counter(), 0x216);
}

#[test]
fn load_index_register() {
    let mut chip = boot(&[0xA1, 0x23]);
    run(&mut chip, 1);
    assert_eq!(chip.index_register(), 0x123);
}

#[test]
fn random_masked_by_zero_is_zero() {
    // Cx00 masks whatever byte was drawn down to zero.
    let mut chip = boot(&[0x60, 0x55, 0xC0, 0x00]);
    run(&mut chip, 2);
    assert_eq!(chip.reg(0), 0);

    // Cx0F keeps only the low nibble.
    let mut chip = boot(&[0xC0, 0x0F]);
    run(&mut chip, 1);
    assert!(chip.reg(0) < 16);
}

#[test]
fn call_then_ret_restores_pc_and_sp() {
    // 2nnn at 0x200 calls 0x206; 00EE there returns.
    let mut chip = boot(&[0x22, 0x06, 0x00, 0x00, 0x00, 0x00, 0x00, 0xEE]);
    run(&mut chip, 1);
    assert_eq!(chip.program_counter(), 0x206);
    assert_eq!(chip.stack_pointer(), 1);
    run(&mut chip, 1);
    assert_eq!(chip.program_counter(), 0x202);
    assert_eq!(chip.stack_pointer(), 0);
}

#[test]
fn cls_clears_the_frame() {
    // Draw glyph 0 at the origin, then CLS: every pixel is off again.
    let mut chip = boot(&[0xA0, 0x00, 0xD0, 0x05, 0x00, 0xE0]);
    run(&mut chip, 2);
    assert!(chip.pixel(0, 0));
    let eff = run(&mut chip, 1);
    assert!(eff.redraw);
    for row in 0..32 {
        for col in 0..64 {
            assert!(!chip.pixel(row, col));
        }
    }
}

#[test]
fn draw_glyph_zero_at_origin() {
    // I := 0 (glyph 0: F0 90 90 90 F0), draw 5 rows at (0, 0).
    let mut chip = boot(&[0xA0, 0x00, 0xD0, 0x05]);
    let eff = run(&mut chip, 2);
    assert!(eff.redraw);
    let expected = [0xF0u8, 0x90, 0x90, 0x90, 0xF0];
    for (row, byte) in expected.iter().enumerate() {
        for col in 0..8 {
            let on = (byte >> (7 - col)) & 1 == 1;
            assert_eq!(chip.pixel(row, col), on, "row {} col {}", row, col);
        }
    }
    // Nothing else lit.
    for row in 5..32 {
        for col in 0..64 {
            assert!(!chip.pixel(row, col));
        }
    }
    // No pixel was erased, so VF is 0.
    assert_eq!(chip.reg(0xF), 0);
}

#[test]
fn draw_font_glyph_by_fx29() {
    // 6xnn, Fx29, Dxy5: the rows drawn are memory[nn .. nn+5].
    let nn = 1u8;
    let mut chip = boot(&[0x60, nn, 0x61, 0x00, 0xF0, 0x29, 0xD0, 0x15]);
    run(&mut chip, 4);
    assert_eq!(chip.index_register(), nn as u16);
    // memory[1..6] = 90 90 90 F0 20 (the tail of glyph 0 and head of 1).
    let expected = [0x90u8, 0x90, 0x90, 0xF0, 0x20];
    for (row, byte) in expected.iter().enumerate() {
        for col in 0..8 {
            let on = (byte >> (7 - col)) & 1 == 1;
            // The origin is (V0 mod 64, V1 mod 32) = (1, 0).
            assert_eq!(chip.pixel(row, col + 1), on, "row {} col {}", row, col);
        }
    }
}

#[test]
fn draw_clips_at_right_edge() {
    // An 8-wide sprite at column 60 draws only columns 60-63; nothing wraps
    // to columns 0-3.
    let mut chip = boot(&[0x60, 0x3C, 0x61, 0x00, 0xA0, 0x00, 0xD0, 0x15]);
    run(&mut chip, 4);
    let expected = [0xF0u8, 0x90, 0x90, 0x90, 0xF0];
    for (row, byte) in expected.iter().enumerate() {
        for c in 0..4 {
            let on = (byte >> (7 - c)) & 1 == 1;
            assert_eq!(chip.pixel(row, 60 + c), on, "row {} col {}", row, 60 + c);
        }
        // No wraparound into the left edge.
        for c in 0..8 {
            assert!(!chip.pixel(row, c), "row {} col {} must stay off", row, c);
        }
    }
}

#[test]
fn draw_clips_at_bottom_edge() {
    // A 5-row sprite at row 30 draws rows 30 and 31 only.
    let mut chip = boot(&[0x60, 0x00, 0x61, 0x1E, 0xA0, 0x00, 0xD0, 0x15]);
    run(&mut chip, 4);
    assert!(chip.pixel(30, 0)); // 0xF0 row
    assert!(chip.pixel(31, 0)); // 0x90 row
    assert!(!chip.pixel(31, 1));
    assert!(chip.pixel(31, 3));
    // Nothing wrapped to the top.
    for row in 0..5 {
        for col in 0..8 {
            assert!(!chip.pixel(row, col));
        }
    }
}

#[test]
fn draw_xor_erases_and_sets_vf() {
    // Drawing the same glyph twice erases it. VF reflects only the LAST bit
    // processed: the final bit of the 0xF0 row is 0 and erases nothing, so
    // VF ends 0 even though pixels were erased — the last-write-wins quirk.
    let mut chip = boot(&[0xA0, 0x00, 0xD0, 0x05, 0xD0, 0x05]);
    run(&mut chip, 3);
    for row in 0..32 {
        for col in 0..64 {
            assert!(!chip.pixel(row, col));
        }
    }
    assert_eq!(chip.reg(0xF), 0);

    // A sprite whose last processed bit does erase sets VF: draw one pixel
    // column twice with the 1-bit in the last column.
    let mut chip = boot(&[0xA2, 0x06, 0xD0, 0x01, 0xD0, 0x01, 0x01, 0xFF]);
    run(&mut chip, 3);
    assert_eq!(chip.reg(0xF), 1);
}

#[test]
fn store_then_load_round_trip() {
    // Fx55 stores V0..V2 at I; 6000 clobbers V0; Fx65 restores it.
    let mut chip = boot(&[
        0x60, 0xAA, 0x61, 0xBB, 0x62, 0xCC, // registers
        0xA3, 0x00, // I := 0x300
        0xF2, 0x55, // store V0..V2
        0x60, 0x00, // clobber V0
        0xF2, 0x65, // load V0..V2 back
    ]);
    run(&mut chip, 5);
    assert_eq!(chip.mem_at(0x300), 0xAA);
    assert_eq!(chip.mem_at(0x301), 0xBB);
    assert_eq!(chip.mem_at(0x302), 0xCC);
    run(&mut chip, 1);
    assert_eq!(chip.reg(0), 0x00);
    run(&mut chip, 1);
    assert_eq!(chip.reg(0), 0xAA);
    assert_eq!(chip.reg(1), 0xBB);
    assert_eq!(chip.reg(2), 0xCC);
}

#[test]
fn bcd_decomposition() {
    // Fx33 on V0 = 123 writes digits 1, 2, 3 at I.
    let mut chip = boot(&[0x60, 0x7B, 0xA3, 0x00, 0xF0, 0x33]);
    run(&mut chip, 3);
    assert_eq!(chip.mem_at(0x300), 1);
    assert_eq!(chip.mem_at(0x301), 2);
    assert_eq!(chip.mem_at(0x302), 3);
}

#[test]
fn add_to_index() {
    // Fx1E: I := I + Vx.
    let mut chip = boot(&[0xA0, 0x10, 0x60, 0x05, 0xF0, 0x1E]);
    run(&mut chip, 3);
    assert_eq!(chip.index_register(), 0x15);
}

#[test]
fn timers_count_down_once_per_cycle() {
    // Fx15 sets the delay timer from V0 = 5; the same cycle already
    // decrements it once.
    let mut chip = boot(&[0x60, 0x05, 0xF0, 0x15, 0xF1, 0x07]);
    run(&mut chip, 2);
    assert_eq!(chip.delay(), 4);
    // Fx07 reads it into V1 before the cycle's own decrement.
    run(&mut chip, 1);
    assert_eq!(chip.reg(1), 4);
    assert_eq!(chip.delay(), 3);
}

#[test]
fn sound_timer_requests_beep_while_nonzero() {
    let mut chip = boot(&[0x60, 0x02, 0xF0, 0x18, 0x61, 0x00, 0x62, 0x00, 0x63, 0x00]);
    let eff = run(&mut chip, 1);
    assert!(!eff.beep);
    // Fx18 sets the sound timer to 2; it is nonzero when checked.
    let eff = run(&mut chip, 1);
    assert!(eff.beep);
    assert_eq!(chip.sound(), 1);
    let eff = run(&mut chip, 1);
    assert!(eff.beep);
    assert_eq!(chip.sound(), 0);
    let eff = run(&mut chip, 1);
    assert!(!eff.beep);
}

#[test]
fn skip_on_key_state() {
    // Ex9E skips when key V0 is pressed, ExA1 when it is not.
    let mut chip = boot(&[0x60, 0x04, 0xE0, 0x9E]);
    run(&mut chip, 2);
    assert_eq!(chip.program_counter(), 0x204); // not pressed: no skip

    let mut chip = boot(&[0x60, 0x04, 0xE0, 0x9E]);
    chip.press_key(4);
    run(&mut chip, 2);
    assert_eq!(chip.program_counter(), 0x206); // pressed: skip

    let mut chip = boot(&[0x60, 0x04, 0xE0, 0xA1]);
    run(&mut chip, 2);
    assert_eq!(chip.program_counter(), 0x206); // not pressed: skip
}

#[test]
fn wait_for_key_busy_waits() {
    // Fx0A with no key pressed re-fetches the same instruction.
    let mut chip = boot(&[0xF0, 0x0A]);
    run(&mut chip, 1);
    assert_eq!(chip.program_counter(), 0x200);
    run(&mut chip, 3);
    assert_eq!(chip.program_counter(), 0x200);
    // Once a key appears, the next cycle stores it and moves on.
    chip.press_key(0xA);
    run(&mut chip, 1);
    assert_eq!(chip.reg(0), 0xA);
    assert_eq!(chip.program_counter(), 0x202);
}

#[test]
fn cls_jump_program_runs_forever() {
    // 00E0 then 1200: an infinite loop that keeps the screen dark.
    let mut chip = boot(&[0x00, 0xE0, 0x12, 0x00]);
    for i in 0..100 {
        let pc = chip.program_counter();
        assert!(pc == 0x200 || pc == 0x202);
        assert_eq!(pc, if i % 2 == 0 { 0x200 } else { 0x202 });
        chip.exec_cycle().expect("the loop never fails");
        for row in 0..32 {
            assert!(!chip.pixel(row, 0));
            assert!(!chip.pixel(row, 63));
        }
    }
    assert_eq!(chip.program_counter(), 0x200);
}

#[test]
fn unknown_opcode_is_fatal() {
    let mut chip = boot(&[0xFF, 0xFF]);
    assert_eq!(chip.exec_cycle(), Err(VmError::UnknownOpcode(0xFFFF)));

    // 5xyN with N != 0 matches no pattern.
    let mut chip = boot(&[0x50, 0x11]);
    assert_eq!(chip.exec_cycle(), Err(VmError::UnknownOpcode(0x5011)));

    // 0nnn system calls are not implemented.
    let mut chip = boot(&[0x03, 0x00]);
    assert_eq!(chip.exec_cycle(), Err(VmError::UnknownOpcode(0x0300)));
}

#[test]
fn ret_on_empty_stack_fails() {
    let mut chip = boot(&[0x00, 0xEE]);
    assert_eq!(chip.exec_cycle(), Err(VmError::OutOfBounds));
}

#[test]
fn call_overflow_fails() {
    // 2nnn calling itself: the 16th nested call finds no free slot.
    let mut chip = boot(&[0x22, 0x00]);
    for _ in 0..15 {
        chip.exec_cycle().expect("calls fit the stack");
    }
    assert_eq!(chip.stack_pointer(), 15);
    assert_eq!(chip.exec_cycle(), Err(VmError::OutOfBounds));
}

#[test]
fn draw_beyond_memory_fails() {
    // I = 0xFFF and a 5-row sprite reads past the end of memory.
    let mut chip = boot(&[0xAF, 0xFF, 0xD0, 0x05]);
    run(&mut chip, 1);
    assert_eq!(chip.exec_cycle(), Err(VmError::OutOfBounds));
}

#[test]
fn store_beyond_memory_fails() {
    // I = 0xFFF, storing V0..V1 would touch 0x1000.
    let mut chip = boot(&[0xAF, 0xFF, 0xF1, 0x55]);
    run(&mut chip, 1);
    assert_eq!(chip.exec_cycle(), Err(VmError::OutOfBounds));
}

#[test]
fn jump_out_of_range_fails_on_next_fetch() {
    // Jumping to 0xFFF leaves no room to fetch two bytes.
    let mut chip = boot(&[0x1F, 0xFF]);
    run(&mut chip, 1);
    assert_eq!(chip.program_counter(), 0xFFF);
    assert_eq!(chip.exec_cycle(), Err(VmError::OutOfBounds));
}

#[test]
fn index_register_overflow_fails() {
    // F01E in a tight loop keeps adding 0xFF to I until it would pass
    // 0xFFFF; the machine stops rather than wrap.
    let mut chip = boot(&[0x60, 0xFF, 0xAF, 0xFF, 0xF0, 0x1E, 0x12, 0x04]);
    let mut saw_error = false;
    for _ in 0..2000 {
        match chip.exec_cycle() {
            Ok(_) => {},
            Err(e) => {
                assert_eq!(e, VmError::OutOfBounds);
                saw_error = true;
                break;
            },
        }
    }
    assert!(saw_error);
}
