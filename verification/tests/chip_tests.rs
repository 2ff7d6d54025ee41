use chip8::chip::{Chip, ExecutionFault, LoadError};

/// A machine with `program` loaded at the entry point and reset.
fn boot(program: Vec<u8>) -> Chip {
    let mut c = Chip::new();
    c.load(&program).unwrap();
    c.reset();
    c
}

fn step_n(c: &mut Chip, n: usize) {
    for _ in 0..n {
        c.tick().unwrap();
    }
}

#[test]
fn new_machine_is_zeroed() {
    let c = Chip::new();
    assert_eq!(c.pc(), 0);
    assert_eq!(c.index_reg(), 0);
    assert_eq!(c.sp(), 0);
    for x in 0..16 {
        assert_eq!(c.reg(x), 0);
    }
    for p in 0..2048 {
        assert!(!c.screen[p]);
    }
}

#[test]
fn load_places_image_at_entry_point() {
    let mut c = Chip::new();
    c.load(&vec![0xAB, 0xCD]).unwrap();
    assert_eq!(c.mem_at(0x200), 0xAB);
    assert_eq!(c.mem_at(0x201), 0xCD);
    assert_eq!(c.mem_at(0x1FF), 0);
    assert_eq!(c.mem_at(0x202), 0);
}

#[test]
fn load_rejects_oversized_image() {
    let mut c = Chip::new();
    assert_eq!(c.load(&vec![0u8; 3585]), Err(LoadError::TooLarge));
    assert_eq!(c.load(&vec![7u8; 3584]), Ok(()));
    assert_eq!(c.mem_at(0xFFF), 7);
}

#[test]
fn reset_zeroes_registers_but_keeps_memory() {
    let mut c = boot(vec![0x60, 0x2A]);
    step_n(&mut c, 1);
    assert_eq!(c.reg(0), 42);
    c.reset();
    assert_eq!(c.reg(0), 0);
    assert_eq!(c.pc(), 0x200);
    assert_eq!(c.sp(), 0);
    assert_eq!(c.mem_at(0x200), 0x60);
    assert_eq!(c.mem_at(0x201), 0x2A);
}

#[test]
fn add_byte_wraps_and_leaves_flag_alone() {
    // LD VF,7 ; LD V0,200 ; ADD V0,100
    let mut c = boot(vec![0x6F, 0x07, 0x60, 0xC8, 0x70, 0x64]);
    step_n(&mut c, 3);
    assert_eq!(c.reg(0), 44); // (200 + 100) mod 256
    assert_eq!(c.reg(0xF), 7);
}

#[test]
fn add_reg_sets_carry_on_overflow() {
    // LD V0,255 ; LD V1,2 ; ADD V0,V1
    let mut c = boot(vec![0x60, 0xFF, 0x61, 0x02, 0x80, 0x14]);
    step_n(&mut c, 3);
    assert_eq!(c.reg(0), 1); // (255 + 2) mod 256
    assert_eq!(c.reg(0xF), 1);
}

#[test]
fn add_reg_clears_carry_without_overflow() {
    // LD V0,10 ; LD V1,20 ; LD VF,9 ; ADD V0,V1
    let mut c = boot(vec![0x60, 0x0A, 0x61, 0x14, 0x6F, 0x09, 0x80, 0x14]);
    step_n(&mut c, 4);
    assert_eq!(c.reg(0), 30);
    assert_eq!(c.reg(0xF), 0);
}

#[test]
fn sub_reg_sets_flag_when_no_borrow() {
    // LD V0,10 ; LD V1,3 ; SUB V0,V1
    let mut c = boot(vec![0x60, 0x0A, 0x61, 0x03, 0x80, 0x15]);
    step_n(&mut c, 3);
    assert_eq!(c.reg(0), 7);
    assert_eq!(c.reg(0xF), 1);
}

#[test]
fn sub_reg_clears_flag_on_borrow() {
    // LD V0,3 ; LD V1,10 ; SUB V0,V1
    let mut c = boot(vec![0x60, 0x03, 0x61, 0x0A, 0x80, 0x15]);
    step_n(&mut c, 3);
    assert_eq!(c.reg(0), 249); // (3 - 10) mod 256
    assert_eq!(c.reg(0xF), 0);
}

#[test]
fn subn_reg_subtracts_the_other_way() {
    // LD V0,3 ; LD V1,10 ; SUBN V0,V1 -> V0 = V1 - V0
    let mut c = boot(vec![0x60, 0x03, 0x61, 0x0A, 0x80, 0x17]);
    step_n(&mut c, 3);
    assert_eq!(c.reg(0), 7);
    assert_eq!(c.reg(0xF), 1);
    // LD V0,10 ; LD V1,3 ; SUBN V0,V1 -> borrow
    let mut d = boot(vec![0x60, 0x0A, 0x61, 0x03, 0x80, 0x17]);
    step_n(&mut d, 3);
    assert_eq!(d.reg(0), 249);
    assert_eq!(d.reg(0xF), 0);
}

#[test]
fn shr_reads_source_register() {
    // LD V1,0b10110011 ; SHR V0,V1
    let mut c = boot(vec![0x61, 0xB3, 0x80, 0x16]);
    step_n(&mut c, 2);
    assert_eq!(c.reg(0), 0b01011001); // 89
    assert_eq!(c.reg(0xF), 1); // low bit of the input
    assert_eq!(c.reg(1), 0xB3); // source untouched
}

#[test]
fn shl_reads_source_register() {
    // LD V1,0b10110011 ; SHL V0,V1
    let mut c = boot(vec![0x61, 0xB3, 0x80, 0x1E]);
    step_n(&mut c, 2);
    assert_eq!(c.reg(0), 0b01100110); // (179 << 1) mod 256
    assert_eq!(c.reg(0xF), 1); // high bit of the input
    assert_eq!(c.reg(1), 0xB3);
}

#[test]
fn or_and_xor_operate_bitwise() {
    let mut c = boot(vec![0x60, 0x0C, 0x61, 0x0A, 0x80, 0x11]);
    step_n(&mut c, 3);
    assert_eq!(c.reg(0), 0x0E);

    let mut d = boot(vec![0x60, 0x0C, 0x61, 0x0A, 0x80, 0x12]);
    step_n(&mut d, 3);
    assert_eq!(d.reg(0), 0x08);

    let mut e = boot(vec![0x60, 0x0C, 0x61, 0x0A, 0x80, 0x13]);
    step_n(&mut e, 3);
    assert_eq!(e.reg(0), 0x06);
}

#[test]
fn ld_reg_and_index_arithmetic() {
    // LD V0,7 ; LD V1,V0 ; LD I,0x123 ; ADD I,V0
    let mut c = boot(vec![0x60, 0x07, 0x81, 0x00, 0xA1, 0x23, 0xF0, 0x1E]);
    step_n(&mut c, 2);
    assert_eq!(c.reg(1), 7);
    step_n(&mut c, 1);
    assert_eq!(c.index_reg(), 0x123);
    step_n(&mut c, 1);
    assert_eq!(c.index_reg(), 0x12A);
}

#[test]
fn add_i_wraps_at_sixteen_bits() {
    // LD I,0xFFF ; LD V0,255 ; ADD I,V0 ; JP 0x204 (the add again)
    let mut c = boot(vec![0xAF, 0xFF, 0x60, 0xFF, 0xF0, 0x1E, 0x12, 0x04]);
    step_n(&mut c, 2);
    for _ in 0..241 {
        step_n(&mut c, 2); // one ADD I and the jump back
    }
    // 0xFFF + 241 * 255 == 65550 == 14 mod 65536
    assert_eq!(c.index_reg(), 14);
}

#[test]
fn se_and_sne_skip_exactly_when_stated() {
    // LD V0,5 ; SE V0,5 (skip) ; LD V1,1 (skipped) ; SNE V0,5 (no skip) ;
    // LD V2,2 ; SE V0,4 (no skip) ; LD V3,3
    let mut c = boot(vec![
        0x60, 0x05, 0x30, 0x05, 0x61, 0x01, 0x40, 0x05, 0x62, 0x02, 0x30, 0x04, 0x63, 0x03,
    ]);
    step_n(&mut c, 2);
    assert_eq!(c.pc(), 0x206);
    step_n(&mut c, 4);
    assert_eq!(c.reg(1), 0);
    assert_eq!(c.reg(2), 2);
    assert_eq!(c.reg(3), 3);
}

#[test]
fn se_and_sne_on_register_pairs() {
    // LD V0,5 ; LD V1,5 ; SE V0,V1 (skip) ; LD V2,1 (skipped) ; SNE V0,V1
    // (no skip) ; LD V3,3
    let mut c = boot(vec![
        0x60, 0x05, 0x61, 0x05, 0x50, 0x10, 0x62, 0x01, 0x90, 0x10, 0x63, 0x03,
    ]);
    step_n(&mut c, 5);
    assert_eq!(c.reg(2), 0);
    assert_eq!(c.reg(3), 3);
}

#[test]
fn jp_sets_pc_and_next_fetch_reads_there() {
    let mut program = vec![0u8; 0x52];
    program[0] = 0x12; // JP 0x250
    program[1] = 0x50;
    program[0x50] = 0x60; // at 0x250: LD V0,42
    program[0x51] = 0x2A;
    let mut c = boot(program);
    step_n(&mut c, 1);
    assert_eq!(c.pc(), 0x250);
    step_n(&mut c, 1);
    assert_eq!(c.reg(0), 42);
    assert_eq!(c.pc(), 0x252);
}

#[test]
fn call_then_ret_restores_pc_after_call() {
    let mut program = vec![0u8; 0x102];
    program[0] = 0x23; // CALL 0x300
    program[1] = 0x00;
    program[0x100] = 0x00; // at 0x300: RET
    program[0x101] = 0xEE;
    let mut c = boot(program);
    step_n(&mut c, 1);
    assert_eq!(c.pc(), 0x300);
    assert_eq!(c.sp(), 1);
    step_n(&mut c, 1);
    assert_eq!(c.pc(), 0x202); // the instruction after the CALL
    assert_eq!(c.sp(), 0);
}

#[test]
fn store_then_load_roundtrips_registers() {
    // LD V0..V3 ; LD I,0x400 ; LD [I],V3 ; clobber V0..V3 ; LD V3,[I]
    let mut c = boot(vec![
        0x60, 0x0B, 0x61, 0x16, 0x62, 0x21, 0x63, 0x2C, 0xA4, 0x00, 0xF3, 0x55, 0x60, 0x00, 0x61,
        0x00, 0x62, 0x00, 0x63, 0x00, 0xF3, 0x65,
    ]);
    step_n(&mut c, 6);
    assert_eq!(c.mem_at(0x400), 11);
    assert_eq!(c.mem_at(0x401), 22);
    assert_eq!(c.mem_at(0x402), 33);
    assert_eq!(c.mem_at(0x403), 44);
    step_n(&mut c, 5);
    assert_eq!(c.reg(0), 11);
    assert_eq!(c.reg(1), 22);
    assert_eq!(c.reg(2), 33);
    assert_eq!(c.reg(3), 44);
}

#[test]
fn bcd_splits_into_decimal_digits() {
    // LD V0,234 ; LD I,0x400 ; LD B,V0
    let mut c = boot(vec![0x60, 0xEA, 0xA4, 0x00, 0xF0, 0x33]);
    step_n(&mut c, 3);
    assert_eq!(c.mem_at(0x400), 2);
    assert_eq!(c.mem_at(0x401), 3);
    assert_eq!(c.mem_at(0x402), 4);
}

#[test]
fn drw_draws_sprite_rows() {
    // LD V0,2 ; LD V1,5 ; LD I,0x20A ; DRW V0,V1,1 ; sprite 0b10100000
    let mut c = boot(vec![
        0x60, 0x02, 0x61, 0x05, 0xA2, 0x0A, 0xD0, 0x11, 0x00, 0x00, 0xA0,
    ]);
    step_n(&mut c, 4);
    assert!(c.screen[5 * 64 + 2]);
    assert!(!c.screen[5 * 64 + 3]);
    assert!(c.screen[5 * 64 + 4]);
    assert!(!c.screen[5 * 64 + 5]);
}

#[test]
fn drw_wraps_around_both_edges() {
    // LD V0,60 ; LD V1,31 ; LD I,0x20A ; DRW V0,V1,2 ; sprite FF FF
    let mut c = boot(vec![
        0x60, 0x3C, 0x61, 0x1F, 0xA2, 0x0A, 0xD0, 0x12, 0x00, 0x00, 0xFF, 0xFF,
    ]);
    step_n(&mut c, 4);
    for col in [60usize, 61, 62, 63, 0, 1, 2, 3] {
        assert!(c.screen[31 * 64 + col]); // row 31
        assert!(c.screen[col]); // row 32 wraps to row 0
    }
    assert!(!c.screen[31 * 64 + 4]);
    assert!(!c.screen[64 + 60]); // row 1 untouched
}

#[test]
fn drw_twice_erases_by_xor() {
    // LD V0,60 ; LD V1,31 ; LD I,0x20C ; DRW ; DRW ; sprite FF FF
    let mut c = boot(vec![
        0x60, 0x3C, 0x61, 0x1F, 0xA2, 0x0C, 0xD0, 0x12, 0xD0, 0x12, 0x00, 0x00, 0xFF, 0xFF,
    ]);
    step_n(&mut c, 5);
    for p in 0..2048 {
        assert!(!c.screen[p]);
    }
}

#[test]
fn cls_clears_every_pixel() {
    // LD I,0x206 ; DRW V0,V0,1 ; CLS ; sprite FF
    let mut c = boot(vec![0xA2, 0x06, 0xD0, 0x01, 0x00, 0xE0, 0xFF]);
    step_n(&mut c, 2);
    assert!(c.screen[0]);
    step_n(&mut c, 1);
    for p in 0..2048 {
        assert!(!c.screen[p]);
    }
}

#[test]
fn unaligned_pc_faults_deterministically() {
    let mut c = boot(vec![0x12, 0x51]); // JP 0x251
    step_n(&mut c, 1);
    assert_eq!(c.pc(), 0x251);
    assert_eq!(c.tick(), Err(ExecutionFault::UnalignedPc));
    assert_eq!(c.pc(), 0x251); // nothing changed
    assert_eq!(c.tick(), Err(ExecutionFault::UnalignedPc));
}

#[test]
fn unknown_opcode_faults() {
    let mut c = boot(vec![0x00, 0x00]);
    assert_eq!(c.tick(), Err(ExecutionFault::UnknownOpcode));
    assert_eq!(c.pc(), 0x200);

    let mut d = boot(vec![0x80, 0x18]); // the 8xy8 pattern is not defined
    assert_eq!(d.tick(), Err(ExecutionFault::UnknownOpcode));

    let mut e = boot(vec![0xFF, 0xFF]);
    assert_eq!(e.tick(), Err(ExecutionFault::UnknownOpcode));
}

#[test]
fn ret_with_empty_stack_faults() {
    let mut c = boot(vec![0x00, 0xEE]);
    assert_eq!(c.tick(), Err(ExecutionFault::StackUnderflow));
    assert_eq!(c.pc(), 0x200);
    assert_eq!(c.sp(), 0);
}

#[test]
fn seventeenth_nested_call_faults() {
    let mut program = Vec::new();
    for k in 0..17u16 {
        let target = 0x202 + 2 * k;
        program.push(0x20 | (target >> 8) as u8);
        program.push((target & 0xFF) as u8);
    }
    let mut c = boot(program);
    step_n(&mut c, 16);
    assert_eq!(c.sp(), 16);
    let pc_before = c.pc();
    assert_eq!(c.tick(), Err(ExecutionFault::StackOverflow));
    assert_eq!(c.pc(), pc_before);
    assert_eq!(c.sp(), 16);
}

#[test]
fn indexed_store_past_memory_end_faults() {
    // LD I,0xFFE ; LD B,V0 would write 0xFFE..0x1000, one byte past the end
    let mut c = boot(vec![0xAF, 0xFE, 0xF0, 0x33]);
    step_n(&mut c, 1);
    assert_eq!(c.tick(), Err(ExecutionFault::MemoryOutOfBounds));
    assert_eq!(c.pc(), 0x202);
}

#[test]
fn fetch_past_memory_end_faults() {
    let mut program = vec![0u8; 3584];
    program[0] = 0x1F; // JP 0xFFE
    program[1] = 0xFE;
    program[3582] = 0x30; // at 0xFFE: SE V0,0 -> taken, pc becomes 0x1002
    program[3583] = 0x00;
    let mut c = boot(program);
    step_n(&mut c, 2);
    assert_eq!(c.pc(), 0x1002);
    assert_eq!(c.tick(), Err(ExecutionFault::MemoryOutOfBounds));
}

#[test]
fn end_to_end_tiny_program_loops() {
    // CLS ; LD V0,5 ; ADD V0,10 ; JP 0x206 (jump to itself)
    let mut c = boot(vec![0x00, 0xE0, 0x60, 0x05, 0x70, 0x0A, 0x12, 0x06]);
    step_n(&mut c, 3);
    assert_eq!(c.reg(0), 15);
    for p in 0..2048 {
        assert!(!c.screen[p]);
    }
    assert_eq!(c.tick(), Ok(()));
    assert_eq!(c.pc(), 0x206);
    assert_eq!(c.tick(), Ok(()));
    assert_eq!(c.pc(), 0x206);
}
