use chip8_core::cpu::{
    Cpu, CpuError, DISPLAY_WIDTH, FLAG, FONT_BASE, PROGRAM_START, RAM_SIZE, TICK_MICROS,
};

fn machine(program: &[u16]) -> Cpu {
    let mut bytes = Vec::new();
    for w in program {
        bytes.push((w >> 8) as u8);
        bytes.push((w & 0xFF) as u8);
    }
    let mut cpu = Cpu::new();
    cpu.load_program(&bytes, PROGRAM_START).unwrap();
    cpu
}

fn run(cpu: &mut Cpu, steps: usize) {
    for _ in 0..steps {
        cpu.step(0).unwrap();
    }
}

#[test]
fn reset_state_is_clean() {
    let cpu = Cpu::new();
    assert_eq!(cpu.pc(), 0x200);
    assert_eq!(cpu.index_register(), 0);
    assert_eq!(cpu.stack_pointer(), 0);
    assert_eq!(cpu.delay_timer(), 0);
    assert_eq!(cpu.sound_timer(), 0);
    assert!(!cpu.sound_active());
    assert!(!cpu.is_waiting_for_key());
    for x in 0..16 {
        assert_eq!(cpu.register(x), 0);
    }
    assert!(cpu.display_buffer().iter().all(|p| !p));
    assert_eq!(cpu.memory(PROGRAM_START as usize), 0);
    assert_eq!(cpu.memory(FONT_BASE as usize), 0xF0);
    assert_eq!(cpu.memory(FONT_BASE as usize + 5), 0x20);
    assert_eq!(cpu.memory(FONT_BASE as usize + 79), 0x80);
}

#[test]
fn add_immediate_wraps_without_flag() {
    let mut cpu = machine(&[0x60FF, 0x7002]);
    run(&mut cpu, 2);
    assert_eq!(cpu.register(0), 0x01);
    assert_eq!(cpu.register(FLAG), 0);
    assert_eq!(cpu.pc(), 0x204);
}

#[test]
fn add_with_carry_sets_flag_on_overflow() {
    let mut cpu = machine(&[0x61C8, 0x6264, 0x8124]);
    run(&mut cpu, 3);
    assert_eq!(cpu.register(1), 44);
    assert_eq!(cpu.register(FLAG), 1);
}

#[test]
fn add_with_carry_clears_flag_without_overflow() {
    let mut cpu = machine(&[0x6F07, 0x610A, 0x6214, 0x8124]);
    run(&mut cpu, 4);
    assert_eq!(cpu.register(1), 30);
    assert_eq!(cpu.register(FLAG), 0);
}

#[test]
fn add_with_carry_at_exactly_255() {
    let mut cpu = machine(&[0x61FF, 0x6200, 0x8124]);
    run(&mut cpu, 3);
    assert_eq!(cpu.register(1), 255);
    assert_eq!(cpu.register(FLAG), 0);
}

#[test]
fn subtract_sets_flag_when_no_borrow() {
    let mut cpu = machine(&[0x6105, 0x6205, 0x8125]);
    run(&mut cpu, 3);
    assert_eq!(cpu.register(1), 0);
    assert_eq!(cpu.register(FLAG), 1);
}

#[test]
fn subtract_wraps_and_clears_flag_on_borrow() {
    let mut cpu = machine(&[0x6103, 0x6205, 0x8125]);
    run(&mut cpu, 3);
    assert_eq!(cpu.register(1), 254);
    assert_eq!(cpu.register(FLAG), 0);
}

#[test]
fn reverse_subtract() {
    let mut cpu = machine(&[0x6103, 0x6205, 0x8127]);
    run(&mut cpu, 3);
    assert_eq!(cpu.register(1), 2);
    assert_eq!(cpu.register(FLAG), 1);
}

#[test]
fn shift_right_then_left_restores_bits() {
    let mut cpu = machine(&[0x61B5, 0x8106, 0x83F0, 0x810E]);
    run(&mut cpu, 2);
    assert_eq!(cpu.register(FLAG), 1);
    assert_eq!(cpu.register(1), 0x5A);
    run(&mut cpu, 2);
    let low = cpu.register(3);
    assert_eq!(low, 1);
    assert_eq!(cpu.register(FLAG), 0);
    assert_eq!(cpu.register(1), 0xB4);
    assert_eq!(cpu.register(1) | low, 0xB5);
}

#[test]
fn shift_left_captures_high_bit() {
    let mut cpu = machine(&[0x6181, 0x810E]);
    run(&mut cpu, 2);
    assert_eq!(cpu.register(FLAG), 1);
    assert_eq!(cpu.register(1), 0x02);
}

#[test]
fn bitwise_ops_and_copy() {
    let mut cpu = machine(&[0x610C, 0x620A, 0x8310, 0x8321, 0x8410, 0x8422, 0x8510, 0x8523]);
    run(&mut cpu, 8);
    assert_eq!(cpu.register(3), 0x0E);
    assert_eq!(cpu.register(4), 0x08);
    assert_eq!(cpu.register(5), 0x06);
}

#[test]
fn skips_advance_by_four() {
    let mut cpu = machine(&[0x6107, 0x3107]);
    run(&mut cpu, 2);
    assert_eq!(cpu.pc(), 0x206);
    let mut cpu = machine(&[0x6107, 0x3108]);
    run(&mut cpu, 2);
    assert_eq!(cpu.pc(), 0x204);
    let mut cpu = machine(&[0x6107, 0x4108, 0x0000, 0x5120, 0x0000, 0x9120]);
    run(&mut cpu, 2);
    assert_eq!(cpu.pc(), 0x206);
    run(&mut cpu, 1);
    assert_eq!(cpu.pc(), 0x208);
    let mut cpu = machine(&[0x6107, 0x9120]);
    run(&mut cpu, 2);
    assert_eq!(cpu.pc(), 0x206);
}

#[test]
fn jumps() {
    let mut cpu = machine(&[0x1300]);
    run(&mut cpu, 1);
    assert_eq!(cpu.pc(), 0x300);
    let mut cpu = machine(&[0x6010, 0xB300]);
    run(&mut cpu, 2);
    assert_eq!(cpu.pc(), 0x310);
}

#[test]
fn call_then_return_resumes_after_call() {
    let mut cpu = machine(&[0x2300]);
    cpu.load_program(&[0x00, 0xEE], 0x300).unwrap();
    run(&mut cpu, 1);
    assert_eq!(cpu.pc(), 0x300);
    assert_eq!(cpu.stack_pointer(), 1);
    run(&mut cpu, 1);
    assert_eq!(cpu.pc(), 0x202);
    assert_eq!(cpu.stack_pointer(), 0);
}

#[test]
fn nested_calls_to_depth_sixteen_then_overflow() {
    // Each subroutine calls the next; the sixteenth call fills the stack.
    let mut cpu = Cpu::new();
    for k in 0..17u16 {
        let at = 0x300 + 4 * k;
        let next = at + 4;
        cpu.load_program(&[0x20 | (next >> 8) as u8, (next & 0xFF) as u8, 0x00, 0xEE], at)
            .unwrap();
    }
    cpu.load_program(&[0x23, 0x00], PROGRAM_START).unwrap();
    for depth in 1..=16u8 {
        cpu.step(0).unwrap();
        assert_eq!(cpu.stack_pointer(), depth);
    }
    let pc = cpu.pc();
    assert_eq!(cpu.step(0), Err(CpuError::StackOverflow));
    assert_eq!(cpu.pc(), pc);
    assert_eq!(cpu.stack_pointer(), 16);
}

#[test]
fn unwinding_sixteen_calls() {
    let mut cpu = Cpu::new();
    for k in 0..15u16 {
        let at = 0x300 + 4 * k;
        let next = at + 4;
        cpu.load_program(&[0x20 | (next >> 8) as u8, (next & 0xFF) as u8, 0x00, 0xEE], at)
            .unwrap();
    }
    cpu.load_program(&[0x00, 0xEE], 0x33C).unwrap();
    cpu.load_program(&[0x23, 0x00], PROGRAM_START).unwrap();
    run(&mut cpu, 16);
    assert_eq!(cpu.stack_pointer(), 16);
    assert_eq!(cpu.pc(), 0x33C);
    run(&mut cpu, 1);
    assert_eq!(cpu.pc(), 0x33A);
    run(&mut cpu, 15);
    assert_eq!(cpu.stack_pointer(), 0);
    assert_eq!(cpu.pc(), 0x202);
}

#[test]
fn return_with_empty_stack_underflows() {
    let mut cpu = machine(&[0x00EE]);
    assert_eq!(cpu.step(0), Err(CpuError::StackUnderflow));
    assert_eq!(cpu.pc(), 0x200);
}

#[test]
fn unknown_instruction_is_reported() {
    let mut cpu = machine(&[0x8008]);
    assert_eq!(cpu.step(0), Err(CpuError::InvalidInstruction(0x8008)));
    assert_eq!(cpu.pc(), 0x200);
    let mut cpu = machine(&[0x0123]);
    assert_eq!(cpu.step(0), Err(CpuError::InvalidInstruction(0x0123)));
    let mut cpu = machine(&[0xE0FF]);
    assert_eq!(cpu.step(0), Err(CpuError::InvalidInstruction(0xE0FF)));
    let mut cpu = machine(&[0xF0FF]);
    assert_eq!(cpu.step(0), Err(CpuError::InvalidInstruction(0xF0FF)));
}

#[test]
fn fetch_past_memory_end_is_out_of_bounds() {
    let mut cpu = machine(&[0x1FFF]);
    run(&mut cpu, 1);
    assert_eq!(cpu.pc(), 0xFFF);
    assert_eq!(cpu.step(0), Err(CpuError::OutOfBounds));
}

#[test]
fn load_program_past_end_fails() {
    let mut cpu = Cpu::new();
    assert_eq!(cpu.load_program(&[1, 2, 3], 0xFFE), Err(CpuError::OutOfBounds));
    assert_eq!(cpu.memory(0xFFE), 0);
    assert_eq!(cpu.load_program(&[1, 2], 0xFFE), Ok(()));
    assert_eq!(cpu.memory(0xFFF), 2);
    assert_eq!(cpu.load_program(&[], RAM_SIZE as u16), Ok(()));
}

#[test]
fn bcd_digits() {
    let mut cpu = machine(&[0x61FE, 0xA300, 0xF133]);
    run(&mut cpu, 3);
    assert_eq!(cpu.memory(0x300), 2);
    assert_eq!(cpu.memory(0x301), 5);
    assert_eq!(cpu.memory(0x302), 4);
}

#[test]
fn bcd_past_memory_end_is_out_of_bounds() {
    let mut cpu = machine(&[0xAFFE, 0xF133]);
    run(&mut cpu, 1);
    assert_eq!(cpu.step(0), Err(CpuError::OutOfBounds));
    assert_eq!(cpu.memory(0xFFE), 0);
}

#[test]
fn dump_and_load_registers() {
    let mut cpu = machine(&[0x6011, 0x6122, 0x6233, 0xA400, 0xF155, 0x6000, 0x6100, 0x6200, 0xF265]);
    run(&mut cpu, 5);
    assert_eq!(cpu.memory(0x400), 0x11);
    assert_eq!(cpu.memory(0x401), 0x22);
    assert_eq!(cpu.memory(0x402), 0);
    assert_eq!(cpu.index_register(), 0x400);
    run(&mut cpu, 4);
    assert_eq!(cpu.register(0), 0x11);
    assert_eq!(cpu.register(1), 0x22);
    assert_eq!(cpu.register(2), 0);
}

#[test]
fn dump_registers_past_end_fails() {
    let mut cpu = machine(&[0xAFFF, 0xF155]);
    run(&mut cpu, 1);
    assert_eq!(cpu.step(0), Err(CpuError::OutOfBounds));
}

#[test]
fn index_arithmetic_and_glyphs() {
    let mut cpu = machine(&[0xA123, 0x6110, 0xF11E, 0x620A, 0xF229]);
    run(&mut cpu, 3);
    assert_eq!(cpu.index_register(), 0x133);
    run(&mut cpu, 2);
    assert_eq!(cpu.index_register(), FONT_BASE + 50);
    assert_eq!(cpu.memory(cpu.index_register() as usize), 0xF0);
    assert_eq!(cpu.memory(cpu.index_register() as usize + 1), 0x90);
}

#[test]
fn random_byte_is_masked() {
    let mut cpu = machine(&[0xC10F, 0xC200]);
    cpu.step(0xAB).unwrap();
    assert_eq!(cpu.register(1), 0x0B);
    cpu.simulate_cycle().unwrap();
    assert_eq!(cpu.register(2), 0);
    assert_eq!(cpu.pc(), 0x204);
}

#[test]
fn simulate_cycle_runs_plain_instructions() {
    let mut cpu = machine(&[0x6A42, 0x1200]);
    cpu.simulate_cycle().unwrap();
    assert_eq!(cpu.register(0xA), 0x42);
    cpu.simulate_cycle().unwrap();
    assert_eq!(cpu.pc(), 0x200);
}

#[test]
fn clear_screen() {
    let mut cpu = machine(&[0xA050, 0xD005, 0x00E0]);
    run(&mut cpu, 2);
    assert!(cpu.pixel(0, 0));
    run(&mut cpu, 1);
    assert!(cpu.display_buffer().iter().all(|p| !p));
}

#[test]
fn draw_sprite_sets_pixels() {
    // The glyph of 0 is F0 90 90 90 F0.
    let mut cpu = machine(&[0x6102, 0x6203, 0xA050, 0xD125]);
    run(&mut cpu, 4);
    assert_eq!(cpu.register(FLAG), 0);
    for c in 0..4 {
        assert!(cpu.pixel(2 + c, 3));
        assert!(cpu.pixel(2 + c, 7));
    }
    assert!(cpu.pixel(2, 4));
    assert!(!cpu.pixel(3, 4));
    assert!(cpu.pixel(5, 4));
    assert!(!cpu.pixel(6, 3));
    let lit = cpu.display_buffer().iter().filter(|p| **p).count();
    assert_eq!(lit, 14);
}

#[test]
fn draw_sprite_twice_restores_and_collides() {
    let mut cpu = machine(&[0x6102, 0x6203, 0xA050, 0xD125, 0xD125]);
    run(&mut cpu, 4);
    assert_eq!(cpu.register(FLAG), 0);
    run(&mut cpu, 1);
    assert_eq!(cpu.register(FLAG), 1);
    assert!(cpu.display_buffer().iter().all(|p| !p));
}

#[test]
fn draw_empty_sprite_has_no_collision() {
    let mut cpu = machine(&[0xA300, 0xD123, 0xD123]);
    run(&mut cpu, 3);
    assert_eq!(cpu.register(FLAG), 0);
    assert!(cpu.display_buffer().iter().all(|p| !p));
}

#[test]
fn draw_sprite_wraps_around_edges() {
    let mut cpu = machine(&[0x613E, 0x621F, 0xA050, 0xD122]);
    run(&mut cpu, 4);
    // Row 31 from column 62: F0 lights 62, 63, 0, 1.
    assert!(cpu.pixel(62, 31));
    assert!(cpu.pixel(63, 31));
    assert!(cpu.pixel(0, 31));
    assert!(cpu.pixel(1, 31));
    assert!(!cpu.pixel(2, 31));
    // Row 0 holds 90: columns 62 and 1.
    assert!(cpu.pixel(62, 0));
    assert!(!cpu.pixel(63, 0));
    assert!(cpu.pixel(1, 0));
    assert_eq!(cpu.display_buffer()[31 * DISPLAY_WIDTH + 62], true);
}

#[test]
fn draw_sprite_past_memory_end_fails() {
    let mut cpu = machine(&[0xAFFE, 0xD003]);
    run(&mut cpu, 1);
    assert_eq!(cpu.step(0), Err(CpuError::OutOfBounds));
}

#[test]
fn key_skips() {
    let mut cpu = machine(&[0x6105, 0xE19E, 0xE1A1]);
    run(&mut cpu, 2);
    assert_eq!(cpu.pc(), 0x204);
    cpu.set_key(5, true);
    assert!(cpu.key_pressed(5));
    run(&mut cpu, 1);
    assert_eq!(cpu.pc(), 0x206);
    let mut cpu = machine(&[0x6105, 0xE19E]);
    cpu.set_key(5, true);
    run(&mut cpu, 2);
    assert_eq!(cpu.pc(), 0x206);
    let mut cpu = machine(&[0x6115, 0xE1A1]);
    cpu.set_key(5, true);
    run(&mut cpu, 2);
    assert_eq!(cpu.pc(), 0x204);
    cpu.set_key(5, false);
    let mut cpu = machine(&[0x6105, 0xE1A1]);
    run(&mut cpu, 2);
    assert_eq!(cpu.pc(), 0x206);
}

#[test]
fn delay_timer_counts_down_per_tick() {
    let mut cpu = machine(&[0x6005, 0xF015, 0xF107]);
    run(&mut cpu, 2);
    assert_eq!(cpu.delay_timer(), 5);
    cpu.advance_time(TICK_MICROS);
    assert_eq!(cpu.delay_timer(), 4);
    run(&mut cpu, 1);
    assert_eq!(cpu.register(1), 4);
    for _ in 0..4 {
        cpu.advance_time(TICK_MICROS);
    }
    assert_eq!(cpu.delay_timer(), 0);
    cpu.advance_time(TICK_MICROS * 10);
    cpu.update_timers();
    assert_eq!(cpu.delay_timer(), 0);
}

#[test]
fn delay_timer_five_intervals_reach_zero() {
    let mut cpu = machine(&[0x6005, 0xF015]);
    run(&mut cpu, 2);
    cpu.advance_time(5 * TICK_MICROS);
    assert_eq!(cpu.delay_timer(), 0);
    cpu.advance_time(TICK_MICROS);
    assert_eq!(cpu.delay_timer(), 0);
}

#[test]
fn timers_wait_for_a_full_interval() {
    let mut cpu = machine(&[0x6003, 0xF015, 0xF018]);
    run(&mut cpu, 3);
    assert!(cpu.sound_active());
    cpu.advance_time(TICK_MICROS - 1);
    assert_eq!(cpu.delay_timer(), 3);
    cpu.advance_time(1);
    assert_eq!(cpu.delay_timer(), 2);
    assert_eq!(cpu.sound_timer(), 2);
    cpu.update_timers();
    cpu.update_timers();
    assert_eq!(cpu.sound_timer(), 0);
    assert!(!cpu.sound_active());
    cpu.advance_time(u64::MAX);
    assert_eq!(cpu.delay_timer(), 0);
}

#[test]
fn instructions_do_not_tick_timers() {
    let mut cpu = machine(&[0x6009, 0xF015, 0x1204]);
    run(&mut cpu, 10);
    assert_eq!(cpu.delay_timer(), 9);
}

#[test]
fn wait_for_key_blocks_then_resumes() {
    let mut cpu = machine(&[0xF30A, 0x6001]);
    for _ in 0..5 {
        cpu.step(0).unwrap();
        assert_eq!(cpu.pc(), 0x200);
        assert_eq!(cpu.register(3), 0);
        assert!(cpu.is_waiting_for_key());
    }
    cpu.set_key(7, true);
    cpu.step(0).unwrap();
    assert_eq!(cpu.register(3), 7);
    assert_eq!(cpu.pc(), 0x202);
    assert!(!cpu.is_waiting_for_key());
    cpu.step(0).unwrap();
    assert_eq!(cpu.register(0), 1);
}

#[test]
fn wait_for_key_ignores_a_key_already_held() {
    let mut cpu = machine(&[0xF30A]);
    cpu.set_key(2, true);
    run(&mut cpu, 3);
    assert_eq!(cpu.pc(), 0x200);
    cpu.set_key(2, false);
    run(&mut cpu, 1);
    cpu.set_key(9, true);
    cpu.set_key(2, true);
    run(&mut cpu, 1);
    assert_eq!(cpu.register(3), 2);
    assert_eq!(cpu.pc(), 0x202);
}

#[test]
fn reset_restores_start_state() {
    let mut cpu = machine(&[0x6005, 0xF015, 0x2300]);
    run(&mut cpu, 3);
    cpu.reset();
    assert_eq!(cpu.pc(), 0x200);
    assert_eq!(cpu.delay_timer(), 0);
    assert_eq!(cpu.stack_pointer(), 0);
    assert_eq!(cpu.memory(0x200), 0);
}
