use cpu6502::CPU;

#[test]
fn new_processor_is_all_zero() {
    let cpu = CPU::new();
    assert_eq!(cpu.register_a, 0);
    assert_eq!(cpu.register_x, 0);
    assert_eq!(cpu.register_y, 0);
    assert_eq!(cpu.status, 0);
    assert_eq!(cpu.program_counter, 0);
    assert_eq!(cpu.mem_read(0x0000), 0);
    assert_eq!(cpu.mem_read(0x8000), 0);
    assert_eq!(cpu.mem_read(0xFFFF), 0);
}

#[test]
fn byte_is_read_back_and_neighbours_kept() {
    let mut cpu = CPU::new();
    cpu.mem_write(0x1234, 0x9a);
    assert_eq!(cpu.mem_read(0x1234), 0x9a);
    assert_eq!(cpu.mem_read(0x1233), 0x00);
    assert_eq!(cpu.mem_read(0x1235), 0x00);
    cpu.mem_write(0xFFFF, 0x01);
    assert_eq!(cpu.mem_read(0xFFFF), 0x01);
}

#[test]
fn word_is_stored_little_endian() {
    let mut cpu = CPU::new();
    cpu.mem_write_u16(0x4000, 0xbeef);
    assert_eq!(cpu.mem_read(0x4000), 0xef);
    assert_eq!(cpu.mem_read(0x4001), 0xbe);
    assert_eq!(cpu.mem_read(0x3fff), 0x00);
    assert_eq!(cpu.mem_read(0x4002), 0x00);
    cpu.mem_write_u16(0xFFFE, 0x1234);
    assert_eq!(cpu.mem_read(0xFFFE), 0x34);
    assert_eq!(cpu.mem_read(0xFFFF), 0x12);
}

#[test]
fn load_then_reset_starts_at_program() {
    let mut cpu = CPU::new();
    cpu.register_a = 7;
    cpu.register_x = 8;
    cpu.register_y = 9;
    cpu.status = 0xff;
    cpu.program_counter = 0x1234;
    cpu.load(vec![0xa9, 0x42, 0x00]);
    assert_eq!(cpu.mem_read(0x8000), 0xa9);
    assert_eq!(cpu.mem_read(0x8001), 0x42);
    assert_eq!(cpu.mem_read(0x8002), 0x00);
    assert_eq!(cpu.mem_read(0xFFFC), 0x00);
    assert_eq!(cpu.mem_read(0xFFFD), 0x80);
    cpu.reset();
    assert_eq!(cpu.program_counter, 0x8000);
    assert_eq!(cpu.register_a, 0);
    assert_eq!(cpu.register_x, 0);
    assert_eq!(cpu.register_y, 0);
    assert_eq!(cpu.status, 0);
}

#[test]
fn reset_follows_reset_vector() {
    let mut cpu = CPU::new();
    cpu.mem_write_u16(0xFFFC, 0x0600);
    cpu.reset();
    assert_eq!(cpu.program_counter, 0x0600);
}

#[test]
fn run_stops_just_past_brk() {
    let mut cpu = CPU::new();
    cpu.load_and_run(vec![0xa9, 0x05, 0xaa, 0x00]);
    assert_eq!(cpu.program_counter, 0x8004);
    assert_eq!(cpu.mem_read(cpu.program_counter - 1), 0x00);
}

#[test]
fn run_from_other_origin() {
    let mut cpu = CPU::new();
    cpu.mem_write(0x0600, 0xa9);
    cpu.mem_write(0x0601, 0x21);
    cpu.mem_write(0x0602, 0x8d);
    cpu.mem_write(0x0603, 0x00);
    cpu.mem_write(0x0604, 0x02);
    cpu.mem_write(0x0605, 0x00);
    cpu.program_counter = 0x0600;
    cpu.run();
    assert_eq!(cpu.mem_read(0x0200), 0x21);
    assert_eq!(cpu.program_counter, 0x0606);
}

#[test]
fn zero_page_x_wraps_within_zero_page() {
    let mut cpu = CPU::new();
    cpu.load(vec![0xb5, 0x80, 0x00]);
    cpu.reset();
    cpu.register_x = 0xff;
    cpu.mem_write(0x7f, 0x33);
    cpu.mem_write(0x017f, 0x44);
    cpu.run();
    assert_eq!(cpu.register_a, 0x33);
}

#[test]
fn indirect_x_pointer_wraps_within_zero_page() {
    let mut cpu = CPU::new();
    cpu.load(vec![0xa1, 0xff, 0x00]);
    cpu.reset();
    cpu.register_x = 0x00;
    cpu.mem_write(0xff, 0x34);
    cpu.mem_write(0x00, 0x12);
    cpu.mem_write(0x1234, 0x77);
    cpu.run();
    assert_eq!(cpu.register_a, 0x77);
}

#[test]
fn indirect_y_pointer_wraps_within_zero_page() {
    let mut cpu = CPU::new();
    cpu.load(vec![0xb1, 0xff, 0x00]);
    cpu.reset();
    cpu.register_y = 0x01;
    cpu.mem_write(0xff, 0x34);
    cpu.mem_write(0x00, 0x12);
    cpu.mem_write(0x1235, 0x66);
    cpu.run();
    assert_eq!(cpu.register_a, 0x66);
}

#[test]
fn absolute_x_wraps_past_end_of_memory() {
    let mut cpu = CPU::new();
    cpu.load(vec![0xbd, 0xff, 0xff, 0x00]);
    cpu.reset();
    cpu.register_x = 0x02;
    cpu.mem_write(0x0001, 0x5a);
    cpu.run();
    assert_eq!(cpu.register_a, 0x5a);
}

#[test]
fn sta_in_every_mode() {
    let mut cpu = CPU::new();
    cpu.load(vec![
        0x95, 0x10, // STA $10,X
        0x8d, 0x00, 0x30, // STA $3000
        0x9d, 0x00, 0x30, // STA $3000,X
        0x99, 0x00, 0x30, // STA $3000,Y
        0x81, 0x40, // STA ($40,X)
        0x91, 0x50, // STA ($50),Y
        0x00,
    ]);
    cpu.reset();
    cpu.register_a = 0x99;
    cpu.register_x = 0x02;
    cpu.register_y = 0x03;
    cpu.mem_write_u16(0x42, 0x2000);
    cpu.mem_write_u16(0x50, 0x2100);
    cpu.run();
    assert_eq!(cpu.mem_read(0x12), 0x99);
    assert_eq!(cpu.mem_read(0x3000), 0x99);
    assert_eq!(cpu.mem_read(0x3002), 0x99);
    assert_eq!(cpu.mem_read(0x3003), 0x99);
    assert_eq!(cpu.mem_read(0x2000), 0x99);
    assert_eq!(cpu.mem_read(0x2103), 0x99);
    assert_eq!(cpu.mem_read(0x3001), 0x00);
}

#[test]
fn lda_sets_zero_and_negative_but_keeps_carry_and_overflow() {
    let mut cpu = CPU::new();
    cpu.load(vec![0xa9, 0x00, 0x00]);
    cpu.reset();
    cpu.status = 0b0100_0001 | 0b1000_0000;
    cpu.run();
    assert_eq!(cpu.status, 0b0100_0011);
}

#[test]
fn tax_copies_negative_value() {
    let mut cpu = CPU::new();
    cpu.load_and_run(vec![0xa9, 0xf0, 0xaa, 0x00]);
    assert_eq!(cpu.register_x, 0xf0);
    assert_eq!(cpu.status, 0b1000_0000);
}

#[test]
fn inx_wraps_to_zero_and_sets_zero_flag() {
    let mut cpu = CPU::new();
    cpu.load(vec![0xe8, 0x00]);
    cpu.reset();
    cpu.register_x = 0xff;
    cpu.run();
    assert_eq!(cpu.register_x, 0x00);
    assert_eq!(cpu.status, 0b0000_0010);
}

#[test]
fn adc_with_carry_from_operand_plus_carry() {
    // 0xFF + carry wraps the operand itself; the sum is A + 0x100.
    let mut cpu = CPU::new();
    cpu.load(vec![0x69, 0xff, 0x00]);
    cpu.reset();
    cpu.register_a = 0x05;
    cpu.status = 0x01;
    cpu.run();
    assert_eq!(cpu.register_a, 0x05);
    assert_eq!(cpu.status, 0x01);
}

#[test]
fn adc_result_zero_sets_zero_and_carry() {
    let mut cpu = CPU::new();
    cpu.load(vec![0x69, 0x80, 0x00]);
    cpu.reset();
    cpu.register_a = 0x80;
    cpu.run();
    assert_eq!(cpu.register_a, 0x00);
    assert_eq!(cpu.status, 0b0100_0011);
}

#[test]
fn adc_chain_of_additions() {
    let mut cpu = CPU::new();
    cpu.load_and_run(vec![0xa9, 0xf0, 0x69, 0x20, 0x69, 0x01, 0x00]);
    // 0xF0 + 0x20 = 0x110: A = 0x10, carry; then 0x10 + 0x01 + 1 = 0x12.
    assert_eq!(cpu.register_a, 0x12);
    assert_eq!(cpu.status, 0x00);
}

#[test]
fn word_round_trip_through_mem_read_u16() {
    let mut cpu = CPU::new();
    cpu.mem_write_u16(0x0010, 0xa1b2);
    assert_eq!(cpu.mem_read_u16(0x0010), 0xa1b2);
    cpu.mem_write_u16(0xFFFE, 0x0102);
    assert_eq!(cpu.mem_read_u16(0xFFFE), 0x0102);
    cpu.mem_write(0x2000, 0x34);
    cpu.mem_write(0x2001, 0x12);
    assert_eq!(cpu.mem_read_u16(0x2000), 0x1234);
}

#[test]
fn getters_and_setters_touch_one_register() {
    let mut cpu = CPU::new();
    cpu.set_register_a(0x11);
    cpu.set_register_x(0x22);
    cpu.set_register_y(0x33);
    cpu.set_status(0x44);
    cpu.set_program_counter(0x5566);
    assert_eq!(cpu.register_a(), 0x11);
    assert_eq!(cpu.register_x(), 0x22);
    assert_eq!(cpu.register_y(), 0x33);
    assert_eq!(cpu.status(), 0x44);
    assert_eq!(cpu.program_counter(), 0x5566);
    assert_eq!(cpu.register_a, 0x11);
    assert_eq!(cpu.program_counter, 0x5566);
    cpu.set_register_x(0x99);
    assert_eq!(cpu.register_a(), 0x11);
    assert_eq!(cpu.register_y(), 0x33);
    assert_eq!(cpu.mem_read(0x5566), 0x00);
}

#[test]
fn load_and_run_ignores_starting_registers() {
    let program = vec![0xa9, 0x7f, 0x69, 0x01, 0xaa, 0xe8, 0x00];
    let mut first = CPU::new();
    let mut second = CPU::new();
    second.register_a = 0xde;
    second.register_x = 0xad;
    second.register_y = 0xbe;
    second.status = 0xef;
    second.program_counter = 0x1234;
    first.load_and_run(program.clone());
    second.load_and_run(program);
    assert_eq!(first.register_a, second.register_a);
    assert_eq!(first.register_x, second.register_x);
    assert_eq!(first.register_y, second.register_y);
    assert_eq!(first.status, second.status);
    assert_eq!(first.program_counter, second.program_counter);
    assert_eq!(first.register_a, 0x80);
    assert_eq!(first.register_x, 0x81);
    assert_eq!(first.status, 0b1100_0000);
}

#[test]
fn each_cycle_advances_pc_by_instruction_length() {
    // LDA #imm (2 bytes), LDA abs (3 bytes), TAX (1 byte), BRK.
    let mut cpu = CPU::new();
    cpu.load_and_run(vec![0xa9, 0x01, 0xad, 0x00, 0x80, 0xaa, 0x00]);
    assert_eq!(cpu.program_counter, 0x8007);
    assert_eq!(cpu.register_a, 0xa9);
    assert_eq!(cpu.register_x, 0xa9);
}
