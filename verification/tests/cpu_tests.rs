use cpu6502::CPU;

#[test]
fn test_0xa9_lda_immidiate_load_date() {
    let mut cpu = CPU::new();
    cpu.load_and_run(vec![0xa9, 0x05, 0x00]);
    assert_eq!(cpu.register_a, 0x05);
    assert!(cpu.status & 0b0000_0010 == 0b00);
    assert!(cpu.status & 0b1000_0000 == 0);
}

#[test]
fn test_0xa9_lda_zero_flag() {
    let mut cpu = CPU::new();
    cpu.load_and_run(vec![0xa9, 0x00, 0x00]);
    assert!(cpu.status & 0b0000_0010 == 0b10);
}

#[test]
fn test_0xa9_lda_negative_flag() {
    let mut cpu = CPU::new();
    cpu.load_and_run(vec![0xa9, 0x80, 0x00]);
    assert!(cpu.status & 0b1000_0000 != 0);
}

#[test]
fn test_0xaa_tax_move_a_to_x() {
    let mut cpu = CPU::new();
    cpu.load(vec![0xaa, 0x00]);
    cpu.reset();
    cpu.register_a = 10;
    cpu.run();
    assert_eq!(cpu.register_x, 10);
}

#[test]
fn test_5_ops_working_together() {
    let mut cpu = CPU::new();
    cpu.load_and_run(vec![0xa9, 0xc0, 0xaa, 0xe8, 0x00]);
    assert_eq!(cpu.register_x, 0xc1);
}

#[test]
fn test_inx_overflow() {
    let mut cpu = CPU::new();
    cpu.load(vec![0xe8, 0xe8, 0x00]);
    cpu.reset();
    cpu.register_x = 0xff;
    cpu.run();
    println!("cpu.register_x = {}", cpu.register_x);
    assert_eq!(cpu.register_x, 1);
}

#[test]
fn test_lda_from_memory_zero_page() {
    let mut cpu = CPU::new();
    cpu.mem_write(0x10, 0x55);
    cpu.load_and_run(vec![0xa5, 0x10, 0x00]);
    assert_eq!(cpu.register_a, 0x55);
}

#[test]
#[allow(non_snake_case)]
fn test_lda_from_memory_zero_page_X() {
    let mut cpu = CPU::new();
    cpu.load(vec![0xb5, 0x10, 0x00]);
    cpu.reset();
    cpu.mem_write(0x11, 0x56);
    cpu.register_x = 0x01;
    cpu.run();
    assert_eq!(cpu.register_a, 0x56);
}

#[test]
fn test_lda_from_memory_absolute() {
    let mut cpu = CPU::new();
    cpu.load(vec![0xad, 0x12, 0x34, 0x00]);
    cpu.reset();
    cpu.mem_write(0x3412, 0x23);
    cpu.run();
    assert_eq!(cpu.register_a, 0x23);
}

#[test]
fn test_lda_from_memory_absolute_x() {
    let mut cpu = CPU::new();
    cpu.load(vec![0xbd, 0x12, 0x34, 0x00]);
    cpu.reset();
    cpu.register_x = 0x0001;
    cpu.mem_write(0x3413, 0x23);
    cpu.run();
    assert_eq!(cpu.register_a, 0x23);
}

#[test]
fn test_lda_from_memory_absolute_y() {
    let mut cpu = CPU::new();
    cpu.load(vec![0xb9, 0x12, 0x34, 0x00]);
    cpu.reset();
    cpu.register_y = 0x0002;
    cpu.mem_write(0x3414, 0x23);
    cpu.run();
    assert_eq!(cpu.register_a, 0x23);
}

#[test]
fn test_lda_from_memory_indirect_x() {
    let mut cpu = CPU::new();
    cpu.load(vec![0xa1, 0x10, 0x00]);
    cpu.reset();
    cpu.register_x = 0x08;
    cpu.mem_write(0x18, 0x05);
    cpu.mem_write(0x19, 0x06);
    cpu.mem_write(0x0605, 0x44);
    cpu.run();
    assert_eq!(cpu.register_a, 0x44);
}

#[test]
fn test_lda_from_memory_indirect_x_2() {
    let mut cpu = CPU::new();
    cpu.load(vec![0xa1, 0x10, 0x00]);
    cpu.reset();
    cpu.register_x = 0x08;
    cpu.mem_write_u16(0x18, 0x0605);
    cpu.mem_write(0x0605, 0x44);
    cpu.run();
    assert_eq!(cpu.register_a, 0x44);
}

#[test]
fn test_lda_from_memory_indirect_y() {
    let mut cpu = CPU::new();
    cpu.load(vec![0xb1, 0x20, 0x00]);
    cpu.reset();
    cpu.register_y = 0x01;
    cpu.mem_write(0x20, 0xcd);
    cpu.mem_write(0x21, 0xab);
    cpu.mem_write(0xabce, 0x55);
    cpu.run();
    assert_eq!(cpu.register_a, 0x55);
}

#[test]
fn test_lda_from_memory_indirect_y_2() {
    let mut cpu = CPU::new();
    cpu.load(vec![0xb1, 0x20, 0x00]);
    cpu.reset();
    cpu.register_y = 0x02;
    cpu.mem_write_u16(0x20, 0xabcd);
    cpu.mem_write(0xabcf, 0x55);
    cpu.run();
    assert_eq!(cpu.register_a, 0x55);
}

#[test]
fn test_sta_from_memory_zero_page() {
    let mut cpu = CPU::new();
    cpu.load(vec![0x85, 0x10, 0x00]);
    cpu.reset();
    cpu.register_a = 0xAA;
    cpu.run();
    assert_eq!(cpu.mem_read(0x10), 0xAA);
}

#[test]
fn test_adc_no_carry() {
    let mut cpu = CPU::new();
    cpu.load(vec![0x69, 0x10, 0x00]);
    cpu.reset();
    cpu.register_a = 0x20;
    cpu.run();
    assert_eq!(cpu.register_a, 0x30);
    assert_eq!(cpu.status, 0x00);
}

#[test]
fn test_adc_has_carry() {
    let mut cpu = CPU::new();
    cpu.load(vec![0x69, 0x10, 0x00]);
    cpu.reset();
    cpu.register_a = 0x20;
    cpu.status = 0x01;
    cpu.run();
    assert_eq!(cpu.register_a, 0x31);
    assert_eq!(cpu.status, 0x00);
}

#[test]
fn test_adc_occur_carry() {
    let mut cpu = CPU::new();
    cpu.load(vec![0x69, 0x01, 0x00]);
    cpu.reset();
    cpu.register_a = 0xFF;
    cpu.run();
    assert_eq!(cpu.register_a, 0x00);
    assert_eq!(cpu.status, 0x03);
}

#[test]
fn test_adc_occur_overflow_plus() {
    let mut cpu = CPU::new();
    cpu.load(vec![0x69, 0x01, 0x00]);
    cpu.reset();
    cpu.register_a = 0x7F;
    cpu.run();
    assert_eq!(cpu.register_a, 0x80);
    assert_eq!(cpu.status, 0xC0);
}

#[test]
fn test_adc_occur_overflow_plus_with_carry() {
    let mut cpu = CPU::new();
    cpu.load(vec![0x69, 0x6F, 0x00]);
    cpu.reset();
    cpu.register_a = 0x10;
    cpu.status = 0x01;
    cpu.run();
    assert_eq!(cpu.register_a, 0x80);
    assert_eq!(cpu.status, 0xC0);
}

#[test]
fn test_adc_occur_overflow_minus() {
    let mut cpu = CPU::new();
    cpu.load(vec![0x69, 0x81, 0x00]);
    cpu.reset();
    cpu.register_a = 0x81;
    cpu.run();
    assert_eq!(cpu.register_a, 0x02);
    assert_eq!(cpu.status, 0x41);
}

#[test]
fn test_adc_occur_overflow_minus_with_carry() {
    let mut cpu = CPU::new();
    cpu.load(vec![0x69, 0x80, 0x00]);
    cpu.reset();
    cpu.register_a = 0x80;
    cpu.status = 0x01;
    cpu.run();
    assert_eq!(cpu.register_a, 0x01);
    assert_eq!(cpu.status, 0x41);
}

#[test]
fn test_adc_occur_no_overflow() {
    let mut cpu = CPU::new();
    cpu.load(vec![0x69, 0x7F, 0x00]);
    cpu.reset();
    cpu.register_a = 0x82;
    cpu.run();
    assert_eq!(cpu.register_a, 0x01);
    assert_eq!(cpu.status, 0x01);
}
