use vstd::prelude::*;

use crate::cpu::AddressingMode;

verus! {

/// Bit of the status register that records a carry out of bit 7.
pub const FLAG_CARRY: u8 = 0b0000_0001;

/// Bit of the status register that records a zero result.
pub const FLAG_ZERO: u8 = 0b0000_0010;

/// Bit of the status register that records a signed overflow.
pub const FLAG_OVERFLOW: u8 = 0b0100_0000;

/// Bit of the status register that records a negative (bit 7 set) result.
pub const FLAG_NEGATIVE: u8 = 0b1000_0000;

/// Number of bytes in the address space.
pub const MEMORY_SIZE: usize = 0x10000;

/// Address of the little-endian reset vector, read by `reset`.
pub const RESET_VECTOR: u16 = 0xFFFC;

/// Address at which `load` places a program.
pub const PROGRAM_START: u16 = 0x8000;

/// The abstract state of the processor: its registers and its memory.
pub struct CpuState {
    pub a: u8,
    pub x: u8,
    pub y: u8,
    pub status: u8,
    pub pc: u16,
    pub mem: Seq<u8>,
}

/// A state whose memory covers the whole 16-bit address space.
pub open spec fn well_formed(s: CpuState) -> bool {
    s.mem.len() == MEMORY_SIZE
}

/// The state of a freshly built processor: every register and byte is zero.
pub open spec fn power_on_state() -> CpuState {
    CpuState { a: 0, x: 0, y: 0, status: 0, pc: 0, mem: Seq::new(MEMORY_SIZE as nat, |i: int| 0u8) }
}

/// `status` with the bits of `flag` set when `on` holds and cleared otherwise.
pub open spec fn with_flag(status: u8, flag: u8, on: bool) -> u8 {
    if on {
        status | flag
    } else {
        status & !flag
    }
}

/// Whether any bit of `flag` is set in `status`.
pub open spec fn flag_set(status: u8, flag: u8) -> bool {
    status & flag != 0
}

/// `status` after a result `r` was produced: Z tells whether `r` is zero,
/// N whether `r` is negative as a signed byte; no other bit changes.
pub open spec fn zero_negative(status: u8, r: u8) -> u8 {
    with_flag(with_flag(status, FLAG_ZERO, r == 0), FLAG_NEGATIVE, r >= 0x80)
}


/// The little-endian 16-bit word at `pos` and `pos + 1`.
pub open spec fn read_u16(mem: Seq<u8>, pos: int) -> int {
    mem[pos] + 256 * mem[pos + 1]
}

/// `mem` with the 16-bit word `data` stored little-endian at `pos` and `pos + 1`.
pub open spec fn write_u16(mem: Seq<u8>, pos: int, data: u16) -> Seq<u8> {
    mem.update(pos, (data % 256) as u8).update(pos + 1, (data / 256) as u8)
}

/// The little-endian word whose low byte is at `ptr` on the zero page and whose
/// high byte follows it, wrapping from 0xFF back to 0x00.
pub open spec fn read_zero_page_u16(mem: Seq<u8>, ptr: int) -> int {
    mem[ptr] + 256 * mem[(ptr + 1) % 256]
}

/// Whether `mode` names an operand at all.
pub open spec fn has_operand(mode: AddressingMode) -> bool {
    !(mode is NoneAddressing)
}

/// Number of operand bytes that follow the opcode in `mode`.
pub open spec fn operand_length(mode: AddressingMode) -> int {
    match mode {
        AddressingMode::Absolute | AddressingMode::Absolute_X | AddressingMode::Absolute_Y => 2,
        AddressingMode::NoneAddressing => 0,
        _ => 1,
    }
}

/// Whether the operand bytes of `mode` lie inside the address space when they
/// start at the program counter of `s`.
pub open spec fn operand_in_bounds(s: CpuState, mode: AddressingMode) -> bool {
    s.pc + operand_length(mode) <= 0x10000
}

/// The address of the operand in `mode`, whose operand bytes start at the
/// program counter of `s`.
pub open spec fn operand_address(s: CpuState, mode: AddressingMode) -> int {
    let pc = s.pc as int;
    match mode {
        AddressingMode::Immediate => pc,
        AddressingMode::ZeroPage => s.mem[pc] as int,
        AddressingMode::ZeroPage_X => (s.mem[pc] + s.x) % 256,
        AddressingMode::ZeroPage_Y => (s.mem[pc] + s.y) % 256,
        AddressingMode::Absolute => read_u16(s.mem, pc),
        AddressingMode::Absolute_X => (read_u16(s.mem, pc) + s.x) % 0x10000,
        AddressingMode::Absolute_Y => (read_u16(s.mem, pc) + s.y) % 0x10000,
        AddressingMode::Indirect_X => read_zero_page_u16(s.mem, (s.mem[pc] + s.x) % 256),
        AddressingMode::Indirect_Y => (read_zero_page_u16(s.mem, s.mem[pc] as int) + s.y) % 0x10000,
        AddressingMode::NoneAddressing => 0,
    }
}

/// LDA: the accumulator takes the byte at `addr`; Z and N follow it.
pub open spec fn load_accumulator(s: CpuState, addr: int) -> CpuState {
    let v = s.mem[addr];
    CpuState { a: v, status: zero_negative(s.status, v), ..s }
}

/// STA: the accumulator is stored at `addr`.
pub open spec fn store_accumulator(s: CpuState, addr: int) -> CpuState {
    CpuState { mem: s.mem.update(addr, s.a), ..s }
}

/// TAX: X takes the accumulator; Z and N follow it.
pub open spec fn transfer_a_to_x(s: CpuState) -> CpuState {
    CpuState { x: s.a, status: zero_negative(s.status, s.a), ..s }
}

/// INX: X goes up by one, from 0xFF round to 0x00; Z and N follow it.
pub open spec fn increment_x(s: CpuState) -> CpuState {
    let x = ((s.x + 1) % 256) as u8;
    CpuState { x, status: zero_negative(s.status, x), ..s }
}

/// The value of a byte read as a two's complement number.
pub open spec fn signed_byte(b: u8) -> int {
    if b < 0x80 {
        b as int
    } else {
        b - 256
    }
}

/// The carry flag of `status` as a number, 0 or 1.
pub open spec fn carry_in(status: u8) -> int {
    if flag_set(status, FLAG_CARRY) {
        1
    } else {
        0
    }
}

/// The sum that ADC forms of the accumulator, `v` and the carry flag.
pub open spec fn adc_sum(s: CpuState, v: u8) -> int {
    s.a + v + carry_in(s.status)
}

/// Whether that sum, read as signed bytes, leaves the range of a signed byte.
pub open spec fn adc_signed_overflow(s: CpuState, v: u8) -> bool {
    let t = signed_byte(s.a) + signed_byte(v) + carry_in(s.status);
    t < -128 || t > 127
}

/// ADC: the accumulator takes the low byte of accumulator + operand + carry;
/// C tells whether that sum exceeds 0xFF, V whether it overflows as a signed
/// sum, and Z and N follow the new accumulator.
pub open spec fn add_with_carry(s: CpuState, addr: int) -> CpuState {
    let v = s.mem[addr];
    let sum = adc_sum(s, v);
    let n = (sum % 256) as u8;
    let status = with_flag(
        with_flag(s.status, FLAG_CARRY, sum > 0xFF),
        FLAG_OVERFLOW,
        adc_signed_overflow(s, v),
    );
    CpuState { a: n, status: zero_negative(status, n), ..s }
}

/// The instructions that take an operand.
pub enum Operation {
    Lda,
    Sta,
    Adc,
}

/// The operation and addressing mode of an opcode that takes an operand.
pub open spec fn decode(code: u8) -> Option<(Operation, AddressingMode)> {
    if code == 0xA9 {
        Some((Operation::Lda, AddressingMode::Immediate))
    } else if code == 0xA5 {
        Some((Operation::Lda, AddressingMode::ZeroPage))
    } else if code == 0xB5 {
        Some((Operation::Lda, AddressingMode::ZeroPage_X))
    } else if code == 0xAD {
        Some((Operation::Lda, AddressingMode::Absolute))
    } else if code == 0xBD {
        Some((Operation::Lda, AddressingMode::Absolute_X))
    } else if code == 0xB9 {
        Some((Operation::Lda, AddressingMode::Absolute_Y))
    } else if code == 0xA1 {
        Some((Operation::Lda, AddressingMode::Indirect_X))
    } else if code == 0xB1 {
        Some((Operation::Lda, AddressingMode::Indirect_Y))
    } else if code == 0x85 {
        Some((Operation::Sta, AddressingMode::ZeroPage))
    } else if code == 0x95 {
        Some((Operation::Sta, AddressingMode::ZeroPage_X))
    } else if code == 0x8D {
        Some((Operation::Sta, AddressingMode::Absolute))
    } else if code == 0x9D {
        Some((Operation::Sta, AddressingMode::Absolute_X))
    } else if code == 0x99 {
        Some((Operation::Sta, AddressingMode::Absolute_Y))
    } else if code == 0x81 {
        Some((Operation::Sta, AddressingMode::Indirect_X))
    } else if code == 0x91 {
        Some((Operation::Sta, AddressingMode::Indirect_Y))
    } else if code == 0x69 {
        Some((Operation::Adc, AddressingMode::Immediate))
    } else {
        None
    }
}

/// What `op` does with the operand at `addr`.
pub open spec fn execute(op: Operation, s: CpuState, addr: int) -> CpuState {
    match op {
        Operation::Lda => load_accumulator(s, addr),
        Operation::Sta => store_accumulator(s, addr),
        Operation::Adc => add_with_carry(s, addr),
    }
}

/// The outcome of one fetch-and-execute cycle.
pub enum Step {
    /// The instruction was carried out; execution goes on from this state.
    Continue(CpuState),
    /// BRK was fetched; execution stops in this state.
    Halt(CpuState),
    /// The opcode is not implemented, or the program counter would run past
    /// the end of the address space.
    Fault,
}

/// One cycle: fetch the opcode at the program counter, advance past it, carry
/// the instruction out and advance past its operand bytes.
pub open spec fn step(s: CpuState) -> Step {
    if s.pc == 0xFFFF {
        Step::Fault
    } else {
        let code = s.mem[s.pc as int];
        let t = CpuState { pc: (s.pc + 1) as u16, ..s };
        if code == 0x00 {
            Step::Halt(t)
        } else if code == 0xAA {
            Step::Continue(transfer_a_to_x(t))
        } else if code == 0xE8 {
            Step::Continue(increment_x(t))
        } else {
            match decode(code) {
                Some((op, mode)) => {
                    if t.pc + operand_length(mode) <= 0xFFFF {
                        let u = execute(op, t, operand_address(t, mode));
                        Step::Continue(CpuState { pc: (u.pc + operand_length(mode)) as u16, ..u })
                    } else {
                        Step::Fault
                    }
                },
                None => Step::Fault,
            }
        }
    }
}

/// The state in which execution from `s` stops at a BRK within `fuel` cycles,
/// or `None` if it does not stop there or faults first.
pub open spec fn run_for(s: CpuState, fuel: nat) -> Option<CpuState>
    decreases fuel,
{
    if fuel == 0 {
        None
    } else {
        match step(s) {
            Step::Halt(t) => Some(t),
            Step::Continue(t) => run_for(t, (fuel - 1) as nat),
            Step::Fault => None,
        }
    }
}

/// Execution from `s` reaches a BRK without a fault.
pub open spec fn halts(s: CpuState) -> bool {
    exists|fuel: nat| (#[trigger] run_for(s, fuel)) is Some
}

/// The state in which execution from `s` stops, where it `halts`.
pub open spec fn halted_state(s: CpuState) -> CpuState {
    run_for(s, choose|fuel: nat| (#[trigger] run_for(s, fuel)) is Some).unwrap()
}

/// `mem` with `program` copied in from `start` on.
pub open spec fn copy_into(mem: Seq<u8>, start: int, program: Seq<u8>) -> Seq<u8> {
    Seq::new(
        mem.len(),
        |i: int|
            if start <= i < start + program.len() {
                program[i - start]
            } else {
                mem[i]
            },
    )
}

/// The state after `load`: the program at 0x8000 and the reset vector pointing there.
pub open spec fn load_program(s: CpuState, program: Seq<u8>) -> CpuState {
    CpuState {
        mem: write_u16(copy_into(s.mem, PROGRAM_START as int, program), RESET_VECTOR as int, PROGRAM_START),
        ..s
    }
}

/// The state after `reset`: registers and status cleared, the program counter
/// taken from the reset vector, memory unchanged.
pub open spec fn reset_state(s: CpuState) -> CpuState {
    CpuState {
        a: 0,
        x: 0,
        y: 0,
        status: 0,
        pc: read_u16(s.mem, RESET_VECTOR as int) as u16,
        mem: s.mem,
    }
}

} // verus!
