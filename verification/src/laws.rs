use vstd::prelude::*;

use crate::cpu::AddressingMode;
use crate::model::{
    halted_state, halts, power_on_state,
    add_with_carry, adc_signed_overflow, carry_in, copy_into, flag_set, has_operand,
    increment_x, load_accumulator, load_program, operand_address, read_u16, reset_state, run_for,
    signed_byte, step, store_accumulator, transfer_a_to_x, well_formed, with_flag, write_u16,
    zero_negative, CpuState, Step, FLAG_CARRY, FLAG_NEGATIVE, FLAG_OVERFLOW, FLAG_ZERO,
    MEMORY_SIZE, PROGRAM_START, RESET_VECTOR,
};

verus! {

/// A byte written at `addr` is read back from `addr`, and every other
/// address keeps its byte.
pub proof fn lemma_read_after_write(mem: Seq<u8>, addr: int, data: u8, other: int)
    requires
        mem.len() == MEMORY_SIZE,
        0 <= addr < MEMORY_SIZE,
        0 <= other < MEMORY_SIZE,
    ensures
        mem.update(addr, data)[addr] == data,
        other != addr ==> mem.update(addr, data)[other] == mem[other],
{
}

/// A word written at `pos` is read back from `pos`, and every address other
/// than `pos` and `pos + 1` keeps its byte.
pub proof fn lemma_word_round_trip(mem: Seq<u8>, pos: int, data: u16, other: int)
    requires
        mem.len() == MEMORY_SIZE,
        0 <= pos < 0xFFFF,
        0 <= other < MEMORY_SIZE,
    ensures
        read_u16(write_u16(mem, pos, data), pos) == data,
        write_u16(mem, pos, data).len() == MEMORY_SIZE,
        other != pos && other != pos + 1 ==> write_u16(mem, pos, data)[other] == mem[other],
{
}

/// After a result `r` is produced, Z is set exactly when `r` is zero, N exactly
/// when `r` is at least 0x80, and every other status bit is as before.
pub proof fn lemma_zero_negative_flags(status: u8, r: u8)
    ensures
        flag_set(zero_negative(status, r), FLAG_ZERO) == (r == 0),
        flag_set(zero_negative(status, r), FLAG_NEGATIVE) == (r >= 0x80),
        zero_negative(status, r) & 0b0111_1101 == status & 0b0111_1101,
{
    assert(flag_set(zero_negative(status, r), FLAG_ZERO) == (r == 0)) by (bit_vector);
    assert(flag_set(zero_negative(status, r), FLAG_NEGATIVE) == (r >= 0x80)) by (bit_vector);
    assert(zero_negative(status, r) & 0b0111_1101 == status & 0b0111_1101) by (bit_vector);
}

/// ADC's overflow rule: adding `v` and a carry `c` to `a` overflows as a
/// signed sum exactly when `a` and `v` have the same sign and the low byte of
/// the sum has the other sign.
pub proof fn lemma_adc_overflow_rule(a: u8, v: u8, c: int)
    requires
        c == 0 || c == 1,
    ensures
        ({
            let t = signed_byte(a) + signed_byte(v) + c;
            let n = (a + v + c) % 256;
            (t < -128 || t > 127) == ((a < 0x80) == (v < 0x80) && (v < 0x80) != (n < 0x80))
        }),
{
    if a + v + c >= 256 {
        assert((a + v + c) % 256 == a + v + c - 256);
    } else {
        assert((a + v + c) % 256 == a + v + c);
    }
}

/// ADC is addition with carry: the new accumulator plus 256 times the new
/// carry is the old accumulator plus the operand plus the old carry; V tells
/// whether the signed sum overflowed; nothing but A and the status changes.
pub proof fn lemma_adc_adds(s: CpuState, addr: int)
    ensures
        ({
            let t = add_with_carry(s, addr);
            let v = s.mem[addr];
            &&& t.a + 256 * carry_in(t.status) == s.a + v + carry_in(s.status)
            &&& flag_set(t.status, FLAG_OVERFLOW) == adc_signed_overflow(s, v)
            &&& t.x == s.x && t.y == s.y && t.pc == s.pc && t.mem == s.mem
        }),
{
    let v = s.mem[addr];
    let sum = s.a + v + carry_in(s.status);
    let n = (sum % 256) as u8;
    let c = sum > 0xFF;
    let o = adc_signed_overflow(s, v);
    let st = s.status;
    let t = add_with_carry(s, addr);
    assert(t.status == zero_negative(with_flag(with_flag(st, FLAG_CARRY, c), FLAG_OVERFLOW, o), n));
    assert(flag_set(zero_negative(with_flag(with_flag(st, 1u8, c), 0x40u8, o), n), 1u8) == c)
        by (bit_vector);
    assert(flag_set(zero_negative(with_flag(with_flag(st, 1u8, c), 0x40u8, o), n), 0x40u8) == o)
        by (bit_vector);
}

/// LDA, TAX and INX leave the carry and overflow flags and the memory as they
/// were, and STA changes nothing but the byte it stores.
pub proof fn lemma_flags_kept(s: CpuState, addr: int)
    ensures
        ({
            let l = load_accumulator(s, addr);
            let t = transfer_a_to_x(s);
            let i = increment_x(s);
            &&& flag_set(l.status, FLAG_CARRY) == flag_set(s.status, FLAG_CARRY)
            &&& flag_set(l.status, FLAG_OVERFLOW) == flag_set(s.status, FLAG_OVERFLOW)
            &&& flag_set(t.status, FLAG_CARRY) == flag_set(s.status, FLAG_CARRY)
            &&& flag_set(t.status, FLAG_OVERFLOW) == flag_set(s.status, FLAG_OVERFLOW)
            &&& flag_set(i.status, FLAG_CARRY) == flag_set(s.status, FLAG_CARRY)
            &&& flag_set(i.status, FLAG_OVERFLOW) == flag_set(s.status, FLAG_OVERFLOW)
            &&& l.mem == s.mem && t.mem == s.mem && i.mem == s.mem
            &&& store_accumulator(s, addr) == (CpuState { mem: s.mem.update(addr, s.a), ..s })
        }),
{
    let x = ((s.x + 1) % 256) as u8;
    lemma_zero_negative_flags(s.status, s.mem[addr]);
    lemma_zero_negative_flags(s.status, s.a);
    lemma_zero_negative_flags(s.status, x);
    lemma_carry_overflow_bits(zero_negative(s.status, s.mem[addr]), s.status);
    lemma_carry_overflow_bits(zero_negative(s.status, s.a), s.status);
    lemma_carry_overflow_bits(zero_negative(s.status, x), s.status);
}

/// Two status bytes that agree outside Z and N agree on C and V.
proof fn lemma_carry_overflow_bits(a: u8, b: u8)
    by (bit_vector)
    requires
        a & 0b0111_1101 == b & 0b0111_1101,
    ensures
        (a & 1u8 != 0) == (b & 1u8 != 0),
        (a & 0x40u8 != 0) == (b & 0x40u8 != 0),
{
}

/// Every operand address lies inside the address space, and the zero-page
/// modes never leave the zero page.
pub proof fn lemma_operand_address_in_range(s: CpuState, mode: AddressingMode)
    requires
        well_formed(s),
        has_operand(mode),
    ensures
        0 <= operand_address(s, mode) < MEMORY_SIZE,
        (mode is ZeroPage || mode is ZeroPage_X || mode is ZeroPage_Y) ==> operand_address(s, mode)
            < 256,
{
}

/// A cycle keeps the memory covering the whole address space.
pub proof fn lemma_step_well_formed(s: CpuState)
    requires
        well_formed(s),
    ensures
        step(s) matches Step::Continue(t) ==> well_formed(t),
        step(s) matches Step::Halt(t) ==> well_formed(t),
{
}

/// Once execution stops within some number of cycles, more cycles give the
/// same final state.
pub proof fn lemma_run_for_more_fuel(s: CpuState, n: nat, m: nat)
    requires
        run_for(s, n) is Some,
        n <= m,
    ensures
        run_for(s, m) == run_for(s, n),
    decreases n,
{
    match step(s) {
        Step::Continue(t) => {
            lemma_run_for_more_fuel(t, (n - 1) as nat, (m - 1) as nat);
        },
        _ => {},
    }
}

/// The state in which execution stops does not depend on how many cycles
/// were allowed for it.
pub proof fn lemma_run_for_unique(s: CpuState, n: nat, m: nat)
    requires
        run_for(s, n) is Some,
        run_for(s, m) is Some,
    ensures
        run_for(s, n) == run_for(s, m),
{
    if n <= m {
        lemma_run_for_more_fuel(s, n, m);
    } else {
        lemma_run_for_more_fuel(s, m, n);
    }
}

/// Execution stops just past a BRK: the byte before the final program
/// counter is 0x00.
pub proof fn lemma_stops_after_brk(s: CpuState, n: nat)
    requires
        run_for(s, n) is Some,
    ensures
        ({
            let t = run_for(s, n).unwrap();
            t.pc >= 1 && t.mem[t.pc - 1] == 0x00
        }),
    decreases n,
{
    match step(s) {
        Step::Continue(t) => {
            lemma_stops_after_brk(t, (n - 1) as nat);
        },
        _ => {},
    }
}

/// After `load` and `reset`, the registers and status are clear, execution
/// starts at 0x8000, and the program lies there (below the reset vector,
/// which a program of more than 0x7FFC bytes would reach).
pub proof fn lemma_load_then_reset(s: CpuState, program: Seq<u8>, i: int)
    requires
        well_formed(s),
        program.len() <= 0x8000,
        0 <= i < program.len(),
        PROGRAM_START + i < RESET_VECTOR,
    ensures
        ({
            let t = reset_state(load_program(s, program));
            &&& t.pc == PROGRAM_START
            &&& t.a == 0 && t.x == 0 && t.y == 0 && t.status == 0
            &&& t.mem[PROGRAM_START + i] == program[i]
            &&& well_formed(t)
        }),
{
    let m = copy_into(s.mem, PROGRAM_START as int, program);
    lemma_word_round_trip(m, RESET_VECTOR as int, PROGRAM_START, PROGRAM_START + i);
}

/// A cycle that goes on moves the program counter forward by one to three
/// bytes, never wrapping; a cycle that stops at BRK moves it by one and leaves
/// the memory as it was.
pub proof fn lemma_step_advances_pc(s: CpuState)
    ensures
        step(s) matches Step::Continue(t) ==> s.pc + 1 <= t.pc <= s.pc + 3,
        step(s) matches Step::Halt(t) ==> t.pc == s.pc + 1 && t.mem == s.mem,
{
}

/// Execution that stops within some number of cycles stops within as many
/// cycles as there are addresses from the program counter to the end of
/// memory.
proof fn lemma_stops_before_end(s: CpuState, n: nat)
    requires
        run_for(s, n) is Some,
    ensures
        run_for(s, (0x10000 - s.pc) as nat) == run_for(s, n),
    decreases n,
{
    lemma_step_advances_pc(s);
    match step(s) {
        Step::Continue(t) => {
            lemma_stops_before_end(t, (n - 1) as nat);
            lemma_run_for_more_fuel(t, (0x10000 - t.pc) as nat, (0x10000 - s.pc - 1) as nat);
        },
        _ => {},
    }
}

/// Execution halts exactly when it halts within 0x10000 cycles, and then in
/// the state reached there.
pub proof fn lemma_halts_within_bound(s: CpuState)
    ensures
        halts(s) == run_for(s, 0x10000) is Some,
        halts(s) ==> halted_state(s) == run_for(s, 0x10000).unwrap(),
{
    if halts(s) {
        let n = choose|fuel: nat| (#[trigger] run_for(s, fuel)) is Some;
        lemma_stops_before_end(s, n);
        lemma_run_for_more_fuel(s, (0x10000 - s.pc) as nat, 0x10000);
    }
}

/// What `load_and_run` starts from depends only on the memory and the
/// program: the registers, status and program counter beforehand make no
/// difference to whether it halts or to the state it halts in.
pub proof fn lemma_load_and_reset_forget_registers(s1: CpuState, s2: CpuState, program: Seq<u8>)
    requires
        s1.mem == s2.mem,
    ensures
        reset_state(load_program(s1, program)) == reset_state(load_program(s2, program)),
        halts(reset_state(load_program(s1, program))) == halts(reset_state(load_program(s2, program))),
        halted_state(reset_state(load_program(s1, program))) == halted_state(
            reset_state(load_program(s2, program)),
        ),
{
}

/// Words are stored low byte first: writing `data` at `pos` puts `data % 256`
/// at `pos` and `data / 256` at `pos + 1`, and reading at `pos` takes the
/// byte at `pos` plus 256 times the byte at `pos + 1`.
pub proof fn lemma_word_layout(mem: Seq<u8>, pos: int, data: u16)
    requires
        mem.len() == MEMORY_SIZE,
        0 <= pos < 0xFFFF,
    ensures
        write_u16(mem, pos, data)[pos] == data % 256,
        write_u16(mem, pos, data)[pos + 1] == data / 256,
        read_u16(mem, pos) == mem[pos] + 256 * mem[pos + 1],
{
}

/// A new processor has every register, the status and every byte at zero,
/// and memory covering the whole address space.
pub proof fn lemma_power_on(i: int)
    requires
        0 <= i < 0x10000,
    ensures
        ({
            let s = power_on_state();
            &&& s.a == 0 && s.x == 0 && s.y == 0 && s.status == 0 && s.pc == 0
            &&& s.mem.len() == 0x10000
            &&& s.mem[i] == 0
        }),
{
}

/// Reset clears A, X, Y and the status, takes the program counter from the
/// little-endian word at 0xFFFC, and leaves memory alone.
pub proof fn lemma_reset_semantics(s: CpuState)
    requires
        well_formed(s),
    ensures
        ({
            let t = reset_state(s);
            &&& t.a == 0 && t.x == 0 && t.y == 0 && t.status == 0
            &&& t.pc == s.mem[0xFFFC] + 256 * s.mem[0xFFFD]
            &&& t.mem == s.mem
        }),
{
}

/// Load copies the program to 0x8000 onwards and then writes 0x8000 into the
/// reset vector (low byte 0x00 at 0xFFFC, high byte 0x80 at 0xFFFD); every
/// other byte and every register stays.
pub proof fn lemma_load_semantics(s: CpuState, program: Seq<u8>, i: int)
    requires
        well_formed(s),
        program.len() <= 0x8000,
        0 <= i < 0x10000,
    ensures
        ({
            let t = load_program(s, program);
            &&& t.mem.len() == 0x10000
            &&& t.mem[0xFFFC] == 0x00 && t.mem[0xFFFD] == 0x80
            &&& i < 0xFFFC && 0x8000 <= i < 0x8000 + program.len() ==> t.mem[i] == program[i
                - 0x8000]
            &&& i < 0xFFFC && !(0x8000 <= i < 0x8000 + program.len()) ==> t.mem[i] == s.mem[i]
            &&& t.a == s.a && t.x == s.x && t.y == s.y && t.status == s.status && t.pc == s.pc
        }),
{
}

} // verus!
