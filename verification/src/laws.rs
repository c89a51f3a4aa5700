//! Properties that hold across calls: what a later read gives back of an
//! earlier write, what every step keeps, and what one operation undoes of
//! another.
use vstd::prelude::*;

use crate::devices::{radar_words, reg_load, reg_store, words_le, CarControlsDevice, CarRadarDevice, CarStateDevice, TrackRadarDevice, NAN_BITS};
use crate::hart::{step, store_to, with_reg, HartState};
use crate::instruction::{spec_decode, AFunct, Instruction, SFunct};
use crate::io::{DrivingDevice, IODevice, IOMemoryLayout};
use crate::memory::{access_ok, byte_of, bytes_load, bytes_store, le_store, le_word, mapped_store, width_of, RamLike};
use crate::frequency::{budget, lowered, preset_hz, raised, PRESET_COUNT};
use crate::racehub::{bearer_of, cookie_token_of, escaped, is_local_path, is_space, sanitized, trim_start, trimmed};
use crate::robot::{driving_of, Driving, DRIVING_ADDR, LOG_ADDR, RADAR_ADDR};

verus! {

/// The value of `value`'s low `w` bytes.
pub open spec fn low_bytes(value: u32, w: int) -> u32 {
    if w == 1 {
        value % 0x100
    } else if w == 2 {
        value % 0x10000
    } else {
        value
    }
}

proof fn lemma_le_round_trip(s: Seq<u8>, a: int, w: int, value: u32)
    requires
        w == 1 || w == 2 || w == 4,
        0 <= a,
        a + w <= s.len(),
    ensures
        le_word(le_store(s, a, w, value), a, w) == low_bytes(value, w),
{
    let b0 = byte_of(value, 0);
    let b1 = byte_of(value, 1);
    let b2 = byte_of(value, 2);
    let b3 = byte_of(value, 3);
    assert(b0 as int + b1 as int * 256 == value % 0x10000) by (nonlinear_arith)
        requires
            b0 == (value % 256) as u8,
            b1 == ((value / 256) % 256) as u8,
    ;
    assert(b0 as int + b1 as int * 256 + b2 as int * 0x10000 + b3 as int * 0x1000000 == value) by (nonlinear_arith)
        requires
            b0 == (value % 256) as u8,
            b1 == ((value / 256) % 256) as u8,
            b2 == ((value / 0x10000) % 256) as u8,
            b3 == ((value / 0x1000000) % 256) as u8,
    ;
}

/// A load from plain memory gives back what a store of the same width at
/// the same address wrote, cut to that width.
pub proof fn lemma_load_after_store(s: Seq<u8>, addr: u32, size: u32, value: u32)
    requires
        access_ok(s.len() as int, addr, size),
    ensures
        bytes_load(bytes_store(s, addr, size, value).0, addr, size) == Ok::<u32, ()>(
            low_bytes(value, width_of(size)),
        ),
{
    lemma_le_round_trip(s, addr as int, width_of(size), value);
}

/// A store to plain memory changes only the bytes it writes, and a refused
/// store changes nothing.
pub proof fn lemma_store_frame(s: Seq<u8>, addr: u32, size: u32, value: u32, i: int)
    requires
        0 <= i < s.len(),
        !(addr <= i < addr + width_of(size)),
    ensures
        bytes_store(s, addr, size, value).0.len() == s.len(),
        bytes_store(s, addr, size, value).0[i] == s[i],
{
}

/// Through the memory map, a store at or above `0x1000` leaves every
/// device as it was, and a store to a device page leaves the memory and
/// every other device as they were.
pub proof fn lemma_map_routes_stores<D: RamLike>(m: (Seq<u8>, Seq<D::Model>), addr: u32, size: u32, value: u32, j: int)
    requires
        0 <= j < m.1.len(),
    ensures
        addr >= 0x1000 ==> mapped_store::<D>(m, addr, size, value).0.1 == m.1,
        addr < 0x1000 ==> mapped_store::<D>(m, addr, size, value).0.0 == m.0,
        0x100 <= addr < 0x1000 && j != addr / 0x100 - 1 ==> mapped_store::<D>(m, addr, size, value).0.1[j] == m.1[j],
{
}

/// After every instruction a hart completes, register `x0` holds zero,
/// even where the instruction names `x0` as its destination: both when the
/// hart executes the instruction itself and when it retires a
/// floating-point result that the host computed.
pub proof fn lemma_x0_stays_zero<M: RamLike>(s: HartState, m: M::Model, inst: Instruction, len: u32, result: u32)
    requires
        s.regs.len() == 32,
        inst.regs_in_range(),
    ensures
        step::<M>(s, m, inst, len).0.regs[0] == 0,
        crate::hart::fpu_retire(s, inst, len, result).regs[0] == 0,
        crate::hart::fpu_retire(s, inst, len, result).regs.len() == 32,
{
    let p = crate::hart::fetched(s, len);
    assert(p.regs.len() == 32);
    let t = crate::hart::step_body::<M>(s.pc, p, m, inst).0;
    lemma_step_body_keeps_len::<M>(s.pc, p, m, inst);
    assert(with_reg(t, 0, 0).regs[0] == 0);
}

proof fn lemma_step_body_keeps_len<M: RamLike>(pc0: u32, p: HartState, m: M::Model, inst: Instruction)
    requires
        p.regs.len() == 32,
        inst.regs_in_range(),
    ensures
        crate::hart::step_body::<M>(pc0, p, m, inst).0.regs.len() == 32,
{
}

/// The reserved address of `s` as a store-conditional at `x[rs1]` sees it.
pub open spec fn reg_value(s: HartState, r: usize) -> u32 {
    s.regs.update(0, 0)[r as int]
}

/// A load-reserved followed by a store-conditional to the same address
/// succeeds: the store-conditional writes 0 to its destination, stores its
/// source word, and clears the reservation. (The load-reserved must not
/// overwrite the address register.)
pub proof fn lemma_lr_then_sc_succeeds<M: RamLike>(
    s: HartState,
    m: M::Model,
    rd1: usize,
    rs1: usize,
    rd2: usize,
    rs2: usize,
    aq: bool,
    rl: bool,
)
    requires
        s.regs.len() == 32,
        rd1 < 32,
        rs1 < 32,
        rd2 < 32,
        rs2 < 32,
        rd1 != rs1 || rs1 == 0,
        rd2 != 0,
    ensures
        ({
            let lr = Instruction::A { funct: AFunct::LrW, rd: rd1, rs1, rs2: 0, aq, rl };
            let sc = Instruction::A { funct: AFunct::ScW, rd: rd2, rs1, rs2, aq, rl };
            let (s1, m1) = step::<M>(s, m, lr, 4);
            let (s2, m2) = step::<M>(s1, m1, sc, 4);
            &&& s2.regs[rd2 as int] == 0
            &&& m2 == store_to::<M>(m1, reg_value(s, rs1), 32, reg_value(s1, rs2))
            &&& s2.reservation_addr is None
        }),
{
}

/// A store-conditional without a matching reservation fails: it writes 1
/// to its destination, leaves memory unchanged, and clears the reservation.
pub proof fn lemma_sc_without_reservation_fails<M: RamLike>(
    s: HartState,
    m: M::Model,
    rd: usize,
    rs1: usize,
    rs2: usize,
    aq: bool,
    rl: bool,
)
    requires
        s.regs.len() == 32,
        rd < 32,
        rs1 < 32,
        rs2 < 32,
        rd != 0,
        s.reservation_addr != Some(reg_value(s, rs1)),
    ensures
        ({
            let sc = Instruction::A { funct: AFunct::ScW, rd, rs1, rs2, aq, rl };
            let (s2, m2) = step::<M>(s, m, sc, 4);
            &&& s2.regs[rd as int] == 1
            &&& m2 == m
            &&& s2.reservation_addr is None
        }),
{
}

/// A store into the reserved word clears the reservation.
pub proof fn lemma_store_clears_reservation<M: RamLike>(
    s: HartState,
    m: M::Model,
    funct: SFunct,
    rs1: usize,
    rs2: usize,
    imm: i32,
    len: u32,
)
    requires
        s.regs.len() == 32,
        rs1 < 32,
        rs2 < 32,
        s.reservation_addr matches Some(r) && crate::hart::wrap(reg_value(s, rs1) + imm) / 4 == r / 4,
    ensures
        step::<M>(s, m, Instruction::S { funct, rs1, rs2, imm }, len).0.reservation_addr is None,
{
}

/// Words whose two low bits are not both set decode as 2-byte compressed
/// instructions; all others as 4-byte instructions.
pub proof fn lemma_decoded_length(inst: u32)
    ensures
        spec_decode(inst) matches Some((_, len)) ==> len == (if inst & 0x3 != 0x3 {
            2u32
        } else {
            4u32
        }),
{
}

/// A 32-bit store into the car controls is read back by a 32-bit load at
/// the same address.
pub proof fn lemma_controls_read_back(data: Seq<u8>, addr: u32, value: u32)
    requires
        addr + 3 < data.len(),
    ensures
        reg_load(reg_store(data, addr, 32, value).0, addr, 32) == Ok::<u32, ()>(value),
{
    lemma_le_round_trip(data, addr as int, 4, value);
}

/// The program cannot change the sensors: a store into the car state, the
/// track radar or the car radar leaves every later load as it was.
pub proof fn lemma_sensors_ignore_stores(data: Seq<u8>, addr: u32, size: u32, value: u32, at: u32, width: u32)
    ensures
        CarStateDevice::spec_load(CarStateDevice::spec_store(data, addr, size, value).0, at, width)
            == CarStateDevice::spec_load(data, at, width),
        TrackRadarDevice::spec_load(TrackRadarDevice::spec_store(data, addr, size, value).0, at, width)
            == TrackRadarDevice::spec_load(data, at, width),
        CarRadarDevice::spec_load(CarRadarDevice::spec_store(data, addr, size, value).0, at, width)
            == CarRadarDevice::spec_load(data, at, width),
{
}

/// Stores into the car controls that fit succeed; those that do not fit,
/// or have an unsupported width, fail and change nothing.
pub proof fn lemma_controls_store_outcome(data: Seq<u8>, addr: u32, size: u32, value: u32)
    ensures
        CarControlsDevice::spec_store(data, addr, size, value).1 is Ok <==> ((size == 8 && addr < data.len())
            || (size == 16 && addr + 1 < data.len()) || (size == 32 && addr + 3 < data.len())),
        CarControlsDevice::spec_store(data, addr, size, value).1 is Err ==> CarControlsDevice::spec_store(
            data,
            addr,
            size,
            value,
        ).0 == data,
{
}

/// Handing the driving device back the bytes it put into its window leaves
/// it unchanged.
pub proof fn lemma_driving_window_round_trip(d: DrivingDevice)
    ensures
        d.after_write(<(u16, u16)>::decode(d.spec_read().encode())) == d,
{
    <(u16, u16)>::lemma_round_trip(d.spec_read());
}

/// The robot program and the host agree on the memory map: the windows that
/// the program's devices start at are those the host reads and writes, and
/// the speed and heading the program writes are what the host reads back.
pub proof fn lemma_robot_map_agrees(speed: u16, heading: u16, mem: Seq<u8>)
    requires
        mem.len() >= DRIVING_ADDR + 4,
        mem.subrange(DRIVING_ADDR as int, DRIVING_ADDR + 4) == speed.encode() + heading.encode(),
    ensures
        crate::bot::IO_BASE == LOG_ADDR,
        crate::bot::IO_BASE + crate::bot::Log::MEM_WIDTH == RADAR_ADDR,
        crate::bot::IO_BASE + crate::bot::Log::MEM_WIDTH + crate::bot::Radar::MEM_WIDTH == DRIVING_ADDR,
        driving_of(mem) == (Driving { speed, heading }),
{
    <(u16, u16)>::lemma_round_trip((speed, heading));
    assert((speed, heading).encode() == speed.encode() + heading.encode());
}

/// Stepping the clock down undoes stepping it up below the top preset, and
/// stepping up undoes stepping down above the bottom one; at either end the
/// step keeps the preset, and every step stays among the presets.
pub proof fn lemma_clock_steps(p: int)
    requires
        0 <= p < PRESET_COUNT,
    ensures
        p + 1 < PRESET_COUNT ==> lowered(raised(p)) == p,
        p > 0 ==> raised(lowered(p)) == p,
        p == PRESET_COUNT - 1 ==> raised(p) == p,
        p == 0 ==> lowered(p) == p,
        0 <= raised(p) < PRESET_COUNT,
        0 <= lowered(p) < PRESET_COUNT,
{
}

/// Faster presets have higher frequencies and never smaller instruction
/// budgets, and every budget is at least one instruction.
pub proof fn lemma_clock_ordered(i: int, j: int)
    requires
        0 <= i < j < PRESET_COUNT,
    ensures
        preset_hz(i) < preset_hz(j),
        budget(preset_hz(i)) <= budget(preset_hz(j)),
        budget(preset_hz(i)) >= 1,
{
}

/// A sanitized redirect target is always a path on this site.
pub proof fn lemma_sanitized_is_local(next: Seq<char>)
    ensures
        is_local_path(sanitized(next)),
{
    reveal_strlit("/");
}

/// Escaped HTML text holds none of `<`, `>`, `"` and `'`.
pub proof fn lemma_escaped_has_no_markup(s: Seq<char>)
    ensures
        forall|i: int|
            0 <= i < escaped(s).len() ==> {
                let c = #[trigger] escaped(s)[i];
                c != '<' && c != '>' && c != '"' && c != '\''
            },
    decreases s.len(),
{
    if s.len() > 0 {
        let prefix = escaped(s.drop_last());
        let tail = crate::racehub::escape_char(s.last());
        lemma_escaped_has_no_markup(s.drop_last());
        assert forall|i: int| 0 <= i < escaped(s).len() implies {
            let c = #[trigger] escaped(s)[i];
            c != '<' && c != '>' && c != '"' && c != '\''
        } by {
            assert(escaped(s) == prefix + tail);
            if i < prefix.len() {
                assert(escaped(s)[i] == prefix[i]);
            } else {
                assert(escaped(s)[i] == tail[i - prefix.len()]);
            }
        }
    }
}

proof fn lemma_untrimmed(s: Seq<char>)
    requires
        s.len() > 0,
        !is_space(s[0]),
        !is_space(s.last()),
    ensures
        trimmed(s) == s,
{
    assert(trim_start(s) == s);
}

/// The cookie that [`crate::racehub::session_cookie`] sets comes back as
/// its token: a `Cookie` header holding `racehub_session=<token>` yields
/// the token, for any nonempty token without `;` and without white space
/// at its ends.
pub proof fn lemma_cookie_round_trip(token: Seq<char>)
    requires
        token.len() > 0,
        forall|i: int| 0 <= i < token.len() ==> token[i] != ';',
        !is_space(token[0]),
        !is_space(token.last()),
    ensures
        cookie_token_of("racehub_session="@ + token) == Some(token),
{
    reveal_strlit("racehub_session=");
    reveal_strlit("racehub_session");
    let s = "racehub_session="@ + token;
    let n = s.len() as int;
    assert(s.last() == token.last());
    assert forall|j: int| 0 <= j < n implies s[j] != ';' by {
        if j >= 16 {
            assert(s[j] == token[j - 16]);
        }
    }
    crate::racehub::lemma_index_of(s, ';', n);
    assert(s.subrange(0, n) =~= s);
    lemma_untrimmed(s);
    crate::racehub::lemma_index_of(s, '=', 15);
    let key = s.subrange(0, 15);
    lemma_untrimmed(key);
    assert(key =~= "racehub_session"@);
    assert(s.subrange(16, n) =~= token);
    lemma_untrimmed(token);
}

/// A bearer header carries back its token: `Bearer <token>` yields the
/// token, for any nonempty token without white space at its ends.
pub proof fn lemma_bearer_round_trip(token: Seq<char>)
    requires
        token.len() > 0,
        !is_space(token[0]),
        !is_space(token.last()),
    ensures
        bearer_of("Bearer "@ + token) == Some(token),
{
    reveal_strlit("Bearer ");
    let v = "Bearer "@ + token;
    assert(v.subrange(0, 7) =~= "Bearer "@);
    assert(v.subrange(7, v.len() as int) =~= token);
    lemma_untrimmed(token);
}

/// Every completed cycle of the base-ISA core leaves the console word at
/// zero: a character written there is taken exactly once.
pub proof fn lemma_console_cleared(s: crate::rv32i::CpuState)
    requires
        crate::rv32i::cycle(s).1 is Ok,
    ensures
        le_word(
            crate::rv32i::cycle(s).0.mem,
            crate::rv32i::CONSOLE_ADDR + crate::rv32i::DRAM_BASE,
            4,
        ) == 0,
{
    let word = le_word(s.mem, s.pc + crate::rv32i::DRAM_BASE, 4);
    let s1 = crate::rv32i::CpuState { regs: s.regs, pc: (s.pc + 4) as u32, mem: s.mem };
    let inst = spec_decode(word).unwrap().0;
    crate::rv32i::lemma_core_step_len(s1, inst);
    let s2 = crate::rv32i::core_step(s1, inst);
    lemma_le_round_trip(s2.mem, crate::rv32i::CONSOLE_ADDR + crate::rv32i::DRAM_BASE, 4, 0);
}

/// Instructions other than jumps and branches move the program counter
/// past themselves.
pub proof fn lemma_sequential_pc<M: RamLike>(s: HartState, m: M::Model, inst: Instruction, len: u32)
    requires
        s.regs.len() == 32,
        inst.regs_in_range(),
        !(inst is B),
        !(inst is J),
        !(inst matches Instruction::I { funct, .. } && funct == crate::instruction::IFunct::JALR),
    ensures
        step::<M>(s, m, inst, len).0.pc == crate::hart::wrap(s.pc + len),
{
}

proof fn lemma_word_bytes(ws: Seq<u32>, k: int)
    requires
        0 <= k < ws.len(),
    ensures
        le_word(words_le(ws), 4 * k, 4) == ws[k],
{
    let b = words_le(ws);
    let v = ws[k];
    assert(b[4 * k] == byte_of(v, 0));
    assert(b[4 * k + 1] == byte_of(v, 1));
    assert(b[4 * k + 2] == byte_of(v, 2));
    assert(b[4 * k + 3] == byte_of(v, 3));
    assert(byte_of(v, 0) as int + byte_of(v, 1) as int * 256 + byte_of(v, 2) as int * 0x10000 + byte_of(v, 3) as int
        * 0x1000000 == v) by (nonlinear_arith);
}

/// A program reads back, through the car radar, the positions the host
/// wrote: each coordinate loads at its offset, and decoding the eight words
/// gives every position whose coordinates are no NaN, and no position
/// where the host had none.
pub proof fn lemma_car_radar_round_trip(p: Seq<Option<(u32, u32)>>)
    requires
        p.len() == 4,
        forall|i: int|
            0 <= i < 4 ==> (#[trigger] p[i] matches Some(c) ==> !crate::hart::f32_is_nan(c.0) && !crate::hart::f32_is_nan(
                c.1,
            )),
    ensures
        forall|k: int|
            0 <= k < 8 ==> reg_load(words_le(radar_words(p)), (4 * k) as u32, 32) == Ok::<u32, ()>(
                #[trigger] radar_words(p)[k],
            ),
        forall|i: int|
            0 <= i < 4 ==> crate::bot::decoded_position(radar_words(p)[2 * i], radar_words(p)[2 * i + 1])
                == #[trigger] p[i],
{
    assert(crate::hart::f32_is_nan(NAN_BITS)) by (bit_vector);
    assert forall|k: int| 0 <= k < 8 implies reg_load(words_le(radar_words(p)), (4 * k) as u32, 32)
        == Ok::<u32, ()>(#[trigger] radar_words(p)[k]) by {
        lemma_word_bytes(radar_words(p), k);
    }
    assert forall|i: int| 0 <= i < 4 implies crate::bot::decoded_position(
        radar_words(p)[2 * i],
        radar_words(p)[2 * i + 1],
    ) == #[trigger] p[i] by {
        assert((2 * i) / 2 == i && (2 * i + 1) / 2 == i && (2 * i) % 2 == 0 && (2 * i + 1) % 2 == 1);
    }
}

} // verus!
