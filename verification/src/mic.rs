//! I2S receive timing program and capture driver model.
//!
//! `PioI2sMicProgram` compiles the bit-level I2S receive sequence into the
//! 16-bit words the hardware timing engine executes: for each channel, shift
//! in 24 data bits most-significant-bit first while toggling the bit clock,
//! then run 8 dummy clock cycles for the unused low-order bits of the 32-bit
//! slot, flip the channel select, and loop forever. Each instruction carries
//! a 2-bit side output: bit 0 drives the bit clock, bit 1 the channel select.
//!
//! `PioI2sMic` binds that program to a sample rate: it derives the clock
//! divider as the closest 1/256 step (16.8 fixed point) to
//! `sys_clk_hz / (sample_rate * 64 * 2)`, and tracks the single outstanding
//! DMA read the hardware allows. The DMA transfer itself is an outside
//! capability; its completion and outcome are reported back as plain values.
//!
//! A small model of the timing engine closes the loop: `lemma_frame_protocol`
//! proves that one pass of the compiled sequence samples exactly 24 bits per
//! channel, pulses the bit clock 64 times, and returns to its start, so the
//! sequence repeats forever.

use vstd::arithmetic::div_mod::lemma_fundamental_div_mod;
use vstd::arithmetic::div_mod::lemma_mod_bound;
use vstd::prelude::*;

use crate::CaptureError;
use crate::ConfigurationError;

verus! {

/// Significant data bits per channel slot.
pub const SIGNIFICANT_BITS: u32 = 24;
/// Bit-clock cycles per stereo frame: two 32-bit slots.
pub const FRAME_BIT_WIDTH: u32 = 64;
/// Dummy bit-clock cycles per channel, consuming the slot's low-order bits.
pub const DUMMY_CYCLES: u32 = 8;

/// One operation of the timing engine, restricted to what the I2S receive
/// sequence uses. Operand values wider than the 5-bit instruction fields are
/// truncated by the encoding.
#[derive(Clone, Copy, Debug, PartialEq, Eq, Structural)]
pub enum PioOp {
    /// Load the loop counter X.
    SetX(u8),
    /// Load the loop counter Y.
    SetY(u8),
    /// Shift the given number of bits in from the data pin.
    InPins(u8),
    /// Jump to the address while X is non-zero; X decrements regardless.
    JmpXDec(u8),
    /// Jump to the address while Y is non-zero; Y decrements regardless.
    JmpYDec(u8),
    /// Jump to the address unconditionally.
    JmpAlways(u8),
    /// Do nothing for one cycle.
    Nop,
}

/// One instruction: an operation plus the 2-bit side output
/// (bit 0: bit clock, bit 1: channel select).
#[derive(Clone, Copy, Debug, PartialEq, Eq, Structural)]
pub struct PioInstr {
    pub op: PioOp,
    pub side: u8,
}

/// Encoding of an operation into the low 13 bits of an instruction word:
/// a 3-bit opcode in bits 15:13, operands in bits 7:5 and 4:0.
/// `Nop` is encoded as `mov y, y`.
pub open spec fn spec_op_base(op: PioOp) -> u16 {
    match op {
        PioOp::SetX(v) => (0xE020u16 | ((v & 0x1F) as u16)) as u16,
        PioOp::SetY(v) => (0xE040u16 | ((v & 0x1F) as u16)) as u16,
        PioOp::InPins(n) => (0x4000u16 | ((n & 0x1F) as u16)) as u16,
        PioOp::JmpXDec(t) => (0x0040u16 | ((t & 0x1F) as u16)) as u16,
        PioOp::JmpYDec(t) => (0x0080u16 | ((t & 0x1F) as u16)) as u16,
        PioOp::JmpAlways(t) => ((t & 0x1F) as u16),
        PioOp::Nop => 0xA042u16,
    }
}

/// Full instruction word: the 2-bit side output sits in bits 12:11 of the
/// 5-bit delay/side field (bits 12:8), as configured for a 2-bit
/// non-optional side set.
pub open spec fn spec_encode(i: PioInstr) -> u16 {
    (spec_op_base(i.op) | ((((i.side & 0x3) as u16) << 11) as u16)) as u16
}

/// Encode one instruction exactly as `spec_encode` describes.
pub fn encode_instr(i: PioInstr) -> (r: u16)
    ensures
        r == spec_encode(i),
{
    let base: u16 = match i.op {
        PioOp::SetX(v) => 0xE020u16 | ((v & 0x1F) as u16),
        PioOp::SetY(v) => 0xE040u16 | ((v & 0x1F) as u16),
        PioOp::InPins(n) => 0x4000u16 | ((n & 0x1F) as u16),
        PioOp::JmpXDec(t) => 0x0040u16 | ((t & 0x1F) as u16),
        PioOp::JmpYDec(t) => 0x0080u16 | ((t & 0x1F) as u16),
        PioOp::JmpAlways(t) => (t & 0x1F) as u16,
        PioOp::Nop => 0xA042u16,
    };
    base | (((i.side & 0x3) as u16) << 11u16)
}

/// The I2S receive sequence. Addresses: 1 is the start of the left channel,
/// 2 and 8 the capture loops, 5 and 11 the dummy loops. The side output keeps
/// the channel select low for the left channel section and high for the
/// right, and raises the bit clock on every capture and dummy cycle.
pub open spec fn spec_program() -> Seq<PioInstr> {
    seq![
        PioInstr { op: PioOp::SetX(14), side: 0b01 },
        PioInstr { op: PioOp::SetX(23), side: 0b00 },
        PioInstr { op: PioOp::InPins(1), side: 0b01 },
        PioInstr { op: PioOp::JmpXDec(2), side: 0b00 },
        PioInstr { op: PioOp::SetY(7), side: 0b00 },
        PioInstr { op: PioOp::Nop, side: 0b01 },
        PioInstr { op: PioOp::JmpYDec(5), side: 0b00 },
        PioInstr { op: PioOp::SetX(23), side: 0b10 },
        PioInstr { op: PioOp::InPins(1), side: 0b11 },
        PioInstr { op: PioOp::JmpXDec(8), side: 0b10 },
        PioInstr { op: PioOp::SetY(7), side: 0b10 },
        PioInstr { op: PioOp::Nop, side: 0b11 },
        PioInstr { op: PioOp::JmpYDec(11), side: 0b10 },
        PioInstr { op: PioOp::JmpAlways(1), side: 0b00 },
    ]
}

/// The I2S receive sequence as data, instruction by instruction.
pub fn i2s_program() -> (r: Vec<PioInstr>)
    ensures
        r@ == spec_program(),
{
    let mut v: Vec<PioInstr> = Vec::new();
    v.push(PioInstr { op: PioOp::SetX(14), side: 0b01 });
    v.push(PioInstr { op: PioOp::SetX(23), side: 0b00 });
    v.push(PioInstr { op: PioOp::InPins(1), side: 0b01 });
    v.push(PioInstr { op: PioOp::JmpXDec(2), side: 0b00 });
    v.push(PioInstr { op: PioOp::SetY(7), side: 0b00 });
    v.push(PioInstr { op: PioOp::Nop, side: 0b01 });
    v.push(PioInstr { op: PioOp::JmpYDec(5), side: 0b00 });
    v.push(PioInstr { op: PioOp::SetX(23), side: 0b10 });
    v.push(PioInstr { op: PioOp::InPins(1), side: 0b11 });
    v.push(PioInstr { op: PioOp::JmpXDec(8), side: 0b10 });
    v.push(PioInstr { op: PioOp::SetY(7), side: 0b10 });
    v.push(PioInstr { op: PioOp::Nop, side: 0b11 });
    v.push(PioInstr { op: PioOp::JmpYDec(11), side: 0b10 });
    v.push(PioInstr { op: PioOp::JmpAlways(1), side: 0b00 });
    proof {
        assert(v@ =~= spec_program());
    }
    v
}

/// The compiled timing program: the encoded words, ready to be loaded into
/// the timing engine's instruction memory by the hardware layer.
pub struct PioI2sMicProgram {
    code: Vec<u16>,
}

impl PioI2sMicProgram {
    /// The encoded instruction words.
    pub closed spec fn code_spec(&self) -> Seq<u16> {
        self.code@
    }

    /// The program is exactly the encoded I2S receive sequence.
    pub open spec fn wf(&self) -> bool {
        &&& self.code_spec().len() == spec_program().len()
        &&& forall|i: int|
            0 <= i < self.code_spec().len() ==> self.code_spec()[i] == spec_encode(
                spec_program()[i],
            )
    }

    /// Compile the I2S receive sequence into hardware-executable words.
    pub fn new() -> (r: Self)
        ensures
            r.wf(),
    {
        let instrs = i2s_program();
        let mut code: Vec<u16> = Vec::new();
        let mut k: usize = 0;
        while k < instrs.len()
            invariant
                instrs@ == spec_program(),
                k <= instrs@.len(),
                code@.len() == k,
                forall|i: int| 0 <= i < k ==> code@[i] == spec_encode(spec_program()[i]),
            decreases instrs@.len() - k,
        {
            code.push(encode_instr(instrs[k]));
            k += 1;
        }
        PioI2sMicProgram { code }
    }

    /// The encoded words, for the hardware layer to load.
    pub fn code(&self) -> (r: &Vec<u16>)
        ensures
            r@ == self.code_spec(),
    {
        &self.code
    }

    /// Whether the program fits into a controller with the given number of
    /// free instruction memory slots. Loading fails exactly when it does not.
    pub fn fits_in(&self, free_slots: usize) -> (r: bool)
        ensures
            r == (self.code_spec().len() <= free_slots),
    {
        self.code.len() <= free_slots
    }
}

/// Smallest divider the 16.8 fixed-point register can run at: 1.0.
pub const MIN_DIVIDER: u32 = 256;

/// Largest 16.8 fixed-point divider value.
pub const MAX_DIVIDER: u32 = 0xFF_FFFF;

/// The clock divider in 1/256 steps (16.8 fixed point): the integer nearest
/// to `256 * sys_clk_hz / (sample_rate * 64 * 2)`, ties rounding up.
/// 64 is the bit-clock cycle count per stereo frame and the engine spends
/// two cycles per bit-clock cycle, one per phase.
pub open spec fn spec_divider(sys_clk_hz: u32, sample_rate: u32) -> int
    recommends
        sample_rate > 0,
{
    (4 * (sys_clk_hz as int) + (sample_rate as int)) / (2 * (sample_rate as int))
}

/// Compute the clock divider for the requested sample rate.
pub fn compute_clock_divider(sys_clk_hz: u32, sample_rate: u32) -> (r: Result<
    u32,
    ConfigurationError,
>)
    ensures
        sample_rate == 0 ==> r == Err::<u32, ConfigurationError>(
            ConfigurationError::InvalidSampleRate,
        ),
        sample_rate > 0 && !(MIN_DIVIDER <= spec_divider(sys_clk_hz, sample_rate)
            <= MAX_DIVIDER) ==> r == Err::<u32, ConfigurationError>(
            ConfigurationError::DividerOutOfRange,
        ),
        sample_rate > 0 && MIN_DIVIDER <= spec_divider(sys_clk_hz, sample_rate) <= MAX_DIVIDER
            ==> r == Ok::<u32, ConfigurationError>(spec_divider(sys_clk_hz, sample_rate) as u32),
{
    if sample_rate == 0 {
        return Err(ConfigurationError::InvalidSampleRate);
    }
    let num: u64 = 4 * (sys_clk_hz as u64) + (sample_rate as u64);
    let den: u64 = 2 * (sample_rate as u64);
    let d: u64 = num / den;
    if d < 256 || d > 0xFF_FFFF {
        Err(ConfigurationError::DividerOutOfRange)
    } else {
        Ok(d as u32)
    }
}

/// The divider is the closest 1/256 step to the ideal ratio: writing
/// `d = spec_divider(sys, rate)`, the signed scaled error
/// `2*d*rate - 4*sys` lies in `(-rate, rate]`, which is half a step
/// either way.
pub proof fn lemma_divider_rounding(sys_clk_hz: u32, sample_rate: u32)
    requires
        sample_rate > 0,
    ensures
        2 * (spec_divider(sys_clk_hz, sample_rate) * (sample_rate as int)) - 4 * (
        sys_clk_hz as int) <= sample_rate as int,
        2 * (spec_divider(sys_clk_hz, sample_rate) * (sample_rate as int)) - 4 * (
        sys_clk_hz as int) > -(sample_rate as int),
{
    let s = sys_clk_hz as int;
    let r = sample_rate as int;
    let n = 4 * s + r;
    let m = 2 * r;
    let q = n / m;
    lemma_fundamental_div_mod(n, m);
    lemma_mod_bound(n, m);
    assert(n == m * q + n % m);
    assert(2 * (q * r) == m * q) by (nonlinear_arith)
        requires
            m == 2 * r,
    ;
}

/// The achieved sample rate is within 0.1% of the requested one whenever the
/// divider is at least 500/256: the engine runs at `256 * sys_clk_hz / d`
/// cycles per second and emits one frame per 128 cycles, so the achieved
/// rate is `2 * sys_clk_hz / d` frames per second, and this lemma states,
/// cross-multiplied by `d`, that `|2*sys_clk_hz - rate*d| * 1000 <= rate*d`.
pub proof fn lemma_divider_accuracy(sys_clk_hz: u32, sample_rate: u32)
    requires
        sample_rate > 0,
        spec_divider(sys_clk_hz, sample_rate) >= 500,
    ensures
        1000 * (2 * (sys_clk_hz as int) - (sample_rate as int) * spec_divider(
            sys_clk_hz,
            sample_rate,
        )) <= (sample_rate as int) * spec_divider(sys_clk_hz, sample_rate),
        1000 * ((sample_rate as int) * spec_divider(sys_clk_hz, sample_rate) - 2 * (
        sys_clk_hz as int)) <= (sample_rate as int) * spec_divider(sys_clk_hz, sample_rate),
{
    let s = sys_clk_hz as int;
    let r = sample_rate as int;
    let d = spec_divider(sys_clk_hz, sample_rate);
    lemma_divider_rounding(sys_clk_hz, sample_rate);
    assert(2 * (d * r) - 4 * s <= r);
    assert(2 * (d * r) - 4 * s > -r);
    assert(500 * r <= r * d) by (nonlinear_arith)
        requires
            r >= 1,
            d >= 500,
    ;
    assert(d * r == r * d) by (nonlinear_arith);
}

/// Capture driver model: holds the divider derived once at construction and
/// tracks whether a DMA read is outstanding. The hardware allows exactly one.
pub struct PioI2sMic {
    divider: u32,
    busy: bool,
}

impl PioI2sMic {
    /// The divider applied at construction, immutable thereafter.
    pub closed spec fn divider_spec(&self) -> u32 {
        self.divider
    }

    /// Whether a DMA read is outstanding.
    pub closed spec fn busy_spec(&self) -> bool {
        self.busy
    }

    /// Bind a compiled program to a sample rate. Fails exactly when the
    /// derived divider cannot be configured.
    pub fn new(program: &PioI2sMicProgram, sys_clk_hz: u32, sample_rate: u32) -> (r: Result<
        PioI2sMic,
        ConfigurationError,
    >)
        requires
            program.wf(),
        ensures
            r is Ok <==> (sample_rate > 0 && MIN_DIVIDER <= spec_divider(sys_clk_hz, sample_rate)
                <= MAX_DIVIDER),
            r matches Ok(m) ==> m.divider_spec() == spec_divider(sys_clk_hz, sample_rate)
                && !m.busy_spec(),
            sample_rate == 0 ==> r == Err::<PioI2sMic, ConfigurationError>(
                ConfigurationError::InvalidSampleRate,
            ),
            sample_rate > 0 && !(MIN_DIVIDER <= spec_divider(sys_clk_hz, sample_rate)
                <= MAX_DIVIDER) ==> r == Err::<PioI2sMic, ConfigurationError>(
                ConfigurationError::DividerOutOfRange,
            ),
    {
        match compute_clock_divider(sys_clk_hz, sample_rate) {
            Ok(divider) => Ok(PioI2sMic { divider, busy: false }),
            Err(e) => Err(e),
        }
    }

    /// Start a DMA read that fills one buffer. At most one read may be
    /// outstanding; a second one fails fast and changes nothing.
    pub fn read(&mut self) -> (r: Result<(), CaptureError>)
        ensures
            old(self).busy_spec() ==> r == Err::<(), CaptureError>(CaptureError::ReadInProgress)
                && *final(self) == *old(self),
            !old(self).busy_spec() ==> r == Ok::<(), CaptureError>(()) && final(self).busy_spec()
                && final(self).divider_spec() == old(self).divider_spec(),
    {
        if self.busy {
            Err(CaptureError::ReadInProgress)
        } else {
            self.busy = true;
            Ok(())
        }
    }

    /// Take the hardware's report that the outstanding transfer finished.
    /// A failed transfer is fatal: the buffer's data is lost and the fault
    /// is surfaced, never retried or swallowed.
    pub fn complete_read(&mut self, transfer_ok: bool) -> (r: Result<(), CaptureError>)
        ensures
            !old(self).busy_spec() ==> r == Err::<(), CaptureError>(CaptureError::NoPendingRead)
                && *final(self) == *old(self),
            old(self).busy_spec() && transfer_ok ==> r == Ok::<(), CaptureError>(()),
            old(self).busy_spec() && !transfer_ok ==> r == Err::<(), CaptureError>(
                CaptureError::HardwareFault,
            ),
            old(self).busy_spec() ==> !final(self).busy_spec() && final(self).divider_spec()
                == old(self).divider_spec(),
    {
        if !self.busy {
            Err(CaptureError::NoPendingRead)
        } else {
            self.busy = false;
            if transfer_ok {
                Ok(())
            } else {
                Err(CaptureError::HardwareFault)
            }
        }
    }
}

/// Machine state of the timing engine: program counter and the two loop
/// counters. The counters are modelled as unbounded integers; the sequence
/// below reloads a counter before every use, so the wrap-around of the real
/// 32-bit registers is never observable.
pub struct EngineState {
    pub pc: nat,
    pub x: int,
    pub y: int,
}

/// One engine cycle. Every instruction takes exactly one cycle. A
/// decrementing jump branches while its counter is non-zero and decrements
/// it regardless, after the test. Operands are taken as they stand: the
/// sequence above keeps every operand within its 5-bit field.
pub open spec fn spec_step(p: Seq<PioInstr>, s: EngineState) -> EngineState {
    if s.pc < p.len() {
        match p[s.pc as int].op {
            PioOp::SetX(v) => EngineState { pc: s.pc + 1, x: v as int, y: s.y },
            PioOp::SetY(v) => EngineState { pc: s.pc + 1, x: s.x, y: v as int },
            PioOp::InPins(_) => EngineState { pc: s.pc + 1, x: s.x, y: s.y },
            PioOp::JmpXDec(t) => {
                if s.x != 0 {
                    EngineState { pc: t as nat, x: s.x - 1, y: s.y }
                } else {
                    EngineState { pc: s.pc + 1, x: s.x - 1, y: s.y }
                }
            },
            PioOp::JmpYDec(t) => {
                if s.y != 0 {
                    EngineState { pc: t as nat, x: s.x, y: s.y - 1 }
                } else {
                    EngineState { pc: s.pc + 1, x: s.x, y: s.y - 1 }
                }
            },
            PioOp::JmpAlways(t) => EngineState { pc: t as nat, x: s.x, y: s.y },
            PioOp::Nop => EngineState { pc: s.pc + 1, x: s.x, y: s.y },
        }
    } else {
        s
    }
}

/// What one cycle shows the outside world: the 2-bit side output and
/// whether a data bit was shifted in.
pub struct Cycle {
    pub side: u8,
    pub sampled: bool,
}

/// The observable outputs of the cycle starting in the given state.
pub open spec fn spec_cycle(p: Seq<PioInstr>, s: EngineState) -> Cycle {
    if s.pc < p.len() {
        Cycle { side: p[s.pc as int].side, sampled: p[s.pc as int].op is InPins }
    } else {
        Cycle { side: 0, sampled: false }
    }
}

/// The state after `n` cycles.
pub open spec fn spec_run(p: Seq<PioInstr>, s: EngineState, n: nat) -> EngineState
    decreases n,
{
    if n == 0 {
        s
    } else {
        spec_run(p, spec_step(p, s), (n - 1) as nat)
    }
}

/// The observable outputs of `n` cycles.
pub open spec fn spec_trace(p: Seq<PioInstr>, s: EngineState, n: nat) -> Seq<Cycle>
    decreases n,
{
    if n == 0 {
        Seq::empty()
    } else {
        seq![spec_cycle(p, s)] + spec_trace(p, spec_step(p, s), (n - 1) as nat)
    }
}

/// Cycles in the trace that shift a bit in while the channel select
/// (side bit 1) shows `lr`.
pub open spec fn count_sampled(t: Seq<Cycle>, lr: u8) -> int
    decreases t.len(),
{
    if t.len() == 0 {
        0
    } else {
        (if t[0].sampled && t[0].side >> 1 == lr {
            1int
        } else {
            0int
        }) + count_sampled(t.drop_first(), lr)
    }
}

/// Cycles in the trace with the bit clock (side bit 0) high. The sequence
/// never holds the clock high for two cycles in a row, so each such cycle
/// is one complete clock pulse.
pub open spec fn count_clock_high(t: Seq<Cycle>) -> int
    decreases t.len(),
{
    if t.len() == 0 {
        0
    } else {
        (if t[0].side & 1 == 1 {
            1int
        } else {
            0int
        }) + count_clock_high(t.drop_first())
    }
}


/// Bit values of the four possible side outputs.
proof fn lemma_side_bits()
    ensures
        0u8 >> 1 == 0u8,
        1u8 >> 1 == 0u8,
        2u8 >> 1 == 1u8,
        3u8 >> 1 == 1u8,
        0u8 & 1 == 0u8,
        1u8 & 1 == 1u8,
        2u8 & 1 == 0u8,
        3u8 & 1 == 1u8,
{
    assert(0u8 >> 1 == 0u8 && 1u8 >> 1 == 0u8 && 2u8 >> 1 == 1u8 && 3u8 >> 1 == 1u8)
        by (bit_vector);
    assert(0u8 & 1 == 0u8 && 1u8 & 1 == 1u8 && 2u8 & 1 == 0u8 && 3u8 & 1 == 1u8) by (bit_vector);
}

/// Runs and traces compose over cycle counts.
proof fn lemma_run_add(p: Seq<PioInstr>, s: EngineState, m: nat, n: nat)
    ensures
        spec_run(p, s, m + n) == spec_run(p, spec_run(p, s, m), n),
        spec_trace(p, s, m + n) =~= spec_trace(p, s, m) + spec_trace(p, spec_run(p, s, m), n),
    decreases m,
{
    if m == 0 {
        assert(spec_trace(p, s, n) =~= spec_trace(p, s, 0) + spec_trace(p, s, n));
    } else {
        lemma_run_add(p, spec_step(p, s), (m - 1) as nat, n);
        assert(spec_trace(p, s, m + n) =~= spec_trace(p, s, m) + spec_trace(
            p,
            spec_run(p, s, m),
            n,
        ));
    }
}

/// Sample counts add over trace concatenation.
proof fn lemma_count_sampled_add(a: Seq<Cycle>, b: Seq<Cycle>, lr: u8)
    ensures
        count_sampled(a + b, lr) == count_sampled(a, lr) + count_sampled(b, lr),
    decreases a.len(),
{
    if a.len() == 0 {
        assert(a + b =~= b);
    } else {
        assert((a + b).drop_first() =~= a.drop_first() + b);
        assert((a + b)[0] == a[0]);
        lemma_count_sampled_add(a.drop_first(), b, lr);
    }
}

/// Clock-pulse counts add over trace concatenation.
proof fn lemma_count_clock_high_add(a: Seq<Cycle>, b: Seq<Cycle>)
    ensures
        count_clock_high(a + b) == count_clock_high(a) + count_clock_high(b),
    decreases a.len(),
{
    if a.len() == 0 {
        assert(a + b =~= b);
    } else {
        assert((a + b).drop_first() =~= a.drop_first() + b);
        assert((a + b)[0] == a[0]);
        lemma_count_clock_high_add(a.drop_first(), b);
    }
}

/// A capture loop pass: from the shift-in instruction with counter `k`,
/// the engine spends `2 * (k + 1)` cycles sampling `k + 1` bits on its own
/// channel and none on the other, pulsing the clock once per bit, and
/// falls through with the counter spent.
proof fn lemma_capture_loop(k: nat, y: int, inpc: nat, lr: u8)
    requires
        inpc == 2 || inpc == 8,
        lr == (if inpc == 2 { 0u8 } else { 1u8 }),
    ensures
        ({
            let p = spec_program();
            let s = EngineState { pc: inpc, x: k as int, y };
            &&& spec_run(p, s, 2 * (k + 1)) == (EngineState { pc: (inpc + 2) as nat, x: -1, y })
            &&& count_sampled(spec_trace(p, s, 2 * (k + 1)), lr) == k + 1
            &&& count_sampled(spec_trace(p, s, 2 * (k + 1)), (1 - lr) as u8) == 0
            &&& count_clock_high(spec_trace(p, s, 2 * (k + 1))) == k + 1
        }),
    decreases k,
{
    reveal_with_fuel(spec_run, 3);
    reveal_with_fuel(spec_trace, 3);
    reveal_with_fuel(count_sampled, 4);
    reveal_with_fuel(count_clock_high, 4);
    lemma_side_bits();
    let p = spec_program();
    let s = EngineState { pc: inpc, x: k as int, y };
    let s1 = spec_step(p, s);
    let s2 = spec_step(p, s1);
    assert(s1 == EngineState { pc: (inpc + 1) as nat, x: k as int, y });
    let two = spec_trace(p, s, 2);
    assert(two =~= seq![spec_cycle(p, s)] + (seq![spec_cycle(p, s1)] + Seq::<Cycle>::empty()));
    assert(two.drop_first() =~= seq![spec_cycle(p, s1)]);
    assert(seq![spec_cycle(p, s1)].drop_first() =~= Seq::<Cycle>::empty());
    lemma_run_add(p, s, 2, 2 * k);
    lemma_count_sampled_add(two, spec_trace(p, s2, 2 * k), lr);
    lemma_count_sampled_add(two, spec_trace(p, s2, 2 * k), (1 - lr) as u8);
    lemma_count_clock_high_add(two, spec_trace(p, s2, 2 * k));
    if k == 0 {
        assert(s2 == EngineState { pc: (inpc + 2) as nat, x: -1, y });
        assert(spec_trace(p, s2, 0) =~= Seq::<Cycle>::empty());
    } else {
        assert(s2 == EngineState { pc: inpc, x: k - 1, y });
        lemma_capture_loop((k - 1) as nat, y, inpc, lr);
    }
}

/// A dummy loop pass: from the idle instruction with counter `k`, the
/// engine spends `2 * (k + 1)` cycles sampling nothing, pulsing the clock
/// once per pass, and falls through with the counter spent.
proof fn lemma_dummy_loop(k: nat, x: int, nppc: nat)
    requires
        nppc == 5 || nppc == 11,
    ensures
        ({
            let p = spec_program();
            let s = EngineState { pc: nppc, x, y: k as int };
            &&& spec_run(p, s, 2 * (k + 1)) == (EngineState { pc: (nppc + 2) as nat, x, y: -1 })
            &&& count_sampled(spec_trace(p, s, 2 * (k + 1)), 0) == 0
            &&& count_sampled(spec_trace(p, s, 2 * (k + 1)), 1) == 0
            &&& count_clock_high(spec_trace(p, s, 2 * (k + 1))) == k + 1
        }),
    decreases k,
{
    reveal_with_fuel(spec_run, 3);
    reveal_with_fuel(spec_trace, 3);
    reveal_with_fuel(count_sampled, 4);
    reveal_with_fuel(count_clock_high, 4);
    lemma_side_bits();
    let p = spec_program();
    let s = EngineState { pc: nppc, x, y: k as int };
    let s1 = spec_step(p, s);
    let s2 = spec_step(p, s1);
    assert(s1 == EngineState { pc: (nppc + 1) as nat, x, y: k as int });
    let two = spec_trace(p, s, 2);
    assert(two =~= seq![spec_cycle(p, s)] + (seq![spec_cycle(p, s1)] + Seq::<Cycle>::empty()));
    assert(two.drop_first() =~= seq![spec_cycle(p, s1)]);
    assert(seq![spec_cycle(p, s1)].drop_first() =~= Seq::<Cycle>::empty());
    lemma_run_add(p, s, 2, 2 * k);
    lemma_count_sampled_add(two, spec_trace(p, s2, 2 * k), 0);
    lemma_count_sampled_add(two, spec_trace(p, s2, 2 * k), 1);
    lemma_count_clock_high_add(two, spec_trace(p, s2, 2 * k));
    if k == 0 {
        assert(s2 == EngineState { pc: (nppc + 2) as nat, x, y: -1 });
        assert(spec_trace(p, s2, 0) =~= Seq::<Cycle>::empty());
    } else {
        assert(s2 == EngineState { pc: nppc, x, y: k - 1 });
        lemma_dummy_loop((k - 1) as nat, x, nppc);
    }
}

/// One channel section: load the counter, capture 24 bits, load the other
/// counter, run 8 dummy cycles — 66 cycles in all, 32 clock pulses, and
/// the engine stands at the next section.
proof fn lemma_channel_section(startpc: nat, x: int, y: int, lr: u8)
    requires
        startpc == 1 || startpc == 7,
        lr == (if startpc == 1 { 0u8 } else { 1u8 }),
    ensures
        ({
            let p = spec_program();
            let s = EngineState { pc: startpc, x, y };
            &&& spec_run(p, s, 66) == (EngineState { pc: (startpc + 6) as nat, x: -1, y: -1 })
            &&& count_sampled(spec_trace(p, s, 66), lr) == 24
            &&& count_sampled(spec_trace(p, s, 66), (1 - lr) as u8) == 0
            &&& count_clock_high(spec_trace(p, s, 66)) == 32
        }),
{
    reveal_with_fuel(spec_run, 3);
    reveal_with_fuel(spec_trace, 3);
    reveal_with_fuel(count_sampled, 4);
    reveal_with_fuel(count_clock_high, 4);
    lemma_side_bits();
    let p = spec_program();
    let s = EngineState { pc: startpc, x, y };
    let s1 = spec_step(p, s);
    assert(s1 == EngineState { pc: (startpc + 1) as nat, x: 23, y });
    lemma_run_add(p, s, 1, 48);
    lemma_capture_loop(23, y, (startpc + 1) as nat, lr);
    let s49 = spec_run(p, s, 49);
    assert(s49 == EngineState { pc: (startpc + 3) as nat, x: -1, y });
    lemma_run_add(p, s, 49, 1);
    let s50 = spec_run(p, s, 50);
    assert(s50 == EngineState { pc: (startpc + 4) as nat, x: -1, y: 7 });
    lemma_run_add(p, s, 50, 16);
    lemma_dummy_loop(7, -1, (startpc + 4) as nat);
    assert(spec_run(p, s, 66) == EngineState { pc: (startpc + 6) as nat, x: -1, y: -1 });

    let t1 = spec_trace(p, s, 1);
    let t48 = spec_trace(p, s1, 48);
    let t49 = spec_trace(p, s, 49);
    let tset = spec_trace(p, s49, 1);
    let t50 = spec_trace(p, s, 50);
    let t16 = spec_trace(p, s50, 16);
    assert(t1 =~= seq![spec_cycle(p, s)]);
    assert(tset =~= seq![spec_cycle(p, s49)]);
    assert(t1.drop_first() =~= Seq::<Cycle>::empty());
    assert(tset.drop_first() =~= Seq::<Cycle>::empty());
    lemma_count_sampled_add(t1, t48, lr);
    lemma_count_sampled_add(t49, tset, lr);
    lemma_count_sampled_add(t50, t16, lr);
    lemma_count_sampled_add(t1, t48, (1 - lr) as u8);
    lemma_count_sampled_add(t49, tset, (1 - lr) as u8);
    lemma_count_sampled_add(t50, t16, (1 - lr) as u8);
    lemma_count_clock_high_add(t1, t48);
    lemma_count_clock_high_add(t49, tset);
    lemma_count_clock_high_add(t50, t16);
}

/// One full pass of the loop, from the start of the left channel back to
/// it, whatever the counters held: 133 cycles in which exactly 24 bits are
/// sampled with the channel select low, then exactly 24 with it high —
/// 64 bit-clock pulses in all, 64 clock toggles per stereo frame — and the
/// engine returns to the start of the left channel, so the sequence
/// repeats forever.
pub proof fn lemma_frame_protocol(x: int, y: int)
    ensures
        ({
            let p = spec_program();
            let s = EngineState { pc: 1, x, y };
            &&& spec_run(p, s, 133) == (EngineState { pc: 1, x: -1, y: -1 })
            &&& count_sampled(spec_trace(p, s, 133), 0) == 24
            &&& count_sampled(spec_trace(p, s, 133), 1) == 24
            &&& count_clock_high(spec_trace(p, s, 133)) == 64
        }),
{
    reveal_with_fuel(spec_run, 3);
    reveal_with_fuel(spec_trace, 3);
    reveal_with_fuel(count_sampled, 4);
    reveal_with_fuel(count_clock_high, 4);
    lemma_side_bits();
    let p = spec_program();
    let s = EngineState { pc: 1, x, y };
    lemma_channel_section(1, x, y, 0);
    let s66 = spec_run(p, s, 66);
    assert(s66 == EngineState { pc: 7, x: -1, y: -1 });
    lemma_run_add(p, s, 66, 66);
    lemma_channel_section(7, -1, -1, 1);
    let s132 = spec_run(p, s, 132);
    assert(s132 == EngineState { pc: 13, x: -1, y: -1 });
    lemma_run_add(p, s, 132, 1);
    assert(spec_run(p, s, 133) == EngineState { pc: 1, x: -1, y: -1 });

    let ta = spec_trace(p, s, 66);
    let tb = spec_trace(p, s66, 66);
    let t132 = spec_trace(p, s, 132);
    let tjmp = spec_trace(p, s132, 1);
    assert(tjmp =~= seq![spec_cycle(p, s132)]);
    assert(tjmp.drop_first() =~= Seq::<Cycle>::empty());
    lemma_count_sampled_add(ta, tb, 0);
    lemma_count_sampled_add(ta, tb, 1);
    lemma_count_sampled_add(t132, tjmp, 0);
    lemma_count_sampled_add(t132, tjmp, 1);
    lemma_count_clock_high_add(ta, tb);
    lemma_count_clock_high_add(t132, tjmp);
}

/// The warm-up instruction: one cycle after reset the engine stands at the
/// start of the left channel, which `lemma_frame_protocol` covers for any
/// counter contents.
pub proof fn lemma_startup(x: int, y: int)
    ensures
        spec_run(spec_program(), EngineState { pc: 0, x, y }, 1) == (EngineState {
            pc: 1,
            x: 14,
            y,
        }),
{
    reveal_with_fuel(spec_run, 3);
}

} // verus!
