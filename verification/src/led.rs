use vstd::prelude::*;
use crate::color::Color;
use crate::color::spec_packed;
use crate::color::spec_bit;
use crate::color::spec_bits_msb;
use crate::color::spec_decode_msb;
use crate::color::packed_grb;
use crate::color::lemma_decode_packed;
use crate::color::lemma_packed_injective;
use crate::pulse::Pulse;
use crate::pulse::PinState;
use crate::pulse::pulse_ticks;
use crate::pulse::spec_ticks;
use crate::pulse::lemma_ticks_fit;
use crate::pulse::lemma_ticks_nonzero;
use vstd::pervasive::unreached;
use vstd::arithmetic::div_mod::lemma_fundamental_div_mod;
use vstd::arithmetic::div_mod::lemma_fundamental_div_mod_converse_div;
use vstd::arithmetic::div_mod::lemma_mod_pos_bound;

verus! {

/// Nanoseconds the pin stays high for a 0 bit.
pub const T0H_NS: u64 = 350;

/// Nanoseconds the pin stays low for a 0 bit.
pub const T0L_NS: u64 = 800;

/// Nanoseconds the pin stays high for a 1 bit.
pub const T1H_NS: u64 = 700;

/// Nanoseconds the pin stays low for a 1 bit.
pub const T1L_NS: u64 = 600;

/// Number of bits, and so of pulse pairs, in one transmitted frame.
pub const FRAME_BITS: usize = 24;

/// The pulse encoder for one WS2812-family LED: the four pulses calibrated at
/// construction, shared read-only by every frame it builds afterwards.
pub struct WS2812RMT {
    pub t0h: Pulse,
    pub t0l: Pulse,
    pub t1h: Pulse,
    pub t1l: Pulse,
}

impl WS2812RMT {
    /// The calibration pulses hold the levels the protocol fixes: each bit is
    /// a high phase followed by a low phase.
    pub open spec fn wf(self) -> bool {
        &&& self.t0h.pin_state == PinState::High
        &&& self.t0l.pin_state == PinState::Low
        &&& self.t1h.pin_state == PinState::High
        &&& self.t1l.pin_state == PinState::Low
    }

    /// The pulse durations are the protocol's nanosecond targets converted at
    /// `ticks_hz` ticks per second.
    pub open spec fn calibrated(self, ticks_hz: u32) -> bool {
        &&& self.t0h.ticks == spec_ticks(ticks_hz, T0H_NS)
        &&& self.t0l.ticks == spec_ticks(ticks_hz, T0L_NS)
        &&& self.t1h.ticks == spec_ticks(ticks_hz, T1H_NS)
        &&& self.t1l.ticks == spec_ticks(ticks_hz, T1L_NS)
    }

    /// The pulse pair a single bit selects: the long-high pair for a 1, the
    /// short-high pair for a 0.
    pub open spec fn pair_for(self, bit: bool) -> (Pulse, Pulse) {
        if bit {
            (self.t1h, self.t1l)
        } else {
            (self.t0h, self.t0l)
        }
    }

    /// The full pulse train for color `c`: one pair per bit of the packed
    /// Green-Red-Blue value, bit 23 first, bit 0 last.
    pub open spec fn spec_frame(self, c: Color) -> Seq<(Pulse, Pulse)> {
        Seq::new(
            FRAME_BITS as nat,
            |k: int| self.pair_for(spec_bit(spec_packed(c), (23 - k) as u32)),
        )
    }

    /// Calibrate an encoder for a channel that ticks `ticks_hz` times per
    /// second. This cannot fail: at the protocol's nanosecond targets the
    /// tick counts fit the hardware's 15-bit counter for every 32-bit rate.
    pub fn new(ticks_hz: u32) -> (d: WS2812RMT)
        ensures
            d.wf(),
            d.calibrated(ticks_hz),
    {
        proof {
            lemma_ticks_fit(ticks_hz, T0H_NS);
            lemma_ticks_fit(ticks_hz, T0L_NS);
            lemma_ticks_fit(ticks_hz, T1H_NS);
            lemma_ticks_fit(ticks_hz, T1L_NS);
        }
        let t0h = match pulse_ticks(ticks_hz, T0H_NS) {
            Ok(t) => t,
            Err(_) => unreached(),
        };
        let t0l = match pulse_ticks(ticks_hz, T0L_NS) {
            Ok(t) => t,
            Err(_) => unreached(),
        };
        let t1h = match pulse_ticks(ticks_hz, T1H_NS) {
            Ok(t) => t,
            Err(_) => unreached(),
        };
        let t1l = match pulse_ticks(ticks_hz, T1L_NS) {
            Ok(t) => t,
            Err(_) => unreached(),
        };
        WS2812RMT {
            t0h: Pulse { pin_state: PinState::High, ticks: t0h },
            t0l: Pulse { pin_state: PinState::Low, ticks: t0l },
            t1h: Pulse { pin_state: PinState::High, ticks: t1h },
            t1l: Pulse { pin_state: PinState::Low, ticks: t1l },
        }
    }

    /// Build the pulse train that shows color `rgb` on the pixel: 24 pairs,
    /// one per bit of the packed Green-Red-Blue value, most significant bit
    /// first. The surrounding application transmits the train unchanged.
    pub fn set_pixel(&self, rgb: Color) -> (signal: Vec<(Pulse, Pulse)>)
        ensures
            signal@ == self.spec_frame(rgb),
    {
        let color: u32 = packed_grb(rgb);
        let mut signal: Vec<(Pulse, Pulse)> = Vec::new();
        let mut k: usize = 0;
        while k < FRAME_BITS
            invariant
                k <= FRAME_BITS,
                signal@.len() == k,
                color == spec_packed(rgb),
                forall|j: int| 0 <= j < k ==> signal@[j] == self.spec_frame(rgb)[j],
            decreases FRAME_BITS - k,
        {
            let i: u32 = (23 - k) as u32;
            let bit = ((color >> i) & 1) == 1;
            let pair = if bit {
                (self.t1h, self.t1l)
            } else {
                (self.t0h, self.t0l)
            };
            signal.push(pair);
            k = k + 1;
        }
        proof {
            assert(signal@ =~= self.spec_frame(rgb));
        }
        signal
    }
}

/// The pulse train sent once, before any frame, to arm the LED: 24 slots all
/// holding the idle pulse pair.
pub fn reset_signal() -> (signal: Vec<(Pulse, Pulse)>)
    ensures
        signal@.len() == FRAME_BITS,
        forall|j: int|
            0 <= j < FRAME_BITS ==> signal@[j] == (Pulse::spec_zero(), Pulse::spec_zero()),
{
    let zero = Pulse { pin_state: PinState::Low, ticks: 0 };
    let mut signal: Vec<(Pulse, Pulse)> = Vec::new();
    let mut k: usize = 0;
    while k < FRAME_BITS
        invariant
            k <= FRAME_BITS,
            signal@.len() == k,
            zero == Pulse::spec_zero(),
            forall|j: int| 0 <= j < k ==> signal@[j] == (Pulse::spec_zero(), Pulse::spec_zero()),
        decreases FRAME_BITS - k,
    {
        signal.push((zero, zero));
        k = k + 1;
    }
    signal
}

/// Bit 23 of the packed value decides the first emitted pair, and bit 0 the
/// last: the train leaves most-significant-bit first, with no reversal.
pub proof fn lemma_frame_order(d: WS2812RMT, c: Color)
    ensures
        d.spec_frame(c).len() == FRAME_BITS,
        d.spec_frame(c)[0] == d.pair_for(spec_bit(spec_packed(c), 23)),
        d.spec_frame(c)[23] == d.pair_for(spec_bit(spec_packed(c), 0)),
{
}

/// At every position, a 1 bit selects the 700 ns high / 600 ns low pair and a
/// 0 bit the 350 ns high / 800 ns low pair, at the rate the encoder was
/// calibrated for.
pub proof fn lemma_bit_pulse_selection(d: WS2812RMT, ticks_hz: u32, c: Color, k: int)
    requires
        d.wf(),
        d.calibrated(ticks_hz),
        0 <= k < FRAME_BITS,
    ensures
        spec_bit(spec_packed(c), (23 - k) as u32) ==> d.spec_frame(c)[k] == (d.t1h, d.t1l)
            && d.t1h.ticks == spec_ticks(ticks_hz, T1H_NS) && d.t1l.ticks == spec_ticks(
            ticks_hz,
            T1L_NS,
        ),
        !spec_bit(spec_packed(c), (23 - k) as u32) ==> d.spec_frame(c)[k] == (d.t0h, d.t0l)
            && d.t0h.ticks == spec_ticks(ticks_hz, T0H_NS) && d.t0l.ticks == spec_ticks(
            ticks_hz,
            T0L_NS,
        ),
{
}

/// The train is a pure function of the encoder and the color: building it
/// twice for the same color gives bit-identical trains.
pub proof fn lemma_frame_repeatable(
    d: WS2812RMT,
    c: Color,
    s1: Seq<(Pulse, Pulse)>,
    s2: Seq<(Pulse, Pulse)>,
)
    requires
        s1 == d.spec_frame(c),
        s2 == d.spec_frame(c),
    ensures
        s1 == s2,
{
}

/// Decoding the bit selections of a frame most-significant-bit first gives
/// back the packed value: the wire carries exactly the color.
pub proof fn lemma_frame_round_trip(c: Color)
    ensures
        spec_decode_msb(spec_bits_msb(spec_packed(c), 24)) == spec_packed(c),
{
    lemma_decode_packed(c);
}

/// Once the tick rate resolves the 0-bit high phase to at least one tick, the
/// 1-bit high phase is strictly longer, so the two pulse pairs can be told
/// apart on the wire.
pub proof fn lemma_pairs_distinct(ticks_hz: u32)
    requires
        ticks_hz >= 2_857_143,
    ensures
        spec_ticks(ticks_hz, T0H_NS) < spec_ticks(ticks_hz, T1H_NS),
{
    let h = ticks_hz as int;
    let x = h * 350;
    let d = 1_000_000_000;
    lemma_ticks_nonzero(ticks_hz, T0H_NS);
    let q = x / d;
    let r = x % d;
    lemma_fundamental_div_mod(x, d);
    lemma_mod_pos_bound(x, d);
    assert(h * 700 == 2 * x);
    if 2 * r < d {
        lemma_fundamental_div_mod_converse_div(2 * x, d, 2 * q, 2 * r);
    } else {
        lemma_fundamental_div_mod_converse_div(2 * x, d, 2 * q + 1, 2 * r - d);
    }
}

/// A pulse train built with distinguishable pulse pairs determines the color:
/// no two colors share a train.
pub proof fn lemma_frame_injective(d: WS2812RMT, c1: Color, c2: Color)
    requires
        d.t0h.ticks != d.t1h.ticks,
        d.spec_frame(c1) == d.spec_frame(c2),
    ensures
        c1 == c2,
{
    let v1 = spec_packed(c1);
    let v2 = spec_packed(c2);
    assert forall|k: int| 0 <= k < 24 implies spec_bits_msb(v1, 24)[k] == spec_bits_msb(
        v2,
        24,
    )[k] by {
        assert(d.spec_frame(c1)[k] == d.spec_frame(c2)[k]);
        let b1 = spec_bit(v1, (23 - k) as u32);
        let b2 = spec_bit(v2, (23 - k) as u32);
        if b1 != b2 {
            assert(d.pair_for(true) == d.pair_for(false));
            assert(d.t1h == d.t0h);
            assert(false);
        }
    }
    assert(spec_bits_msb(v1, 24) =~= spec_bits_msb(v2, 24));
    lemma_decode_packed(c1);
    lemma_decode_packed(c2);
    lemma_packed_injective(c1, c2);
}

/// A calibrated encoder at any tick rate of at least 2_857_143 per second
/// emits decodable trains: the train reconstructs exactly the color.
pub proof fn lemma_frame_determines_color(d: WS2812RMT, ticks_hz: u32, c1: Color, c2: Color)
    requires
        d.calibrated(ticks_hz),
        ticks_hz >= 2_857_143,
        d.spec_frame(c1) == d.spec_frame(c2),
    ensures
        c1 == c2,
{
    lemma_pairs_distinct(ticks_hz);
    lemma_frame_injective(d, c1, c2);
}

} // verus!
