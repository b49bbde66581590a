use vstd::prelude::*;
use vstd::arithmetic::mul::lemma_mul_inequality;
use vstd::arithmetic::mul::lemma_mul_upper_bound;
use vstd::arithmetic::mul::lemma_mul_nonnegative;
use vstd::arithmetic::div_mod::lemma_div_is_ordered;
use vstd::arithmetic::div_mod::lemma_fundamental_div_mod;
use vstd::arithmetic::div_mod::lemma_mod_pos_bound;

verus! {

/// The logic level an output pin holds during one pulse.
#[derive(Clone, Copy, PartialEq, Eq, Structural, Debug)]
pub enum PinState {
    High,
    Low,
}

/// The longest pulse the hardware channel can time: its tick counter is 15 bits wide.
pub const MAX_PULSE_TICKS: u16 = 32767;

/// One electrical pulse: a logic level held for a number of hardware timer ticks.
#[derive(Clone, Copy, PartialEq, Eq, Structural, Debug)]
pub struct Pulse {
    pub pin_state: PinState,
    pub ticks: u16,
}

/// The channel cannot be calibrated: a requested pulse duration does not fit
/// its tick counter.
#[derive(Clone, Copy, PartialEq, Eq, Structural, Debug)]
pub enum HardwareConfigError {
    PulseTooLong,
}

/// How many whole ticks a `ns`-nanosecond interval covers when the channel
/// ticks `ticks_hz` times per second; the fractional remainder is dropped.
pub open spec fn spec_ticks(ticks_hz: u32, ns: u64) -> int {
    (ticks_hz as int) * (ns as int) / 1_000_000_000
}

impl Pulse {
    /// The idle pulse: low level, zero duration.
    pub open spec fn spec_zero() -> Pulse {
        Pulse { pin_state: PinState::Low, ticks: 0 }
    }

    /// Build the pulse that holds `pin_state` for `ns` nanoseconds on a channel
    /// ticking `ticks_hz` times per second; fails exactly when the tick count
    /// overflows the channel's 15-bit counter.
    pub fn new_with_duration(ticks_hz: u32, pin_state: PinState, ns: u64) -> (r: Result<
        Pulse,
        HardwareConfigError,
    >)
        ensures
            r is Ok <==> spec_ticks(ticks_hz, ns) <= MAX_PULSE_TICKS,
            r matches Ok(p) ==> p.pin_state == pin_state && p.ticks == spec_ticks(ticks_hz, ns),
            r is Err ==> r == Err::<Pulse, HardwareConfigError>(HardwareConfigError::PulseTooLong),
    {
        match pulse_ticks(ticks_hz, ns) {
            Ok(ticks) => Ok(Pulse { pin_state, ticks }),
            Err(e) => Err(e),
        }
    }
}

/// Convert a nanosecond duration into hardware timer ticks at `ticks_hz` ticks
/// per second, truncating; fails exactly when the count exceeds
/// `MAX_PULSE_TICKS`.
pub fn pulse_ticks(ticks_hz: u32, ns: u64) -> (r: Result<u16, HardwareConfigError>)
    ensures
        r is Ok <==> spec_ticks(ticks_hz, ns) <= MAX_PULSE_TICKS,
        r matches Ok(t) ==> t == spec_ticks(ticks_hz, ns),
        r is Err ==> r == Err::<u16, HardwareConfigError>(HardwareConfigError::PulseTooLong),
{
    proof {
        lemma_mul_upper_bound(ticks_hz as int, u32::MAX as int, ns as int, u64::MAX as int);
    }
    let t: u128 = (ticks_hz as u128) * (ns as u128) / 1_000_000_000u128;
    if t <= MAX_PULSE_TICKS as u128 {
        Ok(t as u16)
    } else {
        Err(HardwareConfigError::PulseTooLong)
    }
}

/// At a fixed tick rate, a longer interval never yields fewer ticks.
pub proof fn lemma_ticks_monotone_in_ns(ticks_hz: u32, ns1: u64, ns2: u64)
    requires
        ns1 <= ns2,
    ensures
        spec_ticks(ticks_hz, ns1) <= spec_ticks(ticks_hz, ns2),
{
    lemma_mul_inequality(ns1 as int, ns2 as int, ticks_hz as int);
    lemma_div_is_ordered(
        (ticks_hz as int) * (ns1 as int),
        (ticks_hz as int) * (ns2 as int),
        1_000_000_000,
    );
}

/// For a fixed interval, a finer tick rate never yields fewer ticks.
pub proof fn lemma_ticks_monotone_in_hz(hz1: u32, hz2: u32, ns: u64)
    requires
        hz1 <= hz2,
    ensures
        spec_ticks(hz1, ns) <= spec_ticks(hz2, ns),
{
    lemma_mul_inequality(hz1 as int, hz2 as int, ns as int);
    lemma_div_is_ordered((hz1 as int) * (ns as int), (hz2 as int) * (ns as int), 1_000_000_000);
}

/// An interval of at least 350 ns never rounds down to zero ticks once the
/// channel ticks at least 2_857_143 times per second.
pub proof fn lemma_ticks_nonzero(ticks_hz: u32, ns: u64)
    requires
        ns >= 350,
        ticks_hz >= 2_857_143,
    ensures
        spec_ticks(ticks_hz, ns) >= 1,
{
    lemma_mul_inequality(2_857_143, ticks_hz as int, 350);
    lemma_mul_inequality(350, ns as int, ticks_hz as int);
    lemma_div_is_ordered(1_000_000_000, (ticks_hz as int) * (ns as int), 1_000_000_000);
}

/// How far truncation goes: the tick count covers at most the target
/// interval, and falls short of it by less than one tick's worth of time.
pub proof fn lemma_ticks_rounding(ticks_hz: u32, ns: u64)
    ensures
        spec_ticks(ticks_hz, ns) * 1_000_000_000 <= (ticks_hz as int) * (ns as int),
        (ticks_hz as int) * (ns as int) < (spec_ticks(ticks_hz, ns) + 1) * 1_000_000_000,
{
    let x = (ticks_hz as int) * (ns as int);
    lemma_mul_nonnegative(ticks_hz as int, ns as int);
    lemma_fundamental_div_mod(x, 1_000_000_000);
    lemma_mod_pos_bound(x, 1_000_000_000);
}

/// An interval of at most 800 ns fits the tick counter at every 32-bit tick
/// rate: the count stays well under `MAX_PULSE_TICKS`.
pub proof fn lemma_ticks_fit(ticks_hz: u32, ns: u64)
    requires
        ns <= 800,
    ensures
        spec_ticks(ticks_hz, ns) <= 3435,
{
    lemma_mul_upper_bound(ticks_hz as int, u32::MAX as int, ns as int, 800);
    lemma_div_is_ordered((ticks_hz as int) * (ns as int), 3435973836000, 1_000_000_000);
}

} // verus!
