use ws2812_rmt::color::packed_grb;
use ws2812_rmt::color::Color;
use ws2812_rmt::config::Config;
use ws2812_rmt::led::reset_signal;
use ws2812_rmt::led::WS2812RMT;
use ws2812_rmt::pulse::pulse_ticks;
use ws2812_rmt::pulse::HardwareConfigError;
use ws2812_rmt::pulse::PinState;
use ws2812_rmt::pulse::Pulse;

fn pulse(pin_state: PinState, ticks: u16) -> Pulse {
    Pulse { pin_state, ticks }
}

// At 40 MHz (the 80 MHz base clock divided by 2) the protocol's nanosecond
// targets come out as 14, 32, 28 and 24 ticks.
const HZ_40MHZ: u32 = 40_000_000;

#[test]
fn color_new_keeps_channels() {
    let c = Color::new(1, 2, 3);
    assert_eq!(c.r, 1);
    assert_eq!(c.g, 2);
    assert_eq!(c.b, 3);
}

#[test]
fn packed_is_grb_order() {
    assert_eq!(packed_grb(Color::new(50, 0, 0)), 0x003200);
    assert_eq!(packed_grb(Color::new(0, 50, 0)), 0x320000);
    assert_eq!(packed_grb(Color::new(0, 0, 50)), 0x000032);
    assert_eq!(packed_grb(Color::new(7, 8, 9)), 0x080709);
    assert_eq!(packed_grb(Color::new(255, 255, 255)), 0xFFFFFF);
}

#[test]
fn pulse_ticks_exact_at_40mhz() {
    assert_eq!(pulse_ticks(HZ_40MHZ, 350), Ok(14));
    assert_eq!(pulse_ticks(HZ_40MHZ, 800), Ok(32));
    assert_eq!(pulse_ticks(HZ_40MHZ, 700), Ok(28));
    assert_eq!(pulse_ticks(HZ_40MHZ, 600), Ok(24));
}

#[test]
fn pulse_ticks_truncates() {
    // 25 ns at 40 MHz is exactly one tick; anything shorter rounds down.
    assert_eq!(pulse_ticks(HZ_40MHZ, 25), Ok(1));
    assert_eq!(pulse_ticks(HZ_40MHZ, 24), Ok(0));
    // At only 1 MHz the 350 ns high phase underflows to zero ticks.
    assert_eq!(pulse_ticks(1_000_000, 350), Ok(0));
}

#[test]
fn pulse_ticks_monotone_spot_checks() {
    let coarse = pulse_ticks(HZ_40MHZ, 350).unwrap();
    let fine = pulse_ticks(80_000_000, 350).unwrap();
    assert!(coarse <= fine);
    let short = pulse_ticks(HZ_40MHZ, 600).unwrap();
    let long = pulse_ticks(HZ_40MHZ, 700).unwrap();
    assert!(short <= long);
}

#[test]
fn pulse_ticks_rejects_overlong_pulse() {
    // 20_000 ns at 2 GHz is 40_000 ticks: more than the 15-bit counter holds.
    assert_eq!(
        pulse_ticks(2_000_000_000, 20_000),
        Err(HardwareConfigError::PulseTooLong)
    );
}

#[test]
fn pulse_new_with_duration() {
    assert_eq!(
        Pulse::new_with_duration(HZ_40MHZ, PinState::High, 350),
        Ok(pulse(PinState::High, 14))
    );
    assert_eq!(
        Pulse::new_with_duration(2_000_000_000, PinState::Low, 20_000),
        Err(HardwareConfigError::PulseTooLong)
    );
}

#[test]
fn new_calibrates_all_four_pulses() {
    let d = WS2812RMT::new(HZ_40MHZ);
    assert_eq!(d.t0h, pulse(PinState::High, 14));
    assert_eq!(d.t0l, pulse(PinState::Low, 32));
    assert_eq!(d.t1h, pulse(PinState::High, 28));
    assert_eq!(d.t1l, pulse(PinState::Low, 24));
}

#[test]
fn reset_signal_is_24_idle_slots() {
    let s = reset_signal();
    assert_eq!(s.len(), 24);
    for pair in s {
        assert_eq!(pair, (pulse(PinState::Low, 0), pulse(PinState::Low, 0)));
    }
}

#[test]
fn set_pixel_red_50() {
    // (50,0,0) packs to 0x003200: bits 13, 12 and 9 are set, so counting from
    // the first emitted pair (bit 23) the 1-pairs sit at positions 10, 11, 14.
    let d = WS2812RMT::new(HZ_40MHZ);
    let s = d.set_pixel(Color::new(50, 0, 0));
    assert_eq!(s.len(), 24);
    for (k, pair) in s.iter().enumerate() {
        if k == 10 || k == 11 || k == 14 {
            assert_eq!(*pair, (d.t1h, d.t1l));
        } else {
            assert_eq!(*pair, (d.t0h, d.t0l));
        }
    }
}

#[test]
fn set_pixel_green_50() {
    // (0,50,0) packs to 0x320000: the top byte is 0b00110010, the low 16 bits
    // are zero.
    let d = WS2812RMT::new(HZ_40MHZ);
    let s = d.set_pixel(Color::new(0, 50, 0));
    assert_eq!(s.len(), 24);
    for (k, pair) in s.iter().enumerate() {
        if k == 2 || k == 3 || k == 6 {
            assert_eq!(*pair, (d.t1h, d.t1l));
        } else {
            assert_eq!(*pair, (d.t0h, d.t0l));
        }
    }
}

#[test]
fn set_pixel_black_is_all_zero_pairs() {
    let d = WS2812RMT::new(HZ_40MHZ);
    let s = d.set_pixel(Color::new(0, 0, 0));
    assert_eq!(s.len(), 24);
    for pair in s {
        assert_eq!(pair, (d.t0h, d.t0l));
    }
}

#[test]
fn set_pixel_white_is_all_one_pairs() {
    let d = WS2812RMT::new(HZ_40MHZ);
    let s = d.set_pixel(Color::new(255, 255, 255));
    assert_eq!(s.len(), 24);
    for pair in s {
        assert_eq!(pair, (d.t1h, d.t1l));
    }
}

#[test]
fn set_pixel_twice_is_bit_identical() {
    let d = WS2812RMT::new(HZ_40MHZ);
    let first = d.set_pixel(Color::new(17, 113, 250));
    let second = d.set_pixel(Color::new(17, 113, 250));
    assert_eq!(first, second);
}

#[test]
fn set_pixel_msb_first_ordering() {
    // Only bit 23 set: green = 128, everything else 0. The very first pair,
    // and no other, is the 1-pair.
    let d = WS2812RMT::new(HZ_40MHZ);
    let s = d.set_pixel(Color::new(0, 128, 0));
    assert_eq!(s[0], (d.t1h, d.t1l));
    for k in 1..24 {
        assert_eq!(s[k], (d.t0h, d.t0l));
    }
    // Only bit 0 set: blue = 1. The very last pair, and no other, is the
    // 1-pair.
    let s = d.set_pixel(Color::new(0, 0, 1));
    assert_eq!(s[23], (d.t1h, d.t1l));
    for k in 0..23 {
        assert_eq!(s[k], (d.t0h, d.t0l));
    }
}

#[test]
fn config_keeps_credentials() {
    let c = Config::new("net", "passphrase");
    assert_eq!(c.ssid, "net");
    assert_eq!(c.psk, "passphrase");
}
