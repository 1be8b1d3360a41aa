//! Tests for the rgb_sequencer library.

#![allow(dead_code)]

use rgb_sequencer::{Rgb, RgbLed, TimeDuration, TimeInstant, TimeSource};

/// Mock duration type for testing (wraps milliseconds).
#[derive(Debug, Clone, Copy, PartialEq, Eq, PartialOrd, Ord)]
pub struct TestDuration(pub u64);

impl TimeDuration for TestDuration {
    const ZERO: Self = TestDuration(0);

    fn as_millis(&self) -> u64 {
        self.0
    }

    fn from_millis(millis: u64) -> Self {
        TestDuration(millis)
    }

    fn saturating_sub(self, other: Self) -> Self {
        TestDuration(self.0.saturating_sub(other.0))
    }
}

/// Mock instant type for testing.
#[derive(Debug, Clone, Copy, PartialEq, Eq, PartialOrd, Ord)]
pub struct TestInstant(pub u64);

impl TimeInstant for TestInstant {
    type Duration = TestDuration;

    fn duration_since(&self, earlier: Self) -> Self::Duration {
        TestDuration(self.0 - earlier.0)
    }

    fn checked_add(self, duration: Self::Duration) -> Option<Self> {
        Some(TestInstant(self.0 + duration.0))
    }

    fn checked_sub(self, duration: Self::Duration) -> Option<Self> {
        self.0.checked_sub(duration.0).map(TestInstant)
    }
}

/// Mock LED that records all color changes.
pub struct MockLed {
    current_color: Rgb,
    color_history: Vec<Rgb>,
}

impl MockLed {
    pub fn new() -> Self {
        Self {
            current_color: Rgb::new(0, 0, 0),
            color_history: Vec::new(),
        }
    }

    pub fn get_last_color(&self) -> Rgb {
        self.current_color
    }

    pub fn color_history(&self) -> &[Rgb] {
        &self.color_history
    }
}

impl RgbLed for MockLed {
    fn set_color(&mut self, color: Rgb) {
        self.current_color = color;
        self.color_history.push(color);
    }
}

/// Mock time source with controllable time advancement.
pub struct MockTimeSource {
    current_time: core::cell::Cell<TestInstant>,
}

impl MockTimeSource {
    pub fn new() -> Self {
        Self {
            current_time: core::cell::Cell::new(TestInstant(0)),
        }
    }

    pub fn advance(&self, duration: TestDuration) {
        let current = self.current_time.get();
        self.current_time.set(TestInstant(current.0 + duration.0));
    }

    pub fn set_time(&self, time: TestInstant) {
        self.current_time.set(time);
    }
}

impl TimeSource<TestInstant> for MockTimeSource {
    fn now(&self) -> TestInstant {
        self.current_time.get()
    }
}

pub const FULL: u16 = 65535;
pub const BLACK: Rgb = Rgb { r: 0, g: 0, b: 0 };
pub const RED: Rgb = Rgb { r: FULL, g: 0, b: 0 };
pub const GREEN: Rgb = Rgb { r: 0, g: FULL, b: 0 };
pub const BLUE: Rgb = Rgb { r: 0, g: 0, b: FULL };
pub const WHITE: Rgb = Rgb { r: FULL, g: FULL, b: FULL };
pub const YELLOW: Rgb = Rgb { r: FULL, g: FULL, b: 0 };

/// Default per-channel tolerance used by [`colors_equal`], ~0.2% of full scale.
pub const DEFAULT_TEST_EPSILON: u16 = 128;

/// Tolerance for comparisons that pass through brightness scaling.
pub const BRIGHTNESS_EPSILON: u16 = 256;

/// Compare two colors with the default tolerance.
pub fn colors_equal(a: Rgb, b: Rgb) -> bool {
    a.approx_eq(b, DEFAULT_TEST_EPSILON)
}

/// Compare two colors with a custom tolerance.
pub fn colors_equal_epsilon(a: Rgb, b: Rgb, epsilon: u16) -> bool {
    a.approx_eq(b, epsilon)
}

/// Converts a 0.0-1.0 fraction to a channel value.
pub fn channel(fraction: f32) -> u16 {
    (fraction * 65535.0) as u16
}

/// Builds a color from 0.0-1.0 fractions.
pub fn rgb_f(r: f32, g: f32, b: f32) -> Rgb {
    Rgb::new(channel(r), channel(g), channel(b))
}

/// Q0.15 interpolation factor from a 0.0-1.0 fraction.
pub fn factor(fraction: f32) -> u16 {
    (fraction * 32768.0) as u16
}


#[test]
fn from_u8_round_trips() {
    for v in 0..=255u8 {
        let c = Rgb::from_u8(v, v, v);
        assert_eq!(c.to_u8(), (v, v, v), "round trip failed for {v}");
    }
    assert_eq!(Rgb::from_u8(255, 255, 255), Rgb::new(65535, 65535, 65535));
    assert_eq!(Rgb::from_u8(0, 0, 0), Rgb::new(0, 0, 0));
}

#[test]
fn lerp_hits_both_endpoints() {
    let a = Rgb::new(0, 65535, 12345);
    let b = Rgb::new(65535, 0, 54321);
    assert_eq!(a.lerp(b, 0), a);
    assert_eq!(a.lerp(b, 32768), b);
}

#[test]
fn lerp_reaches_the_target_in_both_directions() {
    for (from, to) in [(0u16, 65535u16), (65535, 0), (30000, 40000), (40000, 30000)] {
        let a = Rgb::new(from, from, from);
        let b = Rgb::new(to, to, to);
        assert_eq!(a.lerp(b, 32768), b, "{from} -> {to}");
        assert_eq!(a.lerp(b, 0), a, "{from} -> {to}");
    }
}

#[test]
fn scale_extremes() {
    let c = Rgb::new(65535, 32768, 100);
    assert_eq!(c.scale(65535), c);
    assert_eq!(c.scale(0), Rgb::default());
}

#[test]
fn scale_by_full_is_lossless_across_the_range() {
    for v in [0u16, 1, 255, 12345, 32768, 65534, 65535] {
        assert_eq!(
            Rgb::new(v, v, v).scale(65535),
            Rgb::new(v, v, v),
            "value {v}"
        );
    }
}

#[test]
fn scale_resolves_the_bottom_of_its_range() {
    for f in 1u16..=8 {
        assert_eq!(WHITE.scale(f), Rgb::new(f, f, f), "factor {f}");
    }
}

#[test]
fn approx_eq_uses_per_channel_distance() {
    let a = Rgb::new(1000, 1000, 1000);
    assert!(a.approx_eq(Rgb::new(1050, 1000, 1000), 64));
    assert!(!a.approx_eq(Rgb::new(1064, 1000, 1000), 64));
    assert!(!a.approx_eq(Rgb::new(1000, 1000, 60000), 64));
}

#[test]
fn default_is_black() {
    assert_eq!(Rgb::default(), Rgb::new(0, 0, 0));
}

#[test]
fn lerp_midpoint_is_exact_for_even_spans() {
    let a = Rgb::new(0, 1000, 60000);
    let b = Rgb::new(65534, 3000, 20000);
    assert_eq!(a.lerp(b, 16384), Rgb::new(32767, 2000, 40000));
}

#[test]
fn scale_rounds_to_nearest() {
    // 1000 * 32768 / 65535 = 500.0076..., 1 * 32768 / 65535 = 0.50001 rounds up.
    assert_eq!(Rgb::new(1000, 1, 0).scale(32768), Rgb::new(500, 1, 0));
    // 3 * 10000 / 65535 = 0.4577 rounds down.
    assert_eq!(Rgb::new(3, 0, 0).scale(10000), Rgb::new(0, 0, 0));
}

#[test]
fn to_u8_truncates_the_low_byte() {
    assert_eq!(Rgb::new(0x12ff, 0x00ff, 0xff00).to_u8(), (0x12, 0x00, 0xff));
}

#[test]
fn library_color_helpers_match_their_channels() {
    assert_eq!(rgb_sequencer::black(), BLACK);
    assert_eq!(rgb_sequencer::red(), RED);
    assert_eq!(rgb_sequencer::green(), GREEN);
    assert_eq!(rgb_sequencer::blue(), BLUE);
    assert_eq!(rgb_sequencer::white(), WHITE);
    assert_eq!(rgb_sequencer::yellow(), YELLOW);
    assert_eq!(rgb_sequencer::cyan(), Rgb::new(0, FULL, FULL));
    assert_eq!(rgb_sequencer::magenta(), Rgb::new(FULL, 0, FULL));
}
