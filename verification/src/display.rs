//! What the Kraken's panel is asked to show, as a typed description.
//!
//! A [`DisplayPreset`] is a description, not pixels. It carries no resolution,
//! no pixel format and no protocol byte. A preset naming a static image carries
//! its path and nothing more.

use vstd::prelude::*;

use crate::lighting::{Brightness, LightingError, Rgb};
use crate::measure::Measured;
use crate::paths;
use crate::telemetry::{Reading, TelemetrySnapshot};
use crate::text;

verus! {

/// How often the daemon redraws a preset that reads telemetry: the rate the
/// collectors sample at.
pub const FRAME_INTERVAL_MS: u64 = 1_000;

/// Widest image this product will decode, per side.
pub const MAX_IMAGE_DIMENSION: u32 = 8192;

/// Longest path a preset may carry, so a peer cannot grow a frame without end.
pub const MAX_IMAGE_PATH_BYTES: usize = 4096;

/// Most frames this product will hold in memory for one animation.
pub const MAX_ANIMATION_FRAMES: usize = 120;

/// Shortest a frame may stay on the glass, in milliseconds: what one transfer
/// costs.
pub const MIN_FRAME_DELAY_MS: u64 = 80;

/// What a frame declaring no delay at all is given.
pub const DEFAULT_FRAME_DELAY_MS: u64 = 100;

/// What kind of picture the panel shows.
#[derive(Debug, Clone, Copy, PartialEq, Eq, PartialOrd, Ord, Hash, Structural)]
pub enum DisplayMode {
    /// Two metrics, each with an arc, a value and a label.
    DualInfographic,
    /// One metric, on one arc, at the largest size the panel can hold.
    SingleReading,
    /// The background color across the whole panel, and nothing else.
    Solid,
    /// A picture the operator chose, scaled to the panel.
    Image,
}

impl DisplayMode {
    /// Every variant, in the order they are declared and offered.
    pub fn all() -> (all: [Self; 4])
        ensures
            all@ == seq![Self::DualInfographic, Self::SingleReading, Self::Solid, Self::Image],
    {
        let all: [Self; 4] = [Self::DualInfographic, Self::SingleReading, Self::Solid, Self::Image];
        assert(all@ =~= seq![Self::DualInfographic, Self::SingleReading, Self::Solid, Self::Image]);
        all
    }

    /// The stable identifier this variant travels and is stored under.
    pub open spec fn key_text(self) -> Seq<char> {
        match self {
            Self::DualInfographic => "dual_infographic"@,
            Self::SingleReading => "single_reading"@,
            Self::Solid => "solid"@,
            Self::Image => "image"@,
        }
    }

    /// The stable identifier this variant travels and is stored under.
    pub fn key(self) -> (key: &'static str)
        ensures
            key@ == self.key_text(),
            self is DualInfographic ==> key@ == "dual_infographic"@,
            self is SingleReading ==> key@ == "single_reading"@,
            self is Solid ==> key@ == "solid"@,
            self is Image ==> key@ == "image"@,
    {
        match self {
            Self::DualInfographic => "dual_infographic",
            Self::SingleReading => "single_reading",
            Self::Solid => "solid",
            Self::Image => "image",
        }
    }

    /// The words a control puts on screen for this variant.
    pub open spec fn label_text(self) -> Seq<char> {
        match self {
            Self::DualInfographic => "Dual infographic"@,
            Self::SingleReading => "Single reading"@,
            Self::Solid => "Solid color"@,
            Self::Image => "Image or GIF"@,
        }
    }

    /// The words a control puts on screen for this variant.
    pub fn label(self) -> (label: &'static str)
        ensures
            label@ == self.label_text(),
            self is DualInfographic ==> label@ == "Dual infographic"@,
            self is SingleReading ==> label@ == "Single reading"@,
            self is Solid ==> label@ == "Solid color"@,
            self is Image ==> label@ == "Image or GIF"@,
    {
        match self {
            Self::DualInfographic => "Dual infographic",
            Self::SingleReading => "Single reading",
            Self::Solid => "Solid color",
            Self::Image => "Image or GIF",
        }
    }

    /// No two variants claim one key.
    pub proof fn keys_are_distinct(a: Self, b: Self)
        requires
            a.key_text() == b.key_text(),
        ensures
            a == b,
    {
        reveal_strlit("dual_infographic");
        reveal_strlit("single_reading");
        reveal_strlit("solid");
        reveal_strlit("image");
        assert("dual_infographic"@.len() == 16);
        assert("single_reading"@.len() == 14);
        assert("solid"@.len() == 5);
        assert("image"@.len() == 5);
        assert("solid"@[0] != "image"@[0]);
    }

    /// The variant a stable key names, or nothing at all.
    pub fn from_key(key: &str) -> (found: Option<Self>)
        ensures
            forall|variant: Self|
                (found == Some(variant)) <==> key@ == #[trigger] variant.key_text(),
    {
        proof {
            assert forall|a: Self, b: Self| #[trigger] a.key_text() == #[trigger] b.key_text() implies a
                == b by {
                Self::keys_are_distinct(a, b);
            }
        }
        if crate::text::same(key, "dual_infographic") {
            assert(Self::DualInfographic.key_text() == key@);
            Some(Self::DualInfographic)
        } else if crate::text::same(key, "single_reading") {
            assert(Self::SingleReading.key_text() == key@);
            Some(Self::SingleReading)
        } else if crate::text::same(key, "solid") {
            assert(Self::Solid.key_text() == key@);
            Some(Self::Solid)
        } else if crate::text::same(key, "image") {
            assert(Self::Image.key_text() == key@);
            Some(Self::Image)
        } else {
            None
        }
    }
}

impl DisplayMode {
    /// How many of the two reading slots this mode actually draws.
    pub open spec fn slots(self) -> nat {
        match self {
            Self::DualInfographic => 2,
            Self::SingleReading => 1,
            Self::Solid => 0,
            Self::Image => 0,
        }
    }

    /// How many of the two reading slots this mode actually draws.
    pub fn reading_slots(self) -> (slots: usize)
        ensures
            slots == self.slots(),
            slots <= 2,
            slots == 2 <==> self is DualInfographic,
            slots == 1 <==> self is SingleReading,
            slots == 0 <==> self is Solid || self is Image,
    {
        match self {
            Self::DualInfographic => 2,
            Self::SingleReading => 1,
            Self::Solid => 0,
            Self::Image => 0,
        }
    }

    /// Whether this mode draws the reading slots at all.
    pub fn uses_readings(self) -> (uses: bool)
        ensures
            uses == (self.slots() > 0),
            uses <==> self is DualInfographic || self is SingleReading,
    {
        self.reading_slots() > 0
    }

    /// Whether this mode needs an image path before it can render.
    pub fn uses_image(self) -> (uses: bool)
        ensures
            uses == (self is Image),
    {
        matches!(self, Self::Image)
    }

    /// Whether a band shades between its slot's two colors: only in the layout
    /// that gives one metric the whole ring.
    pub fn gradates_band(self) -> (gradates: bool)
        ensures
            gradates == (self is SingleReading),
    {
        matches!(self, Self::SingleReading)
    }
}

/// A telemetry value a reading slot can be pointed at.
///
/// Every entry resolves to a field of [`TelemetrySnapshot`] that a collector
/// fills.
#[derive(Debug, Clone, Copy, PartialEq, Eq, PartialOrd, Ord, Hash, Structural)]
pub enum LcdMetric {
    CpuTemperature,
    GpuTemperature,
    LiquidTemperature,
    CpuLoad,
    GpuLoad,
}

impl LcdMetric {
    /// Every variant, in the order they are declared and offered.
    pub fn all() -> (all: [Self; 5])
        ensures
            all@ == seq![Self::CpuTemperature, Self::GpuTemperature, Self::LiquidTemperature, Self::CpuLoad, Self::GpuLoad],
    {
        let all: [Self; 5] = [Self::CpuTemperature, Self::GpuTemperature, Self::LiquidTemperature, Self::CpuLoad, Self::GpuLoad];
        assert(all@ =~= seq![Self::CpuTemperature, Self::GpuTemperature, Self::LiquidTemperature, Self::CpuLoad, Self::GpuLoad]);
        all
    }

    /// The stable identifier this variant travels and is stored under.
    pub open spec fn key_text(self) -> Seq<char> {
        match self {
            Self::CpuTemperature => "cpu_temperature"@,
            Self::GpuTemperature => "gpu_temperature"@,
            Self::LiquidTemperature => "liquid_temperature"@,
            Self::CpuLoad => "cpu_load"@,
            Self::GpuLoad => "gpu_load"@,
        }
    }

    /// The stable identifier this variant travels and is stored under.
    pub fn key(self) -> (key: &'static str)
        ensures
            key@ == self.key_text(),
            self is CpuTemperature ==> key@ == "cpu_temperature"@,
            self is GpuTemperature ==> key@ == "gpu_temperature"@,
            self is LiquidTemperature ==> key@ == "liquid_temperature"@,
            self is CpuLoad ==> key@ == "cpu_load"@,
            self is GpuLoad ==> key@ == "gpu_load"@,
    {
        match self {
            Self::CpuTemperature => "cpu_temperature",
            Self::GpuTemperature => "gpu_temperature",
            Self::LiquidTemperature => "liquid_temperature",
            Self::CpuLoad => "cpu_load",
            Self::GpuLoad => "gpu_load",
        }
    }

    /// The words a control puts on screen for this variant.
    pub open spec fn label_text(self) -> Seq<char> {
        match self {
            Self::CpuTemperature => "CPU temperature"@,
            Self::GpuTemperature => "GPU temperature"@,
            Self::LiquidTemperature => "Liquid temperature"@,
            Self::CpuLoad => "CPU load"@,
            Self::GpuLoad => "GPU load"@,
        }
    }

    /// The words a control puts on screen for this variant.
    pub fn label(self) -> (label: &'static str)
        ensures
            label@ == self.label_text(),
            self is CpuTemperature ==> label@ == "CPU temperature"@,
            self is GpuTemperature ==> label@ == "GPU temperature"@,
            self is LiquidTemperature ==> label@ == "Liquid temperature"@,
            self is CpuLoad ==> label@ == "CPU load"@,
            self is GpuLoad ==> label@ == "GPU load"@,
    {
        match self {
            Self::CpuTemperature => "CPU temperature",
            Self::GpuTemperature => "GPU temperature",
            Self::LiquidTemperature => "Liquid temperature",
            Self::CpuLoad => "CPU load",
            Self::GpuLoad => "GPU load",
        }
    }

    /// No two variants claim one key.
    pub proof fn keys_are_distinct(a: Self, b: Self)
        requires
            a.key_text() == b.key_text(),
        ensures
            a == b,
    {
        reveal_strlit("cpu_temperature");
        reveal_strlit("gpu_temperature");
        reveal_strlit("liquid_temperature");
        reveal_strlit("cpu_load");
        reveal_strlit("gpu_load");
        assert("cpu_temperature"@.len() == 15);
        assert("gpu_temperature"@.len() == 15);
        assert("liquid_temperature"@.len() == 18);
        assert("cpu_load"@.len() == 8);
        assert("gpu_load"@.len() == 8);
        assert("cpu_temperature"@[0] != "gpu_temperature"@[0]);
        assert("cpu_load"@[0] != "gpu_load"@[0]);
    }

    /// The variant a stable key names, or nothing at all.
    pub fn from_key(key: &str) -> (found: Option<Self>)
        ensures
            forall|variant: Self|
                (found == Some(variant)) <==> key@ == #[trigger] variant.key_text(),
    {
        proof {
            assert forall|a: Self, b: Self| #[trigger] a.key_text() == #[trigger] b.key_text() implies a
                == b by {
                Self::keys_are_distinct(a, b);
            }
        }
        if crate::text::same(key, "cpu_temperature") {
            assert(Self::CpuTemperature.key_text() == key@);
            Some(Self::CpuTemperature)
        } else if crate::text::same(key, "gpu_temperature") {
            assert(Self::GpuTemperature.key_text() == key@);
            Some(Self::GpuTemperature)
        } else if crate::text::same(key, "liquid_temperature") {
            assert(Self::LiquidTemperature.key_text() == key@);
            Some(Self::LiquidTemperature)
        } else if crate::text::same(key, "cpu_load") {
            assert(Self::CpuLoad.key_text() == key@);
            Some(Self::CpuLoad)
        } else if crate::text::same(key, "gpu_load") {
            assert(Self::GpuLoad.key_text() == key@);
            Some(Self::GpuLoad)
        } else {
            None
        }
    }
}

/// Whether a sampled value is a reading's own: the value it holds when that is a
/// finite number, and nothing otherwise.
pub open spec fn shows_reading(sampled: Option<Measured>, reading: Reading<Measured>) -> bool {
    match reading {
        Reading::Valid { value } => sampled == if value is PositiveInfinity || value
            is NegativeInfinity || value is NotANumber {
            None
        } else {
            Some(value)
        },
        Reading::Unavailable { .. } => sampled is None,
    }
}

/// The value at which every metric's arc reaches a full sweep, in thousandths.
pub const FULL_SCALE_THOUSANDTHS: i32 = 100_000;

impl LcdMetric {
    /// The short caption drawn on the panel itself.
    pub open spec fn caption_text(self) -> Seq<char> {
        match self {
            Self::CpuTemperature => "CPU"@,
            Self::CpuLoad => "CPU"@,
            Self::GpuTemperature => "GPU"@,
            Self::GpuLoad => "GPU"@,
            Self::LiquidTemperature => "LIQUID"@,
        }
    }

    /// The short caption drawn on the panel itself.
    pub fn caption(self) -> (caption: &'static str)
        ensures
            caption@ == self.caption_text(),
            self is CpuTemperature ==> caption@ == "CPU"@,
            self is CpuLoad ==> caption@ == "CPU"@,
            self is GpuTemperature ==> caption@ == "GPU"@,
            self is GpuLoad ==> caption@ == "GPU"@,
            self is LiquidTemperature ==> caption@ == "LIQUID"@,
    {
        match self {
            Self::CpuTemperature => "CPU",
            Self::CpuLoad => "CPU",
            Self::GpuTemperature => "GPU",
            Self::GpuLoad => "GPU",
            Self::LiquidTemperature => "LIQUID",
        }
    }

    pub open spec fn unit_text(self) -> Seq<char> {
        match self {
            Self::CpuTemperature => "\u{b0}"@,
            Self::GpuTemperature => "\u{b0}"@,
            Self::LiquidTemperature => "\u{b0}"@,
            Self::CpuLoad => "%"@,
            Self::GpuLoad => "%"@,
        }
    }

    pub fn unit(self) -> (unit: &'static str)
        ensures
            unit@ == self.unit_text(),
            self is CpuTemperature ==> unit@ == "\u{b0}"@,
            self is GpuTemperature ==> unit@ == "\u{b0}"@,
            self is LiquidTemperature ==> unit@ == "\u{b0}"@,
            self is CpuLoad ==> unit@ == "%"@,
            self is GpuLoad ==> unit@ == "%"@,
    {
        match self {
            Self::CpuTemperature => "\u{b0}",
            Self::GpuTemperature => "\u{b0}",
            Self::LiquidTemperature => "\u{b0}",
            Self::CpuLoad => "%",
            Self::GpuLoad => "%",
        }
    }

    /// Value at which this metric's arc reaches a full sweep.
    ///
    /// Temperatures use 100 degrees rather than the liquid failsafe at 60, so a
    /// CPU and a coolant reading drawn side by side share one scale.
    pub fn full_scale(self) -> (scale: Measured)
        ensures
            scale == (Measured::Finite { thousandths: FULL_SCALE_THOUSANDTHS }),
    {
        Measured::Finite { thousandths: FULL_SCALE_THOUSANDTHS }
    }

    /// What a snapshot holds for this metric, when it is a finite number.
    pub open spec fn sampled(self, telemetry: TelemetrySnapshot) -> Option<Measured> {
        let held = match self {
            Self::CpuTemperature => telemetry.system.cpu_temperature_c.held(),
            Self::GpuTemperature => telemetry.gpu.temperature_c.held(),
            Self::LiquidTemperature => telemetry.kraken.liquid_temperature_c.held(),
            Self::CpuLoad => telemetry.system.cpu_load_percent.held(),
            Self::GpuLoad => telemetry.gpu.load_percent.held(),
        };
        match held {
            Some(value) => if value.finite() {
                Some(value)
            } else {
                None
            },
            None => None,
        }
    }

    /// Read this metric out of a snapshot.
    ///
    /// A metric whose collector reported nothing produces a sample with no
    /// value, rather than a zero that looks like a reading.
    pub fn sample(self, telemetry: &TelemetrySnapshot) -> (sample: MetricSample)
        ensures
            sample == (MetricSample { metric: self, value: self.sampled(*telemetry) }),
            self is CpuTemperature ==> shows_reading(sample.value, telemetry.system.cpu_temperature_c),
            self is GpuTemperature ==> shows_reading(sample.value, telemetry.gpu.temperature_c),
            self is LiquidTemperature ==> shows_reading(sample.value, telemetry.kraken.liquid_temperature_c),
            self is CpuLoad ==> shows_reading(sample.value, telemetry.system.cpu_load_percent),
            self is GpuLoad ==> shows_reading(sample.value, telemetry.gpu.load_percent),
    {
        let held: Option<Measured> = match self {
            Self::CpuTemperature => telemetry.system.cpu_temperature_c.copied(),
            Self::GpuTemperature => telemetry.gpu.temperature_c.copied(),
            Self::LiquidTemperature => telemetry.kraken.liquid_temperature_c.copied(),
            Self::CpuLoad => telemetry.system.cpu_load_percent.copied(),
            Self::GpuLoad => telemetry.gpu.load_percent.copied(),
        };
        let value: Option<Measured> = match held {
            Some(value) => if value.is_finite() {
                Some(value)
            } else {
                None
            },
            None => None,
        };
        MetricSample { metric: self, value }
    }
}

/// One metric as the panel is about to draw it.
#[derive(Debug, Clone, Copy, PartialEq)]
pub struct MetricSample {
    pub metric: LcdMetric,
    /// `None` when the collector reported the metric unavailable.
    pub value: Option<Measured>,
}

/// An integer in decimal, with a sign when it is negative.
pub open spec fn signed_text(value: int) -> Seq<char> {
    if value < 0 {
        "-"@ + text::decimal((-value) as nat)
    } else {
        text::decimal(value as nat)
    }
}

impl MetricSample {
    /// A sample nothing could be read for.
    pub fn unavailable(metric: LcdMetric) -> (sample: Self)
        ensures
            sample == (Self { metric, value: None }),
    {
        Self { metric, value: None }
    }

    /// The digits drawn on the panel, or the unavailable marker.
    ///
    /// Temperatures and loads are both drawn as whole numbers.
    pub fn text(&self) -> (digits: String)
        ensures
            digits@ == match self.value {
                Some(value) => signed_text(value.nearest()),
                None => "--"@,
            },
    {
        match self.value {
            Some(value) => {
                let nearest: i32 = value.rounded();
                let mut digits: String = String::new();
                if nearest < 0 {
                    digits.append("-");
                    text::push_decimal(&mut digits, (0 - nearest as i64) as u64);
                } else {
                    text::push_decimal(&mut digits, nearest as u64);
                }
                assert(digits@ =~= signed_text(value.nearest()));
                digits
            },
            None => "--".to_owned(),
        }
    }

    /// How far around its arc this sample sits, from nothing to one full
    /// sweep.
    ///
    /// `None` keeps the arc in its neutral state rather than collapsing it to
    /// zero, which would be indistinguishable from a real reading of zero.
    pub fn fraction(&self) -> (share: Option<Measured>)
        ensures
            share == match self.value {
                Some(value) => Some(value.hundredth()),
                None => None,
            },
    {
        match self.value {
            Some(value) => Some(value.share_of_hundred()),
            None => None,
        }
    }
}

/// How the picture is turned before it reaches the panel.
#[derive(Debug, Clone, Copy, PartialEq, Eq, PartialOrd, Ord, Hash, Structural)]
pub enum Orientation {
    Deg0,
    Deg90,
    Deg180,
    Deg270,
}

/// Smallest turn the panel accepts, in degrees.
pub const INCREMENT_DEGREES: u16 = 90;

impl Orientation {
    pub fn all() -> (all: [Self; 4])
        ensures
            all@ == seq![Self::Deg0, Self::Deg90, Self::Deg180, Self::Deg270],
    {
        let all: [Self; 4] = [Self::Deg0, Self::Deg90, Self::Deg180, Self::Deg270];
        assert(all@ =~= seq![Self::Deg0, Self::Deg90, Self::Deg180, Self::Deg270]);
        all
    }

    /// The turn, in degrees clockwise.
    pub open spec fn turn(self) -> u16 {
        match self {
            Self::Deg0 => 0,
            Self::Deg90 => 90,
            Self::Deg180 => 180,
            Self::Deg270 => 270,
        }
    }

    pub fn degrees(self) -> (degrees: u16)
        ensures
            degrees == self.turn(),
            self is Deg0 ==> degrees == 0,
            self is Deg90 ==> degrees == 90,
            self is Deg180 ==> degrees == 180,
            self is Deg270 ==> degrees == 270,
    {
        match self {
            Self::Deg0 => 0,
            Self::Deg90 => 90,
            Self::Deg180 => 180,
            Self::Deg270 => 270,
        }
    }

    /// The value the display-control report carries, `0` through `3`.
    pub fn quarter_turns(self) -> (turns: u8)
        ensures
            turns * INCREMENT_DEGREES == self.turn(),
            turns <= 3,
            self is Deg0 ==> turns == 0,
            self is Deg90 ==> turns == 1,
            self is Deg180 ==> turns == 2,
            self is Deg270 ==> turns == 3,
    {
        (self.degrees() / INCREMENT_DEGREES) as u8
    }

    pub open spec fn label_text(self) -> Seq<char> {
        text::decimal(self.turn() as nat) + "\u{b0}"@
    }

    pub fn label(self) -> (label: String)
        ensures
            label@ == self.label_text(),
    {
        let mut label: String = String::new();
        text::push_decimal(&mut label, self.degrees() as u64);
        label.append("\u{b0}");
        assert(label@ =~= self.label_text());
        label
    }

    pub open spec fn next(self) -> Self {
        match self {
            Self::Deg0 => Self::Deg90,
            Self::Deg90 => Self::Deg180,
            Self::Deg180 => Self::Deg270,
            Self::Deg270 => Self::Deg0,
        }
    }

    /// The next orientation clockwise, which is what Rotate Display activates.
    pub fn rotated(self) -> (next: Self)
        ensures
            next == self.next(),
            self is Deg0 ==> next is Deg90,
            self is Deg90 ==> next is Deg180,
            self is Deg180 ==> next is Deg270,
            self is Deg270 ==> next is Deg0,
    {
        match self {
            Self::Deg0 => Self::Deg90,
            Self::Deg90 => Self::Deg180,
            Self::Deg180 => Self::Deg270,
            Self::Deg270 => Self::Deg0,
        }
    }
}

/// Every metric shows its own reading, when that holds a finite number, and
/// nothing when it does not.
pub proof fn every_metric_shows_its_own_reading(telemetry: TelemetrySnapshot)
    ensures
        match telemetry.system.cpu_temperature_c {
            Reading::Valid { value } => LcdMetric::CpuTemperature.sampled(telemetry) == if value
                is PositiveInfinity || value is NegativeInfinity || value is NotANumber {
                None
            } else {
                Some(value)
            },
            Reading::Unavailable { .. } => LcdMetric::CpuTemperature.sampled(telemetry) is None,
        },
        match telemetry.gpu.temperature_c {
            Reading::Valid { value } => LcdMetric::GpuTemperature.sampled(telemetry) == if value
                is PositiveInfinity || value is NegativeInfinity || value is NotANumber {
                None
            } else {
                Some(value)
            },
            Reading::Unavailable { .. } => LcdMetric::GpuTemperature.sampled(telemetry) is None,
        },
        match telemetry.kraken.liquid_temperature_c {
            Reading::Valid { value } => LcdMetric::LiquidTemperature.sampled(telemetry) == if value
                is PositiveInfinity || value is NegativeInfinity || value is NotANumber {
                None
            } else {
                Some(value)
            },
            Reading::Unavailable { .. } => LcdMetric::LiquidTemperature.sampled(telemetry) is None,
        },
        match telemetry.system.cpu_load_percent {
            Reading::Valid { value } => LcdMetric::CpuLoad.sampled(telemetry) == if value
                is PositiveInfinity || value is NegativeInfinity || value is NotANumber {
                None
            } else {
                Some(value)
            },
            Reading::Unavailable { .. } => LcdMetric::CpuLoad.sampled(telemetry) is None,
        },
        match telemetry.gpu.load_percent {
            Reading::Valid { value } => LcdMetric::GpuLoad.sampled(telemetry) == if value
                is PositiveInfinity || value is NegativeInfinity || value is NotANumber {
                None
            } else {
                Some(value)
            },
            Reading::Unavailable { .. } => LcdMetric::GpuLoad.sampled(telemetry) is None,
        },
{
}

/// What a metric shows depends on its own reading and on nothing else.
pub proof fn a_metric_depends_on_its_own_reading_only(
    one: TelemetrySnapshot,
    other: TelemetrySnapshot,
)
    ensures
        one.system.cpu_temperature_c == other.system.cpu_temperature_c ==> LcdMetric::CpuTemperature.sampled(one)
            == LcdMetric::CpuTemperature.sampled(other),
        one.gpu.temperature_c == other.gpu.temperature_c ==> LcdMetric::GpuTemperature.sampled(one)
            == LcdMetric::GpuTemperature.sampled(other),
        one.kraken.liquid_temperature_c == other.kraken.liquid_temperature_c ==> LcdMetric::LiquidTemperature.sampled(one)
            == LcdMetric::LiquidTemperature.sampled(other),
        one.system.cpu_load_percent == other.system.cpu_load_percent ==> LcdMetric::CpuLoad.sampled(one)
            == LcdMetric::CpuLoad.sampled(other),
        one.gpu.load_percent == other.gpu.load_percent ==> LcdMetric::GpuLoad.sampled(one)
            == LcdMetric::GpuLoad.sampled(other),
{
}

/// Each rotation adds one increment, and four of them come back to the start.
pub proof fn rotation_walks_the_increment(orientation: Orientation)
    ensures
        orientation.next().turn() == (orientation.turn() + INCREMENT_DEGREES) % 360,
        orientation.next().next().next().next() == orientation,
        orientation.turn() % INCREMENT_DEGREES == 0,
{
}

/// One metric slot of the infographic: what it shows and in which colors.
#[derive(Debug, Clone, Copy, PartialEq, Eq, Structural)]
pub struct ReadingSlot {
    pub metric: LcdMetric,
    /// Color the band starts on, at the foot of its sweep.
    pub reading: Rgb,
    /// Color the band reaches at the head of its sweep. `None` is a solid band.
    pub reading_end: Option<Rgb>,
    /// Color of the value and of the caption under it.
    pub text: Rgb,
}

impl ReadingSlot {
    /// The color the band ends on, which is where it starts when it is solid.
    pub fn band_end(&self) -> (color: Rgb)
        ensures
            color == match self.reading_end {
                Some(end) => end,
                None => self.reading,
            },
    {
        match self.reading_end {
            Some(end) => end,
            None => self.reading,
        }
    }
}

/// Everything the panel needs, with no pixel and no protocol byte in it.
#[derive(Debug, Clone, PartialEq, Eq)]
pub struct DisplayPreset {
    pub mode: DisplayMode,
    /// Reading 1 and Reading 2, in the order they are drawn.
    pub readings: [ReadingSlot; 2],
    pub background: Rgb,
    /// Accepted, never drawn, never written back: profiles stored before the
    /// product's name was taken off the glass still carry it.
    pub logo: Option<Rgb>,
    pub orientation: Orientation,
    pub brightness: Brightness,
    /// Path of a picture, set only when [`DisplayMode::Image`] is selected.
    pub image: Option<String>,
}

/// The reading slots a panel starts on.
pub open spec fn default_slots() -> Seq<ReadingSlot> {
    seq![
        ReadingSlot {
            metric: LcdMetric::CpuTemperature,
            reading: Rgb { r: 0x6B, g: 0x00, b: 0xDE },
            reading_end: Some(Rgb { r: 0xD6, g: 0x00, b: 0xBF }),
            text: Rgb { r: 0xFF, g: 0xFF, b: 0xFF },
        },
        ReadingSlot {
            metric: LcdMetric::GpuTemperature,
            reading: Rgb { r: 0xD6, g: 0x00, b: 0xBF },
            reading_end: Some(Rgb { r: 0x6B, g: 0x00, b: 0xDE }),
            text: Rgb { r: 0xFF, g: 0xFF, b: 0xFF },
        },
    ]
}

impl DisplayPreset {
    /// Whether the renderer can honor this preset.
    pub open spec fn valid(self) -> bool {
        self.mode is Image ==> (self.image matches Some(path) && path@.len() > 0 && text::byte_len(
            path@,
        ) <= MAX_IMAGE_PATH_BYTES)
    }

    /// Whether two presets ask for the same thing.
    pub open spec fn means(self, other: Self) -> bool {
        &&& self.mode == other.mode
        &&& self.readings@ == other.readings@
        &&& self.background == other.background
        &&& self.logo == other.logo
        &&& self.orientation == other.orientation
        &&& self.brightness@ == other.brightness@
        &&& match (self.image, other.image) {
            (Some(a), Some(b)) => crate::paths::are_same(a@, b@),
            (None, None) => true,
            _ => false,
        }
    }

    /// The preset a panel starts on: the dual infographic.
    pub fn default_infographic() -> (preset: Self)
        ensures
            preset.mode == DisplayMode::DualInfographic,
            preset.readings@ == default_slots(),
            preset.background == (Rgb { r: 0, g: 0, b: 0 }),
            preset.logo is None,
            preset.orientation == Orientation::Deg0,
            preset.brightness@ == 100,
            preset.image is None,
    {
        let readings: [ReadingSlot; 2] = [
            ReadingSlot {
                metric: LcdMetric::CpuTemperature,
                reading: Rgb::new(0x6B, 0x00, 0xDE),
                reading_end: Some(Rgb::new(0xD6, 0x00, 0xBF)),
                text: Rgb::new(0xFF, 0xFF, 0xFF),
            },
            ReadingSlot {
                metric: LcdMetric::GpuTemperature,
                reading: Rgb::new(0xD6, 0x00, 0xBF),
                reading_end: Some(Rgb::new(0x6B, 0x00, 0xDE)),
                text: Rgb::new(0xFF, 0xFF, 0xFF),
            },
        ];
        assert(readings@ =~= default_slots());
        Self {
            mode: DisplayMode::DualInfographic,
            readings,
            background: Rgb::black(),
            logo: None,
            orientation: Orientation::Deg0,
            brightness: Brightness::full(),
            image: None,
        }
    }

    /// A single-color field, which is the shape the transport probe sends.
    pub fn solid(color: Rgb) -> (preset: Self)
        ensures
            preset.mode == DisplayMode::Solid,
            preset.readings@ == default_slots(),
            preset.background == color,
            preset.logo is None,
            preset.orientation == Orientation::Deg0,
            preset.brightness@ == 100,
            preset.image is None,
    {
        let mut preset: Self = Self::default_infographic();
        preset.mode = DisplayMode::Solid;
        preset.background = color;
        preset
    }

    /// Refuse a preset the renderer could not honor.
    ///
    /// The colors and the brightness are already typed. What remains is the
    /// agreement between the mode and the image path, and the length of that
    /// path.
    pub fn validate(&self) -> (result: Result<(), DisplayError>)
        ensures
            result is Ok <==> self.valid(),
            !(self.mode is Image) ==> result is Ok,
            self.mode is Image && self.image is None ==> result is Err,
            self.mode is Image ==> (self.image matches Some(path) ==> (result is Ok <==> 1
                <= path@.len() && text::byte_len(path@) <= 4096)),
            result matches Err(error) ==> match self.image {
                Some(path) => if path@.len() == 0 {
                    error == DisplayError::ImagePathMissing
                } else {
                    error == (DisplayError::ImagePathTooLong {
                        bytes: text::byte_len(path@) as usize,
                        max_bytes: MAX_IMAGE_PATH_BYTES,
                    }) && text::byte_len(path@) <= usize::MAX
                },
                None => error == DisplayError::ImagePathMissing,
            },
    {
        if !self.mode.uses_image() {
            return Ok(());
        }
        match &self.image {
            None => Err(DisplayError::ImagePathMissing),
            Some(path) => {
                if path.as_str().is_empty() {
                    return Err(DisplayError::ImagePathMissing);
                }
                let bytes: usize = text::byte_count(path.as_str());
                if bytes > MAX_IMAGE_PATH_BYTES {
                    return Err(
                        DisplayError::ImagePathTooLong { bytes, max_bytes: MAX_IMAGE_PATH_BYTES },
                    );
                }
                Ok(())
            },
        }
    }

    /// Both reading slots resolved against one telemetry pass.
    pub fn samples(&self, telemetry: &TelemetrySnapshot) -> (samples: [MetricSample; 2])
        ensures
            forall|i: int|
                0 <= i < 2 ==> #[trigger] samples@[i] == (MetricSample {
                    metric: self.readings@[i].metric,
                    value: self.readings@[i].metric.sampled(*telemetry),
                }),
    {
        [self.readings[0].metric.sample(telemetry), self.readings[1].metric.sample(telemetry)]
    }

    /// Whether two presets ask for the same thing.
    pub fn same(&self, other: &Self) -> (same: bool)
        ensures
            same == self.means(*other),
            same ==> self.mode == other.mode && self.readings@ == other.readings@
                && self.background == other.background && self.logo == other.logo
                && self.orientation == other.orientation && self.brightness@ == other.brightness@,
            same ==> (self.image is Some <==> other.image is Some),
    {
        let readings: bool = same_slot(self.readings[0], other.readings[0]) && same_slot(
            self.readings[1],
            other.readings[1],
        );
        assert(readings == (self.readings@ =~= other.readings@)) by {
            if readings {
                assert(forall|i: int| 0 <= i < 2 ==> self.readings@[i] == other.readings@[i]);
            }
        }
        let image: bool = match (&self.image, &other.image) {
            (Some(a), Some(b)) => paths::same(a.as_str(), b.as_str()),
            (None, None) => true,
            _ => false,
        };
        self.mode == other.mode && readings && self.background == other.background && same_color(
            self.logo,
            other.logo,
        ) && self.orientation == other.orientation && self.brightness.same(other.brightness)
            && image
    }
}

fn same_color(a: Option<Rgb>, b: Option<Rgb>) -> (same: bool)
    ensures
        same == (a == b),
{
    match (a, b) {
        (Some(left), Some(right)) => left == right,
        (None, None) => true,
        _ => false,
    }
}

fn same_slot(a: ReadingSlot, b: ReadingSlot) -> (same: bool)
    ensures
        same == (a == b),
{
    a.metric == b.metric && a.reading == b.reading && same_color(a.reading_end, b.reading_end)
        && a.text == b.text
}

/// Every way a preset or a frame can be refused, naming the field at fault.
#[derive(Debug, Clone, PartialEq, Eq)]
pub enum DisplayError {
    Color {
        /// The editor field the operator was typing in.
        field: String,
        source: LightingError,
    },
    ImagePathMissing,
    ImagePathTooLong { bytes: usize, max_bytes: usize },
    ImageUndecodable { path: String, detail: String },
    ImageTooLarge { width: u32, height: u32, max: u32 },
    AnimationTooLong { max: usize },
    PanelUnknown,
}

impl DisplayError {
    /// The sentence shown for this refusal.
    pub open spec fn text(self) -> Seq<char> {
        match self {
            Self::Color { field, source } => field@ + ": "@ + source.text(),
            Self::ImagePathMissing => "Image mode needs a file to display."@,
            Self::ImagePathTooLong { bytes, max_bytes } => "Image path is "@ + text::decimal(
                bytes as nat,
            ) + " bytes, above the "@ + text::decimal(max_bytes as nat) + " byte limit."@,
            Self::ImageUndecodable { path, detail } => path@
                + " could not be decoded as an image: "@ + detail@,
            Self::ImageTooLarge { width, height, max } => "Image is "@ + text::decimal(width as nat)
                + "x"@ + text::decimal(height as nat) + ", above the "@ + text::decimal(max as nat)
                + "x"@ + text::decimal(max as nat) + " limit."@,
            Self::AnimationTooLong { max } => "The animation has more than "@ + text::decimal(
                max as nat,
            ) + " frames, which is more than this panel holds."@,
            Self::PanelUnknown =>
                "The panel geometry is not known, so no frame can be laid out."@,
        }
    }

    /// The sentence shown for this refusal.
    pub fn to_text(&self) -> (message: String)
        ensures
            message@ == self.text(),
    {
        let mut message: String = String::new();
        match self {
            Self::Color { field, source } => {
                message.append(field.as_str());
                message.append(": ");
                message.append(source.to_text().as_str());
            },
            Self::ImagePathMissing => {
                message.append("Image mode needs a file to display.");
            },
            Self::ImagePathTooLong { bytes, max_bytes } => {
                message.append("Image path is ");
                text::push_decimal(&mut message, *bytes as u64);
                message.append(" bytes, above the ");
                text::push_decimal(&mut message, *max_bytes as u64);
                message.append(" byte limit.");
            },
            Self::ImageUndecodable { path, detail } => {
                message.append(path.as_str());
                message.append(" could not be decoded as an image: ");
                message.append(detail.as_str());
            },
            Self::ImageTooLarge { width, height, max } => {
                message.append("Image is ");
                text::push_decimal(&mut message, *width as u64);
                message.append("x");
                text::push_decimal(&mut message, *height as u64);
                message.append(", above the ");
                text::push_decimal(&mut message, *max as u64);
                message.append("x");
                text::push_decimal(&mut message, *max as u64);
                message.append(" limit.");
            },
            Self::AnimationTooLong { max } => {
                message.append("The animation has more than ");
                text::push_decimal(&mut message, *max as u64);
                message.append(" frames, which is more than this panel holds.");
            },
            Self::PanelUnknown => {
                message.append("The panel geometry is not known, so no frame can be laid out.");
            },
        }
        assert(message@ =~= self.text());
        message
    }

    /// The editor field this error belongs to, when it belongs to one.
    pub fn field(&self) -> (field: Option<&str>)
        ensures
            match *self {
                Self::Color { field: named, .. } => field matches Some(field) && field@ == named@,
                Self::PanelUnknown => field is None,
                _ => field matches Some(field) && field@ == "image"@,
            },
    {
        match self {
            Self::Color { field, .. } => Some(field.as_str()),
            Self::PanelUnknown => None,
            _ => Some("image"),
        }
    }
}

/// A path left over from image mode does not block another mode.
pub proof fn a_left_over_path_blocks_no_other_mode(preset: DisplayPreset)
    requires
        !(preset.mode is Image),
    ensures
        preset.valid(),
{
}

/// A picture is shown only from a path that names something in at most 4096
/// bytes; the other modes need none.
pub proof fn a_preset_is_valid_for_its_mode_and_path(preset: DisplayPreset)
    ensures
        !(preset.mode is Image) ==> preset.valid(),
        preset.mode is Image && preset.image is None ==> !preset.valid(),
        preset.mode is Image ==> (preset.image matches Some(path) ==> (preset.valid() <==> 1
            <= path@.len() && text::byte_len(path@) <= 4096)),
{
}

/// Presets that agree in everything ask for the same, and one that differs in
/// anything does not; of the picture's path only the parts it names count.
pub proof fn presets_ask_for_the_same_when_they_agree(one: DisplayPreset, other: DisplayPreset)
    ensures
        one.means(one),
        one.means(other) ==> other.means(one),
        one.mode != other.mode ==> !one.means(other),
        one.readings@ != other.readings@ ==> !one.means(other),
        one.background != other.background ==> !one.means(other),
        one.logo != other.logo ==> !one.means(other),
        one.orientation != other.orientation ==> !one.means(other),
        one.brightness@ != other.brightness@ ==> !one.means(other),
        one.image is Some != other.image is Some ==> !one.means(other),
        one.means(other) ==> (one.image matches Some(a) ==> (other.image matches Some(b)
            ==> crate::paths::is_rooted(a@) == crate::paths::is_rooted(b@)
            && crate::paths::parts_from(a@, 0) == crate::paths::parts_from(b@, 0))),
        one.mode == other.mode && one.readings@ == other.readings@ && one.background
            == other.background && one.logo == other.logo && one.orientation == other.orientation
            && one.brightness@ == other.brightness@ && one.image == other.image ==> one.means(
            other,
        ),
{
}

/// The digits of a sample are those of the nearest whole number, away from zero
/// from the middle on, with a sign below zero.
pub proof fn a_sample_is_drawn_as_the_nearest_whole_number(thousandths: i32) -> (whole: int)
    requires
        -1_000_000 <= thousandths <= 1_000_000,
    ensures
        (Measured::Finite { thousandths }).nearest() == whole,
        -500 <= 1000 * whole - thousandths <= 500,
        whole >= 0 ==> signed_text(whole) == text::decimal(whole as nat),
        whole < 0 ==> signed_text(whole) == seq!['-'] + text::decimal((-whole) as nat),
{
    reveal_strlit("-");
    assert("-"@ =~= seq!['-']);
    crate::measure::a_number_is_rounded_to_the_nearest(thousandths);
    (Measured::Finite { thousandths }).nearest()
}

/// A refusal names every value it carries, each in its own place.
pub proof fn a_display_refusal_names_what_it_carries(error: DisplayError)
    ensures
        match error {
            DisplayError::Color { field, source } => text::tells(
                error.text(),
                seq![field@, source.text()],
            ),
            DisplayError::ImagePathTooLong { bytes, max_bytes } => text::tells(
                error.text(),
                seq![text::decimal(bytes as nat), text::decimal(max_bytes as nat)],
            ),
            DisplayError::ImageUndecodable { path, detail } => text::tells(
                error.text(),
                seq![path@, detail@],
            ),
            DisplayError::ImageTooLarge { width, height, max } => text::tells(
                error.text(),
                seq![text::decimal(width as nat), text::decimal(height as nat), text::decimal(max as nat), text::decimal(max as nat)],
            ),
            DisplayError::AnimationTooLong { max } => text::tells(
                error.text(),
                seq![text::decimal(max as nat)],
            ),
            _ => true,
        },
{
    match error {
        DisplayError::Color { field, source } => {
            let rest = Seq::<char>::empty();
            let parts = Seq::<Seq<char>>::empty();
            text::lemma_tells(": "@, source.text(), rest, parts);
            let rest = ": "@ + source.text() + rest;
            let parts = seq![source.text()] + parts;
            text::lemma_tells(Seq::<char>::empty(), field@, rest, parts);
            let rest = Seq::<char>::empty() + field@ + rest;
            let parts = seq![field@] + parts;
            assert(error.text() =~= rest);
            assert(parts =~= seq![field@, source.text()]);
        },
        DisplayError::ImagePathTooLong { bytes, max_bytes } => {
            let rest = " byte limit."@;
            let parts = Seq::<Seq<char>>::empty();
            text::lemma_tells(" bytes, above the "@, text::decimal(max_bytes as nat), rest, parts);
            let rest = " bytes, above the "@ + text::decimal(max_bytes as nat) + rest;
            let parts = seq![text::decimal(max_bytes as nat)] + parts;
            text::lemma_tells("Image path is "@, text::decimal(bytes as nat), rest, parts);
            let rest = "Image path is "@ + text::decimal(bytes as nat) + rest;
            let parts = seq![text::decimal(bytes as nat)] + parts;
            assert(error.text() =~= rest);
            assert(parts =~= seq![text::decimal(bytes as nat), text::decimal(max_bytes as nat)]);
        },
        DisplayError::ImageUndecodable { path, detail } => {
            let rest = Seq::<char>::empty();
            let parts = Seq::<Seq<char>>::empty();
            text::lemma_tells(" could not be decoded as an image: "@, detail@, rest, parts);
            let rest = " could not be decoded as an image: "@ + detail@ + rest;
            let parts = seq![detail@] + parts;
            text::lemma_tells(Seq::<char>::empty(), path@, rest, parts);
            let rest = Seq::<char>::empty() + path@ + rest;
            let parts = seq![path@] + parts;
            assert(error.text() =~= rest);
            assert(parts =~= seq![path@, detail@]);
        },
        DisplayError::ImageTooLarge { width, height, max } => {
            let rest = " limit."@;
            let parts = Seq::<Seq<char>>::empty();
            text::lemma_tells("x"@, text::decimal(max as nat), rest, parts);
            let rest = "x"@ + text::decimal(max as nat) + rest;
            let parts = seq![text::decimal(max as nat)] + parts;
            text::lemma_tells(", above the "@, text::decimal(max as nat), rest, parts);
            let rest = ", above the "@ + text::decimal(max as nat) + rest;
            let parts = seq![text::decimal(max as nat)] + parts;
            text::lemma_tells("x"@, text::decimal(height as nat), rest, parts);
            let rest = "x"@ + text::decimal(height as nat) + rest;
            let parts = seq![text::decimal(height as nat)] + parts;
            text::lemma_tells("Image is "@, text::decimal(width as nat), rest, parts);
            let rest = "Image is "@ + text::decimal(width as nat) + rest;
            let parts = seq![text::decimal(width as nat)] + parts;
            assert(error.text() =~= rest);
            assert(parts =~= seq![text::decimal(width as nat), text::decimal(height as nat), text::decimal(max as nat), text::decimal(max as nat)]);
        },
        DisplayError::AnimationTooLong { max } => {
            let rest = " frames, which is more than this panel holds."@;
            let parts = Seq::<Seq<char>>::empty();
            text::lemma_tells("The animation has more than "@, text::decimal(max as nat), rest, parts);
            let rest = "The animation has more than "@ + text::decimal(max as nat) + rest;
            let parts = seq![text::decimal(max as nat)] + parts;
            assert(error.text() =~= rest);
            assert(parts =~= seq![text::decimal(max as nat)]);
        },
        _ => {},
    }
}

/// A turn is labeled by its degrees.
pub proof fn a_turn_is_labeled_by_its_degrees(orientation: Orientation)
    ensures
        text::decimal(
            match orientation {
                Orientation::Deg0 => 0,
                Orientation::Deg90 => 90,
                Orientation::Deg180 => 180,
                Orientation::Deg270 => 270,
            },
        ).is_prefix_of(orientation.label_text()),
{
}

/// A panel starts with the temperature of the processor first and of the
/// graphics card second, in two colors that fade into each other the other way
/// round, under white text.
pub proof fn a_panel_starts_on_two_temperatures()
    ensures
        default_slots().len() == 2,
        default_slots()[0].metric is CpuTemperature,
        default_slots()[1].metric is GpuTemperature,
        default_slots()[0].reading == (Rgb { r: 107, g: 0, b: 222 }),
        default_slots()[1].reading == (Rgb { r: 214, g: 0, b: 191 }),
        default_slots()[0].reading_end == Some(default_slots()[1].reading),
        default_slots()[1].reading_end == Some(default_slots()[0].reading),
        default_slots()[0].text == (Rgb { r: 255, g: 255, b: 255 }),
        default_slots()[1].text == default_slots()[0].text,
{
}

} // verus!
