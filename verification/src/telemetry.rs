//! The telemetry vocabulary shared by the sampler and the client.
//!
//! One rule governs everything here: a missing reading is never a zero. A
//! metric is either [`Reading::Valid`] with a value, or [`Reading::Unavailable`]
//! with a typed cause naming what was tried.

use vstd::prelude::*;

pub mod alerts;
pub mod view;

pub use alerts::{liquid_critical, AlertTracker, SafetyAlert, LIQUID_CRITICAL_THOUSANDTHS_C, STALL_SAMPLE_COUNT};
pub use view::{
    format_binary_bytes, format_temperature, History, HistoryPoint, MetricView, Retained,
    DROP_AFTER_MS, HISTORY_WINDOW_MS, STALE_AFTER_MS,
};

use crate::measure::{to_percentage, to_whole_single, Measured};
use crate::profile::Channel;

verus! {

/// Interval between two samples, in milliseconds.
pub const SAMPLE_INTERVAL_MS: u64 = 1_000;

/// Reported as the source when no GPU interface could be resolved.
pub const GPU_SOURCE_UNAVAILABLE: &'static str = "unavailable";

/// Why a reading has no value, naming what was attempted.
#[derive(Debug, PartialEq, Eq)]
pub enum Unavailable {
    /// The attribute or interface does not exist on this machine.
    Absent { detail: String },
    /// It exists but could not be read: I/O error, or permission.
    Unreadable { detail: String },
    /// It was read but its contents could not be interpreted.
    Unparsable { detail: String },
    /// The device it belongs to is not connected.
    NoDevice { detail: String },
}

impl Clone for Unavailable {
    fn clone(&self) -> (copy: Self)
        ensures
            copy == *self,
    {
        match self {
            Self::Absent { detail } => Self::Absent { detail: detail.clone() },
            Self::Unreadable { detail } => Self::Unreadable { detail: detail.clone() },
            Self::Unparsable { detail } => Self::Unparsable { detail: detail.clone() },
            Self::NoDevice { detail } => Self::NoDevice { detail: detail.clone() },
        }
    }
}

impl Unavailable {
    pub open spec fn detail_text(self) -> Seq<char> {
        match self {
            Self::Absent { detail } => detail@,
            Self::Unreadable { detail } => detail@,
            Self::Unparsable { detail } => detail@,
            Self::NoDevice { detail } => detail@,
        }
    }

    pub fn absent(detail: &str) -> (cause: Self)
        ensures
            cause is Absent && cause.detail_text() == detail@,
    {
        Self::Absent { detail: detail.to_owned() }
    }

    pub fn unreadable(detail: &str) -> (cause: Self)
        ensures
            cause is Unreadable && cause.detail_text() == detail@,
    {
        Self::Unreadable { detail: detail.to_owned() }
    }

    pub fn unparsable(detail: &str) -> (cause: Self)
        ensures
            cause is Unparsable && cause.detail_text() == detail@,
    {
        Self::Unparsable { detail: detail.to_owned() }
    }

    pub fn no_device(detail: &str) -> (cause: Self)
        ensures
            cause is NoDevice && cause.detail_text() == detail@,
    {
        Self::NoDevice { detail: detail.to_owned() }
    }

    pub fn detail(&self) -> (detail: &str)
        ensures
            detail@ == self.detail_text(),
            match *self {
                Self::Absent { detail: held } => detail@ == held@,
                Self::Unreadable { detail: held } => detail@ == held@,
                Self::Unparsable { detail: held } => detail@ == held@,
                Self::NoDevice { detail: held } => detail@ == held@,
            },
    {
        match self {
            Self::Absent { detail } => detail.as_str(),
            Self::Unreadable { detail } => detail.as_str(),
            Self::Unparsable { detail } => detail.as_str(),
            Self::NoDevice { detail } => detail.as_str(),
        }
    }
}

/// One sampled metric.
#[derive(Debug, Clone, PartialEq)]
pub enum Reading<T> {
    Valid { value: T },
    Unavailable { cause: Unavailable },
}

impl<T> Reading<T> {
    /// The value, when there is one.
    pub open spec fn held(self) -> Option<T> {
        match self {
            Self::Valid { value } => Some(value),
            Self::Unavailable { .. } => None,
        }
    }

    pub fn valid(value: T) -> (reading: Self)
        ensures
            reading == (Self::Valid { value }),
    {
        Self::Valid { value }
    }

    pub fn unavailable(cause: Unavailable) -> (reading: Self)
        ensures
            reading == (Self::Unavailable { cause }),
    {
        Self::Unavailable { cause }
    }

    pub fn value(&self) -> (value: Option<&T>)
        ensures
            value == match self.held() {
                Some(value) => Some(&value),
                None => None,
            },
    {
        match self {
            Self::Valid { value } => Some(value),
            Self::Unavailable { .. } => None,
        }
    }

    /// The same reading with its value converted, keeping the failure intact: a
    /// gap survives as a gap.
    pub fn map<U, F: FnOnce(&T) -> U>(&self, convert: F) -> (converted: Reading<U>)
        requires
            self.held() matches Some(value) ==> convert.requires((&value,)),
        ensures
            match *self {
                Self::Valid { value } => converted matches Reading::Valid { value: new }
                    && convert.ensures((&value,), new),
                Self::Unavailable { cause } => converted == Reading::<U>::Unavailable { cause },
            },
    {
        match self {
            Self::Valid { value } => Reading::valid(convert(value)),
            Self::Unavailable { cause } => Reading::unavailable(cause.clone()),
        }
    }

    pub fn cause(&self) -> (cause: Option<&Unavailable>)
        ensures
            cause == match *self {
                Self::Valid { .. } => None,
                Self::Unavailable { cause } => Some(&cause),
            },
    {
        match self {
            Self::Valid { .. } => None,
            Self::Unavailable { cause } => Some(cause),
        }
    }

    pub fn is_valid(&self) -> (valid: bool)
        ensures
            valid == (*self is Valid),
    {
        matches!(self, Self::Valid { .. })
    }
}

impl<T: Copy> Reading<T> {
    pub fn copied(&self) -> (value: Option<T>)
        ensures
            value == self.held(),
    {
        match self {
            Self::Valid { value } => Some(*value),
            Self::Unavailable { .. } => None,
        }
    }
}

impl Reading<Measured> {
    /// A percentage reading, held inside 0-100.
    ///
    /// A value that is not finite becomes a gap that names what was being read,
    /// never a number a real sensor could also have reported.
    pub fn percent(value: Measured, measured: &str) -> (reading: Self)
        ensures
            match percent_held(value) {
                Some(percent) => reading == (Reading::Valid { value: percent }),
                None => reading matches Reading::Unavailable {
                    cause: Unavailable::Unparsable { detail },
                } && detail@ == measured@ + " did not resolve to a finite percentage."@,
            },
    {
        match clamp_percent(value) {
            Some(percent) => Reading::Valid { value: percent },
            None => {
                let mut detail: String = measured.to_owned();
                detail.append(" did not resolve to a finite percentage.");
                Reading::Unavailable { cause: Unavailable::Unparsable { detail } }
            },
        }
    }
}

/// A percentage held inside 0-100, or nothing when it is no finite number.
pub open spec fn percent_held(value: Measured) -> Option<Measured> {
    if value.finite() {
        Some(value.held(0, 100_000))
    } else {
        None
    }
}

/// Clamp a percentage into the 0-100 range the interface promises.
///
/// `None` when the value is not finite: a percentage that could not be computed
/// is a gap.
pub fn clamp_percent(value: Measured) -> (percent: Option<Measured>)
    ensures
        percent == percent_held(value),
{
    if value.is_finite() {
        Some(value.clamped(0, 100_000))
    } else {
        None
    }
}

/// Control mode of one kernel PWM channel.
///
/// The values are the `pwm[1-2]_enable` ABI of `nzxt-kraken3`. Mode 0 is the
/// firmware failsafe, not "off".
#[derive(Debug, Clone, Copy, PartialEq, Eq, Structural)]
pub enum PwmMode {
    /// `0`: the channel runs at 100%.
    FullSpeed,
    /// `1`: the channel follows the value written to `pwmN`.
    Fixed,
    /// `2`: the channel follows the onboard curve over coolant temperature.
    Curve,
}

impl PwmMode {
    /// The number this mode has in the kernel ABI.
    pub open spec fn kernel_value(self) -> u8 {
        match self {
            Self::FullSpeed => 0,
            Self::Fixed => 1,
            Self::Curve => 2,
        }
    }

    pub fn from_kernel(value: u8) -> (mode: Option<Self>)
        ensures
            forall|variant: Self|
                (mode == Some(variant)) <==> value == #[trigger] variant.kernel_value(),
            mode == Some(Self::FullSpeed) <==> value == 0,
            mode == Some(Self::Fixed) <==> value == 1,
            mode == Some(Self::Curve) <==> value == 2,
    {
        match value {
            0 => Some(Self::FullSpeed),
            1 => Some(Self::Fixed),
            2 => Some(Self::Curve),
            _ => None,
        }
    }

    pub fn to_kernel(self) -> (value: u8)
        ensures
            value == self.kernel_value(),
            self is FullSpeed ==> value == 0,
            self is Fixed ==> value == 1,
            self is Curve ==> value == 2,
    {
        match self {
            Self::FullSpeed => 0,
            Self::Fixed => 1,
            Self::Curve => 2,
        }
    }

    pub open spec fn label_text(self) -> Seq<char> {
        match self {
            Self::FullSpeed => "100% failsafe"@,
            Self::Fixed => "Fixed"@,
            Self::Curve => "Curve"@,
        }
    }

    pub fn label(self) -> (label: &'static str)
        ensures
            label@ == self.label_text(),
            self is FullSpeed ==> label@ == "100% failsafe"@,
            self is Fixed ==> label@ == "Fixed"@,
            self is Curve ==> label@ == "Curve"@,
    {
        match self {
            Self::FullSpeed => "100% failsafe",
            Self::Fixed => "Fixed",
            Self::Curve => "Curve",
        }
    }
}

/// Everything one cooling channel reports.
#[derive(Debug, Clone, PartialEq)]
pub struct ChannelTelemetry {
    pub channel: Channel,
    /// Tachometer reading.
    pub rpm: Reading<u32>,
    /// Current duty, 0-255 as the kernel reports it.
    pub duty: Reading<u8>,
    pub mode: Reading<PwmMode>,
}

/// A duty as a percentage of full scale.
pub open spec fn duty_share(duty: u8) -> Measured {
    crate::measure::percentage(duty as nat, 255)
}

impl ChannelTelemetry {
    /// A channel whose device is absent, with the same cause on every field.
    pub fn unavailable(channel: Channel, cause: Unavailable) -> (telemetry: Self)
        ensures
            telemetry == (Self {
                channel,
                rpm: Reading::Unavailable { cause },
                duty: Reading::Unavailable { cause },
                mode: Reading::Unavailable { cause },
            }),
    {
        Self {
            channel,
            rpm: Reading::unavailable(cause.clone()),
            duty: Reading::unavailable(cause.clone()),
            mode: Reading::unavailable(cause),
        }
    }

    /// Duty as a percentage of full scale, when it is known.
    pub fn duty_percent(&self) -> (percent: Option<Measured>)
        ensures
            percent == match self.duty.held() {
                Some(duty) => Some(duty_share(duty)),
                None => None,
            },
    {
        match self.duty.copied() {
            Some(duty) => Some(to_percentage(duty as u128, 255)),
            None => None,
        }
    }
}

/// The Kraken's own readings.
///
/// Each section carries the time it was sampled rather than inheriting the
/// snapshot's.
#[derive(Debug, Clone, PartialEq)]
pub struct KrakenTelemetry {
    pub at_unix_ms: u64,
    /// False when no supported Kraken is bound to a `hwmon` instance.
    pub present: bool,
    pub liquid_temperature_c: Reading<Measured>,
    pub pump: ChannelTelemetry,
    pub fan: ChannelTelemetry,
}

impl KrakenTelemetry {
    /// What one channel reported.
    pub open spec fn of(self, channel: Channel) -> ChannelTelemetry {
        match channel {
            Channel::Pump => self.pump,
            Channel::Fan => self.fan,
        }
    }

    /// The reading set produced when no Kraken is available at all.
    pub fn absent(at_unix_ms: u64, cause: Unavailable) -> (telemetry: Self)
        ensures
            telemetry == (Self {
                at_unix_ms,
                present: false,
                liquid_temperature_c: Reading::Unavailable { cause },
                pump: (ChannelTelemetry {
                    channel: Channel::Pump,
                    rpm: Reading::Unavailable { cause },
                    duty: Reading::Unavailable { cause },
                    mode: Reading::Unavailable { cause },
                }),
                fan: (ChannelTelemetry {
                    channel: Channel::Fan,
                    rpm: Reading::Unavailable { cause },
                    duty: Reading::Unavailable { cause },
                    mode: Reading::Unavailable { cause },
                }),
            }),
    {
        Self {
            at_unix_ms,
            present: false,
            liquid_temperature_c: Reading::unavailable(cause.clone()),
            pump: ChannelTelemetry::unavailable(Channel::Pump, cause.clone()),
            fan: ChannelTelemetry::unavailable(Channel::Fan, cause),
        }
    }

    pub fn channel(&self, channel: Channel) -> (telemetry: &ChannelTelemetry)
        ensures
            *telemetry == self.of(channel),
    {
        match channel {
            Channel::Pump => &self.pump,
            Channel::Fan => &self.fan,
        }
    }
}

/// Memory occupancy in bytes, so the client picks the unit it displays.
#[derive(Debug, Clone, Copy, PartialEq, Eq, Structural)]
pub struct MemoryUsage {
    pub used_bytes: u64,
    pub total_bytes: u64,
}

impl MemoryUsage {
    /// Occupancy as a percentage, held at a hundred: both counts are first
    /// taken to the nearest single-precision value.
    pub open spec fn share(self) -> Measured {
        let used = crate::measure::whole_single(self.used_bytes as nat);
        let total = crate::measure::whole_single(self.total_bytes as nat);
        if used >= total {
            Measured::Finite { thousandths: 100_000 }
        } else {
            crate::measure::percentage(used, total).held(0, 100_000)
        }
    }

    /// Occupancy as a percentage, clamped into 0-100.
    ///
    /// `None` when the collector reported no total at all: a zero total means
    /// the figure was never read.
    pub fn percent(self) -> (percent: Option<Measured>)
        ensures
            percent == if self.total_bytes == 0 {
                None
            } else {
                Some(self.share())
            },
    {
        if self.total_bytes == 0 {
            return None;
        }
        let used: u128 = to_whole_single(self.used_bytes);
        let total: u128 = to_whole_single(self.total_bytes);
        if used >= total {
            return Some(Measured::Finite { thousandths: 100_000 });
        }
        Some(to_percentage(used, total).clamped(0, 100_000))
    }
}

/// The GPU the collector could reach, and what it reported.
#[derive(Debug, Clone, PartialEq)]
pub struct GpuTelemetry {
    pub at_unix_ms: u64,
    /// Interface the values came from, for example `NVML`.
    pub source: String,
    pub name: Reading<String>,
    pub load_percent: Reading<Measured>,
    pub temperature_c: Reading<Measured>,
}

impl GpuTelemetry {
    /// Whether this is what a pass reports when no GPU interface is usable.
    pub open spec fn is_unavailable_for(self, at_unix_ms: u64, cause: Unavailable) -> bool {
        &&& self.at_unix_ms == at_unix_ms
        &&& self.source@ == GPU_SOURCE_UNAVAILABLE@
        &&& self.name == Reading::<String>::Unavailable { cause }
        &&& self.load_percent == Reading::<Measured>::Unavailable { cause }
        &&& self.temperature_c == Reading::<Measured>::Unavailable { cause }
    }

    /// The reading set produced when no GPU interface is usable.
    pub fn unavailable(at_unix_ms: u64, cause: Unavailable) -> (telemetry: Self)
        ensures
            telemetry.is_unavailable_for(at_unix_ms, cause),
            telemetry.at_unix_ms == at_unix_ms,
            telemetry.name == (Reading::<String>::Unavailable { cause }),
            telemetry.load_percent == (Reading::<Measured>::Unavailable { cause }),
            telemetry.temperature_c == (Reading::<Measured>::Unavailable { cause }),
    {
        Self {
            at_unix_ms,
            source: GPU_SOURCE_UNAVAILABLE.to_owned(),
            name: Reading::unavailable(cause.clone()),
            load_percent: Reading::unavailable(cause.clone()),
            temperature_c: Reading::unavailable(cause),
        }
    }
}

/// CPU and memory metrics, normalized.
#[derive(Debug, Clone, PartialEq)]
pub struct SystemTelemetry {
    pub at_unix_ms: u64,
    pub cpu_load_percent: Reading<Measured>,
    pub cpu_temperature_c: Reading<Measured>,
    pub memory: Reading<MemoryUsage>,
}

impl SystemTelemetry {
    pub fn unavailable(at_unix_ms: u64, cause: Unavailable) -> (telemetry: Self)
        ensures
            telemetry == (Self {
                at_unix_ms,
                cpu_load_percent: Reading::Unavailable { cause },
                cpu_temperature_c: Reading::Unavailable { cause },
                memory: Reading::Unavailable { cause },
            }),
    {
        Self {
            at_unix_ms,
            cpu_load_percent: Reading::unavailable(cause.clone()),
            cpu_temperature_c: Reading::unavailable(cause.clone()),
            memory: Reading::unavailable(cause),
        }
    }
}

/// A collector that failed or timed out during one pass.
#[derive(Debug, Clone, PartialEq, Eq)]
pub struct CollectorFailure {
    pub collector: Collector,
    pub detail: String,
}

#[derive(Debug, Clone, Copy, PartialEq, Eq, Structural)]
pub enum Collector {
    Kraken,
    Cpu,
    Gpu,
    Memory,
}

impl Collector {
    pub open spec fn label_text(self) -> Seq<char> {
        match self {
            Self::Kraken => "Kraken"@,
            Self::Cpu => "CPU"@,
            Self::Gpu => "GPU"@,
            Self::Memory => "Memory"@,
        }
    }

    pub fn label(self) -> (label: &'static str)
        ensures
            label@ == self.label_text(),
            self is Kraken ==> label@ == "Kraken"@,
            self is Cpu ==> label@ == "CPU"@,
            self is Gpu ==> label@ == "GPU"@,
            self is Memory ==> label@ == "Memory"@,
    {
        match self {
            Self::Kraken => "Kraken",
            Self::Cpu => "CPU",
            Self::Gpu => "GPU",
            Self::Memory => "Memory",
        }
    }
}

/// One complete pass of every collector.
#[derive(Debug, Clone, PartialEq)]
pub struct TelemetrySnapshot {
    /// Increments once per pass, so a client can tell a repeat from a refresh.
    pub sequence: u64,
    /// When the pass started, in milliseconds since the Unix epoch.
    pub at_unix_ms: u64,
    /// Interval the sampler is running at.
    pub interval_ms: u64,
    pub kraken: KrakenTelemetry,
    pub system: SystemTelemetry,
    pub gpu: GpuTelemetry,
    pub alerts: Vec<SafetyAlert>,
    pub failed: Vec<CollectorFailure>,
}

/// Milliseconds from `at` to `now`, never below zero.
pub open spec fn elapsed(now: u64, at: u64) -> u64 {
    if now >= at {
        (now - at) as u64
    } else {
        0
    }
}

/// Milliseconds from `at` to `now`, never below zero.
pub fn elapsed_since(now: u64, at: u64) -> (age: u64)
    ensures
        age == elapsed(now, at),
{
    if now >= at {
        now - at
    } else {
        0
    }
}

impl TelemetrySnapshot {
    /// A snapshot in which nothing could be sampled.
    pub fn unavailable(at_unix_ms: u64, cause: Unavailable) -> (snapshot: Self)
        ensures
            snapshot.sequence == 0,
            snapshot.at_unix_ms == at_unix_ms,
            snapshot.interval_ms == SAMPLE_INTERVAL_MS,
            snapshot.kraken == (KrakenTelemetry {
                at_unix_ms,
                present: false,
                liquid_temperature_c: Reading::Unavailable { cause },
                pump: (ChannelTelemetry {
                    channel: Channel::Pump,
                    rpm: Reading::Unavailable { cause },
                    duty: Reading::Unavailable { cause },
                    mode: Reading::Unavailable { cause },
                }),
                fan: (ChannelTelemetry {
                    channel: Channel::Fan,
                    rpm: Reading::Unavailable { cause },
                    duty: Reading::Unavailable { cause },
                    mode: Reading::Unavailable { cause },
                }),
            }),
            snapshot.system == (SystemTelemetry {
                at_unix_ms,
                cpu_load_percent: Reading::Unavailable { cause },
                cpu_temperature_c: Reading::Unavailable { cause },
                memory: Reading::Unavailable { cause },
            }),
            snapshot.gpu.is_unavailable_for(at_unix_ms, cause),
            snapshot.alerts@ == Seq::<SafetyAlert>::empty(),
            snapshot.failed@ == Seq::<CollectorFailure>::empty(),
    {
        Self {
            sequence: 0,
            at_unix_ms,
            interval_ms: SAMPLE_INTERVAL_MS,
            kraken: KrakenTelemetry::absent(at_unix_ms, cause.clone()),
            system: SystemTelemetry::unavailable(at_unix_ms, cause.clone()),
            gpu: GpuTelemetry::unavailable(at_unix_ms, cause),
            alerts: Vec::new(),
            failed: Vec::new(),
        }
    }

    /// Milliseconds between the sample and `now`, saturating at zero.
    pub fn age_ms(&self, now_unix_ms: u64) -> (age: u64)
        ensures
            age == elapsed(now_unix_ms, self.at_unix_ms),
    {
        elapsed_since(now_unix_ms, self.at_unix_ms)
    }

    /// Age of the oldest section, which is what the freshness budget is about.
    pub fn oldest_section_age_ms(&self, now_unix_ms: u64) -> (age: u64)
        ensures
            age >= elapsed(now_unix_ms, self.kraken.at_unix_ms),
            age >= elapsed(now_unix_ms, self.system.at_unix_ms),
            age >= elapsed(now_unix_ms, self.gpu.at_unix_ms),
            age == elapsed(now_unix_ms, self.kraken.at_unix_ms) || age == elapsed(
                now_unix_ms,
                self.system.at_unix_ms,
            ) || age == elapsed(now_unix_ms, self.gpu.at_unix_ms),
    {
        let mut age: u64 = elapsed_since(now_unix_ms, self.kraken.at_unix_ms);
        let system: u64 = elapsed_since(now_unix_ms, self.system.at_unix_ms);
        if system > age {
            age = system;
        }
        let gpu: u64 = elapsed_since(now_unix_ms, self.gpu.at_unix_ms);
        if gpu > age {
            age = gpu;
        }
        age
    }

    /// The first failure of this collector in this pass.
    pub open spec fn failure_of(self, collector: Collector) -> Option<CollectorFailure> {
        crate::lists::first_where(
            self.failed@,
            |failure: CollectorFailure| failure.collector == collector,
        )
    }

    pub fn failure(&self, collector: Collector) -> (found: Option<&CollectorFailure>)
        ensures
            found == match self.failure_of(collector) {
                Some(failure) => Some(&failure),
                None => None,
            },
    {
        let ghost wanted = |failure: CollectorFailure| failure.collector == collector;
        let mut index: usize = 0;
        while index < self.failed.len()
            invariant
                index <= self.failed@.len(),
                wanted == (|failure: CollectorFailure| failure.collector == collector),
                crate::lists::first_from(self.failed@, wanted, index as int)
                    == crate::lists::first_where(self.failed@, wanted),
            decreases self.failed@.len() - index,
        {
            if self.failed[index].collector == collector {
                return Some(&self.failed[index]);
            }
            index = index + 1;
        }
        None
    }
}

/// A percentage that is kept lies between nothing and a hundred, is itself when
/// it was there already, and is the end it was beyond; what is no finite number
/// is kept as nothing.
pub proof fn a_percentage_is_kept_in_range(value: Measured)
    ensures
        value is NotANumber || value is PositiveInfinity || value is NegativeInfinity
            <==> percent_held(value) is None,
        percent_held(value) matches Some(percent) ==> {
            &&& percent.finite()
            &&& percent.reaches(0)
            &&& !percent.reaches(100_001)
            &&& !value.reaches(0) ==> percent == (Measured::Finite { thousandths: 0 })
            &&& value.reaches(0) && !value.reaches(100_000) ==> percent == value
            &&& value.reaches(100_000) ==> percent.reaches(100_000)
        },
{
    if value.finite() {
        crate::measure::a_held_number_lies_in_its_range(value, 0, 100_000);
    }
}

/// A duty reads as its share of the full one: no further from it than a
/// sixty-five-thousandth of a percent.
pub proof fn a_duty_reads_as_its_share_of_the_full_one(duty: u8)
    ensures
        ({
            let (significand, shift) = duty_share(duty).parts();
            let unit = crate::measure::power(shift);
            &&& duty_share(duty).finite()
            &&& -(255 * unit) <= 0x1_0000 * (significand * 255 - 100 * duty * unit) <= 255 * unit
        }),
{
    crate::measure::a_percentage_is_near_its_share(duty as nat, 255);
}

/// Memory in use reads as its share of the whole: no further from it than a
/// sixteen-thousandth of a percent.
pub proof fn memory_reads_as_its_share_of_the_whole(usage: MemoryUsage)
    requires
        0 < usage.total_bytes,
        usage.used_bytes <= usage.total_bytes,
    ensures
        ({
            let (significand, shift) = usage.share().parts();
            let unit = crate::measure::power(shift);
            let off = significand * usage.total_bytes - 100 * usage.used_bytes * unit;
            &&& usage.share().finite()
            &&& !usage.share().negative()
            &&& -(usage.total_bytes * unit) <= 0x4000 * off <= usage.total_bytes * unit
        }),
{
    let used = crate::measure::whole_single(usage.used_bytes as nat);
    let total = crate::measure::whole_single(usage.total_bytes as nat);
    let u = usage.used_bytes as int;
    let t = usage.total_bytes as int;
    crate::measure::a_whole_number_is_rounded_by_little(usage.used_bytes as nat);
    crate::measure::a_whole_number_is_rounded_by_little(usage.total_bytes as nat);
    let share = usage.share();
    let (v, shift) = share.parts();
    let unit = crate::measure::power(shift) as int;
    crate::measure::a_power_doubles(shift);
    let full = Measured::Finite { thousandths: 100_000 };
    crate::measure::a_hundred_is_exact();
    if used >= total {
        assert(v == 100 * unit);
        assert(-(t * unit) <= 0x4000 * (v * t - 100 * u * unit) <= t * unit) by (nonlinear_arith)
            requires
                v == 100 * unit,
                unit > 0,
                0x100_0000 * (used - u) <= u,
                -t <= 0x100_0000 * (total - t),
                used >= total,
                0 <= u <= t,
        ;
    } else {
        let percent = crate::measure::percentage(used, total);
        assert(total <= 0x1_0000_0000_0000_0000) by {
            assert(total <= 2 * t);
            assert(t < 0x1_0000_0000_0000_0000);
            crate::measure::a_whole_number_stays_a_wide_one(usage.total_bytes);
        }
        crate::measure::a_percentage_is_near_its_share(used, total);
        let (p, deep) = percent.parts();
        let last = crate::measure::power(deep) as int;
        crate::measure::a_power_doubles(deep);
        lemma_share_is_near(u, t, used as int, total as int, p, last);
        assert(percent.reaches(0)) by {
            if let Measured::Binary { significand, shift } = percent {
                assert(0 * crate::measure::power(shift as nat) == 0);
            }
        }
        if share != percent {
            assert(share == full);
            crate::measure::what_reaches_a_hundred_is_a_hundred_parts(percent);
            assert(p >= 100 * last);
            assert(-(t * unit) <= 0x4000 * (v * t - 100 * u * unit) <= t * unit)
                by (nonlinear_arith)
                requires
                    v == 100 * unit,
                    unit > 0,
                    last > 0,
                    0x4000 * (p * t - 100 * u * last) <= t * last,
                    p >= 100 * last,
                    0 <= u <= t,
            ;
        }
    }
}

/// The roundings of a share add up.
proof fn lemma_share_is_near(u: int, t: int, used: int, total: int, p: int, last: int)
    requires
        0 <= u <= t,
        0 < t,
        0 <= used,
        0 < total,
        last > 0,
        p >= 0,
        -u <= 0x100_0000 * (used - u) <= u,
        -t <= 0x100_0000 * (total - t) <= t,
        -(total * last) <= 0x1_0000 * (p * total - 100 * used * last) <= total * last,
        used < total,
    ensures
        -(t * last) <= 0x4000 * (p * t - 100 * u * last) <= t * last,
{
    let span = t * last;
    assert(span > 0) by (nonlinear_arith)
        requires
            span == t * last,
            t > 0,
            last > 0,
    ;
    // The percentage is not much more than a hundred.
    assert(p <= 101 * last) by (nonlinear_arith)
        requires
            0x1_0000 * (p * total - 100 * used * last) <= total * last,
            0 <= used < total,
            last > 0,
    ;
    let wide = p * (total - t);
    assert(-(101 * span) <= 0x100_0000 * wide <= 101 * span) by (nonlinear_arith)
        requires
            0 <= p <= 101 * last,
            -t <= 0x100_0000 * (total - t) <= t,
            wide == p * (total - t),
            span == t * last,
            last > 0,
            t > 0,
    ;
    let part = 100 * (used - u) * last;
    assert(-(100 * span) <= 0x100_0000 * part <= 100 * span) by (nonlinear_arith)
        requires
            -u <= 0x100_0000 * (used - u) <= u,
            0 <= u <= t,
            part == 100 * (used - u) * last,
            span == t * last,
            last > 0,
    ;
    let near = p * total - 100 * used * last;
    assert(total * last <= 2 * span) by (nonlinear_arith)
        requires
            0x100_0000 * (total - t) <= t,
            span == t * last,
            last > 0,
            t > 0,
    ;
    assert(p * t - 100 * u * last == near - wide + part) by (nonlinear_arith)
        requires
            near == p * total - 100 * used * last,
            wide == p * (total - t),
            part == 100 * (used - u) * last,
    ;
}

/// Memory that is clearly more than there is reads as all of it.
pub proof fn more_memory_than_there_is_reads_as_all_of_it(usage: MemoryUsage)
    requires
        0 < usage.total_bytes,
        0x40_0000 * (usage.used_bytes - usage.total_bytes) >= usage.total_bytes,
    ensures
        usage.share() == (Measured::Finite { thousandths: 100_000 }),
{
    crate::measure::a_whole_number_is_rounded_by_little(usage.used_bytes as nat);
    crate::measure::a_whole_number_is_rounded_by_little(usage.total_bytes as nat);
}

/// Time runs forwards: an age is what lies between two instants, and never less
/// than nothing.
pub proof fn an_age_is_what_lies_between(now: u64, at: u64)
    ensures
        now >= at ==> at + elapsed(now, at) == now,
        now <= at ==> elapsed(now, at) == 0,
{
}

/// A failure is the first one of its own collector, and none when there is none.
pub proof fn a_failure_is_of_its_own_collector(snapshot: TelemetrySnapshot, collector: Collector)
    ensures
        match snapshot.failure_of(collector) {
            Some(failure) => exists|i: int|
                0 <= i < snapshot.failed@.len() && #[trigger] snapshot.failed@[i] == failure
                    && failure.collector == collector && (forall|earlier: int|
                    0 <= earlier < i ==> (#[trigger] snapshot.failed@[earlier]).collector
                        != collector),
            None => forall|i: int|
                0 <= i < snapshot.failed@.len() ==> (#[trigger] snapshot.failed@[i]).collector
                    != collector,
        },
{
    let wanted = |failure: CollectorFailure| failure.collector == collector;
    let at = crate::lists::first_where_comes_first(snapshot.failed@, wanted);
    assert forall|i: int| 0 <= i < snapshot.failed@.len() && !wanted(
        #[trigger] snapshot.failed@[i],
    ) implies snapshot.failed@[i].collector != collector by {}
    if snapshot.failure_of(collector) is Some {
        assert(snapshot.failed@[at] == snapshot.failure_of(collector)->0);
        assert forall|earlier: int| 0 <= earlier < at implies (#[trigger] snapshot.failed@[earlier]).collector
            != collector by {
            assert(!wanted(snapshot.failed@[earlier]));
        }
    }
}

} // verus!
