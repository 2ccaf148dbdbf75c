//! The Monitoring screen: system and cooling state at a glance.
//!
//! Readouts and their provenance, and nothing operable. A device that is ready
//! says so by the readings under it moving; the strip at the top speaks only
//! for a device that is not.

use vstd::prelude::*;

use crate::lists;
use crate::measure::Measured;
use crate::shell::{DeviceHealth, DeviceSummary};
use crate::telemetry::view::{format_binary_bytes, MetricView, HISTORY_WINDOW_MS};
use crate::telemetry::{Collector, MemoryUsage, TelemetrySnapshot};
use crate::text;
use crate::theme::DEGREE_C;

verus! {

/// What the strip says when there is no device to speak for.
pub const NO_DEVICE: &'static str = "No supported NZXT device detected.";

/// What the GPU section says when nothing explains the silence.
pub const NO_GPU: &'static str = "No GPU management interface answered on this machine.";

/// The devices the monitoring strip still has to speak for.
pub open spec fn not_ready(rows: Seq<DeviceSummary>) -> Seq<DeviceSummary> {
    lists::all_where(rows, |summary: DeviceSummary| !(summary.health is Ready))
}

/// The devices the monitoring strip still has to speak for: a ready device has
/// nothing left to say there.
pub fn degraded_devices(rows: Vec<DeviceSummary>) -> (degraded: Vec<DeviceSummary>)
    ensures
        degraded@ == not_ready(rows@),
{
    let ghost given = rows@;
    let ghost wanted = |summary: DeviceSummary| !(summary.health is Ready);
    let mut left: Vec<DeviceSummary> = rows;
    let mut degraded: Vec<DeviceSummary> = Vec::new();
    let mut done: Ghost<int> = Ghost(0);
    assert(given.take(0) =~= Seq::empty());
    assert(given.skip(0) =~= given);
    while left.len() > 0
        invariant
            0 <= done@ <= given.len(),
            left@ == given.skip(done@),
            wanted == (|summary: DeviceSummary| !(summary.health is Ready)),
            degraded@ == lists::all_where(given.take(done@), wanted),
        decreases left.len(),
    {
        let summary: DeviceSummary = left.remove(0);
        proof {
            assert(summary == given[done@]);
            assert(given.take(done@ + 1) =~= given.take(done@).push(summary));
            assert(given.take(done@ + 1).drop_last() =~= given.take(done@));
            done@ = done@ + 1;
            assert(left@ =~= given.skip(done@));
        }
        if summary.health != DeviceHealth::Ready {
            degraded.push(summary);
        }
    }
    assert(given.take(done@) =~= given);
    degraded
}

/// What stands under the screen's heading.
#[derive(Debug)]
pub enum DeviceStrip {
    /// Nothing supported answered at all, and no device line can carry that.
    Absent(&'static str),
    /// Every device is ready: nothing is drawn.
    Quiet,
    /// The devices that are not ready, each with its full line.
    Degraded(Vec<DeviceSummary>),
}

/// Which hardware answered, as a caption under the screen heading.
///
/// What is left of it is the exception: a device that is not ready gets its
/// full line, because that is exactly when its firmware and its kernel binding
/// explain the degradation.
pub fn device_strip(rows: Vec<DeviceSummary>) -> (strip: DeviceStrip)
    ensures
        match strip {
            DeviceStrip::Absent(words) => rows@.len() == 0 && words@ == NO_DEVICE@,
            DeviceStrip::Quiet => rows@.len() > 0 && not_ready(rows@).len() == 0,
            DeviceStrip::Degraded(shown) => rows@.len() > 0 && shown@ == not_ready(rows@)
                && shown@.len() > 0,
        },
{
    if rows.len() == 0 {
        return DeviceStrip::Absent(NO_DEVICE);
    }
    let degraded: Vec<DeviceSummary> = degraded_devices(rows);
    if degraded.len() == 0 {
        DeviceStrip::Quiet
    } else {
        DeviceStrip::Degraded(degraded)
    }
}

/// How full a metric's bar is drawn.
#[derive(Debug, Clone, Copy, PartialEq, Eq, Structural)]
pub enum Bar {
    /// A measured value between two ends, in thousandths of its unit.
    Share { value: Measured, low: i32, high: i32 },
    /// A speed out of the one that fills the bar.
    Speed { rpm: Measured, full: u32 },
}

/// One labeled readout.
#[derive(Debug)]
pub struct Metric {
    pub label: &'static str,
    pub value: String,
    pub unit: &'static str,
    pub qualifier: Option<&'static str>,
    /// `None` keeps the bar in its neutral state.
    pub bar: Option<Bar>,
}

/// How a measured value is worded.
#[derive(Debug, Clone, Copy, PartialEq, Eq, Structural)]
pub enum Wording {
    Whole,
    OneDecimal,
}

impl Wording {
    pub open spec fn words(self, value: Measured) -> Seq<char> {
        match self {
            Self::Whole => value.whole_text(),
            Self::OneDecimal => value.one_decimal_text(),
        }
    }
}

impl Metric {
    /// Whether this is how a measured metric reads on a bar from `low` to
    /// `high`.
    pub open spec fn shows(
        self,
        label: Seq<char>,
        unit: Seq<char>,
        view: MetricView<Measured>,
        wording: Wording,
        low: i32,
        high: i32,
    ) -> bool {
        &&& self.label@ == label
        &&& self.unit@ == unit
        &&& self.value@ == match view.held() {
            Some(value) => wording.words(value),
            None => "--"@,
        }
        &&& match self.qualifier {
            Some(word) => view.qualifier_text() == Some(word@),
            None => view.qualifier_text() is None,
        }
        &&& self.bar == match view.held() {
            Some(value) => Some(Bar::Share { value, low, high }),
            None => None,
        }
    }

    /// Whether this is how a speed reads on a bar that `full` fills.
    pub open spec fn shows_speed(
        self,
        label: Seq<char>,
        view: MetricView<Measured>,
        full: u32,
    ) -> bool {
        &&& self.label@ == label
        &&& self.unit@ == " RPM"@
        &&& self.value@ == match view.held() {
            Some(rpm) => rpm.whole_text(),
            None => "--"@,
        }
        &&& match self.qualifier {
            Some(word) => view.qualifier_text() == Some(word@),
            None => view.qualifier_text() is None,
        }
        &&& self.bar == match view.held() {
            Some(rpm) => Some(Bar::Speed { rpm, full }),
            None => None,
        }
    }

    /// A measured metric on a bar from `low` to `high`.
    pub fn measured(
        label: &'static str,
        unit: &'static str,
        view: &MetricView<Measured>,
        wording: Wording,
        low: i32,
        high: i32,
    ) -> (metric: Self)
        ensures
            metric.shows(label@, unit@, *view, wording, low, high),
    {
        let (value, bar): (String, Option<Bar>) = match view.copied() {
            Some(value) => (
                match wording {
                    Wording::Whole => value.whole(),
                    Wording::OneDecimal => value.one_decimal(),
                },
                Some(Bar::Share { value, low, high }),
            ),
            None => ("--".to_owned(), None),
        };
        Self { label, value, unit, qualifier: view.qualifier(), bar }
    }

    /// A speed on a bar that `full` fills.
    pub fn speed(label: &'static str, view: &MetricView<Measured>, full: u32) -> (metric: Self)
        ensures
            metric.shows_speed(label@, *view, full),
    {
        let (value, bar): (String, Option<Bar>) = match view.copied() {
            Some(rpm) => (rpm.whole(), Some(Bar::Speed { rpm, full })),
            None => ("--".to_owned(), None),
        };
        Self { label, value, unit: " RPM", qualifier: view.qualifier(), bar }
    }
}

/// What a section says of itself: why its collector failed in this pass, or
/// its usual description.
pub open spec fn note_words(
    telemetry: Option<&TelemetrySnapshot>,
    collector: Collector,
    usual: Seq<char>,
) -> Seq<char> {
    match telemetry {
        Some(snapshot) => match snapshot.failure_of(collector) {
            Some(failure) => failure.detail@,
            None => usual,
        },
        None => usual,
    }
}

/// A section subtitle that names a failed collector instead of its usual
/// description.
pub fn collector_note(
    telemetry: Option<&TelemetrySnapshot>,
    collector: Collector,
    usual: &'static str,
) -> (words: String)
    ensures
        words@ == note_words(telemetry, collector, usual@),
{
    if let Some(snapshot) = telemetry {
        if let Some(failure) = snapshot.failure(collector) {
            return failure.detail.clone();
        }
    }
    usual.to_owned()
}

/// The interface the GPU values came from.
pub fn gpu_source(telemetry: Option<&TelemetrySnapshot>) -> (source: &str)
    ensures
        source@ == match telemetry {
            Some(snapshot) => snapshot.gpu.source@,
            None => "no interface"@,
        },
{
    match telemetry {
        Some(snapshot) => snapshot.gpu.source.as_str(),
        None => "no interface",
    }
}

/// What the GPU section says of itself.
pub open spec fn gpu_words(name: MetricView<String>, telemetry: Option<&TelemetrySnapshot>) -> Seq<
    char,
> {
    match name.held() {
        Some(name) => name@ + ", read through "@ + match telemetry {
            Some(snapshot) => snapshot.gpu.source@,
            None => "no interface"@,
        },
        None => note_words(telemetry, Collector::Gpu, NO_GPU@),
    }
}

/// What the GPU section says of itself.
pub fn gpu_subtitle(name: &MetricView<String>, telemetry: Option<&TelemetrySnapshot>) -> (words: String)
    ensures
        words@ == gpu_words(*name, telemetry),
{
    match name.value() {
        Some(name) => {
            let mut words: String = name.clone();
            words.append(", read through ");
            words.append(gpu_source(telemetry));
            words
        },
        None => collector_note(telemetry, Collector::Gpu, NO_GPU),
    }
}

/// What the memory section says of itself.
pub open spec fn memory_words(memory: MetricView<MemoryUsage>) -> Seq<char> {
    match memory.held() {
        Some(usage) => crate::telemetry::view::binary_bytes_text(usage.used_bytes as nat)
            + " of "@ + crate::telemetry::view::binary_bytes_text(usage.total_bytes as nat)
            + " in use"@,
        None => "Installed memory is not readable."@,
    }
}

/// What the memory section says of itself.
pub fn memory_subtitle(memory: &MetricView<MemoryUsage>) -> (words: String)
    ensures
        words@ == memory_words(*memory),
{
    match memory.copied() {
        Some(usage) => {
            let mut words: String = format_binary_bytes(usage.used_bytes);
            words.append(" of ");
            words.append(format_binary_bytes(usage.total_bytes).as_str());
            words.append(" in use");
            assert(words@ =~= memory_words(*memory));
            words
        },
        None => "Installed memory is not readable.".to_owned(),
    }
}

/// Every retained metric the screen shows, as it presents right now.
#[derive(Debug)]
pub struct MetricBook<'a> {
    pub cpu_load: &'a MetricView<Measured>,
    pub cpu_temperature: &'a MetricView<Measured>,
    pub gpu_name: &'a MetricView<String>,
    pub gpu_load: &'a MetricView<Measured>,
    pub gpu_temperature: &'a MetricView<Measured>,
    pub memory: &'a MetricView<MemoryUsage>,
    pub memory_percent: &'a MetricView<Measured>,
    pub liquid: &'a MetricView<Measured>,
    pub pump_rpm: &'a MetricView<Measured>,
    pub fan_rpm: &'a MetricView<Measured>,
}

/// The metric whose history a section draws.
#[derive(Debug, Clone, Copy, PartialEq, Eq, Structural)]
pub enum Series {
    CpuLoad,
    GpuLoad,
    MemoryShare,
    Liquid,
}

/// One section of the screen: its readouts, and the history drawn under them
/// between two ends, in thousandths of its unit.
#[derive(Debug)]
pub struct Section {
    pub title: &'static str,
    pub subtitle: String,
    pub metrics: Vec<Metric>,
    pub history: Series,
    pub history_low: i32,
    pub history_high: i32,
}

/// The Monitoring screen.
#[derive(Debug)]
pub struct MonitoringView {
    pub title: &'static str,
    pub subtitle: &'static str,
    pub strip: DeviceStrip,
    pub cpu: Section,
    pub gpu: Section,
    pub memory: Section,
    pub kraken: Section,
    pub footnote: String,
}

impl Section {
    /// Whether this section holds a load and a temperature, over a history of
    /// the load.
    pub open spec fn shows_processor(
        self,
        load: MetricView<Measured>,
        temperature: MetricView<Measured>,
        history: Series,
    ) -> bool {
        &&& self.metrics@.len() == 2
        &&& self.metrics@[0].shows("Load"@, "%"@, load, Wording::Whole, 0, 100_000)
        &&& self.metrics@[1].shows(
            "Temperature"@,
            DEGREE_C@,
            temperature,
            Wording::OneDecimal,
            0,
            100_000,
        )
        &&& self.history == history
        &&& self.history_low == 0
        &&& self.history_high == 100_000
    }

    /// A section holding a load and a temperature.
    pub fn processor(
        title: &'static str,
        subtitle: String,
        load: &MetricView<Measured>,
        temperature: &MetricView<Measured>,
        history: Series,
    ) -> (section: Self)
        ensures
            section.title@ == title@,
            section.subtitle == subtitle,
            section.shows_processor(*load, *temperature, history),
    {
        let mut metrics: Vec<Metric> = Vec::new();
        metrics.push(Metric::measured("Load", "%", load, Wording::Whole, 0, 100_000));
        metrics.push(
            Metric::measured(
                "Temperature",
                DEGREE_C,
                temperature,
                Wording::OneDecimal,
                0,
                100_000,
            ),
        );
        Self { title, subtitle, metrics, history, history_low: 0, history_high: 100_000 }
    }
}

/// The Monitoring screen.
pub fn monitoring(
    book: MetricBook,
    telemetry: Option<&TelemetrySnapshot>,
    devices: Vec<DeviceSummary>,
) -> (view: MonitoringView)
    ensures
        view.title@ == "Monitoring"@,
        view.subtitle@ == "System and cooling state at a glance."@,
        match view.strip {
            DeviceStrip::Absent(words) => devices@.len() == 0 && words@ == NO_DEVICE@,
            DeviceStrip::Quiet => devices@.len() > 0 && not_ready(devices@).len() == 0,
            DeviceStrip::Degraded(shown) => devices@.len() > 0 && shown@ == not_ready(devices@)
                && shown@.len() > 0,
        },
        view.cpu.title@ == "CPU"@,
        view.cpu.subtitle@ == note_words(
            telemetry,
            Collector::Cpu,
            "Load and package temperature."@,
        ),
        view.cpu.shows_processor(*book.cpu_load, *book.cpu_temperature, Series::CpuLoad),
        view.gpu.title@ == "GPU"@,
        view.gpu.subtitle@ == gpu_words(*book.gpu_name, telemetry),
        view.gpu.shows_processor(*book.gpu_load, *book.gpu_temperature, Series::GpuLoad),
        view.memory.title@ == "Memory"@,
        view.memory.subtitle@ == memory_words(*book.memory),
        view.memory.metrics@.len() == 1,
        view.memory.metrics@[0].shows(
            "In use"@,
            "%"@,
            *book.memory_percent,
            Wording::Whole,
            0,
            100_000,
        ),
        view.memory.history is MemoryShare,
        view.memory.history_low == 0 && view.memory.history_high == 100_000,
        view.kraken.title@ == "Kraken"@,
        view.kraken.subtitle@ == note_words(
            telemetry,
            Collector::Kraken,
            "Coolant temperature and both tachometers, through kraken2023."@,
        ),
        view.kraken.metrics@.len() == 3,
        view.kraken.metrics@[0].shows(
            "Liquid"@,
            DEGREE_C@,
            *book.liquid,
            Wording::OneDecimal,
            20_000,
            60_000,
        ),
        view.kraken.metrics@[1].shows_speed("Pump"@, *book.pump_rpm, 3000),
        view.kraken.metrics@[2].shows_speed("Fan"@, *book.fan_rpm, 2000),
        view.kraken.history is Liquid,
        view.kraken.history_low == 20_000 && view.kraken.history_high == 60_000,
        view.footnote@ == "Rolling "@ + text::decimal((HISTORY_WINDOW_MS / 60_000) as nat)
            + " minute window, held in memory only."@,
{
    let mut memory: Vec<Metric> = Vec::new();
    memory.push(Metric::measured("In use", "%", book.memory_percent, Wording::Whole, 0, 100_000));
    let mut kraken: Vec<Metric> = Vec::new();
    kraken.push(
        Metric::measured("Liquid", DEGREE_C, book.liquid, Wording::OneDecimal, 20_000, 60_000),
    );
    kraken.push(Metric::speed("Pump", book.pump_rpm, 3000));
    kraken.push(Metric::speed("Fan", book.fan_rpm, 2000));
    let mut footnote: String = "Rolling ".to_owned();
    text::push_decimal(&mut footnote, HISTORY_WINDOW_MS / 60_000);
    footnote.append(" minute window, held in memory only.");
    MonitoringView {
        title: "Monitoring",
        subtitle: "System and cooling state at a glance.",
        strip: device_strip(devices),
        cpu: Section::processor(
            "CPU",
            collector_note(telemetry, Collector::Cpu, "Load and package temperature."),
            book.cpu_load,
            book.cpu_temperature,
            Series::CpuLoad,
        ),
        gpu: Section::processor(
            "GPU",
            gpu_subtitle(book.gpu_name, telemetry),
            book.gpu_load,
            book.gpu_temperature,
            Series::GpuLoad,
        ),
        memory: Section {
            title: "Memory",
            subtitle: memory_subtitle(book.memory),
            metrics: memory,
            history: Series::MemoryShare,
            history_low: 0,
            history_high: 100_000,
        },
        kraken: Section {
            title: "Kraken",
            subtitle: collector_note(
                telemetry,
                Collector::Kraken,
                "Coolant temperature and both tachometers, through kraken2023.",
            ),
            metrics: kraken,
            history: Series::Liquid,
            history_low: 20_000,
            history_high: 60_000,
        },
        footnote,
    }
}

/// A machine whose devices are all ready draws no strip, and one with a device
/// that is not ready always names it.
pub proof fn the_strip_names_exactly_what_is_not_ready(rows: Seq<DeviceSummary>, i: int)
    requires
        0 <= i < rows.len(),
    ensures
        not_ready(rows).contains(rows[i]) <==> !(rows[i].health is Ready),
{
    assert(rows.contains(rows[i]));
    lists::all_where_keeps_what_is_wanted(
        rows,
        |summary: DeviceSummary| !(summary.health is Ready),
    );
}

/// A readout shows the value of its metric in words and on a bar between the
/// ends given, marked when it is aging; a metric that is not available shows
/// neither.
pub proof fn a_readout_shows_its_metric(
    metric: Metric,
    label: Seq<char>,
    unit: Seq<char>,
    view: MetricView<Measured>,
    wording: Wording,
    low: i32,
    high: i32,
)
    requires
        metric.shows(label, unit, view, wording, low, high),
    ensures
        metric.label@ == label,
        metric.unit@ == unit,
        view matches MetricView::Fresh { value } ==> metric.qualifier is None && metric.bar == Some(
            Bar::Share { value, low, high },
        ) && metric.value@ == match wording {
            Wording::Whole => value.whole_text(),
            Wording::OneDecimal => value.one_decimal_text(),
        },
        view matches MetricView::Stale { value, .. } ==> (metric.qualifier matches Some(word)
            && word@ == "Stale"@) && metric.bar == Some(Bar::Share { value, low, high })
            && metric.value@ == match wording {
            Wording::Whole => value.whole_text(),
            Wording::OneDecimal => value.one_decimal_text(),
        },
        view is Unavailable ==> metric.bar is None && metric.value@ == "--"@ && (
        metric.qualifier matches Some(word) && word@ == "N/A"@),
{
}

/// A speed is shown in whole revolutions and on a bar out of the one that fills
/// it, marked when it is aging; one that is not available shows neither.
pub proof fn a_readout_shows_its_speed(
    metric: Metric,
    label: Seq<char>,
    view: MetricView<Measured>,
    full: u32,
)
    requires
        metric.shows_speed(label, view, full),
    ensures
        metric.label@ == label,
        metric.unit@ == " RPM"@,
        view matches MetricView::Fresh { value } ==> metric.qualifier is None && metric.bar == Some(
            Bar::Speed { rpm: value, full },
        ) && metric.value@ == value.whole_text(),
        view matches MetricView::Stale { value, .. } ==> (metric.qualifier matches Some(word)
            && word@ == "Stale"@) && metric.bar == Some(Bar::Speed { rpm: value, full })
            && metric.value@ == value.whole_text(),
        view is Unavailable ==> metric.bar is None && metric.value@ == "--"@ && (
        metric.qualifier matches Some(word) && word@ == "N/A"@),
{
}

/// A section speaks of its own collector's failure when there is one, and of
/// itself otherwise.
pub proof fn a_section_names_its_own_failure(
    snapshot: TelemetrySnapshot,
    collector: Collector,
    usual: Seq<char>,
)
    ensures
        note_words(None, collector, usual) == usual,
        match snapshot.failure_of(collector) {
            Some(failure) => note_words(Some(&snapshot), collector, usual) == failure.detail@,
            None => note_words(Some(&snapshot), collector, usual) == usual,
        },
{
}

/// A section with a processor's load and temperature draws them in that order,
/// between none and a hundred, over the history it was given.
pub proof fn a_processor_shows_its_load_and_its_temperature(
    section: Section,
    load: MetricView<Measured>,
    temperature: MetricView<Measured>,
    history: Series,
)
    requires
        section.shows_processor(load, temperature, history),
    ensures
        section.metrics@.len() == 2,
        section.metrics@[0].shows("Load"@, "%"@, load, Wording::Whole, 0, 100_000),
        section.metrics@[1].shows(
            "Temperature"@,
            DEGREE_C@,
            temperature,
            Wording::OneDecimal,
            0,
            100_000,
        ),
        section.history == history,
        section.history_low == 0,
        section.history_high == 100_000,
{
}

/// The memory section tells what is in use and then what there is, and the GPU
/// section the name of the device and then where it was read.
pub proof fn a_section_tells_its_values_in_order(
    memory: MetricView<MemoryUsage>,
    name: MetricView<String>,
    snapshot: TelemetrySnapshot,
)
    ensures
        memory.held() matches Some(usage) ==> text::tells(
            memory_words(memory),
            seq![
                crate::telemetry::view::binary_bytes_text(usage.used_bytes as nat),
                crate::telemetry::view::binary_bytes_text(usage.total_bytes as nat),
            ],
        ),
        name.held() matches Some(held) ==> text::tells(
            gpu_words(name, Some(&snapshot)),
            seq![held@, snapshot.gpu.source@],
        ),
{
    if let Some(usage) = memory.held() {
        let used = crate::telemetry::view::binary_bytes_text(usage.used_bytes as nat);
        let total = crate::telemetry::view::binary_bytes_text(usage.total_bytes as nat);
        let rest = " in use"@;
        let parts = Seq::<Seq<char>>::empty();
        text::lemma_tells(" of "@, total, rest, parts);
        let rest = " of "@ + total + rest;
        let parts = seq![total] + parts;
        text::lemma_tells(Seq::<char>::empty(), used, rest, parts);
        let rest = Seq::<char>::empty() + used + rest;
        let parts = seq![used] + parts;
        assert(memory_words(memory) =~= rest);
        assert(parts =~= seq![used, total]);
    }
    if let Some(held) = name.held() {
        let rest = Seq::<char>::empty();
        let parts = Seq::<Seq<char>>::empty();
        text::lemma_tells(", read through "@, snapshot.gpu.source@, rest, parts);
        let rest = ", read through "@ + snapshot.gpu.source@ + rest;
        let parts = seq![snapshot.gpu.source@] + parts;
        text::lemma_tells(Seq::<char>::empty(), held@, rest, parts);
        let rest = Seq::<char>::empty() + held@ + rest;
        let parts = seq![held@] + parts;
        assert(gpu_words(name, Some(&snapshot)) =~= rest);
        assert(parts =~= seq![held@, snapshot.gpu.source@]);
    }
}

} // verus!
