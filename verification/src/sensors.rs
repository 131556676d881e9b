//! The sensor source adapters: what each vendor's raw sources say about the
//! graphics processor, in normalised units.
//!
//! Utilisation is in percent, clocks are in MHz, temperature is in thousandths
//! of a degree Celsius and memory is in bytes. A reading that a source does
//! not hold, or holds in a form that cannot be read, is absent.

use crate::text::{
    chars_eq, chars_of, parse_u32, parse_u64, split, split_chars, split_words, starts_with,
    starts_with_chars, string_views, text_view, trim, trim_chars, u32_of, u64_of, views, words,
};
use crate::seqs::{first_available, first_some, lemma_first_of_two, lemma_first_some_step};
use crate::vendor::VendorKind;
use vstd::prelude::*;

verus! {

/// What is known of a graphics processor. Each reading is there or not,
/// independently of the others.
#[derive(Debug, Clone, Copy, PartialEq, Eq)]
pub struct PartialGpuMetrics {
    /// Utilisation in percent, from 0 to 100.
    pub util_percent: Option<u8>,
    /// Temperature in thousandths of a degree Celsius.
    pub temp_millicelsius: Option<u64>,
    /// Core clock in MHz.
    pub core_clock_mhz: Option<u32>,
    /// Memory clock in MHz.
    pub mem_clock_mhz: Option<u32>,
    /// Video memory in bytes: what is used, and what there is.
    pub vram_bytes: Option<(u64, u64)>,
}

/// The raw sources of an AMD graphics processor: the text of each file that
/// could be read.
#[derive(Debug, Clone, PartialEq, Eq)]
pub struct AmdSources {
    /// The sysfs file with the utilisation in percent.
    pub busy_percent: Option<String>,
    /// The sysfs file with the core clock in Hz.
    pub core_clock_hz: Option<String>,
    /// The sysfs file with the memory clock in Hz.
    pub mem_clock_hz: Option<String>,
    /// The temperature files of the hardware-monitoring devices, each in
    /// thousandths of a degree Celsius, in the order in which they were found.
    pub hwmon_temps: Vec<String>,
    /// The sysfs file with the video memory in use, in bytes.
    pub vram_used: Option<String>,
    /// The sysfs file with the size of the video memory, in bytes.
    pub vram_total: Option<String>,
    /// The power-management text block of debugfs.
    pub pm_info: Option<String>,
}

/// The mathematical value of `AmdSources`.
pub struct AmdSourcesView {
    pub busy_percent: Option<Seq<char>>,
    pub core_clock_hz: Option<Seq<char>>,
    pub mem_clock_hz: Option<Seq<char>>,
    pub hwmon_temps: Seq<Seq<char>>,
    pub vram_used: Option<Seq<char>>,
    pub vram_total: Option<Seq<char>>,
    pub pm_info: Option<Seq<char>>,
}

/// The raw sources of every vendor.
#[derive(Debug, Clone, PartialEq, Eq)]
pub struct GpuSources {
    /// The files of an AMD graphics processor.
    pub amd: AmdSources,
    /// What NVIDIA's query tool printed when asked for utilisation,
    /// temperature, core clock and memory clock, without header and units.
    pub nvidia_query: Option<String>,
}

/// The mathematical value of `GpuSources`.
pub struct GpuSourcesView {
    pub amd: AmdSourcesView,
    pub nvidia_query: Option<Seq<char>>,
}

impl View for AmdSources {
    type V = AmdSourcesView;

    open spec fn view(&self) -> AmdSourcesView {
        AmdSourcesView {
            busy_percent: text_view(self.busy_percent),
            core_clock_hz: text_view(self.core_clock_hz),
            mem_clock_hz: text_view(self.mem_clock_hz),
            hwmon_temps: string_views(self.hwmon_temps@),
            vram_used: text_view(self.vram_used),
            vram_total: text_view(self.vram_total),
            pm_info: text_view(self.pm_info),
        }
    }
}

impl View for GpuSources {
    type V = GpuSourcesView;

    open spec fn view(&self) -> GpuSourcesView {
        GpuSourcesView { amd: self.amd@, nvidia_query: text_view(self.nvidia_query) }
    }
}

/// A reading that the power-management text block may hold.
#[derive(Debug, Clone, Copy, PartialEq, Eq, Structural)]
pub enum PmField {
    /// Utilisation in percent.
    Load,
    /// Temperature in degrees Celsius.
    Temperature,
    /// Core clock in MHz.
    CoreClock,
    /// Memory clock in MHz.
    MemClock,
}

/// The metrics of which nothing is known.
pub open spec fn all_absent() -> PartialGpuMetrics {
    PartialGpuMetrics {
        util_percent: None,
        temp_millicelsius: None,
        core_clock_mhz: None,
        mem_clock_mhz: None,
        vram_bytes: None,
    }
}

/// The `u64` that a file holds as its only content, white space aside.
pub open spec fn scalar_u64(content: Option<Seq<char>>) -> Option<u64> {
    match content {
        Some(text) => u64_of(trim(text)),
        None => None,
    }
}

/// The `u32` that a file holds as its only content, white space aside.
pub open spec fn scalar_u32(content: Option<Seq<char>>) -> Option<u32> {
    match content {
        Some(text) => u32_of(trim(text)),
        None => None,
    }
}

/// A number as a utilisation in percent; none above 100.
pub open spec fn as_percent(value: Option<u32>) -> Option<u8> {
    match value {
        Some(v) => if v <= 100 {
            Some(v as u8)
        } else {
            None
        },
        None => None,
    }
}

/// A frequency in Hz as whole MHz, rounded down; none that does not fit.
pub open spec fn hz_as_mhz(value: Option<u64>) -> Option<u32> {
    match value {
        Some(hz) => if hz / 1_000_000 <= u32::MAX {
            Some((hz / 1_000_000) as u32)
        } else {
            None
        },
        None => None,
    }
}

/// Whole degrees Celsius as thousandths of a degree.
pub open spec fn degrees_as_milli(value: Option<u32>) -> Option<u64> {
    match value {
        Some(degrees) => Some((degrees * 1000) as u64),
        None => None,
    }
}

/// Thousandths of a degree, widened.
pub open spec fn milli_widened(value: Option<u32>) -> Option<u64> {
    match value {
        Some(milli) => Some(milli as u64),
        None => None,
    }
}

/// The first of `tokens` that spells a `u32`, as that number.
pub open spec fn first_number(tokens: Seq<Seq<char>>) -> Option<u32> {
    first_some(tokens.map_values(|token: Seq<char>| u32_of(token)))
}

/// Whether a line of the power-management text block is marked as holding
/// `field`: the load and the temperature by how the line begins, the clocks
/// by the line's last token.
pub open spec fn marks(field: PmField, line: Seq<char>) -> bool {
    match field {
        PmField::Load => starts_with(trim(line), "GPU Load"@),
        PmField::Temperature => starts_with(trim(line), "GPU Temperature"@),
        PmField::CoreClock => words(line).len() > 0 && words(line).last() == "(SCLK)"@,
        PmField::MemClock => words(line).len() > 0 && words(line).last() == "(MCLK)"@,
    }
}

/// What a line of the power-management text block says of `field`: the first
/// number among its tokens, where the line is marked as holding the field.
pub open spec fn line_reading(field: PmField, line: Seq<char>) -> Option<u32> {
    if marks(field, line) {
        first_number(words(line))
    } else {
        None
    }
}

/// What `lines` say of `field`: the reading of the first line that has one.
pub open spec fn lines_reading(field: PmField, lines: Seq<Seq<char>>) -> Option<u32> {
    first_some(lines.map_values(|line: Seq<char>| line_reading(field, line)))
}

/// What the power-management text block says of `field`; nothing where the
/// block is absent.
pub open spec fn pm_reading(field: PmField, pm_info: Option<Seq<char>>) -> Option<u32> {
    match pm_info {
        Some(text) => lines_reading(field, split(text, '\n')),
        None => None,
    }
}

/// The first temperature file that holds a number, as that number.
pub open spec fn first_hwmon_temp(files: Seq<Seq<char>>) -> Option<u32> {
    first_some(files.map_values(|file: Seq<char>| u32_of(trim(file))))
}

/// The video memory that the two sysfs files give; none unless both do.
pub open spec fn vram_of(used: Option<Seq<char>>, total: Option<Seq<char>>) -> Option<(u64, u64)> {
    match (scalar_u64(used), scalar_u64(total)) {
        (Some(u), Some(t)) => Some((u, t)),
        _ => None,
    }
}

/// The metrics of an AMD graphics processor. For each reading the sysfs file
/// goes first, and the power-management text block of debugfs is asked only
/// where the file gives nothing.
pub open spec fn amd_metrics(sources: AmdSourcesView) -> PartialGpuMetrics {
    PartialGpuMetrics {
        util_percent: first_some(
            seq![
                as_percent(scalar_u32(sources.busy_percent)),
                as_percent(pm_reading(PmField::Load, sources.pm_info)),
            ],
        ),
        temp_millicelsius: first_some(
            seq![
                milli_widened(first_hwmon_temp(sources.hwmon_temps)),
                degrees_as_milli(pm_reading(PmField::Temperature, sources.pm_info)),
            ],
        ),
        core_clock_mhz: first_some(
            seq![
                hz_as_mhz(scalar_u64(sources.core_clock_hz)),
                pm_reading(PmField::CoreClock, sources.pm_info),
            ],
        ),
        mem_clock_mhz: first_some(
            seq![
                hz_as_mhz(scalar_u64(sources.mem_clock_hz)),
                pm_reading(PmField::MemClock, sources.pm_info),
            ],
        ),
        vram_bytes: vram_of(sources.vram_used, sources.vram_total),
    }
}

/// The metrics that one answer of NVIDIA's query tool gives: four fields
/// between commas, which are utilisation, temperature in degrees, core clock
/// and memory clock. An answer with another number of fields gives nothing.
pub open spec fn nvidia_fields(answer: Seq<char>) -> PartialGpuMetrics {
    let fields = split(trim(answer), ',');
    if fields.len() != 4 {
        all_absent()
    } else {
        PartialGpuMetrics {
            util_percent: as_percent(u32_of(trim(fields[0]))),
            temp_millicelsius: degrees_as_milli(u32_of(trim(fields[1]))),
            core_clock_mhz: u32_of(trim(fields[2])),
            mem_clock_mhz: u32_of(trim(fields[3])),
            vram_bytes: None,
        }
    }
}

/// The metrics of an NVIDIA graphics processor; nothing where the query tool
/// gave no answer.
pub open spec fn nvidia_metrics(answer: Option<Seq<char>>) -> PartialGpuMetrics {
    match answer {
        Some(text) => nvidia_fields(text),
        None => all_absent(),
    }
}

/// The metrics that the sources give for a graphics processor of `vendor`.
pub open spec fn metrics_of(vendor: VendorKind, sources: GpuSourcesView) -> PartialGpuMetrics {
    match vendor {
        VendorKind::Amd => amd_metrics(sources.amd),
        VendorKind::Nvidia => nvidia_metrics(sources.nvidia_query),
        VendorKind::Intel => all_absent(),
        VendorKind::Unknown => all_absent(),
    }
}

/// For every reading of an AMD graphics processor, what the sysfs file gives
/// stands wherever it gives something, whatever the text block of debugfs
/// says; and what the text block says stands wherever the file gives nothing.
pub proof fn lemma_amd_sysfs_goes_first(sources: AmdSourcesView)
    ensures
        amd_metrics(sources).util_percent == if as_percent(scalar_u32(sources.busy_percent))
            is Some {
            as_percent(scalar_u32(sources.busy_percent))
        } else {
            as_percent(pm_reading(PmField::Load, sources.pm_info))
        },
        amd_metrics(sources).temp_millicelsius == if first_hwmon_temp(sources.hwmon_temps)
            is Some {
            milli_widened(first_hwmon_temp(sources.hwmon_temps))
        } else {
            degrees_as_milli(pm_reading(PmField::Temperature, sources.pm_info))
        },
        amd_metrics(sources).core_clock_mhz == if hz_as_mhz(scalar_u64(sources.core_clock_hz))
            is Some {
            hz_as_mhz(scalar_u64(sources.core_clock_hz))
        } else {
            pm_reading(PmField::CoreClock, sources.pm_info)
        },
        amd_metrics(sources).mem_clock_mhz == if hz_as_mhz(scalar_u64(sources.mem_clock_hz))
            is Some {
            hz_as_mhz(scalar_u64(sources.mem_clock_hz))
        } else {
            pm_reading(PmField::MemClock, sources.pm_info)
        },
{
    lemma_first_of_two(
        as_percent(scalar_u32(sources.busy_percent)),
        as_percent(pm_reading(PmField::Load, sources.pm_info)),
    );
    lemma_first_of_two(
        milli_widened(first_hwmon_temp(sources.hwmon_temps)),
        degrees_as_milli(pm_reading(PmField::Temperature, sources.pm_info)),
    );
    lemma_first_of_two(
        hz_as_mhz(scalar_u64(sources.core_clock_hz)),
        pm_reading(PmField::CoreClock, sources.pm_info),
    );
    lemma_first_of_two(
        hz_as_mhz(scalar_u64(sources.mem_clock_hz)),
        pm_reading(PmField::MemClock, sources.pm_info),
    );
}

/// A utilisation that came out of `as_percent` is at most 100.
pub proof fn lemma_first_some_percent(first: Option<u32>, second: Option<u32>)
    ensures
        first_some(seq![as_percent(first), as_percent(second)]) matches Some(u) ==> u <= 100,
{
    lemma_first_of_two(as_percent(first), as_percent(second));
}

/// Whatever the sources hold, the metrics read from them are well formed.
pub proof fn lemma_metrics_well_formed(vendor: VendorKind, sources: GpuSourcesView)
    ensures
        metrics_of(vendor, sources).well_formed(),
{
    lemma_first_some_percent(
        scalar_u32(sources.amd.busy_percent),
        pm_reading(PmField::Load, sources.amd.pm_info),
    );
}

impl PartialGpuMetrics {
    /// Whether the readings are in their ranges: the utilisation is at most
    /// 100 percent.
    pub open spec fn well_formed(&self) -> bool {
        self.util_percent matches Some(u) ==> u <= 100
    }

    /// The metrics of which nothing is known.
    pub fn absent() -> (r: PartialGpuMetrics)
        ensures
            r == all_absent(),
    {
        PartialGpuMetrics {
            util_percent: None,
            temp_millicelsius: None,
            core_clock_mhz: None,
            mem_clock_mhz: None,
            vram_bytes: None,
        }
    }
}

/// The first of two readers that gives a value.
fn prefer<T: Copy>(first: Option<T>, second: Option<T>) -> (r: Option<T>)
    ensures
        r == first_some(seq![first, second]),
{
    let candidates: Vec<Option<T>> = vec![first, second];
    proof {
        assert(candidates@ == seq![first, second]);
    }
    first_available(candidates.as_slice())
}

/// The `u64` that a file holds as its only content, white space aside.
pub fn read_scalar_u64(content: &str) -> (r: Option<u64>)
    ensures
        r == u64_of(trim(content@)),
{
    let chars = chars_of(content);
    let trimmed = trim_chars(chars.as_slice());
    parse_u64(trimmed.as_slice())
}

/// The `u32` that a file holds as its only content, white space aside.
pub fn read_scalar_u32(content: &str) -> (r: Option<u32>)
    ensures
        r == u32_of(trim(content@)),
{
    let chars = chars_of(content);
    let trimmed = trim_chars(chars.as_slice());
    parse_u32(trimmed.as_slice())
}

/// The `u64` in a file that may be absent.
fn read_optional_u64(content: &Option<String>) -> (r: Option<u64>)
    ensures
        r == scalar_u64(text_view(*content)),
{
    match content {
        Some(text) => read_scalar_u64(text.as_str()),
        None => None,
    }
}

/// The `u32` in a file that may be absent.
fn read_optional_u32(content: &Option<String>) -> (r: Option<u32>)
    ensures
        r == scalar_u32(text_view(*content)),
{
    match content {
        Some(text) => read_scalar_u32(text.as_str()),
        None => None,
    }
}

/// A number as a utilisation in percent.
fn to_percent(value: Option<u32>) -> (r: Option<u8>)
    ensures
        r == as_percent(value),
{
    match value {
        Some(v) => if v <= 100 {
            Some(v as u8)
        } else {
            None
        },
        None => None,
    }
}

/// A frequency in Hz as whole MHz.
fn to_mhz(value: Option<u64>) -> (r: Option<u32>)
    ensures
        r == hz_as_mhz(value),
{
    match value {
        Some(hz) => {
            let mhz = hz / 1_000_000;
            if mhz <= u32::MAX as u64 {
                Some(mhz as u32)
            } else {
                None
            }
        },
        None => None,
    }
}

/// Whole degrees Celsius as thousandths of a degree.
fn to_milli(value: Option<u32>) -> (r: Option<u64>)
    ensures
        r == degrees_as_milli(value),
{
    match value {
        Some(degrees) => Some(degrees as u64 * 1000),
        None => None,
    }
}

/// Thousandths of a degree, widened.
fn widen(value: Option<u32>) -> (r: Option<u64>)
    ensures
        r == milli_widened(value),
{
    match value {
        Some(milli) => Some(milli as u64),
        None => None,
    }
}

/// The first of `tokens` that spells a `u32`.
fn read_first_number(tokens: &Vec<Vec<char>>) -> (r: Option<u32>)
    ensures
        r == first_number(views(tokens@)),
{
    let ghost readings = views(tokens@).map_values(|token: Seq<char>| u32_of(token));
    let mut i: usize = 0;
    proof {
        assert(readings.skip(0) == readings);
    }
    while i < tokens.len()
        invariant
            i <= tokens@.len(),
            readings == views(tokens@).map_values(|token: Seq<char>| u32_of(token)),
            first_some(readings) == first_some(readings.skip(i as int)),
        decreases tokens@.len() - i,
    {
        proof {
            lemma_first_some_step(readings, i as int);
            assert(readings[i as int] == u32_of(tokens@[i as int]@));
        }
        let parsed = parse_u32(tokens[i].as_slice());
        if parsed.is_some() {
            return parsed;
        }
        i += 1;
    }
    None
}

/// What one line of the power-management text block says of `field`.
fn read_line(field: PmField, line: &[char]) -> (r: Option<u32>)
    ensures
        r == line_reading(field, line@),
{
    let tokens = split_words(line);
    let marked = match field {
        PmField::Load => {
            let trimmed = trim_chars(line);
            starts_with_chars(trimmed.as_slice(), chars_of("GPU Load").as_slice())
        },
        PmField::Temperature => {
            let trimmed = trim_chars(line);
            starts_with_chars(trimmed.as_slice(), chars_of("GPU Temperature").as_slice())
        },
        PmField::CoreClock => {
            proof {
                if tokens@.len() > 0 {
                    assert(views(tokens@).last() == tokens@[tokens@.len() - 1]@);
                }
            }
            tokens.len() > 0 && chars_eq(
                tokens[tokens.len() - 1].as_slice(),
                chars_of("(SCLK)").as_slice(),
            )
        },
        PmField::MemClock => {
            proof {
                if tokens@.len() > 0 {
                    assert(views(tokens@).last() == tokens@[tokens@.len() - 1]@);
                }
            }
            tokens.len() > 0 && chars_eq(
                tokens[tokens.len() - 1].as_slice(),
                chars_of("(MCLK)").as_slice(),
            )
        },
    };
    if marked {
        read_first_number(&tokens)
    } else {
        None
    }
}

/// What the power-management text block of debugfs says of `field`: the
/// first number in the first marked line that holds one.
pub fn read_pm_field(field: PmField, pm_info: &str) -> (r: Option<u32>)
    ensures
        r == pm_reading(field, Some(pm_info@)),
{
    let chars = chars_of(pm_info);
    let lines = split_chars(chars.as_slice(), '\n');
    let ghost readings = views(lines@).map_values(|line: Seq<char>| line_reading(field, line));
    let mut i: usize = 0;
    proof {
        assert(readings.skip(0) == readings);
    }
    while i < lines.len()
        invariant
            i <= lines@.len(),
            views(lines@) == split(pm_info@, '\n'),
            readings == views(lines@).map_values(|line: Seq<char>| line_reading(field, line)),
            first_some(readings) == first_some(readings.skip(i as int)),
        decreases lines@.len() - i,
    {
        proof {
            lemma_first_some_step(readings, i as int);
            assert(readings[i as int] == line_reading(field, lines@[i as int]@));
        }
        let reading = read_line(field, lines[i].as_slice());
        if reading.is_some() {
            return reading;
        }
        i += 1;
    }
    None
}

/// What a power-management text block that may be absent says of `field`.
fn read_optional_pm_field(field: PmField, pm_info: &Option<String>) -> (r: Option<u32>)
    ensures
        r == pm_reading(field, text_view(*pm_info)),
{
    match pm_info {
        Some(text) => read_pm_field(field, text.as_str()),
        None => None,
    }
}

/// The first temperature file that holds a number.
fn read_hwmon_temp(files: &Vec<String>) -> (r: Option<u32>)
    ensures
        r == first_hwmon_temp(string_views(files@)),
{
    let ghost readings = string_views(files@).map_values(|file: Seq<char>| u32_of(trim(file)));
    let mut i: usize = 0;
    proof {
        assert(readings.skip(0) == readings);
    }
    while i < files.len()
        invariant
            i <= files@.len(),
            readings == string_views(files@).map_values(|file: Seq<char>| u32_of(trim(file))),
            first_some(readings) == first_some(readings.skip(i as int)),
        decreases files@.len() - i,
    {
        proof {
            lemma_first_some_step(readings, i as int);
            assert(readings[i as int] == u32_of(trim(files@[i as int]@)));
        }
        let parsed = read_scalar_u32(files[i].as_str());
        if parsed.is_some() {
            return parsed;
        }
        i += 1;
    }
    None
}

/// The metrics of an AMD graphics processor, each from the most preferred
/// source that gives it.
pub fn read_amd_metrics(sources: &AmdSources) -> (r: PartialGpuMetrics)
    ensures
        r == amd_metrics(sources@),
{
    let util = prefer(
        to_percent(read_optional_u32(&sources.busy_percent)),
        to_percent(read_optional_pm_field(PmField::Load, &sources.pm_info)),
    );
    let temp = prefer(
        widen(read_hwmon_temp(&sources.hwmon_temps)),
        to_milli(read_optional_pm_field(PmField::Temperature, &sources.pm_info)),
    );
    let core = prefer(
        to_mhz(read_optional_u64(&sources.core_clock_hz)),
        read_optional_pm_field(PmField::CoreClock, &sources.pm_info),
    );
    let mem = prefer(
        to_mhz(read_optional_u64(&sources.mem_clock_hz)),
        read_optional_pm_field(PmField::MemClock, &sources.pm_info),
    );
    let vram = match (
        read_optional_u64(&sources.vram_used),
        read_optional_u64(&sources.vram_total),
    ) {
        (Some(u), Some(t)) => Some((u, t)),
        _ => None,
    };
    PartialGpuMetrics {
        util_percent: util,
        temp_millicelsius: temp,
        core_clock_mhz: core,
        mem_clock_mhz: mem,
        vram_bytes: vram,
    }
}

/// The `u32` that one field of the query tool's answer holds.
fn read_field(field: &Vec<char>) -> (r: Option<u32>)
    ensures
        r == u32_of(trim(field@)),
{
    let trimmed = trim_chars(field.as_slice());
    parse_u32(trimmed.as_slice())
}

/// The metrics that one answer of NVIDIA's query tool gives.
pub fn read_nvidia_metrics(answer: &str) -> (r: PartialGpuMetrics)
    ensures
        r == nvidia_fields(answer@),
{
    let chars = chars_of(answer);
    let trimmed = trim_chars(chars.as_slice());
    let fields = split_chars(trimmed.as_slice(), ',');
    if fields.len() != 4 {
        return PartialGpuMetrics::absent();
    }
    proof {
        let all = views(fields@);
        assert(all[0] == fields@[0]@);
        assert(all[1] == fields@[1]@);
        assert(all[2] == fields@[2]@);
        assert(all[3] == fields@[3]@);
    }
    PartialGpuMetrics {
        util_percent: to_percent(read_field(&fields[0])),
        temp_millicelsius: to_milli(read_field(&fields[1])),
        core_clock_mhz: read_field(&fields[2]),
        mem_clock_mhz: read_field(&fields[3]),
        vram_bytes: None,
    }
}

/// Reads the metrics of a graphics processor of `vendor` out of the raw
/// sources. Nothing is known of an Intel processor, nor of one whose vendor
/// is unknown.
pub fn read_metrics(vendor: VendorKind, sources: &GpuSources) -> (r: PartialGpuMetrics)
    ensures
        r == metrics_of(vendor, sources@),
        vendor == VendorKind::Unknown || vendor == VendorKind::Intel ==> r == all_absent(),
        r.well_formed(),
{
    proof {
        lemma_metrics_well_formed(vendor, sources@);
    }
    match vendor {
        VendorKind::Amd => read_amd_metrics(&sources.amd),
        VendorKind::Nvidia => match &sources.nvidia_query {
            Some(answer) => read_nvidia_metrics(answer.as_str()),
            None => PartialGpuMetrics::absent(),
        },
        VendorKind::Intel => PartialGpuMetrics::absent(),
        VendorKind::Unknown => PartialGpuMetrics::absent(),
    }
}

} // verus!
