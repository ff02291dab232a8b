//! A snapshot of what the host has to offer: memory, storage and processor
//! cores, read from the reports that the system gives on itself.

use vstd::prelude::*;
use vstd::slice::slice_subrange;
use crate::numbers::{parse_u64, parsed_u64, NumberError};
use crate::platform::Platform;
use crate::reports::{
    add_up_figures, find_first_figure, first_figure, second_line, sum_of_figures, Figure,
};
use crate::text::{chars_of, lines, nth_word, nth_word_bounds, trim, trim_bounds};

verus! {

/// The number of bytes in one gigabyte, as every figure of this library
/// counts it.
pub const GIB: u64 = 1_073_741_824;

/// The size of a page of memory where the report names none, in bytes.
pub const DEFAULT_PAGE_SIZE: u64 = 4096;

/// What the host had at the moment it was measured. All amounts are in
/// bytes.
#[derive(Clone, Copy, Debug, PartialEq, Eq)]
pub struct SystemResources {
    pub total_memory_bytes: u64,
    pub available_memory_bytes: u64,
    pub available_storage_bytes: u64,
    pub cpu_cores: usize,
}

/// One of the amounts that a snapshot is made of.
#[derive(Clone, Copy, Debug, PartialEq, Eq)]
pub enum Metric {
    TotalMemory,
    AvailableMemory,
    AvailableStorage,
}

/// Why an amount could not be had.
#[derive(Clone, Debug, PartialEq, Eq)]
pub enum ProbeFailure {
    /// The system gave no report.
    Unavailable { reason: String },
    /// No line of the report holds the amount.
    FigureMissing,
    /// The report has too few lines or columns.
    Malformed,
    /// What stands where the amount should is not a number.
    NotANumber(NumberError),
    /// The amount in bytes passes the greatest `u64`.
    TooLarge,
}

/// An amount that could not be had, and why.
#[derive(Clone, Debug, PartialEq, Eq)]
pub struct ProbeError {
    pub metric: Metric,
    pub failure: ProbeFailure,
}

/// What to say where no line of the report for `metric` holds the amount.
pub open spec fn missing_text(platform: Platform, metric: Metric) -> Seq<char> {
    match (platform, metric) {
        (Platform::Linux, Metric::TotalMemory) => "Could not find MemTotal in /proc/meminfo"@,
        (Platform::Linux, Metric::AvailableMemory) =>
            "Could not find MemAvailable in /proc/meminfo"@,
        (Platform::Windows, Metric::TotalMemory) => "Could not parse memory information"@,
        (Platform::Windows, Metric::AvailableMemory) =>
            "Could not parse available memory information"@,
        (Platform::MacOs, Metric::AvailableMemory) => "Could not find the count of free pages"@,
        _ => "Could not find the amount"@,
    }
}

/// What to say before the reason why the amount for `metric` is not a
/// number.
pub open spec fn not_a_number_prefix(platform: Platform, metric: Metric) -> Seq<char> {
    match (platform, metric) {
        (Platform::Windows, Metric::AvailableStorage) => "Failed to parse storage size: "@,
        (_, Metric::AvailableStorage) => "Failed to parse available storage: "@,
        _ => "Failed to parse memory size: "@,
    }
}

impl ProbeError {
    /// The error in words, for a host of kind `platform`.
    pub open spec fn text(self, platform: Platform) -> Seq<char> {
        match self.failure {
            ProbeFailure::Unavailable { reason } => reason@,
            ProbeFailure::FigureMissing => missing_text(platform, self.metric),
            ProbeFailure::Malformed => "Could not parse df output"@,
            ProbeFailure::NotANumber(e) => not_a_number_prefix(platform, self.metric) + e.text(),
            ProbeFailure::TooLarge => "The amount does not fit in 64 bits"@,
        }
    }

    /// The error in words, for a host of kind `platform`.
    pub fn message(&self, platform: Platform) -> (text: String)
        ensures
            text@ == self.text(platform),
    {
        match &self.failure {
            ProbeFailure::Unavailable { reason } => reason.clone(),
            ProbeFailure::FigureMissing => match (platform, self.metric) {
                (Platform::Linux, Metric::TotalMemory) =>
                    "Could not find MemTotal in /proc/meminfo".to_owned(),
                (Platform::Linux, Metric::AvailableMemory) =>
                    "Could not find MemAvailable in /proc/meminfo".to_owned(),
                (Platform::Windows, Metric::TotalMemory) =>
                    "Could not parse memory information".to_owned(),
                (Platform::Windows, Metric::AvailableMemory) =>
                    "Could not parse available memory information".to_owned(),
                (Platform::MacOs, Metric::AvailableMemory) =>
                    "Could not find the count of free pages".to_owned(),
                _ => "Could not find the amount".to_owned(),
            },
            ProbeFailure::Malformed => "Could not parse df output".to_owned(),
            ProbeFailure::NotANumber(e) => {
                let mut text = match (platform, self.metric) {
                    (Platform::Windows, Metric::AvailableStorage) =>
                        "Failed to parse storage size: ".to_owned(),
                    (_, Metric::AvailableStorage) =>
                        "Failed to parse available storage: ".to_owned(),
                    _ => "Failed to parse memory size: ".to_owned(),
                };
                let reason = e.message();
                text.append(reason.as_str());
                text
            },
            ProbeFailure::TooLarge => "The amount does not fit in 64 bits".to_owned(),
        }
    }
}

/// A figure, or the failure that there is none.
pub open spec fn figure_or_missing(figure: Option<u64>) -> Result<u64, ProbeFailure> {
    match figure {
        Some(n) => Ok(n),
        None => Err(ProbeFailure::FigureMissing),
    }
}

/// The number that all of `report` stands for, white space at its ends
/// aside.
pub open spec fn whole_number_in(report: Seq<char>) -> Result<u64, ProbeFailure> {
    match parsed_u64(trim(report)) {
        Ok(n) => Ok(n),
        Err(e) => Err(ProbeFailure::NotANumber(e)),
    }
}

/// The free memory that a report of memory pages states: the sum of its
/// counts of free pages, times the page size that it names or else the
/// default.
pub open spec fn free_pages_in(report: Seq<char>) -> Result<u64, ProbeFailure> {
    let page_size = match first_figure(lines(report), Figure::BeforeBytes, "page size of "@) {
        Some(size) => size,
        None => DEFAULT_PAGE_SIZE,
    };
    match sum_of_figures(lines(report), Figure::AfterColon, "Pages free:"@) {
        Some(pages) => if pages * page_size <= u64::MAX {
            Ok((pages * page_size) as u64)
        } else {
            Err(ProbeFailure::TooLarge)
        },
        None => Err(ProbeFailure::FigureMissing),
    }
}

/// The free space that a table of file systems states: the fourth column
/// of its second line.
pub open spec fn free_space_in_table(report: Seq<char>) -> Result<u64, ProbeFailure> {
    if lines(report).len() >= 2 {
        match nth_word(lines(report)[1], 3) {
            Some(word) => match parsed_u64(word) {
                Ok(n) => Ok(n),
                Err(e) => Err(ProbeFailure::NotANumber(e)),
            },
            None => Err(ProbeFailure::Malformed),
        }
    } else {
        Err(ProbeFailure::Malformed)
    }
}

/// The total memory that `report` states, in bytes. On Linux the report
/// is the kernel's memory information, on Windows the computer system's
/// values, on macOS the value of the memory size.
pub open spec fn total_memory_in(platform: Platform, report: Seq<char>) -> Result<
    u64,
    ProbeFailure,
> {
    match platform {
        Platform::Linux => figure_or_missing(
            first_figure(lines(report), Figure::SecondWordKilobytes, "MemTotal:"@),
        ),
        Platform::Windows => figure_or_missing(
            first_figure(lines(report), Figure::AssignedBytes, "TotalPhysicalMemory="@),
        ),
        Platform::MacOs => whole_number_in(report),
    }
}

/// The available memory that `report` states, in bytes. On Linux the
/// report is the kernel's memory information, on Windows the operating
/// system's values, on macOS the statistics of virtual memory.
pub open spec fn available_memory_in(platform: Platform, report: Seq<char>) -> Result<
    u64,
    ProbeFailure,
> {
    match platform {
        Platform::Linux => figure_or_missing(
            first_figure(lines(report), Figure::SecondWordKilobytes, "MemAvailable:"@),
        ),
        Platform::Windows => figure_or_missing(
            first_figure(lines(report), Figure::AssignedKilobytes, "FreePhysicalMemory="@),
        ),
        Platform::MacOs => free_pages_in(report),
    }
}

/// The free storage that `report` states, in bytes. On Windows the report
/// is the free space of one drive, elsewhere a table of file systems in
/// bytes.
pub open spec fn available_storage_in(platform: Platform, report: Seq<char>) -> Result<
    u64,
    ProbeFailure,
> {
    match platform {
        Platform::Windows => whole_number_in(report),
        _ => free_space_in_table(report),
    }
}

/// The number that all of `report` stands for.
fn read_whole_number(report: &[char]) -> (r: Result<u64, ProbeFailure>)
    ensures
        r == whole_number_in(report@),
{
    let (a, b) = trim_bounds(report);
    match parse_u64(slice_subrange(report, a, b)) {
        Ok(n) => Ok(n),
        Err(e) => Err(ProbeFailure::NotANumber(e)),
    }
}

/// The first figure in `report`, or the failure that there is none.
fn read_first_figure(report: &[char], kind: Figure, key: &str) -> (r: Result<u64, ProbeFailure>)
    ensures
        r == figure_or_missing(first_figure(lines(report@), kind, key@)),
{
    let k = chars_of(key);
    match find_first_figure(report, kind, k.as_slice()) {
        Some(n) => Ok(n),
        None => Err(ProbeFailure::FigureMissing),
    }
}

/// The free memory that a report of memory pages states.
fn read_free_pages(report: &[char]) -> (r: Result<u64, ProbeFailure>)
    ensures
        r == free_pages_in(report@),
{
    let size_key = chars_of("page size of ");
    let page_size: u64 = match find_first_figure(report, Figure::BeforeBytes, size_key.as_slice()) {
        Some(size) => size,
        None => DEFAULT_PAGE_SIZE,
    };
    let pages_key = chars_of("Pages free:");
    match add_up_figures(report, Figure::AfterColon, pages_key.as_slice()) {
        Some(pages) => {
            if page_size == 0 {
                assert(pages * page_size == 0) by (nonlinear_arith)
                    requires
                        page_size == 0,
                ;
                return Ok(0);
            }
            if pages > u64::MAX as u128 {
                assert(pages * page_size > u64::MAX) by (nonlinear_arith)
                    requires
                        pages > u64::MAX,
                        page_size >= 1,
                ;
                return Err(ProbeFailure::TooLarge);
            }
            assert(pages * page_size <= u64::MAX * u64::MAX) by (nonlinear_arith)
                requires
                    pages <= u64::MAX,
                    page_size <= u64::MAX,
            ;
            let bytes: u128 = pages * page_size as u128;
            if bytes <= u64::MAX as u128 {
                Ok(bytes as u64)
            } else {
                Err(ProbeFailure::TooLarge)
            }
        },
        None => Err(ProbeFailure::FigureMissing),
    }
}

/// The free space that a table of file systems states.
fn read_free_space_in_table(report: &[char]) -> (r: Result<u64, ProbeFailure>)
    ensures
        r == free_space_in_table(report@),
{
    match second_line(report) {
        Some((a, b)) => {
            let line = slice_subrange(report, a, b);
            match nth_word_bounds(line, 3) {
                Some((c, d)) => match parse_u64(slice_subrange(line, c, d)) {
                    Ok(n) => Ok(n),
                    Err(e) => Err(ProbeFailure::NotANumber(e)),
                },
                None => Err(ProbeFailure::Malformed),
            }
        },
        None => Err(ProbeFailure::Malformed),
    }
}

/// The total memory that `report` states, in bytes.
pub fn get_total_memory(platform: Platform, report: &str) -> (r: Result<u64, ProbeFailure>)
    ensures
        r == total_memory_in(platform, report@),
{
    let text = chars_of(report);
    match platform {
        Platform::Linux => read_first_figure(
            text.as_slice(),
            Figure::SecondWordKilobytes,
            "MemTotal:",
        ),
        Platform::Windows => read_first_figure(
            text.as_slice(),
            Figure::AssignedBytes,
            "TotalPhysicalMemory=",
        ),
        Platform::MacOs => read_whole_number(text.as_slice()),
    }
}

/// The available memory that `report` states, in bytes.
pub fn get_available_memory(platform: Platform, report: &str) -> (r: Result<u64, ProbeFailure>)
    ensures
        r == available_memory_in(platform, report@),
{
    let text = chars_of(report);
    match platform {
        Platform::Linux => read_first_figure(
            text.as_slice(),
            Figure::SecondWordKilobytes,
            "MemAvailable:",
        ),
        Platform::Windows => read_first_figure(
            text.as_slice(),
            Figure::AssignedKilobytes,
            "FreePhysicalMemory=",
        ),
        Platform::MacOs => read_free_pages(text.as_slice()),
    }
}

/// The free storage that `report` states, in bytes.
pub fn get_available_storage_for_path(platform: Platform, report: &str) -> (r: Result<
    u64,
    ProbeFailure,
>)
    ensures
        r == available_storage_in(platform, report@),
{
    let text = chars_of(report);
    match platform {
        Platform::Windows => read_whole_number(text.as_slice()),
        _ => read_free_space_in_table(text.as_slice()),
    }
}

/// The drive that a Windows path is on: its first two characters where the
/// second is a colon, else `C:`.
pub open spec fn drive_of(path: Seq<char>) -> Seq<char> {
    if path.len() >= 2 && path[1] == ':' {
        path.take(2)
    } else {
        "C:"@
    }
}

/// The drive that a Windows path is on.
pub fn storage_drive(path: &str) -> (drive: String)
    ensures
        drive@ == drive_of(path@),
{
    let text = chars_of(path);
    if text.len() >= 2 && text[1] == ':' {
        path.substring_char(0, 2).to_owned()
    } else {
        "C:".to_owned()
    }
}

/// The number of processor cores: what the system hints at, or one where
/// it gives no hint.
pub fn get_cpu_cores(hint: Option<usize>) -> (cores: usize)
    ensures
        cores == match hint {
            Some(n) => n,
            None => 1,
        },
{
    match hint {
        Some(n) => n,
        None => 1,
    }
}

/// What a report, or the want of one, gives for an amount.
pub open spec fn reading(
    report: Result<String, String>,
    read: spec_fn(Seq<char>) -> Result<u64, ProbeFailure>,
) -> Result<u64, ProbeFailure> {
    match report {
        Ok(text) => read(text@),
        Err(reason) => Err(ProbeFailure::Unavailable { reason }),
    }
}

/// The snapshot that three reports and a hint give, or the first amount in
/// the order total memory, available memory, available storage that could
/// not be had.
pub open spec fn resources_in(
    platform: Platform,
    total_memory: Result<String, String>,
    available_memory: Result<String, String>,
    available_storage: Result<String, String>,
    cores_hint: Option<usize>,
) -> Result<SystemResources, ProbeError> {
    let total = reading(total_memory, |r: Seq<char>| total_memory_in(platform, r));
    let available = reading(available_memory, |r: Seq<char>| available_memory_in(platform, r));
    let storage = reading(available_storage, |r: Seq<char>| available_storage_in(platform, r));
    match (total, available, storage) {
        (Err(failure), _, _) => Err(ProbeError { metric: Metric::TotalMemory, failure }),
        (Ok(_), Err(failure), _) => Err(ProbeError { metric: Metric::AvailableMemory, failure }),
        (Ok(_), Ok(_), Err(failure)) => Err(
            ProbeError { metric: Metric::AvailableStorage, failure },
        ),
        (Ok(t), Ok(a), Ok(s)) => Ok(
            SystemResources {
                total_memory_bytes: t,
                available_memory_bytes: a,
                available_storage_bytes: s,
                cpu_cores: match cores_hint {
                    Some(n) => n,
                    None => 1,
                },
            },
        ),
    }
}

/// The snapshot of the host that its reports give. Each report is the
/// text that the system gave, or the reason why it gave none.
pub fn get_system_resources(
    platform: Platform,
    total_memory: &Result<String, String>,
    available_memory: &Result<String, String>,
    available_storage: &Result<String, String>,
    cores_hint: Option<usize>,
) -> (r: Result<SystemResources, ProbeError>)
    ensures
        r == resources_in(
            platform,
            *total_memory,
            *available_memory,
            *available_storage,
            cores_hint,
        ),
{
    let total = match total_memory {
        Ok(text) => get_total_memory(platform, text.as_str()),
        Err(reason) => Err(ProbeFailure::Unavailable { reason: reason.clone() }),
    };
    let total_memory_bytes = match total {
        Ok(n) => n,
        Err(failure) => {
            return Err(ProbeError { metric: Metric::TotalMemory, failure });
        },
    };
    let available = match available_memory {
        Ok(text) => get_available_memory(platform, text.as_str()),
        Err(reason) => Err(ProbeFailure::Unavailable { reason: reason.clone() }),
    };
    let available_memory_bytes = match available {
        Ok(n) => n,
        Err(failure) => {
            return Err(ProbeError { metric: Metric::AvailableMemory, failure });
        },
    };
    let storage = match available_storage {
        Ok(text) => get_available_storage_for_path(platform, text.as_str()),
        Err(reason) => Err(ProbeFailure::Unavailable { reason: reason.clone() }),
    };
    let available_storage_bytes = match storage {
        Ok(n) => n,
        Err(failure) => {
            return Err(ProbeError { metric: Metric::AvailableStorage, failure });
        },
    };
    Ok(
        SystemResources {
            total_memory_bytes,
            available_memory_bytes,
            available_storage_bytes,
            cpu_cores: get_cpu_cores(cores_hint),
        },
    )
}

} // verus!
