use model_inventory::numbers::NumberError;
use model_inventory::platform::Platform;
use model_inventory::reports::{add_up_figures, find_first_figure, read_figure, second_line, Figure};
use model_inventory::resources::{
    get_available_memory, get_available_storage_for_path, get_cpu_cores, get_system_resources,
    get_total_memory, storage_drive, Metric, ProbeError, ProbeFailure, SystemResources,
};

const MEMINFO: &str = "MemTotal:       16314380 kB\nMemFree:          252144 kB\nMemAvailable:    8123456 kB\nBuffers:          123456 kB\n";

const VM_STAT: &str = "Mach Virtual Memory Statistics: (page size of 16384 bytes)\nPages free:                               12345.\nPages active:                            456789.\nPages inactive:                          400000.\n";

const DF: &str = "Filesystem        1B-blocks         Used    Available Use% Mounted on\n/dev/nvme0n1p2 502392610816 123456789012 353352327168  26% /\n";

fn chars(s: &str) -> Vec<char> {
    s.chars().collect()
}

#[test]
fn linux_memory_is_read_in_kilobytes() {
    assert_eq!(get_total_memory(Platform::Linux, MEMINFO), Ok(16314380 * 1024));
    assert_eq!(get_available_memory(Platform::Linux, MEMINFO), Ok(8123456 * 1024));
}

#[test]
fn linux_memory_without_the_line_is_missing() {
    let report = "MemFree: 1 kB\nSwapTotal: 2 kB\n";
    assert_eq!(get_total_memory(Platform::Linux, report), Err(ProbeFailure::FigureMissing));
    assert_eq!(get_available_memory(Platform::Linux, report), Err(ProbeFailure::FigureMissing));
    assert_eq!(get_total_memory(Platform::Linux, ""), Err(ProbeFailure::FigureMissing));
}

#[test]
fn linux_memory_passes_over_lines_that_hold_no_number() {
    let report = "MemTotal: lots kB\nMemTotal:\nMemTotal: 12 kB\nMemTotal: 13 kB\n";
    assert_eq!(get_total_memory(Platform::Linux, report), Ok(12 * 1024));
    // The key has to begin the line.
    assert_eq!(
        get_total_memory(Platform::Linux, " MemTotal: 12 kB\nXMemTotal: 5 kB"),
        Err(ProbeFailure::FigureMissing)
    );
    // A number of kilobytes that is too many bytes is no figure.
    let report = "MemTotal: 18014398509481984 kB\nMemTotal: 18014398509481983 kB\n";
    assert_eq!(get_total_memory(Platform::Linux, report), Ok(18014398509481983 * 1024));
}

#[test]
fn windows_memory_is_read_after_the_equals_sign() {
    let total = "\r\r\n\r\r\nTotalPhysicalMemory=17098178560\r\r\n\r\r\n";
    assert_eq!(get_total_memory(Platform::Windows, total), Ok(17098178560));
    let free = "\r\nFreePhysicalMemory=8123456\r\n";
    assert_eq!(get_available_memory(Platform::Windows, free), Ok(8123456 * 1024));
    assert_eq!(get_total_memory(Platform::Windows, free), Err(ProbeFailure::FigureMissing));
    assert_eq!(
        get_total_memory(Platform::Windows, "TotalPhysicalMemory= 5 =7"),
        Ok(5)
    );
    assert_eq!(
        get_total_memory(Platform::Windows, "TotalPhysicalMemory=\nTotalPhysicalMemory=9"),
        Ok(9)
    );
}

#[test]
fn macos_total_memory_is_the_whole_report() {
    assert_eq!(get_total_memory(Platform::MacOs, "17179869184\n"), Ok(17179869184));
    assert_eq!(get_total_memory(Platform::MacOs, "  +42  "), Ok(42));
    assert_eq!(
        get_total_memory(Platform::MacOs, "\n"),
        Err(ProbeFailure::NotANumber(NumberError::Empty))
    );
    assert_eq!(
        get_total_memory(Platform::MacOs, "16 GB"),
        Err(ProbeFailure::NotANumber(NumberError::InvalidDigit))
    );
    assert_eq!(
        get_total_memory(Platform::MacOs, "18446744073709551616"),
        Err(ProbeFailure::NotANumber(NumberError::Overflow))
    );
}

#[test]
fn macos_available_memory_is_free_pages_times_page_size() {
    assert_eq!(get_available_memory(Platform::MacOs, VM_STAT), Ok(12345 * 16384));
    // Without a page size the default holds.
    assert_eq!(get_available_memory(Platform::MacOs, "Pages free: 10.\n"), Ok(10 * 4096));
    // Every count of free pages is added.
    assert_eq!(
        get_available_memory(Platform::MacOs, "Pages free: 10.\nPages free: 1.5.\nPages free: x\n"),
        Ok(25 * 4096)
    );
    assert_eq!(
        get_available_memory(Platform::MacOs, "(page size of 0 bytes)\nPages free: 10.\n"),
        Ok(0)
    );
}

#[test]
fn macos_available_memory_without_free_pages_is_missing() {
    assert_eq!(
        get_available_memory(Platform::MacOs, "Mach Virtual Memory Statistics: (page size of 4096 bytes)\n"),
        Err(ProbeFailure::FigureMissing)
    );
    assert_eq!(get_available_memory(Platform::MacOs, ""), Err(ProbeFailure::FigureMissing));
    assert_eq!(
        get_available_memory(Platform::MacOs, "Pages free: many.\n"),
        Err(ProbeFailure::FigureMissing)
    );
}

#[test]
fn macos_available_memory_that_does_not_fit_is_too_large() {
    let report = "(page size of 4096 bytes)\nPages free: 18446744073709551615.\n";
    assert_eq!(get_available_memory(Platform::MacOs, report), Err(ProbeFailure::TooLarge));
    let report = "(page size of 1 bytes)\nPages free: 18446744073709551615.\nPages free: 1.\n";
    assert_eq!(get_available_memory(Platform::MacOs, report), Err(ProbeFailure::TooLarge));
    let report = "(page size of 1 bytes)\nPages free: 18446744073709551615.\n";
    assert_eq!(get_available_memory(Platform::MacOs, report), Ok(u64::MAX));
}

#[test]
fn storage_is_the_fourth_column_of_the_second_line() {
    assert_eq!(get_available_storage_for_path(Platform::Linux, DF), Ok(353352327168));
    assert_eq!(get_available_storage_for_path(Platform::MacOs, DF), Ok(353352327168));
    assert_eq!(
        get_available_storage_for_path(Platform::Linux, "Filesystem 1B-blocks Used Available\n"),
        Err(ProbeFailure::Malformed)
    );
    assert_eq!(get_available_storage_for_path(Platform::Linux, ""), Err(ProbeFailure::Malformed));
    assert_eq!(
        get_available_storage_for_path(Platform::Linux, "head\n/dev/sda1 1 2\n"),
        Err(ProbeFailure::Malformed)
    );
    assert_eq!(
        get_available_storage_for_path(Platform::Linux, "head\n/dev/sda1 1 2 3G 5%\n"),
        Err(ProbeFailure::NotANumber(NumberError::InvalidDigit))
    );
    assert_eq!(get_available_storage_for_path(Platform::Linux, "head\na b c 7"), Ok(7));
}

#[test]
fn windows_storage_is_the_whole_report() {
    assert_eq!(get_available_storage_for_path(Platform::Windows, "123456789\r\n"), Ok(123456789));
    assert_eq!(
        get_available_storage_for_path(Platform::Windows, "\r\n"),
        Err(ProbeFailure::NotANumber(NumberError::Empty))
    );
}

#[test]
fn drive_is_read_off_the_path() {
    assert_eq!(storage_drive("D:\\Users\\u"), "D:");
    assert_eq!(storage_drive("\\\\server\\share"), "C:");
    assert_eq!(storage_drive("d:"), "d:");
    assert_eq!(storage_drive("x"), "C:");
    assert_eq!(storage_drive(""), "C:");
    assert_eq!(storage_drive("é:\\x"), "é:");
}

#[test]
fn cores_fall_back_to_one() {
    assert_eq!(get_cpu_cores(Some(12)), 12);
    assert_eq!(get_cpu_cores(None), 1);
}

#[test]
fn snapshot_is_made_of_three_reports_and_a_hint() {
    let meminfo = Ok(MEMINFO.to_string());
    let df = Ok(DF.to_string());
    assert_eq!(
        get_system_resources(Platform::Linux, &meminfo, &meminfo, &df, Some(8)),
        Ok(SystemResources {
            total_memory_bytes: 16314380 * 1024,
            available_memory_bytes: 8123456 * 1024,
            available_storage_bytes: 353352327168,
            cpu_cores: 8,
        })
    );
    assert_eq!(
        get_system_resources(Platform::Linux, &meminfo, &meminfo, &df, None).map(|r| r.cpu_cores),
        Ok(1)
    );
}

#[test]
fn first_amount_that_fails_is_the_error() {
    let meminfo = Ok(MEMINFO.to_string());
    let df = Ok(DF.to_string());
    let nothing = Ok(String::new());
    let gone: Result<String, String> = Err("no such file".to_string());
    assert_eq!(
        get_system_resources(Platform::Linux, &gone, &nothing, &nothing, Some(8)),
        Err(ProbeError {
            metric: Metric::TotalMemory,
            failure: ProbeFailure::Unavailable { reason: "no such file".to_string() },
        })
    );
    assert_eq!(
        get_system_resources(Platform::Linux, &meminfo, &nothing, &gone, Some(8)),
        Err(ProbeError { metric: Metric::AvailableMemory, failure: ProbeFailure::FigureMissing })
    );
    assert_eq!(
        get_system_resources(Platform::Linux, &meminfo, &meminfo, &nothing, Some(8)),
        Err(ProbeError { metric: Metric::AvailableStorage, failure: ProbeFailure::Malformed })
    );
    assert_eq!(
        get_system_resources(Platform::Linux, &meminfo, &meminfo, &gone, Some(8)),
        Err(ProbeError {
            metric: Metric::AvailableStorage,
            failure: ProbeFailure::Unavailable { reason: "no such file".to_string() },
        })
    );
    assert!(get_system_resources(Platform::Linux, &meminfo, &meminfo, &df, Some(8)).is_ok());
}

#[test]
fn figures_are_read_by_their_kind() {
    let key = chars("Key");
    let line = chars("Key:  12 kB");
    assert_eq!(read_figure(Figure::SecondWordKilobytes, &key, &line), Some(12 * 1024));
    assert_eq!(read_figure(Figure::AfterColon, &key, &line), None);
    assert_eq!(read_figure(Figure::AfterColon, &key, &chars("Key: 1.2.3. ")), Some(123));
    assert_eq!(read_figure(Figure::AfterColon, &key, &chars("Key: 1 : 2")), Some(1));
    assert_eq!(read_figure(Figure::AssignedBytes, &key, &chars("Key= 7 ")), Some(7));
    assert_eq!(read_figure(Figure::AssignedKilobytes, &key, &chars("Key=7")), Some(7 * 1024));
    assert_eq!(read_figure(Figure::AssignedBytes, &key, &chars("Key 7")), None);
    assert_eq!(read_figure(Figure::AssignedBytes, &key, &chars("NoKey=7")), None);
    let size = chars("size of ");
    assert_eq!(read_figure(Figure::BeforeBytes, &size, &chars("(size of 512 bytes)")), Some(512));
    assert_eq!(read_figure(Figure::BeforeBytes, &size, &chars("(size of 512 )")), None);
    assert_eq!(read_figure(Figure::BeforeBytes, &size, &chars("(size of 512")), Some(512));
    assert_eq!(read_figure(Figure::BeforeBytes, &size, &chars("size of x size of 5 bytes")), None);
    assert_eq!(read_figure(Figure::BeforeBytes, &size, &chars("no size")), None);
}

#[test]
fn first_figure_and_sum_go_over_the_lines() {
    let key = chars("n=");
    let report = chars("a\nn=1\r\nn=x\nn=2\nn=3");
    assert_eq!(find_first_figure(&report, Figure::AssignedBytes, &key), Some(1));
    assert_eq!(add_up_figures(&report, Figure::AssignedBytes, &key), Some(6));
    assert_eq!(find_first_figure(&chars("a\nb"), Figure::AssignedBytes, &key), None);
    assert_eq!(add_up_figures(&chars("a\nb"), Figure::AssignedBytes, &key), None);
    assert_eq!(add_up_figures(&chars("n=0"), Figure::AssignedBytes, &key), Some(0));
    let big = chars("n=18446744073709551615\nn=18446744073709551615\n");
    assert_eq!(add_up_figures(&big, Figure::AssignedBytes, &key), Some(2 * u64::MAX as u128));
}

#[test]
fn second_line_is_found_where_there_is_one() {
    let text = chars("ab\r\ncd\nef");
    assert_eq!(second_line(&text), Some((4, 6)));
    assert_eq!(second_line(&chars("ab\n")), None);
    assert_eq!(second_line(&chars("ab")), None);
    assert_eq!(second_line(&chars("")), None);
    assert_eq!(second_line(&chars("\n\n")), Some((1, 1)));
    assert_eq!(second_line(&chars("a\nb")), Some((2, 3)));
}

#[test]
fn probe_errors_are_put_in_words() {
    let error = |metric, failure| ProbeError { metric, failure };
    assert_eq!(
        error(Metric::TotalMemory, ProbeFailure::FigureMissing).message(Platform::Linux),
        "Could not find MemTotal in /proc/meminfo"
    );
    assert_eq!(
        error(Metric::AvailableMemory, ProbeFailure::FigureMissing).message(Platform::Linux),
        "Could not find MemAvailable in /proc/meminfo"
    );
    assert_eq!(
        error(Metric::TotalMemory, ProbeFailure::FigureMissing).message(Platform::Windows),
        "Could not parse memory information"
    );
    assert_eq!(
        error(Metric::AvailableMemory, ProbeFailure::FigureMissing).message(Platform::Windows),
        "Could not parse available memory information"
    );
    assert_eq!(
        error(Metric::AvailableMemory, ProbeFailure::FigureMissing).message(Platform::MacOs),
        "Could not find the count of free pages"
    );
    assert_eq!(
        error(Metric::AvailableStorage, ProbeFailure::FigureMissing).message(Platform::MacOs),
        "Could not find the amount"
    );
    assert_eq!(
        error(Metric::AvailableStorage, ProbeFailure::Malformed).message(Platform::Linux),
        "Could not parse df output"
    );
    assert_eq!(
        error(Metric::TotalMemory, ProbeFailure::NotANumber(NumberError::InvalidDigit))
            .message(Platform::MacOs),
        "Failed to parse memory size: invalid digit found in string"
    );
    assert_eq!(
        error(Metric::AvailableStorage, ProbeFailure::NotANumber(NumberError::Empty))
            .message(Platform::Windows),
        "Failed to parse storage size: cannot parse integer from empty string"
    );
    assert_eq!(
        error(Metric::AvailableStorage, ProbeFailure::NotANumber(NumberError::Overflow))
            .message(Platform::Linux),
        "Failed to parse available storage: number too large to fit in target type"
    );
    assert_eq!(
        error(Metric::AvailableMemory, ProbeFailure::TooLarge).message(Platform::MacOs),
        "The amount does not fit in 64 bits"
    );
    assert_eq!(
        error(
            Metric::TotalMemory,
            ProbeFailure::Unavailable { reason: "Failed to read /proc/meminfo: gone".to_string() }
        )
        .message(Platform::Linux),
        "Failed to read /proc/meminfo: gone"
    );
}
