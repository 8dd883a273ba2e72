use system_info::fields::{memory_kb, write_fields, Source};
use system_info::number::{decimal_text, format_uptime, megabytes_of, parse_count};
use system_info::order::text_less;
use system_info::probe::probe_text;
use system_info::report::{
    build_report, print_additional_info, print_locale_and_encoding_info, print_windows_info,
    SystemProbes,
};
use system_info::text::{first_line_of, print_and_write, print_heading, starts_with, trim};
use system_info::toolchain::{
    listing_order, print_programming_languages_environment, print_toolchain_entry,
    toolchain_catalog, ToolchainProbe,
};

fn some(s: &str) -> Option<String> {
    Some(s.to_string())
}

fn hardware(cpu: Option<String>, mem: Option<String>) -> String {
    let mut out = String::new();
    print_windows_info(&mut out, &cpu, &mem);
    out
}

fn probe(name: &str, location: Option<String>, version: Option<String>) -> ToolchainProbe {
    ToolchainProbe { name: name.to_string(), location, version }
}

fn absent_probes(toolchains: Vec<ToolchainProbe>) -> SystemProbes {
    SystemProbes {
        processor: None,
        memory: None,
        architecture: some("AMD64"),
        os_descriptor: None,
        uptime_ms: 90061000,
        hostname: some("HOST"),
        local_ip: None,
        toolchains,
        locale: None,
        code_page: None,
    }
}

#[test]
fn memory_line_from_kilobytes() {
    let out = hardware(None, some("TotalVisibleMemorySize=16777216"));
    assert!(out.lines().any(|l| l == "Total System RAM: 16384.0 MB"));
}

#[test]
fn l2_cache_in_megabytes() {
    let out = hardware(some("L2CacheSize=1024"), None);
    assert!(out.lines().any(|l| l == "L2 cache: 1.0 MB"));
}

#[test]
fn virtualization_enabled_any_case() {
    for v in ["True", "TRUE", "true", "tRuE"] {
        let out = hardware(some(&format!("VirtualizationFirmwareEnabled={}", v)), None);
        assert!(out.lines().any(|l| l == "Virtualization: Enabled (BIOS/firmware)"), "{}", v);
        assert!(!out.contains("Not reported"));
    }
}

#[test]
fn virtualization_false_or_absent() {
    let out = hardware(some("VirtualizationFirmwareEnabled=False"), None);
    assert!(out.lines().any(|l| l == "Virtualization: Not reported as enabled"));
    let out = hardware(some("Name=Some CPU"), None);
    assert_eq!(
        out,
        "\n=== CPU and Memory Information (Windows) ===\nCPU Name: Some CPU\n\
         Virtualization: Not reported as enabled\n\
         Total System RAM: Unknown (wmic OS call failed)\n"
    );
}

#[test]
fn processor_fields_in_encounter_order() {
    let text = "  \r\nNumberOfCores=8\r\nName=Intel(R) Core(TM) i7\r\nMaxClockSpeed=2900\r\n\
                NumberOfLogicalProcessors=16\r\nL3CacheSize=12288\r\nL2CacheSize=abc\r\n\
                VirtualizationFirmwareEnabled=TRUE\r\nOther=1";
    let out = hardware(some(text), some("\r\nTotalVisibleMemorySize=8388608\r\n"));
    assert_eq!(
        out,
        "\n=== CPU and Memory Information (Windows) ===\nCores: 8\n\
         CPU Name: Intel(R) Core(TM) i7\nBase Speed: 2900 MHz\nLogical processors: 16\n\
         L3 cache: 12.0 MB\nVirtualization: Enabled (BIOS/firmware)\n\
         Total System RAM: 8192.0 MB\n"
    );
}

#[test]
fn processor_probe_absent() {
    let out = hardware(None, None);
    assert_eq!(
        out,
        "\n=== CPU and Memory Information (Windows) ===\nwmic command not found or failed.\n\
         Total System RAM: Unknown (wmic OS call failed)\n"
    );
}

#[test]
fn memory_value_not_a_count() {
    assert_eq!(memory_kb("TotalVisibleMemorySize=12=3"), None);
    assert_eq!(memory_kb("TotalVisibleMemorySize=x\nTotalVisibleMemorySize=2048"), Some(2048));
    assert_eq!(memory_kb("Free=1"), None);
    let out = hardware(None, some("TotalVisibleMemorySize="));
    assert!(out.ends_with("Total System RAM: Unknown (wmic OS call failed)\n"));
}

#[test]
fn megabytes_rounding() {
    assert_eq!(megabytes_of(1024), "1.0");
    assert_eq!(megabytes_of(16777216), "16384.0");
    assert_eq!(megabytes_of(0), "0.0");
    assert_eq!(megabytes_of(1536), "1.5");
    assert_eq!(megabytes_of(256), "0.2");
    assert_eq!(megabytes_of(768), "0.8");
    assert_eq!(megabytes_of(100), "0.1");
}

#[test]
fn counts_read_from_text() {
    assert_eq!(parse_count("1024"), Some(1024));
    assert_eq!(parse_count("+7"), Some(7));
    assert_eq!(parse_count(""), None);
    assert_eq!(parse_count("+"), None);
    assert_eq!(parse_count("1.5"), None);
    assert_eq!(parse_count("-3"), None);
    assert_eq!(parse_count("18446744073709551615"), Some(u64::MAX));
    assert_eq!(parse_count("18446744073709551616"), None);
}

#[test]
fn decimal_numbers() {
    assert_eq!(decimal_text(0), "0");
    assert_eq!(decimal_text(90061), "90061");
    assert_eq!(decimal_text(u64::MAX), "18446744073709551615");
}

#[test]
fn uptime_formatting() {
    assert_eq!(format_uptime(90061000), "1 days, 1 hours, 1 minutes");
    assert_eq!(format_uptime(0), "0 days, 0 hours, 0 minutes");
    assert_eq!(format_uptime(59999), "0 days, 0 hours, 0 minutes");
    assert_eq!(format_uptime(86399999), "0 days, 23 hours, 59 minutes");
}

#[test]
fn probe_result_policy() {
    assert_eq!(probe_text(true, "  out \r\n", "err"), some("out"));
    assert_eq!(probe_text(true, " \n\t", "err"), None);
    assert_eq!(probe_text(false, "out", "  bad\n"), some("bad"));
    assert_eq!(probe_text(false, "out", ""), None);
    assert_eq!(probe_text(true, "\u{3000}x y\u{a0}", ""), some("x y"));
}

#[test]
fn trimming_and_lines() {
    assert_eq!(trim("\t a b \n"), "a b");
    assert_eq!(trim("   "), "");
    assert_eq!(first_line_of("one\ntwo"), "one");
    assert_eq!(first_line_of("\nx"), "");
    assert!(starts_with("Name=x", "Name="));
    assert!(!starts_with("Nam", "Name="));
}

#[test]
fn alphabetical_comparison() {
    assert!(text_less("Go", "Java"));
    assert!(text_less("R", "Ruby"));
    assert!(!text_less("Ruby", "R"));
    assert!(text_less("PHP", "Perl"));
    assert!(!text_less("Go", "Go"));
}

#[test]
fn print_helpers() {
    let mut out = String::new();
    print_heading(&mut out, "=== T ===");
    print_and_write(&mut out, "x");
    assert_eq!(out, "\n=== T ===\nx\n");
}

#[test]
fn os_and_network_section() {
    let mut out = String::new();
    print_additional_info(
        &mut out,
        &None,
        &some("Caption=Microsoft Windows 11 Pro\r\nVersion=10.0.22631\r\nBuildNumber=22631"),
        90061000,
        &None,
        &some("192.168.1.5"),
    );
    assert_eq!(
        out,
        "\n=== System and Networking Information ===\nProcessor Architecture: Unknown\n\
         OS Caption: Microsoft Windows 11 Pro\nOS Version: 10.0.22631\nOS Build: 22631\n\
         System Uptime: 1 days, 1 hours, 1 minutes\nHostname: Unknown\n\
         Local IP Address: 192.168.1.5\n"
    );
}

#[test]
fn locale_section_fallbacks() {
    let mut out = String::new();
    print_locale_and_encoding_info(&mut out, &None, &None);
    assert_eq!(
        out,
        "\n=== Locale and Encoding Information ===\nDefault Locale: Not available\n\
         Preferred Encoding: Not available\n"
    );
    let mut out = String::new();
    print_locale_and_encoding_info(&mut out, &some("en-US"), &some(" Active code page: 437 "));
    assert_eq!(
        out,
        "\n=== Locale and Encoding Information ===\nDefault Locale: en-US\n\
         Preferred Encoding: Active code page: 437\n"
    );
}

#[test]
fn toolchains_sorted_by_name() {
    let items = vec![
        probe("Rust", some("C:\\rust\\rustc.exe"), some("rustc 1.80.0")),
        probe("Go", some("C:\\go\\go.exe"), some("go version go1.22")),
        probe("C (GCC)", some("C:\\gcc.exe"), some("gcc 13\nmore")),
        probe("Java", some("C:\\java.exe"), some("java 21")),
    ];
    assert_eq!(listing_order(&items), vec![2, 1, 3, 0]);
    let mut out = String::new();
    print_programming_languages_environment(&mut out, &items);
    let names: Vec<&str> = out.lines().filter(|l| l.ends_with(':')).collect();
    assert_eq!(names, vec!["C (GCC):", "Go:", "Java:", "Rust:"]);
    for w in names.windows(2) {
        assert!(w[0] < w[1]);
    }
    assert!(out.contains("C (GCC):\n  Version: gcc 13\n  Path: C:\\gcc.exe\n"));
}

#[test]
fn toolchain_lookup_failure_gives_no_lines() {
    let mut out = String::new();
    print_toolchain_entry(&mut out, &probe("Go", None, some("go version")));
    assert_eq!(out, "");
    print_toolchain_entry(&mut out, &probe("Go", some("  \n C:\\go.exe"), some("go version")));
    assert_eq!(out, "");
}

#[test]
fn toolchain_version_failure() {
    let mut out = String::new();
    print_toolchain_entry(&mut out, &probe("Perl", some("C:\\perl.exe\r\nC:\\other\\perl.exe"), None));
    assert_eq!(out, "\nPerl:\n  Version: Not available\n  Path: C:\\perl.exe\n");
    let mut out = String::new();
    print_toolchain_entry(&mut out, &probe("Perl", some("C:\\perl.exe"), some("")));
    assert_eq!(out, "\nPerl:\n  Version: No version info available\n  Path: C:\\perl.exe\n");
}

#[test]
fn catalog_contents() {
    let c = toolchain_catalog();
    assert_eq!(c.len(), 12);
    assert_eq!(c[0].name, "C (GCC)");
    assert_eq!(c[7].name, "Perl");
    assert_eq!(c[7].program, "perl");
    assert_eq!(c[7].args, vec!["-e".to_string(), "print $^V".to_string()]);
    assert_eq!(c[11].program, "rustc");
    let probes: Vec<ToolchainProbe> =
        c.iter().rev().map(|t| probe(&t.name, some("p"), None)).collect();
    let mut out = String::new();
    print_programming_languages_environment(&mut out, &probes);
    let names: Vec<&str> = out.lines().filter(|l| l.ends_with(':')).collect();
    assert_eq!(names.len(), 12);
    for w in names.windows(2) {
        assert!(w[0] < w[1]);
    }
}

#[test]
fn report_with_every_tool_absent() {
    let items = vec![probe("Go", None, None), probe("Rust", None, None)];
    let report = build_report(&absent_probes(items));
    assert_eq!(
        report,
        "\n=== CPU and Memory Information (Windows) ===\nwmic command not found or failed.\n\
         Total System RAM: Unknown (wmic OS call failed)\n\
         \n=== System and Networking Information ===\nProcessor Architecture: AMD64\n\
         System Uptime: 1 days, 1 hours, 1 minutes\nHostname: HOST\n\
         Local IP Address: Not available\n\
         \n=== Programming Languages Environment ===\n\
         \n=== Locale and Encoding Information ===\nDefault Locale: Not available\n\
         Preferred Encoding: Not available\n"
    );
    assert_eq!(report.lines().filter(|l| l.starts_with("=== ")).count(), 4);
    assert!(!report.is_empty());
}

#[test]
fn report_is_repeatable() {
    let items = || vec![probe("Go", some("C:\\go.exe"), some("go1.22"))];
    let mut a = absent_probes(items());
    a.processor = some("Name=X\nL2CacheSize=512");
    let mut b = absent_probes(items());
    b.processor = some("Name=X\nL2CacheSize=512");
    assert_eq!(build_report(&a), build_report(&b));
    b.uptime_ms = 120000;
    b.local_ip = some("10.0.0.2");
    let ra = build_report(&a);
    let rb = build_report(&b);
    let la: Vec<&str> = ra.lines().collect();
    let lb: Vec<&str> = rb.lines().collect();
    assert_eq!(la.len(), lb.len());
    for (x, y) in la.iter().zip(lb.iter()) {
        if x != y {
            assert!(
                (x.starts_with("System Uptime: ") && y.starts_with("System Uptime: "))
                    || (x.starts_with("Local IP Address: ") && y.starts_with("Local IP Address: "))
            );
        }
    }
}

#[test]
fn scan_reports_virtualization_flag() {
    let mut out = String::new();
    assert!(write_fields(&mut out, Source::Processor, "A=1\n VirtualizationFirmwareEnabled=no"));
    assert_eq!(out, "Virtualization: Not reported as enabled\n");
    let mut out = String::new();
    assert!(!write_fields(&mut out, Source::OperatingSystem, "Caption=W\n"));
    assert_eq!(out, "OS Caption: W\n");
}
