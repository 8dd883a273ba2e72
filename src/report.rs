//! The report sections and the whole report, built from what the probes yielded.
//! Each section opens with its heading and falls back to a placeholder line
//! wherever a probe yielded nothing.
use vstd::prelude::*;
use crate::fields::{Source, scan_lines, has_virtualization_field, memory_kilobytes, write_fields, memory_kb};
use crate::number::{megabytes_text, append_megabytes, uptime_text, format_uptime};
use crate::text::{
    trimmed, render, heading_lines, lemma_render_concat, print_and_write, print_heading, trim,
    text_of,
};
use crate::toolchain::{ToolchainProbe, toolchain_section, print_programming_languages_environment};

verus! {

pub open spec fn hardware_title() -> Seq<char> {
    "=== CPU and Memory Information (Windows) ==="@
}

pub open spec fn system_title() -> Seq<char> {
    "=== System and Networking Information ==="@
}

pub open spec fn locale_title() -> Seq<char> {
    "=== Locale and Encoding Information ==="@
}

/// The processor lines: those of each known field, then a negative virtualization
/// line where the output carries no virtualization flag; a single failure line
/// where the probe yielded nothing.
pub open spec fn processor_lines(cpu: Option<Seq<char>>) -> Seq<Seq<char>> {
    match cpu {
        None => seq!["wmic command not found or failed."@],
        Some(t) => scan_lines(Source::Processor, t) + if has_virtualization_field(t) {
            seq![]
        } else {
            seq!["Virtualization: Not reported as enabled"@]
        },
    }
}

/// The memory line: the first memory size found, in megabytes, or a placeholder.
pub open spec fn memory_lines(mem: Option<Seq<char>>) -> Seq<Seq<char>> {
    let kb = match mem {
        Some(t) => memory_kilobytes(t),
        None => None,
    };
    match kb {
        Some(k) => seq!["Total System RAM: "@ + megabytes_text(k) + " MB"@],
        None => seq!["Total System RAM: Unknown (wmic OS call failed)"@],
    }
}

/// The hardware section.
pub open spec fn hardware_section(cpu: Option<Seq<char>>, mem: Option<Seq<char>>) -> Seq<
    Seq<char>,
> {
    heading_lines(hardware_title()) + processor_lines(cpu) + memory_lines(mem)
}

/// A value, or `Unknown` where there is none.
pub open spec fn or_unknown(v: Option<Seq<char>>) -> Seq<char> {
    match v {
        Some(s) => s,
        None => "Unknown"@,
    }
}

pub open spec fn uptime_line(uptime_ms: nat) -> Seq<char> {
    "System Uptime: "@ + uptime_text(uptime_ms)
}

pub open spec fn ip_line(ip: Option<Seq<char>>) -> Seq<char> {
    "Local IP Address: "@ + match ip {
        Some(a) => a,
        None => "Not available"@,
    }
}

/// The operating system and network section.
pub open spec fn system_section(
    arch: Option<Seq<char>>,
    os: Option<Seq<char>>,
    uptime_ms: nat,
    host: Option<Seq<char>>,
    ip: Option<Seq<char>>,
) -> Seq<Seq<char>> {
    heading_lines(system_title()) + seq!["Processor Architecture: "@ + or_unknown(arch)] + match os {
        Some(t) => scan_lines(Source::OperatingSystem, t),
        None => seq![],
    } + seq![uptime_line(uptime_ms), "Hostname: "@ + or_unknown(host), ip_line(ip)]
}

/// The locale section; the code page is shown trimmed.
pub open spec fn locale_section(locale: Option<Seq<char>>, code_page: Option<Seq<char>>) -> Seq<
    Seq<char>,
> {
    heading_lines(locale_title()) + seq![
        "Default Locale: "@ + match locale {
            Some(l) => l,
            None => "Not available"@,
        },
        "Preferred Encoding: "@ + match code_page {
            Some(c) => trimmed(c),
            None => "Not available"@,
        },
    ]
}

fn write_pair(output: &mut String, label: &str, value: &str)
    ensures
        final(output)@ == old(output)@ + render(seq![label@ + value@]),
{
    let mut l = String::from_str(label);
    l.append(value);
    print_and_write(output, l.as_str());
}

/// Appends the hardware section, from the output of the processor query and of
/// the memory query.
pub fn print_windows_info(output: &mut String, processor: &Option<String>, memory: &Option<String>)
    ensures
        final(output)@ == old(output)@ + render(
            hardware_section(text_of(*processor), text_of(*memory)),
        ),
{
    let ghost o0 = output@;
    print_heading(output, "=== CPU and Memory Information (Windows) ===");
    let ghost o1 = output@;
    match processor {
        Some(t) => {
            let seen = write_fields(output, Source::Processor, t.as_str());
            if !seen {
                print_and_write(output, "Virtualization: Not reported as enabled");
            }
            proof {
                lemma_render_concat(
                    scan_lines(Source::Processor, t@),
                    if seen {
                        seq![]
                    } else {
                        seq!["Virtualization: Not reported as enabled"@]
                    },
                );
                assert(render(Seq::<Seq<char>>::empty()) =~= Seq::<char>::empty());
            }
        },
        None => {
            print_and_write(output, "wmic command not found or failed.");
        },
    }
    let ghost o2 = output@;
    assert(o2 =~= o1 + render(processor_lines(text_of(*processor))));
    let kb = match memory {
        Some(t) => memory_kb(t.as_str()),
        None => None,
    };
    match kb {
        Some(k) => {
            let mut l = String::from_str("Total System RAM: ");
            append_megabytes(&mut l, k);
            l.append(" MB");
            print_and_write(output, l.as_str());
        },
        None => {
            print_and_write(output, "Total System RAM: Unknown (wmic OS call failed)");
        },
    }
    proof {
        let h = heading_lines(hardware_title());
        let p = processor_lines(text_of(*processor));
        let m = memory_lines(text_of(*memory));
        assert(output@ =~= o2 + render(m));
        lemma_render_concat(h + p, m);
        lemma_render_concat(h, p);
        assert(output@ =~= o0 + render(h + p + m));
    }
}

fn print_or(output: &mut String, label: &str, value: &Option<String>, fallback: &str)
    ensures
        final(output)@ == old(output)@ + render(
            seq![
                label@ + match text_of(*value) {
                    Some(v) => v,
                    None => fallback@,
                },
            ],
        ),
{
    match value {
        Some(v) => write_pair(output, label, v.as_str()),
        None => write_pair(output, label, fallback),
    }
}

fn print_system_tail(output: &mut String, uptime_ms: u64, hostname: &Option<String>, local_ip: &Option<String>)
    ensures
        final(output)@ == old(output)@ + render(
            seq![
                uptime_line(uptime_ms as nat),
                "Hostname: "@ + or_unknown(text_of(*hostname)),
                ip_line(text_of(*local_ip)),
            ],
        ),
{
    let ghost o0 = output@;
    let up = format_uptime(uptime_ms);
    write_pair(output, "System Uptime: ", up.as_str());
    print_or(output, "Hostname: ", hostname, "Unknown");
    print_or(output, "Local IP Address: ", local_ip, "Not available");
    proof {
        let l1 = uptime_line(uptime_ms as nat);
        let l2 = "Hostname: "@ + or_unknown(text_of(*hostname));
        let l3 = ip_line(text_of(*local_ip));
        lemma_render_concat(seq![l1], seq![l2]);
        lemma_render_concat(seq![l1] + seq![l2], seq![l3]);
        assert(seq![l1] + seq![l2] + seq![l3] =~= seq![l1, l2, l3]);
        assert(output@ =~= o0 + render(seq![l1, l2, l3]));
    }
}

/// Appends the operating system and network section, from the environment's
/// architecture and host name, the output of the operating system query, the
/// time since boot and the local address.
pub fn print_additional_info(
    output: &mut String,
    architecture: &Option<String>,
    os_descriptor: &Option<String>,
    uptime_ms: u64,
    hostname: &Option<String>,
    local_ip: &Option<String>,
)
    ensures
        final(output)@ == old(output)@ + render(
            system_section(
                text_of(*architecture),
                text_of(*os_descriptor),
                uptime_ms as nat,
                text_of(*hostname),
                text_of(*local_ip),
            ),
        ),
{
    let ghost o0 = output@;
    print_heading(output, "=== System and Networking Information ===");
    print_or(output, "Processor Architecture: ", architecture, "Unknown");
    let ghost o1 = output@;
    match os_descriptor {
        Some(t) => {
            write_fields(output, Source::OperatingSystem, t.as_str());
        },
        None => {},
    }
    let ghost o2 = output@;
    print_system_tail(output, uptime_ms, hostname, local_ip);
    proof {
        let h = heading_lines(system_title());
        let a = seq!["Processor Architecture: "@ + or_unknown(text_of(*architecture))];
        let os = match text_of(*os_descriptor) {
            Some(t) => scan_lines(Source::OperatingSystem, t),
            None => seq![],
        };
        let tail = seq![
            uptime_line(uptime_ms as nat),
            "Hostname: "@ + or_unknown(text_of(*hostname)),
            ip_line(text_of(*local_ip)),
        ];
        assert(render(Seq::<Seq<char>>::empty()) =~= Seq::<char>::empty());
        assert(o2 =~= o1 + render(os));
        lemma_render_concat(h, a);
        lemma_render_concat(h + a, os);
        lemma_render_concat(h + a + os, tail);
        assert(output@ =~= o0 + render(h + a + os + tail));
    }
}

/// Appends the locale section, from the output of the locale query and of the
/// code page query.
pub fn print_locale_and_encoding_info(
    output: &mut String,
    locale: &Option<String>,
    code_page: &Option<String>,
)
    ensures
        final(output)@ == old(output)@ + render(
            locale_section(text_of(*locale), text_of(*code_page)),
        ),
{
    let ghost o0 = output@;
    print_heading(output, "=== Locale and Encoding Information ===");
    print_or(output, "Default Locale: ", locale, "Not available");
    match code_page {
        Some(c) => write_pair(output, "Preferred Encoding: ", trim(c.as_str())),
        None => write_pair(output, "Preferred Encoding: ", "Not available"),
    }
    proof {
        let s = locale_section(text_of(*locale), text_of(*code_page));
        let h = heading_lines(locale_title());
        lemma_render_concat(h, seq![s[2]]);
        lemma_render_concat(h + seq![s[2]], seq![s[3]]);
        assert(s =~= h + seq![s[2]] + seq![s[3]]);
        assert(output@ =~= o0 + render(s));
    }
}

/// Everything the probes yielded on one run.
pub struct SystemProbes {
    /// Output of the processor query.
    pub processor: Option<String>,
    /// Output of the memory size query.
    pub memory: Option<String>,
    /// The processor architecture named by the environment.
    pub architecture: Option<String>,
    /// Output of the operating system descriptor query.
    pub os_descriptor: Option<String>,
    /// Milliseconds since the system started.
    pub uptime_ms: u64,
    /// The host name named by the environment.
    pub hostname: Option<String>,
    /// The local address of the outbound route.
    pub local_ip: Option<String>,
    /// What was found of each toolchain of the catalog.
    pub toolchains: Vec<ToolchainProbe>,
    /// Output of the locale query.
    pub locale: Option<String>,
    /// Output of the code page query.
    pub code_page: Option<String>,
}

/// The lines of the whole report: hardware, then operating system and network,
/// then toolchains, then locale.
pub open spec fn report_lines(p: SystemProbes) -> Seq<Seq<char>> {
    hardware_section(text_of(p.processor), text_of(p.memory)) + system_section(
        text_of(p.architecture),
        text_of(p.os_descriptor),
        p.uptime_ms as nat,
        text_of(p.hostname),
        text_of(p.local_ip),
    ) + toolchain_section(p.toolchains@) + locale_section(text_of(p.locale), text_of(p.code_page))
}

/// Builds the text of the whole report.
pub fn build_report(p: &SystemProbes) -> (r: String)
    ensures
        r@ == render(report_lines(*p)),
{
    let mut out = String::new();
    print_windows_info(&mut out, &p.processor, &p.memory);
    print_additional_info(
        &mut out,
        &p.architecture,
        &p.os_descriptor,
        p.uptime_ms,
        &p.hostname,
        &p.local_ip,
    );
    print_programming_languages_environment(&mut out, &p.toolchains);
    print_locale_and_encoding_info(&mut out, &p.locale, &p.code_page);
    proof {
        let a = hardware_section(text_of(p.processor), text_of(p.memory));
        let b = system_section(
            text_of(p.architecture),
            text_of(p.os_descriptor),
            p.uptime_ms as nat,
            text_of(p.hostname),
            text_of(p.local_ip),
        );
        let c = toolchain_section(p.toolchains@);
        let d = locale_section(text_of(p.locale), text_of(p.code_page));
        lemma_render_concat(a, b);
        lemma_render_concat(a + b, c);
        lemma_render_concat(a + b + c, d);
        assert(out@ =~= render(a + b + c + d));
    }
    out
}

} // verus!
