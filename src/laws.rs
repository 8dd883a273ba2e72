//! Properties of the report as a whole, proved from the section definitions.
use vstd::prelude::*;
use crate::order::{lex_lt, is_listing, listing, lemma_listing, lemma_listing_strictly_ascending};
use crate::report::{
    SystemProbes, report_lines, hardware_title, system_title, locale_title, processor_lines,
    memory_lines, system_section, locale_section, uptime_line, ip_line,
};
use crate::text::{has_prefix, heading_lines, render, text_of};
use crate::toolchain::{
    ToolchainProbe, entries, entry_lines, probe_names, toolchain_section, toolchains_title,
};

verus! {

/// A probe that yielded nothing gives its section's placeholder, never a line
/// left empty: the processor and memory lines, the architecture, host name and
/// address, the locale and the code page each have a fallback, and a toolchain
/// whose program was not found gives no line at all.
pub proof fn absent_probes_give_placeholders(uptime_ms: nat)
    ensures
        processor_lines(None) == seq!["wmic command not found or failed."@],
        memory_lines(None) == seq!["Total System RAM: Unknown (wmic OS call failed)"@],
        system_section(None, None, uptime_ms, None, None) == heading_lines(system_title()) + seq![
            "Processor Architecture: "@ + "Unknown"@,
            uptime_line(uptime_ms),
            "Hostname: "@ + "Unknown"@,
            "Local IP Address: "@ + "Not available"@,
        ],
        locale_section(None, None) == heading_lines(locale_title()) + seq![
            "Default Locale: "@ + "Not available"@,
            "Preferred Encoding: "@ + "Not available"@,
        ],
        forall|name: Seq<char>, version: Option<Seq<char>>|
            #[trigger] entry_lines(name, None, version) == Seq::<Seq<char>>::empty(),
        forall|k: int|
            0 <= k < 4 ==> (#[trigger] system_section(None, None, uptime_ms, None, None)[2 + k]).len()
                > 0,
        forall|k: int| 0 <= k < 2 ==> (#[trigger] locale_section(None, None)[2 + k]).len() > 0,
        processor_lines(None)[0].len() > 0,
        memory_lines(None)[0].len() > 0,
{
    reveal_strlit("wmic command not found or failed.");
    reveal_strlit("Total System RAM: Unknown (wmic OS call failed)");
    reveal_strlit("Processor Architecture: ");
    reveal_strlit("System Uptime: ");
    reveal_strlit("Hostname: ");
    reveal_strlit("Local IP Address: ");
    reveal_strlit("Default Locale: ");
    reveal_strlit("Preferred Encoding: ");
    assert(system_section(None, None, uptime_ms, None, None) =~= heading_lines(system_title())
        + seq![
        "Processor Architecture: "@ + "Unknown"@,
        uptime_line(uptime_ms),
        "Hostname: "@ + "Unknown"@,
        "Local IP Address: "@ + "Not available"@,
    ]);
}

proof fn lemma_no_entries(items: Seq<ToolchainProbe>, ord: Seq<usize>)
    requires
        forall|k: int| 0 <= k < ord.len() ==> #[trigger] ord[k] < items.len(),
        forall|i: int| 0 <= i < items.len() ==> (#[trigger] items[i]).location is None,
    ensures
        entries(items, ord) == Seq::<Seq<char>>::empty(),
    decreases ord.len(),
{
    if ord.len() > 0 {
        let o = ord.drop_last();
        assert forall|k: int| 0 <= k < o.len() implies #[trigger] o[k] < items.len() by {
            assert(o[k] == ord[k]);
        }
        lemma_no_entries(items, o);
        assert(ord[ord.len() - 1] < items.len());
        assert(items[ord.last() as int].location is None);
        assert(entries(items, ord) =~= Seq::<Seq<char>>::empty());
    }
}

/// With every external tool absent, the report holds exactly the four section
/// headings, each followed only by placeholder lines and by the values that come
/// from no tool (architecture, time since boot, host name, address); the
/// toolchain section holds no entry, and the report text is not empty.
pub proof fn report_without_tools(p: SystemProbes)
    requires
        p.processor is None,
        p.memory is None,
        p.os_descriptor is None,
        p.locale is None,
        p.code_page is None,
        p.toolchains@.len() <= usize::MAX,
        forall|i: int| 0 <= i < p.toolchains@.len() ==> (#[trigger] p.toolchains@[i]).location is None,
    ensures
        report_lines(p) == heading_lines(hardware_title()) + seq![
            "wmic command not found or failed."@,
            "Total System RAM: Unknown (wmic OS call failed)"@,
        ] + system_section(
            text_of(p.architecture),
            None,
            p.uptime_ms as nat,
            text_of(p.hostname),
            text_of(p.local_ip),
        ) + heading_lines(toolchains_title()) + heading_lines(locale_title()) + seq![
            "Default Locale: "@ + "Not available"@,
            "Preferred Encoding: "@ + "Not available"@,
        ],
        toolchain_section(p.toolchains@) == heading_lines(toolchains_title()),
        render(report_lines(p)).len() > 0,
{
    let items = p.toolchains@;
    let names = probe_names(items);
    lemma_listing(names);
    lemma_no_entries(items, listing(names));
    assert(toolchain_section(items) =~= heading_lines(toolchains_title()));
    assert(processor_lines(None) + memory_lines(None) =~= seq![
        "wmic command not found or failed."@,
        "Total System RAM: Unknown (wmic OS call failed)"@,
    ]);
    let r = report_lines(p);
    let c = heading_lines(hardware_title()) + seq![
        "wmic command not found or failed."@,
        "Total System RAM: Unknown (wmic OS call failed)"@,
    ] + system_section(
        text_of(p.architecture),
        None,
        p.uptime_ms as nat,
        text_of(p.hostname),
        text_of(p.local_ip),
    ) + heading_lines(toolchains_title()) + heading_lines(locale_title()) + seq![
        "Default Locale: "@ + "Not available"@,
        "Preferred Encoding: "@ + "Not available"@,
    ];
    assert(r =~= c);
    assert(render(r).len() > 0) by {
        assert(r.len() > 0);
        assert(render(r) == render(r.drop_last()) + r.last() + seq!['\n']);
    }
}

/// Toolchain entries come in strictly ascending alphabetical order of their names,
/// whatever the order the toolchains are given in, where no two share a name; and
/// every toolchain is placed exactly once.
pub proof fn toolchains_listed_alphabetically(items: Seq<ToolchainProbe>)
    requires
        items.len() <= usize::MAX,
        forall|i: int, j: int| 0 <= i < j < items.len() ==> items[i].name@ != items[j].name@,
    ensures
        is_listing(probe_names(items), listing(probe_names(items))),
        forall|a: int, b: int|
            0 <= a < b < items.len() ==> lex_lt(
                items[#[trigger] listing(probe_names(items))[a] as int].name@,
                items[#[trigger] listing(probe_names(items))[b] as int].name@,
            ),
        toolchain_section(items) == heading_lines(toolchains_title()) + entries(
            items,
            listing(probe_names(items)),
        ),
{
    let names = probe_names(items);
    lemma_listing(names);
    assert forall|i: int, j: int| 0 <= i < j < names.len() implies names[i] != names[j] by {
        assert(names[i] == items[i].name@);
        assert(names[j] == items[j].name@);
    }
    lemma_listing_strictly_ascending(names, listing(names));
    let ord = listing(names);
    assert forall|a: int, b: int| 0 <= a < b < items.len() implies lex_lt(
        items[#[trigger] ord[a] as int].name@,
        items[#[trigger] ord[b] as int].name@,
    ) by {
        assert(lex_lt(names[ord[a] as int], names[ord[b] as int]));
    }
}

/// Two runs that saw the same system yield reports of the same length that differ
/// at most in the uptime line and the local address line; with the same uptime and
/// address they are identical.
pub proof fn reports_differ_only_in_uptime_and_address(a: SystemProbes, b: SystemProbes)
    requires
        a.processor == b.processor,
        a.memory == b.memory,
        a.architecture == b.architecture,
        a.os_descriptor == b.os_descriptor,
        a.hostname == b.hostname,
        a.toolchains@ == b.toolchains@,
        a.locale == b.locale,
        a.code_page == b.code_page,
    ensures
        report_lines(a).len() == report_lines(b).len(),
        forall|i: int|
            0 <= i < report_lines(a).len() && report_lines(a)[i] != report_lines(b)[i] ==> (
            has_prefix(report_lines(a)[i], "System Uptime: "@) && has_prefix(
                report_lines(b)[i],
                "System Uptime: "@,
            )) || (has_prefix(report_lines(a)[i], "Local IP Address: "@) && has_prefix(
                report_lines(b)[i],
                "Local IP Address: "@,
            )),
        a.uptime_ms == b.uptime_ms && text_of(a.local_ip) == text_of(b.local_ip) ==> report_lines(
            a,
        ) == report_lines(b),
{
    let ra = report_lines(a);
    let rb = report_lines(b);
    let hw = crate::report::hardware_section(text_of(a.processor), text_of(a.memory));
    let os = match text_of(a.os_descriptor) {
        Some(t) => crate::fields::scan_lines(crate::fields::Source::OperatingSystem, t),
        None => seq![],
    };
    let pre = hw + heading_lines(system_title()) + seq![
        "Processor Architecture: "@ + crate::report::or_unknown(text_of(a.architecture)),
    ] + os;
    let host = "Hostname: "@ + crate::report::or_unknown(text_of(a.hostname));
    let post = toolchain_section(a.toolchains@) + locale_section(
        text_of(a.locale),
        text_of(a.code_page),
    );
    let ua = uptime_line(a.uptime_ms as nat);
    let ub = uptime_line(b.uptime_ms as nat);
    let ia = ip_line(text_of(a.local_ip));
    let ib = ip_line(text_of(b.local_ip));
    assert(ra =~= pre + seq![ua, host, ia] + post);
    assert(rb =~= pre + seq![ub, host, ib] + post);
    let n = pre.len() as int;
    assert(ua.take("System Uptime: "@.len() as int) =~= "System Uptime: "@);
    assert(ub.take("System Uptime: "@.len() as int) =~= "System Uptime: "@);
    assert(ia.take("Local IP Address: "@.len() as int) =~= "Local IP Address: "@);
    assert(ib.take("Local IP Address: "@.len() as int) =~= "Local IP Address: "@);
    assert forall|i: int|
        0 <= i < ra.len() && ra[i] != rb[i] implies (has_prefix(ra[i], "System Uptime: "@)
        && has_prefix(rb[i], "System Uptime: "@)) || (has_prefix(ra[i], "Local IP Address: "@)
        && has_prefix(rb[i], "Local IP Address: "@)) by {
        if i < n {
            assert(ra[i] == pre[i]);
            assert(rb[i] == pre[i]);
        } else if i == n {
            assert(ra[i] == ua);
            assert(rb[i] == ub);
        } else if i == n + 1 {
            assert(ra[i] == host);
            assert(rb[i] == host);
        } else if i == n + 2 {
            assert(ra[i] == ia);
            assert(rb[i] == ib);
        } else {
            assert(ra[i] == post[i - n - 3]);
            assert(rb[i] == post[i - n - 3]);
        }
    }
}

} // verus!
