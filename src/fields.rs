//! Field extraction from `KEY=VALUE` probe output: each line is trimmed, matched
//! against the known keys by prefix, and turned into report lines.
use vstd::prelude::*;
use crate::number::{count_of, megabytes_text, parse_count, append_megabytes};
use crate::text::{
    has_prefix, line_break_index, trimmed, render, lemma_render_concat,
    print_and_write, trim, starts_with, after_prefix, line_end,
};

verus! {

/// Which probe a block of `KEY=VALUE` text came from.
#[derive(Clone, Copy, PartialEq, Eq, Structural, Debug)]
pub enum Source {
    /// The processor query.
    Processor,
    /// The operating system descriptor query.
    OperatingSystem,
}

/// What follows the prefix `p` in the line `l`.
pub open spec fn value_after(l: Seq<char>, p: Seq<char>) -> Seq<char> {
    l.skip(p.len() as int)
}

/// `c` equals the lower-case ASCII letter `lower`, in either case.
pub open spec fn same_letter(c: char, lower: char) -> bool {
    c == lower || (lower as u32 >= 32 && c as u32 == lower as u32 - 32)
}

/// `v` is the word `true` in any mix of letter case.
pub open spec fn is_true_word(v: Seq<char>) -> bool {
    v.len() == 4 && same_letter(v[0], 't') && same_letter(v[1], 'r') && same_letter(v[2], 'u')
        && same_letter(v[3], 'e')
}

/// A cache size line: the size in megabytes, or nothing where the value is not a count.
pub open spec fn cache_lines(label: Seq<char>, v: Seq<char>) -> Seq<Seq<char>> {
    match count_of(v) {
        Some(kb) => seq![label + megabytes_text(kb) + " MB"@],
        None => seq![],
    }
}

/// The report lines that one trimmed line of processor output gives.
pub open spec fn processor_field_lines(l: Seq<char>) -> Seq<Seq<char>> {
    if has_prefix(l, "Name="@) {
        seq!["CPU Name: "@ + value_after(l, "Name="@)]
    } else if has_prefix(l, "MaxClockSpeed="@) {
        seq!["Base Speed: "@ + value_after(l, "MaxClockSpeed="@) + " MHz"@]
    } else if has_prefix(l, "NumberOfCores="@) {
        seq!["Cores: "@ + value_after(l, "NumberOfCores="@)]
    } else if has_prefix(l, "NumberOfLogicalProcessors="@) {
        seq!["Logical processors: "@ + value_after(l, "NumberOfLogicalProcessors="@)]
    } else if has_prefix(l, "L2CacheSize="@) {
        cache_lines("L2 cache: "@, value_after(l, "L2CacheSize="@))
    } else if has_prefix(l, "L3CacheSize="@) {
        cache_lines("L3 cache: "@, value_after(l, "L3CacheSize="@))
    } else if has_prefix(l, "VirtualizationFirmwareEnabled="@) {
        if is_true_word(value_after(l, "VirtualizationFirmwareEnabled="@)) {
            seq!["Virtualization: Enabled (BIOS/firmware)"@]
        } else {
            seq!["Virtualization: Not reported as enabled"@]
        }
    } else {
        seq![]
    }
}

/// The report lines that one trimmed line of operating system output gives.
pub open spec fn os_field_lines(l: Seq<char>) -> Seq<Seq<char>> {
    if has_prefix(l, "Caption="@) {
        seq!["OS Caption: "@ + value_after(l, "Caption="@)]
    } else if has_prefix(l, "Version="@) {
        seq!["OS Version: "@ + value_after(l, "Version="@)]
    } else if has_prefix(l, "BuildNumber="@) {
        seq!["OS Build: "@ + value_after(l, "BuildNumber="@)]
    } else {
        seq![]
    }
}

pub open spec fn field_lines(src: Source, l: Seq<char>) -> Seq<Seq<char>> {
    match src {
        Source::Processor => processor_field_lines(l),
        Source::OperatingSystem => os_field_lines(l),
    }
}

/// The report lines of a whole probe output: the lines of each of its lines,
/// trimmed, in the order they come.
pub open spec fn scan_lines(src: Source, s: Seq<char>) -> Seq<Seq<char>>
    decreases s.len(),
{
    let e = line_break_index(s);
    let here = field_lines(src, trimmed(s.take(e as int)));
    if e < s.len() {
        here + scan_lines(src, s.skip(e as int + 1))
    } else {
        here
    }
}

/// Whether some line of `s`, trimmed, carries the virtualization flag.
pub open spec fn has_virtualization_field(s: Seq<char>) -> bool
    decreases s.len(),
{
    let e = line_break_index(s);
    has_prefix(trimmed(s.take(e as int)), "VirtualizationFirmwareEnabled="@) || (e < s.len()
        && has_virtualization_field(s.skip(e as int + 1)))
}

/// The memory size in kilobytes that one trimmed line gives, if it gives one.
pub open spec fn memory_field(l: Seq<char>) -> Option<nat> {
    let v = value_after(l, "TotalVisibleMemorySize="@);
    if has_prefix(l, "TotalVisibleMemorySize="@) && !v.contains('=') {
        count_of(v)
    } else {
        None
    }
}

/// The first memory size that a line of `s` gives.
pub open spec fn memory_kilobytes(s: Seq<char>) -> Option<nat>
    decreases s.len(),
{
    let e = line_break_index(s);
    let here = memory_field(trimmed(s.take(e as int)));
    if here is Some {
        here
    } else if e < s.len() {
        memory_kilobytes(s.skip(e as int + 1))
    } else {
        None
    }
}

fn write2(output: &mut String, label: &str, value: &str)
    ensures
        final(output)@ == old(output)@ + render(seq![label@ + value@]),
{
    let mut l = String::from_str(label);
    l.append(value);
    print_and_write(output, l.as_str());
}

fn write3(output: &mut String, label: &str, value: &str, unit: &str)
    ensures
        final(output)@ == old(output)@ + render(seq![label@ + value@ + unit@]),
{
    let mut l = String::from_str(label);
    l.append(value);
    l.append(unit);
    print_and_write(output, l.as_str());
}

fn same_letter_exec(c: char, lower: char) -> (r: bool)
    ensures
        r == same_letter(c, lower),
{
    c == lower || (lower as u32 >= 32 && c as u32 == lower as u32 - 32)
}

/// Whether `v` is the word `true` in any mix of letter case.
pub fn is_true_text(v: &str) -> (r: bool)
    ensures
        r == is_true_word(v@),
{
    v.unicode_len() == 4 && same_letter_exec(v.get_char(0), 't') && same_letter_exec(
        v.get_char(1),
        'r',
    ) && same_letter_exec(v.get_char(2), 'u') && same_letter_exec(v.get_char(3), 'e')
}

fn write_cache(output: &mut String, label: &str, v: &str)
    ensures
        final(output)@ == old(output)@ + render(cache_lines(label@, v@)),
{
    match parse_count(v) {
        Some(kb) => {
            let mut l = String::from_str(label);
            append_megabytes(&mut l, kb);
            l.append(" MB");
            print_and_write(output, l.as_str());
        },
        None => {
            assert(render(Seq::<Seq<char>>::empty()) =~= Seq::<char>::empty());
            assert(final(output)@ =~= old(output)@ + render(cache_lines(label@, v@)));
        },
    }
}

/// Appends the report lines that one trimmed line of probe output gives.
pub fn write_field(output: &mut String, src: Source, l: &str)
    ensures
        final(output)@ == old(output)@ + render(field_lines(src, l@)),
{
    assert(render(Seq::<Seq<char>>::empty()) =~= Seq::<char>::empty());
    match src {
        Source::Processor => {
            if starts_with(l, "Name=") {
                write2(output, "CPU Name: ", after_prefix(l, "Name="));
            } else if starts_with(l, "MaxClockSpeed=") {
                write3(output, "Base Speed: ", after_prefix(l, "MaxClockSpeed="), " MHz");
            } else if starts_with(l, "NumberOfCores=") {
                write2(output, "Cores: ", after_prefix(l, "NumberOfCores="));
            } else if starts_with(l, "NumberOfLogicalProcessors=") {
                write2(
                    output,
                    "Logical processors: ",
                    after_prefix(l, "NumberOfLogicalProcessors="),
                );
            } else if starts_with(l, "L2CacheSize=") {
                write_cache(output, "L2 cache: ", after_prefix(l, "L2CacheSize="));
            } else if starts_with(l, "L3CacheSize=") {
                write_cache(output, "L3 cache: ", after_prefix(l, "L3CacheSize="));
            } else if starts_with(l, "VirtualizationFirmwareEnabled=") {
                if is_true_text(after_prefix(l, "VirtualizationFirmwareEnabled=")) {
                    print_and_write(output, "Virtualization: Enabled (BIOS/firmware)");
                } else {
                    print_and_write(output, "Virtualization: Not reported as enabled");
                }
            }
        },
        Source::OperatingSystem => {
            if starts_with(l, "Caption=") {
                write2(output, "OS Caption: ", after_prefix(l, "Caption="));
            } else if starts_with(l, "Version=") {
                write2(output, "OS Version: ", after_prefix(l, "Version="));
            } else if starts_with(l, "BuildNumber=") {
                write2(output, "OS Build: ", after_prefix(l, "BuildNumber="));
            }
        },
    }
    assert(final(output)@ =~= old(output)@ + render(field_lines(src, l@)));
}

proof fn lemma_line_split(s: Seq<char>, p: int, e: int)
    requires
        0 <= p <= e <= s.len(),
        e == p + line_break_index(s.skip(p)),
    ensures
        s.skip(p).take(e - p) == s.subrange(p, e),
        e < s.len() ==> s.skip(p).skip(e - p + 1) == s.skip(e + 1),
        e < s.len() <==> line_break_index(s.skip(p)) < s.skip(p).len(),
{
    assert(s.skip(p).take(e - p) =~= s.subrange(p, e));
    if e < s.len() {
        assert(s.skip(p).skip(e - p + 1) =~= s.skip(e + 1));
    }
}

/// Appends the report lines of a whole probe output, and tells whether one of
/// its lines carries the virtualization flag.
pub fn write_fields(output: &mut String, src: Source, text: &str) -> (seen: bool)
    ensures
        final(output)@ == old(output)@ + render(scan_lines(src, text@)),
        seen == has_virtualization_field(text@),
{
    let n = text.unicode_len();
    let mut p: usize = 0;
    let mut seen = false;
    assert(text@.skip(0) =~= text@);
    loop
        invariant
            n == text@.len(),
            p <= n,
            old(output)@ + render(scan_lines(src, text@)) == output@ + render(
                scan_lines(src, text@.skip(p as int)),
            ),
            has_virtualization_field(text@) == (seen || has_virtualization_field(
                text@.skip(p as int),
            )),
        decreases n - p,
    {
        let e = line_end(text, p);
        proof {
            lemma_line_split(text@, p as int, e as int);
        }
        let line = trim(text.substring_char(p, e));
        let ghost before = output@;
        write_field(output, src, line);
        let v = starts_with(line, "VirtualizationFirmwareEnabled=");
        seen = seen || v;
        let ghost t = text@.skip(p as int);
        let ghost here = field_lines(src, trimmed(t.take(e - p)));
        if e == n {
            assert(scan_lines(src, t) == here);
            assert(output@ == before + render(here));
            return seen;
        }
        proof {
            lemma_render_concat(here, scan_lines(src, text@.skip(e + 1)));
            assert(scan_lines(src, t) == here + scan_lines(src, text@.skip(e + 1)));
        }
        p = e + 1;
    }
}

/// The first memory size in kilobytes that a line of `text` gives.
pub fn memory_kb(text: &str) -> (r: Option<u64>)
    ensures
        r matches Some(x) ==> memory_kilobytes(text@) == Some(x as nat),
        r is None ==> memory_kilobytes(text@) is None,
{
    let n = text.unicode_len();
    let mut p: usize = 0;
    assert(text@.skip(0) =~= text@);
    loop
        invariant
            n == text@.len(),
            p <= n,
            memory_kilobytes(text@) == memory_kilobytes(text@.skip(p as int)),
        decreases n - p,
    {
        let e = line_end(text, p);
        proof {
            lemma_line_split(text@, p as int, e as int);
        }
        let line = trim(text.substring_char(p, e));
        if starts_with(line, "TotalVisibleMemorySize=") {
            let v = after_prefix(line, "TotalVisibleMemorySize=");
            if !has_char(v, '=') {
                let c = parse_count(v);
                if c.is_some() {
                    return c;
                }
            }
        }
        if e == n {
            return None;
        }
        p = e + 1;
    }
}

/// Whether `c` occurs in `s`.
pub fn has_char(s: &str, c: char) -> (r: bool)
    ensures
        r == s@.contains(c),
{
    let n = s.unicode_len();
    let mut k: usize = 0;
    while k < n
        invariant
            n == s@.len(),
            k <= n,
            forall|t: int| 0 <= t < k ==> s@[t] != c,
        decreases n - k,
    {
        if s.get_char(k) == c {
            return true;
        }
        k = k + 1;
    }
    false
}

} // verus!
