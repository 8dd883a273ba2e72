//! The language toolchains that the report looks for, and the report section that
//! lists those that are installed, alphabetically by name.
use vstd::prelude::*;
use crate::order::{listing, listing_prefix, insert_position, lemma_listing_prefix, text_less};
use crate::text::{
    first_line, trimmed, render, heading_lines, lemma_render_concat, print_and_write,
    print_heading, first_line_of, trim, text_of,
};

verus! {

/// A language toolchain: the name it is listed under, the program to look for,
/// and the arguments that make that program print its version.
pub struct Toolchain {
    pub name: String,
    pub program: String,
    pub args: Vec<String>,
}

impl View for Toolchain {
    type V = (Seq<char>, Seq<char>, Seq<Seq<char>>);

    open spec fn view(&self) -> Self::V {
        (self.name@, self.program@, self.args@.map_values(|a: String| a@))
    }
}

/// The toolchains looked for, as declared: name, program and version arguments.
pub open spec fn catalog() -> Seq<(Seq<char>, Seq<char>, Seq<Seq<char>>)> {
    seq![
        ("C (GCC)"@, "gcc"@, seq!["--version"@]),
        ("C++ (G++)"@, "g++"@, seq!["--version"@]),
        ("D (DMD)"@, "dmd"@, seq!["--version"@]),
        ("Go"@, "go"@, seq!["version"@]),
        ("Java"@, "java"@, seq!["-version"@]),
        ("Node.js"@, "node"@, seq!["--version"@]),
        ("PHP"@, "php"@, seq!["-v"@]),
        ("Perl"@, "perl"@, seq!["-e"@, "print $^V"@]),
        ("Python"@, "python"@, seq!["--version"@]),
        ("R"@, "R"@, seq!["--version"@]),
        ("Ruby"@, "ruby"@, seq!["--version"@]),
        ("Rust"@, "rustc"@, seq!["--version"@]),
    ]
}

fn toolchain(name: &str, program: &str, arg: &str) -> (t: Toolchain)
    ensures
        t@ =~~= (name@, program@, seq![arg@]),
{
    let mut args: Vec<String> = Vec::new();
    args.push(String::from_str(arg));
    Toolchain { name: String::from_str(name), program: String::from_str(program), args }
}

fn toolchain2(name: &str, program: &str, arg1: &str, arg2: &str) -> (t: Toolchain)
    ensures
        t@ =~~= (name@, program@, seq![arg1@, arg2@]),
{
    let mut args: Vec<String> = Vec::new();
    args.push(String::from_str(arg1));
    args.push(String::from_str(arg2));
    Toolchain { name: String::from_str(name), program: String::from_str(program), args }
}

/// The toolchains looked for, in the order they are declared.
pub fn toolchain_catalog() -> (r: Vec<Toolchain>)
    ensures
        r@.map_values(|t: Toolchain| t@) =~~= catalog(),
{
    let mut r: Vec<Toolchain> = Vec::new();
    r.push(toolchain("C (GCC)", "gcc", "--version"));
    r.push(toolchain("C++ (G++)", "g++", "--version"));
    r.push(toolchain("D (DMD)", "dmd", "--version"));
    r.push(toolchain("Go", "go", "version"));
    r.push(toolchain("Java", "java", "-version"));
    r.push(toolchain("Node.js", "node", "--version"));
    r.push(toolchain("PHP", "php", "-v"));
    r.push(toolchain2("Perl", "perl", "-e", "print $^V"));
    r.push(toolchain("Python", "python", "--version"));
    r.push(toolchain("R", "R", "--version"));
    r.push(toolchain("Ruby", "ruby", "--version"));
    r.push(toolchain("Rust", "rustc", "--version"));
    r
}

/// What the probes found of one toolchain: the output of the search for its
/// program, and the output of its version query.
pub struct ToolchainProbe {
    pub name: String,
    pub location: Option<String>,
    pub version: Option<String>,
}

/// The version shown for a toolchain: the first line of the version output, trimmed.
pub open spec fn version_text(version: Option<Seq<char>>) -> Seq<char> {
    match version {
        None => "Not available"@,
        Some(v) => if v.len() == 0 {
            "No version info available"@
        } else {
            trimmed(first_line(v))
        },
    }
}

/// The lines of one toolchain: none unless the search found a path, which is the
/// first line of its output, trimmed; otherwise a blank line, the name, the
/// version and the path.
pub open spec fn entry_lines(
    name: Seq<char>,
    location: Option<Seq<char>>,
    version: Option<Seq<char>>,
) -> Seq<Seq<char>> {
    match location {
        None => seq![],
        Some(w) => {
            let path = trimmed(first_line(w));
            if path.len() == 0 {
                seq![]
            } else {
                seq![
                    Seq::empty(),
                    name + ":"@,
                    "  Version: "@ + version_text(version),
                    "  Path: "@ + path,
                ]
            }
        },
    }
}

pub open spec fn probe_entry_lines(t: ToolchainProbe) -> Seq<Seq<char>> {
    entry_lines(t.name@, text_of(t.location), text_of(t.version))
}

pub open spec fn probe_names(items: Seq<ToolchainProbe>) -> Seq<Seq<char>> {
    items.map_values(|t: ToolchainProbe| t.name@)
}

/// The entries of the toolchains at the positions `ord`, one after another.
pub open spec fn entries(items: Seq<ToolchainProbe>, ord: Seq<usize>) -> Seq<Seq<char>>
    decreases ord.len(),
{
    if ord.len() == 0 {
        seq![]
    } else {
        entries(items, ord.drop_last()) + probe_entry_lines(items[ord.last() as int])
    }
}

pub open spec fn toolchains_title() -> Seq<char> {
    "=== Programming Languages Environment ==="@
}

/// The toolchain section: its heading, then the entries in alphabetical order of
/// the names.
pub open spec fn toolchain_section(items: Seq<ToolchainProbe>) -> Seq<Seq<char>> {
    heading_lines(toolchains_title()) + entries(items, listing(probe_names(items)))
}

/// Appends the lines of one toolchain.
pub fn print_toolchain_entry(output: &mut String, t: &ToolchainProbe)
    ensures
        final(output)@ == old(output)@ + render(probe_entry_lines(*t)),
{
    assert(render(Seq::<Seq<char>>::empty()) =~= Seq::<char>::empty());
    match &t.location {
        None => {
            assert(final(output)@ =~= old(output)@ + render(probe_entry_lines(*t)));
        },
        Some(w) => {
            let path = trim(first_line_of(w.as_str()));
            if path.unicode_len() == 0 {
                assert(final(output)@ =~= old(output)@ + render(probe_entry_lines(*t)));
                return ;
            }
            print_and_write(output, "");
            let mut title = t.name.clone();
            title.append(":");
            print_and_write(output, title.as_str());
            let mut version = String::from_str("  Version: ");
            match &t.version {
                None => version.append("Not available"),
                Some(v) => {
                    if v.unicode_len() == 0 {
                        version.append("No version info available");
                    } else {
                        version.append(trim(first_line_of(v.as_str())));
                    }
                },
            }
            print_and_write(output, version.as_str());
            let mut line = String::from_str("  Path: ");
            line.append(path);
            print_and_write(output, line.as_str());
            proof {
                reveal_strlit("");
                let l = probe_entry_lines(*t);
                assert(l =~= seq![l[0]] + seq![l[1]] + seq![l[2]] + seq![l[3]]);
                lemma_render_concat(seq![l[0]] + seq![l[1]] + seq![l[2]], seq![l[3]]);
                lemma_render_concat(seq![l[0]] + seq![l[1]], seq![l[2]]);
                lemma_render_concat(seq![l[0]], seq![l[1]]);
                assert(""@ =~= l[0]);
                assert(final(output)@ =~= old(output)@ + render(l));
            }
        },
    }
}

/// The positions of `items` in the order their entries are listed: by name, then
/// by position where names are equal.
pub fn listing_order(items: &Vec<ToolchainProbe>) -> (ord: Vec<usize>)
    ensures
        ord@ == listing(probe_names(items@)),
{
    let ghost names = probe_names(items@);
    let n = items.len();
    let mut ord: Vec<usize> = Vec::new();
    let mut i: usize = 0;
    while i < n
        invariant
            n == items@.len(),
            names == probe_names(items@),
            i <= n,
            ord@ == listing_prefix(names, i as nat),
        decreases n - i,
    {
        proof {
            lemma_listing_prefix(names, i as nat);
        }
        assert(ord@.skip(0) =~= ord@);
        let mut j: usize = 0;
        while j < ord.len() && !text_less(items[i].name.as_str(), items[ord[j]].name.as_str())
            invariant
                n == items@.len(),
                names == probe_names(items@),
                i < n,
                j <= ord@.len(),
                forall|k: int| 0 <= k < ord@.len() ==> #[trigger] ord@[k] < i,
                insert_position(names, ord@, i as int) == j + insert_position(
                    names,
                    ord@.skip(j as int),
                    i as int,
                ),
            decreases ord@.len() - j,
        {
            assert(ord@.skip(j as int).drop_first() =~= ord@.skip(j + 1));
            j = j + 1;
        }
        ord.insert(j, i);
        i = i + 1;
    }
    ord
}

/// Appends the toolchain section: the heading, then the entry of each toolchain
/// whose program was found, in alphabetical order of the names.
pub fn print_programming_languages_environment(output: &mut String, items: &Vec<ToolchainProbe>)
    ensures
        final(output)@ == old(output)@ + render(toolchain_section(items@)),
{
    print_heading(output, "=== Programming Languages Environment ===");
    let n = items.len();
    let ord = listing_order(items);
    let ghost head = output@;
    let mut k: usize = 0;
    proof {
        assert(probe_names(items@).len() == items@.len());
        lemma_listing_prefix(probe_names(items@), items@.len());
        assert(probe_names(items@).take(items@.len() as int) =~= probe_names(items@));
        assert(ord@.take(0) =~= Seq::<usize>::empty());
        assert(render(Seq::<Seq<char>>::empty()) =~= Seq::<char>::empty());
        assert(head =~= head + render(entries(items@, ord@.take(0))));
    }
    while k < ord.len()
        invariant
            k <= ord@.len(),
            ord@.len() == items@.len(),
            forall|t: int| 0 <= t < ord@.len() ==> #[trigger] ord@[t] < items@.len(),
            output@ == head + render(entries(items@, ord@.take(k as int))),
        decreases ord@.len() - k,
    {
        print_toolchain_entry(output, &items[ord[k]]);
        proof {
            assert(ord@.take(k + 1).drop_last() =~= ord@.take(k as int));
            lemma_render_concat(
                entries(items@, ord@.take(k as int)),
                probe_entry_lines(items@[ord@[k as int] as int]),
            );
        }
        k = k + 1;
    }
    proof {
        assert(ord@.take(ord@.len() as int) =~= ord@);
        lemma_render_concat(
            heading_lines(toolchains_title()),
            entries(items@, listing(probe_names(items@))),
        );
    }
}

} // verus!
