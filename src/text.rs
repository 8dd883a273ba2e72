//! Character-level text handling: whitespace trimming, line splitting, prefix
//! tests and rendering of lines into one buffer.
use vstd::prelude::*;

verus! {

/// The Unicode `White_Space` property, which is what `char::is_whitespace` tests.
pub open spec fn is_white_space(c: char) -> bool {
    let u = c as u32;
    (0x9 <= u && u <= 0xd) || u == 0x20 || u == 0x85 || u == 0xa0 || u == 0x1680 || (0x2000 <= u
        && u <= 0x200a) || u == 0x2028 || u == 0x2029 || u == 0x202f || u == 0x205f || u == 0x3000
}

pub fn white_space(c: char) -> (r: bool)
    ensures
        r == is_white_space(c),
{
    let u = c as u32;
    (0x9 <= u && u <= 0xd) || u == 0x20 || u == 0x85 || u == 0xa0 || u == 0x1680 || (0x2000 <= u
        && u <= 0x200a) || u == 0x2028 || u == 0x2029 || u == 0x202f || u == 0x205f || u == 0x3000
}

/// `s` without its leading white space.
pub open spec fn trim_start(s: Seq<char>) -> Seq<char>
    decreases s.len(),
{
    if s.len() > 0 && is_white_space(s[0]) {
        trim_start(s.drop_first())
    } else {
        s
    }
}

/// `s` without its trailing white space.
pub open spec fn trim_end(s: Seq<char>) -> Seq<char>
    decreases s.len(),
{
    if s.len() > 0 && is_white_space(s.last()) {
        trim_end(s.drop_last())
    } else {
        s
    }
}

/// `s` without leading and trailing white space.
pub open spec fn trimmed(s: Seq<char>) -> Seq<char> {
    trim_end(trim_start(s))
}

/// Removes leading and trailing white space.
pub fn trim(s: &str) -> (r: &str)
    ensures
        r@ == trimmed(s@),
{
    let n = s.unicode_len();
    let mut i: usize = 0;
    assert(s@.subrange(0, n as int) =~= s@);
    while i < n && white_space(s.get_char(i))
        invariant
            n == s@.len(),
            i <= n,
            trim_start(s@) == trim_start(s@.subrange(i as int, n as int)),
        decreases n - i,
    {
        assert(s@.subrange(i as int, n as int).drop_first() =~= s@.subrange(i + 1, n as int));
        i = i + 1;
    }
    assert(trim_start(s@.subrange(i as int, n as int)) == s@.subrange(i as int, n as int));
    let mut j: usize = n;
    while j > i && white_space(s.get_char(j - 1))
        invariant
            n == s@.len(),
            i <= j <= n,
            trim_end(s@.subrange(i as int, n as int)) == trim_end(s@.subrange(i as int, j as int)),
        decreases j,
    {
        assert(s@.subrange(i as int, j as int).drop_last() =~= s@.subrange(i as int, j - 1));
        j = j - 1;
    }
    s.substring_char(i, j)
}

/// Whether `s` begins with `p`.
pub open spec fn has_prefix(s: Seq<char>, p: Seq<char>) -> bool {
    p.len() <= s.len() && s.take(p.len() as int) == p
}

pub fn starts_with(s: &str, p: &str) -> (r: bool)
    ensures
        r == has_prefix(s@, p@),
{
    let n = s.unicode_len();
    let m = p.unicode_len();
    if m > n {
        return false;
    }
    let mut k: usize = 0;
    while k < m
        invariant
            n == s@.len(),
            m == p@.len(),
            m <= n,
            k <= m,
            forall|t: int| 0 <= t < k ==> s@[t] == p@[t],
        decreases m - k,
    {
        if s.get_char(k) != p.get_char(k) {
            assert(s@.take(m as int)[k as int] != p@[k as int]);
            return false;
        }
        k = k + 1;
    }
    assert(s@.take(m as int) =~= p@);
    true
}

/// What follows the prefix `p` in `s`.
pub fn after_prefix<'a>(s: &'a str, p: &str) -> (r: &'a str)
    requires
        has_prefix(s@, p@),
    ensures
        r@ == s@.skip(p@.len() as int),
{
    let n = s.unicode_len();
    let m = p.unicode_len();
    s.substring_char(m, n)
}

/// The number of characters before the first line break of `s`, or its length.
pub open spec fn line_break_index(s: Seq<char>) -> nat
    decreases s.len(),
{
    if s.len() == 0 || s[0] == '\n' {
        0
    } else {
        1 + line_break_index(s.drop_first())
    }
}

pub proof fn lemma_line_break_index(s: Seq<char>)
    ensures
        line_break_index(s) <= s.len(),
        line_break_index(s) < s.len() ==> s[line_break_index(s) as int] == '\n',
        forall|k: int| 0 <= k < line_break_index(s) ==> s[k] != '\n',
    decreases s.len(),
{
    if s.len() > 0 && s[0] != '\n' {
        lemma_line_break_index(s.drop_first());
        assert forall|k: int| 0 <= k < line_break_index(s) implies s[k] != '\n' by {
            if k > 0 {
                assert(s[k] == s.drop_first()[k - 1]);
            }
        }
    }
}

/// The first line of `s`: everything before its first line break.
pub open spec fn first_line(s: Seq<char>) -> Seq<char> {
    s.take(line_break_index(s) as int)
}

/// The position of the first line break in `s` at or after `from`, or the length of `s`.
pub fn line_end(s: &str, from: usize) -> (e: usize)
    requires
        from <= s@.len(),
    ensures
        e == from + line_break_index(s@.skip(from as int)),
        e <= s@.len(),
{
    let n = s.unicode_len();
    let mut k: usize = from;
    proof {
        assert(s@.skip(from as int) =~= s@.subrange(from as int, n as int));
    }
    while k < n && s.get_char(k) != '\n'
        invariant
            n == s@.len(),
            from <= k <= n,
            line_break_index(s@.skip(from as int)) == (k - from) + line_break_index(
                s@.skip(k as int),
            ),
        decreases n - k,
    {
        assert(s@.skip(k as int).drop_first() =~= s@.skip(k + 1));
        k = k + 1;
    }
    k
}

/// Returns the first line of `s`.
pub fn first_line_of(s: &str) -> (r: &str)
    ensures
        r@ == first_line(s@),
{
    assert(s@.skip(0) =~= s@);
    let e = line_end(s, 0);
    proof {
        lemma_line_break_index(s@);
    }
    s.substring_char(0, e)
}

/// The text that an optional probe result holds.
pub open spec fn text_of(o: Option<String>) -> Option<Seq<char>> {
    match o {
        Some(s) => Some(s@),
        None => None,
    }
}

/// The lines of a report laid out one after another, each followed by a line break.
pub open spec fn render(lines: Seq<Seq<char>>) -> Seq<char>
    decreases lines.len(),
{
    if lines.len() == 0 {
        Seq::empty()
    } else {
        render(lines.drop_last()) + lines.last() + seq!['\n']
    }
}

pub proof fn lemma_render_concat(a: Seq<Seq<char>>, b: Seq<Seq<char>>)
    ensures
        render(a + b) == render(a) + render(b),
    decreases b.len(),
{
    if b.len() == 0 {
        assert(a + b =~= a);
        assert(render(a) + render(b) =~= render(a));
    } else {
        assert((a + b).drop_last() =~= a + b.drop_last());
        lemma_render_concat(a, b.drop_last());
        assert((a + b).last() == b.last());
        assert(render(a + b) =~= render(a) + render(b));
    }
}

pub proof fn lemma_render_one(l: Seq<char>)
    ensures
        render(seq![l]) == l + seq!['\n'],
{
    assert(seq![l].drop_last() =~= Seq::<Seq<char>>::empty());
    assert(render(Seq::<Seq<char>>::empty()) == Seq::<char>::empty());
    assert(render(seq![l]) =~= l + seq!['\n']);
}

/// Appends `text` and a line break to `output`.
pub fn print_and_write(output: &mut String, text: &str)
    ensures
        final(output)@ == old(output)@ + render(seq![text@]),
{
    output.append(text);
    output.append("\n");
    proof {
        reveal_strlit("\n");
        lemma_render_one(text@);
        assert(final(output)@ =~= old(output)@ + render(seq![text@]));
    }
}

/// The two lines that open a section: a blank line, then its title.
pub open spec fn heading_lines(title: Seq<char>) -> Seq<Seq<char>> {
    seq![Seq::empty(), title]
}

/// Appends a blank line and then `heading` to `output`.
pub fn print_heading(output: &mut String, heading: &str)
    ensures
        final(output)@ == old(output)@ + render(heading_lines(heading@)),
{
    print_and_write(output, "");
    print_and_write(output, heading);
    proof {
        reveal_strlit("");
        assert(""@ =~= Seq::<char>::empty());
        lemma_render_concat(seq![Seq::empty()], seq![heading@]);
        assert(seq![Seq::<char>::empty()] + seq![heading@] =~= heading_lines(heading@));
        assert(final(output)@ =~= old(output)@ + render(heading_lines(heading@)));
    }
}

} // verus!
