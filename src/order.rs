//! Alphabetical order on names, and the order in which a list of names is listed:
//! by name, then by position where names are equal.
use vstd::prelude::*;

verus! {

/// `a` comes strictly before `b` in code-point order, character by character,
/// a proper prefix first.
pub open spec fn lex_lt(a: Seq<char>, b: Seq<char>) -> bool
    decreases a.len(),
{
    if a.len() == 0 {
        b.len() > 0
    } else if b.len() == 0 {
        false
    } else if a[0] != b[0] {
        a[0] < b[0]
    } else {
        lex_lt(a.drop_first(), b.drop_first())
    }
}

pub proof fn lemma_lex_irreflexive(a: Seq<char>)
    ensures
        !lex_lt(a, a),
    decreases a.len(),
{
    if a.len() > 0 {
        lemma_lex_irreflexive(a.drop_first());
    }
}

pub proof fn lemma_lex_transitive(a: Seq<char>, b: Seq<char>, c: Seq<char>)
    requires
        lex_lt(a, b),
        lex_lt(b, c),
    ensures
        lex_lt(a, c),
    decreases a.len(),
{
    if a.len() > 0 && b.len() > 0 && c.len() > 0 {
        if a[0] == b[0] && b[0] == c[0] {
            lemma_lex_transitive(a.drop_first(), b.drop_first(), c.drop_first());
        }
    }
}

pub proof fn lemma_lex_total(a: Seq<char>, b: Seq<char>)
    ensures
        a == b || lex_lt(a, b) || lex_lt(b, a),
    decreases a.len(),
{
    if a.len() > 0 && b.len() > 0 {
        if a[0] == b[0] {
            lemma_lex_total(a.drop_first(), b.drop_first());
            if a.drop_first() == b.drop_first() {
                assert(a =~= seq![a[0]] + a.drop_first());
                assert(b =~= seq![b[0]] + b.drop_first());
            }
        }
    } else if a.len() == 0 && b.len() == 0 {
        assert(a =~= b);
    }
}

/// Whether `a` comes strictly before `b` alphabetically.
pub fn text_less(a: &str, b: &str) -> (r: bool)
    ensures
        r == lex_lt(a@, b@),
{
    let n = a.unicode_len();
    let m = b.unicode_len();
    let mut k: usize = 0;
    assert(a@.skip(0) =~= a@);
    assert(b@.skip(0) =~= b@);
    while k < n && k < m && a.get_char(k) == b.get_char(k)
        invariant
            n == a@.len(),
            m == b@.len(),
            k <= n,
            k <= m,
            lex_lt(a@, b@) == lex_lt(a@.skip(k as int), b@.skip(k as int)),
        decreases n - k,
    {
        assert(a@.skip(k as int).drop_first() =~= a@.skip(k + 1));
        assert(b@.skip(k as int).drop_first() =~= b@.skip(k + 1));
        k = k + 1;
    }
    if k == m {
        false
    } else if k == n {
        true
    } else {
        let x = a.get_char(k);
        let y = b.get_char(k);
        x < y
    }
}

/// Position `i` is listed before position `j`: its name comes first, or the names
/// are equal and `i` is the earlier position.
pub open spec fn listed_before(names: Seq<Seq<char>>, i: int, j: int) -> bool {
    lex_lt(names[i], names[j]) || (names[i] == names[j] && i < j)
}

/// `ord` lists every position of `names` once, in alphabetical order of the names.
pub open spec fn is_listing(names: Seq<Seq<char>>, ord: Seq<usize>) -> bool {
    &&& ord.len() == names.len()
    &&& forall|k: int| 0 <= k < ord.len() ==> #[trigger] ord[k] < names.len()
    &&& forall|a: int, b: int|
        0 <= a < b < ord.len() ==> listed_before(names, #[trigger] ord[a] as int, #[trigger] ord[b] as int)
}

/// Where position `i` goes among the already listed positions `ord`: before the
/// first one whose name comes after its own.
pub open spec fn insert_position(names: Seq<Seq<char>>, ord: Seq<usize>, i: int) -> nat
    decreases ord.len(),
{
    if ord.len() == 0 {
        0
    } else if lex_lt(names[i], names[ord[0] as int]) {
        0
    } else {
        1 + insert_position(names, ord.drop_first(), i)
    }
}

/// The listing of the first `k` positions of `names`, built by insertion.
pub open spec fn listing_prefix(names: Seq<Seq<char>>, k: nat) -> Seq<usize>
    decreases k,
{
    if k == 0 {
        Seq::empty()
    } else {
        let o = listing_prefix(names, (k - 1) as nat);
        o.insert(insert_position(names, o, k - 1) as int, (k - 1) as usize)
    }
}

/// The listing of all positions of `names`.
pub open spec fn listing(names: Seq<Seq<char>>) -> Seq<usize> {
    listing_prefix(names, names.len())
}

proof fn lemma_insert_position(names: Seq<Seq<char>>, ord: Seq<usize>, i: int)
    requires
        0 <= i < names.len(),
        forall|k: int| 0 <= k < ord.len() ==> #[trigger] ord[k] < names.len(),
    ensures
        insert_position(names, ord, i) <= ord.len(),
        forall|k: int|
            0 <= k < insert_position(names, ord, i) ==> !lex_lt(names[i], names[#[trigger] ord[k] as int]),
        insert_position(names, ord, i) < ord.len() ==> lex_lt(
            names[i],
            names[ord[insert_position(names, ord, i) as int] as int],
        ),
    decreases ord.len(),
{
    if ord.len() > 0 && !lex_lt(names[i], names[ord[0] as int]) {
        let t = ord.drop_first();
        assert forall|k: int| 0 <= k < t.len() implies #[trigger] t[k] < names.len() by {
            assert(t[k] == ord[k + 1]);
        }
        lemma_insert_position(names, t, i);
        assert forall|k: int| 0 <= k < insert_position(names, ord, i) implies !lex_lt(
            names[i],
            names[#[trigger] ord[k] as int],
        ) by {
            if k > 0 {
                assert(ord[k] == t[k - 1]);
            }
        }
    }
}

pub proof fn lemma_listing_prefix(names: Seq<Seq<char>>, k: nat)
    requires
        k <= names.len(),
        names.len() <= usize::MAX,
    ensures
        is_listing(names.take(k as int), listing_prefix(names, k)),
    decreases k,
{
    if k > 0 {
        let i = k - 1;
        let o = listing_prefix(names, i as nat);
        lemma_listing_prefix(names, i as nat);
        let sub = names.take(i);
        let full = names.take(k as int);
        assert forall|t: int| 0 <= t < o.len() implies #[trigger] o[t] < names.len() by {}
        lemma_insert_position(names, o, i);
        let j = insert_position(names, o, i) as int;
        let r = o.insert(j, i as usize);
        assert(listing_prefix(names, k) == r);
        assert forall|t: int| 0 <= t < r.len() implies #[trigger] r[t] < full.len() by {
            if t < j {
                assert(r[t] == o[t]);
            } else if t > j {
                assert(r[t] == o[t - 1]);
            }
        }
        assert forall|a: int, b: int| 0 <= a < b < r.len() implies listed_before(
            full,
            #[trigger] r[a] as int,
            #[trigger] r[b] as int,
        ) by {
            let ra = r[a] as int;
            let rb = r[b] as int;
            assert(full[ra] == names[ra]);
            assert(full[rb] == names[rb]);
            if a != j && b != j {
                let oa = if a < j { a } else { a - 1 };
                let ob = if b < j { b } else { b - 1 };
                assert(r[a] == o[oa]);
                assert(r[b] == o[ob]);
                assert(listed_before(sub, o[oa] as int, o[ob] as int));
            } else if b == j {
                assert(r[a] == o[a]);
                assert(o[a] < i);
                assert(!lex_lt(names[i], names[ra]));
                lemma_lex_total(names[i], names[ra]);
            } else {
                assert(a == j);
                assert(ra == i);
                let ob = b - 1;
                assert(r[b] == o[ob]);
                assert(lex_lt(names[i], names[o[j] as int]));
                if ob > j {
                    assert(listed_before(sub, o[j] as int, o[ob] as int));
                    assert(sub[o[j] as int] == names[o[j] as int]);
                    assert(sub[o[ob] as int] == names[o[ob] as int]);
                    if lex_lt(names[o[j] as int], names[o[ob] as int]) {
                        lemma_lex_transitive(names[i], names[o[j] as int], names[o[ob] as int]);
                    }
                }
            }
        }
    } else {
        assert(names.take(0).len() == 0);
    }
}

/// The listing built by insertion lists every position once, in alphabetical order.
pub proof fn lemma_listing(names: Seq<Seq<char>>)
    requires
        names.len() <= usize::MAX,
    ensures
        is_listing(names, listing(names)),
{
    lemma_listing_prefix(names, names.len());
    assert(names.take(names.len() as int) =~= names);
}

/// Where there are no two equal names, a listing puts them in strictly ascending order.
pub proof fn lemma_listing_strictly_ascending(names: Seq<Seq<char>>, ord: Seq<usize>)
    requires
        is_listing(names, ord),
        forall|i: int, j: int| 0 <= i < j < names.len() ==> names[i] != names[j],
    ensures
        forall|a: int, b: int|
            0 <= a < b < ord.len() ==> lex_lt(names[#[trigger] ord[a] as int], names[#[trigger] ord[b] as int]),
{
    assert forall|a: int, b: int| 0 <= a < b < ord.len() implies lex_lt(
        names[#[trigger] ord[a] as int],
        names[#[trigger] ord[b] as int],
    ) by {
        assert(listed_before(names, ord[a] as int, ord[b] as int));
        if names[ord[a] as int] == names[ord[b] as int] {
            lemma_lex_irreflexive(names[ord[a] as int]);
            assert(ord[a] < ord[b]);
            assert(names[ord[a] as int] != names[ord[b] as int]);
        }
    }
}

} // verus!
