//! Retention policy: which release directories are removed after a deploy.

use vstd::prelude::*;
use crate::text::{chars_of, lines, lines_of, trim, trim_seq, views};

verus! {

broadcast use {vstd::seq_lib::group_to_multiset_ensures, vstd::multiset::group_multiset_axioms};

/// Lexicographic order on character sequences, comparing characters by code
/// point: the order of Rust's `str` comparison.
pub open spec fn lex_le(a: Seq<char>, b: Seq<char>) -> bool
    decreases a.len(),
{
    if a.len() == 0 {
        true
    } else if b.len() == 0 {
        false
    } else if a[0] != b[0] {
        (a[0] as int) < (b[0] as int)
    } else {
        lex_le(a.drop_first(), b.drop_first())
    }
}

pub proof fn lemma_lex_le_total(a: Seq<char>, b: Seq<char>)
    ensures
        lex_le(a, b) || lex_le(b, a),
    decreases a.len(),
{
    if a.len() > 0 && b.len() > 0 && a[0] == b[0] {
        lemma_lex_le_total(a.drop_first(), b.drop_first());
    }
}

pub proof fn lemma_lex_le_trans(a: Seq<char>, b: Seq<char>, c: Seq<char>)
    requires
        lex_le(a, b),
        lex_le(b, c),
    ensures
        lex_le(a, c),
    decreases a.len(),
{
    if a.len() > 0 && b.len() > 0 && c.len() > 0 && a[0] == b[0] && b[0] == c[0] {
        lemma_lex_le_trans(a.drop_first(), b.drop_first(), c.drop_first());
    }
}

pub proof fn lemma_lex_le_antisym(a: Seq<char>, b: Seq<char>)
    requires
        lex_le(a, b),
        lex_le(b, a),
    ensures
        a == b,
    decreases a.len(),
{
    if a.len() > 0 && b.len() > 0 {
        if a[0] == b[0] {
            lemma_lex_le_antisym(a.drop_first(), b.drop_first());
            assert(a =~= seq![a[0]] + a.drop_first());
            assert(b =~= seq![b[0]] + b.drop_first());
        }
    }
}

/// `lex_le(a, b)` on two character vectors.
pub fn lex_le_chars(a: &Vec<char>, b: &Vec<char>) -> (r: bool)
    ensures
        r == lex_le(a@, b@),
{
    let mut i: usize = 0;
    assert(a@.subrange(0, a@.len() as int) =~= a@);
    assert(b@.subrange(0, b@.len() as int) =~= b@);
    while i < a.len() && i < b.len()
        invariant
            i <= a@.len(),
            i <= b@.len(),
            lex_le(a@, b@) == lex_le(
                a@.subrange(i as int, a@.len() as int),
                b@.subrange(i as int, b@.len() as int),
            ),
        decreases a@.len() - i,
    {
        let x = a[i];
        let y = b[i];
        if x != y {
            return x < y;
        }
        proof {
            let sa = a@.subrange(i as int, a@.len() as int);
            let sb = b@.subrange(i as int, b@.len() as int);
            assert(sa.drop_first() =~= a@.subrange(i + 1, a@.len() as int));
            assert(sb.drop_first() =~= b@.subrange(i + 1, b@.len() as int));
        }
        i = i + 1;
    }
    i == a.len()
}

/// Newest first: each entry is at least as large as every entry after it.
pub open spec fn is_desc_sorted(s: Seq<String>) -> bool {
    forall|i: int, j: int| 0 <= i < j < s.len() ==> lex_le(#[trigger] s[j]@, #[trigger] s[i]@)
}

/// The release names of `names`, newest (largest) first.
pub fn sort_releases_desc(names: &Vec<String>) -> (r: Vec<String>)
    ensures
        r@.to_multiset() == names@.to_multiset(),
        is_desc_sorted(r@),
{
    let mut r: Vec<String> = Vec::new();
    let mut k: usize = 0;
    while k < names.len()
        invariant
            k <= names@.len(),
            r@.to_multiset() == names@.subrange(0, k as int).to_multiset(),
            is_desc_sorted(r@),
        decreases names@.len() - k,
    {
        let x = names[k].clone();
        let xc = chars_of(x.as_str());
        // position: the first entry that is smaller than x
        let mut j: usize = 0;
        while j < r.len()
            invariant
                j <= r@.len(),
                xc@ == x@,
                forall|t: int| 0 <= t < j ==> lex_le(x@, #[trigger] r@[t]@),
            ensures
                j <= r@.len(),
                forall|t: int| 0 <= t < j ==> lex_le(x@, #[trigger] r@[t]@),
                j < r@.len() ==> !lex_le(x@, r@[j as int]@),
            decreases r@.len() - j,
        {
            let rc = chars_of(r[j].as_str());
            if lex_le_chars(&xc, &rc) {
                j = j + 1;
            } else {
                break;
            }
        }
        proof {
            // every entry from j on is at most x
            assert forall|t: int| j <= t < r@.len() implies lex_le(#[trigger] r@[t]@, x@) by {
                if j < r@.len() {
                    lemma_lex_le_total(x@, r@[j as int]@);
                    if t > j {
                        lemma_lex_le_trans(r@[t]@, r@[j as int]@, x@);
                    }
                }
            }
        }
        let ghost old_r = r@;
        r.insert(j, x);
        proof {
            assert(r@ == old_r.insert(j as int, x));
            assert(r@.remove(j as int) =~= old_r);
            assert(r@[j as int] == x);
            assert(names@.subrange(0, k + 1) =~= names@.subrange(0, k as int).push(names@[k as int]));
            assert forall|i: int, t: int| 0 <= i < t < r@.len() implies lex_le(
                #[trigger] r@[t]@,
                #[trigger] r@[i]@,
            ) by {
                if i < j && t == j {
                } else if i < j && t > j {
                    assert(r@[t] == old_r[t - 1]);
                } else if i == j {
                    assert(r@[t] == old_r[t - 1]);
                } else if i > j {
                    assert(r@[t] == old_r[t - 1]);
                    assert(r@[i] == old_r[i - 1]);
                } else {
                    assert(r@[t] == old_r[t]);
                    assert(r@[i] == old_r[i]);
                }
            }
        }
        k = k + 1;
    }
    assert(names@.subrange(0, names@.len() as int) =~= names@);
    r
}

/// How many of `n` releases a policy that keeps `keep` removes.
pub open spec fn removal_count(n: nat, keep: nat) -> nat {
    if n > keep {
        (n - keep) as nat
    } else {
        0
    }
}

/// `kept` followed by `removed` is the listing `names` sorted newest first,
/// and `kept` holds the `keep` newest entries (or all of them).
pub open spec fn is_retention_split(
    names: Seq<String>,
    keep: nat,
    kept: Seq<String>,
    removed: Seq<String>,
) -> bool {
    &&& (kept + removed).to_multiset() == names.to_multiset()
    &&& is_desc_sorted(kept + removed)
    &&& kept.len() == if names.len() > keep {
        keep
    } else {
        names.len()
    }
}

/// `s` without the entries whose name is `current`.
pub open spec fn without(s: Seq<String>, current: Seq<char>) -> Seq<String>
    decreases s.len(),
{
    if s.len() == 0 {
        s
    } else {
        let r = without(s.drop_last(), current);
        if s.last()@ == current {
            r
        } else {
            r.push(s.last())
        }
    }
}

/// `removed` is what retention removes from `names` keeping `keep`: all
/// but the `keep` newest, newest first, except the current release.
pub open spec fn is_removal(names: Seq<String>, keep: nat, current: Seq<char>, removed: Seq<String>) -> bool {
    exists|kept: Seq<String>, tail: Seq<String>|
        #[trigger] is_retention_split(names, keep, kept, tail) && removed == without(tail, current)
}

proof fn lemma_without(s: Seq<String>, current: Seq<char>)
    ensures
        forall|i: int| 0 <= i < without(s, current).len() ==> #[trigger] without(s, current)[i]@ != current,
        forall|i: int| 0 <= i < without(s, current).len() ==> s.contains(#[trigger] without(s, current)[i]),
        (forall|i: int| 0 <= i < s.len() ==> #[trigger] s[i]@ != current) ==> without(s, current) == s,
    decreases s.len(),
{
    if s.len() > 0 {
        let t = s.drop_last();
        lemma_without(t, current);
        let w = without(t, current);
        assert forall|i: int| 0 <= i < without(s, current).len() implies s.contains(#[trigger] without(s, current)[i]) by {
            if i < w.len() {
                assert(t.contains(w[i]));
                let k = choose|k: int| 0 <= k < t.len() && t[k] == w[i];
                assert(s[k] == w[i]);
            } else {
                assert(s[s.len() - 1] == s.last());
            }
        }
        if forall|i: int| 0 <= i < s.len() ==> #[trigger] s[i]@ != current {
            assert forall|i: int| 0 <= i < t.len() implies #[trigger] t[i]@ != current by {
                assert(t[i] == s[i]);
            }
            assert(s.last() == s[s.len() - 1]);
            assert(t.push(s.last()) =~= s);
        }
    } else {
        assert(s =~= Seq::<String>::empty());
    }
}

/// The releases that the retention policy removes from the listing `names`
/// when it keeps `keep`: all but the `keep` newest, newest first; the
/// current release is never among them.
pub fn releases_to_remove(names: &Vec<String>, keep: usize, current: &str) -> (r: Vec<String>)
    ensures
        is_removal(names@, keep as nat, current@, r@),
        forall|i: int| 0 <= i < r@.len() ==> #[trigger] r@[i]@ != current@,
{
    let sorted = sort_releases_desc(names);
    let n = sorted.len();
    let cut = if n > keep {
        keep
    } else {
        n
    };
    let mut r: Vec<String> = Vec::new();
    let mut i: usize = cut;
    while i < n
        invariant
            n == sorted@.len(),
            cut <= i <= n,
            r@ == without(sorted@.subrange(cut as int, i as int), current@),
        decreases n - i,
    {
        assert(sorted@.subrange(cut as int, i + 1).drop_last() =~= sorted@.subrange(cut as int, i as int));
        if !crate::text::str_eq(sorted[i].as_str(), current) {
            r.push(sorted[i].clone());
        }
        i = i + 1;
    }
    proof {
        assert(sorted@.to_multiset().len() == names@.to_multiset().len());
        let kept = sorted@.subrange(0, cut as int);
        let tail = sorted@.subrange(cut as int, n as int);
        assert(kept + tail =~= sorted@);
        assert(is_retention_split(names@, keep as nat, kept, tail));
        lemma_without(tail, current@);
    }
    r
}

/// Retention never removes the current release; every release it removes
/// is no newer than every release it keeps; and it removes exactly
/// `max(0, n - keep)` releases when at least one is kept and `current` is
/// the newest entry of a listing without duplicates.
pub proof fn lemma_retention_law(names: Seq<String>, keep: nat, current: Seq<char>, removed: Seq<String>)
    requires
        is_removal(names, keep, current, removed),
    ensures
        forall|a: int| 0 <= a < removed.len() ==> #[trigger] removed[a]@ != current,
        exists|kept: Seq<String>| {
            &&& kept.len() == if names.len() > keep { keep } else { names.len() }
            &&& forall|a: int, b: int|
                0 <= a < removed.len() && 0 <= b < kept.len() ==> lex_le(
                    #[trigger] removed[a]@,
                    #[trigger] kept[b]@,
                )
        },
        ({
            &&& keep >= 1
            &&& exists|c: int| 0 <= c < names.len() && #[trigger] names[c]@ == current
            &&& forall|c: int| 0 <= c < names.len() ==> lex_le(#[trigger] names[c]@, current)
            &&& forall|c: int, d: int|
                0 <= c < d < names.len() ==> #[trigger] names[c]@ != #[trigger] names[d]@
        }) ==> removed.len() == removal_count(names.len(), keep),
{
    let (kept, tail) = choose|kept: Seq<String>, tail: Seq<String>|
        #[trigger] is_retention_split(names, keep, kept, tail) && removed == without(tail, current);
    lemma_retention_removes_oldest(names, keep, kept, tail, current);
    lemma_without(tail, current);
    assert forall|a: int, b: int| 0 <= a < removed.len() && 0 <= b < kept.len() implies lex_le(
        #[trigger] removed[a]@,
        #[trigger] kept[b]@,
    ) by {
        assert(tail.contains(removed[a]));
        let k = choose|k: int| 0 <= k < tail.len() && tail[k] == removed[a];
        assert(lex_le(tail[k]@, kept[b]@));
    }
}

/// Retention removes exactly `max(0, n - keep)` releases, each no newer than
/// every release it keeps; and when at least one is kept and `current` is
/// the newest of a listing without duplicates, `current` is never removed.
pub proof fn lemma_retention_removes_oldest(
    names: Seq<String>,
    keep: nat,
    kept: Seq<String>,
    removed: Seq<String>,
    current: Seq<char>,
)
    requires
        is_retention_split(names, keep, kept, removed),
    ensures
        removed.len() == removal_count(names.len(), keep),
        forall|a: int, b: int|
            0 <= a < removed.len() && 0 <= b < kept.len() ==> lex_le(
                #[trigger] removed[a]@,
                #[trigger] kept[b]@,
            ),
        ({
            &&& keep >= 1
            &&& exists|c: int| 0 <= c < names.len() && #[trigger] names[c]@ == current
            &&& forall|c: int| 0 <= c < names.len() ==> lex_le(#[trigger] names[c]@, current)
            &&& forall|c: int, d: int|
                0 <= c < d < names.len() ==> #[trigger] names[c]@ != #[trigger] names[d]@
        }) ==> forall|a: int| 0 <= a < removed.len() ==> #[trigger] removed[a]@ != current,
{
    let all = kept + removed;
    all.to_multiset_ensures();
    names.to_multiset_ensures();
    assert forall|a: int, b: int|
        0 <= a < removed.len() && 0 <= b < kept.len() implies lex_le(
        #[trigger] removed[a]@,
        #[trigger] kept[b]@,
    ) by {
        assert(all[b] == kept[b]);
        assert(all[kept.len() + a] == removed[a]);
    }
    if keep >= 1 && (exists|c: int| 0 <= c < names.len() && #[trigger] names[c]@ == current)
        && (forall|c: int| 0 <= c < names.len() ==> lex_le(#[trigger] names[c]@, current)) && (
    forall|c: int, d: int|
        0 <= c < d < names.len() ==> #[trigger] names[c]@ != #[trigger] names[d]@) {
        assert forall|a: int| 0 <= a < removed.len() implies #[trigger] removed[a]@ != current by {
            if removed[a]@ == current {
                // kept[0] is at least removed[a] and at most current: equal views
                assert(kept.len() >= 1);
                assert(all[0] == kept[0]);
                assert(all[kept.len() + a] == removed[a]);
                let x = kept[0];
                let y = removed[a];
                assert(names.to_multiset().count(x) > 0);
                assert(names.contains(x));
                let cx = choose|c: int| 0 <= c < names.len() && names[c] == x;
                assert(lex_le(x@, current));
                assert(lex_le(y@, x@));
                lemma_lex_le_antisym(x@, current);
                // x and y are distinct positions of the listing with equal views
                lemma_two_positions(names, all, 0, kept.len() + a);
            }
        }
    }
}

/// Two distinct positions of a permutation of a duplicate-free (by view)
/// listing hold different views.
proof fn lemma_two_positions(names: Seq<String>, all: Seq<String>, p: int, q: int)
    requires
        all.to_multiset() == names.to_multiset(),
        0 <= p < q < all.len(),
        forall|c: int, d: int|
            0 <= c < d < names.len() ==> #[trigger] names[c]@ != #[trigger] names[d]@,
    ensures
        all[p]@ != all[q]@,
{
    all.to_multiset_ensures();
    names.to_multiset_ensures();
    if all[p]@ == all[q]@ {
        if all[p] == all[q] {
            // the same string twice: its count in names is at least two
            let x = all[p];
            assert(all.to_multiset().count(x) >= 2) by {
                lemma_count_two(all, p, q);
            }
            let c = choose|c: int| 0 <= c < names.len() && names[c] == x;
            assert(names.remove(c).to_multiset() == names.to_multiset().remove(x));
            names.remove(c).to_multiset_ensures();
            assert(names.remove(c).to_multiset().count(x) > 0);
            assert(names.remove(c).contains(x));
            let d = choose|d: int| 0 <= d < names.remove(c).len() && names.remove(c)[d] == x;
            if d < c {
                assert(names[d] == x);
            } else {
                assert(names[d + 1] == x);
            }
        } else {
            let x = all[p];
            let y = all[q];
            assert(names.to_multiset().count(x) > 0);
            assert(names.to_multiset().count(y) > 0);
            assert(names.contains(x));
            assert(names.contains(y));
            let c = choose|c: int| 0 <= c < names.len() && names[c] == x;
            let d = choose|d: int| 0 <= d < names.len() && names[d] == y;
            assert(c != d);
        }
    }
}

proof fn lemma_count_two(s: Seq<String>, p: int, q: int)
    requires
        0 <= p < q < s.len(),
        s[p] == s[q],
    ensures
        s.to_multiset().count(s[p]) >= 2,
{
    let x = s[p];
    assert(s.remove(q).to_multiset() == s.to_multiset().remove(x));
    assert(s.remove(q)[p] == x);
    assert(s.remove(q).contains(x));
    assert(s.remove(q).to_multiset().count(x) > 0);
    assert(s.to_multiset().remove(x).count(x) > 0);
}

/// The trimmed, non-blank lines among `ls`.
pub open spec fn nonblank_trimmed(ls: Seq<Seq<char>>) -> Seq<Seq<char>>
    decreases ls.len(),
{
    if ls.len() == 0 {
        seq![]
    } else {
        let r = nonblank_trimmed(ls.drop_last());
        let t = trim_seq(ls.last());
        if t.len() == 0 {
            r
        } else {
            r.push(t)
        }
    }
}

/// The entries of a one-name-per-line directory listing.
pub open spec fn listing_of(out: Seq<char>) -> Seq<Seq<char>> {
    nonblank_trimmed(lines_of(out))
}

/// The release names of a directory listing: one per line, trimmed, blank
/// lines skipped.
pub fn parse_release_listing(out: &str) -> (r: Vec<String>)
    ensures
        views(r@) == listing_of(out@),
{
    let ls = lines(out);
    let mut r: Vec<String> = Vec::new();
    let mut i: usize = 0;
    while i < ls.len()
        invariant
            i <= ls@.len(),
            views(ls@) == lines_of(out@),
            views(r@) == nonblank_trimmed(views(ls@).subrange(0, i as int)),
        decreases ls@.len() - i,
    {
        let t = trim(ls[i].as_str());
        assert(views(ls@).subrange(0, i + 1).drop_last() =~= views(ls@).subrange(0, i as int));
        let ghost old_r = r@;
        if t.unicode_len() > 0 {
            r.push(t);
            assert(views(r@) =~= views(old_r).push(t@));
        }
        i = i + 1;
    }
    assert(views(ls@).subrange(0, ls@.len() as int) =~= views(ls@));
    r
}

} // verus!
