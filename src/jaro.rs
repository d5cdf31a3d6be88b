//! The Jaro and Jaro-Winkler string similarities, in millionths.
//!
//! Characters of `a` are matched greedily, left to right, to the first unused
//! equal character of `b` inside the matching window; the score is then built
//! from the number of matches and the number of transpositions.

use vstd::prelude::*;

verus! {

/// A similarity or confidence of 1, in millionths.
pub const SCORE_ONE: u32 = 1_000_000;

/// Half-width of the matching window for strings of lengths `la` and `lb`.
pub open spec fn window(la: int, lb: int) -> int {
    let mx = if la >= lb { la } else { lb };
    if mx / 2 >= 1 { mx / 2 - 1 } else { 0 }
}

pub open spec fn win_start(i: int, d: int) -> int {
    if i >= d { i - d } else { 0 }
}

pub open spec fn win_end(i: int, d: int, lb: int) -> int {
    if i + d + 1 <= lb { i + d + 1 } else { lb }
}

/// The first index in `[j, end)` whose character of `b` equals `c` and is not used yet.
pub open spec fn first_free(b: Seq<char>, used: Seq<bool>, c: char, j: int, end: int) -> Option<int>
    decreases end - j,
{
    if j >= end {
        None
    } else if !used[j] && b[j] == c {
        Some(j)
    } else {
        first_free(b, used, c, j + 1, end)
    }
}

/// Which characters of `b` are matched once the first `i` characters of `a` are processed.
pub open spec fn used_b(a: Seq<char>, b: Seq<char>, i: nat) -> Seq<bool>
    decreases i,
{
    if i == 0 {
        Seq::new(b.len(), |k: int| false)
    } else {
        let prev = used_b(a, b, (i - 1) as nat);
        match step(a, b, prev, i - 1) {
            Some(j) => prev.update(j, true),
            None => prev,
        }
    }
}

/// Where the character `a[i]` is matched, given the characters of `b` used so far.
pub open spec fn step(a: Seq<char>, b: Seq<char>, used: Seq<bool>, i: int) -> Option<int> {
    let d = window(a.len() as int, b.len() as int);
    first_free(b, used, a[i], win_start(i, d), win_end(i, d, b.len() as int))
}

/// The matched characters of `a` among its first `i`, in order.
pub open spec fn matched_a(a: Seq<char>, b: Seq<char>, i: nat) -> Seq<char>
    decreases i,
{
    if i == 0 {
        Seq::empty()
    } else {
        let prev = matched_a(a, b, (i - 1) as nat);
        match step(a, b, used_b(a, b, (i - 1) as nat), i - 1) {
            Some(j) => prev.push(a[i - 1]),
            None => prev,
        }
    }
}

/// The characters of `b` among its first `n` that are flagged in `used`, in order.
pub open spec fn flagged(b: Seq<char>, used: Seq<bool>, n: nat) -> Seq<char>
    decreases n,
{
    if n == 0 {
        Seq::empty()
    } else if used[n - 1] {
        flagged(b, used, (n - 1) as nat).push(b[n - 1])
    } else {
        flagged(b, used, (n - 1) as nat)
    }
}

/// Number of positions below `n` where `x` and `y` differ.
pub open spec fn mismatches(x: Seq<char>, y: Seq<char>, n: nat) -> nat
    decreases n,
{
    if n == 0 {
        0
    } else if x[n - 1] != y[n - 1] {
        mismatches(x, y, (n - 1) as nat) + 1
    } else {
        mismatches(x, y, (n - 1) as nat)
    }
}

pub open spec fn num_matches(a: Seq<char>, b: Seq<char>) -> nat {
    matched_a(a, b, a.len()).len()
}

pub open spec fn num_mismatches(a: Seq<char>, b: Seq<char>) -> nat {
    let x = matched_a(a, b, a.len());
    let y = flagged(b, used_b(a, b, a.len()), b.len());
    mismatches(x, y, if x.len() <= y.len() { x.len() } else { y.len() })
}

/// The Jaro similarity of `a` and `b` in millionths: the mean of the matched share
/// of `a`, the matched share of `b` and the share of matches in order, each
/// rounded down.
pub open spec fn jaro(a: Seq<char>, b: Seq<char>) -> int {
    let m = num_matches(a, b) as int;
    let t = num_mismatches(a, b) as int;
    if a.len() == 0 && b.len() == 0 {
        SCORE_ONE as int
    } else if a.len() == 0 || b.len() == 0 || m == 0 {
        0
    } else {
        (m * SCORE_ONE / (a.len() as int) + m * SCORE_ONE / (b.len() as int) + (2 * m - t)
            * SCORE_ONE / (2 * m)) / 3
    }
}

/// Length of the common prefix of `x` and `y` from position `k`, ignoring ASCII
/// case, counted up to position 4.
pub open spec fn prefix_from(x: Seq<char>, y: Seq<char>, k: int) -> int
    decreases 4 - k,
{
    if k < 4 && k < x.len() && k < y.len() && crate::text::ascii_lower(x[k])
        == crate::text::ascii_lower(y[k]) {
        1 + prefix_from(x, y, k + 1)
    } else {
        0
    }
}

/// The Winkler adjustment: each of up to four common leading characters moves the
/// score a tenth of the way from `j` to one.
pub open spec fn winkler(j: int, p: int) -> int {
    j + p * (SCORE_ONE - j) / 10
}

/// Number of `true` flags among the first `n` of `s`.
pub open spec fn count_true(s: Seq<bool>, n: nat) -> nat
    decreases n,
{
    if n == 0 {
        0
    } else if s[n - 1] {
        count_true(s, (n - 1) as nat) + 1
    } else {
        count_true(s, (n - 1) as nat)
    }
}

/// The Jaro-Winkler similarity in millionths: Jaro on the lowercased strings,
/// with the common-prefix bonus taken on the strings as given, ignoring ASCII case.
pub open spec fn jaro_winkler(s1: Seq<char>, s2: Seq<char>) -> int {
    winkler(jaro(crate::text::lower_of(s1), crate::text::lower_of(s2)), prefix_from(s1, s2, 0))
}

proof fn lemma_first_free(b: Seq<char>, used: Seq<bool>, c: char, j: int, end: int)
    requires
        0 <= j,
        end <= b.len(),
        used.len() == b.len(),
    ensures
        match first_free(b, used, c, j, end) {
            Some(r) => j <= r < end && !used[r] && b[r] == c,
            None => true,
        },
    decreases end - j,
{
    if j < end && !(!used[j] && b[j] == c) {
        lemma_first_free(b, used, c, j + 1, end);
    }
}

proof fn lemma_count_le(s: Seq<bool>, n: nat)
    ensures
        count_true(s, n) <= n,
    decreases n,
{
    if n > 0 {
        lemma_count_le(s, (n - 1) as nat);
    }
}

proof fn lemma_count_update(s: Seq<bool>, j: int, n: nat)
    requires
        0 <= j < s.len(),
        n <= s.len(),
        !s[j],
    ensures
        count_true(s.update(j, true), n) == count_true(s, n) + (if j < n { 1int } else { 0 }),
    decreases n,
{
    if n > 0 {
        lemma_count_update(s, j, (n - 1) as nat);
    }
}

/// Each matched character of `a` uses exactly one character of `b`.
proof fn lemma_matched_count(a: Seq<char>, b: Seq<char>, i: nat)
    requires
        i <= a.len(),
    ensures
        used_b(a, b, i).len() == b.len(),
        matched_a(a, b, i).len() == count_true(used_b(a, b, i), b.len()),
        matched_a(a, b, i).len() <= i,
    decreases i,
{
    if i == 0 {
        assert(count_true(Seq::new(b.len(), |k: int| false), b.len()) == 0) by {
            lemma_count_zero(b.len(), b.len());
        }
    } else {
        lemma_matched_count(a, b, (i - 1) as nat);
        let prev = used_b(a, b, (i - 1) as nat);
        let d = window(a.len() as int, b.len() as int);
        lemma_first_free(b, prev, a[i - 1], win_start(i - 1, d), win_end(i - 1, d, b.len() as int));
        match step(a, b, prev, i - 1) {
            Some(j) => {
                lemma_count_update(prev, j, b.len());
            },
            None => {},
        }
    }
}

proof fn lemma_count_zero(len: nat, n: nat)
    requires
        n <= len,
    ensures
        count_true(Seq::new(len, |k: int| false), n) == 0,
    decreases n,
{
    if n > 0 {
        lemma_count_zero(len, (n - 1) as nat);
    }
}

proof fn lemma_mismatches_le(x: Seq<char>, y: Seq<char>, n: nat)
    ensures
        mismatches(x, y, n) <= n,
    decreases n,
{
    if n > 0 {
        lemma_mismatches_le(x, y, (n - 1) as nat);
    }
}

/// The number of matches is at most either length, and the number of
/// mismatched pairs at most the number of matches.
pub proof fn lemma_jaro_counts(a: Seq<char>, b: Seq<char>)
    ensures
        num_matches(a, b) <= a.len(),
        num_matches(a, b) <= b.len(),
        num_mismatches(a, b) <= num_matches(a, b),
{
    lemma_matched_count(a, b, a.len());
    lemma_count_le(used_b(a, b, a.len()), b.len());
    let x = matched_a(a, b, a.len());
    let y = flagged(b, used_b(a, b, a.len()), b.len());
    lemma_mismatches_le(x, y, if x.len() <= y.len() { x.len() } else { y.len() });
}

/// The Jaro similarity lies between zero and one.
pub proof fn lemma_jaro_range(a: Seq<char>, b: Seq<char>)
    ensures
        0 <= jaro(a, b) <= SCORE_ONE,
{
    lemma_jaro_counts(a, b);
    let m = num_matches(a, b) as int;
    let t = num_mismatches(a, b) as int;
    if a.len() > 0 && b.len() > 0 && m > 0 {
        let la = a.len() as int;
        let lb = b.len() as int;
        assert(m * SCORE_ONE / la <= SCORE_ONE) by (nonlinear_arith)
            requires m <= la, la > 0, m >= 0;
        assert(m * SCORE_ONE / lb <= SCORE_ONE) by (nonlinear_arith)
            requires m <= lb, lb > 0, m >= 0;
        assert((2 * m - t) * SCORE_ONE / (2 * m) <= SCORE_ONE) by (nonlinear_arith)
            requires 0 <= t <= m, m > 0;
        assert(m * SCORE_ONE / la >= 0) by (nonlinear_arith)
            requires m >= 0, la > 0;
        assert(m * SCORE_ONE / lb >= 0) by (nonlinear_arith)
            requires m >= 0, lb > 0;
        assert((2 * m - t) * SCORE_ONE / (2 * m) >= 0) by (nonlinear_arith)
            requires 0 <= t <= m, m > 0;
    }
}

proof fn lemma_prefix_range(x: Seq<char>, y: Seq<char>, k: int)
    requires
        0 <= k <= 4,
    ensures
        0 <= prefix_from(x, y, k) <= 4 - k,
    decreases 4 - k,
{
    if k < 4 && k < x.len() && k < y.len() && crate::text::ascii_lower(x[k])
        == crate::text::ascii_lower(y[k]) {
        lemma_prefix_range(x, y, k + 1);
    }
}

/// The Winkler adjustment keeps a score between zero and one.
proof fn lemma_winkler_range(j: int, p: int)
    requires
        0 <= j <= SCORE_ONE,
        0 <= p <= 4,
    ensures
        j <= winkler(j, p) <= SCORE_ONE,
{
    assert(0 <= p * (SCORE_ONE - j) / 10 <= SCORE_ONE - j) by (nonlinear_arith)
        requires 0 <= j <= SCORE_ONE, 0 <= p <= 4;
}

proof fn lemma_first_free_at(b: Seq<char>, used: Seq<bool>, c: char, j: int, i: int, end: int)
    requires
        0 <= j <= i < end,
        end <= b.len(),
        used.len() == b.len(),
        forall|k: int| j <= k < i ==> used[k],
        !used[i],
        b[i] == c,
    ensures
        first_free(b, used, c, j, end) == Some(i),
    decreases i - j,
{
    if j < i {
        lemma_first_free_at(b, used, c, j + 1, i, end);
    }
}

/// Matching a string against itself pairs every character with itself.
proof fn lemma_self_matching(a: Seq<char>, i: nat)
    requires
        i <= a.len(),
    ensures
        used_b(a, a, i) == Seq::new(a.len(), |k: int| k < i),
        matched_a(a, a, i) == a.take(i as int),
    decreases i,
{
    if i == 0 {
        assert(Seq::new(a.len(), |k: int| false) =~= Seq::new(a.len(), |k: int| k < 0));
        assert(a.take(0) =~= Seq::<char>::empty());
    } else {
        let q = (i - 1) as int;
        lemma_self_matching(a, (i - 1) as nat);
        let prev = used_b(a, a, (i - 1) as nat);
        let d = window(a.len() as int, a.len() as int);
        lemma_first_free_at(a, prev, a[q], win_start(q, d), q, win_end(q, d, a.len() as int));
        assert(prev.update(q, true) =~= Seq::new(a.len(), |k: int| k < i));
        assert(a.take(q).push(a[q]) =~= a.take(i as int));
    }
}

proof fn lemma_flagged_all(b: Seq<char>, used: Seq<bool>, n: nat)
    requires
        n <= b.len(),
        n <= used.len(),
        forall|k: int| 0 <= k < n ==> used[k],
    ensures
        flagged(b, used, n) == b.take(n as int),
    decreases n,
{
    if n == 0 {
        assert(b.take(0) =~= Seq::<char>::empty());
    } else {
        lemma_flagged_all(b, used, (n - 1) as nat);
        assert(b.take(n - 1).push(b[n - 1]) =~= b.take(n as int));
    }
}

proof fn lemma_no_mismatches(x: Seq<char>, n: nat)
    ensures
        mismatches(x, x, n) == 0,
    decreases n,
{
    if n > 0 {
        lemma_no_mismatches(x, (n - 1) as nat);
    }
}

/// A string is fully similar to itself.
pub proof fn lemma_jaro_self(a: Seq<char>)
    ensures
        jaro(a, a) == SCORE_ONE,
{
    let n = a.len();
    lemma_self_matching(a, n);
    lemma_flagged_all(a, used_b(a, a, n), n);
    assert(a.take(n as int) =~= a);
    lemma_no_mismatches(a, n);
    if n > 0 {
        let m = n as int;
        assert(m * SCORE_ONE / m == SCORE_ONE) by (nonlinear_arith)
            requires m > 0;
        assert((2 * m - 0) * SCORE_ONE / (2 * m) == SCORE_ONE) by (nonlinear_arith)
            requires m > 0;
    }
}

/// Jaro-Winkler similarity of any string with itself is one.
pub proof fn lemma_jaro_winkler_self(s: Seq<char>)
    ensures
        jaro_winkler(s, s) == SCORE_ONE,
{
    lemma_jaro_self(crate::text::lower_of(s));
}

/// Jaro-Winkler similarity lies between zero and one.
pub proof fn lemma_jaro_winkler_range(s1: Seq<char>, s2: Seq<char>)
    ensures
        0 <= jaro_winkler(s1, s2) <= SCORE_ONE,
{
    lemma_jaro_range(crate::text::lower_of(s1), crate::text::lower_of(s2));
    lemma_prefix_range(s1, s2, 0);
    lemma_winkler_range(jaro(crate::text::lower_of(s1), crate::text::lower_of(s2)), prefix_from(s1, s2, 0));
}

proof fn lemma_prefix_fold(x: Seq<char>, y: Seq<char>, k: int)
    requires
        0 <= k <= 4,
    ensures
        prefix_from(crate::text::ascii_lower_seq(x), crate::text::ascii_lower_seq(y), k)
            == prefix_from(x, y, k),
    decreases 4 - k,
{
    if k < 4 {
        lemma_prefix_fold(x, y, k + 1);
    }
}

fn find_free(b: &Vec<char>, used: &Vec<bool>, c: char, start: usize, end: usize) -> (r: Option<usize>)
    requires
        used.len() == b.len(),
        end <= b.len(),
    ensures
        match r {
            Some(j) => first_free(b@, used@, c, start as int, end as int) == Some(j as int),
            None => first_free(b@, used@, c, start as int, end as int) is None,
        },
{
    let mut j = start;
    while j < end
        invariant
            used.len() == b.len(),
            end <= b.len(),
            start <= j,
            first_free(b@, used@, c, start as int, end as int) == first_free(
                b@,
                used@,
                c,
                j as int,
                end as int,
            ),
        decreases end - j,
    {
        if !used[j] && b[j] == c {
            return Some(j);
        }
        j = j + 1;
    }
    None
}

/// The Jaro similarity of two character sequences, in millionths.
pub fn jaro_chars(a: &Vec<char>, b: &Vec<char>) -> (r: u32)
    ensures
        r == jaro(a@, b@),
        r <= SCORE_ONE,
{
    proof {
        lemma_jaro_range(a@, b@);
    }
    let la = a.len();
    let lb = b.len();
    if la == 0 && lb == 0 {
        return SCORE_ONE;
    }
    if la == 0 || lb == 0 {
        return 0;
    }
    let mx = if la >= lb { la } else { lb };
    let d: usize = if mx / 2 >= 1 { mx / 2 - 1 } else { 0 };
    let mut used: Vec<bool> = Vec::new();
    for k in 0..lb
        invariant
            used@ == Seq::new(k as nat, |q: int| false),
    {
        used.push(false);
        proof {
            assert(used@ =~= Seq::new((k + 1) as nat, |q: int| false));
        }
    }
    proof {
        assert(used@ =~= used_b(a@, b@, 0));
    }
    let mut ma: Vec<char> = Vec::new();
    for i in 0..la
        invariant
            la == a.len(),
            lb == b.len(),
            d == window(la as int, lb as int),
            used@ == used_b(a@, b@, i as nat),
            ma@ == matched_a(a@, b@, i as nat),
    {
        proof {
            lemma_matched_count(a@, b@, i as nat);
        }
        let start: usize = if i >= d { i - d } else { 0 };
        let end: usize = if d < lb && i < lb - d { i + d + 1 } else { lb };
        match find_free(b, &used, a[i], start, end) {
            Some(j) => {
                proof {
                    lemma_first_free(b@, used@, a[i as int], start as int, end as int);
                }
                used.set(j, true);
                ma.push(a[i]);
            },
            None => {},
        }
    }
    proof {
        lemma_matched_count(a@, b@, la as nat);
    }
    let mut mb: Vec<char> = Vec::new();
    for j in 0..lb
        invariant
            lb == b.len(),
            used@.len() == lb,
            mb@ == flagged(b@, used@, j as nat),
    {
        if used[j] {
            mb.push(b[j]);
        }
    }
    proof {
        lemma_matched_count(a@, b@, la as nat);
    }
    let n = if ma.len() <= mb.len() { ma.len() } else { mb.len() };
    let mut t: usize = 0;
    for k in 0..n
        invariant
            n <= ma.len(),
            n <= mb.len(),
            t == mismatches(ma@, mb@, k as nat),
            t <= k,
    {
        if ma[k] != mb[k] {
            t = t + 1;
        }
    }
    let m = ma.len();
    if m == 0 {
        return 0;
    }
    proof {
        lemma_jaro_counts(a@, b@);
    }
    let m1 = m as u128;
    let one = SCORE_ONE as u128;
    let t1 = t as u128;
    let sum = m1 * one / (la as u128) + m1 * one / (lb as u128) + (2 * m1 - t1) * one / (2 * m1);
    (sum / 3) as u32
}

/// Length of the common prefix of `x` and `y`, ignoring ASCII case, up to four.
fn prefix_len(x: &Vec<char>, y: &Vec<char>) -> (r: usize)
    ensures
        r == prefix_from(x@, y@, 0),
        r <= 4,
{
    let mut k: usize = 0;
    while k < 4 && k < x.len() && k < y.len() && crate::text::to_ascii_lower(x[k])
        == crate::text::to_ascii_lower(y[k])
        invariant
            k <= 4,
            prefix_from(x@, y@, 0) == k + prefix_from(x@, y@, k as int),
        decreases 4 - k,
    {
        k = k + 1;
    }
    k
}

/// Jaro-Winkler similarity of two strings in millionths (one million means equal).
pub fn jaro_winkler_similarity(s1: &str, s2: &str) -> (r: u32)
    ensures
        r == jaro_winkler(s1@, s2@),
        r <= SCORE_ONE,
        r == jaro_winkler(crate::text::ascii_lower_seq(s1@), crate::text::ascii_lower_seq(s2@)),
{
    let l1 = crate::text::lowercase(s1);
    let l2 = crate::text::lowercase(s2);
    let a = crate::text::chars_of(l1.as_str());
    let b = crate::text::chars_of(l2.as_str());
    let x = crate::text::chars_of(s1);
    let y = crate::text::chars_of(s2);
    let j = jaro_chars(&a, &b);
    let p = prefix_len(&x, &y);
    proof {
        lemma_winkler_range(j as int, p as int);
        lemma_prefix_fold(s1@, s2@, 0);
    }
    let jj = j as u64;
    let r = jj + (p as u64) * (SCORE_ONE as u64 - jj) / 10;
    r as u32
}

} // verus!
