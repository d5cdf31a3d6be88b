//! Name normalisation and confidence scoring of search results.

use vstd::prelude::*;
use crate::jaro::{jaro_winkler, jaro_winkler_similarity, SCORE_ONE};
use crate::text::{ascii_lower, is_space, lower_of};
use crate::types::{opt_str, ScrapeQuery, SearchResult};

verus! {

/// The first index at or after `k` where `s` holds `c`.
pub open spec fn find_from(s: Seq<char>, c: char, k: int) -> Option<int>
    decreases s.len() - k,
{
    if k < 0 || k >= s.len() {
        None
    } else if s[k] == c {
        Some(k)
    } else {
        find_from(s, c, k + 1)
    }
}

/// Removes, again and again, the span from the first `open` to the first `close`
/// after it, until the first `open` has no `close` after it.
pub open spec fn strip_groups(s: Seq<char>, open: char, close: char) -> Seq<char>
    decreases s.len(),
{
    match find_from(s, open, 0) {
        Some(st) => match find_from(s, close, st) {
            Some(en) => if 0 <= st <= en < s.len() {
                strip_groups(s.take(st) + s.skip(en + 1), open, close)
            } else {
                s
            },
            None => s,
        },
        None => s,
    }
}

/// The file extensions that name normalisation strips, in the order tried.
pub open spec fn rom_extensions() -> Seq<Seq<char>> {
    seq![
        ".zip"@, ".7z"@, ".rar"@, ".iso"@, ".bin"@, ".cue"@, ".nes"@, ".sfc"@, ".smc"@, ".gba"@,
        ".gb"@, ".gbc"@, ".n64"@, ".z64"@, ".v64"@, ".nds"@, ".3ds"@, ".cia"@, ".xci"@, ".nsp"@,
        ".pbp"@, ".chd"@,
    ]
}

/// Whether `s` ends with the lowercase, non-empty `ext`, ignoring ASCII case.
pub open spec fn ends_with_ci(s: Seq<char>, ext: Seq<char>) -> bool {
    0 < ext.len() <= s.len() && forall|k: int|
        0 <= k < ext.len() ==> ascii_lower(#[trigger] s[s.len() - ext.len() + k]) == ext[k]
}

/// The first extension from position `i` on that ends `s`.
pub open spec fn first_ext(s: Seq<char>, i: nat) -> Option<nat>
    decreases rom_extensions().len() - i,
{
    if i >= rom_extensions().len() {
        None
    } else if ends_with_ci(s, rom_extensions()[i as int]) {
        Some(i)
    } else {
        first_ext(s, i + 1)
    }
}

/// `s` with trailing white space and known ROM extensions stripped from its
/// end, again and again, until it ends with neither.
pub open spec fn strip_exts(s: Seq<char>) -> Seq<char>
    decreases s.len(),
{
    if s.len() > 0 && is_space(s.last()) {
        strip_exts(s.drop_last())
    } else {
        match first_ext(s, 0) {
            Some(j) => {
                let e = rom_extensions()[j as int];
                if 0 < e.len() <= s.len() {
                    strip_exts(s.take(s.len() - e.len()))
                } else {
                    s
                }
            },
            None => s,
        }
    }
}

/// The words of `s` (runs of non-space characters), each joined to `acc` with
/// one space; `gap` says whether space was seen since the last word character.
pub open spec fn collapse_acc(s: Seq<char>, acc: Seq<char>, gap: bool) -> Seq<char>
    decreases s.len(),
{
    if s.len() == 0 {
        acc
    } else if is_space(s[0]) {
        collapse_acc(s.drop_first(), acc, true)
    } else {
        let base = if gap && acc.len() > 0 { acc.push(' ') } else { acc };
        collapse_acc(s.drop_first(), base.push(s[0]), false)
    }
}

/// The words of `s` joined by single spaces.
pub open spec fn collapse_spaces(s: Seq<char>) -> Seq<char> {
    collapse_acc(s, Seq::empty(), false)
}

/// A game name with its parenthesised and bracketed tags, its extra white
/// space and its trailing ROM file extensions removed.
pub open spec fn normalized(s: Seq<char>) -> Seq<char> {
    strip_exts(collapse_spaces(strip_groups(strip_groups(s, '(', ')'), '[', ']')))
}

pub fn find_char(s: &Vec<char>, c: char, k: usize) -> (r: Option<usize>)
    ensures
        match r {
            Some(i) => find_from(s@, c, k as int) == Some(i as int) && k <= i < s.len(),
            None => find_from(s@, c, k as int) is None,
        },
{
    let mut i = k;
    while i < s.len()
        invariant
            k <= i,
            find_from(s@, c, k as int) == find_from(s@, c, i as int),
        decreases s.len() - i,
    {
        if s[i] == c {
            return Some(i);
        }
        i = i + 1;
    }
    None
}

/// `s` without the characters at positions `st` to `en`, both included.
fn cut(s: &Vec<char>, st: usize, en: usize) -> (r: Vec<char>)
    requires
        st <= en < s.len(),
    ensures
        r@ == s@.take(st as int) + s@.skip(en + 1),
{
    let mut r: Vec<char> = Vec::new();
    for i in 0..st
        invariant
            st <= en < s.len(),
            r@ == s@.take(i as int),
    {
        r.push(s[i]);
        proof {
            assert(r@ =~= s@.take(i + 1));
        }
    }
    for i in en + 1..s.len()
        invariant
            st <= en < s.len(),
            r@ == s@.take(st as int) + s@.subrange(en + 1, i as int),
    {
        r.push(s[i]);
        proof {
            assert(r@ =~= s@.take(st as int) + s@.subrange(en + 1, i + 1));
        }
    }
    proof {
        assert(s@.subrange(en + 1, s.len() as int) =~= s@.skip(en + 1));
    }
    r
}

fn strip_groups_exec(s: Vec<char>, open: char, close: char) -> (r: Vec<char>)
    ensures
        r@ == strip_groups(s@, open, close),
{
    let mut cur = s;
    loop
        invariant
            strip_groups(cur@, open, close) == strip_groups(s@, open, close),
        decreases cur.len(),
    {
        match find_char(&cur, open, 0) {
            Some(st) => match find_char(&cur, close, st) {
                Some(en) => {
                    cur = cut(&cur, st, en);
                },
                None => {
                    return cur;
                },
            },
            None => {
                return cur;
            },
        }
    }
}

/// The extension tried at position `i`.
fn rom_extension(i: usize) -> (r: &'static str)
    requires
        i < 22,
    ensures
        r@ == rom_extensions()[i as int],
{
    proof {
        reveal_strlit(".zip");
    }
    match i {
        0 => ".zip",
        1 => ".7z",
        2 => ".rar",
        3 => ".iso",
        4 => ".bin",
        5 => ".cue",
        6 => ".nes",
        7 => ".sfc",
        8 => ".smc",
        9 => ".gba",
        10 => ".gb",
        11 => ".gbc",
        12 => ".n64",
        13 => ".z64",
        14 => ".v64",
        15 => ".nds",
        16 => ".3ds",
        17 => ".cia",
        18 => ".xci",
        19 => ".nsp",
        20 => ".pbp",
        _ => ".chd",
    }
}

fn ends_with_ci_exec(s: &Vec<char>, e: &Vec<char>) -> (r: bool)
    ensures
        r == ends_with_ci(s@, e@),
{
    if e.len() == 0 || e.len() > s.len() {
        return false;
    }
    let base = s.len() - e.len();
    let mut k: usize = 0;
    while k < e.len()
        invariant
            base == s.len() - e.len(),
            k <= e.len(),
            forall|q: int| 0 <= q < k ==> ascii_lower(#[trigger] s@[s.len() - e.len() + q]) == e@[q],
        decreases e.len() - k,
    {
        if crate::text::to_ascii_lower(s[base + k]) != e[k] {
            return false;
        }
        k = k + 1;
    }
    true
}

fn first_ext_exec(s: &Vec<char>) -> (r: Option<usize>)
    ensures
        match r {
            Some(j) => first_ext(s@, 0) == Some(j as nat) && j < 22,
            None => first_ext(s@, 0) is None,
        },
{
    let mut i: usize = 0;
    while i < 22
        invariant
            i <= 22,
            rom_extensions().len() == 22,
            first_ext(s@, 0) == first_ext(s@, i as nat),
        decreases 22 - i,
    {
        let e = crate::text::chars_of(rom_extension(i));
        if ends_with_ci_exec(s, &e) {
            return Some(i);
        }
        i = i + 1;
    }
    None
}

fn strip_exts_exec(s: Vec<char>) -> (r: Vec<char>)
    ensures
        r@ == strip_exts(s@),
{
    let mut cur = s;
    loop
        invariant
            strip_exts(cur@) == strip_exts(s@),
        decreases cur.len(),
    {
        if cur.len() > 0 && crate::text::is_space_char(cur[cur.len() - 1]) {
            let ghost before = cur@;
            cur.pop();
            proof {
                assert(cur@ =~= before.drop_last());
            }
        } else {
            match first_ext_exec(&cur) {
                Some(j) => {
                    let e = crate::text::chars_of(rom_extension(j));
                    if 0 < e.len() && e.len() <= cur.len() {
                        let keep = cur.len() - e.len();
                        let ghost before = cur@;
                        cur.truncate(keep);
                        proof {
                            assert(cur@ =~= before.take(keep as int));
                        }
                    } else {
                        return cur;
                    }
                },
                None => {
                    return cur;
                },
            }
        }
    }
}

fn collapse_exec(s: &Vec<char>) -> (r: Vec<char>)
    ensures
        r@ == collapse_spaces(s@),
{
    let mut out: Vec<char> = Vec::new();
    let mut gap = false;
    proof {
        assert(s@.skip(0) =~= s@);
    }
    for i in 0..s.len()
        invariant
            collapse_spaces(s@) == collapse_acc(s@.skip(i as int), out@, gap),
    {
        proof {
            assert(s@.skip(i as int).drop_first() =~= s@.skip(i + 1));
        }
        let c = s[i];
        if crate::text::is_space_char(c) {
            gap = true;
        } else {
            if gap && out.len() > 0 {
                out.push(' ');
            }
            out.push(c);
            gap = false;
        }
    }
    proof {
        assert(s@.skip(s.len() as int) =~= Seq::<char>::empty());
    }
    out
}

/// Normalises a game name: drops `(...)` and `[...]` tags and extra white
/// space, then known ROM extensions at the end until none is left. Normalising
/// again changes nothing.
pub fn normalize_game_name(name: &str) -> (r: String)
    ensures
        r@ == normalized(name@),
        normalized(r@) == r@,
{
    let c = crate::text::chars_of(name);
    let c = strip_groups_exec(c, '(', ')');
    let c = strip_groups_exec(c, '[', ']');
    let c = collapse_exec(&c);
    let c = strip_exts_exec(c);
    proof {
        lemma_normalize_idempotent(name@);
    }
    crate::text::string_of(&c)
}

/// The game name that a ROM file name stands for.
pub fn parse_game_name_from_filename(filename: &str) -> (r: String)
    ensures
        r@ == normalized(filename@),
{
    normalize_game_name(filename)
}

/// The confidence, in millionths, that a candidate named `rn` on system `rs`
/// is the game named `qn` on system `qs`: seven tenths of the Jaro-Winkler
/// similarity of the normalised names (rounded down), two tenths more where the
/// normalised names are equal ignoring case, one tenth more where both systems
/// are given and equal ignoring case, and at most one.
pub open spec fn confidence(qn: Seq<char>, rn: Seq<char>, qs: Option<Seq<char>>, rs: Option<Seq<char>>) -> int {
    let a = normalized(qn);
    let b = normalized(rn);
    let base = jaro_winkler(a, b) * 7 / 10;
    let exact = if lower_of(a) == lower_of(b) { 200_000int } else { 0 };
    let sys = match (qs, rs) {
        (Some(x), Some(y)) => if lower_of(x) == lower_of(y) { 100_000int } else { 0 },
        _ => 0,
    };
    let total = base + exact + sys;
    if total > SCORE_ONE { SCORE_ONE as int } else { total }
}

/// Scores a search result against the query (see `confidence`).
pub fn calculate_confidence(query: &ScrapeQuery, result: &SearchResult) -> (r: u32)
    ensures
        r == confidence(query.name@, result.name@, opt_str(query.system), opt_str(result.system)),
        r <= SCORE_ONE,
{
    let qn = normalize_game_name(query.name.as_str());
    let rn = normalize_game_name(result.name.as_str());
    let sim = jaro_winkler_similarity(qn.as_str(), rn.as_str());
    let mut score: u32 = sim / 10 * 7 + (sim % 10) * 7 / 10;
    proof {
        assert(sim / 10 * 7 + (sim % 10) * 7 / 10 == sim * 7 / 10) by (nonlinear_arith)
            requires sim >= 0;
    }
    let ql = crate::text::lowercase(qn.as_str());
    let rl = crate::text::lowercase(rn.as_str());
    if crate::text::seq_eq(&crate::text::chars_of(ql.as_str()), &crate::text::chars_of(rl.as_str())) {
        score = score + 200_000;
    }
    match (&query.system, &result.system) {
        (Some(x), Some(y)) => {
            let xl = crate::text::lowercase(x.as_str());
            let yl = crate::text::lowercase(y.as_str());
            if crate::text::seq_eq(
                &crate::text::chars_of(xl.as_str()),
                &crate::text::chars_of(yl.as_str()),
            ) {
                score = score + 100_000;
            }
        },
        _ => {},
    }
    if score > SCORE_ONE {
        SCORE_ONE
    } else {
        score
    }
}

/// A candidate with the same name and the same system as the query scores at
/// least nine tenths.
pub proof fn lemma_exact_match_confidence(name: Seq<char>, system: Seq<char>)
    ensures
        confidence(name, name, Some(system), Some(system)) >= 900_000,
{
    crate::jaro::lemma_jaro_winkler_self(normalized(name));
}

/// `s` with `x` inserted after every result of at least its confidence.
pub open spec fn insert_by_confidence(s: Seq<SearchResult>, x: SearchResult) -> Seq<SearchResult>
    decreases s.len(),
{
    if s.len() == 0 {
        seq![x]
    } else if s[0].confidence >= x.confidence {
        seq![s[0]] + insert_by_confidence(s.drop_first(), x)
    } else {
        seq![x] + s
    }
}

/// The results ordered by confidence, highest first; equal ones keep their order.
pub open spec fn by_confidence(s: Seq<SearchResult>) -> Seq<SearchResult>
    decreases s.len(),
{
    if s.len() == 0 {
        Seq::empty()
    } else {
        insert_by_confidence(by_confidence(s.drop_last()), s.last())
    }
}

/// The result with its confidence scored against the query.
pub open spec fn rescored(q: ScrapeQuery, r: SearchResult) -> SearchResult {
    SearchResult {
        confidence: confidence(q.name@, r.name@, opt_str(q.system), opt_str(r.system)) as u32,
        ..r
    }
}

proof fn lemma_insert_by_confidence(s: Seq<SearchResult>, x: SearchResult, k: int)
    requires
        0 <= k <= s.len(),
        forall|q: int| 0 <= q < k ==> (#[trigger] s[q]).confidence >= x.confidence,
        k == s.len() || s[k].confidence < x.confidence,
    ensures
        insert_by_confidence(s, x) == s.take(k) + seq![x] + s.skip(k),
    decreases s.len(),
{
    if s.len() == 0 {
        assert(s.take(k) + seq![x] + s.skip(k) =~= seq![x]);
    } else if k == 0 {
        assert(s.take(k) + seq![x] + s.skip(k) =~= seq![x] + s);
    } else {
        let t = s.drop_first();
        assert forall|q: int| 0 <= q < k - 1 implies (#[trigger] t[q]).confidence >= x.confidence by {
            assert(t[q] == s[q + 1]);
        }
        lemma_insert_by_confidence(t, x, k - 1);
        assert(seq![s[0]] + (t.take(k - 1) + seq![x] + t.skip(k - 1)) =~= s.take(k) + seq![x] + s.skip(k));
    }
}

/// Scores every result against the query and orders them by confidence,
/// highest first; results of equal confidence keep their order.
pub fn rank_results(query: &ScrapeQuery, results: Vec<SearchResult>) -> (r: Vec<SearchResult>)
    ensures
        r@ == by_confidence(results@.map_values(|x: SearchResult| rescored(*query, x))),
{
    let ghost all = results@.map_values(|x: SearchResult| rescored(*query, x));
    let mut results = results;
    let ghost orig = results@;
    let total = results.len();
    let mut out: Vec<SearchResult> = Vec::new();
    let mut n: usize = 0;
    proof {
        assert(all.take(0) =~= Seq::<SearchResult>::empty());
        assert(orig.skip(0) =~= orig);
    }
    while results.len() > 0
        invariant
            all == orig.map_values(|x: SearchResult| rescored(*query, x)),
            n + results.len() == orig.len(),
            orig.len() == total,
            results@ == orig.skip(n as int),
            out@ == by_confidence(all.take(n as int)),
        decreases results.len(),
    {
        let mut x = results.remove(0);
        proof {
            assert(x == orig[n as int]);
            assert(orig.skip(n + 1) =~= results@);
        }
        x.confidence = calculate_confidence(query, &x);
        proof {
            assert(x == all[n as int]);
        }
        let mut k: usize = 0;
        while k < out.len() && out[k].confidence >= x.confidence
            invariant
                k <= out.len(),
                forall|q: int| 0 <= q < k ==> (#[trigger] out@[q]).confidence >= x.confidence,
            decreases out.len() - k,
        {
            k = k + 1;
        }
        let ghost before = out@;
        out.insert(k, x);
        proof {
            assert(all.take(n + 1).drop_last() =~= all.take(n as int));
            lemma_insert_by_confidence(before, all[n as int], k as int);
            assert(out@ =~= before.take(k as int) + seq![all[n as int]] + before.skip(k as int));
        }
        n = n + 1;
    }
    proof {
        assert(all.take(n as int) =~= all);
    }
    out
}

/// No `open` is followed, anywhere later, by a `close`.
pub open spec fn no_pair(s: Seq<char>, open: char, close: char) -> bool {
    forall|i: int, j: int| 0 <= i < j < s.len() && s[i] == open ==> s[j] != close
}

/// White space is single ASCII spaces between words.
pub open spec fn clean_spaces(s: Seq<char>) -> bool {
    forall|i: int|
        0 <= i < s.len() && is_space(#[trigger] s[i]) ==> s[i] == ' ' && 0 < i < s.len() - 1 && !is_space(
            s[i + 1],
        )
}

pub proof fn lemma_find_from_at(s: Seq<char>, c: char, k: int, m: int)
    requires
        0 <= k <= m < s.len(),
        s[m] == c,
        forall|i: int| k <= i < m ==> s[i] != c,
    ensures
        find_from(s, c, k) == Some(m),
    decreases m - k,
{
    if k < m {
        lemma_find_from_at(s, c, k + 1, m);
    }
}

proof fn lemma_find_from(s: Seq<char>, c: char, k: int)
    requires
        0 <= k,
    ensures
        match find_from(s, c, k) {
            Some(i) => k <= i < s.len() && s[i] == c && forall|q: int| k <= q < i ==> s[q] != c,
            None => forall|q: int| k <= q < s.len() ==> s[q] != c,
        },
    decreases s.len() - k,
{
    if k < s.len() && s[k] != c {
        lemma_find_from(s, c, k + 1);
    }
}

/// A subsequence keeps the absence of pairs.
proof fn lemma_no_pair_sub(s: Seq<char>, t: Seq<char>, open: char, close: char, f: spec_fn(int) -> int)
    requires
        no_pair(s, open, close),
        forall|i: int| 0 <= i < t.len() ==> 0 <= #[trigger] f(i) < s.len() && t[i] == s[f(i)],
        forall|i: int, j: int| 0 <= i < j < t.len() ==> #[trigger] f(i) < #[trigger] f(j),
    ensures
        no_pair(t, open, close),
{
    assert forall|i: int, j: int| 0 <= i < j < t.len() && t[i] == open implies t[j] != close by {
        assert(f(i) < f(j));
        assert(s[f(i)] == open);
    }
}

/// Inserting a character that is neither `open` nor `close` keeps the absence of pairs.
proof fn lemma_no_pair_insert(s: Seq<char>, p: int, x: char, open: char, close: char)
    requires
        no_pair(s, open, close),
        0 <= p <= s.len(),
        x != open,
        x != close,
    ensures
        no_pair(s.insert(p, x), open, close),
{
    let t = s.insert(p, x);
    assert forall|i: int, j: int| 0 <= i < j < t.len() && t[i] == open implies t[j] != close by {
        let i2 = if i < p { i } else { i - 1 };
        let j2 = if j < p { j } else { j - 1 };
        if t[j] == close {
            assert(i != p && j != p);
            assert(t[i] == s[i2] && t[j] == s[j2]);
        }
    }
}

proof fn lemma_no_pair_cut(s: Seq<char>, st: int, en: int, open: char, close: char)
    requires
        no_pair(s, open, close),
        0 <= st <= en < s.len(),
    ensures
        no_pair(s.take(st) + s.skip(en + 1), open, close),
{
    let t = s.take(st) + s.skip(en + 1);
    let f = |i: int| if i < st { i } else { i + (en + 1 - st) };
    assert forall|i: int| 0 <= i < t.len() implies 0 <= #[trigger] f(i) < s.len() && t[i] == s[f(i)] by {}
    lemma_no_pair_sub(s, t, open, close, f);
}

proof fn lemma_no_pair_take(s: Seq<char>, n: int, open: char, close: char)
    requires
        no_pair(s, open, close),
        0 <= n <= s.len(),
    ensures
        no_pair(s.take(n), open, close),
{
}

/// After group stripping no `open` has a `close` after it.
proof fn lemma_strip_groups_done(s: Seq<char>, open: char, close: char)
    requires
        open != close,
    ensures
        no_pair(strip_groups(s, open, close), open, close),
    decreases s.len(),
{
    lemma_find_from(s, open, 0);
    match find_from(s, open, 0) {
        Some(st) => {
            lemma_find_from(s, close, st);
            match find_from(s, close, st) {
                Some(en) => {
                    lemma_strip_groups_done(s.take(st) + s.skip(en + 1), open, close);
                },
                None => {},
            }
        },
        None => {},
    }
}

/// Group stripping keeps the absence of other pairs.
proof fn lemma_strip_groups_keeps(s: Seq<char>, open: char, close: char, o2: char, c2: char)
    requires
        no_pair(s, o2, c2),
    ensures
        no_pair(strip_groups(s, open, close), o2, c2),
    decreases s.len(),
{
    lemma_find_from(s, open, 0);
    match find_from(s, open, 0) {
        Some(st) => {
            lemma_find_from(s, close, st);
            match find_from(s, close, st) {
                Some(en) => {
                    lemma_no_pair_cut(s, st, en, o2, c2);
                    lemma_strip_groups_keeps(s.take(st) + s.skip(en + 1), open, close, o2, c2);
                },
                None => {},
            }
        },
        None => {},
    }
}

/// Without pairs, group stripping changes nothing.
proof fn lemma_strip_groups_identity(s: Seq<char>, open: char, close: char)
    requires
        open != close,
        no_pair(s, open, close),
    ensures
        strip_groups(s, open, close) == s,
{
    lemma_find_from(s, open, 0);
    match find_from(s, open, 0) {
        Some(st) => {
            lemma_find_from(s, close, st);
            match find_from(s, close, st) {
                Some(en) => {
                    assert(s[st] == open);
                    assert(st < en);
                },
                None => {},
            }
        },
        None => {},
    }
}

/// Extension stripping keeps a prefix, and leaves neither trailing white space
/// nor a known extension at the end.
proof fn lemma_strip_exts_prefix(s: Seq<char>)
    ensures
        strip_exts(s).len() <= s.len(),
        strip_exts(s) == s.take(strip_exts(s).len() as int),
        strip_exts(s).len() > 0 ==> !is_space(strip_exts(s).last()),
        first_ext(strip_exts(s), 0) is None,
    decreases s.len(),
{
    lemma_first_ext_bounds(s, 0);
    if s.len() > 0 && is_space(s.last()) {
        lemma_strip_exts_prefix(s.drop_last());
        assert(s.drop_last().take(strip_exts(s).len() as int) =~= s.take(strip_exts(s).len() as int));
    } else {
        match first_ext(s, 0) {
            Some(j) => {
                let e = rom_extensions()[j as int];
                if 0 < e.len() <= s.len() {
                    let t = s.take(s.len() - e.len());
                    lemma_strip_exts_prefix(t);
                    assert(t.take(strip_exts(s).len() as int) =~= s.take(strip_exts(s).len() as int));
                } else {
                    lemma_first_ext_bounds(s, 0);
                }
            },
            None => {
                assert(s.take(s.len() as int) =~= s);
            },
        }
    }
}

proof fn lemma_first_ext_bounds(s: Seq<char>, i: nat)
    ensures
        match first_ext(s, i) {
            Some(j) => j < rom_extensions().len() && ends_with_ci(s, rom_extensions()[j as int]),
            None => true,
        },
    decreases rom_extensions().len() - i,
{
    if i < rom_extensions().len() && !ends_with_ci(s, rom_extensions()[i as int]) {
        lemma_first_ext_bounds(s, i + 1);
    }
}

/// A prefix of clean white space that does not end in white space is clean.
proof fn lemma_clean_prefix(s: Seq<char>, n: int)
    requires
        clean_spaces(s),
        0 <= n <= s.len(),
        n > 0 ==> !is_space(s[n - 1]),
    ensures
        clean_spaces(s.take(n)),
{
    let p = s.take(n);
    assert forall|i: int| 0 <= i < p.len() && is_space(#[trigger] p[i]) implies p[i] == ' ' && 0 < i < p.len()
        - 1 && !is_space(p[i + 1]) by {
        assert(p[i] == s[i]);
        assert(s[i + 1] == p[i + 1]);
    }
}

/// Space collapsing keeps the absence of pairs of non-space characters.
proof fn lemma_collapse_keeps(s: Seq<char>, acc: Seq<char>, gap: bool, open: char, close: char)
    requires
        no_pair(acc + s, open, close),
        !is_space(open),
        !is_space(close),
    ensures
        no_pair(collapse_acc(s, acc, gap), open, close),
    decreases s.len(),
{
    if s.len() > 0 {
        let rest = s.drop_first();
        if is_space(s[0]) {
            let f = |i: int| if i < acc.len() { i } else { i + 1 };
            assert forall|i: int| 0 <= i < (acc + rest).len() implies 0 <= #[trigger] f(i) < (acc + s).len()
                && (acc + rest)[i] == (acc + s)[f(i)] by {}
            lemma_no_pair_sub(acc + s, acc + rest, open, close, f);
            lemma_collapse_keeps(rest, acc, true, open, close);
        } else {
            let base = if gap && acc.len() > 0 { acc.push(' ') } else { acc };
            if gap && acc.len() > 0 {
                lemma_no_pair_insert(acc + s, acc.len() as int, ' ', open, close);
                assert((acc + s).insert(acc.len() as int, ' ') =~= base.push(s[0]) + rest);
            } else {
                assert(acc + s =~= base.push(s[0]) + rest);
            }
            lemma_collapse_keeps(rest, base.push(s[0]), false, open, close);
        }
    }
}

/// Space collapsing leaves single spaces between words.
proof fn lemma_collapse_clean(s: Seq<char>, acc: Seq<char>, gap: bool)
    requires
        clean_spaces(acc),
        acc.len() > 0 ==> !is_space(acc.last()),
    ensures
        clean_spaces(collapse_acc(s, acc, gap)),
    decreases s.len(),
{
    if s.len() > 0 {
        let rest = s.drop_first();
        if is_space(s[0]) {
            lemma_collapse_clean(rest, acc, true);
        } else {
            let base = if gap && acc.len() > 0 { acc.push(' ') } else { acc };
            let next = base.push(s[0]);
            assert(' ' == ' ' && is_space(' '));
            assert forall|i: int| 0 <= i < next.len() && is_space(#[trigger] next[i]) implies next[i] == ' '
                && 0 < i < next.len() - 1 && !is_space(next[i + 1]) by {
                if i < acc.len() {
                    assert(next[i] == acc[i]);
                    if i + 1 < acc.len() {
                        assert(next[i + 1] == acc[i + 1]);
                    }
                }
            }
            lemma_collapse_clean(rest, next, false);
        }
    }
}

/// Collapsing a string whose white space is already clean changes nothing.
proof fn lemma_collapse_identity(s: Seq<char>, i: int)
    requires
        clean_spaces(s),
        0 <= i <= s.len(),
        i == 0 || !is_space(s[i - 1]),
    ensures
        collapse_acc(s.skip(i), s.take(i), false) == s,
    decreases s.len() - i,
{
    if i == s.len() {
        assert(s.take(i) =~= s);
        assert(s.skip(i).len() == 0);
    } else if !is_space(s[i]) {
        assert(s.skip(i)[0] == s[i]);
        assert(s.skip(i).drop_first() =~= s.skip(i + 1));
        assert(s.take(i).push(s[i]) =~= s.take(i + 1));
        assert(collapse_acc(s.skip(i), s.take(i), false) == collapse_acc(s.skip(i + 1), s.take(i + 1), false));
        lemma_collapse_identity(s, i + 1);
    } else {
        assert(s[i] == ' ' && 0 < i < s.len() - 1 && !is_space(s[i + 1]));
        assert(s.skip(i)[0] == s[i]);
        assert(s.skip(i + 1)[0] == s[i + 1]);
        assert(s.skip(i).drop_first() =~= s.skip(i + 1));
        assert(s.skip(i + 1).drop_first() =~= s.skip(i + 2));
        assert(s.take(i).push(' ').push(s[i + 1]) =~= s.take(i + 2));
        assert(collapse_acc(s.skip(i), s.take(i), false) == collapse_acc(s.skip(i + 1), s.take(i), true));
        assert(collapse_acc(s.skip(i + 1), s.take(i), true) == collapse_acc(s.skip(i + 2), s.take(i + 2), false));
        lemma_collapse_identity(s, i + 2);
    }
}

/// Normalising a normalised name changes nothing.
pub proof fn lemma_normalize_idempotent(x: Seq<char>)
    ensures
        normalized(normalized(x)) == normalized(x),
{
    let g1 = strip_groups(x, '(', ')');
    let g2 = strip_groups(g1, '[', ']');
    let c = collapse_spaces(g2);
    let y = normalized(x);
    lemma_strip_groups_done(x, '(', ')');
    lemma_strip_groups_keeps(g1, '[', ']', '(', ')');
    lemma_strip_groups_done(g1, '[', ']');
    assert(Seq::<char>::empty() + g2 =~= g2);
    lemma_collapse_keeps(g2, Seq::empty(), false, '(', ')');
    lemma_collapse_keeps(g2, Seq::empty(), false, '[', ']');
    lemma_collapse_clean(g2, Seq::empty(), false);
    lemma_strip_exts_prefix(c);
    lemma_no_pair_take(c, y.len() as int, '(', ')');
    lemma_no_pair_take(c, y.len() as int, '[', ']');
    lemma_clean_prefix(c, y.len() as int);
    lemma_strip_groups_identity(y, '(', ')');
    lemma_strip_groups_identity(y, '[', ']');
    lemma_collapse_identity(y, 0);
    assert(y.skip(0) =~= y);
    assert(y.take(0) =~= Seq::<char>::empty());
    assert(strip_exts(y) == y);
}

} // verus!
