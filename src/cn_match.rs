//! Similarity of Chinese game names: sequel numbers must agree, English
//! initialisms count as matches, and the Chinese core is compared by character
//! sets, by Pinyin letters and by Jaro-Winkler.

use vstd::prelude::*;
use pinyin::ToPinyin;
use crate::jaro::{jaro_winkler, jaro_winkler_similarity, SCORE_ONE};
use crate::text::{ascii_lower, ascii_lower_seq, is_ascii_alpha, is_ascii_digit, is_space, lower_of};

verus! {

/// The plain (toneless) Pinyin of a character, where it has one, as the
/// `pinyin` crate gives it.
pub uninterp spec fn pinyin_of(c: char) -> Option<Seq<char>>;

/// Relies on `pinyin::ToPinyin::to_pinyin` for `char` and `Pinyin::plain`: the
/// plain Pinyin of the character, if the crate knows one.
#[verifier::external_body]
fn char_pinyin(c: char) -> (r: Option<String>)
    ensures
        crate::types::opt_str(r) == pinyin_of(c),
{
    match c.to_pinyin() {
        Some(p) => Some(p.plain().to_string()),
        None => None,
    }
}

/// The name prefixes that brand localisation adds, compared ignoring ASCII case.
pub open spec fn brand_prefixes() -> Seq<Seq<char>> {
    seq!["神游"@, "神遊"@, "ique"@]
}

/// Whether `s` starts with `p`, ignoring ASCII case.
pub open spec fn starts_with_ci(s: Seq<char>, p: Seq<char>) -> bool {
    p.len() <= s.len() && forall|k: int| 0 <= k < p.len() ==> ascii_lower(#[trigger] s[k]) == ascii_lower(p[k])
}

/// `s` without the first brand prefix that it starts with, and without the white
/// space after it.
pub open spec fn strip_prefix_from(s: Seq<char>, i: nat) -> Seq<char>
    decreases brand_prefixes().len() - i,
{
    if i >= brand_prefixes().len() {
        s
    } else if starts_with_ci(s, brand_prefixes()[i as int]) {
        crate::text::trim_start(s.skip(brand_prefixes()[i as int].len() as int))
    } else {
        strip_prefix_from(s, i + 1)
    }
}

pub open spec fn remove_common_prefixes(s: Seq<char>) -> Seq<char> {
    strip_prefix_from(s, 0)
}

/// The simplified form of a traditional or variant character, from a fixed table.
pub open spec fn homophone(c: char) -> char {
    if c == '非' { '菲' }
    else if c == '飛' { '飞' }
    else if c == '極' { '极' }
    else if c == '戰' { '战' }
    else if c == '傳' { '传' }
    else if c == '説' { '说' }
    else if c == '機' { '机' }
    else if c == '車' { '车' }
    else if c == '東' { '东' }
    else if c == '島' { '岛' }
    else if c == '國' { '国' }
    else if c == '龍' { '龙' }
    else if c == '馬' { '马' }
    else if c == '電' { '电' }
    else if c == '記' { '记' }
    else if c == '時' { '时' }
    else if c == '開' { '开' }
    else if c == '門' { '门' }
    else if c == '見' { '见' }
    else if c == '長' { '长' }
    else if c == '無' { '无' }
    else if c == '為' { '为' }
    else if c == '從' { '从' }
    else if c == '頭' { '头' }
    else if c == '實' { '实' }
    else if c == '樂' { '乐' }
    else { c }
}

pub open spec fn normalize_homophones(s: Seq<char>) -> Seq<char> {
    Seq::new(s.len(), |i: int| homophone(s[i]))
}

/// Runs of ASCII digits, with `cur` the run under way.
pub open spec fn digit_runs_acc(s: Seq<char>, cur: Seq<char>, acc: Seq<Seq<char>>) -> Seq<Seq<char>>
    decreases s.len(),
{
    if s.len() == 0 {
        if cur.len() > 0 { acc.push(cur) } else { acc }
    } else if is_ascii_digit(s[0]) {
        digit_runs_acc(s.drop_first(), cur.push(s[0]), acc)
    } else {
        digit_runs_acc(s.drop_first(), Seq::empty(), if cur.len() > 0 { acc.push(cur) } else { acc })
    }
}

/// The maximal runs of ASCII digits of `s`, in order.
pub open spec fn extract_numbers(s: Seq<char>) -> Seq<Seq<char>> {
    digit_runs_acc(s, Seq::empty(), Seq::empty())
}

/// Which characters a selection keeps.
#[derive(Debug, Clone, Copy, PartialEq, Eq, Structural)]
pub enum CharClass {
    /// All but ASCII digits.
    NoDigits,
    /// ASCII letters only.
    Letters,
    /// All but ASCII letters.
    NoLetters,
}

pub open spec fn in_class(c: char, k: CharClass) -> bool {
    match k {
        CharClass::NoDigits => !is_ascii_digit(c),
        CharClass::Letters => is_ascii_alpha(c),
        CharClass::NoLetters => !is_ascii_alpha(c),
    }
}

/// The characters of `s` in the class, in order.
pub open spec fn select(s: Seq<char>, k: CharClass) -> Seq<char>
    decreases s.len(),
{
    if s.len() == 0 {
        Seq::empty()
    } else {
        select(s.drop_last(), k) + if in_class(s.last(), k) { seq![s.last()] } else { Seq::empty() }
    }
}

pub open spec fn remove_numbers(s: Seq<char>) -> Seq<char> {
    select(s, CharClass::NoDigits)
}

pub open spec fn extract_english(s: Seq<char>) -> Seq<char> {
    select(s, CharClass::Letters)
}

pub open spec fn remove_english(s: Seq<char>) -> Seq<char> {
    select(s, CharClass::NoLetters)
}

pub open spec fn is_upper(c: char) -> bool {
    'A' <= c && c <= 'Z'
}

pub open spec fn is_lower(c: char) -> bool {
    'a' <= c && c <= 'z'
}

pub open spec fn ascii_upper(c: char) -> char {
    if is_lower(c) { ((c as u32) - 32) as char } else { c }
}

/// The initialism of `s` from position `i`: each capital letter, and the first
/// letter of a lowercase word while the initialism is still empty.
pub open spec fn abbr_acc(s: Seq<char>, abbr: Seq<char>, prev_lower: bool) -> Seq<char>
    decreases s.len(),
{
    if s.len() == 0 {
        abbr
    } else {
        let c = s[0];
        if is_upper(c) {
            abbr_acc(s.drop_first(), abbr.push(c), false)
        } else if is_lower(c) {
            abbr_acc(s.drop_first(), if !prev_lower && abbr.len() == 0 { abbr.push(ascii_upper(c)) } else { abbr }, true)
        } else {
            abbr_acc(s.drop_first(), abbr, false)
        }
    }
}

pub open spec fn extract_abbreviation(s: Seq<char>) -> Seq<char> {
    abbr_acc(s, Seq::empty(), false)
}

/// The distinct characters of `s` that pass the filter, in order of first
/// occurrence: the members of the set that a Jaccard similarity compares.
/// `letters` selects ASCII letters; otherwise every non-space character counts.
pub open spec fn distinct(s: Seq<char>, letters: bool) -> Seq<char>
    decreases s.len(),
{
    if s.len() == 0 {
        Seq::empty()
    } else {
        let prev = distinct(s.drop_last(), letters);
        let c = s.last();
        let keep = if letters { is_ascii_alpha(c) } else { !is_space(c) };
        if keep && !prev.contains(c) { prev.push(c) } else { prev }
    }
}

/// How many members of `a` are in `b`.
pub open spec fn common(a: Seq<char>, b: Seq<char>) -> nat
    decreases a.len(),
{
    if a.len() == 0 {
        0
    } else {
        common(a.drop_last(), b) + if b.contains(a.last()) { 1nat } else { 0 }
    }
}

/// Jaccard similarity in millionths of the character sets of `a` and `b`:
/// the size of the intersection over the size of the union (the members of
/// `a`, and those of `b` not in `a`); one for two empty sets.
pub open spec fn jaccard(a: Seq<char>, b: Seq<char>, letters: bool) -> int {
    let da = distinct(a, letters);
    let db = distinct(b, letters);
    let i = common(da, db) as int;
    let u = da.len() + db.len() - common(db, da);
    if da.len() == 0 && db.len() == 0 {
        SCORE_ONE as int
    } else if u <= 0 {
        0
    } else {
        i * SCORE_ONE / u
    }
}

/// Each character replaced by its Pinyin, where it has one.
pub open spec fn pinyin_string(s: Seq<char>) -> Seq<char>
    decreases s.len(),
{
    if s.len() == 0 {
        Seq::empty()
    } else {
        pinyin_string(s.drop_last()) + match pinyin_of(s.last()) {
            Some(p) => p,
            None => seq![s.last()],
        }
    }
}

/// Whether `b` occurs in `a` as a contiguous part.
pub open spec fn contains_part(a: Seq<char>, b: Seq<char>) -> bool {
    exists|i: int| 0 <= i && i + b.len() <= a.len() && #[trigger] a.subrange(i, i + b.len()) == b
}

/// Whether some run of `q` is among the runs of `t`.
pub open spec fn shares_number(q: Seq<Seq<char>>, t: Seq<Seq<char>>) -> bool {
    exists|i: int| 0 <= i < q.len() && t.contains(#[trigger] q[i])
}

pub open spec fn runs(v: Seq<Vec<char>>) -> Seq<Seq<char>> {
    v.map_values(|x: Vec<char>| x@)
}

pub open spec fn max3(a: int, b: int, c: int) -> int {
    let ab = if a >= b { a } else { b };
    if ab >= c { ab } else { c }
}

/// The similarity of a Chinese query name and a candidate name, in millionths.
pub open spec fn smart_cn(query: Seq<char>, target: Seq<char>) -> int {
    let qc = remove_common_prefixes(query);
    let tc = remove_common_prefixes(target);
    let qn = normalize_homophones(lower_of(qc));
    let tn = normalize_homophones(lower_of(tc));
    let qnums = extract_numbers(qn);
    let tnums = extract_numbers(tn);
    let num_match = if qnums.len() > 0 && tnums.len() > 0 {
        shares_number(qnums, tnums)
    } else {
        true
    };
    if !num_match {
        0
    } else {
        let qe = extract_english(qn);
        let te = extract_english(tn);
        let abbr_match = qe.len() > 0 && te.len() > 0 && (ascii_lower_seq(qe) == ascii_lower_seq(te)
            || ascii_lower_seq(extract_abbreviation(qc)) == ascii_lower_seq(te) || ascii_lower_seq(qe)
            == ascii_lower_seq(extract_abbreviation(tc)));
        let qcore = remove_english(remove_numbers(qn));
        let tcore = remove_english(remove_numbers(tn));
        let j = jaccard(qcore, tcore, false);
        let p = jaccard(pinyin_string(qcore), pinyin_string(tcore), true);
        let w = jaro_winkler(qcore, tcore);
        let part = contains_part(qcore, tcore) || contains_part(tcore, qcore);
        let s0 = max3(j, p, w);
        let s1 = if abbr_match && s0 > 500_000 && s0 < 950_000 { 950_000 } else { s0 };
        let s2 = if part && s1 > 500_000 && s1 < 900_000 { 900_000 } else { s1 };
        if (j > 800_000 || p > 800_000) && s2 < 850_000 { 850_000 } else { s2 }
    }
}

fn brand_prefix(i: usize) -> (r: &'static str)
    requires
        i < 3,
    ensures
        r@ == brand_prefixes()[i as int],
{
    match i {
        0 => "神游",
        1 => "神遊",
        _ => "ique",
    }
}

fn starts_with_ci_exec(s: &Vec<char>, p: &Vec<char>) -> (r: bool)
    ensures
        r == starts_with_ci(s@, p@),
{
    if p.len() > s.len() {
        return false;
    }
    let mut k: usize = 0;
    while k < p.len()
        invariant
            p.len() <= s.len(),
            k <= p.len(),
            forall|q: int| 0 <= q < k ==> ascii_lower(#[trigger] s@[q]) == ascii_lower(p@[q]),
        decreases p.len() - k,
    {
        if crate::text::to_ascii_lower(s[k]) != crate::text::to_ascii_lower(p[k]) {
            return false;
        }
        k = k + 1;
    }
    true
}

fn trim_start_exec(s: &Vec<char>) -> (r: Vec<char>)
    ensures
        r@ == crate::text::trim_start(s@),
{
    let mut i: usize = 0;
    proof {
        assert(s@.skip(0) =~= s@);
    }
    while i < s.len() && crate::text::is_space_char(s[i])
        invariant
            i <= s.len(),
            crate::text::trim_start(s@) == crate::text::trim_start(s@.skip(i as int)),
        decreases s.len() - i,
    {
        proof {
            assert(s@.skip(i as int).drop_first() =~= s@.skip(i + 1));
        }
        i = i + 1;
    }
    proof {
        assert(s@.skip(i as int) =~= s@.subrange(i as int, s.len() as int));
    }
    crate::text::slice(s, i, s.len())
}

fn strip_brand_prefix(s: &Vec<char>) -> (r: Vec<char>)
    ensures
        r@ == remove_common_prefixes(s@),
{
    let mut i: usize = 0;
    while i < 3
        invariant
            i <= 3,
            brand_prefixes().len() == 3,
            strip_prefix_from(s@, 0) == strip_prefix_from(s@, i as nat),
        decreases 3 - i,
    {
        let p = crate::text::chars_of(brand_prefix(i));
        if starts_with_ci_exec(s, &p) {
            let rest = crate::text::slice(s, p.len(), s.len());
            proof {
                assert(rest@ =~= s@.skip(p.len() as int));
            }
            return trim_start_exec(&rest);
        }
        i = i + 1;
    }
    s.clone()
}

fn homophone_exec(c: char) -> (r: char)
    ensures
        r == homophone(c),
{
    if c == '非' { '菲' }
    else if c == '飛' { '飞' }
    else if c == '極' { '极' }
    else if c == '戰' { '战' }
    else if c == '傳' { '传' }
    else if c == '説' { '说' }
    else if c == '機' { '机' }
    else if c == '車' { '车' }
    else if c == '東' { '东' }
    else if c == '島' { '岛' }
    else if c == '國' { '国' }
    else if c == '龍' { '龙' }
    else if c == '馬' { '马' }
    else if c == '電' { '电' }
    else if c == '記' { '记' }
    else if c == '時' { '时' }
    else if c == '開' { '开' }
    else if c == '門' { '门' }
    else if c == '見' { '见' }
    else if c == '長' { '长' }
    else if c == '無' { '无' }
    else if c == '為' { '为' }
    else if c == '從' { '从' }
    else if c == '頭' { '头' }
    else if c == '實' { '实' }
    else if c == '樂' { '乐' }
    else { c }
}

fn homophones_exec(s: &Vec<char>) -> (r: Vec<char>)
    ensures
        r@ == normalize_homophones(s@),
{
    let mut r: Vec<char> = Vec::new();
    for i in 0..s.len()
        invariant
            r@ == normalize_homophones(s@.take(i as int)),
    {
        r.push(homophone_exec(s[i]));
        proof {
            assert(r@ =~= normalize_homophones(s@.take(i + 1)));
        }
    }
    proof {
        assert(s@.take(s.len() as int) =~= s@);
    }
    r
}

fn extract_numbers_exec(s: &Vec<char>) -> (r: Vec<Vec<char>>)
    ensures
        runs(r@) == extract_numbers(s@),
{
    let mut acc: Vec<Vec<char>> = Vec::new();
    let mut cur: Vec<char> = Vec::new();
    proof {
        assert(s@.skip(0) =~= s@);
        assert(acc@.map_values(|v: Vec<char>| v@) =~= Seq::<Seq<char>>::empty());
    }
    for i in 0..s.len()
        invariant
            extract_numbers(s@) == digit_runs_acc(s@.skip(i as int), cur@, acc@.map_values(|v: Vec<char>| v@)),
    {
        proof {
            assert(s@.skip(i as int).drop_first() =~= s@.skip(i + 1));
        }
        if '0' <= s[i] && s[i] <= '9' {
            cur.push(s[i]);
        } else {
            if cur.len() > 0 {
                let ghost before = acc@.map_values(|v: Vec<char>| v@);
                let ghost cv = cur@;
                acc.push(cur);
                proof {
                    assert(acc@.map_values(|v: Vec<char>| v@) =~= before.push(cv));
                }
            }
            cur = Vec::new();
        }
    }
    proof {
        assert(s@.skip(s.len() as int) =~= Seq::<char>::empty());
    }
    if cur.len() > 0 {
        let ghost before = acc@.map_values(|v: Vec<char>| v@);
        let ghost cv = cur@;
        acc.push(cur);
        proof {
            assert(acc@.map_values(|v: Vec<char>| v@) =~= before.push(cv));
        }
    }
    acc
}

/// The characters of `s` in the class, in order.
fn select_exec(s: &Vec<char>, k: CharClass) -> (r: Vec<char>)
    ensures
        r@ == select(s@, k),
{
    let mut r: Vec<char> = Vec::new();
    for i in 0..s.len()
        invariant
            r@ == select(s@.take(i as int), k),
    {
        let c = s[i];
        let alpha = ('a' <= c && c <= 'z') || ('A' <= c && c <= 'Z');
        let digit = '0' <= c && c <= '9';
        let keep = match k {
            CharClass::NoDigits => !digit,
            CharClass::Letters => alpha,
            CharClass::NoLetters => !alpha,
        };
        proof {
            assert(s@.take(i + 1).drop_last() =~= s@.take(i as int));
        }
        if keep {
            r.push(c);
        }
        proof {
            assert(r@ =~= select(s@.take(i + 1), k));
        }
    }
    proof {
        assert(s@.take(s.len() as int) =~= s@);
    }
    r
}

fn abbreviation_exec(s: &Vec<char>) -> (r: Vec<char>)
    ensures
        r@ == extract_abbreviation(s@),
{
    let mut abbr: Vec<char> = Vec::new();
    let mut prev_lower = false;
    proof {
        assert(s@.skip(0) =~= s@);
    }
    for i in 0..s.len()
        invariant
            extract_abbreviation(s@) == abbr_acc(s@.skip(i as int), abbr@, prev_lower),
    {
        proof {
            assert(s@.skip(i as int).drop_first() =~= s@.skip(i + 1));
        }
        let c = s[i];
        if 'A' <= c && c <= 'Z' {
            abbr.push(c);
            prev_lower = false;
        } else if 'a' <= c && c <= 'z' {
            if !prev_lower && abbr.len() == 0 {
                let u: u8 = (c as u32 - 32) as u8;
                abbr.push(u as char);
            }
            prev_lower = true;
        } else {
            prev_lower = false;
        }
    }
    proof {
        assert(s@.skip(s.len() as int) =~= Seq::<char>::empty());
    }
    abbr
}

fn contains_char(v: &Vec<char>, c: char) -> (r: bool)
    ensures
        r == v@.contains(c),
{
    let mut i: usize = 0;
    while i < v.len()
        invariant
            i <= v.len(),
            forall|q: int| 0 <= q < i ==> v@[q] != c,
        decreases v.len() - i,
    {
        if v[i] == c {
            proof {
                assert(v@[i as int] == c);
            }
            return true;
        }
        i = i + 1;
    }
    false
}

fn distinct_exec(s: &Vec<char>, letters: bool) -> (r: Vec<char>)
    ensures
        r@ == distinct(s@, letters),
{
    let mut r: Vec<char> = Vec::new();
    for i in 0..s.len()
        invariant
            r@ == distinct(s@.take(i as int), letters),
    {
        let c = s[i];
        let keep = if letters {
            ('a' <= c && c <= 'z') || ('A' <= c && c <= 'Z')
        } else {
            !crate::text::is_space_char(c)
        };
        proof {
            assert(s@.take(i + 1).drop_last() =~= s@.take(i as int));
        }
        if keep && !contains_char(&r, c) {
            r.push(c);
        }
    }
    proof {
        assert(s@.take(s.len() as int) =~= s@);
    }
    r
}

proof fn lemma_common_le(a: Seq<char>, b: Seq<char>)
    ensures
        common(a, b) <= a.len(),
    decreases a.len(),
{
    if a.len() > 0 {
        lemma_common_le(a.drop_last(), b);
    }
}

/// Jaccard similarity of the character sets, in millionths.
fn jaccard_exec(a: &Vec<char>, b: &Vec<char>, letters: bool) -> (r: u32)
    ensures
        r == jaccard(a@, b@, letters),
        r <= SCORE_ONE,
{
    let da = distinct_exec(a, letters);
    let db = distinct_exec(b, letters);
    let mut i: usize = 0;
    for k in 0..da.len()
        invariant
            i == common(da@.take(k as int), db@),
            i <= k,
    {
        proof {
            assert(da@.take(k + 1).drop_last() =~= da@.take(k as int));
        }
        if contains_char(&db, da[k]) {
            i = i + 1;
        }
    }
    let mut back: usize = 0;
    for k in 0..db.len()
        invariant
            back == common(db@.take(k as int), da@),
            back <= k,
    {
        proof {
            assert(db@.take(k + 1).drop_last() =~= db@.take(k as int));
        }
        if contains_char(&da, db[k]) {
            back = back + 1;
        }
    }
    proof {
        assert(da@.take(da.len() as int) =~= da@);
        assert(db@.take(db.len() as int) =~= db@);
        lemma_common_le(da@, db@);
    }
    if da.len() == 0 && db.len() == 0 {
        return SCORE_ONE;
    }
    let u = da.len() as u128 + (db.len() - back) as u128;
    if u == 0 {
        return 0;
    }
    proof {
        let ii = i as int;
        let uu = u as int;
        assert(ii * SCORE_ONE / uu <= SCORE_ONE) by (nonlinear_arith)
            requires 0 <= ii <= uu, uu > 0;
    }
    ((i as u128) * (SCORE_ONE as u128) / u) as u32
}

fn pinyin_exec(s: &Vec<char>) -> (r: Vec<char>)
    ensures
        r@ == pinyin_string(s@),
{
    let mut r: Vec<char> = Vec::new();
    for i in 0..s.len()
        invariant
            r@ == pinyin_string(s@.take(i as int)),
    {
        proof {
            assert(s@.take(i + 1).drop_last() =~= s@.take(i as int));
        }
        match char_pinyin(s[i]) {
            Some(p) => {
                let mut pc = crate::text::chars_of(p.as_str());
                r.append(&mut pc);
            },
            None => {
                r.push(s[i]);
                proof {
                    assert(r@ =~= pinyin_string(s@.take(i as int)) + seq![s@[i as int]]);
                }
            },
        }
    }
    proof {
        assert(s@.take(s.len() as int) =~= s@);
    }
    r
}

pub(crate) fn contains_part_exec(a: &Vec<char>, b: &Vec<char>) -> (r: bool)
    ensures
        r == contains_part(a@, b@),
{
    if b.len() > a.len() {
        return false;
    }
    if b.len() == 0 {
        proof {
            assert(a@.subrange(0int, 0int + b@.len()) =~= b@);
        }
        return true;
    }
    let last = a.len() - b.len();
    let mut i: usize = 0;
    while i <= last
        invariant
            0 < b.len() <= a.len(),
            last == a.len() - b.len(),
            i <= last + 1,
            forall|q: int| 0 <= q < i ==> #[trigger] a@.subrange(q, q + b.len()) != b@,
        decreases a.len() - i,
    {
        let part = crate::text::slice(a, i, i + b.len());
        if crate::text::seq_eq(&part, b) {
            return true;
        }
        i = i + 1;
    }
    false
}

fn to_ascii_lower_all(s: &Vec<char>) -> (r: Vec<char>)
    ensures
        r@ == ascii_lower_seq(s@),
{
    let mut r: Vec<char> = Vec::new();
    for i in 0..s.len()
        invariant
            r@ == ascii_lower_seq(s@.take(i as int)),
    {
        r.push(crate::text::to_ascii_lower(s[i]));
        proof {
            assert(r@ =~= ascii_lower_seq(s@.take(i + 1)));
        }
    }
    proof {
        assert(s@.take(s.len() as int) =~= s@);
    }
    r
}

fn any_number_shared(q: &Vec<Vec<char>>, t: &Vec<Vec<char>>) -> (r: bool)
    ensures
        r == shares_number(runs(q@), runs(t@)),
{
    let ghost qv = runs(q@);
    let ghost tv = runs(t@);
    let mut i: usize = 0;
    while i < q.len()
        invariant
            qv == runs(q@),
            tv == runs(t@),
            i <= q.len(),
            forall|p: int| 0 <= p < i ==> !tv.contains(#[trigger] qv[p]),
        decreases q.len() - i,
    {
        let mut j: usize = 0;
        while j < t.len()
            invariant
                qv == runs(q@),
                tv == runs(t@),
                i < q.len(),
                j <= t.len(),
                forall|p: int| 0 <= p < j ==> tv[p] != qv[i as int],
            decreases t.len() - j,
        {
            if crate::text::seq_eq(&q[i], &t[j]) {
                proof {
                    assert(tv[j as int] == qv[i as int]);
                }
                return true;
            }
            j = j + 1;
        }
        i = i + 1;
    }
    false
}

/// Similarity of a Chinese query name and a candidate name, in millionths (see
/// `smart_cn`): zero when both carry numbers and none of the query's is among
/// the candidate's.
pub fn smart_cn_similarity(query: &str, target: &str) -> (r: u32)
    ensures
        r == smart_cn(query@, target@),
        r <= SCORE_ONE,
{
    let qc = strip_brand_prefix(&crate::text::chars_of(query));
    let tc = strip_brand_prefix(&crate::text::chars_of(target));
    let ql = crate::text::lowercase(crate::text::string_of(&qc).as_str());
    let tl = crate::text::lowercase(crate::text::string_of(&tc).as_str());
    let qn = homophones_exec(&crate::text::chars_of(ql.as_str()));
    let tn = homophones_exec(&crate::text::chars_of(tl.as_str()));
    let qnums = extract_numbers_exec(&qn);
    let tnums = extract_numbers_exec(&tn);
    if qnums.len() > 0 && tnums.len() > 0 && !any_number_shared(&qnums, &tnums) {
        return 0;
    }
    let qe = select_exec(&qn, CharClass::Letters);
    let te = select_exec(&tn, CharClass::Letters);
    let abbr_match = if qe.len() > 0 && te.len() > 0 {
        let qel = to_ascii_lower_all(&qe);
        let tel = to_ascii_lower_all(&te);
        let qa = to_ascii_lower_all(&abbreviation_exec(&qc));
        let ta = to_ascii_lower_all(&abbreviation_exec(&tc));
        crate::text::seq_eq(&qel, &tel) || crate::text::seq_eq(&qa, &tel) || crate::text::seq_eq(&qel, &ta)
    } else {
        false
    };
    let qcore = select_exec(&select_exec(&qn, CharClass::NoDigits), CharClass::NoLetters);
    let tcore = select_exec(&select_exec(&tn, CharClass::NoDigits), CharClass::NoLetters);
    let j = jaccard_exec(&qcore, &tcore, false);
    let p = jaccard_exec(&pinyin_exec(&qcore), &pinyin_exec(&tcore), true);
    let w = jaro_winkler_similarity(
        crate::text::string_of(&qcore).as_str(),
        crate::text::string_of(&tcore).as_str(),
    );
    let part = contains_part_exec(&qcore, &tcore) || contains_part_exec(&tcore, &qcore);
    let mut score = if j >= p { j } else { p };
    if w > score {
        score = w;
    }
    if abbr_match && score > 500_000 && score < 950_000 {
        score = 950_000;
    }
    if part && score > 500_000 && score < 900_000 {
        score = 900_000;
    }
    if (j > 800_000 || p > 800_000) && score < 850_000 {
        score = 850_000;
    }
    score
}

proof fn lemma_common_all(a: Seq<char>, b: Seq<char>)
    requires
        forall|i: int| 0 <= i < a.len() ==> b.contains(#[trigger] a[i]),
    ensures
        common(a, b) == a.len(),
    decreases a.len(),
{
    if a.len() > 0 {
        let t = a.drop_last();
        assert forall|i: int| 0 <= i < t.len() implies b.contains(#[trigger] t[i]) by {
            assert(t[i] == a[i]);
        }
        lemma_common_all(t, b);
        assert(b.contains(a[a.len() - 1]));
    }
}

/// Jaccard similarity lies between zero and one.
proof fn lemma_jaccard_range(a: Seq<char>, b: Seq<char>, letters: bool)
    ensures
        0 <= jaccard(a, b, letters) <= SCORE_ONE,
{
    let da = distinct(a, letters);
    let db = distinct(b, letters);
    lemma_common_le(da, db);
    lemma_common_le(db, da);
    let i = common(da, db) as int;
    let u = da.len() + db.len() - common(db, da);
    if u > 0 {
        assert(0 <= i * SCORE_ONE / u <= SCORE_ONE) by (nonlinear_arith)
            requires 0 <= i <= u, u > 0;
    }
}

/// A character set is fully similar to itself.
proof fn lemma_jaccard_self(a: Seq<char>, letters: bool)
    ensures
        jaccard(a, a, letters) == SCORE_ONE,
{
    let da = distinct(a, letters);
    assert forall|i: int| 0 <= i < da.len() implies da.contains(#[trigger] da[i]) by {}
    lemma_common_all(da, da);
    if da.len() > 0 {
        let n = da.len() as int;
        assert(n * SCORE_ONE / n == SCORE_ONE) by (nonlinear_arith)
            requires n > 0;
    }
}

/// Any name is fully similar to itself.
pub proof fn lemma_smart_cn_self(s: Seq<char>)
    ensures
        smart_cn(s, s) == SCORE_ONE,
{
    let c = remove_common_prefixes(s);
    let n = normalize_homophones(lower_of(c));
    let nums = extract_numbers(n);
    if nums.len() > 0 {
        assert(nums.contains(nums[0]));
        assert(shares_number(nums, nums));
    }
    let core = remove_english(remove_numbers(n));
    lemma_jaccard_self(core, false);
    lemma_jaccard_range(pinyin_string(core), pinyin_string(core), true);
    crate::jaro::lemma_jaro_winkler_range(core, core);
}

} // verus!
