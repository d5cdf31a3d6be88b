//! The local Chinese ROM name database as a provider: candidate scoring for a
//! query, and the cache of the name tables read per system.

use vstd::prelude::*;
use crate::cn_match::{smart_cn, smart_cn_similarity};
use crate::cn_names::CnRomEntry;
use crate::jaro::{jaro_winkler, jaro_winkler_similarity, SCORE_ONE};
use crate::text::{chars_eq_str, lower_of, owned, trim};
use crate::types::{GameMetadata, MetadataView, SearchResult};

verus! {

/// The id under which the local database answers.
pub const PROVIDER_ID: &'static str = "local_cn_repo";

/// Candidates below this confidence (in millionths) are dropped.
pub const ACCEPT_THRESHOLD: u32 = 750_000;

/// At most this many candidates are returned.
pub const MAX_RESULTS: usize = 5;

/// An English name without the tags that begin at its first `(`.
pub open spec fn untagged(s: Seq<char>) -> Seq<char> {
    match crate::matcher::find_from(s, '(', 0) {
        Some(i) => if 0 <= i <= s.len() { trim(s.take(i)) } else { s },
        None => s,
    }
}

pub open spec fn max_of(a: int, b: int) -> int {
    if a >= b { a } else { b }
}

/// The confidence of a table row for a query name and file stem (both already
/// lowercase): one for an exact Chinese or English name, else the best of the
/// Chinese-aware and Jaro-Winkler scores where it exceeds the threshold.
pub open spec fn entry_score(qn: Seq<char>, stem: Seq<char>, en: Seq<char>, cn: Seq<char>) -> Option<int> {
    let el = lower_of(en);
    let cl = lower_of(cn);
    if cl == qn || cl == stem || el == qn || el == stem {
        Some(SCORE_ONE as int)
    } else {
        let s = max_of(
            max_of(max_of(smart_cn(qn, cl), smart_cn(stem, cl)), max_of(jaro_winkler(qn, el), jaro_winkler(stem, el))),
            jaro_winkler(qn, untagged(el)),
        );
        if s > ACCEPT_THRESHOLD { Some(s) } else { None }
    }
}

/// The rows that score, as (row position, confidence), in table order.
pub open spec fn scored(qn: Seq<char>, stem: Seq<char>, entries: Seq<CnRomEntry>) -> Seq<(int, int)>
    decreases entries.len(),
{
    if entries.len() == 0 {
        Seq::empty()
    } else {
        let prev = scored(qn, stem, entries.drop_last());
        let e = entries.last();
        match entry_score(qn, stem, e.english_name@, e.chinese_name@) {
            Some(s) => prev.push(((entries.len() - 1) as int, s)),
            None => prev,
        }
    }
}

/// `s` with `x` inserted after every pair of at least its confidence.
pub open spec fn insert_ranked(s: Seq<(int, int)>, x: (int, int)) -> Seq<(int, int)>
    decreases s.len(),
{
    if s.len() == 0 {
        seq![x]
    } else if s[0].1 >= x.1 {
        seq![s[0]] + insert_ranked(s.drop_first(), x)
    } else {
        seq![x] + s
    }
}

/// The pairs by confidence, highest first; equal ones keep their order.
pub open spec fn ranked(s: Seq<(int, int)>) -> Seq<(int, int)>
    decreases s.len(),
{
    if s.len() == 0 {
        Seq::empty()
    } else {
        insert_ranked(ranked(s.drop_last()), s.last())
    }
}

proof fn lemma_insert_ranked(s: Seq<(int, int)>, x: (int, int), k: int)
    requires
        0 <= k <= s.len(),
        forall|q: int| 0 <= q < k ==> (#[trigger] s[q]).1 >= x.1,
        k == s.len() || s[k].1 < x.1,
    ensures
        insert_ranked(s, x) == s.take(k) + seq![x] + s.skip(k),
    decreases s.len(),
{
    if s.len() == 0 {
        assert(s.take(k) + seq![x] + s.skip(k) =~= seq![x]);
    } else if k == 0 {
        assert(s.take(k) + seq![x] + s.skip(k) =~= seq![x] + s);
    } else {
        let t = s.drop_first();
        assert forall|q: int| 0 <= q < k - 1 implies (#[trigger] t[q]).1 >= x.1 by {
            assert(t[q] == s[q + 1]);
        }
        lemma_insert_ranked(t, x, k - 1);
        assert(seq![s[0]] + (t.take(k - 1) + seq![x] + t.skip(k - 1)) =~= s.take(k) + seq![x] + s.skip(k));
    }
}

fn untagged_exec(s: &Vec<char>) -> (r: Vec<char>)
    ensures
        r@ == untagged(s@),
{
    match crate::matcher::find_char(s, '(', 0) {
        Some(i) => {
            let head = crate::text::slice(s, 0, i);
            proof {
                assert(head@ =~= s@.take(i as int));
            }
            crate::text::trim_chars(&head)
        },
        None => s.clone(),
    }
}

fn max_u32(a: u32, b: u32) -> (r: u32)
    ensures
        r == max_of(a as int, b as int),
{
    if a >= b { a } else { b }
}

fn lower_chars(s: &str) -> (r: Vec<char>)
    ensures
        r@ == lower_of(s@),
{
    let l = crate::text::lowercase(s);
    crate::text::chars_of(l.as_str())
}

/// The confidence of one table row (see `entry_score`).
pub fn score_entry(qn: &str, stem: &str, entry: &CnRomEntry) -> (r: Option<u32>)
    ensures
        match r {
            Some(s) => entry_score(qn@, stem@, entry.english_name@, entry.chinese_name@) == Some(s as int),
            None => entry_score(qn@, stem@, entry.english_name@, entry.chinese_name@) is None,
        },
        r matches Some(s) ==> s <= SCORE_ONE,
{
    let q = crate::text::chars_of(qn);
    let st = crate::text::chars_of(stem);
    let el = lower_chars(entry.english_name.as_str());
    let cl = lower_chars(entry.chinese_name.as_str());
    if crate::text::seq_eq(&cl, &q) || crate::text::seq_eq(&cl, &st) || crate::text::seq_eq(&el, &q)
        || crate::text::seq_eq(&el, &st) {
        return Some(SCORE_ONE);
    }
    let cls = crate::text::string_of(&cl);
    let els = crate::text::string_of(&el);
    let clean = crate::text::string_of(&untagged_exec(&el));
    let a = max_u32(smart_cn_similarity(qn, cls.as_str()), smart_cn_similarity(stem, cls.as_str()));
    let b = max_u32(jaro_winkler_similarity(qn, els.as_str()), jaro_winkler_similarity(stem, els.as_str()));
    let s = max_u32(max_u32(a, b), jaro_winkler_similarity(qn, clean.as_str()));
    if s > ACCEPT_THRESHOLD {
        Some(s)
    } else {
        None
    }
}

/// What the database answers to a search: the best rows for the query name and
/// the ROM's file stem, by confidence (equal ones in table order), at most
/// `MAX_RESULTS`, as search results of this provider for `system`.
pub fn search_entries(query_name: &str, file_stem: &str, system: &String, entries: &Vec<CnRomEntry>) -> (r: Vec<SearchResult>)
    ensures
        ({
            let rk = ranked(scored(lower_of(query_name@), lower_of(file_stem@), entries@));
            &&& r.len() == if rk.len() < MAX_RESULTS { rk.len() } else { MAX_RESULTS as nat }
            &&& forall|k: int|
                0 <= k < r.len() ==> {
                    let (i, s) = rk[k];
                    &&& 0 <= i < entries.len()
                    &&& (#[trigger] r@[k]).source_id@ == entries@[i].english_name@
                    &&& r@[k].name@ == entries@[i].chinese_name@
                    &&& r@[k].confidence == s
                    &&& r@[k].provider@ == PROVIDER_ID@
                    &&& r@[k].system == Some(*system)
                    &&& r@[k].year is None
                    &&& r@[k].thumbnail is None
                }
        }),
{
    let qn = crate::text::lowercase(query_name);
    let stem = crate::text::lowercase(file_stem);
    let ghost qv = qn@;
    let ghost sv = stem@;
    let mut order: Vec<(usize, u32)> = Vec::new();
    let ghost all = entries@;
    proof {
        assert(all.take(0) =~= Seq::<CnRomEntry>::empty());
    }
    for i in 0..entries.len()
        invariant
            all == entries@,
            qv == qn@,
            sv == stem@,
            order@.map_values(|p: (usize, u32)| (p.0 as int, p.1 as int)) == ranked(scored(qv, sv, all.take(i as int))),
            forall|q: int| 0 <= q < order.len() ==> (#[trigger] order@[q]).0 < i && order@[q].1 <= SCORE_ONE,
    {
        proof {
            assert(all.take(i + 1).drop_last() =~= all.take(i as int));
            assert(all.take(i + 1).last() == entries@[i as int]);
        }
        let ghost prev = scored(qv, sv, all.take(i as int));
        proof {
            let t = all.take(i + 1);
            assert(t.len() - 1 == i);
            assert(scored(qv, sv, t) == match entry_score(qv, sv, entries@[i as int].english_name@, entries@[i as int].chinese_name@) {
                Some(sc) => prev.push((i as int, sc)),
                None => prev,
            });
        }
        match score_entry(qn.as_str(), stem.as_str(), &entries[i]) {
            Some(s) => {
                proof {
                    let x = (i as int, s as int);
                    assert(prev.push(x).drop_last() =~= prev);
                    assert(ranked(prev.push(x)) == insert_ranked(ranked(prev), x));
                }
                let mut k: usize = 0;
                while k < order.len() && order[k].1 >= s
                    invariant
                        k <= order.len(),
                        forall|q: int| 0 <= q < k ==> (#[trigger] order@[q]).1 >= s,
                    decreases order.len() - k,
                {
                    k = k + 1;
                }
                let ghost before = order@.map_values(|p: (usize, u32)| (p.0 as int, p.1 as int));
                let ghost old_order = order@;
                order.insert(k, (i, s));
                proof {
                    let x = (i as int, s as int);
                    assert forall|q: int| 0 <= q < k implies (#[trigger] before[q]).1 >= x.1 by {
                        assert(before[q] == (old_order[q].0 as int, old_order[q].1 as int));
                    }
                    if k < before.len() {
                        assert(before[k as int] == (old_order[k as int].0 as int, old_order[k as int].1 as int));
                    }
                    lemma_insert_ranked(before, x, k as int);
                    assert(order@.map_values(|p: (usize, u32)| (p.0 as int, p.1 as int)) =~= before.take(k as int) + seq![x] + before.skip(k as int));
                    assert forall|q: int| 0 <= q < order.len() implies (#[trigger] order@[q]).0 < i + 1 && order@[q].1 <= SCORE_ONE by {
                        if q < k {
                            assert(order@[q] == old_order[q]);
                        } else if q > k {
                            assert(order@[q] == old_order[q - 1]);
                        }
                    }
                }
            },
            None => {},
        }
    }
    proof {
        assert(all.take(entries.len() as int) =~= all);
    }
    let ghost rk = order@.map_values(|p: (usize, u32)| (p.0 as int, p.1 as int));
    let n = if order.len() < MAX_RESULTS { order.len() } else { MAX_RESULTS };
    let mut r: Vec<SearchResult> = Vec::new();
    for k in 0..n
        invariant
            n <= order.len(),
            rk == order@.map_values(|p: (usize, u32)| (p.0 as int, p.1 as int)),
            forall|q: int| 0 <= q < order.len() ==> (#[trigger] order@[q]).0 < entries.len(),
            r.len() == k,
            forall|q: int|
                0 <= q < k ==> {
                    let (i, s) = rk[q];
                    &&& 0 <= i < entries.len()
                    &&& (#[trigger] r@[q]).source_id@ == entries@[i].english_name@
                    &&& r@[q].name@ == entries@[i].chinese_name@
                    &&& r@[q].confidence == s
                    &&& r@[q].provider@ == PROVIDER_ID@
                    &&& r@[q].system == Some(*system)
                    &&& r@[q].year is None
                    &&& r@[q].thumbnail is None
                },
    {
        let (i, s) = order[k];
        let e = &entries[i];
        r.push(SearchResult {
            provider: crate::text::owned(PROVIDER_ID),
            source_id: e.english_name.clone(),
            name: e.chinese_name.clone(),
            year: None,
            system: Some(system.clone()),
            thumbnail: None,
            confidence: s,
        });
    }
    r
}

/// The metadata a table row gives: its Chinese name as the name, its English
/// name, and a description that names it in Chinese.
pub open spec fn row_metadata(e: CnRomEntry) -> MetadataView {
    MetadataView {
        name: e.chinese_name@,
        english_name: Some(e.english_name@),
        description: Some("中文名称: "@ + e.chinese_name@),
        release_date: None,
        developer: None,
        publisher: None,
        genres: Seq::empty(),
        players: None,
        rating: None,
    }
}

/// No row before row `q` of table `t`, in table order, has the English name `id`.
pub open spec fn no_earlier_row(cache: Seq<(String, Vec<CnRomEntry>)>, id: Seq<char>, t: int, q: int) -> bool {
    forall|a: int, b: int|
        0 <= a <= t && 0 <= b < cache[a].1.len() && (a < t || b < q) ==> (#[trigger] cache[a].1@[b]).english_name@ != id
}

/// The local Chinese name database: where its tables are looked for, and the
/// tables already read, per system.
pub struct LocalCnProvider {
    pub search_paths: Vec<String>,
    pub cache: Vec<(String, Vec<CnRomEntry>)>,
}

impl LocalCnProvider {
    /// A provider that looks in the user's copy of the database under
    /// `data_dir` first, then in `extra_paths`.
    pub fn new(data_dir: &str, extra_paths: Vec<String>) -> (r: Self)
        ensures
            r.search_paths@.len() == extra_paths@.len() + 1,
            r.search_paths@[0]@ == data_dir@ + "/rom-name-cn"@,
            r.search_paths@.skip(1) == extra_paths@,
            r.cache@.len() == 0,
    {
        let mut p = crate::text::chars_of(data_dir);
        let mut tail = crate::text::chars_of("/rom-name-cn");
        p.append(&mut tail);
        let mut paths: Vec<String> = Vec::new();
        paths.push(crate::text::string_of(&p));
        let mut extra = extra_paths;
        paths.append(&mut extra);
        proof {
            assert(paths@.skip(1) =~= extra_paths@);
        }
        LocalCnProvider { search_paths: paths, cache: Vec::new() }
    }

    /// The cached table of a system, if it was read.
    pub fn cached(&self, system: &str) -> (r: Option<usize>)
        ensures
            match r {
                Some(i) => i < self.cache.len() && self.cache@[i as int].0@ == system@,
                None => forall|i: int| 0 <= i < self.cache.len() ==> self.cache@[i].0@ != system@,
            },
    {
        let mut i: usize = 0;
        while i < self.cache.len()
            invariant
                i <= self.cache.len(),
                forall|q: int| 0 <= q < i ==> self.cache@[q].0@ != system@,
            decreases self.cache.len() - i,
        {
            if crate::text::chars_eq_str(&crate::text::chars_of(self.cache[i].0.as_str()), system) {
                return Some(i);
            }
            i = i + 1;
        }
        None
    }

    /// The metadata (see `row_metadata`) of the first row, searching the
    /// cached tables in order, whose English name is `source_id`; `None` where
    /// no row has it.
    pub fn metadata_for(&self, source_id: &str) -> (r: Option<GameMetadata>)
        ensures
            r is None ==> forall|t: int, q: int|
                0 <= t < self.cache.len() && 0 <= q < self.cache@[t].1.len() ==> (#[trigger] self.cache@[t].1@[q]).english_name@ != source_id@,
            r matches Some(m) ==> exists|t: int, q: int|
                0 <= t < self.cache.len() && 0 <= q < self.cache@[t].1.len() && (#[trigger] self.cache@[t].1@[q]).english_name@ == source_id@
                    && no_earlier_row(self.cache@, source_id@, t, q)
                    && m@ == row_metadata(self.cache@[t].1@[q]),
    {
        let mut t: usize = 0;
        while t < self.cache.len()
            invariant
                t <= self.cache.len(),
                forall|a: int, q: int|
                    0 <= a < t && 0 <= q < self.cache@[a].1.len() ==> (#[trigger] self.cache@[a].1@[q]).english_name@ != source_id@,
            decreases self.cache.len() - t,
        {
            let table = &self.cache[t].1;
            let mut q: usize = 0;
            while q < table.len()
                invariant
                    t < self.cache.len(),
                    *table == self.cache@[t as int].1,
                    q <= table.len(),
                    forall|a: int, b: int|
                        0 <= a < t && 0 <= b < self.cache@[a].1.len() ==> (#[trigger] self.cache@[a].1@[b]).english_name@ != source_id@,
                    forall|b: int| 0 <= b < q ==> (#[trigger] table@[b]).english_name@ != source_id@,
                decreases table.len() - q,
            {
                let e = &table[q];
                if crate::text::chars_eq_str(&crate::text::chars_of(e.english_name.as_str()), source_id) {
                    let mut desc = crate::text::chars_of("中文名称: ");
                    let mut cn = crate::text::chars_of(e.chinese_name.as_str());
                    desc.append(&mut cn);
                    let mut m = GameMetadata::empty();
                    m.name = e.chinese_name.clone();
                    m.english_name = Some(e.english_name.clone());
                    m.description = Some(crate::text::string_of(&desc));
                    proof {
                        assert(crate::types::strs(m.genres@) =~= Seq::<Seq<char>>::empty());
                        assert(m@ == row_metadata(self.cache@[t as int].1@[q as int]));
                        let c = self.cache@;
                        assert forall|a: int, b: int|
                            0 <= a <= t && 0 <= b < c[a].1.len() && (a < t || b < q) implies (#[trigger] c[a].1@[b]).english_name@
                                != source_id@ by {
                            if a == t {
                                assert(c[a].1@[b] == table@[b]);
                            }
                        }
                    }
                    return Some(m);
                }
                q = q + 1;
            }
            t = t + 1;
        }
        None
    }
}


/// The word that names the CSV table of a system: a fixed name for known
/// system abbreviations (compared in lowercase), else the system as given.
pub open spec fn csv_keyword_of(system: Seq<char>) -> Seq<char> {
    let l = lower_of(system);
    if l == "nes"@ || l == "famicom"@ {
        "Nintendo - Nintendo Entertainment System"@
    } else if l == "snes"@ || l == "sfc"@ {
        "Nintendo - Super Nintendo Entertainment System"@
    } else if l == "gba"@ {
        "Nintendo - Game Boy Advance"@
    } else if l == "gb"@ {
        "Nintendo - Game Boy"@
    } else if l == "gbc"@ {
        "Nintendo - Game Boy Color"@
    } else if l == "n64"@ {
        "Nintendo - Nintendo 64"@
    } else if l == "nds"@ {
        "Nintendo - Nintendo DS"@
    } else if l == "3ds"@ {
        "Nintendo - Nintendo 3DS"@
    } else if l == "gc"@ || l == "gamecube"@ {
        "Nintendo - GameCube"@
    } else if l == "wii"@ {
        "Nintendo - Wii"@
    } else if l == "psx"@ || l == "ps1"@ {
        "Sony - PlayStation"@
    } else if l == "ps2"@ {
        "Sony - PlayStation 2"@
    } else if l == "psp"@ {
        "Sony - PlayStation Portable"@
    } else if l == "md"@ || l == "genesis"@ {
        "Sega - Mega Drive - Genesis"@
    } else if l == "ss"@ || l == "saturn"@ {
        "Sega - Saturn"@
    } else if l == "dc"@ || l == "dreamcast"@ {
        "Sega - Dreamcast"@
    } else if l == "neo"@ || l == "neogeo"@ {
        "SNK - Neo Geo"@
    } else if l == "mame"@ || l == "arcade"@ || l == "fba"@ {
        "Arcade"@
    } else {
        system
    }
}

/// The word that names the CSV table of a system (see `csv_keyword_of`).
pub fn csv_keyword(system: &str) -> (r: String)
    ensures
        r@ == csv_keyword_of(system@),
{
    let low = crate::text::lowercase(system);
    let l = crate::text::chars_of(low.as_str());
    if chars_eq_str(&l, "nes") || chars_eq_str(&l, "famicom") {
        owned("Nintendo - Nintendo Entertainment System")
    } else if chars_eq_str(&l, "snes") || chars_eq_str(&l, "sfc") {
        owned("Nintendo - Super Nintendo Entertainment System")
    } else if chars_eq_str(&l, "gba") {
        owned("Nintendo - Game Boy Advance")
    } else if chars_eq_str(&l, "gb") {
        owned("Nintendo - Game Boy")
    } else if chars_eq_str(&l, "gbc") {
        owned("Nintendo - Game Boy Color")
    } else if chars_eq_str(&l, "n64") {
        owned("Nintendo - Nintendo 64")
    } else if chars_eq_str(&l, "nds") {
        owned("Nintendo - Nintendo DS")
    } else if chars_eq_str(&l, "3ds") {
        owned("Nintendo - Nintendo 3DS")
    } else if chars_eq_str(&l, "gc") || chars_eq_str(&l, "gamecube") {
        owned("Nintendo - GameCube")
    } else if chars_eq_str(&l, "wii") {
        owned("Nintendo - Wii")
    } else if chars_eq_str(&l, "psx") || chars_eq_str(&l, "ps1") {
        owned("Sony - PlayStation")
    } else if chars_eq_str(&l, "ps2") {
        owned("Sony - PlayStation 2")
    } else if chars_eq_str(&l, "psp") {
        owned("Sony - PlayStation Portable")
    } else if chars_eq_str(&l, "md") || chars_eq_str(&l, "genesis") {
        owned("Sega - Mega Drive - Genesis")
    } else if chars_eq_str(&l, "ss") || chars_eq_str(&l, "saturn") {
        owned("Sega - Saturn")
    } else if chars_eq_str(&l, "dc") || chars_eq_str(&l, "dreamcast") {
        owned("Sega - Dreamcast")
    } else if chars_eq_str(&l, "neo") || chars_eq_str(&l, "neogeo") {
        owned("SNK - Neo Geo")
    } else if chars_eq_str(&l, "mame") || chars_eq_str(&l, "arcade") || chars_eq_str(&l, "fba") {
        owned("Arcade")
    } else {
        owned(system)
    }
}

/// Whether a file name names a CSV table for the keyword: it contains the
/// keyword, ignoring case, and ends with `.csv`.
pub open spec fn csv_file_matches_spec(name: Seq<char>, keyword: Seq<char>) -> bool {
    crate::cn_match::contains_part(lower_of(name), lower_of(keyword)) && name.len() >= 4
        && name.subrange(name.len() - 4, name.len() as int) == ".csv"@
}

/// Whether a file name names a CSV table for the keyword (see `csv_file_matches_spec`).
pub fn csv_file_matches(name: &str, keyword: &str) -> (r: bool)
    ensures
        r == csv_file_matches_spec(name@, keyword@),
{
    let n = crate::text::chars_of(name);
    let ln = crate::text::chars_of(crate::text::lowercase(name).as_str());
    let lk = crate::text::chars_of(crate::text::lowercase(keyword).as_str());
    if !crate::cn_match::contains_part_exec(&ln, &lk) || n.len() < 4 {
        return false;
    }
    let tail = crate::text::slice(&n, n.len() - 4, n.len());
    crate::text::chars_eq_str(&tail, ".csv")
}

} // verus!
