//! The provider registry and the decisions of the resolution orchestrator.
//!
//! Running providers (asynchronous calls, persistence of settings) happens
//! outside this module; here stand the rules that decide which providers are
//! asked, in what order, and how their answers are combined.

use vstd::prelude::*;
use crate::types::{Capabilities, GameMetadata, MetadataView, ProviderCapability, SearchResult};

verus! {

/// Whether a provider takes part, and its rank: lower priorities go first.
#[derive(Debug, Clone, Copy, PartialEq, Eq, Structural)]
pub struct ProviderConfig {
    pub enabled: bool,
    pub priority: u32,
}

/// The priority of a provider without a configuration of its own.
pub const DEFAULT_PRIORITY: u32 = 100;

impl ProviderConfig {
    pub fn new() -> (r: Self)
        ensures
            r.enabled,
            r.priority == DEFAULT_PRIORITY,
    {
        ProviderConfig { enabled: true, priority: DEFAULT_PRIORITY }
    }
}

impl Default for ProviderConfig {
    fn default() -> (r: Self)
        ensures
            r.enabled,
            r.priority == DEFAULT_PRIORITY,
    {
        ProviderConfig::new()
    }
}

/// Errors of the resolution engine.
#[derive(Debug, Clone, Copy, PartialEq, Eq, Structural)]
pub enum ScrapeError {
    /// A provider id that is not registered was asked for directly.
    ProviderNotFound,
    /// Neither a hash lookup nor a search found a candidate.
    NoResultsFound,
    /// A persisted record could not be decoded or parsed.
    ParseError,
    /// A file could not be read or written.
    IoError,
    /// A single provider failed.
    ProviderError,
}

/// A registered provider: its stable id, what it can do, its configuration and
/// the handle through which it is called.
pub struct ProviderEntry<P> {
    pub id: String,
    pub capabilities: Capabilities,
    pub config: ProviderConfig,
    pub provider: P,
}

/// The registry of providers, in order of registration, with unique ids.
pub struct ScraperManager<P> {
    pub entries: Vec<ProviderEntry<P>>,
}

/// Whether the provider takes part in operations that need `cap`.
pub open spec fn eligible<P>(e: ProviderEntry<P>, cap: ProviderCapability) -> bool {
    e.config.enabled && e.capabilities@.contains(cap)
}

/// Whether the entry at `i` goes before the one at `j`: by priority, then by
/// order of registration.
pub open spec fn runs_before<P>(es: Seq<ProviderEntry<P>>, i: int, j: int) -> bool {
    es[i].config.priority < es[j].config.priority || (es[i].config.priority
        == es[j].config.priority && i < j)
}

impl<P> ScraperManager<P> {
    /// No two entries share an id.
    pub open spec fn wf(&self) -> bool {
        forall|i: int, j: int|
            0 <= i < j < self.entries.len() ==> self.entries[i].id@ != self.entries[j].id@
    }

    pub open spec fn ids(&self) -> Seq<Seq<char>> {
        self.entries@.map_values(|e: ProviderEntry<P>| e.id@)
    }

    pub fn new() -> (r: Self)
        ensures
            r.wf(),
            r.entries@.len() == 0,
    {
        ScraperManager { entries: Vec::new() }
    }

    /// The position of the provider with this id, if registered.
    pub fn position(&self, id: &str) -> (r: Option<usize>)
        requires
            self.wf(),
        ensures
            match r {
                Some(i) => i < self.entries.len() && self.entries[i as int].id@ == id@,
                None => forall|i: int| 0 <= i < self.entries.len() ==> self.entries[i].id@ != id@,
            },
    {
        let mut i: usize = 0;
        while i < self.entries.len()
            invariant
                i <= self.entries.len(),
                forall|k: int| 0 <= k < i ==> self.entries[k].id@ != id@,
            decreases self.entries.len() - i,
        {
            let c = crate::text::chars_of(self.entries[i].id.as_str());
            if crate::text::chars_eq_str(&c, id) {
                return Some(i);
            }
            i = i + 1;
        }
        None
    }

    /// The position of the provider with this id, or `ProviderNotFound`.
    pub fn find_provider(&self, id: &str) -> (r: Result<usize, ScrapeError>)
        requires
            self.wf(),
        ensures
            match r {
                Ok(i) => i < self.entries.len() && self.entries[i as int].id@ == id@,
                Err(e) => e == ScrapeError::ProviderNotFound && forall|i: int|
                    0 <= i < self.entries.len() ==> self.entries[i].id@ != id@,
            },
    {
        match self.position(id) {
            Some(i) => Ok(i),
            None => Err(ScrapeError::ProviderNotFound),
        }
    }

    /// Registers a provider under `id` with the given configuration. A provider
    /// already registered under that id is replaced in place.
    pub fn register_with_config(
        &mut self,
        id: String,
        capabilities: Capabilities,
        provider: P,
        config: ProviderConfig,
    )
        requires
            old(self).wf(),
        ensures
            final(self).wf(),
            ({
                let o = old(self).entries@;
                let n = final(self).entries@;
                if exists|i: int| 0 <= i < o.len() && o[i].id@ == id@ {
                    n.len() == o.len() && forall|i: int|
                        0 <= i < o.len() ==> if o[i].id@ == id@ {
                            n[i].id@ == id@ && n[i].capabilities == capabilities && n[i].config
                                == config && n[i].provider == provider
                        } else {
                            n[i] == o[i]
                        }
                } else {
                    n.len() == o.len() + 1 && n.take(o.len() as int) == o && n[o.len() as int].id@
                        == id@ && n[o.len() as int].capabilities == capabilities && n[o.len() as int].config == config
                        && n[o.len() as int].provider == provider
                }
            }),
    {
        match self.position(id.as_str()) {
            Some(i) => {
                let e = ProviderEntry { id, capabilities, config, provider };
                self.entries.set(i, e);
            },
            None => {
                let e = ProviderEntry { id, capabilities, config, provider };
                self.entries.push(e);
                proof {
                    assert(self.entries@.take(old(self).entries@.len() as int) =~= old(self).entries@);
                }
            },
        }
    }

    /// Registers a provider: with its persisted configuration where one exists,
    /// else with the default one.
    pub fn register(&mut self, id: String, capabilities: Capabilities, provider: P, saved: Option<ProviderConfig>)
        requires
            old(self).wf(),
        ensures
            final(self).wf(),
            ({
                let config = match saved {
                    Some(c) => c,
                    None => ProviderConfig { enabled: true, priority: DEFAULT_PRIORITY },
                };
                let o = old(self).entries@;
                let n = final(self).entries@;
                if exists|i: int| 0 <= i < o.len() && o[i].id@ == id@ {
                    n.len() == o.len() && forall|i: int|
                        0 <= i < o.len() ==> if o[i].id@ == id@ {
                            n[i].id@ == id@ && n[i].capabilities == capabilities && n[i].config
                                == config && n[i].provider == provider
                        } else {
                            n[i] == o[i]
                        }
                } else {
                    n.len() == o.len() + 1 && n.take(o.len() as int) == o && n[o.len() as int].id@
                        == id@ && n[o.len() as int].capabilities == capabilities && n[o.len() as int].config == config
                        && n[o.len() as int].provider == provider
                }
            }),
    {
        let config = match saved {
            Some(c) => c,
            None => ProviderConfig::new(),
        };
        self.register_with_config(id, capabilities, provider, config);
    }

    /// Removes the provider registered under `id`, if any.
    pub fn unregister(&mut self, id: &str)
        requires
            old(self).wf(),
        ensures
            final(self).wf(),
            forall|i: int| 0 <= i < final(self).entries.len() ==> final(self).entries[i].id@ != id@,
            forall|i: int|
                0 <= i < old(self).entries.len() && old(self).entries[i].id@ != id@
                    ==> final(self).entries@.contains(old(self).entries[i]),
    {
        match self.position(id) {
            Some(i) => {
                let _ = self.entries.remove(i);
                proof {
                    let o = old(self).entries@;
                    assert forall|k: int| 0 <= k < o.len() && o[k].id@ != id@ implies self.entries@.contains(o[k]) by {
                        if k < i {
                            assert(self.entries@[k] == o[k]);
                        } else {
                            assert(self.entries@[k - 1] == o[k]);
                        }
                    }
                }
            },
            None => {},
        }
    }

    /// The ids of all registered providers, in order of registration.
    pub fn provider_ids(&self) -> (r: Vec<String>)
        ensures
            r@.map_values(|s: String| s@) == self.ids(),
    {
        let mut r: Vec<String> = Vec::new();
        for i in 0..self.entries.len()
            invariant
                r.len() == i,
                forall|k: int| 0 <= k < i ==> #[trigger] r@[k]@ == self.entries[k].id@,
        {
            r.push(self.entries[i].id.clone());
        }
        proof {
            assert(r@.map_values(|s: String| s@) =~= self.ids());
        }
        r
    }

    /// Replaces the configuration of a registered provider; unknown ids are ignored.
    pub fn set_config(&mut self, id: &str, config: ProviderConfig)
        requires
            old(self).wf(),
        ensures
            final(self).wf(),
            final(self).entries.len() == old(self).entries.len(),
            forall|i: int|
                0 <= i < old(self).entries.len() ==> {
                    let o = old(self).entries[i];
                    let n = #[trigger] final(self).entries[i];
                    n.id == o.id && n.capabilities == o.capabilities && n.provider == o.provider
                        && n.config == if o.id@ == id@ { config } else { o.config }
                },
    {
        match self.position(id) {
            Some(i) => {
                let mut e = self.entries.remove(i);
                e.config = config;
                self.entries.insert(i, e);
                proof {
                    assert forall|k: int| 0 <= k < old(self).entries.len() && k != i implies self.entries[k] == old(self).entries[k] by {
                        if k < i {
                        } else {
                        }
                    }
                }
            },
            None => {},
        }
    }

    /// Sets whether a registered provider takes part; unknown ids are ignored.
    pub fn set_enabled(&mut self, id: &str, enabled: bool)
        requires
            old(self).wf(),
        ensures
            final(self).wf(),
            final(self).entries.len() == old(self).entries.len(),
            forall|i: int|
                0 <= i < old(self).entries.len() ==> {
                    let o = old(self).entries[i];
                    let n = #[trigger] final(self).entries[i];
                    n.id == o.id && n.capabilities == o.capabilities && n.provider == o.provider
                        && n.config.priority == o.config.priority && n.config.enabled == if o.id@
                        == id@ { enabled } else { o.config.enabled }
                },
    {
        match self.position(id) {
            Some(i) => {
                let c = ProviderConfig { enabled, priority: self.entries[i].config.priority };
                self.set_config(id, c);
            },
            None => {},
        }
    }

    /// Sets the priority of a registered provider; unknown ids are ignored.
    pub fn set_priority(&mut self, id: &str, priority: u32)
        requires
            old(self).wf(),
        ensures
            final(self).wf(),
            final(self).entries.len() == old(self).entries.len(),
            forall|i: int|
                0 <= i < old(self).entries.len() ==> {
                    let o = old(self).entries[i];
                    let n = #[trigger] final(self).entries[i];
                    n.id == o.id && n.capabilities == o.capabilities && n.provider == o.provider
                        && n.config.enabled == o.config.enabled && n.config.priority == if o.id@
                        == id@ { priority } else { o.config.priority }
                },
    {
        match self.position(id) {
            Some(i) => {
                let c = ProviderConfig { enabled: self.entries[i].config.enabled, priority };
                self.set_config(id, c);
            },
            None => {},
        }
    }

    /// The positions of the enabled providers that support `cap`, each once, by
    /// priority and then by order of registration.
    pub fn enabled_order(&self, cap: ProviderCapability) -> (r: Vec<usize>)
        ensures
            forall|k: int|
                0 <= k < r.len() ==> r@[k] < self.entries.len() && eligible(
                    self.entries[r@[k] as int],
                    cap,
                ),
            forall|k: int, l: int|
                0 <= k < l < r.len() ==> runs_before(self.entries@, r@[k] as int, r@[l] as int),
            forall|i: int|
                0 <= i < self.entries.len() && eligible(#[trigger] self.entries[i], cap)
                    ==> r@.contains(i as usize),
    {
        let ghost es = self.entries@;
        let mut r: Vec<usize> = Vec::new();
        for i in 0..self.entries.len()
            invariant
                es == self.entries@,
                forall|k: int| 0 <= k < r.len() ==> r@[k] < i && eligible(es[r@[k] as int], cap),
                forall|k: int, l: int|
                    0 <= k < l < r.len() ==> runs_before(es, r@[k] as int, r@[l] as int),
                forall|q: int| 0 <= q < i && eligible(#[trigger] es[q], cap) ==> r@.contains(q as usize),
        {
            if self.entries[i].config.enabled && self.entries[i].capabilities.has(cap) {
                let p = self.entries[i].config.priority;
                let mut pos: usize = 0;
                while pos < r.len() && self.entries[r[pos]].config.priority <= p
                    invariant
                        es == self.entries@,
                        i < self.entries.len(),
                        p == es[i as int].config.priority,
                        pos <= r.len(),
                        forall|k: int, l: int|
                            0 <= k < l < r.len() ==> runs_before(es, r@[k] as int, r@[l] as int),
                        forall|k: int| 0 <= k < r.len() ==> r@[k] < i && eligible(es[r@[k] as int], cap),
                        forall|k: int| 0 <= k < pos ==> es[r@[k] as int].config.priority <= p,
                    decreases r.len() - pos,
                {
                    pos = pos + 1;
                }
                let ghost old_r = r@;
                r.insert(pos, i);
                proof {
                    assert forall|k: int| 0 <= k < r.len() implies r@[k] <= i && eligible(es[r@[k] as int], cap) by {
                        if k < pos {
                            assert(r@[k] == old_r[k]);
                        } else if k > pos {
                            assert(r@[k] == old_r[k - 1]);
                        }
                    }
                    assert forall|k: int, l: int| 0 <= k < l < r.len() implies runs_before(es, r@[k] as int, r@[l] as int) by {
                        if l < pos {
                            assert(r@[k] == old_r[k] && r@[l] == old_r[l]);
                        } else if l == pos {
                            assert(r@[k] == old_r[k]);
                        } else if k == pos {
                            assert(r@[l] == old_r[l - 1]);
                            assert(runs_before(es, old_r[pos as int] as int, old_r[l - 1] as int) || l - 1 == pos);
                        } else if k < pos {
                            assert(r@[k] == old_r[k] && r@[l] == old_r[l - 1]);
                        } else {
                            assert(r@[k] == old_r[k - 1] && r@[l] == old_r[l - 1]);
                        }
                    }
                    assert forall|q: int| 0 <= q <= i && eligible(#[trigger] es[q], cap) implies r@.contains(q as usize) by {
                        if q == i {
                            assert(r@[pos as int] == q);
                        } else {
                            assert(old_r.contains(q as usize));
                            let k = choose|k: int| 0 <= k < old_r.len() && old_r[k] == q as usize;
                            if k < pos {
                                assert(r@[k] == q as usize);
                            } else {
                                assert(r@[k + 1] == q as usize);
                            }
                        }
                    }
                }
            }
        }
        r
    }
}

/// The position of the result with the highest confidence; among equal ones
/// the first. `None` for an empty list.
pub fn select_best(results: &Vec<SearchResult>) -> (r: Option<usize>)
    ensures
        results.len() == 0 <==> r is None,
        match r {
            Some(b) => b < results.len() && (forall|k: int|
                0 <= k < results.len() ==> results[k].confidence <= results[b as int].confidence)
                && (forall|k: int| 0 <= k < b ==> results[k].confidence < results[b as int].confidence),
            None => true,
        },
{
    if results.len() == 0 {
        return None;
    }
    let mut best: usize = 0;
    for i in 1..results.len()
        invariant
            best < i <= results.len(),
            forall|k: int| 0 <= k < i ==> results[k].confidence <= results[best as int].confidence,
            forall|k: int| 0 <= k < best ==> results[k].confidence < results[best as int].confidence,
    {
        if results[i].confidence > results[best].confidence {
            best = i;
        }
    }
    Some(best)
}

/// Whether a scrape runs the name search: exactly when the hash lookup found
/// no match (a hash match is exact, so it is the best match).
pub fn search_due(hash_match: &Option<SearchResult>) -> (r: bool)
    ensures
        r == (*hash_match is None),
{
    hash_match.is_none()
}

/// The best match of a scrape: the hash match where there is one, else the
/// search result of highest confidence (the first among equals).
pub fn choose_best_match(hash_match: Option<SearchResult>, mut results: Vec<SearchResult>) -> (r: Result<SearchResult, ScrapeError>)
    ensures
        match hash_match {
            Some(h) => r == Ok::<SearchResult, ScrapeError>(h),
            None => if results.len() == 0 {
                r == Err::<SearchResult, ScrapeError>(ScrapeError::NoResultsFound)
            } else {
                exists|b: int|
                    0 <= b < results.len() && r == Ok::<SearchResult, ScrapeError>(results[b])
                        && (forall|k: int| 0 <= k < results.len() ==> results[k].confidence <= results[b].confidence)
                        && (forall|k: int| 0 <= k < b ==> results[k].confidence < results[b].confidence)
            },
        },
{
    match hash_match {
        Some(h) => Ok(h),
        None => match select_best(&results) {
            Some(b) => {
                let ghost old_results = results@;
                let best = results.swap_remove(b);
                proof {
                    assert(best == old_results[b as int]);
                }
                Ok(best)
            },
            None => Err(ScrapeError::NoResultsFound),
        },
    }
}

/// What a hash lookup does next.
pub enum LookupStep {
    /// Ask the provider at this position of the registry.
    Ask(usize),
    /// Stop: this is the match.
    Found(SearchResult),
    /// Stop: no provider matched.
    Exhausted,
}

/// One step of a hash lookup over `order` (positions of the providers that take
/// part, by priority): `asked` providers were asked so far and `answer` is what
/// the last of them returned (`None` for no match or an error). Asking stops at
/// the first match, so no provider after it is ever asked.
pub fn lookup_step(order: &Vec<usize>, asked: usize, answer: Option<SearchResult>) -> (r: LookupStep)
    ensures
        match answer {
            Some(m) => r == LookupStep::Found(m),
            None => if asked < order.len() {
                r == LookupStep::Ask(order[asked as int])
            } else {
                r == LookupStep::Exhausted
            },
        },
{
    match answer {
        Some(m) => LookupStep::Found(m),
        None => if asked < order.len() {
            LookupStep::Ask(order[asked])
        } else {
            LookupStep::Exhausted
        },
    }
}

/// Everything that the successful answers hold, in order; failed answers add nothing.
pub open spec fn concat_ok<T>(answers: Seq<Option<Vec<T>>>) -> Seq<T>
    decreases answers.len(),
{
    if answers.len() == 0 {
        Seq::empty()
    } else {
        let prev = concat_ok(answers.drop_last());
        match answers.last() {
            Some(v) => prev + v@,
            None => prev,
        }
    }
}

/// Concatenates the lists of the answers that succeeded, in order.
pub fn collect_ok<T>(answers: Vec<Option<Vec<T>>>) -> (r: Vec<T>)
    ensures
        r@ == concat_ok(answers@),
{
    let mut answers = answers;
    let ghost orig = answers@;
    let total = answers.len();
    let mut r: Vec<T> = Vec::new();
    let mut n: usize = 0;
    proof {
        assert(orig.take(0) =~= Seq::<Option<Vec<T>>>::empty());
        assert(orig.skip(0) =~= orig);
    }
    while answers.len() > 0
        invariant
            n + answers.len() == orig.len(),
            orig.len() == total,
            answers@ == orig.skip(n as int),
            r@ == concat_ok(orig.take(n as int)),
        decreases answers.len(),
    {
        let a = answers.remove(0);
        proof {
            assert(orig.take(n + 1).drop_last() =~= orig.take(n as int));
            assert(orig.skip(n + 1) =~= answers@);
        }
        match a {
            Some(mut v) => {
                r.append(&mut v);
            },
            None => {},
        }
        n = n + 1;
    }
    proof {
        assert(orig.take(n as int) =~= orig);
    }
    r
}

/// `acc` followed by the members of `new` that it lacks, each once, in order.
pub open spec fn add_unseen(acc: Seq<Seq<char>>, new: Seq<Seq<char>>) -> Seq<Seq<char>>
    decreases new.len(),
{
    if new.len() == 0 {
        acc
    } else {
        let next = if acc.contains(new[0]) { acc } else { acc.push(new[0]) };
        add_unseen(next, new.drop_first())
    }
}

pub open spec fn first_of(a: Option<Seq<char>>, b: Option<Seq<char>>) -> Option<Seq<char>> {
    if a is Some { a } else { b }
}

/// Fills the unknown fields of `acc` from `m`; genres accumulate.
pub open spec fn fill(acc: MetadataView, m: MetadataView) -> MetadataView {
    MetadataView {
        name: if acc.name.len() == 0 { m.name } else { acc.name },
        english_name: first_of(acc.english_name, m.english_name),
        description: first_of(acc.description, m.description),
        release_date: first_of(acc.release_date, m.release_date),
        developer: first_of(acc.developer, m.developer),
        publisher: first_of(acc.publisher, m.publisher),
        genres: add_unseen(acc.genres, m.genres),
        players: first_of(acc.players, m.players),
        rating: if acc.rating is Some { acc.rating } else { m.rating },
    }
}

pub open spec fn empty_view() -> MetadataView {
    MetadataView {
        name: Seq::empty(),
        english_name: None,
        description: None,
        release_date: None,
        developer: None,
        publisher: None,
        genres: Seq::empty(),
        players: None,
        rating: None,
    }
}

/// The merge of the answers, taken in the order given (highest priority first).
pub open spec fn merged(answers: Seq<(String, Option<GameMetadata>)>) -> MetadataView
    decreases answers.len(),
{
    if answers.len() == 0 {
        empty_view()
    } else {
        let prev = merged(answers.drop_last());
        match answers.last().1 {
            Some(m) => fill(prev, m@),
            None => prev,
        }
    }
}

/// The ids of the providers whose answer succeeded, in order.
pub open spec fn contributors(answers: Seq<(String, Option<GameMetadata>)>) -> Seq<Seq<char>>
    decreases answers.len(),
{
    if answers.len() == 0 {
        Seq::empty()
    } else {
        let prev = contributors(answers.drop_last());
        match answers.last().1 {
            Some(m) => prev.push(answers.last().0@),
            None => prev,
        }
    }
}

fn pick(acc: Option<String>, m: Option<String>) -> (r: Option<String>)
    ensures
        crate::types::opt_str(r) == first_of(crate::types::opt_str(acc), crate::types::opt_str(m)),
{
    if acc.is_some() { acc } else { m }
}

fn add_genres(acc: &mut Vec<String>, new: Vec<String>)
    ensures
        crate::types::strs(final(acc)@) == add_unseen(crate::types::strs(old(acc)@), crate::types::strs(new@)),
{
    let ghost start = crate::types::strs(acc@);
    let ghost all = crate::types::strs(new@);
    proof {
        assert(all.skip(0) =~= all);
    }
    for k in 0..new.len()
        invariant
            all == crate::types::strs(new@),
            add_unseen(start, all) == add_unseen(crate::types::strs(acc@), all.skip(k as int)),
    {
        let g = new[k].clone();
        let mut seen = false;
        let mut q: usize = 0;
        while q < acc.len()
            invariant
                q <= acc.len(),
                seen == exists|p: int| 0 <= p < q && acc@[p]@ == g@,
            decreases acc.len() - q,
        {
            if acc[q] == g {
                seen = true;
            }
            q = q + 1;
        }
        proof {
            let cur = crate::types::strs(acc@);
            assert(all.skip(k as int).drop_first() =~= all.skip(k + 1));
            assert(all.skip(k as int)[0] == g@);
            if seen {
                let p = choose|p: int| 0 <= p < q && acc@[p]@ == g@;
                assert(cur[p] == g@);
            } else {
                assert forall|p: int| 0 <= p < cur.len() implies cur[p] != g@ by {
                    assert(cur[p] == acc@[p]@);
                }
            }
        }
        let ghost before = crate::types::strs(acc@);
        if !seen {
            acc.push(g);
            proof {
                assert(crate::types::strs(acc@) =~= before.push(all[k as int]));
            }
        }
    }
    proof {
        assert(all.skip(new.len() as int) =~= Seq::<Seq<char>>::empty());
    }
}

/// Merges provider answers given in priority order: each field comes from the
/// first answer that has it, genres are the union in order of first sight, and
/// the ids of the providers that answered are listed.
pub fn merge_metadata(answers: Vec<(String, Option<GameMetadata>)>) -> (r: (GameMetadata, Vec<String>))
    ensures
        r.0@ == merged(answers@),
        crate::types::strs(r.1@) == contributors(answers@),
{
    let mut answers = answers;
    let ghost orig = answers@;
    let total = answers.len();
    let mut acc = GameMetadata::empty();
    let mut sources: Vec<String> = Vec::new();
    let mut n: usize = 0;
    proof {
        assert(orig.take(0) =~= Seq::<(String, Option<GameMetadata>)>::empty());
        assert(orig.skip(0) =~= orig);
        assert(crate::types::strs(acc.genres@) =~= Seq::<Seq<char>>::empty());
        assert(acc.name@ =~= Seq::<char>::empty());
        assert(acc@ == empty_view());
        assert(crate::types::strs(sources@) =~= Seq::<Seq<char>>::empty());
    }
    while answers.len() > 0
        invariant
            n + answers.len() == orig.len(),
            orig.len() == total,
            answers@ == orig.skip(n as int),
            acc@ == merged(orig.take(n as int)),
            crate::types::strs(sources@) == contributors(orig.take(n as int)),
        decreases answers.len(),
    {
        let (id, answer) = answers.remove(0);
        proof {
            assert(orig.take(n + 1).drop_last() =~= orig.take(n as int));
            assert(orig.skip(n + 1) =~= answers@);
        }
        match answer {
            Some(m) => {
                let ghost mv = m@;
                let ghost before = crate::types::strs(sources@);
                sources.push(id);
                proof {
                    assert(crate::types::strs(sources@) =~= before.push(sources@.last()@));
                }
                let GameMetadata {
                    name,
                    english_name,
                    description,
                    release_date,
                    developer,
                    publisher,
                    genres,
                    players,
                    rating,
                } = m;
                let GameMetadata {
                    name: a_name,
                    english_name: a_english_name,
                    description: a_description,
                    release_date: a_release_date,
                    developer: a_developer,
                    publisher: a_publisher,
                    genres: a_genres,
                    players: a_players,
                    rating: a_rating,
                } = acc;
                let mut all_genres = a_genres;
                add_genres(&mut all_genres, genres);
                acc = GameMetadata {
                    name: if a_name.as_str().is_empty() { name } else { a_name },
                    english_name: pick(a_english_name, english_name),
                    description: pick(a_description, description),
                    release_date: pick(a_release_date, release_date),
                    developer: pick(a_developer, developer),
                    publisher: pick(a_publisher, publisher),
                    genres: all_genres,
                    players: pick(a_players, players),
                    rating: if a_rating.is_some() { a_rating } else { rating },
                };
                proof {
                    assert(acc@ =~= fill(merged(orig.take(n as int)), mv));
                }
            },
            None => {},
        }
        n = n + 1;
    }
    proof {
        assert(orig.take(n as int) =~= orig);
    }
    (acc, sources)
}

} // verus!
