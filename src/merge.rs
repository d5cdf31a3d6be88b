//! Field-level merging of game records, as done when metadata is written into
//! an existing file.

use vstd::prelude::*;
use crate::pegasus::{
    games_view, set_extra, unique_keys, GameView, PegasusGame, ASSET_FIELDS, TEXT_FIELDS,
};

verus! {

/// The key that joins a game to a ROM: its file, else its first listed file.
pub open spec fn file_key(g: GameView) -> Option<Seq<char>> {
    match g.texts[0] {
        Some(f) => Some(f),
        None => if g.files.len() > 0 { Some(g.files[0]) } else { None },
    }
}

/// Whether the game names the file `k`.
pub open spec fn has_file(g: GameView, k: Seq<char>) -> bool {
    g.texts[0] == Some(k) || g.files.contains(k)
}

/// The first of the first `n` games, from `i` on, that names the file `k`.
pub open spec fn first_with_file(gs: Seq<GameView>, k: Seq<char>, i: int, n: int) -> Option<int>
    decreases n - i,
{
    if i < 0 || i >= n || i >= gs.len() {
        None
    } else if has_file(gs[i], k) {
        Some(i)
    } else {
        first_with_file(gs, k, i + 1, n)
    }
}

/// `extra` with each field of `new` set in turn.
pub open spec fn merge_extra(extra: Seq<(Seq<char>, Seq<char>)>, new: Seq<(Seq<char>, Seq<char>)>) -> Seq<(Seq<char>, Seq<char>)>
    decreases new.len(),
{
    if new.len() == 0 {
        extra
    } else {
        set_extra(merge_extra(extra, new.drop_last()), new.last().0, new.last().1)
    }
}

/// `old` updated by `new`: every present field of `new` wins, except the file
/// fields that join the two; extension fields are merged key by key.
pub open spec fn overlay(old: GameView, new: GameView) -> GameView {
    GameView {
        name: if new.name.len() > 0 { new.name } else { old.name },
        texts: Seq::new(
            TEXT_FIELDS as nat,
            |i: int| if i >= 1 && new.texts[i] is Some { new.texts[i] } else { old.texts[i] },
        ),
        files: old.files,
        assets: Seq::new(
            ASSET_FIELDS as nat,
            |i: int| if new.assets[i] is Some { new.assets[i] } else { old.assets[i] },
        ),
        extra: merge_extra(old.extra, new.extra),
    }
}

/// Merges one new game into `gs`, whose first `n` games were in the file: the
/// first of those that names its file key is updated, else it is appended.
pub open spec fn merge_one(gs: Seq<GameView>, n: int, new: GameView) -> Seq<GameView> {
    match file_key(new) {
        Some(k) => match first_with_file(gs, k, 0, n) {
            Some(j) => gs.update(j, overlay(gs[j], new)),
            None => gs.push(new),
        },
        None => gs.push(new),
    }
}

/// The games of a file after merging the new games into it, in order.
pub open spec fn merge_all(existing: Seq<GameView>, news: Seq<GameView>) -> Seq<GameView>
    decreases news.len(),
{
    if news.len() == 0 {
        existing
    } else {
        merge_one(merge_all(existing, news.drop_last()), existing.len() as int, news.last())
    }
}

/// Whether every game keeps its extension keys unique.
pub open spec fn all_unique(gs: Seq<GameView>) -> bool {
    forall|i: int| 0 <= i < gs.len() ==> unique_keys(#[trigger] gs[i].extra)
}

fn key_of(g: &PegasusGame) -> (r: Option<String>)
    ensures
        crate::types::opt_str(r) == file_key(g@),
{
    match &g.file {
        Some(f) => Some(f.clone()),
        None => if g.files.len() > 0 {
            Some(g.files[0].clone())
        } else {
            None
        },
    }
}

fn names_file(g: &PegasusGame, k: &String) -> (r: bool)
    ensures
        r == has_file(g@, k@),
{
    let by_file = match &g.file {
        Some(f) => *f == *k,
        None => false,
    };
    if by_file {
        return true;
    }
    let mut i: usize = 0;
    while i < g.files.len()
        invariant
            i <= g.files.len(),
            forall|q: int| 0 <= q < i ==> g@.files[q] != k@,
        decreases g.files.len() - i,
    {
        if g.files[i] == *k {
            proof {
                assert(g@.files[i as int] == k@);
            }
            return true;
        }
        i = i + 1;
    }
    false
}

/// Updates `old` in place with the present fields of `new`.
fn overlay_game(target: &mut PegasusGame, new: &PegasusGame)
    requires
        unique_keys(old(target)@.extra),
    ensures
        unique_keys(final(target)@.extra),
        final(target)@ == overlay(old(target)@, new@),
{
    let ghost start = target@;
    if !new.name.as_str().is_empty() {
        target.name = new.name.clone();
    }
    let ghost after_name = target@;
    for i in 1..TEXT_FIELDS
        invariant
            unique_keys(target@.extra),
            target@.name == overlay(start, new@).name,
            target@.files == start.files,
            target@.assets == start.assets,
            target@.extra == start.extra,
            target@.texts.len() == TEXT_FIELDS,
            forall|q: int|
                0 <= q < TEXT_FIELDS ==> #[trigger] target@.texts[q] == if 1 <= q < i && new@.texts[q] is Some {
                    new@.texts[q]
                } else {
                    start.texts[q]
                },
    {
        let v = new.text(i).clone();
        if v.is_some() {
            target.set_text(i, v);
        }
    }
    for i in 0..ASSET_FIELDS
        invariant
            unique_keys(target@.extra),
            target@.name == overlay(start, new@).name,
            target@.files == start.files,
            target@.texts == overlay(start, new@).texts,
            target@.extra == start.extra,
            target@.assets.len() == ASSET_FIELDS,
            forall|q: int|
                0 <= q < ASSET_FIELDS ==> #[trigger] target@.assets[q] == if q < i && new@.assets[q] is Some {
                    new@.assets[q]
                } else {
                    start.assets[q]
                },
    {
        let v = new.asset(i).clone();
        if v.is_some() {
            target.set_asset(i, v);
        }
    }
    proof {
        assert(target@.texts =~= overlay(start, new@).texts);
        assert(target@.assets =~= overlay(start, new@).assets);
    }
    let ghost ne = new@.extra;
    proof {
        assert(ne.take(0) =~= Seq::<(Seq<char>, Seq<char>)>::empty());
    }
    for i in 0..new.extra.len()
        invariant
            ne == new@.extra,
            unique_keys(target@.extra),
            target@.name == overlay(start, new@).name,
            target@.files == start.files,
            target@.texts == overlay(start, new@).texts,
            target@.assets == overlay(start, new@).assets,
            target@.extra == merge_extra(start.extra, ne.take(i as int)),
    {
        target.set_extra_field(new.extra[i].0.clone(), new.extra[i].1.clone());
        proof {
            assert(ne.take(i + 1).drop_last() =~= ne.take(i as int));
        }
    }
    proof {
        assert(ne.take(new.extra.len() as int) =~= ne);
    }
}

/// Merges new games into the games of an existing file: a new game whose file
/// key names a game of the file updates that game in place (its present fields
/// win); any other new game is appended.
pub fn merge_games(existing: Vec<PegasusGame>, new_games: &[PegasusGame]) -> (r: Vec<PegasusGame>)
    requires
        all_unique(games_view(existing@)),
        all_unique(games_view(new_games@)),
    ensures
        all_unique(games_view(r@)),
        games_view(r@) == merge_all(games_view(existing@), games_view(new_games@)),
{
    let n = existing.len();
    let mut gs = existing;
    let ghost ev = games_view(existing@);
    let ghost nv = games_view(new_games@);
    proof {
        assert(nv.take(0) =~= Seq::<GameView>::empty());
    }
    for i in 0..new_games.len()
        invariant
            nv == games_view(new_games@),
            all_unique(nv),
            n == ev.len(),
            all_unique(games_view(gs@)),
            games_view(gs@) == merge_all(ev, nv.take(i as int)),
    {
        let new = &new_games[i];
        let ghost before = games_view(gs@);
        proof {
            assert(nv.take(i + 1).drop_last() =~= nv.take(i as int));
            assert(nv.take(i + 1).last() == new@);
        }
        match key_of(new) {
            Some(k) => {
                let mut j: usize = 0;
                let mut found = false;
                while j < n && j < gs.len() && !found
                    invariant
                        before == games_view(gs@),
                        j <= n,
                        first_with_file(before, k@, 0, n as int) == if found {
                            Some((j - 1) as int)
                        } else {
                            first_with_file(before, k@, j as int, n as int)
                        },
                        found ==> 0 < j && j - 1 < gs.len(),
                    decreases n - j,
                {
                    if names_file(&gs[j], &k) {
                        found = true;
                    }
                    j = j + 1;
                }
                if found {
                    let p = j - 1;
                    let mut g = gs.remove(p);
                    proof {
                        assert(before[p as int] == g@);
                    }
                    overlay_game(&mut g, new);
                    gs.insert(p, g);
                    proof {
                        assert(games_view(gs@) =~= before.update(p as int, overlay(before[p as int], new@)));
                    }
                } else {
                    proof {
                        assert(first_with_file(before, k@, j as int, n as int) is None);
                    }
                    gs.push(new.clone_game());
                    proof {
                        assert(games_view(gs@) =~= before.push(new@));
                    }
                }
            },
            None => {
                gs.push(new.clone_game());
                proof {
                    assert(games_view(gs@) =~= before.push(new@));
                }
            },
        }
    }
    proof {
        assert(nv.take(new_games.len() as int) =~= nv);
    }
    gs
}

/// The number of games that name the file `k`.
pub open spec fn count_with_file(gs: Seq<GameView>, k: Seq<char>) -> nat
    decreases gs.len(),
{
    if gs.len() == 0 {
        0
    } else {
        count_with_file(gs.drop_last(), k) + if has_file(gs.last(), k) { 1nat } else { 0 }
    }
}

proof fn lemma_first_with_file(gs: Seq<GameView>, k: Seq<char>, i: int, n: int)
    requires
        0 <= i,
    ensures
        match first_with_file(gs, k, i, n) {
            Some(j) => i <= j < n && j < gs.len() && has_file(gs[j], k),
            None => forall|q: int| i <= q < n && q < gs.len() ==> !has_file(#[trigger] gs[q], k),
        },
    decreases n - i,
{
    if i < n && i < gs.len() && !has_file(gs[i], k) {
        lemma_first_with_file(gs, k, i + 1, n);
    }
}

proof fn lemma_count_none(gs: Seq<GameView>, k: Seq<char>)
    requires
        forall|q: int| 0 <= q < gs.len() ==> !has_file(#[trigger] gs[q], k),
    ensures
        count_with_file(gs, k) == 0,
    decreases gs.len(),
{
    if gs.len() > 0 {
        let t = gs.drop_last();
        assert forall|q: int| 0 <= q < t.len() implies !has_file(#[trigger] t[q], k) by {
            assert(t[q] == gs[q]);
        }
        lemma_count_none(t, k);
    }
}

proof fn lemma_count_some(gs: Seq<GameView>, k: Seq<char>, j: int)
    requires
        0 <= j < gs.len(),
        has_file(gs[j], k),
    ensures
        count_with_file(gs, k) >= 1,
    decreases gs.len(),
{
    if j < gs.len() - 1 {
        let t = gs.drop_last();
        assert(t[j] == gs[j]);
        lemma_count_some(t, k, j);
    }
}

proof fn lemma_count_update(gs: Seq<GameView>, k: Seq<char>, j: int, x: GameView)
    requires
        0 <= j < gs.len(),
        has_file(gs[j], k) == has_file(x, k),
    ensures
        count_with_file(gs.update(j, x), k) == count_with_file(gs, k),
    decreases gs.len(),
{
    let u = gs.update(j, x);
    if j < gs.len() - 1 {
        assert(u.drop_last() =~= gs.drop_last().update(j, x));
        lemma_count_update(gs.drop_last(), k, j, x);
    } else {
        assert(u.drop_last() =~= gs.drop_last());
    }
}

proof fn lemma_merge_single(existing: Seq<GameView>, g: GameView)
    ensures
        merge_all(existing, seq![g]) == merge_one(existing, existing.len() as int, g),
{
    let one = seq![g];
    assert(one.drop_last() =~= Seq::<GameView>::empty());
    assert(one.last() == g);
    assert(merge_all(existing, one.drop_last()) == existing);
}

/// Merging a game whose file key is `k`, where at most one game names `k`,
/// leaves exactly one game that names `k`, and that game carries every present
/// field of the merged game except the file fields.
proof fn lemma_merge_one_key(existing: Seq<GameView>, g: GameView, k: Seq<char>)
    requires
        file_key(g) == Some(k),
        count_with_file(existing, k) <= 1,
        g.texts.len() == TEXT_FIELDS,
    ensures
        count_with_file(merge_one(existing, existing.len() as int, g), k) == 1,
        exists|j: int|
            0 <= j < merge_one(existing, existing.len() as int, g).len() && #[trigger] merge_one(
                existing,
                existing.len() as int,
                g,
            )[j] == (if first_with_file(existing, k, 0, existing.len() as int) is Some {
                overlay(existing[j], g)
            } else {
                g
            }),
{
    let n = existing.len() as int;
    assert(has_file(g, k)) by {
        if g.texts[0] is None {
            assert(g.files[0] == k);
            assert(g.files.contains(k));
        }
    }
    lemma_first_with_file(existing, k, 0, n);
    match first_with_file(existing, k, 0, n) {
        Some(j) => {
            let x = overlay(existing[j], g);
            assert(x.texts[0] == existing[j].texts[0]);
            lemma_count_update(existing, k, j, x);
            lemma_count_some(existing, k, j);
            let m = existing.update(j, x);
            assert(m[j] == x);
        },
        None => {
            lemma_count_none(existing, k);
            let m = existing.push(g);
            assert(m.drop_last() =~= existing);
            assert(m[n] == g);
        },
    }
}

/// Writing the same game twice in merge mode: where at most one game of the
/// file named its file key `k` before, exactly one names it after both writes,
/// and that game carries the name (if not empty), every present text field
/// other than the file, and every present asset of the written game.
pub proof fn lemma_merge_twice(existing: Seq<GameView>, g: GameView, k: Seq<char>)
    requires
        file_key(g) == Some(k),
        count_with_file(existing, k) <= 1,
        g.texts.len() == TEXT_FIELDS,
        g.assets.len() == ASSET_FIELDS,
    ensures
        ({
            let twice = merge_all(merge_all(existing, seq![g]), seq![g]);
            &&& count_with_file(twice, k) == 1
            &&& exists|j: int|
                0 <= j < twice.len() && has_file(#[trigger] twice[j], k) && (g.name.len() > 0
                    ==> twice[j].name == g.name) && (forall|i: int|
                    1 <= i < TEXT_FIELDS && g.texts[i] is Some ==> twice[j].texts[i] == g.texts[i])
                    && (forall|i: int|
                    0 <= i < ASSET_FIELDS && g.assets[i] is Some ==> twice[j].assets[i]
                        == g.assets[i])
        }),
{
    lemma_merge_single(existing, g);
    let once = merge_all(existing, seq![g]);
    lemma_merge_one_key(existing, g, k);
    lemma_merge_single(once, g);
    lemma_merge_one_key(once, g, k);
    let n = once.len() as int;
    lemma_first_with_file(once, k, 0, n);
    let twice = merge_one(once, n, g);
    assert(count_with_file(once, k) >= 1);
    match first_with_file(once, k, 0, n) {
        Some(j) => {
            let x = overlay(once[j], g);
            assert(twice[j] == x);
            assert(x.texts[0] == once[j].texts[0]);
            assert(has_file(twice[j], k));
        },
        None => {
            lemma_count_none(once, k);
        },
    }
}

} // verus!
