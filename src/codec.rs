//! Reading and writing the Pegasus metadata text format.
//!
//! The format is line oriented: `key: value` lines, `#` comments, blank lines,
//! and continuation lines that start with white space. `collection:` and
//! `game:` lines open new records; other keys go to the open record through a
//! fixed table of aliases.

use vstd::prelude::*;
use crate::pegasus::{
    collections_view, games_view, new_collection_view, new_game_view, set_extra, unique_keys,
    CollectionView, GameView, PegasusCollection, PegasusGame, PegasusMetadata, ASSET_FIELDS,
    TEXT_FIELDS,
};
use crate::text::{chars_eq_str, chars_of, lines_of, lower_key, lowercase, string_of, trim, trim_chars, words};
use crate::types::{opt_str, strs};

verus! {

/// Which field of a game a key sets.
#[derive(Debug, Clone, Copy, PartialEq, Eq, Structural)]
pub enum GameKey {
    /// Text field `i` (see `TEXT_FIELDS`).
    Text(usize),
    /// The list of files.
    Files,
    /// Media asset field `i` (see `ASSET_FIELDS`), set to the first word of the value.
    Asset(usize),
    /// An `x-` extension field, kept under its key.
    Extra,
    /// A key without meaning for games.
    Ignored,
}

/// The number of keys that games recognise.
pub const GAME_ALIASES: usize = 49;

/// The key at position `i` of the keys that games recognise, with the field
/// that it sets.
pub open spec fn game_alias_at(i: int) -> (Seq<char>, GameKey) {
    if i == 0 {
        ("file"@, GameKey::Text(0))
    } else if i == 1 {
        ("files"@, GameKey::Files)
    } else if i == 2 {
        ("developer"@, GameKey::Text(1))
    } else if i == 3 {
        ("developers"@, GameKey::Text(1))
    } else if i == 4 {
        ("publisher"@, GameKey::Text(2))
    } else if i == 5 {
        ("publishers"@, GameKey::Text(2))
    } else if i == 6 {
        ("genre"@, GameKey::Text(3))
    } else if i == 7 {
        ("genres"@, GameKey::Text(3))
    } else if i == 8 {
        ("players"@, GameKey::Text(4))
    } else if i == 9 {
        ("summary"@, GameKey::Text(5))
    } else if i == 10 {
        ("description"@, GameKey::Text(6))
    } else if i == 11 {
        ("release"@, GameKey::Text(7))
    } else if i == 12 {
        ("rating"@, GameKey::Text(8))
    } else if i == 13 {
        ("sort_title"@, GameKey::Text(9))
    } else if i == 14 {
        ("sort_name"@, GameKey::Text(9))
    } else if i == 15 {
        ("sort-by"@, GameKey::Text(9))
    } else if i == 16 {
        ("assets.boxfront"@, GameKey::Asset(0))
    } else if i == 17 {
        ("assets.box_front"@, GameKey::Asset(0))
    } else if i == 18 {
        ("assets.boxart2d"@, GameKey::Asset(0))
    } else if i == 19 {
        ("boxart"@, GameKey::Asset(0))
    } else if i == 20 {
        ("cover"@, GameKey::Asset(0))
    } else if i == 21 {
        ("assets.boxback"@, GameKey::Asset(1))
    } else if i == 22 {
        ("assets.box_back"@, GameKey::Asset(1))
    } else if i == 23 {
        ("assets.boxspine"@, GameKey::Asset(2))
    } else if i == 24 {
        ("assets.box_spine"@, GameKey::Asset(2))
    } else if i == 25 {
        ("assets.boxfull"@, GameKey::Asset(3))
    } else if i == 26 {
        ("assets.box_full"@, GameKey::Asset(3))
    } else if i == 27 {
        ("assets.cartridge"@, GameKey::Asset(4))
    } else if i == 28 {
        ("assets.disc"@, GameKey::Asset(4))
    } else if i == 29 {
        ("assets.cart"@, GameKey::Asset(4))
    } else if i == 30 {
        ("assets.logo"@, GameKey::Asset(5))
    } else if i == 31 {
        ("assets.wheel"@, GameKey::Asset(5))
    } else if i == 32 {
        ("assets.marquee"@, GameKey::Asset(6))
    } else if i == 33 {
        ("assets.banner"@, GameKey::Asset(6))
    } else if i == 34 {
        ("assets.bezel"@, GameKey::Asset(7))
    } else if i == 35 {
        ("assets.screenmarquee"@, GameKey::Asset(7))
    } else if i == 36 {
        ("assets.gridicon"@, GameKey::Asset(8))
    } else if i == 37 {
        ("assets.steam"@, GameKey::Asset(8))
    } else if i == 38 {
        ("assets.poster"@, GameKey::Asset(8))
    } else if i == 39 {
        ("assets.flyer"@, GameKey::Asset(9))
    } else if i == 40 {
        ("assets.background"@, GameKey::Asset(10))
    } else if i == 41 {
        ("assets.fanart"@, GameKey::Asset(10))
    } else if i == 42 {
        ("assets.music"@, GameKey::Asset(11))
    } else if i == 43 {
        ("assets.screenshot"@, GameKey::Asset(12))
    } else if i == 44 {
        ("assets.screenshots"@, GameKey::Asset(12))
    } else if i == 45 {
        ("assets.titlescreen"@, GameKey::Asset(13))
    } else if i == 46 {
        ("assets.title_screen"@, GameKey::Asset(13))
    } else if i == 47 {
        ("assets.video"@, GameKey::Asset(14))
    } else {
        ("assets.videos"@, GameKey::Asset(14))
    }
}

/// The first recognised key from position `i` on that is `k`.
pub open spec fn lookup_alias(k: Seq<char>, i: int) -> Option<GameKey>
    decreases GAME_ALIASES - i,
{
    if i < 0 || i >= GAME_ALIASES {
        None
    } else if game_alias_at(i).0 == k {
        Some(game_alias_at(i).1)
    } else {
        lookup_alias(k, i + 1)
    }
}

/// What a (lowercase) key does to a game.
pub open spec fn game_key(k: Seq<char>) -> GameKey {
    match lookup_alias(k, 0) {
        Some(g) => g,
        None => if k.len() >= 2 && k[0] == 'x' && k[1] == '-' {
            GameKey::Extra
        } else {
            GameKey::Ignored
        },
    }
}

fn game_alias(i: usize) -> (r: (&'static str, GameKey))
    requires
        i < GAME_ALIASES,
    ensures
        r.0@ == game_alias_at(i as int).0,
        r.1 == game_alias_at(i as int).1,
{
    match i {
        0 => ("file", GameKey::Text(0)),
        1 => ("files", GameKey::Files),
        2 => ("developer", GameKey::Text(1)),
        3 => ("developers", GameKey::Text(1)),
        4 => ("publisher", GameKey::Text(2)),
        5 => ("publishers", GameKey::Text(2)),
        6 => ("genre", GameKey::Text(3)),
        7 => ("genres", GameKey::Text(3)),
        8 => ("players", GameKey::Text(4)),
        9 => ("summary", GameKey::Text(5)),
        10 => ("description", GameKey::Text(6)),
        11 => ("release", GameKey::Text(7)),
        12 => ("rating", GameKey::Text(8)),
        13 => ("sort_title", GameKey::Text(9)),
        14 => ("sort_name", GameKey::Text(9)),
        15 => ("sort-by", GameKey::Text(9)),
        16 => ("assets.boxfront", GameKey::Asset(0)),
        17 => ("assets.box_front", GameKey::Asset(0)),
        18 => ("assets.boxart2d", GameKey::Asset(0)),
        19 => ("boxart", GameKey::Asset(0)),
        20 => ("cover", GameKey::Asset(0)),
        21 => ("assets.boxback", GameKey::Asset(1)),
        22 => ("assets.box_back", GameKey::Asset(1)),
        23 => ("assets.boxspine", GameKey::Asset(2)),
        24 => ("assets.box_spine", GameKey::Asset(2)),
        25 => ("assets.boxfull", GameKey::Asset(3)),
        26 => ("assets.box_full", GameKey::Asset(3)),
        27 => ("assets.cartridge", GameKey::Asset(4)),
        28 => ("assets.disc", GameKey::Asset(4)),
        29 => ("assets.cart", GameKey::Asset(4)),
        30 => ("assets.logo", GameKey::Asset(5)),
        31 => ("assets.wheel", GameKey::Asset(5)),
        32 => ("assets.marquee", GameKey::Asset(6)),
        33 => ("assets.banner", GameKey::Asset(6)),
        34 => ("assets.bezel", GameKey::Asset(7)),
        35 => ("assets.screenmarquee", GameKey::Asset(7)),
        36 => ("assets.gridicon", GameKey::Asset(8)),
        37 => ("assets.steam", GameKey::Asset(8)),
        38 => ("assets.poster", GameKey::Asset(8)),
        39 => ("assets.flyer", GameKey::Asset(9)),
        40 => ("assets.background", GameKey::Asset(10)),
        41 => ("assets.fanart", GameKey::Asset(10)),
        42 => ("assets.music", GameKey::Asset(11)),
        43 => ("assets.screenshot", GameKey::Asset(12)),
        44 => ("assets.screenshots", GameKey::Asset(12)),
        45 => ("assets.titlescreen", GameKey::Asset(13)),
        46 => ("assets.title_screen", GameKey::Asset(13)),
        47 => ("assets.video", GameKey::Asset(14)),
        _ => ("assets.videos", GameKey::Asset(14)),
    }
}

/// What a lowercase key does to a game.
pub fn classify_game_key(k: &Vec<char>) -> (r: GameKey)
    ensures
        r == game_key(k@),
        r matches GameKey::Text(i) ==> i < TEXT_FIELDS,
        r matches GameKey::Asset(i) ==> i < ASSET_FIELDS,
{
    let mut i: usize = 0;
    while i < GAME_ALIASES
        invariant
            lookup_alias(k@, 0) == lookup_alias(k@, i as int),
        decreases GAME_ALIASES - i,
    {
        let (name, key) = game_alias(i);
        if chars_eq_str(k, name) {
            return key;
        }
        i = i + 1;
    }
    if k.len() >= 2 && k[0] == 'x' && k[1] == '-' {
        GameKey::Extra
    } else {
        GameKey::Ignored
    }
}

/// Which field of a collection a key sets.
#[derive(Debug, Clone, Copy, PartialEq, Eq, Structural)]
pub enum CollectionKey {
    ShortName,
    Extensions,
    Files,
    IgnoreFiles,
    Launch,
    Workdir,
    Ignored,
}

/// What a (lowercase) key does to a collection.
pub open spec fn collection_key(k: Seq<char>) -> CollectionKey {
    if k == "shortname"@ || k == "short_name"@ {
        CollectionKey::ShortName
    } else if k == "extension"@ || k == "extensions"@ {
        CollectionKey::Extensions
    } else if k == "files"@ {
        CollectionKey::Files
    } else if k == "ignore-file"@ || k == "ignore-files"@ {
        CollectionKey::IgnoreFiles
    } else if k == "launch"@ || k == "command"@ {
        CollectionKey::Launch
    } else if k == "workdir"@ || k == "cwd"@ {
        CollectionKey::Workdir
    } else {
        CollectionKey::Ignored
    }
}

pub fn classify_collection_key(k: &Vec<char>) -> (r: CollectionKey)
    ensures
        r == collection_key(k@),
{
    if chars_eq_str(k, "shortname") || chars_eq_str(k, "short_name") {
        CollectionKey::ShortName
    } else if chars_eq_str(k, "extension") || chars_eq_str(k, "extensions") {
        CollectionKey::Extensions
    } else if chars_eq_str(k, "files") {
        CollectionKey::Files
    } else if chars_eq_str(k, "ignore-file") || chars_eq_str(k, "ignore-files") {
        CollectionKey::IgnoreFiles
    } else if chars_eq_str(k, "launch") || chars_eq_str(k, "command") {
        CollectionKey::Launch
    } else if chars_eq_str(k, "workdir") || chars_eq_str(k, "cwd") {
        CollectionKey::Workdir
    } else {
        CollectionKey::Ignored
    }
}

/// The first word of `v`, if any.
pub open spec fn first_word(v: Seq<char>) -> Option<Seq<char>> {
    if words(v).len() > 0 { Some(words(v)[0]) } else { None }
}

/// `g` with the key `k` set to the value `v`.
pub open spec fn apply_game(g: GameView, k: Seq<char>, v: Seq<char>) -> GameView {
    match game_key(k) {
        GameKey::Text(i) => GameView { texts: g.texts.update(i as int, Some(v)), ..g },
        GameKey::Files => GameView { files: words(v), ..g },
        GameKey::Asset(i) => GameView { assets: g.assets.update(i as int, first_word(v)), ..g },
        GameKey::Extra => GameView { extra: set_extra(g.extra, k, v), ..g },
        GameKey::Ignored => g,
    }
}

/// `c` with the key `k` set to the value `v`.
pub open spec fn apply_collection(c: CollectionView, k: Seq<char>, v: Seq<char>) -> CollectionView {
    match collection_key(k) {
        CollectionKey::ShortName => CollectionView { short_name: Some(v), ..c },
        CollectionKey::Extensions => CollectionView { extensions: words(v), ..c },
        CollectionKey::Files => CollectionView { files: words(v), ..c },
        CollectionKey::IgnoreFiles => CollectionView { ignore_files: words(v), ..c },
        CollectionKey::Launch => CollectionView { launch_command: Some(v), ..c },
        CollectionKey::Workdir => CollectionView { workdir: Some(v), ..c },
        CollectionKey::Ignored => c,
    }
}

pub open spec fn opt_game(o: Option<PegasusGame>) -> Option<GameView> {
    match o {
        Some(g) => Some(g@),
        None => None,
    }
}

pub open spec fn opt_collection(o: Option<PegasusCollection>) -> Option<CollectionView> {
    match o {
        Some(c) => Some(c@),
        None => None,
    }
}

/// Applies a key, in lowercase, to the open game if there is one, else to the
/// open collection.
pub open spec fn apply_open(
    coll: Option<CollectionView>,
    game: Option<GameView>,
    k: Seq<char>,
    v: Seq<char>,
) -> (Option<CollectionView>, Option<GameView>) {
    match game {
        Some(g) => (coll, Some(apply_game(g, lower_key(k), v))),
        None => match coll {
            Some(c) => (Some(apply_collection(c, lower_key(k), v)), None),
            None => (None, None),
        },
    }
}

/// The extension keys of the open game are unique.
pub open spec fn game_ok(game: Option<GameView>) -> bool {
    match game {
        Some(g) => unique_keys(g.extra),
        None => true,
    }
}

fn apply_to_game(g: &mut PegasusGame, k: &Vec<char>, v: &Vec<char>)
    requires
        unique_keys(old(g)@.extra),
    ensures
        unique_keys(final(g)@.extra),
        final(g)@ == apply_game(old(g)@, k@, v@),
{
    match classify_game_key(k) {
        GameKey::Text(i) => {
            g.set_text(i, Some(string_of(v)));
        },
        GameKey::Files => {
            g.files = crate::text::split_words(v);
        },
        GameKey::Asset(i) => {
            let ws = crate::text::split_words(v);
            let first = if ws.len() > 0 {
                Some(ws[0].clone())
            } else {
                None
            };
            proof {
                assert(ws@.map_values(|w: String| w@).len() == ws@.len());
            }
            g.set_asset(i, first);
        },
        GameKey::Extra => {
            g.set_extra_field(string_of(k), string_of(v));
        },
        GameKey::Ignored => {},
    }
}

fn apply_to_collection(c: &mut PegasusCollection, k: &Vec<char>, v: &Vec<char>)
    ensures
        final(c)@ == apply_collection(old(c)@, k@, v@),
{
    match classify_collection_key(k) {
        CollectionKey::ShortName => c.short_name = Some(string_of(v)),
        CollectionKey::Extensions => c.extensions = crate::text::split_words(v),
        CollectionKey::Files => c.files = crate::text::split_words(v),
        CollectionKey::IgnoreFiles => c.ignore_files = crate::text::split_words(v),
        CollectionKey::Launch => c.launch_command = Some(string_of(v)),
        CollectionKey::Workdir => c.workdir = Some(string_of(v)),
        CollectionKey::Ignored => {},
    }
}

/// Applies `key: value`, the key lowercased, to the open game, or else to the
/// open collection.
fn apply_key_value(
    key: &Vec<char>,
    value: &Vec<char>,
    collection: &mut Option<PegasusCollection>,
    game: &mut Option<PegasusGame>,
)
    requires
        game_ok(opt_game(*old(game))),
    ensures
        game_ok(opt_game(*final(game))),
        (opt_collection(*final(collection)), opt_game(*final(game))) == apply_open(
            opt_collection(*old(collection)),
            opt_game(*old(game)),
            key@,
            value@,
        ),
{
    let low = lowercase(string_of(key).as_str());
    let key = chars_of(low.as_str());
    match game {
        Some(g) => {
            apply_to_game(g, &key, value);
        },
        None => match collection {
            Some(c) => {
                apply_to_collection(c, &key, value);
            },
            None => {},
        },
    }
}

/// The state of the parser between lines.
pub struct ParseState {
    pub collections: Seq<CollectionView>,
    pub games: Seq<GameView>,
    pub collection: Option<CollectionView>,
    pub game: Option<GameView>,
    pub key: Option<Seq<char>>,
    pub value: Seq<char>,
}

pub open spec fn push_opt<T>(s: Seq<T>, o: Option<T>) -> Seq<T> {
    match o {
        Some(x) => s.push(x),
        None => s,
    }
}

/// Applies the pending key, if any, to the open records.
pub open spec fn flush_key(st: ParseState) -> ParseState {
    match st.key {
        Some(k) => {
            let r = apply_open(st.collection, st.game, k, st.value);
            ParseState { collection: r.0, game: r.1, key: None, value: Seq::empty(), ..st }
        },
        None => st,
    }
}

/// A value continued by the trimmed continuation line `t`: a lone `.` adds a
/// paragraph break, anything else is joined with one space.
pub open spec fn continue_value(value: Seq<char>, t: Seq<char>) -> Seq<char> {
    if t == seq!['.'] {
        value + seq!['\n', '\n']
    } else {
        (if value.len() > 0 { value.push(' ') } else { value }) + t
    }
}

/// The parser state after one line.
pub open spec fn parse_line(st: ParseState, line: Seq<char>) -> ParseState {
    if (line.len() > 0 && line[0] == '#') || trim(line).len() == 0 {
        st
    } else if line[0] == ' ' || line[0] == '\t' {
        ParseState { value: continue_value(st.value, trim(line)), ..st }
    } else {
        let st1 = flush_key(st);
        match crate::matcher::find_from(line, ':', 0) {
            Some(p) => {
                let key = lower_key(trim(line.take(p)));
                let val = trim(line.skip(p + 1));
                if key == "collection"@ {
                    ParseState {
                        games: push_opt(st1.games, st1.game),
                        collections: push_opt(st1.collections, st1.collection),
                        collection: Some(new_collection_view(val)),
                        game: None,
                        ..st1
                    }
                } else if key == "game"@ {
                    ParseState {
                        games: push_opt(st1.games, st1.game),
                        game: Some(new_game_view(val)),
                        ..st1
                    }
                } else {
                    ParseState { key: Some(key), value: val, ..st1 }
                }
            },
            None => st1,
        }
    }
}

/// The parser state after the given lines.
pub open spec fn run(st: ParseState, lines: Seq<Seq<char>>) -> ParseState
    decreases lines.len(),
{
    if lines.len() == 0 {
        st
    } else {
        run(parse_line(st, lines[0]), lines.drop_first())
    }
}

pub open spec fn initial_state() -> ParseState {
    ParseState {
        collections: Seq::empty(),
        games: Seq::empty(),
        collection: None,
        game: None,
        key: None,
        value: Seq::empty(),
    }
}

/// The collections and games of a file: the pending key is applied and the
/// open records are closed.
pub open spec fn finish(st: ParseState) -> (Seq<CollectionView>, Seq<GameView>) {
    let st1 = flush_key(st);
    (push_opt(st1.collections, st1.collection), push_opt(st1.games, st1.game))
}

/// The records that a metadata text holds.
pub open spec fn parsed(content: Seq<char>) -> (Seq<CollectionView>, Seq<GameView>) {
    finish(run(initial_state(), lines_of(content)))
}

/// The parser's state in executable form.
struct Parser {
    collections: Vec<PegasusCollection>,
    games: Vec<PegasusGame>,
    collection: Option<PegasusCollection>,
    game: Option<PegasusGame>,
    key: Option<Vec<char>>,
    value: Vec<char>,
}

impl Parser {
    spec fn state(&self) -> ParseState {
        ParseState {
            collections: collections_view(self.collections@),
            games: games_view(self.games@),
            collection: opt_collection(self.collection),
            game: opt_game(self.game),
            key: match self.key {
                Some(k) => Some(k@),
                None => None,
            },
            value: self.value@,
        }
    }

    spec fn ok(&self) -> bool {
        game_ok(opt_game(self.game)) && crate::merge::all_unique(games_view(self.games@))
    }

    fn flush_key(&mut self)
        requires
            old(self).ok(),
        ensures
            final(self).ok(),
            final(self).state() == flush_key(old(self).state()),
    {
        match self.key.take() {
            Some(k) => {
                apply_key_value(&k, &self.value, &mut self.collection, &mut self.game);
                self.value = Vec::new();
            },
            None => {},
        }
    }

    fn close_game(&mut self)
        requires
            old(self).ok(),
        ensures
            final(self).ok(),
            final(self).state() == (ParseState {
                games: push_opt(old(self).state().games, old(self).state().game),
                game: None,
                ..old(self).state()
            }),
            final(self).game is None,
    {
        let ghost before = self.state();
        match self.game.take() {
            Some(g) => {
                self.games.push(g);
                proof {
                    assert(games_view(self.games@) =~= before.games.push(self.games@.last()@));
                    assert(crate::merge::all_unique(games_view(self.games@)));
                }
            },
            None => {},
        }
    }

    fn close_collection(&mut self)
        requires
            old(self).ok(),
        ensures
            final(self).ok(),
            final(self).state() == (ParseState {
                collections: push_opt(old(self).state().collections, old(self).state().collection),
                collection: None,
                ..old(self).state()
            }),
            final(self).game == old(self).game,
    {
        let ghost before = self.state();
        match self.collection.take() {
            Some(c) => {
                self.collections.push(c);
                proof {
                    assert(collections_view(self.collections@) =~= before.collections.push(
                        self.collections@.last()@,
                    ));
                }
            },
            None => {},
        }
    }

    fn line(&mut self, line: &Vec<char>)
        requires
            old(self).ok(),
        ensures
            final(self).ok(),
            final(self).state() == parse_line(old(self).state(), line@),
    {
        let t = trim_chars(line);
        if (line.len() > 0 && line[0] == '#') || t.len() == 0 {
            return;
        }
        if line[0] == ' ' || line[0] == '\t' {
            if t.len() == 1 && t[0] == '.' {
                self.value.push('\n');
                self.value.push('\n');
                proof {
                    assert(t@ =~= seq!['.']);
                    assert(self.value@ =~= old(self).value@ + seq!['\n', '\n']);
                }
            } else {
                proof {
                    assert(t@ != seq!['.']);
                }
                if self.value.len() > 0 {
                    self.value.push(' ');
                }
                let mut rest = t;
                self.value.append(&mut rest);
            }
            return;
        }
        self.flush_key();
        match crate::matcher::find_char(line, ':', 0) {
            Some(p) => {
                let head = trim_chars(&crate::text::slice(line, 0, p));
                let low = lowercase(string_of(&head).as_str());
                let key = chars_of(low.as_str());
                let val = trim_chars(&crate::text::slice(line, p + 1, line.len()));
                proof {
                    assert(line@.subrange(0, p as int) =~= line@.take(p as int));
                    assert(line@.subrange(p + 1, line@.len() as int) =~= line@.skip(p + 1));
                }
                if chars_eq_str(&key, "collection") {
                    self.close_game();
                    self.close_collection();
                    self.collection = Some(
                        PegasusCollection {
                            name: string_of(&val),
                            short_name: None,
                            extensions: Vec::new(),
                            files: Vec::new(),
                            ignore_files: Vec::new(),
                            launch_command: None,
                            workdir: None,
                        },
                    );
                    proof {
                        let c = self.collection.unwrap();
                        assert(strs(c.extensions@) =~= Seq::<Seq<char>>::empty());
                        assert(strs(c.files@) =~= Seq::<Seq<char>>::empty());
                        assert(strs(c.ignore_files@) =~= Seq::<Seq<char>>::empty());
                    }
                } else if chars_eq_str(&key, "game") {
                    self.close_game();
                    self.game = Some(PegasusGame::named(string_of(&val)));
                } else {
                    self.key = Some(key);
                    self.value = val;
                }
            },
            None => {},
        }
    }
}

/// Parses a Pegasus metadata text into its collections and games. Parsing is
/// total: lines that mean nothing are skipped.
pub fn parse_pegasus_content(content: &str) -> (r: Result<PegasusMetadata, String>)
    ensures
        r matches Ok(m) && (collections_view(m.collections@), games_view(m.games@)) == parsed(content@)
            && crate::merge::all_unique(games_view(m.games@)),
{
    let chars = chars_of(content);
    let lines = crate::text::split_lines(&chars);
    let ghost ls = lines@.map_values(|l: Vec<char>| l@);
    let mut p = Parser {
        collections: Vec::new(),
        games: Vec::new(),
        collection: None,
        game: None,
        key: None,
        value: Vec::new(),
    };
    proof {
        assert(collections_view(p.collections@) =~= Seq::<CollectionView>::empty());
        assert(games_view(p.games@) =~= Seq::<GameView>::empty());
        assert(p.value@ =~= Seq::<char>::empty());
        assert(p.state() == initial_state());
        assert(ls.skip(0) =~= ls);
    }
    for i in 0..lines.len()
        invariant
            ls == lines@.map_values(|l: Vec<char>| l@),
            ls == lines_of(content@),
            p.ok(),
            run(initial_state(), ls) == run(p.state(), ls.skip(i as int)),
    {
        proof {
            assert(ls.skip(i as int).drop_first() =~= ls.skip(i + 1));
            assert(ls.skip(i as int)[0] == lines@[i as int]@);
        }
        p.line(&lines[i]);
    }
    proof {
        assert(ls.skip(lines.len() as int) =~= Seq::<Seq<char>>::empty());
    }
    p.flush_key();
    p.close_game();
    p.close_collection();
    Ok(PegasusMetadata { collections: p.collections, games: p.games })
}

/// How records are written.
#[derive(Debug, Clone)]
pub struct PegasusExportOptions {
    /// Whether to write a collection header first.
    pub include_collection: bool,
    pub collection_name: Option<String>,
    pub extensions: Option<Vec<String>>,
    pub launch_command: Option<String>,
    pub workdir: Option<String>,
    /// Whether to write media asset paths.
    pub include_assets: bool,
}

impl PegasusExportOptions {
    /// No collection header and no asset paths.
    pub fn new() -> (r: Self)
        ensures
            !r.include_collection,
            !r.include_assets,
            r.collection_name is None,
            r.extensions is None,
            r.launch_command is None,
            r.workdir is None,
    {
        PegasusExportOptions {
            include_collection: false,
            collection_name: None,
            extensions: None,
            launch_command: None,
            workdir: None,
            include_assets: false,
        }
    }
}

/// The line `key: value`.
pub open spec fn kv(key: Seq<char>, value: Seq<char>) -> Seq<char> {
    key + ": "@ + value + "\n"@
}

/// The line `key: value` where there is a value.
pub open spec fn opt_kv(key: Seq<char>, value: Option<Seq<char>>) -> Seq<char> {
    match value {
        Some(v) => kv(key, v),
        None => Seq::empty(),
    }
}

/// The words joined by single spaces.
pub open spec fn join_words(ws: Seq<Seq<char>>) -> Seq<char>
    decreases ws.len(),
{
    if ws.len() == 0 {
        Seq::empty()
    } else if ws.len() == 1 {
        ws[0]
    } else {
        join_words(ws.drop_last()) + seq![' '] + ws.last()
    }
}

/// The `extensions:` line of the header, where there are extensions.
pub open spec fn extensions_piece(o: PegasusExportOptions) -> Seq<char> {
    match o.extensions {
        Some(e) => if e@.len() > 0 { kv("extensions"@, join_words(strs(e@))) } else { Seq::empty() },
        None => Seq::empty(),
    }
}

/// The collection header that the options ask for.
pub open spec fn header_text(o: PegasusExportOptions) -> Seq<char> {
    if o.include_collection {
        opt_kv("collection"@, opt_str(o.collection_name)) + extensions_piece(o) + opt_kv(
            "launch"@,
            opt_str(o.launch_command),
        ) + opt_kv("workdir"@, opt_str(o.workdir)) + "\n"@
    } else {
        Seq::empty()
    }
}

/// A `file:` line for each file.
pub open spec fn file_lines(files: Seq<Seq<char>>) -> Seq<char>
    decreases files.len(),
{
    if files.len() == 0 {
        Seq::empty()
    } else {
        file_lines(files.drop_last()) + kv("file"@, files.last())
    }
}

/// The keys under which media assets are written, in field order.
pub open spec fn asset_keys() -> Seq<Seq<char>> {
    seq![
        "assets.boxFront"@, "assets.boxBack"@, "assets.boxSpine"@, "assets.boxFull"@,
        "assets.cartridge"@, "assets.logo"@, "assets.marquee"@, "assets.bezel"@,
        "assets.gridicon"@, "assets.flyer"@, "assets.background"@, "assets.music"@,
        "assets.screenshot"@, "assets.titlescreen"@, "assets.video"@,
    ]
}

/// The lines of the first `n` asset fields that are present.
pub open spec fn asset_lines(assets: Seq<Option<Seq<char>>>, n: nat) -> Seq<char>
    decreases n,
{
    if n == 0 {
        Seq::empty()
    } else {
        asset_lines(assets, (n - 1) as nat) + opt_kv(asset_keys()[n - 1], assets[n - 1])
    }
}

/// Whether `a` comes before `b` in lexicographic order of code points.
pub open spec fn seq_lt(a: Seq<char>, b: Seq<char>) -> bool
    decreases a.len(),
{
    if a.len() == 0 {
        b.len() > 0
    } else if b.len() == 0 {
        false
    } else if a[0] != b[0] {
        (a[0] as u32) < (b[0] as u32)
    } else {
        seq_lt(a.drop_first(), b.drop_first())
    }
}

/// `s` with `p` inserted before the first pair whose key is not below its key.
pub open spec fn insert_sorted(s: Seq<(Seq<char>, Seq<char>)>, p: (Seq<char>, Seq<char>)) -> Seq<(Seq<char>, Seq<char>)>
    decreases s.len(),
{
    if s.len() == 0 {
        seq![p]
    } else if seq_lt(s[0].0, p.0) {
        seq![s[0]] + insert_sorted(s.drop_first(), p)
    } else {
        seq![p] + s
    }
}

/// The pairs sorted by key (insertion sort, so stable).
pub open spec fn sort_pairs(s: Seq<(Seq<char>, Seq<char>)>) -> Seq<(Seq<char>, Seq<char>)>
    decreases s.len(),
{
    if s.len() == 0 {
        Seq::empty()
    } else {
        insert_sorted(sort_pairs(s.drop_last()), s.last())
    }
}

/// A `key: value` line for each pair.
pub open spec fn pair_lines(s: Seq<(Seq<char>, Seq<char>)>) -> Seq<char>
    decreases s.len(),
{
    if s.len() == 0 {
        Seq::empty()
    } else {
        pair_lines(s.drop_last()) + kv(s.last().0, s.last().1)
    }
}

/// The continuation lines of a multi-line value: a blank line becomes ` .`.
pub open spec fn continuation_lines(ls: Seq<Seq<char>>) -> Seq<char>
    decreases ls.len(),
{
    if ls.len() == 0 {
        Seq::empty()
    } else {
        continuation_lines(ls.drop_last()) + (if ls.last().len() == 0 {
            "  .\n"@
        } else {
            "  "@ + ls.last() + "\n"@
        })
    }
}

/// A multi-line field: its first line after the key, the others as continuation lines.
pub open spec fn multiline_text(key: Seq<char>, value: Seq<char>) -> Seq<char> {
    let ls = lines_of(value);
    if ls.len() == 0 {
        Seq::empty()
    } else {
        kv(key, ls[0]) + continuation_lines(ls.drop_first())
    }
}

/// `s` with each line feed replaced by a space.
pub open spec fn one_line(s: Seq<char>) -> Seq<char> {
    Seq::new(s.len(), |i: int| if s[i] == '\n' { ' ' } else { s[i] })
}

/// The `sort-by:` line, where the sort title differs from the name.
pub open spec fn sort_piece(g: GameView) -> Seq<char> {
    match g.texts[9] {
        Some(t) => if t != g.name { kv("sort-by"@, t) } else { Seq::empty() },
        None => Seq::empty(),
    }
}

/// The `summary:` line, on one line.
pub open spec fn summary_piece(g: GameView) -> Seq<char> {
    match g.texts[5] {
        Some(t) => kv("summary"@, one_line(t)),
        None => Seq::empty(),
    }
}

/// The `description:` field, over several lines.
pub open spec fn description_piece(g: GameView) -> Seq<char> {
    match g.texts[6] {
        Some(t) => multiline_text("description"@, t),
        None => Seq::empty(),
    }
}

/// The asset lines, where asked for.
pub open spec fn assets_piece(g: GameView, include_assets: bool) -> Seq<char> {
    if include_assets { asset_lines(g.assets, ASSET_FIELDS as nat) } else { Seq::empty() }
}

/// The text of one game record.
pub open spec fn game_text(g: GameView, include_assets: bool) -> Seq<char> {
    kv("game"@, g.name) + sort_piece(g) + opt_kv("file"@, g.texts[0]) + file_lines(g.files)
        + opt_kv("developer"@, g.texts[1]) + opt_kv("publisher"@, g.texts[2]) + opt_kv(
        "genre"@,
        g.texts[3],
    ) + opt_kv("players"@, g.texts[4]) + opt_kv("release"@, g.texts[7]) + opt_kv(
        "rating"@,
        g.texts[8],
    ) + summary_piece(g) + description_piece(g) + assets_piece(g, include_assets) + pair_lines(
        sort_pairs(g.extra),
    ) + "\n"@
}

/// The text of a list of game records.
pub open spec fn games_text(gs: Seq<GameView>, include_assets: bool) -> Seq<char>
    decreases gs.len(),
{
    if gs.len() == 0 {
        Seq::empty()
    } else {
        games_text(gs.drop_last(), include_assets) + game_text(gs.last(), include_assets)
    }
}

/// The full text written for the games with the options.
pub open spec fn exported(games: Seq<GameView>, o: PegasusExportOptions) -> Seq<char> {
    header_text(o) + games_text(games, o.include_assets)
}

fn push_str(out: &mut Vec<char>, s: &str)
    ensures
        final(out)@ == old(out)@ + s@,
{
    let mut c = chars_of(s);
    out.append(&mut c);
}

fn push_chars(out: &mut Vec<char>, s: &Vec<char>)
    ensures
        final(out)@ == old(out)@ + s@,
{
    for i in 0..s.len()
        invariant
            out@ == old(out)@ + s@.take(i as int),
    {
        out.push(s[i]);
        proof {
            assert(s@.take(i + 1) =~= s@.take(i as int).push(s@[i as int]));
        }
    }
    proof {
        assert(s@.take(s.len() as int) =~= s@);
    }
}

fn push_kv(out: &mut Vec<char>, key: &str, value: &Vec<char>)
    ensures
        final(out)@ == old(out)@ + kv(key@, value@),
{
    push_str(out, key);
    push_str(out, ": ");
    push_chars(out, value);
    push_str(out, "\n");
    proof {
        assert(out@ =~= old(out)@ + kv(key@, value@));
    }
}

fn push_opt_kv(out: &mut Vec<char>, key: &str, value: &Option<String>)
    ensures
        final(out)@ == old(out)@ + opt_kv(key@, opt_str(*value)),
{
    match value {
        Some(v) => push_kv(out, key, &chars_of(v.as_str())),
        None => {
            proof {
                assert(old(out)@ + Seq::<char>::empty() =~= old(out)@);
            }
        },
    }
}

fn lt_chars(a: &Vec<char>, b: &Vec<char>) -> (r: bool)
    ensures
        r == seq_lt(a@, b@),
{
    let mut i: usize = 0;
    proof {
        assert(a@.skip(0) =~= a@);
        assert(b@.skip(0) =~= b@);
    }
    while i < a.len() && i < b.len() && a[i] == b[i]
        invariant
            i <= a.len(),
            i <= b.len(),
            seq_lt(a@, b@) == seq_lt(a@.skip(i as int), b@.skip(i as int)),
        decreases a.len() - i,
    {
        proof {
            assert(a@.skip(i as int).drop_first() =~= a@.skip(i + 1));
            assert(b@.skip(i as int).drop_first() =~= b@.skip(i + 1));
        }
        i = i + 1;
    }
    if i == a.len() {
        i < b.len()
    } else if i == b.len() {
        false
    } else {
        (a[i] as u32) < (b[i] as u32)
    }
}

proof fn lemma_insert_sorted(s: Seq<(Seq<char>, Seq<char>)>, p: (Seq<char>, Seq<char>), k: int)
    requires
        0 <= k <= s.len(),
        forall|q: int| 0 <= q < k ==> seq_lt(#[trigger] s[q].0, p.0),
        k == s.len() || !seq_lt(s[k].0, p.0),
    ensures
        insert_sorted(s, p) == s.take(k) + seq![p] + s.skip(k),
    decreases s.len(),
{
    if s.len() == 0 {
        assert(s.take(k) + seq![p] + s.skip(k) =~= seq![p]);
    } else if k == 0 {
        assert(s.take(k) + seq![p] + s.skip(k) =~= seq![p] + s);
    } else {
        let t = s.drop_first();
        assert forall|q: int| 0 <= q < k - 1 implies seq_lt(#[trigger] t[q].0, p.0) by {
            assert(t[q] == s[q + 1]);
        }
        lemma_insert_sorted(t, p, k - 1);
        assert(seq![s[0]] + (t.take(k - 1) + seq![p] + t.skip(k - 1)) =~= s.take(k) + seq![p] + s.skip(k));
    }
}

pub open spec fn pairs_of(v: Seq<(String, String)>) -> Seq<(Seq<char>, Seq<char>)> {
    crate::pegasus::pairs(v)
}

/// The extension fields sorted by key.
fn sorted_extra(extra: &Vec<(String, String)>) -> (r: Vec<(String, String)>)
    ensures
        pairs_of(r@) == sort_pairs(pairs_of(extra@)),
{
    let ghost all = pairs_of(extra@);
    let mut r: Vec<(String, String)> = Vec::new();
    proof {
        assert(all.take(0) =~= Seq::<(Seq<char>, Seq<char>)>::empty());
        assert(pairs_of(r@) =~= Seq::<(Seq<char>, Seq<char>)>::empty());
    }
    for i in 0..extra.len()
        invariant
            all == pairs_of(extra@),
            pairs_of(r@) == sort_pairs(all.take(i as int)),
    {
        let key = chars_of(extra[i].0.as_str());
        let mut k: usize = 0;
        while k < r.len() && lt_chars(&chars_of(r[k].0.as_str()), &key)
            invariant
                k <= r.len(),
                key@ == extra@[i as int].0@,
                forall|q: int| 0 <= q < k ==> seq_lt(#[trigger] pairs_of(r@)[q].0, key@),
            decreases r.len() - k,
        {
            k = k + 1;
        }
        let ghost before = pairs_of(r@);
        let p = (extra[i].0.clone(), extra[i].1.clone());
        r.insert(k, p);
        proof {
            assert(all.take(i + 1).drop_last() =~= all.take(i as int));
            assert(all.take(i + 1).last() == all[i as int]);
            lemma_insert_sorted(before, all[i as int], k as int);
            assert(pairs_of(r@) =~= before.take(k as int) + seq![all[i as int]] + before.skip(k as int));
        }
    }
    proof {
        assert(all.take(extra.len() as int) =~= all);
    }
    r
}

fn write_pairs(out: &mut Vec<char>, ps: &Vec<(String, String)>)
    ensures
        final(out)@ == old(out)@ + pair_lines(pairs_of(ps@)),
{
    let ghost all = pairs_of(ps@);
    proof {
        assert(all.take(0) =~= Seq::<(Seq<char>, Seq<char>)>::empty());
        assert(old(out)@ + Seq::<char>::empty() =~= old(out)@);
    }
    for i in 0..ps.len()
        invariant
            all == pairs_of(ps@),
            out@ == old(out)@ + pair_lines(all.take(i as int)),
    {
        push_kv(out, ps[i].0.as_str(), &chars_of(ps[i].1.as_str()));
        proof {
            assert(all.take(i + 1).drop_last() =~= all.take(i as int));
            assert(out@ =~= old(out)@ + pair_lines(all.take(i + 1)));
        }
    }
    proof {
        assert(all.take(ps.len() as int) =~= all);
    }
}

fn write_files(out: &mut Vec<char>, files: &Vec<String>)
    ensures
        final(out)@ == old(out)@ + file_lines(strs(files@)),
{
    let ghost all = strs(files@);
    proof {
        assert(all.take(0) =~= Seq::<Seq<char>>::empty());
        assert(old(out)@ + Seq::<char>::empty() =~= old(out)@);
    }
    for i in 0..files.len()
        invariant
            all == strs(files@),
            out@ == old(out)@ + file_lines(all.take(i as int)),
    {
        push_kv(out, "file", &chars_of(files[i].as_str()));
        proof {
            assert(all.take(i + 1).drop_last() =~= all.take(i as int));
            assert(out@ =~= old(out)@ + file_lines(all.take(i + 1)));
        }
    }
    proof {
        assert(all.take(files.len() as int) =~= all);
    }
}

fn asset_key(i: usize) -> (r: &'static str)
    requires
        i < ASSET_FIELDS,
    ensures
        r@ == asset_keys()[i as int],
{
    match i {
        0 => "assets.boxFront",
        1 => "assets.boxBack",
        2 => "assets.boxSpine",
        3 => "assets.boxFull",
        4 => "assets.cartridge",
        5 => "assets.logo",
        6 => "assets.marquee",
        7 => "assets.bezel",
        8 => "assets.gridicon",
        9 => "assets.flyer",
        10 => "assets.background",
        11 => "assets.music",
        12 => "assets.screenshot",
        13 => "assets.titlescreen",
        _ => "assets.video",
    }
}

fn write_assets(out: &mut Vec<char>, g: &PegasusGame)
    ensures
        final(out)@ == old(out)@ + asset_lines(g@.assets, ASSET_FIELDS as nat),
{
    proof {
        assert(old(out)@ + Seq::<char>::empty() =~= old(out)@);
    }
    for i in 0..ASSET_FIELDS
        invariant
            out@ == old(out)@ + asset_lines(g@.assets, i as nat),
    {
        push_opt_kv(out, asset_key(i), g.asset(i));
        proof {
            assert(out@ =~= old(out)@ + asset_lines(g@.assets, (i + 1) as nat));
        }
    }
}

/// Writes a multi-line field: the first line after the key, the others as
/// continuation lines, a blank line as ` .`.
fn write_multiline_field(out: &mut Vec<char>, key: &str, value: &Vec<char>)
    ensures
        final(out)@ == old(out)@ + multiline_text(key@, value@),
{
    let lines = crate::text::split_lines(value);
    let ghost ls = lines@.map_values(|l: Vec<char>| l@);
    if lines.len() == 0 {
        proof {
            assert(old(out)@ + Seq::<char>::empty() =~= old(out)@);
        }
        return;
    }
    push_kv(out, key, &lines[0]);
    let ghost mid = out@;
    let ghost rest = ls.drop_first();
    proof {
        assert(rest.take(0) =~= Seq::<Seq<char>>::empty());
        assert(mid + Seq::<char>::empty() =~= mid);
    }
    for i in 1..lines.len()
        invariant
            ls == lines@.map_values(|l: Vec<char>| l@),
            rest == ls.drop_first(),
            out@ == mid + continuation_lines(rest.take(i - 1)),
    {
        let ghost before = out@;
        if lines[i].len() == 0 {
            push_str(out, "  .\n");
        } else {
            push_str(out, "  ");
            push_chars(out, &lines[i]);
            push_str(out, "\n");
        }
        proof {
            assert(rest.take(i as int).drop_last() =~= rest.take(i - 1));
            assert(rest.take(i as int).last() == lines@[i as int]@);
            assert(out@ =~= mid + continuation_lines(rest.take(i as int)));
        }
    }
    proof {
        assert(rest.take(lines.len() - 1) =~= rest);
        assert(out@ =~= old(out)@ + multiline_text(key@, value@));
    }
}

fn write_sort(out: &mut Vec<char>, g: &PegasusGame, name: &Vec<char>)
    requires
        name@ == g.name@,
    ensures
        final(out)@ == old(out)@ + sort_piece(g@),
{
    match &g.sort_title {
        Some(t) => {
            let tc = chars_of(t.as_str());
            if !crate::text::seq_eq(&tc, name) {
                push_kv(out, "sort-by", &tc);
            } else {
                proof {
                    assert(old(out)@ + Seq::<char>::empty() =~= old(out)@);
                }
            }
        },
        None => {
            proof {
                assert(old(out)@ + Seq::<char>::empty() =~= old(out)@);
            }
        },
    }
}

fn write_summary(out: &mut Vec<char>, g: &PegasusGame)
    ensures
        final(out)@ == old(out)@ + summary_piece(g@),
{
    match &g.summary {
        Some(t) => {
            let tc = chars_of(t.as_str());
            let mut flat: Vec<char> = Vec::new();
            for i in 0..tc.len()
                invariant
                    flat@ == one_line(tc@.take(i as int)),
            {
                if tc[i] == '\n' {
                    flat.push(' ');
                } else {
                    flat.push(tc[i]);
                }
                proof {
                    assert(flat@ =~= one_line(tc@.take(i + 1)));
                }
            }
            proof {
                assert(tc@.take(tc.len() as int) =~= tc@);
            }
            push_kv(out, "summary", &flat);
        },
        None => {
            proof {
                assert(old(out)@ + Seq::<char>::empty() =~= old(out)@);
            }
        },
    }
}

fn write_description(out: &mut Vec<char>, g: &PegasusGame)
    ensures
        final(out)@ == old(out)@ + description_piece(g@),
{
    match &g.description {
        Some(t) => write_multiline_field(out, "description", &chars_of(t.as_str())),
        None => {
            proof {
                assert(old(out)@ + Seq::<char>::empty() =~= old(out)@);
            }
        },
    }
}

fn write_assets_if(out: &mut Vec<char>, g: &PegasusGame, include_assets: bool)
    ensures
        final(out)@ == old(out)@ + assets_piece(g@, include_assets),
{
    if include_assets {
        write_assets(out, g);
    } else {
        proof {
            assert(old(out)@ + Seq::<char>::empty() =~= old(out)@);
        }
    }
}

/// The text of one game record.
fn game_chars(g: &PegasusGame, include_assets: bool) -> (r: Vec<char>)
    ensures
        r@ == game_text(g@, include_assets),
{
    let name = chars_of(g.name.as_str());
    let mut out: Vec<char> = Vec::new();
    push_kv(&mut out, "game", &name);
    proof {
        assert(Seq::<char>::empty() + kv("game"@, g.name@) == kv("game"@, g.name@));
    }
    write_sort(&mut out, g, &name);
    push_opt_kv(&mut out, "file", &g.file);
    write_files(&mut out, &g.files);
    push_opt_kv(&mut out, "developer", &g.developer);
    push_opt_kv(&mut out, "publisher", &g.publisher);
    push_opt_kv(&mut out, "genre", &g.genre);
    push_opt_kv(&mut out, "players", &g.players);
    push_opt_kv(&mut out, "release", &g.release);
    push_opt_kv(&mut out, "rating", &g.rating);
    write_summary(&mut out, g);
    write_description(&mut out, g);
    write_assets_if(&mut out, g, include_assets);
    let extra = sorted_extra(&g.extra);
    write_pairs(&mut out, &extra);
    push_str(&mut out, "\n");
    out
}

/// The collection header that the options ask for.
fn header_chars(o: &PegasusExportOptions) -> (r: Vec<char>)
    ensures
        r@ == header_text(*o),
{
    let mut out: Vec<char> = Vec::new();
    if !o.include_collection {
        return out;
    }
    push_opt_kv(&mut out, "collection", &o.collection_name);
    proof {
        assert(Seq::<char>::empty() + opt_kv("collection"@, opt_str(o.collection_name)) == opt_kv(
            "collection"@,
            opt_str(o.collection_name),
        ));
    }
    write_extensions(&mut out, o);
    push_opt_kv(&mut out, "launch", &o.launch_command);
    push_opt_kv(&mut out, "workdir", &o.workdir);
    push_str(&mut out, "\n");
    out
}

fn write_extensions(out: &mut Vec<char>, o: &PegasusExportOptions)
    ensures
        final(out)@ == old(out)@ + extensions_piece(*o),
{
    match &o.extensions {
        Some(e) => {
            if e.len() > 0 {
                let mut joined: Vec<char> = Vec::new();
                let ghost ws = strs(e@);
                for i in 0..e.len()
                    invariant
                        ws == strs(e@),
                        joined@ == join_words(ws.take(i as int)),
                {
                    let ghost before = joined@;
                    if i > 0 {
                        joined.push(' ');
                    }
                    push_str(&mut joined, e[i].as_str());
                    proof {
                        assert(ws.take(i + 1).drop_last() =~= ws.take(i as int));
                        if i == 0 {
                            assert(joined@ =~= ws.take(1)[0]);
                        } else {
                            assert(joined@ =~= before + seq![' '] + ws[i as int]);
                        }
                    }
                }
                proof {
                    assert(ws.take(e.len() as int) =~= ws);
                }
                push_kv(out, "extensions", &joined);
            } else {
                proof {
                    assert(old(out)@ + Seq::<char>::empty() =~= old(out)@);
                }
            }
        },
        None => {
            proof {
                assert(old(out)@ + Seq::<char>::empty() =~= old(out)@);
            }
        },
    }
}

/// Writes games in the Pegasus format: an optional collection header, then each
/// game with its present fields, a multi-line description as continuation
/// lines, and the extension fields sorted by key.
pub fn export_to_pegasus(games: &[PegasusGame], options: &PegasusExportOptions) -> (r: String)
    ensures
        r@ == exported(games_view(games@), *options),
{
    let mut body: Vec<char> = Vec::new();
    let ghost gs = games_view(games@);
    proof {
        assert(gs.take(0) =~= Seq::<GameView>::empty());
    }
    for i in 0..games.len()
        invariant
            gs == games_view(games@),
            body@ == games_text(gs.take(i as int), options.include_assets),
    {
        let mut g = game_chars(&games[i], options.include_assets);
        body.append(&mut g);
        proof {
            assert(gs.take(i + 1).drop_last() =~= gs.take(i as int));
            assert(gs.take(i + 1).last() == games@[i as int]@);
        }
    }
    proof {
        assert(gs.take(games.len() as int) =~= gs);
    }
    let mut out = header_chars(options);
    out.append(&mut body);
    string_of(&out)
}

/// The text to write into a metadata file: with `merge` and an existing file
/// text, the new games merged into the games of that text; else the new games
/// alone.
pub fn pegasus_file_content(
    existing: Option<&str>,
    games: &[PegasusGame],
    options: &PegasusExportOptions,
    merge: bool,
) -> (r: String)
    requires
        crate::merge::all_unique(games_view(games@)),
    ensures
        r@ == match (merge, existing) {
            (true, Some(t)) => exported(
                crate::merge::merge_all(parsed(t@).1, games_view(games@)),
                *options,
            ),
            _ => exported(games_view(games@), *options),
        },
{
    if merge {
        match existing {
            Some(t) => {
                let parsed = parse_pegasus_content(t);
                match parsed {
                    Ok(m) => {
                        let merged = crate::merge::merge_games(m.games, games);
                        return export_to_pegasus(merged.as_slice(), options);
                    },
                    Err(_) => {},
                }
            },
            None => {},
        }
    }
    export_to_pegasus(games, options)
}

/// The `extensions:` line for a list of extensions, where it is not empty.
pub open spec fn extensions_line(exts: Option<Seq<Seq<char>>>) -> Seq<char> {
    match exts {
        Some(e) => if e.len() > 0 { kv("extensions"@, join_words(e)) } else { Seq::empty() },
        None => Seq::empty(),
    }
}

/// Writes games under a collection header with the given name and extensions.
pub fn export_to_pegasus_legacy(
    collection_name: &str,
    games: &[PegasusGame],
    extensions: Option<&[&str]>,
) -> (r: String)
    ensures
        r@ == kv("collection"@, collection_name@) + extensions_line(
            match extensions {
                Some(e) => Some(e@.map_values(|x: &str| x@)),
                None => None,
            },
        ) + "\n"@ + games_text(games_view(games@), false),
{
    let exts = match extensions {
        Some(e) => {
            let mut v: Vec<String> = Vec::new();
            for i in 0..e.len()
                invariant
                    v.len() == i,
                    forall|q: int| 0 <= q < i ==> #[trigger] v@[q]@ == e@[q]@,
            {
                v.push(crate::text::owned(e[i]));
            }
            proof {
                assert(strs(v@) =~= e@.map_values(|x: &str| x@));
            }
            Some(v)
        },
        None => None,
    };
    let options = PegasusExportOptions {
        include_collection: true,
        collection_name: Some(crate::text::owned(collection_name)),
        extensions: exts,
        launch_command: None,
        workdir: None,
        include_assets: false,
    };
    proof {
        let ev = match extensions {
            Some(e) => Some(e@.map_values(|x: &str| x@)),
            None => None,
        };
        assert(extensions_piece(options) == extensions_line(ev));
        let h = kv("collection"@, collection_name@) + extensions_line(ev);
        assert(h + Seq::<char>::empty() + Seq::<char>::empty() =~= h);
    }
    export_to_pegasus(games, &options)
}

/// The metadata format of a directory, from which files it holds: Pegasus
/// where it has `metadata.pegasus.txt` or `metadata.txt`, else EmulationStation
/// where it has `gamelist.xml`, else none.
pub fn detect_metadata_format(has_pegasus_file: bool, has_metadata_txt: bool, has_gamelist: bool) -> (r: String)
    ensures
        r@ == if has_pegasus_file || has_metadata_txt {
            "pegasus"@
        } else if has_gamelist {
            "emulationstation"@
        } else {
            "none"@
        },
{
    if has_pegasus_file || has_metadata_txt {
        crate::text::owned("pegasus")
    } else if has_gamelist {
        crate::text::owned("emulationstation")
    } else {
        crate::text::owned("none")
    }
}

/// A value that fits on one line and has no white space around it.
pub open spec fn one_line_value(v: Seq<char>) -> bool {
    v.len() > 0 && !crate::text::is_space(v[0]) && !crate::text::is_space(v.last()) && forall|i: int|
        0 <= i < v.len() ==> #[trigger] v[i] != '\n'
}

/// A key made of lowercase ASCII letters.
pub open spec fn plain_key(k: Seq<char>) -> bool {
    k.len() > 0 && forall|i: int| 0 <= i < k.len() ==> 'a' <= #[trigger] k[i] && k[i] <= 'z'
}

proof fn lemma_first_lf_at(s: Seq<char>, k: int, m: int)
    requires
        0 <= k <= m < s.len(),
        s[m] == '\n',
        forall|i: int| k <= i < m ==> s[i] != '\n',
    ensures
        crate::text::first_lf(s, k) == Some(m),
    decreases m - k,
{
    if k < m {
        lemma_first_lf_at(s, k + 1, m);
    }
}

/// The lines of a line followed by a line feed and more text.
proof fn lemma_lines_cons(l: Seq<char>, rest: Seq<char>)
    requires
        forall|i: int| 0 <= i < l.len() ==> l[i] != '\n',
    ensures
        lines_of(l + "\n"@ + rest) == seq![crate::text::strip_cr(l)] + lines_of(rest),
{
    reveal_strlit("\n");
    let s = l + "\n"@ + rest;
    lemma_first_lf_at(s, 0, l.len() as int);
    assert(s.take(l.len() as int) =~= l);
    assert(s.skip(l.len() as int + 1) =~= rest);
}

proof fn lemma_trim_start_plain(s: Seq<char>)
    requires
        s.len() > 0 ==> !crate::text::is_space(s[0]),
    ensures
        crate::text::trim_start(s) == s,
{
}

proof fn lemma_trim_end_plain(s: Seq<char>)
    requires
        s.len() > 0 ==> !crate::text::is_space(s.last()),
    ensures
        crate::text::trim_end(s) == s,
{
}

/// What parsing reads from the line `k: v`.
proof fn lemma_kv_line(k: Seq<char>, v: Seq<char>)
    requires
        plain_key(k),
        one_line_value(v),
    ensures
        ({
            let line = k + ": "@ + v;
            &&& !(line.len() > 0 && line[0] == '#')
            &&& trim(line).len() > 0
            &&& line[0] != ' ' && line[0] != '\t'
            &&& crate::matcher::find_from(line, ':', 0) == Some(k.len() as int)
            &&& lower_key(trim(line.take(k.len() as int))) == k
            &&& lower_key(k) == k
            &&& trim(line.skip(k.len() as int + 1)) == v
            &&& crate::text::strip_cr(line) == line
            &&& forall|i: int| 0 <= i < line.len() ==> line[i] != '\n'
        }),
{
    reveal_strlit(": ");
    let line = k + ": "@ + v;
    assert(line[0] == k[0]);
    lemma_trim_start_plain(line);
    assert(line.last() == v.last());
    lemma_trim_end_plain(line);
    assert forall|i: int| 0 <= i < k.len() implies line[i] != ':' by {
        assert(line[i] == k[i]);
    }
    crate::matcher::lemma_find_from_at(line, ':', 0, k.len() as int);
    let head = line.take(k.len() as int);
    assert(head =~= k);
    lemma_trim_start_plain(k);
    lemma_trim_end_plain(k);
    assert(crate::text::is_ascii_seq(k));
    assert(crate::text::ascii_lower_seq(k) =~= k);
    let tail = line.skip(k.len() as int + 1);
    assert(tail =~= seq![' '] + v);
    assert(tail.drop_first() =~= v);
    assert(crate::text::trim_start(tail) == crate::text::trim_start(v));
    lemma_trim_start_plain(v);
    lemma_trim_end_plain(v);
    assert forall|i: int| 0 <= i < line.len() implies line[i] != '\n' by {
        if i >= k.len() + 2 {
            assert(line[i] == v[i - k.len() - 2]);
        }
    }
}

/// A game record with only a name and a file, each on one line without white
/// space around it, reads back as written.
pub proof fn lemma_round_trip_name_file(n: Seq<char>, f: Seq<char>)
    requires
        one_line_value(n),
        one_line_value(f),
    ensures
        ({
            let g = GameView { texts: new_game_view(n).texts.update(0, Some(f)), ..new_game_view(n) };
            let o = PegasusExportOptions {
                include_collection: false,
                collection_name: None,
                extensions: None,
                launch_command: None,
                workdir: None,
                include_assets: false,
            };
            parsed(exported(seq![g], o)) == (Seq::<CollectionView>::empty(), seq![g])
        }),
{
    reveal_strlit("game");
    reveal_strlit("file");
    reveal_strlit("\n");
    reveal_strlit("collection");
    let g = GameView { texts: new_game_view(n).texts.update(0, Some(f)), ..new_game_view(n) };
    let o = PegasusExportOptions {
        include_collection: false,
        collection_name: None,
        extensions: None,
        launch_command: None,
        workdir: None,
        include_assets: false,
    };
    let l1 = "game"@ + ": "@ + n;
    let l2 = "file"@ + ": "@ + f;
    assert(plain_key("game"@));
    assert(plain_key("file"@));
    lemma_kv_line("game"@, n);
    lemma_kv_line("file"@, f);
    // The written text.
    assert(seq![g].drop_last() =~= Seq::<GameView>::empty());
    assert(sort_pairs(g.extra) =~= Seq::<(Seq<char>, Seq<char>)>::empty());
    assert(pair_lines(Seq::<(Seq<char>, Seq<char>)>::empty()) =~= Seq::<char>::empty());
    assert(file_lines(g.files) =~= Seq::<char>::empty());
    let text = l1 + "\n"@ + (l2 + "\n"@ + ("\n"@ + Seq::<char>::empty()));
    assert(g.texts[0] == Some(f));
    assert forall|i: int| 1 <= i < TEXT_FIELDS implies g.texts[i] is None by {}
    assert(sort_piece(g) =~= Seq::<char>::empty());
    assert(summary_piece(g) =~= Seq::<char>::empty());
    assert(description_piece(g) =~= Seq::<char>::empty());
    assert(assets_piece(g, false) =~= Seq::<char>::empty());
    assert(opt_kv("developer"@, g.texts[1]) =~= Seq::<char>::empty());
    assert(opt_kv("publisher"@, g.texts[2]) =~= Seq::<char>::empty());
    assert(opt_kv("genre"@, g.texts[3]) =~= Seq::<char>::empty());
    assert(opt_kv("players"@, g.texts[4]) =~= Seq::<char>::empty());
    assert(opt_kv("release"@, g.texts[7]) =~= Seq::<char>::empty());
    assert(opt_kv("rating"@, g.texts[8]) =~= Seq::<char>::empty());
    assert(kv("game"@, n) =~= l1 + "\n"@);
    assert(opt_kv("file"@, g.texts[0]) =~= l2 + "\n"@);
    assert(game_text(g, false) =~= l1 + "\n"@ + (l2 + "\n"@) + "\n"@);
    assert(games_text(seq![g], false) == games_text(Seq::<GameView>::empty(), false) + game_text(g, false));
    assert(header_text(o) =~= Seq::<char>::empty());
    assert(exported(seq![g], o) =~= text);
    // Its lines.
    lemma_lines_cons(l1, l2 + "\n"@ + ("\n"@ + Seq::<char>::empty()));
    lemma_lines_cons(l2, "\n"@ + Seq::<char>::empty());
    lemma_lines_cons(Seq::<char>::empty(), Seq::<char>::empty());
    assert(Seq::<char>::empty() + "\n"@ + Seq::<char>::empty() =~= "\n"@ + Seq::<char>::empty());
    let ls = seq![l1, l2, Seq::<char>::empty()];
    assert(lines_of(text) =~= ls);
    // Reading them.
    let s0 = initial_state();
    let s1 = parse_line(s0, l1);
    assert("game"@ != "collection"@);
    assert(s1 == ParseState { game: Some(new_game_view(n)), ..s0 });
    let s2 = parse_line(s1, l2);
    assert("file"@ != "game"@);
    assert(s2 == ParseState { key: Some("file"@), value: f, ..s1 });
    let s3 = parse_line(s2, Seq::<char>::empty());
    assert(s3 == s2);
    assert(ls.drop_first() =~= seq![l2, Seq::<char>::empty()]);
    assert(ls.drop_first().drop_first() =~= seq![Seq::<char>::empty()]);
    assert(ls.drop_first().drop_first().drop_first() =~= Seq::<Seq<char>>::empty());
    assert(run(s3, ls.drop_first().drop_first().drop_first()) == s3);
    assert(run(s2, ls.drop_first().drop_first()) == s3);
    assert(run(s1, ls.drop_first()) == s3);
    assert(run(s0, ls) == s3);
    assert(game_key("file"@) == GameKey::Text(0));
    assert(apply_game(new_game_view(n), "file"@, f) == g);
}

/// Reading a `k: v` line (`k` not opening a record) leaves `k` pending with `v`.
proof fn lemma_kv_step(st: ParseState, k: Seq<char>, v: Seq<char>)
    requires
        plain_key(k),
        one_line_value(v),
        k != "collection"@,
        k != "game"@,
    ensures
        parse_line(st, k + ": "@ + v) == (ParseState { key: Some(k), value: v, ..flush_key(st) }),
        lower_key(k) == k,
{
    lemma_kv_line(k, v);
}

/// The game that the text fields below give, on top of a record with name `n`.
pub open spec fn full_game(
    n: Seq<char>,
    file: Seq<char>,
    developer: Seq<char>,
    publisher: Seq<char>,
    genre: Seq<char>,
    players: Seq<char>,
    release: Seq<char>,
    rating: Seq<char>,
) -> GameView {
    GameView {
        texts: new_game_view(n).texts.update(0, Some(file)).update(1, Some(developer)).update(
            2,
            Some(publisher),
        ).update(3, Some(genre)).update(4, Some(players)).update(7, Some(release)).update(
            8,
            Some(rating),
        ),
        ..new_game_view(n)
    }
}

/// The line `key: value`, without its line feed.
pub open spec fn kv_line(key: Seq<char>, value: Seq<char>) -> Seq<char> {
    key + ": "@ + value
}

/// The lines of a game record with the eight fields below.
pub open spec fn full_lines(vs: Seq<Seq<char>>) -> Seq<Seq<char>> {
    seq![
        kv_line("game"@, vs[0]),
        kv_line("file"@, vs[1]),
        kv_line("developer"@, vs[2]),
        kv_line("publisher"@, vs[3]),
        kv_line("genre"@, vs[4]),
        kv_line("players"@, vs[5]),
        kv_line("release"@, vs[6]),
        kv_line("rating"@, vs[7]),
        Seq::empty(),
    ]
}

/// The written text of such a record, line by line from line `i` on.
pub open spec fn lines_text(ls: Seq<Seq<char>>, i: int) -> Seq<char>
    decreases ls.len() - i,
{
    if i < 0 || i >= ls.len() {
        Seq::empty()
    } else {
        ls[i] + "\n"@ + lines_text(ls, i + 1)
    }
}

pub open spec fn no_export_options() -> PegasusExportOptions {
    PegasusExportOptions {
        include_collection: false,
        collection_name: None,
        extensions: None,
        launch_command: None,
        workdir: None,
        include_assets: false,
    }
}

pub open spec fn fields_ok(vs: Seq<Seq<char>>) -> bool {
    vs.len() == 8 && forall|i: int| 0 <= i < 8 ==> one_line_value(#[trigger] vs[i])
}

#[verifier::rlimit(50)]
proof fn lemma_full_text(vs: Seq<Seq<char>>)
    requires
        fields_ok(vs),
    ensures
        exported(seq![full_game(vs[0], vs[1], vs[2], vs[3], vs[4], vs[5], vs[6], vs[7])], no_export_options())
            == lines_text(full_lines(vs), 0),
{
    let g = full_game(vs[0], vs[1], vs[2], vs[3], vs[4], vs[5], vs[6], vs[7]);
    let ls = full_lines(vs);
    let e = Seq::<char>::empty();
    let nl = "\n"@;
    assert(g.texts[0] == Some(vs[1]) && g.texts[1] == Some(vs[2]) && g.texts[2] == Some(vs[3]));
    assert(g.texts[3] == Some(vs[4]) && g.texts[4] == Some(vs[5]) && g.texts[7] == Some(vs[6]));
    assert(g.texts[8] == Some(vs[7]) && g.texts[5] is None && g.texts[6] is None && g.texts[9] is None);
    assert(seq![g].drop_last() =~= Seq::<GameView>::empty());
    assert(sort_pairs(g.extra) =~= Seq::<(Seq<char>, Seq<char>)>::empty());
    assert(pair_lines(Seq::<(Seq<char>, Seq<char>)>::empty()) =~= e);
    assert(file_lines(g.files) =~= e);
    assert(sort_piece(g) =~= e);
    assert(summary_piece(g) =~= e);
    assert(description_piece(g) =~= e);
    assert(assets_piece(g, false) =~= e);
    assert(lines_text(ls, 9) == e);
    assert(lines_text(ls, 8) == nl + e);
    assert(lines_text(ls, 7) == ls[7] + nl + lines_text(ls, 8));
    assert(lines_text(ls, 6) == ls[6] + nl + lines_text(ls, 7));
    assert(lines_text(ls, 5) == ls[5] + nl + lines_text(ls, 6));
    assert(lines_text(ls, 4) == ls[4] + nl + lines_text(ls, 5));
    assert(lines_text(ls, 3) == ls[3] + nl + lines_text(ls, 4));
    assert(lines_text(ls, 2) == ls[2] + nl + lines_text(ls, 3));
    assert(lines_text(ls, 1) == ls[1] + nl + lines_text(ls, 2));
    assert(lines_text(ls, 0) == ls[0] + nl + lines_text(ls, 1));
    assert(game_text(g, false) =~= lines_text(ls, 0));
    assert(games_text(seq![g], false) == games_text(Seq::<GameView>::empty(), false) + game_text(g, false));
    assert(header_text(no_export_options()) =~= e);
    assert(exported(seq![g], no_export_options()) =~= lines_text(ls, 0));
}

proof fn lemma_full_lines(vs: Seq<Seq<char>>, i: int)
    requires
        fields_ok(vs),
        0 <= i <= 9,
    ensures
        lines_of(lines_text(full_lines(vs), i)) == full_lines(vs).skip(i),
    decreases 9 - i,
{
    reveal_strlit("game");
    reveal_strlit("file");
    reveal_strlit("developer");
    reveal_strlit("publisher");
    reveal_strlit("genre");
    reveal_strlit("players");
    reveal_strlit("release");
    reveal_strlit("rating");
    let ls = full_lines(vs);
    if i == 9 {
        assert(ls.skip(9) =~= Seq::<Seq<char>>::empty());
    } else {
        lemma_full_lines(vs, i + 1);
        let keys = seq!["game"@, "file"@, "developer"@, "publisher"@, "genre"@, "players"@, "release"@, "rating"@];
        if i < 8 {
            assert(ls[i] == kv_line(keys[i], vs[i]));
            assert(plain_key(keys[i]));
            lemma_kv_line(keys[i], vs[i]);
        }
        lemma_lines_cons(ls[i], lines_text(ls, i + 1));
        assert(ls.skip(i) =~= seq![ls[i]] + ls.skip(i + 1));
    }
}

/// The game that the lines of `full_lines` build before the pending rating.
pub open spec fn built_game(vs: Seq<Seq<char>>) -> GameView {
    apply_game(
        apply_game(
            apply_game(
                apply_game(
                    apply_game(apply_game(new_game_view(vs[0]), "file"@, vs[1]), "developer"@, vs[2]),
                    "publisher"@,
                    vs[3],
                ),
                "genre"@,
                vs[4],
            ),
            "players"@,
            vs[5],
        ),
        "release"@,
        vs[6],
    )
}

proof fn lemma_full_run(st: ParseState, vs: Seq<Seq<char>>)
    requires
        fields_ok(vs),
        st.game is None,
    ensures
        run(st, full_lines(vs)) == (ParseState {
            game: Some(built_game(vs)),
            key: Some("rating"@),
            value: vs[7],
            ..flush_key(st)
        }),
        lower_key("rating"@) == "rating"@,
{
    reveal_strlit("game");
    reveal_strlit("file");
    reveal_strlit("developer");
    reveal_strlit("publisher");
    reveal_strlit("genre");
    reveal_strlit("players");
    reveal_strlit("release");
    reveal_strlit("rating");
    reveal_strlit("collection");
    let ls = full_lines(vs);
    assert(plain_key("game"@) && plain_key("file"@) && plain_key("developer"@) && plain_key("publisher"@));
    assert(plain_key("genre"@) && plain_key("players"@) && plain_key("release"@) && plain_key("rating"@));
    lemma_kv_line("game"@, vs[0]);
    let s0 = st;
    let s1 = parse_line(s0, ls[0]);
    assert(flush_key(s0).game is None);
    assert(s1 == ParseState { game: Some(new_game_view(vs[0])), ..flush_key(s0) });
    lemma_kv_step(s1, "file"@, vs[1]);
    let s2 = parse_line(s1, ls[1]);
    lemma_kv_step(s2, "developer"@, vs[2]);
    let s3 = parse_line(s2, ls[2]);
    lemma_kv_step(s3, "publisher"@, vs[3]);
    let s4 = parse_line(s3, ls[3]);
    lemma_kv_step(s4, "genre"@, vs[4]);
    let s5 = parse_line(s4, ls[4]);
    lemma_kv_step(s5, "players"@, vs[5]);
    let s6 = parse_line(s5, ls[5]);
    lemma_kv_step(s6, "release"@, vs[6]);
    let s7 = parse_line(s6, ls[6]);
    lemma_kv_step(s7, "rating"@, vs[7]);
    let s8 = parse_line(s7, ls[7]);
    let s9 = parse_line(s8, ls[8]);
    assert(s9 == s8);
    assert(run(s9, ls.skip(9)) == s9);
    assert(run(s8, ls.skip(8)) == s9) by {
        assert(ls.skip(8).drop_first() =~= ls.skip(9));
    }
    assert(run(s7, ls.skip(7)) == s9) by {
        assert(ls.skip(7).drop_first() =~= ls.skip(8));
    }
    assert(run(s6, ls.skip(6)) == s9) by {
        assert(ls.skip(6).drop_first() =~= ls.skip(7));
    }
    assert(run(s5, ls.skip(5)) == s9) by {
        assert(ls.skip(5).drop_first() =~= ls.skip(6));
    }
    assert(run(s4, ls.skip(4)) == s9) by {
        assert(ls.skip(4).drop_first() =~= ls.skip(5));
    }
    assert(run(s3, ls.skip(3)) == s9) by {
        assert(ls.skip(3).drop_first() =~= ls.skip(4));
    }
    assert(run(s2, ls.skip(2)) == s9) by {
        assert(ls.skip(2).drop_first() =~= ls.skip(3));
    }
    assert(run(s1, ls.skip(1)) == s9) by {
        assert(ls.skip(1).drop_first() =~= ls.skip(2));
    }
    assert(run(s0, ls) == s9) by {
        assert(ls.drop_first() =~= ls.skip(1));
    }
}

proof fn lemma_full_keys(g0: GameView, vs: Seq<Seq<char>>)
    requires
        fields_ok(vs),
        g0 == new_game_view(vs[0]),
    ensures
        apply_game(
            apply_game(
                apply_game(
                    apply_game(
                        apply_game(
                            apply_game(apply_game(g0, "file"@, vs[1]), "developer"@, vs[2]),
                            "publisher"@,
                            vs[3],
                        ),
                        "genre"@,
                        vs[4],
                    ),
                    "players"@,
                    vs[5],
                ),
                "release"@,
                vs[6],
            ),
            "rating"@,
            vs[7],
        ) == full_game(vs[0], vs[1], vs[2], vs[3], vs[4], vs[5], vs[6], vs[7]),
{
    reveal_strlit("description");
    reveal_strlit("developer");
    reveal_strlit("developers");
    reveal_strlit("file");
    reveal_strlit("files");
    reveal_strlit("genre");
    reveal_strlit("genres");
    reveal_strlit("players");
    reveal_strlit("publisher");
    reveal_strlit("publishers");
    reveal_strlit("rating");
    reveal_strlit("release");
    reveal_strlit("summary");
    assert(game_key("file"@) == GameKey::Text(0)) by {
        assert("file"@.len() == 4);
        assert(game_alias_at(0).0 == "file"@);
        assert(lookup_alias("file"@, 0) == Some(GameKey::Text(0)));
    }
    assert(game_key("developer"@) == GameKey::Text(1)) by {
        assert("developer"@.len() == 9);
        assert(game_alias_at(0).0 == "file"@);
        assert("file"@.len() == 4);
        assert(lookup_alias("developer"@, 0) == lookup_alias("developer"@, 1));
        assert(game_alias_at(1).0 == "files"@);
        assert("files"@.len() == 5);
        assert(lookup_alias("developer"@, 1) == lookup_alias("developer"@, 2));
        assert(game_alias_at(2).0 == "developer"@);
        assert(lookup_alias("developer"@, 2) == Some(GameKey::Text(1)));
    }
    assert(game_key("publisher"@) == GameKey::Text(2)) by {
        assert("publisher"@.len() == 9);
        assert(game_alias_at(0).0 == "file"@);
        assert("file"@.len() == 4);
        assert(lookup_alias("publisher"@, 0) == lookup_alias("publisher"@, 1));
        assert(game_alias_at(1).0 == "files"@);
        assert("files"@.len() == 5);
        assert(lookup_alias("publisher"@, 1) == lookup_alias("publisher"@, 2));
        assert(game_alias_at(2).0 == "developer"@);
        assert("developer"@.len() == 9);
        assert("developer"@[0] == 'd' && "publisher"@[0] == 'p');
        assert(lookup_alias("publisher"@, 2) == lookup_alias("publisher"@, 3));
        assert(game_alias_at(3).0 == "developers"@);
        assert("developers"@.len() == 10);
        assert(lookup_alias("publisher"@, 3) == lookup_alias("publisher"@, 4));
        assert(game_alias_at(4).0 == "publisher"@);
        assert(lookup_alias("publisher"@, 4) == Some(GameKey::Text(2)));
    }
    assert(game_key("genre"@) == GameKey::Text(3)) by {
        assert("genre"@.len() == 5);
        assert(game_alias_at(0).0 == "file"@);
        assert("file"@.len() == 4);
        assert(lookup_alias("genre"@, 0) == lookup_alias("genre"@, 1));
        assert(game_alias_at(1).0 == "files"@);
        assert("files"@.len() == 5);
        assert("files"@[0] == 'f' && "genre"@[0] == 'g');
        assert(lookup_alias("genre"@, 1) == lookup_alias("genre"@, 2));
        assert(game_alias_at(2).0 == "developer"@);
        assert("developer"@.len() == 9);
        assert(lookup_alias("genre"@, 2) == lookup_alias("genre"@, 3));
        assert(game_alias_at(3).0 == "developers"@);
        assert("developers"@.len() == 10);
        assert(lookup_alias("genre"@, 3) == lookup_alias("genre"@, 4));
        assert(game_alias_at(4).0 == "publisher"@);
        assert("publisher"@.len() == 9);
        assert(lookup_alias("genre"@, 4) == lookup_alias("genre"@, 5));
        assert(game_alias_at(5).0 == "publishers"@);
        assert("publishers"@.len() == 10);
        assert(lookup_alias("genre"@, 5) == lookup_alias("genre"@, 6));
        assert(game_alias_at(6).0 == "genre"@);
        assert(lookup_alias("genre"@, 6) == Some(GameKey::Text(3)));
    }
    assert(game_key("players"@) == GameKey::Text(4)) by {
        assert("players"@.len() == 7);
        assert(game_alias_at(0).0 == "file"@);
        assert("file"@.len() == 4);
        assert(lookup_alias("players"@, 0) == lookup_alias("players"@, 1));
        assert(game_alias_at(1).0 == "files"@);
        assert("files"@.len() == 5);
        assert(lookup_alias("players"@, 1) == lookup_alias("players"@, 2));
        assert(game_alias_at(2).0 == "developer"@);
        assert("developer"@.len() == 9);
        assert(lookup_alias("players"@, 2) == lookup_alias("players"@, 3));
        assert(game_alias_at(3).0 == "developers"@);
        assert("developers"@.len() == 10);
        assert(lookup_alias("players"@, 3) == lookup_alias("players"@, 4));
        assert(game_alias_at(4).0 == "publisher"@);
        assert("publisher"@.len() == 9);
        assert(lookup_alias("players"@, 4) == lookup_alias("players"@, 5));
        assert(game_alias_at(5).0 == "publishers"@);
        assert("publishers"@.len() == 10);
        assert(lookup_alias("players"@, 5) == lookup_alias("players"@, 6));
        assert(game_alias_at(6).0 == "genre"@);
        assert("genre"@.len() == 5);
        assert(lookup_alias("players"@, 6) == lookup_alias("players"@, 7));
        assert(game_alias_at(7).0 == "genres"@);
        assert("genres"@.len() == 6);
        assert(lookup_alias("players"@, 7) == lookup_alias("players"@, 8));
        assert(game_alias_at(8).0 == "players"@);
        assert(lookup_alias("players"@, 8) == Some(GameKey::Text(4)));
    }
    assert(game_key("release"@) == GameKey::Text(7)) by {
        assert("release"@.len() == 7);
        assert(game_alias_at(0).0 == "file"@);
        assert("file"@.len() == 4);
        assert(lookup_alias("release"@, 0) == lookup_alias("release"@, 1));
        assert(game_alias_at(1).0 == "files"@);
        assert("files"@.len() == 5);
        assert(lookup_alias("release"@, 1) == lookup_alias("release"@, 2));
        assert(game_alias_at(2).0 == "developer"@);
        assert("developer"@.len() == 9);
        assert(lookup_alias("release"@, 2) == lookup_alias("release"@, 3));
        assert(game_alias_at(3).0 == "developers"@);
        assert("developers"@.len() == 10);
        assert(lookup_alias("release"@, 3) == lookup_alias("release"@, 4));
        assert(game_alias_at(4).0 == "publisher"@);
        assert("publisher"@.len() == 9);
        assert(lookup_alias("release"@, 4) == lookup_alias("release"@, 5));
        assert(game_alias_at(5).0 == "publishers"@);
        assert("publishers"@.len() == 10);
        assert(lookup_alias("release"@, 5) == lookup_alias("release"@, 6));
        assert(game_alias_at(6).0 == "genre"@);
        assert("genre"@.len() == 5);
        assert(lookup_alias("release"@, 6) == lookup_alias("release"@, 7));
        assert(game_alias_at(7).0 == "genres"@);
        assert("genres"@.len() == 6);
        assert(lookup_alias("release"@, 7) == lookup_alias("release"@, 8));
        assert(game_alias_at(8).0 == "players"@);
        assert("players"@.len() == 7);
        assert("players"@[0] == 'p' && "release"@[0] == 'r');
        assert(lookup_alias("release"@, 8) == lookup_alias("release"@, 9));
        assert(game_alias_at(9).0 == "summary"@);
        assert("summary"@.len() == 7);
        assert("summary"@[0] == 's' && "release"@[0] == 'r');
        assert(lookup_alias("release"@, 9) == lookup_alias("release"@, 10));
        assert(game_alias_at(10).0 == "description"@);
        assert("description"@.len() == 11);
        assert(lookup_alias("release"@, 10) == lookup_alias("release"@, 11));
        assert(game_alias_at(11).0 == "release"@);
        assert(lookup_alias("release"@, 11) == Some(GameKey::Text(7)));
    }
    assert(game_key("rating"@) == GameKey::Text(8)) by {
        assert("rating"@.len() == 6);
        assert(game_alias_at(0).0 == "file"@);
        assert("file"@.len() == 4);
        assert(lookup_alias("rating"@, 0) == lookup_alias("rating"@, 1));
        assert(game_alias_at(1).0 == "files"@);
        assert("files"@.len() == 5);
        assert(lookup_alias("rating"@, 1) == lookup_alias("rating"@, 2));
        assert(game_alias_at(2).0 == "developer"@);
        assert("developer"@.len() == 9);
        assert(lookup_alias("rating"@, 2) == lookup_alias("rating"@, 3));
        assert(game_alias_at(3).0 == "developers"@);
        assert("developers"@.len() == 10);
        assert(lookup_alias("rating"@, 3) == lookup_alias("rating"@, 4));
        assert(game_alias_at(4).0 == "publisher"@);
        assert("publisher"@.len() == 9);
        assert(lookup_alias("rating"@, 4) == lookup_alias("rating"@, 5));
        assert(game_alias_at(5).0 == "publishers"@);
        assert("publishers"@.len() == 10);
        assert(lookup_alias("rating"@, 5) == lookup_alias("rating"@, 6));
        assert(game_alias_at(6).0 == "genre"@);
        assert("genre"@.len() == 5);
        assert(lookup_alias("rating"@, 6) == lookup_alias("rating"@, 7));
        assert(game_alias_at(7).0 == "genres"@);
        assert("genres"@.len() == 6);
        assert("genres"@[0] == 'g' && "rating"@[0] == 'r');
        assert(lookup_alias("rating"@, 7) == lookup_alias("rating"@, 8));
        assert(game_alias_at(8).0 == "players"@);
        assert("players"@.len() == 7);
        assert(lookup_alias("rating"@, 8) == lookup_alias("rating"@, 9));
        assert(game_alias_at(9).0 == "summary"@);
        assert("summary"@.len() == 7);
        assert(lookup_alias("rating"@, 9) == lookup_alias("rating"@, 10));
        assert(game_alias_at(10).0 == "description"@);
        assert("description"@.len() == 11);
        assert(lookup_alias("rating"@, 10) == lookup_alias("rating"@, 11));
        assert(game_alias_at(11).0 == "release"@);
        assert("release"@.len() == 7);
        assert(lookup_alias("rating"@, 11) == lookup_alias("rating"@, 12));
        assert(game_alias_at(12).0 == "rating"@);
        assert(lookup_alias("rating"@, 12) == Some(GameKey::Text(8)));
    }
}

/// A game record with a name, a file, a developer, a publisher, a genre, a
/// player count, a release and a rating (`vs`, in this order), each on one line
/// without white space around it, reads back as written.
pub proof fn lemma_round_trip_text_fields(vs: Seq<Seq<char>>)
    requires
        fields_ok(vs),
    ensures
        ({
            let g = full_game(vs[0], vs[1], vs[2], vs[3], vs[4], vs[5], vs[6], vs[7]);
            parsed(exported(seq![g], no_export_options())) == (Seq::<CollectionView>::empty(), seq![g])
        }),
{
    lemma_full_text(vs);
    lemma_full_lines(vs, 0);
    assert(full_lines(vs).skip(0) =~= full_lines(vs));
    lemma_full_run(initial_state(), vs);
    lemma_full_keys(new_game_view(vs[0]), vs);
}

proof fn lemma_run_append(st: ParseState, a: Seq<Seq<char>>, b: Seq<Seq<char>>)
    ensures
        run(st, a + b) == run(run(st, a), b),
    decreases a.len(),
{
    if a.len() == 0 {
        assert(a + b =~= b);
    } else {
        assert((a + b).drop_first() =~= a.drop_first() + b);
        assert((a + b)[0] == a[0]);
        lemma_run_append(parse_line(st, a[0]), a.drop_first(), b);
    }
}

/// A word: not empty, no white space.
pub open spec fn plain_word(w: Seq<char>) -> bool {
    w.len() > 0 && forall|i: int| 0 <= i < w.len() ==> !crate::text::is_space(#[trigger] w[i])
}

/// A non-empty list of words.
pub open spec fn plain_words(ws: Seq<Seq<char>>) -> bool {
    ws.len() > 0 && forall|i: int| 0 <= i < ws.len() ==> plain_word(#[trigger] ws[i])
}

proof fn lemma_words_word(s: Seq<char>, t: Seq<char>, cur: Seq<char>, acc: Seq<Seq<char>>)
    requires
        forall|i: int| 0 <= i < s.len() ==> !crate::text::is_space(#[trigger] s[i]),
    ensures
        crate::text::words_acc(s + t, cur, acc) == crate::text::words_acc(t, cur + s, acc),
    decreases s.len(),
{
    if s.len() == 0 {
        assert(s + t =~= t);
        assert(cur + s =~= cur);
    } else {
        assert((s + t).drop_first() =~= s.drop_first() + t);
        assert((s + t)[0] == s[0]);
        lemma_words_word(s.drop_first(), t, cur.push(s[0]), acc);
        assert(cur.push(s[0]) + s.drop_first() =~= cur + s);
    }
}

proof fn lemma_words_join(ws: Seq<Seq<char>>, t: Seq<char>, acc: Seq<Seq<char>>)
    requires
        plain_words(ws),
    ensures
        crate::text::words_acc(join_words(ws) + t, Seq::empty(), acc) == crate::text::words_acc(
            t,
            ws.last(),
            acc + ws.drop_last(),
        ),
    decreases ws.len(),
{
    let e = Seq::<char>::empty();
    if ws.len() == 1 {
        assert(plain_word(ws[0]));
        lemma_words_word(ws[0], t, e, acc);
        assert(e + ws[0] =~= ws[0]);
        assert(acc + ws.drop_last() =~= acc);
    } else {
        let p = ws.drop_last();
        let w = ws.last();
        assert(plain_word(w));
        assert forall|i: int| 0 <= i < p.len() implies plain_word(#[trigger] p[i]) by {
            assert(p[i] == ws[i]);
        }
        let t2 = seq![' '] + (w + t);
        assert(join_words(ws) + t =~= join_words(p) + t2);
        lemma_words_join(p, t2, acc);
        assert(plain_word(p.last()));
        let a2 = acc + p.drop_last();
        assert(t2[0] == ' ');
        assert(t2.drop_first() =~= w + t);
        assert(crate::text::words_acc(t2, p.last(), a2) == crate::text::words_acc(w + t, e, a2.push(p.last())));
        lemma_words_word(w, t, e, a2.push(p.last()));
        assert(e + w =~= w);
        assert(a2.push(p.last()) =~= acc + ws.drop_last());
    }
}

/// Splitting joined words gives the words back.
proof fn lemma_words_of_join(ws: Seq<Seq<char>>)
    requires
        plain_words(ws),
    ensures
        crate::text::words(join_words(ws)) == ws,
{
    let e = Seq::<char>::empty();
    lemma_words_join(ws, e, Seq::empty());
    assert(join_words(ws) + e =~= join_words(ws));
    assert(plain_word(ws.last()));
    assert(Seq::<Seq<char>>::empty() + ws.drop_last() =~= ws.drop_last());
    assert(ws.drop_last().push(ws.last()) =~= ws);
}

/// Joined words fit on one line, without white space around them.
proof fn lemma_join_shape(ws: Seq<Seq<char>>)
    requires
        plain_words(ws),
    ensures
        one_line_value(join_words(ws)),
        forall|i: int|
            0 <= i < join_words(ws).len() ==> #[trigger] join_words(ws)[i] == ' ' || !crate::text::is_space(
                join_words(ws)[i],
            ),
    decreases ws.len(),
{
    let j = join_words(ws);
    if ws.len() == 1 {
        assert(plain_word(ws[0]));
    } else {
        let p = ws.drop_last();
        let w = ws.last();
        assert(plain_word(w));
        assert forall|i: int| 0 <= i < p.len() implies plain_word(#[trigger] p[i]) by {
            assert(p[i] == ws[i]);
        }
        lemma_join_shape(p);
        let jp = join_words(p);
        assert(j == jp + seq![' '] + w);
        assert forall|i: int| 0 <= i < j.len() implies #[trigger] j[i] == ' ' || !crate::text::is_space(j[i]) by {
            if i < jp.len() {
                assert(j[i] == jp[i]);
            } else if i > jp.len() {
                assert(j[i] == w[i - jp.len() - 1]);
            }
        }
        assert(j[0] == jp[0]);
        assert(j.last() == w.last());
    }
    assert forall|i: int| 0 <= i < j.len() implies #[trigger] j[i] != '\n' by {
        assert(j[i] == ' ' || !crate::text::is_space(j[i]));
    }
}

/// The header lines of a collection with a name, extensions, a launch command
/// and a working directory (`cs` holds the name, launch command and working
/// directory; `exts` the extensions).
pub open spec fn header_lines(cs: Seq<Seq<char>>, exts: Seq<Seq<char>>) -> Seq<Seq<char>> {
    seq![
        kv_line("collection"@, cs[0]),
        kv_line("extensions"@, join_words(exts)),
        kv_line("launch"@, cs[1]),
        kv_line("workdir"@, cs[2]),
        Seq::empty(),
    ]
}

/// The collection record that such a header gives.
pub open spec fn header_collection(cs: Seq<Seq<char>>, exts: Seq<Seq<char>>) -> CollectionView {
    CollectionView {
        extensions: exts,
        launch_command: Some(cs[1]),
        workdir: Some(cs[2]),
        ..new_collection_view(cs[0])
    }
}

pub open spec fn header_ok(cs: Seq<Seq<char>>, exts: Seq<Seq<char>>) -> bool {
    &&& cs.len() == 3
    &&& forall|i: int| 0 <= i < 3 ==> one_line_value(#[trigger] cs[i])
    &&& plain_words(exts)
}

/// Options that write the header of `cs` and `exts`, and no asset paths.
pub open spec fn header_options(o: PegasusExportOptions, cs: Seq<Seq<char>>, exts: Seq<Seq<char>>) -> bool {
    &&& o.include_collection
    &&& !o.include_assets
    &&& opt_str(o.collection_name) == Some(cs[0])
    &&& o.extensions matches Some(e) && strs(e@) == exts
    &&& opt_str(o.launch_command) == Some(cs[1])
    &&& opt_str(o.workdir) == Some(cs[2])
}

proof fn lemma_header_text(o: PegasusExportOptions, cs: Seq<Seq<char>>, exts: Seq<Seq<char>>, vs: Seq<Seq<char>>)
    requires
        header_ok(cs, exts),
        header_options(o, cs, exts),
        fields_ok(vs),
    ensures
        exported(seq![full_game(vs[0], vs[1], vs[2], vs[3], vs[4], vs[5], vs[6], vs[7])], o) == lines_text(
            header_lines(cs, exts),
            0,
        ) + lines_text(full_lines(vs), 0),
{
    let hl = header_lines(cs, exts);
    let e = Seq::<char>::empty();
    let nl = "\n"@;
    lemma_full_text(vs);
    let g = full_game(vs[0], vs[1], vs[2], vs[3], vs[4], vs[5], vs[6], vs[7]);
    assert(exported(seq![g], no_export_options()) == header_text(no_export_options()) + games_text(seq![g], false));
    assert(header_text(no_export_options()) =~= e);
    assert(games_text(seq![g], false) =~= lines_text(full_lines(vs), 0));
    assert(extensions_piece(o) == hl[1] + nl);
    assert(lines_text(hl, 5) == e);
    assert(lines_text(hl, 4) == hl[4] + nl + lines_text(hl, 5));
    assert(lines_text(hl, 3) == hl[3] + nl + lines_text(hl, 4));
    assert(lines_text(hl, 2) == hl[2] + nl + lines_text(hl, 3));
    assert(lines_text(hl, 1) == hl[1] + nl + lines_text(hl, 2));
    assert(lines_text(hl, 0) == hl[0] + nl + lines_text(hl, 1));
    assert(header_text(o) =~= lines_text(hl, 0));
}

proof fn lemma_header_lines(cs: Seq<Seq<char>>, exts: Seq<Seq<char>>, rest: Seq<char>, i: int)
    requires
        header_ok(cs, exts),
        0 <= i <= 5,
    ensures
        lines_of(lines_text(header_lines(cs, exts), i) + rest) == header_lines(cs, exts).skip(i) + lines_of(rest),
    decreases 5 - i,
{
    reveal_strlit("collection");
    reveal_strlit("extensions");
    reveal_strlit("launch");
    reveal_strlit("workdir");
    let hl = header_lines(cs, exts);
    if i == 5 {
        assert(hl.skip(5) =~= Seq::<Seq<char>>::empty());
        assert(lines_text(hl, 5) + rest =~= rest);
    } else {
        lemma_header_lines(cs, exts, rest, i + 1);
        lemma_join_shape(exts);
        let keys = seq!["collection"@, "extensions"@, "launch"@, "workdir"@];
        let vals = seq![cs[0], join_words(exts), cs[1], cs[2]];
        if i < 4 {
            assert(hl[i] == kv_line(keys[i], vals[i]));
            assert(plain_key(keys[i]));
            assert(one_line_value(vals[i]));
            lemma_kv_line(keys[i], vals[i]);
        }
        assert(lines_text(hl, i) + rest =~= hl[i] + "\n"@ + (lines_text(hl, i + 1) + rest));
        lemma_lines_cons(hl[i], lines_text(hl, i + 1) + rest);
        assert(hl.skip(i) =~= seq![hl[i]] + hl.skip(i + 1));
    }
}

/// The parser state after the header lines: the collection open with its
/// extensions and launch command, the working directory pending.
pub open spec fn header_state(cs: Seq<Seq<char>>, exts: Seq<Seq<char>>) -> ParseState {
    ParseState {
        collection: Some(
            CollectionView { extensions: exts, launch_command: Some(cs[1]), ..new_collection_view(cs[0]) },
        ),
        key: Some("workdir"@),
        value: cs[2],
        ..initial_state()
    }
}

proof fn lemma_collection_keys()
    ensures
        collection_key("extensions"@) == CollectionKey::Extensions,
        collection_key("launch"@) == CollectionKey::Launch,
        collection_key("workdir"@) == CollectionKey::Workdir,
{
    reveal_strlit("launch");
    reveal_strlit("workdir");
    reveal_strlit("shortname");
    reveal_strlit("short_name");
    reveal_strlit("extension");
    reveal_strlit("extensions");
    reveal_strlit("files");
    reveal_strlit("ignore-file");
    reveal_strlit("ignore-files");
    reveal_strlit("command");
    assert("launch"@.len() == 6 && "workdir"@.len() == 7);
    assert("shortname"@.len() == 9 && "short_name"@.len() == 10 && "extension"@.len() == 9);
    assert("extensions"@.len() == 10 && "files"@.len() == 5 && "ignore-file"@.len() == 11);
    assert("ignore-files"@.len() == 12 && "command"@.len() == 7);
    assert("command"@[0] == 'c' && "workdir"@[0] == 'w');
    assert("extensions"@[1] == 'x' && "short_name"@[1] == 'h');
}

proof fn lemma_header_run(cs: Seq<Seq<char>>, exts: Seq<Seq<char>>)
    requires
        header_ok(cs, exts),
    ensures
        run(initial_state(), header_lines(cs, exts)) == header_state(cs, exts),
        lower_key("workdir"@) == "workdir"@,
{
    reveal_strlit("collection");
    reveal_strlit("extensions");
    reveal_strlit("game");
    reveal_strlit("launch");
    reveal_strlit("workdir");
    let hl = header_lines(cs, exts);
    assert(plain_key("collection"@) && plain_key("extensions"@) && plain_key("launch"@) && plain_key("workdir"@));
    lemma_join_shape(exts);
    lemma_words_of_join(exts);
    lemma_kv_line("collection"@, cs[0]);
    lemma_collection_keys();
    let c0 = initial_state();
    let c1 = parse_line(c0, hl[0]);
    assert(c1 == ParseState { collection: Some(new_collection_view(cs[0])), ..c0 });
    assert("extensions"@.len() == 10 && "launch"@.len() == 6 && "workdir"@.len() == 7);
    assert("collection"@.len() == 10 && "game"@.len() == 4 && "extensions"@[0] == 'e' && "collection"@[0] == 'c');
    lemma_kv_step(c1, "extensions"@, join_words(exts));
    let c2 = parse_line(c1, hl[1]);
    lemma_kv_step(c2, "launch"@, cs[1]);
    let c3 = parse_line(c2, hl[2]);
    lemma_kv_step(c3, "workdir"@, cs[2]);
    let c4 = parse_line(c3, hl[3]);
    assert(c4 == header_state(cs, exts));
    let c5 = parse_line(c4, hl[4]);
    assert(c5 == c4);
    assert(run(c5, hl.skip(5)) == c5) by {
        assert(hl.skip(5) =~= Seq::<Seq<char>>::empty());
    }
    assert(run(c4, hl.skip(4)) == c5) by {
        assert(hl.skip(4).drop_first() =~= hl.skip(5));
    }
    assert(run(c3, hl.skip(3)) == c5) by {
        assert(hl.skip(3).drop_first() =~= hl.skip(4));
    }
    assert(run(c2, hl.skip(2)) == c5) by {
        assert(hl.skip(2).drop_first() =~= hl.skip(3));
    }
    assert(run(c1, hl.skip(1)) == c5) by {
        assert(hl.skip(1).drop_first() =~= hl.skip(2));
    }
    assert(run(c0, hl) == c5) by {
        assert(hl.drop_first() =~= hl.skip(1));
    }
}

/// A collection header (name, extensions, launch command, working directory)
/// followed by one game record with the text fields of
/// `lemma_round_trip_text_fields`, each value on one line without white space
/// around it and each extension a word, reads back as written.
pub proof fn lemma_round_trip_collection_and_game(
    o: PegasusExportOptions,
    cs: Seq<Seq<char>>,
    exts: Seq<Seq<char>>,
    vs: Seq<Seq<char>>,
)
    requires
        header_ok(cs, exts),
        header_options(o, cs, exts),
        fields_ok(vs),
    ensures
        ({
            let g = full_game(vs[0], vs[1], vs[2], vs[3], vs[4], vs[5], vs[6], vs[7]);
            parsed(exported(seq![g], o)) == (seq![header_collection(cs, exts)], seq![g])
        }),
{
    let hl = header_lines(cs, exts);
    let gl = full_lines(vs);
    let g = full_game(vs[0], vs[1], vs[2], vs[3], vs[4], vs[5], vs[6], vs[7]);
    lemma_header_text(o, cs, exts, vs);
    lemma_full_lines(vs, 0);
    assert(gl.skip(0) =~= gl);
    lemma_header_lines(cs, exts, lines_text(gl, 0), 0);
    assert(hl.skip(0) =~= hl);
    lemma_header_run(cs, exts);
    lemma_collection_keys();
    lemma_run_append(initial_state(), hl, gl);
    lemma_full_run(header_state(cs, exts), vs);
    lemma_full_keys(new_game_view(vs[0]), vs);
    let fin = run(initial_state(), hl + gl);
    assert(fin.collection == Some(header_collection(cs, exts)));
    assert(fin.collections =~= Seq::<CollectionView>::empty());
    assert(fin.games =~= Seq::<GameView>::empty());
}

proof fn lemma_header_only_text(o: PegasusExportOptions, cs: Seq<Seq<char>>, exts: Seq<Seq<char>>)
    requires
        header_ok(cs, exts),
        header_options(o, cs, exts),
    ensures
        exported(Seq::<GameView>::empty(), o) == lines_text(header_lines(cs, exts), 0) + Seq::<char>::empty(),
{
    let hl = header_lines(cs, exts);
    let e = Seq::<char>::empty();
    let nl = "\n"@;
    assert(extensions_piece(o) == hl[1] + nl);
    assert(lines_text(hl, 5) == e);
    assert(lines_text(hl, 4) == hl[4] + nl + lines_text(hl, 5));
    assert(lines_text(hl, 3) == hl[3] + nl + lines_text(hl, 4));
    assert(lines_text(hl, 2) == hl[2] + nl + lines_text(hl, 3));
    assert(lines_text(hl, 1) == hl[1] + nl + lines_text(hl, 2));
    assert(lines_text(hl, 0) == hl[0] + nl + lines_text(hl, 1));
    assert(header_text(o) =~= lines_text(hl, 0));
    assert(games_text(Seq::<GameView>::empty(), false) == e);
    assert(exported(Seq::<GameView>::empty(), o) =~= lines_text(hl, 0) + e);
}

/// A collection header alone (name, extensions, launch command, working
/// directory; each value on one line without white space around it, each
/// extension a word) reads back as that one collection and no game.
pub proof fn lemma_round_trip_collection(o: PegasusExportOptions, cs: Seq<Seq<char>>, exts: Seq<Seq<char>>)
    requires
        header_ok(cs, exts),
        header_options(o, cs, exts),
    ensures
        parsed(exported(Seq::<GameView>::empty(), o)) == (seq![header_collection(cs, exts)], Seq::<GameView>::empty()),
{
    let hl = header_lines(cs, exts);
    let e = Seq::<char>::empty();
    lemma_header_only_text(o, cs, exts);
    lemma_header_lines(cs, exts, e, 0);
    assert(hl.skip(0) =~= hl);
    assert(lines_of(e) =~= Seq::<Seq<char>>::empty());
    assert(hl + Seq::<Seq<char>>::empty() =~= hl);
    lemma_header_run(cs, exts);
    lemma_collection_keys();
    let fin = header_state(cs, exts);
    assert(flush_key(fin).collection == Some(header_collection(cs, exts)));
}

} // verus!
