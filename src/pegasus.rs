//! Records of the Pegasus metadata text format, and their views.

use vstd::prelude::*;
use crate::types::{opt_str, strs, GameMetadata};

verus! {

/// A `collection:` record: shared defaults for the games of a directory.
#[derive(Debug, Clone)]
pub struct PegasusCollection {
    pub name: String,
    pub short_name: Option<String>,
    pub extensions: Vec<String>,
    pub files: Vec<String>,
    pub ignore_files: Vec<String>,
    pub launch_command: Option<String>,
    pub workdir: Option<String>,
}

/// A `game:` record with its text fields, media asset paths and `x-` extension fields.
#[derive(Debug, Clone)]
pub struct PegasusGame {
    pub name: String,
    pub file: Option<String>,
    pub files: Vec<String>,
    pub developer: Option<String>,
    pub publisher: Option<String>,
    pub genre: Option<String>,
    pub players: Option<String>,
    pub summary: Option<String>,
    pub description: Option<String>,
    pub release: Option<String>,
    pub rating: Option<String>,
    pub sort_title: Option<String>,
    pub box_front: Option<String>,
    pub box_back: Option<String>,
    pub box_spine: Option<String>,
    pub box_full: Option<String>,
    pub cartridge: Option<String>,
    pub logo: Option<String>,
    pub marquee: Option<String>,
    pub bezel: Option<String>,
    pub gridicon: Option<String>,
    pub flyer: Option<String>,
    pub background: Option<String>,
    pub music: Option<String>,
    pub screenshot: Option<String>,
    pub titlescreen: Option<String>,
    pub video: Option<String>,
    /// Extension fields: keys are unique.
    pub extra: Vec<(String, String)>,
}

/// The collections and games of one metadata file, in file order.
#[derive(Debug, Clone)]
pub struct PegasusMetadata {
    pub collections: Vec<PegasusCollection>,
    pub games: Vec<PegasusGame>,
}

/// The number of text fields of a game: file, developer, publisher, genre,
/// players, summary, description, release, rating and sort title, in this order.
pub const TEXT_FIELDS: usize = 10;

/// The number of media asset fields of a game: box front, box back, box spine,
/// box full, cartridge, logo, marquee, bezel, grid icon, flyer, background,
/// music, screenshot, title screen and video, in this order.
pub const ASSET_FIELDS: usize = 15;

/// The content of a game record.
pub struct GameView {
    pub name: Seq<char>,
    pub texts: Seq<Option<Seq<char>>>,
    pub files: Seq<Seq<char>>,
    pub assets: Seq<Option<Seq<char>>>,
    pub extra: Seq<(Seq<char>, Seq<char>)>,
}

/// The content of a collection record.
pub struct CollectionView {
    pub name: Seq<char>,
    pub short_name: Option<Seq<char>>,
    pub extensions: Seq<Seq<char>>,
    pub files: Seq<Seq<char>>,
    pub ignore_files: Seq<Seq<char>>,
    pub launch_command: Option<Seq<char>>,
    pub workdir: Option<Seq<char>>,
}

pub open spec fn pairs(v: Seq<(String, String)>) -> Seq<(Seq<char>, Seq<char>)> {
    v.map_values(|p: (String, String)| (p.0@, p.1@))
}

impl View for PegasusGame {
    type V = GameView;

    open spec fn view(&self) -> GameView {
        GameView {
            name: self.name@,
            texts: seq![
                opt_str(self.file),
                opt_str(self.developer),
                opt_str(self.publisher),
                opt_str(self.genre),
                opt_str(self.players),
                opt_str(self.summary),
                opt_str(self.description),
                opt_str(self.release),
                opt_str(self.rating),
                opt_str(self.sort_title),
            ],
            files: strs(self.files@),
            assets: seq![
                opt_str(self.box_front),
                opt_str(self.box_back),
                opt_str(self.box_spine),
                opt_str(self.box_full),
                opt_str(self.cartridge),
                opt_str(self.logo),
                opt_str(self.marquee),
                opt_str(self.bezel),
                opt_str(self.gridicon),
                opt_str(self.flyer),
                opt_str(self.background),
                opt_str(self.music),
                opt_str(self.screenshot),
                opt_str(self.titlescreen),
                opt_str(self.video),
            ],
            extra: pairs(self.extra@),
        }
    }
}

impl View for PegasusCollection {
    type V = CollectionView;

    open spec fn view(&self) -> CollectionView {
        CollectionView {
            name: self.name@,
            short_name: opt_str(self.short_name),
            extensions: strs(self.extensions@),
            files: strs(self.files@),
            ignore_files: strs(self.ignore_files@),
            launch_command: opt_str(self.launch_command),
            workdir: opt_str(self.workdir),
        }
    }
}

pub open spec fn games_view(v: Seq<PegasusGame>) -> Seq<GameView> {
    v.map_values(|g: PegasusGame| g@)
}

pub open spec fn collections_view(v: Seq<PegasusCollection>) -> Seq<CollectionView> {
    v.map_values(|c: PegasusCollection| c@)
}

/// A game record with only a name.
pub open spec fn new_game_view(name: Seq<char>) -> GameView {
    GameView {
        name,
        texts: Seq::new(TEXT_FIELDS as nat, |i: int| None),
        files: Seq::empty(),
        assets: Seq::new(ASSET_FIELDS as nat, |i: int| None),
        extra: Seq::empty(),
    }
}

/// A collection record with only a name.
pub open spec fn new_collection_view(name: Seq<char>) -> CollectionView {
    CollectionView {
        name,
        short_name: None,
        extensions: Seq::empty(),
        files: Seq::empty(),
        ignore_files: Seq::empty(),
        launch_command: None,
        workdir: None,
    }
}

/// The extension fields `extra` with `k` set to `v`: replaced in place where
/// the key is present, else added at the end.
pub open spec fn set_extra(extra: Seq<(Seq<char>, Seq<char>)>, k: Seq<char>, v: Seq<char>) -> Seq<(Seq<char>, Seq<char>)> {
    if exists|i: int| 0 <= i < extra.len() && extra[i].0 == k {
        let i = choose|i: int| 0 <= i < extra.len() && extra[i].0 == k;
        extra.update(i, (k, v))
    } else {
        extra.push((k, v))
    }
}

/// Whether no two extension fields share a key.
pub open spec fn unique_keys(extra: Seq<(Seq<char>, Seq<char>)>) -> bool {
    forall|i: int, j: int| 0 <= i < j < extra.len() ==> extra[i].0 != extra[j].0
}

/// The position of the extension field with key `k`.
fn find_key(extra: &Vec<(String, String)>, k: &String) -> (r: Option<usize>)
    ensures
        match r {
            Some(i) => i < extra.len() && pairs(extra@)[i as int].0 == k@,
            None => forall|q: int| 0 <= q < extra.len() ==> pairs(extra@)[q].0 != k@,
        },
{
    let mut i: usize = 0;
    while i < extra.len()
        invariant
            i <= extra.len(),
            forall|q: int| 0 <= q < i ==> pairs(extra@)[q].0 != k@,
        decreases extra.len() - i,
    {
        if extra[i].0 == *k {
            return Some(i);
        }
        i = i + 1;
    }
    None
}

/// The value of the first extension field from position `i` on with key `k`.
pub open spec fn extra_value_from(extra: Seq<(Seq<char>, Seq<char>)>, k: Seq<char>, i: int) -> Option<Seq<char>>
    decreases extra.len() - i,
{
    if i < 0 || i >= extra.len() {
        None
    } else if extra[i].0 == k {
        Some(extra[i].1)
    } else {
        extra_value_from(extra, k, i + 1)
    }
}

/// The value of the extension field `k`, if present.
pub open spec fn extra_value(extra: Seq<(Seq<char>, Seq<char>)>, k: Seq<char>) -> Option<Seq<char>> {
    extra_value_from(extra, k, 0)
}

/// The value of the extension field `k`, if present.
fn extra_lookup(extra: &Vec<(String, String)>, k: &str) -> (r: Option<String>)
    ensures
        opt_str(r) == extra_value(pairs(extra@), k@),
{
    let mut i: usize = 0;
    while i < extra.len()
        invariant
            i <= extra.len(),
            extra_value(pairs(extra@), k@) == extra_value_from(pairs(extra@), k@, i as int),
        decreases extra.len() - i,
    {
        if crate::text::chars_eq_str(&crate::text::chars_of(extra[i].0.as_str()), k) {
            return Some(extra[i].1.clone());
        }
        i = i + 1;
    }
    None
}

/// A copy of an optional string.
pub fn clone_opt(o: &Option<String>) -> (r: Option<String>)
    ensures
        r == *o,
{
    match o {
        Some(s) => Some(s.clone()),
        None => None,
    }
}

/// A copy of a list of strings.
pub fn clone_strings(v: &Vec<String>) -> (r: Vec<String>)
    ensures
        r@ == v@,
{
    let mut r: Vec<String> = Vec::new();
    for i in 0..v.len()
        invariant
            r.len() == i,
            forall|q: int| 0 <= q < i ==> #[trigger] r@[q] == v@[q],
    {
        r.push(v[i].clone());
    }
    proof {
        assert(r@ =~= v@);
    }
    r
}

/// Sets `k` to `v` in a list of pairs with unique keys: in place where the key
/// is present, else at the end.
pub fn set_pair(table: &mut Vec<(String, String)>, k: String, v: String)
    requires
        unique_keys(pairs(old(table)@)),
    ensures
        unique_keys(pairs(final(table)@)),
        pairs(final(table)@) == set_extra(pairs(old(table)@), k@, v@),
{
    let ghost before = pairs(table@);
    let ghost ks = k@;
    let ghost vs = v@;
    match find_key(table, &k) {
        Some(i) => {
            table.set(i, (k, v));
            proof {
                assert(pairs(table@) =~= before.update(i as int, (ks, vs)));
                let w = choose|w: int| 0 <= w < before.len() && before[w].0 == ks;
                assert(w == i);
            }
        },
        None => {
            table.push((k, v));
            proof {
                assert(pairs(table@) =~= before.push((ks, vs)));
            }
        },
    }
}

impl PegasusGame {
    /// A game record with only a name.
    pub fn named(name: String) -> (r: Self)
        ensures
            r@ == new_game_view(name@),
    {
        let r = PegasusGame {
            name,
            file: None,
            files: Vec::new(),
            developer: None,
            publisher: None,
            genre: None,
            players: None,
            summary: None,
            description: None,
            release: None,
            rating: None,
            sort_title: None,
            box_front: None,
            box_back: None,
            box_spine: None,
            box_full: None,
            cartridge: None,
            logo: None,
            marquee: None,
            bezel: None,
            gridicon: None,
            flyer: None,
            background: None,
            music: None,
            screenshot: None,
            titlescreen: None,
            video: None,
            extra: Vec::new(),
        };
        proof {
            assert(r@.texts =~= new_game_view(r.name@).texts);
            assert(r@.assets =~= new_game_view(r.name@).assets);
            assert(r@.files =~= Seq::<Seq<char>>::empty());
            assert(r@.extra =~= Seq::<(Seq<char>, Seq<char>)>::empty());
        }
        r
    }

    /// A copy of the record.
    pub fn clone_game(&self) -> (r: Self)
        ensures
            r@ == self@,
    {
        let mut extra: Vec<(String, String)> = Vec::new();
        for i in 0..self.extra.len()
            invariant
                extra.len() == i,
                forall|q: int| 0 <= q < i ==> #[trigger] extra@[q] == self.extra@[q],
        {
            extra.push((self.extra[i].0.clone(), self.extra[i].1.clone()));
        }
        let files = clone_strings(&self.files);
        let r = PegasusGame {
            name: self.name.clone(),
            file: clone_opt(&self.file),
            files,
            developer: clone_opt(&self.developer),
            publisher: clone_opt(&self.publisher),
            genre: clone_opt(&self.genre),
            players: clone_opt(&self.players),
            summary: clone_opt(&self.summary),
            description: clone_opt(&self.description),
            release: clone_opt(&self.release),
            rating: clone_opt(&self.rating),
            sort_title: clone_opt(&self.sort_title),
            box_front: clone_opt(&self.box_front),
            box_back: clone_opt(&self.box_back),
            box_spine: clone_opt(&self.box_spine),
            box_full: clone_opt(&self.box_full),
            cartridge: clone_opt(&self.cartridge),
            logo: clone_opt(&self.logo),
            marquee: clone_opt(&self.marquee),
            bezel: clone_opt(&self.bezel),
            gridicon: clone_opt(&self.gridicon),
            flyer: clone_opt(&self.flyer),
            background: clone_opt(&self.background),
            music: clone_opt(&self.music),
            screenshot: clone_opt(&self.screenshot),
            titlescreen: clone_opt(&self.titlescreen),
            video: clone_opt(&self.video),
            extra,
        };
        proof {
            assert(pairs(r.extra@) =~= pairs(self.extra@));
            assert(r@.texts =~= self@.texts);
            assert(r@.assets =~= self@.assets);
        }
        r
    }

    /// The metadata that the record carries, with `rating` (in millionths)
    /// as read from its rating text: the English name comes from the
    /// `x-mrrm-eng` field, else from `x-english-name`; the genre is the only genre.
    pub fn to_metadata(&self, rating: Option<u32>) -> (r: GameMetadata)
        ensures
            r.name == self.name,
            opt_str(r.english_name) == match extra_value(self@.extra, "x-mrrm-eng"@) {
                Some(v) => Some(v),
                None => extra_value(self@.extra, "x-english-name"@),
            },
            r.description == self.description,
            r.release_date == self.release,
            r.developer == self.developer,
            r.publisher == self.publisher,
            r.genres@ == match self.genre {
                Some(g) => seq![g],
                None => Seq::<String>::empty(),
            },
            r.players == self.players,
            r.rating == rating,
    {
        let english_name = match extra_lookup(&self.extra, "x-mrrm-eng") {
            Some(v) => Some(v),
            None => extra_lookup(&self.extra, "x-english-name"),
        };
        let mut genres: Vec<String> = Vec::new();
        match &self.genre {
            Some(g) => genres.push(g.clone()),
            None => {},
        }
        proof {
            if self.genre is Some {
                assert(genres@ =~= seq![self.genre.unwrap()]);
            } else {
                assert(genres@ =~= Seq::<String>::empty());
            }
        }
        GameMetadata {
            name: self.name.clone(),
            english_name,
            description: clone_opt(&self.description),
            release_date: clone_opt(&self.release),
            developer: clone_opt(&self.developer),
            publisher: clone_opt(&self.publisher),
            genres,
            players: clone_opt(&self.players),
            rating,
        }
    }

    /// Sets text field `i` (see `TEXT_FIELDS`).
    pub fn set_text(&mut self, i: usize, v: Option<String>)
        requires
            i < TEXT_FIELDS,
        ensures
            final(self)@ == (GameView { texts: old(self)@.texts.update(i as int, opt_str(v)), ..old(self)@ }),
    {
        match i {
            0 => self.file = v,
            1 => self.developer = v,
            2 => self.publisher = v,
            3 => self.genre = v,
            4 => self.players = v,
            5 => self.summary = v,
            6 => self.description = v,
            7 => self.release = v,
            8 => self.rating = v,
            _ => self.sort_title = v,
        }
        proof {
            assert(self@.texts =~= old(self)@.texts.update(i as int, opt_str(v)));
            assert(self@.assets =~= old(self)@.assets);
        }
    }

    /// Text field `i` (see `TEXT_FIELDS`).
    pub fn text(&self, i: usize) -> (r: &Option<String>)
        requires
            i < TEXT_FIELDS,
        ensures
            opt_str(*r) == self@.texts[i as int],
    {
        match i {
            0 => &self.file,
            1 => &self.developer,
            2 => &self.publisher,
            3 => &self.genre,
            4 => &self.players,
            5 => &self.summary,
            6 => &self.description,
            7 => &self.release,
            8 => &self.rating,
            _ => &self.sort_title,
        }
    }

    /// Sets media asset field `i` (see `ASSET_FIELDS`).
    pub fn set_asset(&mut self, i: usize, v: Option<String>)
        requires
            i < ASSET_FIELDS,
        ensures
            final(self)@ == (GameView { assets: old(self)@.assets.update(i as int, opt_str(v)), ..old(self)@ }),
    {
        match i {
            0 => self.box_front = v,
            1 => self.box_back = v,
            2 => self.box_spine = v,
            3 => self.box_full = v,
            4 => self.cartridge = v,
            5 => self.logo = v,
            6 => self.marquee = v,
            7 => self.bezel = v,
            8 => self.gridicon = v,
            9 => self.flyer = v,
            10 => self.background = v,
            11 => self.music = v,
            12 => self.screenshot = v,
            13 => self.titlescreen = v,
            _ => self.video = v,
        }
        proof {
            assert(self@.assets =~= old(self)@.assets.update(i as int, opt_str(v)));
            assert(self@.texts =~= old(self)@.texts);
        }
    }

    /// Media asset field `i` (see `ASSET_FIELDS`).
    pub fn asset(&self, i: usize) -> (r: &Option<String>)
        requires
            i < ASSET_FIELDS,
        ensures
            opt_str(*r) == self@.assets[i as int],
    {
        match i {
            0 => &self.box_front,
            1 => &self.box_back,
            2 => &self.box_spine,
            3 => &self.box_full,
            4 => &self.cartridge,
            5 => &self.logo,
            6 => &self.marquee,
            7 => &self.bezel,
            8 => &self.gridicon,
            9 => &self.flyer,
            10 => &self.background,
            11 => &self.music,
            12 => &self.screenshot,
            13 => &self.titlescreen,
            _ => &self.video,
        }
    }

    /// Sets the extension field `k` to `v`.
    pub fn set_extra_field(&mut self, k: String, v: String)
        requires
            unique_keys(old(self)@.extra),
        ensures
            unique_keys(final(self)@.extra),
            final(self)@ == (GameView { extra: set_extra(old(self)@.extra, k@, v@), ..old(self)@ }),
    {
        set_pair(&mut self.extra, k, v);
    }
}

} // verus!
