//! The records that queries, providers and the orchestrator exchange.

use vstd::prelude::*;

verus! {

/// Content hashes of a ROM, used for exact lookups; any of them may be absent.
#[derive(Debug, Clone)]
pub struct RomHash {
    pub crc32: Option<String>,
    pub md5: Option<String>,
    pub sha1: Option<String>,
}

/// The content hashes computed for a ROM file (hexadecimal).
#[derive(Debug, Clone)]
pub struct FileHashes {
    pub crc32: String,
    pub md5: String,
    pub sha1: String,
}

impl FileHashes {
    /// The hashes as a lookup key with every hash present.
    pub fn to_rom_hash(&self) -> (r: RomHash)
        ensures
            r.crc32 == Some(self.crc32),
            r.md5 == Some(self.md5),
            r.sha1 == Some(self.sha1),
    {
        RomHash { crc32: Some(self.crc32.clone()), md5: Some(self.md5.clone()), sha1: Some(self.sha1.clone()) }
    }
}

/// What a caller asks to resolve: a game name, the ROM's file name, and
/// optionally its system and hashes.
#[derive(Debug, Clone)]
pub struct ScrapeQuery {
    pub name: String,
    pub system: Option<String>,
    pub hash: Option<RomHash>,
    pub file_name: String,
}

impl ScrapeQuery {
    pub fn new(name: String, file_name: String) -> (r: Self)
        ensures
            r.name == name,
            r.file_name == file_name,
            r.system is None,
            r.hash is None,
    {
        ScrapeQuery { name, system: None, hash: None, file_name }
    }

    pub fn with_system(self, system: String) -> (r: Self)
        ensures
            r.name == self.name,
            r.file_name == self.file_name,
            r.hash == self.hash,
            r.system == Some(system),
    {
        ScrapeQuery { system: Some(system), ..self }
    }

    pub fn with_hash(self, hash: RomHash) -> (r: Self)
        ensures
            r.name == self.name,
            r.file_name == self.file_name,
            r.system == self.system,
            r.hash == Some(hash),
    {
        ScrapeQuery { hash: Some(hash), ..self }
    }
}

/// One candidate that a provider found. `confidence` is in millionths.
#[derive(Debug, Clone)]
pub struct SearchResult {
    pub provider: String,
    pub source_id: String,
    pub name: String,
    pub year: Option<String>,
    pub system: Option<String>,
    pub thumbnail: Option<String>,
    pub confidence: u32,
}

/// Game metadata as merged from providers. `rating` is in millionths of the
/// full rating; an absent field means unknown.
#[derive(Debug, Clone)]
pub struct GameMetadata {
    pub name: String,
    pub english_name: Option<String>,
    pub description: Option<String>,
    pub release_date: Option<String>,
    pub developer: Option<String>,
    pub publisher: Option<String>,
    pub genres: Vec<String>,
    pub players: Option<String>,
    pub rating: Option<u32>,
}

/// The content of a `GameMetadata`, with strings as character sequences.
pub struct MetadataView {
    pub name: Seq<char>,
    pub english_name: Option<Seq<char>>,
    pub description: Option<Seq<char>>,
    pub release_date: Option<Seq<char>>,
    pub developer: Option<Seq<char>>,
    pub publisher: Option<Seq<char>>,
    pub genres: Seq<Seq<char>>,
    pub players: Option<Seq<char>>,
    pub rating: Option<u32>,
}

pub open spec fn opt_str(o: Option<String>) -> Option<Seq<char>> {
    match o {
        Some(s) => Some(s@),
        None => None,
    }
}

pub open spec fn strs(v: Seq<String>) -> Seq<Seq<char>> {
    v.map_values(|s: String| s@)
}

impl View for GameMetadata {
    type V = MetadataView;

    open spec fn view(&self) -> MetadataView {
        MetadataView {
            name: self.name@,
            english_name: opt_str(self.english_name),
            description: opt_str(self.description),
            release_date: opt_str(self.release_date),
            developer: opt_str(self.developer),
            publisher: opt_str(self.publisher),
            genres: strs(self.genres@),
            players: opt_str(self.players),
            rating: self.rating,
        }
    }
}

impl GameMetadata {
    /// Metadata with every field unknown.
    pub fn empty() -> (r: Self)
        ensures
            r.name@.len() == 0,
            r.english_name is None,
            r.description is None,
            r.release_date is None,
            r.developer is None,
            r.publisher is None,
            r.genres@.len() == 0,
            r.players is None,
            r.rating is None,
    {
        GameMetadata {
            name: String::new(),
            english_name: None,
            description: None,
            release_date: None,
            developer: None,
            publisher: None,
            genres: Vec::new(),
            players: None,
            rating: None,
        }
    }
}

/// Kinds of media asset.
#[derive(Debug, Clone, Copy, PartialEq, Eq, Structural, Hash)]
pub enum MediaType {
    BoxFront,
    BoxBack,
    Box3D,
    Screenshot,
    TitleScreen,
    Logo,
    Icon,
    Hero,
    Banner,
    Video,
    Manual,
    Other,
}

/// The media type that a name stands for; `s` is compared in lowercase.
pub open spec fn media_type_of(s: Seq<char>) -> MediaType {
    if s == "boxfront"@ || s == "box-2d"@ || s == "box-front"@ || s == "cover"@ {
        MediaType::BoxFront
    } else if s == "boxback"@ || s == "box-back"@ {
        MediaType::BoxBack
    } else if s == "box3d"@ || s == "box-3d"@ {
        MediaType::Box3D
    } else if s == "screenshot"@ || s == "ss"@ {
        MediaType::Screenshot
    } else if s == "titlescreen"@ || s == "title"@ {
        MediaType::TitleScreen
    } else if s == "logo"@ || s == "wheel"@ || s == "clearlogo"@ {
        MediaType::Logo
    } else if s == "icon"@ {
        MediaType::Icon
    } else if s == "hero"@ {
        MediaType::Hero
    } else if s == "banner"@ {
        MediaType::Banner
    } else if s == "video"@ {
        MediaType::Video
    } else if s == "manual"@ {
        MediaType::Manual
    } else {
        MediaType::Other
    }
}

/// The canonical name of each media type.
pub open spec fn media_type_name(t: MediaType) -> Seq<char> {
    match t {
        MediaType::BoxFront => "boxfront"@,
        MediaType::BoxBack => "boxback"@,
        MediaType::Box3D => "box3d"@,
        MediaType::Screenshot => "screenshot"@,
        MediaType::TitleScreen => "titlescreen"@,
        MediaType::Logo => "logo"@,
        MediaType::Icon => "icon"@,
        MediaType::Hero => "hero"@,
        MediaType::Banner => "banner"@,
        MediaType::Video => "video"@,
        MediaType::Manual => "manual"@,
        MediaType::Other => "other"@,
    }
}

impl MediaType {
    /// Parses a media type name, ignoring case; unknown names give `Other`.
    pub fn from_str(s: &str) -> (r: MediaType)
        ensures
            r == media_type_of(crate::text::lower_of(s@)),
    {
        let low = crate::text::lowercase(s);
        let c = crate::text::chars_of(low.as_str());
        let eq = |lit: &str| -> (b: bool)
            ensures
                b == (c@ == lit@),
            { crate::text::chars_eq_str(&c, lit) };
        if eq("boxfront") || eq("box-2d") || eq("box-front") || eq("cover") {
            MediaType::BoxFront
        } else if eq("boxback") || eq("box-back") {
            MediaType::BoxBack
        } else if eq("box3d") || eq("box-3d") {
            MediaType::Box3D
        } else if eq("screenshot") || eq("ss") {
            MediaType::Screenshot
        } else if eq("titlescreen") || eq("title") {
            MediaType::TitleScreen
        } else if eq("logo") || eq("wheel") || eq("clearlogo") {
            MediaType::Logo
        } else if eq("icon") {
            MediaType::Icon
        } else if eq("hero") {
            MediaType::Hero
        } else if eq("banner") {
            MediaType::Banner
        } else if eq("video") {
            MediaType::Video
        } else if eq("manual") {
            MediaType::Manual
        } else {
            MediaType::Other
        }
    }

    /// The canonical lowercase name of the media type.
    pub fn as_str(&self) -> (r: &'static str)
        ensures
            r@ == media_type_name(*self),
    {
        match self {
            MediaType::BoxFront => "boxfront",
            MediaType::BoxBack => "boxback",
            MediaType::Box3D => "box3d",
            MediaType::Screenshot => "screenshot",
            MediaType::TitleScreen => "titlescreen",
            MediaType::Logo => "logo",
            MediaType::Icon => "icon",
            MediaType::Hero => "hero",
            MediaType::Banner => "banner",
            MediaType::Video => "video",
            MediaType::Manual => "manual",
            MediaType::Other => "other",
        }
    }
}

/// A media asset offered by a provider.
#[derive(Debug, Clone)]
pub struct MediaAsset {
    pub provider: String,
    pub url: String,
    pub asset_type: MediaType,
    pub width: Option<u32>,
    pub height: Option<u32>,
}

/// The aggregate of one scrape: merged metadata, all media, and the providers
/// whose metadata contributed.
#[derive(Debug, Clone)]
pub struct ScrapeResult {
    pub metadata: GameMetadata,
    pub media: Vec<MediaAsset>,
    pub sources: Vec<String>,
}

/// An operation that a provider may support.
#[derive(Debug, Clone, Copy, PartialEq, Eq, Structural, Hash)]
pub enum ProviderCapability {
    Search,
    HashLookup,
    Metadata,
    Media,
}

/// The set of operations that a provider supports.
#[derive(Debug, Clone, Copy)]
pub struct Capabilities {
    pub search: bool,
    pub hash_lookup: bool,
    pub metadata: bool,
    pub media: bool,
}

impl View for Capabilities {
    type V = Set<ProviderCapability>;

    open spec fn view(&self) -> Set<ProviderCapability> {
        Set::new(
            |c: ProviderCapability|
                match c {
                    ProviderCapability::Search => self.search,
                    ProviderCapability::HashLookup => self.hash_lookup,
                    ProviderCapability::Metadata => self.metadata,
                    ProviderCapability::Media => self.media,
                },
        )
    }
}

impl Capabilities {
    /// The empty set.
    pub fn new() -> (r: Self)
        ensures
            r@ == Set::<ProviderCapability>::empty(),
    {
        let r = Capabilities { search: false, hash_lookup: false, metadata: false, media: false };
        proof {
            assert(r@ =~= Set::<ProviderCapability>::empty());
        }
        r
    }

    /// This set with `cap` added.
    pub fn with(self, cap: ProviderCapability) -> (r: Self)
        ensures
            r@ == self@.insert(cap),
    {
        let mut r = self;
        match cap {
            ProviderCapability::Search => r.search = true,
            ProviderCapability::HashLookup => r.hash_lookup = true,
            ProviderCapability::Metadata => r.metadata = true,
            ProviderCapability::Media => r.media = true,
        }
        proof {
            assert(r@ =~= self@.insert(cap));
        }
        r
    }

    /// Whether `cap` is in the set.
    pub fn has(&self, cap: ProviderCapability) -> (r: bool)
        ensures
            r == self@.contains(cap),
    {
        match cap {
            ProviderCapability::Search => self.search,
            ProviderCapability::HashLookup => self.hash_lookup,
            ProviderCapability::Metadata => self.metadata,
            ProviderCapability::Media => self.media,
        }
    }

    /// The members in declaration order: search, hash lookup, metadata, media.
    pub open spec fn members(&self) -> Seq<ProviderCapability> {
        (if self.search { seq![ProviderCapability::Search] } else { Seq::empty() }) + (
        if self.hash_lookup { seq![ProviderCapability::HashLookup] } else { Seq::empty() }) + (
        if self.metadata { seq![ProviderCapability::Metadata] } else { Seq::empty() }) + (
        if self.media { seq![ProviderCapability::Media] } else { Seq::empty() })
    }

    /// The members of the set, each once, in declaration order.
    pub fn all(&self) -> (r: Vec<ProviderCapability>)
        ensures
            r@ == self.members(),
    {
        let mut r: Vec<ProviderCapability> = Vec::new();
        if self.search {
            r.push(ProviderCapability::Search);
        }
        if self.hash_lookup {
            r.push(ProviderCapability::HashLookup);
        }
        if self.metadata {
            r.push(ProviderCapability::Metadata);
        }
        if self.media {
            r.push(ProviderCapability::Media);
        }
        proof {
            assert(r@ =~= self.members());
        }
        r
    }
}

} // verus!
