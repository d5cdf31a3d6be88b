//! Metadata resolution for ROM libraries.
//!
//! - `jaro`, `matcher`: Jaro-Winkler similarity, game name normalisation and
//!   confidence scoring of search results.
//! - `cn_match`, `cn_names`, `local_cn`: similarity of Chinese names, the
//!   Chinese/English name tables, and the local name database as a provider.
//! - `pegasus`, `codec`, `merge`, `decode`: the Pegasus metadata text format,
//!   its parser and writer, field-level merging, and decoding of file bytes.
//! - `types`, `manager`, `settings`: queries, results and metadata; the provider
//!   registry and the orchestration rules; persisted provider settings.
//! - `sfo`: the PARAM.SFO metadata blobs of PS3 games.
//! - `paths`: the configuration directory layout and path spellings.
//! - `systems`: the known ROM system directories, their name databases and logos.
//!
//! Scores and confidences are integers in millionths (`jaro::SCORE_ONE` is one).

pub mod text;
pub mod jaro;
pub mod types;
pub mod matcher;
pub mod manager;
pub mod pegasus;
pub mod codec;
pub mod merge;
pub mod cn_match;
pub mod decode;
pub mod cn_names;
pub mod sfo;
pub mod settings;
pub mod local_cn;
pub mod paths;
pub mod systems;
