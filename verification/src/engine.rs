//! Engine profiles: build rules, limits and binary-layout quirks of the
//! targets a record format can be built for.
use vstd::prelude::*;

verus! {

/// How the engine's cache files are parsed.
#[derive(Copy, Clone, Debug, PartialEq, Eq)]
pub enum EngineCacheParser {
    /// Parsed with the Xbox cache-file convention.
    Xbox,
    /// Parsed with the PC cache-file convention.
    PC,
}

/// The compression scheme of the engine's cache files.
#[derive(Copy, Clone, Debug, PartialEq, Eq)]
pub enum EngineCompressionType {
    /// Cache files are stored uncompressed.
    Uncompressed,
    /// Cache files use DEFLATE compression.
    Deflate,
}

/// Which external resource maps the engine supports.
#[derive(Clone, Debug)]
pub struct EngineSupportedResourceMaps {
    /// The engine supports externally indexed tags.
    pub externally_indexed_tags: bool,
}

/// Per-map-type cache file size limits, in bytes.
#[derive(Clone, Debug)]
pub struct EngineCacheFileSize {
    /// Maximum size of a user-interface map.
    pub user_interface: u64,
    /// Maximum size of a campaign map.
    pub singleplayer: u64,
    /// Maximum size of a multiplayer map.
    pub multiplayer: u64,
}

/// Prerequisite tags for building a cache file, per map type.
#[derive(Clone, Debug)]
pub struct EngineRequiredTags {
    /// Required for every map.
    pub all: Vec<String>,
    /// Required for user-interface maps, in addition to `all`.
    pub user_interface: Vec<String>,
    /// Required for campaign maps, in addition to `all`.
    pub singleplayer: Vec<String>,
    /// Required for multiplayer maps, in addition to `all`.
    pub multiplayer: Vec<String>,
}

impl Default for EngineRequiredTags {
    /// No prerequisite tags at all.
    fn default() -> (r: Self)
        ensures
            r.all@ == Seq::<String>::empty(),
            r.user_interface@ == Seq::<String>::empty(),
            r.singleplayer@ == Seq::<String>::empty(),
            r.multiplayer@ == Seq::<String>::empty(),
    {
        EngineRequiredTags {
            all: Vec::new(),
            user_interface: Vec::new(),
            singleplayer: Vec::new(),
            multiplayer: Vec::new(),
        }
    }
}

/// The base memory address of the tag data block.
#[derive(Clone, Debug)]
pub struct BaseMemoryAddress {
    /// The base address.
    pub address: u64,
    /// The address is inferred from the tag data address; `address` is then
    /// only a default.
    pub inferred: bool,
}

/// The build string of an engine.
#[derive(Clone, Debug)]
pub struct Build {
    /// The build string; fewer than 32 characters.
    pub string: String,
    /// Other build strings the engine accepts.
    pub aliases: Vec<String>,
    /// The build string is enforced: a differing string is rejected.
    pub enforced: bool,
}

/// How bitmaps are stored in the engine's cache files.
#[derive(Clone, Debug)]
pub struct EngineBitmapOptions {
    /// Uncompressed power-of-two bitmaps are swizzled.
    pub swizzled: bool,
    /// Texture dimensions must be a multiple of the block size.
    pub texture_dimension_must_modulo_block_size: bool,
    /// Cubemap faces of one mipmap are stored separately.
    pub cubemap_faces_stored_separately: bool,
    /// The byte alignment of bitmap data.
    pub alignment: u64,
}

/// An engine: a named profile of a binary format's build rules, limits and
/// quirks, optionally inheriting from another engine.
#[derive(Clone, Debug)]
pub struct Engine {
    /// Internal name of the engine.
    pub name: String,
    /// Displayed name of the engine.
    pub display_name: String,
    /// Full version string, if any.
    pub version: Option<String>,
    /// Build string metadata, if any.
    pub build: Option<Build>,
    /// Name of the engine this engine inherits from, if any.
    pub inherits: Option<String>,
    /// The engine is a concrete target with actual cache files.
    pub build_target: bool,
    /// The engine is used as a fallback when no engine matches precisely.
    pub fallback: bool,
    /// The engine is a custom, modded variant rather than an official one.
    pub custom: bool,
    /// Cache file version of the engine.
    pub cache_file_version: u32,
    /// The engine is the default for its cache file version.
    pub cache_default: bool,
    /// BSP data can be loaded outside the BSP tag.
    pub external_bsps: bool,
    /// Model data lives in a model block rather than in tag data.
    pub external_models: bool,
    /// Maximum number of script nodes in a scenario.
    pub max_script_nodes: u64,
    /// Maximum tag space in bytes.
    pub max_tag_space: u64,
    /// Models are lossily compressed.
    pub compressed_models: bool,
    /// Data alignment in bytes.
    pub data_alignment: u64,
    /// The cache file header layout is obfuscated.
    pub obfuscated_header_layout: bool,
    /// How bitmaps are stored in cache files.
    pub bitmap_options: EngineBitmapOptions,
    /// External resource map support, if any.
    pub resource_maps: Option<EngineSupportedResourceMaps>,
    /// Which cache-parsing convention the engine follows.
    pub cache_parser: EngineCacheParser,
    /// Per-map-type maximum cache file sizes.
    pub max_cache_file_size: EngineCacheFileSize,
    /// Base memory address policy for tag data.
    pub base_memory_address: BaseMemoryAddress,
    /// Prerequisite tags for building a cache file.
    pub required_tags: EngineRequiredTags,
    /// Compression scheme of the engine's cache files.
    pub compression_type: EngineCompressionType,
}

} // verus!
