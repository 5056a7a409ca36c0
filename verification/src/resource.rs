//! Dev-only source catalogues an in-memory build inserts as world resources,
//! so the hot-reload path can find each texture, colour LUT and material.

use vstd::prelude::*;

verus! {

/// One texture's identity and source file, in texture-handle order. A
/// procedural texture has an empty `source`.
#[derive(Debug, Clone, Default)]
pub struct TextureSource {
    /// The interned asset name.
    pub name_id: u32,
    /// Authored source path; empty for a procedural texture.
    pub source: String,
    /// Index of the image within the source document.
    pub image_index: u32,
}

/// Catalogue of texture source files, indexed by texture handle.
#[derive(Debug, Clone, Default)]
pub struct TextureSources(pub Vec<TextureSource>);

/// The raw authored source path of the first declared colour LUT, or `None`.
#[derive(Debug, Clone, Default)]
pub struct ColorLutSources(pub Option<String>);

/// The interned asset name of each compiled material, in material-handle
/// order.
#[derive(Debug, Clone, Default)]
pub struct MaterialNames(pub Vec<u32>);

} // verus!
