//! Typed document model for LEd level files, together with the render-grid
//! composition in [`render_helpers`].
//!
//! The types below mirror the editor's exported JSON document (project,
//! levels, layer instances, tiles, entities).  Deserialization itself is the
//! host's concern: it builds a [`Project`] value and hands it to the library,
//! which only reads it.
use vstd::prelude::*;

pub mod render_helpers;

verus! {

/// A whole project document: metadata plus the ordered sequence of levels.
///
/// The default pivot is a fractional position; since this library does no
/// arithmetic on it, it is carried as the IEEE-754 bit pattern of the
/// host-side 64-bit value.
#[derive(Debug)]
pub struct Project {
    /// Full path to the project JSON, as provided to the loader (using slashes).
    pub project_file_path: Option<String>,
    /// Directory of the project JSON (using slashes, no trailing slash).
    pub project_dir: Option<String>,
    /// Project name.
    pub name: String,
    /// Project background color as hex (e.g. #FFFFFF).
    pub bg_color: String,
    /// Schema version of the source document.
    pub json_version: String,
    /// Bit pattern of the default pivot's x fraction.
    pub default_pivot_x_bits: u64,
    /// Bit pattern of the default pivot's y fraction.
    pub default_pivot_y_bits: u64,
    /// The project's levels, in declared order.
    pub levels: Vec<Level>,
}

/// One level: an identifier, its pixel size, and its drawing layers.
///
/// Layer order is significant: index 0 is the topmost layer and has the
/// highest compositing priority.
#[derive(Debug)]
pub struct Level {
    pub identifier: String,
    pub px_wid: isize,
    pub px_hei: isize,
    pub layer_instances: Vec<LayerInstance>,
}

/// One drawing layer of a level, with its four child collections.
///
/// Only `auto_tiles` and `grid_tiles` take part in rendering; the int-grid
/// and entity collections are carried for completeness but never consulted
/// by the composer.
#[derive(Debug)]
pub struct LayerInstance {
    pub identifer: String,
    /// The layer kind tag (e.g. IntGrid, Entities, Tiles, AutoLayer).
    pub layer_type: String,
    /// Width of the layer's cell grid, in cells.
    pub grid_width: usize,
    /// Height of the layer's cell grid, in cells.
    pub grid_height: usize,
    pub level_id: usize,
    pub layer_def_uid: usize,
    pub px_offset_x: isize,
    pub px_offset_y: isize,
    pub seed: usize,
    pub int_grid: Vec<IntGridCoordinate>,
    pub auto_tiles: Vec<AutoTileRule>,
    pub grid_tiles: Vec<GridTile>,
    pub entity_instances: Vec<EntityInstance>,
}

/// One cell of the layer's int-grid: a linear cell index and its value.
#[derive(Clone, Copy, PartialEq, Eq, Structural, Debug)]
pub struct IntGridCoordinate {
    pub coord_id: usize,
    pub v: usize,
}

/// The placements one auto-tiling rule produced, in the order the rule
/// engine emitted them.
#[derive(Debug)]
pub struct AutoTileRule {
    pub rule_id: usize,
    pub tiles: Vec<GridTile>,
}

/// One tile placement: the target cell (`coord_id`, a row-major index into
/// the owning layer's grid), the atlas tile index, optional flip flags, and
/// the tile's atlas source column and row.
#[derive(Clone, Copy, PartialEq, Eq, Structural, Debug)]
pub struct GridTile {
    pub coord_id: usize,
    pub tile_id: usize,
    pub flips: Option<usize>,
    pub tile_x: usize,
    pub tile_y: usize,
}

/// One entity placed in a level; excluded from rendering.
#[derive(Debug)]
pub struct EntityInstance {
    pub identifier: String,
    pub cx: isize,
    pub cy: isize,
    pub def_uid: usize,
    pub x: isize,
    pub y: isize,
    pub field_instances: Vec<FieldInstanceValue>,
}

/// A field value attached to an entity, tagged by its concrete type.
///
/// Float-typed fields are carried as IEEE-754 bit patterns of the host-side
/// 32-bit values; this library never interprets them.
#[derive(Debug)]
pub enum FieldInstanceValue {
    Int(ScalarField<isize>),
    Float(ScalarField<u32>),
    Bool(ScalarField<bool>),
    String(ScalarField<String>),
    Color(ScalarField<String>),
    IntArray(ArrayField<isize>),
    FloatArray(ArrayField<u32>),
    BoolArray(ArrayField<bool>),
    StringArray(ArrayField<String>),
    ColorArray(ArrayField<String>),
}

/// A single-valued entity field.
#[derive(Debug)]
pub struct ScalarField<T> {
    pub identifier: String,
    pub value: T,
    pub def_uid: usize,
}

/// An array-valued entity field.
#[derive(Debug)]
pub struct ArrayField<T> {
    pub identifier: String,
    pub value: Vec<T>,
    pub def_uid: usize,
}

} // verus!
