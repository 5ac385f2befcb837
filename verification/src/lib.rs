//! Splits a decoded raster image into a grid of square tiles, encodes every
//! tile as PNG, and packs the encoded tiles into one zip archive with
//! deterministic, position-derived entry names (`tile_{row}_{col}.png`).

pub mod archive;
pub mod grid;
pub mod imaging;
pub mod laws;
pub mod names;
pub mod tiler;

pub use archive::write_tile_zip;
pub use grid::{grid_dims, tile_rect, TileError};
pub use names::tile_name;
pub use tiler::{tile_archive, tile_decoded, tile_image};
