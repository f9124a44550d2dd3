pub mod canvas;
pub mod diagnostics;
pub mod float_bits;
pub mod hdr_metadata;
pub mod metadata;
pub mod mip;
pub mod numeric;
pub mod output;
pub mod presentation;
pub mod renderer;
pub mod resampler;
pub mod resampling;
pub mod shader;
pub mod surface;
pub mod text;
pub mod tile_cache;
pub mod tiles;
pub mod ui;
pub mod units;
pub mod upload;
pub mod view;
pub mod words;
