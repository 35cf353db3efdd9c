//! Thumbnails for G-code files: extraction of embedded thumbnails and the
//! bookkeeping behind rendering a thumbnail from the tool path.

pub mod color;
pub mod embedded_thumbnail;
pub mod render_thumbnail;
pub mod source;
pub mod text;
pub mod thumbnail_image;
