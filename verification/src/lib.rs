//! **tinydraw** is a small library for 2D drawing.
//!
//! An [Image] holds its pixels as raw bytes in one of eight color types (gray or RGB,
//! with or without alpha, 8 or 16 bits per channel). The origin of the coordinates is
//! the bottom left corner of the image; rows are stored from the top one down.
//! 16-bit channels are stored in the byte order of the executing machine.
//!
//! **Colorspaces:** GRAY8, GRAYA8, GRAY16, GRAYA16, RGB8, RGBA8, RGB16, RGBA16

pub mod colors;
pub mod conversions;
pub mod error;
pub mod image;
pub mod indexing;
pub mod io;
pub mod text;

pub use colors::{Color, ColorType};
pub use error::Error;
pub use image::{Image, ImageView};
pub use indexing::ImageSetIndex;
