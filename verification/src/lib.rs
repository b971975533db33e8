//! Turns asset files into source text that embeds them: for each asset a
//! fragment that defines its variables and a fragment that declares them, and
//! for a whole manifest of assets the two listings made of those fragments.
//!
//! The library works on values that its caller has read: the text of the
//! manifest, the contents of each file. It decides what to do with each
//! entry, derives the names, encodes the contents and renders the listings.

pub mod convert;
pub mod cube_file;
pub mod encode;
pub mod ident;
pub mod manifest;
pub mod raster;
