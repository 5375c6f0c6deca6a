//! A vertical-bar equalizer for terminal user interfaces.
//!
//! An [`Equalizer`] is an ordered list of [`Band`]s. Rendering splits a
//! [`Region`] of a cell buffer into two-cell-wide columns, one per band, and
//! fills each column from the bottom up with a green-to-yellow-to-red gradient,
//! as high as the band's value asks.
pub mod band;
pub mod buffer;
pub mod equalizer;
pub mod gradient;
pub mod layout;
pub mod region;

pub use band::Band;
pub use equalizer::Equalizer;
pub use gradient::Rgb;
pub use region::Region;
