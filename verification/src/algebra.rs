//! Vector-algebra helpers.

pub mod onb;

pub use self::onb::OrthoNormalBase;
