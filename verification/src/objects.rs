//! Scene geometry: rectangular faces, boxes made of six faces, and the
//! closed set of scene objects.

pub mod _box;
pub mod face;
pub mod object;

pub use self::_box::Box;
pub use self::face::Face;
pub use self::object::{Object, Surface};
