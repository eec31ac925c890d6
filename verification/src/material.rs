//! Surface and light materials.

pub mod light;
pub mod material;
pub mod phong;
pub mod simple;

pub use self::light::LightMaterial;
pub use self::material::Material;
pub use self::phong::Phong;
pub use self::simple::Simple;
