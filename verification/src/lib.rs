//! A small ray-tracing library whose numeric core works on fixed-point
//! scalars, so that every step of the geometry and shading arithmetic can
//! be stated and checked exactly.

pub mod fixed;
pub mod posvector;
pub mod color;
pub mod material;
pub mod light;
pub mod camera;
pub mod shapes;
pub mod scene;
pub mod tracer;
pub mod renderer;
pub mod nffparsing;
