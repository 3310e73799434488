//! A wireframe renderer's verified core: reading a solid in the ASCII STL
//! format, the index-aligned stages of a frame (view, screen, display), the
//! camera-basis degeneracy policy and the eye's sweep from frame to frame.

pub mod animation;
pub mod camera;
pub mod decimal;
pub mod pipeline;
pub mod stl;
pub mod text;
