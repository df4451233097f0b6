//! Verified core of the OpenCut editor: CSS gradient and colour parsing,
//! background layer splitting, text colours and RGBA pixel buffers, with the
//! plain data types that the rest of the editor passes around.

pub mod chars;
pub mod effect_defs;
pub mod graphics;
pub mod hex_laws;
pub mod mask_defs;
pub mod media;
pub mod renderer;
pub mod scene;
pub mod storage;
pub mod text;
