pub mod animation;
pub mod element;
pub mod mask;
pub mod project;
