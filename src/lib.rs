pub mod constants;
pub mod tile;
pub mod grid;
pub mod chunk;
pub mod mesh;
pub mod decoration;
pub mod explored;
pub mod world;
pub mod map_loader;
pub mod map_image;
