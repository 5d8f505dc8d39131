pub mod camera;
pub mod driver;
pub mod input;
pub mod scalar;
pub mod utils;
pub mod vulkan;
