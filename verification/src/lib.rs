//! Verified core of an animated-wallpaper engine: the video decode and
//! frame-delivery pipeline, and the parsers for scene packages and textures.

pub mod decoder;
pub mod demuxer;
pub mod file_reading_utils;
pub mod frame_pool;
pub mod frames;
pub mod ipc;
pub mod pipeline;
pub mod profile_manager;
pub mod project;
pub mod scene_package;
pub mod tex_file;
pub mod utils;
pub mod video_backend_consts;
pub mod video_wp_renderer;
