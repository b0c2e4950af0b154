pub mod algorithm;
pub mod charset;
pub mod ffmpeg_decoder;
pub mod ffmpeg_encoder;
pub mod font_renderer;
pub mod frame;
pub mod laws;
pub mod pipeline;
pub mod platform;
pub mod search;
pub mod structure_tensor;
pub mod text;
pub mod util;
