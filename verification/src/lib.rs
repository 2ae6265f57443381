//! Voice playback for a game server: sources are decoded to raw samples,
//! mixed per client slot, and handed out as encoded voice packets.
pub mod codec;
pub mod cstr;
pub mod extension;
pub mod ffmpeg;
pub mod handle;
pub mod headers;
pub mod host;
pub mod json;
pub mod lifecycle;
pub mod mixer;
pub mod pace;
pub mod pipe;
pub mod play;
pub mod player;
pub mod reader;
pub mod round;
pub mod sample;
pub mod scratch;
pub mod source;
pub mod text;
