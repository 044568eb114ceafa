//! Core logic of an Android screen-mirroring client: the scrcpy wire protocol, the H.264
//! access-unit and decode pipelines, the session state machines and the rules around them.
//!
//! Everything here works on plain values. Sockets, processes, decoders and callbacks live with
//! the caller, which feeds events in and carries actions out.

pub mod adb;
pub mod api_runtime;
pub mod backend;
pub mod bounded;
pub mod callbacks;
pub mod control;
pub mod core_runtime;
pub mod decode_pipeline;
pub mod device;
pub mod error;
pub mod ffmpeg;
pub mod float_bits;
pub mod framed_video;
pub mod h264;
pub mod input;
pub mod model;
pub mod pipeline;
pub mod port;
pub mod server;
pub mod service;
pub mod session;
pub mod session_manager;
pub mod table;
pub mod text;
pub mod uhid;
pub mod uploader;
pub mod wire;
pub mod yolo;
