//! Verified core of a headless frame-capture and streaming service: the
//! decisions, formats and conversions that sit between a render loop, a
//! websocket server and a remote asset reader.

pub mod decimal;
pub mod text;
pub mod uri;
pub mod fetch;
pub mod codec;
pub mod frame_capture;
pub mod headless;
pub mod server;
pub mod controls;
pub mod video;
