//! The desktop side besides drawing: pairing links, the phones allowed before, video decoding, the virtual camera and
//! what the window shows of them.
pub mod desktop_laws;
pub mod engine;
pub mod known;
pub mod link;
pub mod video;
