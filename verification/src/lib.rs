//! Lenny: the phone as a webcam.
pub mod abi;
pub mod bytes;
pub mod c_api;
pub mod fake_phone;
pub mod fake_phone_laws;
pub mod framebuf;
pub mod framebuf_laws;
pub mod le;
pub mod pairing;
pub mod receiver;
pub mod session;
pub mod text;
pub mod text_laws;
pub mod timing;
pub mod ui;
pub mod vcam;
pub mod wire;
