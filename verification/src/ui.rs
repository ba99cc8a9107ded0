//! What the window decides before it draws: the video modes on offer, the words for the session's state, what a
//! click asks of the phone, and the pairing code's picture.
pub mod modes;
pub mod panel;
pub mod pictures;
pub mod window_laws;
