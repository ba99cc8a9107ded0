//! Wire format: framing, TLV and message codecs. Pure code, no I/O.
pub mod message;
pub mod msg;
pub mod caps;
pub mod control;
pub mod simple;
pub mod video;
pub mod frame;
pub mod layout_laws;
pub mod list;
pub mod lookup;
pub mod tlv;
