//! Decoder and playback core for Director movie containers: the container
//! and projector formats, their chunk parsers and codecs, and a playback
//! engine that turns score frames into display lists.

pub mod cast_members;
pub mod chunks;
pub mod error;
pub mod gfx;
pub mod hex_dump;
pub mod player;
pub mod projector;
pub mod reader;
pub mod riff_file;
pub mod tags;
pub mod version;
pub mod vlist;

pub use error::{Error, ErrorKind};
pub use projector::Projector;
pub use riff_file::RiffFile;
