//! Host-side engine for the HF2 bootloader protocol: 64-byte framing,
//! command encoding, response decoding and tag correlation.
//!
//! One exchange runs as: `prepare` gives the frames to write; each frame
//! read back goes to a `Reassembler` until it reports the `Final` frame;
//! `finish_exchange` turns the gathered bytes into a typed `Reply`.

pub mod command;
pub mod error;
pub mod frame;
pub mod response;
pub mod wire;

pub use command::{
    prepare, ChksumPagesCommand, Command, CommandId, Limits, ReadWordsCommand, Request, TagCounter,
    WriteFlashPageCommand, WriteWordsCommand,
};
pub use error::Error;
pub use frame::{
    decode_header, encode_header, fragment, reassemble, PacketType, Reassembler, FRAME_SIZE,
    MAX_CHUNK,
};
pub use response::{
    decode_reply, finish_exchange, BinInfoMode, BinInfoResult, ChksumPagesResult, CommandResponse,
    CommandResponseStatus, DmesgResult, InfoResult, ReadWordsResult, Reply, RESPONSE_HEADER_SIZE,
};
