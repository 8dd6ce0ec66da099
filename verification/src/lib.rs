//! Guest-side SDK for Sirius Chain smart contracts.
//!
//! The host exposes its services (blockchain state, files, directory
//! listings, network streams) as imported functions that exchange raw bytes
//! and status codes. This crate holds everything that is decided on the
//! guest side: the byte layouts that are read from and written to the host,
//! the interpretation of the host's status codes, and the buffering state
//! machines that turn the host's chunked transfers into ordinary streams.
pub mod error;
pub mod blockchain;
pub mod read_buffer;
pub mod file;
pub mod internet;
pub mod stream;
pub mod filesystem;
pub mod dir_iterator;
pub mod buffered_reader;
pub mod buffered_writer;
