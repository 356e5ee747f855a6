//! The core of a small HTTP/1.x server for the files under one directory.
//!
//! The library reads and writes nothing. It says how the bytes of a
//! connection are framed and parsed into a request (`request`), how a request
//! path becomes a file path and what a request is answered with (`rock`), and
//! what a response looks like on the wire (`response`). The program around it
//! owns the sockets, the threads, the files and the clock: it hands the
//! library what it read and carries out what the library decides.
//!
//! Every function has a contract over plain sequences and maps, stated with
//! the spec functions of its module, and the laws that relate them stand
//! beside them as proof functions.

pub mod config;
pub mod request;
pub mod response;
pub mod rock;
pub mod text;
