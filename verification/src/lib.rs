//! Full-text search support over static files on an ordinary HTTP host.
//!
//! Two subsystems make an index-reading engine work over a network transport
//! that only offers byte-range fetches and metadata probes:
//!
//! - the remote virtual directory ([`web_directory`], [`http`]): a read-only
//!   file-access facade translating "open file / read byte range / get
//!   length" into requests through an injected [`http::Transport`]
//!   capability, fetching only the bytes a query needs;
//! - the tokenization pipeline ([`tokenizer`]): dictionary-based,
//!   search-oriented word segmentation with the offset and position encoding
//!   the index engine needs for phrase and proximity ranking.
//!
//! [`mem_transport`] supplies an in-memory transport double, and [`numbers`]
//! the decimal formatting and parsing the wire headers are built from.

pub mod http;
pub mod mem_transport;
pub mod numbers;
pub mod tokenizer;
pub mod web_directory;
