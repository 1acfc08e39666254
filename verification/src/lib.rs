//! Streaming decoder for MediaWiki revision-history export files.
//!
//! The core is a schema-specific decoding state machine that consumes a
//! low-level token stream (start/end/self-closing tags and text runs, each
//! with a byte offset) and produces validated `Page`/`Revision` records,
//! delivered one page at a time to a caller-supplied consumer.

pub mod consumer;
pub mod decode;
pub mod error;
pub mod find;
pub mod grammar;
pub mod ip;
pub mod laws;
pub mod lex;
pub mod records;
pub mod source;
pub mod tag;
pub mod token;
pub mod values;

pub use consumer::{BoundedCollector, Outcome, PageCollector, PageConsumer};
pub use decode::{parse, parse_stream, skip_text};
pub use error::{Error, Fault};
pub use find::find_page;
pub use lex::tokenize;
pub use records::{Comment, Contributor, IpAddr, Page, Revision, Timestamp};
pub use source::{parse_from_file, select_compression, Compression};
pub use tag::Tag;
pub use token::{Attr, AttrInfo, Token, TokenStream};
