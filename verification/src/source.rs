//! The compressed-stream selector: a file name's final suffix picks the
//! byte source — bzip2, bare LZMA, or the raw bytes — before any tokenizing
//! begins. Setup or stream failures of a decompressor surface as a
//! dedicated fault carrying the file path, never as a grammar fault.

use vstd::prelude::*;
use vstd::string::StrSliceExecFns;
use vstd::string::StringSliceAdditionalSpecFns;

use crate::consumer::PageConsumer;
use crate::decode::{parse, parse_post};
use crate::error::Error;
use crate::grammar::sp_dump;
use crate::lex::lex_of;

verus! {

/// Which byte source a file name selects.
#[derive(Clone, Copy, Debug, PartialEq, Eq, Structural)]
pub enum Compression {
    /// The raw file bytes.
    Plain,
    /// A bzip2-compressed stream.
    Bzip2,
    /// A bare LZMA stream (despite the archive-container extension).
    Lzma,
}

/// `s` ends with `suffix`.
pub open spec fn ends_with(s: Seq<u8>, suffix: Seq<u8>) -> bool {
    s.len() >= suffix.len() && s.subrange(s.len() - suffix.len(), s.len() as int) == suffix
}

/// The selector: chosen purely from the file name's final suffix.
pub open spec fn spec_select(path: Seq<u8>) -> Compression {
    if ends_with(path, ".bz2".spec_bytes()) {
        Compression::Bzip2
    } else if ends_with(path, ".7z".spec_bytes()) {
        Compression::Lzma
    } else {
        Compression::Plain
    }
}

/// `b` ends with the bytes of `lit`.
fn suffix_is(b: &[u8], lit: &str) -> (r: bool)
    ensures
        r == ends_with(b@, lit.spec_bytes()),
{
    let lb = lit.as_bytes();
    if b.len() < lb.len() {
        return false;
    }
    let start = b.len() - lb.len();
    let mut i: usize = 0;
    while i < lb.len()
        invariant
            i <= lb@.len(),
            lb@.len() <= b@.len(),
            b@.len() <= usize::MAX,
            start == b@.len() - lb@.len(),
            lb@ == lit.spec_bytes(),
            forall|k: int| 0 <= k < i ==> b@[start + k] == lb@[k],
        decreases lb@.len() - i,
    {
        if b[start + i] != lb[i] {
            proof {
                assert(b@.subrange(start as int, b@.len() as int)[i as int] == b@[start + i]);
            }
            return false;
        }
        i = i + 1;
    }
    proof {
        assert(b@.subrange(start as int, b@.len() as int) =~= lit.spec_bytes());
    }
    true
}

/// Picks the byte source for a file name.
pub fn select_compression(path: &str) -> (c: Compression)
    ensures
        c == spec_select(path.spec_bytes()),
{
    let b = path.as_bytes();
    if suffix_is(b, ".bz2") {
        Compression::Bzip2
    } else if suffix_is(b, ".7z") {
        Compression::Lzma
    } else {
        Compression::Plain
    }
}

/// What decompressing a bzip2 stream yields: a function of the bytes alone;
/// `None` when the stream is not a well-formed bzip2 stream.
pub uninterp spec fn bunzip_of(data: Seq<u8>) -> Option<Seq<u8>>;

/// What decoding a bare LZMA stream yields: a function of the bytes alone;
/// `None` when the stream's header or body is malformed.
pub uninterp spec fn unlzma_of(data: Seq<u8>) -> Option<Seq<u8>>;

/// Relies on bzip2's `BzDecoder`: decompresses the whole stream, or reports
/// the failure's description.
#[verifier::external_body]
fn bunzip(data: &[u8]) -> (r: Result<Vec<u8>, String>)
    ensures
        match r {
            Ok(v) => bunzip_of(data@) == Some(v@),
            Err(_) => bunzip_of(data@) is None,
        },
{
    let mut d = bzip2::read::BzDecoder::new(data);
    let mut out: Vec<u8> = Vec::new();
    match std::io::Read::read_to_end(&mut d, &mut out) {
        Ok(_) => Ok(out),
        Err(e) => Err(format!("{}", e)),
    }
}

/// Relies on rust-lzma's `LzmaReader`: decodes the whole stream, or reports
/// the failure's description.
#[verifier::external_body]
fn unlzma(data: &[u8]) -> (r: Result<Vec<u8>, String>)
    ensures
        match r {
            Ok(v) => unlzma_of(data@) == Some(v@),
            Err(_) => unlzma_of(data@) is None,
        },
{
    let mut rd = match lzma::LzmaReader::new_decompressor(data) {
        Ok(rd) => rd,
        Err(e) => {
            return Err(format!("{}", e));
        },
    };
    let mut out: Vec<u8> = Vec::new();
    match std::io::Read::read_to_end(&mut rd, &mut out) {
        Ok(_) => Ok(out),
        Err(e) => Err(format!("{}", e)),
    }
}

/// The bytes the selector's choice decodes a file's contents to.
pub open spec fn spec_decoded(path: Seq<u8>, data: Seq<u8>) -> Option<Seq<u8>> {
    match spec_select(path) {
        Compression::Plain => Some(data),
        Compression::Bzip2 => bunzip_of(data),
        Compression::Lzma => unlzma_of(data),
    }
}

/// Decode a dump given its file name and raw contents: the suffix picks the
/// decompressor, a decompression failure surfaces before any tokenizing,
/// and the decoded bytes are parsed as a dump.
pub fn parse_from_file<E, C: PageConsumer<E>>(
    path: &str,
    data: &[u8],
    consumer: &mut C,
    skip_header: bool,
) -> (r: Result<(), Error<E>>)
    ensures
        match spec_decoded(path.spec_bytes(), data@) {
            Some(bytes) => parse_post(
                sp_dump(lex_of(bytes), skip_header),
                old(consumer).log(),
                final(consumer).log(),
                r,
            ),
            None => final(consumer).log() == old(consumer).log() && (r matches Err(e)
                && e matches Error::DecompressionInit { path: p, .. } && p@ == path@),
        },
{
    match select_compression(path) {
        Compression::Plain => parse(data, consumer, skip_header),
        Compression::Bzip2 => match bunzip(data) {
            Ok(v) => parse(v.as_slice(), consumer, skip_header),
            Err(cause) => Err(Error::DecompressionInit { path: path.to_owned(), cause }),
        },
        Compression::Lzma => match unlzma(data) {
            Ok(v) => parse(v.as_slice(), consumer, skip_header),
            Err(cause) => Err(Error::DecompressionInit { path: path.to_owned(), cause }),
        },
    }
}

} // verus!
