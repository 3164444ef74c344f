//! Packing of the synchronised file.

use vstd::prelude::*;
use crate::sync::error::{SyncError, SyncErrorView};

verus! {

/// The gzip stream that holds `data`, or the message of the failure.
pub uninterp spec fn gzip_of(data: Seq<u8>) -> Result<Seq<u8>, Seq<char>>;

/// What the gzip stream `data` holds, or the message of the failure.
pub uninterp spec fn gunzip_of(data: Seq<u8>) -> Result<Seq<u8>, Seq<char>>;

/// `flate2::write::GzEncoder::new` at the default level, `write_all` of the
/// data, then `finish`: the named gzip stream, or the text of the error.
#[verifier::external_body]
fn gzip(data: &[u8]) -> (packed: Result<Vec<u8>, String>)
    ensures
        match packed {
            Ok(p) => gzip_of(data@) == Ok::<Seq<u8>, Seq<char>>(p@),
            Err(m) => gzip_of(data@) == Err::<Seq<u8>, Seq<char>>(m@),
        },
{
    let mut encoder = flate2::write::GzEncoder::new(Vec::new(), flate2::Compression::default());
    match std::io::Write::write_all(&mut encoder, data) {
        Ok(()) => match encoder.finish() {
            Ok(packed) => Ok(packed),
            Err(e) => Err(e.to_string()),
        },
        Err(e) => Err(e.to_string()),
    }
}

/// `flate2::read::GzDecoder::new` on the data, then `read_to_end`: what the
/// stream holds, which is the named content, or the text of the error.
#[verifier::external_body]
fn gunzip(data: &[u8]) -> (unpacked: Result<Vec<u8>, String>)
    ensures
        match unpacked {
            Ok(p) => gunzip_of(data@) == Ok::<Seq<u8>, Seq<char>>(p@),
            Err(m) => gunzip_of(data@) == Err::<Seq<u8>, Seq<char>>(m@),
        },
{
    let mut decoder = flate2::read::GzDecoder::new(data);
    let mut out = Vec::new();
    match std::io::Read::read_to_end(&mut decoder, &mut out) {
        Ok(_) => Ok(out),
        Err(e) => Err(e.to_string()),
    }
}

/// Packs the document that is uploaded.
pub fn pack(document: &[u8]) -> (packed: Result<Vec<u8>, SyncError>)
    ensures
        match packed {
            Ok(p) => gzip_of(document@) == Ok::<Seq<u8>, Seq<char>>(p@),
            Err(e) => gzip_of(document@) matches Err(m) && e@ == SyncErrorView::IoError(m),
        },
{
    match gzip(document) {
        Ok(p) => Ok(p),
        Err(m) => Err(SyncError::IoError(m)),
    }
}

/// Unpacks the file that was downloaded.
pub fn unpack(file: &[u8]) -> (document: Result<Vec<u8>, SyncError>)
    ensures
        match document {
            Ok(d) => gunzip_of(file@) == Ok::<Seq<u8>, Seq<char>>(d@),
            Err(e) => gunzip_of(file@) matches Err(m) && e@ == SyncErrorView::IoError(m),
        },
{
    match gunzip(file) {
        Ok(d) => Ok(d),
        Err(m) => Err(SyncError::IoError(m)),
    }
}

} // verus!
