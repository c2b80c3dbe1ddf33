//! Re-reading text in another character encoding.
use vstd::prelude::*;
use std::io::Read;

verus! {

#[verifier::external_type_specification]
#[verifier::external_body]
pub struct ExEncoding(encoding_rs::Encoding);

/// Relies on encoding_rs_io::DecodeReaderBytesBuilder: the bytes of `input`
/// read as text in `encoding`, malformed sequences replaced.
#[verifier::external_body]
pub fn decode(input: &str, encoding: &'static encoding_rs::Encoding) -> String {
    let mut reader = encoding_rs_io::DecodeReaderBytesBuilder::new().encoding(Some(encoding)).build(input.as_bytes());
    let mut res = String::new();
    let _ = reader.read_to_string(&mut res);
    res
}

} // verus!
