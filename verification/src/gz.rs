//! The compression layer of bundle archives, behind trusted wrappers.

use vstd::prelude::*;

verus! {

/// What the compressor produces for a given archive member name and
/// payload. The compressed stream is far too involved to state, but it is
/// a function of those two inputs alone: the wrapper below compresses
/// with a blank header whose timestamp is zero.
pub uninterp spec fn gzip_of(name: Seq<u8>, data: Seq<u8>) -> Seq<u8>;

/// Relies on flate2's `GzBuilder` (blank header, zero timestamp, the
/// given file name) and `write::GzEncoder` at best compression, fed with
/// `write_all` and closed with `finish`; both never fail on an in-memory
/// writer. The builder stores the name as a C string, so it must hold no
/// zero byte.
#[verifier::external_body]
pub(crate) fn gzip_compress(name: &[u8], data: &[u8]) -> (r: Vec<u8>)
    requires
        forall|i: int| 0 <= i < name@.len() ==> name@[i] != 0,
    ensures
        r@ == gzip_of(name@, data@),
{
    let mut enc = flate2::GzBuilder::new().filename(name).write(
        Vec::new(),
        flate2::Compression::best(),
    );
    std::io::Write::write_all(&mut enc, data).expect("writing to memory cannot fail");
    enc.finish().expect("writing to memory cannot fail")
}

/// Relies on flate2's `bufread::GzDecoder`, drained with `read_to_end`:
/// it decodes what the compressor above produced, whatever the member
/// name was.
#[verifier::external_body]
pub(crate) fn gzip_decompress(data: &[u8]) -> (r: Option<Vec<u8>>)
    ensures
        (exists|n: Seq<u8>, d: Seq<u8>| data@ == #[trigger] gzip_of(n, d)) ==> r is Some,
        forall|n: Seq<u8>, d: Seq<u8>|
            data@ == #[trigger] gzip_of(n, d) && r is Some ==> r->0@ == d,
{
    let mut out = Vec::new();
    let mut dec = flate2::bufread::GzDecoder::new(data);
    match std::io::Read::read_to_end(&mut dec, &mut out) {
        Ok(_) => Some(out),
        Err(_) => None,
    }
}

} // verus!
