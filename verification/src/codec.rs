//! Content codec: how a response body is carried on the wire. Identity
//! bodies pass through; gzip bodies are decoded before a rewrite and
//! re-encoded after it, through the `flate2` crate.

use std::io::Read;
use std::io::Write;

use vstd::prelude::*;

use crate::bytes::lower;
use crate::http::spec_get;
use vstd::string::StringSliceAdditionalSpecFns;
use vstd::utf8::{
    length_of_first_scalar, pop_first_scalar, valid_first_scalar, valid_utf8,
};

verus! {

/// The content encodings the pipeline understands. Anything else a
/// response declares is handled as identity, exactly as a body that
/// declares none.
#[derive(Clone, Copy, PartialEq, Eq, Structural, Debug)]
pub enum ContentEncoding {
    Identity,
    Gzip,
}

/// What gzip-decoding the given bytes yields: `None` where they are not a
/// well-formed gzip stream, otherwise the decompressed payload. Decoding
/// is a pure function of the bytes, so its result can be given this name.
pub uninterp spec fn gunzip_of(s: Seq<u8>) -> Option<Seq<u8>>;

/// Relies on `flate2::read::GzDecoder` together with `Read::read_to_end`:
/// decoding is a pure function of the input bytes, returning an error
/// exactly where they are not a gzip stream.
#[verifier::external_body]
pub fn gzip_decode(bytes: &[u8]) -> (r: Option<Vec<u8>>)
    ensures
        match r {
            Some(v) => gunzip_of(bytes@) == Some(v@),
            None => gunzip_of(bytes@) is None,
        },
{
    let mut decoder = flate2::read::GzDecoder::new(bytes);
    let mut out = Vec::new();
    match decoder.read_to_end(&mut out) {
        Ok(_) => Some(out),
        Err(_) => None,
    }
}

/// Relies on `flate2::write::GzEncoder` (`new`, `write_all`, `finish`)
/// with the default compression level: the output is a gzip stream whose
/// decoding gives back exactly the input, and writing into a `Vec` never
/// fails.
#[verifier::external_body]
pub fn gzip_encode(input: &[u8]) -> (r: Vec<u8>)
    ensures
        gunzip_of(r@) == Some(input@),
{
    let mut encoder = flate2::write::GzEncoder::new(Vec::new(), flate2::Compression::default());
    encoder.write_all(input).expect("writing to a Vec never fails");
    encoder.finish().expect("writing to a Vec never fails")
}

/// How the well-formed scalar encoding starting at offset `i` looks:
/// its byte length, or nothing when no well-formed scalar starts there.
fn first_scalar_len(bytes: &[u8], i: usize) -> (r: Option<usize>)
    requires
        i < bytes@.len(),
    ensures
        match r {
            Some(w) => {
                &&& valid_first_scalar(bytes@.skip(i as int))
                &&& length_of_first_scalar(bytes@.skip(i as int)) == w
                &&& 1 <= w <= 4
                &&& i + w <= bytes@.len()
            },
            None => !valid_first_scalar(bytes@.skip(i as int)),
        },
{
    let ghost rest = bytes@.skip(i as int);
    let remaining = bytes.len() - i;
    let b0 = bytes[i];
    proof {
        assert(rest[0] == bytes@[i as int]);
        assert(rest.len() == bytes@.len() - i);
    }
    if b0 <= 0x7f {
        proof {
            assert((b0 & 0x7f) < 0xd8) by (bit_vector)
                requires
                    b0 <= 0x7f,
            ;
        }
        Some(1)
    } else if b0 < 0xc0 {
        // a stray continuation byte leads nothing
        None
    } else if b0 <= 0xdf {
        if remaining < 2 {
            return None;
        }
        let b1 = bytes[i + 1];
        proof {
            assert(rest[1] == bytes@[i + 1]);
        }
        if !(0x80 <= b1 && b1 <= 0xbf) {
            return None;
        }
        if b0 < 0xc2 {
            // an overlong two-byte encoding of a one-byte value
            proof {
                assert((((b0 & 0x1f) as u32) << 6) | ((b1 & 0x3f) as u32) < 0x80)
                    by (bit_vector)
                    requires
                        0xc0 <= b0 < 0xc2,
                        0x80 <= b1 <= 0xbf,
                ;
            }
            return None;
        }
        proof {
            let cp = (((b0 & 0x1f) as u32) << 6) | ((b1 & 0x3f) as u32);
            assert(0x80 <= cp && cp < 0xd8_00) by (bit_vector)
                requires
                    0xc2 <= b0 <= 0xdf,
                    0x80 <= b1 <= 0xbf,
                    cp == (((b0 & 0x1f) as u32) << 6) | ((b1 & 0x3f) as u32),
            ;
        }
        Some(2)
    } else if b0 <= 0xef {
        if remaining < 3 {
            return None;
        }
        let b1 = bytes[i + 1];
        let b2 = bytes[i + 2];
        proof {
            assert(rest[1] == bytes@[i + 1]);
            assert(rest[2] == bytes@[i + 2]);
        }
        if !(0x80 <= b1 && b1 <= 0xbf) || !(0x80 <= b2 && b2 <= 0xbf) {
            return None;
        }
        let ghost cp = ((((b0 & 0x0f) as u32) << 12) | (((b1 & 0x3f) as u32) << 6)) | ((b2
            & 0x3f) as u32);
        if b0 == 0xe0 && b1 < 0xa0 {
            // an overlong three-byte encoding of a two-byte value
            proof {
                assert(cp < 0x8_00) by (bit_vector)
                    requires
                        b0 == 0xe0,
                        0x80 <= b1 < 0xa0,
                        0x80 <= b2 <= 0xbf,
                        cp == ((((b0 & 0x0f) as u32) << 12) | (((b1 & 0x3f) as u32) << 6)) | ((
                        b2 & 0x3f) as u32),
                ;
            }
            return None;
        }
        if b0 == 0xed && b1 >= 0xa0 {
            // the surrogate range
            proof {
                assert(0xd8_00 <= cp && cp <= 0xdf_ff) by (bit_vector)
                    requires
                        b0 == 0xed,
                        0xa0 <= b1 <= 0xbf,
                        0x80 <= b2 <= 0xbf,
                        cp == ((((b0 & 0x0f) as u32) << 12) | (((b1 & 0x3f) as u32) << 6)) | ((
                        b2 & 0x3f) as u32),
                ;
            }
            return None;
        }
        proof {
            assert(0x8_00 <= cp && !(0xd8_00 <= cp <= 0xdf_ff)) by (bit_vector)
                requires
                    0xe0 <= b0 <= 0xef,
                    0x80 <= b1 <= 0xbf,
                    0x80 <= b2 <= 0xbf,
                    !(b0 == 0xe0 && b1 < 0xa0),
                    !(b0 == 0xed && b1 >= 0xa0),
                    cp == ((((b0 & 0x0f) as u32) << 12) | (((b1 & 0x3f) as u32) << 6)) | ((b2
                        & 0x3f) as u32),
            ;
        }
        Some(3)
    } else if b0 <= 0xf7 {
        if remaining < 4 {
            return None;
        }
        let b1 = bytes[i + 1];
        let b2 = bytes[i + 2];
        let b3 = bytes[i + 3];
        proof {
            assert(rest[1] == bytes@[i + 1]);
            assert(rest[2] == bytes@[i + 2]);
            assert(rest[3] == bytes@[i + 3]);
        }
        if !(0x80 <= b1 && b1 <= 0xbf) || !(0x80 <= b2 && b2 <= 0xbf) || !(0x80 <= b3 && b3
            <= 0xbf) {
            return None;
        }
        let ghost cp = (((((b0 & 0x07) as u32) << 18) | (((b1 & 0x3f) as u32) << 12)) | (((b2
            & 0x3f) as u32) << 6)) | ((b3 & 0x3f) as u32);
        if b0 == 0xf0 && b1 < 0x90 {
            // an overlong four-byte encoding of a three-byte value
            proof {
                assert(cp < 0x1_00_00) by (bit_vector)
                    requires
                        b0 == 0xf0,
                        0x80 <= b1 < 0x90,
                        0x80 <= b2 <= 0xbf,
                        0x80 <= b3 <= 0xbf,
                        cp == (((((b0 & 0x07) as u32) << 18) | (((b1 & 0x3f) as u32) << 12)) | (((
                        b2 & 0x3f) as u32) << 6)) | ((b3 & 0x3f) as u32),
                ;
            }
            return None;
        }
        if b0 > 0xf4 || (b0 == 0xf4 && b1 >= 0x90) {
            // beyond the last Unicode scalar
            proof {
                assert(cp > 0x10_ff_ff) by (bit_vector)
                    requires
                        0xf4 <= b0 <= 0xf7,
                        0x80 <= b1 <= 0xbf,
                        0x80 <= b2 <= 0xbf,
                        0x80 <= b3 <= 0xbf,
                        !(b0 == 0xf4 && b1 < 0x90),
                        cp == (((((b0 & 0x07) as u32) << 18) | (((b1 & 0x3f) as u32) << 12)) | (((
                        b2 & 0x3f) as u32) << 6)) | ((b3 & 0x3f) as u32),
                ;
            }
            return None;
        }
        proof {
            assert(0x1_00_00 <= cp && cp <= 0x10_ff_ff) by (bit_vector)
                requires
                    0xf0 <= b0 <= 0xf7,
                    0x80 <= b1 <= 0xbf,
                    0x80 <= b2 <= 0xbf,
                    0x80 <= b3 <= 0xbf,
                    !(b0 == 0xf0 && b1 < 0x90),
                    !(b0 > 0xf4 || (b0 == 0xf4 && b1 >= 0x90)),
                    cp == (((((b0 & 0x07) as u32) << 18) | (((b1 & 0x3f) as u32) << 12)) | (((b2
                        & 0x3f) as u32) << 6)) | ((b3 & 0x3f) as u32),
            ;
        }
        Some(4)
    } else {
        // 0xf8 and above lead nothing
        None
    }
}

/// Whether the bytes are well-formed UTF-8, read scalar by scalar. Only
/// bodies that pass are ever rewritten; anything binary stays untouched.
pub fn is_utf8(bytes: &[u8]) -> (r: bool)
    ensures
        r == valid_utf8(bytes@),
{
    let mut i: usize = 0;
    proof {
        assert(bytes@.skip(0) =~= bytes@);
    }
    while i < bytes.len()
        invariant
            i <= bytes@.len(),
            valid_utf8(bytes@) == valid_utf8(bytes@.skip(i as int)),
        decreases bytes.len() - i,
    {
        let ghost rest = bytes@.skip(i as int);
        match first_scalar_len(bytes, i) {
            Some(w) => {
                proof {
                    assert(pop_first_scalar(rest) =~= bytes@.skip(i + w));
                }
                i += w;
            },
            None => {
                proof {
                    assert(rest.len() > 0);
                    assert(!valid_utf8(rest));
                }
                return false;
            },
        }
    }
    proof {
        assert(bytes@.skip(bytes@.len() as int) =~= Seq::<u8>::empty());
    }
    true
}

/// The encoding a response head declares: gzip only for a
/// `Content-Encoding: gzip` header, identity for every other value and for
/// no header at all.
pub open spec fn spec_encoding_of(headers: Seq<(Seq<u8>, Seq<u8>)>) -> ContentEncoding {
    match spec_get(headers, "content-encoding".spec_bytes()) {
        Some(v) => if lower(v) == lower("gzip".spec_bytes()) {
            ContentEncoding::Gzip
        } else {
            ContentEncoding::Identity
        },
        None => ContentEncoding::Identity,
    }
}

/// Executable form of `spec_encoding_of`.
pub fn encoding_of(headers: &crate::http::HeaderMap) -> (r: ContentEncoding)
    ensures
        r == spec_encoding_of(headers@),
{
    match headers.get("content-encoding") {
        Some(v) => {
            if crate::bytes::eq_ignore_case(v.as_slice(), "gzip".as_bytes()) {
                ContentEncoding::Gzip
            } else {
                ContentEncoding::Identity
            }
        },
        None => ContentEncoding::Identity,
    }
}

/// The name a `Content-Encoding` header carries for this encoding.
pub open spec fn spec_encoding_name(e: ContentEncoding) -> Seq<u8> {
    match e {
        ContentEncoding::Gzip => "gzip".spec_bytes(),
        ContentEncoding::Identity => "identity".spec_bytes(),
    }
}

/// Executable form of `spec_encoding_name`.
pub fn encoding_name(e: ContentEncoding) -> (r: Vec<u8>)
    ensures
        r@ == spec_encoding_name(e),
{
    match e {
        ContentEncoding::Gzip => crate::bytes::copy_bytes("gzip".as_bytes()),
        ContentEncoding::Identity => crate::bytes::copy_bytes("identity".as_bytes()),
    }
}

} // verus!
