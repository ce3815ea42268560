//! Byte-level primitives shared by every entity codec: little-endian 64-bit
//! integers and length-prefixed UTF-8 text fields, with exact reader/writer
//! contracts over the spec-level encodings.

use vstd::prelude::*;

verus! {

use vstd::bytes::lemma_auto_spec_u64_to_from_le_bytes;
use vstd::bytes::spec_u64_to_le_bytes;
use vstd::bytes::u64_from_le_bytes;
use vstd::bytes::u64_to_le_bytes;
use vstd::slice::slice_subrange;
use vstd::string::StringSliceAdditionalSpecFns;
use vstd::utf8::decode_utf8;
use vstd::utf8::encode_utf8;
use vstd::utf8::encode_utf8_decode_utf8;
use vstd::utf8::encode_utf8_valid_utf8;
use vstd::utf8::valid_utf8;

/// The encoding of one unsigned 64-bit integer: its eight bytes,
/// least-significant first.
pub open spec fn enc_u64(x: u64) -> Seq<u8> {
    spec_u64_to_le_bytes(x)
}

/// The encoding of one text field: eight length bytes, then the UTF-8 bytes
/// of the text itself.
pub open spec fn enc_str(s: Seq<char>) -> Seq<u8> {
    enc_u64(encode_utf8(s).len() as u64) + encode_utf8(s)
}

/// The byte length of an encoded text field.
pub open spec fn enc_str_len(s: Seq<char>) -> int {
    8 + encode_utf8(s).len() as int
}

pub proof fn lemma_enc_u64_len(x: u64)
    ensures
        enc_u64(x).len() == 8,
{
    lemma_auto_spec_u64_to_from_le_bytes();
}

pub proof fn lemma_enc_str_len(s: Seq<char>)
    ensures
        enc_str(s).len() == enc_str_len(s),
{
    lemma_auto_spec_u64_to_from_le_bytes();
}

/// Appends the little-endian encoding of `x` to `out`.
pub fn write_u64(out: &mut Vec<u8>, x: u64)
    ensures
        final(out)@ == old(out)@ + enc_u64(x),
{
    let bytes = u64_to_le_bytes(x);
    out.extend_from_slice(bytes.as_slice());
}

/// Appends the length-prefixed UTF-8 encoding of `s` to `out`.
pub fn write_str(out: &mut Vec<u8>, s: &str)
    ensures
        final(out)@ == old(out)@ + enc_str(s@),
{
    let bytes = s.as_bytes();
    let n: u64 = bytes.len() as u64;
    write_u64(out, n);
    out.extend_from_slice(bytes);
}

/// Reads the eight bytes at `off` as a little-endian 64-bit integer.
/// Fails exactly when fewer than eight bytes remain.
pub fn read_u64(buf: &Vec<u8>, off: usize) -> (r: Option<(u64, usize)>)
    ensures
        r is Some <==> off + 8 <= buf@.len(),
        r matches Some(p) ==> p.1 == off + 8 && buf@.subrange(off as int, off + 8) == enc_u64(
            p.0,
        ),
{
    if buf.len() >= 8 && off <= buf.len() - 8 {
        let bytes = slice_subrange(buf.as_slice(), off, off + 8);
        let x = u64_from_le_bytes(bytes);
        proof {
            lemma_auto_spec_u64_to_from_le_bytes();
        }
        Some((x, off + 8))
    } else {
        None
    }
}

/// Reads one length-prefixed UTF-8 text field starting at `off`. Succeeds on
/// every well-formed field and recovers exactly the text that was written.
pub fn read_str(buf: &Vec<u8>, off: usize) -> (r: Option<(String, usize)>)
    ensures
        r matches Some(p) ==> off + 8 <= p.1 <= buf@.len() && buf@.subrange(
            off as int,
            p.1 as int,
        ) == enc_str(p.0@),
        forall|t: Seq<char>|
            (off + 8 + encode_utf8(t).len() <= buf@.len() && buf@.subrange(
                off as int,
                off + 8 + encode_utf8(t).len(),
            ) == #[trigger] enc_str(t)) ==> (r matches Some(p) && p.0@ == t && p.1 == off + 8
                + encode_utf8(t).len()),
{
    proof {
        lemma_auto_spec_u64_to_from_le_bytes();
    }
    match read_u64(buf, off) {
        None => None,
        Some((n, body)) => {
            let rem = buf.len() - body;
            if n > rem as u64 {
                proof {
                    assert forall|t: Seq<char>|
                        off + 8 + encode_utf8(t).len() <= buf@.len() && buf@.subrange(
                            off as int,
                            off + 8 + encode_utf8(t).len(),
                        ) == #[trigger] enc_str(t) implies false by {
                        let w = encode_utf8(t).len() as int;
                        assert(buf@.subrange(off as int, off + 8 + w).subrange(0, 8) =~= buf@
                            .subrange(off as int, off + 8));
                        assert(enc_str(t).subrange(0, 8) =~= enc_u64(w as u64));
                    }
                }
                None
            } else {
                let len: usize = n as usize;
                let end = body + len;
                let body_bytes = slice_subrange(buf.as_slice(), body, end);
                match parse_utf8(body_bytes) {
                    None => {
                        proof {
                            assert forall|t: Seq<char>|
                                off + 8 + encode_utf8(t).len() <= buf@.len() && buf@.subrange(
                                    off as int,
                                    off + 8 + encode_utf8(t).len(),
                                ) == #[trigger] enc_str(t) implies false by {
                                let w = encode_utf8(t).len() as int;
                                assert(buf@.subrange(off as int, off + 8 + w).subrange(0, 8) =~= buf@
                                    .subrange(off as int, off + 8));
                                assert(enc_str(t).subrange(0, 8) =~= enc_u64(w as u64));
                                assert(w == n);
                                assert(buf@.subrange(off as int, off + 8 + w).subrange(
                                    8,
                                    8 + w,
                                ) =~= buf@.subrange(body as int, end as int));
                                assert(enc_str(t).subrange(8, 8 + w) =~= encode_utf8(t));
                                assert(encode_utf8(t) == body_bytes@);
                                encode_utf8_valid_utf8(t);
                            }
                        }
                        None
                    },
                    Some(text) => {
                        let owned = text.to_owned();
                        proof {
                            assert(buf@.subrange(off as int, end as int) =~= buf@.subrange(
                                off as int,
                                off + 8,
                            ) + buf@.subrange(body as int, end as int));
                            assert(encode_utf8(owned@).len() == n);
                            assert(buf@.subrange(off as int, end as int) =~= enc_str(owned@));
                            assert forall|t: Seq<char>|
                                off + 8 + encode_utf8(t).len() <= buf@.len() && buf@.subrange(
                                    off as int,
                                    off + 8 + encode_utf8(t).len(),
                                ) == #[trigger] enc_str(t) implies owned@ == t && end == off + 8
                                + encode_utf8(t).len() by {
                                let w = encode_utf8(t).len() as int;
                                assert(buf@.subrange(off as int, off + 8 + w).subrange(0, 8) =~= buf@
                                    .subrange(off as int, off + 8));
                                assert(enc_str(t).subrange(0, 8) =~= enc_u64(w as u64));
                                assert(w == n);
                                assert(buf@.subrange(off as int, off + 8 + w).subrange(
                                    8,
                                    8 + w,
                                ) =~= buf@.subrange(body as int, end as int));
                                assert(enc_str(t).subrange(8, 8 + w) =~= encode_utf8(t));
                                assert(encode_utf8(t) == encode_utf8(owned@));
                                encode_utf8_decode_utf8(t);
                                encode_utf8_decode_utf8(owned@);
                            }
                        }
                        Some((owned, end))
                    },
                }
            }
        },
    }
}

/// Relies on `std::str::from_utf8`: succeeds exactly on valid UTF-8 input and
/// returns the string slice made of those bytes.
#[verifier::external_body]
fn parse_utf8(bytes: &[u8]) -> (r: Option<&str>)
    ensures
        r is Some <==> valid_utf8(bytes@),
        r matches Some(s) ==> s.spec_bytes() == bytes@,
{
    core::str::from_utf8(bytes).ok()
}

} // verus!
