//! LZO decompression with an optional compatibility header.
//!
//! The input may carry a five-byte header (a one-byte format marker in
//! `0xF0..=0xF1` followed by a little-endian four-byte length), mirroring a
//! widely used reference tool's convention; alternatively the caller supplies
//! the expected length directly, or asks for an unbounded decode and lets the
//! stream terminate itself.
//!
//! The byte-level decoding is done by an external codec. That codec indexes
//! its output buffer with positions derived from unchecked subtractions, so
//! on a malformed stream it can abort instead of reporting an error. The
//! verified validator below ([`lzo_stream_valid`]) walks the instruction
//! stream first — checking that every instruction is complete, every
//! back-reference distance stays inside the output produced so far, and the
//! stream ends at its terminator — and the codec is only invoked on streams
//! that pass ([`lzo_valid`]).

use vstd::prelude::*;

use crate::errors::DecompressError;

verus! {

/// Ceiling on the total decoded length the validator accepts. Streams whose
/// output would exceed it (an expansion no real buffer can hold; reaching it
/// requires petabytes of input) are rejected so that the codec's output
/// positions stay inside machine-integer range.
pub const LZO_MAX_OUTPUT: u128 = 0x4000_0000_0000_0000;

/// Number of consecutive zero bytes in `src` starting at `i`: the encoding of
/// the variable-length part of long literal runs and long match lengths.
pub open spec fn zero_run(src: Seq<u8>, i: int) -> nat
    decreases src.len() - i,
{
    if 0 <= i && i < src.len() && src[i] == 0 {
        1 + zero_run(src, i + 1)
    } else {
        0
    }
}

/// The little-endian 16-bit value at `src[i..i + 2]`.
pub open spec fn lzo_le16(src: Seq<u8>, i: int) -> int {
    src[i] as int + 256 * (src[i + 1] as int)
}

/// Validity of the remaining stream from input position `i`, with `o` bytes
/// of output produced so far and `state` literals-copied-by-last-instruction
/// (0..=3, or 4 for a long run), mirroring the codec's decode loop
/// instruction by instruction.
pub open spec fn lzo_valid_from(src: Seq<u8>, i: int, o: int, state: int) -> bool
    decreases src.len() - i,
{
    if i + 1 > src.len() {
        false
    } else {
        let inst = src[i] as int;
        if inst >= 64 {
            // Copy 3..=8 bytes from within 2 KiB, then `inst % 4` literals.
            let ns = inst % 4;
            let lblen = inst / 32 + 1;
            if i + 2 + ns > src.len() {
                false
            } else {
                let dist = 8 * (src[i + 1] as int) + (inst / 4) % 8 + 1;
                &&& dist <= o
                &&& o + lblen + ns <= LZO_MAX_OUTPUT as int
                &&& lzo_valid_from(src, i + 2 + ns, o + lblen + ns, ns)
            }
        } else if inst >= 32 {
            // Copy a small block from within 16 KiB; length may continue in a
            // zero-byte run followed by one nonzero byte.
            if inst % 32 == 0 {
                let z = zero_run(src, i + 1);
                if i + 1 + z >= src.len() {
                    false
                } else {
                    lzo_m3_tail(src, i + 2 + z, o, 33 + 255 * z + src[i + 1 + z] as int)
                }
            } else {
                lzo_m3_tail(src, i + 1, o, inst % 32 + 2)
            }
        } else if inst >= 16 {
            // Copy a block from 16..=48 KiB distance, or the stream
            // terminator when the encoded distance is zero.
            if inst % 8 == 0 {
                let z = zero_run(src, i + 1);
                if i + 1 + z >= src.len() {
                    false
                } else {
                    lzo_m4_tail(src, i + 2 + z, o, 9 + 255 * z + src[i + 1 + z] as int,
                        (inst / 8) % 2)
                }
            } else {
                lzo_m4_tail(src, i + 1, o, inst % 8 + 2, (inst / 8) % 2)
            }
        } else if state == 0 {
            // Long literal run; length may continue as above.
            if inst == 0 {
                let z = zero_run(src, i + 1);
                if i + 1 + z >= src.len() {
                    false
                } else {
                    let len = 18 + 255 * z + src[i + 1 + z] as int;
                    &&& i + 2 + z + len <= src.len()
                    &&& o + len <= LZO_MAX_OUTPUT as int
                    &&& lzo_valid_from(src, i + 2 + z + len, o + len, 4)
                }
            } else {
                let len = inst + 3;
                &&& i + 1 + len <= src.len()
                &&& o + len <= LZO_MAX_OUTPUT as int
                &&& lzo_valid_from(src, i + 1 + len, o + len, 4)
            }
        } else {
            // Short copy: two bytes from within 1 KiB after 1..=3 literals,
            // three bytes from 2..=3 KiB after a long run.
            let ns = inst % 4;
            if i + 2 + ns > src.len() {
                false
            } else {
                let lblen = if state == 4 { 3int } else { 2int };
                let dist_base = if state == 4 { 2049int } else { 1int };
                let dist = inst / 4 + 4 * (src[i + 1] as int) + dist_base;
                &&& dist <= o
                &&& o + lblen + ns <= LZO_MAX_OUTPUT as int
                &&& lzo_valid_from(src, i + 2 + ns, o + lblen + ns, ns)
            }
        }
    }
}

/// Tail of a within-16-KiB copy instruction: the little-endian pair at `j`
/// encodes the distance and the count of trailing literals.
pub open spec fn lzo_m3_tail(src: Seq<u8>, j: int, o: int, lblen: int) -> bool
    decreases src.len() - j,
{
    if j + 2 > src.len() {
        false
    } else {
        let n16 = lzo_le16(src, j);
        let ns = n16 % 4;
        let dist = n16 / 4 + 1;
        &&& j + 2 + ns <= src.len()
        &&& dist <= o
        &&& o + lblen + ns <= LZO_MAX_OUTPUT as int
        &&& lzo_valid_from(src, j + 2 + ns, o + lblen + ns, ns)
    }
}

/// Tail of a far-copy instruction: a zero encoded distance is the stream
/// terminator (only well formed with a plain length of 3; bytes after it are
/// ignored), otherwise the copy reaches back `16384 + dist0` bytes.
pub open spec fn lzo_m4_tail(src: Seq<u8>, j: int, o: int, lblen: int, high: int) -> bool
    decreases src.len() - j,
{
    if j + 2 > src.len() {
        false
    } else {
        let n16 = lzo_le16(src, j);
        let ns = n16 % 4;
        let dist0 = 16384 * high + n16 / 4;
        if dist0 == 0 {
            lblen == 3
        } else {
            &&& j + 2 + ns <= src.len()
            &&& dist0 + 16384 <= o
            &&& o + lblen + ns <= LZO_MAX_OUTPUT as int
            &&& lzo_valid_from(src, j + 2 + ns, o + lblen + ns, ns)
        }
    }
}

/// Structural validity of a whole headerless LZO stream: the optional
/// first-byte literal run, then instructions until the terminator, every read
/// in bounds and every back-reference within the output produced so far.
/// The codec decodes exactly the streams satisfying this.
pub open spec fn lzo_valid(src: Seq<u8>) -> bool {
    if src.len() < 1 {
        false
    } else {
        let b0 = src[0] as int;
        if b0 >= 22 {
            &&& 1 + (b0 - 17) <= src.len()
            &&& lzo_valid_from(src, 1 + (b0 - 17), b0 - 17, 4)
        } else if b0 >= 18 {
            &&& 1 + (b0 - 17) <= src.len()
            &&& lzo_valid_from(src, 1 + (b0 - 17), b0 - 17, b0 - 17)
        } else {
            lzo_valid_from(src, 0, 0, 0)
        }
    }
}

/// The decoded content of a well-formed headerless LZO stream (a function of
/// the stream bytes alone; the caller-supplied expected size only pre-sizes
/// the codec's allocation). The decoding algorithm is out of scope here; this
/// name is pinned down only by the contract of the trusted wrapper below.
pub uninterp spec fn lzo_decoded(src: Seq<u8>) -> Seq<u8>;

/// Count the zero bytes at `src[start..]` up to the first nonzero byte or the
/// end of the buffer.
fn count_zero_run(src: &[u8], start: usize) -> (z: usize)
    requires
        start <= src@.len(),
    ensures
        z as nat == zero_run(src@, start as int),
        start + z <= src@.len(),
{
    let mut j = start;
    while j < src.len() && src[j] == 0
        invariant
            start <= j <= src@.len(),
            zero_run(src@, start as int) == j - start + zero_run(src@, j as int),
        decreases src@.len() - j,
    {
        j = j + 1;
    }
    j - start
}

/// Decide [`lzo_valid`]: walk the instruction stream once, tracking the input
/// position, the output length produced so far, and the literal state, and
/// report whether the whole stream is structurally valid.
#[verifier::loop_isolation(false)]
#[verifier::rlimit(80)]
pub fn lzo_stream_valid(src: &[u8]) -> (b: bool)
    ensures
        b == lzo_valid(src@),
{
    if src.len() == 0 {
        return false;
    }
    let b0 = src[0];
    let mut i: usize;
    let mut o: u128;
    let mut state: u8;
    if b0 >= 22 {
        let l = (b0 - 17) as usize;
        if src.len() - 1 < l {
            return false;
        }
        i = 1 + l;
        o = l as u128;
        state = 4;
    } else if b0 >= 18 {
        let l = (b0 - 17) as usize;
        if src.len() - 1 < l {
            return false;
        }
        i = 1 + l;
        o = l as u128;
        state = b0 - 17;
    } else {
        i = 0;
        o = 0;
        state = 0;
    }
    loop
        invariant
            i <= src@.len(),
            o <= LZO_MAX_OUTPUT,
            state <= 4,
            lzo_valid(src@) == lzo_valid_from(src@, i as int, o as int, state as int),
        decreases src@.len() - i,
    {
        if i == src.len() {
            return false;
        }
        let inst = src[i];
        if inst >= 64 {
            let ns = (inst % 4) as usize;
            if src.len() - i < 2 + ns {
                return false;
            }
            let dist: u128 = 8 * (src[i + 1] as u128) + ((inst / 4) % 8) as u128 + 1;
            if dist > o {
                return false;
            }
            let lblen: u128 = (inst / 32) as u128 + 1;
            if o + lblen + ns as u128 > LZO_MAX_OUTPUT {
                return false;
            }
            o = o + lblen + ns as u128;
            i = i + 2 + ns;
            state = inst % 4;
        } else if inst >= 32 {
            let j: usize;
            let lblen: u128;
            if inst % 32 == 0 {
                let z = count_zero_run(src, i + 1);
                if src.len() - (i + 1) == z {
                    return false;
                }
                lblen = 33 + 255 * (z as u128) + src[i + 1 + z] as u128;
                j = i + 2 + z;
            } else {
                lblen = (inst % 32) as u128 + 2;
                j = i + 1;
            }
            proof {
                assert(lzo_valid_from(src@, i as int, o as int, state as int) == lzo_m3_tail(
                    src@,
                    j as int,
                    o as int,
                    lblen as int,
                ));
            }
            if src.len() - j < 2 {
                return false;
            }
            let n16: usize = src[j] as usize + 256 * (src[j + 1] as usize);
            let ns = n16 % 4;
            if src.len() - j < 2 + ns {
                return false;
            }
            let dist: u128 = (n16 / 4 + 1) as u128;
            if dist > o {
                return false;
            }
            if o + lblen + ns as u128 > LZO_MAX_OUTPUT {
                return false;
            }
            o = o + lblen + ns as u128;
            i = j + 2 + ns;
            state = (n16 % 4) as u8;
        } else if inst >= 16 {
            let j: usize;
            let lblen: u128;
            if inst % 8 == 0 {
                let z = count_zero_run(src, i + 1);
                if src.len() - (i + 1) == z {
                    return false;
                }
                lblen = 9 + 255 * (z as u128) + src[i + 1 + z] as u128;
                j = i + 2 + z;
            } else {
                lblen = (inst % 8) as u128 + 2;
                j = i + 1;
            }
            proof {
                assert(lzo_valid_from(src@, i as int, o as int, state as int) == lzo_m4_tail(
                    src@,
                    j as int,
                    o as int,
                    lblen as int,
                    ((inst / 8) % 2) as int,
                ));
            }
            if src.len() - j < 2 {
                return false;
            }
            let n16: usize = src[j] as usize + 256 * (src[j + 1] as usize);
            let ns = n16 % 4;
            let dist0: u128 = 16384 * ((inst / 8) % 2) as u128 + (n16 / 4) as u128;
            if dist0 == 0 {
                return lblen == 3;
            }
            if src.len() - j < 2 + ns {
                return false;
            }
            if dist0 + 16384 > o {
                return false;
            }
            if o + lblen + ns as u128 > LZO_MAX_OUTPUT {
                return false;
            }
            o = o + lblen + ns as u128;
            i = j + 2 + ns;
            state = (n16 % 4) as u8;
        } else if state == 0 {
            if inst == 0 {
                let z = count_zero_run(src, i + 1);
                if src.len() - (i + 1) == z {
                    return false;
                }
                let len: u128 = 18 + 255 * (z as u128) + src[i + 1 + z] as u128;
                let j = i + 2 + z;
                if ((src.len() - j) as u128) < len {
                    return false;
                }
                if o + len > LZO_MAX_OUTPUT {
                    return false;
                }
                o = o + len;
                i = j + len as usize;
                state = 4;
            } else {
                let len = inst as usize + 3;
                if src.len() - (i + 1) < len {
                    return false;
                }
                if o + len as u128 > LZO_MAX_OUTPUT {
                    return false;
                }
                o = o + len as u128;
                i = i + 1 + len;
                state = 4;
            }
        } else {
            let ns = (inst % 4) as usize;
            if src.len() - i < 2 + ns {
                return false;
            }
            let lblen: u128 = if state == 4 { 3 } else { 2 };
            let dist_base: u128 = if state == 4 { 2049 } else { 1 };
            let dist: u128 = (inst / 4) as u128 + 4 * (src[i + 1] as u128) + dist_base;
            if dist > o {
                return false;
            }
            if o + lblen + ns as u128 > LZO_MAX_OUTPUT {
                return false;
            }
            o = o + lblen + ns as u128;
            i = i + 2 + ns;
            state = inst % 4;
        }
    }
}

/// Relies on `lzokay_native::decompress`: on a stream accepted by the
/// verified validator it decodes to completion and returns the decoded bytes,
/// which depend on the stream alone; `expected_size` only pre-sizes the
/// output allocation and neither bounds nor alters the result.
#[verifier::external_body]
fn lzo_decode_raw(src: &[u8], expected_size: Option<usize>) -> (r: Result<
    Vec<u8>,
    DecompressError,
>)
    requires
        lzo_valid(src@),
    ensures
        r is Ok,
        r matches Ok(v) ==> v@ == lzo_decoded(src@),
{
    let mut reader = std::io::Cursor::new(src);
    match lzokay_native::decompress(&mut reader, expected_size) {
        Ok(v) => Ok(v),
        Err(e) => Err(DecompressError::Decode(e.to_string())),
    }
}

/// The five-byte compatibility header: a format marker in `0xF0..=0xF1` and
/// the expected decoded length; the compressed payload begins immediately
/// after it.
pub struct LzoHeader {
    pub marker: u8,
    pub length: u32,
}

/// The structural header check: at least eight input bytes and a marker byte
/// inside the accepted range.
pub open spec fn lzo_header_ok(src: Seq<u8>) -> bool {
    &&& src.len() >= 8
    &&& 0xf0 <= src[0]
    &&& src[0] <= 0xf1
}

/// The header's little-endian four-byte length field.
pub open spec fn lzo_header_len(src: Seq<u8>) -> int {
    src[1] as int + 0x100 * (src[2] as int) + 0x1_0000 * (src[3] as int) + 0x100_0000 * (
    src[4] as int)
}

/// The compressed payload behind the header.
pub open spec fn lzo_payload(src: Seq<u8>) -> Seq<u8> {
    src.subrange(5, src.len() as int)
}

/// Parse the compatibility header from the front of `src`, accepting exactly
/// the inputs that pass the structural check and rejecting every other input
/// with `InvalidHeader` — before any decode is attempted.
pub fn parse_header(src: &[u8]) -> (r: Result<LzoHeader, DecompressError>)
    ensures
        r is Ok <==> lzo_header_ok(src@),
        r matches Ok(h) ==> h.marker == src@[0] && h.length as int == lzo_header_len(src@),
        r matches Err(e) ==> e is InvalidHeader,
{
    if src.len() < 8 {
        return Err(DecompressError::InvalidHeader);
    }
    let marker = src[0];
    if marker < 0xf0 || marker > 0xf1 {
        return Err(DecompressError::InvalidHeader);
    }
    let length: u32 = src[1] as u32 + 0x100 * (src[2] as u32) + 0x1_0000 * (src[3] as u32)
        + 0x100_0000 * (src[4] as u32);
    Ok(LzoHeader { marker, length })
}

/// Copy `src[start..]` into a fresh buffer.
fn tail_from(src: &[u8], start: usize) -> (v: Vec<u8>)
    requires
        start <= src@.len(),
    ensures
        v@ == src@.subrange(start as int, src@.len() as int),
{
    let mut v: Vec<u8> = Vec::new();
    let mut k = start;
    while k < src.len()
        invariant
            start <= k <= src@.len(),
            v@ == src@.subrange(start as int, k as int),
        decreases src@.len() - k,
    {
        v.push(src[k]);
        k = k + 1;
        proof {
            assert(v@ =~= src@.subrange(start as int, k as int));
        }
    }
    v
}

/// What one decode of a headerless stream guarantees, given the resolved
/// expected length (if any): success exactly on structurally valid streams
/// whose decoded length matches the expectation, and then the result is
/// exactly the stream's decoded bytes.
pub open spec fn lzo_stream_post(
    body: Seq<u8>,
    expected: Option<usize>,
    r: Result<Vec<u8>, DecompressError>,
) -> bool {
    &&& (r matches Ok(v) ==> {
        &&& lzo_valid(body)
        &&& v@ == lzo_decoded(body)
        &&& (expected matches Some(n) ==> v@.len() == n)
    })
    &&& (r matches Err(e) ==> e is Decode && !({
        &&& lzo_valid(body)
        &&& (expected matches Some(n) ==> lzo_decoded(body).len() == n)
    }))
    &&& (lzo_valid(body) && (expected matches Some(n) ==> lzo_decoded(body).len() == n)
        ==> r is Ok)
}

/// Validate, decode, and enforce the resolved expected length.
fn decode_stream(body: &[u8], expected: Option<usize>) -> (r: Result<Vec<u8>, DecompressError>)
    ensures
        lzo_stream_post(body@, expected, r),
{
    if !lzo_stream_valid(body) {
        return Err(DecompressError::Decode("invalid or truncated lzo stream".to_owned()));
    }
    let v = match lzo_decode_raw(body, expected) {
        Ok(v) => v,
        Err(e) => {
            return Err(e);
        },
    };
    match expected {
        Some(n) => {
            if v.len() != n {
                return Err(
                    DecompressError::Decode(
                        "decoded length does not match the expected length".to_owned(),
                    ),
                );
            }
            Ok(v)
        },
        None => Ok(v),
    }
}

/// The full contract of [`decompress`], by resolved mode.
pub open spec fn lzo_decompress_post(
    src: Seq<u8>,
    header: bool,
    buflen: int,
    r: Result<Vec<u8>, DecompressError>,
) -> bool {
    &&& (header && !lzo_header_ok(src) ==> (match r {
        Ok(_) => false,
        Err(e) => e is InvalidHeader,
    }))
    &&& (header && lzo_header_ok(src) ==> (match r {
        Ok(v) => lzo_valid(lzo_payload(src)) && v@ == lzo_decoded(lzo_payload(src))
            && v@.len() as int == lzo_header_len(src),
        Err(e) => e is Decode && !(lzo_valid(lzo_payload(src)) && lzo_decoded(
            lzo_payload(src),
        ).len() as int == lzo_header_len(src)),
    }))
    &&& (!header && buflen >= 0 ==> (match r {
        Ok(v) => lzo_valid(src) && v@ == lzo_decoded(src) && v@.len() as int == buflen,
        Err(e) => e is Decode && !(lzo_valid(src) && lzo_decoded(src).len() as int == buflen),
    }))
    &&& (!header && buflen < 0 ==> (match r {
        Ok(v) => lzo_valid(src) && v@ == lzo_decoded(src),
        Err(e) => e is Decode && !lzo_valid(src),
    }))
}

/// Decompress a headerless LZO stream.
///
/// With `header` set, the five-byte compatibility header is parsed from the
/// front of `src` (rejecting structurally invalid headers with
/// `InvalidHeader` before any decode attempt), the payload is everything
/// after it, and the decoded length must equal the header's length field.
/// Without a header, a non-negative `buflen` is the expected decoded length,
/// and a negative `buflen` requests an unbounded decode that trusts the
/// stream to terminate itself.
pub fn decompress(src: &[u8], header: bool, buflen: isize) -> (r: Result<
    Vec<u8>,
    DecompressError,
>)
    ensures
        lzo_decompress_post(src@, header, buflen as int, r),
{
    if header {
        let h = match parse_header(src) {
            Ok(h) => h,
            Err(e) => {
                return Err(e);
            },
        };
        let payload = tail_from(src, 5);
        decode_stream(payload.as_slice(), Some(h.length as usize))
    } else if buflen >= 0 {
        decode_stream(src, Some(buflen as usize))
    } else {
        decode_stream(src, None)
    }
}

/// Law: a well-formed stream decodes to a single byte sequence — the decoded
/// bytes are a function of the stream alone, so repeated calls with the same
/// input recover byte-identical output.
pub proof fn lemma_lzo_deterministic(src: Seq<u8>, d1: Seq<u8>, d2: Seq<u8>)
    requires
        d1 == lzo_decoded(src),
        d2 == lzo_decoded(src),
    ensures
        d1 == d2,
{
}

/// Law: the decompression contract pins the observable outcome — any two
/// results that satisfy it for the same input and mode agree on success, on
/// the error kind, and on the decoded bytes.
pub proof fn lemma_lzo_decompress_deterministic(
    src: Seq<u8>,
    header: bool,
    buflen: int,
    r1: Result<Vec<u8>, DecompressError>,
    r2: Result<Vec<u8>, DecompressError>,
)
    requires
        lzo_decompress_post(src, header, buflen, r1),
        lzo_decompress_post(src, header, buflen, r2),
    ensures
        r1 is Ok <==> r2 is Ok,
        (match (r1, r2) {
            (Ok(v1), Ok(v2)) => v1@ == v2@,
            _ => true,
        }),
{
    match (r1, r2) {
        (Ok(v1), Ok(v2)) => {
            if header {
                assert(lzo_header_ok(src));
                assert(v1@ == lzo_decoded(lzo_payload(src)));
                assert(v2@ == lzo_decoded(lzo_payload(src)));
            } else {
                assert(v1@ == lzo_decoded(src));
                assert(v2@ == lzo_decoded(src));
            }
        },
        _ => {},
    }
}

} // verus!
