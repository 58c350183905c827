//! LZ4 block decompression with iterative output-size discovery.
//!
//! The block format embeds no length field that could be read in isolation,
//! so when the caller does not know the decoded size the only way to learn it
//! is to attempt a decode and read the codec's own complaint: the discovery
//! loop starts from a cheap size-based candidate capacity, retries with the
//! size the codec reports whenever the buffer was too small, and gives up
//! once the candidate would exceed a fixed one-gibibyte ceiling.

use vstd::prelude::*;

use crate::errors::DecompressError;

verus! {

/// Hard ceiling (one gibibyte) on the candidate output capacity in discovery
/// mode; it bounds memory growth on crafted or corrupt inputs whose reported
/// required size keeps climbing.
pub const MAX_DISCOVER_OUTPUT_SIZE: usize = 1024 * 1024 * 1024;

/// The decoded content of a headerless LZ4 block: `Some(d)` when the block is
/// well formed and decodes to the bytes `d` (given any output capacity of at
/// least `d.len()`), `None` when the codec rejects it at every capacity.
/// The decoding algorithm itself is out of scope here; this name is pinned
/// down only by the contracts of the trusted wrappers below.
pub uninterp spec fn lz4_decoded(src: Seq<u8>) -> Option<Seq<u8>>;

/// The codec's advertised worst-case output size for an input of length `n`:
/// a cheap, purely size-based bound used as the first candidate capacity in
/// discovery mode.
pub open spec fn lz4_max_output_bound(n: int) -> int {
    16 + 4 + n * 110 / 100
}

/// Inputs of length `n` keep the codec's internal byte counters (cumulative
/// literal and match lengths, which grow by at most 255 per input byte on top
/// of an output position bounded by `isize::MAX`) inside machine-integer
/// range. Any buffer that fits in a real address space satisfies this.
pub open spec fn lz4_input_ok(n: int) -> bool {
    &&& 255 * n + 255 + isize::MAX as int <= usize::MAX as int
    &&& lz4_max_output_bound(n) <= usize::MAX as int
}

/// Relies on `lz4_flex::block::get_maximum_output_size`, whose body is
/// exactly `16 + 4 + (input_len as u64 * 110 / 100) as usize`.
#[verifier::external_body]
fn lz4_max_output_size(input_len: usize) -> (r: usize)
    requires
        lz4_input_ok(input_len as int),
    ensures
        r as int == lz4_max_output_bound(input_len as int),
{
    lz4_flex::block::get_maximum_output_size(input_len)
}

/// The three-way outcome of one raw block-decode attempt, normalised so the
/// discovery loop does not depend on the codec's error representation:
/// the decoded bytes, a retry signal carrying the codec's reported required
/// size (and its message, for the no-retry path), or a terminal failure.
enum Lz4Outcome {
    Done(Vec<u8>),
    TooSmall(usize, String),
    Fatal(String),
}

/// Relies on `lz4_flex::block::decompress` (safe-decode build): it decodes
/// the whole block into a fresh buffer of capacity `max_out`, truncated to
/// the decoded length. Success and the decoded bytes are a function of `src`
/// alone; `OutputTooSmall { expected }` reports a required size that always
/// exceeds the supplied capacity and, on a block that decodes at all, never
/// exceeds its true decoded length; any other error means the block itself is
/// malformed at every capacity. In particular a well-formed block whose
/// decoded length fits in `max_out` is returned in full.
#[verifier::external_body]
fn lz4_decode_block(src: &[u8], max_out: usize) -> (r: Lz4Outcome)
    requires
        lz4_input_ok(src@.len() as int),
        max_out as int <= isize::MAX as int,
    ensures
        (match r {
            Lz4Outcome::Done(v) => lz4_decoded(src@) == Some(v@) && v@.len() <= max_out,
            Lz4Outcome::TooSmall(expected, _) => expected > max_out && (lz4_decoded(src@) is Some
                ==> expected <= lz4_decoded(src@)->Some_0.len()),
            Lz4Outcome::Fatal(_) => lz4_decoded(src@) is None,
        }),
{
    match lz4_flex::block::decompress(src, max_out) {
        Ok(v) => Lz4Outcome::Done(v),
        Err(e) => {
            let msg = e.to_string();
            match e {
                lz4_flex::block::DecompressError::OutputTooSmall { expected, .. } => {
                    Lz4Outcome::TooSmall(expected, msg)
                }
                _ => Lz4Outcome::Fatal(msg),
            }
        }
    }
}

/// What a finished discovery-mode decompression guarantees.
///
/// A successful result carries exactly the block's decoded bytes; a
/// `Decode` error occurs exactly on malformed blocks; `OutputTooLarge`
/// occurs only when the first size-based candidate, or a required size the
/// codec itself reported, lies beyond the ceiling; and success is owed
/// whenever the block is well formed and both the initial candidate and the
/// decoded length fit under the ceiling.
pub open spec fn lz4_discovery_post(src: Seq<u8>, r: Result<Vec<u8>, DecompressError>) -> bool {
    &&& (r matches Ok(v) ==> {
        &&& lz4_decoded(src) == Some(v@)
        &&& v@.len() <= MAX_DISCOVER_OUTPUT_SIZE
        &&& lz4_max_output_bound(src.len() as int) <= MAX_DISCOVER_OUTPUT_SIZE as int
    })
    &&& (r matches Err(e) ==> e is OutputTooLarge || e is Decode)
    &&& (r matches Err(e) && e is Decode ==> lz4_decoded(src) is None)
    &&& (r matches Err(e) && e is OutputTooLarge ==> {
        ||| lz4_max_output_bound(src.len() as int) > MAX_DISCOVER_OUTPUT_SIZE as int
        ||| lz4_decoded(src) is None
        ||| lz4_decoded(src)->Some_0.len() > MAX_DISCOVER_OUTPUT_SIZE
    })
    &&& (lz4_decoded(src) is Some && lz4_decoded(src)->Some_0.len() <= MAX_DISCOVER_OUTPUT_SIZE
        && lz4_max_output_bound(src.len() as int) <= MAX_DISCOVER_OUTPUT_SIZE as int ==> r is Ok)
}

/// What a decompression with a caller-supplied size guarantees: success
/// exactly when the block is well formed and its decoded length fits in the
/// supplied capacity, and then the result is exactly the decoded bytes.
pub open spec fn lz4_sized_post(
    src: Seq<u8>,
    uncompressed_size: int,
    r: Result<Vec<u8>, DecompressError>,
) -> bool {
    &&& (r matches Ok(v) ==> lz4_decoded(src) == Some(v@) && v@.len() <= uncompressed_size)
    &&& (r matches Err(e) ==> e is Decode
        && !(lz4_decoded(src) is Some && lz4_decoded(src)->Some_0.len() <= uncompressed_size))
    &&& (lz4_decoded(src) is Some && lz4_decoded(src)->Some_0.len() <= uncompressed_size
        ==> r is Ok)
}

/// Decompress a headerless LZ4 block whose decoded size is unknown,
/// discovering the size by iterative retry.
///
/// The first candidate capacity is the codec's size-based worst-case bound;
/// each `OutputTooSmall` report moves the candidate strictly upwards, and the
/// loop aborts with an `OutputTooLarge` error as soon as a candidate would
/// exceed the one-gibibyte ceiling, so it terminates on every input. The
/// invariant below records that the candidate never exceeds the larger of the
/// initial bound and the block's true decoded length.
#[verifier::loop_isolation(false)]
pub fn decompress_to_unknown_size(src: &[u8]) -> (r: Result<Vec<u8>, DecompressError>)
    requires
        lz4_input_ok(src@.len() as int),
    ensures
        lz4_discovery_post(src@, r),
{
    let mut output_size: usize = lz4_max_output_size(src.len());
    if output_size > MAX_DISCOVER_OUTPUT_SIZE {
        return Err(DecompressError::OutputTooLarge);
    }
    loop
        invariant
            output_size <= MAX_DISCOVER_OUTPUT_SIZE,
            lz4_decoded(src@) is Some ==> output_size as int <= vstd::math::max(
                lz4_max_output_bound(src@.len() as int),
                lz4_decoded(src@)->Some_0.len() as int,
            ),
        decreases MAX_DISCOVER_OUTPUT_SIZE - output_size,
    {
        match lz4_decode_block(src, output_size) {
            Lz4Outcome::Done(v) => {
                return Ok(v);
            },
            Lz4Outcome::TooSmall(expected, _) => {
                if expected > MAX_DISCOVER_OUTPUT_SIZE {
                    return Err(DecompressError::OutputTooLarge);
                }
                output_size = expected;
            },
            Lz4Outcome::Fatal(msg) => {
                return Err(DecompressError::Decode(msg));
            },
        }
    }
}

/// Decompress a headerless LZ4 block.
///
/// A non-negative `uncompressed_size` is trusted as the exact target
/// capacity: any decode failure is surfaced as a `Decode` error with the
/// codec's message, with no retry. A negative `uncompressed_size` requests
/// discovery mode (see [`decompress_to_unknown_size`]).
pub fn decompress(src: &[u8], uncompressed_size: isize) -> (r: Result<Vec<u8>, DecompressError>)
    requires
        lz4_input_ok(src@.len() as int),
    ensures
        uncompressed_size < 0 ==> lz4_discovery_post(src@, r),
        uncompressed_size >= 0 ==> lz4_sized_post(src@, uncompressed_size as int, r),
{
    if uncompressed_size < 0 {
        decompress_to_unknown_size(src)
    } else {
        match lz4_decode_block(src, uncompressed_size as usize) {
            Lz4Outcome::Done(v) => Ok(v),
            Lz4Outcome::TooSmall(_, msg) => Err(DecompressError::Decode(msg)),
            Lz4Outcome::Fatal(msg) => Err(DecompressError::Decode(msg)),
        }
    }
}

/// Law: a block that decodes at all decodes to a single byte sequence — the
/// decoded bytes are a function of the input alone, so repeated calls with
/// the same input recover byte-identical output.
pub proof fn lemma_lz4_deterministic(src: Seq<u8>, d1: Seq<u8>, d2: Seq<u8>)
    requires
        lz4_decoded(src) == Some(d1),
        lz4_decoded(src) == Some(d2),
    ensures
        d1 == d2,
{
}

/// Law: the size-known path and the discovery path recover the same bytes.
/// For a block that decodes to `d`, decompression with the exact size
/// `d.len()` returns `Ok` with exactly `d`, and, whenever the initial
/// candidate bound and `d.len()` lie under the discovery ceiling, so does
/// discovery mode.
pub proof fn lemma_lz4_roundtrip_agreement(
    src: Seq<u8>,
    d: Seq<u8>,
    r_sized: Result<Vec<u8>, DecompressError>,
    r_discovery: Result<Vec<u8>, DecompressError>,
)
    requires
        lz4_decoded(src) == Some(d),
        d.len() <= MAX_DISCOVER_OUTPUT_SIZE,
        lz4_max_output_bound(src.len() as int) <= MAX_DISCOVER_OUTPUT_SIZE as int,
        lz4_sized_post(src, d.len() as int, r_sized),
        lz4_discovery_post(src, r_discovery),
    ensures
        r_sized matches Ok(v) && v@ == d,
        r_discovery matches Ok(v) && v@ == d,
{
}

/// Law: the discovery-mode contract pins the observable outcome — any two
/// results that satisfy it agree on success, and successful results carry
/// identical bytes.
pub proof fn lemma_lz4_discovery_deterministic(
    src: Seq<u8>,
    r1: Result<Vec<u8>, DecompressError>,
    r2: Result<Vec<u8>, DecompressError>,
)
    requires
        lz4_discovery_post(src, r1),
        lz4_discovery_post(src, r2),
    ensures
        r1 is Ok <==> r2 is Ok,
        (match (r1, r2) {
            (Ok(v1), Ok(v2)) => v1@ == v2@,
            _ => true,
        }),
{
    match (r1, r2) {
        (Ok(v1), Ok(v2)) => {
            assert(lz4_decoded(src) == Some(v1@));
            assert(lz4_decoded(src) == Some(v2@));
        },
        _ => {},
    }
}

} // verus!
