//! Decompression front-end for two legacy headerless block-compression
//! formats.
//!
//! The crate recovers the original bytes from a compressed buffer together
//! with optional size hints:
//!
//! - [`lz4::decompress`] decodes a headerless LZ4 block, discovering the
//!   decoded size by iterative retry when the caller does not know it.
//! - [`lzo::decompress`] decodes a headerless LZO stream, optionally parsing
//!   a five-byte compatibility header that carries the expected length.
//!
//! The byte-level entropy decoding itself is performed by external codec
//! libraries behind narrow, documented assumptions; everything around those
//! calls — size discovery, header parsing, length resolution, structural
//! validation of the LZO instruction stream, and error classification — is
//! verified.

pub mod errors;
pub mod lz4;
pub mod lzo;
