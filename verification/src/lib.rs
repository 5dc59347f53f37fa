//! Chunked retrieval of a single remote resource over a plain
//! request/response byte protocol: header/body splitting, content-length
//! discovery, fixed-window range bookkeeping, ordered reassembly, and a
//! digest over the collected bytes.

use vstd::prelude::*;

mod decimal;
mod digest;
mod headers;
mod session;
mod splitter;

pub use decimal::dec_repr;
pub use decimal::decimal_of;
pub use decimal::lemma_decimal_round_trip;
pub use decimal::range_text;
pub use digest::digest_hex;
pub use digest::hex_of;
pub use digest::hex_string;
pub use digest::sha256_of;
pub use headers::all_digits;
pub use headers::content_length_of;
pub use headers::content_length_spec;
pub use headers::dec_val;
pub use headers::discover_size;
pub use session::Action;
pub use session::Phase;
pub use session::Session;
pub use session::lemma_assembly;
pub use session::lemma_zero_total;
pub use splitter::body_of;
pub use splitter::extract_body;
pub use splitter::has_sep;
pub use splitter::has_separator;
pub use splitter::is_separator_at;
pub use splitter::lemma_body_after_first_separator;
pub use splitter::lemma_body_without_separator;

verus! {

/// The fixed maximum number of bytes requested per ranged fetch: 64 KiB.
pub const WINDOW: usize = 65536;

/// A fatal failure of a run; either kind aborts it at once.
#[derive(Clone, Copy, Debug, PartialEq, Eq, Structural)]
pub enum FetchError {
    /// Size discovery found no content-length line whose value parses.
    MissingLength,
    /// A transport-level failure during connect, send or read.
    Connection,
}

/// The inclusive byte range of the chunk request issued at `position`:
/// exactly one window starting there.
pub fn chunk_range(position: usize) -> (r: (usize, usize))
    requires
        position + WINDOW - 1 <= usize::MAX,
    ensures
        r.0 == position,
        r.1 == position + WINDOW - 1,
{
    (position, position + (WINDOW - 1))
}

} // verus!
