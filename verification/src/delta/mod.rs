//! Delta sync: block size choice, the block checksums the delta engine
//! matches against, and the operations a delta is made of.

use vstd::prelude::*;

pub mod ops;

verus! {

/// Smallest block size used for delta checksums.
pub const MIN_BLOCK_SIZE: usize = 512;

/// Largest block size used for delta checksums (128KB).
pub const MAX_BLOCK_SIZE: usize = 131072;

/// `r` is the integer square root of `n`: the largest `r` with `r * r <= n`.
pub open spec fn is_isqrt(n: int, r: int) -> bool {
    0 <= r && r * r <= n < (r + 1) * (r + 1)
}

/// The block size for a file of `n` bytes: the square root of the size, kept
/// between `MIN_BLOCK_SIZE` and `MAX_BLOCK_SIZE`.
pub open spec fn spec_block_size(n: int, r: int) -> bool {
    &&& MIN_BLOCK_SIZE <= r <= MAX_BLOCK_SIZE
    &&& MIN_BLOCK_SIZE < r < MAX_BLOCK_SIZE ==> is_isqrt(n, r)
    &&& r == MIN_BLOCK_SIZE ==> n < (MIN_BLOCK_SIZE + 1) * (MIN_BLOCK_SIZE + 1)
    &&& r == MAX_BLOCK_SIZE ==> n >= MAX_BLOCK_SIZE * MAX_BLOCK_SIZE
}

proof fn lemma_square_monotonic(a: int, b: int)
    requires
        0 <= a <= b,
    ensures
        a * a <= b * b,
{
    assert(a * a <= b * b) by (nonlinear_arith)
        requires
            0 <= a <= b,
    ;
}

/// Default block size calculation: the integer square root of the file size,
/// capped between 512 bytes and 128KB.
pub fn calculate_block_size(file_size: u64) -> (r: usize)
    ensures
        spec_block_size(file_size as int, r as int),
{
    if file_size < 513 * 513 {
        return MIN_BLOCK_SIZE;
    }
    if file_size >= 131072 * 131072 {
        return MAX_BLOCK_SIZE;
    }
    // lo * lo <= file_size < hi * hi
    let mut lo: u64 = 513;
    let mut hi: u64 = 131072;
    while hi - lo > 1
        invariant
            513 <= lo < hi <= 131072,
            lo * lo <= file_size < hi * hi,
        decreases hi - lo,
    {
        let mid = lo + (hi - lo) / 2;
        proof {
            lemma_square_monotonic(mid as int, 131072);
        }
        if mid * mid <= file_size {
            lo = mid;
        } else {
            hi = mid;
        }
    }
    proof {
        assert(hi == lo + 1);
        lemma_square_monotonic(lo as int, 131072);
    }
    lo as usize
}

// =============================================================================
// Delta engine block checksums
// =============================================================================

/// A checksum of one destination block, as the delta engine matches against it.
#[derive(Debug, Clone, Copy)]
pub struct BlockChecksum {
    /// Position of the block among the destination's blocks.
    pub index: u64,
    /// Byte offset of the block in the destination file.
    pub offset: u64,
    /// Length of the block; only the last block may be shorter than the block size.
    pub size: usize,
    pub weak: u32,
    pub strong: u64,
}

// =============================================================================
// Delta operations and their wire encoding
// =============================================================================

/// Largest size of one copy or literal operation (16MB).
pub const MAX_DELTA_COPY_SIZE: usize = 16 * 1024 * 1024;

/// One step of rebuilding a file from the destination's old copy.
#[derive(Debug)]
pub enum DeltaOp {
    /// Copy `size` bytes from `offset` of the old file.
    Copy { offset: u64, size: usize },
    /// Insert these bytes.
    Data(Vec<u8>),
}

/// A delta operation taken as plain values.
pub enum DeltaOpView {
    Copy { offset: u64, size: usize },
    Data(Seq<u8>),
}

impl View for DeltaOp {
    type V = DeltaOpView;

    open spec fn view(&self) -> DeltaOpView {
        match self {
            DeltaOp::Copy { offset, size } => DeltaOpView::Copy { offset: *offset, size: *size },
            DeltaOp::Data(d) => DeltaOpView::Data(d@),
        }
    }
}

} // verus!
