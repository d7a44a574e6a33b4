//! Planning a multipart upload: split a file of a known size into
//! contiguous byte ranges whose sizes the storage service accepts.

use vstd::prelude::*;

verus! {

/// Smallest part size the storage service accepts, except for a
/// single-part upload of a file smaller than this bound.
pub const MIN_PART_SIZE: usize = 5_242_880;

/// Largest part size the storage service accepts. Held as a `u64`:
/// the bound itself does not fit a 32-bit `usize`.
pub const MAX_PART_SIZE: u64 = 5_368_709_120;

/// Part size used to derive a part count when none is requested.
pub const DEFAULT_PART_SIZE: usize = 8_388_608;

/// Largest number of parts one upload may hold.
pub const MAX_PARTS: usize = 10_000;

/// One contiguous byte range of the file, to be uploaded as one part.
#[derive(PartialEq, Eq, Structural, Clone, Copy, Debug)]
pub struct PartRange {
    /// Byte offset of the range's first byte within the file.
    pub offset: usize,
    /// Number of bytes in the range.
    pub len: usize,
}

/// Why a partition request was rejected.
#[derive(PartialEq, Eq, Structural, Clone, Copy, Debug)]
pub enum PartitionError {
    /// A part count of zero was requested.
    InvalidPartCount,
    /// No part count was requested and the default part size would
    /// need more parts than the service allows.
    CannotDerivePartCount,
    /// The computed part size falls below the service's minimum.
    PartSizeTooSmall,
    /// A part would exceed the service's maximum size.
    PartSizeTooLarge,
}

/// The part count the planner works with: the requested one, or one
/// derived from the file size and the default part size.
pub open spec fn spec_part_count(total: int, requested: Option<usize>) -> Option<int> {
    match requested {
        Some(n) => if n >= 1 { Some(n as int) } else { None },
        None => {
            let derived = total / (DEFAULT_PART_SIZE as int);
            if derived > MAX_PARTS as int {
                None
            } else if derived == 0 {
                Some(1)
            } else {
                Some(derived)
            }
        },
    }
}

/// Size of every part but the last: the file size divided by the part
/// count, rounded down.
pub open spec fn spec_base_len(total: int, k: int) -> int {
    total / k
}

/// Size of the last part: the base size plus the division remainder,
/// so that the parts cover the file exactly.
pub open spec fn spec_last_len(total: int, k: int) -> int {
    total - (k - 1) * spec_base_len(total, k)
}

/// Size of part `i` (0-based) in a partition of `total` bytes into `k` parts.
pub open spec fn spec_part_len(total: int, k: int, i: int) -> int {
    if i == k - 1 {
        spec_last_len(total, k)
    } else {
        spec_base_len(total, k)
    }
}

/// Offset of part `i` (0-based).
pub open spec fn spec_part_offset(total: int, k: int, i: int) -> int {
    i * spec_base_len(total, k)
}

/// Whether a partition of `total` bytes into `k` parts respects the
/// service's size bounds: a single part need only stay under the
/// maximum (the service accepts one part below the minimum), while
/// with two or more parts the base size must reach the minimum and
/// the enlarged last part must stay under the maximum.
pub open spec fn spec_bounds_ok(total: int, k: int) -> bool {
    if k == 1 {
        total <= MAX_PART_SIZE as int
    } else {
        &&& spec_base_len(total, k) >= MIN_PART_SIZE as int
        &&& spec_last_len(total, k) <= MAX_PART_SIZE as int
    }
}

/// The error a rejected partition request reports, given the chosen
/// part count (`None` when no count could be chosen at all).
pub open spec fn spec_partition_error(total: int, requested: Option<usize>) -> PartitionError {
    match spec_part_count(total, requested) {
        None => if requested is Some {
            PartitionError::InvalidPartCount
        } else {
            PartitionError::CannotDerivePartCount
        },
        Some(k) => if k >= 2 && spec_base_len(total, k) < MIN_PART_SIZE as int {
            PartitionError::PartSizeTooSmall
        } else {
            PartitionError::PartSizeTooLarge
        },
    }
}

/// Basic arithmetic facts about a partition of `total` bytes into `k`
/// parts: the base size is nonnegative, the last part is the base
/// size plus the division remainder, and part offsets stay within the
/// file.
pub proof fn lemma_partition_arith(total: int, k: int)
    requires
        total >= 0,
        k >= 1,
    ensures
        spec_base_len(total, k) >= 0,
        0 <= total % k < k,
        total == k * spec_base_len(total, k) + total % k,
        spec_last_len(total, k) == spec_base_len(total, k) + total % k,
        (k - 1) * spec_base_len(total, k) + spec_last_len(total, k) == total,
        (k - 1) * spec_base_len(total, k) <= total,
        forall|i: int|
            0 <= i <= k - 1 ==> #[trigger] (i * spec_base_len(total, k)) <= (k - 1)
                * spec_base_len(total, k),
{
    let base = spec_base_len(total, k);
    vstd::arithmetic::div_mod::lemma_fundamental_div_mod(total, k);
    vstd::arithmetic::div_mod::lemma_mod_bound(total, k);
    vstd::arithmetic::div_mod::lemma_div_pos_is_pos(total, k);
    assert((k - 1) * base == k * base - base) by (nonlinear_arith);
    assert forall|i: int| 0 <= i <= k - 1 implies #[trigger] (i * base) <= (k - 1) * base by {
        vstd::arithmetic::mul::lemma_mul_inequality(i, k - 1, base);
    }
}

/// Plan a partition of a file of `total_len` bytes into parts the
/// storage service will accept.
///
/// With a requested part count the plan has exactly that many parts;
/// without one the count is derived from the default part size, a
/// file smaller than that size becoming a single part. Every part but
/// the last holds `total_len / count` bytes and the last also absorbs
/// the division remainder, so the ranges cover the file exactly. The
/// request is rejected, before any upload work, when the count is
/// zero or underivable or when a part size breaks the service bounds.
pub fn plan_parts(total_len: usize, requested: Option<usize>) -> (r: Result<
    Vec<PartRange>,
    PartitionError,
>)
    ensures
        match spec_part_count(total_len as int, requested) {
            Some(k) => if spec_bounds_ok(total_len as int, k) {
                &&& r matches Ok(parts)
                &&& parts@.len() == k
                &&& forall|i: int|
                    0 <= i < k ==> (#[trigger] parts@[i]).offset == spec_part_offset(
                        total_len as int,
                        k,
                        i,
                    ) && parts@[i].len == spec_part_len(total_len as int, k, i)
            } else {
                r == Err::<Vec<PartRange>, _>(spec_partition_error(total_len as int, requested))
            },
            None => r == Err::<Vec<PartRange>, _>(
                spec_partition_error(total_len as int, requested),
            ),
        },
{
    let k: usize = match requested {
        Some(n) => {
            if n == 0 {
                return Err(PartitionError::InvalidPartCount);
            }
            n
        },
        None => {
            let derived: usize = total_len / DEFAULT_PART_SIZE;
            if derived > MAX_PARTS {
                return Err(PartitionError::CannotDerivePartCount);
            }
            if derived == 0 {
                1
            } else {
                derived
            }
        },
    };
    let base: usize = total_len / k;
    let rem: usize = total_len % k;
    proof {
        lemma_partition_arith(total_len as int, k as int);
    }
    if k == 1 {
        if total_len as u64 > MAX_PART_SIZE {
            return Err(PartitionError::PartSizeTooLarge);
        }
    } else {
        if base < MIN_PART_SIZE {
            return Err(PartitionError::PartSizeTooSmall);
        }
        if base as u64 > MAX_PART_SIZE || rem as u64 > MAX_PART_SIZE - base as u64 {
            return Err(PartitionError::PartSizeTooLarge);
        }
    }
    let ghost t = total_len as int;
    let ghost kk = k as int;
    let mut parts: Vec<PartRange> = Vec::new();
    let mut off: usize = 0;
    let mut i: usize = 0;
    while i < k - 1
        invariant
            1 <= k,
            k <= usize::MAX,
            t == total_len as int,
            kk == k as int,
            base == spec_base_len(t, kk),
            0 <= i <= k - 1,
            off == i * spec_base_len(t, kk),
            (k - 1) * spec_base_len(t, kk) <= t,
            forall|j: int|
                0 <= j <= kk - 1 ==> #[trigger] (j * spec_base_len(t, kk)) <= (kk - 1)
                    * spec_base_len(t, kk),
            parts@.len() == i,
            forall|j: int|
                0 <= j < i ==> (#[trigger] parts@[j]).offset == spec_part_offset(t, kk, j)
                    && parts@[j].len == spec_base_len(t, kk),
        decreases k - 1 - i,
    {
        proof {
            assert((i + 1) * spec_base_len(t, kk) == i * spec_base_len(t, kk) + spec_base_len(
                t,
                kk,
            )) by (nonlinear_arith);
        }
        parts.push(PartRange { offset: off, len: base });
        off = off + base;
        i = i + 1;
    }
    parts.push(PartRange { offset: off, len: total_len - off });
    Ok(parts)
}

/// Copy each planned byte range out of the file buffer, in order.
pub fn slice_parts(data: &Vec<u8>, parts: &Vec<PartRange>) -> (chunks: Vec<Vec<u8>>)
    requires
        forall|i: int|
            0 <= i < parts@.len() ==> (#[trigger] parts@[i]).offset + parts@[i].len <= data@.len(),
    ensures
        chunks@.len() == parts@.len(),
        forall|i: int|
            0 <= i < parts@.len() ==> (#[trigger] chunks@[i])@ == data@.subrange(
                parts@[i].offset as int,
                parts@[i].offset + parts@[i].len,
            ),
{
    let mut chunks: Vec<Vec<u8>> = Vec::new();
    let mut i: usize = 0;
    while i < parts.len()
        invariant
            i <= parts@.len(),
            forall|t: int|
                0 <= t < parts@.len() ==> (#[trigger] parts@[t]).offset + parts@[t].len
                    <= data@.len(),
            chunks@.len() == i,
            forall|t: int|
                0 <= t < i ==> (#[trigger] chunks@[t])@ == data@.subrange(
                    parts@[t].offset as int,
                    parts@[t].offset + parts@[t].len,
                ),
        decreases parts@.len() - i,
    {
        let p = parts[i];
        let dlen: usize = data.len();
        assert(p.offset + p.len <= dlen);
        let end: usize = p.offset + p.len;
        let mut chunk: Vec<u8> = Vec::new();
        let mut j: usize = p.offset;
        while j < end
            invariant
                p.offset <= j <= end,
                end == p.offset + p.len,
                end <= data@.len(),
                chunk@ == data@.subrange(p.offset as int, j as int),
            decreases end - j,
        {
            chunk.push(data[j]);
            proof {
                assert(data@.subrange(p.offset as int, j + 1) =~= data@.subrange(
                    p.offset as int,
                    j as int,
                ).push(data@[j as int]));
            }
            j = j + 1;
        }
        chunks.push(chunk);
        i = i + 1;
    }
    chunks
}

/// Part `i` of `data` split into `k` parts, as a byte sequence.
pub open spec fn spec_chunk(data: Seq<u8>, k: int, i: int) -> Seq<u8> {
    data.subrange(
        spec_part_offset(data.len() as int, k, i),
        spec_part_offset(data.len() as int, k, i) + spec_part_len(data.len() as int, k, i),
    )
}

/// All `k` parts of `data`, in order.
pub open spec fn spec_chunks(data: Seq<u8>, k: int) -> Seq<Seq<u8>> {
    Seq::new(k as nat, |i: int| spec_chunk(data, k, i))
}

/// Concatenation of a sequence of byte sequences, front to back.
pub open spec fn concat_bytes(chunks: Seq<Seq<u8>>) -> Seq<u8>
    decreases chunks.len(),
{
    if chunks.len() == 0 {
        Seq::empty()
    } else {
        chunks.first() + concat_bytes(chunks.drop_first())
    }
}

proof fn lemma_concat_from(data: Seq<u8>, k: int, i: int)
    requires
        1 <= k,
        0 <= i <= k - 1,
    ensures
        concat_bytes(spec_chunks(data, k).skip(i)) == data.subrange(
            i * spec_base_len(data.len() as int, k),
            data.len() as int,
        ),
    decreases k - i,
{
    let t = data.len() as int;
    let base = spec_base_len(t, k);
    lemma_partition_arith(t, k);
    vstd::arithmetic::mul::lemma_mul_nonnegative(i, base);
    let chunks = spec_chunks(data, k);
    let tail = chunks.skip(i);
    assert(tail.first() == spec_chunk(data, k, i));
    if i == k - 1 {
        assert(tail.drop_first().len() == 0);
        assert(concat_bytes(tail.drop_first()) == Seq::<u8>::empty());
        assert(spec_chunk(data, k, i) + Seq::<u8>::empty() =~= spec_chunk(data, k, i));
        assert(i * base + spec_last_len(t, k) == t);
    } else {
        assert((i + 1) * base == i * base + base) by (nonlinear_arith);
        vstd::arithmetic::mul::lemma_mul_nonnegative(i + 1, base);
        lemma_concat_from(data, k, i + 1);
        assert(tail.drop_first() =~= chunks.skip(i + 1));
        assert(data.subrange(i * base, (i + 1) * base) + data.subrange((i + 1) * base, t)
            =~= data.subrange(i * base, t));
    }
}

/// Law: the planned byte ranges start at the file's first byte, are
/// contiguous and non-overlapping, and concatenating the parts they
/// cut out of the file reconstructs the file exactly.
pub proof fn lemma_partition_reconstructs(data: Seq<u8>, k: int)
    requires
        1 <= k,
        MIN_PART_SIZE as int <= spec_base_len(data.len() as int, k),
        spec_base_len(data.len() as int, k) <= MAX_PART_SIZE as int,
    ensures
        spec_part_offset(data.len() as int, k, 0) == 0,
        forall|i: int|
            0 <= i < k - 1 ==> #[trigger] spec_part_offset(data.len() as int, k, i)
                + spec_part_len(data.len() as int, k, i) == spec_part_offset(
                data.len() as int,
                k,
                i + 1,
            ),
        spec_part_offset(data.len() as int, k, k - 1) + spec_part_len(data.len() as int, k, k - 1)
            == data.len(),
        concat_bytes(spec_chunks(data, k)) == data,
{
    let t = data.len() as int;
    let base = spec_base_len(t, k);
    lemma_partition_arith(t, k);
    assert(0 * base == 0) by (nonlinear_arith);
    assert forall|i: int| 0 <= i < k - 1 implies #[trigger] spec_part_offset(t, k, i)
        + spec_part_len(t, k, i) == spec_part_offset(t, k, i + 1) by {
        assert((i + 1) * base == i * base + base) by (nonlinear_arith);
    }
    lemma_concat_from(data, k, 0);
    assert(spec_chunks(data, k).skip(0) =~= spec_chunks(data, k));
    assert(data.subrange(0, t) =~= data);
}

/// Law: every accepted partition gives its final part at least the
/// minimum part size, except when the file itself is smaller than
/// that minimum and forms a single part, which the service accepts.
pub proof fn lemma_final_part_meets_minimum(total: int, k: int)
    requires
        total >= 0,
        k >= 1,
        spec_bounds_ok(total, k),
    ensures
        spec_last_len(total, k) >= MIN_PART_SIZE as int || (k == 1 && total
            < MIN_PART_SIZE as int),
{
    lemma_partition_arith(total, k);
    if k == 1 {
        assert(0 * spec_base_len(total, 1) == 0) by (nonlinear_arith);
    }
}

} // verus!
