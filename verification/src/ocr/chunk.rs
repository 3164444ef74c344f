//! Splitting a page into horizontal bands of bounded height.

use vstd::prelude::*;

verus! {

/// Rows that go to the recogniser at once, unless the caller says otherwise.
pub const DEFAULT_CHUNK_HEIGHT: u32 = 3000;

/// A horizontal band of a page: a window, not a copy of the pixels.
#[derive(Clone, Copy, Debug, PartialEq, Eq, Structural)]
pub struct Chunk {
    /// Rows between the top of the page and the top of the band.
    pub offset_y: u32,
    /// Width of the band, which is the width of the page.
    pub width: u32,
    /// Number of rows in the band.
    pub height: u32,
}

/// Number of bands that a page of `height` rows splits into.
pub open spec fn chunk_count(height: int, limit: int) -> int {
    if limit <= 0 || height <= 0 {
        0
    } else {
        (height + limit - 1) / limit
    }
}

/// The band with index `i` of a page.
pub open spec fn chunk_at(i: int, width: u32, height: u32, limit: u32) -> Chunk {
    let top = i * limit;
    let rest = height - top;
    Chunk {
        offset_y: top as u32,
        width,
        height: (if rest < limit { rest } else { limit as int }) as u32,
    }
}

/// The bands of a page, top to bottom.
pub open spec fn chunks_of(width: u32, height: u32, limit: u32) -> Seq<Chunk> {
    Seq::new(chunk_count(height as int, limit as int) as nat, |i: int| chunk_at(i, width, height, limit))
}

/// Sum of the heights of the first `n` bands.
pub open spec fn height_sum(chunks: Seq<Chunk>, n: int) -> int
    decreases n,
{
    if n <= 0 {
        0
    } else {
        height_sum(chunks, n - 1) + chunks[n - 1].height
    }
}

proof fn lemma_count_bounds(height: int, limit: int)
    requires
        0 < limit,
        0 < height,
    ensures
        (chunk_count(height, limit) - 1) * limit < height,
        height <= chunk_count(height, limit) * limit,
        chunk_count(height, limit) >= 1,
{
    let n = height + limit - 1;
    assert(n == limit * (n / limit) + n % limit) by {
        vstd::arithmetic::div_mod::lemma_fundamental_div_mod(n, limit);
    }
    assert(0 <= n % limit < limit) by {
        vstd::arithmetic::div_mod::lemma_mod_bound(n, limit);
    }
    let q = n / limit;
    assert((q - 1) * limit == q * limit - limit) by (nonlinear_arith);
    assert(limit * q == q * limit) by (nonlinear_arith);
    assert(q >= 1) by (nonlinear_arith)
        requires
            q * limit + limit > height,
            limit > 0,
            height > 0,
            q * limit >= height,
    ;
}

/// Splits a page of `height` rows into bands of at most `limit` rows.
///
/// A page without rows, or a limit of zero, gives no band.
pub fn chunk_rows(width: u32, height: u32, limit: u32) -> (chunks: Vec<Chunk>)
    ensures
        chunks@ == chunks_of(width, height, limit),
{
    let mut chunks: Vec<Chunk> = Vec::new();
    if limit == 0 || height == 0 {
        assert(chunks@ =~= chunks_of(width, height, limit));
        return chunks;
    }
    proof {
        lemma_count_bounds(height as int, limit as int);
    }
    let ghost count = chunk_count(height as int, limit as int);
    let mut top: u32 = 0;
    assert(0 == chunks.len() * limit) by (nonlinear_arith)
        requires
            chunks.len() == 0,
    ;
    while top < height
        invariant
            limit > 0,
            height > 0,
            count == chunk_count(height as int, limit as int),
            (count - 1) * limit < height <= count * limit,
            top <= height,
            top == chunks.len() * limit || (top == height && chunks.len() == count),
            chunks.len() <= count,
            forall|i: int| 0 <= i < chunks.len() ==> chunks[i] == chunk_at(i, width, height, limit),
        decreases height - top,
    {
        let rest: u32 = height - top;
        let rows: u32 = if rest < limit { rest } else { limit };
        let ghost k = chunks.len() as int;
        assert(k < count) by (nonlinear_arith)
            requires
                top == k * limit,
                top < height,
                height <= count * limit,
                limit > 0,
        ;
        chunks.push(Chunk { offset_y: top, width, height: rows });
        assert(chunks[k] == chunk_at(k, width, height, limit));
        if rest <= limit {
            assert(k + 1 == count) by (nonlinear_arith)
                requires
                    top == k * limit,
                    height - top <= limit,
                    (count - 1) * limit < height,
                    k < count,
                    limit > 0,
            ;
            top = height;
        } else {
            assert((k + 1) * limit == k * limit + limit) by (nonlinear_arith);
            top = top + limit;
        }
    }
    assert(chunks.len() == count) by (nonlinear_arith)
        requires
            top == height,
            top == chunks.len() * limit || chunks.len() == count,
            (count - 1) * limit < height,
            chunks.len() <= count,
            limit > 0,
    ;
    assert(chunks@ =~= chunks_of(width, height, limit));
    chunks
}

/// Where the first `n` bands end: the rows they cover together.
pub open spec fn rows_covered(height: u32, limit: u32, n: int) -> int {
    if n * limit < height {
        n * limit
    } else {
        height as int
    }
}

proof fn lemma_height_sum(width: u32, height: u32, limit: u32, n: int)
    requires
        limit > 0,
        0 <= n <= chunk_count(height as int, limit as int),
    ensures
        height_sum(chunks_of(width, height, limit), n) == rows_covered(height, limit, n),
    decreases n,
{
    let chunks = chunks_of(width, height, limit);
    if n > 0 {
        lemma_height_sum(width, height, limit, n - 1);
        lemma_count_bounds(height as int, limit as int);
        let count = chunk_count(height as int, limit as int);
        assert((n - 1) * limit < height && (n - 1) * limit + limit == n * limit) by (nonlinear_arith)
            requires
                (count - 1) * limit < height,
                1 <= n <= count,
                limit > 0,
        ;
        assert(chunks[n - 1] == chunk_at(n - 1, width, height, limit));
    } else {
        assert(0 * limit == 0) by (nonlinear_arith);
    }
}

/// The bands of a page cover its rows exactly once: the first starts at the
/// top, each of the others starts where the one before it ends, the last
/// ends at the bottom, none is empty or taller than the limit, and their
/// heights add up to the height of the page.
pub proof fn lemma_chunks_partition(width: u32, height: u32, limit: u32)
    requires
        limit > 0,
    ensures
        chunks_of(width, height, limit).len() == chunk_count(height as int, limit as int),
        forall|i: int|
            0 <= i < chunks_of(width, height, limit).len() ==> {
                let c = #[trigger] chunks_of(width, height, limit)[i];
                &&& c.offset_y == i * limit
                &&& c.width == width
                &&& 0 < c.height <= limit
                &&& c.offset_y + c.height <= height
            },
        forall|i: int|
            0 <= i < chunks_of(width, height, limit).len() - 1 ==> {
                let c = #[trigger] chunks_of(width, height, limit)[i];
                c.offset_y + c.height == chunks_of(width, height, limit)[i + 1].offset_y
            },
        height > 0 ==> chunks_of(width, height, limit).len() > 0 && chunks_of(
            width,
            height,
            limit,
        )[0].offset_y == 0 && chunks_of(width, height, limit).last().offset_y + chunks_of(
            width,
            height,
            limit,
        ).last().height == height,
        height_sum(chunks_of(width, height, limit), chunks_of(width, height, limit).len() as int)
            == height,
{
    let chunks = chunks_of(width, height, limit);
    let count = chunk_count(height as int, limit as int);
    if height > 0 {
        lemma_count_bounds(height as int, limit as int);
        assert forall|i: int| 0 <= i < chunks.len() implies {
            let c = #[trigger] chunks[i];
            &&& c.offset_y == i * limit
            &&& c.width == width
            &&& 0 < c.height <= limit
            &&& c.offset_y + c.height <= height
            &&& (i < count - 1 ==> c.height == limit)
            &&& (i == count - 1 ==> c.offset_y + c.height == height)
        } by {
            assert(0 <= i * limit < height && (i < count - 1 ==> i * limit + limit < height) && (i
                == count - 1 ==> height - i * limit <= limit)) by (nonlinear_arith)
                requires
                    (count - 1) * limit < height <= count * limit,
                    0 <= i < count,
                    limit > 0,
            ;
            assert(chunks[i] == chunk_at(i, width, height, limit));
        }
        assert forall|i: int| 0 <= i < chunks.len() - 1 implies {
            let c = #[trigger] chunks[i];
            c.offset_y + c.height == chunks[i + 1].offset_y
        } by {
            assert(chunks[i + 1].offset_y == (i + 1) * limit);
            assert((i + 1) * limit == i * limit + limit) by (nonlinear_arith);
        }
        assert(chunks[0].offset_y == 0 * limit);
        assert(0 * limit == 0) by (nonlinear_arith);
    }
    lemma_height_sum(width, height, limit, count);
    if height > 0 {
        assert(count * limit >= height);
    } else {
        assert(0 * limit == 0) by (nonlinear_arith);
    }
}

} // verus!
