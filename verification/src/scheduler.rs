//! How the output buffer is cut into chunks of pixels that workers render
//! independently, and where each pixel of a chunk lies in the image.

use vstd::prelude::*;

verus! {

/// The number of outer chunks that a frame is cut into, one after another.
pub const OUTER_CHUNKS: usize = 100;

/// The quotient rounded up.
pub open spec fn ceil_quotient(dividend: int, divisor: int) -> int {
    if dividend % divisor == 0 {
        dividend / divisor
    } else {
        dividend / divisor + 1
    }
}

/// How many chunks of `size` items a buffer of `total` items is cut into,
/// the last of which may be shorter.
pub open spec fn chunk_count(total: int, size: int) -> int {
    ceil_quotient(total, size)
}

/// The length of chunk `k` of a buffer of `total` items cut into chunks of
/// `size` items.
pub open spec fn chunk_len(total: int, size: int, k: int) -> int {
    if (k + 1) * size <= total {
        size
    } else if k * size < total {
        total - k * size
    } else {
        0
    }
}

/// The index in the buffer of item `i` of chunk `k`.
pub open spec fn item_index(size: int, k: int, i: int) -> int {
    k * size + i
}

/// The rounded-up quotient is the least number of chunks of `divisor` items
/// that hold `dividend` items.
pub proof fn lemma_ceil_quotient(dividend: int, divisor: int)
    requires
        0 <= dividend,
        0 < divisor,
    ensures
        0 <= ceil_quotient(dividend, divisor) <= dividend,
        ceil_quotient(dividend, divisor) * divisor >= dividend,
        (ceil_quotient(dividend, divisor) - 1) * divisor < dividend || dividend == 0,
        dividend > 0 ==> ceil_quotient(dividend, divisor) >= 1,
        divisor >= dividend && dividend > 0 ==> ceil_quotient(dividend, divisor) == 1,
{
    let q = dividend / divisor;
    let r = dividend % divisor;
    assert(dividend == q * divisor + r && 0 <= r < divisor && 0 <= q <= dividend) by (nonlinear_arith)
        requires
            0 <= dividend,
            0 < divisor,
            q == dividend / divisor,
            r == dividend % divisor,
    ;
    assert((q + 1) * divisor == q * divisor + divisor) by (nonlinear_arith);
    assert((q - 1) * divisor == q * divisor - divisor) by (nonlinear_arith);
    if r != 0 {
        assert(q + 1 <= dividend) by (nonlinear_arith)
            requires
                dividend == q * divisor + r,
                0 < r < divisor,
                0 <= q,
        ;
    }
    if dividend > 0 && r == 0 {
        assert(q >= 1) by (nonlinear_arith)
            requires
                dividend == q * divisor,
                0 < dividend,
                0 <= q,
        ;
    }
    if divisor >= dividend && dividend > 0 {
        if r == 0 {
            assert(q == 1) by (nonlinear_arith)
                requires
                    dividend == q * divisor,
                    0 < dividend <= divisor,
                    0 <= q,
            ;
        } else {
            assert(q == 0) by (nonlinear_arith)
                requires
                    dividend == q * divisor + r,
                    0 < r,
                    dividend <= divisor,
                    0 < divisor,
                    0 <= q,
            ;
        }
    }
}

/// Divides, rounding up.
pub fn ceil_divide(dividend: usize, divisor: usize) -> (q: usize)
    requires
        divisor > 0,
    ensures
        q == ceil_quotient(dividend as int, divisor as int),
{
    let division: usize = dividend / divisor;
    proof {
        lemma_ceil_quotient(dividend as int, divisor as int);
        assert(division * divisor + dividend % divisor == dividend && division * divisor
            <= dividend) by (nonlinear_arith)
            requires
                division == dividend / divisor,
                divisor > 0,
        ;
    }
    if division * divisor == dividend {
        division
    } else {
        division + 1
    }
}

/// Every item of a buffer lies in exactly one chunk, at one place in it:
/// item `index` is item `index % size` of chunk `index / size`, and no other
/// chunk and place give it.
pub proof fn lemma_chunks_partition(total: int, size: int, index: int)
    requires
        0 < size,
        0 <= index < total,
    ensures
        0 <= index / size < chunk_count(total, size),
        0 <= index % size < chunk_len(total, size, index / size),
        item_index(size, index / size, index % size) == index,
        forall|k: int, i: int|
            0 <= k && 0 <= i < chunk_len(total, size, k) && #[trigger] item_index(size, k, i)
                == index ==> k == index / size && i == index % size,
{
    let q = index / size;
    let r = index % size;
    assert(index == q * size + r && 0 <= r < size && 0 <= q) by (nonlinear_arith)
        requires
            0 <= index,
            0 < size,
            q == index / size,
            r == index % size,
    ;
    lemma_ceil_quotient(total, size);
    assert(q < chunk_count(total, size)) by (nonlinear_arith)
        requires
            q * size + r < total,
            0 <= r,
            chunk_count(total, size) * size >= total,
            0 < size,
    ;
    assert((q + 1) * size == q * size + size) by (nonlinear_arith);
    assert forall|k: int, i: int|
        0 <= k && 0 <= i < chunk_len(total, size, k) && #[trigger] item_index(size, k, i)
            == index implies k == q && i == r by {
        assert((k + 1) * size == k * size + size) by (nonlinear_arith);
        assert(i < size);
        assert(k == q) by (nonlinear_arith)
            requires
                k * size + i == q * size + r,
                0 <= i < size,
                0 <= r < size,
        ;
        assert(k * size == q * size);
    }
}

/// The chunks of a buffer are as many as `chunk_count` says, none of them
/// empty, and their lengths add up to the buffer: chunk `k` starts where the
/// `k` chunks before it end.
pub proof fn lemma_chunks_cover(total: int, size: int, k: int)
    requires
        0 < size,
        0 <= total,
        0 <= k,
    ensures
        k < chunk_count(total, size) <==> chunk_len(total, size, k) > 0,
        0 <= chunk_len(total, size, k) <= size,
        k * size + chunk_len(total, size, k) <= total || chunk_len(total, size, k) == 0,
        k + 1 < chunk_count(total, size) ==> chunk_len(total, size, k) == size,
{
    lemma_ceil_quotient(total, size);
    let n = chunk_count(total, size);
    assert((k + 1) * size == k * size + size) by (nonlinear_arith);
    assert((n - 1) * size == n * size - size) by (nonlinear_arith);
    if k < n {
        assert(k * size <= (n - 1) * size) by (nonlinear_arith)
            requires
                k <= n - 1,
                0 < size,
        ;
    } else {
        assert(k * size >= n * size) by (nonlinear_arith)
            requires
                k >= n,
                0 < size,
        ;
    }
    if k + 1 < n {
        assert((k + 1) * size <= (n - 1) * size) by (nonlinear_arith)
            requires
                k + 1 <= n - 1,
                0 < size,
        ;
    }
}

/// The length of chunk `k` of a buffer of `total` items cut into chunks of
/// `size` items: 0 for a chunk past the end.
pub fn chunk_length(total: usize, size: usize, k: usize) -> (len: usize)
    requires
        size > 0,
    ensures
        len == chunk_len(total as int, size as int, k as int),
{
    let full: usize = total / size;
    proof {
        assert(full * size + total % size == total && total % size < size) by (nonlinear_arith)
            requires
                full == total / size,
                size > 0,
        ;
        assert((k + 1) * size == k * size + size) by (nonlinear_arith);
        if k < full {
            assert((k + 1) * size <= full * size) by (nonlinear_arith)
                requires
                    k + 1 <= full,
                    size > 0,
            ;
        } else if k > full {
            assert(k * size >= full * size + size) by (nonlinear_arith)
                requires
                    k >= full + 1,
                    size > 0,
            ;
        }
    }
    if k < full {
        size
    } else if k == full {
        total - full * size
    } else {
        0
    }
}

/// The number of processors that the machine offers.
///
/// Calls `num_cpus::get`, which reads the scheduler's affinity mask and the
/// limits of the control group; its documentation promises at least 1, and
/// nothing more is assumed of it.
#[verifier::external_body]
fn cpu_count() -> (n: usize)
    ensures
        n >= 1,
{
    num_cpus::get()
}

/// How one frame is cut up: into outer chunks, rendered one after another,
/// and each of those into inner chunks, rendered in parallel.
#[derive(Clone, Copy, Debug, PartialEq, Eq, Structural)]
pub struct Tiling {
    pub width: usize,
    pub height: usize,
    pub outer_chunk_size: usize,
    pub inner_chunk_size: usize,
}

impl Tiling {
    /// The number of pixels of the frame.
    pub open spec fn pixels(self) -> int {
        self.width * self.height
    }

    /// The frame is not empty, its pixels can be counted in a `usize`, and
    /// no chunk size is zero.
    pub open spec fn wf(self) -> bool {
        &&& self.width >= 1
        &&& self.height >= 1
        &&& self.pixels() <= usize::MAX
        &&& 1 <= self.inner_chunk_size <= self.outer_chunk_size <= self.pixels()
    }

    /// The tiling of a frame for a number of workers: `OUTER_CHUNKS` outer
    /// chunks, and in each as many inner chunks as the square of the number
    /// of workers, all sizes rounded up.
    pub open spec fn planned(width: usize, height: usize, workers: usize) -> Tiling {
        let outer = ceil_quotient(width * height, OUTER_CHUNKS as int);
        Tiling {
            width,
            height,
            outer_chunk_size: outer as usize,
            inner_chunk_size: ceil_quotient(outer, workers * workers) as usize,
        }
    }

    /// The length of outer chunk `outer_index`.
    pub open spec fn outer_len(self, outer_index: int) -> int {
        chunk_len(self.pixels(), self.outer_chunk_size as int, outer_index)
    }

    /// Whether outer chunk `outer_index` has an inner chunk `inner_index`
    /// with an item `i`.
    pub open spec fn has_pixel(self, outer_index: int, inner_index: int, i: int) -> bool {
        &&& 0 <= outer_index
        &&& 0 <= inner_index
        &&& 0 <= i < chunk_len(
            self.outer_len(outer_index),
            self.inner_chunk_size as int,
            inner_index,
        )
    }

    /// The index in the frame of item `i` of inner chunk `inner_index` of
    /// outer chunk `outer_index`.
    pub open spec fn index_of(self, outer_index: int, inner_index: int, i: int) -> int {
        item_index(
            self.outer_chunk_size as int,
            outer_index,
            item_index(self.inner_chunk_size as int, inner_index, i),
        )
    }

    /// Plans the tiling of a frame for a number of workers.
    pub fn plan(width: usize, height: usize, workers: usize) -> (t: Tiling)
        requires
            width >= 1,
            height >= 1,
            workers >= 1,
            width * height <= usize::MAX,
        ensures
            t == Self::planned(width, height, workers),
            t.wf(),
    {
        let pixels: usize = width * height;
        proof {
            assert(pixels >= 1) by (nonlinear_arith)
                requires
                    pixels == width * height,
                    width >= 1,
                    height >= 1,
            ;
            assert(workers * workers >= 1) by (nonlinear_arith)
                requires
                    workers >= 1,
            ;
            lemma_ceil_quotient(pixels as int, OUTER_CHUNKS as int);
        }
        let outer_chunk_size = ceil_divide(pixels, OUTER_CHUNKS);
        proof {
            lemma_ceil_quotient(outer_chunk_size as int, workers * workers);
        }
        let inner_chunk_size = match workers.checked_mul(workers) {
            Some(inner_chunks) => ceil_divide(outer_chunk_size, inner_chunks),
            None => 1,
        };
        Tiling { width, height, outer_chunk_size, inner_chunk_size }
    }

    /// Plans the tiling of a frame for the processors of this machine. The
    /// machine decides how many there are; whatever their number, the result
    /// is what `plan` gives for it.
    pub fn for_machine(width: usize, height: usize) -> (t: Tiling)
        requires
            width >= 1,
            height >= 1,
            width * height <= usize::MAX,
        ensures
            exists|workers: usize| workers >= 1 && t == #[trigger] Self::planned(width, height, workers),
            t.wf(),
            t.outer_chunk_size == ceil_quotient(width * height, OUTER_CHUNKS as int),
    {
        let workers = cpu_count();
        Self::plan(width, height, workers)
    }

    /// Whether the tiling is one that a frame can be rendered with.
    pub fn is_valid(&self) -> (r: bool)
        ensures
            r == self.wf(),
    {
        if self.width == 0 || self.height == 0 {
            return false;
        }
        match self.width.checked_mul(self.height) {
            None => false,
            Some(pixels) => 1 <= self.inner_chunk_size && self.inner_chunk_size
                <= self.outer_chunk_size && self.outer_chunk_size <= pixels,
        }
    }

    /// Whether the three indices name a pixel of the frame.
    pub fn contains(&self, outer_index: usize, inner_index: usize, i: usize) -> (r: bool)
        requires
            self.wf(),
        ensures
            r == self.has_pixel(outer_index as int, inner_index as int, i as int),
    {
        let pixels: usize = self.width * self.height;
        let outer_len = chunk_length(pixels, self.outer_chunk_size, outer_index);
        i < chunk_length(outer_len, self.inner_chunk_size, inner_index)
    }

    /// The index in the frame of item `i` of inner chunk `inner_index` of
    /// outer chunk `outer_index`.
    pub fn pixel_index(&self, outer_index: usize, inner_index: usize, i: usize) -> (index: usize)
        requires
            self.wf(),
            self.has_pixel(outer_index as int, inner_index as int, i as int),
        ensures
            index == self.index_of(outer_index as int, inner_index as int, i as int),
            index < self.pixels(),
    {
        proof {
            self.lemma_index_in_frame(outer_index as int, inner_index as int, i as int);
        }
        i + inner_index * self.inner_chunk_size + outer_index * self.outer_chunk_size
    }

    /// The column and the row of a pixel, the row counted from the bottom of
    /// the frame: index 0 is the leftmost pixel of the topmost row.
    pub fn pixel_position(&self, pixel_index: usize) -> (position: (usize, usize))
        requires
            self.wf(),
            pixel_index < self.pixels(),
        ensures
            position.0 == pixel_index % self.width,
            position.1 == self.height - pixel_index / self.width - 1,
            position.0 < self.width,
            position.1 < self.height,
            pixel_index == (self.height - 1 - position.1) * self.width + position.0,
    {
        let row: usize = pixel_index / self.width;
        proof {
            let w = self.width as int;
            let h = self.height as int;
            let p = pixel_index as int;
            assert(p == (p / w) * w + p % w && 0 <= p % w < w && 0 <= p / w) by (nonlinear_arith)
                requires
                    0 <= p,
                    0 < w,
            ;
            assert(p / w < h) by (nonlinear_arith)
                requires
                    p == (p / w) * w + p % w,
                    0 <= p % w,
                    p < w * h,
                    0 < w,
            ;
        }
        (pixel_index % self.width, self.height - row - 1)
    }

    /// The three indices of a pixel stay within their chunks, and the pixel's
    /// index within the frame.
    pub proof fn lemma_index_in_frame(self, outer_index: int, inner_index: int, i: int)
        requires
            self.wf(),
            self.has_pixel(outer_index, inner_index, i),
        ensures
            0 <= inner_index * self.inner_chunk_size,
            0 <= item_index(self.inner_chunk_size as int, inner_index, i) < self.outer_len(
                outer_index,
            ),
            0 <= outer_index * self.outer_chunk_size,
            0 <= self.index_of(outer_index, inner_index, i) < self.pixels(),
    {
        let outer = self.outer_chunk_size as int;
        let inner = self.inner_chunk_size as int;
        let len = self.outer_len(outer_index);
        assert((inner_index + 1) * inner == inner_index * inner + inner) by (nonlinear_arith);
        assert((outer_index + 1) * outer == outer_index * outer + outer) by (nonlinear_arith);
        assert(0 <= inner_index * inner) by (nonlinear_arith)
            requires
                0 <= inner_index,
                0 <= inner,
        ;
        assert(0 <= outer_index * outer) by (nonlinear_arith)
            requires
                0 <= outer_index,
                0 <= outer,
        ;
    }

    /// Every pixel of the frame is rendered exactly once: it is item
    /// `i` of inner chunk `n` of outer chunk `o` for one triple of indices
    /// and no other.
    pub proof fn lemma_every_pixel_once(self, index: int)
        requires
            self.wf(),
            0 <= index < self.pixels(),
        ensures
            ({
                let outer = self.outer_chunk_size as int;
                let inner = self.inner_chunk_size as int;
                let o = index / outer;
                let n = (index % outer) / inner;
                let i = (index % outer) % inner;
                &&& self.has_pixel(o, n, i)
                &&& self.index_of(o, n, i) == index
                &&& forall|o2: int, n2: int, i2: int|
                    self.has_pixel(o2, n2, i2) && #[trigger] self.index_of(o2, n2, i2) == index
                        ==> o2 == o && n2 == n && i2 == i
            }),
    {
        let outer = self.outer_chunk_size as int;
        let inner = self.inner_chunk_size as int;
        let o = index / outer;
        let rest = index % outer;
        lemma_chunks_partition(self.pixels(), outer, index);
        lemma_chunks_partition(self.outer_len(o), inner, rest);
        assert forall|o2: int, n2: int, i2: int|
            self.has_pixel(o2, n2, i2) && #[trigger] self.index_of(o2, n2, i2)
                == index implies o2 == o && n2 == rest / inner && i2 == rest % inner by {
            self.lemma_index_in_frame(o2, n2, i2);
            let rest2 = item_index(inner, n2, i2);
            assert(item_index(outer, o2, rest2) == index);
            assert(o2 == o && rest2 == rest);
        }
    }
}

/// Two pixels at the same column and row are the same pixel.
pub proof fn lemma_positions_are_distinct(width: int, height: int, a: int, b: int)
    requires
        0 < width,
        0 <= a < width * height,
        0 <= b < width * height,
        a % width == b % width,
        height - a / width - 1 == height - b / width - 1,
    ensures
        a == b,
{
    assert(a == (a / width) * width + a % width) by (nonlinear_arith)
        requires
            0 < width,
    ;
    assert(b == (b / width) * width + b % width) by (nonlinear_arith)
        requires
            0 < width,
    ;
}

/// Cutting a buffer into chunks whose size is the buffer's length divided by
/// `n`, rounded up, gives at most `n` chunks; and a shorter buffer never
/// gives more chunks than a longer one.
pub proof fn lemma_chunk_count_is_bounded(total: int, shorter: int, n: int)
    requires
        0 <= shorter <= total,
        0 < total,
        0 < n,
    ensures
        chunk_count(total, ceil_quotient(total, n)) <= n,
        chunk_count(shorter, ceil_quotient(total, n)) <= chunk_count(
            total,
            ceil_quotient(total, n),
        ),
{
    lemma_ceil_quotient(total, n);
    let size = ceil_quotient(total, n);
    lemma_ceil_quotient(total, size);
    lemma_ceil_quotient(shorter, size);
    let count = chunk_count(total, size);
    let fewer = chunk_count(shorter, size);
    assert(count <= n) by (nonlinear_arith)
        requires
            (count - 1) * size < total,
            total <= size * n,
            0 < size,
    ;
    assert(fewer <= count) by (nonlinear_arith)
        requires
            (fewer - 1) * size < shorter || shorter == 0,
            fewer >= 0,
            shorter == 0 ==> fewer == 0,
            shorter <= total,
            total <= count * size,
            0 < size,
            0 <= count,
    ;
}

/// A planned frame is cut into at most `OUTER_CHUNKS` outer chunks, and each
/// of them into at most as many inner chunks as the square of the number of
/// workers.
pub proof fn lemma_plan_bounds_chunks(width: usize, height: usize, workers: usize, outer_index: int)
    requires
        width >= 1,
        height >= 1,
        workers >= 1,
        width * height <= usize::MAX,
        0 <= outer_index,
    ensures
        ({
            let t = Tiling::planned(width, height, workers);
            &&& t.wf()
            &&& chunk_count(t.pixels(), t.outer_chunk_size as int) <= OUTER_CHUNKS
            &&& chunk_count(t.outer_len(outer_index), t.inner_chunk_size as int) <= workers
                * workers
        }),
{
    let pixels = width * height;
    assert(pixels >= 1) by (nonlinear_arith)
        requires
            pixels == width * height,
            width >= 1,
            height >= 1,
    ;
    let squared = workers * workers;
    assert(squared >= 1) by (nonlinear_arith)
        requires
            squared == workers * workers,
            workers >= 1,
    ;
    lemma_ceil_quotient(pixels, OUTER_CHUNKS as int);
    let outer = ceil_quotient(pixels, OUTER_CHUNKS as int);
    lemma_ceil_quotient(outer, squared);
    lemma_chunk_count_is_bounded(pixels, pixels, OUTER_CHUNKS as int);
    lemma_chunks_cover(pixels, outer, outer_index);
    lemma_chunk_count_is_bounded(outer, chunk_len(pixels, outer, outer_index), squared);
}

} // verus!
