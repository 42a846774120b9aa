//! Checks on what the GPU gave back: whether a clear, a drawn triangle and an exported buffer are
//! what they should be.
use crate::replay::frame::Frame;
use vstd::prelude::*;

verus! {

/// The side of the frames that are checked.
pub const SIDE: u32 = 512;

/// The places along each side where colours are counted.
pub const GRID: u32 = 32;

/// The fewest colours that an interpolated triangle has.
pub const MIN_COLOURS: usize = 20;

impl Frame {
    /// Whether the frame has the checked size, and all its bytes.
    pub open spec fn is_checkable(&self) -> bool {
        self.width == SIDE && self.height == SIDE && self.rgba@.len() == SIDE * SIDE * 4
    }

    /// The pixel at (x, y).
    pub open spec fn at(&self, x: int, y: int) -> Seq<u8> {
        self.rgba@.subrange((y * SIDE + x) * 4, (y * SIDE + x) * 4 + 4)
    }
}

fn read(f: &Frame, x: u32, y: u32) -> (p: [u8; 4])
    requires
        f.is_checkable(),
        x < SIDE,
        y < SIDE,
    ensures
        p@ == f.at(x as int, y as int),
{
    assert(f.has_pixel(x, y));
    f.pixel(x, y)
}

/// Whether two pixels differ by no more than one step in each channel.
pub open spec fn near(a: Seq<u8>, b: Seq<u8>) -> bool {
    forall|c: int| 0 <= c < 4 ==> -1 <= #[trigger] a[c] - b[c] <= 1
}

fn close(a: u8, b: u8) -> (r: bool)
    ensures
        r == (-1 <= a - b <= 1),
{
    if a >= b {
        a - b <= 1
    } else {
        b - a <= 1
    }
}

/// Whether a pixel is the expected one, give or take one step in each channel.
pub fn pixel_near(p: [u8; 4], expected: [u8; 4]) -> (r: bool)
    ensures
        r == near(p@, expected@),
{
    let r: bool = close(p[0], expected[0]) && close(p[1], expected[1]) && close(p[2], expected[2])
        && close(p[3], expected[3]);
    assert(r ==> near(p@, expected@)) by {
        if r {
            assert forall|c: int| 0 <= c < 4 implies -1 <= #[trigger] p@[c] - expected@[c] <= 1 by {
                assert(c == 0 || c == 1 || c == 2 || c == 3);
            }
        }
    }
    assert(near(p@, expected@) ==> r) by {
        assert(-1 <= p@[0] - expected@[0] <= 1 || !near(p@, expected@));
        assert(-1 <= p@[1] - expected@[1] <= 1 || !near(p@, expected@));
        assert(-1 <= p@[2] - expected@[2] <= 1 || !near(p@, expected@));
        assert(-1 <= p@[3] - expected@[3] <= 1 || !near(p@, expected@));
    }
    r
}

/// One where it holds, zero where it does not.
pub open spec fn ones(b: bool) -> int {
    if b {
        1
    } else {
        0
    }
}

fn one(b: bool) -> (n: u32)
    ensures
        n == ones(b),
{
    if b {
        1
    } else {
        0
    }
}

/// How many of four pixels (two corners, the middle and one more) are not the cleared colour.
pub fn clear_faults(f: &Frame, expected: [u8; 4]) -> (n: u32)
    requires
        f.is_checkable(),
    ensures
        n == ones(!near(f.at(0, 0), expected@)) + ones(!near(f.at(256, 256), expected@)) + ones(
            !near(f.at(511, 511), expected@),
        ) + ones(!near(f.at(7, 300), expected@)),
{
    one(!pixel_near(read(f, 0, 0), expected)) + one(!pixel_near(read(f, 256, 256), expected)) + one(
        !pixel_near(read(f, 511, 511), expected),
    ) + one(!pixel_near(read(f, 7, 300), expected))
}

/// Whether a pixel has a bright channel.
pub open spec fn is_bright(p: Seq<u8>) -> bool {
    p[0] > 100 || p[1] > 100 || p[2] > 100
}

/// Whether a pixel is as dark as the background.
pub open spec fn is_dark(p: Seq<u8>) -> bool {
    p[0] < 60 && p[1] < 60 && p[2] < 60
}

fn bright(p: [u8; 4]) -> (r: bool)
    ensures
        r == is_bright(p@),
{
    p[0] > 100 || p[1] > 100 || p[2] > 100
}

fn dark(p: [u8; 4]) -> (r: bool)
    ensures
        r == is_dark(p@),
{
    p[0] < 60 && p[1] < 60 && p[2] < 60
}

/// The pixels at the first `n` places of the grid, row by row.
pub open spec fn sampled(f: Frame, n: int) -> Seq<Seq<u8>> {
    Seq::new(n as nat, |k: int| f.at(k % 32 * 16, k / 32 * 16))
}

/// Pixels as sequences.
pub open spec fn as_seqs(v: Seq<[u8; 4]>) -> Seq<Seq<u8>> {
    Seq::new(v.len(), |i: int| v[i]@)
}

fn same_pixel(a: [u8; 4], b: [u8; 4]) -> (r: bool)
    ensures
        r == (a@ == b@),
{
    let r: bool = a[0] == b[0] && a[1] == b[1] && a[2] == b[2] && a[3] == b[3];
    assert(r ==> a@ =~= b@);
    r
}

/// How many colours there are at the places of the grid. A clear has one; what a shader
/// interpolates has many.
pub fn colours(f: &Frame) -> (n: usize)
    requires
        f.is_checkable(),
    ensures
        n == sampled(*f, 1024).to_set().len(),
{
    let mut seen: Vec<[u8; 4]> = Vec::new();
    let mut k: u32 = 0;
    assert(as_seqs(seen@).to_set() =~= sampled(*f, 0).to_set());
    while k < GRID * GRID
        invariant
            k <= GRID * GRID,
            f.is_checkable(),
            as_seqs(seen@).no_duplicates(),
            as_seqs(seen@).to_set() == sampled(*f, k as int).to_set(),
        decreases GRID * GRID - k,
    {
        let p = read(f, k % 32 * 16, k / 32 * 16);
        let mut i: usize = 0;
        while i < seen.len()
            invariant_except_break
                i <= seen@.len(),
                forall|j: int| 0 <= j < i ==> (#[trigger] seen@[j])@ != p@,
            ensures
                i <= seen@.len(),
                i == seen@.len() ==> forall|j: int| 0 <= j < i ==> (#[trigger] seen@[j])@ != p@,
                i < seen@.len() ==> seen@[i as int]@ == p@,
            decreases seen.len() - i,
        {
            if same_pixel(seen[i], p) {
                break ;
            }
            i = i + 1;
        }
        let ghost before = as_seqs(seen@);
        let ghost old_samples = sampled(*f, k as int);
        let ghost new_samples = sampled(*f, k + 1);
        proof {
            assert(new_samples =~= old_samples.push(p@));
            assert(new_samples.to_set() =~= old_samples.to_set().insert(p@)) by {
                assert forall|x: Seq<u8>|
                    new_samples.to_set().contains(x) == old_samples.to_set().insert(
                        p@,
                    ).contains(x) by {
                    if old_samples.contains(x) {
                        let j = choose|j: int| 0 <= j < old_samples.len() && old_samples[j] == x;
                        assert(new_samples[j] == x);
                    }
                    if x == p@ {
                        assert(new_samples[k as int] == x);
                    }
                    if new_samples.contains(x) && x != p@ {
                        let j = choose|j: int| 0 <= j < new_samples.len() && new_samples[j] == x;
                        assert(old_samples[j] == x);
                    }
                }
            }
        }
        if i == seen.len() {
            seen.push(p);
            proof {
                let after = as_seqs(seen@);
                assert(after =~= before.push(p@));
                assert forall|a: int, b: int|
                    0 <= a < after.len() && 0 <= b < after.len() && a != b implies after[a]
                    != after[b] by {
                    if a < before.len() && b < before.len() {
                        assert(before[a] != before[b]);
                    }
                }
                assert(after.to_set() =~= before.to_set().insert(p@)) by {
                    assert forall|x: Seq<u8>|
                        after.to_set().contains(x) == before.to_set().insert(p@).contains(x) by {
                        if before.contains(x) {
                            let j = choose|j: int| 0 <= j < before.len() && before[j] == x;
                            assert(after[j] == x);
                        }
                        if x == p@ {
                            assert(after[before.len() as int] == x);
                        }
                        if after.contains(x) && x != p@ {
                            let j = choose|j: int| 0 <= j < after.len() && after[j] == x;
                            assert(before[j] == x);
                        }
                    }
                }
            }
        } else {
            proof {
                assert(before[i as int] == p@);
                assert(before.contains(p@));
                assert(before.to_set().insert(p@) =~= before.to_set());
            }
        }
        k = k + 1;
    }
    proof {
        as_seqs(seen@).unique_seq_to_set();
    }
    seen.len()
}

/// What is wrong with a drawn triangle.
#[derive(Debug, Clone, Copy, PartialEq, Eq, Structural)]
pub struct TriangleFaults {
    /// The middle is not bright: nothing was drawn.
    pub no_triangle: bool,
    /// A corner is not background.
    pub no_background: bool,
    /// Too few colours: no shader interpolated.
    pub no_gradient: bool,
}

/// Checks a triangle: bright in the middle, dark in two corners, and many colours.
pub fn triangle_faults(f: &Frame) -> (t: TriangleFaults)
    requires
        f.is_checkable(),
    ensures
        t.no_triangle == !is_bright(f.at(256, 256)),
        t.no_background == !(is_dark(f.at(2, 2)) && is_dark(f.at(509, 509))),
        t.no_gradient == (sampled(*f, 1024).to_set().len() < MIN_COLOURS),
{
    TriangleFaults {
        no_triangle: !bright(read(f, 256, 256)),
        no_background: !(dark(read(f, 2, 2)) && dark(read(f, 509, 509))),
        no_gradient: colours(f) < MIN_COLOURS,
    }
}

impl TriangleFaults {
    /// How many things are wrong.
    pub fn count(&self) -> (n: u32)
        ensures
            n == ones(self.no_triangle) + ones(self.no_background) + ones(self.no_gradient),
    {
        one(self.no_triangle) + one(self.no_background) + one(self.no_gradient)
    }
}

/// What is wrong with an exported buffer.
#[derive(Debug, Clone, Copy, PartialEq, Eq, Structural)]
pub enum ExportFault {
    BadDescriptor,
    TooSmall,
}

/// Checks an exported buffer: a valid descriptor, and room for the frame.
pub fn export_fault(fd: i32, size: u64) -> (r: Option<ExportFault>)
    ensures
        r == if fd < 0 {
            Some(ExportFault::BadDescriptor)
        } else if size < SIDE * SIDE * 4 {
            Some(ExportFault::TooSmall)
        } else {
            None
        },
{
    if fd < 0 {
        Some(ExportFault::BadDescriptor)
    } else if size < 0x10_0000 {
        Some(ExportFault::TooSmall)
    } else {
        None
    }
}

/// A frame of one colour has one colour, too few for a triangle.
pub proof fn law_clear_is_no_triangle(f: Frame, p: Seq<u8>)
    requires
        forall|x: int, y: int| 0 <= x < SIDE && 0 <= y < SIDE ==> #[trigger] f.at(x, y) == p,
    ensures
        sampled(f, 1024).to_set().len() == 1,
{
    let s = sampled(f, 1024);
    assert(s.to_set() =~= set![p]) by {
        assert forall|x: Seq<u8>| s.to_set().contains(x) == set![p].contains(x) by {
            if s.contains(x) {
                let j = choose|j: int| 0 <= j < s.len() && s[j] == x;
                assert(s[j] == f.at(j % 32 * 16, j / 32 * 16));
            }
            if x == p {
                assert(s[0] == f.at(0, 0));
            }
        }
    }
}

/// The sum of the first `n` samples.
pub open spec fn sum(samples: Seq<u64>, n: int) -> int
    decreases n,
{
    if n <= 0 {
        0
    } else {
        sum(samples, n - 1) + samples[n - 1]
    }
}

/// The mean of some durations, rounded down; zero where there are none.
pub fn mean(samples: &[u64]) -> (m: u64)
    ensures
        m == if samples@.len() == 0 {
            0
        } else {
            sum(samples@, samples@.len() as int) / samples@.len() as int
        },
{
    let n: usize = samples.len();
    if n == 0 {
        return 0;
    }
    let mut total: u128 = 0;
    let mut i: usize = 0;
    while i < n
        invariant
            i <= n,
            n == samples@.len(),
            total == sum(samples@, i as int),
            total <= i * u64::MAX,
        decreases n - i,
    {
        assert(i * u64::MAX <= usize::MAX * u64::MAX) by (nonlinear_arith)
            requires
                i <= usize::MAX,
        ;
        assert((i + 1) * u64::MAX == i * u64::MAX + u64::MAX) by (nonlinear_arith);
        assert(usize::MAX * u64::MAX + u64::MAX <= u128::MAX) by (nonlinear_arith)
            requires
                usize::MAX <= u64::MAX,
        ;
        total = total + samples[i] as u128;
        i = i + 1;
    }
    assert(0 <= total as int / n as int <= u64::MAX) by (nonlinear_arith)
        requires
            0 <= total <= n * u64::MAX,
            n > 0,
    ;
    (total / n as u128) as u64
}

/// A pixel passes for another exactly where no channel is off by more than one.
pub proof fn law_near_pixels(p: [u8; 4], q: [u8; 4], r: bool, s: bool, c: int)
    requires
        call_ensures(pixel_near, (p, q), r),
        call_ensures(pixel_near, (q, p), s),
        0 <= c < 4,
    ensures
        r == s,
        p@ == q@ ==> r,
        r ==> -1 <= p@[c] - q@[c] <= 1,
        r <==> -1 <= p@[0] - q@[0] <= 1 && -1 <= p@[1] - q@[1] <= 1 && -1 <= p@[2] - q@[2] <= 1
            && -1 <= p@[3] - q@[3] <= 1,
{
    lemma_near(p@, q@);
    lemma_near(q@, p@);
}

proof fn lemma_near(a: Seq<u8>, b: Seq<u8>)
    ensures
        near(a, b) <==> -1 <= a[0] - b[0] <= 1 && -1 <= a[1] - b[1] <= 1 && -1 <= a[2] - b[2] <= 1
            && -1 <= a[3] - b[3] <= 1,
{
    if -1 <= a[0] - b[0] <= 1 && -1 <= a[1] - b[1] <= 1 && -1 <= a[2] - b[2] <= 1 && -1 <= a[3]
        - b[3] <= 1 {
        assert forall|c: int| 0 <= c < 4 implies -1 <= #[trigger] a[c] - b[c] <= 1 by {
            assert(c == 0 || c == 1 || c == 2 || c == 3);
        }
    }
}

/// A frame that is the expected colour everywhere has no fault, one that is nowhere near it has four,
/// and a fault is never counted where the pixel is right.
pub proof fn law_clear_is_checked(f: &Frame, expected: [u8; 4], n: u32)
    requires
        f.is_checkable(),
        call_ensures(clear_faults, (f, expected), n),
    ensures
        n <= 4,
        (forall|x: int, y: int|
            0 <= x < 512 && 0 <= y < 512 ==> #[trigger] f.at(x, y) == expected@) ==> n == 0,
        (forall|x: int, y: int|
            0 <= x < 512 && 0 <= y < 512 ==> (#[trigger] f.at(x, y))[0] >= expected@[0] + 2)
            ==> n == 4,
        n == 0 ==> -1 <= f.at(0, 0)[0] - expected@[0] <= 1 && -1 <= f.at(511, 511)[0] - expected@[0]
            <= 1 && -1 <= f.at(256, 256)[0] - expected@[0] <= 1,
{
    lemma_near(f.at(0, 0), expected@);
    lemma_near(f.at(256, 256), expected@);
    lemma_near(f.at(511, 511), expected@);
    lemma_near(f.at(7, 300), expected@);
}

/// A triangle is taken for drawn where the middle has a channel above 100, for drawn on a background
/// where two opposite corners are below 60 in every channel, and for shaded where there are at least
/// twenty colours. Each of the three counts once.
pub proof fn law_triangle_is_checked(f: &Frame, t: TriangleFaults, n: u32, k: usize)
    requires
        f.is_checkable(),
        call_ensures(triangle_faults, (f,), t),
        call_ensures(TriangleFaults::count, (&t,), n),
        call_ensures(colours, (f,), k),
    ensures
        t.no_triangle <==> f.at(256, 256)[0] <= 100 && f.at(256, 256)[1] <= 100 && f.at(
            256,
            256,
        )[2] <= 100,
        t.no_background <==> !(f.at(2, 2)[0] < 60 && f.at(2, 2)[1] < 60 && f.at(2, 2)[2] < 60
            && f.at(509, 509)[0] < 60 && f.at(509, 509)[1] < 60 && f.at(509, 509)[2] < 60),
        t.no_gradient <==> k < 20,
        n == 0 <==> !t.no_triangle && !t.no_background && !t.no_gradient,
        n == 3 <==> t.no_triangle && t.no_background && t.no_gradient,
        n <= 3,
{
}

/// An exported buffer is good where its descriptor is not negative and it holds a picture of 512 by
/// 512 pixels of four bytes.
pub proof fn law_export_is_checked(fd: i32, size: u64, r: Option<ExportFault>)
    requires
        call_ensures(export_fault, (fd, size), r),
    ensures
        r is None <==> fd >= 0 && size >= 512 * 512 * 4,
        r == Some(ExportFault::BadDescriptor) <==> fd < 0,
        r == Some(ExportFault::TooSmall) <==> fd >= 0 && size < 512 * 512 * 4,
{
}

/// The mean of some durations is their sum shared out evenly, rounded down; so equal durations have
/// themselves for a mean, and the mean lies between the least and the most.
pub proof fn law_mean_shares_out(samples: &[u64], m: u64, low: u64, high: u64)
    requires
        call_ensures(mean, (samples,), m),
        samples@.len() > 0,
        forall|i: int| 0 <= i < samples@.len() ==> low <= #[trigger] samples@[i] <= high,
    ensures
        low <= m <= high,
        m * samples@.len() <= sum(samples@, samples@.len() as int) < (m + 1) * samples@.len(),
{
    let n = samples@.len() as int;
    let s = sum(samples@, n);
    lemma_sum_bounds(samples@, n, low as int, high as int);
    assert(low <= s / n <= high && (s / n) * n <= s < (s / n + 1) * n) by (nonlinear_arith)
        requires
            low * n <= s <= high * n,
            n > 0,
    ;
}

proof fn lemma_sum_bounds(samples: Seq<u64>, n: int, low: int, high: int)
    requires
        0 <= n <= samples.len(),
        forall|i: int| 0 <= i < samples.len() ==> low <= #[trigger] samples[i] <= high,
    ensures
        low * n <= sum(samples, n) <= high * n,
    decreases n,
{
    if n > 0 {
        lemma_sum_bounds(samples, n - 1, low, high);
        assert(low <= samples[n - 1] <= high);
        assert(low * n == low * (n - 1) + low && high * n == high * (n - 1) + high)
            by (nonlinear_arith);
    } else {
        assert(low * 0 == 0 && high * 0 == 0);
    }
}

/// Durations are added up each once.
pub proof fn law_sum_adds_each_once(samples: Seq<u64>, n: int)
    requires
        0 <= n < samples.len(),
    ensures
        sum(samples, 0) == 0,
        sum(samples, n + 1) - sum(samples, n) == samples[n],
{
}

/// A checked frame has its pixels row by row, 512 to a row, and two different pixels at places of
/// the grid, sixteen apart, are two colours.
pub proof fn law_grid_sees_colours(f: &Frame, n: usize, a: int, b: int, x: int, y: int, c: int)
    requires
        f.is_checkable(),
        call_ensures(colours, (f,), n),
        0 <= a < 32 && 0 <= b < 32,
        0 <= x < 32 && 0 <= y < 32,
        0 <= c < 4,
    ensures
        f.at(a, b)[c] == f.rgba@[(b * 512 + a) * 4 + c],
        n >= 1,
        f.at(16 * a, 16 * b) != f.at(16 * x, 16 * y) ==> n >= 2,
{
    let s = sampled(*f, 1024);
    let i = 32 * b + a;
    let j = 32 * y + x;
    assert(i % 32 == a && i / 32 == b && j % 32 == x && j / 32 == y);
    assert(s[i] == f.at(16 * a, 16 * b));
    assert(s[j] == f.at(16 * x, 16 * y));
    let all = s.to_set();
    assert(all.contains(s[i]) && all.contains(s[j]));
    vstd::seq_lib::seq_to_set_is_finite(s);
    vstd::set_lib::lemma_len_subset(set![s[i]], all);
    if s[i] != s[j] {
        vstd::set_lib::lemma_len_subset(set![s[i], s[j]], all);
    }
}

} // verus!
