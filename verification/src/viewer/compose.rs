//! Pixels on the CPU: taking in a decoded frame, and blending the cursor onto it.
use crate::arith::smaller;
use vstd::arithmetic::div_mod::lemma_fundamental_div_mod_converse;
use vstd::prelude::*;

verus! {

/// One colour channel of a sprite pixel over a frame pixel. With premultiplied alpha the
/// sprite's colour is already scaled.
pub open spec fn over(s: u8, d: u8, alpha: u8, premul: bool) -> int {
    if premul {
        smaller(s + d * (255 - alpha) / 255, 255)
    } else {
        (s * alpha + d * (255 - alpha)) / 255
    }
}

/// A sprite placed on a frame: sizes in pixels, the sprite's top-left corner at (px0, py0).
pub struct Placement {
    pub fw: usize,
    pub fh: usize,
    pub cw: usize,
    pub ch: usize,
    pub px0: i64,
    pub py0: i64,
    pub premul: bool,
}

impl Placement {
    /// The frame row of a frame byte.
    pub open spec fn row_of(self, i: int) -> int {
        i / 4 / (self.fw as int)
    }

    /// The frame column of a frame byte.
    pub open spec fn col_of(self, i: int) -> int {
        i / 4 % (self.fw as int)
    }

    /// The sprite byte where the pixel over frame byte `i` starts.
    pub open spec fn sprite_at(self, i: int) -> int {
        ((self.row_of(i) - self.py0) * self.cw + (self.col_of(i) - self.px0)) * 4
    }

    /// Whether the sprite covers frame byte `i`, a colour byte of a pixel on the frame.
    pub open spec fn covers(self, i: int) -> bool {
        &&& i % 4 < 3
        &&& 0 <= self.row_of(i) < self.fh
        &&& 0 <= self.col_of(i) < self.fw
        &&& 0 <= self.row_of(i) - self.py0 < self.ch
        &&& 0 <= self.col_of(i) - self.px0 < self.cw
    }

    /// Whether a pixel of the sprite that is not transparent lies over the frame's pixel (x, y).
    pub open spec fn paints(self, sprite: Seq<u8>, x: int, y: int) -> bool {
        &&& 0 <= x < self.fw
        &&& 0 <= y < self.fh
        &&& 0 <= y - self.py0 < self.ch
        &&& 0 <= x - self.px0 < self.cw
        &&& sprite[((y - self.py0) * self.cw + (x - self.px0)) * 4 + 3] != 0
    }

    /// Whether the colours of all the pixels that the sprite paints are among the first `len` bytes
    /// of the frame. Those of a whole frame are.
    pub open spec fn paints_within(self, sprite: Seq<u8>, len: int) -> bool {
        sprite.len() >= self.cw * self.ch * 4 ==> forall|x: int, y: int| #[trigger]
            self.paints(sprite, x, y) ==> (y * self.fw + x) * 4 + 3 <= len
    }

    /// Frame byte `i` with the sprite over it. Alpha, pixels that the sprite does not cover and
    /// those under a transparent sprite pixel stay as they are.
    pub open spec fn blended(self, dst: Seq<u8>, sprite: Seq<u8>, i: int) -> u8 {
        let s = self.sprite_at(i);
        if self.covers(i) && sprite[s + 3] != 0 {
            over(sprite[s + i % 4], dst[i], sprite[s + 3], self.premul) as u8
        } else {
            dst[i]
        }
    }

    /// Whether byte `i` comes before sprite row `sy`, column `sx`.
    spec fn passed(self, i: int, sy: int, sx: int) -> bool {
        let y = self.row_of(i) - self.py0;
        y < sy || (y == sy && self.col_of(i) - self.px0 < sx)
    }

    /// The frame with the sprite over the bytes that come before sprite row `sy`, column `sx`.
    spec fn partly(self, dst: Seq<u8>, sprite: Seq<u8>, sy: int, sx: int) -> Seq<u8> {
        Seq::new(
            dst.len(),
            |i: int|
                if self.passed(i, sy, sx) {
                    self.blended(dst, sprite, i)
                } else {
                    dst[i]
                },
        )
    }
}

fn mix(s: u8, d: u8, alpha: u8, premul: bool) -> (r: u8)
    ensures
        r == over(s, d, alpha, premul),
        0 <= over(s, d, alpha, premul) <= 255,
{
    let (s, d, a): (u32, u32, u32) = (s as u32, d as u32, alpha as u32);
    assert(0 <= d * (255 - a) <= 255 * 255 && 0 <= s * a + d * (255 - a) <= 255 * 255)
        by (nonlinear_arith)
        requires
            0 <= s <= 255,
            0 <= d <= 255,
            0 <= a <= 255,
    ;
    assert(0 <= s * a) by (nonlinear_arith)
        requires
            0 <= s,
            0 <= a,
    ;
    if premul {
        let v: u32 = s + d * (255 - a) / 255;
        if v > 255 {
            255
        } else {
            v as u8
        }
    } else {
        ((s * a + d * (255 - a)) / 255) as u8
    }
}

/// The bytes of the pixel at (dx, dy) lie in its row and column.
proof fn lemma_pixel_bytes(p: Placement, dx: int, dy: int, c: int)
    requires
        0 <= dx < p.fw,
        0 <= dy,
        0 <= c < 4,
    ensures
        p.row_of((dy * p.fw + dx) * 4 + c) == dy,
        p.col_of((dy * p.fw + dx) * 4 + c) == dx,
        ((dy * p.fw + dx) * 4 + c) % 4 == c,
{
    let n = dy * p.fw + dx;
    assert((n * 4 + c) / 4 == n);
    lemma_fundamental_div_mod_converse(n, p.fw as int, dy, dx);
}

/// A byte in the row and column of a pixel is one of its bytes.
proof fn lemma_bytes_of_pixel(p: Placement, i: int)
    requires
        0 <= i,
        0 < p.fw,
    ensures
        i == (p.row_of(i) * p.fw + p.col_of(i)) * 4 + i % 4,
        0 <= p.col_of(i) < p.fw,
        0 <= p.row_of(i),
{
    vstd::arithmetic::div_mod::lemma_fundamental_div_mod(i / 4, p.fw as int);
    let w = p.fw as int;
    assert(w * (i / 4 / w) == (i / 4 / w) * w) by (nonlinear_arith);
    assert(0 <= i / 4 / w) by (nonlinear_arith)
        requires
            i >= 0,
            w > 0,
    ;
}

/// A pixel on the frame has its bytes in the buffer.
proof fn lemma_in_frame(dx: int, dy: int, w: int, h: int)
    requires
        0 <= dx < w,
        0 <= dy < h,
    ensures
        0 <= dy * w + dx,
        (dy * w + dx) * 4 + 4 <= w * h * 4,
        0 <= dy * w <= w * h,
{
    assert(0 <= dy * w && dy * w + w <= w * h) by (nonlinear_arith)
        requires
            0 <= dx < w,
            0 <= dy < h,
    ;
}

/// A whole frame has the pixels that a sprite paints on it.
pub proof fn lemma_whole_frame(p: Placement, sprite: Seq<u8>, len: int)
    requires
        p.fw * p.fh * 4 <= len,
    ensures
        p.paints_within(sprite, len),
{
    assert forall|x: int, y: int| #[trigger] p.paints(sprite, x, y) implies (y * p.fw + x) * 4 + 3
        <= len by {
        lemma_in_frame(x, y, p.fw as int, p.fh as int);
    }
}

/// Alpha-blends a BGRA sprite into a BGRA frame, clipped to the frame wherever it is placed. A
/// sprite buffer that is too short for its size is not drawn.
pub fn blend_sprite(
    dst: &mut [u8],
    fw: usize,
    fh: usize,
    sprite: &[u8],
    cw: usize,
    ch: usize,
    px0: i32,
    py0: i32,
    premul: bool,
)
    requires
        (Placement { fw, fh, cw, ch, px0: px0 as i64, py0: py0 as i64, premul }).paints_within(
            sprite@,
            old(dst)@.len() as int,
        ),
    ensures
        final(dst)@.len() == old(dst)@.len(),
        sprite@.len() < cw * ch * 4 ==> final(dst)@ == old(dst)@,
        sprite@.len() >= cw * ch * 4 ==> forall|i: int|
            0 <= i < old(dst)@.len() ==> #[trigger] final(dst)@[i] == (Placement {
                fw,
                fh,
                cw,
                ch,
                px0: px0 as i64,
                py0: py0 as i64,
                premul,
            }).blended(old(dst)@, sprite@, i),
{
    blend_at(dst, fw, fh, sprite, cw, ch, px0 as i64, py0 as i64, premul);
}

/// Whether a sprite of this size has all its bytes.
fn has_pixels(len: usize, cw: usize, ch: usize) -> (b: bool)
    ensures
        b == (len >= cw * ch * 4),
{
    assert(0 <= cw * ch) by (nonlinear_arith)
        requires
            cw >= 0,
            ch >= 0,
    ;
    match cw.checked_mul(ch) {
        Some(n) => n <= len / 4,
        None => false,
    }
}

/// Alpha-blends a BGRA sprite into a BGRA frame as [`blend_sprite`] does, at any place.
pub fn blend_at(
    dst: &mut [u8],
    fw: usize,
    fh: usize,
    sprite: &[u8],
    cw: usize,
    ch: usize,
    px0: i64,
    py0: i64,
    premul: bool,
)
    requires
        (Placement { fw, fh, cw, ch, px0, py0, premul }).paints_within(
            sprite@,
            old(dst)@.len() as int,
        ),
    ensures
        final(dst)@.len() == old(dst)@.len(),
        sprite@.len() < cw * ch * 4 ==> final(dst)@ == old(dst)@,
        sprite@.len() >= cw * ch * 4 ==> forall|i: int|
            0 <= i < old(dst)@.len() ==> #[trigger] final(dst)@[i] == (Placement {
                fw,
                fh,
                cw,
                ch,
                px0,
                py0,
                premul,
            }).blended(old(dst)@, sprite@, i),
{
    let ghost p = Placement { fw, fh, cw, ch, px0, py0, premul };
    let ghost orig = dst@;
    let have: usize = sprite.len();
    if !has_pixels(have, cw, ch) {
        return;
    }
    let total: usize = dst.len();
    proof {
        assert(p.partly(orig, sprite@, 0, 0) =~= orig) by {
            assert forall|i: int| 0 <= i < orig.len() && p.passed(i, 0, 0) implies p.blended(
                orig,
                sprite@,
                i,
            ) == orig[i] by {}
        }
    }
    let mut sy: usize = 0;
    while sy < ch
        invariant
            sy <= ch,
            p == (Placement { fw, fh, cw, ch, px0, py0, premul }),
            p.paints_within(sprite@, orig.len() as int),
            orig.len() == total,
            cw * ch * 4 <= sprite@.len(),
            sprite@.len() == have,
            dst@ == p.partly(orig, sprite@, sy as int, 0),
        decreases ch - sy,
    {
        let dy: i128 = py0 as i128 + sy as i128;
        if dy < 0 || dy >= fh as i128 {
            proof {
                assert(p.partly(orig, sprite@, sy as int, 0) =~= p.partly(
                    orig,
                    sprite@,
                    sy + 1,
                    0,
                ));
            }
            sy = sy + 1;
            continue ;
        }
        let mut sx: usize = 0;
        while sx < cw
            invariant
                sx <= cw,
                sy < ch,
                dy == py0 + sy,
                0 <= dy < fh,
                p == (Placement { fw, fh, cw, ch, px0, py0, premul }),
                p.paints_within(sprite@, orig.len() as int),
                orig.len() == total,
                cw * ch * 4 <= sprite@.len(),
                sprite@.len() == have,
                dst@ == p.partly(orig, sprite@, sy as int, sx as int),
            decreases cw - sx,
        {
            let dx: i128 = px0 as i128 + sx as i128;
            let ghost before = p.partly(orig, sprite@, sy as int, sx as int);
            let ghost after = p.partly(orig, sprite@, sy as int, sx + 1);
            if dx < 0 || dx >= fw as i128 {
                proof {
                    assert(before =~= after);
                }
                sx = sx + 1;
                continue ;
            }
            proof {
                lemma_in_frame(sx as int, sy as int, cw as int, ch as int);
                lemma_in_frame(dx as int, dy as int, fw as int, fh as int);
            }
            let si: usize = (sy * cw + sx) * 4;
            let alpha: u8 = sprite[si + 3];
            let ghost di = (dy * fw + dx) * 4;
            proof {
                lemma_pixel_bytes(p, dx as int, dy as int, 0);
                lemma_pixel_bytes(p, dx as int, dy as int, 1);
                lemma_pixel_bytes(p, dx as int, dy as int, 2);
                lemma_pixel_bytes(p, dx as int, dy as int, 3);
                assert forall|i: int|
                    0 <= i < orig.len() && !(di <= i < di + 3) implies before[i] == after[i] by {
                    lemma_bytes_of_pixel(p, i);
                    if p.passed(i, sy as int, sx + 1) && !p.passed(i, sy as int, sx as int) {
                        assert(p.row_of(i) == dy && p.col_of(i) == dx);
                        assert(i == di + i % 4);
                        assert(i % 4 == 3);
                    }
                }
            }
            if alpha == 0 {
                proof {
                    assert(before =~= after);
                }
                sx = sx + 1;
                continue ;
            }
            assert(p.paints(sprite@, dx as int, dy as int));
            assert(0 <= dy * fw) by (nonlinear_arith)
                requires
                    0 <= dy,
                    0 <= fw,
            ;
            let di: usize = (dy as usize * fw + dx as usize) * 4;
            let b: u8 = mix(sprite[si], dst[di], alpha, premul);
            let g: u8 = mix(sprite[si + 1], dst[di + 1], alpha, premul);
            let r: u8 = mix(sprite[si + 2], dst[di + 2], alpha, premul);
            dst[di] = b;
            dst[di + 1] = g;
            dst[di + 2] = r;
            proof {
                assert(before[di as int] == orig[di as int]);
                assert(before[di + 1] == orig[di + 1]);
                assert(before[di + 2] == orig[di + 2]);
                assert(dst@ =~= after);
            }
            sx = sx + 1;
        }
        proof {
            assert(p.partly(orig, sprite@, sy as int, sx as int) =~= p.partly(
                orig,
                sprite@,
                sy + 1,
                0,
            )) by {
                assert forall|i: int| 0 <= i < orig.len() implies p.partly(
                    orig,
                    sprite@,
                    sy as int,
                    sx as int,
                )[i] == p.partly(orig, sprite@, sy + 1, 0)[i] by {}
            }
        }
        sy = sy + 1;
    }
    proof {
        assert forall|i: int| 0 <= i < orig.len() implies #[trigger] dst@[i] == p.blended(
            orig,
            sprite@,
            i,
        ) by {}
    }
}

/// Byte `i` of the clean frame once a decoded frame was taken in: the decoded pixel with red
/// and blue swapped and made opaque, as far as there are decoded pixels.
pub open spec fn ingested(old_clean: Seq<u8>, rgba: Seq<u8>, i: int) -> u8 {
    if i / 4 < rgba.len() / 4 {
        if i % 4 == 3 {
            255
        } else {
            rgba[i / 4 * 4 + 2 - i % 4]
        }
    } else if i < old_clean.len() {
        old_clean[i]
    } else {
        0
    }
}

/// Takes a decoded RGBA frame into the clean BGRA copy.
pub fn ingest_frame(clean: &mut Vec<u8>, width: u32, height: u32, rgba: &[u8])
    requires
        width * height * 4 <= usize::MAX,
    ensures
        final(clean)@.len() == width * height * 4,
        forall|i: int|
            0 <= i < final(clean)@.len() ==> #[trigger] final(clean)@[i] == ingested(
                old(clean)@,
                rgba@,
                i,
            ),
{
    assert(0 <= width * height) by (nonlinear_arith)
        requires
            width >= 0,
            height >= 0,
    ;
    let px: usize = width as usize * height as usize;
    let ghost before = clean@;
    clean.resize(px * 4, 0);
    let whole: usize = rgba.len() / 4;
    let n: usize = if whole < px {
        whole
    } else {
        px
    };
    let mut k: usize = 0;
    let ghost start = clean@;
    while k < n
        invariant
            k <= n <= px,
            n * 4 <= rgba@.len(),
            px * 4 <= usize::MAX,
            clean@.len() == px * 4,
            start.len() == px * 4,
            n <= rgba@.len() / 4,
            forall|i: int| k * 4 <= i < clean@.len() ==> clean@[i] == #[trigger] start[i],
            forall|i: int|
                0 <= i < k * 4 ==> #[trigger] clean@[i] == ingested(before, rgba@, i),
        decreases n - k,
    {
        let at: usize = k * 4;
        clean.set(at, rgba[at + 2]);
        clean.set(at + 1, rgba[at + 1]);
        clean.set(at + 2, rgba[at]);
        clean.set(at + 3, 255);
        k = k + 1;
    }
    proof {
        assert forall|i: int| 0 <= i < clean@.len() implies #[trigger] clean@[i] == ingested(
            before,
            rgba@,
            i,
        ) by {
            if i >= k * 4 {
                assert(clean@[i] == start[i]);
                if i < before.len() {
                    assert(start.subrange(0, before.len() as int)[i] == before[i] || start[i]
                        == before[i]);
                }
            }
        }
    }
}

/// A decoded frame keeps its colours: red, green and blue of pixel `k` stand in the order of BGRA,
/// and the pixel is opaque. Pixels that were not decoded keep what was there.
pub proof fn law_ingested_pixel(old_clean: Seq<u8>, rgba: Seq<u8>, k: int)
    requires
        0 <= k,
    ensures
        k * 4 + 4 <= rgba.len() ==> {
            &&& ingested(old_clean, rgba, k * 4) == rgba[k * 4 + 2]
            &&& ingested(old_clean, rgba, k * 4 + 1) == rgba[k * 4 + 1]
            &&& ingested(old_clean, rgba, k * 4 + 2) == rgba[k * 4]
            &&& ingested(old_clean, rgba, k * 4 + 3) == 255
        },
        k * 4 + 4 > rgba.len() ==> forall|c: int|
            0 <= c < 4 && k * 4 + c < old_clean.len() ==> #[trigger] ingested(
                old_clean,
                rgba,
                k * 4 + c,
            ) == old_clean[k * 4 + c],
{
}

/// A channel of one pixel over another: an opaque pixel hides what is under it. Between the two,
/// plain colours meet at the weighted mean, rounded down, so never outside the two, and scaled
/// colours add what shows through, up to full brightness.
pub proof fn law_over(s: u8, d: u8, alpha: u8)
    ensures
        over(s, d, 255, false) == s,
        over(s, d, 255, true) == s,
        over(s, d, 0, false) == d,
        over(s, d, alpha, false) * 255 <= s * alpha + d * (255 - alpha) < over(s, d, alpha, false)
            * 255 + 255,
        s <= d ==> s <= over(s, d, alpha, false) <= d,
        d <= s ==> d <= over(s, d, alpha, false) <= s,
        s <= over(s, d, alpha, true) <= 255,
        over(s, d, alpha, true) < 255 ==> (over(s, d, alpha, true) - s) * 255 <= d * (255 - alpha)
            < (over(s, d, alpha, true) - s) * 255 + 255,
        over(s, d, alpha, true) == 255 ==> 255 * 255 <= s * 255 + d * (255 - alpha),
{
    let n = s * alpha + d * (255 - alpha);
    assert(s <= d ==> s * 255 <= n <= d * 255) by (nonlinear_arith)
        requires
            n == s * alpha + d * (255 - alpha),
            0 <= alpha <= 255,
            0 <= s <= 255,
            0 <= d <= 255,
    ;
    assert(d <= s ==> d * 255 <= n <= s * 255) by (nonlinear_arith)
        requires
            n == s * alpha + d * (255 - alpha),
            0 <= alpha <= 255,
            0 <= s <= 255,
            0 <= d <= 255,
    ;
    assert(0 <= d * (255 - alpha)) by (nonlinear_arith)
        requires
            0 <= d,
            0 <= alpha <= 255,
    ;
    assert(d * (255 - 0) == d * 255 && d * (255 - 255) == 0 && s * 0 == 0);
}

/// A sprite lands where it is placed: pixel (`sx`, `sy`) of the sprite lies over the frame's pixel
/// that is as far from the sprite's corner. There an opaque pixel replaces the frame's colours, a
/// transparent one leaves them, any other mixes the two, and the frame's alpha stays.
pub proof fn law_sprite_lands(
    p: Placement,
    dst: Seq<u8>,
    sprite: Seq<u8>,
    sx: int,
    sy: int,
    c: int,
)
    requires
        0 <= sx < p.cw,
        0 <= sy < p.ch,
        0 <= p.px0 + sx < p.fw,
        0 <= p.py0 + sy < p.fh,
        0 <= c < 4,
    ensures
        ({
            let i = ((p.py0 + sy) * p.fw + (p.px0 + sx)) * 4 + c;
            let s = (sy * p.cw + sx) * 4;
            let alpha = sprite[s + 3];
            let got = p.blended(dst, sprite, i);
            &&& c == 3 ==> got == dst[i]
            &&& alpha == 0 ==> got == dst[i]
            &&& c < 3 && alpha == 255 ==> got == sprite[s + c]
            &&& c < 3 && alpha != 0 ==> got == over(sprite[s + c], dst[i], alpha, p.premul) as u8
        }),
{
    let i = ((p.py0 + sy) * p.fw + (p.px0 + sx)) * 4 + c;
    lemma_pixel_bytes(p, p.px0 + sx, p.py0 + sy, c);
    let s = (sy * p.cw + sx) * 4;
    assert(p.sprite_at(i) == s);
    if c < 3 {
        law_over(sprite[s + c], dst[i], sprite[s + 3]);
    }
}

/// The frame's pixels that no pixel of the sprite lies over stay as they are.
pub proof fn law_sprite_ends_at_its_sides(
    p: Placement,
    dst: Seq<u8>,
    sprite: Seq<u8>,
    x: int,
    y: int,
    c: int,
)
    requires
        0 <= x < p.fw,
        0 <= y < p.fh,
        0 <= c < 4,
        !(p.px0 <= x < p.px0 + p.cw && p.py0 <= y < p.py0 + p.ch),
    ensures
        p.blended(dst, sprite, (y * p.fw + x) * 4 + c) == dst[(y * p.fw + x) * 4 + c],
{
    lemma_pixel_bytes(p, x, y, c);
}

/// Blending a sprite in: every byte of the frame becomes what the sprite over it makes of it, and a
/// sprite without all of its bytes changes nothing.
pub proof fn law_blended_frame(
    dst: &mut [u8],
    fw: usize,
    fh: usize,
    sprite: &[u8],
    cw: usize,
    ch: usize,
    px0: i32,
    py0: i32,
    premul: bool,
    sx: int,
    sy: int,
    c: int,
)
    requires
        call_ensures(blend_sprite, (dst, fw, fh, sprite, cw, ch, px0, py0, premul), ()),
        old(dst)@.len() == fw * fh * 4,
        0 <= sx < cw,
        0 <= sy < ch,
        0 <= px0 + sx < fw,
        0 <= py0 + sy < fh,
        0 <= c < 3,
    ensures
        final(dst)@.len() == old(dst)@.len(),
        sprite@.len() < cw * ch * 4 ==> final(dst)@ == old(dst)@,
        sprite@.len() >= cw * ch * 4 ==> {
            let i = ((py0 + sy) * fw + (px0 + sx)) * 4 + c;
            let s = (sy * cw + sx) * 4;
            &&& sprite@[s + 3] == 255 ==> final(dst)@[i] == sprite@[s + c]
            &&& sprite@[s + 3] == 0 ==> final(dst)@[i] == old(dst)@[i]
        },
{
    let p = Placement { fw, fh, cw, ch, px0: px0 as i64, py0: py0 as i64, premul };
    law_sprite_lands(p, old(dst)@, sprite@, sx, sy, c);
    lemma_in_frame(px0 + sx, py0 + sy, fw as int, fh as int);
    let i = ((py0 + sy) * fw + (px0 + sx)) * 4 + c;
    assert(fw * fh * 4 == (fw * fh) * 4);
    assert(0 <= i < old(dst)@.len());
    if sprite@.len() >= cw * ch * 4 {
        let got = final(dst)@[i];
        assert(got == p.blended(old(dst)@, sprite@, i));
    }
}

/// A sprite that is painted lands pixel by pixel with its first pixel at the given corner: where it
/// is opaque its own colours are seen, where it is clear what was there, and no pixel's last byte
/// changes. One whose picture is too short changes nothing.
pub proof fn law_painted_sprite(
    dst: &mut [u8],
    fw: usize,
    fh: usize,
    sprite: &[u8],
    cw: usize,
    ch: usize,
    px0: i64,
    py0: i64,
    premul: bool,
    sx: int,
    sy: int,
    c: int,
)
    requires
        call_ensures(blend_at, (dst, fw, fh, sprite, cw, ch, px0, py0, premul), ()),
        0 <= sx < cw,
        0 <= sy < ch,
        0 <= px0 + sx < fw,
        0 <= py0 + sy < fh,
        0 <= c < 4,
        ((py0 + sy) * fw + (px0 + sx)) * 4 + c < old(dst)@.len(),
    ensures
        sprite@.len() < cw * ch * 4 ==> final(dst)@ == old(dst)@,
        sprite@.len() >= cw * ch * 4 ==> {
            let i = ((py0 + sy) * fw + (px0 + sx)) * 4 + c;
            let s = (sy * cw + sx) * 4;
            &&& c == 3 || sprite@[s + 3] == 0 ==> final(dst)@[i] == old(dst)@[i]
            &&& c < 3 && sprite@[s + 3] == 255 ==> final(dst)@[i] == sprite@[s + c]
        },
{
    let p = Placement { fw, fh, cw, ch, px0, py0, premul };
    law_sprite_lands(p, old(dst)@, sprite@, sx, sy, c);
    let i = ((py0 + sy) * fw + (px0 + sx)) * 4 + c;
    assert(0 <= i) by {
        assert((py0 + sy) * fw >= 0) by (nonlinear_arith)
            requires
                0 <= py0 + sy,
                0 <= fw,
        ;
    }
    if sprite@.len() >= cw * ch * 4 {
        assert(final(dst)@[i] == p.blended(old(dst)@, sprite@, i));
    }
}

/// A frame that is taken in has its pixels where they came from, red and blue exchanged and opaque.
pub proof fn law_taken_in_pixel(clean: &mut Vec<u8>, width: u32, height: u32, rgba: &[u8], k: int)
    requires
        call_ensures(ingest_frame, (clean, width, height, rgba), ()),
        0 <= k < width * height,
        k * 4 + 4 <= rgba@.len(),
    ensures
        final(clean)@.len() == width * height * 4,
        final(clean)@[k * 4] == rgba@[k * 4 + 2],
        final(clean)@[k * 4 + 1] == rgba@[k * 4 + 1],
        final(clean)@[k * 4 + 2] == rgba@[k * 4],
        final(clean)@[k * 4 + 3] == 255,
{
    law_ingested_pixel(old(clean)@, rgba@, k);
    assert(k * 4 + 3 < width * height * 4);
}

} // verus!
