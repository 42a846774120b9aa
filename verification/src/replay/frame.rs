//! Rendered frames in host memory.
use crate::bytes::push_all;
use crate::text::{decimal, push_decimal};
use vstd::prelude::*;
use vstd::string::StringExecFns;
use vstd::utf8::encode_utf8;

verus! {

/// A rendered frame: tightly packed RGBA bytes.
#[derive(Debug)]
pub struct Frame {
    pub width: u32,
    pub height: u32,
    pub rgba: Vec<u8>,
}

/// How a present-callback render went.
#[derive(Debug, Clone, Copy, PartialEq, Eq, Structural)]
pub struct PresentStats {
    /// How long the present callback ran, in microseconds.
    pub present_us: u64,
    /// What the callback returned.
    pub presented: bool,
}

/// The header of a binary PPM.
pub open spec fn ppm_header(width: u32, height: u32) -> Seq<char> {
    "P6\n"@ + decimal(width as nat) + " "@ + decimal(height as nat) + "\n255\n"@
}

/// The RGB bytes of the whole pixels in some RGBA bytes.
pub open spec fn without_alpha(rgba: Seq<u8>) -> Seq<u8> {
    Seq::new((rgba.len() / 4 * 3) as nat, |i: int| rgba[i / 3 * 4 + i % 3])
}

/// A binary PPM (P6) of some RGBA bytes, alpha dropped. Bytes behind the last whole pixel are
/// left out.
pub fn ppm_bytes(width: u32, height: u32, rgba: &[u8]) -> (out: Vec<u8>)
    ensures
        out@ == encode_utf8(ppm_header(width, height)) + without_alpha(rgba@),
{
    let mut header = "P6\n".to_owned();
    push_decimal(&mut header, width as u64);
    header.append(" ");
    push_decimal(&mut header, height as u64);
    header.append("\n255\n");
    let mut out: Vec<u8> = Vec::new();
    push_all(&mut out, header.as_str().as_bytes());
    let ghost head = out@;
    let pixels: usize = rgba.len() / 4;
    let mut n: usize = 0;
    while n < pixels
        invariant
            n <= pixels,
            pixels == rgba@.len() / 4,
            pixels * 4 <= usize::MAX,
            out@ == head + without_alpha(rgba@.take(n * 4)),
        decreases pixels - n,
    {
        let i: usize = n * 4;
        out.push(rgba[i]);
        out.push(rgba[i + 1]);
        out.push(rgba[i + 2]);
        proof {
            let before = without_alpha(rgba@.take(n * 4));
            let after = without_alpha(rgba@.take((n + 1) * 4));
            assert(after =~= before + seq![rgba@[i as int], rgba@[i + 1], rgba@[i + 2]]);
            assert(out@ =~= head + after);
        }
        n = n + 1;
    }
    assert(without_alpha(rgba@.take(n * 4)) =~= without_alpha(rgba@));
    out
}

/// The byte where the pixel at (x, y) starts.
pub open spec fn pixel_start(width: u32, x: u32, y: u32) -> int {
    (y * width + x) * 4
}

impl Frame {
    /// The frame as a binary PPM.
    pub fn to_ppm(&self) -> (out: Vec<u8>)
        ensures
            out@ == encode_utf8(ppm_header(self.width, self.height)) + without_alpha(self.rgba@),
    {
        ppm_bytes(self.width, self.height, self.rgba.as_slice())
    }

    /// Whether the frame has a pixel at (x, y): its bytes are there, and their place is a
    /// 32-bit number.
    pub open spec fn has_pixel(&self, x: u32, y: u32) -> bool {
        pixel_start(self.width, x, y) <= u32::MAX && pixel_start(self.width, x, y) + 4
            <= self.rgba@.len()
    }

    /// The pixel at (x, y), as red, green, blue and alpha.
    pub fn pixel(&self, x: u32, y: u32) -> (p: [u8; 4])
        requires
            self.has_pixel(x, y),
        ensures
            p@ == self.rgba@.subrange(
                pixel_start(self.width, x, y),
                pixel_start(self.width, x, y) + 4,
            ),
    {
        assert(0 <= y * self.width) by (nonlinear_arith)
            requires
                y >= 0,
                self.width >= 0,
        ;
        let i: usize = ((y * self.width + x) * 4) as usize;
        let p = [self.rgba[i], self.rgba[i + 1], self.rgba[i + 2], self.rgba[i + 3]];
        assert(p@ =~= self.rgba@.subrange(i as int, i + 4));
        p
    }
}

/// A pixel is the four bytes at its place: rows of `width` pixels, one after the other.
pub proof fn law_pixel_is_at_its_place(f: &Frame, x: u32, y: u32, p: [u8; 4], c: int)
    requires
        f.has_pixel(x, y),
        call_ensures(Frame::pixel, (f, x, y), p),
        0 <= c < 4,
    ensures
        p@[c] == f.rgba@[4 * (y * f.width + x) + c],
{
    assert(0 <= y * f.width) by (nonlinear_arith)
        requires
            y >= 0,
            f.width >= 0,
    ;
}

/// A PPM has its header and then red, green and blue of every pixel in order: no alpha, and no part
/// of a pixel.
pub proof fn law_ppm_pixels(width: u32, height: u32, rgba: &[u8], out: Vec<u8>, k: int)
    requires
        call_ensures(ppm_bytes, (width, height, rgba), out),
        0 <= k < rgba@.len() as int / 4,
    ensures
        ({
            let h = encode_utf8(
                seq!['P', '6', '\n'] + decimal(width as nat) + seq![' '] + decimal(height as nat)
                    + seq!['\n', '2', '5', '5', '\n'],
            );
            let n = h.len() as int;
            &&& out@.len() == n + rgba@.len() as int / 4 * 3
            &&& out@.take(n) == h
            &&& out@[n + 3 * k] == rgba@[4 * k]
            &&& out@[n + 3 * k + 1] == rgba@[4 * k + 1]
            &&& out@[n + 3 * k + 2] == rgba@[4 * k + 2]
        }),
{
    reveal_strlit("P6\n");
    reveal_strlit(" ");
    reveal_strlit("\n255\n");
    let text = seq!['P', '6', '\n'] + decimal(width as nat) + seq![' '] + decimal(height as nat)
        + seq!['\n', '2', '5', '5', '\n'];
    assert(ppm_header(width, height) =~= text);
    let h = encode_utf8(text);
    let n = h.len() as int;
    let w = without_alpha(rgba@);
    assert(out@.take(n) =~= h);
    assert(3 * k / 3 == k && (3 * k + 1) / 3 == k && (3 * k + 2) / 3 == k);
    assert(out@[n + 3 * k] == w[3 * k]);
    assert(out@[n + 3 * k + 1] == w[3 * k + 1]);
    assert(out@[n + 3 * k + 2] == w[3 * k + 2]);
}

/// A frame's own PPM is that of its size and its bytes.
pub proof fn law_frame_ppm(f: &Frame, bytes: &[u8], out: Vec<u8>, same: Vec<u8>)
    requires
        bytes@ == f.rgba@,
        call_ensures(Frame::to_ppm, (f,), out),
        call_ensures(ppm_bytes, (f.width, f.height, bytes), same),
    ensures
        out@ == same@,
{
}

} // verus!
