//! Decoding without a window: how many frames to take, and whether they were real.
use crate::text::{decimal, push_decimal};
use vstd::prelude::*;
use vstd::string::StringExecFns;

verus! {

/// Whether pixel `i` of some RGBA bytes is not black, or nearly so.
pub open spec fn lit(rgba: Seq<u8>, i: int) -> bool {
    rgba[4 * i] > 8 || rgba[4 * i + 1] > 8 || rgba[4 * i + 2] > 8
}

/// How many of the first `n` pixels are not black.
pub open spec fn lit_count(rgba: Seq<u8>, n: int) -> int
    decreases n,
{
    if n <= 0 {
        0
    } else if lit(rgba, n - 1) {
        lit_count(rgba, n - 1) + 1
    } else {
        lit_count(rgba, n - 1)
    }
}

/// How many whole pixels are not black.
pub fn lit_pixels(rgba: &[u8]) -> (r: usize)
    ensures
        r == lit_count(rgba@, rgba@.len() as int / 4),
{
    let pixels: usize = rgba.len() / 4;
    let mut n: usize = 0;
    let mut i: usize = 0;
    while i < pixels
        invariant
            i <= pixels,
            pixels == rgba@.len() / 4,
            pixels * 4 <= rgba@.len(),
            pixels * 4 <= usize::MAX,
            n <= i,
            n == lit_count(rgba@, i as int),
        decreases pixels - i,
    {
        let at: usize = i * 4;
        if rgba[at] > 8 || rgba[at + 1] > 8 || rgba[at + 2] > 8 {
            n = n + 1;
        }
        i = i + 1;
    }
    n
}

/// No pixel is lit exactly where the count is zero.
pub proof fn law_black_frames(rgba: Seq<u8>, n: int)
    ensures
        lit_count(rgba, n) == 0 <==> forall|i: int| 0 <= i < n ==> !#[trigger] lit(rgba, i),
        lit_count(rgba, n) >= 0,
    decreases n,
{
    if n > 0 {
        law_black_frames(rgba, n - 1);
        if lit_count(rgba, n) == 0 {
            assert forall|i: int| 0 <= i < n implies !#[trigger] lit(rgba, i) by {
                if i < n - 1 {
                    assert(lit_count(rgba, n - 1) == 0);
                }
            }
        }
    }
}

/// Counts the frames of a run.
#[derive(Debug, Clone, Copy, PartialEq, Eq, Structural)]
pub struct Tally {
    pub got: usize,
    pub keyframes: usize,
}

impl Tally {
    /// Nothing decoded yet.
    pub fn new() -> (t: Self)
        ensures
            t.got == 0,
            t.keyframes == 0,
    {
        Tally { got: 0, keyframes: 0 }
    }

    /// A frame was decoded. Gives whether more are wanted.
    pub fn frame(&mut self, keyframe: bool, frames: usize) -> (more: bool)
        requires
            old(self).got < usize::MAX,
            old(self).keyframes <= old(self).got,
        ensures
            final(self).got == old(self).got + 1,
            final(self).keyframes == old(self).keyframes + if keyframe {
                1int
            } else {
                0
            },
            more == (final(self).got < frames),
    {
        self.got = self.got + 1;
        if keyframe {
            self.keyframes = self.keyframes + 1;
        }
        self.got < frames
    }
}

/// Why a run is not taken for good.
#[derive(Debug, Clone, Copy, PartialEq, Eq, Structural)]
pub enum ProbeError {
    /// Nothing was decoded.
    NoFrames,
    /// The stream ended early.
    Ended { got: usize, frames: usize },
    /// The last frame is black.
    Black,
}

/// What a failed run says.
pub open spec fn probe_message(e: ProbeError) -> Seq<char> {
    match e {
        ProbeError::NoFrames => "no frames decoded"@,
        ProbeError::Ended { got, frames } => "stream ended after "@ + decimal(got as nat) + "/"@
            + decimal(frames as nat) + " frames"@,
        ProbeError::Black => "last frame is entirely black — decode produced no content"@,
    }
}

impl ProbeError {
    /// What a failed run says.
    pub fn message(&self) -> (s: String)
        ensures
            s@ == probe_message(*self),
    {
        match *self {
            ProbeError::NoFrames => "no frames decoded".to_owned(),
            ProbeError::Ended { got, frames } => {
                let mut s = "stream ended after ".to_owned();
                push_decimal(&mut s, got as u64);
                s.append("/");
                push_decimal(&mut s, frames as u64);
                s.append(" frames");
                s
            },
            ProbeError::Black => "last frame is entirely black — decode produced no content".to_owned(),
        }
    }
}

/// Whether a run is good: as many frames as wanted, and the last one with something on it.
pub open spec fn verdict_of(got: usize, frames: usize, last: Option<Seq<u8>>) -> Result<
    (),
    ProbeError,
> {
    match last {
        None => Err(ProbeError::NoFrames),
        Some(rgba) => if got < frames {
            Err(ProbeError::Ended { got, frames })
        } else if lit_count(rgba, rgba.len() as int / 4) == 0 {
            Err(ProbeError::Black)
        } else {
            Ok(())
        },
    }
}

/// Judges a run by its count and its last frame.
pub fn verdict(tally: &Tally, frames: usize, last: Option<&[u8]>) -> (r: Result<(), ProbeError>)
    ensures
        r == verdict_of(
            tally.got,
            frames,
            match last {
                Some(l) => Some(l@),
                None => None,
            },
        ),
{
    match last {
        None => Err(ProbeError::NoFrames),
        Some(rgba) => if tally.got < frames {
            Err(ProbeError::Ended { got: tally.got, frames })
        } else if lit_pixels(rgba) == 0 {
            Err(ProbeError::Black)
        } else {
            Ok(())
        },
    }
}

/// A run is good exactly where as many frames came as were wanted, and some pixel of the last one
/// has a colour above 8. Else it is told what is missing: any frame, more frames, or a picture.
pub proof fn law_good_runs(
    tally: &Tally,
    frames: usize,
    last: Option<&[u8]>,
    r: Result<(), ProbeError>,
    i: int,
)
    requires
        call_ensures(verdict, (tally, frames, last), r),
    ensures
        last is None <==> r == Err::<(), ProbeError>(ProbeError::NoFrames),
        last is Some && tally.got < frames <==> r == Err::<(), ProbeError>(
            ProbeError::Ended { got: tally.got, frames },
        ),
        r is Ok ==> last is Some && tally.got >= frames,
        last is Some && tally.got >= frames && 0 <= 4 * i && 4 * i + 4 <= (last->0)@.len() && ((
        last->0)@[4 * i] > 8 || (last->0)@[4 * i + 1] > 8 || (last->0)@[4 * i + 2] > 8)
            ==> r is Ok,
        r is Ok ==> exists|k: int| #[trigger] has_colour((last->0)@, k),
{
    if last is Some {
        let rgba = (last->0)@;
        let n = rgba.len() as int / 4;
        law_black_frames(rgba, n);
        if 0 <= 4 * i && 4 * i + 4 <= rgba.len() {
            assert(0 <= i < n);
            assert(lit_count(rgba, n) == 0 ==> !lit(rgba, i));
        }
        if r is Ok {
            let k = choose|k: int| 0 <= k < n && #[trigger] lit(rgba, k);
            assert(has_colour(rgba, k));
        }
    }
}

/// Whether pixel `k` is there and has a colour above 8.
pub open spec fn has_colour(rgba: Seq<u8>, k: int) -> bool {
    &&& 0 <= k
    &&& 4 * k + 4 <= rgba.len()
    &&& rgba[4 * k] > 8 || rgba[4 * k + 1] > 8 || rgba[4 * k + 2] > 8
}

/// The lit pixels are counted each once: one pixel more adds one where it has a colour above 8, and
/// nothing where it has none.
pub proof fn law_pixels_are_counted_once(rgba: Seq<u8>, n: int)
    requires
        0 <= n,
    ensures
        lit_count(rgba, 0) == 0,
        rgba[4 * n] > 8 || rgba[4 * n + 1] > 8 || rgba[4 * n + 2] > 8 ==> lit_count(rgba, n + 1)
            == lit_count(rgba, n) + 1,
        rgba[4 * n] <= 8 && rgba[4 * n + 1] <= 8 && rgba[4 * n + 2] <= 8 ==> lit_count(rgba, n + 1)
            == lit_count(rgba, n),
{
}

/// Every frame counts once, every keyframe once more as such, and frames are wanted until there are
/// as many as asked for.
pub proof fn law_frames_are_tallied(t: &mut Tally, keyframe: bool, frames: usize, more: bool)
    requires
        old(t).got < usize::MAX,
        old(t).keyframes <= old(t).got,
        call_ensures(Tally::frame, (t, keyframe, frames), more),
    ensures
        final(t).got - old(t).got == 1,
        keyframe ==> final(t).keyframes - old(t).keyframes == 1,
        !keyframe ==> final(t).keyframes == old(t).keyframes,
        more <==> old(t).got + 1 < frames,
{
}

/// What is counted in a frame is all of its whole pixels.
pub proof fn law_lit_pixels(rgba: &[u8], n: usize)
    requires
        call_ensures(lit_pixels, (rgba,), n),
    ensures
        n == lit_count(rgba@, rgba@.len() as int / 4),
        rgba@.len() < 4 ==> n == 0,
{
}

/// A failed run says what was missing, a short one with how many frames came of how many.
pub proof fn law_failed_runs_say_why(e: &ProbeError, s: String)
    requires
        call_ensures(ProbeError::message, (e,), s),
    ensures
        e is NoFrames ==> s@ == "no frames decoded"@,
        e matches ProbeError::Ended { got, frames } ==> s@ == "stream ended after "@ + decimal(
            got as nat,
        ) + "/"@ + decimal(frames as nat) + " frames"@,
        e is Black ==> s@ == "last frame is entirely black \u{2014} decode produced no content"@,
{
}

} // verus!
