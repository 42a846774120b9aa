//! The H.264 decoder, and what it was fed.
use openh264::decoder::Decoder;
use openh264::formats::YUVSource;
use vstd::prelude::*;

verus! {

/// A decoded picture: tightly packed RGBA bytes.
#[derive(Debug)]
pub struct Picture {
    pub rgba: Vec<u8>,
    pub width: usize,
    pub height: usize,
}

/// An H.264 decoder of the codec library.
#[verifier::external_type_specification]
#[verifier::external_body]
pub struct ExDecoder(Decoder);

/// What the codec library reports when it fails.
#[verifier::external_type_specification]
#[verifier::external_body]
pub struct ExDecoderError(openh264::Error);

/// [`Decoder::new`]: a decoder that has seen nothing. It fails where the codec library cannot be
/// set up, of which nothing is stated.
pub assume_specification[ Decoder::new ]() -> (r: Result<Decoder, openh264::Error>);

/// All that [`Decoder::decode`] may give for one access unit to a decoder that was fed these units
/// before, in this order, and nothing else: the bytes and the size of a picture, no picture, or a
/// failure.
pub uninterp spec fn unit_results(fed: Seq<Seq<u8>>, unit: Seq<u8>) -> Set<
    Result<Option<(Seq<u8>, usize, usize)>, ()>,
>;

/// What the decoder gave, in plain values.
pub open spec fn plain_result(r: Result<Option<Picture>, openh264::Error>) -> Result<
    Option<(Seq<u8>, usize, usize)>,
    (),
> {
    match r {
        Ok(Some(p)) => Ok(Some((p.rgba@, p.width, p.height))),
        Ok(None) => Ok(None),
        Err(_) => Err(()),
    }
}

/// The codec library could not be set up.
#[derive(Debug, Clone, Copy, PartialEq, Eq, Structural)]
pub struct NoDecoder;

/// A decoder, and all that it was fed since it was made.
pub struct FedDecoder {
    inner: Decoder,
    fed: Ghost<Seq<Seq<u8>>>,
}

impl FedDecoder {
    /// The access units that the decoder was fed, in order.
    pub closed spec fn fed(&self) -> Seq<Seq<u8>> {
        self.fed@
    }

    /// A decoder that was fed nothing.
    pub fn open() -> (r: Result<Self, NoDecoder>)
        ensures
            r matches Ok(d) ==> d.fed() == Seq::<Seq<u8>>::empty(),
            exists|made: Result<Decoder, openh264::Error>| #[trigger]
                call_ensures(Decoder::new, (), made) && (r is Ok <==> made is Ok),
    {
        let made = Decoder::new();
        assert(call_ensures(Decoder::new, (), made));
        match made {
            Ok(inner) => Ok(FedDecoder { inner, fed: Ghost(Seq::empty()) }),
            Err(_) => Err(NoDecoder),
        }
    }

    /// [`Decoder::decode`] on one access unit in Annex-B form, with the picture read out by
    /// `dimensions`, `rgba8_len` and `write_rgba8`. The decoder counts bytes in a signed 32-bit
    /// number. Stated: the decoder was fed this unit and no other, the result is one of those that
    /// the unit can have behind all that was fed before, and a picture has four bytes for each
    /// pixel. Which of them it is, is left open: it rests on the memory and the processor that the
    /// codec library finds.
    #[verifier::external_body]
    pub(crate) fn decode_unit(&mut self, unit: &[u8]) -> (r: Result<
        Option<Picture>,
        openh264::Error,
    >)
        requires
            unit@.len() <= i32::MAX,
        ensures
            unit_results(old(self).fed(), unit@).contains(plain_result(r)),
            final(self).fed() == old(self).fed().push(unit@),
            r matches Ok(Some(p)) ==> p.rgba@.len() == p.width * p.height * 4,
    {
        match self.inner.decode(unit)? {
            Some(yuv) => {
                let (width, height) = yuv.dimensions();
                let mut rgba = vec![0u8; yuv.rgba8_len()];
                yuv.write_rgba8(&mut rgba);
                Ok(Some(Picture { rgba, width, height }))
            },
            None => Ok(None),
        }
    }
}

} // verus!
