//! Bitmaps: textures of fixed size, held in the arenas.
use vstd::prelude::*;
use slotmap::DefaultKey;
use crate::arenas::{ArenaError, Arenas};

verus! {

/// What decoding `bytes` as an image gives, as RGBA8: width, height and the
/// pixels row by row, four bytes each; `None` when the bytes are no image.
pub uninterp spec fn decoded_rgba(bytes: Seq<u8>) -> Option<(u32, u32, Seq<u8>)>;

/// Relies on `image::load_from_memory`, which guesses the format from the
/// bytes and decodes them, and on `DynamicImage::to_rgba8`, whose buffer
/// holds at least four bytes for each of `width * height` pixels.
#[verifier::external_body]
fn decode_rgba(bytes: &[u8]) -> (r: Option<(u32, u32, Vec<u8>)>)
    ensures
        r.is_some() == decoded_rgba(bytes@).is_some(),
        r.is_some() ==> decoded_rgba(bytes@) == Some((r.unwrap().0, r.unwrap().1, r.unwrap().2@)),
        r.is_some() ==> r.unwrap().2@.len() >= 4 * r.unwrap().0 * r.unwrap().1,
{
    match image::load_from_memory(bytes) {
        Ok(img) => {
            let rgba = img.to_rgba8();
            let (width, height) = rgba.dimensions();
            Some((width, height, rgba.into_raw()))
        },
        Err(_) => None,
    }
}

/// Why an image did not become a bitmap.
#[derive(Clone, Copy, Debug, PartialEq, Eq, Structural)]
pub enum LoadError {
    /// The bytes are not an image of a known format.
    Undecodable,
    /// The image has no pixels: its width or height is zero.
    Empty,
}

/// A handle to a bitmap in the arenas.
#[derive(Clone, Copy, Debug, PartialEq, Eq)]
pub struct Bitmap {
    pub key: DefaultKey,
}

/// What the arenas hold of a bitmap: the size of its texture, fixed once made.
pub struct BitmapData {
    width: u32,
    height: u32,
}

impl BitmapData {
    #[verifier::type_invariant]
    spec fn inv(self) -> bool {
        self.width > 0 && self.height > 0
    }

    pub closed spec fn spec_width(&self) -> u32 {
        self.width
    }

    pub closed spec fn spec_height(&self) -> u32 {
        self.height
    }

    pub fn width(&self) -> (r: u32)
        ensures
            r == self.spec_width(),
            r > 0,
    {
        proof {
            use_type_invariant(self);
        }
        self.width
    }

    pub fn height(&self) -> (r: u32)
        ensures
            r == self.spec_height(),
            r > 0,
    {
        proof {
            use_type_invariant(self);
        }
        self.height
    }
}

impl Bitmap {
    /// A blank bitmap of `width` by `height` pixels.
    pub fn new(arenas: &mut Arenas, width: u32, height: u32) -> (r: Bitmap)
        requires
            width > 0,
            height > 0,
            old(arenas).bitmaps().len() + 1 < u32::MAX,
        ensures
            !old(arenas).bitmaps().contains_key(r.key),
            final(arenas).bitmaps().contains_key(r.key),
            final(arenas).bitmaps()[r.key].spec_width() == width,
            final(arenas).bitmaps()[r.key].spec_height() == height,
            final(arenas).bitmaps() == old(arenas).bitmaps().insert(r.key, final(arenas).bitmaps()[r.key]),
            final(arenas).viewports() == old(arenas).viewports(),
            final(arenas).windows() == old(arenas).windows(),
            final(arenas).ticks() == old(arenas).ticks(),
    {
        let key = arenas.insert_bitmap(BitmapData { width, height });
        Bitmap { key }
    }

    /// Width in pixels; `NotFound` for a handle that no longer finds a bitmap.
    pub fn width(&self, arenas: &Arenas) -> (r: Result<u32, ArenaError>)
        ensures
            arenas.bitmaps().contains_key(self.key) ==> r == Ok::<u32, ArenaError>(arenas.bitmaps()[self.key].spec_width()),
            !arenas.bitmaps().contains_key(self.key) ==> r == Err::<u32, ArenaError>(ArenaError::NotFound),
    {
        match arenas.bitmap(self.key) {
            Ok(data) => Ok(data.width()),
            Err(e) => Err(e),
        }
    }

    /// Height in pixels; `NotFound` for a handle that no longer finds a bitmap.
    pub fn height(&self, arenas: &Arenas) -> (r: Result<u32, ArenaError>)
        ensures
            arenas.bitmaps().contains_key(self.key) ==> r == Ok::<u32, ArenaError>(arenas.bitmaps()[self.key].spec_height()),
            !arenas.bitmaps().contains_key(self.key) ==> r == Err::<u32, ArenaError>(ArenaError::NotFound),
    {
        match arenas.bitmap(self.key) {
            Ok(data) => Ok(data.height()),
            Err(e) => Err(e),
        }
    }

    /// A bitmap of a decoded image, given as width, height and RGBA8 pixels
    /// (`None` when decoding failed). On success the pixels are handed back
    /// for upload to the bitmap's texture.
    pub fn from_decoded(arenas: &mut Arenas, decoded: Option<(u32, u32, Vec<u8>)>) -> (r: Result<(Bitmap, Vec<u8>), LoadError>)
        requires
            old(arenas).bitmaps().len() + 1 < u32::MAX,
        ensures
            final(arenas).viewports() == old(arenas).viewports(),
            final(arenas).windows() == old(arenas).windows(),
            final(arenas).ticks() == old(arenas).ticks(),
            r.is_err() ==> final(arenas).bitmaps() == old(arenas).bitmaps(),
            match decoded {
                None => r == Err::<(Bitmap, Vec<u8>), LoadError>(LoadError::Undecodable),
                Some((w, h, px)) => if w == 0 || h == 0 {
                    r == Err::<(Bitmap, Vec<u8>), LoadError>(LoadError::Empty)
                } else {
                    &&& r.is_ok()
                    &&& r.unwrap().1@ == px@
                    &&& !old(arenas).bitmaps().contains_key(r.unwrap().0.key)
                    &&& final(arenas).bitmaps().contains_key(r.unwrap().0.key)
                    &&& final(arenas).bitmaps()[r.unwrap().0.key].spec_width() == w
                    &&& final(arenas).bitmaps()[r.unwrap().0.key].spec_height() == h
                    &&& final(arenas).bitmaps() == old(arenas).bitmaps().insert(r.unwrap().0.key, final(arenas).bitmaps()[r.unwrap().0.key])
                },
            },
    {
        match decoded {
            None => Err(LoadError::Undecodable),
            Some((width, height, pixels)) => {
                if width == 0 || height == 0 {
                    Err(LoadError::Empty)
                } else {
                    let bitmap = Bitmap::new(arenas, width, height);
                    Ok((bitmap, pixels))
                }
            },
        }
    }

    /// A bitmap of the image held in `bytes`, decoded as RGBA8. On success
    /// the pixels are handed back for upload to the bitmap's texture.
    pub fn new_from_image(arenas: &mut Arenas, bytes: &[u8]) -> (r: Result<(Bitmap, Vec<u8>), LoadError>)
        requires
            old(arenas).bitmaps().len() + 1 < u32::MAX,
        ensures
            final(arenas).viewports() == old(arenas).viewports(),
            final(arenas).windows() == old(arenas).windows(),
            final(arenas).ticks() == old(arenas).ticks(),
            r.is_err() ==> final(arenas).bitmaps() == old(arenas).bitmaps(),
            match decoded_rgba(bytes@) {
                None => r == Err::<(Bitmap, Vec<u8>), LoadError>(LoadError::Undecodable),
                Some((w, h, px)) => if w == 0 || h == 0 {
                    r == Err::<(Bitmap, Vec<u8>), LoadError>(LoadError::Empty)
                } else {
                    &&& r.is_ok()
                    &&& r.unwrap().1@ == px
                    &&& !old(arenas).bitmaps().contains_key(r.unwrap().0.key)
                    &&& final(arenas).bitmaps()[r.unwrap().0.key].spec_width() == w
                    &&& final(arenas).bitmaps()[r.unwrap().0.key].spec_height() == h
                    &&& final(arenas).bitmaps() == old(arenas).bitmaps().insert(r.unwrap().0.key, final(arenas).bitmaps()[r.unwrap().0.key])
                },
            },
    {
        let decoded = decode_rgba(bytes);
        Bitmap::from_decoded(arenas, decoded)
    }
}

} // verus!
