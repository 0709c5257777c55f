//! A decoded raster image together with what is known of its copy on the
//! rendering backend.

use vstd::prelude::*;
use crate::color::{color_of_args, parse_color_args, Color4, ColorArg, ColorError};

verus! {

/// Why an operation on an asset was refused.
#[derive(Clone, Copy, Debug, PartialEq, Eq, Structural)]
pub enum ImageError {
    /// The payload was released; the asset is inert until it is loaded again.
    Unloaded,
    /// The coordinates lie outside the image.
    OutOfBounds,
    /// The arguments name no colour.
    Color(ColorError),
}

/// What the caller has to do on the rendering backend.
#[derive(Clone, Copy, Debug, PartialEq, Eq, Structural)]
pub enum TextureUpload {
    /// The backend copy is current.
    Nothing,
    /// Make a texture from the pixels: there is none yet.
    Create,
    /// Replace the content of the texture by the pixels.
    Refresh,
}

/// An image held in memory as rows of pixels, top row first.
pub struct ImageAsset {
    width: u16,
    height: u16,
    pixels: Vec<Color4>,
    dirty: bool,
    unloaded: bool,
    uploaded: bool,
}

/// An image as mathematics.
pub struct ImageView {
    pub width: nat,
    pub height: nat,
    /// Row after row, `width` pixels each.
    pub pixels: Seq<Color4>,
    /// The pixels changed since the backend last saw them.
    pub dirty: bool,
    /// The payload was released.
    pub unloaded: bool,
    /// The backend holds a texture of this image.
    pub uploaded: bool,
}

impl View for ImageAsset {
    type V = ImageView;

    closed spec fn view(&self) -> ImageView {
        ImageView {
            width: self.width as nat,
            height: self.height as nat,
            pixels: self.pixels@,
            dirty: self.dirty,
            unloaded: self.unloaded,
            uploaded: self.uploaded,
        }
    }
}

impl ImageView {
    /// Every pixel has its place, and a released image holds nothing.
    pub open spec fn wf(self) -> bool {
        &&& self.width <= u16::MAX
        &&& self.height <= u16::MAX
        &&& self.pixels.len() == self.width * self.height
        &&& self.unloaded ==> self.width == 0 && self.height == 0 && !self.dirty && !self.uploaded
    }

    /// The place of the pixel (`x`, `y`) in `pixels`.
    pub open spec fn offset(self, x: int, y: int) -> int {
        y * self.width + x
    }

    /// (`x`, `y`) names a pixel.
    pub open spec fn holds(self, x: int, y: int) -> bool {
        0 <= x < self.width && 0 <= y < self.height
    }

    /// A fresh, not yet uploaded image with the given pixels.
    pub open spec fn loaded(width: nat, height: nat, pixels: Seq<Color4>) -> ImageView {
        ImageView { width, height, pixels, dirty: false, unloaded: false, uploaded: false }
    }

    /// The image without its payload.
    pub open spec fn released() -> ImageView {
        ImageView { width: 0, height: 0, pixels: Seq::empty(), dirty: false, unloaded: true, uploaded: false }
    }

    /// The outcome of reading the pixel (`x`, `y`).
    pub open spec fn pixel(self, x: int, y: int) -> Result<Color4, ImageError> {
        if self.unloaded {
            Err(ImageError::Unloaded)
        } else if !self.holds(x, y) {
            Err(ImageError::OutOfBounds)
        } else {
            Ok(self.pixels[self.offset(x, y)])
        }
    }

    /// The outcome of writing `color` to the pixel (`x`, `y`), and the image
    /// afterwards: a write marks the image dirty and uploads nothing.
    /// Negative coordinates are refused before anything else is looked at.
    pub open spec fn with_pixel(self, x: int, y: int, color: Color4) -> (Result<(), ImageError>, ImageView) {
        if x < 0 || y < 0 {
            (Err(ImageError::OutOfBounds), self)
        } else if self.unloaded {
            (Err(ImageError::Unloaded), self)
        } else if !self.holds(x, y) {
            (Err(ImageError::OutOfBounds), self)
        } else {
            (Ok(()), ImageView { pixels: self.pixels.update(self.offset(x, y), color), dirty: true, ..self })
        }
    }

    /// The outcome of writing the colour that `args` name to the pixel
    /// (`x`, `y`), as a script asks for it: negative coordinates are refused
    /// first, then arguments that name no colour, then a released image,
    /// then coordinates beyond the image.
    pub open spec fn with_pixel_args(self, x: int, y: int, args: Seq<ColorArg>) -> (Result<(), ImageError>, ImageView) {
        if x < 0 || y < 0 {
            (Err(ImageError::OutOfBounds), self)
        } else {
            match color_of_args(args) {
                Err(e) => (Err(ImageError::Color(e)), self),
                Ok(color) => self.with_pixel(x, y, color),
            }
        }
    }

    /// The outcome of painting every pixel in the colour that `args` name;
    /// arguments that name no colour are refused before the image is looked
    /// at.
    pub open spec fn filled_args(self, args: Seq<ColorArg>) -> (Result<(), ImageError>, ImageView) {
        match color_of_args(args) {
            Err(e) => (Err(ImageError::Color(e)), self),
            Ok(color) => self.filled(color),
        }
    }

    /// The outcome of painting every pixel in `color`, and the image
    /// afterwards.
    pub open spec fn filled(self, color: Color4) -> (Result<(), ImageError>, ImageView) {
        if self.unloaded {
            (Err(ImageError::Unloaded), self)
        } else {
            (Ok(()), ImageView { pixels: Seq::new(self.pixels.len(), |i: int| color), dirty: true, ..self })
        }
    }

    /// The outcome of making the backend copy current, and the image
    /// afterwards. This is the one place where a texture is made or
    /// refreshed: a released image is refused, an image never uploaded gets
    /// its texture, a dirty one has it refreshed, and any other is left
    /// alone.
    pub open spec fn uploaded_now(self) -> (Result<TextureUpload, ImageError>, ImageView) {
        if self.unloaded {
            (Err(ImageError::Unloaded), self)
        } else if !self.uploaded {
            (Ok(TextureUpload::Create), ImageView { dirty: false, uploaded: true, ..self })
        } else if self.dirty {
            (Ok(TextureUpload::Refresh), ImageView { dirty: false, ..self })
        } else {
            (Ok(TextureUpload::Nothing), self)
        }
    }
}

/// Writing a pixel marks the image dirty.
pub proof fn lemma_write_marks_dirty(v: ImageView, x: int, y: int, color: Color4)
    requires
        v.wf(),
        v.with_pixel(x, y, color).0 is Ok,
    ensures
        v.with_pixel(x, y, color).1.dirty,
        v.with_pixel(x, y, color).1.pixel(x, y) == Ok::<Color4, ImageError>(color),
{
    let w = v.width as int;
    let h = v.height as int;
    assert(0 <= y * w + x < w * h) by (nonlinear_arith)
        requires
            0 <= x < w,
            0 <= y < h,
    ;
}

/// Making the backend copy current clears the dirty mark, and doing it again
/// without a write in between uploads nothing and changes nothing.
pub proof fn lemma_upload_is_idempotent(v: ImageView)
    requires
        v.uploaded_now().0 is Ok,
    ensures
        !v.uploaded_now().1.dirty,
        v.uploaded_now().1.uploaded,
        v.uploaded_now().1.uploaded_now() == (Ok::<TextureUpload, ImageError>(TextureUpload::Nothing), v.uploaded_now().1),
{
}

/// Once released, an image refuses every read, every write and every
/// upload.
pub proof fn lemma_released_is_inert(x: int, y: int, color: Color4)
    ensures
        ImageView::released().pixel(x, y) is Err,
        ImageView::released().with_pixel(x, y, color).0 is Err,
        ImageView::released().filled(color).0 is Err,
        ImageView::released().uploaded_now().0 is Err,
        ImageView::released().wf(),
{
}

/// The number of pixels of an image of `width` by `height`.
fn area(width: u16, height: u16) -> (n: usize)
    ensures
        n == width * height,
{
    proof {
        assert(width * height <= 0xffff * 0xffff) by (nonlinear_arith)
            requires
                0 <= width <= 0xffff,
                0 <= height <= 0xffff,
        ;
    }
    (width as usize) * (height as usize)
}

impl ImageAsset {
    /// The invariant of the image.
    pub open spec fn wf(&self) -> bool {
        self@.wf()
    }

    /// An image of `width` by `height` pixels, all of them `color`. Nothing
    /// is uploaded yet.
    pub fn new(width: u16, height: u16, color: Color4) -> (r: ImageAsset)
        ensures
            r.wf(),
            r@ == ImageView::loaded(width as nat, height as nat, Seq::new((width * height) as nat, |i: int| color)),
    {
        let n = area(width, height);
        let mut pixels: Vec<Color4> = Vec::new();
        let mut i: usize = 0;
        while i < n
            invariant
                i <= n,
                pixels@.len() == i,
                forall|k: int| 0 <= k < i ==> pixels@[k] == color,
            decreases n - i,
        {
            pixels.push(color);
            i += 1;
        }
        assert(pixels@ =~= Seq::new((width * height) as nat, |i: int| color));
        ImageAsset { width, height, pixels, dirty: false, unloaded: false, uploaded: false }
    }

    /// The image with the given rows of pixels, as it comes out of a
    /// decoder; `None` when their number is not `width` times `height`.
    pub fn from_pixels(width: u16, height: u16, pixels: Vec<Color4>) -> (r: Option<ImageAsset>)
        ensures
            pixels@.len() == width * height ==> (r matches Some(img) && img.wf()
                && img@ == ImageView::loaded(width as nat, height as nat, pixels@)),
            pixels@.len() != width * height ==> r is None,
    {
        let n = area(width, height);
        if pixels.len() == n {
            Some(ImageAsset { width, height, pixels, dirty: false, unloaded: false, uploaded: false })
        } else {
            None
        }
    }

    /// Whether the payload was released.
    pub fn is_unloaded(&self) -> (r: bool)
        ensures
            r == self@.unloaded,
    {
        self.unloaded
    }

    /// Whether the pixels changed since the backend last saw them.
    pub fn is_dirty(&self) -> (r: bool)
        ensures
            r == self@.dirty,
    {
        self.dirty
    }

    /// Whether the backend holds a texture of this image.
    pub fn is_uploaded(&self) -> (r: bool)
        ensures
            r == self@.uploaded,
    {
        self.uploaded
    }

    /// The width in pixels; refused once the image is released.
    pub fn width(&self) -> (r: Result<u32, ImageError>)
        ensures
            self@.unloaded ==> r == Err::<u32, ImageError>(ImageError::Unloaded),
            !self@.unloaded ==> r == Ok::<u32, ImageError>(self@.width as u32),
    {
        if self.unloaded {
            Err(ImageError::Unloaded)
        } else {
            Ok(self.width as u32)
        }
    }

    /// The height in pixels; refused once the image is released.
    pub fn height(&self) -> (r: Result<u32, ImageError>)
        ensures
            self@.unloaded ==> r == Err::<u32, ImageError>(ImageError::Unloaded),
            !self@.unloaded ==> r == Ok::<u32, ImageError>(self@.height as u32),
    {
        if self.unloaded {
            Err(ImageError::Unloaded)
        } else {
            Ok(self.height as u32)
        }
    }

    /// Width and height in pixels; refused once the image is released.
    pub fn size(&self) -> (r: Result<(u32, u32), ImageError>)
        ensures
            self@.unloaded ==> r == Err::<(u32, u32), ImageError>(ImageError::Unloaded),
            !self@.unloaded ==> r == Ok::<(u32, u32), ImageError>((self@.width as u32, self@.height as u32)),
    {
        if self.unloaded {
            Err(ImageError::Unloaded)
        } else {
            Ok((self.width as u32, self.height as u32))
        }
    }

    /// The place of an in-range pixel in the buffer.
    fn offset(&self, x: u32, y: u32) -> (at: usize)
        requires
            self.wf(),
            self@.holds(x as int, y as int),
        ensures
            at == self@.offset(x as int, y as int),
            at < self@.pixels.len(),
    {
        proof {
            let w = self.width as int;
            let h = self.height as int;
            assert(y * w + x < w * h) by (nonlinear_arith)
                requires
                    0 <= x < w,
                    0 <= y < h,
            ;
            assert(w * h <= 0xffff * 0xffff) by (nonlinear_arith)
                requires
                    0 <= w <= 0xffff,
                    0 <= h <= 0xffff,
            ;
            assert(0 <= y * w) by (nonlinear_arith)
                requires
                    0 <= y,
                    0 <= w,
            ;
        }
        (y as usize) * (self.width as usize) + (x as usize)
    }

    /// The pixel (`x`, `y`), counted from the top left corner.
    pub fn get_pixel(&self, x: u32, y: u32) -> (r: Result<Color4, ImageError>)
        requires
            self.wf(),
        ensures
            r == self@.pixel(x as int, y as int),
    {
        if self.unloaded {
            return Err(ImageError::Unloaded);
        }
        if x >= self.width as u32 || y >= self.height as u32 {
            return Err(ImageError::OutOfBounds);
        }
        let at = self.offset(x, y);
        Ok(self.pixels[at])
    }

    /// Writes `color` to the pixel (`x`, `y`).
    pub fn set_pixel(&mut self, x: i64, y: i64, color: Color4) -> (r: Result<(), ImageError>)
        requires
            old(self).wf(),
        ensures
            final(self).wf(),
            (r, final(self)@) == old(self)@.with_pixel(x as int, y as int, color),
    {
        if x < 0 || y < 0 {
            return Err(ImageError::OutOfBounds);
        }
        if self.unloaded {
            return Err(ImageError::Unloaded);
        }
        if x >= self.width as i64 || y >= self.height as i64 {
            return Err(ImageError::OutOfBounds);
        }
        let at = self.offset(x as u32, y as u32);
        self.pixels.set(at, color);
        self.dirty = true;
        Ok(())
    }

    /// Writes the colour that `args` name to the pixel (`x`, `y`), as a
    /// script asks for it.
    pub fn set_pixel_args(&mut self, x: i64, y: i64, args: &Vec<ColorArg>) -> (r: Result<(), ImageError>)
        requires
            old(self).wf(),
        ensures
            final(self).wf(),
            (r, final(self)@) == old(self)@.with_pixel_args(x as int, y as int, args@),
    {
        if x < 0 || y < 0 {
            return Err(ImageError::OutOfBounds);
        }
        match parse_color_args(args) {
            Ok(color) => self.set_pixel(x, y, color),
            Err(e) => Err(ImageError::Color(e)),
        }
    }

    /// Paints every pixel in `color`.
    pub fn fill(&mut self, color: Color4) -> (r: Result<(), ImageError>)
        requires
            old(self).wf(),
        ensures
            final(self).wf(),
            (r, final(self)@) == old(self)@.filled(color),
    {
        if self.unloaded {
            return Err(ImageError::Unloaded);
        }
        let n = self.pixels.len();
        let mut i: usize = 0;
        while i < n
            invariant
                n == self.pixels@.len(),
                i <= n,
                self.width == old(self).width,
                self.height == old(self).height,
                self.dirty == old(self).dirty,
                self.unloaded == old(self).unloaded,
                self.uploaded == old(self).uploaded,
                forall|k: int| 0 <= k < i ==> self.pixels@[k] == color,
            decreases n - i,
        {
            self.pixels.set(i, color);
            i += 1;
        }
        self.dirty = true;
        assert(self.pixels@ =~= Seq::new(old(self)@.pixels.len(), |i: int| color));
        Ok(())
    }

    /// Paints every pixel in the colour that `args` names; arguments that
    /// name no colour are refused before the image is looked at.
    pub fn fill_args(&mut self, args: &Vec<ColorArg>) -> (r: Result<(), ImageError>)
        requires
            old(self).wf(),
        ensures
            final(self).wf(),
            (r, final(self)@) == old(self)@.filled_args(args@),
    {
        match parse_color_args(args) {
            Ok(color) => self.fill(color),
            Err(e) => Err(ImageError::Color(e)),
        }
    }

    /// Brings the backend copy up to date and says what the caller has to do
    /// for it.
    pub fn ensure_uploaded(&mut self) -> (r: Result<TextureUpload, ImageError>)
        requires
            old(self).wf(),
        ensures
            final(self).wf(),
            (r, final(self)@) == old(self)@.uploaded_now(),
    {
        if self.unloaded {
            Err(ImageError::Unloaded)
        } else if !self.uploaded {
            self.uploaded = true;
            self.dirty = false;
            Ok(TextureUpload::Create)
        } else if self.dirty {
            self.dirty = false;
            Ok(TextureUpload::Refresh)
        } else {
            Ok(TextureUpload::Nothing)
        }
    }

    /// Releases the pixels and the texture. The image stays in place, inert,
    /// whoever still refers to it.
    pub fn unload(&mut self)
        ensures
            final(self).wf(),
            final(self)@ == ImageView::released(),
    {
        self.width = 0;
        self.height = 0;
        self.pixels = Vec::new();
        self.dirty = false;
        self.uploaded = false;
        self.unloaded = true;
    }

    /// Puts freshly decoded pixels in place of whatever the image held, and
    /// returns whether their number fits; if not, nothing changes.
    pub fn reload(&mut self, width: u16, height: u16, pixels: Vec<Color4>) -> (r: bool)
        requires
            old(self).wf(),
        ensures
            final(self).wf(),
            r == (pixels@.len() == width * height),
            r ==> final(self)@ == ImageView::loaded(width as nat, height as nat, pixels@),
            !r ==> final(self)@ == old(self)@,
    {
        let n = area(width, height);
        if pixels.len() != n {
            return false;
        }
        self.width = width;
        self.height = height;
        self.pixels = pixels;
        self.dirty = false;
        self.uploaded = false;
        self.unloaded = false;
        true
    }
}

} // verus!
