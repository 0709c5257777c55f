//! The resource cache: images and sounds, shared by the handles that hold
//! them and known by the canonical path of the file they were loaded from.
//!
//! Reading and decoding files is the caller's part. The cache decides
//! whether a path needs loading at all, keeps one resource per path, and
//! forgets what nobody holds.

use vstd::prelude::*;
use crate::color::{white, Color4, ColorArg};
use crate::image::{ImageAsset, ImageError, ImageView, TextureUpload};
use crate::pool::{
    id_of, key_at, lemma_bound_names, lemma_sweep_is_exact, lemma_sweep_without_dead, lemma_validity_is_kept, lookup, position, AssetId,
    Pool, PoolView,
};
use crate::sound::{filling, padded_len, Sample, SoundAsset, SoundError, SoundUpload, SoundView};

verus! {

/// What a path given by a script is relative to.
#[derive(Clone, Copy, Debug, PartialEq, Eq, Structural)]
pub enum PathBase {
    /// Nothing: the path is absolute and taken as it is.
    Verbatim,
    /// The root directory of the environment.
    EnvRoot,
    /// The directory `assets` under the root of the environment.
    Assets,
}

/// Why a decoded payload was not taken.
#[derive(Clone, Copy, Debug, PartialEq, Eq, Structural)]
pub enum LoadError {
    /// The number of pixels is not width times height.
    BadPayload,
}

/// `s` begins with `prefix`.
pub open spec fn has_prefix(s: Seq<char>, prefix: Seq<char>) -> bool {
    prefix.len() <= s.len() && s.subrange(0, prefix.len() as int) == prefix
}

/// The base of a path: an absolute path stands for itself; a path that
/// begins with `./`, `../`, `assets/` or `assets\` is relative to the root of
/// the environment; every other path is relative to its `assets` directory.
pub open spec fn path_base(user_path: Seq<char>, is_absolute: bool) -> PathBase {
    if is_absolute {
        PathBase::Verbatim
    } else if has_prefix(user_path, "./"@) || has_prefix(user_path, "../"@) || has_prefix(user_path, "assets/"@)
        || has_prefix(user_path, "assets\\"@) {
        PathBase::EnvRoot
    } else {
        PathBase::Assets
    }
}

/// Whether `s` begins with `prefix`.
pub fn starts_with(s: &str, prefix: &str) -> (r: bool)
    ensures
        r == has_prefix(s@, prefix@),
{
    let n = s.unicode_len();
    let m = prefix.unicode_len();
    if m > n {
        return false;
    }
    let mut i: usize = 0;
    while i < m
        invariant
            n == s@.len(),
            m == prefix@.len(),
            m <= n,
            i <= m,
            forall|k: int| 0 <= k < i ==> s@[k] == prefix@[k],
        decreases m - i,
    {
        if s.get_char(i) != prefix.get_char(i) {
            assert(s@.subrange(0, m as int)[i as int] != prefix@[i as int]);
            return false;
        }
        i += 1;
    }
    assert(s@.subrange(0, m as int) =~= prefix@);
    true
}

/// The outcome of a load with its id as a number.
pub open spec fn loaded_as(r: Result<AssetId, LoadError>) -> Result<nat, LoadError> {
    match r {
        Ok(id) => Ok(id as nat),
        Err(e) => Err(e),
    }
}

/// The test that an image is in order.
pub open spec fn image_valid() -> spec_fn(ImageView) -> bool {
    |v: ImageView| v.wf()
}

/// The test that a sound is in order.
pub open spec fn sound_valid() -> spec_fn(SoundView) -> bool {
    |v: SoundView| v.wf()
}

/// The cache as mathematics.
#[verifier::ext_equal]
pub struct ManagerView {
    pub images: PoolView<ImageView>,
    pub sounds: PoolView<SoundView>,
}

impl ManagerView {
    /// Both pools are in order, and so is every resource in them.
    pub open spec fn wf(self) -> bool {
        &&& self.images.wf()
        &&& self.sounds.wf()
        &&& self.images.every(image_valid())
        &&& self.sounds.every(sound_valid())
    }

    /// The image that `key` can be had as without reading its file: one that
    /// is known by `key`, held by some handle, and not released.
    pub open spec fn ready_image(self, key: Seq<char>) -> Option<nat> {
        match self.images.hit(key) {
            Some(id) => if self.images.asset(id).unloaded { None } else { Some(id) },
            None => None,
        }
    }

    /// The sound that `key` can be had as without reading its file.
    pub open spec fn ready_sound(self, key: Seq<char>) -> Option<nat> {
        match self.sounds.hit(key) {
            Some(id) => if self.sounds.asset(id).unloaded { None } else { Some(id) },
            None => None,
        }
    }

    /// The cache after one more handle was taken on the image ready for
    /// `key`; unchanged when there is none.
    pub open spec fn image_opened(self, key: Seq<char>) -> ManagerView {
        match self.ready_image(key) {
            Some(id) => ManagerView { images: self.images.retained(id), ..self },
            None => self,
        }
    }

    /// The cache after one more handle was taken on the sound ready for
    /// `key`; unchanged when there is none.
    pub open spec fn sound_opened(self, key: Seq<char>) -> ManagerView {
        match self.ready_sound(key) {
            Some(id) => ManagerView { sounds: self.sounds.retained(id), ..self },
            None => self,
        }
    }

    /// The handle given for `key` once its file was decoded to `fresh`, and
    /// the cache afterwards. A live image known by `key` is the one handed
    /// out, with the fresh payload in place if it was released. Otherwise
    /// the payload becomes a new image, and `key` names it from now on.
    pub open spec fn image_loaded(self, key: Seq<char>, fresh: ImageView) -> (nat, ManagerView) {
        match self.images.hit(key) {
            Some(id) => {
                let pool = if self.images.asset(id).unloaded {
                    self.images.with_asset(id, fresh)
                } else {
                    self.images
                };
                (id, ManagerView { images: pool.retained(id), ..self })
            },
            None => {
                let id = self.images.slots.len();
                (id, ManagerView { images: self.images.added(fresh).bound(key, id), ..self })
            },
        }
    }

    /// The outcome of loading `key` from a payload of `width` by `height`
    /// pixels: refused, with nothing changed, when their number is not width
    /// times height.
    pub open spec fn image_taken(self, key: Seq<char>, width: u16, height: u16, pixels: Seq<Color4>) -> (
        Result<nat, LoadError>,
        ManagerView,
    ) {
        if pixels.len() != width * height {
            (Err(LoadError::BadPayload), self)
        } else {
            let (id, after) = self.image_loaded(key, ImageView::loaded(width as nat, height as nat, pixels));
            (Ok(id), after)
        }
    }

    /// The handle given for `key` once its file was decoded to `fresh`, and
    /// the cache afterwards; as for images.
    pub open spec fn sound_loaded(self, key: Seq<char>, fresh: SoundView) -> (nat, ManagerView) {
        match self.sounds.hit(key) {
            Some(id) => {
                let pool = if self.sounds.asset(id).unloaded {
                    self.sounds.with_asset(id, fresh)
                } else {
                    self.sounds
                };
                (id, ManagerView { sounds: pool.retained(id), ..self })
            },
            None => {
                let id = self.sounds.slots.len();
                (id, ManagerView { sounds: self.sounds.added(fresh).bound(key, id), ..self })
            },
        }
    }

    /// Whether `key` was known, and the cache after the image it named was
    /// released and the key forgotten.
    pub open spec fn image_path_unloaded(self, key: Seq<char>) -> (bool, ManagerView) {
        match lookup(self.images.cache, key) {
            Some(id) => {
                let pool = if self.images.alive(id) {
                    self.images.with_asset(id, ImageView::released())
                } else {
                    self.images
                };
                (true, ManagerView { images: pool.forgot(key), ..self })
            },
            None => (false, self),
        }
    }

    /// Whether `key` was known, and the cache after the sound it named was
    /// released and the key forgotten.
    pub open spec fn sound_path_unloaded(self, key: Seq<char>) -> (bool, ManagerView) {
        match lookup(self.sounds.cache, key) {
            Some(id) => {
                let pool = if self.sounds.alive(id) {
                    self.sounds.with_asset(id, self.sounds.asset(id).released())
                } else {
                    self.sounds
                };
                (true, ManagerView { sounds: pool.forgot(key), ..self })
            },
            None => (false, self),
        }
    }

    /// The cache without the keys of resources that nobody holds.
    pub open spec fn collected(self) -> ManagerView {
        ManagerView { images: self.images.swept(), sounds: self.sounds.swept() }
    }
}

/// The resource cache.
pub struct AssetManager {
    images: Pool<ImageAsset>,
    sounds: Pool<SoundAsset>,
}

impl View for AssetManager {
    type V = ManagerView;

    closed spec fn view(&self) -> ManagerView {
        ManagerView { images: self.images@, sounds: self.sounds@ }
    }
}

/// The greatest width and height of an image.
pub const MAX_EXTENT: u32 = 65535;

/// `extent`, or the greatest extent if that is less.
pub open spec fn capped(extent: u32) -> u16 {
    if extent > MAX_EXTENT {
        MAX_EXTENT as u16
    } else {
        extent as u16
    }
}

impl AssetManager {
    /// The invariant of the cache.
    pub open spec fn wf(&self) -> bool {
        self@.wf()
    }

    /// An empty cache.
    pub fn new() -> (r: AssetManager)
        ensures
            r.wf(),
            r@.images == PoolView::<ImageView>::empty(),
            r@.sounds == PoolView::<SoundView>::empty(),
    {
        AssetManager { images: Pool::new(), sounds: Pool::new() }
    }

    /// Says what a path given by a script is relative to; `is_absolute` is
    /// what the platform makes of the path.
    pub fn resolve_path(user_path: &str, is_absolute: bool) -> (r: PathBase)
        ensures
            r == path_base(user_path@, is_absolute),
    {
        if is_absolute {
            PathBase::Verbatim
        } else if starts_with(user_path, "./") || starts_with(user_path, "../") || starts_with(user_path, "assets/")
            || starts_with(user_path, "assets\\") {
            PathBase::EnvRoot
        } else {
            PathBase::Assets
        }
    }

    /// The live image `id`.
    pub fn image(&self, id: AssetId) -> (r: Option<&ImageAsset>)
        ensures
            self@.images.alive(id as nat) ==> (r matches Some(a) && a@ == self@.images.asset(id as nat)),
            !self@.images.alive(id as nat) ==> r is None,
    {
        self.images.get(id)
    }

    /// The live sound `id`.
    pub fn sound(&self, id: AssetId) -> (r: Option<&SoundAsset>)
        ensures
            self@.sounds.alive(id as nat) ==> (r matches Some(a) && a@ == self@.sounds.asset(id as nat)),
            !self@.sounds.alive(id as nat) ==> r is None,
    {
        self.sounds.get(id)
    }

    /// The number of handles that hold the image `id`.
    pub fn image_holders(&self, id: AssetId) -> (r: usize)
        ensures
            r == self@.images.holders(id as nat),
    {
        self.images.holders(id)
    }

    /// The number of handles that hold the sound `id`.
    pub fn sound_holders(&self, id: AssetId) -> (r: usize)
        ensures
            r == self@.sounds.holders(id as nat),
    {
        self.sounds.holders(id)
    }

    /// The number of paths by which images are known, and of those by which
    /// sounds are.
    pub fn cached(&self) -> (r: (usize, usize))
        ensures
            r.0 == self@.images.cache.len(),
            r.1 == self@.sounds.cache.len(),
    {
        (self.images.keys(), self.sounds.keys())
    }

    /// The live image known by the canonical path `key`, released or not.
    pub fn find_image(&self, key: &str) -> (r: Option<AssetId>)
        requires
            self.wf(),
        ensures
            id_of(r) == self@.images.hit(key@),
    {
        self.images.hit(key)
    }

    /// The live sound known by the canonical path `key`, released or not.
    pub fn find_sound(&self, key: &str) -> (r: Option<AssetId>)
        requires
            self.wf(),
        ensures
            id_of(r) == self@.sounds.hit(key@),
    {
        self.sounds.hit(key)
    }

    /// Hands out one more handle on the image known by the canonical path
    /// `key`, if there is one that is held and not released. `None` means
    /// that the file has to be read and decoded, and the result given to
    /// [`AssetManager::load_image`].
    pub fn open_image(&mut self, key: &str) -> (r: Option<AssetId>)
        requires
            old(self).wf(),
        ensures
            final(self).wf(),
            id_of(r) == old(self)@.ready_image(key@),
            final(self)@ == old(self)@.image_opened(key@),
    {
        match self.images.hit(key) {
            Some(id) => {
                let released = match self.images.get(id) {
                    Some(a) => a.is_unloaded(),
                    None => true,
                };
                if released {
                    None
                } else {
                    self.images.retain(id);
                    proof {
                        lemma_validity_is_kept(old(self)@.images, self@.images, id as nat, image_valid());
                    }
                    Some(id)
                }
            },
            None => None,
        }
    }

    /// Hands out a handle on the image of the canonical path `key`, whose
    /// file the caller has decoded to `pixels`, rows of `width` pixels.
    ///
    /// When a live image is known by `key` the handle is on that image: the
    /// pixels replace its payload if it was released, and are dropped if it
    /// was not.
    pub fn load_image(&mut self, key: &str, width: u16, height: u16, pixels: Vec<Color4>) -> (r: Result<AssetId, LoadError>)
        requires
            old(self).wf(),
        ensures
            final(self).wf(),
            (loaded_as(r), final(self)@) == old(self)@.image_taken(key@, width, height, pixels@),
    {
        let ghost fresh = ImageView::loaded(width as nat, height as nat, pixels@);
        match self.images.hit(key) {
            Some(id) => {
                let fits = match self.images.get_mut(id) {
                    Some(a) => {
                        if a.is_unloaded() {
                            a.reload(width, height, pixels)
                        } else {
                            let probe = ImageAsset::from_pixels(width, height, pixels);
                            probe.is_some()
                        }
                    },
                    None => false,
                };
                if !fits {
                    assert(self@ =~= old(self)@);
                    return Err(LoadError::BadPayload);
                }
                self.images.retain(id);
                proof {
                    assert(self@ =~= old(self)@.image_loaded(key@, fresh).1);
                    lemma_validity_is_kept(old(self)@.images, self@.images, id as nat, image_valid());
                }
                Ok(id)
            },
            None => {
                match ImageAsset::from_pixels(width, height, pixels) {
                    Some(asset) => {
                        let id = self.images.add(asset);
                        self.images.bind(key, id);
                        proof {
                            lemma_validity_is_kept(old(self)@.images, self@.images, id as nat, image_valid());
                        }
                        Ok(id)
                    },
                    None => Err(LoadError::BadPayload),
                }
            },
        }
    }

    /// Makes an image in code, all of one colour, white when none is given;
    /// width and height are capped at the greatest extent. The image is
    /// known by no path: each call makes one of its own.
    pub fn new_image(&mut self, width: u32, height: u32, color: Option<Color4>) -> (id: AssetId)
        requires
            old(self).wf(),
        ensures
            final(self).wf(),
            id as nat == old(self)@.images.slots.len(),
            final(self)@.sounds == old(self)@.sounds,
            final(self)@.images == old(self)@.images.added(
                ImageView::loaded(
                    capped(width) as nat,
                    capped(height) as nat,
                    Seq::new(
                        (capped(width) * capped(height)) as nat,
                        |i: int|
                            if color is Some {
                                color->0
                            } else {
                                Color4 { r: 255, g: 255, b: 255, a: 255 }
                            },
                    ),
                ),
            ),
    {
        let w: u16 = if width > MAX_EXTENT { MAX_EXTENT as u16 } else { width as u16 };
        let h: u16 = if height > MAX_EXTENT { MAX_EXTENT as u16 } else { height as u16 };
        let paint = match color {
            Some(c) => c,
            None => white(),
        };
        let asset = ImageAsset::new(w, h, paint);
        let id = self.images.add(asset);
        proof {
            lemma_validity_is_kept(old(self)@.images, self@.images, id as nat, image_valid());
        }
        id
    }

    /// Gives back one handle on the image `id`, and returns whether it was
    /// the last: the image is then dropped, and the path that named it names
    /// nothing until it is loaded again.
    pub fn release_image(&mut self, id: AssetId) -> (last: bool)
        requires
            old(self).wf(),
        ensures
            final(self).wf(),
            final(self)@.sounds == old(self)@.sounds,
            final(self)@.images == old(self)@.images.released(id as nat),
            last == (old(self)@.images.holders(id as nat) == 1),
    {
        let last = self.images.release(id);
        proof {
            lemma_validity_is_kept(old(self)@.images, self@.images, id as nat, image_valid());
        }
        last
    }

    /// Releases the payload of the image `id`, whoever holds it, and returns
    /// whether there was such an image.
    pub fn unload_image(&mut self, id: AssetId) -> (r: bool)
        requires
            old(self).wf(),
        ensures
            final(self).wf(),
            r == old(self)@.images.alive(id as nat),
            final(self)@.sounds == old(self)@.sounds,
            r ==> final(self)@.images == old(self)@.images.with_asset(id as nat, ImageView::released()),
            !r ==> final(self)@.images == old(self)@.images,
    {
        let r = match self.images.get_mut(id) {
            Some(a) => {
                a.unload();
                true
            },
            None => false,
        };
        proof {
            lemma_validity_is_kept(old(self)@.images, self@.images, id as nat, image_valid());
        }
        r
    }

    /// Forgets the canonical path `key` and releases the payload of the
    /// image it named, if that is still held. Returns whether the path was
    /// known.
    pub fn unload_image_path(&mut self, key: &str) -> (r: bool)
        requires
            old(self).wf(),
        ensures
            final(self).wf(),
            (r, final(self)@) == old(self)@.image_path_unloaded(key@),
    {
        match self.images.forget(key) {
            Some(id) => {
                match self.images.get_mut(id) {
                    Some(a) => {
                        a.unload();
                    },
                    None => {},
                }
                proof {
                    assert(self@ =~= old(self)@.image_path_unloaded(key@).1);
                    lemma_validity_is_kept(old(self)@.images, self@.images, id as nat, image_valid());
                }
                true
            },
            None => false,
        }
    }

    /// Writes to a pixel of the image `id`, as
    /// [`ImageAsset::set_pixel_args`] does; `None` when there is no such
    /// image.
    pub fn set_pixel(&mut self, id: AssetId, x: i64, y: i64, args: &Vec<ColorArg>) -> (r: Option<Result<(), ImageError>>)
        requires
            old(self).wf(),
        ensures
            final(self).wf(),
            final(self)@.sounds == old(self)@.sounds,
            !old(self)@.images.alive(id as nat) ==> r is None && final(self)@ == old(self)@,
            old(self)@.images.alive(id as nat) ==> {
                let done = old(self)@.images.asset(id as nat).with_pixel_args(x as int, y as int, args@);
                r == Some(done.0) && final(self)@.images == old(self)@.images.with_asset(id as nat, done.1)
            },
    {
        let r = match self.images.get_mut(id) {
            Some(a) => Some(a.set_pixel_args(x, y, args)),
            None => None,
        };
        proof {
            lemma_validity_is_kept(old(self)@.images, self@.images, id as nat, image_valid());
        }
        r
    }

    /// Paints the image `id`, as [`ImageAsset::fill_args`] does; `None` when
    /// there is no such image.
    pub fn fill(&mut self, id: AssetId, args: &Vec<ColorArg>) -> (r: Option<Result<(), ImageError>>)
        requires
            old(self).wf(),
        ensures
            final(self).wf(),
            final(self)@.sounds == old(self)@.sounds,
            !old(self)@.images.alive(id as nat) ==> r is None && final(self)@ == old(self)@,
            old(self)@.images.alive(id as nat) ==> {
                let done = old(self)@.images.asset(id as nat).filled_args(args@);
                r == Some(done.0) && final(self)@.images == old(self)@.images.with_asset(id as nat, done.1)
            },
    {
        let r = match self.images.get_mut(id) {
            Some(a) => Some(a.fill_args(args)),
            None => None,
        };
        proof {
            lemma_validity_is_kept(old(self)@.images, self@.images, id as nat, image_valid());
        }
        r
    }

    /// Brings the backend copy of the image `id` up to date, as
    /// [`ImageAsset::ensure_uploaded`] does; `None` when there is no such
    /// image.
    pub fn upload_image(&mut self, id: AssetId) -> (r: Option<Result<TextureUpload, ImageError>>)
        requires
            old(self).wf(),
        ensures
            final(self).wf(),
            final(self)@.sounds == old(self)@.sounds,
            !old(self)@.images.alive(id as nat) ==> r is None && final(self)@ == old(self)@,
            old(self)@.images.alive(id as nat) ==> {
                let done = old(self)@.images.asset(id as nat).uploaded_now();
                r == Some(done.0) && final(self)@.images == old(self)@.images.with_asset(id as nat, done.1)
            },
    {
        let r = match self.images.get_mut(id) {
            Some(a) => Some(a.ensure_uploaded()),
            None => None,
        };
        proof {
            lemma_validity_is_kept(old(self)@.images, self@.images, id as nat, image_valid());
        }
        r
    }

    /// Hands out one more handle on the sound known by the canonical path
    /// `key`, if there is one that is held and not released. `None` means
    /// that the file has to be read and decoded, and the result given to
    /// [`AssetManager::load_sound_wav`].
    pub fn open_sound(&mut self, key: &str) -> (r: Option<AssetId>)
        requires
            old(self).wf(),
        ensures
            final(self).wf(),
            id_of(r) == old(self)@.ready_sound(key@),
            final(self)@ == old(self)@.sound_opened(key@),
    {
        match self.sounds.hit(key) {
            Some(id) => {
                let released = match self.sounds.get(id) {
                    Some(a) => a.is_unloaded(),
                    None => true,
                };
                if released {
                    None
                } else {
                    self.sounds.retain(id);
                    proof {
                        lemma_validity_is_kept(old(self)@.sounds, self@.sounds, id as nat, sound_valid());
                    }
                    Some(id)
                }
            },
            None => None,
        }
    }

    /// Hands out a handle on the sound of the canonical path `key`, whose
    /// file, of the content `bytes`, the caller has decoded to `samples`.
    ///
    /// When a live sound is known by `key` the handle is on that sound: the
    /// payload replaces its own if it was released, and is dropped if it was
    /// not.
    pub fn load_sound_wav(&mut self, key: &str, sample_rate: u32, channels: u16, samples: Vec<Sample>, bytes: Vec<u8>) -> (id: AssetId)
        requires
            old(self).wf(),
        ensures
            final(self).wf(),
            (id as nat, final(self)@) == old(self)@.sound_loaded(key@, SoundView::loaded(sample_rate, channels, samples@, bytes@)),
    {
        let ghost fresh = SoundView::loaded(sample_rate, channels, samples@, bytes@);
        match self.sounds.hit(key) {
            Some(id) => {
                match self.sounds.get_mut(id) {
                    Some(a) => {
                        if a.is_unloaded() {
                            a.reload(sample_rate, channels, samples, bytes);
                        }
                    },
                    None => {},
                }
                self.sounds.retain(id);
                proof {
                    assert(self@ =~= old(self)@.sound_loaded(key@, fresh).1);
                    lemma_validity_is_kept(old(self)@.sounds, self@.sounds, id as nat, sound_valid());
                }
                id
            },
            None => {
                let asset = SoundAsset::from_decoded(sample_rate, channels, samples, bytes);
                let id = self.sounds.add(asset);
                self.sounds.bind(key, id);
                proof {
                    lemma_validity_is_kept(old(self)@.sounds, self@.sounds, id as nat, sound_valid());
                }
                id
            },
        }
    }

    /// Makes a sound in code: `len` samples, rounded up to whole frames, each
    /// `fill` brought within full scale, or silence when no `fill` is given.
    /// The sound is known by no path: each call makes one of its own. `None`,
    /// with nothing changed, when the machine cannot index that many samples.
    pub fn new_sound(&mut self, sample_rate: u32, channels: u16, len: u32, fill: Option<Sample>) -> (r: Option<AssetId>)
        requires
            old(self).wf(),
        ensures
            final(self).wf(),
            final(self)@.images == old(self)@.images,
            padded_len(len as nat, channels) > usize::MAX ==> r is None && final(self)@ == old(self)@,
            padded_len(len as nat, channels) <= usize::MAX ==> (r matches Some(id) && id as nat == old(self)@.sounds.slots.len()
                && final(self)@.sounds == old(self)@.sounds.added(
                SoundView::made(
                    sample_rate,
                    channels,
                    Seq::new(
                        padded_len(len as nat, channels),
                        |i: int| filling(fill),
                    ),
                ),
            )),
    {
        match SoundAsset::new(sample_rate, channels, len, fill) {
            Some(asset) => {
                let id = self.sounds.add(asset);
                proof {
                    lemma_validity_is_kept(old(self)@.sounds, self@.sounds, id as nat, sound_valid());
                }
                Some(id)
            },
            None => None,
        }
    }

    /// Gives back one handle on the sound `id`, and returns whether it was
    /// the last: the sound is then dropped, and the path that named it names
    /// nothing until it is loaded again.
    pub fn release_sound(&mut self, id: AssetId) -> (last: bool)
        requires
            old(self).wf(),
        ensures
            final(self).wf(),
            final(self)@.images == old(self)@.images,
            final(self)@.sounds == old(self)@.sounds.released(id as nat),
            last == (old(self)@.sounds.holders(id as nat) == 1),
    {
        let last = self.sounds.release(id);
        proof {
            lemma_validity_is_kept(old(self)@.sounds, self@.sounds, id as nat, sound_valid());
        }
        last
    }

    /// Releases the payload of the sound `id`, whoever holds it, and returns
    /// whether there was such a sound.
    pub fn unload_sound(&mut self, id: AssetId) -> (r: bool)
        requires
            old(self).wf(),
        ensures
            final(self).wf(),
            r == old(self)@.sounds.alive(id as nat),
            final(self)@.images == old(self)@.images,
            r ==> final(self)@.sounds == old(self)@.sounds.with_asset(id as nat, old(self)@.sounds.asset(id as nat).released()),
            !r ==> final(self)@.sounds == old(self)@.sounds,
    {
        let r = match self.sounds.get_mut(id) {
            Some(a) => {
                a.unload();
                true
            },
            None => false,
        };
        proof {
            lemma_validity_is_kept(old(self)@.sounds, self@.sounds, id as nat, sound_valid());
        }
        r
    }

    /// Forgets the canonical path `key` and releases the payload of the
    /// sound it named, if that is still held. Returns whether the path was
    /// known.
    pub fn unload_sound_path(&mut self, key: &str) -> (r: bool)
        requires
            old(self).wf(),
        ensures
            final(self).wf(),
            (r, final(self)@) == old(self)@.sound_path_unloaded(key@),
    {
        match self.sounds.forget(key) {
            Some(id) => {
                match self.sounds.get_mut(id) {
                    Some(a) => {
                        a.unload();
                    },
                    None => {},
                }
                proof {
                    assert(self@ =~= old(self)@.sound_path_unloaded(key@).1);
                    lemma_validity_is_kept(old(self)@.sounds, self@.sounds, id as nat, sound_valid());
                }
                true
            },
            None => false,
        }
    }

    /// Writes a sample of the sound `id`, as [`SoundAsset::set_sample`]
    /// does; `None` when there is no such sound.
    pub fn set_sample(&mut self, id: AssetId, index: i64, value: Sample) -> (r: Option<Result<(), SoundError>>)
        requires
            old(self).wf(),
        ensures
            final(self).wf(),
            final(self)@.images == old(self)@.images,
            !old(self)@.sounds.alive(id as nat) ==> r is None && final(self)@ == old(self)@,
            old(self)@.sounds.alive(id as nat) ==> {
                let done = old(self)@.sounds.asset(id as nat).with_sample(index as int, value);
                r == Some(done.0) && final(self)@.sounds == old(self)@.sounds.with_asset(id as nat, done.1)
            },
    {
        let r = match self.sounds.get_mut(id) {
            Some(a) => Some(a.set_sample(index, value)),
            None => None,
        };
        proof {
            lemma_validity_is_kept(old(self)@.sounds, self@.sounds, id as nat, sound_valid());
        }
        r
    }

    /// Makes the sound `id` ready for the backend, as
    /// [`SoundAsset::ensure_uploaded`] does; `None` when there is no such
    /// sound.
    pub fn upload_sound(&mut self, id: AssetId) -> (r: Option<Result<SoundUpload, SoundError>>)
        requires
            old(self).wf(),
            old(self)@.sounds.alive(id as nat) ==> old(self)@.sounds.asset(id as nat).upload_allowed(),
        ensures
            final(self).wf(),
            final(self)@.images == old(self)@.images,
            !old(self)@.sounds.alive(id as nat) ==> r is None && final(self)@ == old(self)@,
            old(self)@.sounds.alive(id as nat) ==> {
                let v = old(self)@.sounds.asset(id as nat);
                let done = v.prepared(v.encoding());
                r == Some(done.0) && final(self)@.sounds == old(self)@.sounds.with_asset(id as nat, done.1)
            },
    {
        let r = match self.sounds.get_mut(id) {
            Some(a) => Some(a.ensure_uploaded()),
            None => None,
        };
        proof {
            lemma_validity_is_kept(old(self)@.sounds, self@.sounds, id as nat, sound_valid());
        }
        r
    }

    /// Records that the backend took the encoded form of the sound `id`, as
    /// [`SoundAsset::confirm_upload`] does, and returns whether there was
    /// such a sound.
    pub fn confirm_sound_upload(&mut self, id: AssetId) -> (r: bool)
        requires
            old(self).wf(),
        ensures
            final(self).wf(),
            r == old(self)@.sounds.alive(id as nat),
            final(self)@.images == old(self)@.images,
            r ==> final(self)@.sounds == old(self)@.sounds.with_asset(id as nat, old(self)@.sounds.asset(id as nat).confirmed()),
            !r ==> final(self)@.sounds == old(self)@.sounds,
    {
        let r = match self.sounds.get_mut(id) {
            Some(a) => {
                a.confirm_upload();
                true
            },
            None => false,
        };
        proof {
            lemma_validity_is_kept(old(self)@.sounds, self@.sounds, id as nat, sound_valid());
        }
        r
    }

    /// Takes the keys of resources that nobody holds out of both key
    /// tables, and returns how many were taken out of each: images first,
    /// sounds second. The resources themselves, and the keys of those that
    /// are held, stay as they are.
    pub fn gc(&mut self) -> (removed: (usize, usize))
        requires
            old(self).wf(),
        ensures
            final(self).wf(),
            final(self)@ == old(self)@.collected(),
            removed.0 == old(self)@.images.cache.len() - final(self)@.images.cache.len(),
            removed.1 == old(self)@.sounds.cache.len() - final(self)@.sounds.cache.len(),
    {
        let images = self.images.sweep();
        let sounds = self.sounds.sweep();
        proof {
            lemma_validity_is_kept(old(self)@.images, self@.images, 0, image_valid());
            lemma_validity_is_kept(old(self)@.sounds, self@.sounds, 0, sound_valid());
        }
        (images, sounds)
    }
}

/// Loading one path twice gives handles on one and the same image: after a
/// load of `key`, the image handed out is held, it is the one that `key` is
/// ready as, and the one that any further load of `key` hands out; a further
/// load leaves its payload and the key table as they are.
pub proof fn lemma_same_path_same_image(m: ManagerView, key: Seq<char>, first: ImageView, second: ImageView)
    requires
        m.wf(),
        first.wf(),
        !first.unloaded,
    ensures
        ({
            let (id, after) = m.image_loaded(key, first);
            let (again, last) = after.image_loaded(key, second);
            &&& after.wf()
            &&& after.images.holders(id) >= 1
            &&& after.ready_image(key) == Some(id)
            &&& again == id
            &&& last.images.asset(id) == after.images.asset(id)
            &&& last.images.cache == after.images.cache
        }),
{
    let (id, after) = m.image_loaded(key, first);
    match m.images.hit(key) {
        Some(old_id) => {
            lemma_validity_is_kept(m.images, after.images, id, image_valid());
        },
        None => {
            let grown = m.images.added(first);
            assert(grown.wf());
            lemma_bound_names(grown, key, id, key);
            lemma_validity_is_kept(m.images, after.images, id, image_valid());
        },
    }
}

/// Loading one path twice gives handles on one and the same sound, whose
/// samples, rate and channels the second load leaves as they are.
pub proof fn lemma_same_path_same_sound(m: ManagerView, key: Seq<char>, first: SoundView, second: SoundView)
    requires
        m.wf(),
        first.wf(),
        !first.unloaded,
    ensures
        ({
            let (id, after) = m.sound_loaded(key, first);
            let (again, last) = after.sound_loaded(key, second);
            &&& after.wf()
            &&& after.sounds.holders(id) >= 1
            &&& after.ready_sound(key) == Some(id)
            &&& again == id
            &&& last.sounds.asset(id) == after.sounds.asset(id)
            &&& last.sounds.cache == after.sounds.cache
        }),
{
    let (id, after) = m.sound_loaded(key, first);
    match m.sounds.hit(key) {
        Some(old_id) => {
            lemma_validity_is_kept(m.sounds, after.sounds, id, sound_valid());
        },
        None => {
            let grown = m.sounds.added(first);
            assert(grown.wf());
            lemma_bound_names(grown, key, id, key);
            lemma_validity_is_kept(m.sounds, after.sounds, id, sound_valid());
        },
    }
}

/// A load after a release brings the content of the file back: when the
/// image known by `key` was released but is still held, the load hands out
/// that same image; when nothing live is known by `key`, it hands out a new
/// one; and in both cases the image then holds exactly the decoded payload,
/// clean and not released.
pub proof fn lemma_load_restores_image(m: ManagerView, key: Seq<char>, width: nat, height: nat, pixels: Seq<Color4>)
    requires
        m.wf(),
        m.ready_image(key) is None,
    ensures
        ({
            let fresh = ImageView::loaded(width, height, pixels);
            let (id, after) = m.image_loaded(key, fresh);
            &&& m.images.hit(key) matches Some(held) ==> id == held
            &&& m.images.hit(key) is None ==> id == m.images.slots.len()
            &&& after.images.alive(id)
            &&& after.images.asset(id) == fresh
            &&& !after.images.asset(id).unloaded
            &&& !after.images.asset(id).dirty
            &&& after.images.hit(key) == Some(id)
        }),
{
    let fresh = ImageView::loaded(width, height, pixels);
    let (id, after) = m.image_loaded(key, fresh);
    if m.images.hit(key) is None {
        let grown = m.images.added(fresh);
        lemma_bound_names(grown, key, id, key);
    }
}

/// A load after a release brings the content of the file back, for sounds
/// as for images: samples, rate and channels are those decoded, whatever was
/// written before the release.
pub proof fn lemma_load_restores_sound(
    m: ManagerView,
    key: Seq<char>,
    sample_rate: u32,
    channels: u16,
    samples: Seq<Sample>,
    bytes: Seq<u8>,
)
    requires
        m.wf(),
        m.ready_sound(key) is None,
    ensures
        ({
            let fresh = SoundView::loaded(sample_rate, channels, samples, bytes);
            let (id, after) = m.sound_loaded(key, fresh);
            &&& m.sounds.hit(key) matches Some(held) ==> id == held
            &&& m.sounds.hit(key) is None ==> id == m.sounds.slots.len()
            &&& after.sounds.alive(id)
            &&& after.sounds.asset(id) == fresh
            &&& !after.sounds.asset(id).unloaded
            &&& !after.sounds.asset(id).dirty
            &&& after.sounds.hit(key) == Some(id)
        }),
{
    let fresh = SoundView::loaded(sample_rate, channels, samples, bytes);
    let (id, after) = m.sound_loaded(key, fresh);
    if m.sounds.hit(key) is None {
        let grown = m.sounds.added(fresh);
        lemma_bound_names(grown, key, id, key);
    }
}

/// Releasing an image that is held, by its handle or by its path, leaves it
/// not ready under any key, so that the next load of its path reads the file
/// again.
pub proof fn lemma_unloaded_is_not_ready(m: ManagerView, key: Seq<char>, id: nat)
    requires
        m.wf(),
        m.images.hit(key) == Some(id),
    ensures
        (ManagerView { images: m.images.with_asset(id, ImageView::released()), ..m }).ready_image(key) is None,
        (ManagerView { images: m.images.with_asset(id, ImageView::released()), ..m }).images.hit(key) == Some(id),
        m.image_path_unloaded(key).1.ready_image(key) is None,
{
    let after = m.image_path_unloaded(key).1;
    let pool = m.images.with_asset(id, ImageView::released());
    if exists|w: int| key_at(pool.forgot(key).cache, key, w) {
        let w = choose|w: int| key_at(pool.forgot(key).cache, key, w);
        let i = position(m.images.cache, key)->0;
        assert(key_at(m.images.cache, key, i));
        let src = if w < i { w } else { w + 1 };
        assert(pool.forgot(key).cache[w] == m.images.cache[src]);
        assert(m.images.cache[src].0 != m.images.cache[i].0);
    }
}

/// Collecting removes exactly the keys of resources that nobody holds and
/// leaves everything else untouched: afterwards a key is known if and only
/// if it named a live resource before, and names the same one; no resource
/// and no count of handles changes.
pub proof fn lemma_gc_is_exact(m: ManagerView, key: Seq<char>)
    requires
        m.wf(),
    ensures
        m.collected().wf(),
        m.collected().images.slots == m.images.slots,
        m.collected().sounds.slots == m.sounds.slots,
        lookup(m.collected().images.cache, key) == m.images.hit(key),
        lookup(m.collected().sounds.cache, key) == m.sounds.hit(key),
{
    lemma_sweep_is_exact(m.images, key);
    lemma_sweep_is_exact(m.sounds, key);
    lemma_validity_is_kept(m.images, m.collected().images, 0, image_valid());
    lemma_validity_is_kept(m.sounds, m.collected().sounds, 0, sound_valid());
}

/// Collecting a cache in which every key names a live resource changes
/// nothing and counts nothing as removed.
pub proof fn lemma_gc_without_dead(m: ManagerView)
    requires
        forall|i: int| 0 <= i < m.images.cache.len() ==> m.images.alive((#[trigger] m.images.cache[i]).1),
        forall|i: int| 0 <= i < m.sounds.cache.len() ==> m.sounds.alive((#[trigger] m.sounds.cache[i]).1),
    ensures
        m.collected() == m,
        m.images.cache.len() - m.collected().images.cache.len() == 0,
        m.sounds.cache.len() - m.collected().sounds.cache.len() == 0,
{
    lemma_sweep_without_dead(m.images);
    lemma_sweep_without_dead(m.sounds);
}

} // verus!
