//! A decoded sound: interleaved 16-bit samples, their encoded form, and what
//! is known of the copy on the audio backend.

use vstd::prelude::*;
use crate::wav::{encode_precheck, encode_wav_bytes, encoded, wav_encodable, EncodeError};

verus! {

/// Why an operation on a sound was refused.
#[derive(Clone, Copy, Debug, PartialEq, Eq, Structural)]
pub enum SoundError {
    /// The payload was released; the sound is inert until it is loaded again.
    Unloaded,
    /// The index lies outside the sample buffer.
    OutOfBounds,
    /// The samples could not be encoded.
    Encode(EncodeError),
}

/// What the caller has to do on the audio backend.
#[derive(Clone, Copy, Debug, PartialEq, Eq, Structural)]
pub enum SoundUpload {
    /// The backend copy is current.
    Nothing,
    /// Hand the encoded bytes to the backend, and confirm once it took them.
    Load,
}

/// One sample of a sound.
#[derive(Clone, Copy, Debug, PartialEq, Eq, Structural)]
pub struct Sample {
    /// The level as it was given, a pattern of 32 bits that is handed back
    /// as it is, so that reading a sample gives what was written.
    pub level: u32,
    /// The level on the scale of 16-bit audio, which is what gets encoded.
    pub pcm: i16,
}

/// The greatest magnitude of a sample; it stands for full scale.
pub const FULL_SCALE: i16 = 32767;

/// The sample nearest to `v` within full scale.
pub open spec fn within_scale(v: i16) -> i16 {
    if v < -FULL_SCALE {
        (-FULL_SCALE) as i16
    } else {
        v
    }
}

/// The sample with its 16-bit value brought within full scale.
pub open spec fn scaled(s: Sample) -> Sample {
    Sample { level: s.level, pcm: within_scale(s.pcm) }
}

/// Silence.
pub open spec fn silence() -> Sample {
    Sample { level: 0, pcm: 0 }
}

/// What a sound is filled with: the given sample within full scale, or
/// silence.
pub open spec fn filling(fill: Option<Sample>) -> Sample {
    match fill {
        Some(s) => scaled(s),
        None => silence(),
    }
}

/// The 16-bit values of the samples, which are what gets encoded.
pub open spec fn pcm_of(samples: Seq<Sample>) -> Seq<i16> {
    Seq::new(samples.len(), |i: int| samples[i].pcm)
}

/// The least multiple of `channels` that is not below `len`; `len` itself
/// when there are no channels.
pub open spec fn padded_len(len: nat, channels: u16) -> nat {
    if channels > 0 && len % (channels as nat) != 0 {
        (len + channels - len % (channels as nat)) as nat
    } else {
        len
    }
}

/// A padded length holds whole frames only, and less than one frame more
/// than was asked for.
pub proof fn lemma_padded_len_is_aligned(len: nat, channels: u16)
    requires
        channels > 0,
    ensures
        padded_len(len, channels) % (channels as nat) == 0,
        len <= padded_len(len, channels) < len + channels,
{
    let c = channels as int;
    let l = len as int;
    let r = l % c;
    if r != 0 {
        assert((l + c - r) % c == 0) by (nonlinear_arith)
            requires
                c > 0,
                r == l % c,
                l >= 0,
        {
            assert(l == c * (l / c) + r);
            assert(l + c - r == c * (l / c + 1));
            assert((c * (l / c + 1)) % c == 0);
        }
    }
}

/// A sound held in memory.
pub struct SoundAsset {
    sample_rate: u32,
    channels: u16,
    samples: Vec<Sample>,
    bytes: Vec<u8>,
    ready: bool,
    dirty: bool,
    unloaded: bool,
}

/// A sound as mathematics.
pub struct SoundView {
    /// Frames per second.
    pub sample_rate: u32,
    /// Samples per frame.
    pub channels: u16,
    /// The samples, frame after frame.
    pub samples: Seq<Sample>,
    /// The encoded form that the backend is given; empty until there is one.
    pub bytes: Seq<u8>,
    /// The backend holds a playable copy.
    pub ready: bool,
    /// The samples changed since the backend last heard of them.
    pub dirty: bool,
    /// The payload was released.
    pub unloaded: bool,
}

impl View for SoundAsset {
    type V = SoundView;

    closed spec fn view(&self) -> SoundView {
        SoundView {
            sample_rate: self.sample_rate,
            channels: self.channels,
            samples: self.samples@,
            bytes: self.bytes@,
            ready: self.ready,
            dirty: self.dirty,
            unloaded: self.unloaded,
        }
    }
}

impl SoundView {
    /// A released sound holds nothing.
    pub open spec fn wf(self) -> bool {
        self.unloaded ==> self.samples.len() == 0 && self.bytes.len() == 0 && !self.ready && !self.dirty
    }

    /// A sound made in code: dirty, with no encoded form yet.
    pub open spec fn made(sample_rate: u32, channels: u16, samples: Seq<Sample>) -> SoundView {
        SoundView { sample_rate, channels, samples, bytes: Seq::empty(), ready: false, dirty: true, unloaded: false }
    }

    /// A sound as it comes out of a decoder, with the bytes of its file.
    pub open spec fn loaded(sample_rate: u32, channels: u16, samples: Seq<Sample>, bytes: Seq<u8>) -> SoundView {
        SoundView { sample_rate, channels, samples, bytes, ready: false, dirty: false, unloaded: false }
    }

    /// The sound without its payload.
    pub open spec fn released(self) -> SoundView {
        SoundView { samples: Seq::empty(), bytes: Seq::empty(), ready: false, dirty: false, unloaded: true, ..self }
    }

    /// The outcome of reading the sample at `index`. A negative index is
    /// refused before anything else is looked at.
    pub open spec fn sample(self, index: int) -> Result<Sample, SoundError> {
        if index < 0 {
            Err(SoundError::OutOfBounds)
        } else if self.unloaded {
            Err(SoundError::Unloaded)
        } else if index >= self.samples.len() {
            Err(SoundError::OutOfBounds)
        } else {
            Ok(self.samples[index])
        }
    }

    /// The outcome of writing `value`, brought within full scale, at
    /// `index`, and the sound afterwards: a write marks the sound dirty and
    /// uploads nothing.
    pub open spec fn with_sample(self, index: int, value: Sample) -> (Result<(), SoundError>, SoundView) {
        if index < 0 {
            (Err(SoundError::OutOfBounds), self)
        } else if self.unloaded {
            (Err(SoundError::Unloaded), self)
        } else if index >= self.samples.len() {
            (Err(SoundError::OutOfBounds), self)
        } else {
            (Ok(()), SoundView { samples: self.samples.update(index, scaled(value)), dirty: true, ..self })
        }
    }

    /// The samples have to be encoded before the backend can be given
    /// anything: they changed, or were never encoded.
    pub open spec fn needs_encoding(self) -> bool {
        !self.unloaded && (self.dirty || (!self.ready && self.bytes.len() == 0))
    }

    /// What encoding the samples comes to.
    pub open spec fn encoding(self) -> Result<Seq<u8>, EncodeError> {
        encoded(self.sample_rate, self.channels, pcm_of(self.samples))
    }

    /// The outcome of making ready for the backend, given what encoding the
    /// samples came to, and the sound afterwards. A released sound is
    /// refused. Where encoding is needed its result becomes the encoded
    /// form, or its failure the outcome. A sound whose backend copy is
    /// current is left alone.
    pub open spec fn prepared(self, encoded: Result<Seq<u8>, EncodeError>) -> (Result<SoundUpload, SoundError>, SoundView) {
        if self.unloaded {
            (Err(SoundError::Unloaded), self)
        } else if self.needs_encoding() {
            match encoded {
                Ok(bytes) => (Ok(SoundUpload::Load), SoundView { bytes, ..self }),
                Err(e) => (Err(SoundError::Encode(e)), self),
            }
        } else if !self.ready {
            (Ok(SoundUpload::Load), self)
        } else {
            (Ok(SoundUpload::Nothing), self)
        }
    }

    /// The sound after the backend took the encoded form.
    pub open spec fn confirmed(self) -> SoundView {
        if self.unloaded {
            self
        } else {
            SoundView { ready: true, dirty: false, ..self }
        }
    }

    /// Encoding these samples stays within what a WAVE file can hold.
    pub open spec fn encodable(self) -> bool {
        wav_encodable(self.sample_rate, self.channels, self.samples.len())
    }

    /// Making ready does not ask the encoder for a file that it cannot
    /// write: no encoding is needed, or the samples are refused before the
    /// encoder is asked, or they are within its limits.
    pub open spec fn upload_allowed(self) -> bool {
        self.needs_encoding() && encode_precheck(self.channels, self.samples.len()) is None ==> self.encodable()
    }
}

/// Writing a sample marks the sound dirty.
pub proof fn lemma_sample_write_marks_dirty(v: SoundView, index: int, value: Sample)
    requires
        v.with_sample(index, value).0 is Ok,
    ensures
        v.with_sample(index, value).1.dirty,
        v.with_sample(index, value).1.sample(index) == Ok::<Sample, SoundError>(scaled(value)),
{
}

/// Once the backend took the encoded form, making ready again without a
/// write in between asks nothing of the backend and changes nothing.
pub proof fn lemma_sound_upload_is_idempotent(v: SoundView, first: Result<Seq<u8>, EncodeError>, second: Result<Seq<u8>, EncodeError>)
    requires
        v.prepared(first).0 is Ok,
    ensures
        !v.prepared(first).1.confirmed().dirty,
        v.prepared(first).1.confirmed().prepared(second) == (
            Ok::<SoundUpload, SoundError>(SoundUpload::Nothing),
            v.prepared(first).1.confirmed(),
        ),
{
}

/// Once released, a sound refuses every read, every write and every
/// upload.
pub proof fn lemma_released_sound_is_inert(v: SoundView, index: int, value: Sample, encoded: Result<Seq<u8>, EncodeError>)
    ensures
        v.released().sample(index) is Err,
        v.released().with_sample(index, value).0 is Err,
        v.released().prepared(encoded).0 is Err,
        v.released().wf(),
{
}

/// Brings a sample within full scale.
pub fn clamp_sample(s: Sample) -> (r: Sample)
    ensures
        r == scaled(s),
{
    if s.pcm < -FULL_SCALE {
        Sample { level: s.level, pcm: -FULL_SCALE }
    } else {
        s
    }
}

impl SoundAsset {
    /// The invariant of the sound.
    pub open spec fn wf(&self) -> bool {
        self@.wf()
    }

    /// A sound of `len` samples, rounded up to whole frames, each `fill`
    /// brought within full scale, or silence when no `fill` is given. It
    /// starts dirty, with nothing encoded and nothing uploaded. `None` when
    /// the machine cannot index that many samples.
    pub fn new(sample_rate: u32, channels: u16, len: u32, fill: Option<Sample>) -> (r: Option<SoundAsset>)
        ensures
            padded_len(len as nat, channels) > usize::MAX ==> r is None,
            padded_len(len as nat, channels) <= usize::MAX ==> (r matches Some(s) && s.wf() && s@ == SoundView::made(
                sample_rate,
                channels,
                Seq::new(padded_len(len as nat, channels), |i: int| filling(fill)),
            )),
    {
        let value = match fill {
            Some(v) => clamp_sample(v),
            None => Sample { level: 0, pcm: 0 },
        };
        let mut wanted: u64 = len as u64;
        if channels > 0 && wanted % (channels as u64) != 0 {
            let rem = wanted % (channels as u64);
            wanted = wanted + (channels as u64 - rem);
        }
        if wanted > usize::MAX as u64 {
            return None;
        }
        let n: usize = wanted as usize;
        let mut samples: Vec<Sample> = Vec::new();
        let mut i: usize = 0;
        while i < n
            invariant
                i <= n,
                samples@.len() == i,
                forall|k: int| 0 <= k < i ==> samples@[k] == value,
            decreases n - i,
        {
            samples.push(value);
            i += 1;
        }
        assert(samples@ =~= Seq::new(padded_len(len as nat, channels), |i: int| value));
        Some(SoundAsset { sample_rate, channels, samples, bytes: Vec::new(), ready: false, dirty: true, unloaded: false })
    }

    /// The sound with the given samples and the bytes of the file they were
    /// decoded from. Nothing is uploaded yet.
    pub fn from_decoded(sample_rate: u32, channels: u16, samples: Vec<Sample>, bytes: Vec<u8>) -> (r: SoundAsset)
        ensures
            r.wf(),
            r@ == SoundView::loaded(sample_rate, channels, samples@, bytes@),
    {
        SoundAsset { sample_rate, channels, samples, bytes, ready: false, dirty: false, unloaded: false }
    }

    /// Frames per second.
    pub fn sample_rate(&self) -> (r: u32)
        ensures
            r == self@.sample_rate,
    {
        self.sample_rate
    }

    /// Samples per frame.
    pub fn channels(&self) -> (r: u16)
        ensures
            r == self@.channels,
    {
        self.channels
    }

    /// The number of samples, over all channels.
    pub fn len(&self) -> (r: usize)
        ensures
            r == self@.samples.len(),
    {
        self.samples.len()
    }

    /// The encoded form that the backend is given.
    pub fn bytes(&self) -> (r: &Vec<u8>)
        ensures
            r@ == self@.bytes,
    {
        &self.bytes
    }

    /// Whether the payload was released.
    pub fn is_unloaded(&self) -> (r: bool)
        ensures
            r == self@.unloaded,
    {
        self.unloaded
    }

    /// Whether the samples changed since the backend last heard of them.
    pub fn is_dirty(&self) -> (r: bool)
        ensures
            r == self@.dirty,
    {
        self.dirty
    }

    /// Whether the backend holds a playable copy.
    pub fn is_ready(&self) -> (r: bool)
        ensures
            r == self@.ready,
    {
        self.ready
    }

    /// The sample at `index`.
    pub fn get_sample(&self, index: i64) -> (r: Result<Sample, SoundError>)
        ensures
            r == self@.sample(index as int),
    {
        if index < 0 {
            return Err(SoundError::OutOfBounds);
        }
        if self.unloaded {
            return Err(SoundError::Unloaded);
        }
        if index as u64 >= self.samples.len() as u64 {
            return Err(SoundError::OutOfBounds);
        }
        Ok(self.samples[index as usize])
    }

    /// Writes `value`, brought within full scale, at `index`.
    pub fn set_sample(&mut self, index: i64, value: Sample) -> (r: Result<(), SoundError>)
        requires
            old(self).wf(),
        ensures
            final(self).wf(),
            (r, final(self)@) == old(self)@.with_sample(index as int, value),
    {
        if index < 0 {
            return Err(SoundError::OutOfBounds);
        }
        if self.unloaded {
            return Err(SoundError::Unloaded);
        }
        if index as u64 >= self.samples.len() as u64 {
            return Err(SoundError::OutOfBounds);
        }
        self.samples.set(index as usize, clamp_sample(value));
        self.dirty = true;
        Ok(())
    }

    /// The 16-bit values of the samples.
    fn pcm(&self) -> (r: Vec<i16>)
        ensures
            r@ == pcm_of(self@.samples),
    {
        let n = self.samples.len();
        let mut out: Vec<i16> = Vec::new();
        let mut i: usize = 0;
        while i < n
            invariant
                n == self.samples@.len(),
                i <= n,
                out@.len() == i,
                forall|k: int| 0 <= k < i ==> out@[k] == self.samples@[k].pcm,
            decreases n - i,
        {
            out.push(self.samples[i].pcm);
            i += 1;
        }
        assert(out@ =~= pcm_of(self@.samples));
        out
    }

    /// Whether encoding the samples stays within what a WAVE file can hold.
    pub fn can_encode(&self) -> (r: bool)
        ensures
            r == self@.encodable(),
    {
        let tail: u64 = if self.channels > 2 { 60 } else { 36 };
        let len = self.samples.len() as u64;
        let doubled: u64 = (self.sample_rate as u64) * 2;
        let width: u64 = self.channels as u64;
        proof {
            assert(0 <= doubled * width <= 0x1_ffff_fffe * 0xffff) by (nonlinear_arith)
                requires
                    0 <= doubled <= 0x1_ffff_fffe,
                    0 <= width <= 0xffff,
            ;
            assert(self.sample_rate * 2 * self.channels == doubled * width) by (nonlinear_arith)
                requires
                    doubled == self.sample_rate * 2,
                    width == self.channels,
            ;
        }
        self.sample_rate > 0 && doubled * width <= u32::MAX as u64 && len <= u32::MAX as u64 && 2 * len + tail
            <= u32::MAX as u64
    }

    /// Whether [`SoundAsset::ensure_uploaded`] may be called.
    pub fn upload_allowed(&self) -> (r: bool)
        ensures
            r == self@.upload_allowed(),
    {
        let needed = !self.unloaded && (self.dirty || (!self.ready && self.bytes.len() == 0));
        let accepted = self.channels != 0 && self.samples.len() % (self.channels as usize) == 0;
        if needed && accepted {
            self.can_encode()
        } else {
            true
        }
    }

    /// Makes the sound ready for the backend, given what encoding its
    /// samples came to, and says what the caller has to do.
    pub fn ensure_uploaded_with(&mut self, encoded: Result<Vec<u8>, EncodeError>) -> (r: Result<SoundUpload, SoundError>)
        requires
            old(self).wf(),
        ensures
            final(self).wf(),
            (r, final(self)@) == old(self)@.prepared(
                match encoded {
                    Ok(bytes) => Ok(bytes@),
                    Err(e) => Err(e),
                },
            ),
    {
        if self.unloaded {
            return Err(SoundError::Unloaded);
        }
        if self.dirty || (!self.ready && self.bytes.len() == 0) {
            match encoded {
                Ok(bytes) => {
                    self.bytes = bytes;
                    Ok(SoundUpload::Load)
                },
                Err(e) => Err(SoundError::Encode(e)),
            }
        } else if !self.ready {
            Ok(SoundUpload::Load)
        } else {
            Ok(SoundUpload::Nothing)
        }
    }

    /// Makes the sound ready for the backend and says what the caller has to
    /// do: samples that changed, or were never encoded, are encoded anew.
    ///
    /// The outcome is that of [`SoundView::prepared`] for the encoding of the
    /// samples.
    pub fn ensure_uploaded(&mut self) -> (r: Result<SoundUpload, SoundError>)
        requires
            old(self).wf(),
            old(self)@.upload_allowed(),
        ensures
            final(self).wf(),
            (r, final(self)@) == old(self)@.prepared(old(self)@.encoding()),
    {
        if self.unloaded {
            Err(SoundError::Unloaded)
        } else if self.dirty || (!self.ready && self.bytes.len() == 0) {
            let pcm = self.pcm();
            let encoded = encode_wav_bytes(self.sample_rate, self.channels, &pcm);
            self.ensure_uploaded_with(encoded)
        } else if !self.ready {
            Ok(SoundUpload::Load)
        } else {
            Ok(SoundUpload::Nothing)
        }
    }

    /// Records that the backend took the encoded form: the sound is ready
    /// and no longer dirty. A released sound stays as it is.
    pub fn confirm_upload(&mut self)
        requires
            old(self).wf(),
        ensures
            final(self).wf(),
            final(self)@ == old(self)@.confirmed(),
    {
        if !self.unloaded {
            self.ready = true;
            self.dirty = false;
        }
    }

    /// Releases the samples, the encoded form and the backend copy. The
    /// sound stays in place, inert, whoever still refers to it.
    pub fn unload(&mut self)
        ensures
            final(self).wf(),
            final(self)@ == old(self)@.released(),
    {
        self.samples = Vec::new();
        self.bytes = Vec::new();
        self.ready = false;
        self.dirty = false;
        self.unloaded = true;
    }

    /// Puts a freshly decoded payload in place of whatever the sound held.
    pub fn reload(&mut self, sample_rate: u32, channels: u16, samples: Vec<Sample>, bytes: Vec<u8>)
        ensures
            final(self).wf(),
            final(self)@ == SoundView::loaded(sample_rate, channels, samples@, bytes@),
    {
        self.sample_rate = sample_rate;
        self.channels = channels;
        self.samples = samples;
        self.bytes = bytes;
        self.ready = false;
        self.dirty = false;
        self.unloaded = false;
    }
}

} // verus!
