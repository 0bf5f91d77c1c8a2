//! The compressed copy of an animation's frames.
//!
//! While an animation plays for the first time every frame is compressed and
//! appended to a cache. The finished cache is never changed again; replaying
//! the animation reads it frame by frame and unpacks each one.

use vstd::prelude::*;

verus! {

/// The effort that the compressor spends on a frame, on its scale from 0 to 10.
pub const COMPRESSION_LEVEL: u8 = 6;

/// The raw DEFLATE stream that `miniz_oxide` produces for `bytes` at `level`.
pub uninterp spec fn deflated(bytes: Seq<u8>, level: u8) -> Seq<u8>;

/// The bytes that `miniz_oxide` unpacks from the raw DEFLATE stream `packed`,
/// or `None` where it rejects the stream.
pub uninterp spec fn inflated(packed: Seq<u8>) -> Option<Seq<u8>>;

/// Calls `miniz_oxide::deflate::compress_to_vec`.
///
/// Trusted: the result is the crate's DEFLATE stream for these bytes at this
/// level, and unpacking that stream gives back the bytes it was made from,
/// which is what the crate compresses for and what its own tests exercise.
#[verifier::external_body]
fn deflate(bytes: &Vec<u8>, level: u8) -> (packed: Vec<u8>)
    requires
        level <= 10,
    ensures
        packed@ == deflated(bytes@, level),
        inflated(packed@) == Some(bytes@),
{
    miniz_oxide::deflate::compress_to_vec(bytes.as_slice(), level)
}

/// Calls `miniz_oxide::inflate::decompress_to_vec`.
///
/// Trusted: the result is what the crate unpacks from the stream, and `None`
/// stands for every status with which the crate gives up.
#[verifier::external_body]
fn inflate(packed: &Vec<u8>) -> (bytes: Option<Vec<u8>>)
    ensures
        match bytes {
            Some(found) => inflated(packed@) == Some(found@),
            None => inflated(packed@).is_none(),
        },
{
    miniz_oxide::inflate::decompress_to_vec(packed.as_slice()).ok()
}

/// A frame as it is shown: its pixels and the time it stays on screen.
#[derive(Debug)]
pub struct Frame {
    /// Tightly packed pixels, four bytes each.
    pub buffer: Vec<u8>,
    /// Display time in milliseconds.
    pub duration_ms: u32,
}

/// A frame as the cache keeps it: its pixels compressed, with the time it
/// stays on screen. It can only be made from a frame's pixels, so it always
/// unpacks.
#[derive(Debug)]
pub struct CachedFrame {
    packed: Vec<u8>,
    duration_ms: u32,
}

/// What a cached frame holds.
pub struct CachedView {
    /// The pixels that the frame gives when it is unpacked.
    pub pixels: Seq<u8>,
    /// The frame's display time in milliseconds.
    pub duration_ms: u32,
    /// The compressed bytes that the frame keeps.
    pub packed: Seq<u8>,
}

/// What the cache holds of a frame with these pixels and this display time:
/// the pixels compressed by themselves at the cache's one level, which unpack
/// to the same pixels, and the display time.
pub open spec fn cached_as(buffer: Seq<u8>, duration_ms: u32) -> CachedView {
    CachedView { pixels: buffer, duration_ms, packed: deflated(buffer, COMPRESSION_LEVEL) }
}

impl View for CachedFrame {
    type V = CachedView;

    closed spec fn view(&self) -> CachedView {
        CachedView {
            pixels: inflated(self.packed@).unwrap(),
            duration_ms: self.duration_ms,
            packed: self.packed@,
        }
    }
}

impl CachedFrame {
    #[verifier::type_invariant]
    spec fn unpacks(self) -> bool {
        inflated(self.packed@).is_some()
    }

    /// Compresses a frame's pixels for the cache.
    pub fn compress(buffer: &Vec<u8>, duration_ms: u32) -> (cached: CachedFrame)
        ensures
            cached@ == cached_as(buffer@, duration_ms),
    {
        let packed = deflate(buffer, COMPRESSION_LEVEL);
        CachedFrame { packed, duration_ms }
    }

    /// Unpacks the frame's pixels.
    pub fn decompress(&self) -> (buffer: Vec<u8>)
        ensures
            buffer@ == self@.pixels,
    {
        proof {
            use_type_invariant(self);
        }
        match inflate(&self.packed) {
            Some(buffer) => buffer,
            None => vstd::pervasive::unreached(),
        }
    }

    /// The frame's display time in milliseconds.
    pub fn duration_ms(&self) -> (millis: u32)
        ensures
            millis == self@.duration_ms,
    {
        self.duration_ms
    }

    /// The compressed bytes that the frame keeps.
    pub fn stored(&self) -> (bytes: &Vec<u8>)
        ensures
            bytes@ == self@.packed,
    {
        &self.packed
    }

    /// The number of bytes that the compressed frame takes.
    pub fn stored_len(&self) -> (len: usize)
        ensures
            len == self@.packed.len(),
    {
        self.packed.len()
    }
}

/// What a sequence of cached frames holds, frame by frame.
pub open spec fn contents_of(cache: Seq<CachedFrame>) -> Seq<CachedView> {
    cache.map_values(|frame: CachedFrame| frame@)
}

/// What the cache of a sequence of frames holds: every frame compressed by
/// itself, whatever stands before or after it, in the order of the sequence.
pub open spec fn cache_of(frames: Seq<Frame>) -> Seq<CachedView> {
    frames.map_values(|frame: Frame| cached_as(frame.buffer@, frame.duration_ms))
}

/// A cache under construction.
#[derive(Debug)]
pub struct FrameCache {
    frames: Vec<CachedFrame>,
}

impl FrameCache {
    /// What the cache holds so far, frame by frame.
    pub closed spec fn contents(self) -> Seq<CachedView> {
        contents_of(self.frames@)
    }

    /// A cache without frames.
    pub fn new() -> (cache: FrameCache)
        ensures
            cache.contents() == Seq::<CachedView>::empty(),
    {
        let cache = FrameCache { frames: Vec::new() };
        assert(cache.contents() =~= Seq::<CachedView>::empty());
        cache
    }

    /// Compresses a frame's pixels and appends the frame to the cache. The
    /// frames that the cache holds already stay as they are.
    pub fn push(&mut self, buffer: &Vec<u8>, duration_ms: u32)
        ensures
            final(self).contents() == old(self).contents().push(cached_as(buffer@, duration_ms)),
    {
        let cached = CachedFrame::compress(buffer, duration_ms);
        self.frames.push(cached);
        assert(final(self).contents() =~= old(self).contents().push(
            cached_as(buffer@, duration_ms),
        ));
    }

    /// The number of frames cached so far.
    pub fn len(&self) -> (count: usize)
        ensures
            count == self.contents().len(),
    {
        self.frames.len()
    }

    /// Closes the cache and hands out its frames in the order they came.
    pub fn finish(self) -> (frames: Vec<CachedFrame>)
        ensures
            contents_of(frames@) == self.contents(),
    {
        self.frames
    }
}

/// Builds the cache for a whole stream of frames: every frame compressed by
/// itself, in the order of the stream.
pub fn cache_the_frames(frames: &Vec<Frame>) -> (cached: Vec<CachedFrame>)
    ensures
        contents_of(cached@) == cache_of(frames@),
{
    let mut cache = FrameCache::new();
    let mut at: usize = 0;
    while at < frames.len()
        invariant
            at <= frames.len(),
            cache.contents() == cache_of(frames@).take(at as int),
        decreases frames.len() - at,
    {
        cache.push(&frames[at].buffer, frames[at].duration_ms);
        assert(cache_of(frames@).take(at + 1) =~= cache_of(frames@).take(at as int).push(
            cached_as(frames[at as int].buffer@, frames[at as int].duration_ms),
        ));
        at += 1;
    }
    assert(cache_of(frames@).take(at as int) =~= cache_of(frames@));
    cache.finish()
}

/// The compressed bytes of a frame in the cache of a stream depend on that
/// frame's pixels alone: two streams that agree in the pixels at some place
/// have the same compressed bytes there, whatever else they hold.
pub proof fn lemma_frames_are_cached_alone(first: Seq<Frame>, second: Seq<Frame>, at: int)
    requires
        0 <= at < first.len(),
        at < second.len(),
        first[at].buffer@ == second[at].buffer@,
    ensures
        cache_of(first)[at].packed == cache_of(second)[at].packed,
        cache_of(first)[at].pixels == cache_of(second)[at].pixels,
{
}

} // verus!
