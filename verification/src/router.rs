//! The dispatch router: tells still images from animated ones and answers a
//! request either with one buffer or with a playback session.

use vstd::prelude::*;
use crate::driver::{created, Playback};
use crate::outputs::names_of;
use crate::resize::{bgra_of, img_resize, is_fixed, packed_len, resized, Filter, Picture};

verus! {

/// What the router needs to know of an image format.
#[derive(Clone, Copy, Debug, PartialEq, Eq)]
pub enum Format {
    /// GIF, the one format that is played as an animation.
    Gif,
    /// Any other format that is known.
    Other,
}

/// Which of the router's two paths a source takes.
#[derive(Clone, Copy, Debug, PartialEq, Eq)]
pub enum SourceKind {
    /// One frame: decoded and scaled once.
    Still,
    /// Several frames: played by a session.
    Animated,
}

/// The format that the `image` crate reads off the extension of `path`, or
/// `None` where it knows none for it.
pub uninterp spec fn format_of_path(path: Seq<char>) -> Option<Format>;

/// Calls `image::ImageFormat::from_path`.
///
/// Trusted: the result stands for the format that the crate reads off the
/// path's extension; every format but GIF is given as `Other`, and the
/// crate's error, which it returns where there is no extension or none that
/// it knows, as `None`.
#[verifier::external_body]
fn path_format(path: &str) -> (format: Option<Format>)
    ensures
        format == format_of_path(path@),
{
    match image::ImageFormat::from_path(path) {
        Ok(image::ImageFormat::Gif) => Some(Format::Gif),
        Ok(_) => Some(Format::Other),
        Err(_) => None,
    }
}

/// The path that a source of the given format takes: GIF is animated, every
/// other known format is still, and an unknown format takes neither.
pub open spec fn kind_of(format: Option<Format>) -> Option<SourceKind> {
    match format {
        Some(Format::Gif) => Some(SourceKind::Animated),
        Some(Format::Other) => Some(SourceKind::Still),
        None => None,
    }
}

/// Classifies a source by its format.
pub fn classify(format: Option<Format>) -> (kind: Option<SourceKind>)
    ensures
        kind == kind_of(format),
{
    match format {
        Some(Format::Gif) => Some(SourceKind::Animated),
        Some(Format::Other) => Some(SourceKind::Still),
        None => None,
    }
}

/// Classifies the source at `path` by the format that its extension names.
pub fn source_kind(path: &str) -> (kind: Option<SourceKind>)
    ensures
        kind == kind_of(format_of_path(path@)),
{
    classify(path_format(path))
}

/// A source that has been opened and classified.
#[derive(Debug)]
pub enum Source {
    /// A still image, decoded.
    Still(Picture),
    /// An animated image; its frames are decoded while the session plays.
    Animated,
}

/// The answer to a request.
#[derive(Debug)]
pub enum ProcessingResult {
    /// A still image: the outputs it is for, and its buffer.
    Img((Vec<String>, Vec<u8>)),
    /// An animation: the session that plays it.
    Gif(Playback),
}

/// Whether a source can be shown on surfaces of the given size.
pub open spec fn presentable(source: Source, dimensions: (u32, u32)) -> bool {
    source matches Source::Still(picture) ==> picture.fits(dimensions.0, dimensions.1)
}

/// Whether `result` answers the request for `source` on `outputs`: a still
/// image gives, for these same outputs, a buffer that fills the surfaces,
/// which is the image's own pixels in BGRA order where it has the surfaces'
/// size, and the image scaled with the filter asked for where that is fixed;
/// an animated one gives a new session for them.
pub open spec fn answers(
    result: ProcessingResult,
    outputs: Vec<String>,
    dimensions: (u32, u32),
    filter: Filter,
    source: Source,
) -> bool {
    match source {
        Source::Still(picture) => {
            &&& result matches ProcessingResult::Img((listed, bytes))
            &&& listed == outputs
            &&& bytes@.len() == packed_len(dimensions.0, dimensions.1)
            &&& picture.spec_width() == dimensions.0 && picture.spec_height() == dimensions.1
                ==> bytes@ == bgra_of(picture.pixels())
            &&& is_fixed(
                picture.spec_width(),
                picture.spec_height(),
                dimensions.0,
                dimensions.1,
                filter,
            ) ==> bytes@ == resized(
                picture.spec_width(),
                picture.spec_height(),
                picture.pixels(),
                dimensions.0,
                dimensions.1,
                filter,
            )
        },
        Source::Animated => {
            &&& result matches ProcessingResult::Gif(session)
            &&& session@ == created(names_of(outputs@), dimensions.0, dimensions.1, filter)
            &&& session@.wf()
        },
    }
}

/// Answers a request.
pub fn processor_loop(msg: (Vec<String>, (u32, u32), Filter, Source)) -> (answer: ProcessingResult)
    requires
        presentable(msg.3, msg.1),
    ensures
        answers(answer, msg.0, msg.1, msg.2, msg.3),
{
    handle_msg(msg.0, msg.1, msg.2, msg.3)
}

/// Routes a request: a still image is scaled at once, an animated one gets a
/// session.
pub fn handle_msg(outputs: Vec<String>, dimensions: (u32, u32), filter: Filter, source: Source) -> (answer:
    ProcessingResult)
    requires
        presentable(source, dimensions),
    ensures
        answers(answer, outputs, dimensions, filter, source),
{
    let (width, height) = dimensions;
    match source {
        Source::Animated => process_gif(width, height, outputs, filter),
        Source::Still(img) => {
            let img_bytes = img_resize(img, width, height, filter);
            ProcessingResult::Img((outputs, img_bytes))
        },
    }
}

/// Opens a session for an animated source.
pub fn process_gif(width: u32, height: u32, outputs: Vec<String>, filter: Filter) -> (answer:
    ProcessingResult)
    ensures
        answers(answer, outputs, (width, height), filter, Source::Animated),
{
    ProcessingResult::Gif(Playback::new(outputs, width, height, filter))
}

} // verus!
