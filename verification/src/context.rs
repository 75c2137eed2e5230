//! The accumulated decode result: global timescale plus per-track records.

use vstd::prelude::*;

use crate::boxes::TrackHeaderBox;

verus! {

/// What kind of media a track carries, from its handler box.
#[derive(Clone, Copy, Debug, PartialEq, Eq, Structural)]
pub enum TrackType {
    /// A video handler.
    Video,
    /// An audio handler.
    Audio,
    /// Any other handler; counted, but rejected by type-specific queries.
    Unknown,
}

/// An audio track's sample format.
#[derive(Clone, Copy, Debug, PartialEq, Eq, Structural)]
pub struct AudioSampleEntry {
    /// Number of channels.
    pub channelcount: u16,
    /// Bits per sample.
    pub samplesize: u16,
    /// Sample rate in 16.16 fixed point.
    pub samplerate: u32,
}

/// A video track's sample format.
#[derive(Clone, Copy, Debug, PartialEq, Eq, Structural)]
pub struct VideoSampleEntry {
    /// Image width in pixels.
    pub width: u16,
    /// Image height in pixels.
    pub height: u16,
}

/// Tagged description of a track's sample format.
#[derive(Clone, Copy, Debug, PartialEq, Eq, Structural)]
pub enum SampleEntry {
    /// The format of an audio track.
    Audio(AudioSampleEntry),
    /// The format of a video track.
    Video(VideoSampleEntry),
}

/// One decoded track. Fields are filled in as the boxes inside its track box
/// are walked; a field left `None` was never seen in the input.
#[derive(Clone, Copy, Debug, PartialEq, Eq, Structural)]
pub struct Track {
    /// What kind of media the track carries.
    pub track_type: TrackType,
    /// Ticks per second of the track's media, from its media header.
    pub timescale: Option<u32>,
    /// Duration in media ticks, from its media header.
    pub duration: Option<u64>,
    /// Media start time in media ticks, from its edit list.
    pub media_time: Option<u64>,
    /// Duration of a leading empty edit in movie ticks, from its edit list.
    pub empty_duration: Option<u64>,
    /// Track id, from its track header.
    pub track_id: Option<u32>,
    /// The track's sample format, from its sample description.
    pub data: Option<SampleEntry>,
    /// Snapshot of the track header.
    pub tkhd: Option<TrackHeaderBox>,
}

impl Track {
    /// A track with nothing decoded yet.
    pub open spec fn spec_new() -> Track {
        Track {
            track_type: TrackType::Unknown,
            timescale: None,
            duration: None,
            media_time: None,
            empty_duration: None,
            track_id: None,
            data: None,
            tkhd: None,
        }
    }

    /// A track with nothing decoded yet.
    pub fn new() -> (t: Track)
        ensures
            t == Track::spec_new(),
    {
        Track {
            track_type: TrackType::Unknown,
            timescale: None,
            duration: None,
            media_time: None,
            empty_duration: None,
            track_id: None,
            data: None,
            tkhd: None,
        }
    }
}

/// The whole-file decode result.
pub struct MediaContext {
    /// Ticks per second of the movie, from the movie header.
    pub timescale: Option<u32>,
    /// The decoded tracks, in the order their track boxes appeared.
    pub tracks: Vec<Track>,
}

/// Mathematical model of a [`MediaContext`].
pub struct MediaContextView {
    /// Ticks per second of the movie.
    pub timescale: Option<u32>,
    /// The decoded tracks in order.
    pub tracks: Seq<Track>,
}

impl View for MediaContext {
    type V = MediaContextView;

    open spec fn view(&self) -> MediaContextView {
        MediaContextView { timescale: self.timescale, tracks: self.tracks@ }
    }
}

impl MediaContext {
    /// A context with nothing decoded yet.
    pub fn new() -> (c: MediaContext)
        ensures
            c@.timescale == Option::<u32>::None,
            c@.tracks == Seq::<Track>::empty(),
    {
        MediaContext { timescale: None, tracks: Vec::new() }
    }
}

} // verus!
