//! The stateful parser handle: status codes, the poisoning state machine,
//! and the track metadata queries.
//!
//! A handle starts fresh, runs whole read attempts through the box-tree
//! walker, and poisons itself on the first failure: every later read or
//! query on a poisoned handle fails with `MP4PARSE_ERROR_BADARG` and changes
//! nothing. Queries operate purely on the already-decoded context and never
//! touch the byte source.

use vstd::prelude::*;

use crate::context::{MediaContext, MediaContextView, SampleEntry, Track, TrackType};
use crate::error::Error;
use crate::reader::ByteReader;
use crate::walker::{has_top_moov, read_mp4, walk_boxes};

verus! {

/// Status of a parser-handle operation, one value per C status code.
#[derive(Clone, Copy, Debug, PartialEq, Eq, Structural)]
#[allow(non_camel_case_types)]
pub enum mp4parse_error {
    /// The operation succeeded.
    MP4PARSE_OK,
    /// A null, out-of-range, or poisoned-handle argument.
    MP4PARSE_ERROR_BADARG,
    /// Structurally malformed data, or a query the decoded state cannot answer.
    MP4PARSE_ERROR_INVALID,
    /// A feature path the decoder does not handle.
    MP4PARSE_ERROR_UNSUPPORTED,
    /// The stream ended while a structure was still being read.
    MP4PARSE_ERROR_EOF,
    /// An internal abort caught at the isolation boundary.
    MP4PARSE_ERROR_ASSERT,
    /// The byte source reported a read failure.
    MP4PARSE_ERROR_IO,
}

/// Kind of media a decoded track carries, as reported to the host.
#[derive(Clone, Copy, Debug, PartialEq, Eq, Structural)]
#[allow(non_camel_case_types)]
pub enum mp4parse_track_type {
    /// A video track.
    MP4PARSE_TRACK_TYPE_VIDEO,
    /// An audio track.
    MP4PARSE_TRACK_TYPE_AUDIO,
}

/// Per-track metadata reported to the host.
#[derive(Clone, Copy, Debug, PartialEq, Eq, Structural)]
#[allow(non_camel_case_types)]
pub struct mp4parse_track_info {
    /// Kind of media the track carries.
    pub track_type: mp4parse_track_type,
    /// Track id from the track header.
    pub track_id: u32,
    /// Track duration in milliseconds.
    pub duration: u64,
    /// Presentation media time in milliseconds.
    pub media_time: i64,
}

/// Audio sample-format metadata reported to the host.
#[derive(Clone, Copy, Debug, PartialEq, Eq, Structural)]
#[allow(non_camel_case_types)]
pub struct mp4parse_track_audio_info {
    /// Number of channels.
    pub channels: u16,
    /// Bits per sample.
    pub bit_depth: u16,
    /// Sample rate in integer Hertz.
    pub sample_rate: u32,
}

/// Video sample-format metadata reported to the host.
#[derive(Clone, Copy, Debug, PartialEq, Eq, Structural)]
#[allow(non_camel_case_types)]
pub struct mp4parse_track_video_info {
    /// Display width in integer pixels, from the track header.
    pub display_width: u32,
    /// Display height in integer pixels, from the track header.
    pub display_height: u32,
    /// Coded image width in pixels, from the sample entry.
    pub image_width: u16,
    /// Coded image height in pixels, from the sample entry.
    pub image_height: u16,
}

/// The status code a decode error is reported as.
pub open spec fn status_of(e: Error) -> mp4parse_error {
    match e {
        Error::NoMoov => mp4parse_error::MP4PARSE_ERROR_INVALID,
        Error::InvalidData => mp4parse_error::MP4PARSE_ERROR_INVALID,
        Error::Unsupported => mp4parse_error::MP4PARSE_ERROR_UNSUPPORTED,
        Error::UnexpectedEOF => mp4parse_error::MP4PARSE_ERROR_EOF,
        Error::AssertCaught => mp4parse_error::MP4PARSE_ERROR_ASSERT,
        Error::Io => mp4parse_error::MP4PARSE_ERROR_IO,
    }
}

/// Map a decode error to its status code.
fn status_code(e: Error) -> (r: mp4parse_error)
    ensures
        r == status_of(e),
{
    match e {
        Error::NoMoov => mp4parse_error::MP4PARSE_ERROR_INVALID,
        Error::InvalidData => mp4parse_error::MP4PARSE_ERROR_INVALID,
        Error::Unsupported => mp4parse_error::MP4PARSE_ERROR_UNSUPPORTED,
        Error::UnexpectedEOF => mp4parse_error::MP4PARSE_ERROR_EOF,
        Error::AssertCaught => mp4parse_error::MP4PARSE_ERROR_ASSERT,
        Error::Io => mp4parse_error::MP4PARSE_ERROR_IO,
    }
}

/// Number of milliseconds denoted by `time` ticks at `scale` ticks per
/// second, truncating the fractional part.
pub open spec fn ticks_to_ms(time: int, scale: int) -> int {
    time * 1000 / scale
}

/// Convert a time in track ticks to milliseconds at the track's timescale.
pub fn track_time_to_ms(time: u64, scale: u32) -> (r: u64)
    requires
        scale > 0,
        ticks_to_ms(time as int, scale as int) <= u64::MAX,
    ensures
        r == ticks_to_ms(time as int, scale as int),
{
    ((time as u128) * 1000 / (scale as u128)) as u64
}

/// Convert a time in movie ticks to milliseconds at the movie's timescale.
pub fn media_time_to_ms(time: u64, scale: u32) -> (r: u64)
    requires
        scale > 0,
        ticks_to_ms(time as int, scale as int) <= u64::MAX,
    ensures
        r == ticks_to_ms(time as int, scale as int),
{
    ((time as u128) * 1000 / (scale as u128)) as u64
}

/// Whether an io descriptor may be handed to a new parser: the descriptor
/// itself, its callback, and its user-data pointer must all be present.
/// With any of the three missing, no handle is created.
pub fn io_descriptor_valid(io_present: bool, read_present: bool, userdata_present: bool) -> (r:
    bool)
    ensures
        r == (io_present && read_present && userdata_present),
{
    io_present && read_present && userdata_present
}

/// What the host's byte source produced for one whole read attempt.
pub enum ReadOutcome {
    /// Every byte the source yielded, in order, up to its end of stream.
    Bytes(Vec<u8>),
    /// The source reported a read failure.
    IoError,
    /// An abort was caught at the isolation boundary.
    Abort,
}

/// An opaque parser instance: the decoded context plus the poisoned flag.
#[allow(non_camel_case_types)]
pub struct mp4parse_parser {
    context: MediaContext,
    poisoned: bool,
}

impl mp4parse_parser {
    /// The decoded context.
    pub closed spec fn ctx(&self) -> MediaContextView {
        self.context@
    }

    /// Whether a read attempt has failed on this handle.
    pub closed spec fn is_poisoned(&self) -> bool {
        self.poisoned
    }

    /// A fresh parser with an empty context.
    pub fn new() -> (p: mp4parse_parser)
        ensures
            !p.is_poisoned(),
            p.ctx().timescale is None,
            p.ctx().tracks == Seq::<Track>::empty(),
    {
        mp4parse_parser { context: MediaContext::new(), poisoned: false }
    }

    /// Whether a read attempt has failed on this handle.
    pub fn poisoned(&self) -> (b: bool)
        ensures
            b == self.is_poisoned(),
    {
        self.poisoned
    }

    /// The decoded context.
    pub fn context(&self) -> (c: &MediaContext)
        ensures
            c@ == self.ctx(),
    {
        &self.context
    }
}

/// Run the parser over the outcome of one read attempt.
///
/// A poisoned handle rejects the call unchanged. Otherwise the whole byte
/// stream is walked into the handle's context; any failure, a reported read
/// error, or a caught abort poisons the handle, and success clears the
/// poison.
pub fn mp4parse_read(parser: &mut mp4parse_parser, source: ReadOutcome) -> (r: mp4parse_error)
    ensures
        old(parser).is_poisoned() ==> r == mp4parse_error::MP4PARSE_ERROR_BADARG && *final(parser)
            == *old(parser),
        !old(parser).is_poisoned() ==> {
            &&& final(parser).is_poisoned() == (r != mp4parse_error::MP4PARSE_OK)
            &&& match source {
                ReadOutcome::IoError => r == mp4parse_error::MP4PARSE_ERROR_IO
                    && final(parser).ctx() == old(parser).ctx(),
                ReadOutcome::Abort => r == mp4parse_error::MP4PARSE_ERROR_ASSERT
                    && final(parser).ctx() == old(parser).ctx(),
                ReadOutcome::Bytes(b) => match walk_boxes(b@, old(parser).ctx()) {
                    Ok(c2) => final(parser).ctx() == c2 && r == (if has_top_moov(b@) {
                        mp4parse_error::MP4PARSE_OK
                    } else {
                        mp4parse_error::MP4PARSE_ERROR_INVALID
                    }),
                    Err(e) => r == status_of(e),
                },
            }
        },
{
    if parser.poisoned {
        return mp4parse_error::MP4PARSE_ERROR_BADARG;
    }
    match source {
        ReadOutcome::Bytes(b) => {
            let ghost bytes = b@;
            let mut f = ByteReader::new(b);
            proof {
                assert(f.suffix() =~= bytes);
            }
            let rr = read_mp4(&mut f, &mut parser.context);
            match rr {
                Ok(()) => {
                    parser.poisoned = false;
                    mp4parse_error::MP4PARSE_OK
                },
                Err(e) => {
                    parser.poisoned = true;
                    status_code(e)
                },
            }
        },
        ReadOutcome::IoError => {
            parser.poisoned = true;
            mp4parse_error::MP4PARSE_ERROR_IO
        },
        ReadOutcome::Abort => {
            parser.poisoned = true;
            mp4parse_error::MP4PARSE_ERROR_ASSERT
        },
    }
}

/// Number of tracks parsed by previous read calls.
///
/// Count retrieval assumes a successful prior parse: a poisoned handle, or
/// a count that cannot fit the result type, is a caller error kept out by
/// precondition.
pub fn mp4parse_get_track_count(parser: &mp4parse_parser) -> (r: u32)
    requires
        !parser.is_poisoned(),
        parser.ctx().tracks.len() < u32::MAX,
    ensures
        r == parser.ctx().tracks.len(),
{
    parser.context.tracks.len() as u32
}

/// The track count, with `mp4parse_get_track_count`'s preconditions tested:
/// `None` when the handle is poisoned or the count cannot fit.
pub fn mp4parse_try_get_track_count(parser: &mp4parse_parser) -> (r: Option<u32>)
    ensures
        match r {
            Some(n) => !parser.is_poisoned() && parser.ctx().tracks.len() < u32::MAX && n
                == parser.ctx().tracks.len(),
            None => parser.is_poisoned() || parser.ctx().tracks.len() >= u32::MAX,
        },
{
    if parser.poisoned {
        return None;
    }
    if parser.context.tracks.len() >= u32::MAX as usize {
        return None;
    }
    Some(mp4parse_get_track_count(parser))
}

/// The reported kind of a decoded track that is not unknown.
pub open spec fn spec_track_type(t: TrackType) -> mp4parse_track_type {
    if t == TrackType::Audio {
        mp4parse_track_type::MP4PARSE_TRACK_TYPE_AUDIO
    } else {
        mp4parse_track_type::MP4PARSE_TRACK_TYPE_VIDEO
    }
}

/// Track duration in milliseconds: media ticks at the track's timescale.
pub open spec fn spec_duration_ms(t: Track) -> int {
    ticks_to_ms(t.duration.unwrap() as int, t.timescale.unwrap() as int)
}

/// The media-time term of the presentation time: the track's media start
/// time in milliseconds at the track's own timescale, or 0 without one.
pub open spec fn spec_media_term_ms(t: Track) -> int {
    if t.media_time is Some {
        ticks_to_ms(t.media_time.unwrap() as int, t.timescale.unwrap() as int)
    } else {
        0
    }
}

/// The empty-edit term of the presentation time: the track's leading empty
/// edit in milliseconds at the movie's timescale, or 0 without one.
pub open spec fn spec_empty_term_ms(ctx: MediaContextView, t: Track) -> int {
    if t.empty_duration is Some {
        ticks_to_ms(t.empty_duration.unwrap() as int, ctx.timescale.unwrap() as int)
    } else {
        0
    }
}

/// Whether the decoded state can answer a track-info query for track `i`:
/// the movie timescale and the track's timescale, duration and id must have
/// been populated, the timescales used must be nonzero, and the converted
/// times must fit their result types.
pub open spec fn track_info_ok(ctx: MediaContextView, i: int) -> bool {
    let t = ctx.tracks[i];
    &&& ctx.timescale is Some
    &&& t.timescale is Some
    &&& t.duration is Some
    &&& t.track_id is Some
    &&& t.timescale.unwrap() > 0
    &&& (t.empty_duration is Some ==> ctx.timescale.unwrap() > 0)
    &&& spec_duration_ms(t) <= u64::MAX
    &&& spec_media_term_ms(t) <= i64::MAX
    &&& spec_empty_term_ms(ctx, t) <= i64::MAX
}

/// Fill the supplied `mp4parse_track_info` with metadata for `track`.
///
/// The presentation media time subtracts two differently scaled terms: the
/// media start time at the track's timescale minus the leading empty edit
/// at the movie's timescale.
pub fn mp4parse_get_track_info(
    parser: &mp4parse_parser,
    track: u32,
    info: &mut mp4parse_track_info,
) -> (r: mp4parse_error)
    ensures
        parser.is_poisoned() ==> r == mp4parse_error::MP4PARSE_ERROR_BADARG
            && *final(info) == *old(info),
        !parser.is_poisoned() && track >= parser.ctx().tracks.len() ==> r
            == mp4parse_error::MP4PARSE_ERROR_BADARG && *final(info) == *old(info),
        !parser.is_poisoned() && track < parser.ctx().tracks.len() ==> {
            let t = parser.ctx().tracks[track as int];
            if t.track_type == TrackType::Unknown {
                r == mp4parse_error::MP4PARSE_ERROR_UNSUPPORTED && *final(info) == *old(info)
            } else if !track_info_ok(parser.ctx(), track as int) {
                r == mp4parse_error::MP4PARSE_ERROR_INVALID && *final(info)
                    == (mp4parse_track_info {
                    track_type: spec_track_type(t.track_type),
                    ..*old(info)
                })
            } else {
                &&& r == mp4parse_error::MP4PARSE_OK
                &&& final(info).track_type == spec_track_type(t.track_type)
                &&& final(info).track_id == t.track_id.unwrap()
                &&& final(info).duration == spec_duration_ms(t)
                &&& final(info).media_time == spec_media_term_ms(t) - spec_empty_term_ms(
                    parser.ctx(),
                    t,
                )
            }
        },
{
    if parser.poisoned {
        return mp4parse_error::MP4PARSE_ERROR_BADARG;
    }
    let track_index = track as usize;
    if track_index >= parser.context.tracks.len() {
        return mp4parse_error::MP4PARSE_ERROR_BADARG;
    }
    let t = parser.context.tracks[track_index];
    match t.track_type {
        TrackType::Video => {
            info.track_type = mp4parse_track_type::MP4PARSE_TRACK_TYPE_VIDEO;
        },
        TrackType::Audio => {
            info.track_type = mp4parse_track_type::MP4PARSE_TRACK_TYPE_AUDIO;
        },
        TrackType::Unknown => {
            return mp4parse_error::MP4PARSE_ERROR_UNSUPPORTED;
        },
    }
    let ctx_timescale = match parser.context.timescale {
        Some(v) => v,
        None => {
            return mp4parse_error::MP4PARSE_ERROR_INVALID;
        },
    };
    let track_timescale = match t.timescale {
        Some(v) => v,
        None => {
            return mp4parse_error::MP4PARSE_ERROR_INVALID;
        },
    };
    let track_duration = match t.duration {
        Some(v) => v,
        None => {
            return mp4parse_error::MP4PARSE_ERROR_INVALID;
        },
    };
    let track_id = match t.track_id {
        Some(v) => v,
        None => {
            return mp4parse_error::MP4PARSE_ERROR_INVALID;
        },
    };
    if track_timescale == 0 {
        return mp4parse_error::MP4PARSE_ERROR_INVALID;
    }
    let media_term: i64 = match t.media_time {
        Some(m) => {
            let ms = (m as u128) * 1000 / (track_timescale as u128);
            if ms > i64::MAX as u128 {
                return mp4parse_error::MP4PARSE_ERROR_INVALID;
            }
            ms as i64
        },
        None => 0,
    };
    let empty_term: i64 = match t.empty_duration {
        Some(e) => {
            if ctx_timescale == 0 {
                return mp4parse_error::MP4PARSE_ERROR_INVALID;
            }
            let ms = (e as u128) * 1000 / (ctx_timescale as u128);
            if ms > i64::MAX as u128 {
                return mp4parse_error::MP4PARSE_ERROR_INVALID;
            }
            ms as i64
        },
        None => 0,
    };
    let duration_ms = (track_duration as u128) * 1000 / (track_timescale as u128);
    if duration_ms > u64::MAX as u128 {
        return mp4parse_error::MP4PARSE_ERROR_INVALID;
    }
    info.media_time = media_term - empty_term;
    info.duration = duration_ms as u64;
    info.track_id = track_id;
    mp4parse_error::MP4PARSE_OK
}

/// Fill the supplied `mp4parse_track_audio_info` with metadata for `track`.
pub fn mp4parse_get_track_audio_info(
    parser: &mp4parse_parser,
    track: u32,
    info: &mut mp4parse_track_audio_info,
) -> (r: mp4parse_error)
    ensures
        parser.is_poisoned() ==> r == mp4parse_error::MP4PARSE_ERROR_BADARG
            && *final(info) == *old(info),
        !parser.is_poisoned() && track >= parser.ctx().tracks.len() ==> r
            == mp4parse_error::MP4PARSE_ERROR_BADARG && *final(info) == *old(info),
        !parser.is_poisoned() && track < parser.ctx().tracks.len() ==> {
            let t = parser.ctx().tracks[track as int];
            match (t.track_type, t.data) {
                (TrackType::Audio, Some(SampleEntry::Audio(a))) => {
                    &&& r == mp4parse_error::MP4PARSE_OK
                    &&& final(info).channels == a.channelcount
                    &&& final(info).bit_depth == a.samplesize
                    &&& final(info).sample_rate == a.samplerate / 0x10000
                },
                _ => r == mp4parse_error::MP4PARSE_ERROR_INVALID && *final(info) == *old(info),
            }
        },
{
    if parser.poisoned {
        return mp4parse_error::MP4PARSE_ERROR_BADARG;
    }
    let track_index = track as usize;
    if track_index >= parser.context.tracks.len() {
        return mp4parse_error::MP4PARSE_ERROR_BADARG;
    }
    let t = parser.context.tracks[track_index];
    match t.track_type {
        TrackType::Audio => (),
        _ => {
            return mp4parse_error::MP4PARSE_ERROR_INVALID;
        },
    }
    let audio = match t.data {
        Some(SampleEntry::Audio(a)) => a,
        _ => {
            return mp4parse_error::MP4PARSE_ERROR_INVALID;
        },
    };
    info.channels = audio.channelcount;
    info.bit_depth = audio.samplesize;
    info.sample_rate = audio.samplerate / 0x10000;  // 16.16 fixed point
    mp4parse_error::MP4PARSE_OK
}

/// Fill the supplied `mp4parse_track_video_info` with metadata for `track`.
pub fn mp4parse_get_track_video_info(
    parser: &mp4parse_parser,
    track: u32,
    info: &mut mp4parse_track_video_info,
) -> (r: mp4parse_error)
    ensures
        parser.is_poisoned() ==> r == mp4parse_error::MP4PARSE_ERROR_BADARG
            && *final(info) == *old(info),
        !parser.is_poisoned() && track >= parser.ctx().tracks.len() ==> r
            == mp4parse_error::MP4PARSE_ERROR_BADARG && *final(info) == *old(info),
        !parser.is_poisoned() && track < parser.ctx().tracks.len() ==> {
            let t = parser.ctx().tracks[track as int];
            match (t.track_type, t.data, t.tkhd) {
                (TrackType::Video, Some(SampleEntry::Video(v)), Some(tkhd)) => {
                    &&& r == mp4parse_error::MP4PARSE_OK
                    &&& final(info).display_width == tkhd.width / 0x10000
                    &&& final(info).display_height == tkhd.height / 0x10000
                    &&& final(info).image_width == v.width
                    &&& final(info).image_height == v.height
                },
                _ => r == mp4parse_error::MP4PARSE_ERROR_INVALID && *final(info) == *old(info),
            }
        },
{
    if parser.poisoned {
        return mp4parse_error::MP4PARSE_ERROR_BADARG;
    }
    let track_index = track as usize;
    if track_index >= parser.context.tracks.len() {
        return mp4parse_error::MP4PARSE_ERROR_BADARG;
    }
    let t = parser.context.tracks[track_index];
    match t.track_type {
        TrackType::Video => (),
        _ => {
            return mp4parse_error::MP4PARSE_ERROR_INVALID;
        },
    }
    let video = match t.data {
        Some(SampleEntry::Video(v)) => v,
        _ => {
            return mp4parse_error::MP4PARSE_ERROR_INVALID;
        },
    };
    let tkhd = match t.tkhd {
        Some(h) => h,
        None => {
            return mp4parse_error::MP4PARSE_ERROR_INVALID;
        },
    };
    info.display_width = tkhd.width / 0x10000;  // 16.16 fixed point
    info.display_height = tkhd.height / 0x10000;  // 16.16 fixed point
    info.image_width = video.width;
    info.image_height = video.height;
    mp4parse_error::MP4PARSE_OK
}

} // verus!
