//! Tests for the parser handle: its poisoning state machine and the track
//! metadata queries, end to end over built box streams.

use mp4parse::api::{
    io_descriptor_valid, media_time_to_ms, mp4parse_error, mp4parse_get_track_audio_info,
    mp4parse_get_track_count, mp4parse_get_track_info, mp4parse_get_track_video_info,
    mp4parse_parser, mp4parse_read, mp4parse_track_audio_info, mp4parse_track_info,
    mp4parse_track_type, mp4parse_track_video_info, mp4parse_try_get_track_count, track_time_to_ms,
    ReadOutcome,
};

fn boxed(name: &[u8; 4], content: &[u8]) -> Vec<u8> {
    let mut out = Vec::new();
    out.extend_from_slice(&(content.len() as u32 + 8).to_be_bytes());
    out.extend_from_slice(name);
    out.extend_from_slice(content);
    out
}

fn ftyp() -> Vec<u8> {
    let mut content = Vec::new();
    content.extend_from_slice(b"mp42"); // major brand
    content.extend_from_slice(&0u32.to_be_bytes()); // minor version
    content.extend_from_slice(b"isom"); // compatible brands...
    content.extend_from_slice(b"mp42");
    boxed(b"ftyp", &content)
}

fn mvhd(timescale: u32, duration: u32) -> Vec<u8> {
    let mut content: Vec<u8> = vec![0, 0, 0, 0]; // version 0, flags 0
    content.extend(vec![0; 8]); // creation and modification times
    content.extend_from_slice(&timescale.to_be_bytes());
    content.extend_from_slice(&duration.to_be_bytes());
    content.extend(vec![0; 80]); // trailer
    boxed(b"mvhd", &content)
}

fn tkhd(track_id: u32, duration: u32, width: u32, height: u32) -> Vec<u8> {
    let mut content: Vec<u8> = vec![0, 0, 0, 3]; // version 0, enabled flags
    content.extend(vec![0; 8]); // creation and modification times
    content.extend_from_slice(&track_id.to_be_bytes());
    content.extend(vec![0; 4]); // reserved
    content.extend_from_slice(&duration.to_be_bytes());
    content.extend(vec![0; 8]); // reserved
    content.extend(vec![0; 44]); // layer, alternate group, volume, matrix
    content.extend_from_slice(&width.to_be_bytes());
    content.extend_from_slice(&height.to_be_bytes());
    boxed(b"tkhd", &content)
}

fn mdhd(timescale: u32, duration: u32) -> Vec<u8> {
    let mut content: Vec<u8> = vec![0, 0, 0, 0];
    content.extend(vec![0; 8]); // creation and modification times
    content.extend_from_slice(&timescale.to_be_bytes());
    content.extend_from_slice(&duration.to_be_bytes());
    content.extend(vec![0; 4]); // language, pre-defined
    boxed(b"mdhd", &content)
}

fn hdlr(handler: &[u8; 4]) -> Vec<u8> {
    let mut content: Vec<u8> = vec![0, 0, 0, 0];
    content.extend(vec![0; 4]); // pre-defined
    content.extend_from_slice(handler);
    content.extend(vec![0; 12]); // reserved
    boxed(b"hdlr", &content)
}

fn elst(media_time: u32) -> Vec<u8> {
    let mut content: Vec<u8> = vec![0, 0, 0, 0];
    content.extend_from_slice(&1u32.to_be_bytes()); // entry count
    content.extend_from_slice(&0u32.to_be_bytes()); // segment duration
    content.extend_from_slice(&media_time.to_be_bytes());
    content.extend_from_slice(&0x0001_0000u32.to_be_bytes()); // media rate
    boxed(b"elst", &content)
}

fn stsd_audio(channels: u16, bits: u16, rate_fixed: u32) -> Vec<u8> {
    let mut entry: Vec<u8> = vec![0; 8]; // reserved, data reference index
    entry.extend(vec![0; 8]); // reserved
    entry.extend_from_slice(&channels.to_be_bytes());
    entry.extend_from_slice(&bits.to_be_bytes());
    entry.extend(vec![0; 4]); // pre-defined, reserved
    entry.extend_from_slice(&rate_fixed.to_be_bytes());
    let mut content: Vec<u8> = vec![0, 0, 0, 0];
    content.extend_from_slice(&1u32.to_be_bytes()); // entry count
    content.extend(boxed(b"mp4a", &entry));
    boxed(b"stsd", &content)
}

fn stsd_video(width: u16, height: u16) -> Vec<u8> {
    let mut entry: Vec<u8> = vec![0; 8]; // reserved, data reference index
    entry.extend(vec![0; 16]); // pre-defined, reserved
    entry.extend_from_slice(&width.to_be_bytes());
    entry.extend_from_slice(&height.to_be_bytes());
    let mut content: Vec<u8> = vec![0, 0, 0, 0];
    content.extend_from_slice(&1u32.to_be_bytes()); // entry count
    content.extend(boxed(b"avc1", &entry));
    boxed(b"stsd", &content)
}

/// A minimal valid two-track sample file: one video track, one audio track.
fn minimal_mp4() -> Vec<u8> {
    let video_trak = {
        let stbl = boxed(b"stbl", &stsd_video(320, 240));
        let minf = boxed(b"minf", &stbl);
        let mut mdia_content = mdhd(90000, 3_600_000);
        mdia_content.extend(hdlr(b"vide"));
        mdia_content.extend(minf);
        let mdia = boxed(b"mdia", &mdia_content);
        let mut trak_content = tkhd(1, 40_000, 320 << 16, 240 << 16);
        trak_content.extend(mdia);
        boxed(b"trak", &trak_content)
    };
    let audio_trak = {
        let stbl = boxed(b"stbl", &stsd_audio(2, 16, 48000 << 16));
        let minf = boxed(b"minf", &stbl);
        let mut mdia_content = mdhd(48000, 2_943_984);
        mdia_content.extend(hdlr(b"soun"));
        mdia_content.extend(minf);
        let mdia = boxed(b"mdia", &mdia_content);
        let edts = boxed(b"edts", &elst(1_024_000));
        let mut trak_content = tkhd(2, 61_333, 0, 0);
        trak_content.extend(edts);
        trak_content.extend(mdia);
        boxed(b"trak", &trak_content)
    };
    let mut moov_content = mvhd(1000, 61_333);
    moov_content.extend(video_trak);
    moov_content.extend(audio_trak);
    let moov = boxed(b"moov", &moov_content);
    let mut file = ftyp();
    file.extend(moov);
    file
}

#[test]
fn new_parser() {
    let parser = mp4parse_parser::new();
    assert!(!parser.poisoned());
    assert_eq!(mp4parse_try_get_track_count(&parser), Some(0));
}

#[test]
fn arg_validation() {
    // A descriptor is acceptable only with all three pointers present.
    assert!(io_descriptor_valid(true, true, true));
    assert!(!io_descriptor_valid(false, true, true));
    assert!(!io_descriptor_valid(true, false, true));
    assert!(!io_descriptor_valid(true, true, false));
    assert!(!io_descriptor_valid(false, false, true));
    assert!(!io_descriptor_valid(false, true, false));
    assert!(!io_descriptor_valid(true, false, false));
    assert!(!io_descriptor_valid(false, false, false));
}

#[test]
fn arg_validation_with_parser() {
    let mut parser = mp4parse_parser::new();

    // A failing byte source simply reports an I/O error.
    assert_eq!(mp4parse_error::MP4PARSE_ERROR_IO, mp4parse_read(&mut parser, ReadOutcome::IoError));

    // The parser is now poisoned and unusable, even on valid data.
    assert_eq!(
        mp4parse_error::MP4PARSE_ERROR_BADARG,
        mp4parse_read(&mut parser, ReadOutcome::Bytes(minimal_mp4()))
    );
    assert!(parser.poisoned());
    assert_eq!(mp4parse_try_get_track_count(&parser), None);

    let mut dummy_info = mp4parse_track_info {
        track_type: mp4parse_track_type::MP4PARSE_TRACK_TYPE_VIDEO,
        track_id: 0,
        duration: 0,
        media_time: 0,
    };
    assert_eq!(
        mp4parse_error::MP4PARSE_ERROR_BADARG,
        mp4parse_get_track_info(&parser, 0, &mut dummy_info)
    );
    assert_eq!(dummy_info.track_id, 0);

    let mut dummy_video = mp4parse_track_video_info {
        display_width: 0,
        display_height: 0,
        image_width: 0,
        image_height: 0,
    };
    assert_eq!(
        mp4parse_error::MP4PARSE_ERROR_BADARG,
        mp4parse_get_track_video_info(&parser, 0, &mut dummy_video)
    );
    assert_eq!(dummy_video.display_width, 0);

    let mut dummy_audio = mp4parse_track_audio_info { channels: 0, bit_depth: 0, sample_rate: 0 };
    assert_eq!(
        mp4parse_error::MP4PARSE_ERROR_BADARG,
        mp4parse_get_track_audio_info(&parser, 0, &mut dummy_audio)
    );
    assert_eq!(dummy_audio.channels, 0);

    // The handle itself stays valid: dropping it is the host's free call.
    drop(parser);
}

#[test]
fn abort_is_reported_and_poisons() {
    let mut parser = mp4parse_parser::new();
    assert_eq!(
        mp4parse_error::MP4PARSE_ERROR_ASSERT,
        mp4parse_read(&mut parser, ReadOutcome::Abort)
    );
    assert!(parser.poisoned());
}

#[test]
fn missing_moov_is_invalid() {
    let mut parser = mp4parse_parser::new();
    assert_eq!(
        mp4parse_error::MP4PARSE_ERROR_INVALID,
        mp4parse_read(&mut parser, ReadOutcome::Bytes(Vec::new()))
    );

    let mut parser = mp4parse_parser::new();
    assert_eq!(
        mp4parse_error::MP4PARSE_ERROR_INVALID,
        mp4parse_read(&mut parser, ReadOutcome::Bytes(ftyp()))
    );
}

#[test]
fn truncated_box_inside_moov_is_eof() {
    // A movie box whose movie header claims more bytes than the box holds.
    let mut moov_content: Vec<u8> = Vec::new();
    moov_content.extend_from_slice(&108u32.to_be_bytes());
    moov_content.extend_from_slice(b"mvhd");
    moov_content.extend(vec![0; 50]);
    let moov = boxed(b"moov", &moov_content);
    let mut parser = mp4parse_parser::new();
    assert_eq!(
        mp4parse_error::MP4PARSE_ERROR_EOF,
        mp4parse_read(&mut parser, ReadOutcome::Bytes(moov))
    );
    assert!(parser.poisoned());
}

#[test]
fn unknown_handler_sample_description_is_unsupported() {
    let stbl = boxed(b"stbl", &stsd_video(320, 240));
    let minf = boxed(b"minf", &stbl);
    let mut mdia_content = mdhd(90000, 90000);
    mdia_content.extend(hdlr(b"text"));
    mdia_content.extend(minf);
    let mdia = boxed(b"mdia", &mdia_content);
    let mut trak_content = tkhd(1, 1000, 0, 0);
    trak_content.extend(mdia);
    let trak = boxed(b"trak", &trak_content);
    let mut moov_content = mvhd(1000, 1000);
    moov_content.extend(trak);
    let moov = boxed(b"moov", &moov_content);
    let mut parser = mp4parse_parser::new();
    assert_eq!(
        mp4parse_error::MP4PARSE_ERROR_UNSUPPORTED,
        mp4parse_read(&mut parser, ReadOutcome::Bytes(moov))
    );
    assert!(parser.poisoned());
}

#[test]
fn unknown_track_type_counts_but_rejects_queries() {
    // A track whose handler is unrecognized and which carries no sample
    // description: visible in the count, rejected by type-specific queries.
    let mut mdia_content = mdhd(90000, 90000);
    mdia_content.extend(hdlr(b"text"));
    let mdia = boxed(b"mdia", &mdia_content);
    let mut trak_content = tkhd(1, 1000, 0, 0);
    trak_content.extend(mdia);
    let trak = boxed(b"trak", &trak_content);
    let mut moov_content = mvhd(1000, 1000);
    moov_content.extend(trak);
    let moov = boxed(b"moov", &moov_content);

    let mut parser = mp4parse_parser::new();
    assert_eq!(mp4parse_error::MP4PARSE_OK, mp4parse_read(&mut parser, ReadOutcome::Bytes(moov)));
    assert_eq!(1, mp4parse_get_track_count(&parser));

    let mut info = mp4parse_track_info {
        track_type: mp4parse_track_type::MP4PARSE_TRACK_TYPE_VIDEO,
        track_id: 0,
        duration: 0,
        media_time: 0,
    };
    assert_eq!(
        mp4parse_error::MP4PARSE_ERROR_UNSUPPORTED,
        mp4parse_get_track_info(&parser, 0, &mut info)
    );
    let mut audio = mp4parse_track_audio_info { channels: 0, bit_depth: 0, sample_rate: 0 };
    assert_eq!(
        mp4parse_error::MP4PARSE_ERROR_INVALID,
        mp4parse_get_track_audio_info(&parser, 0, &mut audio)
    );
    let mut video = mp4parse_track_video_info {
        display_width: 0,
        display_height: 0,
        image_width: 0,
        image_height: 0,
    };
    assert_eq!(
        mp4parse_error::MP4PARSE_ERROR_INVALID,
        mp4parse_get_track_video_info(&parser, 0, &mut video)
    );
}

#[test]
fn arg_validation_with_data() {
    let mut parser = mp4parse_parser::new();
    assert_eq!(
        mp4parse_error::MP4PARSE_OK,
        mp4parse_read(&mut parser, ReadOutcome::Bytes(minimal_mp4()))
    );

    assert_eq!(2, mp4parse_get_track_count(&parser));

    let mut info = mp4parse_track_info {
        track_type: mp4parse_track_type::MP4PARSE_TRACK_TYPE_VIDEO,
        track_id: 0,
        duration: 0,
        media_time: 0,
    };
    assert_eq!(mp4parse_error::MP4PARSE_OK, mp4parse_get_track_info(&parser, 0, &mut info));
    assert_eq!(info.track_type, mp4parse_track_type::MP4PARSE_TRACK_TYPE_VIDEO);
    assert_eq!(info.track_id, 1);
    assert_eq!(info.duration, 40000);
    assert_eq!(info.media_time, 0);

    assert_eq!(mp4parse_error::MP4PARSE_OK, mp4parse_get_track_info(&parser, 1, &mut info));
    assert_eq!(info.track_type, mp4parse_track_type::MP4PARSE_TRACK_TYPE_AUDIO);
    assert_eq!(info.track_id, 2);
    assert_eq!(info.duration, 61333);
    assert_eq!(info.media_time, 21333);

    let mut video = mp4parse_track_video_info {
        display_width: 0,
        display_height: 0,
        image_width: 0,
        image_height: 0,
    };
    assert_eq!(mp4parse_error::MP4PARSE_OK, mp4parse_get_track_video_info(&parser, 0, &mut video));
    assert_eq!(video.display_width, 320);
    assert_eq!(video.display_height, 240);
    assert_eq!(video.image_width, 320);
    assert_eq!(video.image_height, 240);

    let mut audio = mp4parse_track_audio_info { channels: 0, bit_depth: 0, sample_rate: 0 };
    assert_eq!(mp4parse_error::MP4PARSE_OK, mp4parse_get_track_audio_info(&parser, 1, &mut audio));
    assert_eq!(audio.channels, 2);
    assert_eq!(audio.bit_depth, 16);
    assert_eq!(audio.sample_rate, 48000);

    // Test with an invalid track number.
    let mut info = mp4parse_track_info {
        track_type: mp4parse_track_type::MP4PARSE_TRACK_TYPE_VIDEO,
        track_id: 0,
        duration: 0,
        media_time: 0,
    };
    assert_eq!(
        mp4parse_error::MP4PARSE_ERROR_BADARG,
        mp4parse_get_track_info(&parser, 3, &mut info)
    );
    assert_eq!(info.track_type, mp4parse_track_type::MP4PARSE_TRACK_TYPE_VIDEO);
    assert_eq!(info.track_id, 0);
    assert_eq!(info.duration, 0);
    assert_eq!(info.media_time, 0);

    let mut video = mp4parse_track_video_info {
        display_width: 0,
        display_height: 0,
        image_width: 0,
        image_height: 0,
    };
    assert_eq!(
        mp4parse_error::MP4PARSE_ERROR_BADARG,
        mp4parse_get_track_video_info(&parser, 3, &mut video)
    );
    assert_eq!(video.display_width, 0);
    assert_eq!(video.display_height, 0);
    assert_eq!(video.image_width, 0);
    assert_eq!(video.image_height, 0);

    let mut audio = mp4parse_track_audio_info { channels: 0, bit_depth: 0, sample_rate: 0 };
    assert_eq!(
        mp4parse_error::MP4PARSE_ERROR_BADARG,
        mp4parse_get_track_audio_info(&parser, 3, &mut audio)
    );
    assert_eq!(audio.channels, 0);
    assert_eq!(audio.bit_depth, 0);
    assert_eq!(audio.sample_rate, 0);
}

#[test]
fn successful_read_after_success_is_allowed() {
    let mut parser = mp4parse_parser::new();
    assert_eq!(
        mp4parse_error::MP4PARSE_OK,
        mp4parse_read(&mut parser, ReadOutcome::Bytes(minimal_mp4()))
    );
    assert_eq!(
        mp4parse_error::MP4PARSE_OK,
        mp4parse_read(&mut parser, ReadOutcome::Bytes(minimal_mp4()))
    );
    // The context accumulates: two more tracks from the second pass.
    assert_eq!(4, mp4parse_get_track_count(&parser));
}

#[test]
fn missing_media_header_makes_track_info_invalid() {
    // A video track without an mdhd: the walk succeeds, but the track's
    // timescale and duration were never populated.
    let stbl = boxed(b"stbl", &stsd_video(640, 480));
    let minf = boxed(b"minf", &stbl);
    let mut mdia_content = hdlr(b"vide");
    mdia_content.extend(minf);
    let mdia = boxed(b"mdia", &mdia_content);
    let mut trak_content = tkhd(1, 1000, 640 << 16, 480 << 16);
    trak_content.extend(mdia);
    let trak = boxed(b"trak", &trak_content);
    let mut moov_content = mvhd(1000, 1000);
    moov_content.extend(trak);
    let moov = boxed(b"moov", &moov_content);

    let mut parser = mp4parse_parser::new();
    assert_eq!(mp4parse_error::MP4PARSE_OK, mp4parse_read(&mut parser, ReadOutcome::Bytes(moov)));
    assert_eq!(1, mp4parse_get_track_count(&parser));

    let mut info = mp4parse_track_info {
        track_type: mp4parse_track_type::MP4PARSE_TRACK_TYPE_AUDIO,
        track_id: 9,
        duration: 9,
        media_time: 9,
    };
    assert_eq!(
        mp4parse_error::MP4PARSE_ERROR_INVALID,
        mp4parse_get_track_info(&parser, 0, &mut info)
    );
    // The track kind was recognized and written; the rest is untouched.
    assert_eq!(info.track_type, mp4parse_track_type::MP4PARSE_TRACK_TYPE_VIDEO);
    assert_eq!(info.track_id, 9);
    assert_eq!(info.duration, 9);
    assert_eq!(info.media_time, 9);

    // The video query itself still works: it needs no timescale.
    let mut video = mp4parse_track_video_info {
        display_width: 0,
        display_height: 0,
        image_width: 0,
        image_height: 0,
    };
    assert_eq!(mp4parse_error::MP4PARSE_OK, mp4parse_get_track_video_info(&parser, 0, &mut video));
    assert_eq!(video.image_width, 640);
    assert_eq!(video.image_height, 480);
}

#[test]
fn fixed_point_dimensions_truncate() {
    // Display dimensions carry a fractional half pixel; the query reports
    // whole pixels.
    let stbl = boxed(b"stbl", &stsd_video(320, 240));
    let minf = boxed(b"minf", &stbl);
    let mut mdia_content = mdhd(90000, 90000);
    mdia_content.extend(hdlr(b"vide"));
    mdia_content.extend(minf);
    let mdia = boxed(b"mdia", &mdia_content);
    let mut trak_content = tkhd(1, 1000, (320 << 16) | 0x8000, (240 << 16) | 0x8000);
    trak_content.extend(mdia);
    let trak = boxed(b"trak", &trak_content);
    let mut moov_content = mvhd(1000, 1000);
    moov_content.extend(trak);
    let moov = boxed(b"moov", &moov_content);

    let mut parser = mp4parse_parser::new();
    assert_eq!(mp4parse_error::MP4PARSE_OK, mp4parse_read(&mut parser, ReadOutcome::Bytes(moov)));
    let mut video = mp4parse_track_video_info {
        display_width: 0,
        display_height: 0,
        image_width: 0,
        image_height: 0,
    };
    assert_eq!(mp4parse_error::MP4PARSE_OK, mp4parse_get_track_video_info(&parser, 0, &mut video));
    assert_eq!(video.display_width, 320);
    assert_eq!(video.display_height, 240);
}

#[test]
fn unknown_boxes_are_skipped_at_every_level() {
    // A free box before the movie box, and one between its children.
    let mut moov_content = boxed(b"free", &[1, 2, 3, 4]);
    moov_content.extend(mvhd(1000, 1000));
    let mut file = boxed(b"skip", &[9; 16]);
    file.extend(boxed(b"moov", &moov_content));
    let mut parser = mp4parse_parser::new();
    assert_eq!(mp4parse_error::MP4PARSE_OK, mp4parse_read(&mut parser, ReadOutcome::Bytes(file)));
    assert_eq!(0, mp4parse_get_track_count(&parser));
}

#[test]
fn extended_size_movie_box_is_walked() {
    // The same movie box, declared through the 64-bit extended size.
    let mvhd_box = mvhd(1000, 1000);
    let mut file: Vec<u8> = vec![0, 0, 0, 1]; // extension code
    file.extend_from_slice(b"moov");
    file.extend_from_slice(&(16 + mvhd_box.len() as u64).to_be_bytes());
    file.extend(mvhd_box);
    let mut parser = mp4parse_parser::new();
    assert_eq!(mp4parse_error::MP4PARSE_OK, mp4parse_read(&mut parser, ReadOutcome::Bytes(file)));
    assert_eq!(0, mp4parse_get_track_count(&parser));
}

#[test]
fn time_conversions_are_exact() {
    assert_eq!(track_time_to_ms(3_600_000, 90000), 40000);
    assert_eq!(track_time_to_ms(2_943_984, 48000), 61333);
    assert_eq!(track_time_to_ms(1_024_000, 48000), 21333); // truncates 21333.33…
    assert_eq!(media_time_to_ms(5000, 1000), 5000);
    assert_eq!(media_time_to_ms(999, 1000), 999);
    assert_eq!(media_time_to_ms(1, 3000), 0); // truncates 0.33…
}
