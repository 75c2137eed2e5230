//! Recursive descent over a box stream.
//!
//! The walker reads one box header at a time and dispatches on the type tag:
//! container boxes are carved out with [`limit`] and walked recursively from
//! offset 0, leaf boxes with a fixed parser are decoded and recorded into the
//! [`MediaContext`], and all other boxes are structurally skipped. End of
//! input at a box boundary terminates a level cleanly; any other error
//! aborts the whole walk.
//!
//! The spec functions [`box_step`], [`apply_box`] and [`walk_boxes`] are a
//! mathematical interpreter for the same format; each executable function is
//! proved to produce exactly the interpreter's result.

use vstd::prelude::*;

use crate::boxes::{
    header_at, lemma_header_at_bounds, limit, parse_elst, parse_ftyp, parse_hdlr, parse_mdhd,
    parse_mvhd, parse_stsd, parse_tkhd, read_box_header, read_elst, read_ftyp, read_hdlr,
    read_mdhd, read_mvhd, read_stsd, read_tkhd, skip_box_content, BoxHeader, BOX_EDTS, BOX_ELST,
    BOX_FTYP, BOX_HDLR, BOX_MDHD, BOX_MDIA, BOX_MINF, BOX_MOOV, BOX_MVHD, BOX_STBL, BOX_STSD,
    BOX_TKHD, BOX_TRAK, HANDLER_SOUN, HANDLER_VIDE,
};
use crate::context::{MediaContext, MediaContextView, Track, TrackType};
use crate::error::Error;
use crate::reader::ByteReader;

verus! {

/// What one decoded box does to the context.
///
/// Leaf boxes that describe the track currently being built (everything a
/// track box contains) require such a track to exist: the last one pushed.
/// Container boxes walk their payload; the track box pushes a fresh track
/// first. A box of any other type changes nothing.
pub open spec fn apply_box(ctx: MediaContextView, h: BoxHeader, content: Seq<u8>) -> Result<
    MediaContextView,
    Error,
>
    decreases content.len(), 2int,
{
    if h.name == BOX_FTYP {
        match parse_ftyp(h, content) {
            Ok(_) => Ok(ctx),
            Err(e) => Err(e),
        }
    } else if h.name == BOX_MOOV || h.name == BOX_EDTS || h.name == BOX_MDIA || h.name == BOX_MINF
        || h.name == BOX_STBL {
        walk_boxes(content, ctx)
    } else if h.name == BOX_TRAK {
        walk_boxes(
            content,
            MediaContextView { timescale: ctx.timescale, tracks: ctx.tracks.push(Track::spec_new()) },
        )
    } else if h.name == BOX_MVHD {
        match parse_mvhd(h, content) {
            Ok(m) => Ok(MediaContextView { timescale: Some(m.timescale), tracks: ctx.tracks }),
            Err(e) => Err(e),
        }
    } else if h.name == BOX_TKHD {
        if ctx.tracks.len() == 0 {
            Err(Error::InvalidData)
        } else {
            match parse_tkhd(h, content) {
                Ok(t) => {
                    let i = ctx.tracks.len() - 1;
                    let tr = ctx.tracks[i];
                    Ok(
                        MediaContextView {
                            timescale: ctx.timescale,
                            tracks: ctx.tracks.update(
                                i,
                                Track { track_id: Some(t.track_id), tkhd: Some(t), ..tr },
                            ),
                        },
                    )
                },
                Err(e) => Err(e),
            }
        }
    } else if h.name == BOX_ELST {
        if ctx.tracks.len() == 0 {
            Err(Error::InvalidData)
        } else {
            match parse_elst(h, content) {
                Ok(ei) => {
                    let i = ctx.tracks.len() - 1;
                    let tr = ctx.tracks[i];
                    Ok(
                        MediaContextView {
                            timescale: ctx.timescale,
                            tracks: ctx.tracks.update(
                                i,
                                Track {
                                    empty_duration: ei.empty_duration,
                                    media_time: ei.media_time,
                                    ..tr
                                },
                            ),
                        },
                    )
                },
                Err(e) => Err(e),
            }
        }
    } else if h.name == BOX_MDHD {
        if ctx.tracks.len() == 0 {
            Err(Error::InvalidData)
        } else {
            match parse_mdhd(h, content) {
                Ok(m) => {
                    let i = ctx.tracks.len() - 1;
                    let tr = ctx.tracks[i];
                    Ok(
                        MediaContextView {
                            timescale: ctx.timescale,
                            tracks: ctx.tracks.update(
                                i,
                                Track {
                                    timescale: Some(m.timescale),
                                    duration: Some(m.duration),
                                    ..tr
                                },
                            ),
                        },
                    )
                },
                Err(e) => Err(e),
            }
        }
    } else if h.name == BOX_HDLR {
        if ctx.tracks.len() == 0 {
            Err(Error::InvalidData)
        } else {
            match parse_hdlr(h, content) {
                Ok(hb) => {
                    let i = ctx.tracks.len() - 1;
                    let tr = ctx.tracks[i];
                    let tt = if hb.handler_type == HANDLER_VIDE {
                        TrackType::Video
                    } else if hb.handler_type == HANDLER_SOUN {
                        TrackType::Audio
                    } else {
                        TrackType::Unknown
                    };
                    Ok(
                        MediaContextView {
                            timescale: ctx.timescale,
                            tracks: ctx.tracks.update(i, Track { track_type: tt, ..tr }),
                        },
                    )
                },
                Err(e) => Err(e),
            }
        }
    } else if h.name == BOX_STSD {
        if ctx.tracks.len() == 0 {
            Err(Error::InvalidData)
        } else {
            let i = ctx.tracks.len() - 1;
            let tr = ctx.tracks[i];
            match parse_stsd(tr.track_type, h, content) {
                Ok(se) => Ok(
                    MediaContextView {
                        timescale: ctx.timescale,
                        tracks: ctx.tracks.update(i, Track { data: Some(se), ..tr }),
                    },
                ),
                Err(e) => Err(e),
            }
        }
    } else {
        Ok(ctx)
    }
}

/// One step of the walk at the head of `s`: the box read, the context after
/// it, and how many bytes it spanned; `Ok(None)` when `s` ends cleanly at
/// the boundary; an error when the box is malformed or truncated.
pub open spec fn box_step(s: Seq<u8>, ctx: MediaContextView) -> Result<
    Option<(u32, MediaContextView, int)>,
    Error,
>
    decreases s.len(), 0int,
{
    match header_at(s) {
        Err(Error::UnexpectedEOF) => Ok(None),
        Err(e) => Err(e),
        Ok(h) => {
            if h.size > s.len() || h.offset > h.size || h.offset < 8 {
                Err(Error::UnexpectedEOF)
            } else {
                let content = s.subrange(h.offset as int, h.size as int);
                match apply_box(ctx, h, content) {
                    Ok(c2) => Ok(Some((h.name, c2, h.size as int))),
                    Err(e) => Err(e),
                }
            }
        },
    }
}

/// The context after walking every box in `s`, starting from `ctx`.
///
/// The single step is restated here rather than delegated to [`box_step`],
/// so that the bound `size >= 8` that makes the recursion well-founded is
/// visible in the branch conditions; [`lemma_walk_step`] ties the two forms
/// together.
pub open spec fn walk_boxes(s: Seq<u8>, ctx: MediaContextView) -> Result<MediaContextView, Error>
    decreases s.len(), 1int,
{
    match header_at(s) {
        Err(Error::UnexpectedEOF) => Ok(ctx),
        Err(e) => Err(e),
        Ok(h) => {
            if h.size > s.len() || h.offset > h.size || h.offset < 8 {
                Err(Error::UnexpectedEOF)
            } else {
                let content = s.subrange(h.offset as int, h.size as int);
                match apply_box(ctx, h, content) {
                    Ok(c2) => walk_boxes(s.skip(h.size as int), c2),
                    Err(e) => Err(e),
                }
            }
        },
    }
}

/// A step that reads a box spans that box's declared size: at least the
/// 8-byte header, and no more than the stream holds.
pub proof fn lemma_box_step_used(s: Seq<u8>, ctx: MediaContextView)
    ensures
        box_step(s, ctx) matches Ok(Some((name, c2, used))) ==> 8 <= used <= s.len(),
{
    lemma_header_at_bounds(s);
}

/// Walking a stream is one [`box_step`] followed by walking the rest.
pub proof fn lemma_walk_step(s: Seq<u8>, ctx: MediaContextView)
    ensures
        walk_boxes(s, ctx) == (match box_step(s, ctx) {
            Ok(None) => Ok::<MediaContextView, Error>(ctx),
            Ok(Some((name, c2, used))) => walk_boxes(s.skip(used), c2),
            Err(e) => Err::<MediaContextView, Error>(e),
        }),
{
}

/// Whether a top-level movie box starts at some box boundary of `s`.
pub open spec fn has_top_moov(s: Seq<u8>) -> bool
    decreases s.len(),
{
    match header_at(s) {
        Err(_) => false,
        Ok(h) => if h.size < 8 || h.size > s.len() {
            false
        } else {
            h.name == BOX_MOOV || has_top_moov(s.skip(h.size as int))
        },
    }
}

/// Read one box, including sub boxes, and record what it describes into the
/// context. Returns the type tag of the box read, or `None` when the stream
/// ended cleanly at the box boundary.
#[verifier::rlimit(100)]
pub fn read_box(f: &mut ByteReader, context: &mut MediaContext) -> (r: Result<Option<u32>, Error>)
    requires
        old(f).wf(),
    ensures
        final(f).wf(),
        final(f).bytes() == old(f).bytes(),
        old(f).position() <= final(f).position(),
        match box_step(old(f).suffix(), old(context)@) {
            Ok(step) => match step {
                Some((name, c2, used)) => r == Ok::<Option<u32>, Error>(Some(name))
                    && final(context)@ == c2
                    && final(f).position() == old(f).position() + used,
                None => r == Ok::<Option<u32>, Error>(None) && *final(context) == *old(context),
            },
            Err(e) => r matches Err(e2) && e2 == e,
        },
    decreases old(f).remaining(), 0int,
{
    let ghost s = old(f).suffix();
    let ghost ctx0 = old(context)@;
    let h = match read_box_header(f) {
        Ok(h) => h,
        Err(e) => {
            match e {
                Error::UnexpectedEOF => {
                    return Ok(None);
                },
                _ => {
                    return Err(e);
                },
            }
        },
    };
    proof {
        lemma_header_at_bounds(s);
    }
    let content_len = h.size - h.offset;
    if content_len > f.remaining_len() as u64 {
        return Err(Error::UnexpectedEOF);
    }
    let ghost content_spec = s.subrange(h.offset as int, h.size as int);
    proof {
        assert(f.suffix() =~= s.skip(h.offset as int));
        assert(f.suffix().take(h.size - h.offset) =~= content_spec);
    }
    if h.name == BOX_FTYP {
        let mut content = match limit(f, &h) {
            Ok(c) => c,
            Err(_) => {
                proof {
                    assert(false);
                }
                return Err(Error::UnexpectedEOF);
            },
        };
        proof {
            assert(content.suffix() =~= content_spec);
        }
        match read_ftyp(&mut content, &h) {
            Ok(_box) => (),
            Err(e) => {
                return Err(e);
            },
        }
    } else if h.name == BOX_MOOV || h.name == BOX_EDTS || h.name == BOX_MDIA || h.name == BOX_MINF
        || h.name == BOX_STBL {
        match recurse(f, &h, context) {
            Ok(()) => (),
            Err(e) => {
                return Err(e);
            },
        }
    } else if h.name == BOX_TRAK {
        context.tracks.push(Track::new());
        proof {
            assert(context@.tracks =~= ctx0.tracks.push(Track::spec_new()));
        }
        match recurse(f, &h, context) {
            Ok(()) => (),
            Err(e) => {
                return Err(e);
            },
        }
    } else if h.name == BOX_MVHD {
        let mut content = match limit(f, &h) {
            Ok(c) => c,
            Err(_) => {
                proof {
                    assert(false);
                }
                return Err(Error::UnexpectedEOF);
            },
        };
        proof {
            assert(content.suffix() =~= content_spec);
        }
        let m = match read_mvhd(&mut content, &h) {
            Ok(m) => m,
            Err(e) => {
                return Err(e);
            },
        };
        context.timescale = Some(m.timescale);
    } else if h.name == BOX_TKHD {
        if context.tracks.len() == 0 {
            return Err(Error::InvalidData);
        }
        let mut content = match limit(f, &h) {
            Ok(c) => c,
            Err(_) => {
                proof {
                    assert(false);
                }
                return Err(Error::UnexpectedEOF);
            },
        };
        proof {
            assert(content.suffix() =~= content_spec);
        }
        let t = match read_tkhd(&mut content, &h) {
            Ok(t) => t,
            Err(e) => {
                return Err(e);
            },
        };
        let ghost n = context.tracks@.len();
        let mut tr = match context.tracks.pop() {
            Some(x) => x,
            None => {
                proof {
                    assert(false);
                }
                return Err(Error::InvalidData);
            },
        };
        tr.track_id = Some(t.track_id);
        tr.tkhd = Some(t);
        context.tracks.push(tr);
        proof {
            assert(context@.tracks =~= ctx0.tracks.update(n - 1, tr));
        }
    } else if h.name == BOX_ELST {
        if context.tracks.len() == 0 {
            return Err(Error::InvalidData);
        }
        let mut content = match limit(f, &h) {
            Ok(c) => c,
            Err(_) => {
                proof {
                    assert(false);
                }
                return Err(Error::UnexpectedEOF);
            },
        };
        proof {
            assert(content.suffix() =~= content_spec);
        }
        let ei = match read_elst(&mut content, &h) {
            Ok(ei) => ei,
            Err(e) => {
                return Err(e);
            },
        };
        let ghost n = context.tracks@.len();
        let mut tr = match context.tracks.pop() {
            Some(x) => x,
            None => {
                proof {
                    assert(false);
                }
                return Err(Error::InvalidData);
            },
        };
        tr.empty_duration = ei.empty_duration;
        tr.media_time = ei.media_time;
        context.tracks.push(tr);
        proof {
            assert(context@.tracks =~= ctx0.tracks.update(n - 1, tr));
        }
    } else if h.name == BOX_MDHD {
        if context.tracks.len() == 0 {
            return Err(Error::InvalidData);
        }
        let mut content = match limit(f, &h) {
            Ok(c) => c,
            Err(_) => {
                proof {
                    assert(false);
                }
                return Err(Error::UnexpectedEOF);
            },
        };
        proof {
            assert(content.suffix() =~= content_spec);
        }
        let m = match read_mdhd(&mut content, &h) {
            Ok(m) => m,
            Err(e) => {
                return Err(e);
            },
        };
        let ghost n = context.tracks@.len();
        let mut tr = match context.tracks.pop() {
            Some(x) => x,
            None => {
                proof {
                    assert(false);
                }
                return Err(Error::InvalidData);
            },
        };
        tr.timescale = Some(m.timescale);
        tr.duration = Some(m.duration);
        context.tracks.push(tr);
        proof {
            assert(context@.tracks =~= ctx0.tracks.update(n - 1, tr));
        }
    } else if h.name == BOX_HDLR {
        if context.tracks.len() == 0 {
            return Err(Error::InvalidData);
        }
        let mut content = match limit(f, &h) {
            Ok(c) => c,
            Err(_) => {
                proof {
                    assert(false);
                }
                return Err(Error::UnexpectedEOF);
            },
        };
        proof {
            assert(content.suffix() =~= content_spec);
        }
        let hb = match read_hdlr(&mut content, &h) {
            Ok(hb) => hb,
            Err(e) => {
                return Err(e);
            },
        };
        let tt = if hb.handler_type == HANDLER_VIDE {
            TrackType::Video
        } else if hb.handler_type == HANDLER_SOUN {
            TrackType::Audio
        } else {
            TrackType::Unknown
        };
        let ghost n = context.tracks@.len();
        let mut tr = match context.tracks.pop() {
            Some(x) => x,
            None => {
                proof {
                    assert(false);
                }
                return Err(Error::InvalidData);
            },
        };
        tr.track_type = tt;
        context.tracks.push(tr);
        proof {
            assert(context@.tracks =~= ctx0.tracks.update(n - 1, tr));
        }
    } else if h.name == BOX_STSD {
        if context.tracks.len() == 0 {
            return Err(Error::InvalidData);
        }
        let track_type = context.tracks[context.tracks.len() - 1].track_type;
        let mut content = match limit(f, &h) {
            Ok(c) => c,
            Err(_) => {
                proof {
                    assert(false);
                }
                return Err(Error::UnexpectedEOF);
            },
        };
        proof {
            assert(content.suffix() =~= content_spec);
        }
        let se = match read_stsd(&mut content, &h, track_type) {
            Ok(se) => se,
            Err(e) => {
                return Err(e);
            },
        };
        let ghost n = context.tracks@.len();
        let mut tr = match context.tracks.pop() {
            Some(x) => x,
            None => {
                proof {
                    assert(false);
                }
                return Err(Error::InvalidData);
            },
        };
        tr.data = Some(se);
        context.tracks.push(tr);
        proof {
            assert(context@.tracks =~= ctx0.tracks.update(n - 1, tr));
        }
    } else {
        // Skip the contents of unknown boxes.
        match skip_box_content(f, &h) {
            Ok(_) => (),
            Err(_) => {
                proof {
                    assert(false);
                }
                return Err(Error::UnexpectedEOF);
            },
        }
    }
    proof {
        assert(apply_box(ctx0, h, content_spec) == Ok::<MediaContextView, Error>(context@));
    }
    Ok(Some(h.name))
}

/// Walk the contents of a container box in an independent, bounded stream.
fn recurse(f: &mut ByteReader, h: &BoxHeader, context: &mut MediaContext) -> (r: Result<(), Error>)
    requires
        old(f).wf(),
        h.offset <= h.size,
        h.size - h.offset <= old(f).remaining(),
    ensures
        final(f).wf(),
        final(f).bytes() == old(f).bytes(),
        final(f).position() == old(f).position() + (h.size - h.offset),
        match walk_boxes(old(f).suffix().take(h.size - h.offset), old(context)@) {
            Ok(c2) => r == Ok::<(), Error>(()) && final(context)@ == c2,
            Err(e) => r matches Err(e2) && e2 == e,
        },
    decreases old(f).remaining(), 1int,
{
    let ghost content_spec = old(f).suffix().take(h.size - h.offset);
    let ghost ctx0 = old(context)@;
    let mut content = match limit(f, h) {
        Ok(c) => c,
        Err(_) => {
            proof {
                assert(false);
            }
            return Err(Error::UnexpectedEOF);
        },
    };
    proof {
        assert(content.suffix() =~= content_spec);
    }
    loop
        invariant
            content.wf(),
            content.bytes() == content_spec,
            content.bytes().len() <= old(f).remaining(),
            f.wf(),
            f.bytes() == old(f).bytes(),
            f.position() == old(f).position() + (h.size - h.offset),
            content_spec == old(f).suffix().take(h.size - h.offset),
            ctx0 == old(context)@,
            walk_boxes(content_spec, ctx0) == walk_boxes(content.suffix(), context@),
        decreases content.remaining(),
    {
        let ghost pre_suffix = content.suffix();
        let ghost pre_ctx = context@;
        match read_box(&mut content, context) {
            Ok(Some(_name)) => {
                proof {
                    lemma_box_step_used(pre_suffix, pre_ctx);
                    lemma_walk_step(pre_suffix, pre_ctx);
                    match box_step(pre_suffix, pre_ctx) {
                        Ok(Some((nm, c2, used))) => {
                            assert(content.suffix() =~= pre_suffix.skip(used));
                        },
                        _ => {
                            assert(false);
                        },
                    }
                }
            },
            Ok(None) => {
                proof {
                    lemma_walk_step(pre_suffix, pre_ctx);
                }
                return Ok(());
            },
            Err(e) => {
                proof {
                    lemma_walk_step(pre_suffix, pre_ctx);
                }
                return Err(e);
            },
        }
    }
}

/// Read boxes until the stream is exhausted, recording what they describe
/// into the context. A stream without a top-level movie box is invalid.
pub fn read_mp4(f: &mut ByteReader, context: &mut MediaContext) -> (r: Result<(), Error>)
    requires
        old(f).wf(),
    ensures
        final(f).wf(),
        final(f).bytes() == old(f).bytes(),
        old(f).position() <= final(f).position(),
        match walk_boxes(old(f).suffix(), old(context)@) {
            Ok(c2) => final(context)@ == c2 && r == (if has_top_moov(old(f).suffix()) {
                Ok::<(), Error>(())
            } else {
                Err::<(), Error>(Error::NoMoov)
            }),
            Err(e) => r matches Err(e2) && e2 == e,
        },
{
    let ghost s0 = old(f).suffix();
    let ghost ctx0 = old(context)@;
    let mut found_moov = false;
    loop
        invariant
            f.wf(),
            f.bytes() == old(f).bytes(),
            old(f).position() <= f.position(),
            s0 == old(f).suffix(),
            ctx0 == old(context)@,
            walk_boxes(s0, ctx0) == walk_boxes(f.suffix(), context@),
            has_top_moov(s0) == (found_moov || has_top_moov(f.suffix())),
        decreases f.remaining(),
    {
        let ghost pre_suffix = f.suffix();
        let ghost pre_ctx = context@;
        match read_box(f, context) {
            Ok(Some(name)) => {
                proof {
                    lemma_box_step_used(pre_suffix, pre_ctx);
                    lemma_walk_step(pre_suffix, pre_ctx);
                    match box_step(pre_suffix, pre_ctx) {
                        Ok(Some((nm, c2, used))) => {
                            assert(f.suffix() =~= pre_suffix.skip(used));
                        },
                        _ => {
                            assert(false);
                        },
                    }
                }
                if name == BOX_MOOV {
                    found_moov = true;
                }
            },
            Ok(None) => {
                proof {
                    lemma_walk_step(pre_suffix, pre_ctx);
                }
                if found_moov {
                    return Ok(());
                } else {
                    return Err(Error::NoMoov);
                }
            },
            Err(e) => {
                proof {
                    lemma_walk_step(pre_suffix, pre_ctx);
                }
                return Err(e);
            },
        }
    }
}

} // verus!
