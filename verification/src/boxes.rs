//! The box header codec and the fixed-box parsers.
//!
//! A box is a length-prefixed record: a 32-bit size, a four-character type
//! tag, an optional 64-bit extended size, then the payload. Each parser here
//! is specified against a spec-level parse function over the raw byte
//! sequence, so a caller knows exactly which field of the input each output
//! value came from.

use vstd::prelude::*;

use crate::context::{AudioSampleEntry, SampleEntry, TrackType, VideoSampleEntry};
use crate::error::Error;
use crate::reader::{
    be_u16_at, be_u32_at, be_u64_at, lemma_be_u16_skip, lemma_be_u32_skip, lemma_be_u64_skip,
    ByteReader,
};

verus! {

/// Type tag of the file-type box.
pub const BOX_FTYP: u32 = 0x66747970;

/// Type tag of the movie (container) box.
pub const BOX_MOOV: u32 = 0x6d6f6f76;

/// Type tag of the movie-header box.
pub const BOX_MVHD: u32 = 0x6d766864;

/// Type tag of the track (container) box.
pub const BOX_TRAK: u32 = 0x7472616b;

/// Type tag of the track-header box.
pub const BOX_TKHD: u32 = 0x746b6864;

/// Type tag of the edit (container) box.
pub const BOX_EDTS: u32 = 0x65647473;

/// Type tag of the edit-list box.
pub const BOX_ELST: u32 = 0x656c7374;

/// Type tag of the media (container) box.
pub const BOX_MDIA: u32 = 0x6d646961;

/// Type tag of the media-header box.
pub const BOX_MDHD: u32 = 0x6d646864;

/// Type tag of the handler box.
pub const BOX_HDLR: u32 = 0x68646c72;

/// Type tag of the media-information (container) box.
pub const BOX_MINF: u32 = 0x6d696e66;

/// Type tag of the sample-table (container) box.
pub const BOX_STBL: u32 = 0x7374626c;

/// Type tag of the sample-description box.
pub const BOX_STSD: u32 = 0x73747364;

/// Handler type of a video track.
pub const HANDLER_VIDE: u32 = 0x76696465;

/// Handler type of an audio track.
pub const HANDLER_SOUN: u32 = 0x736f756e;

/// File type box `ftyp`.
pub struct FileTypeBox {
    /// Four character box type.
    pub name: u32,
    /// Size of the box in bytes.
    pub size: u64,
    /// Brand the file conforms to best.
    pub major_brand: u32,
    /// Informative version of the major brand.
    pub minor_version: u32,
    /// Brands the file is compatible with, in file order.
    pub compatible_brands: Vec<u32>,
}

/// Mathematical model of a [`FileTypeBox`].
pub struct FileTypeBoxView {
    /// Four character box type.
    pub name: u32,
    /// Size of the box in bytes.
    pub size: u64,
    /// Brand the file conforms to best.
    pub major_brand: u32,
    /// Informative version of the major brand.
    pub minor_version: u32,
    /// Brands the file is compatible with, in file order.
    pub compatible_brands: Seq<u32>,
}

impl View for FileTypeBox {
    type V = FileTypeBoxView;

    open spec fn view(&self) -> FileTypeBoxView {
        FileTypeBoxView {
            name: self.name,
            size: self.size,
            major_brand: self.major_brand,
            minor_version: self.minor_version,
            compatible_brands: self.compatible_brands@,
        }
    }
}

/// Movie header box `mvhd`.
#[derive(Clone, Copy, Debug, PartialEq, Eq, Structural)]
pub struct MovieHeaderBox {
    /// Four character box type.
    pub name: u32,
    /// Size of the box in bytes.
    pub size: u64,
    /// Ticks per second for the whole movie.
    pub timescale: u32,
    /// Movie duration in movie ticks.
    pub duration: u64,
}

/// Track header box `tkhd`.
#[derive(Clone, Copy, Debug, PartialEq, Eq, Structural)]
pub struct TrackHeaderBox {
    /// Four character box type.
    pub name: u32,
    /// Size of the box in bytes.
    pub size: u64,
    /// Track id.
    pub track_id: u32,
    /// Whether both of the two lowest flag bits are set.
    pub enabled: bool,
    /// Track duration in movie ticks.
    pub duration: u64,
    /// Display width in 16.16 fixed point.
    pub width: u32,
    /// Display height in 16.16 fixed point.
    pub height: u32,
}

/// Media header box `mdhd`.
#[derive(Clone, Copy, Debug, PartialEq, Eq, Structural)]
pub struct MediaHeaderBox {
    /// Four character box type.
    pub name: u32,
    /// Size of the box in bytes.
    pub size: u64,
    /// Ticks per second for this track's media.
    pub timescale: u32,
    /// Media duration in media ticks.
    pub duration: u64,
}

/// Handler box `hdlr`.
#[derive(Clone, Copy, Debug, PartialEq, Eq, Structural)]
pub struct HandlerBox {
    /// Four character box type.
    pub name: u32,
    /// Size of the box in bytes.
    pub size: u64,
    /// Four character handler type.
    pub handler_type: u32,
}

/// What an edit list box `elst` contributes to a track: the duration of a
/// leading empty edit, and the media start time of the first real edit.
#[derive(Clone, Copy, Debug, PartialEq, Eq, Structural)]
pub struct EditInfo {
    /// Duration of a leading empty edit, in movie ticks.
    pub empty_duration: Option<u64>,
    /// Media start time of the first real edit, in media ticks.
    pub media_time: Option<u64>,
}

/// Basic ISO box structure.
#[derive(Clone, Copy, Debug, PartialEq, Eq, Structural)]
pub struct BoxHeader {
    /// Four character box type.
    pub name: u32,
    /// Size of the box in bytes, header included.
    pub size: u64,
    /// Offset to the start of the contained data (or header size).
    pub offset: u64,
}

/// The box header denoted by the start of `s`, or why there is none.
///
/// The size field `1` selects the 64-bit extended size, which makes the
/// header 16 bytes instead of 8. A size too small to cover the header itself
/// is structurally invalid; a truncated header signals end of input.
pub open spec fn header_at(s: Seq<u8>) -> Result<BoxHeader, Error> {
    if s.len() < 8 {
        Err(Error::UnexpectedEOF)
    } else {
        let size32 = be_u32_at(s, 0);
        let name = be_u32_at(s, 4);
        if size32 == 1 {
            if s.len() < 16 {
                Err(Error::UnexpectedEOF)
            } else {
                let size = be_u64_at(s, 8);
                if size < 16 {
                    Err(Error::InvalidData)
                } else {
                    Ok(BoxHeader { name, size, offset: 16 })
                }
            }
        } else {
            if size32 < 8 {
                Err(Error::InvalidData)
            } else {
                Ok(BoxHeader { name, size: size32 as u64, offset: 8 })
            }
        }
    }
}

/// Every header the codec accepts covers its own bytes: the payload offset
/// never exceeds the declared size, the size is at least 8, and at least 16
/// when the extended-size form was used.
pub proof fn lemma_header_at_bounds(s: Seq<u8>)
    ensures
        header_at(s) matches Ok(h) ==> {
            &&& h.offset <= h.size
            &&& h.size >= 8
            &&& (h.offset == 8 || h.offset == 16)
            &&& (h.offset == 16 ==> h.size >= 16)
        },
{
}

/// Parse a box header out of a byte stream.
pub fn read_box_header(src: &mut ByteReader) -> (r: Result<BoxHeader, Error>)
    requires
        old(src).wf(),
    ensures
        final(src).wf(),
        final(src).bytes() == old(src).bytes(),
        old(src).position() <= final(src).position(),
        match header_at(old(src).suffix()) {
            Ok(h) => r == Ok::<BoxHeader, Error>(h) && final(src).position() == old(src).position()
                + h.offset,
            Err(e) => r == Err::<BoxHeader, Error>(e),
        },
        r matches Ok(h) ==> {
            &&& h.offset <= h.size
            &&& h.size >= 8
            &&& (h.offset == 16 ==> h.size >= 16)
        },
{
    let tmp_size = match src.read_u32() {
        Ok(v) => v,
        Err(e) => {
            return Err(e);
        },
    };
    let name = match src.read_u32() {
        Ok(v) => v,
        Err(e) => {
            return Err(e);
        },
    };
    proof {
        lemma_be_u32_skip(old(src).bytes(), old(src).position(), 0);
        lemma_be_u32_skip(old(src).bytes(), old(src).position(), 4);
    }
    if tmp_size == 1 {
        let size = match src.read_u64() {
            Ok(v) => v,
            Err(e) => {
                return Err(e);
            },
        };
        proof {
            lemma_be_u64_skip(old(src).bytes(), old(src).position(), 8);
        }
        if size < 16 {
            return Err(Error::InvalidData);
        }
        Ok(BoxHeader { name, size, offset: 16 })
    } else {
        if tmp_size < 8 {
            return Err(Error::InvalidData);
        }
        Ok(BoxHeader { name, size: tmp_size as u64, offset: 8 })
    }
}

/// Skip over the contents of a box.
///
/// Consumes exactly `header.size - header.offset` bytes, leaving the stream
/// positioned at the next sibling header, and reports how many bytes were
/// skipped; a stream too short for the declared size is left untouched.
pub fn skip_box_content(src: &mut ByteReader, header: &BoxHeader) -> (r: Result<usize, Error>)
    requires
        old(src).wf(),
        header.offset <= header.size,
    ensures
        final(src).wf(),
        final(src).bytes() == old(src).bytes(),
        header.size - header.offset <= old(src).remaining() ==> r == Ok::<usize, Error>(
            (header.size - header.offset) as usize,
        ) && final(src).position() == old(src).position() + (header.size - header.offset),
        header.size - header.offset > old(src).remaining() ==> r == Err::<usize, Error>(
            Error::UnexpectedEOF,
        ) && *final(src) == *old(src),
{
    let n = header.size - header.offset;
    if n > src.remaining_len() as u64 {
        return Err(Error::UnexpectedEOF);
    }
    let bytes_to_skip = n as usize;
    match src.skip_bytes(bytes_to_skip) {
        Ok(()) => Ok(bytes_to_skip),
        Err(e) => Err(e),
    }
}

/// Carve out the contents of a box as an independent stream.
///
/// Consumes the `header.size - header.offset` payload bytes from `src` and
/// hands them back as a fresh reader positioned at offset 0, so that descent
/// into the box cannot read past the box's own boundary.
pub fn limit(src: &mut ByteReader, header: &BoxHeader) -> (r: Result<ByteReader, Error>)
    requires
        old(src).wf(),
        header.offset <= header.size,
    ensures
        final(src).wf(),
        final(src).bytes() == old(src).bytes(),
        header.size - header.offset <= old(src).remaining() ==> match r {
            Ok(c) => {
                &&& c.wf()
                &&& c.position() == 0
                &&& c.bytes() == old(src).suffix().take(header.size - header.offset)
                &&& final(src).position() == old(src).position() + (header.size - header.offset)
            },
            Err(_) => false,
        },
        header.size - header.offset > old(src).remaining() ==> r == Err::<ByteReader, Error>(
            Error::UnexpectedEOF,
        ) && *final(src) == *old(src),
{
    let n = header.size - header.offset;
    if n > src.remaining_len() as u64 {
        return Err(Error::UnexpectedEOF);
    }
    let content = match src.read_bytes(n as usize) {
        Ok(v) => v,
        Err(e) => {
            return Err(e);
        },
    };
    let c = ByteReader::new(content);
    proof {
        assert(c.bytes() =~= old(src).suffix().take(header.size - header.offset));
    }
    Ok(c)
}

/// The 24-bit flags field of a full box whose payload starts `s`.
pub open spec fn fullbox_flags(s: Seq<u8>) -> u32 {
    (s[1] * 0x1_0000 + s[2] * 0x100 + s[3]) as u32
}

/// Parse the version and flags prefix of a full box.
fn read_fullbox_extra(src: &mut ByteReader) -> (r: Result<(u8, u32), Error>)
    requires
        old(src).wf(),
    ensures
        final(src).wf(),
        final(src).bytes() == old(src).bytes(),
        old(src).position() <= final(src).position(),
        old(src).remaining() >= 4 ==> r == Ok::<(u8, u32), Error>(
            (old(src).suffix()[0], fullbox_flags(old(src).suffix())),
        ) && final(src).position() == old(src).position() + 4,
        old(src).remaining() < 4 ==> r == Err::<(u8, u32), Error>(Error::UnexpectedEOF),
{
    let version = match src.read_u8() {
        Ok(v) => v,
        Err(e) => {
            return Err(e);
        },
    };
    let flags_a = match src.read_u8() {
        Ok(v) => v,
        Err(e) => {
            return Err(e);
        },
    };
    let flags_b = match src.read_u8() {
        Ok(v) => v,
        Err(e) => {
            return Err(e);
        },
    };
    let flags_c = match src.read_u8() {
        Ok(v) => v,
        Err(e) => {
            return Err(e);
        },
    };
    Ok((version, (flags_a as u32) * 0x1_0000 + (flags_b as u32) * 0x100 + (flags_c as u32)))
}

/// The file-type box denoted by a header and the payload bytes `s`.
///
/// The compatible-brand count is what the declared size leaves after the
/// major brand and minor version; a remainder that is not a whole number of
/// brands is structurally invalid.
pub open spec fn parse_ftyp(head: BoxHeader, s: Seq<u8>) -> Result<FileTypeBoxView, Error> {
    if head.offset + 8 > head.size {
        Err(Error::InvalidData)
    } else if (head.size - head.offset - 8) % 4 != 0 {
        Err(Error::InvalidData)
    } else {
        let count = (head.size - head.offset - 8) / 4;
        if s.len() < 8 + 4 * count {
            Err(Error::UnexpectedEOF)
        } else {
            Ok(
                FileTypeBoxView {
                    name: head.name,
                    size: head.size,
                    major_brand: be_u32_at(s, 0),
                    minor_version: be_u32_at(s, 4),
                    compatible_brands: Seq::new(count as nat, |i: int| be_u32_at(s, 8 + 4 * i)),
                },
            )
        }
    }
}

/// Parse an ftyp box.
pub fn read_ftyp(src: &mut ByteReader, head: &BoxHeader) -> (r: Result<FileTypeBox, Error>)
    requires
        old(src).wf(),
    ensures
        final(src).wf(),
        final(src).bytes() == old(src).bytes(),
        old(src).position() <= final(src).position(),
        match parse_ftyp(*head, old(src).suffix()) {
            Ok(v) => r matches Ok(b) && b@ == v && final(src).position() == old(src).position() + 8
                + 4 * ((head.size - head.offset - 8) / 4),
            Err(e) => r matches Err(e2) && e == e2,
        },
{
    if head.size < 8 || head.offset > head.size - 8 {
        return Err(Error::InvalidData);
    }
    let brands_bytes = head.size - head.offset - 8;
    if brands_bytes % 4 != 0 {
        return Err(Error::InvalidData);
    }
    let count = brands_bytes / 4;
    let major = match src.read_u32() {
        Ok(v) => v,
        Err(e) => {
            return Err(e);
        },
    };
    let minor = match src.read_u32() {
        Ok(v) => v,
        Err(e) => {
            return Err(e);
        },
    };
    proof {
        lemma_be_u32_skip(old(src).bytes(), old(src).position(), 0);
        lemma_be_u32_skip(old(src).bytes(), old(src).position(), 4);
    }
    if (src.remaining_len() as u64) < brands_bytes {
        return Err(Error::UnexpectedEOF);
    }
    let mut brands: Vec<u32> = Vec::new();
    let mut i: u64 = 0;
    while i < count
        invariant
            old(src).wf(),
            src.wf(),
            src.bytes() == old(src).bytes(),
            i <= count,
            4 * count <= old(src).remaining() - 8,
            src.position() == old(src).position() + 8 + 4 * i,
            brands@.len() == i,
            forall|j: int| 0 <= j < i ==> brands@[j] == be_u32_at(old(src).suffix(), 8 + 4 * j),
        decreases count - i,
    {
        let b = match src.read_u32() {
            Ok(v) => v,
            Err(_) => {
                proof {
                    assert(false);
                }
                return Err(Error::UnexpectedEOF);
            },
        };
        proof {
            lemma_be_u32_skip(old(src).bytes(), old(src).position(), 8 + 4 * i as int);
        }
        brands.push(b);
        i = i + 1;
    }
    let b = FileTypeBox {
        name: head.name,
        size: head.size,
        major_brand: major,
        minor_version: minor,
        compatible_brands: brands,
    };
    proof {
        assert(b@.compatible_brands =~= Seq::new(
            (((head.size - head.offset - 8) / 4) as nat),
            |j: int| be_u32_at(old(src).suffix(), 8 + 4 * j),
        ));
    }
    Ok(b)
}

/// The movie-header box denoted by a header and the payload bytes `s`.
///
/// Version 1 uses 64-bit timestamps and duration, version 0 uses 32-bit
/// ones, and any other version is structurally invalid. An 80-byte trailer
/// (rate, volume, matrix, reserved fields) must be present but is skipped
/// without interpretation.
pub open spec fn parse_mvhd(head: BoxHeader, s: Seq<u8>) -> Result<MovieHeaderBox, Error> {
    if s.len() < 4 {
        Err(Error::UnexpectedEOF)
    } else if s[0] == 1 {
        if s.len() < 112 {
            Err(Error::UnexpectedEOF)
        } else {
            Ok(
                MovieHeaderBox {
                    name: head.name,
                    size: head.size,
                    timescale: be_u32_at(s, 20),
                    duration: be_u64_at(s, 24),
                },
            )
        }
    } else if s[0] == 0 {
        if s.len() < 100 {
            Err(Error::UnexpectedEOF)
        } else {
            Ok(
                MovieHeaderBox {
                    name: head.name,
                    size: head.size,
                    timescale: be_u32_at(s, 12),
                    duration: be_u32_at(s, 16) as u64,
                },
            )
        }
    } else {
        Err(Error::InvalidData)
    }
}

/// Parse an mvhd box.
pub fn read_mvhd(src: &mut ByteReader, head: &BoxHeader) -> (r: Result<MovieHeaderBox, Error>)
    requires
        old(src).wf(),
    ensures
        final(src).wf(),
        final(src).bytes() == old(src).bytes(),
        old(src).position() <= final(src).position(),
        match parse_mvhd(*head, old(src).suffix()) {
            Ok(b) => r == Ok::<MovieHeaderBox, Error>(b) && final(src).position() == old(
                src,
            ).position() + (if old(src).suffix()[0] == 1 {
                112int
            } else {
                100int
            }),
            Err(e) => r matches Err(e2) && e == e2,
        },
{
    let (version, _flags) = match read_fullbox_extra(src) {
        Ok(v) => v,
        Err(e) => {
            return Err(e);
        },
    };
    let creation_modification = if version == 1 {
        16
    } else if version == 0 {
        8
    } else {
        return Err(Error::InvalidData);
    };
    match src.skip_bytes(creation_modification) {
        Ok(()) => (),
        Err(e) => {
            return Err(e);
        },
    }
    let timescale = match src.read_u32() {
        Ok(v) => v,
        Err(e) => {
            return Err(e);
        },
    };
    let duration = if version == 1 {
        match src.read_u64() {
            Ok(v) => v,
            Err(e) => {
                return Err(e);
            },
        }
    } else {
        let d = match src.read_u32() {
            Ok(v) => v,
            Err(e) => {
                return Err(e);
            },
        };
        d as u64
    };
    match src.skip_bytes(80) {
        Ok(()) => (),
        Err(e) => {
            return Err(e);
        },
    }
    proof {
        if old(src).suffix()[0] == 1 {
            lemma_be_u32_skip(old(src).bytes(), old(src).position(), 20);
            lemma_be_u64_skip(old(src).bytes(), old(src).position(), 24);
        } else {
            lemma_be_u32_skip(old(src).bytes(), old(src).position(), 12);
            lemma_be_u32_skip(old(src).bytes(), old(src).position(), 16);
        }
    }
    Ok(MovieHeaderBox { name: head.name, size: head.size, timescale, duration })
}

/// Whether the two lowest bits of a track header's flags are both set.
///
/// A track is reported enabled only when bit 0 and bit 1 are both set;
/// this deliberately preserves the decoder's historical two-bit test.
pub open spec fn tkhd_enabled(flags: u32) -> bool {
    flags % 2 == 1 && (flags / 2) % 2 == 1
}

/// The track-header box denoted by a header and the payload bytes `s`.
///
/// The same version rule as the movie header applies. The reserved 32-bit
/// field after the track id must be zero, or the input is rejected.
pub open spec fn parse_tkhd(head: BoxHeader, s: Seq<u8>) -> Result<TrackHeaderBox, Error> {
    if s.len() < 4 {
        Err(Error::UnexpectedEOF)
    } else if s[0] == 1 {
        if s.len() < 28 {
            Err(Error::UnexpectedEOF)
        } else if be_u32_at(s, 24) != 0 {
            Err(Error::InvalidData)
        } else if s.len() < 96 {
            Err(Error::UnexpectedEOF)
        } else {
            Ok(
                TrackHeaderBox {
                    name: head.name,
                    size: head.size,
                    track_id: be_u32_at(s, 20),
                    enabled: tkhd_enabled(fullbox_flags(s)),
                    duration: be_u64_at(s, 28),
                    width: be_u32_at(s, 88),
                    height: be_u32_at(s, 92),
                },
            )
        }
    } else if s[0] == 0 {
        if s.len() < 20 {
            Err(Error::UnexpectedEOF)
        } else if be_u32_at(s, 16) != 0 {
            Err(Error::InvalidData)
        } else if s.len() < 84 {
            Err(Error::UnexpectedEOF)
        } else {
            Ok(
                TrackHeaderBox {
                    name: head.name,
                    size: head.size,
                    track_id: be_u32_at(s, 12),
                    enabled: tkhd_enabled(fullbox_flags(s)),
                    duration: be_u32_at(s, 20) as u64,
                    width: be_u32_at(s, 76),
                    height: be_u32_at(s, 80),
                },
            )
        }
    } else {
        Err(Error::InvalidData)
    }
}

/// Parse a tkhd box.
#[verifier::rlimit(60)]
pub fn read_tkhd(src: &mut ByteReader, head: &BoxHeader) -> (r: Result<TrackHeaderBox, Error>)
    requires
        old(src).wf(),
    ensures
        final(src).wf(),
        final(src).bytes() == old(src).bytes(),
        old(src).position() <= final(src).position(),
        match parse_tkhd(*head, old(src).suffix()) {
            Ok(b) => r == Ok::<TrackHeaderBox, Error>(b) && final(src).position() == old(
                src,
            ).position() + (if old(src).suffix()[0] == 1 {
                96int
            } else {
                84int
            }),
            Err(e) => r matches Err(e2) && e == e2,
        },
{
    let (version, flags) = match read_fullbox_extra(src) {
        Ok(v) => v,
        Err(e) => {
            return Err(e);
        },
    };
    let creation_modification = if version == 1 {
        16
    } else if version == 0 {
        8
    } else {
        return Err(Error::InvalidData);
    };
    match src.skip_bytes(creation_modification) {
        Ok(()) => (),
        Err(e) => {
            return Err(e);
        },
    }
    let track_id = match src.read_u32() {
        Ok(v) => v,
        Err(e) => {
            return Err(e);
        },
    };
    let reserved = match src.read_u32() {
        Ok(v) => v,
        Err(e) => {
            return Err(e);
        },
    };
    proof {
        if old(src).suffix()[0] == 1 {
            lemma_be_u32_skip(old(src).bytes(), old(src).position(), 20);
            lemma_be_u32_skip(old(src).bytes(), old(src).position(), 24);
        } else {
            lemma_be_u32_skip(old(src).bytes(), old(src).position(), 12);
            lemma_be_u32_skip(old(src).bytes(), old(src).position(), 16);
        }
    }
    if reserved != 0 {
        return Err(Error::InvalidData);
    }
    let duration = if version == 1 {
        match src.read_u64() {
            Ok(v) => v,
            Err(e) => {
                return Err(e);
            },
        }
    } else {
        let d = match src.read_u32() {
            Ok(v) => v,
            Err(e) => {
                return Err(e);
            },
        };
        d as u64
    };
    // Two reserved words, then layer, alternate group, volume and matrix.
    match src.skip_bytes(52) {
        Ok(()) => (),
        Err(e) => {
            return Err(e);
        },
    }
    let width = match src.read_u32() {
        Ok(v) => v,
        Err(e) => {
            return Err(e);
        },
    };
    let height = match src.read_u32() {
        Ok(v) => v,
        Err(e) => {
            return Err(e);
        },
    };
    proof {
        if old(src).suffix()[0] == 1 {
            lemma_be_u64_skip(old(src).bytes(), old(src).position(), 28);
            lemma_be_u32_skip(old(src).bytes(), old(src).position(), 88);
            lemma_be_u32_skip(old(src).bytes(), old(src).position(), 92);
        } else {
            lemma_be_u32_skip(old(src).bytes(), old(src).position(), 20);
            lemma_be_u32_skip(old(src).bytes(), old(src).position(), 76);
            lemma_be_u32_skip(old(src).bytes(), old(src).position(), 80);
        }
    }
    Ok(
        TrackHeaderBox {
            name: head.name,
            size: head.size,
            track_id,
            enabled: flags % 2 == 1 && (flags / 2) % 2 == 1,
            duration,
            width,
            height,
        },
    )
}

/// The media-header box denoted by a header and the payload bytes `s`.
///
/// The same version rule as the movie header applies; the trailing language
/// and pre-defined fields are left uninterpreted.
pub open spec fn parse_mdhd(head: BoxHeader, s: Seq<u8>) -> Result<MediaHeaderBox, Error> {
    if s.len() < 4 {
        Err(Error::UnexpectedEOF)
    } else if s[0] == 1 {
        if s.len() < 32 {
            Err(Error::UnexpectedEOF)
        } else {
            Ok(
                MediaHeaderBox {
                    name: head.name,
                    size: head.size,
                    timescale: be_u32_at(s, 20),
                    duration: be_u64_at(s, 24),
                },
            )
        }
    } else if s[0] == 0 {
        if s.len() < 20 {
            Err(Error::UnexpectedEOF)
        } else {
            Ok(
                MediaHeaderBox {
                    name: head.name,
                    size: head.size,
                    timescale: be_u32_at(s, 12),
                    duration: be_u32_at(s, 16) as u64,
                },
            )
        }
    } else {
        Err(Error::InvalidData)
    }
}

/// Parse an mdhd box.
pub fn read_mdhd(src: &mut ByteReader, head: &BoxHeader) -> (r: Result<MediaHeaderBox, Error>)
    requires
        old(src).wf(),
    ensures
        final(src).wf(),
        final(src).bytes() == old(src).bytes(),
        old(src).position() <= final(src).position(),
        match parse_mdhd(*head, old(src).suffix()) {
            Ok(b) => r == Ok::<MediaHeaderBox, Error>(b) && final(src).position() == old(
                src,
            ).position() + (if old(src).suffix()[0] == 1 {
                32int
            } else {
                20int
            }),
            Err(e) => r matches Err(e2) && e == e2,
        },
{
    let (version, _flags) = match read_fullbox_extra(src) {
        Ok(v) => v,
        Err(e) => {
            return Err(e);
        },
    };
    let creation_modification = if version == 1 {
        16
    } else if version == 0 {
        8
    } else {
        return Err(Error::InvalidData);
    };
    match src.skip_bytes(creation_modification) {
        Ok(()) => (),
        Err(e) => {
            return Err(e);
        },
    }
    let timescale = match src.read_u32() {
        Ok(v) => v,
        Err(e) => {
            return Err(e);
        },
    };
    let duration = if version == 1 {
        match src.read_u64() {
            Ok(v) => v,
            Err(e) => {
                return Err(e);
            },
        }
    } else {
        let d = match src.read_u32() {
            Ok(v) => v,
            Err(e) => {
                return Err(e);
            },
        };
        d as u64
    };
    proof {
        if old(src).suffix()[0] == 1 {
            lemma_be_u32_skip(old(src).bytes(), old(src).position(), 20);
            lemma_be_u64_skip(old(src).bytes(), old(src).position(), 24);
        } else {
            lemma_be_u32_skip(old(src).bytes(), old(src).position(), 12);
            lemma_be_u32_skip(old(src).bytes(), old(src).position(), 16);
        }
    }
    Ok(MediaHeaderBox { name: head.name, size: head.size, timescale, duration })
}

/// The handler box denoted by a header and the payload bytes `s`.
pub open spec fn parse_hdlr(head: BoxHeader, s: Seq<u8>) -> Result<HandlerBox, Error> {
    if s.len() < 12 {
        Err(Error::UnexpectedEOF)
    } else {
        Ok(HandlerBox { name: head.name, size: head.size, handler_type: be_u32_at(s, 8) })
    }
}

/// Parse an hdlr box.
pub fn read_hdlr(src: &mut ByteReader, head: &BoxHeader) -> (r: Result<HandlerBox, Error>)
    requires
        old(src).wf(),
    ensures
        final(src).wf(),
        final(src).bytes() == old(src).bytes(),
        old(src).position() <= final(src).position(),
        match parse_hdlr(*head, old(src).suffix()) {
            Ok(b) => r == Ok::<HandlerBox, Error>(b) && final(src).position() == old(
                src,
            ).position() + 12,
            Err(e) => r matches Err(e2) && e == e2,
        },
{
    let (_version, _flags) = match read_fullbox_extra(src) {
        Ok(v) => v,
        Err(e) => {
            return Err(e);
        },
    };
    match src.skip_bytes(4) {
        Ok(()) => (),
        Err(e) => {
            return Err(e);
        },
    }
    let handler_type = match src.read_u32() {
        Ok(v) => v,
        Err(e) => {
            return Err(e);
        },
    };
    proof {
        lemma_be_u32_skip(old(src).bytes(), old(src).position(), 8);
    }
    Ok(HandlerBox { name: head.name, size: head.size, handler_type })
}

/// How many bytes one edit-list entry takes for the given full-box version.
pub open spec fn elst_entry_size(version: u8) -> int {
    if version == 1 {
        20int
    } else {
        12int
    }
}

/// Segment duration of edit-list entry `i`.
pub open spec fn elst_seg_dur(s: Seq<u8>, version: u8, i: int) -> u64 {
    if version == 1 {
        be_u64_at(s, 8 + 20 * i)
    } else {
        be_u32_at(s, 8 + 12 * i) as u64
    }
}

/// Raw media-time field of edit-list entry `i`, zero-extended.
pub open spec fn elst_media_raw(s: Seq<u8>, version: u8, i: int) -> u64 {
    if version == 1 {
        be_u64_at(s, 16 + 20 * i)
    } else {
        be_u32_at(s, 12 + 12 * i) as u64
    }
}

/// The raw media-time value that marks an empty edit (all bits set, the
/// two's-complement encoding of -1 at the version's field width).
pub open spec fn elst_empty_mark(version: u8) -> u64 {
    if version == 1 {
        0xffff_ffff_ffff_ffffu64
    } else {
        0xffff_ffffu64
    }
}

/// The smallest raw media-time value whose sign bit is set at the version's
/// field width.
pub open spec fn elst_negative_bound(version: u8) -> u64 {
    if version == 1 {
        0x8000_0000_0000_0000u64
    } else {
        0x8000_0000u64
    }
}

/// What the edit-list box denoted by a header and the payload bytes `s`
/// contributes to its track.
///
/// An entry whose media time is -1 is an empty edit: a leading one supplies
/// the empty-edit duration, and the media start time then comes from the
/// entry after it. A negative media time other than -1, or a second empty
/// edit, is structurally invalid. Entries past the first real edit are
/// consumed but ignored.
pub open spec fn parse_elst(head: BoxHeader, s: Seq<u8>) -> Result<EditInfo, Error> {
    if s.len() < 8 {
        Err(Error::UnexpectedEOF)
    } else {
        let version = s[0];
        let count = be_u32_at(s, 4);
        if version != 0 && version != 1 {
            Err(Error::InvalidData)
        } else if s.len() < 8 + count * elst_entry_size(version) {
            Err(Error::UnexpectedEOF)
        } else if count == 0 {
            Ok(EditInfo { empty_duration: None, media_time: None })
        } else {
            let raw0 = elst_media_raw(s, version, 0);
            if raw0 == elst_empty_mark(version) {
                let ed = Some(elst_seg_dur(s, version, 0));
                if count == 1 {
                    Ok(EditInfo { empty_duration: ed, media_time: None })
                } else {
                    let raw1 = elst_media_raw(s, version, 1);
                    if raw1 >= elst_negative_bound(version) {
                        Err(Error::InvalidData)
                    } else {
                        Ok(EditInfo { empty_duration: ed, media_time: Some(raw1) })
                    }
                }
            } else if raw0 >= elst_negative_bound(version) {
                Err(Error::InvalidData)
            } else {
                Ok(EditInfo { empty_duration: None, media_time: Some(raw0) })
            }
        }
    }
}

/// Parse an elst box.
#[verifier::rlimit(60)]
pub fn read_elst(src: &mut ByteReader, head: &BoxHeader) -> (r: Result<EditInfo, Error>)
    requires
        old(src).wf(),
    ensures
        final(src).wf(),
        final(src).bytes() == old(src).bytes(),
        old(src).position() <= final(src).position(),
        match parse_elst(*head, old(src).suffix()) {
            Ok(v) => r == Ok::<EditInfo, Error>(v) && final(src).position() == old(src).position()
                + 8 + be_u32_at(old(src).suffix(), 4) * elst_entry_size(old(src).suffix()[0]),
            Err(e) => r matches Err(e2) && e == e2,
        },
{
    let (version, _flags) = match read_fullbox_extra(src) {
        Ok(v) => v,
        Err(e) => {
            return Err(e);
        },
    };
    let count = match src.read_u32() {
        Ok(v) => v,
        Err(e) => {
            return Err(e);
        },
    };
    proof {
        lemma_be_u32_skip(old(src).bytes(), old(src).position(), 4);
    }
    if version != 0 && version != 1 {
        return Err(Error::InvalidData);
    }
    let needed: u64 = if version == 1 {
        count as u64 * 20
    } else {
        count as u64 * 12
    };
    if (src.remaining_len() as u64) < needed {
        return Err(Error::UnexpectedEOF);
    }
    if count == 0 {
        return Ok(EditInfo { empty_duration: None, media_time: None });
    }
    let seg0: u64;
    let raw0: u64;
    if version == 1 {
        seg0 = match src.read_u64() {
            Ok(v) => v,
            Err(_) => {
                proof {
                    assert(false);
                }
                return Err(Error::UnexpectedEOF);
            },
        };
        raw0 = match src.read_u64() {
            Ok(v) => v,
            Err(_) => {
                proof {
                    assert(false);
                }
                return Err(Error::UnexpectedEOF);
            },
        };
        proof {
            lemma_be_u64_skip(old(src).bytes(), old(src).position(), 8);
            lemma_be_u64_skip(old(src).bytes(), old(src).position(), 16);
        }
    } else {
        let s = match src.read_u32() {
            Ok(v) => v,
            Err(_) => {
                proof {
                    assert(false);
                }
                return Err(Error::UnexpectedEOF);
            },
        };
        let m = match src.read_u32() {
            Ok(v) => v,
            Err(_) => {
                proof {
                    assert(false);
                }
                return Err(Error::UnexpectedEOF);
            },
        };
        seg0 = s as u64;
        raw0 = m as u64;
        proof {
            lemma_be_u32_skip(old(src).bytes(), old(src).position(), 8);
            lemma_be_u32_skip(old(src).bytes(), old(src).position(), 12);
        }
    }
    match src.skip_bytes(4) {
        Ok(()) => (),
        Err(_) => {
            proof {
                assert(false);
            }
            return Err(Error::UnexpectedEOF);
        },
    }
    let empty_mark: u64 = if version == 1 {
        0xffff_ffff_ffff_ffff
    } else {
        0xffff_ffff
    };
    let negative_bound: u64 = if version == 1 {
        0x8000_0000_0000_0000
    } else {
        0x8000_0000
    };
    let entry_size: u64 = if version == 1 {
        20
    } else {
        12
    };
    if raw0 == empty_mark {
        let ed = Some(seg0);
        if count == 1 {
            return Ok(EditInfo { empty_duration: ed, media_time: None });
        }
        let raw1: u64;
        if version == 1 {
            match src.skip_bytes(8) {
                Ok(()) => (),
                Err(_) => {
                    proof {
                        assert(false);
                    }
                    return Err(Error::UnexpectedEOF);
                },
            }
            raw1 = match src.read_u64() {
                Ok(v) => v,
                Err(_) => {
                    proof {
                        assert(false);
                    }
                    return Err(Error::UnexpectedEOF);
                },
            };
            proof {
                lemma_be_u64_skip(old(src).bytes(), old(src).position(), 36);
            }
        } else {
            match src.skip_bytes(4) {
                Ok(()) => (),
                Err(_) => {
                    proof {
                        assert(false);
                    }
                    return Err(Error::UnexpectedEOF);
                },
            }
            let m = match src.read_u32() {
                Ok(v) => v,
                Err(_) => {
                    proof {
                        assert(false);
                    }
                    return Err(Error::UnexpectedEOF);
                },
            };
            raw1 = m as u64;
            proof {
                lemma_be_u32_skip(old(src).bytes(), old(src).position(), 24);
            }
        }
        if raw1 >= negative_bound {
            return Err(Error::InvalidData);
        }
        match src.skip_bytes(4) {
            Ok(()) => (),
            Err(_) => {
                proof {
                    assert(false);
                }
                return Err(Error::UnexpectedEOF);
            },
        }
        let trailing = (needed - 2 * entry_size) as usize;
        match src.skip_bytes(trailing) {
            Ok(()) => (),
            Err(_) => {
                proof {
                    assert(false);
                }
                return Err(Error::UnexpectedEOF);
            },
        }
        Ok(EditInfo { empty_duration: ed, media_time: Some(raw1) })
    } else if raw0 >= negative_bound {
        Err(Error::InvalidData)
    } else {
        let trailing = (needed - entry_size) as usize;
        match src.skip_bytes(trailing) {
            Ok(()) => (),
            Err(_) => {
                proof {
                    assert(false);
                }
                return Err(Error::UnexpectedEOF);
            },
        }
        Ok(EditInfo { empty_duration: None, media_time: Some(raw0) })
    }
}

/// The sample description denoted by a header and the payload bytes `s`,
/// interpreted for a track of the given type.
///
/// The first sample entry supplies the track's sample format; any further
/// entries are left to the enclosing box bound. A description for a track
/// whose handler type was never recognized is unsupported.
pub open spec fn parse_stsd(track_type: TrackType, head: BoxHeader, s: Seq<u8>) -> Result<
    SampleEntry,
    Error,
> {
    if s.len() < 8 {
        Err(Error::UnexpectedEOF)
    } else if be_u32_at(s, 4) == 0 {
        Err(Error::InvalidData)
    } else {
        match header_at(s.skip(8)) {
            Err(e) => Err(e),
            Ok(h2) => {
                let base = 8 + h2.offset;
                match track_type {
                    TrackType::Audio => if s.len() < base + 28 {
                        Err(Error::UnexpectedEOF)
                    } else {
                        Ok(
                            SampleEntry::Audio(
                                AudioSampleEntry {
                                    channelcount: be_u16_at(s, base + 16),
                                    samplesize: be_u16_at(s, base + 18),
                                    samplerate: be_u32_at(s, base + 24),
                                },
                            ),
                        )
                    },
                    TrackType::Video => if s.len() < base + 28 {
                        Err(Error::UnexpectedEOF)
                    } else {
                        Ok(
                            SampleEntry::Video(
                                VideoSampleEntry {
                                    width: be_u16_at(s, base + 24),
                                    height: be_u16_at(s, base + 26),
                                },
                            ),
                        )
                    },
                    TrackType::Unknown => Err(Error::Unsupported),
                }
            },
        }
    }
}

/// Parse an stsd box for a track of the given type.
#[verifier::rlimit(60)]
pub fn read_stsd(src: &mut ByteReader, head: &BoxHeader, track_type: TrackType) -> (r: Result<
    SampleEntry,
    Error,
>)
    requires
        old(src).wf(),
    ensures
        final(src).wf(),
        final(src).bytes() == old(src).bytes(),
        old(src).position() <= final(src).position(),
        match parse_stsd(track_type, *head, old(src).suffix()) {
            Ok(v) => r == Ok::<SampleEntry, Error>(v),
            Err(e) => r matches Err(e2) && e == e2,
        },
{
    let (_version, _flags) = match read_fullbox_extra(src) {
        Ok(v) => v,
        Err(e) => {
            return Err(e);
        },
    };
    let count = match src.read_u32() {
        Ok(v) => v,
        Err(e) => {
            return Err(e);
        },
    };
    proof {
        lemma_be_u32_skip(old(src).bytes(), old(src).position(), 4);
    }
    if count == 0 {
        return Err(Error::InvalidData);
    }
    proof {
        assert(old(src).suffix().skip(8) =~= old(src).bytes().skip(old(src).position() + 8));
    }
    let h2 = match read_box_header(src) {
        Ok(h) => h,
        Err(e) => {
            return Err(e);
        },
    };
    let ghost base = 8 + h2.offset as int;
    match track_type {
        TrackType::Audio => {
            match src.skip_bytes(16) {
                Ok(()) => (),
                Err(e) => {
                    return Err(e);
                },
            }
            let channelcount = match src.read_u16() {
                Ok(v) => v,
                Err(e) => {
                    return Err(e);
                },
            };
            let samplesize = match src.read_u16() {
                Ok(v) => v,
                Err(e) => {
                    return Err(e);
                },
            };
            match src.skip_bytes(4) {
                Ok(()) => (),
                Err(e) => {
                    return Err(e);
                },
            }
            let samplerate = match src.read_u32() {
                Ok(v) => v,
                Err(e) => {
                    return Err(e);
                },
            };
            proof {
                lemma_be_u16_skip(old(src).bytes(), old(src).position(), base + 16);
                lemma_be_u16_skip(old(src).bytes(), old(src).position(), base + 18);
                lemma_be_u32_skip(old(src).bytes(), old(src).position(), base + 24);
            }
            Ok(SampleEntry::Audio(AudioSampleEntry { channelcount, samplesize, samplerate }))
        },
        TrackType::Video => {
            match src.skip_bytes(24) {
                Ok(()) => (),
                Err(e) => {
                    return Err(e);
                },
            }
            let width = match src.read_u16() {
                Ok(v) => v,
                Err(e) => {
                    return Err(e);
                },
            };
            let height = match src.read_u16() {
                Ok(v) => v,
                Err(e) => {
                    return Err(e);
                },
            };
            proof {
                lemma_be_u16_skip(old(src).bytes(), old(src).position(), base + 24);
                lemma_be_u16_skip(old(src).bytes(), old(src).position(), base + 26);
            }
            Ok(SampleEntry::Video(VideoSampleEntry { width, height }))
        },
        TrackType::Unknown => Err(Error::Unsupported),
    }
}

/// The four big-endian bytes of a four-character code.
pub open spec fn fourcc_bytes(name: u32) -> Seq<u8> {
    seq![
        (name / 0x100_0000) as u8,
        ((name / 0x1_0000) % 0x100) as u8,
        ((name / 0x100) % 0x100) as u8,
        (name % 0x100) as u8,
    ]
}

/// Whether all four bytes of a four-character code are ASCII.
pub open spec fn fourcc_ascii(name: u32) -> bool {
    forall|i: int| 0 <= i < 4 ==> fourcc_bytes(name)[i] < 0x80
}

/// The four characters of an ASCII four-character code.
pub open spec fn fourcc_chars(name: u32) -> Seq<char> {
    fourcc_bytes(name).map_values(|b: u8| b as char)
}

/// Relies on `String::from_utf8_lossy`: bytes that are valid UTF-8 pass
/// through unchanged, so ASCII bytes decode to one char per byte; other
/// bytes are replaced, never dropped into the output verbatim.
#[verifier::external_body]
fn utf8_lossy_string(bytes: &Vec<u8>) -> (r: String)
    ensures
        (forall|i: int| 0 <= i < bytes@.len() ==> bytes@[i] < 0x80) ==> r@ == bytes@.map_values(
            |b: u8| b as char,
        ),
{
    String::from_utf8_lossy(bytes).into_owned()
}

/// Convert the iso box type or other 4-character value to a string.
pub fn fourcc_to_string(name: u32) -> (r: String)
    ensures
        fourcc_ascii(name) ==> r@ == fourcc_chars(name),
{
    let mut name_bytes: Vec<u8> = Vec::new();
    name_bytes.push((name / 0x100_0000) as u8);
    name_bytes.push(((name / 0x1_0000) % 0x100) as u8);
    name_bytes.push(((name / 0x100) % 0x100) as u8);
    name_bytes.push((name % 0x100) as u8);
    proof {
        assert(name_bytes@ =~= fourcc_bytes(name));
    }
    utf8_lossy_string(&name_bytes)
}

} // verus!
