//! The binary WAV container codec: a fixed 44-byte RIFF/fmt/data header
//! followed by a little-endian 16-bit PCM sample payload.

use vstd::prelude::*;

use crate::errors::AudioError;

verus! {

/// ASCII `"RIFF"`.
pub open spec fn spec_riff_tag() -> Seq<u8> {
    seq![82u8, 73u8, 70u8, 70u8]
}

/// ASCII `"WAVE"`.
pub open spec fn spec_wave_tag() -> Seq<u8> {
    seq![87u8, 65u8, 86u8, 69u8]
}

/// ASCII `"fmt "`.
pub open spec fn spec_fmt_tag() -> Seq<u8> {
    seq![102u8, 109u8, 116u8, 32u8]
}

/// ASCII `"data"`.
pub open spec fn spec_data_tag() -> Seq<u8> {
    seq![100u8, 97u8, 116u8, 97u8]
}

/// The immutable audio configuration a file is built from.
///
/// Invariants of a well-formed configuration: the sample count is
/// `channels * duration * sample_rate`, and the bit depth is
/// `8 * sample_size`.
#[derive(Clone, Copy, Debug, PartialEq, Eq, Structural)]
pub struct Config {
    /// Bytes per sample of one channel.
    pub sample_size: u16,
    /// 1 = mono, 2 = stereo.
    pub channels: u16,
    /// Samples per second per channel.
    pub sample_rate: u32,
    /// Bit depth; `8 * sample_size` when well formed.
    pub bits_per_sample: u16,
    /// Total number of samples in the payload.
    pub nsamples: u32,
    /// Length of the recording in seconds.
    pub duration: u32,
}

impl Config {
    /// Every derived header field fits its on-disk integer width.
    pub open spec fn encodable(self) -> bool {
        &&& 36 + self.nsamples * self.sample_size <= u32::MAX
        &&& self.channels * self.sample_rate * self.sample_size <= u32::MAX
        &&& self.channels * self.sample_size <= u16::MAX
    }

    /// Builds a configuration; the sample count is derived from the channel
    /// count, the duration and the sample rate.
    pub fn create(
        sample_size: u16,
        channels: u16,
        sample_rate: u32,
        bits_per_sample: u16,
        duration: u32,
    ) -> (r: Config)
        requires
            channels * duration * sample_rate <= u32::MAX,
        ensures
            r == (Config {
                sample_size,
                channels,
                sample_rate,
                bits_per_sample,
                nsamples: (channels * duration * sample_rate) as u32,
                duration,
            }),
    {
        proof {
            assert((channels as int) * (duration as int) <= 0xffff * 0xffff_ffff)
                by (nonlinear_arith)
                requires
                    channels <= 0xffff,
                    duration <= 0xffff_ffff,
            ;
            assert((channels as int) * (duration as int) * (sample_rate as int) <= 0xffff
                * 0xffff_ffff * 0xffff_ffff) by (nonlinear_arith)
                requires
                    (channels as int) * (duration as int) <= 0xffff * 0xffff_ffff,
                    sample_rate <= 0xffff_ffff,
                    0 <= (channels as int) * (duration as int),
            ;
        }
        let wide: u128 = channels as u128 * duration as u128 * sample_rate as u128;
        Config {
            sample_size,
            channels,
            sample_rate,
            bits_per_sample,
            nsamples: wide as u32,
            duration,
        }
    }
}

/// The RIFF chunk: its tag and form type are the fixed literals `"RIFF"` and
/// `"WAVE"`, so only the chunk size is carried.
#[derive(Clone, Copy, Debug, PartialEq, Eq, Structural)]
pub struct RiffHeader {
    /// `36 + <payload bytes>`: everything after the 8-byte chunk prelude.
    pub size: u32,
}

impl RiffHeader {
    /// Builds the RIFF chunk for `nsamples` samples of `sample_size` bytes.
    pub fn new(nsamples: u32, sample_size: u16) -> (r: RiffHeader)
        requires
            36 + nsamples * sample_size <= u32::MAX,
        ensures
            r.size == 36 + nsamples * sample_size,
    {
        RiffHeader { size: 36 + nsamples * sample_size as u32 }
    }
}

/// The fmt chunk: the encoding metadata. Its tag is the literal `"fmt "`.
#[derive(Clone, Copy, Debug, PartialEq, Eq, Structural)]
pub struct FmtChunk {
    /// Size of the chunk body; 16 for plain PCM.
    pub size: u32,
    /// Type of encoding; 1 = linear PCM.
    pub fmt_tag: u16,
    /// 1 = mono, 2 = stereo.
    pub channels: u16,
    /// Sampling rate in Hz.
    pub samples_per_sec: u32,
    /// `channels * samples_per_sec * <bytes per sample>`.
    pub bytes_per_sec: u32,
    /// Bytes of one frame: `channels * <bytes per sample>`.
    pub block_align: u16,
    /// Bit depth.
    pub bits_per_sample: u16,
}

impl FmtChunk {
    /// Builds the PCM fmt chunk; the byte rate and the block alignment are
    /// derived from the channel count, the rate and the sample size.
    pub fn new(sample_rate: u32, nchannels: u16, sample_size: u16, bits_per_sample: u16) -> (r:
        FmtChunk)
        requires
            nchannels * sample_rate * sample_size <= u32::MAX,
            nchannels * sample_size <= u16::MAX,
        ensures
            r == (FmtChunk {
                size: 16u32,
                fmt_tag: 1u16,
                channels: nchannels,
                samples_per_sec: sample_rate,
                bytes_per_sec: (nchannels * sample_rate * sample_size) as u32,
                block_align: (nchannels * sample_size) as u16,
                bits_per_sample,
            }),
    {
        proof {
            assert((nchannels as int) * (sample_rate as int) <= 0xffff * 0xffff_ffff)
                by (nonlinear_arith)
                requires
                    nchannels <= 0xffff,
                    sample_rate <= 0xffff_ffff,
            ;
            assert((nchannels as int) * (sample_rate as int) * (sample_size as int) <= 0xffff
                * 0xffff_ffff * 0xffff) by (nonlinear_arith)
                requires
                    (nchannels as int) * (sample_rate as int) <= 0xffff * 0xffff_ffff,
                    sample_size <= 0xffff,
                    0 <= (nchannels as int) * (sample_rate as int),
            ;
        }
        let byte_rate_wide: u128 = nchannels as u128 * sample_rate as u128 * sample_size as u128;
        FmtChunk {
            size: 16,
            fmt_tag: 1,
            channels: nchannels,
            samples_per_sec: sample_rate,
            bytes_per_sec: byte_rate_wide as u32,
            block_align: (nchannels as u32 * sample_size as u32) as u16,
            bits_per_sample,
        }
    }
}

/// The data chunk prelude: its tag is the literal `"data"`, so only the
/// payload size is carried.
#[derive(Clone, Copy, Debug, PartialEq, Eq, Structural)]
pub struct DataChunk {
    /// Number of payload bytes that follow the 44-byte header.
    pub size: u32,
}

impl DataChunk {
    /// Builds the data chunk prelude for `nsamples` samples of `sample_size`
    /// bytes.
    pub fn new(nsamples: u32, sample_size: u16) -> (r: DataChunk)
        requires
            nsamples * sample_size <= u32::MAX,
        ensures
            r.size == nsamples * sample_size,
    {
        DataChunk { size: nsamples * sample_size as u32 }
    }
}

/// The whole 44-byte header: RIFF chunk, fmt chunk, data chunk prelude.
#[derive(Clone, Copy, Debug, PartialEq, Eq, Structural)]
pub struct WavHeader {
    pub riff_header: RiffHeader,
    pub fmt_chunk: FmtChunk,
    pub data_header: DataChunk,
}

/// The header a configuration deterministically derives to.
pub open spec fn spec_header_of(c: Config) -> WavHeader {
    WavHeader {
        riff_header: RiffHeader { size: (36 + c.nsamples * c.sample_size) as u32 },
        fmt_chunk: FmtChunk {
            size: 16u32,
            fmt_tag: 1u16,
            channels: c.channels,
            samples_per_sec: c.sample_rate,
            bytes_per_sec: (c.channels * c.sample_rate * c.sample_size) as u32,
            block_align: (c.channels * c.sample_size) as u16,
            bits_per_sample: c.bits_per_sample,
        },
        data_header: DataChunk { size: (c.nsamples * c.sample_size) as u32 },
    }
}

impl WavHeader {
    /// Derives the header of `config`.
    pub fn new(config: &Config) -> (r: WavHeader)
        requires
            config.encodable(),
        ensures
            r == spec_header_of(*config),
    {
        WavHeader {
            riff_header: RiffHeader::new(config.nsamples, config.sample_size),
            fmt_chunk: FmtChunk::new(
                config.sample_rate,
                config.channels,
                config.sample_size,
                config.bits_per_sample,
            ),
            data_header: DataChunk::new(config.nsamples, config.sample_size),
        }
    }
}

/// The exact 44 bytes a header serializes to, little-endian, at the fixed
/// offsets 0 (RIFF chunk), 12 (fmt chunk) and 36 (data chunk prelude).
pub open spec fn spec_header_bytes(h: WavHeader) -> Seq<u8> {
    spec_riff_tag() + vstd::bytes::spec_u32_to_le_bytes(h.riff_header.size) + spec_wave_tag()
        + spec_fmt_tag() + vstd::bytes::spec_u32_to_le_bytes(h.fmt_chunk.size)
        + vstd::bytes::spec_u16_to_le_bytes(h.fmt_chunk.fmt_tag) + vstd::bytes::spec_u16_to_le_bytes(
        h.fmt_chunk.channels,
    ) + vstd::bytes::spec_u32_to_le_bytes(h.fmt_chunk.samples_per_sec)
        + vstd::bytes::spec_u32_to_le_bytes(h.fmt_chunk.bytes_per_sec)
        + vstd::bytes::spec_u16_to_le_bytes(h.fmt_chunk.block_align)
        + vstd::bytes::spec_u16_to_le_bytes(h.fmt_chunk.bits_per_sample) + spec_data_tag()
        + vstd::bytes::spec_u32_to_le_bytes(h.data_header.size)
}

/// The serialized header is always exactly 44 bytes.
pub proof fn lemma_header_bytes_len(h: WavHeader)
    ensures
        spec_header_bytes(h).len() == 44,
{
    vstd::bytes::lemma_auto_spec_u32_to_from_le_bytes();
    vstd::bytes::lemma_auto_spec_u16_to_from_le_bytes();
}

impl WavHeader {
    /// Serializes the header to its 44-byte on-disk form.
    pub fn to_bytes(&self) -> (r: Vec<u8>)
        ensures
            r@ == spec_header_bytes(*self),
            r@.len() == 44,
    {
        let mut r: Vec<u8> = Vec::new();
        r.push(82);
        r.push(73);
        r.push(70);
        r.push(70);
        let mut riff_size = vstd::bytes::u32_to_le_bytes(self.riff_header.size);
        r.append(&mut riff_size);
        r.push(87);
        r.push(65);
        r.push(86);
        r.push(69);
        r.push(102);
        r.push(109);
        r.push(116);
        r.push(32);
        let mut fmt_size = vstd::bytes::u32_to_le_bytes(self.fmt_chunk.size);
        r.append(&mut fmt_size);
        let mut fmt_tag = vstd::bytes::u16_to_le_bytes(self.fmt_chunk.fmt_tag);
        r.append(&mut fmt_tag);
        let mut channels = vstd::bytes::u16_to_le_bytes(self.fmt_chunk.channels);
        r.append(&mut channels);
        let mut samples_per_sec = vstd::bytes::u32_to_le_bytes(self.fmt_chunk.samples_per_sec);
        r.append(&mut samples_per_sec);
        let mut bytes_per_sec = vstd::bytes::u32_to_le_bytes(self.fmt_chunk.bytes_per_sec);
        r.append(&mut bytes_per_sec);
        let mut block_align = vstd::bytes::u16_to_le_bytes(self.fmt_chunk.block_align);
        r.append(&mut block_align);
        let mut bits_per_sample = vstd::bytes::u16_to_le_bytes(self.fmt_chunk.bits_per_sample);
        r.append(&mut bits_per_sample);
        r.push(100);
        r.push(97);
        r.push(116);
        r.push(97);
        let mut data_size = vstd::bytes::u32_to_le_bytes(self.data_header.size);
        r.append(&mut data_size);
        proof {
            lemma_header_bytes_len(*self);
            assert(r@ =~= spec_header_bytes(*self));
        }
        r
    }
}

/// A four-byte tag stands at `off` in `bytes`.
pub open spec fn spec_tag_at(bytes: Seq<u8>, off: int, tag: Seq<u8>) -> bool {
    bytes.subrange(off, off + 4) == tag
}

/// The four chunk tags stand at their fixed offsets.
pub open spec fn spec_tags_ok(bytes: Seq<u8>) -> bool
    recommends
        bytes.len() >= 44,
{
    &&& spec_tag_at(bytes, 0, spec_riff_tag())
    &&& spec_tag_at(bytes, 8, spec_wave_tag())
    &&& spec_tag_at(bytes, 12, spec_fmt_tag())
    &&& spec_tag_at(bytes, 36, spec_data_tag())
}

/// The header fields read from their fixed little-endian offsets.
pub open spec fn spec_parse_header(bytes: Seq<u8>) -> WavHeader
    recommends
        bytes.len() >= 44,
{
    WavHeader {
        riff_header: RiffHeader {
            size: vstd::bytes::spec_u32_from_le_bytes(bytes.subrange(4, 8)),
        },
        fmt_chunk: FmtChunk {
            size: vstd::bytes::spec_u32_from_le_bytes(bytes.subrange(16, 20)),
            fmt_tag: vstd::bytes::spec_u16_from_le_bytes(bytes.subrange(20, 22)),
            channels: vstd::bytes::spec_u16_from_le_bytes(bytes.subrange(22, 24)),
            samples_per_sec: vstd::bytes::spec_u32_from_le_bytes(bytes.subrange(24, 28)),
            bytes_per_sec: vstd::bytes::spec_u32_from_le_bytes(bytes.subrange(28, 32)),
            block_align: vstd::bytes::spec_u16_from_le_bytes(bytes.subrange(32, 34)),
            bits_per_sample: vstd::bytes::spec_u16_from_le_bytes(bytes.subrange(34, 36)),
        },
        data_header: DataChunk {
            size: vstd::bytes::spec_u32_from_le_bytes(bytes.subrange(40, 44)),
        },
    }
}

/// A four-byte tag stands at `off` exactly when the four bytes there equal it
/// one by one.
proof fn lemma_tag_at_bytes(bytes: Seq<u8>, off: int, tag: Seq<u8>)
    requires
        0 <= off,
        off + 4 <= bytes.len(),
        tag.len() == 4,
    ensures
        spec_tag_at(bytes, off, tag) <==> (bytes[off] == tag[0] && bytes[off + 1] == tag[1]
            && bytes[off + 2] == tag[2] && bytes[off + 3] == tag[3]),
{
    if bytes[off] == tag[0] && bytes[off + 1] == tag[1] && bytes[off + 2] == tag[2] && bytes[off
        + 3] == tag[3] {
        assert(bytes.subrange(off, off + 4) =~= tag);
    }
    if spec_tag_at(bytes, off, tag) {
        assert(bytes[off] == bytes.subrange(off, off + 4)[0]);
        assert(bytes[off + 1] == bytes.subrange(off, off + 4)[1]);
        assert(bytes[off + 2] == bytes.subrange(off, off + 4)[2]);
        assert(bytes[off + 3] == bytes.subrange(off, off + 4)[3]);
    }
}

impl RiffHeader {
    /// Parses the 12-byte RIFF chunk; the `"RIFF"` and `"WAVE"` tags must
    /// stand at offsets 0 and 8.
    pub fn from_bytes(buf: &[u8]) -> (r: Result<RiffHeader, AudioError>)
        requires
            buf@.len() == 12,
        ensures
            match r {
                Ok(h) => spec_tag_at(buf@, 0, spec_riff_tag()) && spec_tag_at(
                    buf@,
                    8,
                    spec_wave_tag(),
                ) && h.size == vstd::bytes::spec_u32_from_le_bytes(buf@.subrange(4, 8)),
                Err(e) => e == AudioError::FormatError && !(spec_tag_at(buf@, 0, spec_riff_tag())
                    && spec_tag_at(buf@, 8, spec_wave_tag())),
            },
    {
        proof {
            lemma_tag_at_bytes(buf@, 0, spec_riff_tag());
            lemma_tag_at_bytes(buf@, 8, spec_wave_tag());
        }
        if !(buf[0] == 82 && buf[1] == 73 && buf[2] == 70 && buf[3] == 70) {
            return Err(AudioError::FormatError);
        }
        if !(buf[8] == 87 && buf[9] == 65 && buf[10] == 86 && buf[11] == 69) {
            return Err(AudioError::FormatError);
        }
        let size = vstd::bytes::u32_from_le_bytes(vstd::slice::slice_subrange(buf, 4, 8));
        Ok(RiffHeader { size })
    }
}

impl FmtChunk {
    /// Parses the 24-byte fmt chunk; the `"fmt "` tag must stand at offset 0.
    pub fn from_bytes(buf: &[u8]) -> (r: Result<FmtChunk, AudioError>)
        requires
            buf@.len() == 24,
        ensures
            match r {
                Ok(h) => spec_tag_at(buf@, 0, spec_fmt_tag()) && h == (FmtChunk {
                    size: vstd::bytes::spec_u32_from_le_bytes(buf@.subrange(4, 8)),
                    fmt_tag: vstd::bytes::spec_u16_from_le_bytes(buf@.subrange(8, 10)),
                    channels: vstd::bytes::spec_u16_from_le_bytes(buf@.subrange(10, 12)),
                    samples_per_sec: vstd::bytes::spec_u32_from_le_bytes(buf@.subrange(12, 16)),
                    bytes_per_sec: vstd::bytes::spec_u32_from_le_bytes(buf@.subrange(16, 20)),
                    block_align: vstd::bytes::spec_u16_from_le_bytes(buf@.subrange(20, 22)),
                    bits_per_sample: vstd::bytes::spec_u16_from_le_bytes(buf@.subrange(22, 24)),
                }),
                Err(e) => e == AudioError::FormatError && !spec_tag_at(buf@, 0, spec_fmt_tag()),
            },
    {
        proof {
            lemma_tag_at_bytes(buf@, 0, spec_fmt_tag());
        }
        if !(buf[0] == 102 && buf[1] == 109 && buf[2] == 116 && buf[3] == 32) {
            return Err(AudioError::FormatError);
        }
        let size = vstd::bytes::u32_from_le_bytes(vstd::slice::slice_subrange(buf, 4, 8));
        let fmt_tag = vstd::bytes::u16_from_le_bytes(vstd::slice::slice_subrange(buf, 8, 10));
        let channels = vstd::bytes::u16_from_le_bytes(vstd::slice::slice_subrange(buf, 10, 12));
        let samples_per_sec = vstd::bytes::u32_from_le_bytes(
            vstd::slice::slice_subrange(buf, 12, 16),
        );
        let bytes_per_sec = vstd::bytes::u32_from_le_bytes(
            vstd::slice::slice_subrange(buf, 16, 20),
        );
        let block_align = vstd::bytes::u16_from_le_bytes(vstd::slice::slice_subrange(buf, 20, 22));
        let bits_per_sample = vstd::bytes::u16_from_le_bytes(
            vstd::slice::slice_subrange(buf, 22, 24),
        );
        Ok(
            FmtChunk {
                size,
                fmt_tag,
                channels,
                samples_per_sec,
                bytes_per_sec,
                block_align,
                bits_per_sample,
            },
        )
    }
}

impl DataChunk {
    /// Parses the 8-byte data chunk prelude; the `"data"` tag must stand at
    /// offset 0.
    pub fn from_bytes(buf: &[u8]) -> (r: Result<DataChunk, AudioError>)
        requires
            buf@.len() == 8,
        ensures
            match r {
                Ok(h) => spec_tag_at(buf@, 0, spec_data_tag()) && h.size
                    == vstd::bytes::spec_u32_from_le_bytes(buf@.subrange(4, 8)),
                Err(e) => e == AudioError::FormatError && !spec_tag_at(buf@, 0, spec_data_tag()),
            },
    {
        proof {
            lemma_tag_at_bytes(buf@, 0, spec_data_tag());
        }
        if !(buf[0] == 100 && buf[1] == 97 && buf[2] == 116 && buf[3] == 97) {
            return Err(AudioError::FormatError);
        }
        let size = vstd::bytes::u32_from_le_bytes(vstd::slice::slice_subrange(buf, 4, 8));
        Ok(DataChunk { size })
    }
}

impl WavHeader {
    /// Parses the whole 44-byte header; any tag out of place is a
    /// `FormatError`.
    pub fn from_bytes(buf: &[u8]) -> (r: Result<WavHeader, AudioError>)
        requires
            buf@.len() == 44,
        ensures
            match r {
                Ok(h) => spec_tags_ok(buf@) && h == spec_parse_header(buf@),
                Err(e) => e == AudioError::FormatError && !spec_tags_ok(buf@),
            },
    {
        let riff_slice = vstd::slice::slice_subrange(buf, 0, 12);
        let fmt_slice = vstd::slice::slice_subrange(buf, 12, 36);
        let data_slice = vstd::slice::slice_subrange(buf, 36, 44);
        proof {
            lemma_subrange_of_subrange(buf@, 0, 12, 0, 4);
            lemma_subrange_of_subrange(buf@, 0, 12, 8, 12);
            lemma_subrange_of_subrange(buf@, 0, 12, 4, 8);
            lemma_subrange_of_subrange(buf@, 12, 36, 12, 16);
            lemma_subrange_of_subrange(buf@, 12, 36, 16, 20);
            lemma_subrange_of_subrange(buf@, 12, 36, 20, 22);
            lemma_subrange_of_subrange(buf@, 12, 36, 22, 24);
            lemma_subrange_of_subrange(buf@, 12, 36, 24, 28);
            lemma_subrange_of_subrange(buf@, 12, 36, 28, 32);
            lemma_subrange_of_subrange(buf@, 12, 36, 32, 34);
            lemma_subrange_of_subrange(buf@, 12, 36, 34, 36);
            lemma_subrange_of_subrange(buf@, 36, 44, 36, 40);
            lemma_subrange_of_subrange(buf@, 36, 44, 40, 44);
        }
        let riff_header = match RiffHeader::from_bytes(riff_slice) {
            Ok(h) => h,
            Err(e) => {
                return Err(e);
            },
        };
        let fmt_chunk = match FmtChunk::from_bytes(fmt_slice) {
            Ok(h) => h,
            Err(e) => {
                return Err(e);
            },
        };
        let data_header = match DataChunk::from_bytes(data_slice) {
            Ok(h) => h,
            Err(e) => {
                return Err(e);
            },
        };
        Ok(WavHeader { riff_header, fmt_chunk, data_header })
    }
}

/// A subrange taken inside a subrange equals the same subrange of the whole.
proof fn lemma_subrange_of_subrange(bytes: Seq<u8>, outer_lo: int, outer_hi: int, lo: int, hi: int)
    requires
        0 <= outer_lo <= lo <= hi <= outer_hi <= bytes.len(),
    ensures
        bytes.subrange(outer_lo, outer_hi).subrange(lo - outer_lo, hi - outer_lo) == bytes.subrange(
            lo,
            hi,
        ),
{
    assert(bytes.subrange(outer_lo, outer_hi).subrange(lo - outer_lo, hi - outer_lo)
        =~= bytes.subrange(lo, hi));
}

/// One in-memory WAV file: a header and the raw sample payload.
///
/// A file that [`read`] returns always has as many payload bytes as its data
/// chunk declares; a freshly built file is empty until a payload is supplied.
#[derive(Debug, PartialEq, Eq)]
pub struct Wave {
    pub header: WavHeader,
    pub data: Vec<u8>,
}

impl Wave {
    /// A fresh, still empty file whose header derives from `config`.
    pub fn new(config: &Config) -> (r: Wave)
        requires
            config.encodable(),
        ensures
            r.header == spec_header_of(*config),
            r.data@ == Seq::<u8>::empty(),
    {
        Wave { header: WavHeader::new(config), data: Vec::new() }
    }
}

/// What decoding a byte buffer yields: the header and the payload the data
/// chunk declares, or the first typed error in validation order.
pub open spec fn spec_decode(bytes: Seq<u8>) -> Result<(WavHeader, Seq<u8>), AudioError> {
    if bytes.len() < 44 {
        Err(AudioError::TruncatedHeader)
    } else if !spec_tags_ok(bytes) {
        Err(AudioError::FormatError)
    } else {
        let h = spec_parse_header(bytes);
        if h.fmt_chunk.size != 16 || h.fmt_chunk.fmt_tag != 1 {
            Err(AudioError::UnsupportedFormat)
        } else if bytes.len() - 44 < h.data_header.size {
            Err(AudioError::TruncatedPayload)
        } else {
            Ok((h, bytes.subrange(44, 44 + h.data_header.size as int)))
        }
    }
}

/// Decodes a WAV byte buffer into a [`Wave`].
///
/// Exactly the declared payload is taken; surplus bytes past the declared
/// data size are ignored, never read.
pub fn read(bytes: &[u8]) -> (r: Result<Wave, AudioError>)
    ensures
        match r {
            Ok(w) => spec_decode(bytes@) == Ok::<_, AudioError>((w.header, w.data@)) && w.data@.len()
                == w.header.data_header.size,
            Err(e) => spec_decode(bytes@) == Err::<(WavHeader, Seq<u8>), _>(e),
        },
{
    if bytes.len() < 44 {
        return Err(AudioError::TruncatedHeader);
    }
    let header_slice = vstd::slice::slice_subrange(bytes, 0, 44);
    proof {
        lemma_subrange_of_subrange(bytes@, 0, 44, 0, 4);
        lemma_subrange_of_subrange(bytes@, 0, 44, 4, 8);
        lemma_subrange_of_subrange(bytes@, 0, 44, 8, 12);
        lemma_subrange_of_subrange(bytes@, 0, 44, 12, 16);
        lemma_subrange_of_subrange(bytes@, 0, 44, 16, 20);
        lemma_subrange_of_subrange(bytes@, 0, 44, 20, 22);
        lemma_subrange_of_subrange(bytes@, 0, 44, 22, 24);
        lemma_subrange_of_subrange(bytes@, 0, 44, 24, 28);
        lemma_subrange_of_subrange(bytes@, 0, 44, 28, 32);
        lemma_subrange_of_subrange(bytes@, 0, 44, 32, 34);
        lemma_subrange_of_subrange(bytes@, 0, 44, 34, 36);
        lemma_subrange_of_subrange(bytes@, 0, 44, 36, 40);
        lemma_subrange_of_subrange(bytes@, 0, 44, 40, 44);
    }
    let header = match WavHeader::from_bytes(header_slice) {
        Ok(h) => h,
        Err(e) => {
            return Err(e);
        },
    };
    if header.fmt_chunk.size != 16 || header.fmt_chunk.fmt_tag != 1 {
        return Err(AudioError::UnsupportedFormat);
    }
    let data_size = header.data_header.size as usize;
    if bytes.len() - 44 < data_size {
        return Err(AudioError::TruncatedPayload);
    }
    let payload = vstd::slice::slice_to_vec(vstd::slice::slice_subrange(bytes, 44, 44 + data_size));
    Ok(Wave { header, data: payload })
}

/// What encoding yields: the 44 header bytes, then the payload verbatim.
pub open spec fn spec_encode(c: Config, payload: Seq<u8>) -> Seq<u8> {
    spec_header_bytes(spec_header_of(c)) + payload
}

/// Encodes a payload of raw sample bytes under `config` into one WAV byte
/// buffer: header at offset 0, payload verbatim at offset 44.
pub fn encode(config: &Config, sample_bytes: &[u8]) -> (r: Result<Vec<u8>, AudioError>)
    requires
        config.encodable(),
    ensures
        match r {
            Ok(bytes) => sample_bytes@.len() == config.nsamples * config.sample_size && bytes@
                == spec_encode(*config, sample_bytes@),
            Err(e) => e == AudioError::SizeMismatch && sample_bytes@.len() != config.nsamples
                * config.sample_size,
        },
{
    let expected: u64 = config.nsamples as u64 * config.sample_size as u64;
    if sample_bytes.len() as u64 != expected {
        return Err(AudioError::SizeMismatch);
    }
    let header = WavHeader::new(config);
    let mut out = header.to_bytes();
    let mut payload = vstd::slice::slice_to_vec(sample_bytes);
    out.append(&mut payload);
    Ok(out)
}

/// Round trip: decoding an encoded file reproduces the derived header and
/// the sample bytes, for every encodable configuration and every payload of
/// the matching length.
pub proof fn lemma_encode_decode_round_trip(c: Config, payload: Seq<u8>)
    requires
        c.encodable(),
        payload.len() == c.nsamples * c.sample_size,
    ensures
        spec_decode(spec_encode(c, payload)) == Ok::<(WavHeader, Seq<u8>), AudioError>(
            (spec_header_of(c), payload),
        ),
{
    let h = spec_header_of(c);
    let hb = spec_header_bytes(h);
    let bytes = spec_encode(c, payload);
    vstd::bytes::lemma_auto_spec_u32_to_from_le_bytes();
    vstd::bytes::lemma_auto_spec_u16_to_from_le_bytes();
    lemma_header_bytes_len(h);
    assert(bytes.len() == 44 + payload.len());
    assert(bytes.subrange(0, 4) =~= spec_riff_tag());
    assert(bytes.subrange(4, 8) =~= vstd::bytes::spec_u32_to_le_bytes(h.riff_header.size));
    assert(bytes.subrange(8, 12) =~= spec_wave_tag());
    assert(bytes.subrange(12, 16) =~= spec_fmt_tag());
    assert(bytes.subrange(16, 20) =~= vstd::bytes::spec_u32_to_le_bytes(h.fmt_chunk.size));
    assert(bytes.subrange(20, 22) =~= vstd::bytes::spec_u16_to_le_bytes(h.fmt_chunk.fmt_tag));
    assert(bytes.subrange(22, 24) =~= vstd::bytes::spec_u16_to_le_bytes(h.fmt_chunk.channels));
    assert(bytes.subrange(24, 28) =~= vstd::bytes::spec_u32_to_le_bytes(
        h.fmt_chunk.samples_per_sec,
    ));
    assert(bytes.subrange(28, 32) =~= vstd::bytes::spec_u32_to_le_bytes(h.fmt_chunk.bytes_per_sec));
    assert(bytes.subrange(32, 34) =~= vstd::bytes::spec_u16_to_le_bytes(h.fmt_chunk.block_align));
    assert(bytes.subrange(34, 36) =~= vstd::bytes::spec_u16_to_le_bytes(
        h.fmt_chunk.bits_per_sample,
    ));
    assert(bytes.subrange(36, 40) =~= spec_data_tag());
    assert(bytes.subrange(40, 44) =~= vstd::bytes::spec_u32_to_le_bytes(h.data_header.size));
    assert(spec_tags_ok(bytes));
    assert(spec_parse_header(bytes) == h);
    assert(h.data_header.size == payload.len());
    assert(bytes.subrange(44, 44 + h.data_header.size as int) =~= payload);
}

/// The two little-endian bytes of one signed 16-bit sample.
pub open spec fn spec_i16_to_le_bytes(x: i16) -> Seq<u8> {
    vstd::bytes::spec_u16_to_le_bytes(x as u16)
}

/// The signed 16-bit sample two little-endian bytes carry.
pub open spec fn spec_i16_from_le_bytes(s: Seq<u8>) -> i16
    recommends
        s.len() == 2,
{
    vstd::bytes::spec_u16_from_le_bytes(s) as i16
}

/// Samples packed to bytes: each sample as two little-endian bytes, in order.
pub open spec fn spec_pack_samples(s: Seq<i16>) -> Seq<u8> {
    Seq::new((2 * s.len()) as nat, |i: int| spec_i16_to_le_bytes(s[i / 2])[i % 2])
}

/// Bytes unpacked to samples, two bytes at a time.
pub open spec fn spec_unpack_samples(b: Seq<u8>) -> Seq<i16>
    recommends
        b.len() % 2 == 0,
{
    Seq::new((b.len() / 2) as nat, |i: int| spec_i16_from_le_bytes(seq![b[2 * i], b[2 * i + 1]]))
}

/// Packs signed 16-bit samples into their little-endian byte payload.
pub fn samples_as_u8(slice_i16: &[i16]) -> (r: Vec<u8>)
    ensures
        r@ == spec_pack_samples(slice_i16@),
        r@.len() == 2 * slice_i16@.len(),
{
    let mut out: Vec<u8> = Vec::new();
    for idx in 0..slice_i16.len()
        invariant
            out@.len() == 2 * idx,
            forall|j: int| 0 <= j < out@.len() ==> out@[j] == spec_pack_samples(slice_i16@)[j],
    {
        let sample = slice_i16[idx];
        let mut b = vstd::bytes::u16_to_le_bytes(sample as u16);
        out.append(&mut b);
    }
    proof {
        assert(out@ =~= spec_pack_samples(slice_i16@));
    }
    out
}

/// Unpacks a little-endian byte payload into signed 16-bit samples; an odd
/// byte count is a `MalformedPayload`.
pub fn samples_as_i16(slice_u8: &[u8]) -> (r: Result<Vec<i16>, AudioError>)
    ensures
        match r {
            Ok(v) => slice_u8@.len() % 2 == 0 && v@ == spec_unpack_samples(slice_u8@),
            Err(e) => e == AudioError::MalformedPayload && slice_u8@.len() % 2 != 0,
        },
{
    if slice_u8.len() % 2 != 0 {
        return Err(AudioError::MalformedPayload);
    }
    let n = slice_u8.len() / 2;
    let mut out: Vec<i16> = Vec::new();
    for i in 0..n
        invariant
            slice_u8@.len() % 2 == 0,
            slice_u8@.len() <= usize::MAX,
            n == slice_u8@.len() / 2,
            out@.len() == i,
            forall|j: int| 0 <= j < out@.len() ==> out@[j] == spec_unpack_samples(slice_u8@)[j],
    {
        let u = vstd::bytes::u16_from_le_bytes(
            vstd::slice::slice_subrange(slice_u8, 2 * i, 2 * i + 2),
        );
        proof {
            assert(slice_u8@.subrange(2 * i as int, 2 * i as int + 2) =~= seq![
                slice_u8@[2 * i as int],
                slice_u8@[2 * i as int + 1],
            ]);
        }
        out.push(u as i16);
    }
    proof {
        assert(out@ =~= spec_unpack_samples(slice_u8@));
    }
    Ok(out)
}

/// Round trip: unpacking a packed sample buffer reproduces it exactly, for
/// every finite sequence of samples.
pub proof fn lemma_pack_unpack_round_trip(s: Seq<i16>)
    ensures
        spec_pack_samples(s).len() == 2 * s.len(),
        spec_unpack_samples(spec_pack_samples(s)) == s,
{
    vstd::bytes::lemma_auto_spec_u16_to_from_le_bytes();
    let b = spec_pack_samples(s);
    assert forall|i: int| 0 <= i < s.len() implies spec_unpack_samples(b)[i] == s[i] by {
        assert(b[2 * i] == spec_i16_to_le_bytes(s[i])[0]);
        assert(b[2 * i + 1] == spec_i16_to_le_bytes(s[i])[1]);
        assert(seq![b[2 * i], b[2 * i + 1]] =~= vstd::bytes::spec_u16_to_le_bytes(s[i] as u16));
        let x = s[i];
        assert((x as u16) as i16 == x) by (bit_vector);
    }
    assert(spec_unpack_samples(spec_pack_samples(s)) =~= s);
}

} // verus!
