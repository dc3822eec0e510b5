//! Compression backends: a high-ratio xz codec and a fast zstd codec.
//!
//! Each backend feeds its input to the codec in bounded chunks, in both
//! directions: progress rises after every chunk and a cooperative
//! cancellation flag is honoured between chunks. What the codecs themselves
//! produce is named, never restated: `xz_encoded` and `zstd_encoded` stand
//! for the two encoders' output, and the decoders are trusted to invert
//! them. The decoders run from a byte slice into a byte vector, so the only
//! way they can fail is a corrupt or truncated stream; `CodecError::Io` is
//! what the encoding direction reports.

use std::io::Read;
use std::io::Write;
use vstd::prelude::*;

use crate::progress::CancelFlag;
use crate::progress::ProgressSink;
use crate::progress::ProgressTracker;
use crate::progress::PROGRESS_SCALE;
use crate::progress::ratio_bp;
use crate::progress::send_sample;
use crate::config::level_in_range;

verus! {

/// Selects the compression backend variant.
#[derive(Clone, Copy, Debug, PartialEq, Eq, Structural)]
pub enum CompressType {
    LZMA,
    Zstd,
}

/// A failure of a codec stage.
///
/// `CorruptStream` can only arise while decompressing; `Io` covers any
/// other failure reported by the underlying codec in either direction.
#[derive(Clone, Copy, Debug, PartialEq, Eq, Structural)]
pub enum CodecError {
    CorruptStream,
    Io,
}

/// Why one pipeline stage stopped: the codec failed, or cancellation was
/// requested and observed at a chunk boundary.
#[derive(Clone, Copy, Debug, PartialEq, Eq, Structural)]
pub enum StageError {
    Codec(CodecError),
    Cancelled,
}

/// The bytes that the xz encoder emits for the given input at the given
/// level, including its self-describing framing. As with any named digest,
/// this is fixed per locked codec version: another liblzma may emit another
/// stream for the same input.
pub uninterp spec fn xz_encoded(data: Seq<u8>, level: int) -> Seq<u8>;

/// The bytes that the zstd encoder emits for the given input at the given
/// level, including its self-describing framing. As with any named digest,
/// this is fixed per locked codec version: another zstd may emit another
/// frame for the same input.
pub uninterp spec fn zstd_encoded(data: Seq<u8>, level: int) -> Seq<u8>;

/// The artifact that the selected backend produces for the given input.
pub open spec fn encoded(kind: CompressType, data: Seq<u8>, level: int) -> Seq<u8> {
    match kind {
        CompressType::LZMA => xz_encoded(data, level),
        CompressType::Zstd => zstd_encoded(data, level),
    }
}

/// How many input bytes are handed to a codec per step; progress is raised
/// and cancellation is checked once per step.
pub const COMPRESS_CHUNK: usize = 65536;

/// True when `a` is an initial segment of `b`.
pub open spec fn prefix_of(a: Seq<u8>, b: Seq<u8>) -> bool {
    a.len() <= b.len() && a == b.subrange(0, a.len() as int)
}

/// An in-flight xz encoder.
#[verifier::external_body]
pub struct XzEnc {
    inner: xz2::write::XzEncoder<Vec<u8>>,
}

/// The input bytes fed to an in-flight xz encoder so far.
pub uninterp spec fn xz_enc_fed(e: XzEnc) -> Seq<u8>;

/// The level an in-flight xz encoder was opened with.
pub uninterp spec fn xz_enc_level(e: XzEnc) -> int;

/// Relies on xz2::write::XzEncoder::new: opens an encoder at the given
/// preset with nothing fed yet. Presets above 9 are rejected by liblzma,
/// hence the bound.
#[verifier::external_body]
fn xz_enc_new(level: u32) -> (e: XzEnc)
    requires
        level <= 9,
    ensures
        xz_enc_fed(e) == Seq::<u8>::empty(),
        xz_enc_level(e) == level as int,
{
    XzEnc { inner: xz2::write::XzEncoder::new(Vec::new(), level) }
}

/// Relies on xz2::write::XzEncoder's Write impl: write_all appends exactly
/// the given bytes to what the encoder has been fed.
#[verifier::external_body]
fn xz_enc_write(e: &mut XzEnc, chunk: &[u8]) -> (r: Result<(), CodecError>)
    ensures
        r is Ok ==> xz_enc_fed(*final(e)) == xz_enc_fed(*old(e)) + chunk@ && xz_enc_level(
            *final(e),
        ) == xz_enc_level(*old(e)),
{
    e.inner.write_all(chunk).map_err(|_| CodecError::Io)
}

/// Relies on xz2::write::XzEncoder::finish: flushes and returns the
/// complete xz stream for everything fed.
#[verifier::external_body]
fn xz_enc_finish(e: XzEnc) -> (r: Result<Vec<u8>, CodecError>)
    ensures
        r matches Ok(v) ==> v@ == xz_encoded(xz_enc_fed(e), xz_enc_level(e)),
{
    e.inner.finish().map_err(|_| CodecError::Io)
}

/// An in-flight xz decoder.
#[verifier::external_body]
pub struct XzDec {
    inner: xz2::write::XzDecoder<Vec<u8>>,
}

/// The compressed bytes fed to an in-flight xz decoder so far.
pub uninterp spec fn xz_dec_fed(d: XzDec) -> Seq<u8>;

/// Relies on xz2::write::XzDecoder::new: opens a decoder with nothing fed
/// yet.
#[verifier::external_body]
fn xz_dec_new() -> (d: XzDec)
    ensures
        xz_dec_fed(d) == Seq::<u8>::empty(),
{
    XzDec { inner: xz2::write::XzDecoder::new(Vec::new()) }
}

/// Relies on xz2::write::XzDecoder's Write impl: write_all appends exactly
/// the given bytes to what the decoder has been fed, and never fails while
/// what was fed stays an initial segment of a valid stream. The sink is a
/// vector, so the only failure is bad stream data.
#[verifier::external_body]
fn xz_dec_write(d: &mut XzDec, chunk: &[u8]) -> (r: Result<(), CodecError>)
    ensures
        r is Ok ==> xz_dec_fed(*final(d)) == xz_dec_fed(*old(d)) + chunk@,
        r matches Err(e) ==> e == CodecError::CorruptStream,
        r is Err ==> forall|orig: Seq<u8>, lvl: int|
            !(0 <= lvl <= 9 && prefix_of(xz_dec_fed(*old(d)) + chunk@, #[trigger] xz_encoded(
                orig,
                lvl,
            ))),
{
    d.inner.write_all(chunk).map_err(|_| CodecError::CorruptStream)
}

/// Relies on xz2::write::XzDecoder::finish: succeeds exactly on a complete
/// stream and returns everything decoded; a complete encoder output decodes
/// back to what the encoder was fed. A truncated stream is reported as a
/// corrupt one; the vector sink cannot fail.
#[verifier::external_body]
fn xz_dec_finish(d: XzDec) -> (r: Result<Vec<u8>, CodecError>)
    ensures
        r matches Ok(v) ==> forall|orig: Seq<u8>, lvl: int|
            0 <= lvl <= 9 && xz_dec_fed(d) == #[trigger] xz_encoded(orig, lvl) ==> v@ == orig,
        r is Err ==> forall|orig: Seq<u8>, lvl: int|
            !(0 <= lvl <= 9 && xz_dec_fed(d) == #[trigger] xz_encoded(orig, lvl)),
        r matches Err(e) ==> e == CodecError::CorruptStream,
{
    let mut inner = d.inner;
    match inner.finish() {
        Ok(v) => Ok(v),
        Err(_) => Err(CodecError::CorruptStream),
    }
}

/// An in-flight zstd encoder.
#[verifier::external_body]
pub struct ZstdEnc {
    inner: zstd::stream::write::Encoder<'static, Vec<u8>>,
}

/// The input bytes fed to an in-flight zstd encoder so far.
pub uninterp spec fn zstd_enc_fed(e: ZstdEnc) -> Seq<u8>;

/// The level an in-flight zstd encoder was opened with.
pub uninterp spec fn zstd_enc_level(e: ZstdEnc) -> int;

/// Relies on zstd::stream::write::Encoder::new: opens an encoder at the
/// given level with nothing fed yet.
#[verifier::external_body]
fn zstd_enc_new(level: i32) -> (r: Result<ZstdEnc, CodecError>)
    requires
        0 <= level <= 9,
    ensures
        r matches Ok(e) ==> zstd_enc_fed(e) == Seq::<u8>::empty() && zstd_enc_level(e)
            == level as int,
{
    match zstd::stream::write::Encoder::new(Vec::new(), level) {
        Ok(inner) => Ok(ZstdEnc { inner }),
        Err(_) => Err(CodecError::Io),
    }
}

/// Relies on zstd::stream::write::Encoder's Write impl: write_all appends
/// exactly the given bytes to what the encoder has been fed.
#[verifier::external_body]
fn zstd_enc_write(e: &mut ZstdEnc, chunk: &[u8]) -> (r: Result<(), CodecError>)
    ensures
        r is Ok ==> zstd_enc_fed(*final(e)) == zstd_enc_fed(*old(e)) + chunk@ && zstd_enc_level(
            *final(e),
        ) == zstd_enc_level(*old(e)),
{
    e.inner.write_all(chunk).map_err(|_| CodecError::Io)
}

/// Relies on zstd::stream::write::Encoder::finish: flushes and returns the
/// complete zstd frame for everything fed.
#[verifier::external_body]
fn zstd_enc_finish(e: ZstdEnc) -> (r: Result<Vec<u8>, CodecError>)
    ensures
        r matches Ok(v) ==> v@ == zstd_encoded(zstd_enc_fed(e), zstd_enc_level(e)),
{
    e.inner.finish().map_err(|_| CodecError::Io)
}

/// An in-flight zstd decoder.
#[verifier::external_body]
pub struct ZstdDec {
    inner: zstd::stream::zio::Writer<Vec<u8>, zstd::stream::raw::Decoder<'static>>,
}

/// The compressed bytes fed to an in-flight zstd decoder so far.
pub uninterp spec fn zstd_dec_fed(d: ZstdDec) -> Seq<u8>;

/// Relies on zstd::stream::raw::Decoder::new and zio::Writer::new: opens a
/// decoder with nothing fed yet; the only failure is allocating the
/// decompression context, which is no stream failure.
#[verifier::external_body]
fn zstd_dec_new() -> (r: Result<ZstdDec, CodecError>)
    ensures
        r matches Ok(d) ==> zstd_dec_fed(d) == Seq::<u8>::empty(),
        r matches Err(e) ==> e == CodecError::Io,
{
    match zstd::stream::raw::Decoder::new() {
        Ok(op) => Ok(ZstdDec { inner: zstd::stream::zio::Writer::new(Vec::new(), op) }),
        Err(_) => Err(CodecError::Io),
    }
}

/// Relies on zstd::stream::zio::Writer's Write impl over a raw decoder:
/// write_all appends exactly the given bytes to what the decoder has been
/// fed, and never fails while what was fed stays an initial segment of a
/// valid frame. The sink is a vector, so the only failure is bad stream
/// data.
#[verifier::external_body]
fn zstd_dec_write(d: &mut ZstdDec, chunk: &[u8]) -> (r: Result<(), CodecError>)
    ensures
        r is Ok ==> zstd_dec_fed(*final(d)) == zstd_dec_fed(*old(d)) + chunk@,
        r matches Err(e) ==> e == CodecError::CorruptStream,
        r is Err ==> forall|orig: Seq<u8>, lvl: int|
            !(0 <= lvl <= 9 && prefix_of(zstd_dec_fed(*old(d)) + chunk@, #[trigger] zstd_encoded(
                orig,
                lvl,
            ))),
{
    d.inner.write_all(chunk).map_err(|_| CodecError::CorruptStream)
}

/// Relies on zstd::stream::zio::Writer::finish and into_inner: finish
/// succeeds exactly on a complete frame, flushing everything decoded; a
/// complete encoder output decodes back to what the encoder was fed. An
/// incomplete frame is reported as a corrupt stream; the vector sink cannot
/// fail.
#[verifier::external_body]
fn zstd_dec_finish(d: ZstdDec) -> (r: Result<Vec<u8>, CodecError>)
    ensures
        r matches Ok(v) ==> forall|orig: Seq<u8>, lvl: int|
            0 <= lvl <= 9 && zstd_dec_fed(d) == #[trigger] zstd_encoded(orig, lvl) ==> v@ == orig,
        r is Err ==> forall|orig: Seq<u8>, lvl: int|
            !(0 <= lvl <= 9 && zstd_dec_fed(d) == #[trigger] zstd_encoded(orig, lvl)),
        r matches Err(e) ==> e == CodecError::CorruptStream,
{
    let mut inner = d.inner;
    match inner.finish() {
        Ok(()) => Ok(inner.into_inner().0),
        Err(_) => Err(CodecError::CorruptStream),
    }
}

/// The high-ratio backend, an xz codec: slower, smaller output.
#[derive(Clone, Copy, Debug)]
pub struct LzmaCompress;

/// The fast backend, a zstd codec: quicker, larger output.
#[derive(Clone, Copy, Debug)]
pub struct ZstdCompress;

impl LzmaCompress {
    /// Compresses `data` at `level`, raising the current stage's progress
    /// once per chunk and stopping at the next chunk boundary once
    /// cancellation is requested.
    pub fn compress(
        &self,
        data: &Vec<u8>,
        level: i32,
        tracker: &mut ProgressTracker,
        sink: &ProgressSink,
        cancel: &CancelFlag,
    ) -> (r: Result<Vec<u8>, StageError>)
        requires
            level_in_range(level),
            old(tracker).wf(),
            old(tracker).completed < old(tracker).total,
        ensures
            final(tracker).wf(),
            final(tracker).total == old(tracker).total,
            final(tracker).completed == old(tracker).completed,
            old(tracker).frac() <= final(tracker).frac(),
            r matches Ok(c) ==> c@ == xz_encoded(data@, level as int) && final(tracker).sub
                == PROGRESS_SCALE,
            r is Err ==> r == Err::<Vec<u8>, StageError>(StageError::Cancelled) || (
            r matches Err(StageError::Codec(_))),
    {
        let mut enc = xz_enc_new(level as u32);
        let n = data.len();
        let mut i: usize = 0;
        while i < n
            invariant
                i <= n,
                n == data@.len(),
                xz_enc_fed(enc) == data@.subrange(0, i as int),
                xz_enc_level(enc) == level as int,
                tracker.wf(),
                tracker.total == old(tracker).total,
                tracker.completed == old(tracker).completed,
                tracker.completed < tracker.total,
                old(tracker).frac() <= tracker.frac(),
            decreases n - i,
        {
            if cancel.is_cancelled() {
                return Err(StageError::Cancelled);
            }
            let end = if n - i > COMPRESS_CHUNK {
                i + COMPRESS_CHUNK
            } else {
                n
            };
            let chunk = vstd::slice::slice_subrange(data.as_slice(), i, end);
            match xz_enc_write(&mut enc, chunk) {
                Ok(_) => {},
                Err(e) => {
                    return Err(StageError::Codec(e));
                },
            }
            proof {
                assert(data@.subrange(0, i as int) + data@.subrange(i as int, end as int)
                    =~= data@.subrange(0, end as int));
            }
            i = end;
            let sub_now = tracker.sub;
            let bp = ratio_bp(i, n);
            if sub_now <= bp {
                tracker.set_sub(bp);
                send_sample(sink, tracker.sample());
            }
        }
        if tracker.sub < PROGRESS_SCALE {
            tracker.set_sub(PROGRESS_SCALE);
        }
        proof {
            assert(data@.subrange(0, n as int) =~= data@);
        }
        match xz_enc_finish(enc) {
            Ok(v) => {
                send_sample(sink, tracker.sample());
                Ok(v)
            },
            Err(e) => Err(StageError::Codec(e)),
        }
    }

    /// Decompresses a complete xz artifact, raising the current stage's
    /// progress by bytes consumed and stopping at the next chunk boundary
    /// once cancellation is requested.
    ///
    /// Any artifact this backend produced decodes back to exactly the bytes
    /// it was given; a corrupt or truncated artifact is reported as
    /// `CorruptStream`, distinct from an I/O failure.
    pub fn decompress(
        &self,
        input: &Vec<u8>,
        tracker: &mut ProgressTracker,
        sink: &ProgressSink,
        cancel: &CancelFlag,
    ) -> (r: Result<Vec<u8>, StageError>)
        requires
            old(tracker).wf(),
            old(tracker).completed < old(tracker).total,
        ensures
            final(tracker).wf(),
            final(tracker).total == old(tracker).total,
            final(tracker).completed == old(tracker).completed,
            old(tracker).frac() <= final(tracker).frac(),
            r matches Ok(d) ==> (forall|orig: Seq<u8>, lvl: int|
                0 <= lvl <= 9 && input@ == #[trigger] xz_encoded(orig, lvl) ==> d@ == orig)
                && final(tracker).sub == PROGRESS_SCALE,
            r is Err ==> r == Err::<Vec<u8>, StageError>(StageError::Cancelled) || r == Err::<
                Vec<u8>,
                StageError,
            >(StageError::Codec(CodecError::CorruptStream)),
            r == Err::<Vec<u8>, StageError>(StageError::Codec(CodecError::CorruptStream))
                ==> forall|orig: Seq<u8>, lvl: int|
                !(0 <= lvl <= 9 && input@ == #[trigger] xz_encoded(orig, lvl)),
    {
        let mut dec = xz_dec_new();
        let n = input.len();
        let mut i: usize = 0;
        while i < n
            invariant
                i <= n,
                n == input@.len(),
                xz_dec_fed(dec) == input@.subrange(0, i as int),
                tracker.wf(),
                tracker.total == old(tracker).total,
                tracker.completed == old(tracker).completed,
                tracker.completed < tracker.total,
                old(tracker).frac() <= tracker.frac(),
            decreases n - i,
        {
            if cancel.is_cancelled() {
                return Err(StageError::Cancelled);
            }
            let end = if n - i > COMPRESS_CHUNK {
                i + COMPRESS_CHUNK
            } else {
                n
            };
            let chunk = vstd::slice::slice_subrange(input.as_slice(), i, end);
            let ghost fed_before = xz_dec_fed(dec);
            match xz_dec_write(&mut dec, chunk) {
                Ok(_) => {},
                Err(_) => {
                    proof {
                        assert forall|orig: Seq<u8>, lvl: int|
                            !(0 <= lvl <= 9 && input@ == #[trigger] xz_encoded(orig, lvl)) by {
                            if 0 <= lvl <= 9 && input@ == xz_encoded(orig, lvl) {
                                assert(fed_before + chunk@ =~= input@.subrange(0, end as int));
                                assert(prefix_of(fed_before + chunk@, xz_encoded(orig, lvl)));
                            }
                        }
                    }
                    return Err(StageError::Codec(CodecError::CorruptStream));
                },
            }
            proof {
                assert(input@.subrange(0, i as int) + input@.subrange(i as int, end as int)
                    =~= input@.subrange(0, end as int));
            }
            i = end;
            let sub_now = tracker.sub;
            let bp = ratio_bp(i, n);
            if sub_now <= bp {
                tracker.set_sub(bp);
                send_sample(sink, tracker.sample());
            }
        }
        if tracker.sub < PROGRESS_SCALE {
            tracker.set_sub(PROGRESS_SCALE);
        }
        proof {
            assert(input@.subrange(0, n as int) =~= input@);
        }
        match xz_dec_finish(dec) {
            Ok(v) => {
                send_sample(sink, tracker.sample());
                Ok(v)
            },
            Err(_) => Err(StageError::Codec(CodecError::CorruptStream)),
        }
    }
}

impl ZstdCompress {
    /// Compresses `data` at `level`, raising the current stage's progress
    /// once per chunk and stopping at the next chunk boundary once
    /// cancellation is requested.
    pub fn compress(
        &self,
        data: &Vec<u8>,
        level: i32,
        tracker: &mut ProgressTracker,
        sink: &ProgressSink,
        cancel: &CancelFlag,
    ) -> (r: Result<Vec<u8>, StageError>)
        requires
            level_in_range(level),
            old(tracker).wf(),
            old(tracker).completed < old(tracker).total,
        ensures
            final(tracker).wf(),
            final(tracker).total == old(tracker).total,
            final(tracker).completed == old(tracker).completed,
            old(tracker).frac() <= final(tracker).frac(),
            r matches Ok(c) ==> c@ == zstd_encoded(data@, level as int) && final(tracker).sub
                == PROGRESS_SCALE,
            r is Err ==> r == Err::<Vec<u8>, StageError>(StageError::Cancelled) || (
            r matches Err(StageError::Codec(_))),
    {
        let mut enc = match zstd_enc_new(level) {
            Ok(e) => e,
            Err(e) => {
                return Err(StageError::Codec(e));
            },
        };
        let n = data.len();
        let mut i: usize = 0;
        while i < n
            invariant
                i <= n,
                n == data@.len(),
                zstd_enc_fed(enc) == data@.subrange(0, i as int),
                zstd_enc_level(enc) == level as int,
                tracker.wf(),
                tracker.total == old(tracker).total,
                tracker.completed == old(tracker).completed,
                tracker.completed < tracker.total,
                old(tracker).frac() <= tracker.frac(),
            decreases n - i,
        {
            if cancel.is_cancelled() {
                return Err(StageError::Cancelled);
            }
            let end = if n - i > COMPRESS_CHUNK {
                i + COMPRESS_CHUNK
            } else {
                n
            };
            let chunk = vstd::slice::slice_subrange(data.as_slice(), i, end);
            match zstd_enc_write(&mut enc, chunk) {
                Ok(_) => {},
                Err(e) => {
                    return Err(StageError::Codec(e));
                },
            }
            proof {
                assert(data@.subrange(0, i as int) + data@.subrange(i as int, end as int)
                    =~= data@.subrange(0, end as int));
            }
            i = end;
            let sub_now = tracker.sub;
            let bp = ratio_bp(i, n);
            if sub_now <= bp {
                tracker.set_sub(bp);
                send_sample(sink, tracker.sample());
            }
        }
        if tracker.sub < PROGRESS_SCALE {
            tracker.set_sub(PROGRESS_SCALE);
        }
        proof {
            assert(data@.subrange(0, n as int) =~= data@);
        }
        match zstd_enc_finish(enc) {
            Ok(v) => {
                send_sample(sink, tracker.sample());
                Ok(v)
            },
            Err(e) => Err(StageError::Codec(e)),
        }
    }

    /// Decompresses a complete zstd artifact, raising the current stage's
    /// progress by bytes consumed and stopping at the next chunk boundary
    /// once cancellation is requested.
    ///
    /// Any artifact this backend produced decodes back to exactly the bytes
    /// it was given; a corrupt or truncated artifact is reported as
    /// `CorruptStream`, distinct from an I/O failure.
    pub fn decompress(
        &self,
        input: &Vec<u8>,
        tracker: &mut ProgressTracker,
        sink: &ProgressSink,
        cancel: &CancelFlag,
    ) -> (r: Result<Vec<u8>, StageError>)
        requires
            old(tracker).wf(),
            old(tracker).completed < old(tracker).total,
        ensures
            final(tracker).wf(),
            final(tracker).total == old(tracker).total,
            final(tracker).completed == old(tracker).completed,
            old(tracker).frac() <= final(tracker).frac(),
            r matches Ok(d) ==> (forall|orig: Seq<u8>, lvl: int|
                0 <= lvl <= 9 && input@ == #[trigger] zstd_encoded(orig, lvl) ==> d@ == orig)
                && final(tracker).sub == PROGRESS_SCALE,
            r is Err ==> r == Err::<Vec<u8>, StageError>(StageError::Cancelled) || r == Err::<
                Vec<u8>,
                StageError,
            >(StageError::Codec(CodecError::CorruptStream)) || r == Err::<Vec<u8>, StageError>(
                StageError::Codec(CodecError::Io),
            ),
            r == Err::<Vec<u8>, StageError>(StageError::Codec(CodecError::CorruptStream))
                ==> forall|orig: Seq<u8>, lvl: int|
                !(0 <= lvl <= 9 && input@ == #[trigger] zstd_encoded(orig, lvl)),
    {
        let mut dec = match zstd_dec_new() {
            Ok(d) => d,
            Err(e) => {
                return Err(StageError::Codec(e));
            },
        };
        let n = input.len();
        let mut i: usize = 0;
        while i < n
            invariant
                i <= n,
                n == input@.len(),
                zstd_dec_fed(dec) == input@.subrange(0, i as int),
                tracker.wf(),
                tracker.total == old(tracker).total,
                tracker.completed == old(tracker).completed,
                tracker.completed < tracker.total,
                old(tracker).frac() <= tracker.frac(),
            decreases n - i,
        {
            if cancel.is_cancelled() {
                return Err(StageError::Cancelled);
            }
            let end = if n - i > COMPRESS_CHUNK {
                i + COMPRESS_CHUNK
            } else {
                n
            };
            let chunk = vstd::slice::slice_subrange(input.as_slice(), i, end);
            let ghost fed_before = zstd_dec_fed(dec);
            match zstd_dec_write(&mut dec, chunk) {
                Ok(_) => {},
                Err(_) => {
                    proof {
                        assert forall|orig: Seq<u8>, lvl: int|
                            !(0 <= lvl <= 9 && input@ == #[trigger] zstd_encoded(orig, lvl)) by {
                            if 0 <= lvl <= 9 && input@ == zstd_encoded(orig, lvl) {
                                assert(fed_before + chunk@ =~= input@.subrange(0, end as int));
                                assert(prefix_of(fed_before + chunk@, zstd_encoded(orig, lvl)));
                            }
                        }
                    }
                    return Err(StageError::Codec(CodecError::CorruptStream));
                },
            }
            proof {
                assert(input@.subrange(0, i as int) + input@.subrange(i as int, end as int)
                    =~= input@.subrange(0, end as int));
            }
            i = end;
            let sub_now = tracker.sub;
            let bp = ratio_bp(i, n);
            if sub_now <= bp {
                tracker.set_sub(bp);
                send_sample(sink, tracker.sample());
            }
        }
        if tracker.sub < PROGRESS_SCALE {
            tracker.set_sub(PROGRESS_SCALE);
        }
        proof {
            assert(input@.subrange(0, n as int) =~= input@);
        }
        match zstd_dec_finish(dec) {
            Ok(v) => {
                send_sample(sink, tracker.sample());
                Ok(v)
            },
            Err(_) => Err(StageError::Codec(CodecError::CorruptStream)),
        }
    }
}

} // verus!
