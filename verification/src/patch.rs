//! The patch container: a 32-byte header (magic tag, compressed control and
//! diff segment lengths, declared target length) followed by the three
//! bzip2-compressed segments back to back. The extra segment runs to the end
//! of the patch.

use vstd::prelude::*;

use crate::codec::signed_value;
use crate::codec::wrap64;
use crate::engine::apply_streams;
use crate::engine::apply_streams_spec;
use crate::error::Error;

verus! {

/// Default size of the copy buffer.
pub const DEFAULT_BUFFER_SIZE: usize = 131072;

/// Whether a patch starts with the bsdiff 4.x magic tag, `BSDIFF40` in ASCII.
pub open spec fn has_magic(p: Seq<u8>) -> bool {
    p.len() >= 8 && p[0] == 0x42 && p[1] == 0x53 && p[2] == 0x44 && p[3] == 0x49 && p[4] == 0x46
        && p[5] == 0x46 && p[6] == 0x34 && p[7] == 0x30
}

/// The lengths a patch header declares.
#[derive(Clone, Copy, Debug, PartialEq, Eq, Structural)]
pub struct PatchHeader {
    /// Compressed length of the control segment.
    pub ctrl_len: u64,
    /// Compressed length of the diff segment.
    pub diff_len: u64,
    /// Compressed length of the extra segment: the bytes left after the
    /// first two segments.
    pub extra_len: u64,
    /// Length the reconstructed target must have.
    pub target_len: u64,
}

/// What parsing a patch header yields: its declared lengths, or the error
/// for a short container, a wrong magic tag, or segment lengths that exceed
/// the bytes present.
pub open spec fn header_spec(p: Seq<u8>) -> Result<PatchHeader, Error> {
    if p.len() < 32 {
        Err(Error::TruncatedPatch)
    } else if !has_magic(p) {
        Err(Error::InvalidHeader)
    } else {
        let cl = wrap64(signed_value(p.subrange(8, 16)));
        let dl = wrap64(signed_value(p.subrange(16, 24)));
        let tl = wrap64(signed_value(p.subrange(24, 32)));
        if 32 + cl + dl > p.len() {
            Err(Error::TruncatedPatch)
        } else {
            Ok(
                PatchHeader {
                    ctrl_len: cl,
                    diff_len: dl,
                    extra_len: (p.len() - 32 - cl - dl) as u64,
                    target_len: tl,
                },
            )
        }
    }
}

/// Validates a patch header and returns the declared lengths.
pub fn parse_header(patch: &[u8]) -> (r: Result<PatchHeader, Error>)
    ensures
        r matches Ok(h) ==> header_spec(patch@) == Ok::<PatchHeader, Error>(h),
        r matches Err(e) ==> header_spec(patch@) == Err::<PatchHeader, Error>(e),
{
    proof {
        vstd::slice::axiom_spec_len(patch);
    }
    if patch.len() < 32 {
        return Err(Error::TruncatedPatch);
    }
    if patch[0] != 0x42 || patch[1] != 0x53 || patch[2] != 0x44 || patch[3] != 0x49 || patch[4]
        != 0x46 || patch[5] != 0x46 || patch[6] != 0x34 || patch[7] != 0x30 {
        return Err(Error::InvalidHeader);
    }
    let cl = crate::codec::read_length(patch, 8);
    let dl = crate::codec::read_length(patch, 16);
    let tl = crate::codec::read_length(patch, 24);
    if 32 + cl as u128 + dl as u128 > patch.len() as u128 {
        return Err(Error::TruncatedPatch);
    }
    let el = (patch.len() - 32 - cl as usize - dl as usize) as u64;
    Ok(PatchHeader { ctrl_len: cl, diff_len: dl, extra_len: el, target_len: tl })
}

/// The bytes that bzip2 decompression yields for a compressed segment, or
/// `None` when the segment is not a well-formed bzip2 stream. Decompression
/// is a pure function of the input bytes.
pub uninterp spec fn inflated(s: Seq<u8>) -> Option<Seq<u8>>;

/// Relies on `bzip2::read::BzDecoder` (driven by `std::io::Read::read_to_end`):
/// whether decoding fails, and the decoded bytes when it does not, depend on
/// the input bytes alone.
#[verifier::external_body]
fn bz_inflate(data: &[u8]) -> (r: Result<Vec<u8>, Error>)
    ensures
        r matches Ok(v) ==> inflated(data@) == Some(v@),
        r matches Err(e) ==> inflated(data@) is None && e == Error::CorruptStream,
{
    let mut out = Vec::new();
    let mut dec = bzip2::read::BzDecoder::new(data);
    match std::io::Read::read_to_end(&mut dec, &mut out) {
        Ok(_) => Ok(out),
        Err(_) => Err(Error::CorruptStream),
    }
}

/// The result of applying a parsed patch whose three segments are still
/// compressed: decompress control, diff and extra in that order, then replay.
pub open spec fn apply_compressed_spec(
    ctrl: Seq<u8>,
    diff: Seq<u8>,
    extra: Seq<u8>,
    target_len: u64,
    src: Seq<u8>,
) -> Result<Seq<u8>, Error> {
    if inflated(ctrl) is None || inflated(diff) is None || inflated(extra) is None {
        Err(Error::CorruptStream)
    } else {
        apply_streams_spec(
            inflated(ctrl).unwrap(),
            inflated(diff).unwrap(),
            inflated(extra).unwrap(),
            src,
            target_len,
        )
    }
}

/// The result of applying a whole patch container to a source.
pub open spec fn apply_patch_spec(p: Seq<u8>, src: Seq<u8>) -> Result<Seq<u8>, Error> {
    match header_spec(p) {
        Err(e) => Err(e),
        Ok(h) => apply_compressed_spec(
            p.subrange(32, 32 + h.ctrl_len as int),
            p.subrange(32 + h.ctrl_len as int, 32 + h.ctrl_len as int + h.diff_len as int),
            p.subrange(32 + h.ctrl_len as int + h.diff_len as int, p.len() as int),
            h.target_len,
            src,
        ),
    }
}

/// A parsed patch, ready to apply.
///
/// `buffer_size` and `delta_min` tune how a streaming consumer would batch
/// its reads and writes; as the contract of [`Bspatch::apply`] shows, the
/// reconstructed bytes never depend on them. The one constraint is that a
/// zero buffer size is rejected before any work is done.
pub struct Bspatch {
    /// The compressed control segment.
    pub ctrl: Vec<u8>,
    /// The compressed diff segment.
    pub diff: Vec<u8>,
    /// The compressed extra segment.
    pub extra: Vec<u8>,
    /// Length the reconstructed target must have.
    pub target_len: u64,
    /// Size of the copy buffer.
    pub buffer_size: usize,
    /// Combined length under which consecutive small operations may be
    /// merged into one read/copy/write cycle.
    pub delta_min: usize,
}

impl Bspatch {
    /// Parses the patch container and partitions it into its three
    /// compressed segments, with default tuning.
    pub fn new(patch: &[u8]) -> (r: Result<Bspatch, Error>)
        ensures
            header_spec(patch@) matches Ok(h) ==> (r matches Ok(b) && b.target_len
                == h.target_len && b.buffer_size == DEFAULT_BUFFER_SIZE && b.delta_min
                == DEFAULT_BUFFER_SIZE / 4 && b.ctrl@ == patch@.subrange(
                32,
                32 + h.ctrl_len as int,
            ) && b.diff@ == patch@.subrange(
                32 + h.ctrl_len as int,
                32 + h.ctrl_len as int + h.diff_len as int,
            ) && b.extra@ == patch@.subrange(
                32 + h.ctrl_len as int + h.diff_len as int,
                patch@.len() as int,
            )),
            header_spec(patch@) matches Err(e) ==> r == Err::<Bspatch, Error>(e),
    {
        proof {
            vstd::slice::axiom_spec_len(patch);
        }
        let h = match parse_header(patch) {
            Ok(h) => h,
            Err(e) => return Err(e),
        };
        let cl = h.ctrl_len as usize;
        let dl = h.diff_len as usize;
        let ctrl = vstd::slice::slice_to_vec(vstd::slice::slice_subrange(patch, 32, 32 + cl));
        let diff = vstd::slice::slice_to_vec(
            vstd::slice::slice_subrange(patch, 32 + cl, 32 + cl + dl),
        );
        let extra = vstd::slice::slice_to_vec(
            vstd::slice::slice_subrange(patch, 32 + cl + dl, patch.len()),
        );
        Ok(
            Bspatch {
                ctrl,
                diff,
                extra,
                target_len: h.target_len,
                buffer_size: DEFAULT_BUFFER_SIZE,
                delta_min: DEFAULT_BUFFER_SIZE / 4,
            },
        )
    }

    /// Sets the copy buffer size; zero is rejected when the patch is applied.
    pub fn buffer_size(self, bs: usize) -> (r: Bspatch)
        ensures
            r == (Bspatch { buffer_size: bs, ..self }),
    {
        Bspatch { buffer_size: bs, ..self }
    }

    /// Sets the merge threshold for small consecutive operations.
    pub fn delta_min(self, dm: usize) -> (r: Bspatch)
        ensures
            r == (Bspatch { delta_min: dm, ..self }),
    {
        Bspatch { delta_min: dm, ..self }
    }

    /// The target length the patch declares.
    pub fn hint_target_size(&self) -> (r: u64)
        ensures
            r == self.target_len,
    {
        self.target_len
    }

    /// Applies the patch to `source`, reconstructing the target bytes.
    ///
    /// With a valid configuration the result is exactly what decompressing
    /// the three segments and replaying the control stream yields, and in
    /// particular does not depend on `buffer_size` or `delta_min`.
    pub fn apply(&self, source: &[u8]) -> (r: Result<Vec<u8>, Error>)
        ensures
            self.buffer_size == 0 ==> r == Err::<Vec<u8>, Error>(Error::InvalidConfiguration),
            self.buffer_size != 0 ==> (r matches Ok(v) ==> apply_compressed_spec(
                self.ctrl@,
                self.diff@,
                self.extra@,
                self.target_len,
                source@,
            ) == Ok::<Seq<u8>, Error>(v@)),
            self.buffer_size != 0 ==> (r matches Err(e) ==> apply_compressed_spec(
                self.ctrl@,
                self.diff@,
                self.extra@,
                self.target_len,
                source@,
            ) == Err::<Seq<u8>, Error>(e)),
    {
        if self.buffer_size == 0 {
            return Err(Error::InvalidConfiguration);
        }
        let ctrl = match bz_inflate(self.ctrl.as_slice()) {
            Ok(v) => v,
            Err(e) => return Err(e),
        };
        let diff = match bz_inflate(self.diff.as_slice()) {
            Ok(v) => v,
            Err(e) => return Err(e),
        };
        let extra = match bz_inflate(self.extra.as_slice()) {
            Ok(v) => v,
            Err(e) => return Err(e),
        };
        apply_streams(
            ctrl.as_slice(),
            diff.as_slice(),
            extra.as_slice(),
            source,
            self.target_len,
        )
    }
}

/// Applies a whole patch container to `source` with the given buffer size;
/// the merge threshold defaults to a quarter of the buffer.
pub fn apply_patch(patch: &[u8], source: &[u8], buffer_size: usize) -> (r: Result<
    Vec<u8>,
    Error,
>)
    ensures
        buffer_size == 0 ==> r == Err::<Vec<u8>, Error>(Error::InvalidConfiguration),
        buffer_size != 0 ==> (r matches Ok(v) ==> apply_patch_spec(patch@, source@) == Ok::<
            Seq<u8>,
            Error,
        >(v@)),
        buffer_size != 0 ==> (r matches Err(e) ==> apply_patch_spec(patch@, source@) == Err::<
            Seq<u8>,
            Error,
        >(e)),
{
    if buffer_size == 0 {
        return Err(Error::InvalidConfiguration);
    }
    let b = match Bspatch::new(patch) {
        Ok(b) => b,
        Err(e) => return Err(e),
    };
    let b = b.buffer_size(buffer_size);
    let b = b.delta_min(buffer_size / 4);
    b.apply(source)
}

} // verus!
