//! Boot image support
//!
//! An image starts with a fixed 32-byte header.  The image body follows the
//! header padding, and a region of length-tagged metadata records (TLVs)
//! follows the body.  Validation walks the records and checks the SHA-256
//! record against a digest computed by streaming the image from flash.
use vstd::prelude::*;

use crate::hash::{sha256_fed, sha256_finalize, sha256_new, sha256_of, sha256_update};
use crate::storage::{self, access_outcome, covers, ReadFlash};
use crate::{Error, MappedFlash};

verus! {

/// The image header contains the following magic value, indicating the
/// interpretation of the rest of the image header.
pub const IMAGE_MAGIC: u32 = 0x96f3b83d;

/// The TLV region starts with this magic value.
pub const TLV_INFO_MAGIC: u16 = 0x6907;

/// The kind of the SHA-256 record.
pub const TLV_SHA256: u16 = 0x10;

/// The size of the image header.
pub const IMAGE_HEADER_SIZE: usize = 32;

/// The size of the TLV region header, and of each record header.
pub const TLV_HEADER_SIZE: usize = 4;

/// The size of a SHA-256 digest.
pub const SHA256_SIZE: usize = 32;

/// The largest read made while hashing the image.
pub const HASH_CHUNK: usize = 128;

/// The little-endian 16-bit value at `at` in `s`.
pub open spec fn le16(s: Seq<u8>, at: int) -> int {
    s[at] as int + 256 * s[at + 1] as int
}

/// The little-endian 32-bit value at `at` in `s`.
pub open spec fn le32(s: Seq<u8>, at: int) -> int {
    le16(s, at) + 65536 * le16(s, at + 2)
}

pub(crate) fn read_le16(b: &[u8], at: usize) -> (r: u16)
    requires
        at + 2 <= b@.len(),
    ensures
        r == le16(b@, at as int),
{
    b[at] as u16 + 256 * (b[at + 1] as u16)
}

pub(crate) fn read_le32(b: &[u8], at: usize) -> (r: u32)
    requires
        at + 4 <= b@.len(),
        at + 4 <= usize::MAX,
    ensures
        r == le32(b@, at as int),
{
    read_le16(b, at) as u32 + 65536 * (read_le16(b, at + 2) as u32)
}

/// A view of a flash device: what every read of it returns, and the
/// write-side state that reads leave alone.
pub struct FlashView {
    pub read_size: nat,
    pub contents: Seq<u8>,
    pub written: Set<int>,
    /// The write-side state, which reads leave alone.
    pub write_size: nat,
    pub erase_size: nat,
    pub erased: Set<int>,
}

/// The view of the device `f`.
pub open spec fn view_of<F: ReadFlash>(f: F) -> FlashView {
    FlashView {
        read_size: f.spec_read_size(),
        contents: f.spec_contents(),
        written: f.spec_written(),
        write_size: f.spec_write_size(),
        erase_size: f.spec_erase_size(),
        erased: f.spec_erased(),
    }
}

impl FlashView {
    /// What a read of `len` bytes at `offset` returns.
    pub open spec fn read(self, offset: int, len: int) -> Result<Seq<u8>, storage::Error> {
        match access_outcome(
            self.contents.len() as int,
            self.read_size as int,
            self.written,
            storage::Error::NotWritten,
            offset,
            len,
        ) {
            Err(e) => Err(e),
            Ok(_) => Ok(self.contents.subrange(offset, offset + len)),
        }
    }

    /// What reading `[pos, end)` in chunks of at most `HASH_CHUNK` bytes
    /// returns: the error of the first chunk that fails, if any.
    pub open spec fn read_chunks(self, pos: int, end: int) -> Result<(), storage::Error>
        decreases end - pos,
    {
        if pos >= end {
            Ok(())
        } else {
            let n = if end - pos < HASH_CHUNK {
                end - pos
            } else {
                HASH_CHUNK as int
            };
            match self.read(pos, n) {
                Err(e) => Err(e),
                Ok(_) => self.read_chunks(pos + n, end),
            }
        }
    }
}

/// Each image has a version.  This is a pseudo-semantic version used to
/// determine upgrade eligibility and compatibility between multi-image setups.
#[derive(Debug, Clone, Copy, PartialEq, Eq, Structural)]
pub struct ImageVersion {
    pub major: u8,
    pub minor: u8,
    pub revision: u16,
    pub build_num: u32,
}

/// The image begins with the following header, little-endian on the wire.
#[derive(Debug, Clone, Copy, PartialEq, Eq, Structural)]
pub struct ImageHeader {
    /// Magic number, indicates this particular header.
    pub magic: u32,
    /// The address to load this image.  Only used for non-XIP.
    pub load_addr: u32,
    /// The size of the header, including the padding before the image body.
    pub hdr_size: u16,
    /// The size of the protected TLV.
    pub protected_tlv_size: u16,
    /// The size of the image, not counting the header.
    pub img_size: u32,
    /// Flags for this image.
    pub flags: u32,
    /// Version of this particular image.
    pub version: ImageVersion,
    /// Padding, to reach a nicely aligned size.
    pub pad1: u32,
}

/// The header that the 32 bytes `s` encode.
pub open spec fn header_of(s: Seq<u8>) -> ImageHeader {
    ImageHeader {
        magic: le32(s, 0) as u32,
        load_addr: le32(s, 4) as u32,
        hdr_size: le16(s, 8) as u16,
        protected_tlv_size: le16(s, 10) as u16,
        img_size: le32(s, 12) as u32,
        flags: le32(s, 16) as u32,
        version: ImageVersion {
            major: s[20],
            minor: s[21],
            revision: le16(s, 22) as u16,
            build_num: le32(s, 24) as u32,
        },
        pad1: le32(s, 28) as u32,
    }
}

impl ImageHeader {
    /// Decode a header from its 32 bytes.
    pub fn from_bytes(b: &[u8]) -> (r: ImageHeader)
        requires
            b@.len() == IMAGE_HEADER_SIZE,
        ensures
            r == header_of(b@),
    {
        ImageHeader {
            magic: read_le32(b, 0),
            load_addr: read_le32(b, 4),
            hdr_size: read_le16(b, 8),
            protected_tlv_size: read_le16(b, 10),
            img_size: read_le32(b, 12),
            flags: read_le32(b, 16),
            version: ImageVersion {
                major: b[20],
                minor: b[21],
                revision: read_le16(b, 22),
                build_num: read_le32(b, 24),
            },
            pad1: read_le32(b, 28),
        }
    }
}

/// Where an image stands in a flash, as `from_flash` finds it: its header,
/// the offset of its TLV region, and the size of that region; or the error.
///
/// The entries are not walked here.  An image whose TLV header would lie past
/// the end of the flash is invalid, as is one whose full size does not fit in
/// a `usize`.
pub open spec fn image_layout(v: FlashView) -> Result<(ImageHeader, int, int), Error> {
    match v.read(0, IMAGE_HEADER_SIZE as int) {
        Err(e) => Err(Error::Flash(e)),
        Ok(raw) => {
            let h = header_of(raw);
            let base = h.hdr_size + h.img_size;
            if h.magic != IMAGE_MAGIC {
                Err(Error::InvalidImage)
            } else if base + TLV_HEADER_SIZE > v.contents.len() {
                Err(Error::InvalidImage)
            } else {
                match v.read(base, TLV_HEADER_SIZE as int) {
                    Err(e) => Err(Error::Flash(e)),
                    Ok(info) => if le16(info, 0) != TLV_INFO_MAGIC {
                        Err(Error::InvalidImage)
                    } else if base + le16(info, 2) > usize::MAX {
                        Err(Error::InvalidImage)
                    } else {
                        Ok((h, base, le16(info, 2)))
                    },
                }
            }
        },
    }
}

/// The record header at `pos` of a TLV region at `base` whose declared
/// length is `limit`: its kind and payload length; or the error.  A record
/// that does not fit in the region is invalid.
pub open spec fn entry_at(v: FlashView, base: int, pos: int, limit: int) -> Result<(u16, int), Error> {
    if base + pos + TLV_HEADER_SIZE > usize::MAX || pos + TLV_HEADER_SIZE > limit {
        Err(Error::InvalidImage)
    } else {
        match v.read(base + pos, TLV_HEADER_SIZE as int) {
            Err(e) => Err(Error::Flash(e)),
            Ok(raw) => if pos + TLV_HEADER_SIZE + le16(raw, 2) > limit {
                Err(Error::InvalidImage)
            } else {
                Ok((le16(raw, 0) as u16, le16(raw, 2)))
            },
        }
    }
}

/// What checking a SHA-256 record whose payload of `len` bytes is at `at`
/// returns, for an image whose TLV region starts at `base`.
pub open spec fn sha_record_check(v: FlashView, base: int, at: int, len: int) -> Result<(), Error> {
    if len != SHA256_SIZE {
        Err(Error::InvalidImage)
    } else {
        match v.read(at, len) {
            Err(e) => Err(Error::Flash(e)),
            Ok(payload) => match v.read_chunks(0, base) {
                Err(e) => Err(Error::Flash(e)),
                Ok(_) => if payload == sha256_of(v.contents.subrange(0, base)) {
                    Ok(())
                } else {
                    Err(Error::InvalidImage)
                },
            },
        }
    }
}

/// What validating the records from `pos` on returns, in a TLV region at
/// `base` of declared length `limit`, `seen` telling whether a SHA-256 record
/// has been checked already.  Every record must be the one SHA-256 record.
pub open spec fn walk_records(v: FlashView, base: int, pos: int, limit: int, seen: bool) -> Result<
    (),
    Error,
>
    decreases limit - pos,
{
    if pos >= limit {
        if seen {
            Ok(())
        } else {
            Err(Error::InvalidImage)
        }
    } else {
        match entry_at(v, base, pos, limit) {
            Err(e) => Err(e),
            Ok((kind, len)) => if kind != TLV_SHA256 || seen {
                Err(Error::InvalidImage)
            } else {
                match sha_record_check(v, base, base + pos + TLV_HEADER_SIZE, len) {
                    Err(e) => Err(e),
                    Ok(_) => walk_records(v, base, pos + TLV_HEADER_SIZE + len, limit, true),
                }
            },
        }
    }
}

/// What validating an image whose TLV region is at `base` returns.
pub open spec fn validation(v: FlashView, base: int) -> Result<(), Error> {
    match v.read(base, TLV_HEADER_SIZE as int) {
        Err(e) => Err(Error::Flash(e)),
        Ok(info) => if le16(info, 0) != TLV_INFO_MAGIC {
            Err(Error::InvalidImage)
        } else {
            walk_records(v, base, TLV_HEADER_SIZE as int, le16(info, 2), false)
        },
    }
}

/// The offset of the TLV region of the image `b`.
pub open spec fn tlv_offset(b: Seq<u8>) -> int {
    let h = header_of(b.subrange(0, IMAGE_HEADER_SIZE as int));
    h.hdr_size + h.img_size
}

/// The framing of a signed image: a header with the image magic, then right
/// after the body a TLV region holding exactly one record, a SHA-256 one, and
/// nothing after it.
pub open spec fn framed_image(b: Seq<u8>) -> bool {
    let base = tlv_offset(b);
    &&& b.len() >= IMAGE_HEADER_SIZE
    &&& header_of(b.subrange(0, IMAGE_HEADER_SIZE as int)).magic == IMAGE_MAGIC
    &&& b.len() == base + 40
    &&& le16(b, base) == TLV_INFO_MAGIC
    &&& le16(b, base + 2) == 40
    &&& le16(b, base + 4) == TLV_SHA256
    &&& le16(b, base + 6) == SHA256_SIZE
}

/// The SHA-256 payload of a framed image.
pub open spec fn sha_payload(b: Seq<u8>) -> Seq<u8> {
    b.subrange(tlv_offset(b) + 8, tlv_offset(b) + 40)
}

/// A signed image: framed, with a payload that is the digest of everything
/// before the TLV region.
pub open spec fn signed_image(b: Seq<u8>) -> bool {
    &&& framed_image(b)
    &&& sha_payload(b) == sha256_of(b.subrange(0, tlv_offset(b)))
}

/// The flash `v` holds `b` at its start, programmed, and reads byte by byte.
pub open spec fn holds_at_start(v: FlashView, b: Seq<u8>) -> bool {
    &&& v.read_size == 1
    &&& b.len() <= v.contents.len() <= usize::MAX
    &&& v.contents.subrange(0, b.len() as int) == b
    &&& covers(v.written, 0, b.len() as int)
}

proof fn lemma_read_held(v: FlashView, b: Seq<u8>, offset: int, len: int)
    requires
        holds_at_start(v, b),
        0 <= offset,
        0 <= len,
        offset + len <= b.len(),
    ensures
        v.read(offset, len) == Ok::<Seq<u8>, storage::Error>(b.subrange(offset, offset + len)),
{
    assert(covers(v.written, offset, len)) by {
        assert forall|a: int| offset <= a < offset + len implies #[trigger] v.written.contains(a) by {
            assert(v.written.contains(a));
        }
    }
    assert forall|k: int| 0 <= k < len implies #[trigger] v.contents.subrange(offset, offset + len)[k]
        == b.subrange(offset, offset + len)[k] by {
        assert(v.contents.subrange(0, b.len() as int)[offset + k] == b[offset + k]);
    }
    assert(v.contents.subrange(offset, offset + len) =~= b.subrange(offset, offset + len));
}

proof fn lemma_read_chunks_held(v: FlashView, b: Seq<u8>, pos: int, end: int)
    requires
        holds_at_start(v, b),
        0 <= pos,
        end <= b.len(),
    ensures
        v.read_chunks(pos, end) == Ok::<(), storage::Error>(()),
    decreases end - pos,
{
    if pos < end {
        let n = if end - pos < HASH_CHUNK {
            end - pos
        } else {
            HASH_CHUNK as int
        };
        lemma_read_held(v, b, pos, n);
        lemma_read_chunks_held(v, b, pos + n, end);
    }
}

/// How a framed image held at the start of a flash is found and validated:
/// `from_flash` finds it, and `validate` accepts it exactly when its payload
/// is the digest of everything before its TLV region.
proof fn lemma_framed_image(v: FlashView, b: Seq<u8>)
    requires
        holds_at_start(v, b),
        framed_image(b),
    ensures
        image_layout(v) == Ok::<(ImageHeader, int, int), Error>(
            (header_of(b.subrange(0, IMAGE_HEADER_SIZE as int)), tlv_offset(b), 40),
        ),
        validation(v, tlv_offset(b)) == if sha_payload(b) == sha256_of(b.subrange(0, tlv_offset(b))) {
            Ok::<(), Error>(())
        } else {
            Err(Error::InvalidImage)
        },
{
    let base = tlv_offset(b);
    lemma_read_held(v, b, 0, IMAGE_HEADER_SIZE as int);
    lemma_read_held(v, b, base, 4);
    lemma_read_held(v, b, base + 4, 4);
    lemma_read_held(v, b, base + 8, 32);
    lemma_read_chunks_held(v, b, 0, base);
    let info = b.subrange(base, base + 4);
    assert(le16(info, 0) == le16(b, base));
    assert(le16(info, 2) == le16(b, base + 2));
    let raw = b.subrange(base + 4, base + 8);
    assert(le16(raw, 0) == le16(b, base + 4));
    assert(le16(raw, 2) == le16(b, base + 6));
    assert(v.contents.subrange(0, base) =~= b.subrange(0, base)) by {
        assert forall|k: int| 0 <= k < base implies #[trigger] v.contents.subrange(0, base)[k] == b.subrange(
            0,
            base,
        )[k] by {
            assert(v.contents.subrange(0, b.len() as int)[k] == b[k]);
        }
    }
    assert(walk_records(v, base, 40, 40, true) == Ok::<(), Error>(()));
    assert(entry_at(v, base, 4, 40) == Ok::<(u16, int), Error>((TLV_SHA256, 32)));
}

/// A signed image installed at the start of a flash is found by `from_flash`
/// and accepted by `validate`.  (`SimFlash::install` leaves the image
/// programmed at its offset; the simulator styles read byte by byte.)
pub proof fn lemma_signed_image_validates(v: FlashView, b: Seq<u8>)
    requires
        holds_at_start(v, b),
        signed_image(b),
    ensures
        image_layout(v) == Ok::<(ImageHeader, int, int), Error>(
            (header_of(b.subrange(0, IMAGE_HEADER_SIZE as int)), tlv_offset(b), 40),
        ),
        validation(v, tlv_offset(b)) == Ok::<(), Error>(()),
{
    lemma_framed_image(v, b);
}

/// Changing one byte of a signed image, inside its body or inside its SHA-256
/// payload, makes `validate` fail with `InvalidImage`; for a change in the
/// body, provided that the digest of the image changes with it.  The changed
/// byte lies past the 32-byte header, as the body and payload of any image
/// whose header area holds the header do.
pub proof fn lemma_tampered_image_rejected(v: FlashView, b: Seq<u8>, i: int, x: u8)
    requires
        signed_image(b),
        IMAGE_HEADER_SIZE <= i,
        x != b[i],
        header_of(b.subrange(0, IMAGE_HEADER_SIZE as int)).hdr_size <= i < tlv_offset(b) || tlv_offset(b)
            + 8 <= i < tlv_offset(b) + 40,
        i < tlv_offset(b) ==> sha256_of(b.update(i, x).subrange(0, tlv_offset(b))) != sha256_of(
            b.subrange(0, tlv_offset(b)),
        ),
        holds_at_start(v, b.update(i, x)),
    ensures
        image_layout(v) == Ok::<(ImageHeader, int, int), Error>(
            (header_of(b.subrange(0, IMAGE_HEADER_SIZE as int)), tlv_offset(b), 40),
        ),
        validation(v, tlv_offset(b)) == Err::<(), Error>(Error::InvalidImage),
{
    let c = b.update(i, x);
    let base = tlv_offset(b);
    assert(c.subrange(0, IMAGE_HEADER_SIZE as int) =~= b.subrange(0, IMAGE_HEADER_SIZE as int));
    assert(tlv_offset(c) == base);
    assert(le16(c, base) == le16(b, base));
    assert(le16(c, base + 2) == le16(b, base + 2));
    assert(le16(c, base + 4) == le16(b, base + 4));
    assert(le16(c, base + 6) == le16(b, base + 6));
    lemma_framed_image(v, c);
    if i < base {
        assert(sha_payload(c) =~= sha_payload(b));
    } else {
        assert(c.subrange(0, base) =~= b.subrange(0, base));
        assert(sha_payload(c)[i - base - 8] != sha_payload(b)[i - base - 8]);
    }
}

/// An image whose TLV region holds two SHA-256 records, one after the other
/// and nothing else.
pub open spec fn doubled_sha_image(b: Seq<u8>) -> bool {
    let base = tlv_offset(b);
    &&& b.len() >= IMAGE_HEADER_SIZE
    &&& header_of(b.subrange(0, IMAGE_HEADER_SIZE as int)).magic == IMAGE_MAGIC
    &&& b.len() == base + 76
    &&& le16(b, base) == TLV_INFO_MAGIC
    &&& le16(b, base + 2) == 76
    &&& le16(b, base + 4) == TLV_SHA256
    &&& le16(b, base + 6) == SHA256_SIZE
    &&& le16(b, base + 40) == TLV_SHA256
    &&& le16(b, base + 42) == SHA256_SIZE
}

/// A second SHA-256 record makes `validate` fail with `InvalidImage`,
/// whatever the payloads hold.
pub proof fn lemma_duplicate_sha_rejected(v: FlashView, b: Seq<u8>)
    requires
        holds_at_start(v, b),
        doubled_sha_image(b),
    ensures
        image_layout(v) == Ok::<(ImageHeader, int, int), Error>(
            (header_of(b.subrange(0, IMAGE_HEADER_SIZE as int)), tlv_offset(b), 76),
        ),
        validation(v, tlv_offset(b)) == Err::<(), Error>(Error::InvalidImage),
{
    let base = tlv_offset(b);
    lemma_read_held(v, b, 0, IMAGE_HEADER_SIZE as int);
    lemma_read_held(v, b, base, 4);
    lemma_read_held(v, b, base + 4, 4);
    lemma_read_held(v, b, base + 8, 32);
    lemma_read_held(v, b, base + 40, 4);
    lemma_read_chunks_held(v, b, 0, base);
    let info = b.subrange(base, base + 4);
    assert(le16(info, 0) == le16(b, base));
    assert(le16(info, 2) == le16(b, base + 2));
    let first = b.subrange(base + 4, base + 8);
    assert(le16(first, 0) == le16(b, base + 4));
    assert(le16(first, 2) == le16(b, base + 6));
    let second = b.subrange(base + 40, base + 44);
    assert(le16(second, 0) == le16(b, base + 40));
    assert(le16(second, 2) == le16(b, base + 42));
    assert(entry_at(v, base, 40, 76) == Ok::<(u16, int), Error>((TLV_SHA256, 32)));
    assert(walk_records(v, base, 40, 76, true) == Err::<(), Error>(Error::InvalidImage));
    assert(entry_at(v, base, 4, 76) == Ok::<(u16, int), Error>((TLV_SHA256, 32)));
}

/// An image that claims a body of `u32::MAX` bytes is rejected as invalid by
/// `from_flash` on any flash smaller than 4 GiB.
pub proof fn lemma_oversized_image_rejected(v: FlashView)
    requires
        v.read(0, IMAGE_HEADER_SIZE as int) matches Ok(raw) && header_of(raw).img_size == u32::MAX,
        v.contents.len() < 0x1_0000_0000,
    ensures
        image_layout(v) == Err::<(ImageHeader, int, int), Error>(Error::InvalidImage),
{
}

/// An image is a bootable image residing in a flash partition.  There is a
/// header at the beginning, and metadata immediately following the image.
/// The flash it was found in is handed to each method that reads it.
pub struct Image {
    pub header: ImageHeader,
    tlv_base: usize,
    tlv_size: usize,
}

impl Image {
    #[verifier::type_invariant]
    closed spec fn inv(&self) -> bool {
        self.tlv_base + self.tlv_size <= usize::MAX
    }

    /// The header of the image.
    pub closed spec fn spec_header(&self) -> ImageHeader {
        self.header
    }

    /// The header of the image.
    pub fn header(&self) -> (r: ImageHeader)
        ensures
            r == self.spec_header(),
    {
        self.header
    }

    /// The offset of the TLV region.
    pub closed spec fn spec_tlv_base(&self) -> int {
        self.tlv_base as int
    }

    /// The declared size of the TLV region.
    pub closed spec fn spec_tlv_size(&self) -> int {
        self.tlv_size as int
    }

    /// Make an image from flash, if the image has a valid header.  This does
    /// not indicate that the image itself is valid, merely that the header
    /// indicates an image is present.
    pub fn from_flash<F: ReadFlash>(flash: &mut F) -> (r: Result<Image, Error>)
        ensures
            view_of(*final(flash)) == view_of(*old(flash)),
            r is Err <==> image_layout(view_of(*old(flash))) is Err,
            r matches Err(e) ==> image_layout(view_of(*old(flash))) == Err::<
                (ImageHeader, int, int),
                Error,
            >(e),
            r matches Ok(img) ==> image_layout(view_of(*old(flash))) == Ok::<
                (ImageHeader, int, int),
                Error,
            >((img.spec_header(), img.spec_tlv_base(), img.spec_tlv_size())),
    {
        let ghost v = view_of(*flash);
        let mut raw = [0u8; 32];
        if let Err(e) = flash.read(0, &mut raw) {
            return Err(Error::Flash(e));
        }
        let header = ImageHeader::from_bytes(&raw);
        if header.magic != IMAGE_MAGIC {
            return Err(Error::InvalidImage);
        }
        let capacity = flash.capacity();
        // Find the base address of the TLV.
        let tlv_base = match (header.img_size as usize).checked_add(header.hdr_size as usize) {
            Some(b) => b,
            None => return Err(Error::InvalidImage),
        };
        if tlv_base > capacity || capacity - tlv_base < TLV_HEADER_SIZE {
            return Err(Error::InvalidImage);
        }
        let mut info = [0u8; 4];
        if let Err(e) = flash.read(tlv_base, &mut info) {
            return Err(Error::Flash(e));
        }
        if read_le16(&info, 0) != TLV_INFO_MAGIC {
            return Err(Error::InvalidImage);
        }
        let tlv_size = read_le16(&info, 2) as usize;
        if tlv_base > usize::MAX - tlv_size {
            return Err(Error::InvalidImage);
        }
        Ok(Image { header, tlv_base, tlv_size })
    }

    /// Iterate over the elements of the TLV region.
    pub fn tlvs<F: ReadFlash>(&self, flash: &mut F) -> (r: Result<TlvIter, Error>)
        ensures
            view_of(*final(flash)) == view_of(*old(flash)),
            ({
                let v = view_of(*old(flash));
                match v.read(self.spec_tlv_base(), TLV_HEADER_SIZE as int) {
                    Err(e) => r == Err::<TlvIter, Error>(Error::Flash(e)),
                    Ok(info) => if le16(info, 0) != TLV_INFO_MAGIC {
                        r == Err::<TlvIter, Error>(Error::InvalidImage)
                    } else {
                        r matches Ok(it) && it.spec_base() == self.spec_tlv_base() && it.spec_pos()
                            == TLV_HEADER_SIZE && it.spec_limit() == le16(info, 2)
                    },
                }
            }),
    {
        let mut info = [0u8; 4];
        if let Err(e) = flash.read(self.tlv_base, &mut info) {
            return Err(Error::Flash(e));
        }
        if read_le16(&info, 0) != TLV_INFO_MAGIC {
            return Err(Error::InvalidImage);
        }
        Ok(TlvIter { tlv_base: self.tlv_base, pos: TLV_HEADER_SIZE, limit: read_le16(&info, 2) as usize })
    }

    /// Validate this image.  Check the TLV entries, making sure that there is
    /// exactly one, the SHA-256 record, and that it matches the image.
    pub fn validate<F: ReadFlash>(&self, flash: &mut F) -> (r: Result<(), Error>)
        ensures
            view_of(*final(flash)) == view_of(*old(flash)),
            r == validation(view_of(*old(flash)), self.spec_tlv_base()),
    {
        let ghost v = view_of(*flash);
        let mut iter = self.tlvs(flash)?;
        let ghost limit = iter.spec_limit();
        let mut seen_sha = false;
        loop
            invariant
                v == view_of(*old(flash)),
                view_of(*flash) == v,
                iter.spec_base() == self.spec_tlv_base(),
                iter.spec_limit() == limit,
                validation(v, self.spec_tlv_base()) == walk_records(
                    v,
                    self.spec_tlv_base(),
                    iter.spec_pos(),
                    limit,
                    seen_sha,
                ),
            ensures
                iter.spec_pos() >= limit,
            decreases limit - iter.spec_pos(),
        {
            let ghost pos = iter.spec_pos();
            let elt = match iter.next(flash) {
                None => break,
                Some(Err(e)) => return Err(e),
                Some(Ok(elt)) => elt,
            };
            if elt.kind() != TLV_SHA256 || seen_sha {
                return Err(Error::InvalidImage);
            }
            seen_sha = true;
            let mut hash = [0u8; 32];
            elt.read_data(flash, &mut hash)?;
            let image_hash = self.calculate_sha256(flash)?;
            if !bytes_equal(&hash, &image_hash) {
                return Err(Error::InvalidImage);
            }
        }
        if !seen_sha {
            return Err(Error::InvalidImage);
        }
        Ok(())
    }

    /// Compute the hash of the data portion of the image: every byte before
    /// the TLV region, read in chunks of at most `HASH_CHUNK` bytes.
    fn calculate_sha256<F: ReadFlash>(&self, flash: &mut F) -> (r: Result<[u8; 32], Error>)
        ensures
            view_of(*final(flash)) == view_of(*old(flash)),
            ({
                let v = view_of(*old(flash));
                match v.read_chunks(0, self.spec_tlv_base()) {
                    Err(e) => r == Err::<[u8; 32], Error>(Error::Flash(e)),
                    Ok(_) => r matches Ok(d) && d@ == sha256_of(
                        v.contents.subrange(0, self.spec_tlv_base()),
                    ),
                }
            }),
    {
        let ghost v = view_of(*flash);
        let mut hasher = sha256_new();
        let mut buffer = [0u8; 128];
        let mut pos: usize = 0;
        let end = self.tlv_base;
        while pos < end
            invariant
                pos <= end,
                end == self.spec_tlv_base(),
                v == view_of(*old(flash)),
                view_of(*flash) == v,
                v.read_chunks(0, end as int) == v.read_chunks(pos as int, end as int),
                pos > 0 ==> pos <= v.contents.len(),
                sha256_fed(hasher) == v.contents.subrange(0, pos as int),
            decreases end - pos,
        {
            let chunk = if end - pos < HASH_CHUNK {
                end - pos
            } else {
                HASH_CHUNK
            };
            let (buf, _) = buffer.split_at_mut(chunk);
            if let Err(e) = flash.read(pos, buf) {
                return Err(Error::Flash(e));
            }
            sha256_update(&mut hasher, buf);
            proof {
                assert(v.contents.subrange(0, pos as int) + v.contents.subrange(
                    pos as int,
                    pos + chunk,
                ) =~= v.contents.subrange(0, pos + chunk));
            }
            pos = pos + chunk;
        }
        Ok(sha256_finalize(hasher))
    }

    /// Return the size, in bytes, of the entire image, including the TLV.
    pub fn full_image_size(&self) -> (r: usize)
        ensures
            r == self.spec_tlv_base() + self.spec_tlv_size(),
    {
        proof {
            use_type_invariant(self);
        }
        self.tlv_base + self.tlv_size
    }

    /// For mapped flash, the address of the image body in the mapped XIP
    /// area.
    pub fn get_image_base<F: MappedFlash>(&self, flash: &F) -> (r: usize)
        requires
            flash.spec_base() + self.spec_header().hdr_size <= usize::MAX,
        ensures
            r == flash.spec_base() + self.spec_header().hdr_size,
    {
        flash.get_base() + self.header.hdr_size as usize
    }
}

/// Whether `a` and `b` hold the same bytes.
fn bytes_equal(a: &[u8], b: &[u8]) -> (r: bool)
    ensures
        r == (a@ == b@),
{
    if a.len() != b.len() {
        return false;
    }
    let mut i: usize = 0;
    while i < a.len()
        invariant
            i <= a@.len(),
            a@.len() == b@.len(),
            forall|j: int| 0 <= j < i ==> a@[j] == b@[j],
        decreases a@.len() - i,
    {
        if a[i] != b[i] {
            return false;
        }
        i = i + 1;
    }
    assert(a@ =~= b@);
    true
}

/// An iterator over the records of a TLV region.
pub struct TlvIter {
    tlv_base: usize,
    pos: usize,
    limit: usize,
}

/// A record of a TLV region: its kind, and where its payload lies.
pub struct TlvIterEntry {
    kind: u16,
    pos: usize,
    len: usize,
}

impl TlvIter {
    /// The offset of the TLV region.
    pub closed spec fn spec_base(&self) -> int {
        self.tlv_base as int
    }

    /// The cursor, relative to the start of the region.
    pub closed spec fn spec_pos(&self) -> int {
        self.pos as int
    }

    /// The declared length of the region.
    pub closed spec fn spec_limit(&self) -> int {
        self.limit as int
    }

    /// The next record, or `None` once the cursor has reached the declared
    /// length.  A record that cannot be read, or that does not fit in the
    /// region, gives an error and leaves the cursor where it was.
    pub fn next<F: ReadFlash>(&mut self, flash: &mut F) -> (r: Option<Result<TlvIterEntry, Error>>)
        ensures
            view_of(*final(flash)) == view_of(*old(flash)),
            final(self).spec_base() == old(self).spec_base(),
            final(self).spec_limit() == old(self).spec_limit(),
            old(self).spec_pos() >= old(self).spec_limit() ==> r is None && final(self).spec_pos()
                == old(self).spec_pos(),
            old(self).spec_pos() < old(self).spec_limit() ==> match entry_at(
                view_of(*old(flash)),
                old(self).spec_base(),
                old(self).spec_pos(),
                old(self).spec_limit(),
            ) {
                Err(e) => r == Some(Err::<TlvIterEntry, Error>(e)) && final(self).spec_pos()
                    == old(self).spec_pos(),
                Ok((kind, len)) => r matches Some(Ok(entry)) && entry.spec_kind() == kind
                    && entry.spec_pos() == old(self).spec_base() + old(self).spec_pos()
                    + TLV_HEADER_SIZE && entry.spec_len() == len && final(self).spec_pos()
                    == old(self).spec_pos() + TLV_HEADER_SIZE + len,
            },
    {
        if self.pos >= self.limit {
            return None;
        }
        let at = match self.tlv_base.checked_add(self.pos) {
            Some(a) => a,
            None => return Some(Err(Error::InvalidImage)),
        };
        if at > usize::MAX - TLV_HEADER_SIZE || self.limit - self.pos < TLV_HEADER_SIZE {
            return Some(Err(Error::InvalidImage));
        }
        let mut raw = [0u8; 4];
        if let Err(e) = flash.read(at, &mut raw) {
            return Some(Err(Error::Flash(e)));
        }
        let kind = read_le16(&raw, 0);
        let len = read_le16(&raw, 2) as usize;
        if self.limit - self.pos - TLV_HEADER_SIZE < len {
            return Some(Err(Error::InvalidImage));
        }
        self.pos = self.pos + TLV_HEADER_SIZE + len;
        Some(Ok(TlvIterEntry { kind, pos: at + TLV_HEADER_SIZE, len }))
    }
}

impl TlvIterEntry {
    /// The kind of this record.
    pub closed spec fn spec_kind(&self) -> u16 {
        self.kind
    }

    /// The offset of the payload.
    pub closed spec fn spec_pos(&self) -> int {
        self.pos as int
    }

    /// The length of the payload.
    pub closed spec fn spec_len(&self) -> int {
        self.len as int
    }

    /// What is the kind of this TLV entry.
    pub fn kind(&self) -> (r: u16)
        ensures
            r == self.spec_kind(),
    {
        self.kind
    }

    /// What is the size of the payload.
    pub fn data_len(&self) -> (r: usize)
        ensures
            r == self.spec_len(),
    {
        self.len
    }

    /// Read the payload into `data`, which must be exactly as long.
    pub fn read_data<F: ReadFlash>(&self, flash: &mut F, data: &mut [u8]) -> (r: Result<(), Error>)
        ensures
            view_of(*final(flash)) == view_of(*old(flash)),
            old(data)@.len() != self.spec_len() ==> r == Err::<(), Error>(Error::InvalidImage)
                && final(data)@ == old(data)@,
            old(data)@.len() == self.spec_len() ==> match view_of(*old(flash)).read(
                self.spec_pos(),
                self.spec_len(),
            ) {
                Err(e) => r == Err::<(), Error>(Error::Flash(e)) && final(data)@ == old(data)@,
                Ok(payload) => r == Ok::<(), Error>(()) && final(data)@ == payload,
            },
    {
        if data.len() != self.len {
            return Err(Error::InvalidImage);
        }
        if let Err(e) = flash.read(self.pos, data) {
            return Err(Error::Flash(e));
        }
        Ok(())
    }
}

} // verus!
