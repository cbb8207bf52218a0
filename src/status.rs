//! Image upgrade status
//!
//! The image upgrade keeps track of its progress through status data kept at
//! the end of one or more of the partitions of the flash.  The characteristics
//! of the flash determine which of two layouts is used.
//!
//! "Paged" mode, for devices with a large write unit and small sectors, keeps
//! a status tail (whose `age` elects the newest copy) at the top of the last
//! sector, with the upgrade flags inside the tail, and as many sector hashes as
//! fit below it; further hashes fill whole sectors below.
//!
//! "Overwrite" mode, for devices with a small write unit, keeps the tail at the
//! top of the last sector, then three flag cells (move done, copy done, image
//! ok), each starting at a write boundary, then the first sector hashes.
//! Further hashes fill whole sectors below.
use vstd::prelude::*;


use crate::image::{le32, read_le32, view_of};
use crate::storage::{self, Flash, ReadFlash};
use crate::Error;

verus! {

/// The size of the status tail at the top of a slot.
pub const STATUS_TAIL_SIZE: usize = 48;

/// The largest write unit for which the overwrite layout is used.
pub const MAX_OVERWRITE_WRITE: usize = 32;

/// The largest erase unit for which the paged layout is used.
pub const MAX_PAGED_ERASE: usize = 4096;

/// The smallest erase unit that a slot may have.
pub const MIN_ERASE: usize = 512;

/// The largest image, in bytes, that a slot may hold.
pub const MAX_IMAGE_SIZE: usize = 0x10_0000;

/// The most sectors of hashes that a layout may need beyond the last sector:
/// two images of `MAX_IMAGE_SIZE` bytes in `MIN_ERASE`-byte sectors make 4096
/// hashes, at least 84 of them inline, and a sector holds 128.
pub const MAX_HASH_SECTORS: usize = 32;

/// The sectors of sector hashes that a layout needs beyond the last sector,
/// each given by the number of hashes that it holds.
pub type HashVec = heapless::Vec<usize, MAX_HASH_SECTORS>;

#[verifier::external_type_specification]
#[verifier::external_body]
#[verifier::reject_recursive_types(T)]
pub struct ExHeaplessVec<T, const N: usize>(heapless::Vec<T, N>);

/// The items of a hash sector vector, in order.
pub uninterp spec fn hash_vec_items(v: heapless::Vec<usize, MAX_HASH_SECTORS>) -> Seq<usize>;

/// Relies on `heapless::Vec::new`: an empty vector.
#[verifier::external_body]
fn hash_vec_new() -> (v: HashVec)
    ensures
        hash_vec_items(v) == Seq::<usize>::empty(),
{
    heapless::Vec::new()
}

/// Relies on `heapless::Vec::push`: appends `item` when the vector is below
/// its capacity, and otherwise hands `item` back and leaves the vector as it
/// was.
#[verifier::external_body]
fn hash_vec_push(v: &mut HashVec, item: usize) -> (r: Result<(), usize>)
    ensures
        hash_vec_items(*old(v)).len() < MAX_HASH_SECTORS ==> r is Ok && hash_vec_items(*final(v))
            == hash_vec_items(*old(v)).push(item),
        hash_vec_items(*old(v)).len() >= MAX_HASH_SECTORS ==> (r matches Err(x) && x == item)
            && hash_vec_items(*final(v)) == hash_vec_items(*old(v)),
{
    v.push(item)
}

/// Information needed to calculate status layout.
#[derive(Debug, Clone, Copy, PartialEq, Eq, Structural)]
pub struct SlotInfo {
    /// Device write size.
    pub write_size: usize,
    /// Device erase size.
    pub erase_size: usize,
    /// Size of full flash slot.
    pub capacity: usize,
    /// Size, in bytes, of the image, including trailing TLV, etc.
    pub image_size: usize,
}

/// The two layouts of the status data.
#[derive(Debug, Clone, Copy, PartialEq, Eq, Structural)]
pub enum StatusStyle {
    Paged,
    OverWrite,
}

/// The layout of the status data of one slot, as offsets within its last
/// sector.
#[derive(Debug)]
pub struct StatusLayout {
    pub style: StatusStyle,
    pub erase_size: usize,
    pub write_size: usize,
    pub image_sectors: [usize; 2],
    pub tail_pos: usize,
    pub flags: Option<[usize; 3]>,
    pub inline_hashes: usize,
    pub hash_pages: HashVec,
}

/// The number of `unit`-sized sectors that `size` bytes occupy.
pub open spec fn sectors_for(size: int, unit: int) -> int {
    if size % unit == 0 {
        size / unit
    } else {
        size / unit + 1
    }
}

/// The hash counts of the extra sectors that hold `count` hashes, `per` to a
/// sector.
pub open spec fn hash_sectors(count: nat, per: nat) -> Seq<usize>
    decreases count,
{
    if count == 0 || per == 0 {
        Seq::empty()
    } else {
        let n = if per < count {
            per
        } else {
            count
        };
        seq![n as usize] + hash_sectors((count - n) as nat, per)
    }
}

/// The sum of `s`.
pub open spec fn sum(s: Seq<usize>) -> int
    decreases s.len(),
{
    if s.len() == 0 {
        0
    } else {
        s[0] + sum(s.drop_first())
    }
}

/// The extra sectors hold exactly the hashes asked for.
pub proof fn lemma_hash_sectors_sum(count: nat, per: nat)
    requires
        per > 0,
        count <= usize::MAX,
    ensures
        sum(hash_sectors(count, per)) == count,
    decreases count,
{
    if count > 0 {
        let n = if per < count {
            per
        } else {
            count
        };
        lemma_hash_sectors_sum((count - n) as nat, per);
        assert(hash_sectors(count, per).drop_first() =~= hash_sectors((count - n) as nat, per));
    }
}

/// `count` hashes, `per` to a sector, need at most `k` sectors when
/// `count <= k * per`.
pub proof fn lemma_hash_sectors_len(count: nat, per: nat, k: nat)
    requires
        per > 0,
        count <= k * per,
    ensures
        hash_sectors(count, per).len() <= k,
    decreases count,
{
    if count > 0 {
        assert(k >= 1) by (nonlinear_arith)
            requires
                count > 0,
                count <= k * per,
                per > 0,
        ;
        if count > per {
            assert(count - per <= (k - 1) as nat * per) by (nonlinear_arith)
                requires
                    count <= k * per,
                    k >= 1,
            ;
            lemma_hash_sectors_len((count - per) as nat, per, (k - 1) as nat);
        } else {
            assert(hash_sectors((count - count) as nat, per).len() == 0);
        }
    }
}

impl SlotInfo {
    /// The geometries that can host the status data: a write unit no larger
    /// than the erase unit, an erase unit of at least `MIN_ERASE` bytes, and
    /// either a small write unit or a small erase unit.
    pub open spec fn supported(&self) -> bool {
        &&& 0 < self.write_size <= self.erase_size
        &&& self.erase_size >= MIN_ERASE
        &&& (self.write_size <= MAX_OVERWRITE_WRITE || self.erase_size <= MAX_PAGED_ERASE)
    }

    /// The style of a slot of this geometry.
    pub open spec fn spec_style(&self) -> StatusStyle {
        if self.write_size <= MAX_OVERWRITE_WRITE {
            StatusStyle::OverWrite
        } else {
            StatusStyle::Paged
        }
    }

    /// Build SlotInfo out of an image size and a flash device.
    pub fn from_data<F: Flash>(image_size: usize, flash: &F) -> (r: SlotInfo)
        ensures
            r.write_size == flash.spec_write_size(),
            r.erase_size == flash.spec_erase_size(),
            r.capacity == flash.spec_contents().len(),
            r.image_size == image_size,
    {
        let write_size = flash.write_size();
        let erase_size = flash.erase_size();
        let capacity = flash.capacity();
        SlotInfo { write_size, erase_size, capacity, image_size }
    }

    /// Determine the status style for this slot: overwrite for a write unit
    /// of at most 32 bytes, else paged for an erase unit of at most 4 KiB.
    /// Other devices cannot host the status data.
    pub fn status_style(&self) -> (r: StatusStyle)
        requires
            self.write_size <= MAX_OVERWRITE_WRITE || self.erase_size <= MAX_PAGED_ERASE,
        ensures
            r == self.spec_style(),
            r == StatusStyle::OverWrite <==> self.write_size <= MAX_OVERWRITE_WRITE,
            r == StatusStyle::Paged <==> (self.write_size > MAX_OVERWRITE_WRITE && self.erase_size
                <= MAX_PAGED_ERASE),
    {
        if self.write_size <= MAX_OVERWRITE_WRITE {
            return StatusStyle::OverWrite;
        }
        StatusStyle::Paged
    }

    /// Given our info, compute the status layout for this particular slot.
    /// The other slot is needed too: the swap works in units of the larger of
    /// the two erase sizes, and the hashes cover the sectors of both images.
    /// For a supported geometry and images of at most `MAX_IMAGE_SIZE` bytes
    /// this cannot fail.
    pub fn status_layout(&self, upgrade: &SlotInfo) -> (r: Result<StatusLayout, Error>)
        requires
            self.supported(),
            upgrade.erase_size > 0,
            self.image_size <= MAX_IMAGE_SIZE,
            upgrade.image_size <= MAX_IMAGE_SIZE,
        ensures
            ({
                let e = if self.erase_size >= upgrade.erase_size {
                    self.erase_size as int
                } else {
                    upgrade.erase_size as int
                };
                let ws = self.write_size as int;
                let total = sectors_for(self.image_size as int, e) + sectors_for(
                    upgrade.image_size as int,
                    e,
                );
                let tail_pos = e - STATUS_TAIL_SIZE;
                let top = tail_pos - tail_pos % ws;
                let end_hashes = if self.spec_style() == StatusStyle::OverWrite {
                    top - 3 * ws
                } else {
                    tail_pos
                };
                let inline = if end_hashes / 4 < total {
                    end_hashes / 4
                } else {
                    total
                };
                let extra = hash_sectors((total - inline) as nat, (e / 4) as nat);
                &&& r is Ok
                &&& r matches Ok(l) ==> {
                    &&& l.style == self.spec_style()
                    &&& l.erase_size == e
                    &&& l.write_size == ws
                    &&& l.image_sectors@ == seq![
                        sectors_for(self.image_size as int, e) as usize,
                        sectors_for(upgrade.image_size as int, e) as usize,
                    ]
                    &&& l.tail_pos == tail_pos
                    &&& l.flags == if self.spec_style() == StatusStyle::OverWrite {
                        Some([(top - ws) as usize, (top - 2 * ws) as usize, (top - 3 * ws) as usize])
                    } else {
                        None::<[usize; 3]>
                    }
                    &&& l.inline_hashes == inline
                    &&& hash_vec_items(l.hash_pages) == extra
                    // Every image sector has its hash, inline or in an extra sector.
                    &&& l.inline_hashes + sum(hash_vec_items(l.hash_pages)) == total
                    // The flag cells lie one write unit apart below the tail,
                    // and the inline hashes below them.
                    &&& (l.flags matches Some(f) ==> {
                        &&& f[0] + ws <= l.tail_pos
                        &&& f[1] + ws == f[0]
                        &&& f[2] + ws == f[1]
                        &&& 4 * l.inline_hashes <= f[2]
                        &&& (f[0] as int) % ws == 0 && (f[1] as int) % ws == 0 && (f[2] as int) % ws == 0
                    })
                    &&& 4 * l.inline_hashes <= l.tail_pos
                }
            }),
    {
        // Use the larger of the two erase sizes for the swap.
        let erase_size = if self.erase_size >= upgrade.erase_size {
            self.erase_size
        } else {
            upgrade.erase_size
        };
        proof {
            vstd::arithmetic::div_mod::lemma_div_is_ordered_by_denominator(
                self.image_size as int,
                MIN_ERASE as int,
                erase_size as int,
            );
            vstd::arithmetic::div_mod::lemma_div_is_ordered_by_denominator(
                upgrade.image_size as int,
                MIN_ERASE as int,
                erase_size as int,
            );
        }
        let image_sectors = [
            div_ceil(self.image_size, erase_size),
            div_ceil(upgrade.image_size, erase_size),
        ];
        let style = self.status_style();
        let write_size = self.write_size;

        // The tail goes at the very end of the last sector.
        let tail_pos = erase_size - STATUS_TAIL_SIZE;
        let mut pos = tail_pos;

        // In overwrite mode, three write-aligned flag cells sit below the tail.
        let flags = if style == StatusStyle::OverWrite {
            pos = pos - pos % write_size;
            proof {
                assert(pos as int % write_size as int == 0) by {
                    vstd::arithmetic::div_mod::lemma_fundamental_div_mod(
                        tail_pos as int,
                        write_size as int,
                    );
                    let q = tail_pos as int / write_size as int;
                    assert(pos == q * write_size + 0) by (nonlinear_arith)
                        requires
                            tail_pos == write_size * q + tail_pos as int % write_size as int,
                            pos == tail_pos - tail_pos as int % write_size as int,
                    ;
                    vstd::arithmetic::div_mod::lemma_fundamental_div_mod_converse(
                        pos as int,
                        write_size as int,
                        tail_pos as int / write_size as int,
                        0,
                    );
                }
                assert(pos >= 3 * write_size) by {
                    vstd::arithmetic::div_mod::lemma_mod_bound(tail_pos as int, write_size as int);
                }
            }
            pos = pos - write_size;
            let move_done_flag = pos;
            pos = pos - write_size;
            let copy_done_flag = pos;
            pos = pos - write_size;
            let image_ok_flag = pos;
            proof {
                vstd::arithmetic::div_mod::lemma_mod_sub_multiples_vanish(
                    (move_done_flag + write_size) as int,
                    write_size as int,
                );
                vstd::arithmetic::div_mod::lemma_mod_sub_multiples_vanish(
                    (copy_done_flag + write_size) as int,
                    write_size as int,
                );
                vstd::arithmetic::div_mod::lemma_mod_sub_multiples_vanish(
                    (image_ok_flag + write_size) as int,
                    write_size as int,
                );
            }
            Some([move_done_flag, copy_done_flag, image_ok_flag])
        } else {
            None
        };

        // The rest of the last sector holds the first hashes.
        let end_hashes = pos;
        let total_image_sectors = image_sectors[0] + image_sectors[1];
        let inline_hashes = if end_hashes / 4 < total_image_sectors {
            end_hashes / 4
        } else {
            total_image_sectors
        };

        // Further hashes fill whole sectors.
        let per = erase_size / 4;
        let mut hash_pages = hash_vec_new();
        let mut count = total_image_sectors - inline_hashes;
        let ghost extra = hash_sectors(count as nat, per as nat);
        proof {
            if style == StatusStyle::OverWrite {
                vstd::arithmetic::div_mod::lemma_mod_bound(tail_pos as int, write_size as int);
            }
            assert(end_hashes >= 337);
            assert(total_image_sectors <= 4098);
            assert(count <= 32 * per);
            lemma_hash_sectors_len(count as nat, per as nat, 32);
        }
        while count > 0
            invariant
                per > 0,
                extra == hash_sectors((total_image_sectors - inline_hashes) as nat, per as nat),
                erase_size as int == if self.erase_size >= upgrade.erase_size {
                    self.erase_size as int
                } else {
                    upgrade.erase_size as int
                },
                per == erase_size / 4,
                write_size == self.write_size,
                style == self.spec_style(),
                total_image_sectors == sectors_for(self.image_size as int, erase_size as int)
                    + sectors_for(upgrade.image_size as int, erase_size as int),
                tail_pos == erase_size - STATUS_TAIL_SIZE,
                end_hashes == if style == StatusStyle::OverWrite {
                    tail_pos - (tail_pos as int) % (write_size as int) - 3 * write_size
                } else {
                    tail_pos as int
                },
                inline_hashes == if end_hashes / 4 < total_image_sectors {
                    end_hashes / 4
                } else {
                    total_image_sectors
                },
                hash_vec_items(hash_pages) + hash_sectors(count as nat, per as nat) == extra,
                hash_vec_items(hash_pages).len() <= MAX_HASH_SECTORS,
                extra.len() <= MAX_HASH_SECTORS,
            decreases count,
        {
            let n = if per < count {
                per
            } else {
                count
            };
            let ghost before = hash_vec_items(hash_pages);
            proof {
                assert(hash_sectors(count as nat, per as nat).len() >= 1);
                assert(extra.len() == before.len() + hash_sectors(count as nat, per as nat).len());
            }
            let pushed = hash_vec_push(&mut hash_pages, n);
            assert(pushed is Ok);
            proof {
                assert(hash_vec_items(hash_pages) + hash_sectors((count - n) as nat, per as nat)
                    =~= before + hash_sectors(count as nat, per as nat));
            }
            count = count - n;
        }
        proof {
            assert(hash_vec_items(hash_pages) =~= extra);
            lemma_hash_sectors_sum((total_image_sectors - inline_hashes) as nat, per as nat);
        }
        Ok(
            StatusLayout {
                style,
                erase_size,
                write_size,
                image_sectors,
                tail_pos,
                flags,
                inline_hashes,
                hash_pages,
            },
        )
    }
}

impl StatusLayout {
    /// Where the status tail of a slot on the device `f` lies: at `tail_pos`
    /// within the device's last erase unit; `None` when the device holds no
    /// whole erase unit or the address does not fit in a `usize`.
    pub open spec fn tail_address<F: Flash>(&self, f: F) -> Option<int> {
        let es = f.spec_erase_size() as int;
        let cap = f.spec_contents().len() as int;
        if cap / es == 0 || (cap / es - 1) * es + self.tail_pos > usize::MAX {
            None
        } else {
            Some((cap / es - 1) * es + self.tail_pos)
        }
    }

    /// Read the status tail of the slot on `flash`.  A tail that has never
    /// been written, or that reads as all `0xff`, is blank: `None`.
    pub fn read<F: Flash>(&self, flash: &mut F) -> (r: Result<Option<StatusTail>, Error>)
        ensures
            view_of(*final(flash)) == view_of(*old(flash)),
            match self.tail_address(*old(flash)) {
                None => r == Err::<Option<StatusTail>, Error>(
                    Error::Flash(storage::Error::OutOfBounds),
                ),
                Some(at) => match view_of(*old(flash)).read(at, STATUS_TAIL_SIZE as int) {
                    Err(storage::Error::NotWritten) => r == Ok::<Option<StatusTail>, Error>(None),
                    Err(e) => r == Err::<Option<StatusTail>, Error>(Error::Flash(e)),
                    Ok(raw) => if blank(raw) {
                        r == Ok::<Option<StatusTail>, Error>(None)
                    } else {
                        r matches Ok(Some(t)) && decodes(t, raw)
                    },
                },
            },
    {
        // Calculate the address of the last page.
        let erase_size = flash.erase_size();
        let sectors = flash.capacity() / erase_size;
        if sectors == 0 {
            return Err(Error::Flash(storage::Error::OutOfBounds));
        }
        proof {
            vstd::arithmetic::div_mod::lemma_fundamental_div_mod(
                flash.spec_contents().len() as int,
                erase_size as int,
            );
            let cap = flash.spec_contents().len() as int;
            assert((sectors - 1) * erase_size <= cap) by (nonlinear_arith)
                requires
                    cap == erase_size * sectors + cap % (erase_size as int),
                    cap % (erase_size as int) >= 0,
                    sectors >= 1,
            ;
        }
        let last_page = (sectors - 1) * erase_size;
        let last_tail_pos = match last_page.checked_add(self.tail_pos) {
            Some(p) => p,
            None => return Err(Error::Flash(storage::Error::OutOfBounds)),
        };
        let mut raw = [0u8; 48];
        match flash.read(last_tail_pos, &mut raw) {
            Err(storage::Error::NotWritten) => Ok(None),
            Err(e) => Err(Error::Flash(e)),
            Ok(()) => if all_erased(&raw) {
                Ok(None)
            } else {
                Ok(Some(StatusTail::from_bytes(&raw)))
            },
        }
    }
}

/// The status tail, at the very end of a slot, little-endian on the wire.
#[derive(Debug, Clone, Copy, PartialEq, Eq)]
pub struct StatusTail {
    /// The encryption key, reserved.
    pub enc_key: [u8; 16],
    /// Size of the main image, in bytes, including the TLV.
    pub main_size: u32,
    /// Size of the upgrade image, in bytes, including the TLV.
    pub upgrade_size: u32,
    /// The hash seed, added to the beginning of each sector hash.
    pub hash_seed: u32,
    /// Log2 of the write size of this slot.
    pub write_log: u8,
    /// Log2 of the erase size used for the swap.
    pub erase_log: u8,
    /// The upgrade flags, in paged mode.
    pub flags: u8,
    /// The age of this tail, or `0xff` for the overwrite layout.
    pub age: u8,
    /// The magic number, at the very end.
    pub magic: [u8; 16],
}

/// Whether the tail bytes `s` are all erased.
pub open spec fn blank(s: Seq<u8>) -> bool {
    forall|i: int| 0 <= i < s.len() ==> s[i] == 0xffu8
}

/// Whether `t` is the tail that the 48 bytes `s` encode.
pub open spec fn decodes(t: StatusTail, s: Seq<u8>) -> bool {
    &&& t.enc_key@ == s.subrange(0, 16)
    &&& t.main_size == le32(s, 16)
    &&& t.upgrade_size == le32(s, 20)
    &&& t.hash_seed == le32(s, 24)
    &&& t.write_log == s[28]
    &&& t.erase_log == s[29]
    &&& t.flags == s[30]
    &&& t.age == s[31]
    &&& t.magic@ == s.subrange(32, 48)
}

impl StatusTail {
    /// Decode a tail from its 48 bytes.
    pub fn from_bytes(b: &[u8]) -> (r: StatusTail)
        requires
            b@.len() == STATUS_TAIL_SIZE,
        ensures
            decodes(r, b@),
    {
        StatusTail {
            enc_key: copy16(b, 0),
            main_size: read_le32(b, 16),
            upgrade_size: read_le32(b, 20),
            hash_seed: read_le32(b, 24),
            write_log: b[28],
            erase_log: b[29],
            flags: b[30],
            age: b[31],
            magic: copy16(b, 32),
        }
    }

    /// Whether this tail uses the overwrite layout (an age of `0xff`).
    pub fn is_overwrite(&self) -> (r: bool)
        ensures
            r == (self.age == 0xff),
    {
        self.age == 0xff
    }
}

/// The 16 bytes of `b` at `at`.
fn copy16(b: &[u8], at: usize) -> (r: [u8; 16])
    requires
        at + 16 <= b@.len(),
        at + 16 <= usize::MAX,
    ensures
        r@ == b@.subrange(at as int, at + 16),
{
    let mut r = [0u8; 16];
    let mut i: usize = 0;
    while i < 16
        invariant
            i <= 16,
            at + 16 <= b@.len(),
            at + 16 <= usize::MAX,
            forall|j: int| 0 <= j < i ==> #[trigger] r@[j] == b@[at + j],
        decreases 16 - i,
    {
        r[i] = b[at + i];
        i = i + 1;
    }
    assert(r@ =~= b@.subrange(at as int, at + 16));
    r
}

/// Whether every byte of `b` is `0xff`.
fn all_erased(b: &[u8]) -> (r: bool)
    ensures
        r == blank(b@),
{
    let mut i: usize = 0;
    while i < b.len()
        invariant
            i <= b@.len(),
            forall|j: int| 0 <= j < i ==> b@[j] == 0xffu8,
        decreases b@.len() - i,
    {
        if b[i] != 0xff {
            return false;
        }
        i = i + 1;
    }
    true
}

/// The progress recorded in the status tail of one slot: whether the magic is
/// present, whether the status data ("meta") has been recorded, and which of
/// the move-done, copy-done and image-ok flags are set.  A tail that reads as
/// all `0xff`, or as not written, is blank: nothing is set.
#[derive(Debug, Clone, Copy, PartialEq, Eq, Structural)]
pub struct SlotStatus {
    pub magic: bool,
    pub meta: bool,
    pub move_done: bool,
    pub copy_done: bool,
    pub image_ok: bool,
}

/// The states of an upgrade, decoded from the tails of both slots.
#[derive(Debug, Clone, Copy, PartialEq, Eq, Structural)]
pub enum UpgradeState {
    NoUpgrade,
    Request,
    Started,
    MoveDone,
    CopyDone,
    ImageOk,
    RevertStarted,
    RevertMoveDone,
}

/// What the bootloader does next in each state.
#[derive(Debug, Clone, Copy, PartialEq, Eq, Structural)]
pub enum UpgradeAction {
    BootMain,
    BeginSwap,
    ResumeMove,
    ResumeCopy,
    ArmRevert,
    UndoMove,
    UndoCopy,
}

impl SlotStatus {
    /// Magic and status data present.
    pub open spec fn started(&self) -> bool {
        self.magic && self.meta
    }

    /// Magic, status data and move done.
    pub open spec fn moved(&self) -> bool {
        self.started() && self.move_done
    }

    /// Magic, status data, move done and copy done.
    pub open spec fn copied(&self) -> bool {
        self.moved() && self.copy_done
    }
}

/// Decode the upgrade state from the main slot's tail and the upgrade slot's
/// tail.  Without the magic in the upgrade slot no upgrade is under way.
/// With it, a main slot that finished its copy (without image ok) while the
/// upgrade slot records its own progress is being reverted; otherwise the
/// main slot's progress gives the state, and no progress at all is a request.
pub fn upgrade_state(main: &SlotStatus, upgrade: &SlotStatus) -> (r: UpgradeState)
    ensures
        !upgrade.magic ==> r == UpgradeState::NoUpgrade,
        upgrade.magic && !main.started() ==> r == UpgradeState::Request,
        upgrade.magic && main.started() && !main.move_done ==> r == UpgradeState::Started,
        upgrade.magic && main.moved() && !main.copy_done ==> r == UpgradeState::MoveDone,
        upgrade.magic && main.copied() && !main.image_ok && !upgrade.started() ==> r
            == UpgradeState::CopyDone,
        upgrade.magic && main.copied() && main.image_ok ==> r == UpgradeState::ImageOk,
        upgrade.magic && main.copied() && !main.image_ok && upgrade.started() && !upgrade.move_done
            ==> r == UpgradeState::RevertStarted,
        upgrade.magic && main.copied() && !main.image_ok && upgrade.moved() ==> r
            == UpgradeState::RevertMoveDone,
{
    if !upgrade.magic {
        return UpgradeState::NoUpgrade;
    }
    if !(main.magic && main.meta) {
        return UpgradeState::Request;
    }
    if !main.move_done {
        return UpgradeState::Started;
    }
    if !main.copy_done {
        return UpgradeState::MoveDone;
    }
    if main.image_ok {
        return UpgradeState::ImageOk;
    }
    if upgrade.magic && upgrade.meta {
        if upgrade.move_done {
            return UpgradeState::RevertMoveDone;
        }
        return UpgradeState::RevertStarted;
    }
    UpgradeState::CopyDone
}

/// The next step in `state`; after the copy, a revert is armed when reverts
/// are enabled (the image-ok flag is absent in that state).
pub fn next_action(state: UpgradeState, reverts_enabled: bool) -> (r: UpgradeAction)
    ensures
        r == match state {
            UpgradeState::NoUpgrade => UpgradeAction::BootMain,
            UpgradeState::Request => UpgradeAction::BeginSwap,
            UpgradeState::Started => UpgradeAction::ResumeMove,
            UpgradeState::MoveDone => UpgradeAction::ResumeCopy,
            UpgradeState::CopyDone => if reverts_enabled {
                UpgradeAction::ArmRevert
            } else {
                UpgradeAction::BootMain
            },
            UpgradeState::ImageOk => UpgradeAction::BootMain,
            UpgradeState::RevertStarted => UpgradeAction::UndoMove,
            UpgradeState::RevertMoveDone => UpgradeAction::UndoCopy,
        },
{
    match state {
        UpgradeState::NoUpgrade => UpgradeAction::BootMain,
        UpgradeState::Request => UpgradeAction::BeginSwap,
        UpgradeState::Started => UpgradeAction::ResumeMove,
        UpgradeState::MoveDone => UpgradeAction::ResumeCopy,
        UpgradeState::CopyDone => if reverts_enabled {
            UpgradeAction::ArmRevert
        } else {
            UpgradeAction::BootMain
        },
        UpgradeState::ImageOk => UpgradeAction::BootMain,
        UpgradeState::RevertStarted => UpgradeAction::UndoMove,
        UpgradeState::RevertMoveDone => UpgradeAction::UndoCopy,
    }
}

/// The number of `unit`-sized sectors that `size` bytes occupy.
fn div_ceil(size: usize, unit: usize) -> (r: usize)
    requires
        unit > 0,
    ensures
        r == sectors_for(size as int, unit as int),
{
    if size % unit == 0 {
        size / unit
    } else {
        proof {
            assert(unit >= 2);
            vstd::arithmetic::div_mod::lemma_div_is_ordered_by_denominator(size as int, 2, unit as int);
        }
        size / unit + 1
    }
}

} // verus!
