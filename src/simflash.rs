//! Simulated flash
//!
//! The NOR-type flashes used in microcontrollers differ quite a bit in their
//! capabilities.  This simulator captures that diversity: it is parameterised
//! by a read size, a write size (the page) and an erase size (the sector),
//! keeps the contents in memory, and tracks the state of every page so that it
//! refuses what a real device would refuse.
use vstd::arithmetic::div_mod::{
    lemma_div_is_ordered, lemma_div_multiples_vanish, lemma_fundamental_div_mod,
    lemma_fundamental_div_mod_converse,
};
use vstd::prelude::*;

use crate::storage::{
    check_erase_range, check_range, covers, slice_check, span, Error, Flash, ReadFlash,
};

verus! {

/// The state of one page (write unit) of the simulated device.
#[derive(Debug, Clone, Copy, PartialEq, Eq, Structural)]
pub enum PageState {
    Erased,
    Written,
    Unknown,
}

/// An in-memory flash device.
pub struct SimFlash {
    read_size: usize,
    write_size: usize,
    erase_size: usize,
    data: Vec<u8>,
    page_state: Vec<PageState>,
}

/// `a` lies in page `a / unit`, which spans `[p * unit, p * unit + unit)`.
proof fn lemma_page_of(a: int, unit: int)
    requires
        unit > 0,
        a >= 0,
    ensures
        (a / unit) * unit <= a < (a / unit) * unit + unit,
        a / unit >= 0,
{
    lemma_fundamental_div_mod(a, unit);
    assert((a / unit) * unit == unit * (a / unit)) by (nonlinear_arith);
}

/// For bounds that are multiples of `unit`, an address lies between them
/// exactly when its page lies between their pages.
proof fn lemma_aligned_span(a: int, from: int, to: int, unit: int)
    requires
        unit > 0,
        a >= 0,
        from >= 0,
        to >= 0,
        from % unit == 0,
        to % unit == 0,
    ensures
        (from <= a < to) <==> (from / unit <= a / unit < to / unit),
{
    lemma_page_of(a, unit);
    lemma_fundamental_div_mod(from, unit);
    lemma_fundamental_div_mod(to, unit);
    let p = a / unit;
    let f = from / unit;
    let t = to / unit;
    assert(from == f * unit) by (nonlinear_arith)
        requires
            from == unit * f + from % unit,
            from % unit == 0,
    ;
    assert(to == t * unit) by (nonlinear_arith)
        requires
            to == unit * t + to % unit,
            to % unit == 0,
    ;
    assert(f <= p <==> f * unit <= p * unit) by (nonlinear_arith)
        requires
            unit > 0,
    ;
    assert(p < t <==> p * unit < t * unit) by (nonlinear_arith)
        requires
            unit > 0,
    ;
    assert(f <= p ==> f * unit <= a);
    assert(f * unit <= a ==> f <= p) by (nonlinear_arith)
        requires
            p * unit <= a < p * unit + unit,
            unit > 0,
    ;
    assert(p < t ==> a < t * unit) by (nonlinear_arith)
        requires
            p * unit <= a < p * unit + unit,
            unit > 0,
    ;
    assert(a < t * unit ==> p < t) by (nonlinear_arith)
        requires
            p * unit <= a,
            unit > 0,
    ;
}

/// A multiple of `big` is a multiple of every divisor of `big`.
proof fn lemma_aligned_divisor(x: int, big: int, unit: int)
    requires
        x >= 0,
        big > 0,
        unit > 0,
        x % big == 0,
        big % unit == 0,
    ensures
        x % unit == 0,
{
    lemma_fundamental_div_mod(x, big);
    lemma_fundamental_div_mod(big, unit);
    let k = (x / big) * (big / unit);
    assert(x == unit * k) by (nonlinear_arith)
        requires
            x == big * (x / big),
            big == unit * (big / unit),
            k == (x / big) * (big / unit),
    ;
    lemma_fundamental_div_mod_converse(x, unit, k, 0);
}

/// Addresses below `pages * unit` lie in a page below `pages`.
proof fn lemma_page_below(a: int, pages: int, unit: int)
    requires
        unit > 0,
        0 <= a < pages * unit,
    ensures
        a / unit < pages,
{
    lemma_page_of(a, unit);
    let p = a / unit;
    assert(p < pages) by (nonlinear_arith)
        requires
            p * unit <= a < pages * unit,
            unit > 0,
    ;
}

/// The sum of two multiples of `unit` is a multiple of `unit`.
proof fn lemma_aligned_add(x: int, y: int, unit: int)
    requires
        unit > 0,
        x % unit == 0,
        y % unit == 0,
    ensures
        (x + y) % unit == 0,
{
    lemma_fundamental_div_mod(x, unit);
    lemma_fundamental_div_mod(y, unit);
    let q = x / unit + y / unit;
    assert(x + y == q * unit + 0) by (nonlinear_arith)
        requires
            x == unit * (x / unit) + x % unit,
            y == unit * (y / unit) + y % unit,
            x % unit == 0,
            y % unit == 0,
            q == x / unit + y / unit,
    ;
    lemma_fundamental_div_mod_converse(x + y, unit, q, 0);
}

/// Between two multiples of `unit`, the smaller is at least `unit` below the
/// larger.
proof fn lemma_aligned_step(x: int, y: int, unit: int)
    requires
        unit > 0,
        x % unit == 0,
        y % unit == 0,
        x < y,
    ensures
        x + unit <= y,
{
    lemma_fundamental_div_mod(x, unit);
    lemma_fundamental_div_mod(y, unit);
    assert(x + unit <= y) by (nonlinear_arith)
        requires
            x == unit * (x / unit),
            y == unit * (y / unit),
            x < y,
            unit > 0,
    ;
}

/// `x` rounded up to a multiple of `unit`.
pub open spec fn round_up(x: int, unit: int) -> int {
    if x % unit == 0 {
        x
    } else {
        x - x % unit + unit
    }
}

/// `round_up(x, unit)` is the least multiple of `unit` that is at least `x`.
proof fn lemma_round_up(x: int, unit: int, y: int)
    requires
        unit > 0,
        x >= 0,
    ensures
        round_up(x, unit) % unit == 0,
        x <= round_up(x, unit) < x + unit,
        y % unit == 0 && y >= x ==> y >= round_up(x, unit),
{
    lemma_fundamental_div_mod(x, unit);
    vstd::arithmetic::div_mod::lemma_mod_bound(x, unit);
    if x % unit != 0 {
        let down = x - x % unit;
        assert(down == (x / unit) * unit + 0) by (nonlinear_arith)
            requires
                down == x - x % unit,
                x == unit * (x / unit) + x % unit,
        ;
        lemma_fundamental_div_mod_converse(down, unit, x / unit, 0);
        lemma_aligned_add(down, unit, unit);
        lemma_fundamental_div_mod_converse(unit, unit, 1, 0);
        if y % unit == 0 && y >= x {
            lemma_aligned_step(down, y, unit);
        }
    }
}

impl SimFlash {
    #[verifier::type_invariant]
    closed spec fn inv(&self) -> bool {
        &&& self.read_size > 0
        &&& self.write_size > 0
        &&& self.write_size <= self.erase_size
        &&& self.erase_size % self.write_size == 0
        &&& self.data@.len() == self.page_state@.len() * self.write_size
        &&& (self.data@.len() as int) % (self.erase_size as int) == 0
    }

    /// Whether address `a` lies in a page in state `state`.
    closed spec fn in_state(&self, a: int, state: PageState) -> bool {
        &&& 0 <= a < self.data@.len()
        &&& self.page_state@[a / self.write_size as int] == state
    }

    /// Create a new simulated flash device of `sectors` erase units, every
    /// page in an unknown state and every byte `0xff`.
    pub fn new(read_size: usize, write_size: usize, erase_size: usize, sectors: usize) -> (r: Result<
        Self,
        Error,
    >)
        requires
            read_size > 0,
            write_size > 0,
            write_size <= erase_size,
            erase_size % write_size == 0,
            sectors * erase_size <= usize::MAX,
        ensures
            r matches Ok(f) && {
                &&& f.spec_read_size() == read_size
                &&& f.spec_write_size() == write_size
                &&& f.spec_erase_size() == erase_size
                &&& f.spec_contents() == Seq::new((sectors * erase_size) as nat, |i: int| 0xffu8)
                &&& f.spec_written() == Set::<int>::empty()
                &&& f.spec_erased() == Set::<int>::empty()
            },
    {
        let pages_per_sector = erase_size / write_size;
        proof {
            lemma_fundamental_div_mod(erase_size as int, write_size as int);
            assert(erase_size == write_size * pages_per_sector);
            assert(sectors * pages_per_sector * write_size == sectors * erase_size) by (nonlinear_arith)
                requires
                    erase_size == write_size * pages_per_sector,
            ;
            assert(sectors * pages_per_sector <= sectors * erase_size) by (nonlinear_arith)
                requires
                    pages_per_sector <= erase_size,
            ;
            assert((sectors * erase_size) % (erase_size as int) == 0) by (nonlinear_arith)
                requires
                    erase_size > 0,
            ;
        }
        let n_pages = sectors * pages_per_sector;
        let page_state = vec![PageState::Unknown; n_pages];
        let data = vec![0xffu8; sectors * erase_size];
        let f = SimFlash { read_size, write_size, erase_size, data, page_state };
        proof {
            assert(f.spec_contents() =~= Seq::new((sectors * erase_size) as nat, |i: int| 0xffu8));
            assert forall|a: int| !f.spec_written().contains(a) && !f.spec_erased().contains(a) by {
                if 0 <= a < f.data@.len() {
                    lemma_page_below(a, n_pages as int, write_size as int);
                    assert(f.page_state@[a / write_size as int] == PageState::Unknown);
                }
            }
            assert(f.spec_written() =~= Set::<int>::empty());
            assert(f.spec_erased() =~= Set::<int>::empty());
        }
        Ok(f)
    }

    /// Given a byte address, return the page that holds it.
    fn page_of(&self, offset: usize) -> (r: usize)
        ensures
            r == offset / self.write_size,
    {
        proof {
            use_type_invariant(self);
        }
        offset / self.write_size
    }

    /// Given a range `[from, to)` of bytes whose bounds are page aligned,
    /// return the range of pages that it covers.
    fn pages(&self, from: usize, to: usize) -> (r: core::ops::Range<usize>)
        requires
            from % self.write_size == 0,
            to % self.write_size == 0,
            from <= to,
        ensures
            r.start == from / self.write_size,
            r.end == to / self.write_size,
            r.start <= r.end,
    {
        proof {
            use_type_invariant(self);
            lemma_div_is_ordered(from as int, to as int, self.write_size as int);
        }
        self.page_of(from)..self.page_of(to)
    }

    /// Install `bytes` into the device at the erase-aligned `offset`: erase the
    /// sectors that it spans, then program it one write unit at a time, the
    /// last unit padded with `0xff`.
    pub fn install(&mut self, bytes: &[u8], offset: usize) -> (r: Result<(), Error>)
        requires
            (offset as int) % (old(self).spec_erase_size() as int) == 0,
        ensures
            final(self).spec_read_size() == old(self).spec_read_size(),
            final(self).spec_write_size() == old(self).spec_write_size(),
            final(self).spec_erase_size() == old(self).spec_erase_size(),
            final(self).spec_contents().len() == old(self).spec_contents().len(),
            // The geometry of the device: a read unit, a write unit that
            // divides the erase unit, and a capacity of whole erase units.
            old(self).spec_read_size() > 0,
            0 < old(self).spec_write_size() <= old(self).spec_erase_size(),
            old(self).spec_erase_size() % old(self).spec_write_size() == 0,
            old(self).spec_contents().len() % old(self).spec_erase_size() == 0,
            r is Ok <==> offset + bytes@.len() <= old(self).spec_contents().len(),
            r is Err ==> r == Err::<(), Error>(Error::OutOfBounds),
            r is Ok ==> final(self).spec_contents().subrange(offset as int, offset + bytes@.len())
                == bytes@,
            r is Ok ==> covers(final(self).spec_written(), offset as int, bytes@.len() as int),
            // The last write unit is padded with 0xff.
            r is Ok ==> forall|j: int|
                bytes@.len() <= j < round_up(bytes@.len() as int, old(self).spec_write_size() as int)
                    ==> #[trigger] final(self).spec_contents()[offset + j] == 0xffu8,
            // The sectors spanned are erased, then the padded image programmed.
            r is Ok ==> final(self).spec_written() == old(self).spec_written().difference(
                span(offset as int, round_up(bytes@.len() as int, old(self).spec_erase_size() as int)),
            ).union(
                span(offset as int, round_up(bytes@.len() as int, old(self).spec_write_size() as int)),
            ),
            r is Ok ==> final(self).spec_erased() == old(self).spec_erased().union(
                span(offset as int, round_up(bytes@.len() as int, old(self).spec_erase_size() as int)),
            ).difference(
                span(offset as int, round_up(bytes@.len() as int, old(self).spec_write_size() as int)),
            ),
            // Outside the sectors spanned, the contents are unchanged.
            r is Ok ==> forall|a: int|
                0 <= a < old(self).spec_contents().len() && !(offset <= a < offset + round_up(
                    bytes@.len() as int,
                    old(self).spec_erase_size() as int,
                )) ==> #[trigger] final(self).spec_contents()[a] == old(self).spec_contents()[a],
            r is Err ==> {
                &&& final(self).spec_contents() == old(self).spec_contents()
                &&& final(self).spec_written() == old(self).spec_written()
                &&& final(self).spec_erased() == old(self).spec_erased()
            },
    {
        proof {
            use_type_invariant(&*self);
        }
        let capacity = self.data.len();
        let len = bytes.len();
        if offset > capacity || len > capacity - offset {
            return Err(Error::OutOfBounds);
        }
        let erase_size = self.erase_size;
        let write_size = self.write_size;
        let ghost es = erase_size as int;
        let ghost ws = write_size as int;
        proof {
            lemma_aligned_divisor(offset as int, es, ws);
            lemma_fundamental_div_mod(len as int, es);
        }
        let ghost room = capacity as int - offset as int;
        proof {
            assert(room % es == 0) by {
                lemma_fundamental_div_mod(capacity as int, es);
                lemma_fundamental_div_mod(offset as int, es);
                let q = (capacity as int) / es - (offset as int) / es;
                assert(room == q * es + 0) by (nonlinear_arith)
                    requires
                        capacity == es * ((capacity as int) / es) + (capacity as int) % es,
                        offset == es * ((offset as int) / es) + (offset as int) % es,
                        (capacity as int) % es == 0,
                        (offset as int) % es == 0,
                        room == capacity - offset,
                        q == (capacity as int) / es - (offset as int) / es,
                ;
                lemma_fundamental_div_mod_converse(room, es, q, 0);
            }
            if (len as int) % es != 0 {
                let down = len as int - (len as int) % es;
                assert(down == es * ((len as int) / es));
                assert(down == ((len as int) / es) * es + 0) by (nonlinear_arith)
                    requires
                        down == es * ((len as int) / es),
                ;
                lemma_fundamental_div_mod_converse(down, es, (len as int) / es, 0);
                lemma_aligned_step(down, room, es);
                lemma_aligned_add(down, es, es);
            }
        }
        // The erased range: `len` rounded up to whole sectors.
        let erase_len = if len % erase_size == 0 {
            len
        } else {
            len - len % erase_size + erase_size
        };
        proof {
            assert((erase_len as int) % es == 0);
            assert(erase_len <= room);
            lemma_aligned_add(offset as int, erase_len as int, es);
            lemma_aligned_divisor(erase_len as int, es, ws);
        }
        let ghost c0 = self.spec_contents();
        let ghost w0 = self.spec_written();
        let ghost e0 = self.spec_erased();
        self.erase(offset, offset + erase_len)?;
        let ghost c1 = self.spec_contents();
        let ghost w1 = self.spec_written();
        let ghost e1 = self.spec_erased();
        let ghost pad = round_up(len as int, ws);
        proof {
            lemma_round_up(len as int, es, erase_len as int);
            lemma_round_up(len as int, ws, erase_len as int);
            assert(erase_len == round_up(len as int, es));
        }
        let mut buf = vec![0xffu8; write_size];
        let mut pos: usize = 0;
        while pos < len
            invariant
                pos <= pad <= erase_len,
                pad == round_up(len as int, ws),
                pad % ws == 0,
                len <= pad,
                c1.len() == capacity,
                w1 == w0.difference(span(offset as int, erase_len as int)),
                e1 == e0.union(span(offset as int, erase_len as int)),
                forall|a: int|
                    0 <= a < capacity && !(offset <= a < offset + erase_len) ==> #[trigger] c1[a]
                        == c0[a],
                self.spec_written() == w1.union(span(offset as int, pos as int)),
                self.spec_erased() == e1.difference(span(offset as int, pos as int)),
                forall|a: int|
                    0 <= a < capacity && !(offset <= a < offset + pos) ==> #[trigger] self.spec_contents()[a]
                        == c1[a],
                forall|j: int|
                    len <= j < pos ==> #[trigger] self.spec_contents()[offset + j] == 0xffu8,
                pos <= erase_len,
                len <= erase_len,
                len == bytes@.len(),
                offset + erase_len <= self.spec_contents().len(),
                self.spec_contents().len() == capacity,
                self.spec_read_size() == old(self).spec_read_size(),
                self.spec_write_size() == ws,
                self.spec_erase_size() == es,
                ws == write_size,
                ws > 0,
                buf@.len() == write_size,
                (offset as int) % ws == 0,
                (erase_len as int) % ws == 0,
                (pos as int) % ws == 0,
                covers(self.spec_erased(), offset + pos, erase_len - pos),
                covers(self.spec_written(), offset as int, pos as int),
                forall|j: int|
                    0 <= j < pos && j < len ==> #[trigger] self.spec_contents()[offset + j]
                        == bytes@[j],
            decreases erase_len - pos,
        {
            let n = if write_size < len - pos {
                write_size
            } else {
                len - pos
            };
            let mut k: usize = 0;
            while k < write_size
                invariant
                    k <= write_size,
                    n <= write_size,
                    pos + n <= len,
                    len == bytes@.len(),
                    buf@.len() == write_size,
                    forall|i: int|
                        0 <= i < k ==> #[trigger] buf@[i] == if i < n {
                            bytes@[pos + i]
                        } else {
                            0xffu8
                        },
                decreases write_size - k,
            {
                if k < n {
                    buf.set(k, bytes[pos + k]);
                } else {
                    buf.set(k, 0xff);
                }
                k = k + 1;
            }
            proof {
                lemma_aligned_step(pos as int, pad, ws);
                lemma_aligned_step(pos as int, erase_len as int, ws);
                lemma_aligned_add(offset as int, pos as int, ws);
                lemma_aligned_add(pos as int, ws, ws);
                lemma_fundamental_div_mod_converse(ws, ws, 1, 0);
            }
            let ghost before = *self;
            let at = offset + pos;
            self.write(at, buf.as_slice())?;
            proof {
                assert forall|j: int|
                    0 <= j < pos + write_size && j < len implies #[trigger] self.spec_contents()[offset
                    + j] == bytes@[j] by {
                    if j >= pos {
                        assert(self.spec_contents()[offset + j] == buf@[j - pos]);
                    } else {
                        assert(self.spec_contents()[offset + j] == before.spec_contents()[offset + j]);
                    }
                }
                assert forall|j: int| len <= j < pos + write_size implies #[trigger] self.spec_contents()[offset
                    + j] == 0xffu8 by {
                    if j >= pos {
                        assert(self.spec_contents()[offset + j] == buf@[j - pos]);
                    } else {
                        assert(self.spec_contents()[offset + j] == before.spec_contents()[offset + j]);
                    }
                }
                assert forall|a: int|
                    0 <= a < capacity && !(offset <= a < offset + pos + write_size) implies #[trigger] self.spec_contents()[a]
                    == c1[a] by {
                    assert(self.spec_contents()[a] == before.spec_contents()[a]);
                }
                assert(self.spec_written() =~= w1.union(span(offset as int, pos + write_size)));
                assert(self.spec_erased() =~= e1.difference(span(offset as int, pos + write_size)));
            }
            pos = pos + write_size;
        }
        proof {
            lemma_round_up(len as int, ws, pos as int);
            assert(pos == pad);
            assert(self.spec_written() =~= w0.difference(span(offset as int, erase_len as int)).union(
                span(offset as int, pad),
            ));
            assert(self.spec_erased() =~= e0.union(span(offset as int, erase_len as int)).difference(
                span(offset as int, pad),
            ));
            assert forall|i: int| 0 <= i < len implies self.spec_contents().subrange(
                offset as int,
                offset + len,
            )[i] == bytes@[i] by {
                assert(self.spec_contents()[offset + i] == bytes@[i]);
            }
            assert(self.spec_contents().subrange(offset as int, offset + len) =~= bytes@);
        }
        Ok(())
    }

    /// Move the device out of `self`, leaving an empty one behind.
    fn take(&mut self) -> (r: SimFlash)
        ensures
            r == *old(self),
    {
        let mut r = SimFlash {
            read_size: 1,
            write_size: 1,
            erase_size: 1,
            data: Vec::new(),
            page_state: Vec::new(),
        };
        core::mem::swap(self, &mut r);
        r
    }
}

/// Set pages `[first, end)` of `pages` to `state`.
fn set_pages(pages: &mut Vec<PageState>, first: usize, end: usize, state: PageState)
    requires
        first <= end <= old(pages)@.len(),
    ensures
        final(pages)@.len() == old(pages)@.len(),
        forall|p: int|
            0 <= p < old(pages)@.len() ==> #[trigger] final(pages)@[p] == if first <= p < end {
                state
            } else {
                old(pages)@[p]
            },
{
    let mut p = first;
    while p < end
        invariant
            first <= p <= end <= pages@.len(),
            pages@.len() == old(pages)@.len(),
            forall|q: int|
                0 <= q < old(pages)@.len() ==> #[trigger] pages@[q] == if first <= q < p {
                    state
                } else {
                    old(pages)@[q]
                },
        decreases end - p,
    {
        pages.set(p, state);
        p = p + 1;
    }
}

impl ReadFlash for SimFlash {
    closed spec fn spec_write_size(&self) -> nat {
        self.write_size as nat
    }

    closed spec fn spec_erase_size(&self) -> nat {
        self.erase_size as nat
    }

    closed spec fn spec_erased(&self) -> Set<int> {
        Set::new(|a: int| self.in_state(a, PageState::Erased))
    }

    closed spec fn spec_read_size(&self) -> nat {
        self.read_size as nat
    }

    closed spec fn spec_contents(&self) -> Seq<u8> {
        self.data@
    }

    closed spec fn spec_written(&self) -> Set<int> {
        Set::new(|a: int| self.in_state(a, PageState::Written))
    }

    fn read_size(&self) -> (r: usize) {
        proof {
            use_type_invariant(self);
        }
        self.read_size
    }

    fn capacity(&self) -> (r: usize) {
        self.data.len()
    }

    fn read(&mut self, offset: usize, bytes: &mut [u8]) -> (r: Result<(), Error>) {
        proof {
            use_type_invariant(&*self);
        }
        let len = bytes.len();
        check_range(self.data.len(), self.read_size, offset, len)?;
        let end = offset + len;
        let mut a = offset;
        while a < end
            invariant
                offset <= a <= end,
                end == offset + len,
                end <= self.data@.len(),
                self.write_size > 0,
                self.data@.len() == self.page_state@.len() * self.write_size,
                *self == *old(self),
                len == bytes@.len(),
                slice_check(self.data@.len() as int, self.read_size as int, offset as int, len as int)
                    == Ok::<(), Error>(()),
                forall|b: int| offset <= b < a ==> #[trigger] self.spec_written().contains(b),
            decreases end - a,
        {
            proof {
                lemma_page_below(a as int, self.page_state@.len() as int, self.write_size as int);
            }
            if self.page_state[a / self.write_size] != PageState::Written {
                assert(!self.spec_written().contains(a as int));
                assert(!covers(self.spec_written(), offset as int, len as int));
                return Err(Error::NotWritten);
            }
            a = a + 1;
        }
        let mut i: usize = 0;
        while i < len
            invariant
                i <= len,
                len == bytes@.len(),
                offset + len <= self.data@.len(),
                self.data@.len() <= usize::MAX,
                forall|j: int| 0 <= j < i ==> #[trigger] bytes@[j] == self.data@[offset + j],
            decreases len - i,
        {
            bytes[i] = self.data[offset + i];
            i = i + 1;
        }
        assert(bytes@ =~= self.data@.subrange(offset as int, offset + len));
        Ok(())
    }
}

impl Flash for SimFlash {
    fn write_size(&self) -> (r: usize) {
        proof {
            use_type_invariant(self);
        }
        self.write_size
    }

    fn erase_size(&self) -> (r: usize) {
        proof {
            use_type_invariant(self);
        }
        self.erase_size
    }

    fn erase(&mut self, from: usize, to: usize) -> (r: Result<(), Error>) {
        proof {
            use_type_invariant(&*self);
        }
        check_erase_range(self.data.len(), self.erase_size, from, to)?;
        proof {
            lemma_aligned_divisor(from as int, self.erase_size as int, self.write_size as int);
            lemma_aligned_divisor(to as int, self.erase_size as int, self.write_size as int);
            lemma_div_multiples_vanish(self.page_state@.len() as int, self.write_size as int);
            lemma_div_is_ordered(to as int, self.data@.len() as int, self.write_size as int);
            assert((self.data@.len() as int) / (self.write_size as int) == self.page_state@.len()) by (nonlinear_arith)
                requires
                    self.data@.len() == self.page_state@.len() * self.write_size,
                    (self.write_size * self.page_state@.len()) / (self.write_size as int)
                        == self.page_state@.len(),
            ;
        }
        let pages = self.pages(from, to);
        let ghost before = *self;
        let SimFlash { read_size, write_size, erase_size, data, mut page_state } = self.take();
        set_pages(&mut page_state, pages.start, pages.end, PageState::Erased);
        *self = SimFlash { read_size, write_size, erase_size, data, page_state };
        proof {
            let ws = self.write_size as int;
            assert forall|a: int|
                #[trigger] self.spec_written().contains(a) == (before.spec_written().contains(a)
                    && !span(from as int, to - from).contains(a)) by {
                if 0 <= a < self.data@.len() {
                    lemma_aligned_span(a, from as int, to as int, ws);
                    lemma_page_below(a, self.page_state@.len() as int, ws);
                }
            }
            assert forall|a: int|
                #[trigger] self.spec_erased().contains(a) == (before.spec_erased().contains(a)
                    || span(from as int, to - from).contains(a)) by {
                if 0 <= a < self.data@.len() {
                    lemma_aligned_span(a, from as int, to as int, ws);
                    lemma_page_below(a, self.page_state@.len() as int, ws);
                } else {
                    assert(!span(from as int, to - from).contains(a));
                }
            }
            assert(self.spec_written() =~= before.spec_written().difference(span(from as int, to - from)));
            assert(self.spec_erased() =~= before.spec_erased().union(span(from as int, to - from)));
        }
        Ok(())
    }

    fn write(&mut self, offset: usize, bytes: &[u8]) -> (r: Result<(), Error>) {
        proof {
            use_type_invariant(&*self);
        }
        let len = bytes.len();
        check_range(self.data.len(), self.write_size, offset, len)?;
        let end = offset + len;
        let ghost ws = self.write_size as int;
        proof {
            lemma_div_multiples_vanish(self.page_state@.len() as int, ws);
            lemma_div_is_ordered(end as int, self.data@.len() as int, ws);
            assert((self.data@.len() as int) / ws == self.page_state@.len()) by (nonlinear_arith)
                requires
                    self.data@.len() == self.page_state@.len() * ws,
                    (ws * self.page_state@.len()) / ws == self.page_state@.len(),
            ;
            assert((end as int) % ws == 0) by {
                lemma_fundamental_div_mod(offset as int, ws);
                lemma_fundamental_div_mod(len as int, ws);
                let q = (offset as int) / ws + (len as int) / ws;
                assert(end == q * ws + 0) by (nonlinear_arith)
                    requires
                        offset == ws * ((offset as int) / ws) + (offset as int) % ws,
                        len == ws * ((len as int) / ws) + (len as int) % ws,
                        (offset as int) % ws == 0,
                        (len as int) % ws == 0,
                        end == offset + len,
                        q == (offset as int) / ws + (len as int) / ws,
                ;
                lemma_fundamental_div_mod_converse(end as int, ws, q, 0);
            }
        }
        let pages = self.pages(offset, end);
        let mut a = offset;
        while a < end
            invariant
                offset <= a <= end,
                end == offset + len,
                end <= self.data@.len(),
                self.write_size > 0,
                self.data@.len() == self.page_state@.len() * self.write_size,
                *self == *old(self),
                len == bytes@.len(),
                slice_check(self.data@.len() as int, self.write_size as int, offset as int, len as int)
                    == Ok::<(), Error>(()),
                forall|b: int| offset <= b < a ==> #[trigger] self.spec_erased().contains(b),
            decreases end - a,
        {
            proof {
                lemma_page_below(a as int, self.page_state@.len() as int, self.write_size as int);
            }
            if self.page_state[a / self.write_size] != PageState::Erased {
                assert(!self.spec_erased().contains(a as int));
                assert(!covers(self.spec_erased(), offset as int, len as int));
                return Err(Error::NotErased);
            }
            a = a + 1;
        }
        let ghost before = *self;
        let SimFlash { read_size, write_size, erase_size, mut data, mut page_state } = self.take();
        set_pages(&mut page_state, pages.start, pages.end, PageState::Written);
        let mut i: usize = 0;
        while i < len
            invariant
                i <= len,
                len == bytes@.len(),
                end == offset + len,
                end <= data@.len(),
                data@.len() == before.data@.len(),
                forall|j: int|
                    0 <= j < data@.len() ==> #[trigger] data@[j] == if offset <= j < offset + i {
                        bytes@[j - offset]
                    } else {
                        before.data@[j]
                    },
            decreases len - i,
        {
            data.set(offset + i, bytes[i]);
            i = i + 1;
        }
        *self = SimFlash { read_size, write_size, erase_size, data, page_state };
        proof {
            assert(self.data@ =~= before.data@.subrange(0, offset as int) + bytes@ + before.data@.subrange(
                end as int,
                before.data@.len() as int,
            ));
            assert forall|a: int|
                #[trigger] self.spec_written().contains(a) == (before.spec_written().contains(a)
                    || span(offset as int, len as int).contains(a)) by {
                if 0 <= a < self.data@.len() {
                    lemma_aligned_span(a, offset as int, end as int, ws);
                    lemma_page_below(a, self.page_state@.len() as int, ws);
                } else {
                    assert(!span(offset as int, len as int).contains(a));
                }
            }
            assert forall|a: int|
                #[trigger] self.spec_erased().contains(a) == (before.spec_erased().contains(a)
                    && !span(offset as int, len as int).contains(a)) by {
                if 0 <= a < self.data@.len() {
                    lemma_aligned_span(a, offset as int, end as int, ws);
                    lemma_page_below(a, self.page_state@.len() as int, ws);
                }
            }
            assert(self.spec_written() =~= before.spec_written().union(span(offset as int, len as int)));
            assert(self.spec_erased() =~= before.spec_erased().difference(span(offset as int, len as int)));
        }
        Ok(())
    }
}

} // verus!
