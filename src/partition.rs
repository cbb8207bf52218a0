//! Partition view: a read-only window `[base, base + length)` onto a parent
//! flash, with offsets translated and reads bounded to the window.
use vstd::prelude::*;

use crate::storage::{check_range, covers, Error, ReadFlash};
use crate::MappedFlash;

verus! {

/// A read-only view of `[base, base + length)` of a parent flash.
pub struct Partition<F> {
    parent: F,
    base: usize,
    length: usize,
}

/// Whether a window of `length` bytes at `base` fits in `parent` and keeps
/// its read alignment.
pub open spec fn window_fits<F: ReadFlash>(parent: F, base: int, length: int) -> bool {
    &&& length > 0
    &&& base + length <= parent.spec_contents().len()
    &&& base % (parent.spec_read_size() as int) == 0
}

/// The addresses of `s` that lie in `[base, base + length)`, relative to `base`.
pub open spec fn window_of(s: Set<int>, base: int, length: int) -> Set<int> {
    Set::new(|a: int| 0 <= a < length && s.contains(base + a))
}

impl<F: ReadFlash> Partition<F> {
    pub closed spec fn spec_parent(&self) -> F {
        self.parent
    }

    pub closed spec fn spec_start(&self) -> int {
        self.base as int
    }

    pub closed spec fn spec_length(&self) -> int {
        self.length as int
    }

    /// Whether the window still fits its parent (it always does: a partition
    /// is only made when it fits, and reads leave the parent's view alone).
    pub open spec fn fits(&self) -> bool {
        window_fits(self.spec_parent(), self.spec_start(), self.spec_length())
    }

    /// Make a view of `[base, base + length)` of `parent`.  The range must be
    /// non-empty and inside the parent; its start must be a multiple of the
    /// parent's read size.
    pub fn new(parent: F, base: usize, length: usize) -> (r: Result<Partition<F>, Error>)
        ensures
            r is Ok <==> window_fits(parent, base as int, length as int),
            r matches Ok(p) ==> p.spec_parent() == parent && p.spec_start() == base
                && p.spec_length() == length,
            r matches Ok(p) ==> {
                &&& p.spec_read_size() == parent.spec_read_size()
                &&& p.spec_contents() == parent.spec_contents().subrange(
                    base as int,
                    base + length,
                )
                &&& p.spec_written() == window_of(parent.spec_written(), base as int, length as int)
            },
            !window_fits(parent, base as int, length as int) ==> r == Err::<Partition<F>, Error>(
                if length > 0 && base + length <= parent.spec_contents().len() {
                    Error::NotAligned
                } else {
                    Error::OutOfBounds
                },
            ),
    {
        if length == 0 {
            return Err(Error::OutOfBounds);
        }
        let capacity = parent.capacity();
        if base > capacity || length > capacity - base {
            return Err(Error::OutOfBounds);
        }
        if base % parent.read_size() != 0 {
            return Err(Error::NotAligned);
        }
        Ok(Partition { parent, base, length })
    }

    /// Give the parent flash back.
    pub fn into_parent(self) -> (r: F)
        ensures
            r == self.spec_parent(),
    {
        self.parent
    }

    /// While the window fits its parent, the partition reads as the window
    /// of the parent: same read unit, the parent's bytes at `base` onwards,
    /// and the parent's written addresses shifted down by `base`.
    pub proof fn lemma_window_view(&self)
        ensures
            self.fits() ==> {
                &&& self.spec_read_size() == self.spec_parent().spec_read_size()
                &&& self.spec_contents() == self.spec_parent().spec_contents().subrange(
                    self.spec_start(),
                    self.spec_start() + self.spec_length(),
                )
                &&& self.spec_contents().len() == self.spec_length()
                &&& self.spec_written() == window_of(
                    self.spec_parent().spec_written(),
                    self.spec_start(),
                    self.spec_length(),
                )
                &&& self.spec_erased() == window_of(
                    self.spec_parent().spec_erased(),
                    self.spec_start(),
                    self.spec_length(),
                )
            },
    {
    }

    /// Whether the window fits its parent, checked at run time.
    fn check_fits(&self) -> (r: bool)
        ensures
            r == self.fits(),
            self.parent.spec_contents().len() <= usize::MAX,
    {
        let capacity = self.parent.capacity();
        self.length > 0 && self.base <= capacity && self.length <= capacity - self.base
            && self.base % self.parent.read_size() == 0
    }
}

impl<F: ReadFlash> ReadFlash for Partition<F> {
    closed spec fn spec_write_size(&self) -> nat {
        self.parent.spec_write_size()
    }

    closed spec fn spec_erase_size(&self) -> nat {
        self.parent.spec_erase_size()
    }

    closed spec fn spec_erased(&self) -> Set<int> {
        if self.fits() {
            window_of(self.parent.spec_erased(), self.base as int, self.length as int)
        } else {
            Set::empty()
        }
    }

    closed spec fn spec_read_size(&self) -> nat {
        if self.fits() {
            self.parent.spec_read_size()
        } else {
            1
        }
    }

    closed spec fn spec_contents(&self) -> Seq<u8> {
        if self.fits() {
            self.parent.spec_contents().subrange(self.base as int, self.base + self.length)
        } else {
            Seq::empty()
        }
    }

    closed spec fn spec_written(&self) -> Set<int> {
        if self.fits() {
            window_of(self.parent.spec_written(), self.base as int, self.length as int)
        } else {
            Set::empty()
        }
    }

    fn read_size(&self) -> (r: usize) {
        if self.check_fits() {
            self.parent.read_size()
        } else {
            1
        }
    }

    fn capacity(&self) -> (r: usize) {
        if self.check_fits() {
            self.length
        } else {
            0
        }
    }

    fn read(&mut self, offset: usize, bytes: &mut [u8]) -> (r: Result<(), Error>) {
        let len = bytes.len();
        if !self.check_fits() {
            return check_range(0, 1, offset, len);
        }
        let read_size = self.parent.read_size();
        check_range(self.length, read_size, offset, len)?;
        let ghost before = *self;
        let at = self.base + offset;
        proof {
            let rs = read_size as int;
            let b = self.base as int;
            assert((b + offset) % rs == 0) by {
                vstd::arithmetic::div_mod::lemma_fundamental_div_mod(b, rs);
                vstd::arithmetic::div_mod::lemma_fundamental_div_mod(offset as int, rs);
                let q = b / rs + (offset as int) / rs;
                assert(b + offset == q * rs + 0) by (nonlinear_arith)
                    requires
                        b == rs * (b / rs) + b % rs,
                        offset == rs * ((offset as int) / rs) + (offset as int) % rs,
                        b % rs == 0,
                        (offset as int) % rs == 0,
                        q == b / rs + (offset as int) / rs,
                ;
                vstd::arithmetic::div_mod::lemma_fundamental_div_mod_converse(b + offset, rs, q, 0);
            }
            assert(covers(self.spec_written(), offset as int, len as int) == covers(
                self.parent.spec_written(),
                at as int,
                len as int,
            )) by {
                if covers(self.parent.spec_written(), at as int, len as int) {
                    assert forall|a: int| offset <= a < offset + len implies #[trigger] self.spec_written().contains(
                        a,
                    ) by {
                        assert(self.parent.spec_written().contains(at + (a - offset)));
                    }
                }
                if covers(self.spec_written(), offset as int, len as int) {
                    assert forall|a: int| at <= a < at + len implies #[trigger] self.parent.spec_written().contains(
                        a,
                    ) by {
                        assert(self.spec_written().contains(a - self.base));
                    }
                }
            }
        }
        let r = self.parent.read(at, bytes);
        proof {
            assert(self.fits());
            assert(self.spec_contents() == before.spec_contents());
            assert(self.spec_written() =~= before.spec_written());
            assert(self.spec_erased() =~= before.spec_erased());
            if r is Ok {
                assert(bytes@ =~= before.spec_contents().subrange(offset as int, offset + len));
            }
        }
        r
    }
}

impl<F: ReadFlash + MappedFlash> Partition<F> {
    /// A partition is mapped at its parent's mapped address plus its start,
    /// saturating at the top of the address space: on a device mapped at 0,
    /// at its start.
    pub proof fn lemma_mapped_base(&self)
        ensures
            self.spec_base() == if self.spec_parent().spec_base() + self.spec_start() <= usize::MAX {
                (self.spec_parent().spec_base() + self.spec_start()) as nat
            } else {
                usize::MAX as nat
            },
    {
    }
}

impl<F: ReadFlash + MappedFlash> MappedFlash for Partition<F> {
    closed spec fn spec_base(&self) -> nat {
        if self.parent.spec_base() + self.base <= usize::MAX {
            (self.parent.spec_base() + self.base) as nat
        } else {
            usize::MAX as nat
        }
    }

    /// The address of the window in the parent's mapping; it saturates at the
    /// top of the address space.
    fn get_base(&self) -> (r: usize) {
        let parent_base = self.parent.get_base();
        if parent_base > usize::MAX - self.base {
            usize::MAX
        } else {
            parent_base + self.base
        }
    }
}

} // verus!
