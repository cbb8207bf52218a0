//! Storage abstraction: the capabilities of a NOR-style flash device, and the
//! argument checks that every device shares.
use vstd::prelude::*;

verus! {

/// An error reported by a flash device.
#[derive(Debug, Clone, Copy, PartialEq, Eq, Structural)]
pub enum Error {
    NotAligned,
    OutOfBounds,
    NotWritten,
    NotErased,
}

/// The addresses `[from, from + len)`.
pub open spec fn span(from: int, len: int) -> Set<int> {
    Set::new(|a: int| from <= a < from + len)
}

/// Whether every address of `[from, from + len)` is in `s`.
pub open spec fn covers(s: Set<int>, from: int, len: int) -> bool {
    forall|a: int| from <= a < from + len ==> #[trigger] s.contains(a)
}

/// The outcome of the checks on an access of `len` bytes at `offset`, on a
/// device of `capacity` bytes whose access unit is `align`: alignment first,
/// then bounds.
pub open spec fn slice_check(capacity: int, align: int, offset: int, len: int) -> Result<(), Error> {
    if offset % align != 0 || len % align != 0 {
        Err(Error::NotAligned)
    } else if offset + len > capacity {
        Err(Error::OutOfBounds)
    } else {
        Ok(())
    }
}

/// The outcome of the checks on an erase of `[from, to)` on a device of
/// `capacity` bytes whose erase unit is `erase_size`.
pub open spec fn erase_check(capacity: int, erase_size: int, from: int, to: int) -> Result<(), Error> {
    if from % erase_size != 0 || to % erase_size != 0 {
        Err(Error::NotAligned)
    } else if from > to || to > capacity {
        Err(Error::OutOfBounds)
    } else {
        Ok(())
    }
}

/// What an access of `len` bytes at `offset` returns on a device of `capacity`
/// bytes whose access unit is `align`, when the access needs every address of
/// the range to be in `ready` and fails with `missing` otherwise.
pub open spec fn access_outcome(
    capacity: int,
    align: int,
    ready: Set<int>,
    missing: Error,
    offset: int,
    len: int,
) -> Result<(), Error> {
    match slice_check(capacity, align, offset, len) {
        Err(e) => Err(e),
        Ok(()) => if covers(ready, offset, len) {
            Ok(())
        } else {
            Err(missing)
        },
    }
}

/// Read only interface into flash.
///
/// A device is modelled by its read unit, its contents (one byte per address,
/// so that their length is the capacity), and the set of addresses whose read
/// unit holds programmed data.  The model also holds the write-side state that
/// `Flash` uses (write unit, erase unit, erased addresses), so that a read can
/// promise to leave it alone; a read-only device gives it no meaning.
pub trait ReadFlash: Sized {
    spec fn spec_read_size(&self) -> nat;

    spec fn spec_contents(&self) -> Seq<u8>;

    spec fn spec_written(&self) -> Set<int>;

    /// The write unit of a writable device.
    spec fn spec_write_size(&self) -> nat;

    /// The erase unit of a writable device.
    spec fn spec_erase_size(&self) -> nat;

    /// The addresses that are erased and may be programmed, on a writable
    /// device.
    spec fn spec_erased(&self) -> Set<int>;

    /// What is the read size (alignment and size multiple).
    fn read_size(&self) -> (r: usize)
        ensures
            r == self.spec_read_size(),
            r > 0,
    ;

    /// Read `bytes.len()` bytes at `offset`.
    fn read(&mut self, offset: usize, bytes: &mut [u8]) -> (r: Result<(), Error>)
        ensures
            final(self).spec_read_size() == old(self).spec_read_size(),
            final(self).spec_contents() == old(self).spec_contents(),
            final(self).spec_written() == old(self).spec_written(),
            final(self).spec_write_size() == old(self).spec_write_size(),
            final(self).spec_erase_size() == old(self).spec_erase_size(),
            final(self).spec_erased() == old(self).spec_erased(),
            r == access_outcome(
                old(self).spec_contents().len() as int,
                old(self).spec_read_size() as int,
                old(self).spec_written(),
                Error::NotWritten,
                offset as int,
                old(bytes)@.len() as int,
            ),
            r is Ok ==> final(bytes)@ == old(self).spec_contents().subrange(
                offset as int,
                offset + old(bytes)@.len(),
            ),
            r is Err ==> final(bytes)@ == old(bytes)@,
    ;

    fn capacity(&self) -> (r: usize)
        ensures
            r == self.spec_contents().len(),
    ;
}

/// Flash that can be written to.
///
/// Its write unit, erase unit and erased addresses are those of the model of
/// `ReadFlash`.
pub trait Flash: ReadFlash {
    /// Write size (alignment and size multiple).
    fn write_size(&self) -> (r: usize)
        ensures
            r == self.spec_write_size(),
            r > 0,
    ;

    /// Erase size (alignment and size multiple).
    fn erase_size(&self) -> (r: usize)
        ensures
            r == self.spec_erase_size(),
            r > 0,
    ;

    /// Erase `[from, to)`: the range becomes erased and no longer readable.
    fn erase(&mut self, from: usize, to: usize) -> (r: Result<(), Error>)
        ensures
            final(self).spec_read_size() == old(self).spec_read_size(),
            final(self).spec_write_size() == old(self).spec_write_size(),
            final(self).spec_erase_size() == old(self).spec_erase_size(),
            final(self).spec_contents().len() == old(self).spec_contents().len(),
            r == erase_check(
                old(self).spec_contents().len() as int,
                old(self).spec_erase_size() as int,
                from as int,
                to as int,
            ),
            r is Ok ==> {
                &&& forall|a: int|
                    !(from <= a < to) && 0 <= a < old(self).spec_contents().len()
                        ==> #[trigger] final(self).spec_contents()[a] == old(self).spec_contents()[a]
                &&& final(self).spec_written() == old(self).spec_written().difference(
                    span(from as int, to - from),
                )
                &&& final(self).spec_erased() == old(self).spec_erased().union(
                    span(from as int, to - from),
                )
            },
            r is Err ==> {
                &&& final(self).spec_contents() == old(self).spec_contents()
                &&& final(self).spec_written() == old(self).spec_written()
                &&& final(self).spec_erased() == old(self).spec_erased()
            },
    ;

    /// Program `bytes` at `offset`: the range must be erased, and becomes
    /// readable with the new contents.
    fn write(&mut self, offset: usize, bytes: &[u8]) -> (r: Result<(), Error>)
        ensures
            final(self).spec_read_size() == old(self).spec_read_size(),
            final(self).spec_write_size() == old(self).spec_write_size(),
            final(self).spec_erase_size() == old(self).spec_erase_size(),
            final(self).spec_contents().len() == old(self).spec_contents().len(),
            r == access_outcome(
                old(self).spec_contents().len() as int,
                old(self).spec_write_size() as int,
                old(self).spec_erased(),
                Error::NotErased,
                offset as int,
                bytes@.len() as int,
            ),
            r is Ok ==> {
                &&& final(self).spec_contents() == old(self).spec_contents().subrange(
                    0,
                    offset as int,
                ) + bytes@ + old(self).spec_contents().subrange(
                    offset + bytes@.len(),
                    old(self).spec_contents().len() as int,
                )
                &&& final(self).spec_written() == old(self).spec_written().union(
                    span(offset as int, bytes@.len() as int),
                )
                &&& final(self).spec_erased() == old(self).spec_erased().difference(
                    span(offset as int, bytes@.len() as int),
                )
            },
            r is Err ==> {
                &&& final(self).spec_contents() == old(self).spec_contents()
                &&& final(self).spec_written() == old(self).spec_written()
                &&& final(self).spec_erased() == old(self).spec_erased()
            },
    ;
}

/// An operation on a writable device, as a spec value.
pub enum FlashOp {
    Erase { from: int, to: int },
    Write { offset: int, bytes: Seq<u8> },
}

/// The byte that the last operation of `ops` touching address `a` left
/// readable there: the byte written, or `None` if the address was erased
/// since, or never written.
pub open spec fn last_written(ops: Seq<FlashOp>, a: int) -> Option<u8>
    decreases ops.len(),
{
    if ops.len() == 0 {
        None
    } else {
        match ops.last() {
            FlashOp::Write { offset, bytes } => if offset <= a < offset + bytes.len() {
                Some(bytes[a - offset])
            } else {
                last_written(ops.drop_last(), a)
            },
            FlashOp::Erase { from, to } => if from <= a < to {
                None
            } else {
                last_written(ops.drop_last(), a)
            },
        }
    }
}

/// `after` is the state of a device after `op` succeeded on `before`, as the
/// contracts of `Flash::erase` and `Flash::write` describe it.
pub open spec fn succeeded<F: Flash>(before: F, op: FlashOp, after: F) -> bool {
    &&& after.spec_contents().len() == before.spec_contents().len()
    &&& after.spec_write_size() == before.spec_write_size()
    &&& after.spec_erase_size() == before.spec_erase_size()
    &&& match op {
        FlashOp::Erase { from, to } => {
            &&& 0 <= from
            &&& erase_check(
                before.spec_contents().len() as int,
                before.spec_erase_size() as int,
                from,
                to,
            ) is Ok
            &&& forall|a: int|
                !(from <= a < to) && 0 <= a < before.spec_contents().len()
                    ==> #[trigger] after.spec_contents()[a] == before.spec_contents()[a]
            &&& after.spec_written() == before.spec_written().difference(span(from, to - from))
        },
        FlashOp::Write { offset, bytes } => {
            &&& 0 <= offset
            &&& access_outcome(
                before.spec_contents().len() as int,
                before.spec_write_size() as int,
                before.spec_erased(),
                Error::NotErased,
                offset,
                bytes.len() as int,
            ) is Ok
            &&& after.spec_contents() == before.spec_contents().subrange(0, offset) + bytes
                + before.spec_contents().subrange(
                offset + bytes.len(),
                before.spec_contents().len() as int,
            )
            &&& after.spec_written() == before.spec_written().union(span(offset, bytes.len() as int))
        },
    }
}

/// Reads return what was last written.  Take a device with nothing written,
/// and apply any sequence of erases and writes that succeed, `states[i + 1]`
/// being the device after `ops[i]`.  Then an address is readable exactly when
/// the last operation touching it was a write, and it then holds the byte
/// written; a read (by its contract) returns those bytes, and fails with
/// `NotWritten` on any other address.
pub proof fn lemma_reads_return_last_write<F: Flash>(states: Seq<F>, ops: Seq<FlashOp>)
    requires
        states.len() == ops.len() + 1,
        states[0].spec_written() == Set::<int>::empty(),
        forall|i: int| 0 <= i < ops.len() ==> succeeded(states[i], #[trigger] ops[i], states[i + 1]),
    ensures
        forall|a: int|
            #[trigger] states.last().spec_written().contains(a) <==> last_written(ops, a) is Some,
        forall|a: int|
            #[trigger] last_written(ops, a) matches Some(b) ==> 0 <= a < states.last().spec_contents().len()
                && states.last().spec_contents()[a] == b,
    decreases ops.len(),
{
    if ops.len() > 0 {
        let n = ops.len() - 1;
        lemma_reads_return_last_write(states.drop_last(), ops.drop_last());
        assert(succeeded(states[n], ops[n], states[n + 1]));
        let before = states[n];
        let after = states[n + 1];
        assert(states.drop_last().last() == before);
        assert forall|i: int| 0 <= i < ops.drop_last().len() implies succeeded(
            states.drop_last()[i],
            #[trigger] ops.drop_last()[i],
            states.drop_last()[i + 1],
        ) by {
            assert(succeeded(states[i], ops[i], states[i + 1]));
        }
        assert forall|a: int| #[trigger] after.spec_written().contains(a) <==> last_written(ops, a) is Some by {
            assert(before.spec_written().contains(a) <==> last_written(ops.drop_last(), a) is Some);
        }
        assert forall|a: int| #[trigger] last_written(ops, a) is Some implies 0 <= a
            < after.spec_contents().len() && after.spec_contents()[a] == last_written(ops, a)->0 by {
            match ops[n] {
                FlashOp::Write { offset, bytes } => {
                    if !(offset <= a < offset + bytes.len()) {
                        assert(last_written(ops.drop_last(), a) == last_written(ops, a));
                    }
                },
                FlashOp::Erase { from, to } => {
                    assert(last_written(ops.drop_last(), a) == last_written(ops, a));
                },
            }
        }
    }
}

/// The errors of a read come in this order: `NotAligned` exactly when the
/// offset or the length is not a multiple of the read size; else
/// `OutOfBounds` exactly when the range leaves the device; else `NotWritten`
/// exactly when some address of the range is not written.
pub proof fn lemma_read_error_order(capacity: int, read_size: int, written: Set<int>, offset: int, len: int)
    requires
        read_size > 0,
        offset >= 0,
        len >= 0,
    ensures
        access_outcome(capacity, read_size, written, Error::NotWritten, offset, len)
            == Err::<(), Error>(Error::NotAligned) <==> (offset % read_size != 0 || len % read_size
            != 0),
        access_outcome(capacity, read_size, written, Error::NotWritten, offset, len)
            == Err::<(), Error>(Error::OutOfBounds) <==> (offset % read_size == 0 && len % read_size
            == 0 && offset + len > capacity),
        access_outcome(capacity, read_size, written, Error::NotWritten, offset, len)
            == Err::<(), Error>(Error::NotWritten) <==> (offset % read_size == 0 && len % read_size
            == 0 && offset + len <= capacity && !covers(written, offset, len)),
        access_outcome(capacity, read_size, written, Error::NotWritten, offset, len) is Ok <==> (
        offset % read_size == 0 && len % read_size == 0 && offset + len <= capacity && covers(
            written,
            offset,
            len,
        )),
{
}

/// Check the arguments of a read of `length` bytes at `offset`.
pub fn check_read<T: ReadFlash>(flash: &T, offset: usize, length: usize) -> (r: Result<(), Error>)
    ensures
        r == slice_check(
            flash.spec_contents().len() as int,
            flash.spec_read_size() as int,
            offset as int,
            length as int,
        ),
{
    let align = flash.read_size();
    check_slice(flash, align, offset, length)
}

/// Check the arguments of an erase of `[from, to)`.
pub fn check_erase<T: Flash>(flash: &T, from: usize, to: usize) -> (r: Result<(), Error>)
    ensures
        r == erase_check(
            flash.spec_contents().len() as int,
            flash.spec_erase_size() as int,
            from as int,
            to as int,
        ),
{
    check_erase_range(flash.capacity(), flash.erase_size(), from, to)
}

/// Check the arguments of a write of `length` bytes at `offset`.
pub fn check_write<T: Flash>(flash: &T, offset: usize, length: usize) -> (r: Result<(), Error>)
    ensures
        r == slice_check(
            flash.spec_contents().len() as int,
            flash.spec_write_size() as int,
            offset as int,
            length as int,
        ),
{
    let align = flash.write_size();
    check_slice(flash, align, offset, length)
}

/// Check an access of `length` bytes at `offset` whose unit is `align`.
pub fn check_slice<T: ReadFlash>(flash: &T, align: usize, offset: usize, length: usize) -> (r: Result<(), Error>)
    requires
        align > 0,
    ensures
        r == slice_check(flash.spec_contents().len() as int, align as int, offset as int, length as int),
{
    check_range(flash.capacity(), align, offset, length)
}

/// Check an access of `length` bytes at `offset`, whose unit is `align`, on a
/// device of `capacity` bytes.
pub fn check_range(capacity: usize, align: usize, offset: usize, length: usize) -> (r: Result<(), Error>)
    requires
        align > 0,
    ensures
        r == slice_check(capacity as int, align as int, offset as int, length as int),
{
    if offset % align != 0 || length % align != 0 {
        return Err(Error::NotAligned);
    }
    if length > capacity || offset > capacity - length {
        return Err(Error::OutOfBounds);
    }
    Ok(())
}

/// Check an erase of `[from, to)` on a device of `capacity` bytes whose erase
/// unit is `erase_size`.
pub fn check_erase_range(capacity: usize, erase_size: usize, from: usize, to: usize) -> (r: Result<(), Error>)
    requires
        erase_size > 0,
    ensures
        r == erase_check(capacity as int, erase_size as int, from as int, to as int),
{
    if from % erase_size != 0 || to % erase_size != 0 {
        return Err(Error::NotAligned);
    }
    if from > to || to > capacity {
        return Err(Error::OutOfBounds);
    }
    Ok(())
}

} // verus!
