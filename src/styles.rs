//! Flash styles
//!
//! Various microcontrollers have various types of flash memories available to
//! them.  Each style here is a pair of areas, a main slot and an upgrade slot,
//! modelled on a family of devices.
use vstd::prelude::*;

use crate::simflash::SimFlash;
use crate::storage::{Error, ReadFlash};

verus! {

/// The configuration of a single flash area.
#[derive(Debug, Clone, Copy, PartialEq, Eq, Structural)]
pub struct AreaLayout {
    pub read_size: usize,
    pub write_size: usize,
    pub erase_size: usize,
    pub sectors: usize,
}

impl AreaLayout {
    /// Whether a simulated device of this geometry can be made.
    pub open spec fn valid(&self) -> bool {
        &&& self.read_size > 0
        &&& self.write_size > 0
        &&& self.write_size <= self.erase_size
        &&& self.erase_size % self.write_size == 0
        &&& self.sectors * self.erase_size <= usize::MAX
    }

    /// Build a simulated, fresh device of this geometry.
    pub fn build(&self) -> (r: Result<SimFlash, Error>)
        requires
            self.valid(),
        ensures
            r matches Ok(f) && {
                &&& f.spec_read_size() == self.read_size
                &&& f.spec_write_size() == self.write_size
                &&& f.spec_erase_size() == self.erase_size
                &&& f.spec_contents() == Seq::new(
                    (self.sectors * self.erase_size) as nat,
                    |i: int| 0xffu8,
                )
                &&& f.spec_written() == Set::<int>::empty()
                &&& f.spec_erased() == Set::<int>::empty()
            },
    {
        SimFlash::new(self.read_size, self.write_size, self.erase_size, self.sectors)
    }
}

/// STM32F4-style.  These devices have a small number of large sectors, so the
/// image and the status area must share them.
pub fn stm32f_main() -> (r: AreaLayout)
    ensures
        r == (AreaLayout { read_size: 1, write_size: 8, erase_size: 0x20000, sectors: 2 }),
{
    AreaLayout { read_size: 1, write_size: 8, erase_size: 0x20000, sectors: 2 }
}

pub fn stm32f_upgrade() -> (r: AreaLayout)
    ensures
        r == (AreaLayout { read_size: 1, write_size: 8, erase_size: 0x20000, sectors: 1 }),
{
    AreaLayout { read_size: 1, write_size: 8, erase_size: 0x20000, sectors: 1 }
}

/// K64-style.  These devices have small uniform sectors.
pub fn k64_main() -> (r: AreaLayout)
    ensures
        r == (AreaLayout { read_size: 1, write_size: 8, erase_size: 0x1000, sectors: 33 }),
{
    AreaLayout { read_size: 1, write_size: 8, erase_size: 0x1000, sectors: 33 }
}

pub fn k64_upgrade() -> (r: AreaLayout)
    ensures
        r == (AreaLayout { read_size: 1, write_size: 8, erase_size: 0x1000, sectors: 33 }),
{
    AreaLayout { read_size: 1, write_size: 8, erase_size: 0x1000, sectors: 33 }
}

/// External flash configuration.  The external partition is the same size,
/// and has a large write alignment.
pub fn ext_main() -> (r: AreaLayout)
    ensures
        r == (AreaLayout { read_size: 1, write_size: 4, erase_size: 0x1000, sectors: 32 }),
{
    AreaLayout { read_size: 1, write_size: 4, erase_size: 0x1000, sectors: 32 }
}

pub fn ext_upgrade() -> (r: AreaLayout)
    ensures
        r == (AreaLayout { read_size: 1, write_size: 256, erase_size: 0x1000, sectors: 32 }),
{
    AreaLayout { read_size: 1, write_size: 256, erase_size: 0x1000, sectors: 32 }
}

/// Page-style devices, based on the LPC55S69.
pub fn lpc_main() -> (r: AreaLayout)
    ensures
        r == (AreaLayout { read_size: 1, write_size: 512, erase_size: 512, sectors: 256 }),
{
    AreaLayout { read_size: 1, write_size: 512, erase_size: 512, sectors: 256 }
}

pub fn lpc_upgrade() -> (r: AreaLayout)
    ensures
        r == (AreaLayout { read_size: 1, write_size: 512, erase_size: 512, sectors: 256 }),
{
    AreaLayout { read_size: 1, write_size: 512, erase_size: 512, sectors: 256 }
}

/// Another large write, based on the STM32H745.
pub fn stm32h_main() -> (r: AreaLayout)
    ensures
        r == (AreaLayout { read_size: 1, write_size: 32, erase_size: 0x20000, sectors: 4 }),
{
    AreaLayout { read_size: 1, write_size: 32, erase_size: 0x20000, sectors: 4 }
}

pub fn stm32h_upgrade() -> (r: AreaLayout)
    ensures
        r == (AreaLayout { read_size: 1, write_size: 32, erase_size: 0x20000, sectors: 3 }),
{
    AreaLayout { read_size: 1, write_size: 32, erase_size: 0x20000, sectors: 3 }
}

/// The flash styles, as (main, upgrade) pairs.
pub open spec fn style_pairs() -> Seq<(AreaLayout, AreaLayout)> {
    seq![
        (
            AreaLayout { read_size: 1, write_size: 8, erase_size: 0x20000, sectors: 2 },
            AreaLayout { read_size: 1, write_size: 8, erase_size: 0x20000, sectors: 1 },
        ),
        (
            AreaLayout { read_size: 1, write_size: 8, erase_size: 0x1000, sectors: 33 },
            AreaLayout { read_size: 1, write_size: 8, erase_size: 0x1000, sectors: 33 },
        ),
        (
            AreaLayout { read_size: 1, write_size: 4, erase_size: 0x1000, sectors: 32 },
            AreaLayout { read_size: 1, write_size: 256, erase_size: 0x1000, sectors: 32 },
        ),
        (
            AreaLayout { read_size: 1, write_size: 512, erase_size: 512, sectors: 256 },
            AreaLayout { read_size: 1, write_size: 512, erase_size: 512, sectors: 256 },
        ),
        (
            AreaLayout { read_size: 1, write_size: 32, erase_size: 0x20000, sectors: 4 },
            AreaLayout { read_size: 1, write_size: 32, erase_size: 0x20000, sectors: 3 },
        ),
    ]
}

/// Whether `f` is a fresh simulated device built from `l`: its geometry, every
/// byte `0xff`, and no page written or erased.
pub open spec fn built_from(f: SimFlash, l: AreaLayout) -> bool {
    &&& f.spec_read_size() == l.read_size
    &&& f.spec_write_size() == l.write_size
    &&& f.spec_erase_size() == l.erase_size
    &&& f.spec_contents() == Seq::new((l.sectors * l.erase_size) as nat, |i: int| 0xffu8)
    &&& f.spec_written() == Set::<int>::empty()
    &&& f.spec_erased() == Set::<int>::empty()
}

/// Every style can be built.
proof fn lemma_styles_valid()
    ensures
        forall|j: int|
            0 <= j < style_pairs().len() ==> (#[trigger] style_pairs()[j]).0.valid()
                && style_pairs()[j].1.valid(),
{
    assert(style_pairs()[0].0.valid() && style_pairs()[0].1.valid());
    assert(style_pairs()[1].0.valid() && style_pairs()[1].1.valid());
    assert(style_pairs()[2].0.valid() && style_pairs()[2].1.valid());
    assert(style_pairs()[3].0.valid() && style_pairs()[3].1.valid());
    assert(style_pairs()[4].0.valid() && style_pairs()[4].1.valid());
}

/// All of the flash styles, as (main, upgrade) pairs.
pub fn all_layouts() -> (r: Vec<(AreaLayout, AreaLayout)>)
    ensures
        r@ == style_pairs(),
{
    let r = vec![
        (stm32f_main(), stm32f_upgrade()),
        (k64_main(), k64_upgrade()),
        (ext_main(), ext_upgrade()),
        (lpc_main(), lpc_upgrade()),
        (stm32h_main(), stm32h_upgrade()),
    ];
    assert(r@ =~= style_pairs());
    r
}

/// Each of the device pairs, built as fresh simulated devices.
pub fn all_flashes() -> (r: Vec<Result<(SimFlash, SimFlash), Error>>)
    ensures
        r@.len() == style_pairs().len(),
        forall|i: int|
            0 <= i < r@.len() ==> (#[trigger] r@[i] matches Ok((a, b)) && built_from(
                a,
                style_pairs()[i].0,
            ) && built_from(b, style_pairs()[i].1)),
{
    let layouts = all_layouts();
    proof {
        lemma_styles_valid();
    }
    let mut r: Vec<Result<(SimFlash, SimFlash), Error>> = Vec::new();
    let mut i: usize = 0;
    while i < layouts.len()
        invariant
            layouts@ == style_pairs(),
            forall|j: int|
                0 <= j < style_pairs().len() ==> (#[trigger] style_pairs()[j]).0.valid()
                    && style_pairs()[j].1.valid(),
            i <= layouts@.len(),
            r@.len() == i,
            forall|j: int|
                0 <= j < i ==> (#[trigger] r@[j] matches Ok((a, b)) && built_from(
                    a,
                    style_pairs()[j].0,
                ) && built_from(b, style_pairs()[j].1)),
        decreases layouts@.len() - i,
    {
        let (a, b) = layouts[i];
        let pair = match (a.build(), b.build()) {
            (Ok(fa), Ok(fb)) => Ok((fa, fb)),
            (Err(e), _) => Err(e),
            (_, Err(e)) => Err(e),
        };
        r.push(pair);
        i = i + 1;
    }
    r
}

} // verus!
