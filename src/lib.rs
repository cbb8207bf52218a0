//! A secure bootloader core for microcontrollers with NOR-style flash: a flash
//! abstraction with an in-memory simulator, the signed image format and its
//! validator, and the layout of the upgrade status kept at the end of a slot.
use vstd::prelude::*;

pub mod gen;
pub mod hash;
pub mod image;
pub mod partition;
pub mod simflash;
pub mod status;
pub mod storage;
pub mod styles;

pub use image::Image;
pub use status::SlotInfo;

verus! {

/// An error of the boot core.  Flash errors are carried as they came, so that
/// the core does not depend on a particular device.
#[derive(Debug, Clone, Copy, PartialEq, Eq, Structural)]
pub enum Error {
    Flash(storage::Error),
    InvalidImage,
    CannotUpgrade,
}

/// Convert the flash error into our error type.
impl From<storage::Error> for Error {
    fn from(e: storage::Error) -> Self {
        Error::Flash(e)
    }
}

impl vstd::std_specs::convert::FromSpecImpl<storage::Error> for Error {
    open spec fn obeys_from_spec() -> bool {
        true
    }

    open spec fn from_spec(e: storage::Error) -> Error {
        Error::Flash(e)
    }
}

/// Some kinds of flash can be mapped into memory.  This is needed for XIP
/// devices.
pub trait MappedFlash {
    spec fn spec_base(&self) -> nat;

    /// Return the base address of this flash partition, as mapped into memory.
    fn get_base(&self) -> (r: usize)
        ensures
            r == self.spec_base(),
    ;
}

} // verus!
