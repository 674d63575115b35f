//! Accelerator backends.

use vstd::prelude::*;

pub mod laws;
pub mod mock;

pub use mock::{MockDeviceBackend, MockSyncobjState};

verus! {

/// Kind of an accelerator.
#[derive(Debug, Clone, Copy, PartialEq, Eq, Structural)]
pub enum DeviceType {
    Gpu,
    Npu,
}

/// Error numbers of the kernel interface.
#[derive(Debug, Clone, Copy, PartialEq, Eq, Structural)]
pub enum Errno {
    EFAULT,
    EINVAL,
    ENOENT,
    EBADF,
    ENOTTY,
    ETIMEDOUT,
    /// Any other error, by its number.
    Other(i32),
}

} // verus!
