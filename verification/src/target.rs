//! The description of an installation target for wheels.

use vstd::prelude::*;

verus! {

/// A target environment into which a wheel can be installed: the
/// interpreter and the directories of its installation scheme.
pub struct Target {
    /// The Python interpreter, as reported by `sys.executable`.
    pub sys_executable: String,
    /// The `purelib` directory of the installation scheme.
    pub purelib: String,
    /// The `platlib` directory of the installation scheme.
    pub platlib: String,
    /// The headers directory of the installation scheme.
    pub headers: String,
    /// The `scripts` directory of the installation scheme.
    pub scripts: String,
    /// The `data` directory of the installation scheme.
    pub data: String,
    /// The Python version, as (major, minor).
    pub python_version: (u8, u8),
}

} // verus!
