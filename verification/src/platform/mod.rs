//! What depends on the operating system.
pub mod browser;
pub mod paths;
pub mod private_fs;

use vstd::prelude::*;

verus! {

#[derive(Clone, Copy, Debug, PartialEq, Eq, Structural)]
pub enum Platform {
    Linux,
    MacOs,
}

pub const MINIMUM_LINUX_KERNEL: &'static str = "5.15";

pub const MINIMUM_LINUX_GLIBC: &'static str = "2.35";

pub const MINIMUM_MACOS: &'static str = "13.0";

} // verus!
