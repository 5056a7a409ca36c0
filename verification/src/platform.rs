//! Which shader compile target a build renders with.

use vstd::prelude::*;
use crate::text::str_eq;

verus! {

/// A shader compile target.
#[derive(Clone, Copy, Debug, PartialEq, Eq, Structural)]
pub enum Platform {
    Metal,
    DirectX,
    Vulkan,
}

/// What a target operating system renders with when no backend is compiled
/// in: Metal on Apple systems, DirectX on Windows, Vulkan elsewhere.
pub open spec fn native_for(target_os: Seq<char>) -> Platform {
    if target_os == "macos"@ || target_os == "ios"@ {
        Platform::Metal
    } else if target_os == "windows"@ {
        Platform::DirectX
    } else {
        Platform::Vulkan
    }
}

/// What a target renders with when no backend is compiled in.
pub fn native_platform(target_os: &str) -> (r: Platform)
    ensures
        r == native_for(target_os@),
{
    if str_eq(target_os, "macos") || str_eq(target_os, "ios") {
        Platform::Metal
    } else if str_eq(target_os, "windows") {
        Platform::DirectX
    } else {
        Platform::Vulkan
    }
}

/// The shader platform a build renders with: the compiled-in backend's when
/// there is one (so a Windows Vulkan build reports Vulkan), else what the
/// target operating system renders with natively.
pub fn backend_platform(compiled: Option<Platform>, target_os: &str) -> (r: Platform)
    ensures
        r == match compiled {
            Some(p) => p,
            None => native_for(target_os@),
        },
{
    match compiled {
        Some(p) => p,
        None => native_platform(target_os),
    }
}

} // verus!
