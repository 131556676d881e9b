//! Classifies the vendor of the graphics processor from the listing of PCI
//! devices.

use crate::text::{chars_of, contains, contains_chars};
use vstd::prelude::*;

verus! {

/// The vendor of the graphics processor.
#[derive(Debug, Clone, Copy, PartialEq, Eq, Structural)]
pub enum VendorKind {
    Amd,
    Nvidia,
    Intel,
    /// No recognised vendor was found.
    Unknown,
}

/// The vendor that a listing of PCI devices names. AMD goes before NVIDIA and
/// NVIDIA before Intel where the listing names several.
pub open spec fn vendor_of(listing: Seq<char>) -> VendorKind {
    if contains(listing, "AMD"@) || contains(listing, "Advanced Micro Devices"@) {
        VendorKind::Amd
    } else if contains(listing, "NVIDIA"@) {
        VendorKind::Nvidia
    } else if contains(listing, "Intel"@) {
        VendorKind::Intel
    } else {
        VendorKind::Unknown
    }
}

/// The vendor that the outcome of listing the PCI devices shows: `listing` is
/// the text that was listed, or `None` where listing them failed.
pub open spec fn detected(listing: Option<Seq<char>>) -> VendorKind {
    match listing {
        Some(text) => vendor_of(text),
        None => VendorKind::Unknown,
    }
}

/// Classifies the vendor of the graphics processor. `listing` is the text of
/// the PCI device listing, or `None` where it could not be had. The result is
/// `Unknown` exactly when there is no listing or it names no recognised
/// vendor.
pub fn detect_vendor(listing: Option<&str>) -> (r: VendorKind)
    ensures
        r == detected(
            match listing {
                Some(text) => Some(text@),
                None => None,
            },
        ),
        r == VendorKind::Unknown <==> (listing matches Some(text) ==> !contains(text@, "AMD"@)
            && !contains(text@, "Advanced Micro Devices"@) && !contains(text@, "NVIDIA"@)
            && !contains(text@, "Intel"@)),
{
    match listing {
        None => VendorKind::Unknown,
        Some(text) => {
            let chars = chars_of(text);
            if contains_chars(chars.as_slice(), chars_of("AMD").as_slice()) || contains_chars(
                chars.as_slice(),
                chars_of("Advanced Micro Devices").as_slice(),
            ) {
                VendorKind::Amd
            } else if contains_chars(chars.as_slice(), chars_of("NVIDIA").as_slice()) {
                VendorKind::Nvidia
            } else if contains_chars(chars.as_slice(), chars_of("Intel").as_slice()) {
                VendorKind::Intel
            } else {
                VendorKind::Unknown
            }
        },
    }
}

} // verus!
