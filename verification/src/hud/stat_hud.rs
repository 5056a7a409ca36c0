//! The stats HUD's memory chips.

use vstd::prelude::*;
use crate::text::{decimal, push_decimal, push_str};

verus! {

/// Bytes in a mebibyte.
pub const MIB: u64 = 1048576;

/// The GPU-memory chip: the allocation in whole mebibytes.
pub open spec fn vram_chip(bytes: u64) -> Seq<char> {
    "VRAM "@ + decimal((bytes / MIB) as nat) + " MB"@
}

/// The host-memory chip: blank without a resident-set reading, else the
/// reading in whole mebibytes, with the budget appended when it is known.
pub open spec fn ram_chip(rss: Option<u64>, budget_mib: Option<u64>) -> Seq<char> {
    match rss {
        None => Seq::empty(),
        Some(rss) => match budget_mib {
            Some(budget) => "RAM "@ + decimal((rss / MIB) as nat) + " / "@ + decimal(budget as nat)
                + " MB"@,
            None => "RAM "@ + decimal((rss / MIB) as nat) + " MB"@,
        },
    }
}

/// Build the GPU-memory chip text from a byte count.
pub fn vram_text(bytes: u64) -> (r: String)
    ensures
        r@ == vram_chip(bytes),
{
    let mut out = String::new();
    push_str(&mut out, "VRAM ");
    push_decimal(&mut out, bytes / MIB);
    push_str(&mut out, " MB");
    out
}

/// Build the host-memory chip text from the process resident set size, with
/// the memory budget appended when the budget is available. A missing reading
/// blanks the chip.
pub fn ram_text(rss: Option<u64>, budget_mib: Option<u64>) -> (r: String)
    ensures
        r@ == ram_chip(rss, budget_mib),
{
    let mut out = String::new();
    match rss {
        None => {},
        Some(rss) => {
            push_str(&mut out, "RAM ");
            push_decimal(&mut out, rss / MIB);
            match budget_mib {
                Some(budget) => {
                    push_str(&mut out, " / ");
                    push_decimal(&mut out, budget);
                },
                None => {},
            }
            push_str(&mut out, " MB");
        },
    }
    out
}

} // verus!
