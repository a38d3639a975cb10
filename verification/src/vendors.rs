//! RISC-V vendors and the aliases that select them.
//!
//! A new vendor takes one row in `VENDORS` and one row in `VENDOR_ALIASES`
//! for each of its aliases.

use crate::text::{lowercase_of, same_chars, to_chars};
use vstd::prelude::*;

verus! {

/// The vendors, as (display name, subtitle). The first row is the default.
pub const VENDORS: [(&'static str, &'static str); 13] = [
    // Default
    ("RISC-V", "Architecture Info"),
    // Major IP/SoC Providers
    ("SiFive", "RISC-V by SiFive"),
    ("StarFive", "RISC-V by StarFive"),
    ("T-Head", "RISC-V by T-Head"),
    // Board Manufacturers
    ("Milk-V", "RISC-V by Milk-V"),
    ("Sipeed", "RISC-V by Sipeed"),
    ("Pine64", "RISC-V by Pine64"),
    // SoC Vendors
    ("Kendryte", "RISC-V by Kendryte"),
    ("Allwinner", "RISC-V by Allwinner"),
    ("Espressif", "RISC-V by Espressif"),
    ("SpacemiT", "RISC-V by SpacemiT"),
    ("Sophgo", "RISC-V by Sophgo"),
    // MCU Vendors
    ("WCH", "RISC-V by WCH"),
];

/// The lowercase aliases, as (alias, row of `VENDORS`), vendor by vendor
/// with the primary alias of each vendor first.
pub const VENDOR_ALIASES: [(&'static str, usize); 22] = [
    ("default", 0),
    ("riscv", 0),
    ("risc-v", 0),
    ("sifive", 1),
    ("starfive", 2),
    ("thead", 3),
    ("t-head", 3),
    ("alibaba", 3),
    ("milkv", 4),
    ("milk-v", 4),
    ("sipeed", 5),
    ("pine64", 6),
    ("pine", 6),
    ("kendryte", 7),
    ("canaan", 7),
    ("allwinner", 8),
    ("espressif", 9),
    ("esp", 9),
    ("spacemit", 10),
    ("sophgo", 11),
    ("wch", 12),
    ("winchiphead", 12),
];

/// The first alias row at or after `from` that holds `alias`.
pub open spec fn alias_row_from(alias: Seq<char>, from: int) -> Option<int>
    decreases VENDOR_ALIASES@.len() - from,
{
    if from < 0 || from >= VENDOR_ALIASES@.len() {
        None
    } else if VENDOR_ALIASES[from].0@ == alias {
        Some(from)
    } else {
        alias_row_from(alias, from + 1)
    }
}

/// The vendor that a lowercased alias selects: the vendor of the first
/// alias row that holds it, if that row names a vendor of the table.
pub open spec fn vendor_of(alias: Seq<char>) -> Option<int> {
    match alias_row_from(alias, 0) {
        Some(row) => if VENDOR_ALIASES[row].1 < VENDORS@.len() {
            Some(VENDOR_ALIASES[row].1 as int)
        } else {
            None
        },
        None => None,
    }
}

/// The vendor that `alias`, taken as it stands, selects.
pub fn find_vendor(alias: &[char]) -> (hit: Option<usize>)
    ensures
        match hit {
            Some(vendor) => vendor < VENDORS@.len() && vendor_of(alias@) == Some(vendor as int),
            None => vendor_of(alias@) is None,
        },
{
    let mut i: usize = 0;
    while i < VENDOR_ALIASES.len()
        invariant
            i <= VENDOR_ALIASES@.len(),
            alias_row_from(alias@, 0) == alias_row_from(alias@, i as int),
        decreases VENDOR_ALIASES@.len() - i,
    {
        let (name, vendor) = VENDOR_ALIASES[i];
        let name_chars = to_chars(name);
        if same_chars(name_chars.as_slice(), alias) {
            if vendor < VENDORS.len() {
                return Some(vendor);
            } else {
                return None;
            }
        }
        i += 1;
    }
    None
}

/// Display name and subtitle of the vendor that `alias` selects, whatever
/// its case; `None` for an alias that the table does not hold.
pub fn get_vendor_info(alias: &str) -> (info: Option<(&'static str, &'static str)>)
    ensures
        match info {
            Some(row) => match vendor_of(lowercase_of(alias@)) {
                Some(vendor) => 0 <= vendor < VENDORS@.len() && row == VENDORS[vendor],
                None => false,
            },
            None => vendor_of(lowercase_of(alias@)) is None,
        },
{
    let lower = alias.to_lowercase();
    let chars = to_chars(lower.as_str());
    match find_vendor(chars.as_slice()) {
        Some(vendor) => Some(VENDORS[vendor]),
        None => None,
    }
}

/// Display name and subtitle of the default vendor, the first of the table.
pub fn get_default_vendor() -> (info: (&'static str, &'static str))
    ensures
        info == VENDORS[0],
{
    VENDORS[0]
}

/// The aliases among the first `n` alias rows that belong to the vendor in
/// row `vendor`, in table order.
pub open spec fn aliases_of(vendor: usize, n: int) -> Seq<&'static str>
    decreases n,
{
    if n <= 0 {
        Seq::empty()
    } else {
        let before = aliases_of(vendor, n - 1);
        if VENDOR_ALIASES[n - 1].1 == vendor {
            before.push(VENDOR_ALIASES[n - 1].0)
        } else {
            before
        }
    }
}

/// The aliases of the vendor in row `vendor`, primary alias first.
pub fn vendor_aliases(vendor: usize) -> (aliases: Vec<&'static str>)
    ensures
        aliases@ == aliases_of(vendor, VENDOR_ALIASES@.len() as int),
{
    let mut aliases: Vec<&'static str> = Vec::new();
    let mut i: usize = 0;
    while i < VENDOR_ALIASES.len()
        invariant
            i <= VENDOR_ALIASES@.len(),
            aliases@ == aliases_of(vendor, i as int),
        decreases VENDOR_ALIASES@.len() - i,
    {
        let (name, owner) = VENDOR_ALIASES[i];
        if owner == vendor {
            aliases.push(name);
        }
        i += 1;
    }
    aliases
}

} // verus!
