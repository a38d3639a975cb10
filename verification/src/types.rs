//! Plain data that the collectors fill in.

use vstd::prelude::*;

verus! {

/// Hardware ids from the RISC-V CSRs, as the kernel prints them. A field is
/// empty where the kernel shows none or shows `0x0`.
#[derive(Clone, Debug)]
pub struct HardwareIds {
    pub mvendorid: String,
    pub marchid: String,
    pub mimpid: String,
}

impl Default for HardwareIds {
    fn default() -> (ids: Self)
        ensures
            ids.mvendorid@.len() == 0,
            ids.marchid@.len() == 0,
            ids.mimpid@.len() == 0,
    {
        HardwareIds { mvendorid: String::new(), marchid: String::new(), mimpid: String::new() }
    }
}

/// Vector unit summary.
#[derive(Debug)]
pub struct VectorInfo {
    pub enabled: bool,
    pub vlen: Option<u32>,
    pub elen: Option<u32>,
}

impl Default for VectorInfo {
    fn default() -> (info: Self)
        ensures
            !info.enabled,
            info.vlen is None,
            info.elen is None,
    {
        VectorInfo { enabled: false, vlen: None, elen: None }
    }
}

/// Cache sizes per level, where known.
#[derive(Debug)]
pub struct CacheInfo {
    pub l1d: Option<String>,
    pub l1i: Option<String>,
    pub l2: Option<String>,
    pub l3: Option<String>,
}

impl Default for CacheInfo {
    fn default() -> (info: Self)
        ensures
            info.l1d is None,
            info.l1i is None,
            info.l2 is None,
            info.l3 is None,
    {
        CacheInfo { l1d: None, l1i: None, l2: None, l3: None }
    }
}

/// What is specific to RISC-V, without the generic host data.
#[derive(Debug)]
pub struct RiscvInfo {
    pub isa: String,
    pub extensions: Vec<String>,
    pub z_extensions: Vec<String>,
    pub vector: VectorInfo,
    pub hart_count: usize,
    pub hardware_ids: HardwareIds,
    pub cache: CacheInfo,
}

/// Everything the tool reports about a host.
#[derive(Debug)]
pub struct SystemInfo {
    pub isa: String,
    pub extensions: Vec<String>,
    pub z_extensions: Vec<String>,
    pub s_extensions: Vec<String>,
    pub vector: VectorInfo,
    pub hart_count: usize,
    pub hardware_ids: HardwareIds,
    pub cache: CacheInfo,
    pub board: String,
    pub memory_used_bytes: u64,
    pub memory_total_bytes: u64,
    pub kernel: String,
    pub os: String,
    pub uptime_seconds: u64,
}

} // verus!
