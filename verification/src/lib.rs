//! RISC-V capability-string parsing and classification.
//!
//! The library takes the raw ISA string that the kernel exposes and derives
//! which base and named extensions it attests, grouped and described by a
//! static catalog. Beside that it turns the other text that a RISC-V host
//! exposes into what a report shows: hardware ids, hart count, cache sizes,
//! board, kernel, operating system, uptime and a vendor logo.

pub mod display;
pub mod extensions;
pub mod grouping;
pub mod hardware;
pub mod host;
pub mod laws;
pub mod logos;
pub mod model;
pub mod parsing;
pub mod system;
pub mod text;
pub mod types;
pub mod vendors;

pub use extensions::{
    STANDARD_EXTENSIONS, S_CATEGORY_NAMES, S_EXTENSIONS, VLEN_MARKERS, Z_CATEGORY_NAMES,
    Z_EXTENSIONS,
};
pub use display::{display_extensions_compact, format_ext_with_check, hardware_ids_line};
pub use grouping::group_by_category;
pub use hardware::{
    get_board_info, get_cache_info, get_hardware_ids, get_hart_count, get_hart_count_num,
    get_isa_string, get_vector_detail,
};
pub use host::{
    collect_all_info, collect_riscv_info, get_cpu_info, get_extensions, get_extensions_compact,
    get_extensions_explained, get_s_extensions, get_s_extensions_explained,
    get_s_extensions_with_category, get_soc_info, get_vector_info, get_z_extensions,
    get_z_extensions_explained, get_z_extensions_with_category, HostReadings,
};
pub use logos::{
    fallback_logo, generate_figlet_logo, generate_logo, logo_from, LogoStyle, RISCV_LOGO,
};
pub use model::TokenScope;
pub use parsing::{
    get_all_s_extensions_with_status, get_all_standard_extensions_with_status,
    get_all_z_extensions_with_status, get_s_category_name, get_z_category_name, lookup_base,
    lookup_named, parse_extensions_compact, parse_extensions_explained, parse_named_extensions,
    parse_s_extensions, parse_s_extensions_explained, parse_s_extensions_with_category,
    parse_vector_from_isa, parse_z_extensions, parse_z_extensions_explained,
    parse_z_extensions_with_category, strip_rv_prefix, ExtensionInfo, LoweredIsa,
};
pub use system::{get_kernel_info, get_os_info, get_uptime, is_riscv};
pub use types::{CacheInfo, HardwareIds, RiscvInfo, SystemInfo, VectorInfo};
pub use vendors::{
    get_default_vendor, get_vendor_info, vendor_aliases, VENDORS, VENDOR_ALIASES,
};
