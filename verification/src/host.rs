//! What the library reports about the host it runs on, computed from the
//! text that the caller has read there.

use crate::extensions::{STANDARD_EXTENSIONS, S_EXTENSIONS, Z_EXTENSIONS};
use crate::hardware::{
    board, get_board_info, get_hardware_ids, get_isa_string, get_vector_detail, ids_match,
    isa_string, last_id, opt_view, vector_line,
};
use crate::model::{
    classified, compact, explained, extension_letters, named_compact, named_explained,
    vector_detail, vector_present, TokenScope,
};
use crate::parsing::{
    infos, pairs, parse_extensions_compact, parse_extensions_explained, parse_s_extensions,
    parse_s_extensions_explained, parse_s_extensions_with_category, parse_vector_from_isa,
    parse_z_extensions, parse_z_extensions_explained, parse_z_extensions_with_category,
    ExtensionInfo,
};
use crate::system::{get_kernel_info, get_os_info, kernel_release, os_name};
use crate::text::{
    first_word, first_word_of, from_chars, join, join_with, lines, lowercase_of, push_all, rows,
    texts, to_chars,
};
use crate::types::{CacheInfo, RiscvInfo, SystemInfo, VectorInfo};
use vstd::prelude::*;

verus! {

/// The lowercased ISA string of a `cpuinfo` text.
pub open spec fn host_isa(cpuinfo: Option<Seq<char>>) -> Seq<char> {
    lowercase_of(isa_string(cpuinfo))
}

/// The first components of a list of pairs.
pub open spec fn firsts(list: Seq<(Seq<char>, Seq<char>)>) -> Seq<Seq<char>> {
    Seq::new(list.len(), |i: int| list[i].0)
}

/// The base extensions of the host as a compact string such as
/// `I M A F D C V`.
pub fn get_extensions_compact(cpuinfo: Option<&str>) -> (out: String)
    ensures
        out@ == compact(host_isa(opt_view(cpuinfo))),
{
    let isa = get_isa_string(cpuinfo);
    parse_extensions_compact(isa.as_str())
}

/// The unprivileged named extensions of the host as a compact string.
pub fn get_z_extensions(cpuinfo: Option<&str>) -> (out: String)
    ensures
        out@ == named_compact(host_isa(opt_view(cpuinfo)), TokenScope::Z),
{
    let isa = get_isa_string(cpuinfo);
    parse_z_extensions(isa.as_str())
}

/// The privileged named extensions of the host as a compact string.
pub fn get_s_extensions(cpuinfo: Option<&str>) -> (out: String)
    ensures
        out@ == named_compact(host_isa(opt_view(cpuinfo)), TokenScope::S),
{
    let isa = get_isa_string(cpuinfo);
    parse_s_extensions(isa.as_str())
}

/// The base extensions of the host, each with its description.
pub fn get_extensions_explained(cpuinfo: Option<&str>) -> (out: Vec<(String, String)>)
    ensures
        pairs(out@) == explained(
            extension_letters(host_isa(opt_view(cpuinfo))),
            STANDARD_EXTENSIONS@.len() as int,
        ),
{
    let isa = get_isa_string(cpuinfo);
    parse_extensions_explained(isa.as_str())
}

/// The unprivileged extensions whose pattern the ISA string of the host
/// holds, each with its description.
pub fn get_z_extensions_explained(cpuinfo: Option<&str>) -> (out: Vec<(String, String)>)
    ensures
        pairs(out@) == named_explained(
            host_isa(opt_view(cpuinfo)),
            Z_EXTENSIONS@,
            Z_EXTENSIONS@.len() as int,
        ),
{
    let isa = get_isa_string(cpuinfo);
    parse_z_extensions_explained(isa.as_str())
}

/// The privileged extensions whose pattern the ISA string of the host
/// holds, each with its description.
pub fn get_s_extensions_explained(cpuinfo: Option<&str>) -> (out: Vec<(String, String)>)
    ensures
        pairs(out@) == named_explained(
            host_isa(opt_view(cpuinfo)),
            S_EXTENSIONS@,
            S_EXTENSIONS@.len() as int,
        ),
{
    let isa = get_isa_string(cpuinfo);
    parse_s_extensions_explained(isa.as_str())
}

/// The unprivileged extensions that the host attests, with description and
/// category.
pub fn get_z_extensions_with_category(cpuinfo: Option<&str>) -> (out: Vec<ExtensionInfo>)
    ensures
        infos(out@) == classified(host_isa(opt_view(cpuinfo)), Z_EXTENSIONS@, TokenScope::Z),
{
    let isa = get_isa_string(cpuinfo);
    parse_z_extensions_with_category(isa.as_str())
}

/// The privileged extensions that the host attests, with description and
/// category.
pub fn get_s_extensions_with_category(cpuinfo: Option<&str>) -> (out: Vec<ExtensionInfo>)
    ensures
        infos(out@) == classified(host_isa(opt_view(cpuinfo)), S_EXTENSIONS@, TokenScope::S),
{
    let isa = get_isa_string(cpuinfo);
    parse_s_extensions_with_category(isa.as_str())
}

/// The raw ISA string of the host. An older name of `get_isa_string`.
pub fn get_cpu_info(cpuinfo: Option<&str>) -> (isa: String)
    ensures
        isa@ == isa_string(opt_view(cpuinfo)),
{
    get_isa_string(cpuinfo)
}

/// The vendor id of the host in words, or `Unknown SoC` where the kernel
/// shows none.
pub fn get_soc_info(cpuinfo: Option<&str>) -> (soc: String)
    ensures
        soc@ == match cpuinfo {
            Some(text) => if last_id(lines(text@), "mvendorid"@).len() > 0 {
                "Vendor ID: "@ + last_id(lines(text@), "mvendorid"@)
            } else {
                "Unknown SoC"@
            },
            None => "Unknown SoC"@,
        },
{
    let ids = get_hardware_ids(cpuinfo);
    if !ids.mvendorid.as_str().is_empty() {
        let mut soc = "Vendor ID: ".to_owned();
        soc.append(ids.mvendorid.as_str());
        soc
    } else {
        "Unknown SoC".to_owned()
    }
}

/// The vector detail of the host. An older name of `get_vector_detail`.
pub fn get_vector_info(cpuinfo: Option<&str>, vlen: Option<&str>) -> (line: String)
    ensures
        line@ == vector_line(vector_detail(host_isa(opt_view(cpuinfo))), opt_view(vlen)),
{
    get_vector_detail(cpuinfo, vlen)
}

/// The first components of a list of pairs.
pub fn names_of(list: Vec<(String, String)>) -> (names: Vec<String>)
    ensures
        texts(names@) == firsts(pairs(list@)),
{
    let mut names: Vec<String> = Vec::new();
    let mut i: usize = 0;
    while i < list.len()
        invariant
            i <= list.len(),
            names@.len() == i,
            forall|j: int| 0 <= j < i ==> names@[j]@ == list@[j].0@,
        decreases list.len() - i,
    {
        names.push(list[i].0.clone());
        i += 1;
    }
    assert(texts(names@) =~= firsts(pairs(list@)));
    names
}

/// Whether `isa` attests a vector unit: whether it has a vector detail.
pub fn vector_enabled(isa: &str) -> (enabled: bool)
    ensures
        enabled == vector_present(lowercase_of(isa@)),
{
    parse_vector_from_isa(isa).is_some()
}

/// What the tool has read on a host, before anything is derived from it.
/// A text is `None` where its source could not be read.
pub struct HostReadings {
    /// The content of `/proc/cpuinfo`.
    pub cpuinfo: Option<String>,
    /// The number of processors that the system reports.
    pub cpus: usize,
    /// The content of the device tree's `model`.
    pub board_model: Option<String>,
    /// The content of the device tree's `compatible`.
    pub board_compatible: Option<String>,
    pub memory_used_bytes: u64,
    pub memory_total_bytes: u64,
    /// The output of `uname -r`.
    pub uname_release: Option<String>,
    /// The content of `/etc/os-release`.
    pub os_release: Option<String>,
    pub uptime_seconds: u64,
}

/// The view of an optional text.
pub open spec fn held_view(text: Option<String>) -> Option<Seq<char>> {
    match text {
        Some(held) => Some(held@),
        None => None,
    }
}

/// An optional text, borrowed.
pub fn borrowed(text: &Option<String>) -> (out: Option<&str>)
    ensures
        opt_view(out) == held_view(*text),
{
    match text {
        Some(held) => Some(held.as_str()),
        None => None,
    }
}

/// What is specific to RISC-V on a host, from its `cpuinfo` and the
/// number of processors that the system reports. The vector unit is flagged
/// as enabled exactly where the ISA string has a vector detail. Vector
/// widths and cache sizes are left open.
pub fn collect_riscv_info(cpuinfo: Option<&str>, cpus: usize) -> (info: RiscvInfo)
    ensures
        info.isa@ == isa_string(opt_view(cpuinfo)),
        texts(info.extensions@) == firsts(
            explained(
                extension_letters(host_isa(opt_view(cpuinfo))),
                STANDARD_EXTENSIONS@.len() as int,
            ),
        ),
        texts(info.z_extensions@) == firsts(
            named_explained(host_isa(opt_view(cpuinfo)), Z_EXTENSIONS@, Z_EXTENSIONS@.len() as int),
        ),
        info.vector.enabled == vector_present(host_isa(opt_view(cpuinfo))),
        info.vector.vlen is None,
        info.vector.elen is None,
        info.hart_count == cpus,
        ids_match(opt_view(cpuinfo), info.hardware_ids),
        info.cache.l1d is None && info.cache.l1i is None && info.cache.l2 is None
            && info.cache.l3 is None,
{
    let isa = get_isa_string(cpuinfo);
    let extensions = names_of(get_extensions_explained(cpuinfo));
    let z_extensions = names_of(get_z_extensions_explained(cpuinfo));
    let enabled = vector_enabled(isa.as_str());
    RiscvInfo {
        isa,
        extensions,
        z_extensions,
        vector: VectorInfo { enabled, vlen: None, elen: None },
        hart_count: cpus,
        hardware_ids: get_hardware_ids(cpuinfo),
        cache: CacheInfo::default(),
    }
}

/// Everything the tool reports about a host, from what was read there.
pub fn collect_all_info(readings: &HostReadings) -> (info: SystemInfo)
    ensures
        info.isa@ == isa_string(held_view(readings.cpuinfo)),
        texts(info.extensions@) == firsts(
            explained(
                extension_letters(host_isa(held_view(readings.cpuinfo))),
                STANDARD_EXTENSIONS@.len() as int,
            ),
        ),
        texts(info.z_extensions@) == firsts(
            named_explained(
                host_isa(held_view(readings.cpuinfo)),
                Z_EXTENSIONS@,
                Z_EXTENSIONS@.len() as int,
            ),
        ),
        texts(info.s_extensions@) == firsts(
            named_explained(
                host_isa(held_view(readings.cpuinfo)),
                S_EXTENSIONS@,
                S_EXTENSIONS@.len() as int,
            ),
        ),
        info.vector.enabled == vector_present(host_isa(held_view(readings.cpuinfo))),
        info.vector.vlen is None,
        info.vector.elen is None,
        info.hart_count == readings.cpus,
        ids_match(held_view(readings.cpuinfo), info.hardware_ids),
        info.cache.l1d is None && info.cache.l1i is None && info.cache.l2 is None
            && info.cache.l3 is None,
        info.board@ == board(
            held_view(readings.board_model),
            held_view(readings.board_compatible),
        ),
        info.memory_used_bytes == readings.memory_used_bytes,
        info.memory_total_bytes == readings.memory_total_bytes,
        info.kernel@ == kernel_release(held_view(readings.uname_release)),
        info.os@ == os_name(held_view(readings.os_release)),
        info.uptime_seconds == readings.uptime_seconds,
{
    let cpuinfo = borrowed(&readings.cpuinfo);
    let isa = get_isa_string(cpuinfo);
    let extensions = names_of(get_extensions_explained(cpuinfo));
    let z_extensions = names_of(get_z_extensions_explained(cpuinfo));
    let s_extensions = names_of(get_s_extensions_explained(cpuinfo));
    let enabled = vector_enabled(isa.as_str());
    SystemInfo {
        isa,
        extensions,
        z_extensions,
        s_extensions,
        vector: VectorInfo { enabled, vlen: None, elen: None },
        hart_count: readings.cpus,
        hardware_ids: get_hardware_ids(cpuinfo),
        cache: CacheInfo::default(),
        board: get_board_info(
            borrowed(&readings.board_model),
            borrowed(&readings.board_compatible),
        ),
        memory_used_bytes: readings.memory_used_bytes,
        memory_total_bytes: readings.memory_total_bytes,
        kernel: get_kernel_info(borrowed(&readings.uname_release)),
        os: get_os_info(borrowed(&readings.os_release)),
        uptime_seconds: readings.uptime_seconds,
    }
}

/// One base extension in the one-line summary: its name, and the first
/// word of its description in brackets.
pub open spec fn summary_part(pair: (Seq<char>, Seq<char>)) -> Seq<char> {
    pair.0 + " ("@ + first_word(pair.1) + ")"@
}

/// The parts of the one-line summary.
pub open spec fn summary_parts(list: Seq<(Seq<char>, Seq<char>)>) -> Seq<Seq<char>> {
    Seq::new(list.len(), |i: int| summary_part(list[i]))
}

/// The base extensions of the host in one line, such as
/// `I (Base), M (Integer)`: each name with the first word of its
/// description, commas between them.
pub fn get_extensions(cpuinfo: Option<&str>) -> (out: String)
    ensures
        out@ == join(
            summary_parts(
                explained(
                    extension_letters(host_isa(opt_view(cpuinfo))),
                    STANDARD_EXTENSIONS@.len() as int,
                ),
            ),
            ", "@,
        ),
{
    let list = get_extensions_explained(cpuinfo);
    let mut parts: Vec<Vec<char>> = Vec::new();
    let mut i: usize = 0;
    while i < list.len()
        invariant
            i <= list.len(),
            parts@.len() == i,
            forall|j: int| 0 <= j < i ==> parts@[j]@ == summary_part(pairs(list@)[j]),
        decreases list.len() - i,
    {
        let mut part = to_chars(list[i].0.as_str());
        let description = to_chars(list[i].1.as_str());
        push_all(&mut part, to_chars(" (").as_slice());
        push_all(&mut part, first_word_of(description.as_slice()).as_slice());
        push_all(&mut part, to_chars(")").as_slice());
        parts.push(part);
        i += 1;
    }
    assert(rows(parts@) =~= summary_parts(pairs(list@)));
    let joined = join_with(&parts, to_chars(", ").as_slice());
    from_chars(joined.as_slice())
}

} // verus!
