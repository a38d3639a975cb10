use riscfetch::{
    collect_all_info, collect_riscv_info, get_cpu_info, get_extensions_compact,
    get_extensions_explained, get_hardware_ids, get_hart_count, get_isa_string,
    get_s_extensions, get_s_extensions_explained, get_s_extensions_with_category, get_soc_info,
    get_vector_info, get_z_extensions, get_z_extensions_explained,
    get_z_extensions_with_category, is_riscv, HostReadings,
};

const CPUINFO: &str = "processor\t: 0\nhart\t\t: 1\nisa\t\t: rv64imafdc_zicntr_zicsr_zifencei_zihpm_zba_zbb_sstc\nmmu\t\t: sv39\nmvendorid\t: 0x489\nmarchid\t\t: 0x8000000000000007\nmimpid\t\t: 0x4210427\n\nprocessor\t: 1\nhart\t\t: 2\nisa\t\t: rv64imafdc\n";

fn readings() -> HostReadings {
    HostReadings {
        cpuinfo: Some(CPUINFO.to_string()),
        cpus: 2,
        board_model: Some("StarFive VisionFive 2 v1.3B\0".to_string()),
        board_compatible: None,
        memory_used_bytes: 1_000,
        memory_total_bytes: 8_000,
        uname_release: Some("6.6.20-starfive\n".to_string()),
        os_release: Some("PRETTY_NAME=\"Debian GNU/Linux trixie/sid\"\n".to_string()),
        uptime_seconds: 18420,
    }
}

#[test]
fn hw_is_riscv() {
    assert!(is_riscv(Some("riscv64\n"), Some(CPUINFO)));
}

#[test]
fn hw_isa_string_valid() {
    let isa = get_isa_string(Some(CPUINFO));
    assert!(isa.starts_with("rv64") || isa.starts_with("rv32"));
}

#[test]
fn hw_isa_string_has_base() {
    let isa = get_isa_string(Some(CPUINFO));
    assert!(isa.contains('i') || isa.contains('e'));
}

#[test]
fn hw_extensions_not_empty() {
    let ext = get_extensions_compact(Some(CPUINFO));
    assert!(!ext.is_empty());
    assert!(ext.contains('I') || ext.contains('E'));
}

#[test]
fn hw_hart_count_positive() {
    let hart_str = get_hart_count(Some(CPUINFO), 2);
    assert!(hart_str.contains("hart"));
    let num: String = hart_str.chars().take_while(|c| c.is_ascii_digit()).collect();
    let count: usize = num.parse().unwrap_or(0);
    assert!(count > 0);
}

#[test]
fn hw_hardware_ids_present() {
    let ids = get_hardware_ids(Some(CPUINFO));
    let has_any = !ids.mvendorid.is_empty() || !ids.marchid.is_empty() || !ids.mimpid.is_empty();
    assert!(has_any);
}

#[test]
fn hw_collect_all_info() {
    let info = collect_all_info(&readings());
    assert!(!info.isa.is_empty());
    assert!(!info.extensions.is_empty());
    assert!(info.hart_count > 0);
}

#[test]
fn hw_collect_riscv_info() {
    let info = collect_riscv_info(Some(CPUINFO), 2);
    assert!(!info.isa.is_empty());
    assert!(!info.extensions.is_empty());
    assert!(info.hart_count > 0);
}

#[test]
fn hw_riscv_info_excludes_system_fields() {
    let riscv_info = collect_riscv_info(Some(CPUINFO), 2);
    let all_info = collect_all_info(&readings());

    // RiscvInfo should have the same RISC-V specific fields
    assert_eq!(riscv_info.isa, all_info.isa);
    assert_eq!(riscv_info.extensions, all_info.extensions);
    assert_eq!(riscv_info.z_extensions, all_info.z_extensions);
    assert_eq!(riscv_info.hart_count, all_info.hart_count);
}

#[test]
fn host_getters_parse_the_isa_line() {
    assert_eq!(get_extensions_compact(Some(CPUINFO)), "I M A F D C");
    assert_eq!(get_z_extensions(Some(CPUINFO)), "zicntr zicsr zifencei zihpm zba zbb");
    assert_eq!(get_s_extensions(Some(CPUINFO)), "sstc");
    assert_eq!(get_cpu_info(Some(CPUINFO)), get_isa_string(Some(CPUINFO)));
    let explained = get_extensions_explained(Some(CPUINFO));
    assert_eq!(explained.len(), 6);
    assert_eq!(explained[1], ("M".to_string(), "Integer Multiply/Divide".to_string()));
    let z = get_z_extensions_explained(Some(CPUINFO));
    let names: Vec<&str> = z.iter().map(|(n, _)| n.as_str()).collect();
    assert_eq!(names, vec!["Zicsr", "Zifencei", "Zicntr", "Zihpm", "Zba", "Zbb"]);
    let s = get_s_extensions_explained(Some(CPUINFO));
    assert_eq!(s, vec![("Sstc".to_string(), "Supervisor Timer".to_string())]);
    let zc = get_z_extensions_with_category(Some(CPUINFO));
    let names: Vec<&str> = zc.iter().map(|e| e.name.as_str()).collect();
    assert_eq!(names, vec!["Zicntr", "Zicsr", "Zifencei", "Zihpm", "Zba", "Zbb"]);
    let sc = get_s_extensions_with_category(Some(CPUINFO));
    assert_eq!(sc.len(), 1);
    assert_eq!(sc[0].category, "sup");
}

#[test]
fn host_getters_without_cpuinfo_see_an_unknown_isa() {
    assert_eq!(get_extensions_compact(None), "");
    assert_eq!(get_z_extensions(None), "");
    assert_eq!(get_s_extensions(None), "");
    assert!(get_extensions_explained(None).is_empty());
    assert!(get_z_extensions_with_category(None).is_empty());
}

#[test]
fn soc_info_names_the_vendor_id() {
    assert_eq!(get_soc_info(Some(CPUINFO)), "Vendor ID: 0x489");
    assert_eq!(get_soc_info(Some("mvendorid: 0x0\n")), "Unknown SoC");
    assert_eq!(get_soc_info(None), "Unknown SoC");
}

#[test]
fn vector_info_is_the_vector_detail() {
    assert_eq!(get_vector_info(Some("isa: rv64gcv_zvl512b\n"), Some("512")), "Enabled, VLEN>=512, VLEN=512");
    assert_eq!(get_vector_info(Some(CPUINFO), None), "");
}

#[test]
fn collected_info_is_exact() {
    let info = collect_all_info(&readings());
    assert_eq!(info.isa, "rv64imafdc_zicntr_zicsr_zifencei_zihpm_zba_zbb_sstc");
    assert_eq!(info.extensions, vec!["I", "M", "A", "F", "D", "C"]);
    assert_eq!(info.z_extensions, vec!["Zicsr", "Zifencei", "Zicntr", "Zihpm", "Zba", "Zbb"]);
    assert_eq!(info.s_extensions, vec!["Sstc"]);
    assert_eq!(info.hart_count, 2);
    assert_eq!(info.hardware_ids.mvendorid, "0x489");
    assert_eq!(info.hardware_ids.marchid, "0x8000000000000007");
    assert_eq!(info.hardware_ids.mimpid, "0x4210427");
    assert!(info.cache.l1d.is_none() && info.cache.l3.is_none());
    assert!(!info.vector.enabled);
    assert!(info.vector.vlen.is_none() && info.vector.elen.is_none());
    assert_eq!(info.board, "StarFive VisionFive 2 v1.3B");
    assert_eq!(info.memory_used_bytes, 1_000);
    assert_eq!(info.memory_total_bytes, 8_000);
    assert_eq!(info.kernel, "6.6.20-starfive");
    assert_eq!(info.os, "Debian GNU/Linux trixie/sid");
    assert_eq!(info.uptime_seconds, 18420);
}

#[test]
fn the_vector_flag_follows_the_vector_detail() {
    // the `v` of the address-width marker attests nothing
    assert!(!collect_riscv_info(Some("isa: rv64imac\n"), 1).vector.enabled);
    assert!(!collect_riscv_info(Some("isa: rv64imafdc\n"), 1).vector.enabled);
    assert!(collect_riscv_info(Some("isa: RV64GCV\n"), 1).vector.enabled);
    // no marker, no `v`, no `zve`: `unknown` holds no `v`
    assert!(!collect_riscv_info(None, 1).vector.enabled);
    assert!(!collect_riscv_info(Some("isa: imac_zvl128b\n"), 1).vector.enabled);
    assert!(collect_riscv_info(Some("isa: imac_zve32x\n"), 1).vector.enabled);
}

#[test]
fn the_vector_flag_agrees_with_the_parser() {
    for isa in ["rv64imafdc", "rv64imafdcv", "rv32imc_zve32x", "rv64gc_zvl256b", "unknown", ""] {
        let cpuinfo = format!("isa: {isa}\n");
        let flagged = collect_riscv_info(Some(&cpuinfo), 1).vector.enabled;
        let read = riscfetch::get_isa_string(Some(&cpuinfo));
        assert_eq!(flagged, riscfetch::parse_vector_from_isa(&read).is_some(), "{isa}");
        let mut all = readings();
        all.cpuinfo = Some(cpuinfo);
        assert_eq!(collect_all_info(&all).vector.enabled, flagged, "{isa}");
    }
}
