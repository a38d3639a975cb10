use riscfetch::{
    get_all_s_extensions_with_status, get_all_standard_extensions_with_status,
    get_all_z_extensions_with_status, get_s_category_name, get_z_category_name,
    group_by_category, lookup_base, lookup_named, parse_extensions_compact,
    parse_extensions_explained, parse_named_extensions, parse_s_extensions,
    parse_s_extensions_explained, parse_s_extensions_with_category, parse_vector_from_isa,
    parse_z_extensions, parse_z_extensions_explained, parse_z_extensions_with_category,
    strip_rv_prefix, ExtensionInfo, LoweredIsa, TokenScope, STANDARD_EXTENSIONS, S_EXTENSIONS,
    Z_EXTENSIONS,
};

const ISA_SPACEMIT_K1: &str = "rv64imafdcv_zicbom_zicboz_zicntr_zicsr_zifencei_zihintpause_zihpm_zba_zbb_zbc_zbs_zkt_zvkt_zvl128b_zvl256b_zvl32b_zvl64b";

fn names(list: &[ExtensionInfo]) -> Vec<&str> {
    list.iter().map(|e| e.name.as_str()).collect()
}

fn info(name: &str, category: &str) -> ExtensionInfo {
    ExtensionInfo {
        name: name.to_string(),
        description: format!("about {name}"),
        category: category.to_string(),
        supported: true,
    }
}

#[test]
fn prefix_is_stripped_once() {
    assert_eq!(strip_rv_prefix("rv64imac"), "imac");
    assert_eq!(strip_rv_prefix("rv32e"), "e");
    assert_eq!(strip_rv_prefix("rv64"), "");
    assert_eq!(strip_rv_prefix("rv64rv32i"), "rv32i");
    assert_eq!(strip_rv_prefix("rv128i"), "rv128i");
    assert_eq!(strip_rv_prefix("RV64i"), "RV64i");
    assert_eq!(strip_rv_prefix("rv6"), "rv6");
    assert_eq!(strip_rv_prefix(""), "");
}

#[test]
fn g_stands_for_imafd() {
    assert_eq!(parse_extensions_compact("rv64g"), "I M A F D");
    assert_eq!(parse_extensions_compact("rv64ig"), "I M A F D");
    assert_eq!(parse_extensions_compact("g"), "I M A F D");
    assert_eq!(parse_extensions_compact("rv64gqcbvh"), "I M A F D Q C B V H");
}

#[test]
fn g_beside_e_does_not_bring_i() {
    assert_eq!(parse_extensions_compact("rv32eg"), "E M A F D");
    assert_eq!(parse_extensions_compact("rv32ieg"), "I E M A F D");
}

#[test]
fn base_letters_come_in_declaration_order() {
    assert_eq!(parse_extensions_compact("rv64hvbcqdfamei"), "I E M A F D Q C B V H");
    assert_eq!(parse_extensions_compact("rv64ccc"), "C");
}

#[test]
fn base_letters_end_at_the_first_underscore() {
    assert_eq!(parse_extensions_compact("rv64i_m_a"), "I");
    assert_eq!(parse_extensions_compact("_rv64imac"), "");
    assert_eq!(parse_extensions_compact("rv64_g"), "");
}

#[test]
fn lowercasing_covers_more_than_ascii() {
    // U+0130 lowercases to `i` followed by a combining dot
    assert_eq!(parse_extensions_compact("rv64\u{130}"), "I");
    assert_eq!(parse_z_extensions("rv64i_Z\u{c4}"), "z\u{e4}");
}

#[test]
fn lowered_text_is_taken_as_it_stands() {
    let isa = LoweredIsa::from_lowered("RV64GC_Zba");
    assert_eq!(isa.text(), "RV64GC_Zba");
    assert_eq!(isa.extensions_compact(), "");
    assert_eq!(isa.named_extensions(TokenScope::Z), "");
    let isa = LoweredIsa::new("RV64GC_Zba");
    assert_eq!(isa.text(), "rv64gc_zba");
    assert_eq!(isa.extensions_compact(), "I M A F D C");
    assert_eq!(isa.named_extensions(TokenScope::Z), "zicsr zifencei zba");
    assert_eq!(isa.letters(), vec!['g', 'c']);
}

#[test]
fn named_tokens_come_implied_first_and_once() {
    assert_eq!(parse_z_extensions("rv64gc_zba_zicsr_zba_zifencei"), "zicsr zifencei zba");
    assert_eq!(parse_z_extensions("rv64i_zbb_zba_zbb"), "zbb zba");
    assert_eq!(parse_z_extensions("rv64i_z"), "z");
    assert_eq!(parse_z_extensions("rv64i__zba_"), "zba");
    assert_eq!(parse_z_extensions("rv64i_xzba_sstc"), "");
    assert_eq!(parse_z_extensions("zfoo_zbar"), "zfoo zbar");
}

#[test]
fn s_tokens_know_no_implied_ones() {
    assert_eq!(parse_s_extensions("rv64gc_sstc_svinval_sstc"), "sstc svinval");
    assert_eq!(parse_s_extensions("rv64gc"), "");
    assert_eq!(parse_s_extensions("sv39_zba"), "sv39");
}

#[test]
fn named_tokens_of_both_namespaces() {
    assert_eq!(parse_named_extensions("rv64gc"), "zicsr zifencei");
    assert_eq!(parse_named_extensions("rv64i_zba_zbb_zbc"), "zba zbb zbc");
    assert_eq!(parse_named_extensions("rv64imafdc"), "");
    assert_eq!(parse_named_extensions("rv64i_sstc_zba_SSTC_xfoo"), "sstc zba");
    assert_eq!(parse_named_extensions("rv64g_sstc_zicsr"), "zicsr zifencei sstc");
}

#[test]
fn explained_base_does_not_expand_g() {
    let list = parse_extensions_explained("rv64gc");
    assert_eq!(list, vec![("C".to_string(), "Compressed (16-bit)".to_string())]);
    let list = parse_extensions_explained("rv64imac_zve32x");
    let got: Vec<&str> = list.iter().map(|(n, _)| n.as_str()).collect();
    assert_eq!(got, vec!["I", "M", "A", "C"]);
    assert!(parse_extensions_explained("").is_empty());
}

#[test]
fn explained_named_follow_the_catalog() {
    let list = parse_z_extensions_explained("rv64i_zknd_zba");
    let got: Vec<&str> = list.iter().map(|(n, _)| n.as_str()).collect();
    // every pattern that occurs anywhere in the string, in catalog order
    assert_eq!(got, vec!["Zba", "Zk", "Zkn", "Zknd"]);
    let list = parse_s_extensions_explained("RV64I_SSTC_SVINVAL");
    assert_eq!(
        list,
        vec![
            ("Svinval".to_string(), "Fine-Grained TLB Inv".to_string()),
            ("Sstc".to_string(), "Supervisor Timer".to_string()),
        ]
    );
    assert!(parse_z_extensions_explained("rv64gc").is_empty());
}

#[test]
fn classified_follow_the_tokens() {
    let list = parse_z_extensions_with_category("rv64i_zbb_zicsr_zba");
    assert_eq!(names(&list), vec!["Zbb", "Zicsr", "Zba"]);
    assert_eq!(list[0].description, "Basic Bit Manipulation");
    assert_eq!(list[0].category, "bit");
    assert_eq!(list[1].category, "base");
    assert!(list.iter().all(|e| e.supported));
}

#[test]
fn classified_implied_come_first_and_once() {
    let list = parse_z_extensions_with_category("rv64gc");
    assert_eq!(names(&list), vec!["Zicsr", "Zifencei"]);
    assert_eq!(list[0].description, "CSR Instructions");
    assert_eq!(list[1].description, "Instruction-Fetch Fence");
    let list = parse_z_extensions_with_category("RV64GC_Zba_Zifencei_Zicsr2p0");
    assert_eq!(names(&list), vec!["Zicsr", "Zifencei", "Zba"]);
}

#[test]
fn classified_pass_over_unknown_tokens() {
    let list = parse_z_extensions_with_category("rv64i_zfoo_zba_zzz");
    assert_eq!(names(&list), vec!["Zba"]);
    assert_eq!(parse_z_extensions("rv64i_zfoo_zba_zzz"), "zfoo zba zzz");
    assert!(parse_z_extensions_with_category("rv64imac").is_empty());
    assert!(parse_s_extensions_with_category("rv64imac_zba").is_empty());
}

#[test]
fn a_token_stands_for_every_row_it_holds() {
    // `zknd` holds the patterns of Zk, Zkn and Zknd; `zkt` those of Zk and Zkt
    let list = parse_z_extensions_with_category("rv64i_zknd_zkt");
    assert_eq!(names(&list), vec!["Zk", "Zkn", "Zknd", "Zkt"]);
    let list = parse_z_extensions_with_category("rv64i_zkt_zknd");
    assert_eq!(names(&list), vec!["Zk", "Zkt", "Zkn", "Zknd"]);
    let list = parse_z_extensions_with_category("rv64i_zvfhmin");
    assert_eq!(names(&list), vec!["Zvfh", "Zvfhmin"]);
    let list = parse_z_extensions_with_category(ISA_SPACEMIT_K1);
    assert_eq!(
        names(&list),
        vec![
            "Zicbom", "Zicboz", "Zicntr", "Zicsr", "Zifencei", "Zihintpause", "Zihpm", "Zba",
            "Zbb", "Zbc", "Zbs", "Zk", "Zkt", "Zvkt", "Zvl128b", "Zvl256b", "Zvl32b", "Zvl64b",
        ]
    );
}

#[test]
fn every_row_of_the_catalog_can_be_detected() {
    for row in Z_EXTENSIONS {
        let isa = format!("rv64i_{}", row.0);
        let list = parse_z_extensions_with_category(&isa);
        assert!(list.iter().any(|e| e.name == row.1), "{}", row.1);
        let all = get_all_z_extensions_with_status(&isa);
        assert!(all.iter().any(|e| e.name == row.1 && e.supported), "{}", row.1);
    }
    for row in S_EXTENSIONS {
        let isa = format!("rv64i_{}", row.0);
        let list = parse_s_extensions_with_category(&isa);
        assert!(list.iter().any(|e| e.name == row.1), "{}", row.1);
    }
}

#[test]
fn what_is_detected_is_what_the_tokens_hold() {
    for isa in ["rv64gc", ISA_SPACEMIT_K1, "rv64i_zknd_xzba_zvfhmin_szbb", "RV64I_ZBA"] {
        let compact = parse_z_extensions(isa);
        let tokens: Vec<&str> = compact.split(' ').filter(|t| !t.is_empty()).collect();
        for entry in get_all_z_extensions_with_status(isa) {
            let row = Z_EXTENSIONS.iter().find(|r| r.1 == entry.name).unwrap();
            assert_eq!(entry.supported, tokens.iter().any(|t| t.contains(row.0)), "{}", row.1);
        }
    }
}

#[test]
fn classified_s_extensions() {
    let list = parse_s_extensions_with_category("rv64gc_sstc_svinval_smaia_sdtrig_supm_sha");
    assert_eq!(names(&list), vec!["Sstc", "Svinval", "Smaia", "Sdtrig", "Supm", "Sha"]);
    let categories: Vec<&str> = list.iter().map(|e| e.category.as_str()).collect();
    assert_eq!(categories, vec!["sup", "vm", "mach", "debug", "user", "hyp"]);
}

#[test]
fn lookups_find_the_first_row() {
    let table = Z_EXTENSIONS;
    assert_eq!(lookup_named("zba", &table), Some(Z_EXTENSIONS[10]));
    assert_eq!(lookup_named("zba1p0", &table).unwrap().1, "Zba");
    assert_eq!(lookup_named("xzbax", &table).unwrap().1, "Zba");
    assert_eq!(lookup_named("zvfhmin", &table).unwrap().1, "Zvfh");
    assert_eq!(lookup_named("zb", &table), None);
    assert_eq!(lookup_named("", &table), None);
    assert_eq!(lookup_named("ZBA", &table), None);
    let table = S_EXTENSIONS;
    assert_eq!(lookup_named("sstc", &table).unwrap().2, "Supervisor Timer");
    assert_eq!(lookup_named("zba", &table), None);
    assert_eq!(lookup_named("anything", &[]), None);
}

#[test]
fn base_lookups() {
    assert_eq!(lookup_base('i'), Some(('i', "I", "Base Integer Instructions")));
    assert_eq!(lookup_base('h'), Some(('h', "H", "Hypervisor")));
    assert_eq!(lookup_base('g'), None);
    assert_eq!(lookup_base('I'), None);
    assert_eq!(lookup_base('z'), None);
}

#[test]
fn category_labels() {
    assert_eq!(get_z_category_name("base"), "Base");
    assert_eq!(get_z_category_name("bit"), "Bit Manipulation");
    assert_eq!(get_z_category_name("vcrypto"), "Vector Crypto");
    assert_eq!(get_z_category_name("other"), "Other");
    assert_eq!(get_z_category_name("vm"), "Other");
    assert_eq!(get_z_category_name("Base"), "Other");
    assert_eq!(get_z_category_name(""), "Other");
    assert_eq!(get_s_category_name("vm"), "Virtual Memory");
    assert_eq!(get_s_category_name("user"), "User");
    assert_eq!(get_s_category_name("base"), "Other");
}

#[test]
fn every_catalog_category_has_a_label() {
    for row in Z_EXTENSIONS {
        assert!(row.3 == "other" || get_z_category_name(row.3) != "Other");
    }
    for row in S_EXTENSIONS {
        assert_ne!(get_s_category_name(row.3), "Other");
    }
}

#[test]
fn vector_detail_is_exact() {
    assert_eq!(parse_vector_from_isa("rv64imafdc"), None);
    assert_eq!(parse_vector_from_isa("rv64imafdcv").as_deref(), Some("Enabled"));
    assert_eq!(
        parse_vector_from_isa("rv64imafdcv_zvl128b_zvl256b").as_deref(),
        Some("Enabled, VLEN>=256")
    );
    assert_eq!(parse_vector_from_isa("rv64imac_zve32x").as_deref(), Some("Enabled"));
    assert_eq!(parse_vector_from_isa(ISA_SPACEMIT_K1).as_deref(), Some("Enabled, VLEN>=256"));
    assert_eq!(parse_vector_from_isa("RV64GCV_ZVL65536B_ZVL32B").as_deref(), Some("Enabled, VLEN>=65536"));
    assert_eq!(parse_vector_from_isa("rv64gcv_zvl32b").as_deref(), Some("Enabled, VLEN>=32"));
    assert_eq!(parse_vector_from_isa("rv64gcv_zvl64b_zvl32b").as_deref(), Some("Enabled, VLEN>=64"));
    assert_eq!(parse_vector_from_isa("rv64gc_zve64d_zvl1024b").as_deref(), Some("Enabled, VLEN>=1024"));
}

#[test]
fn vector_detail_needs_a_vector_unit() {
    // a width marker alone attests no vector unit; nor does the `v` of `rv64`
    assert_eq!(parse_vector_from_isa("rv64gc_zvl128b"), None);
    assert_eq!(parse_vector_from_isa("rv64"), None);
    assert_eq!(parse_vector_from_isa(""), None);
    assert_eq!(parse_vector_from_isa("v").as_deref(), Some("Enabled"));
    // without the marker in front, `rv` are letters like any other
    assert_eq!(parse_vector_from_isa("rv128i").as_deref(), Some("Enabled"));
}

#[test]
fn every_width_marker_is_recognised() {
    for width in [32u32, 64, 128, 256, 512, 1024, 2048, 4096, 8192, 16384, 32768, 65536] {
        let isa = format!("rv64gcv_zvl{width}b");
        assert_eq!(parse_vector_from_isa(&isa), Some(format!("Enabled, VLEN>={width}")));
    }
}

#[test]
fn all_known_base_extensions() {
    let list = get_all_standard_extensions_with_status("rv64gc");
    assert_eq!(list.len(), STANDARD_EXTENSIONS.len());
    let flagged: Vec<&str> = list.iter().filter(|e| e.2).map(|e| e.0.as_str()).collect();
    assert_eq!(flagged.join(" "), parse_extensions_compact("rv64gc"));
    assert_eq!(list[1], ("E".to_string(), "Embedded (16 registers)".to_string(), false));
    let list = get_all_standard_extensions_with_status("");
    assert_eq!(list.len(), 11);
    assert!(list.iter().all(|e| !e.2));
}

#[test]
fn all_known_named_extensions_cover_the_catalog() {
    for isa in ["", "unknown", "rv64gc", ISA_SPACEMIT_K1, "rv64i_zfoo_sstc"] {
        let z = get_all_z_extensions_with_status(isa);
        assert_eq!(z.len(), Z_EXTENSIONS.len());
        for (entry, row) in z.iter().zip(Z_EXTENSIONS.iter()) {
            assert_eq!(entry.name, row.1);
            assert_eq!(entry.description, row.2);
            assert_eq!(entry.category, row.3);
        }
        let s = get_all_s_extensions_with_status(isa);
        assert_eq!(s.len(), S_EXTENSIONS.len());
        for (entry, row) in s.iter().zip(S_EXTENSIONS.iter()) {
            assert_eq!(entry.name, row.1);
        }
    }
}

#[test]
fn all_known_flags_what_is_detected() {
    for isa in ["", "rv64gc", ISA_SPACEMIT_K1, "rv64i_zbb_zba_zknd_sstc_svinval", "RV64G_ZFOO"] {
        let mut flagged: Vec<String> = get_all_z_extensions_with_status(isa)
            .into_iter()
            .filter(|e| e.supported)
            .map(|e| e.name)
            .collect();
        let mut detected: Vec<String> =
            parse_z_extensions_with_category(isa).into_iter().map(|e| e.name).collect();
        flagged.sort();
        detected.sort();
        assert_eq!(flagged, detected);
        let mut flagged: Vec<String> = get_all_s_extensions_with_status(isa)
            .into_iter()
            .filter(|e| e.supported)
            .map(|e| e.name)
            .collect();
        let mut detected: Vec<String> =
            parse_s_extensions_with_category(isa).into_iter().map(|e| e.name).collect();
        flagged.sort();
        detected.sort();
        assert_eq!(flagged, detected);
    }
    let z = get_all_z_extensions_with_status("rv64gc_zba");
    let flagged: Vec<&str> = z.iter().filter(|e| e.supported).map(|e| e.name.as_str()).collect();
    assert_eq!(flagged, vec!["Zicsr", "Zifencei", "Zba"]);
}

#[test]
fn groups_come_sorted_by_category() {
    let list = vec![
        info("Zvl128b", "vec"),
        info("Zba", "bit"),
        info("Zicsr", "base"),
        info("Zbb", "bit"),
        info("Zve32x", "vec"),
    ];
    let groups = group_by_category(&list);
    let keys: Vec<&str> = groups.iter().map(|(k, _)| k.as_str()).collect();
    assert_eq!(keys, vec!["base", "bit", "vec"]);
    let members: Vec<Vec<&str>> =
        groups.iter().map(|(_, m)| m.iter().map(|e| e.name.as_str()).collect()).collect();
    assert_eq!(members, vec![vec!["Zicsr"], vec!["Zba", "Zbb"], vec!["Zvl128b", "Zve32x"]]);
    assert_eq!(groups[1].1[0].description, "about Zba");
}

#[test]
fn groups_sort_like_strings() {
    let list = vec![
        info("a", "b"),
        info("b", "ab"),
        info("c", ""),
        info("d", "B"),
        info("e", "a"),
        info("f", "abc"),
        info("g", "\u{e4}"),
        info("h", "ab"),
    ];
    let groups = group_by_category(&list);
    let keys: Vec<&str> = groups.iter().map(|(k, _)| k.as_str()).collect();
    let mut sorted: Vec<&str> = list.iter().map(|e| e.category.as_str()).collect();
    sorted.sort();
    sorted.dedup();
    assert_eq!(keys, sorted);
    assert_eq!(keys, vec!["", "B", "a", "ab", "abc", "b", "\u{e4}"]);
}

#[test]
fn grouping_nothing_gives_nothing() {
    assert!(group_by_category(&[]).is_empty());
}

#[test]
fn grouping_a_reordering_keeps_the_groups() {
    let a = vec![info("Zba", "bit"), info("Zicsr", "base"), info("Zbb", "bit"), info("Zfh", "fp")];
    // the same items, no item moved past another of its category
    let b = vec![info("Zfh", "fp"), info("Zba", "bit"), info("Zbb", "bit"), info("Zicsr", "base")];
    let show = |list: &[ExtensionInfo]| -> Vec<(String, Vec<String>)> {
        group_by_category(list)
            .into_iter()
            .map(|(k, m)| (k, m.iter().map(|e| e.name.clone()).collect()))
            .collect()
    };
    assert_eq!(show(&a), show(&b));
    assert_eq!(show(&a), show(&a));
    // moving Zbb before Zba changes the order inside the group only
    let c = vec![info("Zbb", "bit"), info("Zicsr", "base"), info("Zba", "bit"), info("Zfh", "fp")];
    let keys = |list: &[ExtensionInfo]| -> Vec<String> {
        group_by_category(list).into_iter().map(|(k, _)| k).collect()
    };
    assert_eq!(keys(&a), keys(&c));
    assert_eq!(show(&c)[1].1, vec!["Zbb", "Zba"]);
}

#[test]
fn detected_extensions_group_for_display() {
    let list = parse_z_extensions_with_category("rv64gc_zba_zbb_zve32x_zicbom");
    let groups = group_by_category(&list);
    let shown: Vec<String> = groups
        .iter()
        .map(|(category, members)| {
            let names: Vec<&str> = members.iter().map(|e| e.name.as_str()).collect();
            format!("Z-{}: {}", get_z_category_name(category), names.join(" "))
        })
        .collect();
    assert_eq!(
        shown,
        vec!["Z-Base: Zicsr Zifencei", "Z-Bit Manipulation: Zba Zbb", "Z-Cache: Zicbom", "Z-Vector: Zve32x"]
    );
}

#[test]
fn case_does_not_matter() {
    for isa in ["rv64gc", "Rv64Imafdc_Zba_zBB_SSTC", "RV32E", ISA_SPACEMIT_K1] {
        let lower = isa.to_lowercase();
        let upper = isa.to_uppercase();
        assert_eq!(parse_extensions_compact(isa), parse_extensions_compact(&lower));
        assert_eq!(parse_extensions_compact(isa), parse_extensions_compact(&upper));
        assert_eq!(parse_z_extensions(isa), parse_z_extensions(&upper));
        assert_eq!(parse_s_extensions(isa), parse_s_extensions(&upper));
        assert_eq!(parse_named_extensions(isa), parse_named_extensions(&lower));
        assert_eq!(parse_vector_from_isa(isa), parse_vector_from_isa(&upper));
        assert_eq!(
            names(&parse_z_extensions_with_category(isa)),
            names(&parse_z_extensions_with_category(&upper))
        );
    }
}
