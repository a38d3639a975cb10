use riscfetch::{get_default_vendor, get_vendor_info, vendor_aliases, VENDORS};

#[test]
fn test_get_vendor_info_exact() {
    let (name, _) = get_vendor_info("sifive").unwrap();
    assert_eq!(name, "SiFive");
}

#[test]
fn test_get_vendor_info_alias() {
    let (name, _) = get_vendor_info("canaan").unwrap();
    assert_eq!(name, "Kendryte");

    let (name, _) = get_vendor_info("esp").unwrap();
    assert_eq!(name, "Espressif");

    let (name, _) = get_vendor_info("t-head").unwrap();
    assert_eq!(name, "T-Head");
}

#[test]
fn test_get_vendor_info_case_insensitive() {
    let (name, _) = get_vendor_info("SIFIVE").unwrap();
    assert_eq!(name, "SiFive");

    let (name, _) = get_vendor_info("Pine64").unwrap();
    assert_eq!(name, "Pine64");
}

#[test]
fn test_get_vendor_info_unknown() {
    assert!(get_vendor_info("unknown_vendor").is_none());
}

#[test]
fn test_get_default_vendor() {
    let (name, subtitle) = get_default_vendor();
    assert_eq!(name, "RISC-V");
    assert_eq!(subtitle, "Architecture Info");
}

#[test]
fn test_new_vendors_exist() {
    // Pine64
    let (name, _) = get_vendor_info("pine64").unwrap();
    assert_eq!(name, "Pine64");

    // WCH
    let (name, _) = get_vendor_info("wch").unwrap();
    assert_eq!(name, "WCH");
}

#[test]
fn test_all_vendors_have_info() {
    for (vendor, (display_name, subtitle)) in VENDORS.iter().enumerate() {
        let aliases = vendor_aliases(vendor);
        assert!(!aliases.is_empty(), "Vendor must have at least one alias");
        assert!(!display_name.is_empty(), "Vendor must have display name");
        assert!(!subtitle.is_empty(), "Vendor must have subtitle");
    }
}

#[test]
fn every_alias_selects_its_vendor() {
    let expected = [
        ("default", "RISC-V"),
        ("riscv", "RISC-V"),
        ("risc-v", "RISC-V"),
        ("sifive", "SiFive"),
        ("starfive", "StarFive"),
        ("thead", "T-Head"),
        ("t-head", "T-Head"),
        ("alibaba", "T-Head"),
        ("milkv", "Milk-V"),
        ("milk-v", "Milk-V"),
        ("sipeed", "Sipeed"),
        ("pine64", "Pine64"),
        ("pine", "Pine64"),
        ("kendryte", "Kendryte"),
        ("canaan", "Kendryte"),
        ("allwinner", "Allwinner"),
        ("espressif", "Espressif"),
        ("esp", "Espressif"),
        ("spacemit", "SpacemiT"),
        ("sophgo", "Sophgo"),
        ("wch", "WCH"),
        ("winchiphead", "WCH"),
    ];
    for (alias, name) in expected {
        assert_eq!(get_vendor_info(alias).unwrap().0, name);
    }
}

#[test]
fn aliases_come_primary_first() {
    assert_eq!(vendor_aliases(0), vec!["default", "riscv", "risc-v"]);
    assert_eq!(vendor_aliases(3), vec!["thead", "t-head", "alibaba"]);
    assert_eq!(vendor_aliases(12), vec!["wch", "winchiphead"]);
    assert!(vendor_aliases(13).is_empty());
}

#[test]
fn subtitle_comes_with_the_name() {
    assert_eq!(get_vendor_info("Milk-V"), Some(("Milk-V", "RISC-V by Milk-V")));
}
