use riscfetch::logos::{compose_logo, frame_art};
use riscfetch::{
    fallback_logo, generate_figlet_logo, generate_logo, vendor_aliases, LogoStyle, RISCV_LOGO,
    VENDORS,
};

#[test]
fn test_style_from_str() {
    assert_eq!(LogoStyle::from_str("normal"), LogoStyle::Normal);
    assert_eq!(LogoStyle::from_str("small"), LogoStyle::Small);
    assert_eq!(LogoStyle::from_str("compact"), LogoStyle::Small);
    assert_eq!(LogoStyle::from_str("none"), LogoStyle::Off);
    assert_eq!(LogoStyle::from_str("off"), LogoStyle::Off);
    assert_eq!(LogoStyle::from_str("unknown"), LogoStyle::Normal);
}

#[test]
fn test_generate_logo_none_style() {
    let logo = generate_logo("default", LogoStyle::Off);
    assert!(logo.is_empty());
}

#[test]
fn test_generate_logo_small_style() {
    let logo = generate_logo("default", LogoStyle::Small);
    assert!(logo.contains("RISC-V"));
    assert!(logo.contains("Architecture Info"));
}

#[test]
fn test_generate_logo_small_vendor() {
    let logo = generate_logo("sifive", LogoStyle::Small);
    assert!(logo.contains("SiFive"));
    assert!(logo.contains("RISC-V by SiFive"));
}

#[test]
fn test_generate_logo_normal_not_empty() {
    let logo = generate_logo("default", LogoStyle::Normal);
    assert!(!logo.is_empty());
    // Should contain block letters from RISCV_LOGO
    assert!(logo.contains("██████╗"));
}

#[test]
fn test_unknown_vendor_uses_default() {
    let logo = generate_logo("unknown_vendor", LogoStyle::Small);
    assert!(logo.contains("RISC-V"));
    assert!(logo.contains("Architecture Info"));
}

#[test]
fn test_all_vendors_have_logos() {
    for vendor in 0..VENDORS.len() {
        let vendor = vendor_aliases(vendor)[0];
        let logo = generate_logo(vendor, LogoStyle::Normal);
        assert!(!logo.is_empty(), "Logo for {vendor} should not be empty");
    }
}

#[test]
fn test_new_vendors_logos() {
    // Pine64
    let logo = generate_logo("pine64", LogoStyle::Small);
    assert!(logo.contains("Pine64"));

    // WCH
    let logo = generate_logo("wch", LogoStyle::Small);
    assert!(logo.contains("WCH"));
}

#[test]
fn style_names_ignore_case() {
    assert_eq!(LogoStyle::from_str("SMALL"), LogoStyle::Small);
    assert_eq!(LogoStyle::from_str("Compact"), LogoStyle::Small);
    assert_eq!(LogoStyle::from_str("OFF"), LogoStyle::Off);
    assert_eq!(LogoStyle::from_str(""), LogoStyle::Normal);
}

#[test]
fn small_logo_is_exact() {
    assert_eq!(generate_logo("sifive", LogoStyle::Small), "  SiFive - RISC-V by SiFive");
    assert_eq!(generate_logo("SiFive", LogoStyle::Small), "  SiFive - RISC-V by SiFive");
    assert_eq!(generate_logo("nobody", LogoStyle::Small), "  RISC-V - Architecture Info");
}

#[test]
fn default_logo_is_the_banner() {
    assert_eq!(generate_logo("default", LogoStyle::Normal), RISCV_LOGO);
    assert_eq!(generate_logo("risc-v", LogoStyle::Normal), RISCV_LOGO);
    assert_eq!(generate_logo("nobody", LogoStyle::Normal), RISCV_LOGO);
}

#[test]
fn fallback_logo_is_exact() {
    assert_eq!(fallback_logo("WCH", "RISC-V by WCH"), "\n  === WCH ===\n       RISC-V by WCH\n");
}

#[test]
fn art_is_framed_with_a_centred_subtitle() {
    // widest line: 10 bytes; subtitle: 4 bytes; padding (10 - 4) / 2 = 3
    assert_eq!(frame_art("##########\n ## \n", "abcd"), "\n##########\n ## \n   abcd\n");
}

#[test]
fn blank_lines_do_not_count_for_the_width() {
    // the line of spaces is the longest, but blank
    assert_eq!(frame_art("####\n              \n", "ab"), "\n####\n              \n ab\n");
}

#[test]
fn a_subtitle_wider_than_the_art_is_not_padded() {
    assert_eq!(frame_art("##\n", "abcdef"), "\n##\nabcdef\n");
    assert_eq!(frame_art("", "abc"), "\nabc\n");
}

#[test]
fn widths_are_counted_in_bytes() {
    // the art line takes 6 bytes in 2 characters, the subtitle 3 bytes in 1:
    // padding (6 - 3) / 2 = 1, field width 1 + 3 = 4, so 3 spaces before it
    assert_eq!(frame_art("██\n", "█"), "\n██\n   █\n");
}

#[test]
fn carriage_returns_end_lines_only_before_line_feeds() {
    // "####\r" before "\n" is the line "####"; the last piece keeps its "\r"
    assert_eq!(frame_art("####\r\n######\r", "ab"), "\n####\r\n######\r  ab\n");
}

#[test]
fn compose_takes_art_or_falls_back() {
    assert_eq!(
        compose_logo("WCH", "sub", Some("######\n".to_string())),
        "\n######\n sub\n"
    );
    assert_eq!(compose_logo("WCH", "sub", None), "\n  === WCH ===\n       sub\n");
}

#[test]
fn figlet_logo_holds_the_art_and_the_subtitle() {
    let logo = generate_figlet_logo("WCH", "RISC-V by WCH");
    assert!(logo.starts_with('\n'));
    assert!(logo.ends_with("RISC-V by WCH\n"));
    // the standard font draws five or six lines per letter
    assert!(logo.lines().count() >= 6);
    assert_ne!(logo, "WCH");
    assert_ne!(logo, fallback_logo("WCH", "RISC-V by WCH"));
    assert_eq!(logo, generate_logo("wch", LogoStyle::Normal));
}

#[test]
fn a_name_without_art_gets_the_plain_logo() {
    assert_eq!(generate_figlet_logo("", "sub"), "\n  ===  ===\n       sub\n");
}
