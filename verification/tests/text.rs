use riscfetch::grouping::lex_less;
use riscfetch::text::{
    contains_seq, first_word_of, from_chars, join_with, piece_after, space, split_lines,
    split_on, starts_with, strip_char, to_chars, to_decimal, trim_text, utf8_len,
};

const SAMPLES: [&str; 16] = [
    "",
    " ",
    "a",
    "  a b  ",
    "\t\n x \r\n",
    "\u{a0}x\u{3000}",
    "\u{2003}\u{2028}",
    "isa\t\t: rv64gc",
    "a\nb\n",
    "a\n\nb",
    "a\r\nb\r",
    "\n",
    "\r\n\r\n",
    "x\ry\n",
    "L1D:32K",
    "\u{feff}bom \u{200b}zero width",
];

fn chars(text: &str) -> Vec<char> {
    text.chars().collect()
}

fn text(chars: &[char]) -> String {
    chars.iter().collect()
}

#[test]
fn whitespace_is_what_std_calls_whitespace() {
    for code in 0..=0x10FFFFu32 {
        if let Some(c) = char::from_u32(code) {
            assert_eq!(space(c), c.is_whitespace(), "U+{code:04X}");
        }
    }
}

#[test]
fn trimming_agrees_with_std() {
    for sample in SAMPLES {
        assert_eq!(text(&trim_text(&chars(sample))), sample.trim(), "{sample:?}");
    }
}

#[test]
fn trimming_a_character_agrees_with_std() {
    for sample in ["", "\"", "\"\"", "\"a\"", "\"\"a\"b\"\"", "a\"", "\0\0x\0", "x"] {
        for c in ['"', '\0', 'x'] {
            assert_eq!(text(&strip_char(&chars(sample), c)), sample.trim_matches(c));
        }
    }
}

#[test]
fn lines_agree_with_std() {
    for sample in SAMPLES {
        let got: Vec<String> = split_lines(&chars(sample)).iter().map(|l| text(l)).collect();
        let expected: Vec<&str> = sample.lines().collect();
        assert_eq!(got, expected, "{sample:?}");
    }
}

#[test]
fn splitting_agrees_with_std() {
    for sample in ["", "_", "a", "a_b", "_a__b_", "rv64gc_zba_zbb", "__"] {
        let got: Vec<String> = split_on(&chars(sample), '_').iter().map(|l| text(l)).collect();
        let expected: Vec<&str> = sample.split('_').collect();
        assert_eq!(got, expected, "{sample:?}");
        let second = piece_after(&chars(sample), '_').map(|p| text(&p));
        assert_eq!(second.as_deref(), sample.split('_').nth(1), "{sample:?}");
    }
}

#[test]
fn joining_agrees_with_std() {
    for parts in [vec![], vec![""], vec!["a"], vec!["a", "b"], vec!["", "", ""], vec!["I", "M", "A"]] {
        let rows: Vec<Vec<char>> = parts.iter().map(|p| chars(p)).collect();
        assert_eq!(text(&join_with(&rows, &chars(", "))), parts.join(", "));
        assert_eq!(text(&join_with(&rows, &[])), parts.join(""));
    }
}

#[test]
fn searching_agrees_with_std() {
    let texts = ["", "a", "zve", "rv64imac_zve32x", "zvzve", "zzvve", "ab", "aab", "\u{e4}b"];
    let patterns = ["", "a", "zve", "ab", "b", "zvee", "\u{e4}"];
    for hay in texts {
        for needle in patterns {
            assert_eq!(contains_seq(&chars(hay), &chars(needle)), hay.contains(needle));
            assert_eq!(starts_with(&chars(hay), &chars(needle)), hay.starts_with(needle));
        }
    }
}

#[test]
fn first_words_agree_with_std() {
    for sample in SAMPLES.iter().chain(["Base Integer Instructions", "  Vector (SIMD)"].iter()) {
        assert_eq!(
            text(&first_word_of(&chars(sample))),
            sample.split_whitespace().next().unwrap_or(""),
            "{sample:?}"
        );
    }
}

#[test]
fn byte_lengths_agree_with_std() {
    for sample in SAMPLES.iter().chain(["\u{7f}\u{80}\u{7ff}\u{800}\u{ffff}\u{10000}\u{10ffff}"].iter()) {
        assert_eq!(utf8_len(&chars(sample)), sample.len() as u128, "{sample:?}");
    }
    assert_eq!(utf8_len(&chars("██")), 6);
}

#[test]
fn text_order_agrees_with_std() {
    let words = ["", "a", "ab", "abc", "b", "B", "base", "bit", "\u{e4}", "\u{10000}", "\u{ffff}", "a\u{0}"];
    for x in words {
        for y in words {
            assert_eq!(lex_less(&chars(x), &chars(y)), x < y, "{x:?} {y:?}");
        }
    }
}

#[test]
fn decimals_agree_with_std() {
    for n in [0u64, 1, 9, 10, 11, 99, 100, 101, 1024, 65536, 1234567890, u64::MAX] {
        assert_eq!(text(&to_decimal(n)), n.to_string());
    }
}

#[test]
fn characters_go_in_and_out_unchanged() {
    for sample in SAMPLES {
        assert_eq!(text(&to_chars(sample)), sample);
        assert_eq!(from_chars(&chars(sample)), sample);
    }
}
