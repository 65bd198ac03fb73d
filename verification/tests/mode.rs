use chunk_transfer::mode_s::is_whitespace;
use chunk_transfer::mode_s::mode_select;
use chunk_transfer::mode_s::parse_u32;

fn chars(text: &str) -> Vec<char> {
    text.chars().collect()
}

#[test]
fn mode_is_the_number_on_the_line() {
    assert_eq!(mode_select("1\n"), 1);
    assert_eq!(mode_select("2\r\n"), 2);
    assert_eq!(mode_select("  42  "), 42);
    assert_eq!(mode_select("\t7"), 7);
    assert_eq!(mode_select("+3\n"), 3);
    assert_eq!(mode_select("007"), 7);
    assert_eq!(mode_select("4294967295"), u32::MAX);
}

#[test]
fn mode_is_zero_for_anything_else() {
    assert_eq!(mode_select(""), 0);
    assert_eq!(mode_select("\n"), 0);
    assert_eq!(mode_select("   "), 0);
    assert_eq!(mode_select("one"), 0);
    assert_eq!(mode_select("1 2"), 0);
    assert_eq!(mode_select("-1"), 0);
    assert_eq!(mode_select("+"), 0);
    assert_eq!(mode_select("++1"), 0);
    assert_eq!(mode_select("1+"), 0);
    assert_eq!(mode_select("1.0"), 0);
    assert_eq!(mode_select("1_000"), 0);
    assert_eq!(mode_select("4294967296"), 0);
    assert_eq!(mode_select("99999999999999999999999999"), 0);
    assert_eq!(mode_select("١"), 0);
}

#[test]
fn mode_agrees_with_trim_and_parse() {
    let lines = [
        "", " ", "0", "1", " 1", "1 ", "\u{3000}12\u{2003}", "\u{a0}5\u{85}", "\u{200b}5", "+0",
        "+ 1", "-0", "4294967295", "4294967296", "42949672950", "0000000000000000000001",
        "12a", "a12", "1\n2", "\u{feff}1", "１", "+4294967295",
    ];
    for line in lines {
        let expected: u32 = line.trim().parse().unwrap_or(0);
        assert_eq!(mode_select(line), expected, "line {:?}", line);
    }
}

#[test]
fn parse_agrees_with_the_standard_reading() {
    let texts = [
        "", "+", "0", "9", "10", "+10", "-10", "4294967295", "4294967296", "18446744073709551616",
        "00", "1x", "x1", " 1", "1 ", "+-1", "٣", "12345678",
    ];
    for text in texts {
        assert_eq!(parse_u32(&chars(text)), text.parse::<u32>().ok(), "text {:?}", text);
    }
}

#[test]
fn white_space_is_what_unicode_says() {
    for code in 0..=0x10FFFFu32 {
        if let Some(c) = char::from_u32(code) {
            assert_eq!(is_whitespace(c), c.is_whitespace(), "U+{:04X}", code);
        }
    }
}
