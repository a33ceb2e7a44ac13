use maolan_editor::text::{decimal, lines_of, parse_unsigned_chars, trim_chars, zero_padded_decimal};

fn chars(s: &str) -> Vec<char> {
    s.chars().collect()
}

#[test]
fn decimals_and_padding() {
    assert_eq!(decimal(0), "0");
    assert_eq!(decimal(907), "907");
    assert_eq!(zero_padded_decimal(7, 3), "007");
    assert_eq!(zero_padded_decimal(12_345, 3), "12345");
}

#[test]
fn unsigned_parsing_follows_from_str() {
    assert_eq!(parse_unsigned_chars(&chars("+42"), u32::MAX as u64), Some(42));
    assert_eq!(parse_unsigned_chars(&chars("4294967295"), u32::MAX as u64), Some(4_294_967_295));
    assert_eq!(parse_unsigned_chars(&chars("4294967296"), u32::MAX as u64), None);
    assert_eq!(parse_unsigned_chars(&chars(""), u64::MAX), None);
    assert_eq!(parse_unsigned_chars(&chars("+"), u64::MAX), None);
    assert_eq!(parse_unsigned_chars(&chars("-1"), u64::MAX), None);
    assert_eq!(parse_unsigned_chars(&chars("1 2"), u64::MAX), None);
}

#[test]
fn trimming_and_lines() {
    assert_eq!(trim_chars(&chars("\t a b \n")), chars("a b"));
    let lines: Vec<String> = lines_of(&chars("a\r\nb\n\nc")).into_iter().map(|l| l.into_iter().collect()).collect();
    assert_eq!(lines, vec!["a", "b", "", "c"]);
    assert!(lines_of(&chars("")).is_empty());
    assert_eq!(lines_of(&chars("x\n")).len(), 1);
}
