use ssne_bot::text::{
    ends_with, format_i64, format_u64, parse_i64, parse_u64, remove_char, same_text, split_on,
    starts_with, strip_prefix,
};

#[test]
fn split_keeps_empty_pieces() {
    assert_eq!(split_on("a  b", ' '), vec!["a", "", "b"]);
    assert_eq!(split_on("", '\n'), vec![""]);
    assert_eq!(split_on("x\n", '\n'), vec!["x", ""]);
    assert_eq!(split_on("w!verify <@1> Steve", ' '), vec!["w!verify", "<@1>", "Steve"]);
}

#[test]
fn split_matches_std_split() {
    for s in ["", " ", "a b c", "  lead", "trail  ", "héllo wörld"] {
        let ours = split_on(s, ' ');
        let std: Vec<String> = s.split(' ').map(|p| p.to_string()).collect();
        assert_eq!(ours, std);
    }
}

#[test]
fn prefixes_and_suffixes() {
    assert!(starts_with("w!help me", "w!help"));
    assert!(!starts_with("w!", "w!help"));
    assert!(ends_with("<@123>", ">"));
    assert!(!ends_with("<@123", ">"));
    assert_eq!(strip_prefix("w!removedroles 1 2", "w!removedroles "), Some("1 2".to_string()));
    assert_eq!(strip_prefix("w!removedroles", "w!removedroles "), None);
    assert!(same_text("abc", "abc"));
    assert!(!same_text("abc", "abd"));
}

#[test]
fn remove_dashes() {
    assert_eq!(remove_char("12-34-56", '-'), "123456");
    assert_eq!(remove_char("---", '-'), "");
}

#[test]
fn parse_unsigned_like_std() {
    for s in ["0", "42", "+7", "", "+", "-1", "-0", "18446744073709551615", "18446744073709551616", "1 2", "٣", "007"] {
        assert_eq!(parse_u64(s), s.parse::<u64>().ok(), "input {:?}", s);
    }
}

#[test]
fn parse_signed_like_std() {
    for s in ["0", "-42", "+7", "", "-", "+", "9223372036854775807", "9223372036854775808", "-9223372036854775808", "-9223372036854775809", "--1", "+-1"] {
        assert_eq!(parse_i64(s), s.parse::<i64>().ok(), "input {:?}", s);
    }
}

#[test]
fn format_like_to_string() {
    for n in [0u64, 7, 10, 1234567890, u64::MAX] {
        assert_eq!(format_u64(n), n.to_string());
    }
    for n in [0i64, -1, 15, i64::MIN, i64::MAX] {
        assert_eq!(format_i64(n), n.to_string());
    }
}

#[test]
fn format_then_parse_gives_the_number_back() {
    for n in [0u64, 9, 100, u64::MAX] {
        assert_eq!(parse_u64(&format_u64(n)), Some(n));
    }
    for n in [i64::MIN, -5, 0, 5, i64::MAX] {
        assert_eq!(parse_i64(&format_i64(n)), Some(n));
    }
}
