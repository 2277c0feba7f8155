use parser::decimal::{decimal_chars, parse_u64_chars};
use parser::fields::FieldMap;
use parser::format::tools::{
    cleaned_quote, escaped, is_empty_line, is_hash_marker, split_csv_line, split_into_key_value,
    unescaped, LineUtils,
};
use parser::models::{TxStatus, TxType};
use parser::strings::{
    chars_to_string, split_lines, str_to_chars, to_lower, to_upper, trimmed,
};

fn chars(s: &str) -> Vec<char> {
    s.chars().collect()
}

fn text(v: &[char]) -> String {
    v.iter().collect()
}

fn texts(rows: &[Vec<char>]) -> Vec<String> {
    rows.iter().map(|row| text(row)).collect()
}

#[test]
fn strings_convert_to_characters_and_back() {
    assert_eq!(str_to_chars("aé\u{1F600}"), vec!['a', 'é', '\u{1F600}']);
    assert_eq!(chars_to_string(&['a', 'é', '\u{1F600}']), "aé\u{1F600}");
}

#[test]
fn decimal_notation() {
    assert_eq!(text(&decimal_chars(0)), "0");
    assert_eq!(text(&decimal_chars(10)), "10");
    assert_eq!(text(&decimal_chars(u64::MAX)), "18446744073709551615");
    assert_eq!(parse_u64_chars(&chars("18446744073709551615")), Some(u64::MAX));
    assert_eq!(parse_u64_chars(&chars("18446744073709551616")), None);
    assert_eq!(parse_u64_chars(&chars("+42")), Some(42));
    assert_eq!(parse_u64_chars(&chars("0042")), Some(42));
    assert_eq!(parse_u64_chars(&chars("")), None);
    assert_eq!(parse_u64_chars(&chars("+")), None);
    assert_eq!(parse_u64_chars(&chars("-1")), None);
    assert_eq!(parse_u64_chars(&chars("++1")), None);
    assert_eq!(parse_u64_chars(&chars("1 ")), None);
    assert_eq!(parse_u64_chars(&chars("\u{661}")), None);
}

#[test]
fn decimal_parsing_agrees_with_the_standard_library() {
    for s in ["0", "+0", "00", "9", "+", "", "-0", "1e3", "18446744073709551615", "99999999999999999999"] {
        assert_eq!(parse_u64_chars(&chars(s)), s.parse::<u64>().ok(), "{}", s);
    }
    for n in [0u64, 1, 9, 10, 99, 100, 12345678901234567890, u64::MAX] {
        assert_eq!(text(&decimal_chars(n)), n.to_string());
    }
}

#[test]
fn trimming_agrees_with_the_standard_library() {
    for s in ["", " ", "a", " a ", "\t\r\n a b \u{A0}\u{3000}", "\u{2003}x\u{85}", "\u{200B}x"] {
        assert_eq!(text(&trimmed(&chars(s))), s.trim(), "{:?}", s);
        assert_eq!(is_empty_line(&chars(s)), s.trim().is_empty());
        assert_eq!(is_hash_marker(&chars(s)), s.trim().starts_with('#'));
    }
    assert!(is_hash_marker(&chars("  # title")));
    for code in 0u32..0x3100 {
        if let Some(c) = char::from_u32(code) {
            assert_eq!(trimmed(&[c]).is_empty(), c.is_whitespace(), "{:x}", code);
        }
    }
}

#[test]
fn lines_agree_with_the_standard_library() {
    for s in ["", "\n", "a", "a\n", "a\nb", "a\r\nb\r\n", "a\rb\n", "a\r", "\n\n", "\r\n\r", "a\n\rb"] {
        let expected: Vec<String> = s.lines().map(|l| l.to_string()).collect();
        assert_eq!(texts(&split_lines(&chars(s))), expected, "{:?}", s);
    }
}

#[test]
fn case_mapping_agrees_with_the_standard_library() {
    for s in ["", "abcXYZ_09", "tx_\u{131}d", "\u{17F}tatus", "stra\u{DF}e", "\u{FB01}n", "ÀB"] {
        assert_eq!(text(&to_upper(&chars(s))), s.to_uppercase(), "{:?}", s);
        assert_eq!(text(&to_lower(&chars(s))), s.to_lowercase(), "{:?}", s);
    }
    assert_eq!(text(&to_upper(&chars("\u{17F}tatus"))), "STATUS");
    assert_eq!(text(&to_lower(&chars("ÀB"))), "àb");
}

#[test]
fn labels_are_read_in_any_letter_case() {
    assert_eq!(TxType::from_str("deposit"), Some(TxType::Deposit));
    assert_eq!(TxType::from_str("Transfer"), Some(TxType::Transfer));
    assert_eq!(TxType::from_str("WITHDRAWAL"), Some(TxType::Withdrawal));
    assert_eq!(TxType::from_str("WITHDRAW"), None);
    assert_eq!(TxStatus::from_str("\u{17F}ucce\u{17F}s"), Some(TxStatus::Success));
    assert_eq!(TxStatus::from_str("failure"), Some(TxStatus::Failure));
    assert_eq!(TxStatus::from_str("pending "), None);
    assert_eq!(TxType::from_u8(2), Some(TxType::Withdrawal));
    assert_eq!(TxType::from_u8(3), None);
    assert_eq!(TxStatus::from_u8(1), Some(TxStatus::Failure));
    assert_eq!(TxStatus::from_u8(255), None);
}

#[test]
fn quotes_are_doubled_and_undoubled() {
    assert_eq!(text(&escaped(&chars("a\"b\"\""))), "a\"\"b\"\"\"\"");
    assert_eq!(text(&unescaped(&chars("a\"\"b\"\"\""))), "a\"b\"\"");
    assert_eq!(text(&cleaned_quote(&chars("\"a\"\"b\""))), "a\"b");
    assert_eq!(text(&cleaned_quote(&chars("\""))), "\"");
    assert_eq!(text(&cleaned_quote(&chars("\"\""))), "");
    assert_eq!(text(&cleaned_quote(&chars("a\"\"b"))), "a\"\"b");
    assert_eq!(text(&cleaned_quote(&chars("\"a\"\"b"))), "\"a\"\"b");
    for s in ["", "\"", "\"\"", "x\"y", "\"\"\"", "a\"\"b\""] {
        assert_eq!(text(&unescaped(&chars(s))), s.replace("\"\"", "\""));
        assert_eq!(text(&escaped(&chars(s))), s.replace('"', "\"\""));
        assert_eq!(text(&unescaped(&escaped(&chars(s)))), s);
    }
}

#[test]
fn key_value_lines() {
    let (key, value) = split_into_key_value(&chars(" tx_id :  42 ")).unwrap();
    assert_eq!((text(&key), text(&value)), ("TX_ID".to_string(), "42".to_string()));
    let (key, value) = split_into_key_value(&chars("Description: \"a: \"\"b\"\"\"")).unwrap();
    assert_eq!((text(&key), text(&value)), ("DESCRIPTION".to_string(), "a: \"b\"".to_string()));
    assert!(split_into_key_value(&chars("no colon")).is_none());
    assert!(split_into_key_value(&chars(": value")).is_none());
    assert!(split_into_key_value(&chars("key:   ")).is_none());
}

#[test]
fn csv_lines_split_into_fields() {
    let fields = split_csv_line(&chars(" a , b,\"c, \"\"d\"\"\" ignored")).unwrap();
    assert_eq!(texts(&fields), vec!["a", "b", "c, \"d\""]);
    let fields = split_csv_line(&chars("a,  \" x\ty\nz ")).unwrap();
    assert_eq!(texts(&fields), vec!["a", " x\ty\nz "]);
    let fields = split_csv_line(&chars("a,b,")).unwrap();
    assert_eq!(texts(&fields), vec!["a", "b"]);
    let fields = split_csv_line(&chars(",")).unwrap_or_default();
    assert_eq!(texts(&fields), Vec::<String>::new());
    assert!(split_csv_line(&chars("a")).is_none());
    assert!(split_csv_line(&chars("")).is_none());
    assert!(split_csv_line(&chars("a,b\"c\"")).is_none());
    let fields = split_csv_line(&chars("\"only\"")).unwrap();
    assert_eq!(texts(&fields), vec!["only"]);
}

#[test]
fn field_map_keeps_the_latest_text_of_a_key() {
    let mut fields = FieldMap::new();
    assert!(fields.get("A").is_none());
    fields.insert("A".to_string(), "1".to_string());
    fields.insert("B".to_string(), "2".to_string());
    fields.insert("A".to_string(), "3".to_string());
    assert_eq!(fields.get("A"), Some(&"3".to_string()));
    assert_eq!(fields.get("B"), Some(&"2".to_string()));
    assert!(fields.contains_key("B"));
    assert!(!fields.contains_key("a"));
}

#[test]
fn line_utilities_on_strings() {
    assert!(" \t".is_empty_line());
    assert!(!" x ".is_empty_line());
    assert!("  # Record".is_hash_marker());
    assert!(!"x #".is_hash_marker());
    assert!(" a b ".is_eq("a b\n"));
    assert!(!"a b".is_eq("a  b"));
    assert_eq!(
        "key: \"v \"\"x\"\"\"".split_into_key_value(),
        Some(("KEY".to_string(), "v \"x\"".to_string()))
    );
    assert_eq!("novalue:".split_into_key_value(), None);
    assert_eq!(
        "1, two ,\"three, \"\"3\"\"\"".split_csv_line(),
        Some(vec!["1".to_string(), "two".to_string(), "three, \"3\"".to_string()])
    );
    assert_eq!("single".split_csv_line(), None);
    assert_eq!("\"a\"\"b\"".clean_quote(), "a\"b");
    assert_eq!("plain".clean_quote(), "plain");
}
