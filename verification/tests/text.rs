use mufw::anchor::{hook_update, PF_CONF_HOOK};
use mufw::text::{contains_str, decimal_string, parse_u16, split_once, str_eq, to_ascii_lowercase};

#[test]
fn decimal_text() {
    assert_eq!(decimal_string(0), "0");
    assert_eq!(decimal_string(7), "7");
    assert_eq!(decimal_string(10), "10");
    assert_eq!(decimal_string(65535), "65535");
    assert_eq!(decimal_string(u32::MAX), "4294967295");
}

#[test]
fn u16_reading() {
    assert_eq!(parse_u16("0"), Some(0));
    assert_eq!(parse_u16("+9"), Some(9));
    assert_eq!(parse_u16("65535"), Some(65535));
    assert_eq!(parse_u16("65536"), None);
    assert_eq!(parse_u16("99999999999"), None);
    assert_eq!(parse_u16(""), None);
    assert_eq!(parse_u16("+"), None);
    assert_eq!(parse_u16("-0"), None);
    assert_eq!(parse_u16("1a"), None);
    assert_eq!(parse_u16("١"), None);
    for n in [0u16, 1, 9, 10, 99, 100, 1234, 65535] {
        assert_eq!(parse_u16(&decimal_string(n as u32)), Some(n));
        assert_eq!(parse_u16(&n.to_string()), n.to_string().parse::<u16>().ok());
    }
}

#[test]
fn case_and_search() {
    assert_eq!(to_ascii_lowercase("TcP-Ü"), "tcp-Ü");
    assert!(str_eq("abc", "abc"));
    assert!(!str_eq("abc", "abd"));
    assert!(!str_eq("abc", "ab"));
    assert_eq!(split_once("a/b/c", '/'), Some(("a", "b/c")));
    assert_eq!(split_once("abc", '/'), None);
    assert_eq!(split_once("/", '/'), Some(("", "")));
    assert_eq!(split_once("é/ü", '/'), Some(("é", "ü")));
    assert!(contains_str("hello world", "o w"));
    assert!(contains_str("abc", ""));
    assert!(contains_str("abc", "abc"));
    assert!(!contains_str("ab", "abc"));
    assert!(!contains_str("hello", "hex"));
}

#[test]
fn hook_is_added_once() {
    let conf = "scrub-anchor \"com.apple/*\"\n";
    let updated = hook_update(conf).unwrap();
    assert_eq!(updated, format!("{conf}\n{PF_CONF_HOOK}"));
    assert_eq!(hook_update(&updated), None);
    assert_eq!(hook_update("anchor \"com.mufw\""), None);
    assert_eq!(hook_update("").unwrap(), format!("\n{PF_CONF_HOOK}"));
}
