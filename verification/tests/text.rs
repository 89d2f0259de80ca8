use nod::json::JsonValue;
use nod::scan::{find, parse_unsigned_exec, split_lines, split_words, starts_with, trim_matches, trim_start_matches};
use nod::text::{
    contains_str, decimal_string, ends_with, eq_ignore_ascii_case, join, join_path, push_path, signed_decimal_string,
    str_lt, trim, with_extension,
};

#[test]
fn lines_split_like_str_lines() {
    assert_eq!(split_lines("a\r\nb\n\nc\n"), vec!["a", "b", "", "c"]);
    assert!(split_lines("").is_empty());
}

#[test]
fn words_split_on_whitespace_runs() {
    assert_eq!(split_words("  a  b\tc \n"), vec!["a", "b", "c"]);
}

#[test]
fn unsigned_parse_accepts_digits_within_the_limit() {
    assert_eq!(parse_unsigned_exec("42", 100), Some(42));
    assert_eq!(parse_unsigned_exec("+7", 100), Some(7));
    assert_eq!(parse_unsigned_exec("101", 100), None);
    assert_eq!(parse_unsigned_exec("4a", 100), None);
    assert_eq!(parse_unsigned_exec("", 100), None);
    assert_eq!(parse_unsigned_exec("18446744073709551615", u64::MAX), Some(u64::MAX));
}

#[test]
fn decimal_rendering() {
    assert_eq!(decimal_string(0), "0");
    assert_eq!(decimal_string(1787560497), "1787560497");
    assert_eq!(signed_decimal_string(-42), "-42");
    assert_eq!(signed_decimal_string(i64::MIN), "-9223372036854775808");
}

#[test]
fn search_and_compare() {
    assert_eq!(find("hello world", "o w"), Some(4));
    assert_eq!(find("hello", "z"), None);
    assert!(contains_str("10.0.0.1:22", ":"));
    assert!(ends_with("a.yaml", ".yaml"));
    assert!(starts_with("nixpkgs", "nix"));
    assert!(str_lt("apple", "banana"));
    assert!(str_lt("app", "apple"));
    assert!(!str_lt("b", "a"));
    assert!(eq_ignore_ascii_case("SeRvEr", "server"));
}

#[test]
fn trimming() {
    assert_eq!(trim("  x y \n"), "x y");
    assert_eq!(trim_start_matches("///a/b", "/"), "a/b");
    assert_eq!(trim_matches("\"quoted\"", '"'), "quoted");
}

#[test]
fn joining_and_paths() {
    assert_eq!(join(&vec!["a".to_string(), "b".to_string()], ","), "a,b");
    assert_eq!(join(&vec![], ","), "");
    assert_eq!(join_path("/etc/nixos", "flake.nix"), "/etc/nixos/flake.nix");
    assert_eq!(join_path("/", "etc"), "/etc");
    assert_eq!(push_path("/etc", "/srv/x"), "/srv/x");
    assert_eq!(push_path("", "x"), "x");
    assert_eq!(with_extension("/f/secrets/a.yaml", "bak"), "/f/secrets/a.bak");
    assert_eq!(with_extension("/f/.env", "bak"), "/f/.env.bak");
}

#[test]
fn json_values_answer_lookups() {
    let v = JsonValue::Object(vec![
        ("path".to_string(), JsonValue::Str("/etc/nixos".to_string())),
        ("revCount".to_string(), JsonValue::Number(Some(42))),
    ]);
    assert_eq!(v.str_at("path"), Some("/etc/nixos"));
    assert_eq!(v.u64_at("revCount"), Some(42));
    assert_eq!(v.u64_at("path"), None);
    assert!(v.get("missing").is_none());
    assert_eq!(JsonValue::Null.as_str(), None);
}
