use deployer::text::{
    adjoin, push_int_decimal, slash_join, split, str_eq, strip_prefix, trim, white_space,
};
use std::path::Path;

#[test]
fn split_agrees_with_the_standard_split() {
    for s in ["", "_", "__", "a", "a_b", "_a", "a_", "01_Sep_2024_1308", "a__b_", "é_ü_ß", "no sep"] {
        let expected: Vec<&str> = s.split('_').collect();
        assert_eq!(split(s, '_'), expected);
    }
}

#[test]
fn split_of_a_stamp() {
    assert_eq!(split("01_Sep_2024_1308", '_'), vec!["01", "Sep", "2024", "1308"]);
    assert_eq!(split("a/b", '/'), vec!["a", "b"]);
}

#[test]
fn decimal_agrees_with_the_standard_form() {
    for i in [0, 1, 9, 10, 11, 99, 100, 12345, -1, -9, -10, -12345, i32::MAX, i32::MIN] {
        let mut out = String::from(">");
        push_int_decimal(&mut out, i);
        assert_eq!(out, format!(">{}", i));
    }
}

#[test]
fn str_eq_compares_characters() {
    assert!(str_eq("", ""));
    assert!(str_eq("Cargo.toml", "Cargo.toml"));
    assert!(!str_eq("Cargo.toml", "cargo.toml"));
    assert!(!str_eq("go.mod", "go.mo"));
}

#[test]
fn slash_join_puts_one_slash_between() {
    assert_eq!(slash_join("/var/www", "api"), "/var/www/api");
    assert_eq!(slash_join("", ""), "/");
    assert_eq!(slash_join("/var/www/", "/api"), "/var/www///api");
}

#[test]
fn adjoin_agrees_with_the_standard_join() {
    let bases = ["", "/", "/var/www", "/var/www/", "rel", "rel/", "a//"];
    let rels = ["", "api", "api/v1", "/abs", "/", "./x", "../y"];
    for base in bases {
        for rel in rels {
            let expected = Path::new(base).join(rel);
            assert_eq!(adjoin(base, rel), expected.to_str().unwrap());
        }
    }
}

#[test]
fn adjoin_examples() {
    assert_eq!(adjoin("/var/www/01_Sep_2024_1308", "micro-services"), "/var/www/01_Sep_2024_1308/micro-services");
    assert_eq!(adjoin("/var/www/", "svc"), "/var/www/svc");
    assert_eq!(adjoin("/var/www", "/elsewhere"), "/elsewhere");
}

#[test]
fn white_space_agrees_with_the_standard_property() {
    let mut code: u32 = 0;
    while code <= 0x10FFFF {
        if let Some(c) = char::from_u32(code) {
            assert_eq!(white_space(c), c.is_whitespace(), "U+{:04X}", code);
        }
        code += 1;
    }
}

#[test]
fn trim_agrees_with_the_standard_trim() {
    for s in ["", " ", "  a  ", "a", "\t a b \n", "\u{3000}x\u{a0}", "   ", "a \u{2003} b", "\r\nmodule\r\n"] {
        assert_eq!(trim(s), s.trim());
    }
}

#[test]
fn strip_prefix_agrees_with_the_standard_one() {
    let cases = [
        ("module example.com/m", "module "),
        ("module ", "module "),
        ("module", "module "),
        ("", ""),
        ("x", ""),
        ("", "x"),
        ("modules x", "module "),
        ("Module x", "module "),
    ];
    for (s, p) in cases {
        assert_eq!(strip_prefix(s, p), s.strip_prefix(p));
    }
}
