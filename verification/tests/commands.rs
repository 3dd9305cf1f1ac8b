use std::cmp::Ordering;

use odyn::lockfile::short;
use odyn::project::gen_main_odin;
use odyn::version::{parse_version, version_cmp};

#[test]
fn commands_test_parse_version() {
    assert_eq!(parse_version("1.0.0"), (1, 0, 0));
    assert_eq!(parse_version("v1.0.0"), (1, 0, 0));
    assert_eq!(parse_version("1.2.3"), (1, 2, 3));
    assert_eq!(parse_version("v2"), (2, 0, 0));
    assert_eq!(parse_version("3"), (3, 0, 0));
    assert_eq!(parse_version(""), (0, 0, 0));
    assert_eq!(parse_version("abc"), (0, 0, 0));
    assert_eq!(parse_version("1.2.3.4"), (1, 2, 3));
}

#[test]
fn commands_test_version_cmp() {
    assert_eq!(version_cmp("1.0.0", "1.0.0"), Ordering::Equal);
    assert_eq!(version_cmp("1.0.0", "2.0.0"), Ordering::Less);
    assert_eq!(version_cmp("2.0.0", "1.0.0"), Ordering::Greater);
    assert_eq!(version_cmp("1.0.0", "1.1.0"), Ordering::Less);
    assert_eq!(version_cmp("1.1.0", "1.0.0"), Ordering::Greater);
    assert_eq!(version_cmp("1.0.0", "1.0.1"), Ordering::Less);
    assert_eq!(version_cmp("1.0.1", "1.0.0"), Ordering::Greater);
    assert_eq!(version_cmp("0.3.0", "0.10.0"), Ordering::Less);
    assert_eq!(version_cmp("v1.0.0", "v2.0.0"), Ordering::Less);
    assert_eq!(version_cmp("10.0.0", "9.0.0"), Ordering::Greater);
}

#[test]
fn commands_test_gen_main_odin() {
    let result = gen_main_odin("myproject");
    assert!(result.contains("package main"));
    assert!(result.contains("Hellope, myproject!"));
    let result2 = gen_main_odin("test");
    assert!(result2.contains("Hellope, test!"));
}

#[test]
fn commands_test_short() {
    assert_eq!(short("abcd1234efgh5678"), "abcd123");
    assert_eq!(short("abc"), "abc");
    assert_eq!(short(""), "");
    assert_eq!(short("1234567890abcdef"), "1234567");
}

#[test]
fn mod_test_parse_version() {
    assert_eq!(parse_version("1.0.0"), (1, 0, 0));
    assert_eq!(parse_version("v1.0.0"), (1, 0, 0));
    assert_eq!(parse_version("1.2.3"), (1, 2, 3));
    assert_eq!(parse_version("v2"), (2, 0, 0));
    assert_eq!(parse_version("3"), (3, 0, 0));
    assert_eq!(parse_version(""), (0, 0, 0));
    assert_eq!(parse_version("abc"), (0, 0, 0));
    assert_eq!(parse_version("1.2.3.4"), (1, 2, 3));
    assert_eq!(parse_version("0.3.1-beta"), (0, 3, 1));
    assert_eq!(parse_version("1.0.0-rc.1"), (1, 0, 0));
}

#[test]
fn mod_test_version_cmp() {
    assert_eq!(version_cmp("1.0.0", "1.0.0"), Ordering::Equal);
    assert_eq!(version_cmp("1.0.0", "2.0.0"), Ordering::Less);
    assert_eq!(version_cmp("2.0.0", "1.0.0"), Ordering::Greater);
    assert_eq!(version_cmp("1.0.0", "1.1.0"), Ordering::Less);
    assert_eq!(version_cmp("1.1.0", "1.0.0"), Ordering::Greater);
    assert_eq!(version_cmp("1.0.0", "1.0.1"), Ordering::Less);
    assert_eq!(version_cmp("1.0.1", "1.0.0"), Ordering::Greater);
    assert_eq!(version_cmp("0.3.0", "0.10.0"), Ordering::Less);
    assert_eq!(version_cmp("v1.0.0", "v2.0.0"), Ordering::Less);
    assert_eq!(version_cmp("10.0.0", "9.0.0"), Ordering::Greater);
}

#[test]
fn mod_test_gen_main_odin() {
    let result = gen_main_odin("myproject");
    assert!(result.contains("package main"));
    assert!(result.contains("Hellope, myproject!"));
    let result2 = gen_main_odin("test");
    assert!(result2.contains("Hellope, test!"));
}
