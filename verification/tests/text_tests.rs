use libcrun_shim::path::{join_path, same_path};
use libcrun_shim::text::{
    contains_str, ends_with, find_first, find_last, parse_unsigned, split_char, split_lines,
    split_whitespace, starts_with, trim, u64_to_string,
};
use std::path::{Path, PathBuf};

const SAMPLES: [&str; 14] = [
    "",
    "a",
    "\n",
    "abc\n",
    "abc\r\ndef",
    "foo\nbar\n\r\nbaz\r",
    "  x  y\tz \n",
    "\u{a0}lead and trail\u{2003}",
    "one\n\ntwo\n\n",
    "a:b::c:",
    "::",
    "0::/user.slice",
    "   ",
    "\r\n\r\n",
];

#[test]
fn lines_match_std() {
    for s in SAMPLES.iter() {
        let expected: Vec<String> = s.lines().map(|l| l.to_string()).collect();
        assert_eq!(split_lines(s), expected, "input {:?}", s);
    }
}

#[test]
fn whitespace_split_matches_std() {
    for s in SAMPLES.iter() {
        let expected: Vec<String> = s.split_whitespace().map(|l| l.to_string()).collect();
        assert_eq!(split_whitespace(s), expected, "input {:?}", s);
    }
}

#[test]
fn char_split_matches_std() {
    for s in SAMPLES.iter() {
        let expected: Vec<String> = s.split(':').map(|l| l.to_string()).collect();
        assert_eq!(split_char(s, ':'), expected, "input {:?}", s);
    }
}

#[test]
fn trim_matches_std() {
    for s in SAMPLES.iter() {
        assert_eq!(trim(s), s.trim(), "input {:?}", s);
    }
}

#[test]
fn unsigned_parse_matches_std() {
    let inputs = [
        "0",
        "42",
        "+7",
        "-1",
        "",
        "+",
        " 1",
        "1 ",
        "18446744073709551615",
        "18446744073709551616",
        "4294967295",
        "4294967296",
        "00012",
        "12a",
    ];
    for s in inputs.iter() {
        assert_eq!(parse_unsigned(s, u64::MAX), s.parse::<u64>().ok(), "u64 {:?}", s);
        assert_eq!(
            parse_unsigned(s, u32::MAX as u64),
            s.parse::<u32>().ok().map(|v| v as u64),
            "u32 {:?}",
            s
        );
    }
}

#[test]
fn number_text() {
    assert_eq!(u64_to_string(0), "0");
    assert_eq!(u64_to_string(1234567890), "1234567890");
    assert_eq!(u64_to_string(u64::MAX), u64::MAX.to_string());
}

#[test]
fn prefix_suffix_and_search() {
    assert!(starts_with("sha256:abc", "sha256:"));
    assert!(!starts_with("sha25", "sha256:"));
    assert!(ends_with("layer.tar.gz", ".gz"));
    assert!(!ends_with("gz", ".gz"));
    assert!(contains_str("rw,memory", "memory"));
    assert!(contains_str("abc", ""));
    assert!(!contains_str("memor", "memory"));
    assert_eq!(find_first("a/b/c", '/'), Some(1));
    assert_eq!(find_last("a/b/c", '/'), Some(3));
    assert_eq!(find_first("abc", '/'), None);
}

#[test]
fn join_matches_path_join() {
    let cases = [
        ("", "x"),
        ("/usr", "share"),
        ("/usr/", "share"),
        ("rel", "/abs"),
        ("a//", "b"),
        ("~/.local/share", "libcrun-shim"),
    ];
    for (base, child) in cases.iter() {
        let expected = PathBuf::from(base).join(child);
        assert_eq!(join_path(base, child), expected.to_str().unwrap(), "{:?} + {:?}", base, child);
    }
}

#[test]
fn path_equality_matches_std() {
    let paths = [
        "", "/", "a", "./a", "a/", "a/./b", "a/b", "a//b", "/a/b/", "/a/b", "/a/./b/.", ".", "./",
        "..", "a/../b", "a/b/..", "/usr/share/libcrun-shim",
    ];
    for x in paths.iter() {
        for y in paths.iter() {
            assert_eq!(same_path(x, y), Path::new(x) == Path::new(y), "{:?} vs {:?}", x, y);
        }
    }
}
