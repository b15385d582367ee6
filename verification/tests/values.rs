use std::path::Path;

use temper::corpus::parse_count;
use temper::paths::{
    extension, file_name, is_absolute, join, parent, path_key, same_path, starts_with,
    strip_prefix,
};
use temper::text::{decimal, decimal_wide, decoded, first_word, lines, trim, white_space};

const PATHS: [&str; 34] = [
    "", "/", "//", ".", "./", "..", "/.", "/..", "a", "a/", "a//", "./a", "../a", "a/.", "a/..",
    "a/./b", "a//b", "a/b", "a/b/", "/a", "/a/", "/a/b", "//a//b//", "/a/./b", "/a/../b", ".a",
    ".a.b", "a.b", "a.", "a..b", "x/.a", "x/a.b.c", "a b/c d", "/a/b/c",
];

const TEXTS: [&str; 26] = [
    "", " ", "\t", "\n", "\r", "\r\n", "a", " a", "a ", " a b ", "a\nb", "a\r\nb", "a\n", "a\n\n",
    "\na", "a\r", "a\rb", "a\r\r\nb", "\u{a0}a\u{2003}", "\u{85}x\u{3000}", "\u{200b}a",
    "\u{feff}a", "é è", "\u{1680}word next", "\u{2028}x\u{2029}", "\u{b}a\u{c}",
];

fn text(bytes: &Option<Vec<u8>>) -> Option<String> {
    bytes
        .as_ref()
        .map(|found| decoded(found).expect("valid UTF-8"))
}

#[test]
fn paths_are_taken_apart_by_their_components() {
    for path in PATHS {
        let known = Path::new(path);
        assert_eq!(is_absolute(path.as_bytes()), known.is_absolute(), "{path}");
        assert_eq!(
            text(&parent(path.as_bytes())),
            known.parent().map(|found| found.to_str().unwrap().to_owned()),
            "{path}"
        );
        assert_eq!(
            text(&file_name(path.as_bytes())),
            known
                .file_name()
                .map(|found| found.to_str().unwrap().to_owned()),
            "{path}"
        );
        assert_eq!(
            text(&extension(path.as_bytes())),
            known
                .extension()
                .map(|found| found.to_str().unwrap().to_owned()),
            "{path}"
        );
    }
}

#[test]
fn path_relations_go_by_components() {
    for left in PATHS {
        for right in PATHS {
            let (a, b) = (Path::new(left), Path::new(right));
            let (x, y) = (left.as_bytes(), right.as_bytes());
            assert_eq!(same_path(x, y), a == b, "{left} {right}");
            assert_eq!(starts_with(x, y), a.starts_with(b), "{left} {right}");
            assert_eq!(
                decoded(&join(x, y)).expect("valid UTF-8"),
                a.join(b).to_str().unwrap(),
                "{left} {right}"
            );
            assert_eq!(
                text(&strip_prefix(x, y)),
                a.strip_prefix(b)
                    .ok()
                    .map(|found| found.to_str().unwrap().to_owned()),
                "{left} {right}"
            );
            assert_eq!(path_key(x) < path_key(y), a < b, "{left} {right}");
            assert_eq!(path_key(x) == path_key(y), a == b, "{left} {right}");
        }
    }
}

#[test]
fn texts_are_split_at_white_space_and_line_feeds() {
    for given in TEXTS {
        assert_eq!(trim(given), given.trim(), "{given:?}");
        let known: Vec<String> = given.lines().map(|line| line.to_owned()).collect();
        assert_eq!(lines(given), known, "{given:?}");
        assert_eq!(
            first_word(given),
            given.split_whitespace().next().map(|word| word.to_owned()),
            "{given:?}"
        );
    }
    for code in 0..0x11_0000_u32 {
        if let Some(letter) = char::from_u32(code) {
            assert_eq!(white_space(letter), letter.is_whitespace(), "{code:x}");
        }
    }
}

#[test]
fn numbers_are_written_and_read_in_decimal() {
    for value in [0, 1, 9, 10, 11, 99, 100, 1_000_000, u64::MAX - 1, u64::MAX] {
        assert_eq!(decimal(value), value.to_string());
    }
    assert_eq!(decimal_wide(u128::MAX), u128::MAX.to_string());
    for given in [
        "", "0", "00", "+1", "-1", "-0", "+", "1+", " 1", "1 ", "18446744073709551615",
        "18446744073709551616", "0000000000000000000000000001", "1_000", "0x10", "٣",
        "99999999999999999999999999",
    ] {
        assert_eq!(parse_count(given), given.parse::<u64>().ok(), "{given}");
    }
}

#[test]
fn joined_paths_extend_their_base_whatever_it_is() {
    for tail in PATHS.iter().filter(|tail| !tail.starts_with('/')) {
        let expected = strip_prefix(&join(b"/", tail.as_bytes()), b"/").expect("below the root");
        for base in PATHS.iter().filter(|base| !base.is_empty()) {
            let joined = join(base.as_bytes(), tail.as_bytes());
            assert!(starts_with(&joined, base.as_bytes()), "{base} {tail}");
            let below = strip_prefix(&joined, base.as_bytes()).expect("below the base");
            assert_eq!(text(&Some(below)), text(&Some(expected.clone())), "{base} {tail}");
        }
    }
}
