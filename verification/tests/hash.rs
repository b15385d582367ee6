use temper::hash::{frame_bytes, framed_digest, framed_text_digest, sha256_file, FileRead};
use temper::json::{hex, push_json_string};
use temper::promotion::{sha256_open_file, HashRead};

#[test]
fn files_are_hashed_with_sha256() {
    assert_eq!(
        sha256_file(b"/f", &FileRead::Contents(b"abc".to_vec())).expect("digest"),
        "ba7816bf8f01cfea414140de5dae2223b00361a396177a9cb410ff61f20015ad"
    );
    assert_eq!(
        sha256_open_file(&HashRead::Contents(vec![])).expect("digest"),
        "e3b0c44298fc1c149afbf4c8996fb92427ae41e4649b934ca495991b7852b855"
    );
    let unopened = sha256_file(b"/f", &FileRead::NotOpened("denied".to_owned()));
    assert!(unopened.expect_err("not opened").message().contains("/f"));
    assert!(sha256_file(b"/f", &FileRead::NotRead("io".to_owned())).is_err());
    assert!(sha256_open_file(&HashRead::NotCloned("io".to_owned())).is_err());
    assert!(sha256_open_file(&HashRead::NotRewound("io".to_owned())).is_err());
    assert!(sha256_open_file(&HashRead::NotRead("io".to_owned())).is_err());
}

#[test]
fn frames_keep_concatenations_apart() {
    assert_eq!(
        framed_digest(&vec![b"ab".to_vec(), b"c".to_vec()]),
        "8e502afb4273fb33b57a8c24a5709d6c7030c2c8626f421ddae7b4f93707455f"
    );
    assert_ne!(
        framed_digest(&vec![b"ab".to_vec(), b"c".to_vec()]),
        framed_digest(&vec![b"a".to_vec(), b"bc".to_vec()])
    );
    assert_eq!(
        framed_text_digest(&vec!["a".to_owned()]),
        "0e1b0880f3a7ea7610a1a87f8431b5ed82c0417c242eb4e30494d0848f15ef6d"
    );
    assert_eq!(
        frame_bytes(&vec![b"a".to_vec()]),
        vec![0, 0, 0, 0, 0, 0, 0, 1, 0, 0, 0, 0, 0, 0, 0, 1, b'a']
    );
}

#[test]
fn json_strings_escape_what_must_be_escaped() {
    let mut json = String::new();
    push_json_string(&mut json, "a\"b\\c\n\r\t\u{1}é");
    assert_eq!(json, "\"a\\\"b\\\\c\\n\\r\\t\\u0001é\"");
    assert_eq!(hex(&[0x00, 0x0f, 0xab]), "000fab");
    let mut first = String::new();
    push_json_string(&mut first, "\\n");
    let mut second = String::new();
    push_json_string(&mut second, "\n");
    assert_ne!(first, second);
}

#[test]
fn digests_are_lowercase_hexadecimal() {
    for digest in [
        framed_digest(&vec![b"ab".to_vec()]),
        framed_text_digest(&vec!["ab".to_owned(), "c".to_owned()]),
    ] {
        assert_eq!(digest.len(), 64);
        assert!(digest.chars().all(|letter| "0123456789abcdef".contains(letter)));
    }
}
