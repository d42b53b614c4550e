use xkcd_lock::text::{
    characters, contains, decode, same_bytes, same_text, stands_at, string_of,
};

fn chars(text: &str) -> Vec<char> {
    text.chars().collect()
}

#[test]
fn same_text_compares_characters() {
    assert!(same_text("wayland", "wayland"));
    assert!(same_text("", ""));
    assert!(!same_text("wayland", "waylan"));
    assert!(!same_text("wayland", "Wayland"));
    assert!(!same_text("x11", "x12"));
    assert!(same_text("caf\u{e9}", "caf\u{e9}"));
    assert!(!same_text("caf\u{e9}", "cafe"));
}

#[test]
fn same_bytes_compares_bytes() {
    assert!(same_bytes(b"abc", b"abc"));
    assert!(same_bytes(b"", b""));
    assert!(!same_bytes(b"abc", b"abd"));
    assert!(!same_bytes(b"abc", b"ab"));
    assert!(!same_bytes(b"", b"a"));
}

#[test]
fn characters_and_string_of_are_inverse() {
    assert_eq!(characters("a\u{e9}\u{4e2d} z"), vec!['a', '\u{e9}', '\u{4e2d}', ' ', 'z']);
    assert_eq!(characters(""), Vec::<char>::new());
    assert_eq!(string_of(&['a', '\u{e9}', ' ']), "a\u{e9} ");
    assert_eq!(string_of(&[]), "");
    assert_eq!(string_of(&characters("HDMI-1")), "HDMI-1");
}

#[test]
fn stands_at_checks_one_position() {
    let text = chars("abcabc");
    assert!(stands_at(&text, &chars("abc"), 0));
    assert!(stands_at(&text, &chars("abc"), 3));
    assert!(!stands_at(&text, &chars("abc"), 1));
    assert!(!stands_at(&text, &chars("abc"), 4));
    assert!(stands_at(&text, &chars(""), 6));
    assert!(!stands_at(&text, &chars(""), 7));
    assert!(!stands_at(&text, &chars("c"), usize::MAX));
}

#[test]
fn contains_finds_a_part_anywhere() {
    let text = chars("eDP-1 connected primary");
    assert!(contains(&text, &chars(" connected ")));
    assert!(contains(&text, &chars("eDP")));
    assert!(contains(&text, &chars("primary")));
    assert!(contains(&text, &chars("")));
    assert!(!contains(&text, &chars("disconnected")));
    assert!(!contains(&text, &chars("primary ")));
    assert!(!contains(&chars("ab"), &chars("abc")));
    assert!(contains(&chars(""), &chars("")));
    assert!(!contains(&chars(""), &chars("a")));
    assert!(contains(&chars("aab"), &chars("ab")));
}

#[test]
fn decode_reads_valid_text() {
    assert_eq!(decode(b"HDMI-1 connected"), Some("HDMI-1 connected"));
    assert_eq!(decode("\u{e9}cran".as_bytes()), Some("\u{e9}cran"));
    assert_eq!(decode(&[0xe4, 0xb8, 0xad]), Some("\u{4e2d}"));
    assert_eq!(decode(b""), Some(""));
}

#[test]
fn decode_refuses_what_is_not_text() {
    assert_eq!(decode(&[0xff, 0xfe]), None);
    assert_eq!(decode(&[b'a', 0xc3]), None);
    assert_eq!(decode(&[0xed, 0xa0, 0x80]), None);
    assert_eq!(decode(&[0xc0, 0x80]), None);
}
