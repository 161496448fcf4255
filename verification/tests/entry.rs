use std::cmp::Ordering;
use triage::entry::{is_name_le, Entry};

fn entry_named(name: &str) -> Entry {
    Entry::new(name.to_string())
}

#[test]
fn names_are_ordered_by_their_bytes() {
    assert!(is_name_le("a", "b"));
    assert!(!is_name_le("b", "a"));
    assert!(is_name_le("ab", "b"));
    assert!(!is_name_le("b", "ab"));
    // Upper case comes before lower case.
    assert!(is_name_le("B", "a"));
    assert!(!is_name_le("a", "B"));
    // Digits come before letters, and a hyphen before both.
    assert!(is_name_le("lib32-glibc", "lib3ds"));
    assert!(is_name_le("gcc-libs", "gcc12"));
}

#[test]
fn a_prefix_comes_first() {
    assert!(is_name_le("", "a"));
    assert!(!is_name_le("a", ""));
    assert!(is_name_le("linux", "linux-headers"));
    assert!(!is_name_le("linux-headers", "linux"));
}

#[test]
fn a_name_is_no_greater_than_itself() {
    assert!(is_name_le("", ""));
    assert!(is_name_le("vim", "vim"));
    assert!(is_name_le("käse", "käse"));
}

#[test]
fn names_beyond_ascii_follow_their_encoding() {
    // 'z' is one byte, 0x7a; 'é' is 0xc3 0xa9.
    assert!(is_name_le("z", "é"));
    assert!(!is_name_le("é", "z"));
    // The order of the encodings is the order of the code points.
    assert!(is_name_le("é", "€"));
    assert!(is_name_le("€", "😀"));
    assert!(!is_name_le("😀", "€"));
}

#[test]
fn any_two_names_are_comparable() {
    let names = ["", "a", "A", "ab", "b", "é", "zsh", "zsh-completions"];
    for a in names {
        for b in names {
            assert!(is_name_le(a, b) || is_name_le(b, a));
            assert_eq!(is_name_le(a, b), a <= b);
            if is_name_le(a, b) && is_name_le(b, a) {
                assert_eq!(a, b);
            }
            for c in names {
                if is_name_le(a, b) && is_name_le(b, c) {
                    assert!(is_name_le(a, c));
                }
            }
        }
    }
}

#[test]
fn an_entry_keeps_its_name() {
    let e = entry_named("firefox");
    assert_eq!(e.name(), "firefox");
    assert_eq!(e.clone().name(), "firefox");
    assert_eq!(entry_named("").name(), "");
}

#[test]
fn entries_are_equal_if_their_names_are() {
    assert!(entry_named("vim") == entry_named("vim"));
    assert!(entry_named("vim") != entry_named("vi"));
    assert!(entry_named("vim") != entry_named("Vim"));
}

#[test]
fn entries_are_ordered_as_their_names() {
    let a = entry_named("a");
    let b = entry_named("b");
    assert_eq!(a.partial_cmp(&b), Some(Ordering::Less));
    assert_eq!(b.partial_cmp(&a), Some(Ordering::Greater));
    assert_eq!(a.partial_cmp(&entry_named("a")), Some(Ordering::Equal));
    assert!(a < b);
    assert!(b >= a);
    assert_eq!(a.cmp(&b), Ordering::Less);
    assert_eq!(b.cmp(&a), Ordering::Greater);
    assert_eq!(a.cmp(&entry_named("a")), Ordering::Equal);
    assert_eq!(entry_named("ab").partial_cmp(&entry_named("a")), Some(Ordering::Greater));
}

#[test]
fn an_entry_is_found_among_names() {
    let list = vec!["gimp".to_string(), "vim".to_string()];
    assert!(entry_named("vim").is_in(&list));
    assert!(entry_named("gimp").is_in(&list));
    assert!(!entry_named("vi").is_in(&list));
    assert!(!entry_named("Vim").is_in(&list));
    assert!(!entry_named("vim").is_in(&Vec::new()));
}
