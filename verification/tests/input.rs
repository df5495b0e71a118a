//! The chat input line.

use syncmesh::input::ChatInput;

#[test]
fn append_and_backspace() {
    let mut i = ChatInput::new();
    i.append('h');
    i.append('i');
    assert_eq!(i.as_str(), "hi");
    i.backspace();
    assert_eq!(i.as_str(), "h");
}

#[test]
fn backspace_on_empty_is_noop() {
    let mut i = ChatInput::new();
    i.backspace();
    assert_eq!(i.as_str(), "");
}

#[test]
fn word_delete_trims_trailing_word() {
    let mut i = ChatInput::new();
    for c in "hello world".chars() {
        i.append(c);
    }
    i.word_delete();
    assert_eq!(i.as_str(), "hello ");
}

#[test]
fn word_delete_trims_trailing_whitespace_first() {
    let mut i = ChatInput::new();
    for c in "hello   ".chars() {
        i.append(c);
    }
    i.word_delete();
    assert_eq!(i.as_str(), "");
}

#[test]
fn word_delete_on_empty_is_noop() {
    let mut i = ChatInput::new();
    i.word_delete();
    assert!(i.is_empty());
}

#[test]
fn take_returns_trimmed_and_clears() {
    let mut i = ChatInput::new();
    for c in "  hello  ".chars() {
        i.append(c);
    }
    assert_eq!(i.take(), Some("hello".into()));
    assert!(i.is_empty());
}

#[test]
fn take_on_whitespace_only_returns_none() {
    let mut i = ChatInput::new();
    for c in "    ".chars() {
        i.append(c);
    }
    assert!(i.take().is_none());
    assert!(i.is_empty());
}

#[test]
fn word_delete_takes_any_white_space() {
    let mut i = ChatInput::new();
    for c in "one two\t\u{3000}".chars() {
        i.append(c);
    }
    i.word_delete();
    assert_eq!(i.as_str(), "one ");
    i.word_delete();
    assert_eq!(i.as_str(), "");
}

#[test]
fn input_keeps_characters_beyond_ascii() {
    let mut i = ChatInput::new();
    for c in "héé👋".chars() {
        i.append(c);
    }
    i.backspace();
    assert_eq!(i.as_str(), "héé");
    assert_eq!(i.take(), Some("héé".into()));
}

#[test]
fn all_white_space_is_recognised() {
    let spaces = [
        0x09, 0x0a, 0x0b, 0x0c, 0x0d, 0x20, 0x85, 0xa0, 0x1680, 0x2000, 0x2001, 0x2002, 0x2003,
        0x2004, 0x2005, 0x2006, 0x2007, 0x2008, 0x2009, 0x200a, 0x2028, 0x2029, 0x202f, 0x205f,
        0x3000,
    ];
    for n in 0..=0x10_ffff {
        if let Some(c) = char::from_u32(n) {
            let mut i = ChatInput::new();
            i.append(c);
            assert_eq!(i.take().is_none(), spaces.contains(&n), "{n:x}");
        }
    }
}

#[test]
fn a_line_can_be_dropped() {
    let mut i = ChatInput::new();
    i.append('x');
    i.clear();
    assert!(i.is_empty());
}
