use engine_string::{HandleScope, Isolate, NewStringType, String, MAX_STRING_LENGTH};

#[test]
fn empty_requests_give_the_one_empty_string() {
    let mut isolate = Isolate::new();
    let mut scope = HandleScope::new(&mut isolate);
    let empty = String::empty(&mut scope);
    let normal = String::new_from_utf8(&mut scope, &[], NewStringType::Normal).unwrap();
    let interned = String::new_from_utf8(&mut scope, &[], NewStringType::Internalized).unwrap();
    let text = String::new(&mut scope, "").unwrap();
    let again = String::empty(&mut scope);
    assert!(std::ptr::eq(&*empty, &*normal));
    assert!(std::ptr::eq(&*empty, &*interned));
    assert!(std::ptr::eq(&*empty, &*text));
    assert!(std::ptr::eq(&*empty, &*again));
    assert_eq!(empty.length(), 0);
    assert_eq!(empty.utf8_length(&mut scope), 0);
}

#[test]
fn the_empty_string_outlives_its_scopes() {
    let mut isolate = Isolate::new();
    let first = {
        let mut scope = HandleScope::new(&mut isolate);
        let empty = String::empty(&mut scope);
        format!("{:p}", &*empty)
    };
    let mut scope = HandleScope::new(&mut isolate);
    let empty = String::empty(&mut scope);
    assert_eq!(format!("{:p}", &*empty), first);
}

#[test]
fn a_string_that_is_not_empty_is_a_string_of_its_own() {
    let mut isolate = Isolate::new();
    let mut scope = HandleScope::new(&mut isolate);
    let one = String::new(&mut scope, "same").unwrap();
    let other = String::new(&mut scope, "same").unwrap();
    let empty = String::empty(&mut scope);
    assert!(!std::ptr::eq(&*one, &*empty));
    assert_eq!(one.length(), other.length());
    assert_eq!(one.to_rust_string_lossy(&mut scope), other.to_rust_string_lossy(&mut scope));
}

#[test]
fn hello_with_an_accent_has_five_units_and_six_bytes() {
    let mut isolate = Isolate::new();
    let mut scope = HandleScope::new(&mut isolate);
    let string = String::new(&mut scope, "héllo").unwrap();
    assert_eq!(string.length(), 5);
    assert_eq!(string.utf8_length(&mut scope), 6);
}

#[test]
fn length_counts_code_units() {
    let mut isolate = Isolate::new();
    let mut scope = HandleScope::new(&mut isolate);
    for text in ["a", "hello", "héllo", "€uro", "😀", "a😀b", "\u{10FFFF}\u{FFFF}\u{0}", "日本語"] {
        let string = String::new(&mut scope, text).unwrap();
        assert_eq!(string.length(), text.encode_utf16().count(), "{}", text);
    }
}

#[test]
fn utf8_length_gives_back_the_length_of_valid_input() {
    let mut isolate = Isolate::new();
    let mut scope = HandleScope::new(&mut isolate);
    for text in ["a", "hello", "héllo", "€uro", "😀", "a😀b", "\u{10FFFF}\u{FFFF}\u{0}", "日本語"] {
        for kind in [NewStringType::Normal, NewStringType::Internalized] {
            let string = String::new_from_utf8(&mut scope, text.as_bytes(), kind).unwrap();
            assert_eq!(string.utf8_length(&mut scope), text.len(), "{}", text);
        }
    }
}

#[test]
fn both_kinds_give_equal_strings() {
    let mut isolate = Isolate::new();
    let mut scope = HandleScope::new(&mut isolate);
    for bytes in [&b"plain"[..], "h\u{e9}llo \u{1F600}".as_bytes(), &[0x61, 0xFF, 0xE2, 0x82]] {
        let normal = String::new_from_utf8(&mut scope, bytes, NewStringType::Normal).unwrap();
        let interned = String::new_from_utf8(&mut scope, bytes, NewStringType::Internalized).unwrap();
        assert_eq!(normal.length(), interned.length());
        assert_eq!(normal.is_onebyte(), interned.is_onebyte());
        assert_eq!(
            normal.to_rust_string_lossy(&mut scope),
            interned.to_rust_string_lossy(&mut scope)
        );
    }
}

#[test]
fn bytes_that_are_not_utf8_become_replacement_characters() {
    let mut isolate = Isolate::new();
    let mut scope = HandleScope::new(&mut isolate);
    let string = String::new_from_utf8(&mut scope, &[0x61, 0xFF, 0x62], NewStringType::Normal).unwrap();
    assert_eq!(string.length(), 3);
    assert_eq!(string.utf8_length(&mut scope), 5);
    assert_eq!(string.to_rust_string_lossy(&mut scope), "a\u{FFFD}b");
    let cut = String::new_from_utf8(&mut scope, &[0xE2, 0x82], NewStringType::Normal).unwrap();
    assert_eq!(cut.length(), 1);
    assert_eq!(cut.to_rust_string_lossy(&mut scope), "\u{FFFD}");
}

#[test]
fn new_is_new_from_utf8_of_the_bytes() {
    let mut isolate = Isolate::new();
    let mut scope = HandleScope::new(&mut isolate);
    for text in ["", "x", "héllo", "😀😀"] {
        let one = String::new(&mut scope, text).unwrap();
        let other = String::new_from_utf8(&mut scope, text.as_bytes(), NewStringType::Normal).unwrap();
        assert_eq!(one.length(), other.length());
        assert_eq!(one.utf8_length(&mut scope), other.utf8_length(&mut scope));
        assert_eq!(one.to_rust_string_lossy(&mut scope), other.to_rust_string_lossy(&mut scope));
    }
}

#[test]
fn the_default_limit_is_the_engines_own() {
    let isolate = Isolate::new();
    assert_eq!(isolate.string_length_limit(), MAX_STRING_LENGTH);
    assert_eq!(MAX_STRING_LENGTH, (1usize << 29) - 24);
    assert_eq!(Isolate::with_max_string_length(usize::MAX).string_length_limit(), MAX_STRING_LENGTH);
    assert_eq!(Isolate::with_max_string_length(12).string_length_limit(), 12);
    assert_eq!(Isolate::with_max_string_length(0).string_length_limit(), 0);
}

#[test]
fn a_string_longer_than_the_limit_is_refused() {
    let mut isolate = Isolate::with_max_string_length(4);
    let mut scope = HandleScope::new(&mut isolate);
    assert!(String::new(&mut scope, "abcd").is_some());
    assert!(String::new(&mut scope, "abcde").is_none());
    assert!(String::new_from_utf8(&mut scope, b"abcde", NewStringType::Internalized).is_none());
    assert!(String::new_external_onebyte_static(&mut scope, "abcd").is_some());
    assert!(String::new_external_onebyte_static(&mut scope, "abcde").is_none());
}

#[test]
fn the_limit_counts_code_units_not_bytes() {
    let mut isolate = Isolate::with_max_string_length(4);
    let mut scope = HandleScope::new(&mut isolate);
    let euros = String::new(&mut scope, "€€€€").unwrap();
    assert_eq!(euros.length(), 4);
    assert_eq!(euros.utf8_length(&mut scope), 12);
    assert!(String::new(&mut scope, "😀😀").is_some());
    assert!(String::new(&mut scope, "😀😀a").is_none());
    assert!(String::new_from_utf8(&mut scope, &[0xFF; 4], NewStringType::Normal).is_some());
    assert!(String::new_from_utf8(&mut scope, &[0xFF; 5], NewStringType::Normal).is_none());
}

#[test]
fn the_empty_string_is_given_under_any_limit() {
    let mut isolate = Isolate::with_max_string_length(0);
    let mut scope = HandleScope::new(&mut isolate);
    assert!(String::new(&mut scope, "").is_some());
    assert!(String::new(&mut scope, "a").is_none());
    assert_eq!(String::empty(&mut scope).length(), 0);
}

#[test]
fn a_buffer_too_long_for_the_engine_is_refused() {
    let len = i32::MAX as usize + 1;
    let buffer = vec![0u8; len];
    let mut isolate = Isolate::new();
    let mut scope = HandleScope::new(&mut isolate);
    assert!(String::new_from_utf8(&mut scope, &buffer, NewStringType::Normal).is_none());
    assert!(String::new_from_utf8(&mut scope, &buffer, NewStringType::Internalized).is_none());
}

#[test]
fn handles_can_be_cloned() {
    let mut isolate = Isolate::new();
    let mut scope = HandleScope::new(&mut isolate);
    let string = String::new(&mut scope, "twice").unwrap();
    let copy = string.clone();
    assert!(std::ptr::eq(&*string, &*copy));
    assert_eq!(copy.length(), 5);
}
