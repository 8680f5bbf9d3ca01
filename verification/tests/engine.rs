use engine_string::engine::{
    create_empty_string, create_string_from_utf8, query_code_unit_length,
    query_is_external_one_byte, query_is_external_two_byte, query_is_one_byte,
    query_utf8_byte_length, register_external_one_byte_static, write_utf8,
};
use engine_string::{HandleScope, Isolate, NewStringType, String, WriteOptions};
use std::rc::Rc;

#[test]
fn the_engine_gives_one_empty_string() {
    let mut isolate = Isolate::new();
    let one = create_empty_string(&mut isolate);
    let other = create_empty_string(&mut isolate);
    assert!(Rc::ptr_eq(&one, &other));
    assert_eq!(query_code_unit_length(&one), 0);
    assert_eq!(query_utf8_byte_length(&one, &mut isolate), 0);
    assert!(query_is_one_byte(&one));
    assert!(!query_is_external_one_byte(&one));
    assert!(!query_is_external_two_byte(&one));
}

#[test]
fn the_engine_reads_only_the_length_it_is_given() {
    let mut isolate = Isolate::new();
    let string = create_string_from_utf8(&mut isolate, b"hello world", 5, NewStringType::Normal).unwrap();
    assert_eq!(query_code_unit_length(&string), 5);
    let cut = create_string_from_utf8(&mut isolate, "h€".as_bytes(), 3, NewStringType::Normal).unwrap();
    assert_eq!(query_code_unit_length(&cut), 2);
    assert_eq!(query_utf8_byte_length(&cut, &mut isolate), 4);
    assert!(!query_is_one_byte(&cut));
}

#[test]
fn no_bytes_make_the_empty_string() {
    let mut isolate = Isolate::new();
    let empty = create_empty_string(&mut isolate);
    let made = create_string_from_utf8(&mut isolate, b"unread", 0, NewStringType::Internalized).unwrap();
    assert!(Rc::ptr_eq(&empty, &made));
}

#[test]
fn the_engine_refuses_what_is_longer_than_its_limit() {
    let mut isolate = Isolate::with_max_string_length(3);
    assert!(create_string_from_utf8(&mut isolate, b"abc", 3, NewStringType::Normal).is_some());
    assert!(create_string_from_utf8(&mut isolate, b"abcd", 4, NewStringType::Normal).is_none());
    assert!(create_string_from_utf8(&mut isolate, b"abcd", 3, NewStringType::Normal).is_some());
    assert!(register_external_one_byte_static(&mut isolate, b"abc", 3).is_some());
    assert!(register_external_one_byte_static(&mut isolate, b"abcd", 4).is_none());
}

#[test]
fn an_external_string_aliases_its_buffer() {
    let data: &'static [u8] = b"static text";
    let mut isolate = Isolate::new();
    let string = register_external_one_byte_static(&mut isolate, data, 6).unwrap();
    assert!(query_is_external_one_byte(&string));
    assert!(query_is_one_byte(&string));
    assert_eq!(query_code_unit_length(&string), 6);
    let mut out = [0xAAu8; 8];
    let mut read = -1;
    let written = write_utf8(&string, &mut isolate, &mut out, 8, &mut read, WriteOptions::no_options());
    assert_eq!((written, read), (7, 6));
    assert_eq!(&out, b"static\0\xAA");
}

#[test]
fn the_engine_writes_no_further_than_the_capacity() {
    let mut isolate = Isolate::new();
    let string = create_string_from_utf8(&mut isolate, b"abcdef", 6, NewStringType::Normal).unwrap();
    let mut out = [0xAAu8; 8];
    let mut read = -1;
    let written = write_utf8(&string, &mut isolate, &mut out, 4, &mut read, WriteOptions::no_options());
    assert_eq!((written, read), (4, 4));
    assert_eq!(&out, b"abcd\xAA\xAA\xAA\xAA");
    let written = write_utf8(&string, &mut isolate, &mut out, 0, &mut read, WriteOptions::no_options());
    assert_eq!((written, read), (0, 0));
    assert_eq!(&out, b"abcd\xAA\xAA\xAA\xAA");
}

#[test]
fn a_scope_binds_what_the_engine_returns() {
    let mut isolate = Isolate::new();
    let mut scope = HandleScope::new(&mut isolate);
    let raw = create_string_from_utf8(&mut scope, b"bound", 5, NewStringType::Normal);
    let handle = scope.cast_local(raw).unwrap();
    assert_eq!(handle.length(), 5);
    assert!(scope.cast_local::<String>(None).is_none());
}

#[test]
fn a_scope_gives_way_to_its_engine() {
    let mut isolate = Isolate::with_max_string_length(7);
    let mut scope = HandleScope::new(&mut isolate);
    assert_eq!(scope.string_length_limit(), 7);
    assert_eq!(scope.isolate.string_length_limit(), 7);
}
