use hunspell_rs::{list_to_vec, Error, NativeStringList};

#[test]
fn decode_zero_count_null_pointer() {
    let l = NativeStringList { list_is_null: true, count: 0, entries: Vec::new() };
    assert_eq!(list_to_vec(l), Ok(Vec::new()));
}

#[test]
fn decode_zero_count_nonnull_pointer() {
    let l = NativeStringList { list_is_null: false, count: 0, entries: Vec::new() };
    assert_eq!(list_to_vec(l), Ok(Vec::new()));
}

#[test]
fn decode_negative_count() {
    let l = NativeStringList { list_is_null: false, count: -1, entries: Vec::new() };
    assert_eq!(list_to_vec(l), Err(Error::NegativeListLength(-1)));
}

#[test]
fn decode_null_list_with_nonzero_count() {
    let l = NativeStringList { list_is_null: true, count: 2, entries: Vec::new() };
    assert_eq!(list_to_vec(l), Err(Error::NullPtr));
}

#[test]
fn decode_null_list_with_negative_count() {
    let l = NativeStringList { list_is_null: true, count: -2, entries: Vec::new() };
    assert_eq!(list_to_vec(l), Err(Error::NullPtr));
}

#[test]
fn decode_elements_in_order() {
    let l = NativeStringList {
        list_is_null: false,
        count: 2,
        entries: vec![Some(b"cat".to_vec()), Some(b"cats".to_vec())],
    };
    assert_eq!(list_to_vec(l), Ok(vec!["cat".to_string(), "cats".to_string()]));
}

#[test]
fn decode_multibyte_element() {
    let l = NativeStringList {
        list_is_null: false,
        count: 1,
        entries: vec![Some("h\u{e9}llo".as_bytes().to_vec())],
    };
    assert_eq!(list_to_vec(l), Ok(vec!["h\u{e9}llo".to_string()]));
}

#[test]
fn decode_null_element() {
    let l = NativeStringList {
        list_is_null: false,
        count: 2,
        entries: vec![Some(b"cat".to_vec()), None],
    };
    assert_eq!(list_to_vec(l), Err(Error::NullPtr));
}

#[test]
fn decode_invalid_utf8_element() {
    let l = NativeStringList {
        list_is_null: false,
        count: 1,
        entries: vec![Some(vec![0xff, 0xfe])],
    };
    assert_eq!(list_to_vec(l), Err(Error::Utf8Error));
}

#[test]
fn decode_reports_first_bad_element() {
    let l = NativeStringList {
        list_is_null: false,
        count: 3,
        entries: vec![Some(b"ok".to_vec()), None, Some(vec![0xff])],
    };
    assert_eq!(list_to_vec(l), Err(Error::NullPtr));
}
