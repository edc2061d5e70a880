use uniffi_bindgen::calc_cdylib_name;

#[test]
fn calc_cdylib_name_is_correct() {
    assert_eq!(
        "uniffi",
        calc_cdylib_name("/path/to/libuniffi.so".into()).unwrap()
    );
    assert_eq!(
        "uniffi",
        calc_cdylib_name("/path/to/libuniffi.dylib".into()).unwrap()
    );
    assert_eq!(
        "uniffi",
        calc_cdylib_name("/path/to/uniffi.dll".into()).unwrap()
    );
}

#[test]
fn calc_cdylib_name_strips_lib_prefix_even_for_dll() {
    // Documented limitation: a Windows library legitimately named with a
    // leading `lib` loses that prefix.
    assert_eq!(
        "uniffi",
        calc_cdylib_name("/path/to/libuniffi.dll".into()).unwrap()
    );
}

#[test]
fn calc_cdylib_name_without_extension_is_none() {
    assert!(calc_cdylib_name("/path/to/uniffi.txt").is_none());
    assert!(calc_cdylib_name("/path/to/uniffi").is_none());
    assert!(calc_cdylib_name("/").is_none());
}

#[test]
fn calc_cdylib_name_bare_filename() {
    assert_eq!("uniffi", calc_cdylib_name("libuniffi.so").unwrap());
    assert_eq!("uniffi", calc_cdylib_name("uniffi.dylib").unwrap());
}

#[test]
fn calc_cdylib_name_empty_name_from_bare_extension() {
    // `lib.so` is all prefix and extension; the resolved name is empty.
    assert_eq!("", calc_cdylib_name("lib.so").unwrap());
}
