use bert::{staged_file_name, ModuleError};

#[test]
fn staged_name_joins_file_pid_and_time() {
    let name = staged_file_name(Some("libbase.so"), 4242, 1_700_000_000_123_456_789);
    assert_eq!(name.unwrap(), "libbase.so_4242_1700000000123456789");
}

#[test]
fn staged_name_with_zeros() {
    assert_eq!(staged_file_name(Some("m"), 0, 0).unwrap(), "m_0_0");
    assert_eq!(staged_file_name(Some(""), 7, 10).unwrap(), "_7_10");
    assert_eq!(staged_file_name(Some("a_b"), 100, 1009).unwrap(), "a_b_100_1009");
}

#[test]
fn staged_name_at_the_limits() {
    let name = staged_file_name(Some("x.so"), u32::MAX, u128::MAX).unwrap();
    assert_eq!(name, "x.so_4294967295_340282366920938463463374607431768211455");
    assert_eq!(name, format!("{}_{}_{}", "x.so", u32::MAX, u128::MAX));
}

#[test]
fn staged_name_keeps_other_scripts() {
    assert_eq!(staged_file_name(Some("modül.so"), 9, 99).unwrap(), "modül.so_9_99");
}

#[test]
fn staged_names_differ_by_time() {
    let a = staged_file_name(Some("lib.so"), 1, 11).unwrap();
    let b = staged_file_name(Some("lib.so"), 11, 1).unwrap();
    let c = staged_file_name(Some("lib.so"), 1, 12).unwrap();
    assert_ne!(a, b);
    assert_ne!(a, c);
}

#[test]
fn path_without_file_name_is_invalid_input() {
    match staged_file_name(None, 1, 2) {
        Err(ModuleError::Io(e)) => {
            assert_eq!(e.kind(), std::io::ErrorKind::InvalidInput);
            assert_eq!(e.to_string(), "Invalid file path");
        }
        _ => panic!("expected an I/O error"),
    }
}
