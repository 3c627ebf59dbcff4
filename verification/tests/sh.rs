use cuy::sh::{profraw_path, String};

#[test]
fn fixed_capacity_string() {
    let mut s = String::default();
    assert_eq!(31, s.capacity());
    assert_eq!(b"\0", s.as_bytes_with_nul());
    s.write_str("1234");
    s.write_str(".profraw");
    assert_eq!(b"1234.profraw\0", s.as_bytes_with_nul());
    assert_eq!(31 - 12, s.capacity());
}

#[test]
fn truncates_what_does_not_fit() {
    let mut s = String::default();
    s.write_str("18446744073709551615");
    s.write_str(".profraw.profraw.profraw");
    assert_eq!(0, s.capacity());
    assert_eq!(
        b"18446744073709551615.profraw.pr\0".as_slice(),
        s.as_bytes_with_nul()
    );
    s.write_str("more");
    assert_eq!(32, s.as_bytes_with_nul().len());
}

#[test]
fn coverage_file_names() {
    assert_eq!(b"0.profraw\0", profraw_path(0).as_bytes_with_nul());
    assert_eq!(b"42.profraw\0", profraw_path(42).as_bytes_with_nul());
    assert_eq!(
        b"18446744073709551615.profraw\0".as_slice(),
        profraw_path(u64::MAX).as_bytes_with_nul()
    );
    assert_eq!(31 - 28, profraw_path(u64::MAX).capacity());
}
