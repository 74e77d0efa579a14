//! Byte-string utilities: concatenation, comparison, and parsing.

use nix_ld::args::parse_env;
use nix_ld::cstr::{bcmp, bytes_eq, check_cstr, concat_slices, find_byte, memcmp, memcpy, memset, starts_with, subvec};

#[test]
fn test_const_concat() {
    let parts = vec![b"NIX_LD_".to_vec(), b"x86_64_linux".to_vec()];
    let result = concat_slices(&parts);
    assert_eq!(result, b"NIX_LD_x86_64_linux".to_vec());
}

#[test]
fn test_const_concat_slices() {
    let parts = vec![
        b"/run/current-system/sw/share/nix-ld/lib/ld.so".to_vec(),
        b"\0".to_vec(),
    ];
    let result = concat_slices(&parts);
    assert_eq!(
        result,
        b"/run/current-system/sw/share/nix-ld/lib/ld.so\0".to_vec()
    );
}

#[test]
fn test_multiple_concat() {
    let parts = vec![
        b"NIX_".to_vec(),
        b"LD_".to_vec(),
        b"LIBRARY_".to_vec(),
        b"PATH".to_vec(),
    ];
    let result = concat_slices(&parts);
    assert_eq!(result, b"NIX_LD_LIBRARY_PATH".to_vec());
}

#[test]
fn test_bytes_eq_and_starts_with() {
    assert!(bytes_eq(&b"abc".to_vec(), &b"abc".to_vec()));
    assert!(!bytes_eq(&b"abc".to_vec(), &b"abd".to_vec()));
    assert!(!bytes_eq(&b"abc".to_vec(), &b"ab".to_vec()));
    assert!(starts_with(&b"NIX_LD=1".to_vec(), &b"NIX_LD".to_vec()));
    assert!(!starts_with(&b"NIX".to_vec(), &b"NIX_LD".to_vec()));
}

#[test]
fn test_find_byte_and_subvec() {
    let v = b"name=value".to_vec();
    assert_eq!(find_byte(&v, b'='), Some(4));
    assert_eq!(find_byte(&v, b'!'), None);
    assert_eq!(subvec(&v, 0, 4), b"name".to_vec());
    assert_eq!(subvec(&v, 5, 10), b"value".to_vec());
}

#[test]
fn test_parse_env_splits_at_first_equals() {
    let s = b"NIX_LD=/some=path\0".to_vec();
    let (name, value_c) = parse_env(&s).unwrap();
    assert_eq!(name, b"NIX_LD".to_vec());
    assert_eq!(value_c, b"/some=path\0".to_vec());
    assert!(parse_env(&b"NOEQUALS\0".to_vec()).is_none());
}

#[test]
fn test_check_cstr() {
    assert!(check_cstr(&b"abc\0".to_vec()));
    assert!(check_cstr(&b"\0".to_vec()));
    assert!(!check_cstr(&b"abc".to_vec()));
    assert!(!check_cstr(&b"a\0b\0".to_vec()));
    assert!(!check_cstr(&Vec::new()));
}

#[test]
fn test_memcmp_first_difference() {
    let a = b"abcx".to_vec();
    let b = b"abcy".to_vec();
    assert_eq!(memcmp(&a, &b, 3), 0);
    assert_eq!(memcmp(&a, &b, 4), (b'x' as i32) - (b'y' as i32));
    assert_eq!(bcmp(&a, &b, 4), (b'x' as i32) - (b'y' as i32));
}

#[test]
fn test_memcpy_and_memset() {
    let mut dst = b"xxxxxx".to_vec();
    memcpy(&mut dst, &b"abcd".to_vec(), 4);
    assert_eq!(dst, b"abcdxx".to_vec());
    memset(&mut dst, 0, 2);
    assert_eq!(dst, b"\0\0cdxx".to_vec());
}
