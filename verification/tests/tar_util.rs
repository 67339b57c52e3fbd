use chos_lib::tar::util::{read_ascii_octal_trim, InvalidOctalError};

#[test]
fn read_ascii_octal() {
    let octal = [b'3', b'0', b'0', b'7', b'1'];
    let value = chos_lib::tar::util::read_ascii_octal(&octal).unwrap();
    assert_eq!(value, 12345);
}

#[test]
fn trim_nulls() {
    let b = [1, 2, 3, 4, 5, 0, 0, 0, 0];
    let trimmed = chos_lib::tar::util::trim_nulls(&b);
    assert_eq!(trimmed, &[1, 2, 3, 4, 5]);
}

#[test]
fn trim_nulls_no_nulls() {
    let b = [1, 2, 3, 4, 5];
    let trimmed = chos_lib::tar::util::trim_nulls(&b);
    assert_eq!(trimmed, b);
}

#[test]
fn read_ascii_octal_rejects_non_digit() {
    assert_eq!(chos_lib::tar::util::read_ascii_octal(b"128"), Err(InvalidOctalError));
    assert_eq!(chos_lib::tar::util::read_ascii_octal(b"12 "), Err(InvalidOctalError));
}

#[test]
fn read_ascii_octal_empty_is_zero() {
    assert_eq!(chos_lib::tar::util::read_ascii_octal(b""), Ok(0));
}

#[test]
fn read_ascii_octal_trim_stops_at_zero() {
    assert_eq!(read_ascii_octal_trim(b"0000644\0"), Ok(0o644));
    assert_eq!(read_ascii_octal_trim(b"17\0garbage"), Ok(15));
}

#[test]
fn trim_nulls_leading_zero() {
    let b = [0u8, 1, 2];
    assert_eq!(chos_lib::tar::util::trim_nulls(&b), &[] as &[u8]);
}
