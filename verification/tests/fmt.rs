use chos_lib::fmt::{fmt_bytes, ByteUnit, Bytes, SizeWriter};

#[test]
fn size_writer() {
    fn test_one(args: String, expected: usize) {
        let mut w = SizeWriter::new();
        w.write_str(&args).unwrap();
        assert_eq!(w.size(), expected, "Failed for '{}'", args);
    }
    test_one(format!(""), 0);
    test_one(format!("hello"), 5);
    test_one(format!("{}", 1), 1);
    test_one(format!("{:b}+{:#x}", 10, 16), 9);
    test_one(format!("hello {}", "world"), 11);
}

#[test]
fn size_writer_accumulates() {
    let mut w = SizeWriter::new();
    w.write_str("ab").unwrap();
    w.write_str("cde").unwrap();
    assert_eq!(w.size(), 5);
}

#[test]
fn bytes_split_units() {
    assert_eq!(Bytes(0).split(), (0, 0, 0, 0));
    assert_eq!(Bytes(1023).split(), (0, 0, 0, 1023));
    assert_eq!(Bytes(1024).split(), (0, 0, 1, 0));
    assert_eq!(Bytes(3 * 1024 * 1024 * 1024 + 2 * 1024 * 1024 + 5 * 1024 + 7).split(), (3, 2, 5, 7));
}

#[test]
fn fmt_bytes_parts() {
    assert_eq!(fmt_bytes(Bytes(7)), vec![(7, ByteUnit::B)]);
    assert_eq!(fmt_bytes(Bytes(2048)), vec![(2, ByteUnit::KiB), (0, ByteUnit::B)]);
    assert_eq!(
        fmt_bytes(Bytes(1024 * 1024 + 3)),
        vec![(1, ByteUnit::MiB), (0, ByteUnit::KiB), (3, ByteUnit::B)]
    );
    assert_eq!(
        fmt_bytes(Bytes(5 * 1024 * 1024 * 1024 + 1)),
        vec![(5, ByteUnit::GiB), (0, ByteUnit::MiB), (0, ByteUnit::KiB), (1, ByteUnit::B)]
    );
}
