use chos_lib::integer::{
    align_upu64, align_upusize, ceil_divu32, ceil_divu64, ceil_divu8, ceil_log2u64, log2u64,
    next_pow2u64, CeilDiv, IntSplit,
};

#[test]
fn ceil_div_rounds_up() {
    assert_eq!(ceil_divu64(10, 3), 4);
    assert_eq!(ceil_divu64(9, 3), 3);
    assert_eq!(ceil_divu64(0, 7), 0);
    assert_eq!(ceil_divu8(250, 4), 63);
    assert_eq!(ceil_divu32(1, 1), 1);
    assert_eq!(11u64.ceil_div(4), 3);
}

#[test]
fn align_up_multiple() {
    assert_eq!(align_upu64(4097, 4096), 8192);
    assert_eq!(align_upu64(4096, 4096), 4096);
    assert_eq!(align_upusize(1, 512), 512);
    assert_eq!(513usize.align_up(512), 1024);
}

#[test]
fn log2_values() {
    assert_eq!(log2u64(1), 0);
    assert_eq!(log2u64(2), 1);
    assert_eq!(log2u64(3), 1);
    assert_eq!(log2u64(4096), 12);
    assert_eq!(log2u64(u64::MAX), 63);
}

#[test]
fn ceil_log2_values() {
    assert_eq!(ceil_log2u64(1), 0);
    assert_eq!(ceil_log2u64(2), 1);
    assert_eq!(ceil_log2u64(3), 2);
    assert_eq!(ceil_log2u64(4097), 13);
    assert_eq!(ceil_log2u64(1 << 63), 63);
}

#[test]
fn next_pow2_values() {
    assert_eq!(next_pow2u64(1), 1);
    assert_eq!(next_pow2u64(2), 2);
    assert_eq!(next_pow2u64(3), 4);
    assert_eq!(next_pow2u64(1000), 1024);
    assert_eq!(next_pow2u64(1 << 63), 1 << 63);
}

#[test]
fn split_join_round_trip() {
    let x: u64 = 0x1234_5678_9abc_def0;
    let (h, l) = x.split();
    assert_eq!(h, 0x1234_5678);
    assert_eq!(l, 0x9abc_def0);
    assert_eq!(u64::join(h, l), x);
    assert_eq!(0xabcdu16.split(), (0xab, 0xcd));
    assert_eq!(u128::join(1, 2), (1u128 << 64) | 2);
    assert_eq!(u32::join(0xdead, 0xbeef), 0xdead_beef);
}
