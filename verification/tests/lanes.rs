use kmerpack::lanes::Lanes;

#[test]
fn lanes_start_cleared() {
    assert_eq!(Lanes::zero().into_tuple(), (0, 0, 0, 0));
}

#[test]
fn lanes_shift_together() {
    let lanes = Lanes::new(1, 2, 3, 0x8000_0000_0000_0000);
    assert_eq!(lanes.shift_left(3).into_tuple(), (8, 16, 24, 0));
    assert_eq!(lanes.shift_left(0), lanes);
}

#[test]
fn lanes_add_without_carrying_across() {
    let lanes = Lanes::new(u64::MAX, 1, 2, 3);
    let sum = lanes.wrapping_add(Lanes::new(1, 10, 20, 30));
    assert_eq!(sum.into_tuple(), (0, 11, 22, 33));
}
