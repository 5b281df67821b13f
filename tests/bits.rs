use miners::bits::Bits;

#[test]
fn get_range() {
    let bits = Bits::<6>::new(0b0011_1111);

    assert_eq!(bits.get::<0, 1>(), 0b0000_0001);
    assert_eq!(bits.get::<0, 4>(), 0b0000_1111);
    assert_eq!(bits.get::<0, 6>(), 0b0011_1111);
    assert_eq!(bits.get::<4, 6>(), 0b0000_0011);

    let bits = Bits::<6>::new(0b0010_1010);

    assert_eq!(bits.get::<0, 1>(), 0b0000_0001);
    assert_eq!(bits.get::<0, 4>(), 0b0000_1010);
    assert_eq!(bits.get::<0, 6>(), 0b0010_1010);
    assert_eq!(bits.get::<4, 6>(), 0b0000_0010);
}

#[test]
fn clip_new() {
    let bits = Bits::<6>::new(0b1111_1111);

    assert_eq!(bits.inner(), 0b0011_1111);

    let bits = Bits::<6>::new(0b1100_1100);

    assert_eq!(bits.inner(), 0b0000_1100);
}

#[test]
fn set_range() {
    let mut bits = Bits::<6>::new(0b0011_1111);

    bits.set::<0, 2>(0b0000_0010);
    assert_eq!(bits.inner(), 0b0010_1111);

    bits.set::<2, 6>(0b0010_1010);
    assert_eq!(bits.inner(), 0b0010_1010);

    let mut bits = Bits::<6>::new(0);

    bits.set::<0, 6>(0xff);
    assert_eq!(bits.inner(), 0b0011_1111);
}

#[test]
fn full_byte_and_single_bit_fields() {
    let bits = Bits::<8>::new(0b1010_0101);
    assert_eq!(bits.inner(), 0b1010_0101);
    assert_eq!(bits.get::<0, 1>(), 1);
    assert_eq!(bits.get::<7, 8>(), 1);
    assert_eq!(bits.get::<1, 4>(), 0b010);

    let bits = Bits::<1>::new(0b11);
    assert_eq!(bits.inner(), 1);
    assert_eq!(bits.get::<0, 1>(), 1);
}

#[test]
fn set_keeps_other_bits() {
    let mut bits = Bits::<6>::new(0b0010_0110);
    bits.set::<2, 4>(0b01);
    assert_eq!(bits.inner(), 0b0010_0110);
    bits.set::<2, 4>(0b10);
    assert_eq!(bits.inner(), 0b0010_1010);
    assert_eq!(bits.get::<2, 4>(), 0b10);
    assert_eq!(bits.get::<0, 2>(), 0b10);
    assert_eq!(bits.get::<4, 6>(), 0b10);
}
