use miners::layout::{
    bit_width, decode_range, encode_range, field_bits, field_offsets, repr_for, BlockRepr, FieldKind,
};

#[test]
fn bit_widths() {
    assert_eq!(bit_width(1), 0);
    assert_eq!(bit_width(2), 1);
    assert_eq!(bit_width(3), 2);
    assert_eq!(bit_width(4), 2);
    assert_eq!(bit_width(6), 3);
    assert_eq!(bit_width(16), 4);
    assert_eq!(bit_width(17), 5);
    assert_eq!(bit_width(0x1_0000_0000), 32);
}

#[test]
fn field_bit_sizes() {
    assert_eq!(field_bits(FieldKind::Variants { count: 6 }), Some(3));
    assert_eq!(field_bits(FieldKind::Variants { count: 4 }), Some(2));
    assert_eq!(field_bits(FieldKind::Range { lo: 0, hi: 16 }), Some(4));
    assert_eq!(field_bits(FieldKind::Range { lo: -3, hi: 5 }), Some(3));
    assert_eq!(field_bits(FieldKind::Unbounded), None);
}

#[test]
fn repr_from_fields() {
    let slab = vec![FieldKind::Variants { count: 6 }, FieldKind::Variants { count: 6 }];
    assert_eq!(repr_for(&slab), BlockRepr::Inline);

    let dust = vec![FieldKind::Variants { count: 4 }, FieldKind::Range { lo: 0, hi: 16 }];
    assert_eq!(repr_for(&dust), BlockRepr::Inline);

    let too_wide = vec![
        FieldKind::Variants { count: 6 },
        FieldKind::Variants { count: 6 },
        FieldKind::Variants { count: 2 },
    ];
    assert_eq!(repr_for(&too_wide), BlockRepr::Heap);

    let chest = vec![FieldKind::Unbounded, FieldKind::Variants { count: 4 }, FieldKind::Unbounded];
    assert_eq!(repr_for(&chest), BlockRepr::Heap);

    assert_eq!(repr_for(&vec![]), BlockRepr::Inline);
}

#[test]
fn range_codes() {
    assert_eq!(encode_range(7, 4, 8), 3);
    assert_eq!(encode_range(8, 4, 8), 0);
    assert_eq!(encode_range(3, 4, 8), 0);
    assert_eq!(decode_range(3, 4), 7);
    assert_eq!(decode_range(0, -2), -2);
}

#[test]
fn offsets_are_running_sums() {
    let dust = vec![FieldKind::Variants { count: 4 }, FieldKind::Range { lo: 0, hi: 16 }];
    assert_eq!(field_offsets(&dust), Some(vec![0, 2]));

    let slab = vec![
        FieldKind::Variants { count: 6 },
        FieldKind::Variants { count: 6 },
        FieldKind::Variants { count: 1 },
        FieldKind::Range { lo: 10, hi: 12 },
    ];
    assert_eq!(field_offsets(&slab), Some(vec![0, 3, 6, 6]));

    let chest = vec![FieldKind::Variants { count: 4 }, FieldKind::Unbounded];
    assert_eq!(field_offsets(&chest), None);
    assert_eq!(field_offsets(&vec![]), Some(vec![]));
}
