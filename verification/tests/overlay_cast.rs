use prim_overlay::abs_diff;
use prim_overlay::convert::convert_bytes;
use prim_overlay::convert::convert_u128;
use prim_overlay::convert::AsPrimitiveTyPair;
use prim_overlay::layout::padded_align;
use prim_overlay::layout::padded_size;
use prim_overlay::layout::padding;
use prim_overlay::layout::PrimLayout;
use prim_overlay::le_bytes::le_bytes_of_u128;
use prim_overlay::le_bytes::u128_of_le_bytes;
use prim_overlay::max;
use prim_overlay::overlay::ZeroEndianPaddedUnion;
use prim_overlay::padded::PaddedPrimInt;

fn u8_u16_union_of_5() -> ZeroEndianPaddedUnion {
    ZeroEndianPaddedUnion::new_l(vec![5], PrimLayout::of_u8(), PrimLayout::of_u16())
}

#[test]
fn union_addr_leq_both_l_addr_and_r_addr() {
    let union_ = u8_u16_union_of_5();
    let union_addr = union_.addr();
    assert!(union_addr <= union_.l_addr());
    assert!(union_addr <= union_.r_addr());
}

#[test]
fn abs_diff_of_union_addr_and_l_addr_eq_0_when_on_le() {
    let union_ = u8_u16_union_of_5();
    assert_eq!(abs_diff(union_.addr(), union_.l_addr()), 0);
}

#[test]
fn union_addr_eq_l_addr_when_on_le() {
    let union_ = u8_u16_union_of_5();
    assert_eq!(union_.addr(), union_.l_addr());
}

#[test]
fn abs_diff_of_l_addr_and_r_addr_eq_0_when_on_le() {
    let union_ = u8_u16_union_of_5();
    assert_eq!(abs_diff(union_.l_addr(), union_.r_addr()), 0);
}

#[test]
fn l_addr_eq_r_addr_when_on_le() {
    let union_ = u8_u16_union_of_5();
    assert_eq!(union_.l_addr(), union_.r_addr());
}

#[test]
fn parameterized_padded_prim_int_has_equal_size_regardless_of_type_order() {
    assert_eq!(
        padded_size(PrimLayout::of_u8(), PrimLayout::of_u16()),
        padded_size(PrimLayout::of_u16(), PrimLayout::of_u8())
    );
}

#[test]
fn parameterized_padded_prim_int_has_equal_alignment_regardless_of_type_order() {
    assert_eq!(
        padded_align(PrimLayout::of_u8(), PrimLayout::of_u16()),
        padded_align(PrimLayout::of_u16(), PrimLayout::of_u8())
    );
}

#[test]
fn it_works_when_demoting() {
    assert_eq!(<(u16, u8) as AsPrimitiveTyPair>::as_(5u16), 5u8);
}

#[test]
fn it_works_when_promoting() {
    assert_eq!(<(u8, u16) as AsPrimitiveTyPair>::as_(5u8), 5u16);
}

#[test]
fn max_picks_the_larger_operand() {
    assert_eq!(max(3, 7), 7);
    assert_eq!(max(7, 3), 7);
    assert_eq!(max(4, 4), 4);
}

#[test]
fn abs_diff_is_symmetric_on_examples() {
    assert_eq!(abs_diff(9, 2), 7);
    assert_eq!(abs_diff(2, 9), 7);
    assert_eq!(abs_diff(5, 5), 0);
}

#[test]
fn padding_is_zero_for_naturally_aligned_pairs() {
    assert_eq!(padding(PrimLayout::of_u8(), PrimLayout::of_u16()), 0);
    assert_eq!(padding(PrimLayout::of_u16(), PrimLayout::of_u8()), 0);
    assert_eq!(padding(PrimLayout::of_u8(), PrimLayout::of_u8()), 0);
}

#[test]
fn padding_fills_the_smaller_rounded_size_up_to_the_larger() {
    // an eight-byte type that a target aligns to only four bytes
    let wide = PrimLayout { size: 8, align: 4 };
    let narrow = PrimLayout { size: 4, align: 4 };
    assert_eq!(padding(narrow, wide), 4);
    assert_eq!(padding(wide, narrow), 0);
    assert_eq!(padded_size(narrow, wide), 8);
}

#[test]
fn padded_footprint_of_a_u8_u16_pair_is_two_bytes_aligned_to_two() {
    assert_eq!(padded_size(PrimLayout::of_u8(), PrimLayout::of_u16()), 2);
    assert_eq!(padded_align(PrimLayout::of_u8(), PrimLayout::of_u16()), 2);
}

#[test]
fn padded_value_round_trips_its_value_bytes() {
    let padded = PaddedPrimInt::new(vec![44, 1], PrimLayout::of_u16(), PrimLayout::of_u8());
    assert_eq!(padded.to_value(), vec![44, 1]);
    assert_eq!(padded.size(), 2);
    assert_eq!(padded.align(), 2);
}

#[test]
fn left_interpretation_reads_back_the_written_value() {
    let union_ = u8_u16_union_of_5();
    assert_eq!(union_.l().to_value(), vec![5]);
}

#[test]
fn right_interpretation_shares_size_and_alignment_with_left() {
    let union_ = u8_u16_union_of_5();
    assert_eq!(union_.l().size(), union_.r().size());
    assert_eq!(union_.l().align(), union_.r().align());
}

#[test]
fn promotion_window_has_zero_high_bytes() {
    let out = convert_bytes(vec![255], PrimLayout::of_u8(), PrimLayout::of_u16());
    assert_eq!(out, vec![255, 0]);
}

#[test]
fn demotion_window_keeps_the_low_bytes() {
    let out = convert_bytes(vec![44, 1], PrimLayout::of_u16(), PrimLayout::of_u8());
    assert_eq!(out, vec![44]);
}

#[test]
fn le_bytes_round_trip_through_a_value() {
    let bytes = le_bytes_of_u128(300, 2);
    assert_eq!(bytes, vec![44, 1]);
    assert_eq!(u128_of_le_bytes(&bytes), 300);
}

#[test]
fn demoting_truncates_modulo_the_narrow_range() {
    assert_eq!(<(u16, u8) as AsPrimitiveTyPair>::as_(300u16), 44u8);
}

#[test]
fn promoting_zero_extends_instead_of_sign_extending() {
    assert_eq!(<(u8, u16) as AsPrimitiveTyPair>::as_(255u8), 255u16);
}

#[test]
fn converting_a_type_to_itself_is_the_identity() {
    assert_eq!(<(u8, u8) as AsPrimitiveTyPair>::as_(7u8), 7u8);
    assert_eq!(<(u16, u16) as AsPrimitiveTyPair>::as_(300u16), 300u16);
}

#[test]
fn promoting_then_demoting_returns_the_original() {
    for v in [0u8, 5u8, 44u8, 255u8] {
        let wide = <(u8, u16) as AsPrimitiveTyPair>::as_(v);
        assert_eq!(<(u16, u8) as AsPrimitiveTyPair>::as_(wide), v);
    }
}

#[test]
fn wider_pairs_follow_the_same_window_rule() {
    assert_eq!(<(u8, u32) as AsPrimitiveTyPair>::as_(255u8), 255u32);
    assert_eq!(<(u32, u8) as AsPrimitiveTyPair>::as_(0x12345u32), 0x45u8);
    assert_eq!(<(u16, u32) as AsPrimitiveTyPair>::as_(300u16), 300u32);
    assert_eq!(<(u32, u16) as AsPrimitiveTyPair>::as_(0x123456u32), 0x3456u16);
    assert_eq!(<(u8, u64) as AsPrimitiveTyPair>::as_(7u8), 7u64);
    assert_eq!(<(u64, u8) as AsPrimitiveTyPair>::as_(0x0102030405060708u64), 8u8);
    assert_eq!(<(u128, u8) as AsPrimitiveTyPair>::as_(0x1ffu128), 0xffu8);
    assert_eq!(<(u8, u128) as AsPrimitiveTyPair>::as_(9u8), 9u128);
}

#[test]
fn layout_driven_conversion_reduces_modulo_the_window() {
    assert_eq!(convert_u128(300, PrimLayout::of_u16(), PrimLayout::of_u8()), 44);
    assert_eq!(convert_u128(300, PrimLayout::of_u16(), PrimLayout::of_u32()), 300);
    assert_eq!(convert_u128(300, PrimLayout::of_u16(), PrimLayout::of_u16()), 300);
}

#[test]
fn demoting_then_promoting_loses_the_high_byte() {
    let narrow = <(u16, u8) as AsPrimitiveTyPair>::as_(300u16);
    let back = <(u8, u16) as AsPrimitiveTyPair>::as_(narrow);
    assert_ne!(back, 300u16);
    assert_eq!(back, 44u16);
}
