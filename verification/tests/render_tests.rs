use coreutils::render::{render_number, NumberFormat};

#[test]
fn right_justified_pads_with_spaces() {
    assert_eq!(render_number(1, 6, NumberFormat::RightJustified), "     1");
    assert_eq!(render_number(42, 6, NumberFormat::RightJustified), "    42");
}

#[test]
fn left_justified_pads_on_the_right() {
    assert_eq!(render_number(1, 6, NumberFormat::LeftJustified), "1     ");
    assert_eq!(render_number(305, 5, NumberFormat::LeftJustified), "305  ");
}

#[test]
fn zero_padded_pads_with_zeros() {
    assert_eq!(
        render_number(1, 6, NumberFormat::RightJustifiedZeroPadded),
        "000001"
    );
    assert_eq!(
        render_number(90210, 6, NumberFormat::RightJustifiedZeroPadded),
        "090210"
    );
}

#[test]
fn wide_values_are_not_truncated() {
    assert_eq!(
        render_number(1234567, 6, NumberFormat::RightJustified),
        "1234567"
    );
    assert_eq!(
        render_number(1234567, 6, NumberFormat::RightJustifiedZeroPadded),
        "1234567"
    );
    assert_eq!(render_number(0, 1, NumberFormat::LeftJustified), "0");
}

#[test]
fn exact_width_needs_no_padding() {
    assert_eq!(render_number(123456, 6, NumberFormat::RightJustified), "123456");
}
