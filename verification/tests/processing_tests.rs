use line_history::processing::zero_padding;

#[test]
fn zero_padding_test() {
    let result = zero_padding(1, 2);
    assert_eq!(result, "01");

    let result = zero_padding(100_000, 2);
    assert_eq!(result, "100000");
}

#[test]
fn zero_padding_pads_to_width() {
    assert_eq!(zero_padding(3, 3), "003");
    assert_eq!(zero_padding(0, 4), "0000");
    assert_eq!(zero_padding(42, 2), "42");
    assert_eq!(zero_padding(999, 1), "999");
}
