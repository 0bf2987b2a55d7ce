use eth_wallet::units::{
    eth_parts_to_wei, parse_eth_amount, wei_to_eth_parts, wei_to_eth_string, WEI_PER_ETH,
};

#[test]
fn one_and_a_half_ether_in_wei() {
    assert_eq!(parse_eth_amount("1.5"), Some(1_500_000_000_000_000_000u128));
}

#[test]
fn whole_number_amounts() {
    assert_eq!(parse_eth_amount("0"), Some(0));
    assert_eq!(parse_eth_amount("1"), Some(WEI_PER_ETH));
    assert_eq!(parse_eth_amount("42"), Some(42 * WEI_PER_ETH));
}

#[test]
fn fractional_amounts_are_exact() {
    assert_eq!(parse_eth_amount("0.000000000000000001"), Some(1));
    assert_eq!(parse_eth_amount("0.1"), Some(100_000_000_000_000_000));
    assert_eq!(parse_eth_amount("2.25"), Some(2_250_000_000_000_000_000));
}

#[test]
fn malformed_amounts_are_rejected() {
    assert_eq!(parse_eth_amount(""), None);
    assert_eq!(parse_eth_amount("."), None);
    assert_eq!(parse_eth_amount(".5"), None);
    assert_eq!(parse_eth_amount("1."), None);
    assert_eq!(parse_eth_amount("1.2.3"), None);
    assert_eq!(parse_eth_amount("-1"), None);
    assert_eq!(parse_eth_amount("1e5"), None);
    assert_eq!(parse_eth_amount("one"), None);
    // Nineteen fractional digits are beyond the smallest unit.
    assert_eq!(parse_eth_amount("0.0000000000000000001"), None);
}

#[test]
fn oversized_amounts_are_rejected() {
    // 39 nines of whole ether exceed the 128-bit smallest-unit range.
    let huge = "999999999999999999999999999999999999999";
    assert_eq!(parse_eth_amount(huge), None);
}

#[test]
fn display_rendering_is_exact() {
    assert_eq!(wei_to_eth_string(0), "0.000000000000000000");
    assert_eq!(wei_to_eth_string(WEI_PER_ETH), "1.000000000000000000");
    assert_eq!(
        wei_to_eth_string(1_500_000_000_000_000_000),
        "1.500000000000000000"
    );
    assert_eq!(wei_to_eth_string(1), "0.000000000000000001");
}

#[test]
fn display_roundtrip_is_exact() {
    for wei in [0u128, 1, 999, WEI_PER_ETH, WEI_PER_ETH + 1, 123_456_789_000_000_000_123] {
        let shown = wei_to_eth_string(wei);
        assert_eq!(parse_eth_amount(&shown), Some(wei));
    }
}

#[test]
fn parts_split_and_recombine() {
    let (whole, frac) = wei_to_eth_parts(2_500_000_000_000_000_000);
    assert_eq!(whole, 2);
    assert_eq!(frac, 500_000_000_000_000_000);
    assert_eq!(eth_parts_to_wei(whole, frac), Some(2_500_000_000_000_000_000));
    assert_eq!(eth_parts_to_wei(u128::MAX, 1), None);
}
