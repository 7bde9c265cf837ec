use blockstream_inspector::analyzer::BlockAnalyzer;
use blockstream_inspector::units::{wei_to_eth_str, wei_to_gwei_str};

#[test]
fn test_wei_to_eth_conversion() {
    // 1 ETH = 10^18 wei
    let one_eth: u128 = 1_000_000_000_000_000_000;
    let result: f64 = wei_to_eth_str(one_eth).parse().unwrap();
    assert!((result - 1.0).abs() < 0.001);

    // 0.5 ETH
    let half_eth: u128 = 500_000_000_000_000_000;
    let result: f64 = wei_to_eth_str(half_eth).parse().unwrap();
    assert!((result - 0.5).abs() < 0.001);

    // Zero
    let result: f64 = wei_to_eth_str(0).parse().unwrap();
    assert_eq!(result, 0.0);
}

#[test]
fn test_wei_to_gwei_conversion() {
    // 1 gwei = 10^9 wei
    let one_gwei: u128 = 1_000_000_000;
    let result: f64 = wei_to_gwei_str(one_gwei).parse().unwrap();
    assert!((result - 1.0).abs() < 0.001);

    // 50 gwei
    let fifty_gwei: u128 = 50_000_000_000;
    let result: f64 = wei_to_gwei_str(fifty_gwei).parse().unwrap();
    assert!((result - 50.0).abs() < 0.001);

    // Zero
    let result: f64 = wei_to_gwei_str(0).parse().unwrap();
    assert_eq!(result, 0.0);
}

#[test]
fn test_is_known_mev_bot() {
    let analyzer = BlockAnalyzer::with_default_registry();

    // Known MEV bot
    assert!(analyzer.is_known_mev_bot("0x0000000000007f150bd6f54c40a34d7c3d5e9f56"));
    assert!(analyzer.is_known_mev_bot("0xa57bd00134b2850b2a1c55860c9e9ea100fdd6cf"));

    // Unknown address
    assert!(!analyzer.is_known_mev_bot("0x1234567890abcdef1234567890abcdef12345678"));

    // Case insensitive
    assert!(analyzer.is_known_mev_bot("0X0000000000007F150BD6F54C40A34D7C3D5E9F56"));
}

#[test]
fn test_large_wei_amounts() {
    // Test with very large amounts: 1000 ETH
    let large_amount: u128 = 1_000_000_000_000_000_000_000;
    let result: f64 = wei_to_eth_str(large_amount).parse().unwrap();
    assert!((result - 1000.0).abs() < 0.001);
}

#[test]
fn test_wei_string_exact_forms() {
    // Whole amounts render without a fractional part
    assert_eq!(wei_to_eth_str(1_000_000_000_000_000_000), "1");
    assert_eq!(wei_to_gwei_str(50_000_000_000), "50");

    // Fractions render exactly, with trailing zeros trimmed
    assert_eq!(wei_to_eth_str(500_000_000_000_000_000), "0.5");
    assert_eq!(wei_to_eth_str(42_000_000_000_000), "0.000042");
    assert_eq!(wei_to_eth_str(756_300_000_000_000_000), "0.7563");
    assert_eq!(wei_to_gwei_str(25_340_000_000), "25.34");
    assert_eq!(wei_to_eth_str(1), "0.000000000000000001");
    assert_eq!(wei_to_eth_str(1_234_500_000_000_000_001), "1.234500000000000001");
}
