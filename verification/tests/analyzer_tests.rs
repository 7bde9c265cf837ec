use blockstream_inspector::analyzer::{parse_block_id, summarize_mev, BlockAnalyzer, BlockId};
use blockstream_inspector::types::{Block, Transaction};
use blockstream_inspector::units::wei_to_eth_str;

fn tx(from: &str, priority_fee: Option<u64>, gas: u64, tx_type: Option<u64>) -> Transaction {
    Transaction {
        hash: "0xt".to_string(),
        from: from.to_string(),
        to: None,
        value: 0,
        gas,
        max_fee_per_gas: priority_fee.map(|f| f + 10),
        max_priority_fee_per_gas: priority_fee,
        transaction_type: tx_type,
    }
}

fn block_with(transactions: Vec<Transaction>) -> Block {
    Block {
        number: 18000000,
        hash: "0xhash".to_string(),
        timestamp: 1698765432,
        gas_used: 29834521,
        gas_limit: 30000000,
        base_fee_per_gas: Some(25_340_000_000),
        author: "0xproposer".to_string(),
        extra_data: b"flashbots relay".to_vec(),
        transactions,
    }
}

#[test]
fn test_ordering_anomaly_two_transactions() {
    // Transaction B's priority fee exceeds A's: one anomaly, not sorted
    let analyzer = BlockAnalyzer::with_default_registry();
    let txs = vec![
        tx("0xa", Some(1_000_000_000), 21000, Some(2)),
        tx("0xb", Some(2_000_000_000), 21000, Some(2)),
    ];
    let ordering = analyzer.analyze_tx_ordering(&txs);
    assert!(!ordering.sorted_by_priority);
    assert_eq!(ordering.anomalies, 1);

    // The descending order is sorted
    let txs = vec![
        tx("0xa", Some(2_000_000_000), 21000, Some(2)),
        tx("0xb", Some(1_000_000_000), 21000, Some(2)),
    ];
    let ordering = analyzer.analyze_tx_ordering(&txs);
    assert!(ordering.sorted_by_priority);
    assert_eq!(ordering.anomalies, 0);

    // Absent fees count as sorted by default
    let txs = vec![tx("0xa", None, 21000, None), tx("0xb", Some(5), 21000, Some(2))];
    let ordering = analyzer.analyze_tx_ordering(&txs);
    assert!(ordering.sorted_by_priority);
    assert_eq!(ordering.anomalies, 0);

    // Zero and one transaction are sorted by default
    assert!(analyzer.analyze_tx_ordering(&vec![]).sorted_by_priority);
    assert!(analyzer.analyze_tx_ordering(&vec![tx("0xa", Some(1), 21000, None)]).sorted_by_priority);
}

#[test]
fn test_type_counts_sum_to_total() {
    let analyzer = BlockAnalyzer::with_default_registry();
    let block = block_with(vec![
        tx("0xa", None, 21000, Some(0)),
        tx("0xb", None, 21000, Some(1)),
        tx("0xc", None, 21000, Some(2)),
        tx("0xd", None, 21000, Some(3)),
        tx("0xe", None, 21000, None),
        tx("0xf", None, 21000, Some(7)),
    ]);
    let metrics = analyzer.analyze_transactions(&block);
    assert_eq!(metrics.total_count, 6);
    assert_eq!(metrics.type_breakdown.legacy, 3); // type 0, absent, unrecognized
    assert_eq!(metrics.type_breakdown.eip2930, 1);
    assert_eq!(metrics.type_breakdown.eip1559, 1);
    assert_eq!(metrics.type_breakdown.eip4844_blob, 1);
    let sum = metrics.type_breakdown.legacy
        + metrics.type_breakdown.eip2930
        + metrics.type_breakdown.eip1559
        + metrics.type_breakdown.eip4844_blob;
    assert_eq!(sum, metrics.total_count);
    assert_eq!(metrics.failed_count, 0);
}

#[test]
fn test_gas_metrics_exact() {
    let analyzer = BlockAnalyzer::with_default_registry();
    let block = block_with(vec![
        tx("0xa", Some(3), 21000, Some(2)),
        tx("0xb", Some(4), 21000, Some(2)),
        tx("0xc", None, 21000, Some(0)),
    ]);
    let gas = analyzer.calculate_gas_metrics(&block);
    assert_eq!(gas.gas_used, 29834521);
    assert_eq!(gas.gas_limit, 30000000);
    // 29834521 / 30000000 * 10000, rounded down
    assert_eq!(gas.utilization_bps, 9944);
    assert_eq!(gas.base_fee_wei, 25_340_000_000);
    // The raw summed integer is divided by the declaring count first: (3 + 4) / 2
    assert_eq!(gas.avg_priority_fee_wei, 3);
    assert_eq!(gas.priority_fees_wei, 7);
    assert_eq!(gas.fees_burned_wei, 25_340_000_000u128 * 29834521u128);
}

#[test]
fn test_gas_metrics_degenerate_inputs() {
    let analyzer = BlockAnalyzer::with_default_registry();
    let mut block = block_with(vec![]);
    block.gas_limit = 0;
    block.base_fee_per_gas = None;
    let gas = analyzer.calculate_gas_metrics(&block);
    // Zero gas limit yields zero utilization rather than a non-numeric value
    assert_eq!(gas.utilization_bps, 0);
    assert_eq!(gas.base_fee_wei, 0);
    assert_eq!(gas.avg_priority_fee_wei, 0);
    assert_eq!(gas.fees_burned_wei, 0);
    assert_eq!(gas.priority_fees_wei, 0);
}

#[test]
fn test_pbs_detection_from_metadata() {
    let analyzer = BlockAnalyzer::with_default_registry();

    let block = block_with(vec![]);
    let pbs = analyzer.analyze_pbs(&block);
    assert!(pbs.is_pbs_block);
    assert_eq!(pbs.builder_address, Some("flashbots relay".to_string()));
    assert_eq!(pbs.extra_data, "flashbots relay");
    assert!(pbs.builder_payment_wei.is_none());

    // Case-insensitive match
    let mut block = block_with(vec![]);
    block.extra_data = b"Built by FLASHBOTS".to_vec();
    let pbs = analyzer.analyze_pbs(&block);
    assert!(pbs.is_pbs_block);
    assert_eq!(pbs.builder_address, Some("Built by FLASHBOTS".to_string()));

    // No known fragment
    let mut block = block_with(vec![]);
    block.extra_data = b"geth".to_vec();
    let pbs = analyzer.analyze_pbs(&block);
    assert!(!pbs.is_pbs_block);
    assert!(pbs.builder_address.is_none());
    assert_eq!(pbs.extra_data, "geth");
}

#[test]
fn test_pbs_metadata_lossy_decoding() {
    let analyzer = BlockAnalyzer::with_default_registry();
    let mut block = block_with(vec![]);
    let mut bytes = vec![0xff];
    bytes.extend_from_slice(b"rsync");
    block.extra_data = bytes;
    let pbs = analyzer.analyze_pbs(&block);
    // The invalid byte decodes to the replacement character; the fragment
    // still matches and the builder identity is the whole decoded string
    assert!(pbs.is_pbs_block);
    assert_eq!(pbs.extra_data, "\u{fffd}rsync");
    assert_eq!(pbs.builder_address, Some("\u{fffd}rsync".to_string()));
}

#[test]
fn test_block_time_without_predecessor() {
    let analyzer = BlockAnalyzer::with_default_registry();
    let block = block_with(vec![]);
    let lifecycle = analyzer.analyze_block(&block, None);
    assert_eq!(lifecycle.timing.block_time, 0);

    let lifecycle = analyzer.analyze_block(&block, Some(block.timestamp - 12));
    assert_eq!(lifecycle.timing.block_time, 12);
    assert_eq!(lifecycle.timing.timestamp, block.timestamp);
    assert!(lifecycle.timing.propagation_delay.is_none());
}

#[test]
fn test_estimated_mev_value() {
    let analyzer = BlockAnalyzer::with_default_registry();
    let bot = "0x0000000000007f150bd6f54c40a34d7c3d5e9f56";
    // Priority fee of 2 gwei over a 21000 gas limit
    let block = block_with(vec![tx(bot, Some(2_000_000_000), 21000, Some(2))]);
    let mev = analyzer.detect_mev_indicators(&block);
    assert_eq!(mev.estimated_mev_wei, 42_000_000_000_000);
    assert_eq!(wei_to_eth_str(mev.estimated_mev_wei), "0.000042");
    // One transaction only: no repeated sender, so no recognized-actor entry
    assert!(mev.mev_bot_addresses.is_empty());
    assert!(mev.sandwich_attacks.is_empty());
    assert!(mev.arbitrage_ops.is_empty());
    assert_eq!(mev.liquidations, 0);
}

#[test]
fn test_recognized_actor_list() {
    let analyzer = BlockAnalyzer::with_default_registry();
    let bot = "0x0000000000007f150bd6f54c40a34d7c3d5e9f56";
    let other = "0x1234567890abcdef1234567890abcdef12345678";
    let block = block_with(vec![
        tx(bot, Some(1_000_000_000), 21000, Some(2)),
        tx(other, Some(1_000_000_000), 21000, Some(2)),
        tx(other, None, 21000, Some(2)),
        tx(bot, Some(1_000_000_000), 21000, Some(2)),
    ]);
    let mev = analyzer.detect_mev_indicators(&block);
    // The registry actor transacts twice: recorded once; the unknown
    // repeated sender is not
    assert_eq!(mev.mev_bot_addresses, vec![bot.to_string()]);
    // Both of the actor's declared fees contribute
    assert_eq!(mev.estimated_mev_wei, 2 * 1_000_000_000u128 * 21000u128);
}

#[test]
fn test_analyze_block_assembles_components() {
    let analyzer = BlockAnalyzer::with_default_registry();
    let block = block_with(vec![
        tx("0xa", Some(2_000_000_000), 21000, Some(2)),
        tx("0xb", Some(1_000_000_000), 21000, Some(0)),
    ]);
    let lifecycle = analyzer.analyze_block(&block, Some(block.timestamp - 12));
    assert_eq!(lifecycle.block_number, block.number);
    assert_eq!(lifecycle.block_hash, block.hash);
    assert_eq!(lifecycle.proposer, block.author);
    assert_eq!(lifecycle.transactions.total_count, 2);
    assert_eq!(lifecycle.transactions.type_breakdown.legacy, 1);
    assert_eq!(lifecycle.transactions.type_breakdown.eip1559, 1);
    assert!(lifecycle.transactions.ordering.sorted_by_priority);
    assert!(lifecycle.pbs.is_pbs_block);
    // The top-level builder field mirrors the PBS attribution
    assert_eq!(lifecycle.builder, lifecycle.pbs.builder_address);
}

#[test]
fn test_parse_block_id() {
    assert_eq!(parse_block_id("latest"), Some(BlockId::Latest));
    assert_eq!(parse_block_id("18000000"), Some(BlockId::Number(18000000)));
    assert_eq!(parse_block_id("0"), Some(BlockId::Number(0)));
    assert_eq!(parse_block_id(""), None);
    assert_eq!(parse_block_id("0x12"), None);
    assert_eq!(parse_block_id("12.5"), None);
    assert_eq!(parse_block_id("99999999999999999999"), None); // beyond u64
    assert_eq!(
        parse_block_id("18446744073709551615"),
        Some(BlockId::Number(u64::MAX))
    );
}

#[test]
fn test_summarize_mev() {
    let analyzer = BlockAnalyzer::with_default_registry();
    let bot = "0x0000000000007f150bd6f54c40a34d7c3d5e9f56";
    let mut results = Vec::new();
    for fee in [1_000_000_000u64, 2_000_000_000, 3_000_000_000] {
        let block = block_with(vec![tx(bot, Some(fee), 21000, Some(2))]);
        results.push(analyzer.analyze_block(&block, None));
    }
    // Contributions: 21, 42 and 63 millionths of an ether
    let threshold: u128 = 42_000_000_000_000;
    let (hits, total) = summarize_mev(&results, threshold);
    assert_eq!(hits, 2);
    assert_eq!(total, 42_000_000_000_000 + 63_000_000_000_000);
}

#[test]
fn test_registry_construction() {
    let custom = BlockAnalyzer::new(
        vec!["0xdeadbeef".to_string()],
        vec!["mybuilder".to_string()],
    );
    let analyzer = custom.expect("ASCII registries are accepted");
    assert!(analyzer.is_known_mev_bot("0xDEADBEEF"));
    assert!(!analyzer.is_known_mev_bot("0xdeadbeef00"));

    // A non-ASCII entry is rejected
    let bad = BlockAnalyzer::new(vec!["0xdead\u{00e9}".to_string()], vec![]);
    assert!(bad.is_none());
}
