use blockstream_inspector::exporter::Exporter;
use blockstream_inspector::types::{
    BlockLifecycle, GasMetrics, MevIndicators, OrderingMetrics, PbsMetrics, TimingMetrics,
    TransactionMetrics, TypeBreakdown,
};

fn create_test_block() -> BlockLifecycle {
    BlockLifecycle {
        block_number: 18000000,
        block_hash: "0x1234567890abcdef".to_string(),
        timestamp: 1698765432,
        proposer: "0xabcdef".to_string(),
        builder: Some("flashbots".to_string()),
        timing: TimingMetrics {
            block_time: 12,
            timestamp: 1698765432,
            propagation_delay: None,
        },
        gas: GasMetrics {
            gas_used: 29834521,
            gas_limit: 30000000,
            utilization_bps: 9945,
            base_fee_wei: 25_340_000_000,
            avg_priority_fee_wei: 1_520_000_000,
            fees_burned_wei: 756_300_000_000_000_000,
            priority_fees_wei: 45_300_000_000_000_000,
        },
        transactions: TransactionMetrics {
            total_count: 247,
            type_breakdown: TypeBreakdown {
                legacy: 12,
                eip2930: 5,
                eip1559: 225,
                eip4844_blob: 5,
            },
            ordering: OrderingMetrics {
                sorted_by_priority: false,
                anomalies: 3,
                avg_deviation: 0,
            },
            failed_count: 3,
        },
        mev: MevIndicators {
            sandwich_attacks: vec![],
            arbitrage_ops: vec![],
            liquidations: 2,
            estimated_mev_wei: 2_345_100_000_000_000_000,
            mev_bot_addresses: vec!["0x123".to_string()],
        },
        pbs: PbsMetrics {
            is_pbs_block: true,
            builder_address: Some("flashbots".to_string()),
            builder_payment_wei: Some(50_000_000_000_000_000),
            extra_data: "flashbots".to_string(),
        },
    }
}

#[test]
fn test_export_single_block() {
    let blocks = vec![create_test_block()];

    let rows = Exporter::csv_rows(&blocks);
    assert_eq!(rows.len(), 2);

    let flat = rows.concat().join(",");
    assert!(flat.contains("block_number"));
    assert!(flat.contains("18000000"));
    assert!(flat.contains("flashbots"));
}

#[test]
fn test_export_multiple_blocks() {
    let mut blocks = vec![create_test_block()];
    let mut block2 = create_test_block();
    block2.block_number = 18000001;
    blocks.push(block2);

    let rows = Exporter::csv_rows(&blocks);

    // Should have header + 2 data rows
    assert_eq!(rows.len(), 3);
    let flat = rows.concat().join(",");
    assert!(flat.contains("18000000"));
    assert!(flat.contains("18000001"));
}

#[test]
fn test_csv_headers() {
    let blocks = vec![create_test_block()];

    let rows = Exporter::csv_rows(&blocks);
    let header = &rows[0];

    // Check essential headers
    assert!(header.contains(&"block_number".to_string()));
    assert!(header.contains(&"gas_used".to_string()));
    assert!(header.contains(&"mev_estimated_eth".to_string()));
    assert!(header.contains(&"is_pbs_block".to_string()));
    assert_eq!(header.len(), 28);
}

#[test]
fn test_csv_data_integrity() {
    let blocks = vec![create_test_block()];

    let rows = Exporter::csv_rows(&blocks);
    let data_row = &rows[1];

    // Verify key data points are present
    assert!(data_row.contains(&"29834521".to_string())); // gas_used
    assert!(data_row.contains(&"99.45".to_string())); // utilization
    assert!(data_row.contains(&"true".to_string())); // is_pbs_block
}

#[test]
fn test_empty_export() {
    let blocks: Vec<BlockLifecycle> = vec![];

    let rows = Exporter::csv_rows(&blocks);

    // Should still have headers
    assert_eq!(rows.len(), 1);
    assert!(rows[0].contains(&"block_number".to_string()));
}

#[test]
fn test_export_with_none_values() {
    let mut block = create_test_block();
    block.builder = None;
    block.pbs.builder_address = None;

    let blocks = vec![block];
    let rows = Exporter::csv_rows(&blocks);
    let data_row = &rows[1];

    // Empty cells for absent values, never a textual absence marker
    assert_eq!(data_row[4], "");
    assert_eq!(data_row[26], "");
    assert!(!data_row.iter().any(|c| c == "null" || c == "None"));
}

#[test]
fn test_export_numeric_fields_match_source() {
    let block = create_test_block();
    let rows = Exporter::csv_rows(&vec![block.clone()]);
    let row = &rows[1];

    assert_eq!(row[0], block.block_number.to_string());
    assert_eq!(row[1], block.block_hash);
    assert_eq!(row[2], block.timestamp.to_string());
    assert_eq!(row[3], block.proposer);
    assert_eq!(row[5], block.timing.block_time.to_string());
    assert_eq!(row[6], block.gas.gas_used.to_string());
    assert_eq!(row[7], block.gas.gas_limit.to_string());
    assert_eq!(row[9], "25.34"); // base fee in gwei
    assert_eq!(row[10], "1.52"); // average priority fee in gwei
    assert_eq!(row[11], "0.7563"); // fees burned in ether
    assert_eq!(row[12], "0.0453"); // priority fees in ether
    assert_eq!(row[13], "247");
    assert_eq!(row[23], "2.3451"); // estimated MEV in ether
    assert_eq!(row[24], "1"); // recognized actor count
    assert_eq!(row[27], block.pbs.extra_data);
}
