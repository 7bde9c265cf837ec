use blockstream_inspector::codec;
use blockstream_inspector::exporter::Exporter;
use blockstream_inspector::types::{
    BlockLifecycle, GasMetrics, MevIndicators, OrderingMetrics, PbsMetrics, TimingMetrics,
    TransactionMetrics, TypeBreakdown,
};

#[test]
fn test_block_lifecycle_roundtrip() {
    // Create a test block lifecycle
    let block = create_test_block();

    // Verify all components
    assert_eq!(block.block_number, 18000000);
    assert!(block.gas.utilization_bps > 9900);
    assert_eq!(block.transactions.total_count, 247);
    assert!(block.pbs.is_pbs_block);
}

#[test]
fn test_gas_calculations() {
    let block = create_test_block();

    // Verify gas utilization: within 10 basis points of the exact ratio
    let expected_bps = (block.gas.gas_used as u128) * 10000 / (block.gas.gas_limit as u128);
    let diff = if block.gas.utilization_bps > expected_bps {
        block.gas.utilization_bps - expected_bps
    } else {
        expected_bps - block.gas.utilization_bps
    };
    assert!(diff < 10);

    // Wei amounts are unsigned, so the fee fields cannot go negative; check
    // the expected magnitudes instead
    assert!(block.gas.fees_burned_wei > 0);
    assert!(block.gas.priority_fees_wei > 0);
    assert!(block.gas.base_fee_wei > 0);
}

#[test]
fn test_transaction_metrics_consistency() {
    let block = create_test_block();

    // Total transactions should equal sum of types
    let total_by_type = block.transactions.type_breakdown.legacy
        + block.transactions.type_breakdown.eip2930
        + block.transactions.type_breakdown.eip1559
        + block.transactions.type_breakdown.eip4844_blob;

    assert_eq!(block.transactions.total_count, total_by_type);
}

#[test]
fn test_mev_metrics() {
    let block = create_test_block();

    // Counts should be valid
    assert!(block.mev.sandwich_attacks.len() <= 100);
    assert!(block.mev.arbitrage_ops.len() <= 100);
    assert!(block.mev.liquidations <= 100);
    assert!(block.mev.estimated_mev_wei > 0);
}

#[test]
fn test_pbs_detection() {
    let mut block = create_test_block();

    // Test PBS block
    assert!(block.pbs.is_pbs_block);
    assert!(block.pbs.builder_address.is_some());

    // Test non-PBS block
    block.pbs.is_pbs_block = false;
    block.pbs.builder_address = None;
    assert!(!block.pbs.is_pbs_block);
    assert!(block.pbs.builder_address.is_none());
}

#[test]
fn test_serialization_deserialization() {
    let original = create_test_block();

    // Serialize to the flat token form
    let tokens = codec::encode(&original);

    // Deserialize back
    let deserialized: BlockLifecycle = codec::decode(&tokens).unwrap();

    // Verify key fields match
    assert_eq!(original.block_number, deserialized.block_number);
    assert_eq!(original.block_hash, deserialized.block_hash);
    assert_eq!(original.gas.gas_used, deserialized.gas.gas_used);
    assert_eq!(
        original.transactions.total_count,
        deserialized.transactions.total_count
    );
}

#[test]
fn test_codec_roundtrip_all_fields() {
    let original = create_test_block();
    let tokens = codec::encode(&original);
    let back = codec::decode(&tokens).unwrap();

    assert_eq!(original.block_number, back.block_number);
    assert_eq!(original.block_hash, back.block_hash);
    assert_eq!(original.timestamp, back.timestamp);
    assert_eq!(original.proposer, back.proposer);
    assert_eq!(original.builder, back.builder);
    assert_eq!(original.timing.block_time, back.timing.block_time);
    assert_eq!(original.timing.timestamp, back.timing.timestamp);
    assert_eq!(original.timing.propagation_delay, back.timing.propagation_delay);
    assert_eq!(original.gas.gas_used, back.gas.gas_used);
    assert_eq!(original.gas.gas_limit, back.gas.gas_limit);
    assert_eq!(original.gas.utilization_bps, back.gas.utilization_bps);
    assert_eq!(original.gas.base_fee_wei, back.gas.base_fee_wei);
    assert_eq!(original.gas.avg_priority_fee_wei, back.gas.avg_priority_fee_wei);
    assert_eq!(original.gas.fees_burned_wei, back.gas.fees_burned_wei);
    assert_eq!(original.gas.priority_fees_wei, back.gas.priority_fees_wei);
    assert_eq!(original.transactions.total_count, back.transactions.total_count);
    assert_eq!(
        original.transactions.type_breakdown.legacy,
        back.transactions.type_breakdown.legacy
    );
    assert_eq!(
        original.transactions.type_breakdown.eip2930,
        back.transactions.type_breakdown.eip2930
    );
    assert_eq!(
        original.transactions.type_breakdown.eip1559,
        back.transactions.type_breakdown.eip1559
    );
    assert_eq!(
        original.transactions.type_breakdown.eip4844_blob,
        back.transactions.type_breakdown.eip4844_blob
    );
    assert_eq!(
        original.transactions.ordering.sorted_by_priority,
        back.transactions.ordering.sorted_by_priority
    );
    assert_eq!(
        original.transactions.ordering.anomalies,
        back.transactions.ordering.anomalies
    );
    assert_eq!(original.transactions.failed_count, back.transactions.failed_count);
    assert_eq!(original.mev.liquidations, back.mev.liquidations);
    assert_eq!(original.mev.estimated_mev_wei, back.mev.estimated_mev_wei);
    assert_eq!(original.mev.mev_bot_addresses, back.mev.mev_bot_addresses);
    assert_eq!(original.pbs.is_pbs_block, back.pbs.is_pbs_block);
    assert_eq!(original.pbs.builder_address, back.pbs.builder_address);
    assert_eq!(original.pbs.builder_payment_wei, back.pbs.builder_payment_wei);
    assert_eq!(original.pbs.extra_data, back.pbs.extra_data);
}

#[test]
fn test_codec_rejects_damaged_streams() {
    let original = create_test_block();
    let mut tokens = codec::encode(&original);

    // Too short
    tokens.pop();
    assert!(codec::decode(&tokens).is_none());

    // Non-canonical number token
    let mut tokens2 = codec::encode(&original);
    tokens2[0] = "007".to_string();
    assert!(codec::decode(&tokens2).is_none());

    // Non-numeric where a number is expected
    let mut tokens3 = codec::encode(&original);
    tokens3[0] = "latest".to_string();
    assert!(codec::decode(&tokens3).is_none());

    // Empty stream
    let empty: Vec<String> = vec![];
    assert!(codec::decode(&empty).is_none());
}

#[test]
fn test_multiple_blocks_rows() {
    let blocks: Vec<BlockLifecycle> = (0..10)
        .map(|i| {
            let mut block = create_test_block();
            block.block_number = 18000000 + i;
            block
        })
        .collect();

    let rows = Exporter::csv_rows(&blocks);

    // Header + 10 data rows
    assert_eq!(rows.len(), 11);
}

#[test]
fn integration_tests_test_display_formatting() {
    let block = create_test_block();
    let output = block.render();

    // Verify all sections are present
    assert!(output.contains("Block Number"));
    assert!(output.contains("TIMING METRICS"));
    assert!(output.contains("GAS METRICS"));
    assert!(output.contains("TRANSACTIONS"));
    assert!(output.contains("MEV INDICATORS"));
    assert!(output.contains("PBS METRICS"));
}

// Helper function to create a test block
fn create_test_block() -> BlockLifecycle {
    BlockLifecycle {
        block_number: 18000000,
        block_hash: "0x1234567890abcdef".to_string(),
        timestamp: 1698765432,
        proposer: "0xabcdef".to_string(),
        builder: Some("flashbots".to_string()),
        timing: TimingMetrics {
            block_time: 12,
            timestamp: 1698765432,
            propagation_delay: None,
        },
        gas: GasMetrics {
            gas_used: 29834521,
            gas_limit: 30000000,
            utilization_bps: 9945,
            base_fee_wei: 25_340_000_000,
            avg_priority_fee_wei: 1_520_000_000,
            fees_burned_wei: 756_300_000_000_000_000,
            priority_fees_wei: 45_300_000_000_000_000,
        },
        transactions: TransactionMetrics {
            total_count: 247,
            type_breakdown: TypeBreakdown {
                legacy: 12,
                eip2930: 5,
                eip1559: 225,
                eip4844_blob: 5,
            },
            ordering: OrderingMetrics {
                sorted_by_priority: false,
                anomalies: 3,
                avg_deviation: 0,
            },
            failed_count: 3,
        },
        mev: MevIndicators {
            sandwich_attacks: vec![],
            arbitrage_ops: vec![],
            liquidations: 2,
            estimated_mev_wei: 2_345_100_000_000_000_000,
            mev_bot_addresses: vec!["0x123".to_string()],
        },
        pbs: PbsMetrics {
            is_pbs_block: true,
            builder_address: Some("flashbots".to_string()),
            builder_payment_wei: Some(50_000_000_000_000_000),
            extra_data: "flashbots".to_string(),
        },
    }
}
