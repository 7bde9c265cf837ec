//! Data model: the block and transaction inputs the pipeline reads, and the
//! `BlockLifecycle` record tree it produces.
//!
//! All on-chain amounts are integer wei. Per-gas fees fit in a `u64` (a fee
//! above 2^64 - 1 wei per gas unit is far beyond anything a real chain
//! produces); aggregate sums use `u128`.

use crate::units::{dec_str, percent_str, scaled_str};
use vstd::prelude::*;

verus! {

/// One transaction of a block, reduced to the plain values the analysis
/// reads: sender, optional recipient, value, gas limit, optional per-gas
/// fee declarations and the protocol-type discriminant.
#[derive(Debug, Clone)]
pub struct Transaction {
    pub hash: String,
    pub from: String,
    pub to: Option<String>,
    /// Transferred value in wei.
    pub value: u128,
    /// Gas limit of this transaction.
    pub gas: u64,
    /// Declared maximum fee per gas unit, in wei.
    pub max_fee_per_gas: Option<u64>,
    /// Declared maximum priority fee per gas unit, in wei.
    pub max_priority_fee_per_gas: Option<u64>,
    /// Protocol type discriminant: 0 legacy, 1 access-list, 2 fee-market,
    /// 3 blob-carrying. Anything else, or absence, counts as legacy.
    pub transaction_type: Option<u64>,
}

/// One block as supplied by the fetch collaborator: header fields, gas
/// accounting and the ordered transaction list. Immutable once built.
#[derive(Debug, Clone)]
pub struct Block {
    pub number: u64,
    pub hash: String,
    pub timestamp: u64,
    pub gas_used: u64,
    pub gas_limit: u64,
    /// Base fee per gas unit in wei; absent on pre-fee-market blocks.
    pub base_fee_per_gas: Option<u64>,
    /// Producer (proposer) address.
    pub author: String,
    /// Free-form extra-metadata bytes, often carrying builder information.
    pub extra_data: Vec<u8>,
    pub transactions: Vec<Transaction>,
}

impl Block {
    /// Magnitude bounds under which every aggregate the analysis computes
    /// fits in a `u128`: no block holds more than 2^32 transactions, and no
    /// transaction declares a gas limit above 2^32 - 1 (real blocks stay
    /// many orders of magnitude below both).
    pub open spec fn wf(&self) -> bool {
        &&& self.transactions@.len() <= 0x1_0000_0000
        &&& forall|i: int|
            0 <= i < self.transactions@.len() ==> self.transactions@[i].gas <= 0xffff_ffffu64
    }
}

/// Timing of a block relative to its predecessor.
#[derive(Debug, Clone)]
pub struct TimingMetrics {
    /// Production time in seconds since the previous block; 0 when no
    /// predecessor is available.
    pub block_time: u64,
    /// Timestamp of this block, in seconds.
    pub timestamp: u64,
    /// Estimated propagation delay in seconds; always absent, as no
    /// network-level timing source exists.
    pub propagation_delay: Option<u64>,
}

/// Gas accounting derived from one block's header and transaction list.
#[derive(Debug, Clone)]
pub struct GasMetrics {
    pub gas_used: u64,
    pub gas_limit: u64,
    /// Utilization in hundredths of a percent (basis points):
    /// `gas_used * 10000 / gas_limit`, rounded down; 0 when `gas_limit` is 0.
    pub utilization_bps: u128,
    /// Base fee per gas unit in wei; 0 when the block declares none.
    pub base_fee_wei: u64,
    /// Sum of declared priority fees divided by the count of transactions
    /// declaring one, in wei per gas unit; 0 when none declares one.
    pub avg_priority_fee_wei: u128,
    /// Base fee times gas used, in wei; 0 when the block declares no base fee.
    pub fees_burned_wei: u128,
    /// Sum of declared priority fees per gas unit across all transactions,
    /// in wei.
    pub priority_fees_wei: u128,
}

/// Transaction composition and ordering analysis of one block.
#[derive(Debug, Clone)]
pub struct TransactionMetrics {
    pub total_count: usize,
    pub type_breakdown: TypeBreakdown,
    pub ordering: OrderingMetrics,
    /// Failed transactions; always 0, as no receipt data is consulted.
    pub failed_count: usize,
}

/// Per-protocol-type transaction counts.
#[derive(Debug, Clone)]
pub struct TypeBreakdown {
    pub legacy: usize,
    pub eip2930: usize,
    pub eip1559: usize,
    pub eip4844_blob: usize,
}

impl TypeBreakdown {
    /// Sum of the four buckets.
    pub open spec fn total(&self) -> int {
        self.legacy + self.eip2930 + self.eip1559 + self.eip4844_blob
    }
}

/// Whether the block's transactions are ordered by descending priority fee.
#[derive(Debug, Clone)]
pub struct OrderingMetrics {
    pub sorted_by_priority: bool,
    /// Number of adjacent pairs where the later transaction declares a
    /// strictly greater priority fee than the earlier one.
    pub anomalies: usize,
    /// Average position deviation; a placeholder, always 0.
    pub avg_deviation: u64,
}

/// Heuristic MEV findings for one block.
#[derive(Debug, Clone)]
pub struct MevIndicators {
    /// Sandwich-attack findings; the heuristic never populates this list.
    pub sandwich_attacks: Vec<SandwichAttack>,
    /// Arbitrage findings; the heuristic never populates this list.
    pub arbitrage_ops: Vec<ArbitrageOp>,
    /// Liquidations detected; always 0 in this heuristic.
    pub liquidations: usize,
    /// Estimated extracted value: the sum of priority fee times gas limit,
    /// in wei, over transactions sent by known extractive actors.
    pub estimated_mev_wei: u128,
    /// Senders recognized in the known-actor registry that transact more
    /// than once within the block, in order of first appearance.
    pub mev_bot_addresses: Vec<String>,
}

/// A sandwich-attack finding: a victim transaction enclosed by a front-run
/// and a back-run from the same actor.
#[derive(Debug, Clone)]
pub struct SandwichAttack {
    pub frontrun_tx: String,
    pub victim_tx: String,
    pub backrun_tx: String,
    pub estimated_profit_wei: u128,
    pub dex: String,
}

/// An arbitrage finding: one transaction swapping along a token path across
/// one or more exchanges.
#[derive(Debug, Clone)]
pub struct ArbitrageOp {
    pub tx_hash: String,
    /// Token swap path.
    pub path: Vec<String>,
    pub estimated_profit_wei: u128,
    pub dexes_involved: Vec<String>,
}

/// Proposer-builder-separation attribution for one block.
#[derive(Debug, Clone)]
pub struct PbsMetrics {
    pub is_pbs_block: bool,
    /// Builder identity: the full decoded metadata string when a known
    /// builder fragment matches, absent otherwise.
    pub builder_address: Option<String>,
    /// Estimated builder payment in wei; never computed, always absent.
    pub builder_payment_wei: Option<u128>,
    /// The block's extra-metadata bytes decoded as text, lossily.
    pub extra_data: String,
}

/// The pipeline's product: one immutable record aggregating identity,
/// timing, gas, transaction, MEV and PBS analysis of a single block.
#[derive(Debug, Clone)]
pub struct BlockLifecycle {
    pub block_number: u64,
    pub block_hash: String,
    pub timestamp: u64,
    /// Producer (proposer) address.
    pub proposer: String,
    /// Builder identity, taken from the PBS analysis.
    pub builder: Option<String>,
    pub timing: TimingMetrics,
    pub gas: GasMetrics,
    pub transactions: TransactionMetrics,
    pub mev: MevIndicators,
    pub pbs: PbsMetrics,
}

impl BlockLifecycle {
    /// The record's internal consistency: per-type counts sum to the total
    /// count, and the fields this design never populates are at their
    /// documented defaults.
    pub open spec fn consistent(&self) -> bool {
        &&& self.transactions.type_breakdown.total() == self.transactions.total_count
        &&& self.transactions.ordering.sorted_by_priority <==> self.transactions.ordering.anomalies
            == 0
        &&& self.transactions.ordering.avg_deviation == 0
        &&& self.transactions.failed_count == 0
        &&& self.mev.sandwich_attacks@.len() == 0
        &&& self.mev.arbitrage_ops@.len() == 0
        &&& self.mev.liquidations == 0
        &&& self.timing.propagation_delay is None
        &&& self.pbs.builder_payment_wei is None
    }

    /// The text `render` produces: a multi-section, human-readable account
    /// of the record, numbers in exact decimal.
    pub open spec fn render_model(self) -> Seq<char> {
        "\n===================================================\n"@
            + "Block Number: "@ + dec_str(self.block_number as nat) + "\n"@
            + "Block Hash: "@ + self.block_hash@ + "\n"@
            + "Timestamp: "@ + dec_str(self.timestamp as nat) + "\n"@
            + "===================================================\n"@
            + "\nTIMING METRICS\n"@
            + "  Block Time: "@ + dec_str(self.timing.block_time as nat) + "s\n"@
            + "\nGAS METRICS\n"@
            + "  Gas Used: "@ + dec_str(self.gas.gas_used as nat) + " / "@
            + dec_str(self.gas.gas_limit as nat) + " ("@
            + percent_str(self.gas.utilization_bps as nat) + "%)\n"@
            + "  Base Fee: "@ + scaled_str(self.gas.base_fee_wei as nat, 9) + " gwei\n"@
            + "  Avg Priority Fee: "@ + scaled_str(self.gas.avg_priority_fee_wei as nat, 9)
            + " gwei\n"@
            + "  Fees Burned: "@ + scaled_str(self.gas.fees_burned_wei as nat, 18) + " ETH\n"@
            + "  Priority Fees: "@ + scaled_str(self.gas.priority_fees_wei as nat, 18) + " ETH\n"@
            + "\nTRANSACTIONS\n"@
            + "  Total: "@ + dec_str(self.transactions.total_count as nat) + "\n"@
            + "  Failed: "@ + dec_str(self.transactions.failed_count as nat) + "\n"@
            + "  Types: Legacy("@ + dec_str(self.transactions.type_breakdown.legacy as nat)
            + "), EIP-2930("@ + dec_str(self.transactions.type_breakdown.eip2930 as nat)
            + "), EIP-1559("@ + dec_str(self.transactions.type_breakdown.eip1559 as nat)
            + "), EIP-4844("@ + dec_str(self.transactions.type_breakdown.eip4844_blob as nat)
            + ")\n"@
            + "\nMEV INDICATORS\n"@
            + "  Sandwich Attacks: "@ + dec_str(self.mev.sandwich_attacks@.len()) + "\n"@
            + "  Arbitrage Ops: "@ + dec_str(self.mev.arbitrage_ops@.len()) + "\n"@
            + "  Liquidations: "@ + dec_str(self.mev.liquidations as nat) + "\n"@
            + "  Estimated MEV: "@ + scaled_str(self.mev.estimated_mev_wei as nat, 18) + " ETH\n"@
            + "\nPBS METRICS\n"@
            + "  PBS Block: "@ + (if self.pbs.is_pbs_block { "Yes"@ } else { "No"@ }) + "\n"@
            + (match self.pbs.builder_address {
                Some(b) => "  Builder: "@ + b@ + "\n"@,
                None => Seq::empty(),
            })
    }

    /// Renders the record for human reading, grouping fields under timing,
    /// gas, transaction, MEV and PBS headings.
    pub fn render(&self) -> (s: String)
        ensures
            s@ == self.render_model(),
    {
        let mut s = String::from_str("\n===================================================\n");
        s.append("Block Number: ");
        s.append(crate::units::u64_to_string(self.block_number).as_str());
        s.append("\n");
        s.append("Block Hash: ");
        s.append(self.block_hash.as_str());
        s.append("\n");
        s.append("Timestamp: ");
        s.append(crate::units::u64_to_string(self.timestamp).as_str());
        s.append("\n");
        s.append("===================================================\n");
        s.append("\nTIMING METRICS\n");
        s.append("  Block Time: ");
        s.append(crate::units::u64_to_string(self.timing.block_time).as_str());
        s.append("s\n");
        s.append("\nGAS METRICS\n");
        s.append("  Gas Used: ");
        s.append(crate::units::u64_to_string(self.gas.gas_used).as_str());
        s.append(" / ");
        s.append(crate::units::u64_to_string(self.gas.gas_limit).as_str());
        s.append(" (");
        s.append(crate::units::bps_to_percent_string(self.gas.utilization_bps).as_str());
        s.append("%)\n");
        s.append("  Base Fee: ");
        s.append(crate::units::wei_to_gwei_str(self.gas.base_fee_wei as u128).as_str());
        s.append(" gwei\n");
        s.append("  Avg Priority Fee: ");
        s.append(crate::units::wei_to_gwei_str(self.gas.avg_priority_fee_wei).as_str());
        s.append(" gwei\n");
        s.append("  Fees Burned: ");
        s.append(crate::units::wei_to_eth_str(self.gas.fees_burned_wei).as_str());
        s.append(" ETH\n");
        s.append("  Priority Fees: ");
        s.append(crate::units::wei_to_eth_str(self.gas.priority_fees_wei).as_str());
        s.append(" ETH\n");
        s.append("\nTRANSACTIONS\n");
        s.append("  Total: ");
        s.append(crate::units::usize_to_string(self.transactions.total_count).as_str());
        s.append("\n");
        s.append("  Failed: ");
        s.append(crate::units::usize_to_string(self.transactions.failed_count).as_str());
        s.append("\n");
        s.append("  Types: Legacy(");
        s.append(crate::units::usize_to_string(self.transactions.type_breakdown.legacy).as_str());
        s.append("), EIP-2930(");
        s.append(crate::units::usize_to_string(self.transactions.type_breakdown.eip2930).as_str());
        s.append("), EIP-1559(");
        s.append(crate::units::usize_to_string(self.transactions.type_breakdown.eip1559).as_str());
        s.append("), EIP-4844(");
        s.append(
            crate::units::usize_to_string(self.transactions.type_breakdown.eip4844_blob).as_str(),
        );
        s.append(")\n");
        s.append("\nMEV INDICATORS\n");
        s.append("  Sandwich Attacks: ");
        s.append(crate::units::usize_to_string(self.mev.sandwich_attacks.len()).as_str());
        s.append("\n");
        s.append("  Arbitrage Ops: ");
        s.append(crate::units::usize_to_string(self.mev.arbitrage_ops.len()).as_str());
        s.append("\n");
        s.append("  Liquidations: ");
        s.append(crate::units::usize_to_string(self.mev.liquidations).as_str());
        s.append("\n");
        s.append("  Estimated MEV: ");
        s.append(crate::units::wei_to_eth_str(self.mev.estimated_mev_wei).as_str());
        s.append(" ETH\n");
        s.append("\nPBS METRICS\n");
        s.append("  PBS Block: ");
        if self.pbs.is_pbs_block {
            s.append("Yes");
        } else {
            s.append("No");
        }
        s.append("\n");
        match &self.pbs.builder_address {
            Some(b) => {
                s.append("  Builder: ");
                s.append(b.as_str());
                s.append("\n");
            },
            None => {},
        }
        proof {
            assert(s@ =~= self.render_model());
        }
        s
    }
}

} // verus!
