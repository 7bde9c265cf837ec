//! Tabular export: one header row plus one row per lifecycle record, every
//! cell an exact decimal or verbatim string, with absent optional fields as
//! empty cells. Writing the rows to a file is the caller's business.

use crate::types::BlockLifecycle;
use crate::units::{
    bool_str, bool_to_string, bps_to_percent_string, dec_str, percent_str, scaled_str,
    u128_to_string, u64_to_string, usize_to_string, wei_to_eth_str, wei_to_gwei_str,
};
use vstd::prelude::*;

verus! {

/// The fixed column set: every `BlockLifecycle` field, flattened one level.
pub open spec fn csv_header_model() -> Seq<Seq<char>> {
    seq![
        "block_number"@,
        "block_hash"@,
        "timestamp"@,
        "proposer"@,
        "builder"@,
        "block_time"@,
        "gas_used"@,
        "gas_limit"@,
        "gas_utilization"@,
        "base_fee_gwei"@,
        "avg_priority_fee_gwei"@,
        "fees_burned_eth"@,
        "priority_fees_eth"@,
        "tx_count"@,
        "tx_legacy"@,
        "tx_eip2930"@,
        "tx_eip1559"@,
        "tx_eip4844"@,
        "tx_failed"@,
        "tx_ordering_anomalies"@,
        "mev_sandwich_attacks"@,
        "mev_arbitrage_ops"@,
        "mev_liquidations"@,
        "mev_estimated_eth"@,
        "mev_bot_count"@,
        "is_pbs_block"@,
        "builder_address"@,
        "extra_data"@,
    ]
}

/// An optional string as a cell: the string itself, or the empty cell.
pub open spec fn opt_cell(o: Option<String>) -> Seq<char> {
    match o {
        Some(s) => s@,
        None => Seq::empty(),
    }
}

/// One record's row: numbers in exact decimal, gwei and ether amounts in
/// exact scaled decimal, the utilization as a two-decimal percentage,
/// strings verbatim, and absent optional fields as empty cells.
pub open spec fn csv_row_model(r: BlockLifecycle) -> Seq<Seq<char>> {
    seq![
        dec_str(r.block_number as nat),
        r.block_hash@,
        dec_str(r.timestamp as nat),
        r.proposer@,
        opt_cell(r.builder),
        dec_str(r.timing.block_time as nat),
        dec_str(r.gas.gas_used as nat),
        dec_str(r.gas.gas_limit as nat),
        percent_str(r.gas.utilization_bps as nat),
        scaled_str(r.gas.base_fee_wei as nat, 9),
        scaled_str(r.gas.avg_priority_fee_wei as nat, 9),
        scaled_str(r.gas.fees_burned_wei as nat, 18),
        scaled_str(r.gas.priority_fees_wei as nat, 18),
        dec_str(r.transactions.total_count as nat),
        dec_str(r.transactions.type_breakdown.legacy as nat),
        dec_str(r.transactions.type_breakdown.eip2930 as nat),
        dec_str(r.transactions.type_breakdown.eip1559 as nat),
        dec_str(r.transactions.type_breakdown.eip4844_blob as nat),
        dec_str(r.transactions.failed_count as nat),
        dec_str(r.transactions.ordering.anomalies as nat),
        dec_str(r.mev.sandwich_attacks@.len()),
        dec_str(r.mev.arbitrage_ops@.len()),
        dec_str(r.mev.liquidations as nat),
        scaled_str(r.mev.estimated_mev_wei as nat, 18),
        dec_str(r.mev.mev_bot_addresses@.len()),
        bool_str(r.pbs.is_pbs_block),
        opt_cell(r.pbs.builder_address),
        r.pbs.extra_data@,
    ]
}

/// Maps lifecycle records to their tabular form.
pub struct Exporter {}

impl Exporter {
    /// The header row.
    pub fn csv_header() -> (h: Vec<String>)
        ensures
            h.deep_view() == csv_header_model(),
            h@.len() == 28,
    {
        let mut h: Vec<String> = Vec::new();
        h.push(String::from_str("block_number"));
        h.push(String::from_str("block_hash"));
        h.push(String::from_str("timestamp"));
        h.push(String::from_str("proposer"));
        h.push(String::from_str("builder"));
        h.push(String::from_str("block_time"));
        h.push(String::from_str("gas_used"));
        h.push(String::from_str("gas_limit"));
        h.push(String::from_str("gas_utilization"));
        h.push(String::from_str("base_fee_gwei"));
        h.push(String::from_str("avg_priority_fee_gwei"));
        h.push(String::from_str("fees_burned_eth"));
        h.push(String::from_str("priority_fees_eth"));
        h.push(String::from_str("tx_count"));
        h.push(String::from_str("tx_legacy"));
        h.push(String::from_str("tx_eip2930"));
        h.push(String::from_str("tx_eip1559"));
        h.push(String::from_str("tx_eip4844"));
        h.push(String::from_str("tx_failed"));
        h.push(String::from_str("tx_ordering_anomalies"));
        h.push(String::from_str("mev_sandwich_attacks"));
        h.push(String::from_str("mev_arbitrage_ops"));
        h.push(String::from_str("mev_liquidations"));
        h.push(String::from_str("mev_estimated_eth"));
        h.push(String::from_str("mev_bot_count"));
        h.push(String::from_str("is_pbs_block"));
        h.push(String::from_str("builder_address"));
        h.push(String::from_str("extra_data"));
        proof {
            assert(h.deep_view() =~= csv_header_model());
        }
        h
    }

    /// One record's row. Absent optional fields become empty cells, never a
    /// textual absence marker.
    pub fn csv_row(r: &BlockLifecycle) -> (row: Vec<String>)
        ensures
            row.deep_view() == csv_row_model(*r),
            row@.len() == 28,
            r.builder is None ==> row.deep_view()[4].len() == 0,
            r.pbs.builder_address is None ==> row.deep_view()[26].len() == 0,
    {
        let mut row: Vec<String> = Vec::new();
        row.push(u64_to_string(r.block_number));
        row.push(r.block_hash.clone());
        row.push(u64_to_string(r.timestamp));
        row.push(r.proposer.clone());
        row.push(opt_string_cell(&r.builder));
        row.push(u64_to_string(r.timing.block_time));
        row.push(u64_to_string(r.gas.gas_used));
        row.push(u64_to_string(r.gas.gas_limit));
        row.push(bps_to_percent_string(r.gas.utilization_bps));
        row.push(wei_to_gwei_str(r.gas.base_fee_wei as u128));
        row.push(wei_to_gwei_str(r.gas.avg_priority_fee_wei));
        row.push(wei_to_eth_str(r.gas.fees_burned_wei));
        row.push(wei_to_eth_str(r.gas.priority_fees_wei));
        row.push(usize_to_string(r.transactions.total_count));
        row.push(usize_to_string(r.transactions.type_breakdown.legacy));
        row.push(usize_to_string(r.transactions.type_breakdown.eip2930));
        row.push(usize_to_string(r.transactions.type_breakdown.eip1559));
        row.push(usize_to_string(r.transactions.type_breakdown.eip4844_blob));
        row.push(usize_to_string(r.transactions.failed_count));
        row.push(usize_to_string(r.transactions.ordering.anomalies));
        row.push(usize_to_string(r.mev.sandwich_attacks.len()));
        row.push(usize_to_string(r.mev.arbitrage_ops.len()));
        row.push(usize_to_string(r.mev.liquidations));
        row.push(wei_to_eth_str(r.mev.estimated_mev_wei));
        row.push(usize_to_string(r.mev.mev_bot_addresses.len()));
        row.push(bool_to_string(r.pbs.is_pbs_block));
        row.push(opt_string_cell(&r.pbs.builder_address));
        row.push(r.pbs.extra_data.clone());
        proof {
            assert(row.deep_view() =~= csv_row_model(*r));
        }
        row
    }

    /// The whole table: the header row, then one row per record, in order.
    pub fn csv_rows(results: &Vec<BlockLifecycle>) -> (rows: Vec<Vec<String>>)
        ensures
            rows@.len() == results@.len() + 1,
            rows.deep_view()[0] == csv_header_model(),
            forall|i: int|
                0 <= i < results@.len() ==> rows.deep_view()[i + 1] == csv_row_model(
                    #[trigger] results@[i],
                ),
            forall|i: int| 0 <= i < rows@.len() ==> (#[trigger] rows@[i])@.len() == 28,
    {
        let mut rows: Vec<Vec<String>> = Vec::new();
        rows.push(Self::csv_header());
        let n = results.len();
        let mut i: usize = 0;
        while i < n
            invariant
                n == results@.len(),
                0 <= i <= n,
                rows@.len() == i + 1,
                rows.deep_view()[0] == csv_header_model(),
                forall|k: int|
                    0 <= k < i ==> rows.deep_view()[k + 1] == csv_row_model(
                        #[trigger] results@[k],
                    ),
                forall|k: int| 0 <= k < rows@.len() ==> (#[trigger] rows@[k])@.len() == 28,
            decreases n - i,
        {
            rows.push(Self::csv_row(&results[i]));
            i = i + 1;
        }
        rows
    }
}

/// An optional string as a cell value: a copy of the string, or empty.
fn opt_string_cell(o: &Option<String>) -> (s: String)
    ensures
        s@ == opt_cell(*o),
{
    match o {
        Some(v) => v.clone(),
        None => String::new(),
    }
}

} // verus!
