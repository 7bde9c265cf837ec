//! The block analysis pipeline: gas metrics, transaction-type composition
//! and ordering, heuristic MEV indicators, PBS attribution, and the
//! assembler that combines them into one `BlockLifecycle` record.
//!
//! Every transformation here is pure and deterministic over its inputs and
//! the injected known-actor and known-builder registries.

use crate::text::{
    contains_frag, contains_frag_ci, eq_fold_ascii, folded_eq, utf8_lossy, utf8_lossy_of,
};
use crate::types::{
    Block, BlockLifecycle, GasMetrics, MevIndicators, OrderingMetrics, PbsMetrics, TimingMetrics,
    Transaction, TransactionMetrics, TypeBreakdown,
};
use crate::units::{all_digits, dec_val, parse_u64};
use vstd::prelude::*;
use vstd::utf8::is_ascii_chars;

verus! {

/// Transactions declaring protocol type 1 (access-list).
pub open spec fn is_access_list(t: Transaction) -> bool {
    t.transaction_type == Some(1u64)
}

/// Transactions declaring protocol type 2 (fee-market).
pub open spec fn is_fee_market(t: Transaction) -> bool {
    t.transaction_type == Some(2u64)
}

/// Transactions declaring protocol type 3 (blob-carrying).
pub open spec fn is_blob(t: Transaction) -> bool {
    t.transaction_type == Some(3u64)
}

/// Everything else counts as legacy: type 0, an absent type, and any
/// unrecognized discriminant.
pub open spec fn is_legacy(t: Transaction) -> bool {
    !is_access_list(t) && !is_fee_market(t) && !is_blob(t)
}

pub open spec fn count_legacy(s: Seq<Transaction>) -> int
    decreases s.len(),
{
    if s.len() == 0 {
        0
    } else {
        count_legacy(s.drop_last()) + if is_legacy(s.last()) {
            1int
        } else {
            0int
        }
    }
}

pub open spec fn count_access_list(s: Seq<Transaction>) -> int
    decreases s.len(),
{
    if s.len() == 0 {
        0
    } else {
        count_access_list(s.drop_last()) + if is_access_list(s.last()) {
            1int
        } else {
            0int
        }
    }
}

pub open spec fn count_fee_market(s: Seq<Transaction>) -> int
    decreases s.len(),
{
    if s.len() == 0 {
        0
    } else {
        count_fee_market(s.drop_last()) + if is_fee_market(s.last()) {
            1int
        } else {
            0int
        }
    }
}

pub open spec fn count_blob(s: Seq<Transaction>) -> int
    decreases s.len(),
{
    if s.len() == 0 {
        0
    } else {
        count_blob(s.drop_last()) + if is_blob(s.last()) {
            1int
        } else {
            0int
        }
    }
}

/// Every transaction falls in exactly one of the four buckets, so the four
/// counts partition the list.
pub proof fn lemma_type_counts_partition(s: Seq<Transaction>)
    ensures
        count_legacy(s) + count_access_list(s) + count_fee_market(s) + count_blob(s) == s.len(),
        0 <= count_legacy(s) <= s.len(),
        0 <= count_access_list(s) <= s.len(),
        0 <= count_fee_market(s) <= s.len(),
        0 <= count_blob(s) <= s.len(),
    decreases s.len(),
{
    if s.len() > 0 {
        lemma_type_counts_partition(s.drop_last());
    }
}

/// Sum of the declared max-priority fees, in wei per gas unit.
pub open spec fn sum_declared_fees(s: Seq<Transaction>) -> int
    decreases s.len(),
{
    if s.len() == 0 {
        0
    } else {
        sum_declared_fees(s.drop_last()) + match s.last().max_priority_fee_per_gas {
            Some(f) => f as int,
            None => 0,
        }
    }
}

/// How many transactions declare a max-priority fee.
pub open spec fn count_declaring(s: Seq<Transaction>) -> int
    decreases s.len(),
{
    if s.len() == 0 {
        0
    } else {
        count_declaring(s.drop_last()) + if s.last().max_priority_fee_per_gas is Some {
            1int
        } else {
            0int
        }
    }
}

/// An ordering anomaly at position `i`: both the transaction before and the
/// one at `i` declare a priority fee, and the later fee is strictly greater.
pub open spec fn anomaly_at(s: Seq<Transaction>, i: int) -> bool {
    &&& s[i - 1].max_priority_fee_per_gas is Some
    &&& s[i].max_priority_fee_per_gas is Some
    &&& s[i].max_priority_fee_per_gas->0 > s[i - 1].max_priority_fee_per_gas->0
}

pub open spec fn anomalies_upto(s: Seq<Transaction>, n: int) -> int
    decreases n,
{
    if n <= 1 {
        0
    } else {
        anomalies_upto(s, n - 1) + if anomaly_at(s, n - 1) {
            1int
        } else {
            0int
        }
    }
}

/// Number of ordering anomalies over the whole list.
pub open spec fn anomaly_count(s: Seq<Transaction>) -> int {
    anomalies_upto(s, s.len() as int)
}

/// The address is recognized by the known-actor registry: it equals one
/// entry after ASCII-lower-folding the address side.
pub open spec fn known_actor(registry: Seq<Seq<char>>, addr: Seq<char>) -> bool {
    exists|k: int| 0 <= k < registry.len() && folded_eq(addr, #[trigger] registry[k])
}

/// Estimated MEV in wei: over every transaction that declares a priority fee
/// and whose sender the registry recognizes, the sum of priority fee times
/// gas limit.
pub open spec fn mev_wei(s: Seq<Transaction>, registry: Seq<Seq<char>>) -> int
    decreases s.len(),
{
    if s.len() == 0 {
        0
    } else {
        mev_wei(s.drop_last(), registry) + {
            let t = s.last();
            match t.max_priority_fee_per_gas {
                Some(f) => if known_actor(registry, t.from@) {
                    f as int * t.gas as int
                } else {
                    0
                },
                None => 0,
            }
        }
    }
}

/// How many transactions of the block `addr` sends.
pub open spec fn sender_count(s: Seq<Transaction>, addr: Seq<char>) -> int
    decreases s.len(),
{
    if s.len() == 0 {
        0
    } else {
        sender_count(s.drop_last(), addr) + if s.last().from@ == addr {
            1int
        } else {
            0int
        }
    }
}

/// No earlier transaction has the same sender.
pub open spec fn first_occurrence(s: Seq<Transaction>, i: int) -> bool {
    forall|j: int| 0 <= j < i ==> (#[trigger] s[j].from)@ != s[i].from@
}

/// Position `i` contributes its sender to the recognized-actor list: it is
/// the sender's first appearance, the sender transacts at least twice in the
/// block, and the registry recognizes it.
pub open spec fn recognized_at(s: Seq<Transaction>, registry: Seq<Seq<char>>, i: int) -> bool {
    &&& first_occurrence(s, i)
    &&& sender_count(s, s[i].from@) >= 2
    &&& known_actor(registry, s[i].from@)
}

pub open spec fn bot_list_upto(s: Seq<Transaction>, registry: Seq<Seq<char>>, n: int) -> Seq<
    Seq<char>,
>
    decreases n,
{
    if n <= 0 {
        Seq::empty()
    } else {
        bot_list_upto(s, registry, n - 1) + if recognized_at(s, registry, n - 1) {
            seq![s[n - 1].from@]
        } else {
            Seq::empty()
        }
    }
}

/// The senders the registry recognizes among those transacting more than
/// once, in order of first appearance.
pub open spec fn bot_list(s: Seq<Transaction>, registry: Seq<Seq<char>>) -> Seq<Seq<char>> {
    bot_list_upto(s, registry, s.len() as int)
}

/// A registry as a sequence of ASCII entries.
pub open spec fn all_ascii(v: Seq<Seq<char>>) -> bool {
    forall|k: int| 0 <= k < v.len() ==> is_ascii_chars(#[trigger] v[k])
}

/// What `GasMetrics` says of the block it was derived from.
pub open spec fn gas_metrics_ok(g: GasMetrics, b: Block) -> bool {
    &&& g.gas_used == b.gas_used
    &&& g.gas_limit == b.gas_limit
    &&& g.utilization_bps == if b.gas_limit == 0 {
        0int
    } else {
        b.gas_used as int * 10000 / b.gas_limit as int
    }
    &&& g.base_fee_wei == match b.base_fee_per_gas {
        Some(f) => f,
        None => 0u64,
    }
    &&& g.avg_priority_fee_wei == if count_declaring(b.transactions@) == 0 {
        0int
    } else {
        sum_declared_fees(b.transactions@) / count_declaring(b.transactions@)
    }
    &&& g.fees_burned_wei == match b.base_fee_per_gas {
        Some(f) => f as int * b.gas_used as int,
        None => 0int,
    }
    &&& g.priority_fees_wei == sum_declared_fees(b.transactions@)
}

/// What `OrderingMetrics` says of the transaction list.
pub open spec fn ordering_ok(o: OrderingMetrics, s: Seq<Transaction>) -> bool {
    &&& o.anomalies == anomaly_count(s)
    &&& o.sorted_by_priority <==> anomaly_count(s) == 0
    &&& o.avg_deviation == 0
}

/// What `TransactionMetrics` says of the transaction list.
pub open spec fn tx_metrics_ok(t: TransactionMetrics, s: Seq<Transaction>) -> bool {
    &&& t.total_count == s.len()
    &&& t.type_breakdown.legacy == count_legacy(s)
    &&& t.type_breakdown.eip2930 == count_access_list(s)
    &&& t.type_breakdown.eip1559 == count_fee_market(s)
    &&& t.type_breakdown.eip4844_blob == count_blob(s)
    &&& ordering_ok(t.ordering, s)
    &&& t.failed_count == 0
}

/// What `MevIndicators` says of the transaction list and the registry.
pub open spec fn mev_ok(m: MevIndicators, s: Seq<Transaction>, registry: Seq<Seq<char>>) -> bool {
    &&& m.sandwich_attacks@.len() == 0
    &&& m.arbitrage_ops@.len() == 0
    &&& m.liquidations == 0
    &&& m.estimated_mev_wei == mev_wei(s, registry)
    &&& m.mev_bot_addresses.deep_view() == bot_list(s, registry)
}

/// A known builder fragment occurs in the metadata bytes.
pub open spec fn builder_hit(data: Seq<u8>, registry: Seq<Seq<char>>) -> bool {
    exists|k: int| 0 <= k < registry.len() && contains_frag(data, #[trigger] registry[k])
}

/// What `PbsMetrics` says of the metadata bytes and the builder registry.
pub open spec fn pbs_ok(p: PbsMetrics, data: Seq<u8>, registry: Seq<Seq<char>>) -> bool {
    &&& p.is_pbs_block == builder_hit(data, registry)
    &&& p.extra_data@ == utf8_lossy_of(data)
    &&& p.is_pbs_block ==> p.builder_address is Some && p.builder_address->0@ == utf8_lossy_of(
        data,
    )
    &&& !p.is_pbs_block ==> p.builder_address is None
    &&& p.builder_payment_wei is None
}

/// What `TimingMetrics` says of the block timestamp and its predecessor's.
pub open spec fn timing_ok(t: TimingMetrics, timestamp: u64, prev: Option<u64>) -> bool {
    &&& t.timestamp == timestamp
    &&& t.block_time == match prev {
        Some(p) => timestamp - p,
        None => 0int,
    }
    &&& t.propagation_delay is None
}

/// The analysis pipeline: holds the injected known-actor and known-builder
/// registries and derives a `BlockLifecycle` from each block.
pub struct BlockAnalyzer {
    known_bots: Vec<String>,
    known_builders: Vec<String>,
}

impl BlockAnalyzer {
    /// Registry entries are ASCII, which lets the matcher walk them byte by
    /// byte.
    #[verifier::type_invariant]
    spec fn wf(self) -> bool {
        all_ascii(self.known_bots.deep_view()) && all_ascii(self.known_builders.deep_view())
    }

    /// The known-actor registry: addresses recognized as extractive actors.
    pub closed spec fn bot_registry(&self) -> Seq<Seq<char>> {
        self.known_bots.deep_view()
    }

    /// The known-builder registry: name fragments of PBS block builders.
    pub closed spec fn builder_registry(&self) -> Seq<Seq<char>> {
        self.known_builders.deep_view()
    }

    /// Builds an analyzer over the given registries. Succeeds exactly when
    /// every entry of both registries is ASCII.
    pub fn new(known_bots: Vec<String>, known_builders: Vec<String>) -> (r: Option<Self>)
        ensures
            r is Some <==> all_ascii(known_bots.deep_view()) && all_ascii(
                known_builders.deep_view(),
            ),
            r is Some ==> r->0.bot_registry() == known_bots.deep_view()
                && r->0.builder_registry() == known_builders.deep_view(),
    {
        if !entries_ascii(&known_bots) {
            return None;
        }
        if !entries_ascii(&known_builders) {
            return None;
        }
        Some(BlockAnalyzer { known_bots, known_builders })
    }

    /// The addresses the default known-actor registry holds.
    pub open spec fn default_bot_registry() -> Seq<Seq<char>> {
        seq![
            "0x0000000000007f150bd6f54c40a34d7c3d5e9f56"@,
            "0xa57bd00134b2850b2a1c55860c9e9ea100fdd6cf"@,
            "0x00000000003b3cc22af3ae1eac0440bcee416b40"@,
        ]
    }

    /// The builder name fragments the default known-builder registry holds.
    pub open spec fn default_builder_registry() -> Seq<Seq<char>> {
        seq!["flashbots"@, "builder0x69"@, "rsync"@, "beaverbuild"@]
    }

    /// Builds an analyzer over the default registries.
    pub fn with_default_registry() -> (r: Self)
        ensures
            r.bot_registry() == Self::default_bot_registry(),
            r.builder_registry() == Self::default_builder_registry(),
    {
        proof {
            reveal_strlit("0x0000000000007f150bd6f54c40a34d7c3d5e9f56");
            reveal_strlit("0xa57bd00134b2850b2a1c55860c9e9ea100fdd6cf");
            reveal_strlit("0x00000000003b3cc22af3ae1eac0440bcee416b40");
            reveal_strlit("flashbots");
            reveal_strlit("builder0x69");
            reveal_strlit("rsync");
            reveal_strlit("beaverbuild");
        }
        let mut bots: Vec<String> = Vec::new();
        bots.push(String::from_str("0x0000000000007f150bd6f54c40a34d7c3d5e9f56"));
        bots.push(String::from_str("0xa57bd00134b2850b2a1c55860c9e9ea100fdd6cf"));
        bots.push(String::from_str("0x00000000003b3cc22af3ae1eac0440bcee416b40"));
        let mut builders: Vec<String> = Vec::new();
        builders.push(String::from_str("flashbots"));
        builders.push(String::from_str("builder0x69"));
        builders.push(String::from_str("rsync"));
        builders.push(String::from_str("beaverbuild"));
        proof {
            assert(bots.deep_view() =~= Self::default_bot_registry());
            assert(builders.deep_view() =~= Self::default_builder_registry());
            assert(all_ascii(bots.deep_view()));
            assert(all_ascii(builders.deep_view()));
        }
        BlockAnalyzer { known_bots: bots, known_builders: builders }
    }

    /// Whether the known-actor registry recognizes the address,
    /// case-insensitively on the address side.
    pub fn is_known_mev_bot(&self, address: &str) -> (r: bool)
        ensures
            r == known_actor(self.bot_registry(), address@),
    {
        proof {
            use_type_invariant(self);
        }
        let n = self.known_bots.len();
        let mut k: usize = 0;
        while k < n
            invariant
                n == self.known_bots@.len(),
                0 <= k <= n,
                all_ascii(self.known_bots.deep_view()),
                forall|k2: int|
                    0 <= k2 < k ==> !folded_eq(address@, #[trigger] self.known_bots.deep_view()[k2]),
            decreases n - k,
        {
            let entry = &self.known_bots[k];
            proof {
                assert(self.known_bots.deep_view()[k as int] == entry@);
            }
            if eq_fold_ascii(address, entry.as_str()) {
                assert(folded_eq(address@, self.bot_registry()[k as int]));
                return true;
            }
            k = k + 1;
        }
        false
    }

    /// Derives the gas metrics of one block: utilization, base fee, average
    /// and total priority fees, and burned fees.
    pub fn calculate_gas_metrics(&self, block: &Block) -> (g: GasMetrics)
        requires
            block.wf(),
        ensures
            gas_metrics_ok(g, *block),
    {
        let gas_used = block.gas_used;
        let gas_limit = block.gas_limit;
        let utilization_bps: u128 = if gas_limit == 0 {
            0
        } else {
            (gas_used as u128) * 10000 / (gas_limit as u128)
        };
        let base_fee_wei: u64 = match block.base_fee_per_gas {
            Some(f) => f,
            None => 0,
        };

        let txs = &block.transactions;
        let n = txs.len();
        let mut total_priority_fee: u128 = 0;
        let mut priority_fee_count: usize = 0;
        let mut i: usize = 0;
        while i < n
            invariant
                n == txs@.len() <= 0x1_0000_0000,
                0 <= i <= n,
                total_priority_fee as int == sum_declared_fees(txs@.take(i as int)),
                total_priority_fee as int <= i as int * 0xffff_ffff_ffff_ffffu64 as int,
                priority_fee_count as int == count_declaring(txs@.take(i as int)),
                priority_fee_count <= i,
            decreases n - i,
        {
            proof {
                assert(txs@.take(i as int + 1).drop_last() =~= txs@.take(i as int));
                assert(txs@.take(i as int + 1).last() == txs@[i as int]);
            }
            match txs[i].max_priority_fee_per_gas {
                Some(f) => {
                    total_priority_fee = total_priority_fee + f as u128;
                    priority_fee_count = priority_fee_count + 1;
                },
                None => {},
            }
            i = i + 1;
        }
        proof {
            assert(txs@.take(n as int) =~= txs@);
        }

        let avg_priority_fee_wei: u128 = if priority_fee_count > 0 {
            total_priority_fee / (priority_fee_count as u128)
        } else {
            0
        };
        let fees_burned_wei: u128 = match block.base_fee_per_gas {
            Some(f) => {
                proof {
                    assert(f as int * gas_used as int <= u128::MAX) by (nonlinear_arith)
                        requires
                            0 <= f as int <= 0xffff_ffff_ffff_ffffu64 as int,
                            0 <= gas_used as int <= 0xffff_ffff_ffff_ffffu64 as int,
                    ;
                }
                (f as u128) * (gas_used as u128)
            },
            None => 0,
        };
        GasMetrics {
            gas_used,
            gas_limit,
            utilization_bps,
            base_fee_wei,
            avg_priority_fee_wei,
            fees_burned_wei,
            priority_fees_wei: total_priority_fee,
        }
    }

    /// Classifies the block's transactions by protocol type and analyzes
    /// their ordering. The four type counts always sum to the total count.
    pub fn analyze_transactions(&self, block: &Block) -> (t: TransactionMetrics)
        ensures
            tx_metrics_ok(t, block.transactions@),
            t.type_breakdown.total() == t.total_count,
    {
        let txs = &block.transactions;
        let n = txs.len();
        let mut legacy: usize = 0;
        let mut eip2930: usize = 0;
        let mut eip1559: usize = 0;
        let mut eip4844_blob: usize = 0;
        let mut i: usize = 0;
        while i < n
            invariant
                n == txs@.len(),
                0 <= i <= n,
                legacy as int == count_legacy(txs@.take(i as int)),
                eip2930 as int == count_access_list(txs@.take(i as int)),
                eip1559 as int == count_fee_market(txs@.take(i as int)),
                eip4844_blob as int == count_blob(txs@.take(i as int)),
                legacy + eip2930 + eip1559 + eip4844_blob == i,
            decreases n - i,
        {
            proof {
                assert(txs@.take(i as int + 1).drop_last() =~= txs@.take(i as int));
                assert(txs@.take(i as int + 1).last() == txs@[i as int]);
            }
            match txs[i].transaction_type {
                Some(t) if t == 1 => {
                    eip2930 = eip2930 + 1;
                },
                Some(t) if t == 2 => {
                    eip1559 = eip1559 + 1;
                },
                Some(t) if t == 3 => {
                    eip4844_blob = eip4844_blob + 1;
                },
                _ => {
                    legacy = legacy + 1;
                },
            }
            i = i + 1;
        }
        proof {
            assert(txs@.take(n as int) =~= txs@);
        }
        let ordering = self.analyze_tx_ordering(txs);
        TransactionMetrics {
            total_count: n,
            type_breakdown: TypeBreakdown { legacy, eip2930, eip1559, eip4844_blob },
            ordering,
            failed_count: 0,
        }
    }

    /// Walks adjacent transaction pairs: wherever both declare a priority
    /// fee and the later one's is strictly greater, that is an anomaly, and
    /// any anomaly marks the list as not sorted by priority.
    pub fn analyze_tx_ordering(&self, transactions: &Vec<Transaction>) -> (o: OrderingMetrics)
        ensures
            ordering_ok(o, transactions@),
    {
        let n = transactions.len();
        let mut anomalies: usize = 0;
        if n == 0 {
            return OrderingMetrics { sorted_by_priority: true, anomalies: 0, avg_deviation: 0 };
        }
        let mut i: usize = 1;
        while i < n
            invariant
                n == transactions@.len(),
                1 <= i <= n,
                anomalies as int == anomalies_upto(transactions@, i as int),
                anomalies < i,
            decreases n - i,
        {
            match (transactions[i - 1].max_priority_fee_per_gas, transactions[i].max_priority_fee_per_gas) {
                (Some(prev_fee), Some(curr_fee)) => {
                    if curr_fee > prev_fee {
                        anomalies = anomalies + 1;
                    }
                },
                _ => {},
            }
            i = i + 1;
        }
        OrderingMetrics {
            sorted_by_priority: anomalies == 0,
            anomalies,
            avg_deviation: 0,
        }
    }

    /// The MEV heuristic: recognizes registry actors that transact more
    /// than once in the block, and estimates extracted value as the sum of
    /// priority fee times gas limit over all registry-recognized senders.
    pub fn detect_mev_indicators(&self, block: &Block) -> (m: MevIndicators)
        requires
            block.wf(),
        ensures
            mev_ok(m, block.transactions@, self.bot_registry()),
    {
        let txs = &block.transactions;
        let n = txs.len();

        let mut mev_bot_addresses: Vec<String> = Vec::new();
        let mut i: usize = 0;
        while i < n
            invariant
                n == txs@.len(),
                0 <= i <= n,
                mev_bot_addresses.deep_view() == bot_list_upto(
                    txs@,
                    self.bot_registry(),
                    i as int,
                ),
            decreases n - i,
        {
            let first = sender_first_occurrence(txs, i);
            if first {
                let occurrences = count_sender(txs, &txs[i].from);
                if occurrences >= 2 {
                    if self.is_known_mev_bot(txs[i].from.as_str()) {
                        mev_bot_addresses.push(txs[i].from.clone());
                        proof {
                            assert(recognized_at(txs@, self.bot_registry(), i as int));
                            assert(mev_bot_addresses.deep_view() =~= bot_list_upto(
                                txs@,
                                self.bot_registry(),
                                i as int + 1,
                            ));
                        }
                    } else {
                        assert(!recognized_at(txs@, self.bot_registry(), i as int));
                    }
                } else {
                    assert(!recognized_at(txs@, self.bot_registry(), i as int));
                }
            } else {
                assert(!recognized_at(txs@, self.bot_registry(), i as int));
            }
            proof {
                assert(mev_bot_addresses.deep_view() =~= bot_list_upto(
                    txs@,
                    self.bot_registry(),
                    i as int + 1,
                ));
            }
            i = i + 1;
        }

        let mut estimated_mev_wei: u128 = 0;
        let mut j: usize = 0;
        while j < n
            invariant
                n == txs@.len() <= 0x1_0000_0000,
                txs@ == block.transactions@,
                block.wf(),
                0 <= j <= n,
                estimated_mev_wei as int == mev_wei(txs@.take(j as int), self.bot_registry()),
                estimated_mev_wei as int <= j as int * 0xffff_fffe_ffff_ffff_0000_0001int,
            decreases n - j,
        {
            proof {
                assert(txs@.take(j as int + 1).drop_last() =~= txs@.take(j as int));
                assert(txs@.take(j as int + 1).last() == txs@[j as int]);
            }
            match txs[j].max_priority_fee_per_gas {
                Some(f) => {
                    if self.is_known_mev_bot(txs[j].from.as_str()) {
                        let g = txs[j].gas;
                        proof {
                            assert(g <= 0xffff_ffffu64);
                            assert(f as int * g as int
                                <= 0xffff_fffe_ffff_ffff_0000_0001int)
                                by (nonlinear_arith)
                                requires
                                    0 <= f as int <= 0xffff_ffff_ffff_ffffu64 as int,
                                    0 <= g as int <= 0xffff_ffffu64 as int,
                            ;
                        }
                        let term: u128 = (f as u128) * (g as u128);
                        proof {
                            assert(estimated_mev_wei as int + term as int <= (j as int + 1)
                                * 0xffff_fffe_ffff_ffff_0000_0001int);
                            assert((j as int + 1) * 0xffff_fffe_ffff_ffff_0000_0001int
                                <= 0x1_0000_0000int * 0xffff_fffe_ffff_ffff_0000_0001int)
                                by (nonlinear_arith)
                                requires
                                    0 < j as int + 1 <= 0x1_0000_0000int,
                            ;
                            assert(0x1_0000_0000int * 0xffff_fffe_ffff_ffff_0000_0001int
                                <= u128::MAX);
                        }
                        estimated_mev_wei = estimated_mev_wei + term;
                    }
                },
                None => {},
            }
            j = j + 1;
        }
        proof {
            assert(txs@.take(n as int) =~= txs@);
        }

        MevIndicators {
            sandwich_attacks: Vec::new(),
            arbitrage_ops: Vec::new(),
            liquidations: 0,
            estimated_mev_wei,
            mev_bot_addresses,
        }
    }

    /// Decodes the metadata bytes lossily and matches them against the
    /// known-builder fragments, case-insensitively. A hit flags the block as
    /// PBS-built, with the whole decoded metadata string as the builder
    /// identity.
    pub fn analyze_pbs(&self, block: &Block) -> (p: PbsMetrics)
        ensures
            pbs_ok(p, block.extra_data@, self.builder_registry()),
    {
        proof {
            use_type_invariant(self);
        }
        let extra_data = utf8_lossy(&block.extra_data);
        let n = self.known_builders.len();
        let mut is_pbs_block = false;
        let mut k: usize = 0;
        while k < n && !is_pbs_block
            invariant
                n == self.known_builders@.len(),
                0 <= k <= n,
                all_ascii(self.known_builders.deep_view()),
                is_pbs_block ==> builder_hit(block.extra_data@, self.builder_registry()),
                !is_pbs_block ==> forall|k2: int|
                    0 <= k2 < k ==> !contains_frag(
                        block.extra_data@,
                        #[trigger] self.known_builders.deep_view()[k2],
                    ),
            decreases n - k + if is_pbs_block { 0int } else { 1int },
        {
            proof {
                let ghost kb = self.known_builders@[k as int];
                assert(self.known_builders.deep_view()[k as int] == kb@);
            }
            if contains_frag_ci(&block.extra_data, self.known_builders[k].as_str()) {
                is_pbs_block = true;
            } else {
                k = k + 1;
            }
        }
        let builder_address = if is_pbs_block {
            Some(extra_data.clone())
        } else {
            None
        };
        PbsMetrics { is_pbs_block, builder_address, builder_payment_wei: None, extra_data }
    }

    /// Assembles the complete lifecycle record for one block, given the
    /// predecessor's timestamp where one exists. Block-time is the timestamp
    /// delta, or 0 with no predecessor.
    pub fn analyze_block(&self, block: &Block, prev_timestamp: Option<u64>) -> (r: BlockLifecycle)
        requires
            block.wf(),
            prev_timestamp is Some ==> prev_timestamp->0 <= block.timestamp,
        ensures
            r.block_number == block.number,
            r.block_hash == block.hash,
            r.timestamp == block.timestamp,
            r.proposer == block.author,
            r.builder == r.pbs.builder_address,
            timing_ok(r.timing, block.timestamp, prev_timestamp),
            gas_metrics_ok(r.gas, *block),
            tx_metrics_ok(r.transactions, block.transactions@),
            mev_ok(r.mev, block.transactions@, self.bot_registry()),
            pbs_ok(r.pbs, block.extra_data@, self.builder_registry()),
            r.consistent(),
    {
        let block_time: u64 = match prev_timestamp {
            Some(prev) => block.timestamp - prev,
            None => 0,
        };
        let timing = TimingMetrics {
            block_time,
            timestamp: block.timestamp,
            propagation_delay: None,
        };
        let gas = self.calculate_gas_metrics(block);
        let transactions = self.analyze_transactions(block);
        let mev = self.detect_mev_indicators(block);
        let pbs = self.analyze_pbs(block);
        let builder = match &pbs.builder_address {
            Some(b) => Some(b.clone()),
            None => None,
        };
        proof {
            lemma_type_counts_partition(block.transactions@);
        }
        BlockLifecycle {
            block_number: block.number,
            block_hash: block.hash.clone(),
            timestamp: block.timestamp,
            proposer: block.author.clone(),
            builder,
            timing,
            gas,
            transactions,
            mev,
            pbs,
        }
    }
}

/// Whether every entry is ASCII.
fn entries_ascii(entries: &Vec<String>) -> (r: bool)
    ensures
        r == all_ascii(entries.deep_view()),
{
    let n = entries.len();
    let mut k: usize = 0;
    while k < n
        invariant
            n == entries@.len(),
            0 <= k <= n,
            forall|k2: int| 0 <= k2 < k ==> is_ascii_chars(#[trigger] entries.deep_view()[k2]),
        decreases n - k,
    {
        if !entries[k].is_ascii() {
            assert(!is_ascii_chars(entries.deep_view()[k as int]));
            return false;
        }
        k = k + 1;
    }
    true
}

/// Whether no transaction before `i` has the same sender as the one at `i`.
fn sender_first_occurrence(txs: &Vec<Transaction>, i: usize) -> (r: bool)
    requires
        i < txs@.len(),
    ensures
        r == first_occurrence(txs@, i as int),
{
    let mut j: usize = 0;
    while j < i
        invariant
            i < txs@.len(),
            0 <= j <= i,
            forall|j2: int| 0 <= j2 < j ==> (#[trigger] txs@[j2].from)@ != txs@[i as int].from@,
        decreases i - j,
    {
        if txs[j].from == txs[i].from {
            return false;
        }
        j = j + 1;
    }
    true
}

/// How many transactions of the list `addr` sends.
fn count_sender(txs: &Vec<Transaction>, addr: &String) -> (r: usize)
    ensures
        r == sender_count(txs@, addr@),
{
    let n = txs.len();
    let mut count: usize = 0;
    let mut j: usize = 0;
    while j < n
        invariant
            n == txs@.len(),
            0 <= j <= n,
            count as int == sender_count(txs@.take(j as int), addr@),
            count <= j,
        decreases n - j,
    {
        proof {
            assert(txs@.take(j as int + 1).drop_last() =~= txs@.take(j as int));
            assert(txs@.take(j as int + 1).last() == txs@[j as int]);
        }
        if txs[j].from == *addr {
            count = count + 1;
        }
        j = j + 1;
    }
    proof {
        assert(txs@.take(n as int) =~= txs@);
    }
    count
}

/// Which block a textual identifier names: a height, or the latest block.
#[derive(Debug, Clone, Copy, PartialEq, Eq, Structural)]
pub enum BlockId {
    Latest,
    Number(u64),
}

/// Parses a block identifier: the word `latest`, or a decimal height that
/// fits in a `u64`. Anything else is rejected.
pub fn parse_block_id(s: &str) -> (r: Option<BlockId>)
    ensures
        s@ == "latest"@ ==> r == Some(BlockId::Latest),
        s@ != "latest"@ ==> (r is Some <==> s@.len() > 0 && all_digits(s@) && dec_val(s@)
            <= u64::MAX),
        s@ != "latest"@ && r is Some ==> r == Some(BlockId::Number(dec_val(s@) as u64)),
{
    let latest = String::from_str("latest");
    if s.to_owned() == latest {
        return Some(BlockId::Latest);
    }
    match parse_u64(s) {
        Some(n) => Some(BlockId::Number(n)),
        None => None,
    }
}

/// How many lifecycle records report estimated MEV at or above the
/// threshold.
pub open spec fn mev_hits(rs: Seq<BlockLifecycle>, threshold_wei: u128) -> int
    decreases rs.len(),
{
    if rs.len() == 0 {
        0
    } else {
        mev_hits(rs.drop_last(), threshold_wei) + if rs.last().mev.estimated_mev_wei
            >= threshold_wei {
            1int
        } else {
            0int
        }
    }
}

/// Total estimated MEV, in wei, over the records at or above the threshold.
pub open spec fn mev_hit_total(rs: Seq<BlockLifecycle>, threshold_wei: u128) -> int
    decreases rs.len(),
{
    if rs.len() == 0 {
        0
    } else {
        mev_hit_total(rs.drop_last(), threshold_wei) + if rs.last().mev.estimated_mev_wei
            >= threshold_wei {
            rs.last().mev.estimated_mev_wei as int
        } else {
            0int
        }
    }
}

/// A prefix of the records never totals more than the whole list.
proof fn lemma_mev_hit_total_take(rs: Seq<BlockLifecycle>, threshold_wei: u128, i: int)
    requires
        0 <= i <= rs.len(),
    ensures
        mev_hit_total(rs.take(i), threshold_wei) <= mev_hit_total(rs, threshold_wei),
    decreases rs.len() - i,
{
    if i < rs.len() {
        assert(rs.take(i + 1).drop_last() =~= rs.take(i));
        assert(rs.take(i + 1).last() == rs[i]);
        lemma_mev_hit_total_take(rs, threshold_wei, i + 1);
        assert(rs.take(rs.len() as int) =~= rs);
    } else {
        assert(rs.take(i) =~= rs);
    }
}

/// Counts the analyzed blocks whose estimated MEV meets the threshold and
/// totals their estimated MEV, in wei.
pub fn summarize_mev(results: &Vec<BlockLifecycle>, threshold_wei: u128) -> (r: (usize, u128))
    requires
        mev_hit_total(results@, threshold_wei) <= u128::MAX,
    ensures
        r.0 == mev_hits(results@, threshold_wei),
        r.1 == mev_hit_total(results@, threshold_wei),
{
    let n = results.len();
    let mut hits: usize = 0;
    let mut total: u128 = 0;
    let mut i: usize = 0;
    while i < n
        invariant
            n == results@.len(),
            0 <= i <= n,
            mev_hit_total(results@, threshold_wei) <= u128::MAX,
            hits as int == mev_hits(results@.take(i as int), threshold_wei),
            hits <= i,
            total as int == mev_hit_total(results@.take(i as int), threshold_wei),
        decreases n - i,
    {
        proof {
            assert(results@.take(i as int + 1).drop_last() =~= results@.take(i as int));
            assert(results@.take(i as int + 1).last() == results@[i as int]);
            lemma_mev_hit_total_take(results@, threshold_wei, i as int + 1);
        }
        if results[i].mev.estimated_mev_wei >= threshold_wei {
            hits = hits + 1;
            total = total + results[i].mev.estimated_mev_wei;
        }
        i = i + 1;
    }
    proof {
        assert(results@.take(n as int) =~= results@);
    }
    (hits, total)
}

} // verus!
