//! A flat, self-describing token form for `BlockLifecycle` records, with a
//! verified round trip: decoding an encoded record recovers every field.
//!
//! Numbers become canonical decimal tokens, strings pass through verbatim,
//! options carry a `0`/`1` tag, and the recognized-actor list carries its
//! count and then its entries. The sandwich and arbitrage findings lists,
//! which this design never populates, are carried as their counts; decoding
//! rejects a nonzero count.

use crate::types::BlockLifecycle;
use crate::units::{bool_str, dec_str, lemma_dec_str_val};
use vstd::prelude::*;

verus! {

/// `p` occupies the token positions of `s` starting at `idx`.
pub open spec fn prefix_at(p: Seq<Seq<char>>, s: Seq<Seq<char>>, idx: int) -> bool {
    0 <= idx && idx + p.len() <= s.len() && p == s.subrange(idx, idx + p.len())
}

/// Two numbers with the same decimal form are the same number.
pub proof fn lemma_dec_str_injective(m: nat, n: nat)
    requires
        dec_str(m) == dec_str(n),
    ensures
        m == n,
{
    lemma_dec_str_val(m);
    lemma_dec_str_val(n);
}

/// An optional string as tokens: a tag, then the string when present.
pub open spec fn enc_opt_str(o: Option<String>) -> Seq<Seq<char>> {
    match o {
        None => seq![dec_str(0)],
        Some(s) => seq![dec_str(1), s@],
    }
}

/// An optional number as tokens: a tag, then the number when present.
pub open spec fn enc_opt_nat(o: Option<nat>) -> Seq<Seq<char>> {
    match o {
        None => seq![dec_str(0)],
        Some(v) => seq![dec_str(1), dec_str(v)],
    }
}

/// A list of strings as tokens: the count, then the strings themselves.
pub open spec fn enc_strings(l: Seq<Seq<char>>) -> Seq<Seq<char>> {
    seq![dec_str(l.len())] + l
}

/// Option-string segments reading the same stream are the same segment.
proof fn lemma_opt_str_det(x: Option<String>, y: Option<String>, s: Seq<Seq<char>>, idx: int)
    requires
        prefix_at(enc_opt_str(x), s, idx),
        prefix_at(enc_opt_str(y), s, idx),
    ensures
        enc_opt_str(x) == enc_opt_str(y),
        x is Some <==> y is Some,
        x is Some ==> x->0@ == y->0@,
{
    assert(enc_opt_str(x)[0] == s[idx]);
    assert(enc_opt_str(y)[0] == s[idx]);
    if x is Some != y is Some {
        lemma_dec_str_injective(0, 1);
    }
    if x is Some && y is Some {
        assert(enc_opt_str(x)[1] == s[idx + 1]);
        assert(enc_opt_str(y)[1] == s[idx + 1]);
        assert(enc_opt_str(x) =~= enc_opt_str(y));
    } else {
        assert(enc_opt_str(x) =~= enc_opt_str(y));
    }
}

/// Option-number segments reading the same stream are the same segment.
proof fn lemma_opt_nat_det(x: Option<nat>, y: Option<nat>, s: Seq<Seq<char>>, idx: int)
    requires
        prefix_at(enc_opt_nat(x), s, idx),
        prefix_at(enc_opt_nat(y), s, idx),
    ensures
        enc_opt_nat(x) == enc_opt_nat(y),
        x == y,
{
    assert(enc_opt_nat(x)[0] == s[idx]);
    assert(enc_opt_nat(y)[0] == s[idx]);
    if x is Some != y is Some {
        lemma_dec_str_injective(0, 1);
    }
    if x is Some && y is Some {
        assert(enc_opt_nat(x)[1] == s[idx + 1]);
        assert(enc_opt_nat(y)[1] == s[idx + 1]);
        lemma_dec_str_injective(x->0, y->0);
        assert(enc_opt_nat(x) =~= enc_opt_nat(y));
    } else {
        assert(enc_opt_nat(x) =~= enc_opt_nat(y));
    }
}

/// String-list segments reading the same stream are the same segment.
proof fn lemma_strings_det(l1: Seq<Seq<char>>, l2: Seq<Seq<char>>, s: Seq<Seq<char>>, idx: int)
    requires
        prefix_at(enc_strings(l1), s, idx),
        prefix_at(enc_strings(l2), s, idx),
    ensures
        enc_strings(l1) == enc_strings(l2),
        l1 == l2,
{
    assert(enc_strings(l1)[0] == s[idx]);
    assert(enc_strings(l2)[0] == s[idx]);
    lemma_dec_str_injective(l1.len(), l2.len());
    assert forall|i: int| 0 <= i < l1.len() implies l1[i] == l2[i] by {
        assert(enc_strings(l1)[i + 1] == l1[i]);
        assert(enc_strings(l2)[i + 1] == l2[i]);
        assert(s.subrange(idx, idx + enc_strings(l1).len())[i + 1] == s[idx + i + 1]);
        assert(s.subrange(idx, idx + enc_strings(l2).len())[i + 1] == s[idx + i + 1]);
    }
    assert(l1 =~= l2);
    assert(enc_strings(l1) =~= enc_strings(l2));
}

/// A `u64` option widened for encoding.
pub open spec fn opt_nat_of_u64(o: Option<u64>) -> Option<nat> {
    match o {
        None => None,
        Some(v) => Some(v as nat),
    }
}

/// A `u128` option widened for encoding.
pub open spec fn opt_nat_of_u128(o: Option<u128>) -> Option<nat> {
    match o {
        None => None,
        Some(v) => Some(v as nat),
    }
}

/// The identity tokens: height, hash, timestamp, proposer.
pub open spec fn head_tokens(r: BlockLifecycle) -> Seq<Seq<char>> {
    seq![
        dec_str(r.block_number as nat),
        r.block_hash@,
        dec_str(r.timestamp as nat),
        r.proposer@,
    ]
}

/// The two unconditional timing tokens.
pub open spec fn timing_tokens(r: BlockLifecycle) -> Seq<Seq<char>> {
    seq![dec_str(r.timing.block_time as nat), dec_str(r.timing.timestamp as nat)]
}

/// The run of scalar tokens: gas metrics, transaction metrics, and the MEV
/// scalars, in field order. The findings-list counts stand in for the lists
/// themselves, which this design never populates.
pub open spec fn scalar_tokens(r: BlockLifecycle) -> Seq<Seq<char>> {
    seq![
        dec_str(r.gas.gas_used as nat),
        dec_str(r.gas.gas_limit as nat),
        dec_str(r.gas.utilization_bps as nat),
        dec_str(r.gas.base_fee_wei as nat),
        dec_str(r.gas.avg_priority_fee_wei as nat),
        dec_str(r.gas.fees_burned_wei as nat),
        dec_str(r.gas.priority_fees_wei as nat),
        dec_str(r.transactions.total_count as nat),
        dec_str(r.transactions.type_breakdown.legacy as nat),
        dec_str(r.transactions.type_breakdown.eip2930 as nat),
        dec_str(r.transactions.type_breakdown.eip1559 as nat),
        dec_str(r.transactions.type_breakdown.eip4844_blob as nat),
        bool_str(r.transactions.ordering.sorted_by_priority),
        dec_str(r.transactions.ordering.anomalies as nat),
        dec_str(r.transactions.ordering.avg_deviation as nat),
        dec_str(r.transactions.failed_count as nat),
        dec_str(r.mev.sandwich_attacks@.len()),
        dec_str(r.mev.arbitrage_ops@.len()),
        dec_str(r.mev.liquidations as nat),
        dec_str(r.mev.estimated_mev_wei as nat),
    ]
}

/// The complete token form of one record.
pub open spec fn spec_encode(r: BlockLifecycle) -> Seq<Seq<char>> {
    head_tokens(r) + enc_opt_str(r.builder) + timing_tokens(r) + enc_opt_nat(
        opt_nat_of_u64(r.timing.propagation_delay),
    ) + scalar_tokens(r) + enc_strings(r.mev.mev_bot_addresses.deep_view()) + seq![
        bool_str(r.pbs.is_pbs_block),
    ] + enc_opt_str(r.pbs.builder_address) + enc_opt_nat(
        opt_nat_of_u128(r.pbs.builder_payment_wei),
    ) + seq![r.pbs.extra_data@]
}

/// Field-for-field agreement of two records, strings compared by content.
pub open spec fn same_record(a: BlockLifecycle, b: BlockLifecycle) -> bool {
    &&& a.block_number == b.block_number
    &&& a.block_hash@ == b.block_hash@
    &&& a.timestamp == b.timestamp
    &&& a.proposer@ == b.proposer@
    &&& (a.builder is Some <==> b.builder is Some)
    &&& a.builder is Some ==> a.builder->0@ == b.builder->0@
    &&& a.timing.block_time == b.timing.block_time
    &&& a.timing.timestamp == b.timing.timestamp
    &&& a.timing.propagation_delay == b.timing.propagation_delay
    &&& a.gas.gas_used == b.gas.gas_used
    &&& a.gas.gas_limit == b.gas.gas_limit
    &&& a.gas.utilization_bps == b.gas.utilization_bps
    &&& a.gas.base_fee_wei == b.gas.base_fee_wei
    &&& a.gas.avg_priority_fee_wei == b.gas.avg_priority_fee_wei
    &&& a.gas.fees_burned_wei == b.gas.fees_burned_wei
    &&& a.gas.priority_fees_wei == b.gas.priority_fees_wei
    &&& a.transactions.total_count == b.transactions.total_count
    &&& a.transactions.type_breakdown.legacy == b.transactions.type_breakdown.legacy
    &&& a.transactions.type_breakdown.eip2930 == b.transactions.type_breakdown.eip2930
    &&& a.transactions.type_breakdown.eip1559 == b.transactions.type_breakdown.eip1559
    &&& a.transactions.type_breakdown.eip4844_blob == b.transactions.type_breakdown.eip4844_blob
    &&& a.transactions.ordering.sorted_by_priority == b.transactions.ordering.sorted_by_priority
    &&& a.transactions.ordering.anomalies == b.transactions.ordering.anomalies
    &&& a.transactions.ordering.avg_deviation == b.transactions.ordering.avg_deviation
    &&& a.transactions.failed_count == b.transactions.failed_count
    &&& a.mev.sandwich_attacks@.len() == b.mev.sandwich_attacks@.len()
    &&& a.mev.arbitrage_ops@.len() == b.mev.arbitrage_ops@.len()
    &&& a.mev.liquidations == b.mev.liquidations
    &&& a.mev.estimated_mev_wei == b.mev.estimated_mev_wei
    &&& a.mev.mev_bot_addresses.deep_view() == b.mev.mev_bot_addresses.deep_view()
    &&& a.pbs.is_pbs_block == b.pbs.is_pbs_block
    &&& (a.pbs.builder_address is Some <==> b.pbs.builder_address is Some)
    &&& a.pbs.builder_address is Some ==> a.pbs.builder_address->0@ == b.pbs.builder_address->0@
    &&& a.pbs.builder_payment_wei == b.pbs.builder_payment_wei
    &&& a.pbs.extra_data@ == b.pbs.extra_data@
}

/// Reads one canonical decimal token as a `u128`.
fn take_u128(tokens: &Vec<String>, idx: usize) -> (r: Option<(u128, usize)>)
    ensures
        r matches Some(p) ==> idx < tokens@.len() && p.1 == idx + 1 && tokens.deep_view()[idx as int]
            == dec_str(p.0 as nat),
        forall|v: u128|
            idx < tokens@.len() && tokens.deep_view()[idx as int] == dec_str(v as nat) ==> r
                == Some((v, (idx + 1) as usize)),
{
    if idx >= tokens.len() {
        return None;
    }
    let tok = &tokens[idx];
    proof {
        assert(tokens.deep_view()[idx as int] == tok@);
    }
    match crate::units::parse_u128(tok.as_str()) {
        None => {
            proof {
                assert forall|v: u128|
                    idx < tokens@.len() && tokens.deep_view()[idx as int] == dec_str(
                        v as nat,
                    ) implies false by {
                    lemma_dec_str_val(v as nat);
                }
            }
            None
        },
        Some(v) => {
            let again = crate::units::u128_to_string(v);
            if again == *tok {
                proof {
                    assert forall|v2: u128|
                        idx < tokens@.len() && tokens.deep_view()[idx as int] == dec_str(
                            v2 as nat,
                        ) implies v2 == v by {
                        lemma_dec_str_val(v2 as nat);
                    }
                }
                Some((v, idx + 1))
            } else {
                proof {
                    assert forall|v2: u128|
                        idx < tokens@.len() && tokens.deep_view()[idx as int] == dec_str(
                            v2 as nat,
                        ) implies false by {
                        lemma_dec_str_val(v2 as nat);
                    }
                }
                None
            }
        },
    }
}

/// Reads one canonical decimal token as a `u64`.
fn take_u64(tokens: &Vec<String>, idx: usize) -> (r: Option<(u64, usize)>)
    ensures
        r matches Some(p) ==> idx < tokens@.len() && p.1 == idx + 1 && tokens.deep_view()[idx as int]
            == dec_str(p.0 as nat),
        forall|v: u64|
            idx < tokens@.len() && tokens.deep_view()[idx as int] == dec_str(v as nat) ==> r
                == Some((v, (idx + 1) as usize)),
{
    match take_u128(tokens, idx) {
        None => None,
        Some((v, j)) => {
            if v <= u64::MAX as u128 {
                Some((v as u64, j))
            } else {
                proof {
                    assert forall|v2: u64|
                        idx < tokens@.len() && tokens.deep_view()[idx as int] == dec_str(
                            v2 as nat,
                        ) implies false by {
                        lemma_dec_str_injective(v as nat, v2 as nat);
                    }
                }
                None
            }
        },
    }
}

/// Reads one canonical decimal token as a `usize`.
fn take_usize(tokens: &Vec<String>, idx: usize) -> (r: Option<(usize, usize)>)
    ensures
        r matches Some(p) ==> idx < tokens@.len() && p.1 == idx + 1 && tokens.deep_view()[idx as int]
            == dec_str(p.0 as nat),
        forall|v: usize|
            idx < tokens@.len() && tokens.deep_view()[idx as int] == dec_str(v as nat) ==> r
                == Some((v, (idx + 1) as usize)),
{
    match take_u128(tokens, idx) {
        None => None,
        Some((v, j)) => {
            if v <= usize::MAX as u128 {
                Some((v as usize, j))
            } else {
                proof {
                    assert forall|v2: usize|
                        idx < tokens@.len() && tokens.deep_view()[idx as int] == dec_str(
                            v2 as nat,
                        ) implies false by {
                        lemma_dec_str_injective(v as nat, v2 as nat);
                    }
                }
                None
            }
        },
    }
}

/// Reads one `true`/`false` token.
fn take_bool(tokens: &Vec<String>, idx: usize) -> (r: Option<(bool, usize)>)
    ensures
        r matches Some(p) ==> idx < tokens@.len() && p.1 == idx + 1 && tokens.deep_view()[idx as int]
            == bool_str(p.0),
        forall|b: bool|
            idx < tokens@.len() && tokens.deep_view()[idx as int] == bool_str(b) ==> r == Some(
                (b, (idx + 1) as usize),
            ),
{
    if idx >= tokens.len() {
        return None;
    }
    let tok = &tokens[idx];
    proof {
        assert(tokens.deep_view()[idx as int] == tok@);
    }
    let t = crate::units::bool_to_string(true);
    let f = crate::units::bool_to_string(false);
    if *tok == t {
        Some((true, idx + 1))
    } else if *tok == f {
        Some((false, idx + 1))
    } else {
        None
    }
}

/// Reads one token verbatim.
fn take_str(tokens: &Vec<String>, idx: usize) -> (r: Option<(String, usize)>)
    ensures
        r is Some <==> idx < tokens@.len(),
        r matches Some(p) ==> p.1 == idx + 1 && tokens.deep_view()[idx as int] == p.0@,
{
    if idx >= tokens.len() {
        return None;
    }
    proof {
        assert(tokens.deep_view()[idx as int] == tokens@[idx as int]@);
    }
    Some((tokens[idx].clone(), idx + 1))
}

/// Reads an optional-string segment: a tag token, then the string.
fn take_opt_str(tokens: &Vec<String>, idx: usize) -> (r: Option<(Option<String>, usize)>)
    ensures
        r matches Some(p) ==> prefix_at(enc_opt_str(p.0), tokens.deep_view(), idx as int) && p.1
            as int == idx as int + enc_opt_str(p.0).len(),
        forall|o: Option<String>|
            prefix_at(#[trigger] enc_opt_str(o), tokens.deep_view(), idx as int) ==> r is Some,
{
    match take_u64(tokens, idx) {
        None => {
            proof {
                assert forall|o: Option<String>|
                    prefix_at(#[trigger] enc_opt_str(o), tokens.deep_view(), idx as int)
                    implies false by {
                    assert(tokens.deep_view()[idx as int] == tokens.deep_view().subrange(
                        idx as int,
                        idx as int + enc_opt_str(o).len(),
                    )[0]);
                }
            }
            None
        },
        Some((tag, i2)) => {
            if tag == 0 {
                proof {
                    assert(enc_opt_str(Option::<String>::None) =~= tokens.deep_view().subrange(
                        idx as int,
                        idx as int + 1,
                    ));
                }
                Some((None, i2))
            } else if tag == 1 {
                match take_str(tokens, i2) {
                    None => {
                        proof {
                            assert forall|o: Option<String>|
                                prefix_at(
                                    #[trigger] enc_opt_str(o),
                                    tokens.deep_view(),
                                    idx as int,
                                ) implies false by {
                                assert(tokens.deep_view()[idx as int]
                                    == tokens.deep_view().subrange(
                                    idx as int,
                                    idx as int + enc_opt_str(o).len(),
                                )[0]);
                                if o is None {
                                    lemma_dec_str_injective(0, 1);
                                }
                            }
                        }
                        None
                    },
                    Some((s, i3)) => {
                        proof {
                            assert(enc_opt_str(Some(s)) =~= tokens.deep_view().subrange(
                                idx as int,
                                idx as int + 2,
                            ));
                        }
                        Some((Some(s), i3))
                    },
                }
            } else {
                proof {
                    assert forall|o: Option<String>|
                        prefix_at(#[trigger] enc_opt_str(o), tokens.deep_view(), idx as int)
                        implies false by {
                        assert(tokens.deep_view()[idx as int] == tokens.deep_view().subrange(
                            idx as int,
                            idx as int + enc_opt_str(o).len(),
                        )[0]);
                        if o is None {
                            lemma_dec_str_injective(0, tag as nat);
                        } else {
                            lemma_dec_str_injective(1, tag as nat);
                        }
                    }
                }
                None
            }
        },
    }
}

/// Reads an optional-number segment holding a `u64`.
fn take_opt_u64(tokens: &Vec<String>, idx: usize) -> (r: Option<(Option<u64>, usize)>)
    ensures
        r matches Some(p) ==> prefix_at(
            enc_opt_nat(opt_nat_of_u64(p.0)),
            tokens.deep_view(),
            idx as int,
        ) && p.1 as int == idx as int + enc_opt_nat(opt_nat_of_u64(p.0)).len(),
        forall|o: Option<u64>|
            prefix_at(
                #[trigger] enc_opt_nat(opt_nat_of_u64(o)),
                tokens.deep_view(),
                idx as int,
            ) ==> r is Some,
{
    match take_u64(tokens, idx) {
        None => {
            proof {
                assert forall|o: Option<u64>|
                    prefix_at(
                        #[trigger] enc_opt_nat(opt_nat_of_u64(o)),
                        tokens.deep_view(),
                        idx as int,
                    ) implies false by {
                    assert(tokens.deep_view()[idx as int] == tokens.deep_view().subrange(
                        idx as int,
                        idx as int + enc_opt_nat(opt_nat_of_u64(o)).len(),
                    )[0]);
                }
            }
            None
        },
        Some((tag, i2)) => {
            if tag == 0 {
                proof {
                    assert(enc_opt_nat(opt_nat_of_u64(Option::<u64>::None))
                        =~= tokens.deep_view().subrange(idx as int, idx as int + 1));
                }
                Some((None, i2))
            } else if tag == 1 {
                match take_u64(tokens, i2) {
                    None => {
                        proof {
                            assert forall|o: Option<u64>|
                                prefix_at(
                                    #[trigger] enc_opt_nat(opt_nat_of_u64(o)),
                                    tokens.deep_view(),
                                    idx as int,
                                ) implies false by {
                                assert(tokens.deep_view()[idx as int]
                                    == tokens.deep_view().subrange(
                                    idx as int,
                                    idx as int + enc_opt_nat(opt_nat_of_u64(o)).len(),
                                )[0]);
                                if o is None {
                                    lemma_dec_str_injective(0, 1);
                                } else {
                                    assert(tokens.deep_view()[idx as int + 1]
                                        == tokens.deep_view().subrange(
                                        idx as int,
                                        idx as int + 2,
                                    )[1]);
                                }
                            }
                        }
                        None
                    },
                    Some((v, i3)) => {
                        proof {
                            assert(enc_opt_nat(opt_nat_of_u64(Some(v)))
                                =~= tokens.deep_view().subrange(idx as int, idx as int + 2));
                        }
                        Some((Some(v), i3))
                    },
                }
            } else {
                proof {
                    assert forall|o: Option<u64>|
                        prefix_at(
                            #[trigger] enc_opt_nat(opt_nat_of_u64(o)),
                            tokens.deep_view(),
                            idx as int,
                        ) implies false by {
                        assert(tokens.deep_view()[idx as int] == tokens.deep_view().subrange(
                            idx as int,
                            idx as int + enc_opt_nat(opt_nat_of_u64(o)).len(),
                        )[0]);
                        if o is None {
                            lemma_dec_str_injective(0, tag as nat);
                        } else {
                            lemma_dec_str_injective(1, tag as nat);
                        }
                    }
                }
                None
            }
        },
    }
}

/// Reads an optional-number segment holding a `u128`.
fn take_opt_u128(tokens: &Vec<String>, idx: usize) -> (r: Option<(Option<u128>, usize)>)
    ensures
        r matches Some(p) ==> prefix_at(
            enc_opt_nat(opt_nat_of_u128(p.0)),
            tokens.deep_view(),
            idx as int,
        ) && p.1 as int == idx as int + enc_opt_nat(opt_nat_of_u128(p.0)).len(),
        forall|o: Option<u128>|
            prefix_at(
                #[trigger] enc_opt_nat(opt_nat_of_u128(o)),
                tokens.deep_view(),
                idx as int,
            ) ==> r is Some,
{
    match take_u64(tokens, idx) {
        None => {
            proof {
                assert forall|o: Option<u128>|
                    prefix_at(
                        #[trigger] enc_opt_nat(opt_nat_of_u128(o)),
                        tokens.deep_view(),
                        idx as int,
                    ) implies false by {
                    assert(tokens.deep_view()[idx as int] == tokens.deep_view().subrange(
                        idx as int,
                        idx as int + enc_opt_nat(opt_nat_of_u128(o)).len(),
                    )[0]);
                }
            }
            None
        },
        Some((tag, i2)) => {
            if tag == 0 {
                proof {
                    assert(enc_opt_nat(opt_nat_of_u128(Option::<u128>::None))
                        =~= tokens.deep_view().subrange(idx as int, idx as int + 1));
                }
                Some((None, i2))
            } else if tag == 1 {
                match take_u128(tokens, i2) {
                    None => {
                        proof {
                            assert forall|o: Option<u128>|
                                prefix_at(
                                    #[trigger] enc_opt_nat(opt_nat_of_u128(o)),
                                    tokens.deep_view(),
                                    idx as int,
                                ) implies false by {
                                assert(tokens.deep_view()[idx as int]
                                    == tokens.deep_view().subrange(
                                    idx as int,
                                    idx as int + enc_opt_nat(opt_nat_of_u128(o)).len(),
                                )[0]);
                                if o is None {
                                    lemma_dec_str_injective(0, 1);
                                } else {
                                    assert(tokens.deep_view()[idx as int + 1]
                                        == tokens.deep_view().subrange(
                                        idx as int,
                                        idx as int + 2,
                                    )[1]);
                                }
                            }
                        }
                        None
                    },
                    Some((v, i3)) => {
                        proof {
                            assert(enc_opt_nat(opt_nat_of_u128(Some(v)))
                                =~= tokens.deep_view().subrange(idx as int, idx as int + 2));
                        }
                        Some((Some(v), i3))
                    },
                }
            } else {
                proof {
                    assert forall|o: Option<u128>|
                        prefix_at(
                            #[trigger] enc_opt_nat(opt_nat_of_u128(o)),
                            tokens.deep_view(),
                            idx as int,
                        ) implies false by {
                        assert(tokens.deep_view()[idx as int] == tokens.deep_view().subrange(
                            idx as int,
                            idx as int + enc_opt_nat(opt_nat_of_u128(o)).len(),
                        )[0]);
                        if o is None {
                            lemma_dec_str_injective(0, tag as nat);
                        } else {
                            lemma_dec_str_injective(1, tag as nat);
                        }
                    }
                }
                None
            }
        },
    }
}

/// Reads a string-list segment: a count token, then that many strings.
fn take_strings(tokens: &Vec<String>, idx: usize) -> (r: Option<(Vec<String>, usize)>)
    ensures
        r matches Some(p) ==> prefix_at(
            enc_strings(p.0.deep_view()),
            tokens.deep_view(),
            idx as int,
        ) && p.1 as int == idx as int + 1 + p.0@.len(),
        forall|l: Seq<Seq<char>>|
            prefix_at(#[trigger] enc_strings(l), tokens.deep_view(), idx as int) ==> r is Some,
{
    let n = tokens.len();
    match take_u64(tokens, idx) {
        None => {
            proof {
                assert forall|l: Seq<Seq<char>>|
                    prefix_at(#[trigger] enc_strings(l), tokens.deep_view(), idx as int)
                    implies false by {
                    assert(tokens.deep_view()[idx as int] == tokens.deep_view().subrange(
                        idx as int,
                        idx as int + enc_strings(l).len(),
                    )[0]);
                }
            }
            None
        },
        Some((count, i2)) => {
            if count > (n - i2) as u64 {
                proof {
                    assert forall|l: Seq<Seq<char>>|
                        prefix_at(#[trigger] enc_strings(l), tokens.deep_view(), idx as int)
                        implies false by {
                        assert(tokens.deep_view()[idx as int] == tokens.deep_view().subrange(
                            idx as int,
                            idx as int + enc_strings(l).len(),
                        )[0]);
                        lemma_dec_str_injective(count as nat, l.len());
                    }
                }
                None
            } else {
                let c = count as usize;
                let mut out: Vec<String> = Vec::new();
                let mut k: usize = 0;
                while k < c
                    invariant
                        n == tokens@.len(),
                        i2 == idx + 1,
                        idx < n,
                        i2 + c <= n,
                        0 <= k <= c,
                        out@.len() == k,
                        out.deep_view() == tokens.deep_view().subrange(
                            i2 as int,
                            i2 as int + k as int,
                        ),
                    decreases c - k,
                {
                    out.push(tokens[i2 + k].clone());
                    proof {
                        assert(out.deep_view() =~= tokens.deep_view().subrange(
                            i2 as int,
                            i2 as int + k as int + 1,
                        ));
                    }
                    k = k + 1;
                }
                proof {
                    assert(enc_strings(out.deep_view()) =~= tokens.deep_view().subrange(
                        idx as int,
                        idx as int + 1 + c as int,
                    ));
                }
                Some((out, i2 + c))
            }
        },
    }
}

/// Appends one token.
fn push_tok(tokens: &mut Vec<String>, s: String)
    ensures
        final(tokens).deep_view() == old(tokens).deep_view() + seq![s@],
{
    let ghost before = tokens.deep_view();
    let ghost sv = s@;
    tokens.push(s);
    proof {
        assert forall|i: int|
            0 <= i < tokens.deep_view().len() implies tokens.deep_view()[i] == (before + seq![
                sv,
            ])[i] by {
            if i < before.len() {
                assert(before[i] == old(tokens)@[i].deep_view());
            }
        }
        assert(tokens.deep_view() =~= before + seq![sv]);
    }
}

/// Appends an optional-string segment.
fn push_opt_str(tokens: &mut Vec<String>, o: &Option<String>)
    ensures
        final(tokens).deep_view() == old(tokens).deep_view() + enc_opt_str(*o),
{
    let ghost before = tokens.deep_view();
    match o {
        None => {
            push_tok(tokens, crate::units::u64_to_string(0));
            proof {
                assert(tokens.deep_view() =~= before + enc_opt_str(*o));
            }
        },
        Some(s) => {
            push_tok(tokens, crate::units::u64_to_string(1));
            push_tok(tokens, s.clone());
            proof {
                assert(tokens.deep_view() =~= before + enc_opt_str(*o));
            }
        },
    }
}

/// Appends an optional-`u64` segment.
fn push_opt_u64(tokens: &mut Vec<String>, o: &Option<u64>)
    ensures
        final(tokens).deep_view() == old(tokens).deep_view() + enc_opt_nat(opt_nat_of_u64(*o)),
{
    let ghost before = tokens.deep_view();
    match o {
        None => {
            push_tok(tokens, crate::units::u64_to_string(0));
            proof {
                assert(tokens.deep_view() =~= before + enc_opt_nat(opt_nat_of_u64(*o)));
            }
        },
        Some(v) => {
            push_tok(tokens, crate::units::u64_to_string(1));
            push_tok(tokens, crate::units::u64_to_string(*v));
            proof {
                assert(tokens.deep_view() =~= before + enc_opt_nat(opt_nat_of_u64(*o)));
            }
        },
    }
}

/// Appends an optional-`u128` segment.
fn push_opt_u128(tokens: &mut Vec<String>, o: &Option<u128>)
    ensures
        final(tokens).deep_view() == old(tokens).deep_view() + enc_opt_nat(opt_nat_of_u128(*o)),
{
    let ghost before = tokens.deep_view();
    match o {
        None => {
            push_tok(tokens, crate::units::u64_to_string(0));
            proof {
                assert(tokens.deep_view() =~= before + enc_opt_nat(opt_nat_of_u128(*o)));
            }
        },
        Some(v) => {
            push_tok(tokens, crate::units::u64_to_string(1));
            push_tok(tokens, crate::units::u128_to_string(*v));
            proof {
                assert(tokens.deep_view() =~= before + enc_opt_nat(opt_nat_of_u128(*o)));
            }
        },
    }
}

/// Appends a string-list segment.
fn push_strings(tokens: &mut Vec<String>, l: &Vec<String>)
    ensures
        final(tokens).deep_view() == old(tokens).deep_view() + enc_strings(l.deep_view()),
{
    let ghost before = tokens.deep_view();
    let n = l.len();
    push_tok(tokens, crate::units::u64_to_string(n as u64));
    let ghost pre = tokens.deep_view();
    proof {
        assert(tokens.deep_view() =~= pre + l.deep_view().take(0));
    }
    let mut k: usize = 0;
    while k < n
        invariant
            n == l@.len(),
            0 <= k <= n,
            tokens.deep_view() == pre + l.deep_view().take(k as int),
        decreases n - k,
    {
        push_tok(tokens, l[k].clone());
        proof {
            assert(l.deep_view()[k as int] == l@[k as int]@);
            assert(tokens.deep_view() =~= pre + l.deep_view().take(k as int + 1));
        }
        k = k + 1;
    }
    proof {
        assert(l.deep_view().take(n as int) =~= l.deep_view());
        assert(tokens.deep_view() =~= before + enc_strings(l.deep_view()));
    }
}

/// Appends the identity tokens.
fn append_head(tokens: &mut Vec<String>, r: &BlockLifecycle)
    ensures
        final(tokens).deep_view() == old(tokens).deep_view() + head_tokens(*r),
{
    let ghost before = tokens.deep_view();
    push_tok(tokens, crate::units::u64_to_string(r.block_number));
    push_tok(tokens, r.block_hash.clone());
    push_tok(tokens, crate::units::u64_to_string(r.timestamp));
    push_tok(tokens, r.proposer.clone());
    proof {
        assert(tokens.deep_view() =~= before + head_tokens(*r));
    }
}

/// Appends the two unconditional timing tokens.
fn append_timing(tokens: &mut Vec<String>, r: &BlockLifecycle)
    ensures
        final(tokens).deep_view() == old(tokens).deep_view() + timing_tokens(*r),
{
    let ghost before = tokens.deep_view();
    push_tok(tokens, crate::units::u64_to_string(r.timing.block_time));
    push_tok(tokens, crate::units::u64_to_string(r.timing.timestamp));
    proof {
        assert(tokens.deep_view() =~= before + timing_tokens(*r));
    }
}

/// Appends the scalar run.
#[verifier::rlimit(100)]
fn append_scalars(tokens: &mut Vec<String>, r: &BlockLifecycle)
    ensures
        final(tokens).deep_view() == old(tokens).deep_view() + scalar_tokens(*r),
{
    let ghost before = tokens.deep_view();
    push_tok(tokens, crate::units::u64_to_string(r.gas.gas_used));
    proof {
        assert(tokens.deep_view() =~= before + seq![
        dec_str(r.gas.gas_used as nat),
        ]);
    }
    push_tok(tokens, crate::units::u64_to_string(r.gas.gas_limit));
    proof {
        assert(tokens.deep_view() =~= before + seq![
        dec_str(r.gas.gas_used as nat),
            dec_str(r.gas.gas_limit as nat),
        ]);
    }
    push_tok(tokens, crate::units::u128_to_string(r.gas.utilization_bps));
    proof {
        assert(tokens.deep_view() =~= before + seq![
        dec_str(r.gas.gas_used as nat),
            dec_str(r.gas.gas_limit as nat),
            dec_str(r.gas.utilization_bps as nat),
        ]);
    }
    push_tok(tokens, crate::units::u64_to_string(r.gas.base_fee_wei));
    proof {
        assert(tokens.deep_view() =~= before + seq![
        dec_str(r.gas.gas_used as nat),
            dec_str(r.gas.gas_limit as nat),
            dec_str(r.gas.utilization_bps as nat),
            dec_str(r.gas.base_fee_wei as nat),
        ]);
    }
    push_tok(tokens, crate::units::u128_to_string(r.gas.avg_priority_fee_wei));
    proof {
        assert(tokens.deep_view() =~= before + seq![
        dec_str(r.gas.gas_used as nat),
            dec_str(r.gas.gas_limit as nat),
            dec_str(r.gas.utilization_bps as nat),
            dec_str(r.gas.base_fee_wei as nat),
            dec_str(r.gas.avg_priority_fee_wei as nat),
        ]);
    }
    push_tok(tokens, crate::units::u128_to_string(r.gas.fees_burned_wei));
    proof {
        assert(tokens.deep_view() =~= before + seq![
        dec_str(r.gas.gas_used as nat),
            dec_str(r.gas.gas_limit as nat),
            dec_str(r.gas.utilization_bps as nat),
            dec_str(r.gas.base_fee_wei as nat),
            dec_str(r.gas.avg_priority_fee_wei as nat),
            dec_str(r.gas.fees_burned_wei as nat),
        ]);
    }
    push_tok(tokens, crate::units::u128_to_string(r.gas.priority_fees_wei));
    proof {
        assert(tokens.deep_view() =~= before + seq![
        dec_str(r.gas.gas_used as nat),
            dec_str(r.gas.gas_limit as nat),
            dec_str(r.gas.utilization_bps as nat),
            dec_str(r.gas.base_fee_wei as nat),
            dec_str(r.gas.avg_priority_fee_wei as nat),
            dec_str(r.gas.fees_burned_wei as nat),
            dec_str(r.gas.priority_fees_wei as nat),
        ]);
    }
    push_tok(tokens, crate::units::usize_to_string(r.transactions.total_count));
    proof {
        assert(tokens.deep_view() =~= before + seq![
        dec_str(r.gas.gas_used as nat),
            dec_str(r.gas.gas_limit as nat),
            dec_str(r.gas.utilization_bps as nat),
            dec_str(r.gas.base_fee_wei as nat),
            dec_str(r.gas.avg_priority_fee_wei as nat),
            dec_str(r.gas.fees_burned_wei as nat),
            dec_str(r.gas.priority_fees_wei as nat),
            dec_str(r.transactions.total_count as nat),
        ]);
    }
    push_tok(tokens, crate::units::usize_to_string(r.transactions.type_breakdown.legacy));
    proof {
        assert(tokens.deep_view() =~= before + seq![
        dec_str(r.gas.gas_used as nat),
            dec_str(r.gas.gas_limit as nat),
            dec_str(r.gas.utilization_bps as nat),
            dec_str(r.gas.base_fee_wei as nat),
            dec_str(r.gas.avg_priority_fee_wei as nat),
            dec_str(r.gas.fees_burned_wei as nat),
            dec_str(r.gas.priority_fees_wei as nat),
            dec_str(r.transactions.total_count as nat),
            dec_str(r.transactions.type_breakdown.legacy as nat),
        ]);
    }
    push_tok(tokens, crate::units::usize_to_string(r.transactions.type_breakdown.eip2930));
    proof {
        assert(tokens.deep_view() =~= before + seq![
        dec_str(r.gas.gas_used as nat),
            dec_str(r.gas.gas_limit as nat),
            dec_str(r.gas.utilization_bps as nat),
            dec_str(r.gas.base_fee_wei as nat),
            dec_str(r.gas.avg_priority_fee_wei as nat),
            dec_str(r.gas.fees_burned_wei as nat),
            dec_str(r.gas.priority_fees_wei as nat),
            dec_str(r.transactions.total_count as nat),
            dec_str(r.transactions.type_breakdown.legacy as nat),
            dec_str(r.transactions.type_breakdown.eip2930 as nat),
        ]);
    }
    push_tok(tokens, crate::units::usize_to_string(r.transactions.type_breakdown.eip1559));
    proof {
        assert(tokens.deep_view() =~= before + seq![
        dec_str(r.gas.gas_used as nat),
            dec_str(r.gas.gas_limit as nat),
            dec_str(r.gas.utilization_bps as nat),
            dec_str(r.gas.base_fee_wei as nat),
            dec_str(r.gas.avg_priority_fee_wei as nat),
            dec_str(r.gas.fees_burned_wei as nat),
            dec_str(r.gas.priority_fees_wei as nat),
            dec_str(r.transactions.total_count as nat),
            dec_str(r.transactions.type_breakdown.legacy as nat),
            dec_str(r.transactions.type_breakdown.eip2930 as nat),
            dec_str(r.transactions.type_breakdown.eip1559 as nat),
        ]);
    }
    push_tok(tokens, crate::units::usize_to_string(r.transactions.type_breakdown.eip4844_blob));
    proof {
        assert(tokens.deep_view() =~= before + seq![
        dec_str(r.gas.gas_used as nat),
            dec_str(r.gas.gas_limit as nat),
            dec_str(r.gas.utilization_bps as nat),
            dec_str(r.gas.base_fee_wei as nat),
            dec_str(r.gas.avg_priority_fee_wei as nat),
            dec_str(r.gas.fees_burned_wei as nat),
            dec_str(r.gas.priority_fees_wei as nat),
            dec_str(r.transactions.total_count as nat),
            dec_str(r.transactions.type_breakdown.legacy as nat),
            dec_str(r.transactions.type_breakdown.eip2930 as nat),
            dec_str(r.transactions.type_breakdown.eip1559 as nat),
            dec_str(r.transactions.type_breakdown.eip4844_blob as nat),
        ]);
    }
    push_tok(tokens, crate::units::bool_to_string(r.transactions.ordering.sorted_by_priority));
    proof {
        assert(tokens.deep_view() =~= before + seq![
        dec_str(r.gas.gas_used as nat),
            dec_str(r.gas.gas_limit as nat),
            dec_str(r.gas.utilization_bps as nat),
            dec_str(r.gas.base_fee_wei as nat),
            dec_str(r.gas.avg_priority_fee_wei as nat),
            dec_str(r.gas.fees_burned_wei as nat),
            dec_str(r.gas.priority_fees_wei as nat),
            dec_str(r.transactions.total_count as nat),
            dec_str(r.transactions.type_breakdown.legacy as nat),
            dec_str(r.transactions.type_breakdown.eip2930 as nat),
            dec_str(r.transactions.type_breakdown.eip1559 as nat),
            dec_str(r.transactions.type_breakdown.eip4844_blob as nat),
            bool_str(r.transactions.ordering.sorted_by_priority),
        ]);
    }
    push_tok(tokens, crate::units::usize_to_string(r.transactions.ordering.anomalies));
    proof {
        assert(tokens.deep_view() =~= before + seq![
        dec_str(r.gas.gas_used as nat),
            dec_str(r.gas.gas_limit as nat),
            dec_str(r.gas.utilization_bps as nat),
            dec_str(r.gas.base_fee_wei as nat),
            dec_str(r.gas.avg_priority_fee_wei as nat),
            dec_str(r.gas.fees_burned_wei as nat),
            dec_str(r.gas.priority_fees_wei as nat),
            dec_str(r.transactions.total_count as nat),
            dec_str(r.transactions.type_breakdown.legacy as nat),
            dec_str(r.transactions.type_breakdown.eip2930 as nat),
            dec_str(r.transactions.type_breakdown.eip1559 as nat),
            dec_str(r.transactions.type_breakdown.eip4844_blob as nat),
            bool_str(r.transactions.ordering.sorted_by_priority),
            dec_str(r.transactions.ordering.anomalies as nat),
        ]);
    }
    push_tok(tokens, crate::units::u64_to_string(r.transactions.ordering.avg_deviation));
    proof {
        assert(tokens.deep_view() =~= before + seq![
        dec_str(r.gas.gas_used as nat),
            dec_str(r.gas.gas_limit as nat),
            dec_str(r.gas.utilization_bps as nat),
            dec_str(r.gas.base_fee_wei as nat),
            dec_str(r.gas.avg_priority_fee_wei as nat),
            dec_str(r.gas.fees_burned_wei as nat),
            dec_str(r.gas.priority_fees_wei as nat),
            dec_str(r.transactions.total_count as nat),
            dec_str(r.transactions.type_breakdown.legacy as nat),
            dec_str(r.transactions.type_breakdown.eip2930 as nat),
            dec_str(r.transactions.type_breakdown.eip1559 as nat),
            dec_str(r.transactions.type_breakdown.eip4844_blob as nat),
            bool_str(r.transactions.ordering.sorted_by_priority),
            dec_str(r.transactions.ordering.anomalies as nat),
            dec_str(r.transactions.ordering.avg_deviation as nat),
        ]);
    }
    push_tok(tokens, crate::units::usize_to_string(r.transactions.failed_count));
    proof {
        assert(tokens.deep_view() =~= before + seq![
        dec_str(r.gas.gas_used as nat),
            dec_str(r.gas.gas_limit as nat),
            dec_str(r.gas.utilization_bps as nat),
            dec_str(r.gas.base_fee_wei as nat),
            dec_str(r.gas.avg_priority_fee_wei as nat),
            dec_str(r.gas.fees_burned_wei as nat),
            dec_str(r.gas.priority_fees_wei as nat),
            dec_str(r.transactions.total_count as nat),
            dec_str(r.transactions.type_breakdown.legacy as nat),
            dec_str(r.transactions.type_breakdown.eip2930 as nat),
            dec_str(r.transactions.type_breakdown.eip1559 as nat),
            dec_str(r.transactions.type_breakdown.eip4844_blob as nat),
            bool_str(r.transactions.ordering.sorted_by_priority),
            dec_str(r.transactions.ordering.anomalies as nat),
            dec_str(r.transactions.ordering.avg_deviation as nat),
            dec_str(r.transactions.failed_count as nat),
        ]);
    }
    push_tok(tokens, crate::units::usize_to_string(r.mev.sandwich_attacks.len()));
    proof {
        assert(tokens.deep_view() =~= before + seq![
        dec_str(r.gas.gas_used as nat),
            dec_str(r.gas.gas_limit as nat),
            dec_str(r.gas.utilization_bps as nat),
            dec_str(r.gas.base_fee_wei as nat),
            dec_str(r.gas.avg_priority_fee_wei as nat),
            dec_str(r.gas.fees_burned_wei as nat),
            dec_str(r.gas.priority_fees_wei as nat),
            dec_str(r.transactions.total_count as nat),
            dec_str(r.transactions.type_breakdown.legacy as nat),
            dec_str(r.transactions.type_breakdown.eip2930 as nat),
            dec_str(r.transactions.type_breakdown.eip1559 as nat),
            dec_str(r.transactions.type_breakdown.eip4844_blob as nat),
            bool_str(r.transactions.ordering.sorted_by_priority),
            dec_str(r.transactions.ordering.anomalies as nat),
            dec_str(r.transactions.ordering.avg_deviation as nat),
            dec_str(r.transactions.failed_count as nat),
            dec_str(r.mev.sandwich_attacks@.len()),
        ]);
    }
    push_tok(tokens, crate::units::usize_to_string(r.mev.arbitrage_ops.len()));
    proof {
        assert(tokens.deep_view() =~= before + seq![
        dec_str(r.gas.gas_used as nat),
            dec_str(r.gas.gas_limit as nat),
            dec_str(r.gas.utilization_bps as nat),
            dec_str(r.gas.base_fee_wei as nat),
            dec_str(r.gas.avg_priority_fee_wei as nat),
            dec_str(r.gas.fees_burned_wei as nat),
            dec_str(r.gas.priority_fees_wei as nat),
            dec_str(r.transactions.total_count as nat),
            dec_str(r.transactions.type_breakdown.legacy as nat),
            dec_str(r.transactions.type_breakdown.eip2930 as nat),
            dec_str(r.transactions.type_breakdown.eip1559 as nat),
            dec_str(r.transactions.type_breakdown.eip4844_blob as nat),
            bool_str(r.transactions.ordering.sorted_by_priority),
            dec_str(r.transactions.ordering.anomalies as nat),
            dec_str(r.transactions.ordering.avg_deviation as nat),
            dec_str(r.transactions.failed_count as nat),
            dec_str(r.mev.sandwich_attacks@.len()),
            dec_str(r.mev.arbitrage_ops@.len()),
        ]);
    }
    push_tok(tokens, crate::units::usize_to_string(r.mev.liquidations));
    proof {
        assert(tokens.deep_view() =~= before + seq![
        dec_str(r.gas.gas_used as nat),
            dec_str(r.gas.gas_limit as nat),
            dec_str(r.gas.utilization_bps as nat),
            dec_str(r.gas.base_fee_wei as nat),
            dec_str(r.gas.avg_priority_fee_wei as nat),
            dec_str(r.gas.fees_burned_wei as nat),
            dec_str(r.gas.priority_fees_wei as nat),
            dec_str(r.transactions.total_count as nat),
            dec_str(r.transactions.type_breakdown.legacy as nat),
            dec_str(r.transactions.type_breakdown.eip2930 as nat),
            dec_str(r.transactions.type_breakdown.eip1559 as nat),
            dec_str(r.transactions.type_breakdown.eip4844_blob as nat),
            bool_str(r.transactions.ordering.sorted_by_priority),
            dec_str(r.transactions.ordering.anomalies as nat),
            dec_str(r.transactions.ordering.avg_deviation as nat),
            dec_str(r.transactions.failed_count as nat),
            dec_str(r.mev.sandwich_attacks@.len()),
            dec_str(r.mev.arbitrage_ops@.len()),
            dec_str(r.mev.liquidations as nat),
        ]);
    }
    push_tok(tokens, crate::units::u128_to_string(r.mev.estimated_mev_wei));
    proof {
        assert(tokens.deep_view() =~= before + seq![
        dec_str(r.gas.gas_used as nat),
            dec_str(r.gas.gas_limit as nat),
            dec_str(r.gas.utilization_bps as nat),
            dec_str(r.gas.base_fee_wei as nat),
            dec_str(r.gas.avg_priority_fee_wei as nat),
            dec_str(r.gas.fees_burned_wei as nat),
            dec_str(r.gas.priority_fees_wei as nat),
            dec_str(r.transactions.total_count as nat),
            dec_str(r.transactions.type_breakdown.legacy as nat),
            dec_str(r.transactions.type_breakdown.eip2930 as nat),
            dec_str(r.transactions.type_breakdown.eip1559 as nat),
            dec_str(r.transactions.type_breakdown.eip4844_blob as nat),
            bool_str(r.transactions.ordering.sorted_by_priority),
            dec_str(r.transactions.ordering.anomalies as nat),
            dec_str(r.transactions.ordering.avg_deviation as nat),
            dec_str(r.transactions.failed_count as nat),
            dec_str(r.mev.sandwich_attacks@.len()),
            dec_str(r.mev.arbitrage_ops@.len()),
            dec_str(r.mev.liquidations as nat),
            dec_str(r.mev.estimated_mev_wei as nat),
        ]);
    }
    proof {
        assert(tokens.deep_view() == before + scalar_tokens(*r));
    }
}

/// Encodes a record as its token form.
pub fn encode(r: &BlockLifecycle) -> (tokens: Vec<String>)
    ensures
        tokens.deep_view() == spec_encode(*r),
{
    let mut tokens: Vec<String> = Vec::new();
    proof {
        assert(tokens.deep_view() =~= Seq::<Seq<char>>::empty());
    }
    append_head(&mut tokens, r);
    proof {
        assert(tokens.deep_view() =~= head_tokens(*r));
    }
    push_opt_str(&mut tokens, &r.builder);
    append_timing(&mut tokens, r);
    push_opt_u64(&mut tokens, &r.timing.propagation_delay);
    append_scalars(&mut tokens, r);
    push_strings(&mut tokens, &r.mev.mev_bot_addresses);
    push_tok(&mut tokens, crate::units::bool_to_string(r.pbs.is_pbs_block));
    push_opt_str(&mut tokens, &r.pbs.builder_address);
    push_opt_u128(&mut tokens, &r.pbs.builder_payment_wei);
    push_tok(&mut tokens, r.pbs.extra_data.clone());
    proof {
        assert(tokens.deep_view() == spec_encode(*r));
    }
    tokens
}

/// Where each segment of a record's token form begins.
pub open spec fn off_timing(w: BlockLifecycle) -> int {
    4 + enc_opt_str(w.builder).len() as int
}

pub open spec fn off_pd(w: BlockLifecycle) -> int {
    off_timing(w) + 2
}

pub open spec fn off_scalars(w: BlockLifecycle) -> int {
    off_pd(w) + enc_opt_nat(opt_nat_of_u64(w.timing.propagation_delay)).len() as int
}

pub open spec fn off_bots(w: BlockLifecycle) -> int {
    off_scalars(w) + 20
}

pub open spec fn off_flag(w: BlockLifecycle) -> int {
    off_bots(w) + enc_strings(w.mev.mev_bot_addresses.deep_view()).len() as int
}

pub open spec fn off_baddr(w: BlockLifecycle) -> int {
    off_flag(w) + 1
}

pub open spec fn off_payment(w: BlockLifecycle) -> int {
    off_baddr(w) + enc_opt_str(w.pbs.builder_address).len() as int
}

pub open spec fn off_extra(w: BlockLifecycle) -> int {
    off_payment(w) + enc_opt_nat(opt_nat_of_u128(w.pbs.builder_payment_wei)).len() as int
}

/// Adjacent subranges concatenate to the enclosing subrange.
proof fn lemma_subrange_cat(t: Seq<Seq<char>>, i: int, j: int, k: int)
    requires
        0 <= i <= j <= k <= t.len(),
    ensures
        t.subrange(i, j) + t.subrange(j, k) == t.subrange(i, k),
{
    assert(t.subrange(i, j) + t.subrange(j, k) =~= t.subrange(i, k));
}

/// Splits a known concatenation at the end of an initial subrange.
proof fn lemma_peel(p: Seq<Seq<char>>, s: Seq<Seq<char>>, t: Seq<Seq<char>>, a: int)
    requires
        0 <= a <= t.len(),
        t.subrange(0, a) == p + s,
    ensures
        p == t.subrange(0, a - s.len()),
        s == t.subrange(a - s.len(), a),
{
    assert((p + s).len() == a);
    assert forall|i: int| 0 <= i < p.len() implies p[i] == t.subrange(0, a - s.len() as int)[i] by {
        assert(p[i] == (p + s)[i]);
        assert((p + s)[i] == t.subrange(0, a)[i]);
        assert(t.subrange(0, a)[i] == t[i]);
        assert(t.subrange(0, a - s.len() as int)[i] == t[i]);
    }
    assert(p =~= t.subrange(0, a - s.len() as int));
    assert forall|i: int| 0 <= i < s.len() implies s[i] == t.subrange(a - s.len() as int, a)[i] by {
        assert(s[i] == (p + s)[p.len() + i]);
        assert((p + s)[p.len() + i] == t.subrange(0, a)[p.len() + i]);
        assert(t.subrange(0, a)[p.len() + i] == t[p.len() + i]);
        assert(t.subrange(a - s.len() as int, a)[i] == t[a - s.len() + i]);
    }
    assert(s =~= t.subrange(a - s.len() as int, a));
}

/// Where a record's token form equals a stream, each segment occupies its
/// own subrange of the stream.
#[verifier::rlimit(100)]
proof fn lemma_decompose(w: BlockLifecycle, t: Seq<Seq<char>>)
    requires
        spec_encode(w) == t,
    ensures
        t.len() == off_extra(w) + 1,
        head_tokens(w) == t.subrange(0, 4),
        enc_opt_str(w.builder) == t.subrange(4, off_timing(w)),
        timing_tokens(w) == t.subrange(off_timing(w), off_pd(w)),
        enc_opt_nat(opt_nat_of_u64(w.timing.propagation_delay)) == t.subrange(
            off_pd(w),
            off_scalars(w),
        ),
        scalar_tokens(w) == t.subrange(off_scalars(w), off_bots(w)),
        enc_strings(w.mev.mev_bot_addresses.deep_view()) == t.subrange(off_bots(w), off_flag(w)),
        seq![bool_str(w.pbs.is_pbs_block)] == t.subrange(off_flag(w), off_baddr(w)),
        enc_opt_str(w.pbs.builder_address) == t.subrange(off_baddr(w), off_payment(w)),
        enc_opt_nat(opt_nat_of_u128(w.pbs.builder_payment_wei)) == t.subrange(
            off_payment(w),
            off_extra(w),
        ),
        seq![w.pbs.extra_data@] == t.subrange(off_extra(w), off_extra(w) + 1),
{
    let s1 = head_tokens(w);
    let s2 = enc_opt_str(w.builder);
    let s3 = timing_tokens(w);
    let s4 = enc_opt_nat(opt_nat_of_u64(w.timing.propagation_delay));
    let s5 = scalar_tokens(w);
    let s6 = enc_strings(w.mev.mev_bot_addresses.deep_view());
    let s7 = seq![bool_str(w.pbs.is_pbs_block)];
    let s8 = enc_opt_str(w.pbs.builder_address);
    let s9 = enc_opt_nat(opt_nat_of_u128(w.pbs.builder_payment_wei));
    let s10 = seq![w.pbs.extra_data@];
    let l = t.len() as int;
    assert(t.subrange(0, l) =~= t);
    lemma_peel(s1 + s2 + s3 + s4 + s5 + s6 + s7 + s8 + s9, s10, t, l);
    lemma_peel(s1 + s2 + s3 + s4 + s5 + s6 + s7 + s8, s9, t, l - 1);
    lemma_peel(s1 + s2 + s3 + s4 + s5 + s6 + s7, s8, t, l - 1 - s9.len());
    lemma_peel(s1 + s2 + s3 + s4 + s5 + s6, s7, t, l - 1 - s9.len() - s8.len());
    lemma_peel(s1 + s2 + s3 + s4 + s5, s6, t, l - 2 - s9.len() - s8.len());
    lemma_peel(s1 + s2 + s3 + s4, s5, t, l - 2 - s9.len() - s8.len() - s6.len());
    lemma_peel(s1 + s2 + s3, s4, t, l - 22 - s9.len() - s8.len() - s6.len());
    lemma_peel(s1 + s2, s3, t, l - 22 - s9.len() - s8.len() - s6.len() - s4.len());
    lemma_peel(s1, s2, t, l - 24 - s9.len() - s8.len() - s6.len() - s4.len());
}

/// The converse: a record whose segments each occupy the matching subrange
/// of a stream has exactly that stream as its token form.
proof fn lemma_compose(w: BlockLifecycle, t: Seq<Seq<char>>)
    requires
        t.len() == off_extra(w) + 1,
        head_tokens(w) == t.subrange(0, 4),
        enc_opt_str(w.builder) == t.subrange(4, off_timing(w)),
        timing_tokens(w) == t.subrange(off_timing(w), off_pd(w)),
        enc_opt_nat(opt_nat_of_u64(w.timing.propagation_delay)) == t.subrange(
            off_pd(w),
            off_scalars(w),
        ),
        scalar_tokens(w) == t.subrange(off_scalars(w), off_bots(w)),
        enc_strings(w.mev.mev_bot_addresses.deep_view()) == t.subrange(off_bots(w), off_flag(w)),
        seq![bool_str(w.pbs.is_pbs_block)] == t.subrange(off_flag(w), off_baddr(w)),
        enc_opt_str(w.pbs.builder_address) == t.subrange(off_baddr(w), off_payment(w)),
        enc_opt_nat(opt_nat_of_u128(w.pbs.builder_payment_wei)) == t.subrange(
            off_payment(w),
            off_extra(w),
        ),
        seq![w.pbs.extra_data@] == t.subrange(off_extra(w), off_extra(w) + 1),
    ensures
        spec_encode(w) == t,
{
    lemma_subrange_cat(t, 0, 4, off_timing(w));
    lemma_subrange_cat(t, 0, off_timing(w), off_pd(w));
    lemma_subrange_cat(t, 0, off_pd(w), off_scalars(w));
    lemma_subrange_cat(t, 0, off_scalars(w), off_bots(w));
    lemma_subrange_cat(t, 0, off_bots(w), off_flag(w));
    lemma_subrange_cat(t, 0, off_flag(w), off_baddr(w));
    lemma_subrange_cat(t, 0, off_baddr(w), off_payment(w));
    lemma_subrange_cat(t, 0, off_payment(w), off_extra(w));
    lemma_subrange_cat(t, 0, off_extra(w), off_extra(w) + 1);
    assert(t.subrange(0, t.len() as int) =~= t);
}

/// A record whose tokens each match the stream at their place has exactly
/// that stream as its token form.
#[verifier::rlimit(100)]
proof fn lemma_result_encodes(r2: BlockLifecycle, t: Seq<Seq<char>>)
    requires
        t.len() == off_extra(r2) + 1,
        t[0] == dec_str(r2.block_number as nat),
        t[1] == r2.block_hash@,
        t[2] == dec_str(r2.timestamp as nat),
        t[3] == r2.proposer@,
        enc_opt_str(r2.builder) == t.subrange(4, off_timing(r2)),
        t[off_timing(r2)] == dec_str(r2.timing.block_time as nat),
        t[off_timing(r2) + 1] == dec_str(r2.timing.timestamp as nat),
        enc_opt_nat(opt_nat_of_u64(r2.timing.propagation_delay)) == t.subrange(
            off_pd(r2),
            off_scalars(r2),
        ),
        t[off_scalars(r2) + 0] == dec_str(r2.gas.gas_used as nat),
        t[off_scalars(r2) + 1] == dec_str(r2.gas.gas_limit as nat),
        t[off_scalars(r2) + 2] == dec_str(r2.gas.utilization_bps as nat),
        t[off_scalars(r2) + 3] == dec_str(r2.gas.base_fee_wei as nat),
        t[off_scalars(r2) + 4] == dec_str(r2.gas.avg_priority_fee_wei as nat),
        t[off_scalars(r2) + 5] == dec_str(r2.gas.fees_burned_wei as nat),
        t[off_scalars(r2) + 6] == dec_str(r2.gas.priority_fees_wei as nat),
        t[off_scalars(r2) + 7] == dec_str(r2.transactions.total_count as nat),
        t[off_scalars(r2) + 8] == dec_str(r2.transactions.type_breakdown.legacy as nat),
        t[off_scalars(r2) + 9] == dec_str(r2.transactions.type_breakdown.eip2930 as nat),
        t[off_scalars(r2) + 10] == dec_str(r2.transactions.type_breakdown.eip1559 as nat),
        t[off_scalars(r2) + 11] == dec_str(r2.transactions.type_breakdown.eip4844_blob as nat),
        t[off_scalars(r2) + 12] == bool_str(r2.transactions.ordering.sorted_by_priority),
        t[off_scalars(r2) + 13] == dec_str(r2.transactions.ordering.anomalies as nat),
        t[off_scalars(r2) + 14] == dec_str(r2.transactions.ordering.avg_deviation as nat),
        t[off_scalars(r2) + 15] == dec_str(r2.transactions.failed_count as nat),
        t[off_scalars(r2) + 16] == dec_str(r2.mev.sandwich_attacks@.len()),
        t[off_scalars(r2) + 17] == dec_str(r2.mev.arbitrage_ops@.len()),
        t[off_scalars(r2) + 18] == dec_str(r2.mev.liquidations as nat),
        t[off_scalars(r2) + 19] == dec_str(r2.mev.estimated_mev_wei as nat),
        enc_strings(r2.mev.mev_bot_addresses.deep_view()) == t.subrange(
            off_bots(r2),
            off_flag(r2),
        ),
        t[off_flag(r2)] == bool_str(r2.pbs.is_pbs_block),
        enc_opt_str(r2.pbs.builder_address) == t.subrange(off_baddr(r2), off_payment(r2)),
        enc_opt_nat(opt_nat_of_u128(r2.pbs.builder_payment_wei)) == t.subrange(
            off_payment(r2),
            off_extra(r2),
        ),
        t[off_extra(r2)] == r2.pbs.extra_data@,
    ensures
        spec_encode(r2) == t,
{
    assert(head_tokens(r2) =~= t.subrange(0, 4));
    assert(timing_tokens(r2) =~= t.subrange(off_timing(r2), off_pd(r2)));
    assert(scalar_tokens(r2) =~= t.subrange(off_scalars(r2), off_bots(r2)));
    assert(seq![bool_str(r2.pbs.is_pbs_block)] =~= t.subrange(off_flag(r2), off_baddr(r2)));
    assert(seq![r2.pbs.extra_data@] =~= t.subrange(off_extra(r2), off_extra(r2) + 1));
    lemma_compose(r2, t);
}

/// The parsed scalar run: gas metrics, transaction metrics and the MEV
/// scalars of one record.
struct ScalarBlock {
    gas_used: u64,
    gas_limit: u64,
    utilization_bps: u128,
    base_fee_wei: u64,
    avg_priority_fee_wei: u128,
    fees_burned_wei: u128,
    priority_fees_wei: u128,
    total_count: usize,
    legacy: usize,
    eip2930: usize,
    eip1559: usize,
    eip4844_blob: usize,
    sorted_by_priority: bool,
    anomalies: usize,
    avg_deviation: u64,
    failed_count: usize,
    liquidations: usize,
    estimated_mev_wei: u128,
}

/// What the scalar run's tokens say of the parsed block.
spec fn scalar_block_tokens(s: ScalarBlock) -> Seq<Seq<char>> {
    seq![
        dec_str(s.gas_used as nat),
        dec_str(s.gas_limit as nat),
        dec_str(s.utilization_bps as nat),
        dec_str(s.base_fee_wei as nat),
        dec_str(s.avg_priority_fee_wei as nat),
        dec_str(s.fees_burned_wei as nat),
        dec_str(s.priority_fees_wei as nat),
        dec_str(s.total_count as nat),
        dec_str(s.legacy as nat),
        dec_str(s.eip2930 as nat),
        dec_str(s.eip1559 as nat),
        dec_str(s.eip4844_blob as nat),
        bool_str(s.sorted_by_priority),
        dec_str(s.anomalies as nat),
        dec_str(s.avg_deviation as nat),
        dec_str(s.failed_count as nat),
        dec_str(0),
        dec_str(0),
        dec_str(s.liquidations as nat),
        dec_str(s.estimated_mev_wei as nat),
    ]
}

/// Reads the twenty-token scalar run, rejecting a nonzero findings-list
/// count.
#[verifier::rlimit(100)]
fn take_scalars(tokens: &Vec<String>, idx: usize) -> (r: Option<(ScalarBlock, usize)>)
    ensures
        r matches Some(p) ==> p.1 == idx + 20 && prefix_at(
            scalar_block_tokens(p.0),
            tokens.deep_view(),
            idx as int,
        ),
        forall|c: BlockLifecycle|
            prefix_at(#[trigger] scalar_tokens(c), tokens.deep_view(), idx as int)
                && c.mev.sandwich_attacks@.len() == 0 && c.mev.arbitrage_ops@.len() == 0 ==> r
                is Some,
{
    let ghost t = tokens.deep_view();
    let ghost has_c = exists|c: BlockLifecycle|
        prefix_at(#[trigger] scalar_tokens(c), t, idx as int) && c.mev.sandwich_attacks@.len()
            == 0 && c.mev.arbitrage_ops@.len() == 0;
    let ghost cw = choose|c: BlockLifecycle|
        prefix_at(#[trigger] scalar_tokens(c), t, idx as int) && c.mev.sandwich_attacks@.len()
            == 0 && c.mev.arbitrage_ops@.len() == 0;
    proof {
        if has_c {
            assert forall|k: int|
                0 <= k < 20 implies #[trigger] t[idx + k] == scalar_tokens(cw)[k] by {
                assert(t.subrange(idx as int, idx as int + 20)[k] == t[idx + k]);
            }
        }
    }
    let (gas_used, j1) = match take_u64(tokens, idx) {
        Some(p) => p,
        None => {
            proof {
                if has_c {
                    assert(false);
                }
            }
            return None;
        },
    };
    let (gas_limit, j2) = match take_u64(tokens, j1) {
        Some(p) => p,
        None => {
            proof {
                if has_c {
                    assert(false);
                }
            }
            return None;
        },
    };
    let (utilization_bps, j3) = match take_u128(tokens, j2) {
        Some(p) => p,
        None => {
            proof {
                if has_c {
                    assert(false);
                }
            }
            return None;
        },
    };
    let (base_fee_wei, j4) = match take_u64(tokens, j3) {
        Some(p) => p,
        None => {
            proof {
                if has_c {
                    assert(false);
                }
            }
            return None;
        },
    };
    let (avg_priority_fee_wei, j5) = match take_u128(tokens, j4) {
        Some(p) => p,
        None => {
            proof {
                if has_c {
                    assert(false);
                }
            }
            return None;
        },
    };
    let (fees_burned_wei, j6) = match take_u128(tokens, j5) {
        Some(p) => p,
        None => {
            proof {
                if has_c {
                    assert(false);
                }
            }
            return None;
        },
    };
    let (priority_fees_wei, j7) = match take_u128(tokens, j6) {
        Some(p) => p,
        None => {
            proof {
                if has_c {
                    assert(false);
                }
            }
            return None;
        },
    };
    let (total_count, j8) = match take_usize(tokens, j7) {
        Some(p) => p,
        None => {
            proof {
                if has_c {
                    assert(false);
                }
            }
            return None;
        },
    };
    let (legacy, j9) = match take_usize(tokens, j8) {
        Some(p) => p,
        None => {
            proof {
                if has_c {
                    assert(false);
                }
            }
            return None;
        },
    };
    let (eip2930, j10) = match take_usize(tokens, j9) {
        Some(p) => p,
        None => {
            proof {
                if has_c {
                    assert(false);
                }
            }
            return None;
        },
    };
    let (eip1559, j11) = match take_usize(tokens, j10) {
        Some(p) => p,
        None => {
            proof {
                if has_c {
                    assert(false);
                }
            }
            return None;
        },
    };
    let (eip4844_blob, j12) = match take_usize(tokens, j11) {
        Some(p) => p,
        None => {
            proof {
                if has_c {
                    assert(false);
                }
            }
            return None;
        },
    };
    let (sorted_by_priority, j13) = match take_bool(tokens, j12) {
        Some(p) => p,
        None => {
            proof {
                if has_c {
                    assert(false);
                }
            }
            return None;
        },
    };
    let (anomalies, j14) = match take_usize(tokens, j13) {
        Some(p) => p,
        None => {
            proof {
                if has_c {
                    assert(false);
                }
            }
            return None;
        },
    };
    let (avg_deviation, j15) = match take_u64(tokens, j14) {
        Some(p) => p,
        None => {
            proof {
                if has_c {
                    assert(false);
                }
            }
            return None;
        },
    };
    let (failed_count, j16) = match take_usize(tokens, j15) {
        Some(p) => p,
        None => {
            proof {
                if has_c {
                    assert(false);
                }
            }
            return None;
        },
    };
    let (sandwich_count, j17) = match take_usize(tokens, j16) {
        Some(p) => p,
        None => {
            proof {
                if has_c {
                    assert(false);
                }
            }
            return None;
        },
    };
    if sandwich_count != 0 {
        proof {
            if has_c {
                assert(cw.mev.sandwich_attacks@.len() == 0);
                assert(false);
            }
        }
        return None;
    }
    let (arbitrage_count, j18) = match take_usize(tokens, j17) {
        Some(p) => p,
        None => {
            proof {
                if has_c {
                    assert(false);
                }
            }
            return None;
        },
    };
    if arbitrage_count != 0 {
        proof {
            if has_c {
                assert(cw.mev.arbitrage_ops@.len() == 0);
                assert(false);
            }
        }
        return None;
    }
    let (liquidations, j19) = match take_usize(tokens, j18) {
        Some(p) => p,
        None => {
            proof {
                if has_c {
                    assert(false);
                }
            }
            return None;
        },
    };
    let (estimated_mev_wei, j20) = match take_u128(tokens, j19) {
        Some(p) => p,
        None => {
            proof {
                if has_c {
                    assert(false);
                }
            }
            return None;
        },
    };
    let block = ScalarBlock {
        gas_used,
        gas_limit,
        utilization_bps,
        base_fee_wei,
        avg_priority_fee_wei,
        fees_burned_wei,
        priority_fees_wei,
        total_count,
        legacy,
        eip2930,
        eip1559,
        eip4844_blob,
        sorted_by_priority,
        anomalies,
        avg_deviation,
        failed_count,
        liquidations,
        estimated_mev_wei,
    };
    proof {
        assert(prefix_at(scalar_block_tokens(block), t, idx as int)) by {
            assert(scalar_block_tokens(block) =~= t.subrange(idx as int, idx as int + 20));
        }
    }
    Some((block, j20))
}

/// Decodes a token form back into a record. Succeeds on every stream that
/// `encode` produces; the result re-encodes to exactly the input, so the
/// decoded record agrees with the encoded one field for field.
#[verifier::rlimit(100)]
pub fn decode(tokens: &Vec<String>) -> (r: Option<BlockLifecycle>)
    ensures
        r matches Some(c) ==> spec_encode(c) == tokens.deep_view()
            && c.mev.sandwich_attacks@.len() == 0 && c.mev.arbitrage_ops@.len() == 0,
        (exists|c: BlockLifecycle|
            spec_encode(c) == tokens.deep_view() && c.mev.sandwich_attacks@.len() == 0
                && c.mev.arbitrage_ops@.len() == 0) ==> r is Some,
{
    let ghost t = tokens.deep_view();
    let ghost has_w = exists|c: BlockLifecycle|
        spec_encode(c) == t && c.mev.sandwich_attacks@.len() == 0 && c.mev.arbitrage_ops@.len()
            == 0;
    let ghost w = choose|c: BlockLifecycle|
        spec_encode(c) == t && c.mev.sandwich_attacks@.len() == 0 && c.mev.arbitrage_ops@.len()
            == 0;
    proof {
        if has_w {
            lemma_decompose(w, t);
            assert(t[0] == head_tokens(w)[0]);
            assert(t[1] == head_tokens(w)[1]);
            assert(t[2] == head_tokens(w)[2]);
            assert(t[3] == head_tokens(w)[3]);
            assert(t[off_timing(w)] == timing_tokens(w)[0]);
            assert(t[off_timing(w) + 1] == timing_tokens(w)[1]);
            assert forall|k: int|
                0 <= k < 20 implies #[trigger] t[off_scalars(w) + k] == scalar_tokens(w)[k] by {
                assert(t.subrange(off_scalars(w), off_bots(w))[k] == t[off_scalars(w) + k]);
            }
            assert(t[off_flag(w)] == seq![bool_str(w.pbs.is_pbs_block)][0]);
            assert(t[off_extra(w)] == seq![w.pbs.extra_data@][0]);
        }
    }
    let (block_number, i1) = match take_u64(tokens, 0) {
        Some(p) => p,
        None => {
            proof {
                if has_w {
                    assert(false);
                }
            }
            return None;
        },
    };
    let (block_hash, i2) = match take_str(tokens, i1) {
        Some(p) => p,
        None => {
            proof {
                if has_w {
                    assert(false);
                }
            }
            return None;
        },
    };
    let (timestamp, i3) = match take_u64(tokens, i2) {
        Some(p) => p,
        None => {
            proof {
                if has_w {
                    assert(false);
                }
            }
            return None;
        },
    };
    let (proposer, i4) = match take_str(tokens, i3) {
        Some(p) => p,
        None => {
            proof {
                if has_w {
                    assert(false);
                }
            }
            return None;
        },
    };
    proof {
        if has_w {
            assert(prefix_at(enc_opt_str(w.builder), t, 4));
        }
    }
    let (builder, i5) = match take_opt_str(tokens, i4) {
        Some(p) => p,
        None => {
            proof {
                if has_w {
                    assert(false);
                }
            }
            return None;
        },
    };
    proof {
        if has_w {
            lemma_opt_str_det(builder, w.builder, t, 4);
            assert(i5 as int == off_timing(w));
        }
    }
    let (block_time, i6) = match take_u64(tokens, i5) {
        Some(p) => p,
        None => {
            proof {
                if has_w {
                    assert(false);
                }
            }
            return None;
        },
    };
    let (timing_timestamp, i7) = match take_u64(tokens, i6) {
        Some(p) => p,
        None => {
            proof {
                if has_w {
                    assert(false);
                }
            }
            return None;
        },
    };
    proof {
        if has_w {
            assert(prefix_at(enc_opt_nat(opt_nat_of_u64(w.timing.propagation_delay)), t, off_pd(w)));
        }
    }
    let (propagation_delay, i8) = match take_opt_u64(tokens, i7) {
        Some(p) => p,
        None => {
            proof {
                if has_w {
                    assert(false);
                }
            }
            return None;
        },
    };
    proof {
        if has_w {
            lemma_opt_nat_det(
                opt_nat_of_u64(propagation_delay),
                opt_nat_of_u64(w.timing.propagation_delay),
                t,
                off_pd(w),
            );
            assert(opt_nat_of_u64(propagation_delay) == opt_nat_of_u64(
                w.timing.propagation_delay,
            ));
            assert(i8 as int == off_scalars(w));
        }
    }
    proof {
        if has_w {
            assert(prefix_at(scalar_tokens(w), t, off_scalars(w)));
        }
    }
    let (scalars, j20) = match take_scalars(tokens, i8) {
        Some(p) => p,
        None => {
            proof {
                if has_w {
                    assert(false);
                }
            }
            return None;
        },
    };
    proof {
        if has_w {
            assert(j20 as int == off_bots(w));
            assert(prefix_at(enc_strings(w.mev.mev_bot_addresses.deep_view()), t, off_bots(w)));
        }
    }
    let (mev_bot_addresses, k1) = match take_strings(tokens, j20) {
        Some(p) => p,
        None => {
            proof {
                if has_w {
                    assert(false);
                }
            }
            return None;
        },
    };
    proof {
        if has_w {
            lemma_strings_det(
                mev_bot_addresses.deep_view(),
                w.mev.mev_bot_addresses.deep_view(),
                t,
                off_bots(w),
            );
            assert(k1 as int == off_flag(w));
        }
    }
    let (is_pbs_block, k2) = match take_bool(tokens, k1) {
        Some(p) => p,
        None => {
            proof {
                if has_w {
                    assert(false);
                }
            }
            return None;
        },
    };
    proof {
        if has_w {
            assert(prefix_at(enc_opt_str(w.pbs.builder_address), t, off_baddr(w)));
        }
    }
    let (builder_address, k3) = match take_opt_str(tokens, k2) {
        Some(p) => p,
        None => {
            proof {
                if has_w {
                    assert(false);
                }
            }
            return None;
        },
    };
    proof {
        if has_w {
            lemma_opt_str_det(builder_address, w.pbs.builder_address, t, off_baddr(w));
            assert(k3 as int == off_payment(w));
            assert(prefix_at(
                enc_opt_nat(opt_nat_of_u128(w.pbs.builder_payment_wei)),
                t,
                off_payment(w),
            ));
        }
    }
    let (builder_payment_wei, k4) = match take_opt_u128(tokens, k3) {
        Some(p) => p,
        None => {
            proof {
                if has_w {
                    assert(false);
                }
            }
            return None;
        },
    };
    proof {
        if has_w {
            lemma_opt_nat_det(
                opt_nat_of_u128(builder_payment_wei),
                opt_nat_of_u128(w.pbs.builder_payment_wei),
                t,
                off_payment(w),
            );
            assert(k4 as int == off_extra(w));
            assert(k4 < tokens@.len());
        }
    }
    let (extra_data, k5) = match take_str(tokens, k4) {
        Some(p) => p,
        None => {
            proof {
                if has_w {
                    assert(false);
                }
            }
            return None;
        },
    };
    if k5 != tokens.len() {
        proof {
            if has_w {
                assert(k5 as int == t.len());
                assert(false);
            }
        }
        return None;
    }
    let result = BlockLifecycle {
        block_number,
        block_hash,
        timestamp,
        proposer,
        builder,
        timing: crate::types::TimingMetrics {
            block_time,
            timestamp: timing_timestamp,
            propagation_delay,
        },
        gas: crate::types::GasMetrics {
            gas_used: scalars.gas_used,
            gas_limit: scalars.gas_limit,
            utilization_bps: scalars.utilization_bps,
            base_fee_wei: scalars.base_fee_wei,
            avg_priority_fee_wei: scalars.avg_priority_fee_wei,
            fees_burned_wei: scalars.fees_burned_wei,
            priority_fees_wei: scalars.priority_fees_wei,
        },
        transactions: crate::types::TransactionMetrics {
            total_count: scalars.total_count,
            type_breakdown: crate::types::TypeBreakdown {
                legacy: scalars.legacy,
                eip2930: scalars.eip2930,
                eip1559: scalars.eip1559,
                eip4844_blob: scalars.eip4844_blob,
            },
            ordering: crate::types::OrderingMetrics {
                sorted_by_priority: scalars.sorted_by_priority,
                anomalies: scalars.anomalies,
                avg_deviation: scalars.avg_deviation,
            },
            failed_count: scalars.failed_count,
        },
        mev: crate::types::MevIndicators {
            sandwich_attacks: Vec::new(),
            arbitrage_ops: Vec::new(),
            liquidations: scalars.liquidations,
            estimated_mev_wei: scalars.estimated_mev_wei,
            mev_bot_addresses,
        },
        pbs: crate::types::PbsMetrics {
            is_pbs_block,
            builder_address,
            builder_payment_wei,
            extra_data,
        },
    };
    proof {
        assert(i5 as int == off_timing(result));
        assert(i8 as int == off_scalars(result));
        assert(j20 as int == off_bots(result));
        assert(k1 as int == off_flag(result));
        assert(k3 as int == off_payment(result));
        assert(k4 as int == off_extra(result));
        assert forall|k: int|
            0 <= k < 20 implies #[trigger] t[off_scalars(result) + k] == scalar_block_tokens(
                scalars,
            )[k] by {
            assert(t.subrange(i8 as int, i8 as int + 20)[k] == t[i8 as int + k]);
        }
        assert(result.mev.sandwich_attacks@.len() == 0);
        assert(result.mev.arbitrage_ops@.len() == 0);
        lemma_result_encodes(result, t);
    }
    Some(result)
}

/// Equal scalar runs carry equal scalar fields.
#[verifier::rlimit(100)]
proof fn lemma_scalar_fields_eq(a: BlockLifecycle, b: BlockLifecycle)
    requires
        scalar_tokens(a) == scalar_tokens(b),
    ensures
        a.gas.gas_used == b.gas.gas_used,
        a.gas.gas_limit == b.gas.gas_limit,
        a.gas.utilization_bps == b.gas.utilization_bps,
        a.gas.base_fee_wei == b.gas.base_fee_wei,
        a.gas.avg_priority_fee_wei == b.gas.avg_priority_fee_wei,
        a.gas.fees_burned_wei == b.gas.fees_burned_wei,
        a.gas.priority_fees_wei == b.gas.priority_fees_wei,
        a.transactions.total_count == b.transactions.total_count,
        a.transactions.type_breakdown.legacy == b.transactions.type_breakdown.legacy,
        a.transactions.type_breakdown.eip2930 == b.transactions.type_breakdown.eip2930,
        a.transactions.type_breakdown.eip1559 == b.transactions.type_breakdown.eip1559,
        a.transactions.type_breakdown.eip4844_blob == b.transactions.type_breakdown.eip4844_blob,
        a.transactions.ordering.sorted_by_priority == b.transactions.ordering.sorted_by_priority,
        a.transactions.ordering.anomalies == b.transactions.ordering.anomalies,
        a.transactions.ordering.avg_deviation == b.transactions.ordering.avg_deviation,
        a.transactions.failed_count == b.transactions.failed_count,
        a.mev.sandwich_attacks@.len() == b.mev.sandwich_attacks@.len(),
        a.mev.arbitrage_ops@.len() == b.mev.arbitrage_ops@.len(),
        a.mev.liquidations == b.mev.liquidations,
        a.mev.estimated_mev_wei == b.mev.estimated_mev_wei,
{
    assert(scalar_tokens(a)[0] == scalar_tokens(b)[0]);
    lemma_dec_str_injective(a.gas.gas_used as nat, b.gas.gas_used as nat);
    assert(scalar_tokens(a)[1] == scalar_tokens(b)[1]);
    lemma_dec_str_injective(a.gas.gas_limit as nat, b.gas.gas_limit as nat);
    assert(scalar_tokens(a)[2] == scalar_tokens(b)[2]);
    lemma_dec_str_injective(a.gas.utilization_bps as nat, b.gas.utilization_bps as nat);
    assert(scalar_tokens(a)[3] == scalar_tokens(b)[3]);
    lemma_dec_str_injective(a.gas.base_fee_wei as nat, b.gas.base_fee_wei as nat);
    assert(scalar_tokens(a)[4] == scalar_tokens(b)[4]);
    lemma_dec_str_injective(a.gas.avg_priority_fee_wei as nat, b.gas.avg_priority_fee_wei as nat);
    assert(scalar_tokens(a)[5] == scalar_tokens(b)[5]);
    lemma_dec_str_injective(a.gas.fees_burned_wei as nat, b.gas.fees_burned_wei as nat);
    assert(scalar_tokens(a)[6] == scalar_tokens(b)[6]);
    lemma_dec_str_injective(a.gas.priority_fees_wei as nat, b.gas.priority_fees_wei as nat);
    assert(scalar_tokens(a)[7] == scalar_tokens(b)[7]);
    lemma_dec_str_injective(a.transactions.total_count as nat, b.transactions.total_count as nat);
    assert(scalar_tokens(a)[8] == scalar_tokens(b)[8]);
    lemma_dec_str_injective(a.transactions.type_breakdown.legacy as nat, b.transactions.type_breakdown.legacy as nat);
    assert(scalar_tokens(a)[9] == scalar_tokens(b)[9]);
    lemma_dec_str_injective(a.transactions.type_breakdown.eip2930 as nat, b.transactions.type_breakdown.eip2930 as nat);
    assert(scalar_tokens(a)[10] == scalar_tokens(b)[10]);
    lemma_dec_str_injective(a.transactions.type_breakdown.eip1559 as nat, b.transactions.type_breakdown.eip1559 as nat);
    assert(scalar_tokens(a)[11] == scalar_tokens(b)[11]);
    lemma_dec_str_injective(a.transactions.type_breakdown.eip4844_blob as nat, b.transactions.type_breakdown.eip4844_blob as nat);
    assert(scalar_tokens(a)[12] == scalar_tokens(b)[12]);
    if a.transactions.ordering.sorted_by_priority != b.transactions.ordering.sorted_by_priority {
        assert(bool_str(true).len() == 4);
        assert(bool_str(false).len() == 5);
        assert(false);
    }
    assert(scalar_tokens(a)[13] == scalar_tokens(b)[13]);
    lemma_dec_str_injective(a.transactions.ordering.anomalies as nat, b.transactions.ordering.anomalies as nat);
    assert(scalar_tokens(a)[14] == scalar_tokens(b)[14]);
    lemma_dec_str_injective(a.transactions.ordering.avg_deviation as nat, b.transactions.ordering.avg_deviation as nat);
    assert(scalar_tokens(a)[15] == scalar_tokens(b)[15]);
    lemma_dec_str_injective(a.transactions.failed_count as nat, b.transactions.failed_count as nat);
    assert(scalar_tokens(a)[16] == scalar_tokens(b)[16]);
    lemma_dec_str_injective(a.mev.sandwich_attacks@.len(), b.mev.sandwich_attacks@.len());
    assert(scalar_tokens(a)[17] == scalar_tokens(b)[17]);
    lemma_dec_str_injective(a.mev.arbitrage_ops@.len(), b.mev.arbitrage_ops@.len());
    assert(scalar_tokens(a)[18] == scalar_tokens(b)[18]);
    lemma_dec_str_injective(a.mev.liquidations as nat, b.mev.liquidations as nat);
    assert(scalar_tokens(a)[19] == scalar_tokens(b)[19]);
    lemma_dec_str_injective(a.mev.estimated_mev_wei as nat, b.mev.estimated_mev_wei as nat);
}

/// Single-segment views of `lemma_decompose`, so that a caller brings only
/// the facts it needs into scope.
proof fn lemma_seg_head(w: BlockLifecycle, t: Seq<Seq<char>>)
    requires
        spec_encode(w) == t,
    ensures
        head_tokens(w) == t.subrange(0, 4),
{
    lemma_decompose(w, t);
}

proof fn lemma_seg_builder(w: BlockLifecycle, t: Seq<Seq<char>>)
    requires
        spec_encode(w) == t,
    ensures
        enc_opt_str(w.builder) == t.subrange(4, off_timing(w)),
{
    lemma_decompose(w, t);
}

proof fn lemma_seg_timing(w: BlockLifecycle, t: Seq<Seq<char>>)
    requires
        spec_encode(w) == t,
    ensures
        timing_tokens(w) == t.subrange(off_timing(w), off_pd(w)),
{
    lemma_decompose(w, t);
}

proof fn lemma_seg_pd(w: BlockLifecycle, t: Seq<Seq<char>>)
    requires
        spec_encode(w) == t,
    ensures
        enc_opt_nat(opt_nat_of_u64(w.timing.propagation_delay)) == t.subrange(
            off_pd(w),
            off_scalars(w),
        ),
{
    lemma_decompose(w, t);
}

proof fn lemma_seg_scalars(w: BlockLifecycle, t: Seq<Seq<char>>)
    requires
        spec_encode(w) == t,
    ensures
        scalar_tokens(w) == t.subrange(off_scalars(w), off_bots(w)),
{
    lemma_decompose(w, t);
}

proof fn lemma_seg_bots(w: BlockLifecycle, t: Seq<Seq<char>>)
    requires
        spec_encode(w) == t,
    ensures
        enc_strings(w.mev.mev_bot_addresses.deep_view()) == t.subrange(off_bots(w), off_flag(w)),
{
    lemma_decompose(w, t);
}

proof fn lemma_seg_flag(w: BlockLifecycle, t: Seq<Seq<char>>)
    requires
        spec_encode(w) == t,
    ensures
        seq![bool_str(w.pbs.is_pbs_block)] == t.subrange(off_flag(w), off_baddr(w)),
{
    lemma_decompose(w, t);
}

proof fn lemma_seg_baddr(w: BlockLifecycle, t: Seq<Seq<char>>)
    requires
        spec_encode(w) == t,
    ensures
        enc_opt_str(w.pbs.builder_address) == t.subrange(off_baddr(w), off_payment(w)),
{
    lemma_decompose(w, t);
}

proof fn lemma_seg_payment(w: BlockLifecycle, t: Seq<Seq<char>>)
    requires
        spec_encode(w) == t,
    ensures
        enc_opt_nat(opt_nat_of_u128(w.pbs.builder_payment_wei)) == t.subrange(
            off_payment(w),
            off_extra(w),
        ),
{
    lemma_decompose(w, t);
}

proof fn lemma_seg_extra(w: BlockLifecycle, t: Seq<Seq<char>>)
    requires
        spec_encode(w) == t,
    ensures
        seq![w.pbs.extra_data@] == t.subrange(off_extra(w), off_extra(w) + 1),
        t.len() == off_extra(w) + 1,
{
    lemma_decompose(w, t);
}

/// The identity tokens agree.
#[verifier::rlimit(100)]
#[verifier::spinoff_prover]
proof fn lemma_injective_head(a: BlockLifecycle, b: BlockLifecycle)
    requires
        spec_encode(a) == spec_encode(b),
    ensures
        a.block_number == b.block_number,
        a.block_hash@ == b.block_hash@,
        a.timestamp == b.timestamp,
        a.proposer@ == b.proposer@,
{
    let t = spec_encode(a);
    lemma_seg_head(a, t);
    lemma_seg_head(b, t);
    assert(head_tokens(a) == head_tokens(b));
    assert(head_tokens(a)[0] == head_tokens(b)[0]);
    lemma_dec_str_injective(a.block_number as nat, b.block_number as nat);
    assert(head_tokens(a)[1] == head_tokens(b)[1]);
    assert(head_tokens(a)[2] == head_tokens(b)[2]);
    lemma_dec_str_injective(a.timestamp as nat, b.timestamp as nat);
    assert(head_tokens(a)[3] == head_tokens(b)[3]);
}

/// The leading segments agree: builder and timing fields, and with them the
/// position of the scalar run.
#[verifier::rlimit(100)]
#[verifier::spinoff_prover]
proof fn lemma_injective_front(a: BlockLifecycle, b: BlockLifecycle)
    requires
        spec_encode(a) == spec_encode(b),
    ensures
        (a.builder is Some <==> b.builder is Some),
        a.builder is Some ==> a.builder->0@ == b.builder->0@,
        a.timing.block_time == b.timing.block_time,
        a.timing.timestamp == b.timing.timestamp,
        a.timing.propagation_delay == b.timing.propagation_delay,
        off_scalars(a) == off_scalars(b),
{
    let t = spec_encode(a);
    lemma_seg_builder(a, t);
    lemma_seg_builder(b, t);
    lemma_seg_timing(a, t);
    lemma_seg_timing(b, t);
    lemma_seg_pd(a, t);
    lemma_seg_pd(b, t);
    assert(prefix_at(enc_opt_str(a.builder), t, 4));
    assert(prefix_at(enc_opt_str(b.builder), t, 4));
    lemma_opt_str_det(a.builder, b.builder, t, 4);
    assert(off_timing(a) == off_timing(b));
    assert(timing_tokens(a)[0] == t[off_timing(a)]);
    assert(timing_tokens(b)[0] == t[off_timing(a)]);
    lemma_dec_str_injective(a.timing.block_time as nat, b.timing.block_time as nat);
    assert(timing_tokens(a)[1] == t[off_timing(a) + 1]);
    assert(timing_tokens(b)[1] == t[off_timing(a) + 1]);
    lemma_dec_str_injective(a.timing.timestamp as nat, b.timing.timestamp as nat);
    assert(prefix_at(enc_opt_nat(opt_nat_of_u64(a.timing.propagation_delay)), t, off_pd(a)));
    assert(prefix_at(enc_opt_nat(opt_nat_of_u64(b.timing.propagation_delay)), t, off_pd(a)));
    lemma_opt_nat_det(
        opt_nat_of_u64(a.timing.propagation_delay),
        opt_nat_of_u64(b.timing.propagation_delay),
        t,
        off_pd(a),
    );
    assert(a.timing.propagation_delay == b.timing.propagation_delay);
    assert(off_scalars(a) == off_scalars(b));
}

/// The trailing segments agree: gas, transaction, MEV and PBS fields.
#[verifier::rlimit(100)]
#[verifier::spinoff_prover]
proof fn lemma_injective_tail(a: BlockLifecycle, b: BlockLifecycle)
    requires
        spec_encode(a) == spec_encode(b),
        off_scalars(a) == off_scalars(b),
    ensures
        a.gas.gas_used == b.gas.gas_used,
        a.gas.gas_limit == b.gas.gas_limit,
        a.gas.utilization_bps == b.gas.utilization_bps,
        a.gas.base_fee_wei == b.gas.base_fee_wei,
        a.gas.avg_priority_fee_wei == b.gas.avg_priority_fee_wei,
        a.gas.fees_burned_wei == b.gas.fees_burned_wei,
        a.gas.priority_fees_wei == b.gas.priority_fees_wei,
        a.transactions.total_count == b.transactions.total_count,
        a.transactions.type_breakdown.legacy == b.transactions.type_breakdown.legacy,
        a.transactions.type_breakdown.eip2930 == b.transactions.type_breakdown.eip2930,
        a.transactions.type_breakdown.eip1559 == b.transactions.type_breakdown.eip1559,
        a.transactions.type_breakdown.eip4844_blob == b.transactions.type_breakdown.eip4844_blob,
        a.transactions.ordering.sorted_by_priority == b.transactions.ordering.sorted_by_priority,
        a.transactions.ordering.anomalies == b.transactions.ordering.anomalies,
        a.transactions.ordering.avg_deviation == b.transactions.ordering.avg_deviation,
        a.transactions.failed_count == b.transactions.failed_count,
        a.mev.sandwich_attacks@.len() == b.mev.sandwich_attacks@.len(),
        a.mev.arbitrage_ops@.len() == b.mev.arbitrage_ops@.len(),
        a.mev.liquidations == b.mev.liquidations,
        a.mev.estimated_mev_wei == b.mev.estimated_mev_wei,
        a.mev.mev_bot_addresses.deep_view() == b.mev.mev_bot_addresses.deep_view(),
        a.pbs.is_pbs_block == b.pbs.is_pbs_block,
        (a.pbs.builder_address is Some <==> b.pbs.builder_address is Some),
        a.pbs.builder_address is Some ==> a.pbs.builder_address->0@ == b.pbs.builder_address->0@,
        a.pbs.builder_payment_wei == b.pbs.builder_payment_wei,
        a.pbs.extra_data@ == b.pbs.extra_data@,
{
    let t = spec_encode(a);
    lemma_seg_scalars(a, t);
    lemma_seg_scalars(b, t);
    lemma_seg_bots(a, t);
    lemma_seg_bots(b, t);
    lemma_seg_flag(a, t);
    lemma_seg_flag(b, t);
    lemma_seg_baddr(a, t);
    lemma_seg_baddr(b, t);
    lemma_seg_payment(a, t);
    lemma_seg_payment(b, t);
    lemma_seg_extra(a, t);
    lemma_seg_extra(b, t);
    assert(scalar_tokens(a) == scalar_tokens(b)) by {
        assert(scalar_tokens(a) == t.subrange(off_scalars(a), off_bots(a)));
        assert(scalar_tokens(b) == t.subrange(off_scalars(a), off_bots(a)));
    }
    lemma_scalar_fields_eq(a, b);
    assert(off_bots(a) == off_bots(b));
    assert(prefix_at(enc_strings(a.mev.mev_bot_addresses.deep_view()), t, off_bots(a)));
    assert(prefix_at(enc_strings(b.mev.mev_bot_addresses.deep_view()), t, off_bots(a)));
    lemma_strings_det(
        a.mev.mev_bot_addresses.deep_view(),
        b.mev.mev_bot_addresses.deep_view(),
        t,
        off_bots(a),
    );
    assert(off_flag(a) == off_flag(b));
    assert(seq![bool_str(a.pbs.is_pbs_block)][0] == t[off_flag(a)]);
    assert(seq![bool_str(b.pbs.is_pbs_block)][0] == t[off_flag(a)]);
    if a.pbs.is_pbs_block != b.pbs.is_pbs_block {
        assert(bool_str(true).len() == 4);
        assert(bool_str(false).len() == 5);
        assert(false);
    }
    assert(off_baddr(a) == off_baddr(b));
    assert(prefix_at(enc_opt_str(a.pbs.builder_address), t, off_baddr(a)));
    assert(prefix_at(enc_opt_str(b.pbs.builder_address), t, off_baddr(a)));
    lemma_opt_str_det(a.pbs.builder_address, b.pbs.builder_address, t, off_baddr(a));
    assert(off_payment(a) == off_payment(b));
    assert(prefix_at(enc_opt_nat(opt_nat_of_u128(a.pbs.builder_payment_wei)), t, off_payment(a)));
    assert(prefix_at(enc_opt_nat(opt_nat_of_u128(b.pbs.builder_payment_wei)), t, off_payment(a)));
    lemma_opt_nat_det(
        opt_nat_of_u128(a.pbs.builder_payment_wei),
        opt_nat_of_u128(b.pbs.builder_payment_wei),
        t,
        off_payment(a),
    );
    assert(a.pbs.builder_payment_wei == b.pbs.builder_payment_wei);
    assert(off_extra(a) == off_extra(b));
    assert(seq![a.pbs.extra_data@][0] == t[off_extra(a)]);
    assert(seq![b.pbs.extra_data@][0] == t[off_extra(a)]);
}

/// The token form determines the record: two records that encode to the
/// same tokens agree field for field. With `encode` and `decode`, this is
/// the round trip: decoding an encoded record recovers every field.
pub proof fn lemma_encode_injective(a: BlockLifecycle, b: BlockLifecycle)
    requires
        spec_encode(a) == spec_encode(b),
    ensures
        same_record(a, b),
{
    lemma_injective_head(a, b);
    lemma_injective_front(a, b);
    lemma_injective_tail(a, b);
}

} // verus!
