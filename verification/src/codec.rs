//! The block codec: a canonical, deterministic binary serialization of a
//! `Block` in a fixed field order, with a verified decoder that inverts it.
//!
//! The wire format is the Borsh layout of the block record: an optional
//! string is a presence byte (`0` or `1`) followed, when present, by the
//! string's UTF-8 bytes behind a little-endian `u32` byte count; a list is
//! a little-endian `u32` element count followed by its elements.
use crate::block::{Block, BlockModel, Transaction, TransactionModel};
use vstd::bytes::{
    lemma_auto_spec_u32_to_from_le_bytes, spec_u32_from_le_bytes, spec_u32_to_le_bytes,
    u32_from_le_bytes, u32_to_le_bytes,
};
use vstd::prelude::*;
use vstd::slice::{slice_index_get, slice_subrange, slice_to_vec};
use vstd::string::StrSliceExecFns;
use vstd::utf8::{
    decode_utf8, encode_utf8, encode_utf8_decode_utf8, encode_utf8_valid_utf8, valid_utf8,
};

verus! {

// ----------------------------------------------------------------------
// well-formedness: every length must fit the u32 prefixes
// ----------------------------------------------------------------------
pub open spec fn str_wf(s: Seq<char>) -> bool {
    encode_utf8(s).len() <= u32::MAX
}

pub open spec fn opt_str_wf(o: Option<Seq<char>>) -> bool {
    match o {
        Some(s) => str_wf(s),
        None => true,
    }
}

pub open spec fn seq_str_wf(v: Seq<Seq<char>>) -> bool {
    v.len() <= u32::MAX && forall|i: int| 0 <= i < v.len() ==> str_wf(#[trigger] v[i])
}

pub open spec fn opt_seq_str_wf(o: Option<Seq<Seq<char>>>) -> bool {
    match o {
        Some(v) => seq_str_wf(v),
        None => true,
    }
}

pub open spec fn tx_wf(t: TransactionModel) -> bool {
    &&& opt_str_wf(t.block_hash)
    &&& opt_str_wf(t.block_number)
    &&& opt_str_wf(t.chain_id)
    &&& opt_str_wf(t.from)
    &&& opt_str_wf(t.gas)
    &&& opt_str_wf(t.gas_price)
    &&& opt_str_wf(t.hash)
    &&& opt_str_wf(t.input)
    &&& opt_str_wf(t.nonce)
    &&& opt_str_wf(t.r)
    &&& opt_str_wf(t.s)
    &&& opt_str_wf(t.to)
    &&& opt_str_wf(t.transaction_index)
    &&& opt_str_wf(t.transaction_type)
    &&& opt_str_wf(t.v)
    &&& opt_str_wf(t.value)
}

pub open spec fn seq_tx_wf(v: Seq<TransactionModel>) -> bool {
    v.len() <= u32::MAX && forall|i: int| 0 <= i < v.len() ==> tx_wf(#[trigger] v[i])
}

pub open spec fn opt_seq_tx_wf(o: Option<Seq<TransactionModel>>) -> bool {
    match o {
        Some(v) => seq_tx_wf(v),
        None => true,
    }
}

/// A block whose every length fits the wire format's u32 prefixes.
pub open spec fn block_wf(m: BlockModel) -> bool {
    &&& opt_str_wf(m.base_fee_per_gas)
    &&& opt_str_wf(m.blob_gas_used)
    &&& opt_str_wf(m.difficulty)
    &&& opt_str_wf(m.excess_blob_gas)
    &&& opt_str_wf(m.extra_data)
    &&& opt_str_wf(m.gas_limit)
    &&& opt_str_wf(m.gas_used)
    &&& opt_str_wf(m.hash)
    &&& opt_str_wf(m.logs_bloom)
    &&& opt_str_wf(m.miner)
    &&& opt_str_wf(m.mix_hash)
    &&& opt_str_wf(m.nonce)
    &&& opt_str_wf(m.number)
    &&& opt_str_wf(m.parent_beacon_block_root)
    &&& opt_str_wf(m.parent_hash)
    &&& opt_str_wf(m.receipts_root)
    &&& opt_str_wf(m.sha3_uncles)
    &&& opt_str_wf(m.size)
    &&& opt_str_wf(m.state_root)
    &&& opt_str_wf(m.timestamp)
    &&& opt_str_wf(m.total_difficulty)
    &&& opt_seq_tx_wf(m.transactions)
    &&& opt_seq_str_wf(m.uncles)
    &&& opt_seq_str_wf(m.withdrawals)
    &&& opt_str_wf(m.withdrawals_root)
}

// ----------------------------------------------------------------------
// the encoding, as a function on models
// ----------------------------------------------------------------------
pub open spec fn enc_u32(n: u32) -> Seq<u8> {
    spec_u32_to_le_bytes(n)
}

pub open spec fn enc_str(s: Seq<char>) -> Seq<u8> {
    enc_u32(encode_utf8(s).len() as u32) + encode_utf8(s)
}

pub open spec fn enc_opt_str(o: Option<Seq<char>>) -> Seq<u8> {
    match o {
        None => seq![0u8],
        Some(s) => seq![1u8] + enc_str(s),
    }
}

pub open spec fn enc_seq_str_from(v: Seq<Seq<char>>, k: int) -> Seq<u8>
    decreases v.len() - k,
{
    if 0 <= k < v.len() {
        enc_str(v[k]) + enc_seq_str_from(v, k + 1)
    } else {
        Seq::<u8>::empty()
    }
}

pub open spec fn enc_vec_str(v: Seq<Seq<char>>) -> Seq<u8> {
    enc_u32(v.len() as u32) + enc_seq_str_from(v, 0)
}

pub open spec fn enc_opt_vec_str(o: Option<Seq<Seq<char>>>) -> Seq<u8> {
    match o {
        None => seq![0u8],
        Some(v) => seq![1u8] + enc_vec_str(v),
    }
}

/// The transaction's field at position `k` of the fixed field order.
pub open spec fn tx_field(t: TransactionModel, k: int) -> Option<Seq<char>> {
    if k == 0 {
        t.block_hash
    } else if k == 1 {
        t.block_number
    } else if k == 2 {
        t.chain_id
    } else if k == 3 {
        t.from
    } else if k == 4 {
        t.gas
    } else if k == 5 {
        t.gas_price
    } else if k == 6 {
        t.hash
    } else if k == 7 {
        t.input
    } else if k == 8 {
        t.nonce
    } else if k == 9 {
        t.r
    } else if k == 10 {
        t.s
    } else if k == 11 {
        t.to
    } else if k == 12 {
        t.transaction_index
    } else if k == 13 {
        t.transaction_type
    } else if k == 14 {
        t.v
    } else {
        t.value
    }
}

pub open spec fn enc_tx_from(t: TransactionModel, k: int) -> Seq<u8>
    decreases 16 - k,
{
    if 0 <= k < 16 {
        enc_opt_str(tx_field(t, k)) + enc_tx_from(t, k + 1)
    } else {
        Seq::<u8>::empty()
    }
}

pub open spec fn enc_tx(t: TransactionModel) -> Seq<u8> {
    enc_tx_from(t, 0)
}

pub open spec fn enc_seq_tx_from(v: Seq<TransactionModel>, k: int) -> Seq<u8>
    decreases v.len() - k,
{
    if 0 <= k < v.len() {
        enc_tx(v[k]) + enc_seq_tx_from(v, k + 1)
    } else {
        Seq::<u8>::empty()
    }
}

pub open spec fn enc_vec_tx(v: Seq<TransactionModel>) -> Seq<u8> {
    enc_u32(v.len() as u32) + enc_seq_tx_from(v, 0)
}

pub open spec fn enc_opt_vec_tx(o: Option<Seq<TransactionModel>>) -> Seq<u8> {
    match o {
        None => seq![0u8],
        Some(v) => seq![1u8] + enc_vec_tx(v),
    }
}

/// The block's encoded field at position `k` of the fixed field order.
pub open spec fn enc_block_field(m: BlockModel, k: int) -> Seq<u8> {
    if k == 0 {
        enc_opt_str(m.base_fee_per_gas)
    } else if k == 1 {
        enc_opt_str(m.blob_gas_used)
    } else if k == 2 {
        enc_opt_str(m.difficulty)
    } else if k == 3 {
        enc_opt_str(m.excess_blob_gas)
    } else if k == 4 {
        enc_opt_str(m.extra_data)
    } else if k == 5 {
        enc_opt_str(m.gas_limit)
    } else if k == 6 {
        enc_opt_str(m.gas_used)
    } else if k == 7 {
        enc_opt_str(m.hash)
    } else if k == 8 {
        enc_opt_str(m.logs_bloom)
    } else if k == 9 {
        enc_opt_str(m.miner)
    } else if k == 10 {
        enc_opt_str(m.mix_hash)
    } else if k == 11 {
        enc_opt_str(m.nonce)
    } else if k == 12 {
        enc_opt_str(m.number)
    } else if k == 13 {
        enc_opt_str(m.parent_beacon_block_root)
    } else if k == 14 {
        enc_opt_str(m.parent_hash)
    } else if k == 15 {
        enc_opt_str(m.receipts_root)
    } else if k == 16 {
        enc_opt_str(m.sha3_uncles)
    } else if k == 17 {
        enc_opt_str(m.size)
    } else if k == 18 {
        enc_opt_str(m.state_root)
    } else if k == 19 {
        enc_opt_str(m.timestamp)
    } else if k == 20 {
        enc_opt_str(m.total_difficulty)
    } else if k == 21 {
        enc_opt_vec_tx(m.transactions)
    } else if k == 22 {
        enc_opt_vec_str(m.uncles)
    } else if k == 23 {
        enc_opt_vec_str(m.withdrawals)
    } else {
        enc_opt_str(m.withdrawals_root)
    }
}

pub open spec fn enc_block_from(m: BlockModel, k: int) -> Seq<u8>
    decreases 25 - k,
{
    if 0 <= k < 25 {
        enc_block_field(m, k) + enc_block_from(m, k + 1)
    } else {
        Seq::<u8>::empty()
    }
}

/// The canonical encoding of a block: its 25 fields, in declaration
/// order, each in the wire format.
pub open spec fn enc_block(m: BlockModel) -> Seq<u8> {
    enc_block_from(m, 0)
}

// ----------------------------------------------------------------------
// the decoding, as a function on byte sequences
// ----------------------------------------------------------------------
pub open spec fn p_u32(s: Seq<u8>) -> Option<(u32, Seq<u8>)> {
    if s.len() >= 4 {
        Some((spec_u32_from_le_bytes(s.take(4)), s.skip(4)))
    } else {
        None
    }
}

pub open spec fn p_str(s: Seq<u8>) -> Option<(Seq<char>, Seq<u8>)> {
    match p_u32(s) {
        None => None,
        Some((n, s2)) => if s2.len() >= n {
            if valid_utf8(s2.take(n as int)) {
                Some((decode_utf8(s2.take(n as int)), s2.skip(n as int)))
            } else {
                None
            }
        } else {
            None
        },
    }
}

pub open spec fn p_opt_str(s: Seq<u8>) -> Option<(Option<Seq<char>>, Seq<u8>)> {
    if s.len() == 0 {
        None
    } else if s[0] == 0u8 {
        Some((None, s.drop_first()))
    } else if s[0] == 1u8 {
        match p_str(s.drop_first()) {
            None => None,
            Some((v, s2)) => Some((Some(v), s2)),
        }
    } else {
        None
    }
}

pub open spec fn p_seq_str(s: Seq<u8>, c: nat) -> Option<(Seq<Seq<char>>, Seq<u8>)>
    decreases c,
{
    if c == 0 {
        Some((Seq::<Seq<char>>::empty(), s))
    } else {
        match p_str(s) {
            None => None,
            Some((v, s2)) => match p_seq_str(s2, (c - 1) as nat) {
                None => None,
                Some((vs, s3)) => Some((seq![v] + vs, s3)),
            },
        }
    }
}

pub open spec fn p_vec_str(s: Seq<u8>) -> Option<(Seq<Seq<char>>, Seq<u8>)> {
    match p_u32(s) {
        None => None,
        Some((n, s2)) => p_seq_str(s2, n as nat),
    }
}

pub open spec fn p_opt_vec_str(s: Seq<u8>) -> Option<(Option<Seq<Seq<char>>>, Seq<u8>)> {
    if s.len() == 0 {
        None
    } else if s[0] == 0u8 {
        Some((None, s.drop_first()))
    } else if s[0] == 1u8 {
        match p_vec_str(s.drop_first()) {
            None => None,
            Some((v, s2)) => Some((Some(v), s2)),
        }
    } else {
        None
    }
}

#[verifier::opaque]
pub open spec fn p_tx(s: Seq<u8>) -> Option<(TransactionModel, Seq<u8>)> {
    match p_opt_str(s) {
        None => None,
        Some((block_hash, s)) => match p_opt_str(s) {
            None => None,
            Some((block_number, s)) => match p_opt_str(s) {
                None => None,
                Some((chain_id, s)) => match p_opt_str(s) {
                    None => None,
                    Some((from, s)) => match p_opt_str(s) {
                        None => None,
                        Some((gas, s)) => match p_opt_str(s) {
                            None => None,
                            Some((gas_price, s)) => match p_opt_str(s) {
                                None => None,
                                Some((hash, s)) => match p_opt_str(s) {
                                    None => None,
                                    Some((input, s)) => match p_opt_str(s) {
                                        None => None,
                                        Some((nonce, s)) => match p_opt_str(s) {
                                            None => None,
                                            Some((r, s)) => match p_opt_str(s) {
                                                None => None,
                                                Some((sv, s)) => match p_opt_str(s) {
                                                    None => None,
                                                    Some((to, s)) => match p_opt_str(s) {
                                                        None => None,
                                                        Some((transaction_index, s)) => match p_opt_str(
                                                            s,
                                                        ) {
                                                            None => None,
                                                            Some((transaction_type, s)) => match p_opt_str(
                                                                s,
                                                            ) {
                                                                None => None,
                                                                Some((v, s)) => match p_opt_str(s) {
                                                                    None => None,
                                                                    Some((value, s)) => Some(
                                                                        (
                                                                            TransactionModel {
                                                                                block_hash,
                                                                                block_number,
                                                                                chain_id,
                                                                                from,
                                                                                gas,
                                                                                gas_price,
                                                                                hash,
                                                                                input,
                                                                                nonce,
                                                                                r,
                                                                                s: sv,
                                                                                to,
                                                                                transaction_index,
                                                                                transaction_type,
                                                                                v,
                                                                                value,
                                                                            },
                                                                            s,
                                                                        ),
                                                                    ),
                                                                },
                                                            },
                                                        },
                                                    },
                                                },
                                            },
                                        },
                                    },
                                },
                            },
                        },
                    },
                },
            },
        },
    }
}

pub open spec fn p_seq_tx(s: Seq<u8>, c: nat) -> Option<(Seq<TransactionModel>, Seq<u8>)>
    decreases c,
{
    if c == 0 {
        Some((Seq::<TransactionModel>::empty(), s))
    } else {
        match p_tx(s) {
            None => None,
            Some((v, s2)) => match p_seq_tx(s2, (c - 1) as nat) {
                None => None,
                Some((vs, s3)) => Some((seq![v] + vs, s3)),
            },
        }
    }
}

pub open spec fn p_vec_tx(s: Seq<u8>) -> Option<(Seq<TransactionModel>, Seq<u8>)> {
    match p_u32(s) {
        None => None,
        Some((n, s2)) => p_seq_tx(s2, n as nat),
    }
}

pub open spec fn p_opt_vec_tx(s: Seq<u8>) -> Option<(Option<Seq<TransactionModel>>, Seq<u8>)> {
    if s.len() == 0 {
        None
    } else if s[0] == 0u8 {
        Some((None, s.drop_first()))
    } else if s[0] == 1u8 {
        match p_vec_tx(s.drop_first()) {
            None => None,
            Some((v, s2)) => Some((Some(v), s2)),
        }
    } else {
        None
    }
}

#[verifier::opaque]
pub open spec fn p_block(s: Seq<u8>) -> Option<(BlockModel, Seq<u8>)> {
    match p_opt_str(s) {
        None => None,
        Some((base_fee_per_gas, s)) => match p_opt_str(s) {
            None => None,
            Some((blob_gas_used, s)) => match p_opt_str(s) {
                None => None,
                Some((difficulty, s)) => match p_opt_str(s) {
                    None => None,
                    Some((excess_blob_gas, s)) => match p_opt_str(s) {
                        None => None,
                        Some((extra_data, s)) => match p_opt_str(s) {
                            None => None,
                            Some((gas_limit, s)) => match p_opt_str(s) {
                                None => None,
                                Some((gas_used, s)) => match p_opt_str(s) {
                                    None => None,
                                    Some((hash, s)) => match p_opt_str(s) {
                                        None => None,
                                        Some((logs_bloom, s)) => match p_opt_str(s) {
                                            None => None,
                                            Some((miner, s)) => match p_opt_str(s) {
                                                None => None,
                                                Some((mix_hash, s)) => match p_opt_str(s) {
                                                    None => None,
                                                    Some((nonce, s)) => match p_opt_str(s) {
                                                        None => None,
                                                        Some((number, s)) => match p_opt_str(s) {
                                                            None => None,
                                                            Some((parent_beacon_block_root, s)) => match p_opt_str(
                                                                s,
                                                            ) {
                                                                None => None,
                                                                Some((parent_hash, s)) => match p_opt_str(
                                                                    s,
                                                                ) {
                                                                    None => None,
                                                                    Some((receipts_root, s)) => match p_opt_str(
                                                                        s,
                                                                    ) {
                                                                        None => None,
                                                                        Some((sha3_uncles, s)) => match p_opt_str(
                                                                            s,
                                                                        ) {
                                                                            None => None,
                                                                            Some((size, s)) => match p_opt_str(
                                                                                s,
                                                                            ) {
                                                                                None => None,
                                                                                Some(
                                                                                    (state_root, s),
                                                                                ) => match p_opt_str(
                                                                                    s,
                                                                                ) {
                                                                                    None => None,
                                                                                    Some(
                                                                                        (
                                                                                            timestamp,
                                                                                            s,
                                                                                        ),
                                                                                    ) => match p_opt_str(
                                                                                        s,
                                                                                    ) {
                                                                                        None => None,
                                                                                        Some(
                                                                                            (
                                                                                                total_difficulty,
                                                                                                s,
                                                                                            ),
                                                                                        ) => match p_opt_vec_tx(
                                                                                            s,
                                                                                        ) {
                                                                                            None => None,
                                                                                            Some(
                                                                                                (
                                                                                                    transactions,
                                                                                                    s,
                                                                                                ),
                                                                                            ) => match p_opt_vec_str(
                                                                                                s,
                                                                                            ) {
                                                                                                None => None,
                                                                                                Some(
                                                                                                    (
                                                                                                        uncles,
                                                                                                        s,
                                                                                                    ),
                                                                                                ) => match p_opt_vec_str(
                                                                                                    s,
                                                                                                ) {
                                                                                                    None => None,
                                                                                                    Some(
                                                                                                        (
                                                                                                            withdrawals,
                                                                                                            s,
                                                                                                        ),
                                                                                                    ) => match p_opt_str(
                                                                                                        s,
                                                                                                    ) {
                                                                                                        None => None,
                                                                                                        Some(
                                                                                                            (
                                                                                                                withdrawals_root,
                                                                                                                s,
                                                                                                            ),
                                                                                                        ) => Some(
                                                                                                            (
                                                                                                                BlockModel {
                                                                                                                    base_fee_per_gas,
                                                                                                                    blob_gas_used,
                                                                                                                    difficulty,
                                                                                                                    excess_blob_gas,
                                                                                                                    extra_data,
                                                                                                                    gas_limit,
                                                                                                                    gas_used,
                                                                                                                    hash,
                                                                                                                    logs_bloom,
                                                                                                                    miner,
                                                                                                                    mix_hash,
                                                                                                                    nonce,
                                                                                                                    number,
                                                                                                                    parent_beacon_block_root,
                                                                                                                    parent_hash,
                                                                                                                    receipts_root,
                                                                                                                    sha3_uncles,
                                                                                                                    size,
                                                                                                                    state_root,
                                                                                                                    timestamp,
                                                                                                                    total_difficulty,
                                                                                                                    transactions,
                                                                                                                    uncles,
                                                                                                                    withdrawals,
                                                                                                                    withdrawals_root,
                                                                                                                },
                                                                                                                s,
                                                                                                            ),
                                                                                                        ),
                                                                                                    },
                                                                                                },
                                                                                            },
                                                                                        },
                                                                                    },
                                                                                },
                                                                            },
                                                                        },
                                                                    },
                                                                },
                                                            },
                                                        },
                                                    },
                                                },
                                            },
                                        },
                                    },
                                },
                            },
                        },
                    },
                },
            },
        },
    }
}

/// The decoder of a whole payload: a block whose encoding is exactly the
/// given bytes, nothing trailing.
pub open spec fn dec_block(s: Seq<u8>) -> Option<BlockModel> {
    match p_block(s) {
        None => None,
        Some((m, rest)) => if rest.len() == 0 {
            Some(m)
        } else {
            None
        },
    }
}

// ----------------------------------------------------------------------
// the decoder inverts the encoder
// ----------------------------------------------------------------------
proof fn lemma_p_u32_enc(n: u32, rest: Seq<u8>)
    ensures
        p_u32(enc_u32(n) + rest) == Some((n, rest)),
{
    lemma_auto_spec_u32_to_from_le_bytes();
    let s = enc_u32(n) + rest;
    assert(s.take(4) =~= enc_u32(n));
    assert(s.skip(4) =~= rest);
}

proof fn lemma_p_str_enc(s: Seq<char>, rest: Seq<u8>)
    requires
        str_wf(s),
    ensures
        p_str(enc_str(s) + rest) == Some((s, rest)),
{
    broadcast use encode_utf8_valid_utf8, encode_utf8_decode_utf8;

    let b = encode_utf8(s);
    let n = b.len() as u32;
    assert(enc_str(s) + rest =~= enc_u32(n) + (b + rest));
    lemma_p_u32_enc(n, b + rest);
    assert((b + rest).take(n as int) =~= b);
    assert((b + rest).skip(n as int) =~= rest);
}

proof fn lemma_p_opt_str_enc(o: Option<Seq<char>>, rest: Seq<u8>)
    requires
        opt_str_wf(o),
    ensures
        p_opt_str(enc_opt_str(o) + rest) == Some((o, rest)),
{
    let s = enc_opt_str(o) + rest;
    match o {
        None => {
            assert(s[0] == 0u8);
            assert(s.drop_first() =~= rest);
        },
        Some(v) => {
            assert(s[0] == 1u8);
            assert(s.drop_first() =~= enc_str(v) + rest);
            lemma_p_str_enc(v, rest);
        },
    }
}

proof fn lemma_p_seq_str_enc(v: Seq<Seq<char>>, k: int, rest: Seq<u8>)
    requires
        0 <= k <= v.len(),
        forall|i: int| 0 <= i < v.len() ==> str_wf(#[trigger] v[i]),
    ensures
        p_seq_str(enc_seq_str_from(v, k) + rest, (v.len() - k) as nat) == Some((v.skip(k), rest)),
    decreases v.len() - k,
{
    if k == v.len() {
        assert(enc_seq_str_from(v, k) + rest =~= rest);
        assert(v.skip(k) =~= Seq::<Seq<char>>::empty());
    } else {
        assert(enc_seq_str_from(v, k) + rest =~= enc_str(v[k]) + (enc_seq_str_from(v, k + 1)
            + rest));
        lemma_p_str_enc(v[k], enc_seq_str_from(v, k + 1) + rest);
        lemma_p_seq_str_enc(v, k + 1, rest);
        assert(seq![v[k]] + v.skip(k + 1) =~= v.skip(k));
    }
}

proof fn lemma_p_vec_str_enc(v: Seq<Seq<char>>, rest: Seq<u8>)
    requires
        seq_str_wf(v),
    ensures
        p_vec_str(enc_vec_str(v) + rest) == Some((v, rest)),
{
    let n = v.len() as u32;
    assert(enc_vec_str(v) + rest =~= enc_u32(n) + (enc_seq_str_from(v, 0) + rest));
    lemma_p_u32_enc(n, enc_seq_str_from(v, 0) + rest);
    lemma_p_seq_str_enc(v, 0, rest);
    assert(v.skip(0) =~= v);
}

proof fn lemma_p_opt_vec_str_enc(o: Option<Seq<Seq<char>>>, rest: Seq<u8>)
    requires
        opt_seq_str_wf(o),
    ensures
        p_opt_vec_str(enc_opt_vec_str(o) + rest) == Some((o, rest)),
{
    let s = enc_opt_vec_str(o) + rest;
    match o {
        None => {
            assert(s[0] == 0u8);
            assert(s.drop_first() =~= rest);
        },
        Some(v) => {
            assert(s[0] == 1u8);
            assert(s.drop_first() =~= enc_vec_str(v) + rest);
            lemma_p_vec_str_enc(v, rest);
        },
    }
}

/// Sequence concatenation is associative.
proof fn lemma_concat_assoc(a: Seq<u8>, b: Seq<u8>, c: Seq<u8>)
    ensures
        (a + b) + c == a + (b + c),
{
    assert((a + b) + c =~= a + (b + c));
}

#[verifier::rlimit(100)]
proof fn lemma_p_tx_enc(t: TransactionModel, rest: Seq<u8>)
    requires
        tx_wf(t),
    ensures
        p_tx(enc_tx(t) + rest) == Some((t, rest)),
{
    reveal(p_tx);
    let s16 = enc_tx_from(t, 16) + rest;
    assert(s16 =~= rest);
    let s15 = enc_tx_from(t, 15) + rest;
    let s14 = enc_tx_from(t, 14) + rest;
    let s13 = enc_tx_from(t, 13) + rest;
    let s12 = enc_tx_from(t, 12) + rest;
    let s11 = enc_tx_from(t, 11) + rest;
    let s10 = enc_tx_from(t, 10) + rest;
    let s9 = enc_tx_from(t, 9) + rest;
    let s8 = enc_tx_from(t, 8) + rest;
    let s7 = enc_tx_from(t, 7) + rest;
    let s6 = enc_tx_from(t, 6) + rest;
    let s5 = enc_tx_from(t, 5) + rest;
    let s4 = enc_tx_from(t, 4) + rest;
    let s3 = enc_tx_from(t, 3) + rest;
    let s2 = enc_tx_from(t, 2) + rest;
    let s1 = enc_tx_from(t, 1) + rest;
    let s0 = enc_tx_from(t, 0) + rest;
    lemma_concat_assoc(enc_opt_str(tx_field(t, 15)), enc_tx_from(t, 16), rest);
    lemma_p_opt_str_enc(tx_field(t, 15), s16);
    lemma_concat_assoc(enc_opt_str(tx_field(t, 14)), enc_tx_from(t, 15), rest);
    lemma_p_opt_str_enc(tx_field(t, 14), s15);
    lemma_concat_assoc(enc_opt_str(tx_field(t, 13)), enc_tx_from(t, 14), rest);
    lemma_p_opt_str_enc(tx_field(t, 13), s14);
    lemma_concat_assoc(enc_opt_str(tx_field(t, 12)), enc_tx_from(t, 13), rest);
    lemma_p_opt_str_enc(tx_field(t, 12), s13);
    lemma_concat_assoc(enc_opt_str(tx_field(t, 11)), enc_tx_from(t, 12), rest);
    lemma_p_opt_str_enc(tx_field(t, 11), s12);
    lemma_concat_assoc(enc_opt_str(tx_field(t, 10)), enc_tx_from(t, 11), rest);
    lemma_p_opt_str_enc(tx_field(t, 10), s11);
    lemma_concat_assoc(enc_opt_str(tx_field(t, 9)), enc_tx_from(t, 10), rest);
    lemma_p_opt_str_enc(tx_field(t, 9), s10);
    lemma_concat_assoc(enc_opt_str(tx_field(t, 8)), enc_tx_from(t, 9), rest);
    lemma_p_opt_str_enc(tx_field(t, 8), s9);
    lemma_concat_assoc(enc_opt_str(tx_field(t, 7)), enc_tx_from(t, 8), rest);
    lemma_p_opt_str_enc(tx_field(t, 7), s8);
    lemma_concat_assoc(enc_opt_str(tx_field(t, 6)), enc_tx_from(t, 7), rest);
    lemma_p_opt_str_enc(tx_field(t, 6), s7);
    lemma_concat_assoc(enc_opt_str(tx_field(t, 5)), enc_tx_from(t, 6), rest);
    lemma_p_opt_str_enc(tx_field(t, 5), s6);
    lemma_concat_assoc(enc_opt_str(tx_field(t, 4)), enc_tx_from(t, 5), rest);
    lemma_p_opt_str_enc(tx_field(t, 4), s5);
    lemma_concat_assoc(enc_opt_str(tx_field(t, 3)), enc_tx_from(t, 4), rest);
    lemma_p_opt_str_enc(tx_field(t, 3), s4);
    lemma_concat_assoc(enc_opt_str(tx_field(t, 2)), enc_tx_from(t, 3), rest);
    lemma_p_opt_str_enc(tx_field(t, 2), s3);
    lemma_concat_assoc(enc_opt_str(tx_field(t, 1)), enc_tx_from(t, 2), rest);
    lemma_p_opt_str_enc(tx_field(t, 1), s2);
    lemma_concat_assoc(enc_opt_str(tx_field(t, 0)), enc_tx_from(t, 1), rest);
    lemma_p_opt_str_enc(tx_field(t, 0), s1);
    assert(TransactionModel {
        block_hash: t.block_hash,
        block_number: t.block_number,
        chain_id: t.chain_id,
        from: t.from,
        gas: t.gas,
        gas_price: t.gas_price,
        hash: t.hash,
        input: t.input,
        nonce: t.nonce,
        r: t.r,
        s: t.s,
        to: t.to,
        transaction_index: t.transaction_index,
        transaction_type: t.transaction_type,
        v: t.v,
        value: t.value,
    } =~= t);
    assert(p_tx(s0) == Some((t, rest)));
}

#[verifier::rlimit(100)]
proof fn lemma_p_seq_tx_enc(v: Seq<TransactionModel>, k: int, rest: Seq<u8>)
    requires
        0 <= k <= v.len(),
        forall|i: int| 0 <= i < v.len() ==> tx_wf(#[trigger] v[i]),
    ensures
        p_seq_tx(enc_seq_tx_from(v, k) + rest, (v.len() - k) as nat) == Some((v.skip(k), rest)),
    decreases v.len() - k,
{
    if k == v.len() {
        assert(enc_seq_tx_from(v, k) + rest =~= rest);
        assert(v.skip(k) =~= Seq::<TransactionModel>::empty());
    } else {
        lemma_concat_assoc(enc_tx(v[k]), enc_seq_tx_from(v, k + 1), rest);
        lemma_p_tx_enc(v[k], enc_seq_tx_from(v, k + 1) + rest);
        lemma_p_seq_tx_enc(v, k + 1, rest);
        assert(seq![v[k]] + v.skip(k + 1) =~= v.skip(k));
    }
}

#[verifier::rlimit(100)]
proof fn lemma_p_opt_vec_tx_enc(o: Option<Seq<TransactionModel>>, rest: Seq<u8>)
    requires
        opt_seq_tx_wf(o),
    ensures
        p_opt_vec_tx(enc_opt_vec_tx(o) + rest) == Some((o, rest)),
{
    let s = enc_opt_vec_tx(o) + rest;
    match o {
        None => {
            assert(s[0] == 0u8);
            assert(s.drop_first() =~= rest);
        },
        Some(v) => {
            assert(s[0] == 1u8);
            assert(s.drop_first() =~= enc_vec_tx(v) + rest);
            let n = v.len() as u32;
            assert(enc_vec_tx(v) + rest =~= enc_u32(n) + (enc_seq_tx_from(v, 0) + rest));
            lemma_p_u32_enc(n, enc_seq_tx_from(v, 0) + rest);
            lemma_p_seq_tx_enc(v, 0, rest);
            assert(v.skip(0) =~= v);
        },
    }
}

#[verifier::rlimit(100)]
proof fn lemma_p_block_enc(m: BlockModel, rest: Seq<u8>)
    requires
        block_wf(m),
    ensures
        p_block(enc_block(m) + rest) == Some((m, rest)),
{
    reveal(p_block);
    let s25 = enc_block_from(m, 25) + rest;
    assert(s25 =~= rest);
    let s24 = enc_block_from(m, 24) + rest;
    let s23 = enc_block_from(m, 23) + rest;
    let s22 = enc_block_from(m, 22) + rest;
    let s21 = enc_block_from(m, 21) + rest;
    let s20 = enc_block_from(m, 20) + rest;
    let s19 = enc_block_from(m, 19) + rest;
    let s18 = enc_block_from(m, 18) + rest;
    let s17 = enc_block_from(m, 17) + rest;
    let s16 = enc_block_from(m, 16) + rest;
    let s15 = enc_block_from(m, 15) + rest;
    let s14 = enc_block_from(m, 14) + rest;
    let s13 = enc_block_from(m, 13) + rest;
    let s12 = enc_block_from(m, 12) + rest;
    let s11 = enc_block_from(m, 11) + rest;
    let s10 = enc_block_from(m, 10) + rest;
    let s9 = enc_block_from(m, 9) + rest;
    let s8 = enc_block_from(m, 8) + rest;
    let s7 = enc_block_from(m, 7) + rest;
    let s6 = enc_block_from(m, 6) + rest;
    let s5 = enc_block_from(m, 5) + rest;
    let s4 = enc_block_from(m, 4) + rest;
    let s3 = enc_block_from(m, 3) + rest;
    let s2 = enc_block_from(m, 2) + rest;
    let s1 = enc_block_from(m, 1) + rest;
    let s0 = enc_block_from(m, 0) + rest;
    lemma_concat_assoc(enc_opt_str(m.withdrawals_root), enc_block_from(m, 25), rest);
    lemma_p_opt_str_enc(m.withdrawals_root, s25);
    lemma_concat_assoc(enc_opt_vec_str(m.withdrawals), enc_block_from(m, 24), rest);
    lemma_p_opt_vec_str_enc(m.withdrawals, s24);
    lemma_concat_assoc(enc_opt_vec_str(m.uncles), enc_block_from(m, 23), rest);
    lemma_p_opt_vec_str_enc(m.uncles, s23);
    lemma_concat_assoc(enc_opt_vec_tx(m.transactions), enc_block_from(m, 22), rest);
    lemma_p_opt_vec_tx_enc(m.transactions, s22);
    lemma_concat_assoc(enc_opt_str(m.total_difficulty), enc_block_from(m, 21), rest);
    lemma_p_opt_str_enc(m.total_difficulty, s21);
    lemma_concat_assoc(enc_opt_str(m.timestamp), enc_block_from(m, 20), rest);
    lemma_p_opt_str_enc(m.timestamp, s20);
    lemma_concat_assoc(enc_opt_str(m.state_root), enc_block_from(m, 19), rest);
    lemma_p_opt_str_enc(m.state_root, s19);
    lemma_concat_assoc(enc_opt_str(m.size), enc_block_from(m, 18), rest);
    lemma_p_opt_str_enc(m.size, s18);
    lemma_concat_assoc(enc_opt_str(m.sha3_uncles), enc_block_from(m, 17), rest);
    lemma_p_opt_str_enc(m.sha3_uncles, s17);
    lemma_concat_assoc(enc_opt_str(m.receipts_root), enc_block_from(m, 16), rest);
    lemma_p_opt_str_enc(m.receipts_root, s16);
    lemma_concat_assoc(enc_opt_str(m.parent_hash), enc_block_from(m, 15), rest);
    lemma_p_opt_str_enc(m.parent_hash, s15);
    lemma_concat_assoc(enc_opt_str(m.parent_beacon_block_root), enc_block_from(m, 14), rest);
    lemma_p_opt_str_enc(m.parent_beacon_block_root, s14);
    lemma_concat_assoc(enc_opt_str(m.number), enc_block_from(m, 13), rest);
    lemma_p_opt_str_enc(m.number, s13);
    lemma_concat_assoc(enc_opt_str(m.nonce), enc_block_from(m, 12), rest);
    lemma_p_opt_str_enc(m.nonce, s12);
    lemma_concat_assoc(enc_opt_str(m.mix_hash), enc_block_from(m, 11), rest);
    lemma_p_opt_str_enc(m.mix_hash, s11);
    lemma_concat_assoc(enc_opt_str(m.miner), enc_block_from(m, 10), rest);
    lemma_p_opt_str_enc(m.miner, s10);
    lemma_concat_assoc(enc_opt_str(m.logs_bloom), enc_block_from(m, 9), rest);
    lemma_p_opt_str_enc(m.logs_bloom, s9);
    lemma_concat_assoc(enc_opt_str(m.hash), enc_block_from(m, 8), rest);
    lemma_p_opt_str_enc(m.hash, s8);
    lemma_concat_assoc(enc_opt_str(m.gas_used), enc_block_from(m, 7), rest);
    lemma_p_opt_str_enc(m.gas_used, s7);
    lemma_concat_assoc(enc_opt_str(m.gas_limit), enc_block_from(m, 6), rest);
    lemma_p_opt_str_enc(m.gas_limit, s6);
    lemma_concat_assoc(enc_opt_str(m.extra_data), enc_block_from(m, 5), rest);
    lemma_p_opt_str_enc(m.extra_data, s5);
    lemma_concat_assoc(enc_opt_str(m.excess_blob_gas), enc_block_from(m, 4), rest);
    lemma_p_opt_str_enc(m.excess_blob_gas, s4);
    lemma_concat_assoc(enc_opt_str(m.difficulty), enc_block_from(m, 3), rest);
    lemma_p_opt_str_enc(m.difficulty, s3);
    lemma_concat_assoc(enc_opt_str(m.blob_gas_used), enc_block_from(m, 2), rest);
    lemma_p_opt_str_enc(m.blob_gas_used, s2);
    lemma_concat_assoc(enc_opt_str(m.base_fee_per_gas), enc_block_from(m, 1), rest);
    lemma_p_opt_str_enc(m.base_fee_per_gas, s1);
    assert(BlockModel {
        base_fee_per_gas: m.base_fee_per_gas,
        blob_gas_used: m.blob_gas_used,
        difficulty: m.difficulty,
        excess_blob_gas: m.excess_blob_gas,
        extra_data: m.extra_data,
        gas_limit: m.gas_limit,
        gas_used: m.gas_used,
        hash: m.hash,
        logs_bloom: m.logs_bloom,
        miner: m.miner,
        mix_hash: m.mix_hash,
        nonce: m.nonce,
        number: m.number,
        parent_beacon_block_root: m.parent_beacon_block_root,
        parent_hash: m.parent_hash,
        receipts_root: m.receipts_root,
        sha3_uncles: m.sha3_uncles,
        size: m.size,
        state_root: m.state_root,
        timestamp: m.timestamp,
        total_difficulty: m.total_difficulty,
        transactions: m.transactions,
        uncles: m.uncles,
        withdrawals: m.withdrawals,
        withdrawals_root: m.withdrawals_root,
    } =~= m);
    assert(p_block(s0) == Some((m, rest)));
}

/// The codec's round-trip law: decoding the canonical encoding of any
/// well-formed block yields that block again.
pub proof fn lemma_borsh_round_trip(m: BlockModel)
    requires
        block_wf(m),
    ensures
        dec_block(enc_block(m)) == Some(m),
{
    lemma_p_block_enc(m, Seq::<u8>::empty());
    assert(enc_block(m) + Seq::<u8>::empty() =~= enc_block(m));
}

// ----------------------------------------------------------------------
// executable encoder
// ----------------------------------------------------------------------
/// Relies on String::from_utf8: succeeds exactly on valid UTF-8 and
/// decodes the bytes to the string's characters.
#[verifier::external_body]
fn bytes_to_string(v: Vec<u8>) -> (r: Option<String>)
    ensures
        r is Some <==> valid_utf8(v@),
        r matches Some(s) ==> s@ == decode_utf8(v@),
{
    match String::from_utf8(v) {
        Ok(s) => Some(s),
        Err(_) => None,
    }
}

fn append_u8(dst: &mut Vec<u8>, src: &Vec<u8>)
    ensures
        final(dst)@ == old(dst)@ + src@,
{
    let mut i: usize = 0;
    while i < src.len()
        invariant
            i <= src@.len(),
            dst@ == old(dst)@ + src@.take(i as int),
        decreases src@.len() - i,
    {
        dst.push(src[i]);
        proof {
            assert(old(dst)@ + src@.take(i + 1) =~= (old(dst)@ + src@.take(i as int)).push(
                src@[i as int],
            ));
        }
        i += 1;
    }
    proof {
        assert(src@.take(src@.len() as int) =~= src@);
    }
}

fn w_u32(out: &mut Vec<u8>, n: u32)
    ensures
        final(out)@ == old(out)@ + enc_u32(n),
{
    let b = u32_to_le_bytes(n);
    append_u8(out, &b);
}

fn w_str(out: &mut Vec<u8>, s: &str)
    requires
        str_wf(s@),
    ensures
        final(out)@ == old(out)@ + enc_str(s@),
{
    let b = s.as_bytes_vec();
    let n = b.len();
    w_u32(out, n as u32);
    append_u8(out, &b);
    proof {
        lemma_concat_assoc(old(out)@, enc_u32(n as u32), b@);
    }
}

fn w_opt_str(out: &mut Vec<u8>, o: &Option<String>)
    requires
        opt_str_wf(o.deep_view()),
    ensures
        final(out)@ == old(out)@ + enc_opt_str(o.deep_view()),
{
    match o {
        None => {
            out.push(0u8);
            proof {
                assert(old(out)@ + enc_opt_str(o.deep_view()) =~= old(out)@.push(0u8));
            }
        },
        Some(st) => {
            out.push(1u8);
            w_str(out, st.as_str());
            proof {
                assert(old(out)@ + enc_opt_str(o.deep_view()) =~= (old(out)@.push(1u8)) + enc_str(
                    st@,
                ));
            }
        },
    }
}

fn w_vec_str(out: &mut Vec<u8>, v: &Vec<String>)
    requires
        seq_str_wf(v.deep_view()),
    ensures
        final(out)@ == old(out)@ + enc_vec_str(v.deep_view()),
{
    let ghost dv = v.deep_view();
    w_u32(out, v.len() as u32);
    let ghost base = out@;
    let mut i: usize = 0;
    while i < v.len()
        invariant
            i <= v@.len(),
            dv == v.deep_view(),
            dv.len() == v@.len(),
            seq_str_wf(dv),
            out@ + enc_seq_str_from(dv, i as int) == base + enc_seq_str_from(dv, 0),
            base == old(out)@ + enc_u32(dv.len() as u32),
        decreases v@.len() - i,
    {
        let ghost pre = out@;
        proof {
            assert(dv[i as int] == v@[i as int]@);
        }
        w_str(out, v[i].as_str());
        proof {
            lemma_concat_assoc(pre, enc_str(dv[i as int]), enc_seq_str_from(dv, i + 1));
        }
        i += 1;
    }
    proof {
        assert(enc_seq_str_from(dv, dv.len() as int) =~= Seq::<u8>::empty());
        assert(out@ + Seq::<u8>::empty() =~= out@);
        lemma_concat_assoc(old(out)@, enc_u32(dv.len() as u32), enc_seq_str_from(dv, 0));
    }
}

fn w_opt_vec_str(out: &mut Vec<u8>, o: &Option<Vec<String>>)
    requires
        opt_seq_str_wf(o.deep_view()),
    ensures
        final(out)@ == old(out)@ + enc_opt_vec_str(o.deep_view()),
{
    match o {
        None => {
            out.push(0u8);
            proof {
                assert(old(out)@ + enc_opt_vec_str(o.deep_view()) =~= old(out)@.push(0u8));
            }
        },
        Some(v) => {
            out.push(1u8);
            w_vec_str(out, v);
            proof {
                assert(old(out)@ + enc_opt_vec_str(o.deep_view()) =~= (old(out)@.push(1u8))
                    + enc_vec_str(v.deep_view()));
            }
        },
    }
}

#[verifier::rlimit(100)]
fn w_tx(out: &mut Vec<u8>, t: &Transaction)
    requires
        tx_wf(t.deep_view()),
    ensures
        final(out)@ == old(out)@ + enc_tx(t.deep_view()),
{
    let ghost dv = t.deep_view();
    let ghost base = out@;
    let ghost pre0 = out@;
    w_opt_str(out, &t.block_hash);
    proof {
        lemma_concat_assoc(pre0, enc_opt_str(dv.block_hash), enc_tx_from(dv, 1));
        assert(out@ + enc_tx_from(dv, 1) == base + enc_tx_from(dv, 0));
    }
    let ghost pre1 = out@;
    w_opt_str(out, &t.block_number);
    proof {
        lemma_concat_assoc(pre1, enc_opt_str(dv.block_number), enc_tx_from(dv, 2));
        assert(out@ + enc_tx_from(dv, 2) == base + enc_tx_from(dv, 0));
    }
    let ghost pre2 = out@;
    w_opt_str(out, &t.chain_id);
    proof {
        lemma_concat_assoc(pre2, enc_opt_str(dv.chain_id), enc_tx_from(dv, 3));
        assert(out@ + enc_tx_from(dv, 3) == base + enc_tx_from(dv, 0));
    }
    let ghost pre3 = out@;
    w_opt_str(out, &t.from);
    proof {
        lemma_concat_assoc(pre3, enc_opt_str(dv.from), enc_tx_from(dv, 4));
        assert(out@ + enc_tx_from(dv, 4) == base + enc_tx_from(dv, 0));
    }
    let ghost pre4 = out@;
    w_opt_str(out, &t.gas);
    proof {
        lemma_concat_assoc(pre4, enc_opt_str(dv.gas), enc_tx_from(dv, 5));
        assert(out@ + enc_tx_from(dv, 5) == base + enc_tx_from(dv, 0));
    }
    let ghost pre5 = out@;
    w_opt_str(out, &t.gas_price);
    proof {
        lemma_concat_assoc(pre5, enc_opt_str(dv.gas_price), enc_tx_from(dv, 6));
        assert(out@ + enc_tx_from(dv, 6) == base + enc_tx_from(dv, 0));
    }
    let ghost pre6 = out@;
    w_opt_str(out, &t.hash);
    proof {
        lemma_concat_assoc(pre6, enc_opt_str(dv.hash), enc_tx_from(dv, 7));
        assert(out@ + enc_tx_from(dv, 7) == base + enc_tx_from(dv, 0));
    }
    let ghost pre7 = out@;
    w_opt_str(out, &t.input);
    proof {
        lemma_concat_assoc(pre7, enc_opt_str(dv.input), enc_tx_from(dv, 8));
        assert(out@ + enc_tx_from(dv, 8) == base + enc_tx_from(dv, 0));
    }
    let ghost pre8 = out@;
    w_opt_str(out, &t.nonce);
    proof {
        lemma_concat_assoc(pre8, enc_opt_str(dv.nonce), enc_tx_from(dv, 9));
        assert(out@ + enc_tx_from(dv, 9) == base + enc_tx_from(dv, 0));
    }
    let ghost pre9 = out@;
    w_opt_str(out, &t.r);
    proof {
        lemma_concat_assoc(pre9, enc_opt_str(dv.r), enc_tx_from(dv, 10));
        assert(out@ + enc_tx_from(dv, 10) == base + enc_tx_from(dv, 0));
    }
    let ghost pre10 = out@;
    w_opt_str(out, &t.s);
    proof {
        lemma_concat_assoc(pre10, enc_opt_str(dv.s), enc_tx_from(dv, 11));
        assert(out@ + enc_tx_from(dv, 11) == base + enc_tx_from(dv, 0));
    }
    let ghost pre11 = out@;
    w_opt_str(out, &t.to);
    proof {
        lemma_concat_assoc(pre11, enc_opt_str(dv.to), enc_tx_from(dv, 12));
        assert(out@ + enc_tx_from(dv, 12) == base + enc_tx_from(dv, 0));
    }
    let ghost pre12 = out@;
    w_opt_str(out, &t.transaction_index);
    proof {
        lemma_concat_assoc(pre12, enc_opt_str(dv.transaction_index), enc_tx_from(dv, 13));
        assert(out@ + enc_tx_from(dv, 13) == base + enc_tx_from(dv, 0));
    }
    let ghost pre13 = out@;
    w_opt_str(out, &t.transaction_type);
    proof {
        lemma_concat_assoc(pre13, enc_opt_str(dv.transaction_type), enc_tx_from(dv, 14));
        assert(out@ + enc_tx_from(dv, 14) == base + enc_tx_from(dv, 0));
    }
    let ghost pre14 = out@;
    w_opt_str(out, &t.v);
    proof {
        lemma_concat_assoc(pre14, enc_opt_str(dv.v), enc_tx_from(dv, 15));
        assert(out@ + enc_tx_from(dv, 15) == base + enc_tx_from(dv, 0));
    }
    let ghost pre15 = out@;
    w_opt_str(out, &t.value);
    proof {
        lemma_concat_assoc(pre15, enc_opt_str(dv.value), enc_tx_from(dv, 16));
        assert(out@ + enc_tx_from(dv, 16) == base + enc_tx_from(dv, 0));
    }
    proof {
        assert(enc_tx_from(dv, 16) =~= Seq::<u8>::empty());
        assert(out@ + Seq::<u8>::empty() =~= out@);
    }
}

fn w_vec_tx(out: &mut Vec<u8>, v: &Vec<Transaction>)
    requires
        seq_tx_wf(v.deep_view()),
    ensures
        final(out)@ == old(out)@ + enc_vec_tx(v.deep_view()),
{
    let ghost dv = v.deep_view();
    w_u32(out, v.len() as u32);
    let ghost base = out@;
    let mut i: usize = 0;
    while i < v.len()
        invariant
            i <= v@.len(),
            dv == v.deep_view(),
            dv.len() == v@.len(),
            seq_tx_wf(dv),
            out@ + enc_seq_tx_from(dv, i as int) == base + enc_seq_tx_from(dv, 0),
            base == old(out)@ + enc_u32(dv.len() as u32),
        decreases v@.len() - i,
    {
        let ghost pre = out@;
        proof {
            assert(dv[i as int] == v@[i as int].deep_view());
        }
        w_tx(out, &v[i]);
        proof {
            lemma_concat_assoc(pre, enc_tx(dv[i as int]), enc_seq_tx_from(dv, i + 1));
        }
        i += 1;
    }
    proof {
        assert(enc_seq_tx_from(dv, dv.len() as int) =~= Seq::<u8>::empty());
        assert(out@ + Seq::<u8>::empty() =~= out@);
        lemma_concat_assoc(old(out)@, enc_u32(dv.len() as u32), enc_seq_tx_from(dv, 0));
    }
}

fn w_opt_vec_tx(out: &mut Vec<u8>, o: &Option<Vec<Transaction>>)
    requires
        opt_seq_tx_wf(o.deep_view()),
    ensures
        final(out)@ == old(out)@ + enc_opt_vec_tx(o.deep_view()),
{
    match o {
        None => {
            out.push(0u8);
            proof {
                assert(old(out)@ + enc_opt_vec_tx(o.deep_view()) =~= old(out)@.push(0u8));
            }
        },
        Some(v) => {
            out.push(1u8);
            w_vec_tx(out, v);
            proof {
                assert(old(out)@ + enc_opt_vec_tx(o.deep_view()) =~= (old(out)@.push(1u8))
                    + enc_vec_tx(v.deep_view()));
            }
        },
    }
}

// ----------------------------------------------------------------------
// executable decoder
// ----------------------------------------------------------------------
fn r_u32(bytes: &[u8], pos: usize) -> (r: Option<(u32, usize)>)
    requires
        pos <= bytes@.len(),
    ensures
        r matches Some(p) ==> pos <= p.1 <= bytes@.len() && p_u32(bytes@.skip(pos as int))
            == Some((p.0, bytes@.skip(p.1 as int))),
        r is None ==> p_u32(bytes@.skip(pos as int)) is None,
{
    if bytes.len() - pos >= 4 {
        let sl = slice_subrange(bytes, pos, pos + 4);
        let n = u32_from_le_bytes(sl);
        proof {
            assert(bytes@.skip(pos as int).take(4) =~= bytes@.subrange(pos as int, pos + 4));
            assert(bytes@.skip(pos as int).skip(4) =~= bytes@.skip(pos + 4));
        }
        Some((n, pos + 4))
    } else {
        None
    }
}

fn r_str(bytes: &[u8], pos: usize) -> (r: Option<(String, usize)>)
    requires
        pos <= bytes@.len(),
    ensures
        r matches Some(p) ==> pos <= p.1 <= bytes@.len() && p_str(bytes@.skip(pos as int))
            == Some((p.0@, bytes@.skip(p.1 as int))),
        r is None ==> p_str(bytes@.skip(pos as int)) is None,
{
    let (n, pos2) = match r_u32(bytes, pos) {
        Some(p) => p,
        None => {
            return None;
        },
    };
    let n_us = n as usize;
    if bytes.len() - pos2 < n_us {
        return None;
    }
    let sl = slice_subrange(bytes, pos2, pos2 + n_us);
    let b = slice_to_vec(sl);
    proof {
        assert(bytes@.skip(pos2 as int).take(n as int) =~= bytes@.subrange(
            pos2 as int,
            pos2 + n_us,
        ));
    }
    match bytes_to_string(b) {
        Some(st) => {
            proof {
                assert(bytes@.skip(pos2 as int).skip(n as int) =~= bytes@.skip(pos2 + n_us));
            }
            Some((st, pos2 + n_us))
        },
        None => None,
    }
}

fn r_opt_str(bytes: &[u8], pos: usize) -> (r: Option<(Option<String>, usize)>)
    requires
        pos <= bytes@.len(),
    ensures
        r matches Some(p) ==> pos <= p.1 <= bytes@.len() && p_opt_str(bytes@.skip(pos as int))
            == Some((p.0.deep_view(), bytes@.skip(p.1 as int))),
        r is None ==> p_opt_str(bytes@.skip(pos as int)) is None,
{
    if pos >= bytes.len() {
        return None;
    }
    let tag = *slice_index_get(bytes, pos);
    proof {
        assert(bytes@.skip(pos as int)[0] == bytes@[pos as int]);
        assert(bytes@.skip(pos as int).drop_first() =~= bytes@.skip(pos + 1));
    }
    if tag == 0u8 {
        Some((None, pos + 1))
    } else if tag == 1u8 {
        match r_str(bytes, pos + 1) {
            Some((st, j)) => Some((Some(st), j)),
            None => None,
        }
    } else {
        None
    }
}

#[verifier::rlimit(100)]
fn r_vec_str(bytes: &[u8], pos: usize) -> (r: Option<(Vec<String>, usize)>)
    requires
        pos <= bytes@.len(),
    ensures
        r matches Some(p) ==> pos <= p.1 <= bytes@.len() && p_vec_str(bytes@.skip(pos as int))
            == Some((p.0.deep_view(), bytes@.skip(p.1 as int))),
        r is None ==> p_vec_str(bytes@.skip(pos as int)) is None,
{
    let (n, start) = match r_u32(bytes, pos) {
        Some(p) => p,
        None => {
            return None;
        },
    };
    let mut out: Vec<String> = Vec::new();
    let mut cur: usize = start;
    let mut k: u32 = 0;
    proof {
        let t0 = p_seq_str(bytes@.skip(start as int), n as nat);
        if t0 is Some {
            assert(out.deep_view() + t0.unwrap().0 =~= t0.unwrap().0);
        }
        assert(out.deep_view() =~= Seq::<Seq<char>>::empty());
    }
    while k < n
        invariant
            k <= n,
            pos <= start <= cur <= bytes@.len(),
            p_u32(bytes@.skip(pos as int)) == Some((n, bytes@.skip(start as int))),
            p_seq_str(bytes@.skip(start as int), n as nat) == (match p_seq_str(
                bytes@.skip(cur as int),
                (n - k) as nat,
            ) {
                Some(t) => Some((out.deep_view() + t.0, t.1)),
                None => None,
            }),
        decreases n - k,
    {
        match r_str(bytes, cur) {
            Some((st, j)) => {
                proof {
                    let t1 = p_seq_str(bytes@.skip(j as int), (n - k - 1) as nat);
                    if t1 is Some {
                        assert(out.deep_view() + (seq![st@] + t1.unwrap().0) =~= out.deep_view().push(
                            st@,
                        ) + t1.unwrap().0);
                    }
                }
                let ghost prev = out.deep_view();
                out.push(st);
                proof {
                    assert(out.deep_view() =~= prev.push(out@[out@.len() - 1]@));
                }
                cur = j;
                k = k + 1;
            },
            None => {
                proof {
                    assert(p_seq_str(bytes@.skip(cur as int), (n - k) as nat) is None);
                    assert(p_seq_str(bytes@.skip(start as int), n as nat) is None);
                    assert(p_vec_str(bytes@.skip(pos as int)) is None);
                }
                return None;
            },
        }
    }
    proof {
        assert(p_seq_str(bytes@.skip(cur as int), 0) == Some((Seq::<Seq<char>>::empty(), bytes@.skip(cur as int))));
        assert(out.deep_view() + Seq::<Seq<char>>::empty() =~= out.deep_view());
        assert(p_seq_str(bytes@.skip(start as int), n as nat) == Some((out.deep_view(), bytes@.skip(cur as int))));
        assert(p_vec_str(bytes@.skip(pos as int)) == Some((out.deep_view(), bytes@.skip(cur as int))));
    }
    Some((out, cur))
}

fn r_opt_vec_str(bytes: &[u8], pos: usize) -> (r: Option<(Option<Vec<String>>, usize)>)
    requires
        pos <= bytes@.len(),
    ensures
        r matches Some(p) ==> pos <= p.1 <= bytes@.len() && p_opt_vec_str(bytes@.skip(pos as int))
            == Some((p.0.deep_view(), bytes@.skip(p.1 as int))),
        r is None ==> p_opt_vec_str(bytes@.skip(pos as int)) is None,
{
    if pos >= bytes.len() {
        return None;
    }
    let tag = *slice_index_get(bytes, pos);
    proof {
        assert(bytes@.skip(pos as int)[0] == bytes@[pos as int]);
        assert(bytes@.skip(pos as int).drop_first() =~= bytes@.skip(pos + 1));
    }
    if tag == 0u8 {
        Some((None, pos + 1))
    } else if tag == 1u8 {
        match r_vec_str(bytes, pos + 1) {
            Some((v, j)) => Some((Some(v), j)),
            None => None,
        }
    } else {
        None
    }
}

#[verifier::rlimit(100)]
fn r_tx(bytes: &[u8], pos: usize) -> (r: Option<(Transaction, usize)>)
    requires
        pos <= bytes@.len(),
    ensures
        r matches Some(p) ==> pos <= p.1 <= bytes@.len() && p_tx(bytes@.skip(pos as int))
            == Some((p.0.deep_view(), bytes@.skip(p.1 as int))),
        r is None ==> p_tx(bytes@.skip(pos as int)) is None,
{
    proof {
        reveal(p_tx);
    }
    let pos0 = pos;
    let (f_block_hash, pos) = match r_opt_str(bytes, pos) {
        Some(p) => p,
        None => {
            return None;
        },
    };
    let (f_block_number, pos) = match r_opt_str(bytes, pos) {
        Some(p) => p,
        None => {
            return None;
        },
    };
    let (f_chain_id, pos) = match r_opt_str(bytes, pos) {
        Some(p) => p,
        None => {
            return None;
        },
    };
    let (f_from, pos) = match r_opt_str(bytes, pos) {
        Some(p) => p,
        None => {
            return None;
        },
    };
    let (f_gas, pos) = match r_opt_str(bytes, pos) {
        Some(p) => p,
        None => {
            return None;
        },
    };
    let (f_gas_price, pos) = match r_opt_str(bytes, pos) {
        Some(p) => p,
        None => {
            return None;
        },
    };
    let (f_hash, pos) = match r_opt_str(bytes, pos) {
        Some(p) => p,
        None => {
            return None;
        },
    };
    let (f_input, pos) = match r_opt_str(bytes, pos) {
        Some(p) => p,
        None => {
            return None;
        },
    };
    let (f_nonce, pos) = match r_opt_str(bytes, pos) {
        Some(p) => p,
        None => {
            return None;
        },
    };
    let (f_r, pos) = match r_opt_str(bytes, pos) {
        Some(p) => p,
        None => {
            return None;
        },
    };
    let (f_s, pos) = match r_opt_str(bytes, pos) {
        Some(p) => p,
        None => {
            return None;
        },
    };
    let (f_to, pos) = match r_opt_str(bytes, pos) {
        Some(p) => p,
        None => {
            return None;
        },
    };
    let (f_transaction_index, pos) = match r_opt_str(bytes, pos) {
        Some(p) => p,
        None => {
            return None;
        },
    };
    let (f_transaction_type, pos) = match r_opt_str(bytes, pos) {
        Some(p) => p,
        None => {
            return None;
        },
    };
    let (f_v, pos) = match r_opt_str(bytes, pos) {
        Some(p) => p,
        None => {
            return None;
        },
    };
    let (f_value, pos) = match r_opt_str(bytes, pos) {
        Some(p) => p,
        None => {
            return None;
        },
    };
    let t = Transaction {
        block_hash: f_block_hash,
        block_number: f_block_number,
        chain_id: f_chain_id,
        from: f_from,
        gas: f_gas,
        gas_price: f_gas_price,
        hash: f_hash,
        input: f_input,
        nonce: f_nonce,
        r: f_r,
        s: f_s,
        to: f_to,
        transaction_index: f_transaction_index,
        transaction_type: f_transaction_type,
        v: f_v,
        value: f_value,
    };
    proof {
        assert(p_tx(bytes@.skip(pos0 as int)) == Some((t.deep_view(), bytes@.skip(pos as int))));
    }
    Some((t, pos))
}

#[verifier::rlimit(100)]
fn r_vec_tx(bytes: &[u8], pos: usize) -> (r: Option<(Vec<Transaction>, usize)>)
    requires
        pos <= bytes@.len(),
    ensures
        r matches Some(p) ==> pos <= p.1 <= bytes@.len() && p_vec_tx(bytes@.skip(pos as int))
            == Some((p.0.deep_view(), bytes@.skip(p.1 as int))),
        r is None ==> p_vec_tx(bytes@.skip(pos as int)) is None,
{
    let (n, start) = match r_u32(bytes, pos) {
        Some(p) => p,
        None => {
            return None;
        },
    };
    let mut out: Vec<Transaction> = Vec::new();
    let mut cur: usize = start;
    let mut k: u32 = 0;
    proof {
        let t0 = p_seq_tx(bytes@.skip(start as int), n as nat);
        if t0 is Some {
            assert(out.deep_view() + t0.unwrap().0 =~= t0.unwrap().0);
        }
        assert(out.deep_view() =~= Seq::<TransactionModel>::empty());
    }
    while k < n
        invariant
            k <= n,
            pos <= start <= cur <= bytes@.len(),
            p_u32(bytes@.skip(pos as int)) == Some((n, bytes@.skip(start as int))),
            p_seq_tx(bytes@.skip(start as int), n as nat) == (match p_seq_tx(
                bytes@.skip(cur as int),
                (n - k) as nat,
            ) {
                Some(t) => Some((out.deep_view() + t.0, t.1)),
                None => None,
            }),
        decreases n - k,
    {
        match r_tx(bytes, cur) {
            Some((tx, j)) => {
                proof {
                    let t1 = p_seq_tx(bytes@.skip(j as int), (n - k - 1) as nat);
                    if t1 is Some {
                        assert(out.deep_view() + (seq![tx.deep_view()] + t1.unwrap().0)
                            =~= out.deep_view().push(tx.deep_view()) + t1.unwrap().0);
                    }
                }
                let ghost prev = out.deep_view();
                out.push(tx);
                proof {
                    assert(out.deep_view() =~= prev.push(out@[out@.len() - 1].deep_view()));
                }
                cur = j;
                k = k + 1;
            },
            None => {
                proof {
                    assert(p_seq_tx(bytes@.skip(cur as int), (n - k) as nat) is None);
                    assert(p_seq_tx(bytes@.skip(start as int), n as nat) is None);
                    assert(p_vec_tx(bytes@.skip(pos as int)) is None);
                }
                return None;
            },
        }
    }
    proof {
        assert(p_seq_tx(bytes@.skip(cur as int), 0) == Some((Seq::<TransactionModel>::empty(), bytes@.skip(cur as int))));
        assert(out.deep_view() + Seq::<TransactionModel>::empty() =~= out.deep_view());
        assert(p_seq_tx(bytes@.skip(start as int), n as nat) == Some((out.deep_view(), bytes@.skip(cur as int))));
        assert(p_vec_tx(bytes@.skip(pos as int)) == Some((out.deep_view(), bytes@.skip(cur as int))));
    }
    Some((out, cur))
}

fn r_opt_vec_tx(bytes: &[u8], pos: usize) -> (r: Option<(Option<Vec<Transaction>>, usize)>)
    requires
        pos <= bytes@.len(),
    ensures
        r matches Some(p) ==> pos <= p.1 <= bytes@.len() && p_opt_vec_tx(bytes@.skip(pos as int))
            == Some((p.0.deep_view(), bytes@.skip(p.1 as int))),
        r is None ==> p_opt_vec_tx(bytes@.skip(pos as int)) is None,
{
    if pos >= bytes.len() {
        return None;
    }
    let tag = *slice_index_get(bytes, pos);
    proof {
        assert(bytes@.skip(pos as int)[0] == bytes@[pos as int]);
        assert(bytes@.skip(pos as int).drop_first() =~= bytes@.skip(pos + 1));
    }
    if tag == 0u8 {
        Some((None, pos + 1))
    } else if tag == 1u8 {
        match r_vec_tx(bytes, pos + 1) {
            Some((v, j)) => Some((Some(v), j)),
            None => None,
        }
    } else {
        None
    }
}

#[verifier::rlimit(100)]
fn r_block(bytes: &[u8], pos: usize) -> (r: Option<(Block, usize)>)
    requires
        pos <= bytes@.len(),
    ensures
        r matches Some(p) ==> pos <= p.1 <= bytes@.len() && p_block(bytes@.skip(pos as int))
            == Some((p.0.deep_view(), bytes@.skip(p.1 as int))),
        r is None ==> p_block(bytes@.skip(pos as int)) is None,
{
    proof {
        reveal(p_block);
    }
    let pos0 = pos;
    let (f_base_fee_per_gas, pos) = match r_opt_str(bytes, pos) {
        Some(p) => p,
        None => {
            return None;
        },
    };
    let (f_blob_gas_used, pos) = match r_opt_str(bytes, pos) {
        Some(p) => p,
        None => {
            return None;
        },
    };
    let (f_difficulty, pos) = match r_opt_str(bytes, pos) {
        Some(p) => p,
        None => {
            return None;
        },
    };
    let (f_excess_blob_gas, pos) = match r_opt_str(bytes, pos) {
        Some(p) => p,
        None => {
            return None;
        },
    };
    let (f_extra_data, pos) = match r_opt_str(bytes, pos) {
        Some(p) => p,
        None => {
            return None;
        },
    };
    let (f_gas_limit, pos) = match r_opt_str(bytes, pos) {
        Some(p) => p,
        None => {
            return None;
        },
    };
    let (f_gas_used, pos) = match r_opt_str(bytes, pos) {
        Some(p) => p,
        None => {
            return None;
        },
    };
    let (f_hash, pos) = match r_opt_str(bytes, pos) {
        Some(p) => p,
        None => {
            return None;
        },
    };
    let (f_logs_bloom, pos) = match r_opt_str(bytes, pos) {
        Some(p) => p,
        None => {
            return None;
        },
    };
    let (f_miner, pos) = match r_opt_str(bytes, pos) {
        Some(p) => p,
        None => {
            return None;
        },
    };
    let (f_mix_hash, pos) = match r_opt_str(bytes, pos) {
        Some(p) => p,
        None => {
            return None;
        },
    };
    let (f_nonce, pos) = match r_opt_str(bytes, pos) {
        Some(p) => p,
        None => {
            return None;
        },
    };
    let (f_number, pos) = match r_opt_str(bytes, pos) {
        Some(p) => p,
        None => {
            return None;
        },
    };
    let (f_parent_beacon_block_root, pos) = match r_opt_str(bytes, pos) {
        Some(p) => p,
        None => {
            return None;
        },
    };
    let (f_parent_hash, pos) = match r_opt_str(bytes, pos) {
        Some(p) => p,
        None => {
            return None;
        },
    };
    let (f_receipts_root, pos) = match r_opt_str(bytes, pos) {
        Some(p) => p,
        None => {
            return None;
        },
    };
    let (f_sha3_uncles, pos) = match r_opt_str(bytes, pos) {
        Some(p) => p,
        None => {
            return None;
        },
    };
    let (f_size, pos) = match r_opt_str(bytes, pos) {
        Some(p) => p,
        None => {
            return None;
        },
    };
    let (f_state_root, pos) = match r_opt_str(bytes, pos) {
        Some(p) => p,
        None => {
            return None;
        },
    };
    let (f_timestamp, pos) = match r_opt_str(bytes, pos) {
        Some(p) => p,
        None => {
            return None;
        },
    };
    let (f_total_difficulty, pos) = match r_opt_str(bytes, pos) {
        Some(p) => p,
        None => {
            return None;
        },
    };
    let (f_transactions, pos) = match r_opt_vec_tx(bytes, pos) {
        Some(p) => p,
        None => {
            return None;
        },
    };
    let (f_uncles, pos) = match r_opt_vec_str(bytes, pos) {
        Some(p) => p,
        None => {
            return None;
        },
    };
    let (f_withdrawals, pos) = match r_opt_vec_str(bytes, pos) {
        Some(p) => p,
        None => {
            return None;
        },
    };
    let (f_withdrawals_root, pos) = match r_opt_str(bytes, pos) {
        Some(p) => p,
        None => {
            return None;
        },
    };
    let b = Block {
        base_fee_per_gas: f_base_fee_per_gas,
        blob_gas_used: f_blob_gas_used,
        difficulty: f_difficulty,
        excess_blob_gas: f_excess_blob_gas,
        extra_data: f_extra_data,
        gas_limit: f_gas_limit,
        gas_used: f_gas_used,
        hash: f_hash,
        logs_bloom: f_logs_bloom,
        miner: f_miner,
        mix_hash: f_mix_hash,
        nonce: f_nonce,
        number: f_number,
        parent_beacon_block_root: f_parent_beacon_block_root,
        parent_hash: f_parent_hash,
        receipts_root: f_receipts_root,
        sha3_uncles: f_sha3_uncles,
        size: f_size,
        state_root: f_state_root,
        timestamp: f_timestamp,
        total_difficulty: f_total_difficulty,
        transactions: f_transactions,
        uncles: f_uncles,
        withdrawals: f_withdrawals,
        withdrawals_root: f_withdrawals_root,
    };
    proof {
        assert(p_block(bytes@.skip(pos0 as int)) == Some((b.deep_view(), bytes@.skip(pos as int))));
    }
    Some((b, pos))
}

// ----------------------------------------------------------------------
// well-formedness checks
// ----------------------------------------------------------------------
fn check_str_wf(s: &str) -> (r: bool)
    ensures
        r == str_wf(s@),
{
    let b = s.as_bytes_vec();
    b.len() <= (u32::MAX as usize)
}

fn check_opt_str_wf(o: &Option<String>) -> (r: bool)
    ensures
        r == opt_str_wf(o.deep_view()),
{
    match o {
        None => true,
        Some(s) => check_str_wf(s.as_str()),
    }
}

fn check_vec_str_wf(v: &Vec<String>) -> (r: bool)
    ensures
        r == seq_str_wf(v.deep_view()),
{
    let ghost dv = v.deep_view();
    if v.len() > (u32::MAX as usize) {
        return false;
    }
    let mut i: usize = 0;
    while i < v.len()
        invariant
            i <= v@.len(),
            dv == v.deep_view(),
            dv.len() == v@.len(),
            dv.len() <= u32::MAX,
            forall|j: int| 0 <= j < i ==> str_wf(#[trigger] dv[j]),
        decreases v@.len() - i,
    {
        proof {
            assert(dv[i as int] == v@[i as int]@);
        }
        if !check_str_wf(v[i].as_str()) {
            return false;
        }
        i += 1;
    }
    true
}

fn check_opt_vec_str_wf(o: &Option<Vec<String>>) -> (r: bool)
    ensures
        r == opt_seq_str_wf(o.deep_view()),
{
    match o {
        None => true,
        Some(v) => check_vec_str_wf(v),
    }
}

fn check_tx_wf(t: &Transaction) -> (r: bool)
    ensures
        r == tx_wf(t.deep_view()),
{
    check_opt_str_wf(&t.block_hash)
        && check_opt_str_wf(&t.block_number)
        && check_opt_str_wf(&t.chain_id)
        && check_opt_str_wf(&t.from)
        && check_opt_str_wf(&t.gas)
        && check_opt_str_wf(&t.gas_price)
        && check_opt_str_wf(&t.hash)
        && check_opt_str_wf(&t.input)
        && check_opt_str_wf(&t.nonce)
        && check_opt_str_wf(&t.r)
        && check_opt_str_wf(&t.s)
        && check_opt_str_wf(&t.to)
        && check_opt_str_wf(&t.transaction_index)
        && check_opt_str_wf(&t.transaction_type)
        && check_opt_str_wf(&t.v)
        && check_opt_str_wf(&t.value)
}

fn check_vec_tx_wf(v: &Vec<Transaction>) -> (r: bool)
    ensures
        r == seq_tx_wf(v.deep_view()),
{
    let ghost dv = v.deep_view();
    if v.len() > (u32::MAX as usize) {
        return false;
    }
    let mut i: usize = 0;
    while i < v.len()
        invariant
            i <= v@.len(),
            dv == v.deep_view(),
            dv.len() == v@.len(),
            dv.len() <= u32::MAX,
            forall|j: int| 0 <= j < i ==> tx_wf(#[trigger] dv[j]),
        decreases v@.len() - i,
    {
        proof {
            assert(dv[i as int] == v@[i as int].deep_view());
        }
        if !check_tx_wf(&v[i]) {
            return false;
        }
        i += 1;
    }
    true
}

fn check_opt_vec_tx_wf(o: &Option<Vec<Transaction>>) -> (r: bool)
    ensures
        r == opt_seq_tx_wf(o.deep_view()),
{
    match o {
        None => true,
        Some(v) => check_vec_tx_wf(v),
    }
}

// ----------------------------------------------------------------------
// public codec interface
// ----------------------------------------------------------------------
impl Block {
    /// Whether every length in the block fits the wire format's u32
    /// prefixes; always true of blocks a chain RPC can return.
    pub fn well_formed(&self) -> (r: bool)
        ensures
            r == block_wf(self.deep_view()),
    {
        check_opt_str_wf(&self.base_fee_per_gas)
            && check_opt_str_wf(&self.blob_gas_used)
            && check_opt_str_wf(&self.difficulty)
            && check_opt_str_wf(&self.excess_blob_gas)
            && check_opt_str_wf(&self.extra_data)
            && check_opt_str_wf(&self.gas_limit)
            && check_opt_str_wf(&self.gas_used)
            && check_opt_str_wf(&self.hash)
            && check_opt_str_wf(&self.logs_bloom)
            && check_opt_str_wf(&self.miner)
            && check_opt_str_wf(&self.mix_hash)
            && check_opt_str_wf(&self.nonce)
            && check_opt_str_wf(&self.number)
            && check_opt_str_wf(&self.parent_beacon_block_root)
            && check_opt_str_wf(&self.parent_hash)
            && check_opt_str_wf(&self.receipts_root)
            && check_opt_str_wf(&self.sha3_uncles)
            && check_opt_str_wf(&self.size)
            && check_opt_str_wf(&self.state_root)
            && check_opt_str_wf(&self.timestamp)
            && check_opt_str_wf(&self.total_difficulty)
            && check_opt_vec_tx_wf(&self.transactions)
            && check_opt_vec_str_wf(&self.uncles)
            && check_opt_vec_str_wf(&self.withdrawals)
            && check_opt_str_wf(&self.withdrawals_root)
    }

    /// Serializes the block to its canonical compact binary form.
    #[verifier::rlimit(100)]
    pub fn borsh_ser(input: &Block) -> (r: Vec<u8>)
        requires
            block_wf(input.deep_view()),
        ensures
            r@ == enc_block(input.deep_view()),
    {
        let ghost dv = input.deep_view();
        let mut out: Vec<u8> = Vec::new();
        let ghost base = out@;
        let ghost pre0 = out@;
        w_opt_str(&mut out, &input.base_fee_per_gas);
        proof {
            lemma_concat_assoc(pre0, enc_opt_str(dv.base_fee_per_gas), enc_block_from(dv, 1));
            assert(out@ + enc_block_from(dv, 1) == base + enc_block_from(dv, 0));
        }
        let ghost pre1 = out@;
        w_opt_str(&mut out, &input.blob_gas_used);
        proof {
            lemma_concat_assoc(pre1, enc_opt_str(dv.blob_gas_used), enc_block_from(dv, 2));
            assert(out@ + enc_block_from(dv, 2) == base + enc_block_from(dv, 0));
        }
        let ghost pre2 = out@;
        w_opt_str(&mut out, &input.difficulty);
        proof {
            lemma_concat_assoc(pre2, enc_opt_str(dv.difficulty), enc_block_from(dv, 3));
            assert(out@ + enc_block_from(dv, 3) == base + enc_block_from(dv, 0));
        }
        let ghost pre3 = out@;
        w_opt_str(&mut out, &input.excess_blob_gas);
        proof {
            lemma_concat_assoc(pre3, enc_opt_str(dv.excess_blob_gas), enc_block_from(dv, 4));
            assert(out@ + enc_block_from(dv, 4) == base + enc_block_from(dv, 0));
        }
        let ghost pre4 = out@;
        w_opt_str(&mut out, &input.extra_data);
        proof {
            lemma_concat_assoc(pre4, enc_opt_str(dv.extra_data), enc_block_from(dv, 5));
            assert(out@ + enc_block_from(dv, 5) == base + enc_block_from(dv, 0));
        }
        let ghost pre5 = out@;
        w_opt_str(&mut out, &input.gas_limit);
        proof {
            lemma_concat_assoc(pre5, enc_opt_str(dv.gas_limit), enc_block_from(dv, 6));
            assert(out@ + enc_block_from(dv, 6) == base + enc_block_from(dv, 0));
        }
        let ghost pre6 = out@;
        w_opt_str(&mut out, &input.gas_used);
        proof {
            lemma_concat_assoc(pre6, enc_opt_str(dv.gas_used), enc_block_from(dv, 7));
            assert(out@ + enc_block_from(dv, 7) == base + enc_block_from(dv, 0));
        }
        let ghost pre7 = out@;
        w_opt_str(&mut out, &input.hash);
        proof {
            lemma_concat_assoc(pre7, enc_opt_str(dv.hash), enc_block_from(dv, 8));
            assert(out@ + enc_block_from(dv, 8) == base + enc_block_from(dv, 0));
        }
        let ghost pre8 = out@;
        w_opt_str(&mut out, &input.logs_bloom);
        proof {
            lemma_concat_assoc(pre8, enc_opt_str(dv.logs_bloom), enc_block_from(dv, 9));
            assert(out@ + enc_block_from(dv, 9) == base + enc_block_from(dv, 0));
        }
        let ghost pre9 = out@;
        w_opt_str(&mut out, &input.miner);
        proof {
            lemma_concat_assoc(pre9, enc_opt_str(dv.miner), enc_block_from(dv, 10));
            assert(out@ + enc_block_from(dv, 10) == base + enc_block_from(dv, 0));
        }
        let ghost pre10 = out@;
        w_opt_str(&mut out, &input.mix_hash);
        proof {
            lemma_concat_assoc(pre10, enc_opt_str(dv.mix_hash), enc_block_from(dv, 11));
            assert(out@ + enc_block_from(dv, 11) == base + enc_block_from(dv, 0));
        }
        let ghost pre11 = out@;
        w_opt_str(&mut out, &input.nonce);
        proof {
            lemma_concat_assoc(pre11, enc_opt_str(dv.nonce), enc_block_from(dv, 12));
            assert(out@ + enc_block_from(dv, 12) == base + enc_block_from(dv, 0));
        }
        let ghost pre12 = out@;
        w_opt_str(&mut out, &input.number);
        proof {
            lemma_concat_assoc(pre12, enc_opt_str(dv.number), enc_block_from(dv, 13));
            assert(out@ + enc_block_from(dv, 13) == base + enc_block_from(dv, 0));
        }
        let ghost pre13 = out@;
        w_opt_str(&mut out, &input.parent_beacon_block_root);
        proof {
            lemma_concat_assoc(pre13, enc_opt_str(dv.parent_beacon_block_root), enc_block_from(dv, 14));
            assert(out@ + enc_block_from(dv, 14) == base + enc_block_from(dv, 0));
        }
        let ghost pre14 = out@;
        w_opt_str(&mut out, &input.parent_hash);
        proof {
            lemma_concat_assoc(pre14, enc_opt_str(dv.parent_hash), enc_block_from(dv, 15));
            assert(out@ + enc_block_from(dv, 15) == base + enc_block_from(dv, 0));
        }
        let ghost pre15 = out@;
        w_opt_str(&mut out, &input.receipts_root);
        proof {
            lemma_concat_assoc(pre15, enc_opt_str(dv.receipts_root), enc_block_from(dv, 16));
            assert(out@ + enc_block_from(dv, 16) == base + enc_block_from(dv, 0));
        }
        let ghost pre16 = out@;
        w_opt_str(&mut out, &input.sha3_uncles);
        proof {
            lemma_concat_assoc(pre16, enc_opt_str(dv.sha3_uncles), enc_block_from(dv, 17));
            assert(out@ + enc_block_from(dv, 17) == base + enc_block_from(dv, 0));
        }
        let ghost pre17 = out@;
        w_opt_str(&mut out, &input.size);
        proof {
            lemma_concat_assoc(pre17, enc_opt_str(dv.size), enc_block_from(dv, 18));
            assert(out@ + enc_block_from(dv, 18) == base + enc_block_from(dv, 0));
        }
        let ghost pre18 = out@;
        w_opt_str(&mut out, &input.state_root);
        proof {
            lemma_concat_assoc(pre18, enc_opt_str(dv.state_root), enc_block_from(dv, 19));
            assert(out@ + enc_block_from(dv, 19) == base + enc_block_from(dv, 0));
        }
        let ghost pre19 = out@;
        w_opt_str(&mut out, &input.timestamp);
        proof {
            lemma_concat_assoc(pre19, enc_opt_str(dv.timestamp), enc_block_from(dv, 20));
            assert(out@ + enc_block_from(dv, 20) == base + enc_block_from(dv, 0));
        }
        let ghost pre20 = out@;
        w_opt_str(&mut out, &input.total_difficulty);
        proof {
            lemma_concat_assoc(pre20, enc_opt_str(dv.total_difficulty), enc_block_from(dv, 21));
            assert(out@ + enc_block_from(dv, 21) == base + enc_block_from(dv, 0));
        }
        let ghost pre21 = out@;
        w_opt_vec_tx(&mut out, &input.transactions);
        proof {
            lemma_concat_assoc(pre21, enc_opt_vec_tx(dv.transactions), enc_block_from(dv, 22));
            assert(out@ + enc_block_from(dv, 22) == base + enc_block_from(dv, 0));
        }
        let ghost pre22 = out@;
        w_opt_vec_str(&mut out, &input.uncles);
        proof {
            lemma_concat_assoc(pre22, enc_opt_vec_str(dv.uncles), enc_block_from(dv, 23));
            assert(out@ + enc_block_from(dv, 23) == base + enc_block_from(dv, 0));
        }
        let ghost pre23 = out@;
        w_opt_vec_str(&mut out, &input.withdrawals);
        proof {
            lemma_concat_assoc(pre23, enc_opt_vec_str(dv.withdrawals), enc_block_from(dv, 24));
            assert(out@ + enc_block_from(dv, 24) == base + enc_block_from(dv, 0));
        }
        let ghost pre24 = out@;
        w_opt_str(&mut out, &input.withdrawals_root);
        proof {
            lemma_concat_assoc(pre24, enc_opt_str(dv.withdrawals_root), enc_block_from(dv, 25));
            assert(out@ + enc_block_from(dv, 25) == base + enc_block_from(dv, 0));
        }
        proof {
            assert(enc_block_from(dv, 25) =~= Seq::<u8>::empty());
            assert(out@ + Seq::<u8>::empty() =~= out@);
            assert(base =~= Seq::<u8>::empty());
            assert(Seq::<u8>::empty() + enc_block_from(dv, 0) =~= enc_block_from(dv, 0));
        }
        out
    }

    /// Checked serialization: `None` exactly when some length in the
    /// block overflows the wire format, which no RPC-returned block does.
    pub fn try_borsh_ser(input: &Block) -> (r: Option<Vec<u8>>)
        ensures
            block_wf(input.deep_view()) ==> (r matches Some(v) && v@ == enc_block(
                input.deep_view(),
            )),
            !block_wf(input.deep_view()) ==> r is None,
    {
        if input.well_formed() {
            Some(Block::borsh_ser(input))
        } else {
            None
        }
    }

    /// Deserializes the canonical binary form; `None` exactly when the
    /// bytes are not the encoding of any block.
    pub fn borsh_deser(bytes: &[u8]) -> (r: Option<Block>)
        ensures
            r matches Some(b) ==> dec_block(bytes@) == Some(b.deep_view()),
            r is None ==> dec_block(bytes@) is None,
    {
        proof {
            assert(bytes@.skip(0) =~= bytes@);
        }
        match r_block(bytes, 0) {
            Some((b, j)) => {
                if j == bytes.len() {
                    proof {
                        assert(bytes@.skip(j as int) =~= Seq::<u8>::empty());
                    }
                    Some(b)
                } else {
                    proof {
                        assert(bytes@.skip(j as int).len() > 0);
                    }
                    None
                }
            },
            None => None,
        }
    }
}

} // verus!
