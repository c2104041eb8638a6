//! Blocks and transactions of an EVM chain, as the pipeline keeps them.
//!
//! A node answers with blocks that carry many more fields; `RpcBlock` and
//! `RpcTransaction` hold the ones the pipeline reads, as plain values: a 256-bit hash as
//! its 32 big-endian bytes, an address as its 20 bytes, and a 256-bit number as its four
//! 64-bit limbs, least significant first.
use vstd::prelude::*;

verus! {

/// A 256-bit hash, as its 32 bytes.
pub type H256Bytes = [u8; 32];

/// A 160-bit account address, as its 20 bytes.
pub type AddressBytes = [u8; 20];

/// A 256-bit unsigned number, as four 64-bit limbs, least significant first.
pub type U256Limbs = [u64; 4];

/// A transaction as the node reports it inside a block.
pub struct RpcTransaction {
    pub hash: H256Bytes,
    pub nonce: U256Limbs,
    pub transaction_index: Option<u64>,
    pub from: AddressBytes,
    pub to: Option<AddressBytes>,
    pub value: U256Limbs,
    pub gas_price: Option<U256Limbs>,
    pub gas: U256Limbs,
    pub input: Vec<u8>,
    pub v: u64,
    pub r: U256Limbs,
    pub s: U256Limbs,
}

/// A block as the node reports it, with its transactions in full. A block that is still
/// pending has neither a hash nor a number.
pub struct RpcBlock {
    pub hash: Option<H256Bytes>,
    pub parent_hash: H256Bytes,
    pub number: Option<u64>,
    pub timestamp: U256Limbs,
    pub uncles: Vec<H256Bytes>,
    pub transactions: Vec<RpcTransaction>,
}

/// A transaction as the pipeline keeps it.
pub struct EvmTransaction {
    pub hash: H256Bytes,
    pub nonce: U256Limbs,
    pub transaction_index: Option<u64>,
    pub from: AddressBytes,
    pub to: Option<AddressBytes>,
    pub value: U256Limbs,
    pub gas_price: Option<U256Limbs>,
    pub gas: U256Limbs,
    pub input: Vec<u8>,
    /// ECDSA recovery id
    pub v: u64,
    /// ECDSA signature r
    pub r: U256Limbs,
    /// ECDSA signature s
    pub s: U256Limbs,
}

/// A block as the pipeline keeps it: a mined block, so its hash is known.
pub struct EvmBlock {
    pub hash: H256Bytes,
    pub parent_hash: H256Bytes,
    pub number: Option<u64>,
    pub timestamp: U256Limbs,
    pub uncles: Vec<H256Bytes>,
    pub transactions: Vec<EvmTransaction>,
}

/// Every byte of `h` is zero.
pub open spec fn is_zero_hash(h: H256Bytes) -> bool {
    forall|i: int| 0 <= i < 32 ==> h@[i] == 0
}

/// Every byte of `a` is zero.
pub open spec fn is_zero_address(a: AddressBytes) -> bool {
    forall|i: int| 0 <= i < 20 ==> a@[i] == 0
}

/// The number `n` is zero: every limb is.
pub open spec fn is_zero_u256(n: U256Limbs) -> bool {
    forall|i: int| 0 <= i < 4 ==> n@[i] == 0
}

/// `out` holds every field of `tx` unchanged.
pub open spec fn keeps_transaction(tx: RpcTransaction, out: EvmTransaction) -> bool {
    &&& out.hash == tx.hash
    &&& out.nonce == tx.nonce
    &&& out.transaction_index == tx.transaction_index
    &&& out.from == tx.from
    &&& out.to == tx.to
    &&& out.value == tx.value
    &&& out.gas_price == tx.gas_price
    &&& out.gas == tx.gas
    &&& out.input@ == tx.input@
    &&& out.v == tx.v
    &&& out.r == tx.r
    &&& out.s == tx.s
}

/// `out` is `block` as the pipeline keeps it: its hash, parent, number, timestamp and
/// uncles unchanged, and each of its transactions kept, in the same order.
pub open spec fn keeps_block(block: RpcBlock, out: EvmBlock) -> bool {
    &&& block.hash == Some(out.hash)
    &&& out.parent_hash == block.parent_hash
    &&& out.number == block.number
    &&& out.timestamp == block.timestamp
    &&& out.uncles@ == block.uncles@
    &&& out.transactions@.len() == block.transactions@.len()
    &&& forall|i: int|
        0 <= i < block.transactions@.len() ==> keeps_transaction(
            #[trigger] block.transactions@[i],
            out.transactions@[i],
        )
}

fn copy_bytes(bytes: &Vec<u8>) -> (r: Vec<u8>)
    ensures
        r@ == bytes@,
{
    let mut r: Vec<u8> = Vec::new();
    let mut i: usize = 0;
    while i < bytes.len()
        invariant
            i <= bytes.len(),
            r@ == bytes@.take(i as int),
        decreases bytes.len() - i,
    {
        r.push(bytes[i]);
        i += 1;
        assert(r@ == bytes@.take(i as int));
    }
    assert(bytes@.take(bytes.len() as int) == bytes@);
    r
}

fn copy_hashes(hashes: &Vec<H256Bytes>) -> (r: Vec<H256Bytes>)
    ensures
        r@ == hashes@,
{
    let mut r: Vec<H256Bytes> = Vec::new();
    let mut i: usize = 0;
    while i < hashes.len()
        invariant
            i <= hashes.len(),
            r@ == hashes@.take(i as int),
        decreases hashes.len() - i,
    {
        r.push(hashes[i]);
        i += 1;
        assert(r@ == hashes@.take(i as int));
    }
    assert(hashes@.take(hashes.len() as int) == hashes@);
    r
}

impl EvmTransaction {
    /// The empty transaction: every number and byte zero, no index, no recipient, no gas
    /// price and no input.
    pub fn new() -> (r: EvmTransaction)
        ensures
            is_zero_hash(r.hash),
            is_zero_u256(r.nonce),
            r.transaction_index is None,
            is_zero_address(r.from),
            r.to is None,
            is_zero_u256(r.value),
            r.gas_price is None,
            is_zero_u256(r.gas),
            r.input@.len() == 0,
            r.v == 0,
            is_zero_u256(r.r),
            is_zero_u256(r.s),
    {
        EvmTransaction {
            hash: [0u8; 32],
            nonce: [0u64; 4],
            transaction_index: None,
            from: [0u8; 20],
            to: None,
            value: [0u64; 4],
            gas_price: None,
            gas: [0u64; 4],
            input: Vec::new(),
            v: 0,
            r: [0u64; 4],
            s: [0u64; 4],
        }
    }

    /// Keeps a transaction of a block as the pipeline stores it.
    pub fn map_tx(tx: &RpcTransaction) -> (r: EvmTransaction)
        ensures
            keeps_transaction(*tx, r),
    {
        EvmTransaction {
            hash: tx.hash,
            nonce: tx.nonce,
            transaction_index: tx.transaction_index,
            from: tx.from,
            to: tx.to,
            value: tx.value,
            gas_price: tx.gas_price,
            gas: tx.gas,
            input: copy_bytes(&tx.input),
            v: tx.v,
            r: tx.r,
            s: tx.s,
        }
    }
}

impl EvmBlock {
    /// The empty block: zero hashes and timestamp, no number, no uncles and no
    /// transactions.
    pub fn new() -> (r: EvmBlock)
        ensures
            is_zero_hash(r.hash),
            is_zero_hash(r.parent_hash),
            r.number is None,
            is_zero_u256(r.timestamp),
            r.uncles@.len() == 0,
            r.transactions@.len() == 0,
    {
        EvmBlock {
            hash: [0u8; 32],
            parent_hash: [0u8; 32],
            number: None,
            timestamp: [0u64; 4],
            uncles: Vec::new(),
            transactions: Vec::new(),
        }
    }

    /// Keeps a mined block as the pipeline stores it, with each of its transactions kept
    /// by `map_tx`. A block without a hash (a pending one) is not accepted.
    pub fn map_block(block: &RpcBlock) -> (r: EvmBlock)
        requires
            block.hash is Some,
        ensures
            keeps_block(*block, r),
    {
        let mut transactions: Vec<EvmTransaction> = Vec::new();
        let mut i: usize = 0;
        while i < block.transactions.len()
            invariant
                i <= block.transactions@.len(),
                transactions@.len() == i,
                forall|j: int|
                    0 <= j < i ==> keeps_transaction(
                        #[trigger] block.transactions@[j],
                        transactions@[j],
                    ),
            decreases block.transactions.len() - i,
        {
            let tx = EvmTransaction::map_tx(&block.transactions[i]);
            transactions.push(tx);
            i += 1;
        }
        let hash = block.hash.unwrap();
        EvmBlock {
            hash,
            parent_hash: block.parent_hash,
            number: block.number,
            timestamp: block.timestamp,
            uncles: copy_hashes(&block.uncles),
            transactions,
        }
    }
}

} // verus!
