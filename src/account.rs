//! Pool identity: the account that holds a pair's reserves.
use vstd::prelude::*;
use crate::types::{AccountId, AssetId};

verus! {

/// The little-endian bytes of `x`.
pub open spec fn le_bytes(x: u32) -> Seq<u8> {
    seq![
        (x % 256) as u8,
        (x / 256 % 256) as u8,
        (x / 65536 % 256) as u8,
        (x / 16777216 % 256) as u8,
    ]
}

/// The domain tag that precedes a pair in its account seed: "hydradx".
pub open spec fn account_tag() -> Seq<u8> {
    seq![104u8, 121u8, 100u8, 114u8, 97u8, 100u8, 120u8]
}

/// The two assets of a pair, smaller first.
pub open spec fn ordered(a: AssetId, b: AssetId) -> (AssetId, AssetId) {
    if a < b { (a, b) } else { (b, a) }
}

/// The bytes hashed into a pair's account: the tag, then both assets in order.
pub open spec fn account_seed(a: AssetId, b: AssetId) -> Seq<u8> {
    account_tag() + le_bytes(ordered(a, b).0) + le_bytes(ordered(a, b).1)
}

/// The name under which a pair's claim token is registered: both assets in order.
pub open spec fn share_token_name(a: AssetId, b: AssetId) -> Seq<u8> {
    le_bytes(ordered(a, b).0) + le_bytes(ordered(a, b).1)
}

/// The 256-bit BLAKE2b digest of `data`.
pub uninterp spec fn blake2_256_of(data: Seq<u8>) -> Seq<u8>;

/// The account of the pool of `a` and `b`.
pub open spec fn pair_account(a: AssetId, b: AssetId) -> Seq<u8> {
    blake2_256_of(account_seed(a, b))
}

/// Relies on `sp_core_hashing::blake2_256`: a 32-byte digest that depends on the data alone.
#[verifier::external_body]
fn blake2_256(data: &Vec<u8>) -> (r: Vec<u8>)
    ensures
        r@ == blake2_256_of(data@),
        r@.len() == 32,
{
    sp_core_hashing::blake2_256(data.as_slice()).to_vec()
}

/// Appends the little-endian bytes of `x`.
pub fn push_le_bytes(buf: &mut Vec<u8>, x: u32)
    ensures
        final(buf)@ == old(buf)@ + le_bytes(x),
{
    buf.push((x % 256) as u8);
    buf.push((x / 256 % 256) as u8);
    buf.push((x / 65536 % 256) as u8);
    buf.push((x / 16777216 % 256) as u8);
    assert(buf@ =~= old(buf)@ + le_bytes(x));
}

/// The name of the claim token of the pool of `a` and `b`.
pub fn share_token_name_of(a: AssetId, b: AssetId) -> (r: Vec<u8>)
    ensures
        r@ == share_token_name(a, b),
{
    let mut buf: Vec<u8> = Vec::new();
    if a < b {
        push_le_bytes(&mut buf, a);
        push_le_bytes(&mut buf, b);
    } else {
        push_le_bytes(&mut buf, b);
        push_le_bytes(&mut buf, a);
    }
    assert(buf@ =~= share_token_name(a, b));
    buf
}

/// Derives pool accounts from asset pairs.
pub struct AssetPairAccountId;

impl AssetPairAccountId {
    /// The account of the pool of `asset_a` and `asset_b`, whatever their order.
    pub fn from_assets(asset_a: AssetId, asset_b: AssetId) -> (r: AccountId)
        ensures
            r@ == pair_account(asset_a, asset_b),
            r@.len() == 32,
    {
        let mut buf: Vec<u8> = vec![104u8, 121u8, 100u8, 114u8, 97u8, 100u8, 120u8];
        assert(buf@ =~= account_tag());
        if asset_a < asset_b {
            push_le_bytes(&mut buf, asset_a);
            push_le_bytes(&mut buf, asset_b);
        } else {
            push_le_bytes(&mut buf, asset_b);
            push_le_bytes(&mut buf, asset_a);
        }
        assert(buf@ =~= account_seed(asset_a, asset_b));
        blake2_256(&buf)
    }
}

/// The account of a pair does not depend on the order of its assets.
pub proof fn lemma_pair_account_order_independent(a: AssetId, b: AssetId)
    ensures
        pair_account(a, b) == pair_account(b, a),
{
    assert(account_seed(a, b) =~= account_seed(b, a));
}

} // verus!
