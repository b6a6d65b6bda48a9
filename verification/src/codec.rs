//! Binary event codec.
//!
//! An event payload is a fixed-layout byte string with no framing: the five
//! fields of [`DIDClaimed`] laid out in declaration order, each identifier as
//! 32 raw bytes and the discriminant as a single byte, 129 bytes in all. A
//! payload of any other length is rejected; decoding never panics and never
//! yields a partially populated record.

use vstd::prelude::*;

use crate::events::DIDClaimed;
use crate::events::DIDClaimedView;

verus! {

/// Exact length in bytes of a well-formed payload.
pub const ENCODED_LEN: usize = 129;

/// Why a payload was rejected.
#[derive(Clone, Copy, Debug, PartialEq, Eq, Structural)]
pub enum DecodeError {
    /// Fewer bytes than the fixed layout requires.
    Truncated,
    /// More bytes than the fixed layout requires.
    TrailingData,
}

/// The byte string that encodes a decoded event.
pub open spec fn encoding_of(v: DIDClaimedView) -> Seq<u8> {
    v.registry_id + v.user_address + seq![v.did_type] + v.user_did_id + v.nft_id
}

/// The unique event a payload decodes to, or `None` when its length is wrong.
pub open spec fn decode_spec(payload: Seq<u8>) -> Option<DIDClaimedView> {
    if payload.len() == ENCODED_LEN {
        Some(
            DIDClaimedView {
                registry_id: payload.subrange(0, 32),
                user_address: payload.subrange(32, 64),
                did_type: payload[64],
                user_did_id: payload.subrange(65, 97),
                nft_id: payload.subrange(97, 129),
            },
        )
    } else {
        None
    }
}

/// Whatever decodes is well formed and re-encodes to the very bytes it came
/// from: decoding loses nothing.
pub proof fn lemma_decode_encode(payload: Seq<u8>, v: DIDClaimedView)
    requires
        decode_spec(payload) == Some(v),
    ensures
        v.well_formed(),
        encoding_of(v) == payload,
{
    assert(encoding_of(v) =~= payload);
}

/// Every well-formed event decodes back from its own encoding: encoding loses
/// nothing, and the encoding is injective.
pub proof fn lemma_encode_decode(v: DIDClaimedView)
    requires
        v.well_formed(),
    ensures
        decode_spec(encoding_of(v)) == Some(v),
{
    let p = encoding_of(v);
    assert(p.len() == ENCODED_LEN);
    assert(p.subrange(0, 32) =~= v.registry_id);
    assert(p.subrange(32, 64) =~= v.user_address);
    assert(p[64] == v.did_type);
    assert(p.subrange(65, 97) =~= v.user_did_id);
    assert(p.subrange(97, 129) =~= v.nft_id);
    assert(decode_spec(p).unwrap() =~= v);
}

/// Copies `src[start..end]` into a fresh vector.
fn copy_range(src: &Vec<u8>, start: usize, end: usize) -> (r: Vec<u8>)
    requires
        start <= end,
        end <= src@.len(),
    ensures
        r@ == src@.subrange(start as int, end as int),
{
    let mut r: Vec<u8> = Vec::new();
    let mut i: usize = start;
    while i < end
        invariant
            start <= i <= end <= src@.len(),
            r@ == src@.subrange(start as int, i as int),
        decreases end - i,
    {
        r.push(src[i]);
        proof {
            assert(src@.subrange(start as int, i + 1) =~= src@.subrange(start as int, i as int)
                + seq![src@[i as int]]);
        }
        i = i + 1;
    }
    r
}

/// Decodes a payload against the fixed layout.
///
/// Succeeds exactly on payloads of the right length; a short payload is
/// reported as truncated and a long one as carrying trailing bytes.
pub fn decode(payload: &Vec<u8>) -> (r: Result<DIDClaimed, DecodeError>)
    ensures
        (r is Ok) == (payload@.len() == ENCODED_LEN),
        (match r {
            Ok(e) => decode_spec(payload@) == Some(e@) && e.well_formed(),
            Err(DecodeError::Truncated) => payload@.len() < ENCODED_LEN,
            Err(DecodeError::TrailingData) => payload@.len() > ENCODED_LEN,
        }),
{
    if payload.len() < ENCODED_LEN {
        return Err(DecodeError::Truncated);
    }
    if payload.len() > ENCODED_LEN {
        return Err(DecodeError::TrailingData);
    }
    let registry_id = copy_range(payload, 0, 32);
    let user_address = copy_range(payload, 32, 64);
    let did_type = payload[64];
    let user_did_id = copy_range(payload, 65, 97);
    let nft_id = copy_range(payload, 97, 129);
    let e = DIDClaimed { registry_id, user_address, did_type, user_did_id, nft_id };
    proof {
        assert(decode_spec(payload@).unwrap() =~= e@);
    }
    Ok(e)
}

/// Appends all of `src` to `dst`.
fn append_bytes(dst: &mut Vec<u8>, src: &Vec<u8>)
    ensures
        final(dst)@ == old(dst)@ + src@,
{
    let mut i: usize = 0;
    while i < src.len()
        invariant
            i <= src@.len(),
            dst@ == old(dst)@ + src@.take(i as int),
        decreases src@.len() - i,
    {
        dst.push(src[i]);
        proof {
            assert(old(dst)@ + src@.take(i + 1) =~= (old(dst)@ + src@.take(i as int)).push(
                src@[i as int],
            ));
        }
        i = i + 1;
    }
    proof {
        assert(src@.take(src@.len() as int) =~= src@);
    }
}

/// Encodes a well-formed event into the fixed layout that [`decode`] accepts.
pub fn encode(e: &DIDClaimed) -> (r: Vec<u8>)
    requires
        e.well_formed(),
    ensures
        r@ == encoding_of(e@),
        r@.len() == ENCODED_LEN,
{
    let mut r: Vec<u8> = Vec::new();
    append_bytes(&mut r, &e.registry_id);
    append_bytes(&mut r, &e.user_address);
    r.push(e.did_type);
    append_bytes(&mut r, &e.user_did_id);
    append_bytes(&mut r, &e.nft_id);
    proof {
        assert(r@ =~= encoding_of(e@));
    }
    r
}

} // verus!
