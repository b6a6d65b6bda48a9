//! Notification relay: serialization of stored records.
//!
//! After a successful commit, each record of the batch — duplicates included,
//! deliberately, since redelivery to subscribers is at-least-once — is
//! serialized to a transport-neutral structured form and published to a
//! single named broadcast channel. Publishing is I/O and lives in the
//! surrounding program; what is verified here is the serialized form itself.
//! A record whose text fields are plain printable characters (which every
//! field the extractor produces is, except possibly the digest) serializes
//! to exactly the JSON text below; anything else is refused rather than
//! escaped, and the relay logs and skips it, as it absorbs every failure.

use vstd::prelude::*;

use crate::hex::hex_char_str;
use crate::hex::hex_digit;
use crate::hex::hex_literal_of;
use crate::hex::hex_of;
use crate::models::StoredDIDClaimedEvent;
use crate::models::StoredDIDClaimedEventView;

verus! {

/// The broadcast channel every notification is published to.
pub const NOTIFICATION_CHANNEL: &'static str = "did_claimed";

/// The usual decimal rendering of a number, most significant digit first,
/// without leading zeros (zero itself is a single digit).
pub open spec fn dec_str_of(n: nat) -> Seq<char>
    decreases n,
{
    if n < 10 {
        seq![hex_digit(n as u8)]
    } else {
        dec_str_of(n / 10).push(hex_digit((n % 10) as u8))
    }
}

/// A character that may stand in a JSON string without escaping: printable
/// ASCII other than the quote and the backslash.
pub open spec fn char_json_plain(c: char) -> bool {
    &&& 32 <= (c as u32) <= 126
    &&& c != '"'
    &&& c != '\\'
}

/// A text that may stand in a JSON string literally, character for character.
pub open spec fn json_plain(s: Seq<char>) -> bool {
    forall|i: int| 0 <= i < s.len() ==> char_json_plain(#[trigger] s[i])
}

/// The serialized form of a stored record: one flat JSON object holding
/// every field, text fields quoted literally and integers in decimal.
pub open spec fn json_text_of(r: StoredDIDClaimedEventView) -> Seq<char> {
    "{\"registry_id\":\""@ + r.registry_id + "\",\"user_address\":\""@ + r.user_address
        + "\",\"did_type\":"@ + dec_str_of(r.did_type as nat) + ",\"user_did_id\":\""@
        + r.user_did_id + "\",\"nft_id\":\""@ + r.nft_id + "\",\"checkpoint_sequence_number\":"@
        + dec_str_of(r.checkpoint_sequence_number as nat) + ",\"transaction_digest\":\""@
        + r.transaction_digest + "\",\"timestamp_ms\":"@ + dec_str_of(r.timestamp_ms as nat)
        + ",\"event_index\":"@ + dec_str_of(r.event_index as nat) + "}"@
}

/// Every digit the hexadecimal table yields is plain printable text.
proof fn lemma_hex_digit_plain(d: u8)
    ensures
        char_json_plain(hex_digit(d)),
{
}

/// Hex-literal renderings — every identifier field the extractor builds —
/// are always serializable without escaping.
pub proof fn lemma_hex_literal_json_plain(bytes: Seq<u8>)
    ensures
        json_plain(hex_literal_of(bytes)),
{
    assert forall|i: int| 0 <= i < hex_literal_of(bytes).len() implies char_json_plain(
        #[trigger] hex_literal_of(bytes)[i],
    ) by {
        if i >= 2 {
            let c = hex_of(bytes)[i - 2];
            if (i - 2) % 2 == 0 {
                lemma_hex_digit_plain(bytes[(i - 2) / 2] / 16);
            } else {
                lemma_hex_digit_plain(bytes[(i - 2) / 2] % 16);
            }
            assert(char_json_plain(c));
        }
    }
}

/// Whether every character of `s` may stand in a JSON string unescaped.
pub fn is_json_plain(s: &String) -> (b: bool)
    ensures
        b == json_plain(s@),
{
    let text = s.as_str();
    let n = text.unicode_len();
    let mut i: usize = 0;
    while i < n
        invariant
            i <= n,
            n == text@.len(),
            text@ == s@,
            forall|j: int| 0 <= j < i ==> char_json_plain(#[trigger] s@[j]),
        decreases n - i,
    {
        let c = text.get_char(i);
        let v = c as u32;
        if v < 32 || v > 126 || c == '"' || c == '\\' {
            return false;
        }
        i = i + 1;
    }
    true
}

/// The digits of `ds`, highest digit last, read back to front as characters.
spec fn rev_digit_chars(ds: Seq<u8>) -> Seq<char> {
    Seq::new(ds.len(), |i: int| hex_digit(ds[ds.len() - 1 - i]))
}

/// Appends the decimal rendering of `n` to `s`.
fn push_decimal(s: &mut String, n: u64)
    ensures
        final(s)@ == old(s)@ + dec_str_of(n as nat),
{
    let mut digits: Vec<u8> = Vec::new();
    let mut m: u64 = n;
    digits.push((m % 10) as u8);
    m = m / 10;
    proof {
        if n < 10 {
            assert(rev_digit_chars(digits@) =~= seq![hex_digit(n as u8)]);
            assert(dec_str_of(n as nat) == rev_digit_chars(digits@));
        } else {
            assert(dec_str_of(n as nat) == dec_str_of(m as nat) + rev_digit_chars(digits@));
        }
    }
    while m > 0
        invariant
            digits@.len() >= 1,
            forall|j: int| 0 <= j < digits@.len() ==> #[trigger] digits@[j] < 10,
            dec_str_of(n as nat) == (if m == 0 {
                Seq::<char>::empty()
            } else {
                dec_str_of(m as nat)
            }) + rev_digit_chars(digits@),
        decreases m,
    {
        let d = (m % 10) as u8;
        let ghost before = digits@;
        digits.push(d);
        let next = m / 10;
        proof {
            assert(rev_digit_chars(digits@) =~= seq![hex_digit(d)] + rev_digit_chars(before));
            if next == 0 {
                assert(m < 10);
                assert(dec_str_of(m as nat) == seq![hex_digit(d)]);
                assert(Seq::<char>::empty() + rev_digit_chars(digits@) =~= dec_str_of(m as nat)
                    + rev_digit_chars(before));
            } else {
                assert(dec_str_of(m as nat) == dec_str_of(next as nat) + seq![hex_digit(d)]);
                assert(dec_str_of(next as nat) + rev_digit_chars(digits@) =~= dec_str_of(m as nat)
                    + rev_digit_chars(before));
            }
        }
        m = next;
    }
    let ghost start = s@;
    let count = digits.len();
    let mut k: usize = 0;
    proof {
        assert(s@ =~= start + rev_digit_chars(digits@).take(0));
    }
    while k < count
        invariant
            k <= count,
            count == digits@.len(),
            forall|j: int| 0 <= j < digits@.len() ==> #[trigger] digits@[j] < 10,
            s@ == start + rev_digit_chars(digits@).take(k as int),
        decreases count - k,
    {
        s.append(hex_char_str(digits[count - 1 - k]));
        proof {
            assert(rev_digit_chars(digits@).take(k + 1) =~= rev_digit_chars(digits@).take(
                k as int,
            ).push(hex_digit(digits@[count - 1 - k])));
        }
        k = k + 1;
    }
    proof {
        assert(rev_digit_chars(digits@).take(digits@.len() as int) =~= rev_digit_chars(digits@));
        assert(Seq::<char>::empty() + rev_digit_chars(digits@) =~= rev_digit_chars(digits@));
    }
}

/// Serializes one record for the relay.
///
/// Succeeds exactly when every text field of the record is plain printable
/// JSON-safe text, and then yields exactly [`json_text_of`] the record; a
/// record that would need escaping is refused with `None`, which the relay
/// treats as a serialization failure: logged, skipped, never propagated.
pub fn notification_payload(r: &StoredDIDClaimedEvent) -> (p: Option<String>)
    ensures
        (p is Some) == (json_plain(r.registry_id@) && json_plain(r.user_address@) && json_plain(
            r.user_did_id@,
        ) && json_plain(r.nft_id@) && json_plain(r.transaction_digest@)),
        (p matches Some(s) ==> s@ == json_text_of(r@)),
{
    if !is_json_plain(&r.registry_id) {
        return None;
    }
    if !is_json_plain(&r.user_address) {
        return None;
    }
    if !is_json_plain(&r.user_did_id) {
        return None;
    }
    if !is_json_plain(&r.nft_id) {
        return None;
    }
    if !is_json_plain(&r.transaction_digest) {
        return None;
    }
    let mut s = String::new();
    s.append("{\"registry_id\":\"");
    s.append(r.registry_id.as_str());
    s.append("\",\"user_address\":\"");
    s.append(r.user_address.as_str());
    s.append("\",\"did_type\":");
    push_decimal(&mut s, r.did_type as u64);
    s.append(",\"user_did_id\":\"");
    s.append(r.user_did_id.as_str());
    s.append("\",\"nft_id\":\"");
    s.append(r.nft_id.as_str());
    s.append("\",\"checkpoint_sequence_number\":");
    push_decimal(&mut s, r.checkpoint_sequence_number);
    s.append(",\"transaction_digest\":\"");
    s.append(r.transaction_digest.as_str());
    s.append("\",\"timestamp_ms\":");
    push_decimal(&mut s, r.timestamp_ms);
    s.append(",\"event_index\":");
    push_decimal(&mut s, r.event_index);
    s.append("}");
    proof {
        assert((r.did_type as u64) as nat == r.did_type as nat);
        assert(s@ =~= json_text_of(r@));
    }
    Some(s)
}

} // verus!
