//! Stable identities of broker executions: a SHA-256 digest of the order identity, the
//! execution identity and the time it happened, written as lowercase hex.

use sha2::Digest;
use vstd::prelude::*;
use vstd::string::StringSliceAdditionalSpecFns;
use crate::text::text_bytes;

verus! {

broadcast use vstd::seq_lib::group_seq_properties;

/// The SHA-256 digest `sha2` computes for these bytes.
pub uninterp spec fn sha256_of(bytes: Seq<u8>) -> Seq<u8>;

/// Hashes bytes with SHA-256.
///
/// Trusted: calls `sha2::Sha256::digest`; the digest is named `sha256_of` of the input, and it
/// is 32 bytes long, as SHA-256 defines.
#[verifier::external_body]
fn sha256(bytes: &[u8]) -> (res: Vec<u8>)
    ensures
        res@ == sha256_of(bytes@),
        res@.len() == 32,
{
    sha2::Sha256::digest(bytes).to_vec()
}

pub open spec fn lower_hex_digit(n: u8) -> u8 {
    if n < 10 {
        (48 + n) as u8
    } else {
        (87 + n) as u8
    }
}

/// Each byte as two lowercase hexadecimal digits, high half first.
pub open spec fn lower_hex(bytes: Seq<u8>) -> Seq<u8>
    decreases bytes.len(),
{
    if bytes.len() == 0 {
        Seq::empty()
    } else {
        lower_hex(bytes.drop_last()) + seq![
            lower_hex_digit(bytes.last() / 16),
            lower_hex_digit(bytes.last() % 16),
        ]
    }
}

/// Writes bytes as lowercase hexadecimal text.
///
/// Trusted: calls `hex::encode`, which writes each byte as two digits from `0123456789abcdef`,
/// high half first.
#[verifier::external_body]
fn hex_encode(bytes: &[u8]) -> (res: String)
    ensures
        text_bytes(res@) == lower_hex(bytes@),
{
    hex::encode(bytes)
}

/// The SHA-256 digest of bytes as lowercase hex text, 64 characters long.
pub fn hex_digest(bytes: &[u8]) -> (res: String)
    ensures
        text_bytes(res@) == lower_hex(sha256_of(bytes@)),
        text_bytes(res@).len() == 64,
{
    let digest = sha256(bytes);
    proof {
        lemma_lower_hex_len(digest@);
    }
    hex_encode(digest.as_slice())
}

/// The bytes an execution identity is computed from: the three texts, separated by zero bytes.
pub open spec fn execution_identity_input(
    order_id: Seq<char>,
    execution_id: Seq<char>,
    occurred_at: Seq<char>,
) -> Seq<u8> {
    text_bytes(order_id) + seq![0u8] + text_bytes(execution_id) + seq![0u8] + text_bytes(
        occurred_at,
    )
}

/// The identity of an execution: the lowercase hex SHA-256 digest of its order identity,
/// execution identity and occurrence time.
pub fn execution_identity(order_id: &str, execution_id: &str, occurred_at: &str) -> (res: String)
    ensures
        text_bytes(res@) == lower_hex(
            sha256_of(execution_identity_input(order_id@, execution_id@, occurred_at@)),
        ),
        text_bytes(res@).len() == 64,
{
    let mut input: Vec<u8> = Vec::new();
    crate::text::push_all(&mut input, order_id.as_bytes());
    input.push(0);
    crate::text::push_all(&mut input, execution_id.as_bytes());
    input.push(0);
    crate::text::push_all(&mut input, occurred_at.as_bytes());
    assert(input@ =~= execution_identity_input(order_id@, execution_id@, occurred_at@));
    hex_digest(input.as_slice())
}

pub proof fn lemma_lower_hex_len(bytes: Seq<u8>)
    ensures
        lower_hex(bytes).len() == 2 * bytes.len(),
    decreases bytes.len(),
{
    if bytes.len() > 0 {
        lemma_lower_hex_len(bytes.drop_last());
    }
}


/// The value of a lower-case hex digit.
pub open spec fn lower_hex_value(d: u8) -> int {
    if 48 <= d <= 57 {
        d - 48
    } else {
        d - 87
    }
}

/// Digits `2i` and `2i + 1` of `out` are lower-case hex digits whose value is `b`.
pub open spec fn hex_pair_reads(out: Seq<u8>, i: int, b: u8) -> bool {
    let h = out[2 * i];
    let l = out[2 * i + 1];
    &&& (48 <= h <= 57 || 97 <= h <= 102)
    &&& (48 <= l <= 57 || 97 <= l <= 102)
    &&& lower_hex_value(h) * 16 + lower_hex_value(l) == b
}

/// Hex text reads back: two lower-case digits per byte, high nibble first, whose value is the
/// byte.
pub proof fn law_lower_hex_reads_back(bytes: Seq<u8>)
    ensures
        lower_hex(bytes).len() == 2 * bytes.len(),
        forall|i: int| 0 <= i < bytes.len() ==> #[trigger] hex_pair_reads(lower_hex(bytes), i, bytes[i]),
    decreases bytes.len(),
{
    if bytes.len() > 0 {
        let init = bytes.drop_last();
        law_lower_hex_reads_back(init);
        let b = bytes.last();
        assert(b / 16 * 16 + b % 16 == b);
        assert(b / 16 < 16 && b % 16 < 16);
        let tail = seq![lower_hex_digit(b / 16), lower_hex_digit(b % 16)];
        let out = lower_hex(bytes);
        assert(out == lower_hex(init) + tail);
        assert forall|i: int| 0 <= i < bytes.len() implies #[trigger] hex_pair_reads(out, i, bytes[i]) by {
            if i < init.len() {
                assert(bytes[i] == init[i]);
                assert(hex_pair_reads(lower_hex(init), i, init[i]));
                assert(out[2 * i] == lower_hex(init)[2 * i]);
                assert(out[2 * i + 1] == lower_hex(init)[2 * i + 1]);
            } else {
                assert(i == init.len());
                assert(out[2 * i] == tail[0]);
                assert(out[2 * i + 1] == tail[1]);
                assert(bytes[i] == b);
            }
        }
    }
}

} // verus!
