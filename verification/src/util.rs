//! Small helpers: the bit-level conversion between the store's signed ids and
//! the chat service's unsigned ids, and secret-token generation.

use vstd::prelude::*;
use vstd::string::StrSliceExecFns;
use vstd::string::StringExecFns;

verus! {

/// Reinterpret an unsigned id as the signed integer with the same bit pattern,
/// as the store keeps it.
pub fn to_i(x: u64) -> (r: i64)
    ensures
        r == x as i64,
{
    x as i64
}

/// Reinterpret a stored signed id as the unsigned id with the same bit pattern.
pub fn from_i(x: i64) -> (r: u64)
    ensures
        r == x as u64,
{
    x as u64
}

/// Converting an id to its stored form and back returns the original id,
/// and the two conversions are inverse in the other direction as well.
pub proof fn lemma_id_round_trip(x: u64, y: i64)
    ensures
        (x as i64) as u64 == x,
        (y as u64) as i64 == y,
{
    assert((x as i64) as u64 == x) by (bit_vector);
    assert((y as u64) as i64 == y) by (bit_vector);
}

/// The characters a generated token is drawn from.
pub open spec fn token_alphabet() -> Seq<char> {
    "abcdefghijklmnopqrstuvwxyABCDEFGHIJKLMNOPQRSTUVWXY"@
}

/// Relies on rand::Rng::gen_range, which returns a value inside the given
/// range and panics only when the range is empty.
#[verifier::external_body]
fn random_below(n: usize) -> (r: usize)
    requires
        1 <= n,
    ensures
        r < n,
{
    rand::Rng::gen_range(&mut rand::thread_rng(), 0..n)
}

/// Generate a fresh secret token: 32 characters drawn from the token
/// alphabet.
pub fn gen_token() -> (r: String)
    ensures
        r@.len() == 32,
        forall|i: int| 0 <= i < 32 ==> token_alphabet().contains(#[trigger] r@[i]),
{
    let alphabet = "abcdefghijklmnopqrstuvwxyABCDEFGHIJKLMNOPQRSTUVWXY";
    proof {
        reveal_strlit("abcdefghijklmnopqrstuvwxyABCDEFGHIJKLMNOPQRSTUVWXY");
    }
    let mut out = String::new();
    let mut k: usize = 0;
    while k < 32
        invariant
            k <= 32,
            out@.len() == k,
            alphabet@ == token_alphabet(),
            alphabet@.len() == 50,
            forall|i: int| 0 <= i < k ==> token_alphabet().contains(#[trigger] out@[i]),
        decreases 32 - k,
    {
        let idx = random_below(50);
        let piece = alphabet.substring_char(idx, idx + 1);
        proof {
            assert(piece@[0] == token_alphabet()[idx as int]);
            assert(token_alphabet().contains(piece@[0]));
        }
        out.append(piece);
        k = k + 1;
    }
    out
}

/// Relies on uuid::Timestamp::from_unix, Uuid::new_v1 and the simple format:
/// a version-1 id rendered simple is 32 hexadecimal characters. Takes the
/// moment as plain values; the id also depends on the context's counter, so
/// nothing more is promised of it.
#[verifier::external_body]
pub fn gen_uuid(secs: u64, subsec_nanos: u32) -> (r: String)
    ensures
        r@.len() == 32,
{
    let ctx = uuid::ContextV1::new(0);
    let ts = uuid::Timestamp::from_unix(&ctx, secs, subsec_nanos);
    let id = uuid::Uuid::new_v1(ts, &[0, 0, 0, 0, 0, 0]);
    format!("{}", id.simple())
}

} // verus!
