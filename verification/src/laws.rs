//! The engine's global laws, stated over the same spec functions its
//! contracts use.

use vstd::prelude::*;
use crate::codec::{valid_b64, pad_len, is_b64_symbol, spec_b64_decode};
use crate::totp::{spec_code, spec_code_at, code_wf, lemma_code_chars_wf};

verus! {

/// Determinism: a fixed secret and a fixed counter determine the code — any
/// two codes generated from them are the same.
pub proof fn lemma_generate_deterministic(s: Seq<u8>, counter: u64, c1: Seq<char>, c2: Seq<char>)
    requires
        c1 == spec_code(s, counter),
        c2 == spec_code(s, counter),
    ensures
        c1 == c2,
{
}

/// Alphabet closure: whatever the secret and counter, the code is exactly 5
/// characters and each is drawn from the 26-symbol alphabet.
pub proof fn lemma_code_in_alphabet(s: Seq<u8>, counter: u64)
    ensures
        code_wf(spec_code(s, counter)),
{
    lemma_code_chars_wf(
        crate::totp::spec_truncate(
            crate::mac::spec_hmac_sha1(
                spec_b64_decode(s),
                crate::totp::counter_be_bytes(counter),
            ),
        ) as nat,
        5,
    );
}

/// Decode failure: a byte that is neither a base64 symbol nor `=` anywhere
/// in the input makes the whole input invalid, so decoding — and with it
/// every generate entry point — rejects it.
pub proof fn lemma_foreign_byte_invalid(s: Seq<u8>, i: int)
    requires
        0 <= i < s.len(),
        !is_b64_symbol(s[i]),
        s[i] != '=' as u8,
    ensures
        !valid_b64(s),
{
    let n = s.len() as int;
    let p = pad_len(s);
    if valid_b64(s) {
        assert(forall|j: int| n - p <= j < n ==> s[j] == '=' as u8);
        assert(i < n - p);
        assert(is_b64_symbol(s[i]));
    }
}

/// Window stability: two wall-clock readings that fall in the same
/// 30-second window yield the same code for the same secret.
pub proof fn lemma_window_stability(s: Seq<u8>, t1: u64, t2: u64)
    requires
        t1 / 30 == t2 / 30,
    ensures
        spec_code_at(s, t1) == spec_code_at(s, t2),
{
}

/// Idempotence of decoding: a base64 string denotes one key — any two
/// decodings of it are byte-identical.
pub proof fn lemma_decode_deterministic(s: Seq<u8>, k1: Seq<u8>, k2: Seq<u8>)
    requires
        k1 == spec_b64_decode(s),
        k2 == spec_b64_decode(s),
    ensures
        k1 == k2,
{
}

} // verus!
