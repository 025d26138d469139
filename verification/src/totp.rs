//! The TOTP engine: secret and moment in, 5-character code out.
//!
//! The counter is the 30-second bucket of the wall-clock reading; its 8-byte
//! big-endian encoding is the HMAC message. The digest is truncated the RFC
//! 4226 way (offset from the low nibble of the last byte, 31-bit big-endian
//! value at that offset) and the value is mapped onto Steam's alphabet by
//! five rounds of division: each round appends the character selected by the
//! remainder and carries the quotient to the next.
//!
//! A secret that decodes to the empty key is accepted: the code is computed
//! with HMAC's (well-defined) empty key rather than rejected.

use vstd::prelude::*;
use vstd::string::StringSliceAdditionalSpecFns;
use crate::codec::{DecodeError, decode_base64, valid_b64, spec_b64_decode};
use crate::mac::{spec_hmac_sha1, hmac_sha1};

verus! {

/// The 26 characters Steam draws codes from, in order.
pub open spec fn alphabet() -> Seq<char> {
    seq![
        '2', '3', '4', '5', '6', '7', '8', '9', 'B', 'C', 'D', 'F', 'G',
        'H', 'J', 'K', 'M', 'N', 'P', 'Q', 'R', 'T', 'V', 'W', 'X', 'Y',
    ]
}

/// The time counter: the index of the 30-second window holding `unix_secs`.
pub open spec fn spec_counter(unix_secs: u64) -> u64 {
    (unix_secs / 30) as u64
}

/// The counter as HMAC sees it: 8 bytes, big-endian.
pub open spec fn counter_be_bytes(c: u64) -> Seq<u8> {
    seq![
        (c / 0x100000000000000) as u8,
        ((c / 0x1000000000000) % 256) as u8,
        ((c / 0x10000000000) % 256) as u8,
        ((c / 0x100000000) % 256) as u8,
        ((c / 0x1000000) % 256) as u8,
        ((c / 0x10000) % 256) as u8,
        ((c / 0x100) % 256) as u8,
        (c % 256) as u8,
    ]
}

/// Dynamic truncation of a 20-byte digest: the low nibble of the last byte
/// picks an offset, and the four bytes there form a big-endian value whose
/// top bit is cleared.
pub open spec fn spec_truncate(d: Seq<u8>) -> int
    recommends
        d.len() == 20,
{
    let off = (d[19] % 16) as int;
    (d[off] % 128) * 0x1000000 + d[off + 1] * 0x10000 + d[off + 2] * 0x100 + d[off + 3]
}

/// The first `n` characters the mapping loop emits for the value `v`: the
/// remainder mod 26 selects a character, the quotient feeds the next round.
pub open spec fn spec_code_chars(v: nat, n: nat) -> Seq<char>
    decreases n,
{
    if n == 0 {
        seq![]
    } else {
        seq![alphabet()[(v % 26) as int]] + spec_code_chars(v / 26, (n - 1) as nat)
    }
}

/// The code a (valid) secret `s` and a counter yield.
pub open spec fn spec_code(s: Seq<u8>, counter: u64) -> Seq<char> {
    spec_code_chars(
        spec_truncate(spec_hmac_sha1(spec_b64_decode(s), counter_be_bytes(counter))) as nat,
        5,
    )
}

/// The code a (valid) secret `s` and a wall-clock reading yield.
pub open spec fn spec_code_at(s: Seq<u8>, unix_secs: u64) -> Seq<char> {
    spec_code(s, spec_counter(unix_secs))
}

/// A well-formed code: exactly 5 characters, each from the alphabet.
pub open spec fn code_wf(c: Seq<char>) -> bool {
    &&& c.len() == 5
    &&& forall|i: int| 0 <= i < c.len() ==> alphabet().contains(#[trigger] c[i])
}

/// Every prefix the mapping loop can emit is drawn from the alphabet.
pub proof fn lemma_code_chars_wf(v: nat, n: nat)
    ensures
        spec_code_chars(v, n).len() == n,
        forall|i: int| 0 <= i < n ==> alphabet().contains(#[trigger] spec_code_chars(v, n)[i]),
    decreases n,
{
    if n > 0 {
        assert(alphabet().contains(alphabet()[(v % 26) as int]));
        lemma_code_chars_wf(v / 26, (n - 1) as nat);
    }
}

/// The counter's 8-byte big-endian encoding.
fn counter_bytes(c: u64) -> (r: Vec<u8>)
    ensures
        r@ == counter_be_bytes(c),
{
    let mut r: Vec<u8> = Vec::new();
    proof {
        assert(c / 0x100000000000000 < 256) by (nonlinear_arith)
            requires c <= 0xffffffffffffffffu64;
    }
    r.push((c / 0x100000000000000) as u8);
    r.push(((c / 0x1000000000000) % 256) as u8);
    r.push(((c / 0x10000000000) % 256) as u8);
    r.push(((c / 0x100000000) % 256) as u8);
    r.push(((c / 0x1000000) % 256) as u8);
    r.push(((c / 0x10000) % 256) as u8);
    r.push(((c / 0x100) % 256) as u8);
    r.push((c % 256) as u8);
    proof {
        assert(r@ =~= counter_be_bytes(c));
    }
    r
}

/// RFC 4226 dynamic truncation of the digest.
fn truncate_digest(d: &Vec<u8>) -> (v: u32)
    requires
        d@.len() == 20,
    ensures
        v as int == spec_truncate(d@),
{
    let off = (d[19] % 16) as usize;
    let b0 = d[off];
    let b1 = d[off + 1];
    let b2 = d[off + 2];
    let b3 = d[off + 3];
    ((b0 % 128) as u32) * 0x1000000 + (b1 as u32) * 0x10000 + (b2 as u32) * 0x100 + (b3 as u32)
}

/// The one character the alphabet holds at `idx`, as a 1-character string.
fn alphabet_char(idx: u8) -> (r: &'static str)
    requires
        idx < 26,
    ensures
        r@ == seq![alphabet()[idx as int]],
{
    proof {
        reveal_strlit("2");
        reveal_strlit("3");
        reveal_strlit("4");
        reveal_strlit("5");
        reveal_strlit("6");
        reveal_strlit("7");
        reveal_strlit("8");
        reveal_strlit("9");
        reveal_strlit("B");
        reveal_strlit("C");
        reveal_strlit("D");
        reveal_strlit("F");
        reveal_strlit("G");
        reveal_strlit("H");
        reveal_strlit("J");
        reveal_strlit("K");
        reveal_strlit("M");
        reveal_strlit("N");
        reveal_strlit("P");
        reveal_strlit("Q");
        reveal_strlit("R");
        reveal_strlit("T");
        reveal_strlit("V");
        reveal_strlit("W");
        reveal_strlit("X");
        reveal_strlit("Y");
    }
    match idx {
        0 => "2",
        1 => "3",
        2 => "4",
        3 => "5",
        4 => "6",
        5 => "7",
        6 => "8",
        7 => "9",
        8 => "B",
        9 => "C",
        10 => "D",
        11 => "F",
        12 => "G",
        13 => "H",
        14 => "J",
        15 => "K",
        16 => "M",
        17 => "N",
        18 => "P",
        19 => "Q",
        20 => "R",
        21 => "T",
        22 => "V",
        23 => "W",
        24 => "X",
        _ => "Y",
    }
}

/// Map the truncated value onto the alphabet: five remainder-then-quotient
/// rounds.
fn code_from_value(v0: u32) -> (r: String)
    ensures
        r@ == spec_code_chars(v0 as nat, 5),
{
    let mut r = String::new();
    let mut v = v0;
    let mut i: usize = 0;
    while i < 5
        invariant
            i <= 5,
            r@.len() == i,
            r@ + spec_code_chars(v as nat, (5 - i) as nat) =~= spec_code_chars(v0 as nat, 5),
        decreases 5 - i,
    {
        let ghost r0 = r@;
        let idx = (v % 26) as u8;
        r.append(alphabet_char(idx));
        proof {
            assert(spec_code_chars(v as nat, (5 - i) as nat) ==
                seq![alphabet()[(v as nat % 26) as int]]
                    + spec_code_chars(v as nat / 26, (5 - i - 1) as nat));
            assert(r@ + spec_code_chars(v as nat / 26, (5 - i - 1) as nat)
                =~= r0 + spec_code_chars(v as nat, (5 - i) as nat));
        }
        v = v / 26;
        i += 1;
    }
    proof {
        assert(r@ =~= spec_code_chars(v0 as nat, 5));
    }
    r
}

/// Generate the code for an explicit counter value. Succeeds exactly on a
/// valid base64 secret; the code is then the one `spec_code` gives, five
/// characters from the alphabet.
pub fn generate_for_counter(secret: &str, counter: u64) -> (r: Result<String, DecodeError>)
    ensures
        r is Ok <==> valid_b64(secret.spec_bytes()),
        r is Ok ==> r->Ok_0@ == spec_code(secret.spec_bytes(), counter),
        r is Ok ==> code_wf(r->Ok_0@),
        r is Err ==> r->Err_0 == DecodeError::InvalidBase64,
{
    let key = match decode_base64(secret.as_bytes()) {
        Ok(k) => k,
        Err(e) => {
            return Err(e);
        },
    };
    let msg = counter_bytes(counter);
    let digest = hmac_sha1(key.as_slice(), msg.as_slice());
    let v = truncate_digest(&digest);
    let code = code_from_value(v);
    proof {
        lemma_code_chars_wf(v as nat, 5);
    }
    Ok(code)
}

/// Generate the code for a wall-clock reading, in seconds since the Unix
/// epoch: the counter is the reading's 30-second window.
pub fn generate_at(secret: &str, unix_secs: u64) -> (r: Result<String, DecodeError>)
    ensures
        r is Ok <==> valid_b64(secret.spec_bytes()),
        r is Ok ==> r->Ok_0@ == spec_code_at(secret.spec_bytes(), unix_secs),
        r is Ok ==> code_wf(r->Ok_0@),
        r is Err ==> r->Err_0 == DecodeError::InvalidBase64,
{
    generate_for_counter(secret, unix_secs / 30)
}

/// Relies on `std::time::SystemTime::now`: the reading is converted to whole
/// seconds since the Unix epoch, zero standing in for a clock set before the
/// epoch. Nothing is promised of the value: it depends on the machine's
/// clock.
#[verifier::external_body]
fn unix_time_now() -> u64 {
    match std::time::SystemTime::now().duration_since(std::time::UNIX_EPOCH) {
        Ok(d) => d.as_secs(),
        Err(_) => 0,
    }
}

/// Generate the code for the present moment. The clock is read exactly once,
/// so the whole computation sees one counter; whatever the reading was, the
/// result is the code of that reading's window.
pub fn generate(secret: &str) -> (r: Result<String, DecodeError>)
    ensures
        r is Ok <==> valid_b64(secret.spec_bytes()),
        r is Ok ==> (exists|t: u64| r->Ok_0@ == #[trigger] spec_code_at(secret.spec_bytes(), t)),
        r is Ok ==> code_wf(r->Ok_0@),
        r is Err ==> r->Err_0 == DecodeError::InvalidBase64,
{
    let t = unix_time_now();
    let r = generate_at(secret, t);
    proof {
        if r is Ok {
            assert(r->Ok_0@ == spec_code_at(secret.spec_bytes(), t));
        }
    }
    r
}

} // verus!
