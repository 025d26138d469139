//! Decoding of the base64-encoded shared secret.
//!
//! The accepted form is canonical padded base64 over the standard alphabet
//! (`A`-`Z`, `a`-`z`, `0`-`9`, `+`, `/`, with `=` padding): the length is a
//! multiple of four, at most two `=` stand at the very end, and every other
//! byte is a symbol of the alphabet. Unused bits carried by the symbol before
//! the padding are discarded. The empty string is valid and decodes to the
//! empty key.

use vstd::prelude::*;

verus! {

/// The one failure the engine can detect locally: the secret is not valid
/// base64.
#[derive(Clone, Copy, Debug, PartialEq, Eq, Structural)]
pub enum DecodeError {
    InvalidBase64,
}

impl DecodeError {
    /// A short description, for display at the process boundary.
    pub fn message(&self) -> (r: &'static str)
        ensures
            r@ == "secret is not valid base64"@,
    {
        "secret is not valid base64"
    }
}

/// Value of one base64 symbol; -1 for a byte outside the alphabet
/// (`=` included).
pub open spec fn b64_val(b: u8) -> int {
    if 'A' as u8 <= b <= 'Z' as u8 {
        b - 'A' as u8
    } else if 'a' as u8 <= b <= 'z' as u8 {
        b - 'a' as u8 + 26
    } else if '0' as u8 <= b <= '9' as u8 {
        b - '0' as u8 + 52
    } else if b == '+' as u8 {
        62
    } else if b == '/' as u8 {
        63
    } else {
        -1
    }
}

/// Whether `b` is a symbol of the standard base64 alphabet.
pub open spec fn is_b64_symbol(b: u8) -> bool {
    b64_val(b) >= 0
}

/// Number of `=` padding bytes at the very end, capped at two.
pub open spec fn pad_len(s: Seq<u8>) -> int {
    if s.len() >= 2 && s[s.len() - 1] == '=' as u8 && s[s.len() - 2] == '=' as u8 {
        2
    } else if s.len() >= 1 && s[s.len() - 1] == '=' as u8 {
        1
    } else {
        0
    }
}

/// Canonical padded base64: length a multiple of four, and everything before
/// the trailing padding a symbol of the alphabet.
pub open spec fn valid_b64(s: Seq<u8>) -> bool {
    &&& s.len() % 4 == 0
    &&& forall|i: int| 0 <= i < s.len() - pad_len(s) ==> is_b64_symbol(#[trigger] s[i])
}

/// The bytes denoted by one 4-symbol group; a group ending in `=` or `==`
/// (only the last group of a valid string can) carries two or one bytes.
pub open spec fn decode_group(g: Seq<u8>) -> Seq<u8>
    recommends
        g.len() == 4,
{
    let v0 = b64_val(g[0]);
    let v1 = b64_val(g[1]);
    let v2 = b64_val(g[2]);
    let v3 = b64_val(g[3]);
    if g[3] == '=' as u8 && g[2] == '=' as u8 {
        seq![(v0 * 4 + v1 / 16) as u8]
    } else if g[3] == '=' as u8 {
        seq![(v0 * 4 + v1 / 16) as u8, ((v1 % 16) * 16 + v2 / 4) as u8]
    } else {
        seq![
            (v0 * 4 + v1 / 16) as u8,
            ((v1 % 16) * 16 + v2 / 4) as u8,
            ((v2 % 4) * 64 + v3) as u8,
        ]
    }
}

/// The key denoted by a valid base64 string: its groups decoded in order.
pub open spec fn spec_b64_decode(s: Seq<u8>) -> Seq<u8>
    recommends
        valid_b64(s),
    decreases s.len(),
{
    if s.len() < 4 {
        seq![]
    } else {
        decode_group(s.take(4)) + spec_b64_decode(s.skip(4))
    }
}

/// Value of one base64 symbol as the spec gives it, with -1 for a byte
/// outside the alphabet.
fn symbol_val(b: u8) -> (v: i16)
    ensures
        v as int == b64_val(b),
{
    if b >= 'A' as u8 && b <= 'Z' as u8 {
        (b - 'A' as u8) as i16
    } else if b >= 'a' as u8 && b <= 'z' as u8 {
        (b - 'a' as u8) as i16 + 26
    } else if b >= '0' as u8 && b <= '9' as u8 {
        (b - '0' as u8) as i16 + 52
    } else if b == '+' as u8 {
        62
    } else if b == '/' as u8 {
        63
    } else {
        -1
    }
}

/// Decode a canonical padded base64 string into the raw key it denotes.
/// Succeeds exactly on valid input; the only error is `InvalidBase64`.
pub fn decode_base64(s: &[u8]) -> (r: Result<Vec<u8>, DecodeError>)
    ensures
        r is Ok <==> valid_b64(s@),
        r is Ok ==> r->Ok_0@ == spec_b64_decode(s@),
        r is Err ==> r->Err_0 == DecodeError::InvalidBase64,
{
    let n = s.len();
    if n % 4 != 0 {
        return Err(DecodeError::InvalidBase64);
    }
    let p: usize = if n >= 2 && s[n - 1] == '=' as u8 && s[n - 2] == '=' as u8 {
        2
    } else if n >= 1 && s[n - 1] == '=' as u8 {
        1
    } else {
        0
    };
    proof {
        assert(p == pad_len(s@));
    }
    let mut i: usize = 0;
    while i < n - p
        invariant
            n == s@.len(),
            p == pad_len(s@),
            p <= n,
            i <= n - p,
            forall|j: int| 0 <= j < i ==> is_b64_symbol(#[trigger] s@[j]),
        decreases n - p - i,
    {
        if symbol_val(s[i]) < 0 {
            return Err(DecodeError::InvalidBase64);
        }
        i += 1;
    }
    assert(valid_b64(s@));
    let mut out: Vec<u8> = Vec::new();
    let mut g: usize = 0;
    proof {
        assert(s@.skip(0) =~= s@);
    }
    while g < n / 4
        invariant
            n == s@.len(),
            n % 4 == 0,
            valid_b64(s@),
            g <= n / 4,
            spec_b64_decode(s@) =~= out@ + spec_b64_decode(s@.skip(4 * g as int)),
        decreases n / 4 - g,
    {
        let ghost rest = s@.skip(4 * g as int);
        let ghost out0 = out@;
        proof {
            assert(n == 4 * (n / 4) + n % 4);
            assert(rest.len() == n - 4 * g >= 4);
            assert(rest.take(4) =~= s@.subrange(4 * g as int, 4 * g as int + 4));
            assert(rest.skip(4) =~= s@.skip(4 * (g + 1) as int));
            lemma_group_symbols(s@, g as int);
        }
        let b2 = s[4 * g + 2];
        let b3 = s[4 * g + 3];
        let v0 = symbol_val(s[4 * g]) as u8;
        let v1 = symbol_val(s[4 * g + 1]) as u8;
        if b3 == '=' as u8 && b2 == '=' as u8 {
            out.push(v0 * 4 + v1 / 16);
        } else if b3 == '=' as u8 {
            let v2 = symbol_val(b2) as u8;
            out.push(v0 * 4 + v1 / 16);
            out.push((v1 % 16) * 16 + v2 / 4);
        } else {
            let v2 = symbol_val(b2) as u8;
            let v3 = symbol_val(b3) as u8;
            out.push(v0 * 4 + v1 / 16);
            out.push((v1 % 16) * 16 + v2 / 4);
            out.push((v2 % 4) * 64 + v3);
        }
        proof {
            assert(out@ =~= out0 + decode_group(rest.take(4)));
        }
        g += 1;
    }
    proof {
        assert(s@.skip(4 * (n / 4) as int).len() == 0);
        assert(spec_b64_decode(s@.skip(4 * (n / 4) as int)) =~= Seq::<u8>::empty());
        assert(out@ =~= spec_b64_decode(s@));
    }
    Ok(out)
}

/// In a valid string, the first two bytes of every group are symbols, and a
/// group byte that is not `=` is a symbol: only the trailing padding escapes
/// the membership requirement.
proof fn lemma_group_symbols(s: Seq<u8>, g: int)
    requires
        valid_b64(s),
        0 <= g,
        4 * g + 4 <= s.len(),
    ensures
        is_b64_symbol(s[4 * g]),
        is_b64_symbol(s[4 * g + 1]),
        s[4 * g + 2] != '=' as u8 ==> is_b64_symbol(s[4 * g + 2]),
        s[4 * g + 3] != '=' as u8 ==> is_b64_symbol(s[4 * g + 3]),
{
    let n = s.len() as int;
    let p = pad_len(s);
    assert(0 <= p <= 2);
    assert(forall|i: int| n - p <= i < n ==> s[i] == '=' as u8);
    assert(4 * g + 1 < n - p);
}

} // verus!
