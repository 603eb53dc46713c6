//! Standard base64 (RFC 4648 alphabet, `=` padding), used to embed HTML plots
//! in `data:` URLs.

use vstd::prelude::*;
use vstd::utf8::encode_utf8;
use crate::text::{chars_of, string_from_chars};

verus! {

/// The base64 alphabet: `A`–`Z`, `a`–`z`, `0`–`9`, `+`, `/`.
pub open spec fn alphabet() -> Seq<char> {
    "ABCDEFGHIJKLMNOPQRSTUVWXYZabcdefghijklmnopqrstuvwxyz0123456789+/"@
}

/// Byte `i` of `b`, or 0 past its end.
pub open spec fn byte_or_zero(b: Seq<u8>, i: int) -> nat {
    if 0 <= i < b.len() {
        b[i] as nat
    } else {
        0
    }
}

/// The 24-bit value of group `k`: bytes `3k`, `3k+1`, `3k+2`, missing ones as 0.
pub open spec fn group_value(b: Seq<u8>, k: int) -> nat {
    byte_or_zero(b, 3 * k) * 65536 + byte_or_zero(b, 3 * k + 1) * 256 + byte_or_zero(
        b,
        3 * k + 2,
    )
}

/// The four characters of group `k`: four 6-bit digits, the last one or two
/// replaced by `=` where the group lacks its second or third byte.
pub open spec fn group_chars(b: Seq<u8>, k: int) -> Seq<char> {
    let t = group_value(b, k);
    seq![
        alphabet()[(t / 262144) as int],
        alphabet()[((t / 4096) % 64) as int],
        if 3 * k + 1 < b.len() { alphabet()[((t / 64) % 64) as int] } else { '=' },
        if 3 * k + 2 < b.len() { alphabet()[(t % 64) as int] } else { '=' },
    ]
}

/// The encoding of the first `n` groups.
pub open spec fn groups_upto(b: Seq<u8>, n: nat) -> Seq<char>
    decreases n,
{
    if n == 0 {
        Seq::empty()
    } else {
        groups_upto(b, (n - 1) as nat) + group_chars(b, n - 1)
    }
}

/// The base64 encoding of `b`: one group of four characters per three bytes,
/// the last group padded.
pub open spec fn base64_spec(b: Seq<u8>) -> Seq<char> {
    groups_upto(b, ((b.len() + 2) / 3) as nat)
}

/// The four characters of group `k`, looked up in `table`.
fn encode_group(bytes: &[u8], table: &Vec<char>, k: usize) -> (r: Vec<char>)
    requires
        table@ == alphabet(),
        table@.len() == 64,
        3 * k < bytes@.len(),
    ensures
        r@ == group_chars(bytes@, k as int),
{
    let n = bytes.len();
    let i: usize = 3 * k;
    let b0: u32 = bytes[i] as u32;
    let b1: u32 = if i + 1 < n { bytes[i + 1] as u32 } else { 0 };
    let b2: u32 = if i + 2 < n { bytes[i + 2] as u32 } else { 0 };
    assert(b0 * 65536 + b1 * 256 + b2 < 16777216) by (nonlinear_arith)
        requires
            b0 < 256,
            b1 < 256,
            b2 < 256,
    ;
    let t: u32 = b0 * 65536 + b1 * 256 + b2;
    assert(t == group_value(bytes@, k as int));
    assert(t / 262144 < 64) by (nonlinear_arith)
        requires
            t < 16777216,
    ;
    let mut r: Vec<char> = Vec::new();
    r.push(table[(t / 262144) as usize]);
    r.push(table[((t / 4096) % 64) as usize]);
    if i + 1 < n {
        r.push(table[((t / 64) % 64) as usize]);
    } else {
        r.push('=');
    }
    if i + 2 < n {
        r.push(table[(t % 64) as usize]);
    } else {
        r.push('=');
    }
    assert(r@ =~= group_chars(bytes@, k as int));
    r
}

/// Encodes bytes as base64.
pub fn base64_encode_bytes(bytes: &[u8]) -> (r: String)
    ensures
        r@ == base64_spec(bytes@),
{
    let table = chars_of("ABCDEFGHIJKLMNOPQRSTUVWXYZabcdefghijklmnopqrstuvwxyz0123456789+/");
    proof {
        reveal_strlit("ABCDEFGHIJKLMNOPQRSTUVWXYZabcdefghijklmnopqrstuvwxyz0123456789+/");
    }
    assert(table@.len() == 64);
    let n = bytes.len();
    let groups: usize = n / 3 + if n % 3 == 0 { 0 } else { 1 };
    assert(groups == (n + 2) / 3);
    let mut out: Vec<char> = Vec::new();
    let mut k: usize = 0;
    while k < groups
        invariant
            n == bytes@.len(),
            groups == (n + 2) / 3,
            table@ == alphabet(),
            table@.len() == 64,
            k <= groups,
            out@ == groups_upto(bytes@, k as nat),
        decreases groups - k,
    {
        assert(3 * k < n);
        let g = encode_group(bytes, &table, k);
        let mut g2 = g;
        out.append(&mut g2);
        assert(out@ =~= groups_upto(bytes@, (k + 1) as nat));
        k = k + 1;
    }
    string_from_chars(&out)
}

/// Encodes the UTF-8 bytes of a string as base64.
pub fn base64_encode(input: &str) -> (r: String)
    ensures
        r@ == base64_spec(encode_utf8(input@)),
{
    base64_encode_bytes(input.as_bytes())
}


/// Four characters per group.
proof fn lemma_groups_len(b: Seq<u8>, n: nat)
    ensures
        groups_upto(b, n).len() == 4 * n,
    decreases n,
{
    if n > 0 {
        lemma_groups_len(b, (n - 1) as nat);
    }
}

/// The encoding of `n` bytes is `4 * ceil(n / 3)` characters long.
pub proof fn lemma_base64_length(b: Seq<u8>)
    ensures
        base64_spec(b).len() == 4 * ((b.len() + 2) / 3),
{
    lemma_groups_len(b, ((b.len() + 2) / 3) as nat);
}

} // verus!
