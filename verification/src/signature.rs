//! Artifact authenticity.
//!
//! An artifact is authentic when its detached signature — sixteen
//! lowercase hex digits — equals the keyed digest of its bytes under the
//! process-wide trusted key. Verification fails closed: a missing or
//! malformed signature is rejected, never treated as trusted.

use vstd::prelude::*;
use vstd::arithmetic::div_mod::lemma_basic_div;
use vstd::arithmetic::div_mod::lemma_div_denominator;
use vstd::arithmetic::div_mod::lemma_fundamental_div_mod;
use crate::errors::UpdateError;

verus! {

/// One step of the keyed digest: absorb a byte, keep 64 bits.
pub open spec fn digest_chain(acc: nat, b: u8) -> nat {
    ((acc * 131 + b + 1) % 0x10000000000000000) as nat
}

/// The keyed digest of `data` under `key`: a left-to-right fold of
/// `digest_chain` seeded with the key.
pub open spec fn digest_of(key: u64, data: Seq<u8>) -> nat
    decreases data.len(),
{
    if data.len() == 0 {
        key as nat
    } else {
        digest_chain(digest_of(key, data.drop_last()), data.last())
    }
}

/// A lowercase hexadecimal digit.
pub open spec fn is_hex_digit(c: char) -> bool {
    (48 <= c as u32 <= 57) || (97 <= c as u32 <= 102)
}

/// The value of a lowercase hexadecimal digit.
pub open spec fn hex_digit_val(c: char) -> nat {
    if 48 <= c as u32 <= 57 {
        (c as u32 - 48) as nat
    } else {
        (c as u32 - 87) as nat
    }
}

/// The value of a hexadecimal numeral, most significant digit first.
pub open spec fn hex_val(s: Seq<char>) -> nat
    decreases s.len(),
{
    if s.len() == 0 {
        0
    } else {
        hex_val(s.drop_last()) * 16 + hex_digit_val(s.last())
    }
}

/// A well-formed signature: exactly sixteen lowercase hex digits.
pub open spec fn well_formed_signature(s: Seq<char>) -> bool {
    s.len() == 16 && forall|j: int| 0 <= j < s.len() ==> is_hex_digit(#[trigger] s[j])
}

/// The signature, if present at all, is well formed and equals the keyed
/// digest of the artifact.
pub open spec fn sig_ok(sig: Option<Seq<char>>, key: u64, data: Seq<u8>) -> bool {
    match sig {
        None => false,
        Some(s) => well_formed_signature(s) && hex_val(s) == digest_of(key, data),
    }
}

/// The view of an optional signature string.
pub open spec fn sig_view(sig: Option<&str>) -> Option<Seq<char>> {
    match sig {
        None => None,
        Some(s) => Some(s@),
    }
}

/// Sixteen to the `n`.
pub open spec fn pow16(n: nat) -> nat
    decreases n,
{
    if n == 0 {
        1
    } else {
        16 * pow16((n - 1) as nat)
    }
}

proof fn lemma_pow16_pos(n: nat)
    ensures
        pow16(n) >= 1,
    decreases n,
{
    if n > 0 {
        lemma_pow16_pos((n - 1) as nat);
    }
}

proof fn lemma_pow16_mono(m: nat, n: nat)
    requires
        m <= n,
    ensures
        1 <= pow16(m) <= pow16(n),
    decreases n,
{
    lemma_pow16_pos(m);
    if m < n {
        lemma_pow16_mono(m, (n - 1) as nat);
    }
}

proof fn lemma_pow16_values()
    ensures
        pow16(15) == 0x1000000000000000,
        pow16(16) == 0x10000000000000000,
{
    reveal_with_fuel(pow16, 18);
}

/// The keyed digest of an artifact's bytes.
pub fn digest(key: u64, data: &Vec<u8>) -> (d: u64)
    ensures
        d as nat == digest_of(key, data@),
{
    let mut acc: u64 = key;
    let mut i: usize = 0;
    while i < data.len()
        invariant
            0 <= i <= data@.len(),
            acc as nat == digest_of(key, data@.subrange(0, i as int)),
        decreases data@.len() - i,
    {
        let b = data[i];
        let wide: u128 = (acc as u128) * 131 + (b as u128) + 1;
        let m: u128 = wide % 0x10000000000000000u128;
        proof {
            assert(data@.subrange(0, i as int + 1).drop_last() =~= data@.subrange(0, i as int));
            assert(data@.subrange(0, i as int + 1).last() == data@[i as int]);
        }
        acc = m as u64;
        i = i + 1;
    }
    proof {
        assert(data@.subrange(0, data@.len() as int) =~= data@);
    }
    acc
}

/// Checks an artifact's authenticity: succeeds exactly when a signature is
/// present, is sixteen lowercase hex digits, and its value equals the
/// keyed digest of the artifact under the trusted key. Anything else fails
/// with `SignatureInvalid`.
pub fn verify(artifact: &Vec<u8>, signature: Option<&str>, key: u64) -> (r: Result<
    (),
    UpdateError,
>)
    ensures
        r.is_ok() <==> sig_ok(sig_view(signature), key, artifact@),
        match r {
            Ok(()) => true,
            Err(e) => e == UpdateError::SignatureInvalid,
        },
{
    let s = match signature {
        Some(s) => s,
        None => {
            return Err(UpdateError::SignatureInvalid);
        },
    };
    proof {
        assert(sig_view(signature) == Some(s@));
    }
    let n = s.unicode_len();
    if n != 16 {
        return Err(UpdateError::SignatureInvalid);
    }
    proof {
        lemma_pow16_values();
    }
    let mut val: u64 = 0;
    let mut i: usize = 0;
    while i < 16
        invariant
            sig_view(signature) == Some(s@),
            s@.len() == 16,
            0 <= i <= 16,
            forall|j: int| 0 <= j < i ==> is_hex_digit(#[trigger] s@[j]),
            val as nat == hex_val(s@.subrange(0, i as int)),
            val < pow16(i as nat),
            pow16(15) == 0x1000000000000000,
            pow16(16) == 0x10000000000000000,
        decreases 16 - i,
    {
        let u = s.get_char(i) as u32;
        let d: u32 = if 48 <= u && u <= 57 {
            u - 48
        } else if 97 <= u && u <= 102 {
            u - 87
        } else {
            proof {
                assert(!is_hex_digit(s@[i as int]));
                assert(!well_formed_signature(s@));
            }
            return Err(UpdateError::SignatureInvalid);
        };
        proof {
            lemma_pow16_mono((i as nat), 15);
            assert(s@.subrange(0, i as int + 1).drop_last() =~= s@.subrange(0, i as int));
            assert(s@.subrange(0, i as int + 1).last() == s@[i as int]);
        }
        val = val * 16 + (d as u64);
        i = i + 1;
    }
    proof {
        assert(s@.subrange(0, 16) =~= s@);
    }
    let dg = digest(key, artifact);
    if val == dg {
        Ok(())
    } else {
        Err(UpdateError::SignatureInvalid)
    }
}

/// Verification accepts exactly what signing produces: a well-formed
/// signature whose value is the keyed digest of the artifact satisfies
/// `sig_ok`, so signing an artifact and verifying it under the same key
/// always succeeds.
pub proof fn lemma_sign_then_verify(s: Seq<char>, key: u64, data: Seq<u8>)
    requires
        well_formed_signature(s),
        hex_val(s) == digest_of(key, data),
    ensures
        sig_ok(Some(s), key, data),
{
}

/// One lowercase hex digit as a string slice.
fn hex_char_str(d: u64) -> (r: &'static str)
    requires
        d < 16,
    ensures
        r@.len() == 1,
        is_hex_digit(r@[0]),
        hex_digit_val(r@[0]) == d,
{
    if d == 0 {
        proof {
            reveal_strlit("0");
        }
        "0"
    } else if d == 1 {
        proof {
            reveal_strlit("1");
        }
        "1"
    } else if d == 2 {
        proof {
            reveal_strlit("2");
        }
        "2"
    } else if d == 3 {
        proof {
            reveal_strlit("3");
        }
        "3"
    } else if d == 4 {
        proof {
            reveal_strlit("4");
        }
        "4"
    } else if d == 5 {
        proof {
            reveal_strlit("5");
        }
        "5"
    } else if d == 6 {
        proof {
            reveal_strlit("6");
        }
        "6"
    } else if d == 7 {
        proof {
            reveal_strlit("7");
        }
        "7"
    } else if d == 8 {
        proof {
            reveal_strlit("8");
        }
        "8"
    } else if d == 9 {
        proof {
            reveal_strlit("9");
        }
        "9"
    } else if d == 10 {
        proof {
            reveal_strlit("a");
        }
        "a"
    } else if d == 11 {
        proof {
            reveal_strlit("b");
        }
        "b"
    } else if d == 12 {
        proof {
            reveal_strlit("c");
        }
        "c"
    } else if d == 13 {
        proof {
            reveal_strlit("d");
        }
        "d"
    } else if d == 14 {
        proof {
            reveal_strlit("e");
        }
        "e"
    } else {
        proof {
            reveal_strlit("f");
        }
        "f"
    }
}

/// Produces the well-formed signature for an artifact under a key: the
/// keyed digest written as sixteen lowercase hex digits. `verify` accepts
/// exactly this string for the same artifact and key.
pub fn sign(artifact: &Vec<u8>, key: u64) -> (s: String)
    ensures
        well_formed_signature(s@),
        hex_val(s@) == digest_of(key, artifact@),
{
    proof {
        lemma_pow16_values();
    }
    let dg = digest(key, artifact);
    let mut out = String::new();
    let mut p: u64 = 0x1000000000000000;
    let mut i: usize = 0;
    proof {
        lemma_basic_div(dg as int, pow16(16) as int);
    }
    while i < 16
        invariant
            0 <= i <= 16,
            out@.len() == i,
            dg as nat == digest_of(key, artifact@),
            forall|j: int| 0 <= j < i ==> is_hex_digit(#[trigger] out@[j]),
            hex_val(out@) == dg as nat / pow16((16 - i) as nat),
            i < 16 ==> p as nat == pow16((15 - i) as nat),
        decreases 16 - i,
    {
        proof {
            lemma_pow16_pos((15 - i) as nat);
        }
        let d: u64 = (dg / p) % 16;
        let c = hex_char_str(d);
        let ghost prev = out@;
        out.append(c);
        proof {
            assert(out@.drop_last() =~= prev);
            assert(out@.last() == c@[0]);
            let a = dg as int / pow16((15 - i) as nat) as int;
            lemma_div_denominator(dg as int, pow16((15 - i) as nat) as int, 16);
            assert(pow16((16 - i) as nat) == 16 * pow16((15 - i) as nat));
            assert(a / 16 == dg as int / pow16((16 - i) as nat) as int);
            lemma_fundamental_div_mod(a, 16);
            assert(hex_val(out@) == hex_val(prev) * 16 + d as nat);
        }
        i = i + 1;
        if i < 16 {
            proof {
                assert(pow16((16 - i) as nat) == 16 * pow16((15 - i) as nat));
            }
            p = p / 16;
        }
    }
    proof {
        assert(hex_val(out@) == dg as nat / pow16(0));
        vstd::arithmetic::div_mod::lemma_div_basics(dg as int);
    }
    out
}

} // verus!
