//! Session identifiers for recovery directories.
use vstd::prelude::*;

use crate::text::{hex_fixed, lemma_hex_fixed_injective, lemma_hex_fixed_len, push_hex, push_hex_wide, push_str, string_of};

verus! {

/// The identifier of a session started at `nanos` nanoseconds after the Unix
/// epoch by process `process_id`, as the `sequence`th session of that
/// process: `session-`, then the three numbers in lower-case hexadecimal,
/// zero padded to 32, 8 and 16 digits, joined by hyphens.
pub open spec fn session_id_text(nanos: u128, process_id: u32, sequence: u64) -> Seq<char> {
    "session-"@ + hex_fixed(nanos as nat, 32) + "-"@ + hex_fixed(process_id as nat, 8) + "-"@ + hex_fixed(
        sequence as nat,
        16,
    )
}

/// The identifier of a session; see [`session_id_text`].
pub fn session_id(nanos: u128, process_id: u32, sequence: u64) -> (id: String)
    ensures
        id@ == session_id_text(nanos, process_id, sequence),
{
    let mut out: Vec<char> = Vec::new();
    push_str(&mut out, "session-");
    push_hex_wide(&mut out, nanos, 32);
    push_str(&mut out, "-");
    push_hex(&mut out, process_id as u64, 8);
    push_str(&mut out, "-");
    push_hex(&mut out, sequence, 16);
    string_of(out.as_slice())
}

/// `16^8`, `16^16` and `16^32` are `2^32`, `2^64` and `2^128`.
proof fn lemma_hex_digit_ranges()
    ensures
        vstd::arithmetic::power::pow(16, 8) == 0x1_0000_0000,
        vstd::arithmetic::power::pow(16, 16) == 0x1_0000_0000_0000_0000,
        vstd::arithmetic::power::pow(16, 32) == 0x1_0000_0000_0000_0000_0000_0000_0000_0000,
{
    reveal_with_fuel(vstd::arithmetic::power::pow, 9);
    assert(vstd::arithmetic::power::pow(16, 8) == 0x1_0000_0000);
    vstd::arithmetic::power::lemma_pow_adds(16, 8, 8);
    assert(vstd::arithmetic::power::pow(16, 16) == 0x1_0000_0000_0000_0000);
    vstd::arithmetic::power::lemma_pow_adds(16, 16, 16);
    assert(vstd::arithmetic::power::pow(16, 32) == vstd::arithmetic::power::pow(16, 16) * vstd::arithmetic::power::pow(16, 16));
    assert(0x1_0000_0000_0000_0000int * 0x1_0000_0000_0000_0000int == 0x1_0000_0000_0000_0000_0000_0000_0000_0000int);
}

/// Identifiers differ whenever the time, the process or the sequence number
/// differ: sessions of one process, numbered in turn, never share one.
pub proof fn lemma_session_ids_differ(n1: u128, p1: u32, s1: u64, n2: u128, p2: u32, s2: u64)
    requires
        session_id_text(n1, p1, s1) == session_id_text(n2, p2, s2),
    ensures
        n1 == n2 && p1 == p2 && s1 == s2,
{
    reveal_strlit("session-");
    reveal_strlit("-");
    let a = session_id_text(n1, p1, s1);
    lemma_hex_fixed_len(n1 as nat, 32);
    lemma_hex_fixed_len(n2 as nat, 32);
    lemma_hex_fixed_len(p1 as nat, 8);
    lemma_hex_fixed_len(p2 as nat, 8);
    lemma_hex_fixed_len(s1 as nat, 16);
    lemma_hex_fixed_len(s2 as nat, 16);
    let b = session_id_text(n2, p2, s2);
    assert(a.subrange(8, 40) =~= hex_fixed(n1 as nat, 32));
    assert(b.subrange(8, 40) =~= hex_fixed(n2 as nat, 32));
    assert(a.subrange(41, 49) =~= hex_fixed(p1 as nat, 8));
    assert(b.subrange(41, 49) =~= hex_fixed(p2 as nat, 8));
    assert(a.subrange(50, 66) =~= hex_fixed(s1 as nat, 16));
    assert(b.subrange(50, 66) =~= hex_fixed(s2 as nat, 16));
    lemma_hex_digit_ranges();
    lemma_hex_fixed_injective(n1 as nat, n2 as nat, 32);
    lemma_hex_fixed_injective(p1 as nat, p2 as nat, 8);
    lemma_hex_fixed_injective(s1 as nat, s2 as nat, 16);
}

} // verus!
