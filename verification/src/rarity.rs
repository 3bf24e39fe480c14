//! Rarity classification: a tier derived from the number of hex
//! letter digits in a fingerprint, via fixed thresholds.

use vstd::prelude::*;

verus! {

/// Whether `c` is one of the hex letter digits `a`–`f`.
pub open spec fn is_hex_letter(c: char) -> bool {
    c == 'a' || c == 'b' || c == 'c' || c == 'd' || c == 'e' || c == 'f'
}

/// How many hex letter digits `s` holds.
pub open spec fn hex_letter_count(s: Seq<char>) -> nat
    decreases s.len(),
{
    if s.len() == 0 {
        0
    } else {
        hex_letter_count(s.drop_last()) + (if is_hex_letter(s.last()) {
            1nat
        } else {
            0nat
        })
    }
}

/// The tier name for a letter count: 0–2 Common, 3–4 Rare, 5–6
/// Epic, 7 and above Legendary.
pub open spec fn rarity_name(count: nat) -> Seq<char> {
    if count <= 2 {
        "Common"@
    } else if count <= 4 {
        "Rare"@
    } else if count <= 6 {
        "Epic"@
    } else {
        "Legendary"@
    }
}

/// The boundary cases of the classification: exactly 2 letters is
/// still Common, exactly 3 is Rare, exactly 5 is Epic, exactly 7 is
/// Legendary.
pub proof fn lemma_rarity_boundaries(s: Seq<char>)
    ensures
        hex_letter_count(s) == 2 ==> rarity_name(hex_letter_count(s)) == "Common"@,
        hex_letter_count(s) == 3 ==> rarity_name(hex_letter_count(s)) == "Rare"@,
        hex_letter_count(s) == 5 ==> rarity_name(hex_letter_count(s)) == "Epic"@,
        hex_letter_count(s) == 7 ==> rarity_name(hex_letter_count(s)) == "Legendary"@,
{
}

/// Classification is deterministic: equal fingerprints always carry
/// the identical tier.
pub proof fn lemma_rarity_deterministic(a: Seq<char>, b: Seq<char>)
    requires
        a == b,
    ensures
        rarity_name(hex_letter_count(a)) == rarity_name(hex_letter_count(b)),
{
}

} // verus!
