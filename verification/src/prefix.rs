//! The 24-bit registry prefix: six uppercase hexadecimal characters and
//! the integer key they denote.
use vstd::prelude::*;

verus! {

/// ASCII digit zero.
pub const DIGIT_ZERO: u8 = 48;

/// ASCII digit nine.
pub const DIGIT_NINE: u8 = 57;

/// ASCII uppercase letter A.
pub const UPPER_A: u8 = 65;

/// ASCII uppercase letter F.
pub const UPPER_F: u8 = 70;

/// ASCII lowercase letter a.
pub const LOWER_A: u8 = 97;

/// ASCII lowercase letter z.
pub const LOWER_Z: u8 = 122;

/// Number of hexadecimal characters in a registry prefix.
pub const PREFIX_LEN: usize = 6;

/// The byte is the ASCII code of an uppercase hexadecimal digit.
pub open spec fn is_upper_hex_digit(b: u8) -> bool {
    (DIGIT_ZERO <= b && b <= DIGIT_NINE) || (UPPER_A <= b && b <= UPPER_F)
}

/// Numeric value of an uppercase hexadecimal digit.
pub open spec fn hex_digit_value(b: u8) -> int
    recommends
        is_upper_hex_digit(b),
{
    if DIGIT_ZERO <= b && b <= DIGIT_NINE {
        b - DIGIT_ZERO
    } else {
        b - UPPER_A + 10
    }
}

/// A valid prefix: exactly six uppercase hexadecimal characters.
pub open spec fn is_valid_prefix(s: Seq<u8>) -> bool {
    s.len() == PREFIX_LEN && forall|i: int|
        0 <= i < s.len() ==> is_upper_hex_digit(#[trigger] s[i])
}

/// Value of the first `i` characters of `s` read as base-16 digits.
pub open spec fn hex_value_prefix(s: Seq<u8>, i: int) -> int
    decreases i,
{
    if i <= 0 {
        0
    } else {
        hex_value_prefix(s, i - 1) * 16 + hex_digit_value(s[i - 1])
    }
}

/// The 24-bit integer key a valid prefix denotes.
pub open spec fn prefix_key(s: Seq<u8>) -> int
    recommends
        is_valid_prefix(s),
{
    hex_value_prefix(s, s.len() as int)
}

/// Sixteen raised to the power `i`.
pub open spec fn pow16(i: int) -> int
    decreases i,
{
    if i <= 0 {
        1
    } else {
        16 * pow16(i - 1)
    }
}

/// The value of `i` hexadecimal digits is below `16^i`; for a whole valid
/// prefix it is below `16^6`, so it fits in 32 bits.
pub proof fn lemma_hex_value_bound(s: Seq<u8>, i: int)
    requires
        0 <= i <= s.len(),
        forall|m: int| 0 <= m < s.len() ==> is_upper_hex_digit(#[trigger] s[m]),
    ensures
        0 <= hex_value_prefix(s, i) < pow16(i),
    decreases i,
{
    if i > 0 {
        lemma_hex_value_bound(s, i - 1);
        assert(hex_digit_value(s[i - 1]) < 16);
        assert(hex_value_prefix(s, i - 1) * 16 <= (pow16(i - 1) - 1) * 16);
    }
}

/// Powers of sixteen are positive and monotone.
pub proof fn lemma_pow16_mono(a: int, b: int)
    requires
        a <= b,
    ensures
        0 < pow16(a) <= pow16(b),
    decreases b - a,
{
    if a == b {
        lemma_pow16_pos(a);
    } else {
        lemma_pow16_mono(a, b - 1);
    }
}

/// Powers of sixteen are positive.
pub proof fn lemma_pow16_pos(i: int)
    ensures
        0 < pow16(i),
    decreases i,
{
    if i > 0 {
        lemma_pow16_pos(i - 1);
    }
}

/// A valid prefix denotes a key below `16^6`, so it fits in 32 bits.
pub proof fn lemma_prefix_key_bound(s: Seq<u8>)
    requires
        is_valid_prefix(s),
    ensures
        0 <= prefix_key(s) < 0x1000000,
{
    lemma_hex_value_bound(s, 6);
    assert(pow16(6) == 0x1000000) by {
        reveal_with_fuel(pow16, 7);
    }
}

/// Base-16 reading is injective digit by digit: equal values of equal
/// lengths force equal characters.
pub proof fn lemma_hex_value_injective(a: Seq<u8>, b: Seq<u8>, i: int)
    requires
        0 <= i <= a.len(),
        i <= b.len(),
        forall|m: int| 0 <= m < a.len() ==> is_upper_hex_digit(#[trigger] a[m]),
        forall|m: int| 0 <= m < b.len() ==> is_upper_hex_digit(#[trigger] b[m]),
        hex_value_prefix(a, i) == hex_value_prefix(b, i),
    ensures
        forall|m: int| 0 <= m < i ==> a[m] == b[m],
    decreases i,
{
    if i > 0 {
        let da = hex_digit_value(a[i - 1]);
        let db = hex_digit_value(b[i - 1]);
        assert(0 <= da < 16 && 0 <= db < 16);
        assert(hex_value_prefix(a, i - 1) * 16 + da == hex_value_prefix(b, i - 1) * 16 + db);
        assert(hex_value_prefix(a, i - 1) == hex_value_prefix(b, i - 1) && da == db);
        assert(a[i - 1] == b[i - 1]);
        lemma_hex_value_injective(a, b, i - 1);
    }
}

/// Two valid prefixes that denote the same 24-bit key are the same
/// characters: keying by the integer value keeps exact-match semantics.
pub proof fn lemma_prefix_key_injective(a: Seq<u8>, b: Seq<u8>)
    requires
        is_valid_prefix(a),
        is_valid_prefix(b),
        prefix_key(a) == prefix_key(b),
    ensures
        a == b,
{
    lemma_hex_value_injective(a, b, 6);
    assert(a =~= b);
}

/// Decides `is_upper_hex_digit`.
pub fn upper_hex_digit(b: u8) -> (r: bool)
    ensures
        r == is_upper_hex_digit(b),
{
    (DIGIT_ZERO <= b && b <= DIGIT_NINE) || (UPPER_A <= b && b <= UPPER_F)
}

/// Decides `is_valid_prefix`.
pub fn valid_prefix(s: &Vec<u8>) -> (r: bool)
    ensures
        r == is_valid_prefix(s@),
{
    if s.len() != PREFIX_LEN {
        return false;
    }
    let mut i: usize = 0;
    while i < s.len()
        invariant
            0 <= i <= s@.len(),
            forall|m: int| 0 <= m < i ==> is_upper_hex_digit(#[trigger] s@[m]),
        decreases s@.len() - i,
    {
        if !upper_hex_digit(s[i]) {
            return false;
        }
        i += 1;
    }
    true
}

/// Computes `prefix_key` for a valid prefix.
pub fn compute_prefix_key(s: &Vec<u8>) -> (r: u32)
    requires
        is_valid_prefix(s@),
    ensures
        r == prefix_key(s@),
{
    let mut k: u32 = 0;
    let mut i: usize = 0;
    while i < s.len()
        invariant
            0 <= i <= s@.len(),
            is_valid_prefix(s@),
            k == hex_value_prefix(s@, i as int),
            k < 0x1000000,
        decreases s@.len() - i,
    {
        proof {
            lemma_hex_value_bound(s@, i + 1);
            lemma_pow16_mono(i + 1, 6);
            assert(pow16(6) == 0x1000000) by {
                reveal_with_fuel(pow16, 7);
            }
        }
        let b = s[i];
        let d: u32 = if DIGIT_ZERO <= b && b <= DIGIT_NINE {
            (b - DIGIT_ZERO) as u32
        } else {
            (b - UPPER_A + 10) as u32
        };
        k = k * 16 + d;
        i += 1;
    }
    k
}

} // verus!
