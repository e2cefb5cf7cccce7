//! Password strength estimation.
//!
//! A password is scanned for the four coarse character categories
//! (lowercase, uppercase, digits, everything else) and the effective charset
//! size is the sum of fixed per-category weights.  The qualitative label is
//! derived from the entropy estimate `length * log2(charset_size)` against the
//! thresholds 28, 36 and 60 bits.  To keep the comparison exact, the label is
//! computed here over integers: `length * log2(size) >= t` holds exactly when
//! `size^length >= 2^t`, so the buckets are decided by comparing
//! `size^length` with `2^28`, `2^36` and `2^60`.

use vstd::prelude::*;

verus! {

use vstd::arithmetic::power::pow;
use vstd::arithmetic::power::lemma_pow_increases;
use vstd::arithmetic::power::lemma_pow_adds;
use vstd::arithmetic::power::lemma_pow0;
use vstd::arithmetic::power::lemma_pow1;
use vstd::arithmetic::power::lemma0_pow;
use vstd::arithmetic::power2::pow2;
use vstd::arithmetic::power2::lemma_pow2;
use vstd::arithmetic::power2::lemma2_to64;
use vstd::arithmetic::power2::lemma2_to64_rest;

/// The qualitative strength buckets, ordered from weakest to strongest.
#[derive(Clone, Copy, Debug, PartialEq, Eq, Structural)]
pub enum StrengthLabel {
    Weak,
    Moderate,
    Strong,
    VeryStrong,
}

pub open spec fn is_lower_char(c: char) -> bool {
    'a' <= c && c <= 'z'
}

pub open spec fn is_upper_char(c: char) -> bool {
    'A' <= c && c <= 'Z'
}

pub open spec fn is_digit_char(c: char) -> bool {
    '0' <= c && c <= '9'
}

/// Everything that is neither an ASCII letter nor an ASCII digit counts as
/// a special character, non-ASCII characters included.
pub open spec fn is_special_char(c: char) -> bool {
    !is_lower_char(c) && !is_upper_char(c) && !is_digit_char(c)
}

pub open spec fn spec_has_lower(s: Seq<char>) -> bool {
    exists|i: int| 0 <= i < s.len() && is_lower_char(s[i])
}

pub open spec fn spec_has_upper(s: Seq<char>) -> bool {
    exists|i: int| 0 <= i < s.len() && is_upper_char(s[i])
}

pub open spec fn spec_has_digit(s: Seq<char>) -> bool {
    exists|i: int| 0 <= i < s.len() && is_digit_char(s[i])
}

pub open spec fn spec_has_special(s: Seq<char>) -> bool {
    exists|i: int| 0 <= i < s.len() && is_special_char(s[i])
}

/// The effective charset size of a password: the sum of the fixed weights of
/// the categories represented in it.  An empty password has size 0.
pub open spec fn spec_charset_size(s: Seq<char>) -> int {
    (if spec_has_lower(s) {
        26int
    } else {
        0int
    }) + (if spec_has_upper(s) {
        26int
    } else {
        0int
    }) + (if spec_has_digit(s) {
        10int
    } else {
        0int
    }) + (if spec_has_special(s) {
        33int
    } else {
        0int
    })
}

/// The label of a password of `len` characters drawn from an effective
/// charset of `size`: the bucket of the entropy estimate `len * log2(size)`
/// with inclusive lower bounds at 28, 36 and 60 bits, stated exactly as a
/// comparison of `size^len` against the corresponding powers of two.
pub open spec fn spec_strength_label(size: nat, len: nat) -> StrengthLabel {
    if pow(size as int, len) < pow(2, 28) {
        StrengthLabel::Weak
    } else if pow(size as int, len) < pow(2, 36) {
        StrengthLabel::Moderate
    } else if pow(size as int, len) < pow(2, 60) {
        StrengthLabel::Strong
    } else {
        StrengthLabel::VeryStrong
    }
}

/// Scans the password and sums the weights of the character categories that
/// occur in it: 26 for lowercase, 26 for uppercase, 10 for digits and 33 for
/// anything else.
pub fn charset_size(password: &str) -> (n: u32)
    ensures
        n == spec_charset_size(password@),
{
    let len = password.unicode_len();
    let mut lower = false;
    let mut upper = false;
    let mut digit = false;
    let mut special = false;
    let mut i: usize = 0;
    while i < len
        invariant
            i <= len,
            len == password@.len(),
            lower == exists|j: int| 0 <= j < i && is_lower_char(password@[j]),
            upper == exists|j: int| 0 <= j < i && is_upper_char(password@[j]),
            digit == exists|j: int| 0 <= j < i && is_digit_char(password@[j]),
            special == exists|j: int| 0 <= j < i && is_special_char(password@[j]),
        decreases len - i,
    {
        let c = password.get_char(i);
        if 'a' <= c && c <= 'z' {
            lower = true;
        } else if 'A' <= c && c <= 'Z' {
            upper = true;
        } else if '0' <= c && c <= '9' {
            digit = true;
        } else {
            special = true;
        }
        i += 1;
    }
    let mut n: u32 = 0;
    if lower {
        n = n + 26;
    }
    if upper {
        n = n + 26;
    }
    if digit {
        n = n + 10;
    }
    if special {
        n = n + 33;
    }
    n
}

/// Decides the strength bucket of a password of `length` characters over an
/// effective charset of `charset` candidates, by comparing `charset^length`
/// with the bucket bounds `2^28`, `2^36` and `2^60` exactly.
pub fn strength_label(length: usize, charset: u32) -> (label: StrengthLabel)
    ensures
        label == spec_strength_label(charset as nat, length as nat),
{
    proof {
        lemma2_to64();
        lemma2_to64_rest();
        lemma_pow2(28);
        lemma_pow2(36);
        lemma_pow2(60);
        lemma_pow0(charset as int);
    }
    let size: u128 = charset as u128;
    let mut acc: u128 = 1;
    let mut i: usize = 0;
    let mut capped = false;
    while i < length && !capped
        invariant
            i <= length,
            size == charset as u128,
            size < 0x100000000,
            !capped ==> acc as int == pow(charset as int, i as nat),
            !capped ==> acc < 0x1000000000000000,
            capped ==> pow(charset as int, length as nat) >= 0x1000000000000000,
            pow2(60) == 0x1000000000000000,
        decreases length - i,
    {
        proof {
            assert((acc as int) * (size as int) < 0x1000000000000000 * 0x100000000) by (nonlinear_arith)
                requires
                    acc < 0x1000000000000000,
                    size < 0x100000000,
            ;
        }
        acc = acc * size;
        i = i + 1;
        proof {
            lemma_pow_adds(charset as int, (i - 1) as nat, 1);
            lemma_pow1(charset as int);
            assert(pow(charset as int, i as nat) == pow(charset as int, (i - 1) as nat) * (
            charset as int));
        }
        if acc >= 0x1000000000000000 {
            capped = true;
            proof {
                if charset == 0 {
                    lemma0_pow(i as nat);
                    assert(false);
                }
                lemma_pow_increases(charset as nat, i as nat, length as nat);
            }
        }
    }
    if capped {
        StrengthLabel::VeryStrong
    } else if acc >= 0x1000000000 {
        StrengthLabel::Strong
    } else if acc >= 0x10000000 {
        StrengthLabel::Moderate
    } else {
        StrengthLabel::Weak
    }
}

/// Classifies a password in one call: the strength bucket of its character
/// count over its effective charset size.
pub fn assess_strength(password: &str) -> (label: StrengthLabel)
    ensures
        label == spec_strength_label(
            spec_charset_size(password@) as nat,
            password@.len(),
        ),
{
    let size = charset_size(password);
    let len = password.unicode_len();
    strength_label(len, size)
}

impl StrengthLabel {
    /// The bucket's conventional English name.
    pub fn as_text(&self) -> (r: String)
        ensures
            r@ == self.spec_text(),
    {
        match self {
            StrengthLabel::Weak => String::from_str("Weak"),
            StrengthLabel::Moderate => String::from_str("Moderate"),
            StrengthLabel::Strong => String::from_str("Strong"),
            StrengthLabel::VeryStrong => String::from_str("Very Strong"),
        }
    }

    pub open spec fn spec_text(&self) -> Seq<char> {
        match self {
            StrengthLabel::Weak => "Weak"@,
            StrengthLabel::Moderate => "Moderate"@,
            StrengthLabel::Strong => "Strong"@,
            StrengthLabel::VeryStrong => "Very Strong"@,
        }
    }
}

/// Strength assessment is a pure function of the password's characters:
/// equal passwords receive equal charset sizes and equal labels.
pub proof fn lemma_assess_deterministic(s1: Seq<char>, s2: Seq<char>)
    requires
        s1 == s2,
    ensures
        spec_charset_size(s1) == spec_charset_size(s2),
        spec_strength_label(spec_charset_size(s1) as nat, s1.len())
            == spec_strength_label(spec_charset_size(s2) as nat, s2.len()),
{
}

/// The bucket bounds are inclusive: when `size^len` lands exactly on
/// `2^28`, `2^36` or `2^60` bits of estimated entropy, the password is
/// classified into the bucket that starts there.
pub proof fn lemma_boundary_labels(size: nat, len: nat)
    ensures
        pow(size as int, len) == pow(2, 28) ==> spec_strength_label(size, len)
            == StrengthLabel::Moderate,
        pow(size as int, len) == pow(2, 36) ==> spec_strength_label(size, len)
            == StrengthLabel::Strong,
        pow(size as int, len) == pow(2, 60) ==> spec_strength_label(size, len)
            == StrengthLabel::VeryStrong,
{
    lemma2_to64();
    lemma2_to64_rest();
    lemma_pow2(28);
    lemma_pow2(36);
    lemma_pow2(60);
}

} // verus!
