//! Identifiers: 128-bit numbers, written as `uuid` writes them.

use uuid::Uuid;
use vstd::arithmetic::div_mod::{
    lemma_basic_div, lemma_div_denominator, lemma_fundamental_div_mod,
};
use vstd::arithmetic::power::{lemma_pow0, lemma_pow1, lemma_pow_adds, lemma_pow_positive, pow};
use vstd::prelude::*;

verus! {

/// The hexadecimal digit of `n`, in lower case.
pub open spec fn hex_digit(n: int) -> char {
    if n < 10 {
        (48 + n) as char
    } else {
        (87 + n) as char
    }
}

/// The hexadecimal digit of `id` that stands `i` places from the left of its
/// thirty-two.
pub open spec fn hex_at(id: u128, i: int) -> int {
    (id as int / pow(16, (31 - i) as nat)) % 16
}

/// `id` as thirty-two hexadecimal digits.
pub open spec fn simple(id: u128) -> Seq<char> {
    Seq::new(32, |i: int| hex_digit(hex_at(id, i)))
}

/// `id` in the usual groups of hexadecimal digits.
pub open spec fn hyphenated(id: u128) -> Seq<char> {
    let s = simple(id);
    s.subrange(0, 8) + seq!['-'] + s.subrange(8, 12) + seq!['-'] + s.subrange(12, 16) + seq!['-']
        + s.subrange(16, 20) + seq!['-'] + s.subrange(20, 32)
}

/// `uuid::Uuid::simple`, written out: the digits of `id` from the highest down,
/// in lower case.
#[verifier::external_body]
pub(crate) fn simple_text(id: u128) -> (r: String)
    ensures
        r@ == simple(id),
{
    Uuid::from_u128(id).simple().to_string()
}

/// `uuid::Uuid` as it displays itself: the digits of `id` in five groups with a
/// hyphen between each two.
#[verifier::external_body]
pub(crate) fn hyphenated_text(id: u128) -> (r: String)
    ensures
        r@ == hyphenated(id),
{
    Uuid::from_u128(id).to_string()
}

/// `uuid::Uuid::new_v4`: a random identifier. Nothing is claimed of its value.
#[verifier::external_body]
pub(crate) fn fresh_id() -> (r: u128) {
    Uuid::new_v4().as_u128()
}

proof fn lemma_quotients_agree(a: u128, b: u128, k: nat)
    requires
        simple(a) == simple(b),
        k <= 32,
    ensures
        a as int / pow(16, (32 - k) as nat) == b as int / pow(16, (32 - k) as nat),
    decreases k,
{
    if k == 0 {
        lemma_sixteen_to_the_thirty_second();
    } else {
        lemma_quotients_agree(a, b, (k - 1) as nat);
        let low = pow(16, (32 - k) as nat);
        let high = pow(16, (33 - k) as nat);
        lemma_pow_positive(16, (32 - k) as nat);
        assert(high == 16 * low) by {
            reveal(pow);
        }
        let i = k - 1;
        assert(simple(a)[i] == hex_digit(hex_at(a, i)));
        assert(simple(b)[i] == hex_digit(hex_at(b, i)));
        assert(hex_at(a, i) == a as int / low % 16);
        assert(hex_at(b, i) == b as int / low % 16);
        lemma_hex_digit_injective(hex_at(a, i), hex_at(b, i));
        lemma_div_denominator(a as int, low, 16);
        lemma_div_denominator(b as int, low, 16);
        assert(low * 16 == high);
        lemma_fundamental_div_mod(a as int / low, 16);
        lemma_fundamental_div_mod(b as int / low, 16);
    }
}

proof fn lemma_hex_digit_injective(m: int, n: int)
    requires
        0 <= m < 16,
        0 <= n < 16,
        hex_digit(m) == hex_digit(n),
    ensures
        m == n,
{
}

proof fn lemma_sixteen_to_the_thirty_second()
    ensures
        pow(16, 32) == 0x100000000000000000000000000000000,
        forall|a: u128| #![trigger a as int / pow(16, 32)] a as int / pow(16, 32) == 0,
{
    lemma_pow1(16);
    lemma_pow_adds(16, 1, 1);
    assert(pow(16, 2) == 0x100) by (nonlinear_arith)
        requires
            pow(16, 1) == 16,
            pow(16, 2) == pow(16, 1) * pow(16, 1),
    ;
    lemma_pow_adds(16, 2, 2);
    assert(pow(16, 4) == 0x10000) by (nonlinear_arith)
        requires
            pow(16, 2) == 0x100,
            pow(16, 4) == pow(16, 2) * pow(16, 2),
    ;
    lemma_pow_adds(16, 4, 4);
    assert(pow(16, 8) == 0x100000000) by (nonlinear_arith)
        requires
            pow(16, 4) == 0x10000,
            pow(16, 8) == pow(16, 4) * pow(16, 4),
    ;
    lemma_pow_adds(16, 8, 8);
    assert(pow(16, 16) == 0x10000000000000000) by (nonlinear_arith)
        requires
            pow(16, 8) == 0x100000000,
            pow(16, 16) == pow(16, 8) * pow(16, 8),
    ;
    lemma_pow_adds(16, 16, 16);
    assert(pow(16, 32) == 0x100000000000000000000000000000000) by (nonlinear_arith)
        requires
            pow(16, 16) == 0x10000000000000000,
            pow(16, 32) == pow(16, 16) * pow(16, 16),
    ;
    assert forall|a: u128| #![trigger a as int / pow(16, 32)] a as int / pow(16, 32) == 0 by {
        lemma_basic_div(a as int, pow(16, 32));
    }
}

/// Different identifiers are written differently.
pub proof fn lemma_simple_injective(a: u128, b: u128)
    requires
        simple(a) == simple(b),
    ensures
        a == b,
{
    lemma_quotients_agree(a, b, 32);
    lemma_pow0(16);
    assert(a as int / 1 == a && b as int / 1 == b);
}

} // verus!
