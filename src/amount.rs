//! Raw token amounts: a decimal string of base units.
use vstd::prelude::*;
use vstd::string::StringSliceAdditionalSpecFns;
use vstd::utf8::encode_utf8;

verus! {

/// An ASCII decimal digit.
pub open spec fn is_digit(c: u8) -> bool {
    48 <= c <= 57
}

/// The value of a string of decimal digits, most significant first.
pub open spec fn digits_value(b: Seq<u8>) -> nat
    decreases b.len(),
{
    if b.len() == 0 {
        0
    } else {
        digits_value(b.drop_last()) * 10 + (b.last() - 48) as nat
    }
}

/// The amount that a raw amount text stands for: a non-empty run of decimal
/// digits whose value fits in 64 bits.
pub open spec fn base_units(b: Seq<u8>) -> Option<u64> {
    if b.len() > 0 && (forall|i: int| 0 <= i < b.len() ==> is_digit(#[trigger] b[i]))
        && digits_value(b) <= u64::MAX {
        Some(digits_value(b) as u64)
    } else {
        None
    }
}

/// The amount that a raw amount text, taken as UTF-8, stands for.
pub open spec fn amount_of(text: Seq<char>) -> Option<u64> {
    base_units(encode_utf8(text))
}

proof fn lemma_prefix_value_bounded(b: Seq<u8>, k: int)
    requires
        0 <= k <= b.len(),
        forall|i: int| 0 <= i < b.len() ==> is_digit(#[trigger] b[i]),
    ensures
        digits_value(b.subrange(0, k)) <= digits_value(b),
    decreases b.len(),
{
    if k < b.len() {
        let d = b.drop_last();
        assert(d.subrange(0, k) =~= b.subrange(0, k));
        assert forall|i: int| 0 <= i < d.len() implies is_digit(#[trigger] d[i]) by {
            assert(d[i] == b[i]);
        }
        lemma_prefix_value_bounded(d, k);
    } else {
        assert(b.subrange(0, k) =~= b);
    }
}

/// Reads a raw amount text: the base units it gives, or `None` where it is
/// not a plain decimal number that fits in 64 bits.
pub fn parse_amount(s: &str) -> (r: Option<u64>)
    ensures
        r == base_units(s.spec_bytes()),
{
    let b = s.as_bytes();
    let n = b.len();
    if n == 0 {
        return None;
    }
    let mut acc: u64 = 0;
    let mut i: usize = 0;
    while i < n
        invariant
            n == b@.len(),
            b@ == s.spec_bytes(),
            0 <= i <= n,
            forall|j: int| 0 <= j < i ==> is_digit(#[trigger] b@[j]),
            acc as nat == digits_value(b@.subrange(0, i as int)),
        decreases n - i,
    {
        let c = b[i];
        if c < 48 || c > 57 {
            return None;
        }
        assert(b@.subrange(0, i + 1).drop_last() =~= b@.subrange(0, i as int));
        let d = (c - 48) as u64;
        if acc > (u64::MAX - d) / 10 {
            proof {
                assert(digits_value(b@.subrange(0, i + 1)) > u64::MAX) by (nonlinear_arith)
                    requires
                        digits_value(b@.subrange(0, i + 1)) == acc * 10 + d,
                        acc > (u64::MAX - d) / 10,
                        d <= 9,
                ;
                if forall|j: int| 0 <= j < b@.len() ==> is_digit(#[trigger] b@[j]) {
                    lemma_prefix_value_bounded(b@, i + 1);
                }
            }
            return None;
        }
        proof {
            assert(acc * 10 + d <= u64::MAX) by (nonlinear_arith)
                requires
                    acc <= (u64::MAX - d) / 10,
                    d <= 9,
            ;
        }
        acc = acc * 10 + d;
        i = i + 1;
    }
    assert(b@.subrange(0, n as int) =~= b@);
    Some(acc)
}

} // verus!
