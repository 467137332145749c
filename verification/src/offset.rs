//! The block-offset argument: a non-negative base-10 integer, rejected with a
//! configuration error before any storage access when malformed.

use crate::error::StoreError;
use crate::key::dec_rep;
use crate::key::digit_char;
use crate::key::is_ascii_digit;
use crate::key::lemma_dec_rep_len;
use crate::key::object_key_spec;
use crate::key::pow10;
use crate::key::zero_pad;
use vstd::prelude::*;
use vstd::string::StrSliceExecFns;

verus! {

/// The digit part of the offset argument: one leading plus sign is accepted
/// and ignored.
pub open spec fn offset_digits(s: Seq<char>) -> Seq<char> {
    if s.len() > 0 && s[0] == '+' {
        s.skip(1)
    } else {
        s
    }
}

/// Whether `s` is a non-empty run of decimal digits.
pub open spec fn all_digits(s: Seq<char>) -> bool {
    s.len() > 0 && forall|i: int| 0 <= i < s.len() ==> is_ascii_digit(#[trigger] s[i])
}

/// The numeric value of a run of decimal digits, most significant first.
pub open spec fn dec_value(s: Seq<char>) -> int
    decreases s.len(),
{
    if s.len() == 0 {
        0
    } else {
        dec_value(s.drop_last()) * 10 + (s.last() as int - '0' as int)
    }
}

/// Whether `s` denotes a block offset: all digits, and small enough for a
/// machine word.
pub open spec fn valid_offset(s: Seq<char>) -> bool {
    all_digits(offset_digits(s)) && dec_value(offset_digits(s)) <= u64::MAX
}

/// A run of digits has a non-negative value.
proof fn lemma_dec_value_nonneg(s: Seq<char>)
    requires
        forall|i: int| 0 <= i < s.len() ==> is_ascii_digit(#[trigger] s[i]),
    ensures
        dec_value(s) >= 0,
    decreases s.len(),
{
    if s.len() > 0 {
        lemma_dec_value_nonneg(s.drop_last());
    }
}

/// Extending a run of digits to the right never shrinks its value.
proof fn lemma_dec_value_prefix(s: Seq<char>, i: int)
    requires
        0 <= i <= s.len(),
        forall|j: int| 0 <= j < s.len() ==> is_ascii_digit(#[trigger] s[j]),
    ensures
        dec_value(s.take(i)) <= dec_value(s),
    decreases s.len() - i,
{
    if i == s.len() {
        assert(s.take(i) =~= s);
    } else {
        assert(s.take(i + 1).drop_last() =~= s.take(i));
        lemma_dec_value_nonneg(s.take(i));
        assert(dec_value(s.take(i + 1)) == dec_value(s.take(i)) * 10 + (s[i] as int - '0' as int));
        lemma_dec_value_prefix(s, i + 1);
    }
}

/// A run of zeros has value zero.
proof fn lemma_dec_value_zeros(k: nat)
    ensures
        dec_value(Seq::new(k, |i: int| '0')) == 0,
    decreases k,
{
    if k > 0 {
        assert(Seq::new(k, |i: int| '0').drop_last() =~= Seq::new((k - 1) as nat, |i: int| '0'));
        lemma_dec_value_zeros((k - 1) as nat);
    }
}

/// Leading zeros do not change a number's value.
proof fn lemma_dec_value_zeros_prefix(k: nat, s: Seq<char>)
    ensures
        dec_value(Seq::new(k, |i: int| '0') + s) == dec_value(s),
    decreases s.len(),
{
    let zeros = Seq::new(k, |i: int| '0');
    if s.len() == 0 {
        assert(zeros + s =~= zeros);
        lemma_dec_value_zeros(k);
    } else {
        assert((zeros + s).drop_last() =~= zeros + s.drop_last());
        assert((zeros + s).last() == s.last());
        lemma_dec_value_zeros_prefix(k, s.drop_last());
    }
}

/// Reading a decimal representation back gives the original number.
pub proof fn lemma_dec_value_of_rep(n: nat)
    ensures
        dec_value(dec_rep(n)) == n,
    decreases n,
{
    if n < 10 {
        assert(dec_rep(n).drop_last() =~= Seq::<char>::empty());
        assert(dec_value(Seq::<char>::empty()) == 0);
        assert(dec_rep(n).last() == digit_char(n as int));
        assert(digit_char(n as int) as int - '0' as int == n);
        assert(dec_value(dec_rep(n)) == dec_value(Seq::<char>::empty()) * 10 + (dec_rep(n).last() as int
            - '0' as int));
    } else {
        lemma_dec_value_of_rep(n / 10);
        assert(dec_rep(n).drop_last() =~= dec_rep(n / 10));
        assert(dec_rep(n).last() == digit_char((n % 10) as int));
        assert(digit_char((n % 10) as int) as int - '0' as int == n % 10);
        assert(dec_value(dec_rep(n)) == dec_value(dec_rep(n / 10)) * 10 + (dec_rep(n).last() as int
            - '0' as int));
    }
}

/// The ten digit characters of an object key read back as exactly the block
/// number the key was derived from.
pub proof fn lemma_object_key_decodes(b: nat)
    requires
        b < 10_000_000_000,
    ensures
        dec_value(object_key_spec(b).subrange(0, 10)) == b,
{
    assert(pow10(10) == 10_000_000_000) by {
        reveal_with_fuel(pow10, 11);
    }
    lemma_dec_rep_len(b, 10);
    let padded = zero_pad(dec_rep(b), 10);
    assert(padded.len() == 10);
    assert(object_key_spec(b).subrange(0, 10) =~= padded);
    lemma_dec_value_of_rep(b);
    if dec_rep(b).len() < 10 {
        lemma_dec_value_zeros_prefix((10 - dec_rep(b).len()) as nat, dec_rep(b));
    }
}

/// Reads the block-offset argument. Exactly the non-negative base-10
/// integers that fit in a machine word are accepted; anything else is a
/// configuration error carrying the offending input.
pub fn read_block_offset(input: &str) -> (r: Result<u64, StoreError>)
    ensures
        valid_offset(input@) ==> (r matches Ok(v) && v as int == dec_value(offset_digits(input@))),
        !valid_offset(input@) ==> (r matches Err(StoreError::Configuration(m)) && m@ == input@),
{
    let n: usize = input.unicode_len();
    let start: usize = if n > 0 && input.get_char(0) == '+' {
        1
    } else {
        0
    };
    let ghost d0: Seq<char> = offset_digits(input@);
    proof {
        assert(d0 =~= input@.skip(start as int));
    }
    if n == start {
        assert(!valid_offset(input@));
        return Err(StoreError::Configuration(input.to_owned()));
    }
    let mut acc: u64 = 0;
    let mut i: usize = start;
    while i < n
        invariant
            start <= i <= n,
            n == input@.len(),
            start <= 1,
            d0 == offset_digits(input@),
            d0 =~= input@.skip(start as int),
            forall|j: int| start <= j < i ==> is_ascii_digit(#[trigger] input@[j]),
            acc as int == dec_value(input@.subrange(start as int, i as int)),
        decreases n - i,
    {
        let c = input.get_char(i);
        let cu: u32 = c as u32;
        if cu < 48 || cu > 57 {
            proof {
                assert(d0[i - start] == input@[i as int]);
                assert(!all_digits(d0));
            }
            return Err(StoreError::Configuration(input.to_owned()));
        }
        let d: u64 = (cu - 48) as u64;
        assert(d as int == input@[i as int] as int - '0' as int);
        if acc > (u64::MAX - d) / 10 {
            proof {
                assert(acc * 10 + d > u64::MAX);
                if all_digits(d0) {
                    assert(d0.take(i + 1 - start) =~= input@.subrange(start as int, i + 1));
                    assert(input@.subrange(start as int, i + 1).drop_last() =~= input@.subrange(
                        start as int,
                        i as int,
                    ));
                    assert(dec_value(d0.take(i + 1 - start)) == acc * 10 + d);
                    lemma_dec_value_prefix(d0, i + 1 - start);
                    assert(dec_value(d0) > u64::MAX);
                }
                assert(!valid_offset(input@));
            }
            return Err(StoreError::Configuration(input.to_owned()));
        }
        proof {
            assert(input@.subrange(start as int, i + 1).drop_last() =~= input@.subrange(
                start as int,
                i as int,
            ));
        }
        acc = acc * 10 + d;
        i = i + 1;
    }
    proof {
        assert(input@.subrange(start as int, n as int) =~= d0);
        assert(forall|j: int| 0 <= j < d0.len() ==> is_ascii_digit(#[trigger] d0[j]));
        assert(all_digits(d0));
        assert(valid_offset(input@));
    }
    Ok(acc)
}

} // verus!
