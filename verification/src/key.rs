//! Deterministic object keys: a block number rendered as a zero-padded
//! decimal number followed by the fixed object suffix.

use vstd::prelude::*;
use vstd::string::StrSliceExecFns;
use vstd::string::StringExecFns;

verus! {

/// The character for one decimal digit value.
pub open spec fn digit_char(d: int) -> char {
    if d == 0 {
        '0'
    } else if d == 1 {
        '1'
    } else if d == 2 {
        '2'
    } else if d == 3 {
        '3'
    } else if d == 4 {
        '4'
    } else if d == 5 {
        '5'
    } else if d == 6 {
        '6'
    } else if d == 7 {
        '7'
    } else if d == 8 {
        '8'
    } else {
        '9'
    }
}

/// Whether `c` is a decimal digit character.
pub open spec fn is_ascii_digit(c: char) -> bool {
    '0' as int <= c as int && c as int <= '9' as int
}

/// The decimal representation of `n`, most significant digit first, with no
/// leading zeros (zero itself is the single character `'0'`).
pub open spec fn dec_rep(n: nat) -> Seq<char>
    decreases n,
{
    if n < 10 {
        seq![digit_char(n as int)]
    } else {
        dec_rep(n / 10).push(digit_char((n % 10) as int))
    }
}

/// `s` left-padded with `'0'` up to width `w`.
pub open spec fn zero_pad(s: Seq<char>, w: nat) -> Seq<char> {
    if s.len() >= w {
        s
    } else {
        Seq::new((w - s.len()) as nat, |i: int| '0') + s
    }
}

/// The key under which block `n` is stored: its decimal number, zero-padded
/// to ten digits, followed by `.dbin.zst`.
pub open spec fn object_key_spec(n: nat) -> Seq<char> {
    zero_pad(dec_rep(n), 10) + ".dbin.zst"@
}

/// Powers of ten.
pub open spec fn pow10(k: nat) -> nat
    decreases k,
{
    if k == 0 {
        1
    } else {
        10 * pow10((k - 1) as nat)
    }
}

/// A number below `pow10(k)` has at most `k` decimal digits (and always at
/// least one).
pub proof fn lemma_dec_rep_len(n: nat, k: nat)
    requires
        k >= 1,
        n < pow10(k),
    ensures
        1 <= dec_rep(n).len() <= k,
    decreases n,
{
    if n < 10 {
    } else {
        if k == 1 {
            assert(pow10(1) == 10) by {
                reveal_with_fuel(pow10, 2);
            }
            assert(false);
        } else {
            assert(pow10(k) == 10 * pow10((k - 1) as nat));
            lemma_dec_rep_len(n / 10, (k - 1) as nat);
        }
    }
}

/// Every character of a decimal representation is a digit.
pub proof fn lemma_dec_rep_digits(n: nat)
    ensures
        forall|i: int| 0 <= i < dec_rep(n).len() ==> is_ascii_digit(#[trigger] dec_rep(n)[i]),
    decreases n,
{
    if n < 10 {
        assert(is_ascii_digit(dec_rep(n)[0]));
    } else {
        lemma_dec_rep_digits(n / 10);
        let prefix = dec_rep(n / 10);
        assert forall|i: int| 0 <= i < dec_rep(n).len() implies is_ascii_digit(
            #[trigger] dec_rep(n)[i],
        ) by {
            if i < prefix.len() {
                assert(dec_rep(n)[i] == prefix[i]);
            } else {
                assert(dec_rep(n)[i] == digit_char((n % 10) as int));
            }
        }
    }
}

/// Ten-digit form: every block number below ten billion yields a key that is
/// exactly ten decimal digits followed by `.dbin.zst`.
pub proof fn lemma_object_key_ten_digits(b: nat)
    requires
        b < 10_000_000_000,
    ensures
        object_key_spec(b).len() == 19,
        forall|i: int| 0 <= i < 10 ==> is_ascii_digit(#[trigger] object_key_spec(b)[i]),
        object_key_spec(b).subrange(10, 19) =~= ".dbin.zst"@,
{
    assert(pow10(10) == 10_000_000_000) by {
        reveal_with_fuel(pow10, 11);
    }
    lemma_dec_rep_len(b, 10);
    lemma_dec_rep_digits(b);
    reveal_strlit(".dbin.zst");
    assert(zero_pad(dec_rep(b), 10).len() == 10);
    assert forall|i: int| 0 <= i < 10 implies is_ascii_digit(#[trigger] object_key_spec(b)[i]) by {
        let padded = zero_pad(dec_rep(b), 10);
        assert(object_key_spec(b)[i] == padded[i]);
        if dec_rep(b).len() < 10 && i < 10 - dec_rep(b).len() {
            assert(padded[i] == '0');
        }
    }
}

/// The one-character string for a digit value.
fn digit_str(d: u64) -> (r: &'static str)
    requires
        d < 10,
    ensures
        r@ =~= seq![digit_char(d as int)],
{
    if d == 0 {
        proof { reveal_strlit("0"); }
        "0"
    } else if d == 1 {
        proof { reveal_strlit("1"); }
        "1"
    } else if d == 2 {
        proof { reveal_strlit("2"); }
        "2"
    } else if d == 3 {
        proof { reveal_strlit("3"); }
        "3"
    } else if d == 4 {
        proof { reveal_strlit("4"); }
        "4"
    } else if d == 5 {
        proof { reveal_strlit("5"); }
        "5"
    } else if d == 6 {
        proof { reveal_strlit("6"); }
        "6"
    } else if d == 7 {
        proof { reveal_strlit("7"); }
        "7"
    } else if d == 8 {
        proof { reveal_strlit("8"); }
        "8"
    } else {
        proof { reveal_strlit("9"); }
        "9"
    }
}

/// Appends the decimal representation of `n` to `s`.
fn push_dec(s: &mut String, n: u64)
    ensures
        final(s)@ == old(s)@ + dec_rep(n as nat),
    decreases n,
{
    if n < 10 {
        s.append(digit_str(n));
        assert(s@ =~= old(s)@ + dec_rep(n as nat));
    } else {
        push_dec(s, n / 10);
        s.append(digit_str(n % 10));
        assert(s@ =~= old(s)@ + dec_rep(n as nat));
    }
}

/// The key under which block `block_number` is stored.
pub fn object_key(block_number: u64) -> (r: String)
    ensures
        r@ == object_key_spec(block_number as nat),
{
    let mut digits = String::new();
    push_dec(&mut digits, block_number);
    assert(digits@ =~= dec_rep(block_number as nat));
    let len: usize = digits.as_str().unicode_len();
    let mut out = String::new();
    let mut i: usize = len;
    while i < 10
        invariant
            len == dec_rep(block_number as nat).len(),
            digits@ == dec_rep(block_number as nat),
            len <= i,
            i <= 10 || i == len,
            out@ =~= Seq::new((i - len) as nat, |j: int| '0'),
        decreases 10 - i,
    {
        proof { reveal_strlit("0"); }
        out.append("0");
        proof {
            assert(out@ =~= Seq::new((i + 1 - len) as nat, |j: int| '0'));
        }
        i = i + 1;
    }
    let combined = out.concat(digits.as_str());
    proof {
        assert(combined@ =~= zero_pad(dec_rep(block_number as nat), 10));
    }
    let r = combined.concat(".dbin.zst");
    proof {
        assert(r@ =~= object_key_spec(block_number as nat));
    }
    r
}

} // verus!
