//! Decimal rendering and parsing of the numeric entity identifiers.
//!
//! Listing lines start with an entity id in decimal; picking a line hands the
//! decimal text back, so the two directions here must invert each other.

use vstd::prelude::*;

verus! {

use vstd::arithmetic::div_mod::lemma_fundamental_div_mod;
use vstd::string::StrSliceExecFns;
use vstd::string::StringExecFns;

/// A decimal digit character.
pub open spec fn is_digit(c: char) -> bool {
    '0' as int <= c as int <= '9' as int
}

/// The numeric value of a digit character.
pub open spec fn digit_val(c: char) -> nat
    recommends
        is_digit(c),
{
    (c as int - '0' as int) as nat
}

/// The digit character for a value below ten.
pub open spec fn digit_char(d: nat) -> char
    recommends
        d < 10,
{
    if d == 0 {
        '0'
    } else if d == 1 {
        '1'
    } else if d == 2 {
        '2'
    } else if d == 3 {
        '3'
    } else if d == 4 {
        '4'
    } else if d == 5 {
        '5'
    } else if d == 6 {
        '6'
    } else if d == 7 {
        '7'
    } else if d == 8 {
        '8'
    } else {
        '9'
    }
}

/// The decimal digit sequence of `n`, most significant digit first,
/// with no leading zeros (`0` itself is the single digit `'0'`).
pub open spec fn dec_digits(n: nat) -> Seq<char>
    decreases n,
{
    if n < 10 {
        seq![digit_char(n)]
    } else {
        dec_digits(n / 10).push(digit_char(n % 10))
    }
}

/// The numeric value of a digit sequence (zero for the empty sequence).
pub open spec fn dec_val(s: Seq<char>) -> nat
    decreases s.len(),
{
    if s.len() == 0 {
        0
    } else {
        dec_val(s.drop_last()) * 10 + digit_val(s.last())
    }
}

/// Every character of `s` is a decimal digit.
pub open spec fn all_digits(s: Seq<char>) -> bool {
    forall|i: int| 0 <= i < s.len() ==> is_digit(#[trigger] s[i])
}

proof fn lemma_digit_char_val(d: nat)
    requires
        d < 10,
    ensures
        is_digit(digit_char(d)),
        digit_val(digit_char(d)) == d,
{
}

/// The digit sequence of a number is non-empty and made of digits only.
pub proof fn lemma_dec_digits_shape(n: nat)
    ensures
        dec_digits(n).len() >= 1,
        all_digits(dec_digits(n)),
    decreases n,
{
    if n < 10 {
        lemma_digit_char_val(n);
    } else {
        lemma_dec_digits_shape(n / 10);
        lemma_digit_char_val(n % 10);
        let s = dec_digits(n / 10);
        let c = digit_char(n % 10);
        assert forall|i: int| 0 <= i < s.push(c).len() implies is_digit(#[trigger] s.push(c)[i]) by {
            if i < s.len() {
                assert(s.push(c)[i] == s[i]);
            } else {
                assert(s.push(c)[i] == c);
            }
        }
    }
}

/// Reading the digit sequence of a number back recovers the number.
pub proof fn lemma_dec_val_of_digits(n: nat)
    ensures
        dec_val(dec_digits(n)) == n,
    decreases n,
{
    if n < 10 {
        lemma_digit_char_val(n);
        assert(dec_digits(n).drop_last() =~= Seq::<char>::empty());
        assert(dec_digits(n).last() == digit_char(n));
        assert(dec_val(Seq::<char>::empty()) == 0);
        assert(dec_val(dec_digits(n)) == n);
    } else {
        lemma_dec_val_of_digits(n / 10);
        lemma_digit_char_val(n % 10);
        let s = dec_digits(n / 10);
        let c = digit_char(n % 10);
        assert(s.push(c).drop_last() =~= s);
        assert(s.push(c).last() == c);
        assert(dec_val(s.push(c)) == dec_val(s) * 10 + digit_val(c));
        lemma_fundamental_div_mod(n as int, 10);
        assert(dec_val(dec_digits(n)) == n);
    }
}

/// A prefix of a digit string never exceeds the whole string's value.
pub proof fn lemma_dec_val_take_le(s: Seq<char>, k: int)
    requires
        0 <= k <= s.len(),
    ensures
        dec_val(s.take(k)) <= dec_val(s),
    decreases s.len() - k,
{
    if k == s.len() {
        assert(s.take(k) =~= s);
    } else {
        assert(s.take(k + 1).drop_last() =~= s.take(k));
        assert(s.take(k + 1).last() == s[k]);
        assert(dec_val(s.take(k + 1)) == dec_val(s.take(k)) * 10 + digit_val(s[k]));
        lemma_dec_val_take_le(s, k + 1);
    }
}

fn digit_str(d: u64) -> (r: &'static str)
    requires
        d < 10,
    ensures
        r@ == seq![digit_char(d as nat)],
{
    let s: &'static str = if d == 0 {
        "0"
    } else if d == 1 {
        "1"
    } else if d == 2 {
        "2"
    } else if d == 3 {
        "3"
    } else if d == 4 {
        "4"
    } else if d == 5 {
        "5"
    } else if d == 6 {
        "6"
    } else if d == 7 {
        "7"
    } else if d == 8 {
        "8"
    } else {
        "9"
    };
    proof {
        reveal_strlit("0");
        reveal_strlit("1");
        reveal_strlit("2");
        reveal_strlit("3");
        reveal_strlit("4");
        reveal_strlit("5");
        reveal_strlit("6");
        reveal_strlit("7");
        reveal_strlit("8");
        reveal_strlit("9");
        assert(s@ =~= seq![digit_char(d as nat)]);
    }
    s
}

/// Render `n` in decimal.
pub fn u64_to_dec(n: u64) -> (r: String)
    ensures
        r@ == dec_digits(n as nat),
    decreases n,
{
    if n < 10 {
        let r = digit_str(n).to_owned();
        proof {
            assert(r@ =~= dec_digits(n as nat));
        }
        r
    } else {
        let mut s = u64_to_dec(n / 10);
        s.append(digit_str(n % 10));
        proof {
            assert(s@ =~= dec_digits(n as nat));
        }
        s
    }
}

/// Parse a decimal digit string into a `u64`.
///
/// Succeeds exactly on non-empty all-digit strings whose value fits.
pub fn parse_u64(s: &str) -> (r: Option<u64>)
    ensures
        if s@.len() > 0 && all_digits(s@) && dec_val(s@) <= u64::MAX {
            r == Some((dec_val(s@) as u64))
        } else {
            r is None
        },
{
    let len = s.unicode_len();
    if len == 0 {
        return None;
    }
    let mut acc: u64 = 0;
    let mut i: usize = 0;
    while i < len
        invariant
            0 <= i <= len,
            len as nat == s@.len(),
            all_digits(s@.take(i as int)),
            acc as nat == dec_val(s@.take(i as int)),
        decreases len - i,
    {
        let c = s.get_char(i);
        let cv = c as u32;
        proof {
            assert(s@.take(i as int + 1).drop_last() =~= s@.take(i as int));
            assert(s@.take(i as int + 1).last() == s@[i as int]);
        }
        if cv < 48 || cv > 57 {
            proof {
                assert(!is_digit(s@[i as int]));
            }
            return None;
        }
        let d = (cv - 48) as u64;
        proof {
            assert(is_digit(s@[i as int]));
            assert(d as nat == digit_val(s@[i as int]));
            assert(all_digits(s@.take(i as int + 1)));
        }
        if acc > u64::MAX / 10 {
            proof {
                assert(acc * 10 + d > u64::MAX);
                lemma_dec_val_take_le(s@, i as int + 1);
            }
            return None;
        }
        let acc10 = acc * 10;
        if d > u64::MAX - acc10 {
            proof {
                lemma_dec_val_take_le(s@, i as int + 1);
            }
            return None;
        }
        acc = acc10 + d;
        i = i + 1;
    }
    proof {
        assert(s@.take(len as int) =~= s@);
    }
    Some(acc)
}

} // verus!
