use vstd::prelude::*;

verus! {

/// The ASCII code of the decimal digit `d`.
pub open spec fn digit_char(d: int) -> u8 {
    (48 + d) as u8
}

pub open spec fn is_digit(c: u8) -> bool {
    48 <= c <= 57
}

/// `n` written in decimal, most significant digit first, without leading zeros.
pub open spec fn decimal(n: nat) -> Seq<u8>
    decreases n,
{
    if n < 10 {
        seq![digit_char(n as int)]
    } else {
        decimal(n / 10).push(digit_char((n % 10) as int))
    }
}

/// `n` in decimal, padded on the left with zeros to at least `width` digits.
pub open spec fn padded_decimal(n: nat, width: nat) -> Seq<u8> {
    let digits = decimal(n);
    if width > digits.len() {
        Seq::new((width - digits.len()) as nat, |i: int| digit_char(0)) + digits
    } else {
        digits
    }
}

/// The number that a string of decimal digits stands for.
pub open spec fn digits_value(s: Seq<u8>) -> nat
    decreases s.len(),
{
    if s.len() == 0 {
        0
    } else {
        digits_value(s.drop_last()) * 10 + (s.last() - 48) as nat
    }
}

pub open spec fn all_digits(s: Seq<u8>) -> bool {
    forall|i: int| 0 <= i < s.len() ==> is_digit(#[trigger] s[i])
}

/// The digits of an unsigned number, after the `+` sign that may lead them.
pub open spec fn unsigned_digits(s: Seq<u8>) -> Seq<u8> {
    if s.len() > 0 && s[0] == 43 {
        s.drop_first()
    } else {
        s
    }
}

/// The text is an unsigned number that fits in `usize`: an optional `+`, then
/// one or more decimal digits, and nothing else.
pub open spec fn is_number(s: Seq<u8>) -> bool {
    let d = unsigned_digits(s);
    &&& d.len() > 0
    &&& all_digits(d)
    &&& digits_value(d) <= usize::MAX
}

/// The high score that the text of a high-score file holds: its number, or 0
/// when it holds no number.
pub open spec fn parsed_high_score(s: Seq<u8>) -> nat {
    if is_number(s) {
        digits_value(unsigned_digits(s))
    } else {
        0
    }
}

/// The high score that a high-score file gives, when there is one.
pub open spec fn loaded_high_score(contents: Option<Seq<u8>>) -> nat {
    match contents {
        Some(s) => parsed_high_score(s),
        None => 0,
    }
}

/// What the high-score file holds for the score `n`.
pub open spec fn high_score_file(n: nat) -> Seq<u8> {
    decimal(n)
}

proof fn lemma_decimal(n: nat)
    ensures
        decimal(n).len() > 0,
        all_digits(decimal(n)),
        digits_value(decimal(n)) == n,
    decreases n,
{
    if n >= 10 {
        lemma_decimal(n / 10);
        vstd::arithmetic::div_mod::lemma_fundamental_div_mod(n as int, 10);
        let s = decimal(n);
        assert(s.drop_last() =~= decimal(n / 10));
        assert(s.last() == digit_char((n % 10) as int));
        assert(digits_value(s) == digits_value(decimal(n / 10)) * 10 + n % 10);
        assert(digits_value(s) == n) by (nonlinear_arith)
            requires
                digits_value(s) == digits_value(decimal(n / 10)) * 10 + n % 10,
                digits_value(decimal(n / 10)) == n / 10,
                n == 10 * (n / 10) + n % 10,
        ;
        assert forall|i: int| 0 <= i < s.len() implies is_digit(#[trigger] s[i]) by {
            if i < s.len() - 1 {
                assert(s[i] == decimal(n / 10)[i]);
            }
        }
    } else {
        assert(decimal(n).drop_last() =~= Seq::<u8>::empty());
        assert(decimal(n).last() == digit_char(n as int));
        assert(digits_value(decimal(n)) == digits_value(Seq::<u8>::empty()) * 10 + n);
    }
}

proof fn lemma_zeros_value(z: Seq<u8>, s: Seq<u8>)
    requires
        forall|i: int| 0 <= i < z.len() ==> #[trigger] z[i] == digit_char(0),
    ensures
        digits_value(z + s) == digits_value(s),
    decreases z.len() + s.len(),
{
    if s.len() == 0 {
        assert(z + s =~= z);
        if z.len() > 0 {
            lemma_zeros_value(z.drop_last(), s);
            assert(z.drop_last() + s =~= z.drop_last());
        }
    } else {
        lemma_zeros_value(z, s.drop_last());
        assert((z + s).drop_last() =~= z + s.drop_last());
    }
}

proof fn lemma_prefix_value(s: Seq<u8>, j: int)
    requires
        all_digits(s),
        0 <= j <= s.len(),
    ensures
        digits_value(s) >= digits_value(s.take(j)),
    decreases s.len(),
{
    if j < s.len() {
        let t = s.drop_last();
        assert(all_digits(t)) by {
            assert forall|i: int| 0 <= i < t.len() implies is_digit(#[trigger] t[i]) by {
                assert(t[i] == s[i]);
            }
        }
        lemma_prefix_value(t, j);
        assert(t.take(j) =~= s.take(j));
    } else {
        assert(s.take(j) =~= s);
    }
}

/// Writing a score and reading the text back gives the score, whatever zero
/// padding it was written with; with no file to read, the high score is 0.
pub proof fn lemma_high_score_round_trip(n: usize, width: nat)
    ensures
        parsed_high_score(padded_decimal(n as nat, width)) == n,
        loaded_high_score(Some(high_score_file(n as nat))) == n,
        loaded_high_score(None) == 0,
{
    lemma_decimal(n as nat);
    let digits = decimal(n as nat);
    let s = padded_decimal(n as nat, width);
    if width > digits.len() {
        let z = Seq::new((width - digits.len()) as nat, |i: int| digit_char(0));
        lemma_zeros_value(z, digits);
        assert(all_digits(s)) by {
            assert forall|i: int| 0 <= i < s.len() implies is_digit(#[trigger] s[i]) by {
                if i >= z.len() {
                    assert(s[i] == digits[i - z.len()]);
                }
            }
        }
    }
    assert(is_digit(s[0]));
    assert(unsigned_digits(s) == s);
    assert(is_digit(digits[0]));
    assert(unsigned_digits(digits) == digits);
}

/// `value` in decimal ASCII digits, padded on the left with zeros to at least
/// `width` digits (the form of the high-score file and of the status bar).
pub fn decimal_text(value: usize, width: usize) -> (r: Vec<u8>)
    ensures
        r@ == padded_decimal(value as nat, width as nat),
{
    let mut text: Vec<u8> = Vec::new();
    let mut rest: usize = value;
    while rest >= 10
        invariant
            decimal(value as nat) == decimal(rest as nat) + text@,
        decreases rest,
    {
        let d: u8 = (48 + rest % 10) as u8;
        let ghost before = text@;
        text.insert(0, d);
        proof {
            let q = (rest / 10) as nat;
            assert(decimal(rest as nat) == decimal(q).push(d));
            assert(text@ =~= seq![d] + before);
            assert(decimal(q).push(d) + before =~= decimal(q) + text@);
        }
        rest = rest / 10;
    }
    let first: u8 = (48 + rest) as u8;
    let ghost before = text@;
    text.insert(0, first);
    proof {
        assert(decimal(rest as nat) == seq![first]);
        assert(text@ =~= seq![first] + before);
    }
    let ghost digits = text@;
    assert(digits == decimal(value as nat));
    while text.len() < width
        invariant
            text@.len() >= digits.len(),
            text@.len() == digits.len() || text@.len() <= width,
            text@ == Seq::new((text@.len() - digits.len()) as nat, |i: int| digit_char(0)) + digits,
        decreases width - text@.len(),
    {
        let ghost before = text@;
        text.insert(0, 48u8);
        proof {
            assert(text@ =~= Seq::new((text@.len() - digits.len()) as nat, |i: int| digit_char(0))
                + digits);
        }
    }
    proof {
        if text@.len() == digits.len() {
            assert(text@ =~= digits);
        }
    }
    text
}

/// Reads the text of a high-score file as `usize`'s `from_str` does; text that
/// is no number gives 0.
pub fn parse_high_score(text: &[u8]) -> (r: usize)
    ensures
        r == parsed_high_score(text@),
{
    let start: usize = if text.len() > 0 && text[0] == 43 {
        1
    } else {
        0
    };
    let ghost d = unsigned_digits(text@);
    proof {
        assert(d =~= text@.subrange(start as int, text@.len() as int));
    }
    if start >= text.len() {
        return 0;
    }
    let mut acc: usize = 0;
    let mut i: usize = start;
    while i < text.len()
        invariant
            start <= i <= text@.len(),
            d == text@.subrange(start as int, text@.len() as int),
            d == unsigned_digits(text@),
            all_digits(d.take(i - start)),
            acc == digits_value(d.take(i - start)),
        decreases text@.len() - i,
    {
        let c = text[i];
        let ghost k: int = i - start;
        assert(d[k] == c);
        if c < 48 || c > 57 {
            proof {
                assert(!is_digit(d[k]));
                assert(!all_digits(d));
            }
            return 0;
        }
        let next: u128 = acc as u128 * 10 + (c - 48) as u128;
        proof {
            assert(d.take(k + 1).drop_last() =~= d.take(k));
            assert(d.take(k + 1).last() == c);
            assert(digits_value(d.take(k + 1)) == acc * 10 + (c - 48));
            assert(all_digits(d.take(k + 1))) by {
                assert forall|j: int| 0 <= j < k + 1 implies is_digit(#[trigger] d.take(k + 1)[j]) by {
                    if j < k {
                        assert(d.take(k + 1)[j] == d.take(k)[j]);
                    }
                }
            }
        }
        if next > usize::MAX as u128 {
            proof {
                if all_digits(d) {
                    lemma_prefix_value(d, k + 1);
                }
            }
            return 0;
        }
        acc = next as usize;
        i += 1;
    }
    proof {
        assert(d.take(d.len() as int) =~= d);
    }
    acc
}

/// The text of the high-score file for the score `n`.
pub fn high_score_text(n: usize) -> (r: Vec<u8>)
    ensures
        r@ == high_score_file(n as nat),
{
    proof {
        lemma_decimal(n as nat);
    }
    decimal_text(n, 1)
}

} // verus!
