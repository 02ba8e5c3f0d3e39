//! Decimal text, as a venue writes its numbers: an optional sign, digits, and
//! optionally a point followed by one to twelve digits.

use crate::decimal::{fits, Decimal, FRACTION_DIGITS};
use vstd::prelude::*;
use vstd::string::StrSliceExecFns;

verus! {

/// Whether a character is a decimal digit.
pub open spec fn is_digit(c: char) -> bool {
    '0' <= c <= '9'
}

/// The value of a decimal digit.
pub open spec fn digit_value(c: char) -> int {
    (c as u32) as int - 48
}

/// Whether a text holds decimal digits only.
pub open spec fn all_digits(s: Seq<char>) -> bool {
    forall|i: int| 0 <= i < s.len() ==> is_digit(#[trigger] s[i])
}

/// The number that a run of digits writes, most significant digit first.
pub open spec fn digits_value(s: Seq<char>) -> int
    decreases s.len(),
{
    if s.len() == 0 {
        0
    } else {
        digits_value(s.drop_last()) * 10 + digit_value(s.last())
    }
}

/// Ten to the power `n`.
pub open spec fn pow10(n: nat) -> int
    decreases n,
{
    if n == 0 {
        1
    } else {
        10 * pow10((n - 1) as nat)
    }
}

/// Whether a text begins with a sign.
pub open spec fn has_sign(text: Seq<char>) -> bool {
    text.len() > 0 && (text[0] == '-' || text[0] == '+')
}

/// Whether a text begins with a minus sign.
pub open spec fn is_negative(text: Seq<char>) -> bool {
    text.len() > 0 && text[0] == '-'
}

/// The text without its sign.
pub open spec fn unsigned_part(text: Seq<char>) -> Seq<char> {
    if has_sign(text) {
        text.skip(1)
    } else {
        text
    }
}

/// Whether unsigned text is `p` digits, either alone or followed by a point
/// and one to twelve digits more.
pub open spec fn splits_at(body: Seq<char>, p: int) -> bool {
    &&& 0 < p <= body.len()
    &&& all_digits(body.take(p))
    &&& p < body.len() ==> {
        &&& body[p] == '.'
        &&& 1 <= body.len() - p - 1 <= FRACTION_DIGITS
        &&& all_digits(body.skip(p + 1))
    }
}

/// The digits behind the point.
pub open spec fn fraction(body: Seq<char>, p: int) -> Seq<char> {
    if p < body.len() {
        body.skip(p + 1)
    } else {
        Seq::empty()
    }
}

/// The units that unsigned text with `p` integer digits writes.
pub open spec fn scaled_value(body: Seq<char>, p: int) -> int {
    digits_value(body.take(p) + fraction(body, p)) * pow10(
        (FRACTION_DIGITS - fraction(body, p).len()) as nat,
    )
}

/// Whether a text is decimal text.
pub open spec fn is_decimal_text(text: Seq<char>) -> bool {
    exists|p: int| splits_at(unsigned_part(text), p)
}

/// The number of digits before the point.
pub open spec fn integer_len(text: Seq<char>) -> int {
    choose|p: int| splits_at(unsigned_part(text), p)
}

/// The units that decimal text writes.
pub open spec fn text_units(text: Seq<char>) -> int {
    let v = scaled_value(unsigned_part(text), integer_len(text));
    if is_negative(text) {
        -v
    } else {
        v
    }
}

/// The quantity that a text writes: `None` where it is no decimal text or its
/// value is out of range.
pub open spec fn decimal_of_text(text: Seq<char>) -> Option<int> {
    if is_decimal_text(text) && fits(text_units(text)) {
        Some(text_units(text))
    } else {
        None
    }
}

/// Where the digits of unsigned text end, there alone can it split.
pub proof fn lemma_split_only_at(body: Seq<char>, p: int)
    requires
        0 <= p <= body.len(),
        all_digits(body.take(p)),
        p < body.len() ==> !is_digit(body[p]),
    ensures
        forall|q: int| splits_at(body, q) ==> q == p,
{
    assert forall|q: int| splits_at(body, q) implies q == p by {
        if q < p {
            assert(body.take(p)[q] == body[q]);
        } else if q > p {
            assert(body.take(q)[p] == body[p]);
        }
    }
}

/// Decimal text is made of ASCII characters.
pub proof fn lemma_decimal_text_is_ascii(text: Seq<char>)
    requires
        is_decimal_text(text),
    ensures
        vstd::utf8::is_ascii_chars(text),
{
    let body = unsigned_part(text);
    let p = choose|p: int| splits_at(body, p);
    let off: int = if has_sign(text) {
        1
    } else {
        0
    };
    assert forall|i: int| 0 <= i < text.len() implies '\0' <= #[trigger] text[i] <= '\u{7f}' by {
        if i >= off {
            let k = i - off;
            assert(body[k] == text[i]);
            if k < p {
                assert(body.take(p)[k] == body[k]);
            } else if k > p {
                assert(body.skip(p + 1)[k - p - 1] == body[k]);
            }
        }
    }
}

/// Takes one more digit into a running value that may have left the range.
fn push_digit(acc: i128, over: bool, d: u8, Ghost(v): Ghost<int>) -> (r: (i128, bool))
    requires
        d <= 9,
        v >= 0,
        over ==> v > i128::MAX,
        !over ==> acc == v,
    ensures
        r.1 ==> v * 10 + d > i128::MAX,
        !r.1 ==> r.0 == v * 10 + d,
{
    if over {
        return (acc, true);
    }
    match acc.checked_mul(10) {
        Some(m) => match m.checked_add(d as i128) {
            Some(s) => (s, false),
            None => (acc, true),
        },
        None => (acc, true),
    }
}

/// Reads a quantity from decimal text.
pub fn parse_decimal(s: &str) -> (r: Option<Decimal>)
    ensures
        r == (match decimal_of_text(s@) {
            Some(u) => Some(Decimal { units: u as i128 }),
            None => None,
        }),
{
    if !s.is_ascii() {
        proof {
            if is_decimal_text(s@) {
                lemma_decimal_text_is_ascii(s@);
            }
        }
        return None;
    }
    let n: usize = s.unicode_len();
    let first: u8 = if n > 0 {
        s.get_ascii(0)
    } else {
        0
    };
    let negative: bool = first == 45;
    let start: usize = if first == 45 || first == 43 {
        1
    } else {
        0
    };
    let ghost body = unsigned_part(s@);
    assert(negative == is_negative(s@));
    assert(body.len() == n - start);
    assert(forall|k: int| 0 <= k < body.len() ==> body[k] == s@[start + k]);

    // The digits before the point.
    let mut i: usize = start;
    let mut acc: i128 = 0;
    let mut over: bool = false;
    let mut done: bool = false;
    while !done
        invariant
            s.is_ascii(),
            n == s@.len(),
            body == unsigned_part(s@),
            body.len() == n - start,
            forall|k: int| 0 <= k < body.len() ==> body[k] == s@[start + k],
            start <= i <= n,
            all_digits(body.take(i - start)),
            done ==> (i < n ==> !is_digit(body[i - start])),
            digits_value(body.take(i - start)) >= 0,
            over ==> digits_value(body.take(i - start)) > i128::MAX,
            !over ==> acc == digits_value(body.take(i - start)),
        decreases n - i + if done { 0int } else { 1int },
    {
        if i >= n {
            done = true;
        } else {
            let b: u8 = s.get_ascii(i);
            if 48 <= b && b <= 57 {
                let ghost v = digits_value(body.take(i - start));
                let next = push_digit(acc, over, b - 48, Ghost(v));
                proof {
                    let longer = body.take(i - start + 1);
                    assert(longer.drop_last() =~= body.take(i - start));
                    assert(longer.last() == s@[i as int]);
                    assert(is_digit(s@[i as int]));
                    assert(digit_value(s@[i as int]) == b - 48);
                    assert forall|k: int| 0 <= k < longer.len() implies is_digit(
                        #[trigger] longer[k],
                    ) by {
                        if k < i - start {
                            assert(body.take(i - start)[k] == longer[k]);
                        }
                    }
                }
                acc = next.0;
                over = next.1;
                i = i + 1;
            } else {
                assert(!is_digit(s@[i as int]));
                done = true;
            }
        }
    }
    let ghost p: int = i - start;
    proof {
        lemma_split_only_at(body, p);
    }
    if i == start {
        return None;
    }
    let mut count: usize = 0;
    if i < n {
        if s.get_ascii(i) != 46 {
            assert(s@[i as int] != '.');
            return None;
        }
        assert(s@[i as int] == '.');
        // The digits behind the point.
        let mut j: usize = i + 1;
        done = false;
        while !done
            invariant
                s.is_ascii(),
                n == s@.len(),
                body == unsigned_part(s@),
                body.len() == n - start,
                forall|k: int| 0 <= k < body.len() ==> body[k] == s@[start + k],
                start < i < n,
                p == i - start,
                i + 1 <= j <= n,
                count == j - i - 1,
                count <= FRACTION_DIGITS,
                all_digits(body.subrange(p + 1, j - start)),
                done ==> j == n || count == FRACTION_DIGITS || !is_digit(body[j - start]),
                digits_value(body.take(p) + body.subrange(p + 1, j - start)) >= 0,
                over ==> digits_value(body.take(p) + body.subrange(p + 1, j - start)) > i128::MAX,
                !over ==> acc == digits_value(body.take(p) + body.subrange(p + 1, j - start)),
            decreases n - j + if done { 0int } else { 1int },
        {
            if j >= n || count >= FRACTION_DIGITS {
                done = true;
            } else {
                let b: u8 = s.get_ascii(j);
                if 48 <= b && b <= 57 {
                    let ghost shorter = body.take(p) + body.subrange(p + 1, j - start);
                    let ghost v = digits_value(shorter);
                    let next = push_digit(acc, over, b - 48, Ghost(v));
                    proof {
                        let longer = body.take(p) + body.subrange(p + 1, j - start + 1);
                        assert(longer.drop_last() =~= shorter);
                        assert(longer.last() == s@[j as int]);
                        assert(is_digit(s@[j as int]));
                        assert(digit_value(s@[j as int]) == b - 48);
                        let run = body.subrange(p + 1, j - start + 1);
                        assert forall|k: int| 0 <= k < run.len() implies is_digit(
                            #[trigger] run[k],
                        ) by {
                            if k < j - start - p - 1 {
                                assert(body.subrange(p + 1, j - start)[k] == run[k]);
                            }
                        }
                    }
                    acc = next.0;
                    over = next.1;
                    j = j + 1;
                    count = count + 1;
                } else {
                    assert(!is_digit(s@[j as int]));
                    done = true;
                }
            }
        }
        if j < n {
            proof {
                if splits_at(body, p) {
                    if count < FRACTION_DIGITS {
                        assert(body.skip(p + 1)[j - start - p - 1] == body[j - start]);
                    }
                }
            }
            return None;
        }
        if count == 0 {
            return None;
        }
        proof {
            assert(body.skip(p + 1) =~= body.subrange(p + 1, n - start));
            assert(splits_at(body, p));
        }
    } else {
        proof {
            assert(body.take(p) + Seq::<char>::empty() =~= body.take(p));
            assert(splits_at(body, p));
        }
    }
    proof {
        assert(integer_len(s@) == p);
        assert(fraction(body, p).len() == count);
    }
    // Pad to twelve fractional digits.
    let ghost whole = digits_value(body.take(p) + fraction(body, p));
    let mut k: usize = count;
    while k < FRACTION_DIGITS
        invariant
            count <= k <= FRACTION_DIGITS,
            whole >= 0,
            whole * pow10((k - count) as nat) >= 0,
            over ==> whole * pow10((k - count) as nat) > i128::MAX,
            !over ==> acc == whole * pow10((k - count) as nat),
        decreases FRACTION_DIGITS - k,
    {
        let ghost v = whole * pow10((k - count) as nat);
        let next = push_digit(acc, over, 0, Ghost(v));
        proof {
            let e = pow10((k - count) as nat);
            assert(pow10((k + 1 - count) as nat) == 10 * e);
            assert(whole * (10 * e) == (whole * e) * 10) by (nonlinear_arith);
        }
        acc = next.0;
        over = next.1;
        k = k + 1;
    }
    assert(scaled_value(body, p) == whole * pow10((FRACTION_DIGITS - count) as nat));
    if over {
        return None;
    }
    if negative {
        Some(Decimal { units: -acc })
    } else {
        Some(Decimal { units: acc })
    }
}

} // verus!
