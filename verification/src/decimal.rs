//! Decimal text of integers: the form in which every number travels on the wire.

use vstd::prelude::*;

verus! {

/// The character that stands for the digit `d`.
pub open spec fn digit_char(d: int) -> char {
    if d == 0 {
        '0'
    } else if d == 1 {
        '1'
    } else if d == 2 {
        '2'
    } else if d == 3 {
        '3'
    } else if d == 4 {
        '4'
    } else if d == 5 {
        '5'
    } else if d == 6 {
        '6'
    } else if d == 7 {
        '7'
    } else if d == 8 {
        '8'
    } else {
        '9'
    }
}

/// The digit that `c` stands for, if it is one of `0` to `9`.
pub open spec fn digit_value(c: char) -> Option<int> {
    if c == '0' {
        Some(0)
    } else if c == '1' {
        Some(1)
    } else if c == '2' {
        Some(2)
    } else if c == '3' {
        Some(3)
    } else if c == '4' {
        Some(4)
    } else if c == '5' {
        Some(5)
    } else if c == '6' {
        Some(6)
    } else if c == '7' {
        Some(7)
    } else if c == '8' {
        Some(8)
    } else if c == '9' {
        Some(9)
    } else {
        None
    }
}

/// The decimal digits of `n`, most significant first, without leading zeros.
pub open spec fn digits_of(n: nat) -> Seq<char>
    decreases n,
{
    if n < 10 {
        seq![digit_char(n as int)]
    } else {
        digits_of(n / 10).push(digit_char((n % 10) as int))
    }
}

/// The decimal text of `n`: its digits, after a minus sign when it is negative.
pub open spec fn decimal(n: int) -> Seq<char> {
    if n < 0 {
        seq!['-'] + digits_of((-n) as nat)
    } else {
        digits_of(n as nat)
    }
}

/// Every character of `s` is a decimal digit.
pub open spec fn all_digits(s: Seq<char>) -> bool {
    forall|i: int| 0 <= i < s.len() ==> (#[trigger] digit_value(s[i])).is_some()
}

/// The number that a run of decimal digits denotes.
pub open spec fn digits_number(s: Seq<char>) -> nat
    decreases s.len(),
{
    if s.len() == 0 {
        0
    } else {
        match digit_value(s.last()) {
            Some(d) => (digits_number(s.drop_last()) * 10 + d) as nat,
            None => 0,
        }
    }
}

/// The sign and magnitude that a text denotes: an optional `+` or `-`, then at
/// least one decimal digit and nothing else. The flag tells whether the text
/// starts with `-`.
pub open spec fn parse_sign_magnitude(s: Seq<char>) -> Option<(bool, nat)> {
    if s.len() > 0 && (s[0] == '-' || s[0] == '+') {
        let rest = s.skip(1);
        if rest.len() > 0 && all_digits(rest) {
            Some((s[0] == '-', digits_number(rest)))
        } else {
            None
        }
    } else if s.len() > 0 && all_digits(s) {
        Some((false, digits_number(s)))
    } else {
        None
    }
}

/// The integer that a decimal text denotes, if it is well formed.
pub open spec fn parse_decimal(s: Seq<char>) -> Option<int> {
    match parse_sign_magnitude(s) {
        Some((negative, magnitude)) => Some(
            if negative {
                -(magnitude as int)
            } else {
                magnitude as int
            },
        ),
        None => None,
    }
}

/// The digits of a number are digits, at least one of them, and denote it.
pub proof fn lemma_digits_of(n: nat)
    ensures
        digits_of(n).len() > 0,
        all_digits(digits_of(n)),
        digits_number(digits_of(n)) == n,
        digit_value(digits_of(n)[0]).is_some(),
    decreases n,
{
    if n < 10 {
        let s = digits_of(n);
        assert(s.drop_last() =~= Seq::<char>::empty());
        assert(digits_number(s.drop_last()) == 0);
        assert(digit_value(s.last()) == Some(n as int));
    } else {
        lemma_digits_of(n / 10);
        let head = digits_of(n / 10);
        let s = digits_of(n);
        assert(s.drop_last() =~= head);
        assert(s.last() == digit_char((n % 10) as int));
        assert(digit_value(s.last()) == Some((n % 10) as int));
        assert forall|i: int| 0 <= i < s.len() implies (#[trigger] digit_value(s[i])).is_some() by {
            if i < head.len() {
                assert(s[i] == head[i]);
            }
        }
        assert(s[0] == head[0]);
    }
}

/// Reading the decimal text of an integer gives the integer back.
pub proof fn lemma_parse_decimal(n: int)
    ensures
        parse_decimal(decimal(n)) == Some(n),
        parse_sign_magnitude(decimal(n)) == Some((n < 0, (if n < 0 { -n } else { n }) as nat)),
{
    if n < 0 {
        let m = (-n) as nat;
        lemma_digits_of(m);
        let s = decimal(n);
        assert(s[0] == '-');
        assert(s.skip(1) =~= digits_of(m));
    } else {
        lemma_digits_of(n as nat);
    }
}

/// A run of digits denotes at least what any of its prefixes denotes.
pub proof fn lemma_prefix_number(s: Seq<char>, k: int)
    requires
        all_digits(s),
        0 <= k <= s.len(),
    ensures
        digits_number(s.take(k)) <= digits_number(s),
    decreases s.len(),
{
    if k == s.len() {
        assert(s.take(k) =~= s);
    } else {
        let head = s.drop_last();
        assert(all_digits(head)) by {
            assert forall|i: int| 0 <= i < head.len() implies (#[trigger] digit_value(
                head[i],
            )).is_some() by {
                assert(head[i] == s[i]);
            }
        }
        lemma_prefix_number(head, k);
        assert(head.take(k) =~= s.take(k));
        assert(digit_value(s.last()).is_some());
    }
}

/// The one-character text of the digit `d`.
fn digit_text(d: u8) -> (text: &'static str)
    requires
        d < 10,
    ensures
        text@ == seq![digit_char(d as int)],
{
    proof {
        reveal_strlit("0");
        reveal_strlit("1");
        reveal_strlit("2");
        reveal_strlit("3");
        reveal_strlit("4");
        reveal_strlit("5");
        reveal_strlit("6");
        reveal_strlit("7");
        reveal_strlit("8");
        reveal_strlit("9");
    }
    let text = if d == 0 {
        "0"
    } else if d == 1 {
        "1"
    } else if d == 2 {
        "2"
    } else if d == 3 {
        "3"
    } else if d == 4 {
        "4"
    } else if d == 5 {
        "5"
    } else if d == 6 {
        "6"
    } else if d == 7 {
        "7"
    } else if d == 8 {
        "8"
    } else {
        "9"
    };
    assert(text@ =~= seq![digit_char(d as int)]);
    text
}

/// The digit that the character `c` stands for.
fn digit_of_char(c: char) -> (digit: Option<u8>)
    ensures
        match digit {
            Some(d) => digit_value(c) == Some(d as int) && d < 10,
            None => digit_value(c).is_none(),
        },
{
    if c == '0' {
        Some(0)
    } else if c == '1' {
        Some(1)
    } else if c == '2' {
        Some(2)
    } else if c == '3' {
        Some(3)
    } else if c == '4' {
        Some(4)
    } else if c == '5' {
        Some(5)
    } else if c == '6' {
        Some(6)
    } else if c == '7' {
        Some(7)
    } else if c == '8' {
        Some(8)
    } else if c == '9' {
        Some(9)
    } else {
        None
    }
}

/// Writes an unsigned integer as decimal text.
pub fn format_unsigned(n: u128) -> (text: String)
    ensures
        text@ == decimal(n as int),
    decreases n,
{
    if n < 10 {
        String::from_str(digit_text(n as u8))
    } else {
        let mut text = format_unsigned(n / 10);
        text.append(digit_text((n % 10) as u8));
        assert(text@ =~= digits_of(n as nat));
        text
    }
}

/// Writes a signed integer as decimal text.
pub fn format_signed(n: i128) -> (text: String)
    ensures
        text@ == decimal(n as int),
{
    if n < 0 {
        let magnitude: u128 = (-(n + 1)) as u128 + 1;
        let digits = format_unsigned(magnitude);
        let mut text = String::from_str("-");
        text.append(digits.as_str());
        proof {
            reveal_strlit("-");
            assert(text@ =~= decimal(n as int));
        }
        text
    } else {
        format_unsigned(n as u128)
    }
}

/// Reads a decimal text as a sign and a magnitude. The result is `None` when
/// the text is not well formed, and also when its magnitude is beyond `u128`.
pub fn parse_magnitude(s: &str) -> (parsed: Option<(bool, u128)>)
    ensures
        match parsed {
            Some((negative, magnitude)) => parse_sign_magnitude(s@) == Some(
                (negative, magnitude as nat),
            ),
            None => match parse_sign_magnitude(s@) {
                Some((_, magnitude)) => magnitude > u128::MAX,
                None => true,
            },
        },
{
    let len = s.unicode_len();
    if len == 0 {
        return None;
    }
    let first = s.get_char(0);
    let negative = first == '-';
    let start: usize = if first == '-' || first == '+' {
        1
    } else {
        0
    };
    if start == len {
        return None;
    }
    let ghost rest = s@.skip(start as int);
    proof {
        if start == 0 {
            assert(rest =~= s@);
        }
    }
    let mut magnitude: u128 = 0;
    let mut i: usize = start;
    while i < len
        invariant
            start <= i <= len,
            start < len,
            len == s@.len(),
            negative == (s@[0] == '-'),
            start == 1 <==> (s@[0] == '-' || s@[0] == '+'),
            start == 0 || start == 1,
            rest == s@.skip(start as int),
            all_digits(rest.take(i - start)),
            magnitude == digits_number(rest.take(i - start)),
        decreases len - i,
    {
        let c = s.get_char(i);
        let ghost seen = rest.take(i - start);
        let ghost next = rest.take(i + 1 - start);
        proof {
            if start == 0 {
                assert(rest =~= s@);
            }
            assert(next.drop_last() =~= seen);
            assert(next.last() == c);
        }
        match digit_of_char(c) {
            None => {
                proof {
                    assert(rest[i - start] == c);
                    assert(!all_digits(rest));
                }
                return None;
            },
            Some(d) => {
                proof {
                    assert forall|j: int| 0 <= j < next.len() implies (#[trigger] digit_value(
                        next[j],
                    )).is_some() by {
                        if j < seen.len() {
                            assert(next[j] == seen[j]);
                        }
                    }
                }
                if magnitude > (u128::MAX - d as u128) / 10 {
                    proof {
                        assert(digits_number(next) == magnitude * 10 + d);
                        if all_digits(rest) {
                            lemma_prefix_number(rest, i + 1 - start);
                        }
                    }
                    return None;
                }
                magnitude = magnitude * 10 + d as u128;
            },
        }
        i += 1;
    }
    proof {
        assert(rest.take(len - start) =~= rest);
        if start == 0 {
            assert(rest =~= s@);
        }
    }
    Some((negative, magnitude))
}

} // verus!
