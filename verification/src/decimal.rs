//! Decimal numbers as text: writing an unsigned number, and reading one the
//! way the standard library's `FromStr` for unsigned integers does.

use vstd::prelude::*;

verus! {

/// The character of the decimal digit `d`.
pub open spec fn digit_char(d: int) -> char {
    if d == 0 {
        '0'
    } else if d == 1 {
        '1'
    } else if d == 2 {
        '2'
    } else if d == 3 {
        '3'
    } else if d == 4 {
        '4'
    } else if d == 5 {
        '5'
    } else if d == 6 {
        '6'
    } else if d == 7 {
        '7'
    } else if d == 8 {
        '8'
    } else {
        '9'
    }
}

/// The value of the decimal digit `c`; -1 where `c` is no digit.
pub open spec fn digit_value(c: char) -> int {
    if c == '0' {
        0
    } else if c == '1' {
        1
    } else if c == '2' {
        2
    } else if c == '3' {
        3
    } else if c == '4' {
        4
    } else if c == '5' {
        5
    } else if c == '6' {
        6
    } else if c == '7' {
        7
    } else if c == '8' {
        8
    } else if c == '9' {
        9
    } else {
        -1
    }
}

/// The shortest decimal text of `n`.
pub open spec fn decimal(n: nat) -> Seq<char>
    decreases n,
{
    if n < 10 {
        seq![digit_char(n as int)]
    } else {
        decimal(n / 10).push(digit_char((n % 10) as int))
    }
}

/// Every character of `s` is a decimal digit.
pub open spec fn all_digits(s: Seq<char>) -> bool {
    forall|i: int| 0 <= i < s.len() ==> digit_value(#[trigger] s[i]) >= 0
}

/// The number that the digits of `s` write; leading zeros are allowed.
pub open spec fn digits_value(s: Seq<char>) -> nat
    decreases s.len(),
{
    if s.len() == 0 {
        0
    } else {
        (digits_value(s.drop_last()) * 10 + digit_value(s.last())) as nat
    }
}

/// What reading `s` as an unsigned number of at most `max` gives: an
/// optional `+`, then one digit or more, and a value within the bound.
pub open spec fn parsed(s: Seq<char>, max: nat) -> Option<nat> {
    let body = if s.len() > 0 && s[0] == '+' {
        s.drop_first()
    } else {
        s
    };
    if body.len() > 0 && all_digits(body) && digits_value(body) <= max {
        Some(digits_value(body))
    } else {
        None
    }
}

fn digit(d: u64) -> (c: char)
    requires
        d < 10,
    ensures
        c == digit_char(d as int),
{
    if d == 0 {
        '0'
    } else if d == 1 {
        '1'
    } else if d == 2 {
        '2'
    } else if d == 3 {
        '3'
    } else if d == 4 {
        '4'
    } else if d == 5 {
        '5'
    } else if d == 6 {
        '6'
    } else if d == 7 {
        '7'
    } else if d == 8 {
        '8'
    } else {
        '9'
    }
}

fn value_of(c: char) -> (d: Option<u64>)
    ensures
        d is Some == (digit_value(c) >= 0),
        d matches Some(x) ==> x == digit_value(c) && x < 10,
{
    if c == '0' {
        Some(0)
    } else if c == '1' {
        Some(1)
    } else if c == '2' {
        Some(2)
    } else if c == '3' {
        Some(3)
    } else if c == '4' {
        Some(4)
    } else if c == '5' {
        Some(5)
    } else if c == '6' {
        Some(6)
    } else if c == '7' {
        Some(7)
    } else if c == '8' {
        Some(8)
    } else if c == '9' {
        Some(9)
    } else {
        None
    }
}

/// Appends the decimal text of `n` to `out`.
pub fn push_decimal(out: &mut Vec<char>, n: u64)
    ensures
        final(out)@ == old(out)@ + decimal(n as nat),
    decreases n,
{
    if n >= 10 {
        push_decimal(out, n / 10);
    }
    out.push(digit(n % 10));
    proof {
        let before = old(out)@;
        if n >= 10 {
            assert((before + decimal((n / 10) as nat)).push(digit_char((n % 10) as int)) == before
                + decimal(n as nat));
        } else {
            assert(before.push(digit_char(n as int)) == before + decimal(n as nat));
        }
    }
}

/// The decimal text of `n`.
pub fn to_decimal(n: u64) -> (r: Vec<char>)
    ensures
        r@ == decimal(n as nat),
{
    let mut r: Vec<char> = Vec::new();
    push_decimal(&mut r, n);
    assert(Seq::<char>::empty() + decimal(n as nat) == decimal(n as nat));
    r
}

/// A longer digit string writes no smaller number than its beginning.
pub proof fn lemma_value_grows(s: Seq<char>, k: int)
    requires
        0 <= k <= s.len(),
        all_digits(s),
    ensures
        digits_value(s.subrange(0, k)) <= digits_value(s),
    decreases s.len() - k,
{
    if k < s.len() {
        assert(s.subrange(0, k + 1).drop_last() == s.subrange(0, k));
        assert(digit_value(s[k]) >= 0);
        assert(s.subrange(0, k + 1).last() == s[k]);
        lemma_value_grows(s, k + 1);
    } else {
        assert(s.subrange(0, k) == s);
    }
}

/// Reads `v` as an unsigned decimal number of at most `max`.
pub fn parse_decimal(v: &Vec<char>, max: u64) -> (r: Option<u64>)
    ensures
        r is Some == parsed(v@, max as nat) is Some,
        r matches Some(n) ==> parsed(v@, max as nat) == Some(n as nat),
{
    let start: usize = if v.len() > 0 && v[0] == '+' {
        1
    } else {
        0
    };
    let ghost body = v@.skip(start as int);
    assert(body == if v@.len() > 0 && v@[0] == '+' {
        v@.drop_first()
    } else {
        v@
    });
    if start == v.len() {
        return None;
    }
    let mut acc: u64 = 0;
    let mut i: usize = start;
    assert(body.subrange(0, 0) == Seq::<char>::empty());
    while i < v.len()
        invariant
            start <= i <= v.len(),
            body == v@.skip(start as int),
            body == if v@.len() > 0 && v@[0] == '+' {
                v@.drop_first()
            } else {
                v@
            },
            all_digits(body.subrange(0, i - start)),
            acc == digits_value(body.subrange(0, i - start)),
            acc <= max,
        decreases v.len() - i,
    {
        let ghost k = i - start;
        let ghost head = body.subrange(0, k + 1);
        assert(head.drop_last() == body.subrange(0, k));
        assert(head.last() == v@[i as int]);
        match value_of(v[i]) {
            None => {
                assert(body[k] == v@[i as int]);
                assert(!all_digits(body));
                return None;
            },
            Some(d) => {
                assert(all_digits(head)) by {
                    assert forall|j: int| 0 <= j < head.len() implies digit_value(
                        #[trigger] head[j],
                    ) >= 0 by {
                        if j < k {
                            assert(head[j] == body.subrange(0, k)[j]);
                        }
                    }
                }
                if d > max || acc > (max - d) / 10 {
                    proof {
                        assert(acc * 10 + d > max) by (nonlinear_arith)
                            requires
                                d > max || acc > (max - d) / 10,
                                d < 10,
                                acc >= 0,
                        ;
                        if all_digits(body) {
                            lemma_value_grows(body, k + 1);
                        }
                    }
                    return None;
                }
                assert(acc * 10 + d <= max) by (nonlinear_arith)
                    requires
                        acc <= (max - d) / 10,
                        d <= max,
                ;
                acc = acc * 10 + d;
                i += 1;
            },
        }
    }
    assert(body.subrange(0, body.len() as int) == body);
    Some(acc)
}

/// The decimal text of a number is made of digits and writes that number.
pub proof fn lemma_decimal_value(n: nat)
    ensures
        decimal(n).len() > 0,
        all_digits(decimal(n)),
        digits_value(decimal(n)) == n,
    decreases n,
{
    if n < 10 {
        let s = decimal(n);
        assert(s.drop_last() == Seq::<char>::empty());
        assert(digits_value(s.drop_last()) == 0);
    } else {
        lemma_decimal_value(n / 10);
        let s = decimal(n);
        let t = decimal(n / 10);
        assert(s.drop_last() == t);
        assert forall|i: int| 0 <= i < s.len() implies digit_value(#[trigger] s[i]) >= 0 by {
            if i < t.len() {
                assert(s[i] == t[i]);
            }
        }
    }
}

/// Reading the decimal text of a number within the bound gives the number
/// back.
pub proof fn lemma_decimal_round_trip(n: nat, max: nat)
    requires
        n <= max,
    ensures
        parsed(decimal(n), max) == Some(n),
{
    lemma_decimal_value(n);
    let s = decimal(n);
    assert(digit_value(s[0]) >= 0);
}

} // verus!
