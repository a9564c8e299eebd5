//! Decimal text of integers, as sent in MQTT replies.

use vstd::prelude::*;
use vstd::string::*;

verus! {

/// The character of the decimal digit `d` (for `0 <= d < 10`).
pub open spec fn digit_char(d: int) -> char {
    seq!['0', '1', '2', '3', '4', '5', '6', '7', '8', '9'][d]
}

/// The digit that the character `c` stands for (`-1` for a non-digit).
pub open spec fn char_digit(c: char) -> int {
    if c == '0' { 0 }
    else if c == '1' { 1 }
    else if c == '2' { 2 }
    else if c == '3' { 3 }
    else if c == '4' { 4 }
    else if c == '5' { 5 }
    else if c == '6' { 6 }
    else if c == '7' { 7 }
    else if c == '8' { 8 }
    else if c == '9' { 9 }
    else { -1 }
}

/// The digits of `n` in base ten, most significant first, without leading zeros.
pub open spec fn digits_text(n: nat) -> Seq<char>
    decreases n,
{
    if n < 10 {
        seq![digit_char(n as int)]
    } else {
        digits_text(n / 10).push(digit_char((n % 10) as int))
    }
}

/// The decimal text of `n`: its digits, after a `-` when `n` is negative.
pub open spec fn decimal_text(n: int) -> Seq<char> {
    if n < 0 {
        seq!['-'] + digits_text((-n) as nat)
    } else {
        digits_text(n as nat)
    }
}

/// The number that a string of decimal digits stands for.
pub open spec fn digits_value(s: Seq<char>) -> int
    decreases s.len(),
{
    if s.len() == 0 {
        0
    } else {
        digits_value(s.drop_last()) * 10 + char_digit(s.last())
    }
}

/// The number that a decimal text stands for.
pub open spec fn decimal_value(s: Seq<char>) -> int {
    if s.len() > 0 && s[0] == '-' {
        -digits_value(s.drop_first())
    } else {
        digits_value(s)
    }
}

proof fn lemma_digit_char(d: int)
    requires
        0 <= d < 10,
    ensures
        char_digit(digit_char(d)) == d,
        digit_char(d) != '-',
{
    let t = seq!['0', '1', '2', '3', '4', '5', '6', '7', '8', '9'];
    assert(t[0] == '0' && t[1] == '1' && t[2] == '2' && t[3] == '3' && t[4] == '4');
    assert(t[5] == '5' && t[6] == '6' && t[7] == '7' && t[8] == '8' && t[9] == '9');
}

proof fn lemma_digits_text_value(n: nat)
    ensures
        digits_value(digits_text(n)) == n,
        digits_text(n).len() > 0,
        digits_text(n)[0] != '-',
    decreases n,
{
    if n >= 10 {
        lemma_digits_text_value(n / 10);
        lemma_digit_char((n % 10) as int);
        let s = digits_text(n);
        assert(s.drop_last() =~= digits_text(n / 10));
        assert(s.last() == digit_char((n % 10) as int));
        assert(digits_value(s) == digits_value(s.drop_last()) * 10 + char_digit(s.last()));
    } else {
        lemma_digit_char(n as int);
        let s = digits_text(n);
        assert(s.drop_last() =~= Seq::<char>::empty());
        assert(digits_value(Seq::<char>::empty()) == 0);
        assert(digits_value(s) == digits_value(s.drop_last()) * 10 + char_digit(s.last()));
    }
}

/// Reading the decimal text of a number gives the number back.
pub proof fn lemma_decimal_roundtrip(n: int)
    ensures
        decimal_value(decimal_text(n)) == n,
{
    if n < 0 {
        lemma_digits_text_value((-n) as nat);
        assert((seq!['-'] + digits_text((-n) as nat)).drop_first() =~= digits_text((-n) as nat));
    } else {
        lemma_digits_text_value(n as nat);
    }
}

/// Two numbers with the same decimal text are equal: a decimal reply names
/// exactly one number.
pub proof fn lemma_decimal_text_injective(a: int, b: int)
    requires
        decimal_text(a) == decimal_text(b),
    ensures
        a == b,
{
    lemma_decimal_roundtrip(a);
    lemma_decimal_roundtrip(b);
}

/// Whether `c` is one of the characters `0` to `9`.
pub open spec fn is_digit_char(c: char) -> bool {
    '0' <= c && c <= '9'
}

proof fn lemma_digits_text_canonical(n: nat)
    ensures
        digits_text(n).len() > 0,
        forall|i: int| 0 <= i < digits_text(n).len() ==> is_digit_char(#[trigger] digits_text(n)[i]),
        digits_text(n)[0] == '0' ==> n == 0,
        n == 0 ==> digits_text(n) == seq!['0'],
    decreases n,
{
    let t = seq!['0', '1', '2', '3', '4', '5', '6', '7', '8', '9'];
    assert(t[0] == '0' && t[1] == '1' && t[2] == '2' && t[3] == '3' && t[4] == '4');
    assert(t[5] == '5' && t[6] == '6' && t[7] == '7' && t[8] == '8' && t[9] == '9');
    assert forall|d: int| 0 <= d < 10 implies is_digit_char(#[trigger] digit_char(d)) by {}
    if n >= 10 {
        lemma_digits_text_canonical(n / 10);
        let s = digits_text(n);
        assert(s == digits_text(n / 10).push(digit_char((n % 10) as int)));
        assert forall|i: int| 0 <= i < s.len() implies is_digit_char(#[trigger] s[i]) by {
            if i < s.len() - 1 {
                assert(s[i] == digits_text(n / 10)[i]);
            }
        }
        assert(s[0] == digits_text(n / 10)[0]);
    }
}

/// The decimal text of a number is what `to_string` writes: for `n >= 0`,
/// only the characters `0` to `9`, never empty, and starting with `0` only
/// when it is the text `0` of zero; for `n < 0`, a `-` followed by such a
/// text of `-n`, whose first digit is not `0`.
pub proof fn lemma_decimal_text_canonical(n: int)
    ensures
        n >= 0 ==> {
            let s = decimal_text(n);
            &&& s.len() > 0
            &&& forall|i: int| 0 <= i < s.len() ==> is_digit_char(#[trigger] s[i])
            &&& (s[0] == '0' <==> n == 0)
            &&& n == 0 ==> s == seq!['0']
        },
        n < 0 ==> {
            let s = decimal_text(n);
            &&& s.len() > 1
            &&& s[0] == '-'
            &&& forall|i: int| 1 <= i < s.len() ==> is_digit_char(#[trigger] s[i])
            &&& s[1] != '0'
        },
{
    if n >= 0 {
        lemma_digits_text_canonical(n as nat);
    } else {
        let m = (-n) as nat;
        lemma_digits_text_canonical(m);
        let s = decimal_text(n);
        assert(s == seq!['-'] + digits_text(m));
        assert forall|i: int| 1 <= i < s.len() implies is_digit_char(#[trigger] s[i]) by {
            assert(s[i] == digits_text(m)[i - 1]);
        }
        assert(s[1] == digits_text(m)[0]);
    }
}

fn digit_str(d: u64) -> (res: &'static str)
    requires
        d < 10,
    ensures
        res@ == seq![digit_char(d as int)],
{
    if d == 0 {
        proof { reveal_strlit("0"); }
        "0"
    } else if d == 1 {
        proof { reveal_strlit("1"); }
        "1"
    } else if d == 2 {
        proof { reveal_strlit("2"); }
        "2"
    } else if d == 3 {
        proof { reveal_strlit("3"); }
        "3"
    } else if d == 4 {
        proof { reveal_strlit("4"); }
        "4"
    } else if d == 5 {
        proof { reveal_strlit("5"); }
        "5"
    } else if d == 6 {
        proof { reveal_strlit("6"); }
        "6"
    } else if d == 7 {
        proof { reveal_strlit("7"); }
        "7"
    } else if d == 8 {
        proof { reveal_strlit("8"); }
        "8"
    } else {
        proof { reveal_strlit("9"); }
        "9"
    }
}

fn append_digits(s: &mut String, m: u64)
    ensures
        final(s)@ == old(s)@ + digits_text(m as nat),
    decreases m,
{
    if m >= 10 {
        append_digits(s, m / 10);
    }
    s.append(digit_str(m % 10));
    proof {
        if m >= 10 {
            assert(digits_text(m as nat) == digits_text((m / 10) as nat).push(digit_char((m % 10) as int)));
        }
    }
}

/// The decimal text of `n` (what `n.to_string()` gives).
pub fn decimal_string(n: i64) -> (res: String)
    ensures
        res@ == decimal_text(n as int),
        n >= 0 ==> forall|i: int| 0 <= i < res@.len() ==> is_digit_char(#[trigger] res@[i]),
        n >= 0 ==> (res@.len() > 0 && (res@[0] == '0' <==> n == 0)),
{
    proof { lemma_decimal_text_canonical(n as int); }
    let mut s = String::new();
    if n < 0 {
        proof { reveal_strlit("-"); }
        s.append("-");
        let m: u64 = ((-(n + 1)) as u64) + 1;
        append_digits(&mut s, m);
    } else {
        append_digits(&mut s, n as u64);
    }
    s
}

} // verus!
