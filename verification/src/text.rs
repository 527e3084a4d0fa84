//! Small verified helpers for building and reading text.

use vstd::prelude::*;

verus! {

/// The character of a decimal digit `d < 10`.
pub open spec fn digit_char(d: nat) -> char {
    if d == 0 {
        '0'
    } else if d == 1 {
        '1'
    } else if d == 2 {
        '2'
    } else if d == 3 {
        '3'
    } else if d == 4 {
        '4'
    } else if d == 5 {
        '5'
    } else if d == 6 {
        '6'
    } else if d == 7 {
        '7'
    } else if d == 8 {
        '8'
    } else {
        '9'
    }
}

/// The decimal numeral of `n`, most significant digit first, without
/// leading zeros.
pub open spec fn decimal_digits(n: nat) -> Seq<char>
    decreases n,
{
    if n < 10 {
        seq![digit_char(n)]
    } else {
        decimal_digits(n / 10).push(digit_char(n % 10))
    }
}

/// The number of digits in the decimal numeral of `n`.
pub open spec fn decimal_width(n: nat) -> nat
    decreases n,
{
    if n < 10 {
        1
    } else {
        decimal_width(n / 10) + 1
    }
}

/// The numeral of `n` has `decimal_width(n)` digits.
pub proof fn lemma_decimal_len(n: nat)
    ensures
        decimal_digits(n).len() == decimal_width(n),
        1 <= decimal_width(n),
    decreases n,
{
    if n >= 10 {
        lemma_decimal_len(n / 10);
    }
}

/// A larger number has no shorter numeral.
pub proof fn lemma_decimal_width_monotonic(a: nat, b: nat)
    requires
        a <= b,
    ensures
        decimal_width(a) <= decimal_width(b),
    decreases b,
{
    if a >= 10 {
        lemma_decimal_width_monotonic(a / 10, b / 10);
    }
}

/// The characters of `s`, in order.
pub fn to_chars(s: &str) -> (v: Vec<char>)
    ensures
        v@ == s@,
{
    let mut v: Vec<char> = Vec::new();
    for c in it: s.chars()
        invariant
            v@ == s@.take(it.index() as int),
            it.seq() == s@,
    {
        v.push(c);
    }
    v
}

/// `String::push`: afterwards the string is what it was, with `c` at its
/// end.
#[verifier::external_body]
pub(crate) fn push_char(s: &mut String, c: char)
    ensures
        final(s)@ == old(s)@.push(c),
{
    s.push(c)
}

/// Appends the characters `chars[from..to]` to `out`.
pub fn push_chars(out: &mut String, chars: &Vec<char>, from: usize, to: usize)
    requires
        from <= to <= chars.len(),
    ensures
        final(out)@ == old(out)@ + chars@.subrange(from as int, to as int),
{
    let mut i: usize = from;
    while i < to
        invariant
            from <= i <= to <= chars.len(),
            out@ == old(out)@ + chars@.subrange(from as int, i as int),
        decreases to - i,
    {
        push_char(out, chars[i]);
        i += 1;
        assert(chars@.subrange(from as int, i as int) == chars@.subrange(
            from as int,
            i - 1,
        ).push(chars@[i - 1]));
    }
}

/// The character of the decimal digit `d`.
pub fn digit(d: usize) -> (c: char)
    requires
        d < 10,
    ensures
        c == digit_char(d as nat),
{
    if d == 0 {
        '0'
    } else if d == 1 {
        '1'
    } else if d == 2 {
        '2'
    } else if d == 3 {
        '3'
    } else if d == 4 {
        '4'
    } else if d == 5 {
        '5'
    } else if d == 6 {
        '6'
    } else if d == 7 {
        '7'
    } else if d == 8 {
        '8'
    } else {
        '9'
    }
}

/// Appends the decimal numeral of `n` to `out`.
pub fn push_decimal(out: &mut String, n: usize)
    ensures
        final(out)@ == old(out)@ + decimal_digits(n as nat),
    decreases n,
{
    if n >= 10 {
        push_decimal(out, n / 10);
    }
    push_char(out, digit(n % 10));
    assert(out@ =~= old(out)@ + decimal_digits(n as nat));
}

/// The number of digits in the decimal numeral of `n`.
pub fn decimal_len(n: usize) -> (w: usize)
    ensures
        w == decimal_width(n as nat),
{
    let mut w: usize = 1;
    let mut rest: usize = n;
    while rest >= 10
        invariant
            decimal_width(n as nat) == decimal_width(rest as nat) + w - 1,
            1 <= w,
            w + rest <= n + 1,
        decreases rest,
    {
        rest = rest / 10;
        w += 1;
    }
    w
}

/// The upper-case character of a hexadecimal digit `d < 16`.
pub open spec fn upper_hex_char(d: nat) -> char {
    if d < 10 {
        digit_char(d)
    } else if d == 10 {
        'A'
    } else if d == 11 {
        'B'
    } else if d == 12 {
        'C'
    } else if d == 13 {
        'D'
    } else if d == 14 {
        'E'
    } else {
        'F'
    }
}

/// The upper-case hexadecimal numeral of `n`, without leading zeros.
pub open spec fn upper_hex_digits(n: nat) -> Seq<char>
    decreases n,
{
    if n < 16 {
        seq![upper_hex_char(n)]
    } else {
        upper_hex_digits(n / 16).push(upper_hex_char(n % 16))
    }
}

/// The number of digits in the hexadecimal numeral of `n`.
pub open spec fn hex_width(n: nat) -> nat
    decreases n,
{
    if n < 16 {
        1
    } else {
        hex_width(n / 16) + 1
    }
}

/// The character `c`, `count` times.
pub open spec fn repeated(c: char, count: nat) -> Seq<char> {
    Seq::new(count, |i: int| c)
}

/// How many characters a text of `have` characters lacks to fill `width`.
pub open spec fn shortfall(width: nat, have: nat) -> nat {
    if width > have {
        (width - have) as nat
    } else {
        0
    }
}

/// The upper-case hexadecimal numeral of `n`, filled up with leading zeros
/// to at least `width` digits.
pub open spec fn upper_hex_padded(n: nat, width: nat) -> Seq<char> {
    repeated('0', shortfall(width, hex_width(n))) + upper_hex_digits(n)
}

/// Appends the character `c` to `out`, `count` times.
pub fn push_repeated(out: &mut String, c: char, count: usize)
    ensures
        final(out)@ == old(out)@ + repeated(c, count as nat),
{
    let mut i: usize = 0;
    while i < count
        invariant
            i <= count,
            out@ == old(out)@ + repeated(c, i as nat),
        decreases count - i,
    {
        push_char(out, c);
        i += 1;
        assert(out@ =~= old(out)@ + repeated(c, i as nat));
    }
    assert(out@ =~= old(out)@ + repeated(c, count as nat));
}

/// The upper-case character of the hexadecimal digit `d`.
pub fn upper_hex_digit(d: usize) -> (c: char)
    requires
        d < 16,
    ensures
        c == upper_hex_char(d as nat),
{
    if d < 10 {
        digit(d)
    } else if d == 10 {
        'A'
    } else if d == 11 {
        'B'
    } else if d == 12 {
        'C'
    } else if d == 13 {
        'D'
    } else if d == 14 {
        'E'
    } else {
        'F'
    }
}

/// Appends the upper-case hexadecimal numeral of `n` to `out`.
pub fn push_upper_hex(out: &mut String, n: usize)
    ensures
        final(out)@ == old(out)@ + upper_hex_digits(n as nat),
    decreases n,
{
    if n >= 16 {
        push_upper_hex(out, n / 16);
    }
    push_char(out, upper_hex_digit(n % 16));
    assert(out@ =~= old(out)@ + upper_hex_digits(n as nat));
}

/// The number of digits in the hexadecimal numeral of `n`.
pub fn hex_len(n: usize) -> (w: usize)
    ensures
        w == hex_width(n as nat),
{
    let mut w: usize = 1;
    let mut rest: usize = n;
    while rest >= 16
        invariant
            hex_width(n as nat) == hex_width(rest as nat) + w - 1,
            1 <= w,
            w + rest <= n + 1,
        decreases rest,
    {
        rest = rest / 16;
        w += 1;
    }
    w
}

/// Appends the upper-case hexadecimal numeral of `n` to `out`, filled up
/// with leading zeros to at least `width` digits.
pub fn push_upper_hex_padded(out: &mut String, n: usize, width: usize)
    ensures
        final(out)@ == old(out)@ + upper_hex_padded(n as nat, width as nat),
{
    let len: usize = hex_len(n);
    let pad: usize = if width > len {
        width - len
    } else {
        0
    };
    push_repeated(out, '0', pad);
    push_upper_hex(out, n);
    assert(out@ =~= old(out)@ + upper_hex_padded(n as nat, width as nat));
}

} // verus!
