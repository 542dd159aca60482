use vstd::prelude::*;

verus! {

/// The character of a decimal digit.
pub open spec fn digit_char(d: nat) -> char {
    if d == 0 { '0' }
    else if d == 1 { '1' }
    else if d == 2 { '2' }
    else if d == 3 { '3' }
    else if d == 4 { '4' }
    else if d == 5 { '5' }
    else if d == 6 { '6' }
    else if d == 7 { '7' }
    else if d == 8 { '8' }
    else { '9' }
}

/// The decimal representation of `n`, most significant digit first, with
/// no leading zero.
pub open spec fn decimal(n: nat) -> Seq<char>
    decreases n,
{
    if n < 10 {
        seq![digit_char(n)]
    } else {
        decimal(n / 10).push(digit_char(n % 10))
    }
}

fn digit_str(d: u32) -> (s: &'static str)
    requires
        d < 10,
    ensures
        s@ == seq![digit_char(d as nat)],
{
    if d == 0 {
        proof { reveal_strlit("0"); }
        "0"
    } else if d == 1 {
        proof { reveal_strlit("1"); }
        "1"
    } else if d == 2 {
        proof { reveal_strlit("2"); }
        "2"
    } else if d == 3 {
        proof { reveal_strlit("3"); }
        "3"
    } else if d == 4 {
        proof { reveal_strlit("4"); }
        "4"
    } else if d == 5 {
        proof { reveal_strlit("5"); }
        "5"
    } else if d == 6 {
        proof { reveal_strlit("6"); }
        "6"
    } else if d == 7 {
        proof { reveal_strlit("7"); }
        "7"
    } else if d == 8 {
        proof { reveal_strlit("8"); }
        "8"
    } else {
        proof { reveal_strlit("9"); }
        "9"
    }
}

/// Appends the decimal representation of `n` to `s`.
pub fn append_decimal(s: &mut String, n: u32)
    ensures
        final(s)@ == old(s)@ + decimal(n as nat),
    decreases n,
{
    if n >= 10 {
        append_decimal(s, n / 10);
    }
    let d = digit_str(n % 10);
    s.append(d);
    proof {
        assert(old(s)@ + decimal(n as nat) =~= old(s)@ + decimal((n / 10) as nat) + seq![digit_char((n % 10) as nat)]
            || n < 10);
    }
}

/// The decimal representation of `n` as a string (`n.to_string()`).
pub fn decimal_string(n: u32) -> (s: String)
    ensures
        s@ == decimal(n as nat),
{
    let mut s = String::new();
    append_decimal(&mut s, n);
    assert(s@ =~= decimal(n as nat));
    s
}

/// The concatenation of a prefix and the decimal representation of `n`.
pub fn prefixed_decimal(prefix: &str, n: u32) -> (s: String)
    ensures
        s@ == prefix@ + decimal(n as nat),
{
    let mut s = String::from_str(prefix);
    append_decimal(&mut s, n);
    s
}

/// The decimal representation of a number of two or more digits is at
/// least two characters long.
proof fn lemma_decimal_len(n: nat)
    ensures
        decimal(n).len() >= 1,
        n >= 10 ==> decimal(n).len() >= 2,
    decreases n,
{
    if n >= 10 {
        lemma_decimal_len(n / 10);
    }
}

/// A decimal representation starts with a digit.
pub proof fn lemma_decimal_starts_with_digit(n: nat)
    ensures
        decimal(n).len() >= 1,
        decimal(n)[0] == digit_char((decimal_first(n)) as nat),
    decreases n,
{
    lemma_decimal_len(n);
    if n >= 10 {
        lemma_decimal_starts_with_digit(n / 10);
        lemma_decimal_len(n / 10);
        assert(decimal(n)[0] == decimal(n / 10)[0]);
    }
}

/// The leading digit of `n`.
pub open spec fn decimal_first(n: nat) -> nat
    decreases n,
{
    if n < 10 { n } else { decimal_first(n / 10) }
}

/// Law: distinct numbers have distinct decimal representations.
pub proof fn lemma_decimal_injective(n: nat, m: nat)
    ensures
        decimal(n) == decimal(m) ==> n == m,
    decreases n,
{
    lemma_decimal_len(n);
    lemma_decimal_len(m);
    if decimal(n) == decimal(m) {
        if n < 10 && m < 10 {
            assert(decimal(n)[0] == decimal(m)[0]);
        } else if n >= 10 && m >= 10 {
            assert(decimal(n).last() == digit_char(n % 10));
            assert(decimal(m).last() == digit_char(m % 10));
            assert(decimal(n / 10) =~= decimal(n).drop_last());
            assert(decimal(m / 10) =~= decimal(m).drop_last());
            lemma_decimal_injective(n / 10, m / 10);
        }
    }
}

/// Law: names made of one prefix and distinct numbers are distinct.
pub proof fn lemma_prefixed_decimal_injective(prefix: Seq<char>, n: nat, m: nat)
    ensures
        prefix + decimal(n) == prefix + decimal(m) ==> n == m,
{
    if prefix + decimal(n) == prefix + decimal(m) {
        assert(decimal(n) =~= (prefix + decimal(n)).skip(prefix.len() as int));
        assert(decimal(m) =~= (prefix + decimal(m)).skip(prefix.len() as int));
        lemma_decimal_injective(n, m);
    }
}

} // verus!
