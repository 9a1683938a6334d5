//! Decimal text of an integer: its digit count and its reversal.
use vstd::prelude::*;
use crate::text::{push_char, reverse_str, lemma_reverse_reverse};

verus! {

/// The character of a decimal digit.
pub open spec fn digit_char(d: nat) -> char {
    if d == 0 { '0' }
    else if d == 1 { '1' }
    else if d == 2 { '2' }
    else if d == 3 { '3' }
    else if d == 4 { '4' }
    else if d == 5 { '5' }
    else if d == 6 { '6' }
    else if d == 7 { '7' }
    else if d == 8 { '8' }
    else { '9' }
}

/// The decimal text of `n`, most significant digit first, without leading zeros.
pub open spec fn dec_text(n: nat) -> Seq<char>
    decreases n,
{
    if n < 10 {
        seq![digit_char(n)]
    } else {
        dec_text(n / 10).push(digit_char(n % 10))
    }
}

/// Every decimal text has at least one character.
pub proof fn lemma_dec_text_nonempty(n: nat)
    ensures
        dec_text(n).len() >= 1,
    decreases n,
{
    if n >= 10 {
        lemma_dec_text_nonempty(n / 10);
    }
}

/// A positive number has no more digits than its value.
pub proof fn lemma_dec_text_len_bound(n: nat)
    requires
        n >= 1,
    ensures
        dec_text(n).len() <= n,
    decreases n,
{
    if n >= 10 {
        lemma_dec_text_len_bound(n / 10);
    }
}

/// The character of the digit `d`.
pub fn digit_to_char(d: u64) -> (c: char)
    requires
        d < 10,
    ensures
        c == digit_char(d as nat),
{
    if d == 0 { '0' }
    else if d == 1 { '1' }
    else if d == 2 { '2' }
    else if d == 3 { '3' }
    else if d == 4 { '4' }
    else if d == 5 { '5' }
    else if d == 6 { '6' }
    else if d == 7 { '7' }
    else if d == 8 { '8' }
    else { '9' }
}

/// The number of decimal digits of `num`; zero has none.
pub fn calc_len(num: u64) -> (r: u64)
    ensures
        num > 0 ==> r as nat == dec_text(num as nat).len(),
        num == 0 ==> r == 0,
{
    let mut rest: u64 = num;
    let mut count: u64 = 0;
    proof {
        if num > 0 {
            lemma_dec_text_len_bound(num as nat);
        }
    }
    while rest > 0
        invariant
            num == 0 ==> count == 0 && rest == 0,
            num > 0 && rest > 0 ==> dec_text(num as nat).len() == dec_text(rest as nat).len()
                + count,
            num > 0 && rest == 0 ==> count as nat == dec_text(num as nat).len(),
            num > 0 ==> dec_text(num as nat).len() <= num,
        decreases rest,
    {
        proof {
            lemma_dec_text_nonempty(rest as nat);
            if rest >= 10 {
                lemma_dec_text_nonempty((rest / 10) as nat);
            }
        }
        rest = rest / 10;
        count = count + 1;
    }
    count
}

/// The decimal digits of `n`, least significant first.
pub open spec fn rev_text(n: nat) -> Seq<char>
    decreases n,
{
    if n < 10 {
        seq![digit_char(n)]
    } else {
        seq![digit_char(n % 10)] + rev_text(n / 10)
    }
}

/// Reading the digits least significant first is reversing the decimal text.
pub proof fn lemma_rev_text(n: nat)
    ensures
        rev_text(n) == dec_text(n).reverse(),
    decreases n,
{
    if n >= 10 {
        lemma_rev_text(n / 10);
        let t = dec_text(n / 10);
        assert(t.push(digit_char(n % 10)).reverse() =~= seq![digit_char(n % 10)] + t.reverse());
    } else {
        assert(seq![digit_char(n)].reverse() =~= seq![digit_char(n)]);
    }
}

/// The decimal text of `num` read backwards.
pub fn revert_num(num: u64) -> (r: String)
    ensures
        r@ == dec_text(num as nat).reverse(),
{
    let mut out = String::new();
    let mut rest: u64 = num;
    loop
        invariant_except_break
            out@ + rev_text(rest as nat) == rev_text(num as nat),
        ensures
            out@ == rev_text(num as nat),
        decreases rest,
    {
        let c = digit_to_char(rest % 10);
        push_char(&mut out, c);
        if rest < 10 {
            break;
        }
        assert(out@ + rev_text((rest / 10) as nat) =~= rev_text(num as nat));
        rest = rest / 10;
    }
    proof {
        lemma_rev_text(num as nat);
    }
    out
}

/// The decimal text of `num`.
pub fn dec_string(num: u64) -> (r: String)
    ensures
        r@ == dec_text(num as nat),
{
    let backwards = revert_num(num);
    let r = reverse_str(backwards.as_str());
    proof {
        lemma_reverse_reverse(dec_text(num as nat));
    }
    r
}

/// Reversing the reversed decimal text of a number gives back its decimal text.
pub proof fn lemma_revert_twice(n: nat)
    ensures
        dec_text(n).reverse().reverse() == dec_text(n),
{
    lemma_reverse_reverse(dec_text(n));
}

} // verus!
