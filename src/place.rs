//! Names of decimal place values: a unit for each of the first four places,
//! a ten-thousand unit repeated every fourth place and a hundred-million unit
//! every eighth.
use vstd::prelude::*;
use crate::text::push_char;

verus! {

/// The unit of the ones place.
pub open spec fn ones_unit() -> char {
    '个'
}

/// The unit that groups four places.
pub open spec fn ten_thousand_unit() -> char {
    '万'
}

/// The unit that groups eight places.
pub open spec fn hundred_million_unit() -> char {
    '亿'
}

/// The label of position `r` (1 to 4) inside a group of four places; the
/// ones place has none.
pub open spec fn base_label(r: nat) -> Seq<char> {
    if r <= 1 {
        seq![]
    } else if r == 2 {
        seq!['十']
    } else if r == 3 {
        seq!['百']
    } else {
        seq!['千']
    }
}

/// The label of position `j`, before the ones place gets its own unit.
pub open spec fn group_label(j: nat) -> Seq<char>
    decreases j,
{
    if j > 8 {
        group_label((j - 8) as nat).push(hundred_million_unit())
    } else if j > 4 {
        group_label((j - 4) as nat).push(ten_thousand_unit())
    } else {
        base_label(j)
    }
}

/// The name of the place value of position `j`, counted from 1 at the ones place.
pub open spec fn place_name(j: nat) -> Seq<char> {
    if group_label(j).len() == 0 {
        seq![ones_unit()]
    } else {
        group_label(j)
    }
}

/// `k` copies of the character `c`.
pub open spec fn repeat_char(c: char, k: nat) -> Seq<char> {
    Seq::new(k, |_i: int| c)
}

/// The name of the place value of the 1-based digit position `num`.
pub fn calc_digit_name(num: u64) -> (r: String)
    requires
        num >= 1,
    ensures
        r@ == place_name(num as nat),
{
    let mut rest: u64 = num;
    let mut hundred_millions: u64 = 0;
    while rest > 8
        invariant
            1 <= rest <= num,
            8 * hundred_millions + rest <= num,
            group_label(num as nat) == group_label(rest as nat) + repeat_char(
                hundred_million_unit(),
                hundred_millions as nat,
            ),
        decreases rest,
    {
        assert(group_label(rest as nat) + repeat_char(hundred_million_unit(), hundred_millions as nat)
            =~= group_label((rest - 8) as nat) + repeat_char(
            hundred_million_unit(),
            (hundred_millions + 1) as nat,
        ));
        rest = rest - 8;
        hundred_millions = hundred_millions + 1;
    }
    let ghost upper = rest;
    let mut ten_thousands: u64 = 0;
    while rest > 4
        invariant
            1 <= rest <= upper <= 8,
            4 * ten_thousands + rest <= upper,
            group_label(upper as nat) == group_label(rest as nat) + repeat_char(
                ten_thousand_unit(),
                ten_thousands as nat,
            ),
        decreases rest,
    {
        assert(group_label(rest as nat) + repeat_char(ten_thousand_unit(), ten_thousands as nat)
            =~= group_label((rest - 4) as nat) + repeat_char(
            ten_thousand_unit(),
            (ten_thousands + 1) as nat,
        ));
        rest = rest - 4;
        ten_thousands = ten_thousands + 1;
    }
    let mut out = String::new();
    if rest == 2 {
        push_char(&mut out, '十');
    } else if rest == 3 {
        push_char(&mut out, '百');
    } else if rest == 4 {
        push_char(&mut out, '千');
    }
    assert(out@ =~= base_label(rest as nat));
    let mut i: u64 = 0;
    while i < ten_thousands
        invariant
            i <= ten_thousands,
            out@ == base_label(rest as nat) + repeat_char(ten_thousand_unit(), i as nat),
        decreases ten_thousands - i,
    {
        push_char(&mut out, '万');
        i = i + 1;
        assert(out@ =~= base_label(rest as nat) + repeat_char(ten_thousand_unit(), i as nat));
    }
    assert(out@ == group_label(upper as nat));
    let mut i: u64 = 0;
    while i < hundred_millions
        invariant
            i <= hundred_millions,
            out@ == group_label(upper as nat) + repeat_char(hundred_million_unit(), i as nat),
        decreases hundred_millions - i,
    {
        push_char(&mut out, '亿');
        i = i + 1;
        assert(out@ =~= group_label(upper as nat) + repeat_char(
            hundred_million_unit(),
            i as nat,
        ));
    }
    assert(out@ == group_label(num as nat));
    if out.as_str().unicode_len() == 0 {
        push_char(&mut out, '个');
        assert(out@ =~= seq![ones_unit()]);
    }
    out
}

/// The first four places are named by the fixed base units: ones, tens,
/// hundreds and thousands.
pub proof fn lemma_first_group_names(j: nat)
    requires
        1 <= j <= 4,
    ensures
        place_name(j) == seq![ones_unit()] || place_name(j) == seq!['十'] || place_name(j)
            == seq!['百'] || place_name(j) == seq!['千'],
        j == 1 ==> place_name(j) == seq![ones_unit()],
        j == 2 ==> place_name(j) == seq!['十'],
        j == 3 ==> place_name(j) == seq!['百'],
        j == 4 ==> place_name(j) == seq!['千'],
{
}

/// Places five to eight carry the ten-thousand unit after the name of the
/// place four lower; the fifth place, four above the ones, is the unit alone.
pub proof fn lemma_ten_thousand_group_names(j: nat)
    requires
        5 <= j <= 8,
    ensures
        j == 5 ==> place_name(j) == seq![ten_thousand_unit()],
        j > 5 ==> place_name(j) == place_name((j - 4) as nat).push(ten_thousand_unit()),
{
    assert(group_label((j - 4) as nat) == base_label((j - 4) as nat));
    assert(group_label(j) == base_label((j - 4) as nat).push(ten_thousand_unit()));
    if j == 5 {
        assert(base_label(1) =~= Seq::<char>::empty());
        assert(place_name(j) =~= seq![ten_thousand_unit()]);
    }
}

/// Places nine to twelve carry the hundred-million unit after the name of the
/// place eight lower; the ninth place, eight above the ones, is the unit alone.
pub proof fn lemma_hundred_million_group_names(j: nat)
    requires
        9 <= j <= 12,
    ensures
        j == 9 ==> place_name(j) == seq![hundred_million_unit()],
        j > 9 ==> place_name(j) == place_name((j - 8) as nat).push(hundred_million_unit()),
{
    assert(group_label((j - 8) as nat) == base_label((j - 8) as nat));
    assert(group_label(j) == base_label((j - 8) as nat).push(hundred_million_unit()));
    if j == 9 {
        assert(base_label(1) =~= Seq::<char>::empty());
        assert(place_name(j) =~= seq![hundred_million_unit()]);
    }
}

} // verus!
