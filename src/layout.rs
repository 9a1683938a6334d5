//! Indentation of generated lines and their assembly into one block of text.
use vstd::prelude::*;
use crate::text::push_char;

verus! {

/// `k` spaces.
pub open spec fn spaces(k: nat) -> Seq<char> {
    Seq::new(k, |_i: int| ' ')
}

/// The line terminator of the generated text: a carriage return and a line feed.
pub open spec fn crlf() -> Seq<char> {
    seq!['\r', '\n']
}

/// The texts held by a sequence of strings.
pub open spec fn texts(v: Seq<String>) -> Seq<Seq<char>> {
    v.map_values(|s: String| s@)
}

/// Each line indented by eight spaces and terminated, all joined in order.
pub open spec fn block_text(lines: Seq<Seq<char>>) -> Seq<char>
    decreases lines.len(),
{
    if lines.len() == 0 {
        seq![]
    } else {
        block_text(lines.drop_last()) + spaces(8) + lines.last() + crlf()
    }
}

/// `string` after `num` spaces.
pub fn pad_left(string: String, num: usize) -> (r: String)
    ensures
        r@ == spaces(num as nat) + string@,
{
    let mut m = String::new();
    let mut i: usize = 0;
    while i < num
        invariant
            i <= num,
            m@ == spaces(i as nat),
        decreases num - i,
    {
        push_char(&mut m, ' ');
        i = i + 1;
        assert(m@ =~= spaces(i as nat));
    }
    m.append(string.as_str());
    m
}

/// The lines, each indented by eight spaces and ended by a carriage return
/// and a line feed, joined in order.
pub fn format_very_long(very_long_code: Vec<String>) -> (r: String)
    ensures
        r@ == block_text(texts(very_long_code@)),
{
    let mut out = String::new();
    let mut i: usize = 0;
    while i < very_long_code.len()
        invariant
            i <= very_long_code@.len(),
            out@ == block_text(texts(very_long_code@.subrange(0, i as int))),
        decreases very_long_code@.len() - i,
    {
        let line = pad_left(very_long_code[i].clone(), 8);
        out.append(line.as_str());
        push_char(&mut out, '\r');
        push_char(&mut out, '\n');
        proof {
            let before = very_long_code@.subrange(0, i as int);
            let after = very_long_code@.subrange(0, i + 1);
            assert(texts(after).drop_last() =~= texts(before));
            assert(out@ =~= block_text(texts(after)));
        }
        i = i + 1;
    }
    assert(very_long_code@.subrange(0, i as int) =~= very_long_code@);
    out
}

} // verus!
