//! One branch of the generated dispatch construct: the lines that describe a
//! single number in the syntax of the target language.
use vstd::prelude::*;
use crate::digits::{calc_len, dec_string, dec_text, lemma_dec_text_len_bound, revert_num};
use crate::layout::{pad_left, spaces, texts};
use crate::place::{calc_digit_name, place_name};
use crate::text::push_char;

verus! {

/// The language of the generated program.
#[derive(Clone, Copy, Debug, PartialEq, Eq, Structural)]
pub enum Lang {
    C,
    CC,
    Rust,
}

/// The pieces of syntax in which the target languages differ.
pub struct Syntax {
    /// Text before the number in a case label.
    pub case_open: &'static str,
    /// Text after the number in a case label.
    pub case_close: &'static str,
    /// Text that opens an output statement.
    pub print_open: &'static str,
    /// Text that closes an output statement.
    pub print_close: &'static str,
    /// The line that ends a branch.
    pub branch_end: &'static str,
}

/// Text before the number in a case label.
pub open spec fn case_open(lang: Lang) -> Seq<char> {
    match lang {
        Lang::Rust => ""@,
        _ => "case "@,
    }
}

/// Text after the number in a case label.
pub open spec fn case_close(lang: Lang) -> Seq<char> {
    match lang {
        Lang::Rust => " => {"@,
        _ => ":"@,
    }
}

/// Text that opens an output statement.
pub open spec fn print_open(lang: Lang) -> Seq<char> {
    match lang {
        Lang::C => "printf(\""@,
        Lang::CC => "cout << \""@,
        Lang::Rust => "println!(\""@,
    }
}

/// Text that closes an output statement.
pub open spec fn print_close(lang: Lang) -> Seq<char> {
    match lang {
        Lang::C => "\\r\\n\");"@,
        Lang::CC => "\" << endl;"@,
        Lang::Rust => "\");"@,
    }
}

/// The line that ends a branch.
pub open spec fn branch_end(lang: Lang) -> Seq<char> {
    match lang {
        Lang::Rust => "}"@,
        _ => "    break;"@,
    }
}

/// The syntax of `lang`.
pub fn syntax(lang: Lang) -> (r: Syntax)
    ensures
        r.case_open@ == case_open(lang),
        r.case_close@ == case_close(lang),
        r.print_open@ == print_open(lang),
        r.print_close@ == print_close(lang),
        r.branch_end@ == branch_end(lang),
{
    match lang {
        Lang::C => Syntax {
            case_open: "case ",
            case_close: ":",
            print_open: "printf(\"",
            print_close: "\\r\\n\");",
            branch_end: "    break;",
        },
        Lang::CC => Syntax {
            case_open: "case ",
            case_close: ":",
            print_open: "cout << \"",
            print_close: "\" << endl;",
            branch_end: "    break;",
        },
        Lang::Rust => Syntax {
            case_open: "",
            case_close: " => {",
            print_open: "println!(\"",
            print_close: "\");",
            branch_end: "}",
        },
    }
}

/// An output statement of `lang` that prints `content`, indented by four spaces.
pub open spec fn statement(lang: Lang, content: Seq<char>) -> Seq<char> {
    spaces(4) + print_open(lang) + content + print_close(lang)
}

/// The case label of the number `i`.
pub open spec fn case_label(lang: Lang, i: nat) -> Seq<char> {
    case_open(lang) + dec_text(i) + case_close(lang)
}

/// What the line on the digit count of `i` prints.
pub open spec fn count_content(i: nat) -> Seq<char> {
    "是个"@ + dec_text(dec_text(i).len()) + "位数"@
}

/// What the line on the digit of `i` at position `j` (1 at the ones place) prints.
pub open spec fn digit_content(i: nat, j: nat) -> Seq<char> {
    place_name(j) + "位数是："@ + seq![dec_text(i)[dec_text(i).len() - j]]
}

/// What the line on the reversed digits of `i` prints.
pub open spec fn reversed_content(i: nat) -> Seq<char> {
    "倒过来是："@ + dec_text(i).reverse()
}

/// The lines of the branch for `i`: its case label, its digit count, each
/// digit from the ones place up with its place value, its digits reversed,
/// and the end of the branch.
pub open spec fn branch_lines(lang: Lang, i: nat) -> Seq<Seq<char>> {
    seq![case_label(lang, i), statement(lang, count_content(i))] + Seq::new(
        dec_text(i).len(),
        |k: int| statement(lang, digit_content(i, (k + 1) as nat)),
    ) + seq![statement(lang, reversed_content(i)), branch_end(lang)]
}

/// The output statement of `syn` that prints `content`, indented by four spaces.
fn print_line(syn: &Syntax, content: String) -> (r: String)
    ensures
        r@ == spaces(4) + syn.print_open@ + content@ + syn.print_close@,
{
    let mut m = String::new();
    m.append(syn.print_open);
    m.append(content.as_str());
    m.append(syn.print_close);
    pad_left(m, 4)
}

/// Appends to `out` the lines of the branch for the positive number `i`.
pub fn push_branch(lang: Lang, i: u64, out: &mut Vec<String>)
    requires
        i >= 1,
    ensures
        texts(final(out)@) == texts(old(out)@) + branch_lines(lang, i as nat),
{
    let syn = syntax(lang);
    let ghost start = out@;
    let ghost digits = dec_text(i as nat);

    let s = dec_string(i);
    let mut label = String::new();
    label.append(syn.case_open);
    label.append(s.as_str());
    label.append(syn.case_close);
    out.push(label);

    let len = calc_len(i);
    let mut content = String::new();
    content.append("是个");
    content.append(dec_string(len).as_str());
    content.append("位数");
    out.push(print_line(&syn, content));

    let n = s.as_str().unicode_len();
    proof {
        if i >= 10 {
            lemma_dec_text_len_bound((i / 10) as nat);
        }
    }
    let mut j: u64 = 1;
    while j <= len
        invariant
            1 <= j <= len + 1,
            len <= i / 10 + 1,
            len as nat == digits.len(),
            n as nat == digits.len(),
            s@ == digits,
            digits == dec_text(i as nat),
            syn.print_open@ == print_open(lang),
            syn.print_close@ == print_close(lang),
            texts(out@) == texts(start) + seq![case_label(lang, i as nat), statement(
                lang,
                count_content(i as nat),
            )] + Seq::new(
                (j - 1) as nat,
                |k: int| statement(lang, digit_content(i as nat, (k + 1) as nat)),
            ),
        decreases len - j + 1,
    {
        let mut content = calc_digit_name(j);
        content.append("位数是：");
        let c = s.as_str().get_char(n - j as usize);
        let mut digit = String::new();
        push_char(&mut digit, c);
        content.append(digit.as_str());
        let line = print_line(&syn, content);
        let ghost before = out@;
        out.push(line);
        proof {
            assert(digit@ =~= seq![digits[digits.len() - j]]);
            assert(texts(out@) =~= texts(before).push(line@));
            assert(texts(out@) =~= texts(start) + seq![case_label(lang, i as nat), statement(
                lang,
                count_content(i as nat),
            )] + Seq::new(
                j as nat,
                |k: int| statement(lang, digit_content(i as nat, (k + 1) as nat)),
            ));
        }
        j = j + 1;
    }

    let mut content = String::new();
    content.append("倒过来是：");
    content.append(revert_num(i).as_str());
    let ghost before = out@;
    out.push(print_line(&syn, content));
    let ghost middle = out@;
    out.push(String::from_str(syn.branch_end));
    proof {
        assert(texts(middle) =~= texts(before).push(statement(lang, reversed_content(i as nat))));
        assert(texts(out@) =~= texts(middle).push(branch_end(lang)));
        assert(texts(out@) =~= texts(start) + branch_lines(lang, i as nat));
    }
}

} // verus!
