//! The whole generated program: a language-specific skeleton around a
//! dispatch construct with one branch for every number of at most a given
//! count of digits.
use vstd::prelude::*;
use crate::branch::{Lang, branch_lines, push_branch};
use crate::digits::{dec_string, dec_text};
use crate::layout::{block_text, format_very_long, texts};

verus! {

/// Ten to the power `n`.
pub open spec fn pow10(n: nat) -> nat
    decreases n,
{
    if n == 0 {
        1
    } else {
        10 * pow10((n - 1) as nat)
    }
}

/// The lines of the branches for the numbers from 1 up to, not including, `k`.
pub open spec fn all_branch_lines(lang: Lang, k: nat) -> Seq<Seq<char>>
    decreases k,
{
    if k <= 1 {
        seq![]
    } else {
        all_branch_lines(lang, (k - 1) as nat) + branch_lines(lang, (k - 1) as nat)
    }
}

/// The program text before the branches: what it brings in, its entry point,
/// its prompt naming the digit count `n`, how it reads a number, and the
/// opening of its dispatch construct.
pub open spec fn header(lang: Lang, n: Seq<char>) -> Seq<char> {
    match lang {
        Lang::C => "#include <stdio.h>\nint main () {\n    printf(\"请输入一个不多于"@ + n
            + "位的正整数：\\r\\n\");\n    int x;\n    scanf(\"%d\", &x);\n    switch (x) {\n"@,
        Lang::CC => "#include <iostream>\nusing namespace std;\nint main () {\n    cout << \"请输入一个不多于"@
            + n + "位的正整数：\" << endl;\n    int x;\n    cin >> x;\n    switch (x) {\n"@,
        Lang::Rust => "use std::io;\nuse std::error::Error;\nfn main () -> Result<(), Box<dyn Error>> {\n    println!(\"请输入一个不多于"@
            + n + "位的正整数：\");\n    let mut x = String::new();\n    io::stdin().read_line(&mut x)?;\n    let num = x.trim().parse::<u32>()?;\n    match num {\n"@,
    }
}

/// The program text after the branches: the fallback arm where the language
/// needs one, and the closing of the dispatch construct and of the program.
pub open spec fn footer(lang: Lang) -> Seq<char> {
    match lang {
        Lang::Rust => "        _ => ()\n    }\n    Ok(())\n}"@,
        _ => "    }\n}"@,
    }
}

/// The program in `lang` that answers every number of at most `n` digits.
pub open spec fn program(lang: Lang, n: nat) -> Seq<char> {
    header(lang, dec_text(n)) + block_text(all_branch_lines(lang, pow10(n))) + footer(lang)
}

/// Ten to the power `n`, for an `n` whose power fits in 64 bits.
pub fn pow10_u64(n: u32) -> (r: u64)
    requires
        n <= 19,
    ensures
        r as nat == pow10(n as nat),
        r >= 1,
{
    proof {
        reveal_with_fuel(pow10, 19);
        assert(pow10(18) == 1_000_000_000_000_000_000);
    }
    let mut r: u64 = 1;
    let mut k: u32 = 0;
    while k < n
        invariant
            k <= n <= 19,
            r as nat == pow10(k as nat),
            r >= 1,
            pow10(18) == 1_000_000_000_000_000_000,
        decreases n - k,
    {
        proof {
            lemma_pow10_bound(k as nat, 18);
        }
        r = r * 10;
        k = k + 1;
    }
    r
}

/// A power of ten grows with its exponent.
pub proof fn lemma_pow10_bound(k: nat, m: nat)
    requires
        k <= m,
    ensures
        pow10(k) <= pow10(m),
    decreases m,
{
    if k < m {
        lemma_pow10_bound(k, (m - 1) as nat);
    }
}

/// The lines of every branch from 1 up to, not including, ten to the power `n`.
pub fn all_branches(lang: Lang, n: u32) -> (r: Vec<String>)
    requires
        n <= 19,
    ensures
        texts(r@) == all_branch_lines(lang, pow10(n as nat)),
{
    let limit = pow10_u64(n);
    let mut lines: Vec<String> = Vec::new();
    let mut i: u64 = 1;
    assert(texts(lines@) =~= all_branch_lines(lang, 1));
    while i < limit
        invariant
            1 <= i <= limit,
            texts(lines@) == all_branch_lines(lang, i as nat),
        decreases limit - i,
    {
        push_branch(lang, i, &mut lines);
        i = i + 1;
    }
    lines
}

/// The program in `lang` whose dispatch construct has a branch for every
/// number from 1 up to, not including, ten to the power `target_number_len`.
pub fn program_text(lang: Lang, target_number_len: u32) -> (r: String)
    requires
        target_number_len <= 19,
    ensures
        r@ == program(lang, target_number_len as nat),
{
    let body = format_very_long(all_branches(lang, target_number_len));
    let n = dec_string(target_number_len as u64);
    let mut out = String::new();
    match lang {
        Lang::C => {
            out.append("#include <stdio.h>\nint main () {\n    printf(\"请输入一个不多于");
            out.append(n.as_str());
            out.append("位的正整数：\\r\\n\");\n    int x;\n    scanf(\"%d\", &x);\n    switch (x) {\n");
        },
        Lang::CC => {
            out.append("#include <iostream>\nusing namespace std;\nint main () {\n    cout << \"请输入一个不多于");
            out.append(n.as_str());
            out.append("位的正整数：\" << endl;\n    int x;\n    cin >> x;\n    switch (x) {\n");
        },
        Lang::Rust => {
            out.append("use std::io;\nuse std::error::Error;\nfn main () -> Result<(), Box<dyn Error>> {\n    println!(\"请输入一个不多于");
            out.append(n.as_str());
            out.append("位的正整数：\");\n    let mut x = String::new();\n    io::stdin().read_line(&mut x)?;\n    let num = x.trim().parse::<u32>()?;\n    match num {\n");
        },
    }
    out.append(body.as_str());
    match lang {
        Lang::Rust => out.append("        _ => ()\n    }\n    Ok(())\n}"),
        _ => out.append("    }\n}"),
    }
    out
}

} // verus!
