use switch_gen::branch::{push_branch, syntax, Lang};
use switch_gen::digits::{calc_len, dec_string, digit_to_char, revert_num};
use switch_gen::layout::{format_very_long, pad_left};
use switch_gen::place::calc_digit_name;
use switch_gen::request::{
    lang_from_upper, parse_digit_count, parse_request, parse_trimmed, split_fields, Request,
    RequestError,
};
use switch_gen::template::{all_branches, pow10_u64, program_text};
use switch_gen::text::reverse_str;

#[test]
fn first_four_places_use_base_units() {
    assert_eq!(calc_digit_name(1), "个");
    assert_eq!(calc_digit_name(2), "十");
    assert_eq!(calc_digit_name(3), "百");
    assert_eq!(calc_digit_name(4), "千");
}

#[test]
fn places_five_to_eight_add_ten_thousand_unit() {
    assert_eq!(calc_digit_name(5), "万");
    assert_eq!(calc_digit_name(6), "十万");
    assert_eq!(calc_digit_name(7), "百万");
    assert_eq!(calc_digit_name(8), "千万");
    for j in 6..=8u64 {
        assert_eq!(calc_digit_name(j), format!("{}万", calc_digit_name(j - 4)));
    }
}

#[test]
fn places_nine_to_twelve_add_hundred_million_unit() {
    assert_eq!(calc_digit_name(9), "亿");
    assert_eq!(calc_digit_name(10), "十亿");
    assert_eq!(calc_digit_name(11), "百亿");
    assert_eq!(calc_digit_name(12), "千亿");
    for j in 10..=12u64 {
        assert_eq!(calc_digit_name(j), format!("{}亿", calc_digit_name(j - 8)));
    }
}

#[test]
fn higher_places_repeat_the_units() {
    assert_eq!(calc_digit_name(13), "万亿");
    assert_eq!(calc_digit_name(14), "十万亿");
    assert_eq!(calc_digit_name(16), "千万亿");
    assert_eq!(calc_digit_name(17), "亿亿");
    assert_eq!(calc_digit_name(18), "十亿亿");
}

#[test]
fn digit_count_matches_decimal_text() {
    for n in [1u64, 7, 9, 10, 99, 100, 123, 1000, 999_999, 1_000_000, u64::MAX] {
        assert_eq!(calc_len(n), n.to_string().len() as u64);
    }
    assert_eq!(calc_len(123), 3);
    assert_eq!(calc_len(u64::MAX), 20);
}

#[test]
fn digit_count_of_zero_is_zero() {
    assert_eq!(calc_len(0), 0);
}

#[test]
fn reverser_reverses_decimal_text() {
    assert_eq!(revert_num(123), "321");
    assert_eq!(revert_num(1200), "0021");
    assert_eq!(revert_num(7), "7");
    assert_eq!(revert_num(12321), "12321");
    assert_eq!(revert_num(0), "0");
    for n in [1u64, 45, 908, 1_000_001, u64::MAX] {
        let expected: String = n.to_string().chars().rev().collect();
        assert_eq!(revert_num(n), expected);
    }
}

#[test]
fn reversing_twice_gives_the_text_back() {
    for n in [1u64, 12, 121, 3400, 98765, u64::MAX] {
        let once = revert_num(n);
        assert_eq!(reverse_str(&once), n.to_string());
    }
}

#[test]
fn decimal_text_of_numbers() {
    assert_eq!(dec_string(0), "0");
    assert_eq!(dec_string(42), "42");
    assert_eq!(dec_string(100), "100");
    assert_eq!(dec_string(u64::MAX), "18446744073709551615");
}

#[test]
fn digit_characters() {
    assert_eq!(digit_to_char(0), '0');
    assert_eq!(digit_to_char(5), '5');
    assert_eq!(digit_to_char(9), '9');
}

#[test]
fn reverse_of_text() {
    assert_eq!(reverse_str("abc"), "cba");
    assert_eq!(reverse_str(""), "");
    assert_eq!(reverse_str("倒过来"), "来过倒");
}

#[test]
fn pad_left_adds_spaces() {
    assert_eq!(pad_left(String::from("break;"), 4), "    break;");
    assert_eq!(pad_left(String::from("x"), 0), "x");
    assert_eq!(pad_left(String::new(), 2), "  ");
}

#[test]
fn block_indents_and_terminates_each_line() {
    let lines = vec![String::from("a"), String::from("b c")];
    assert_eq!(format_very_long(lines), "        a\r\n        b c\r\n");
    assert_eq!(format_very_long(Vec::new()), "");
}

#[test]
fn branch_for_123_in_c() {
    let mut lines = Vec::new();
    push_branch(Lang::C, 123, &mut lines);
    assert_eq!(
        lines,
        vec![
            "case 123:",
            "    printf(\"是个3位数\\r\\n\");",
            "    printf(\"个位数是：3\\r\\n\");",
            "    printf(\"十位数是：2\\r\\n\");",
            "    printf(\"百位数是：1\\r\\n\");",
            "    printf(\"倒过来是：321\\r\\n\");",
            "    break;",
        ]
    );
}

#[test]
fn branch_for_123_in_cc() {
    let mut lines = Vec::new();
    push_branch(Lang::CC, 123, &mut lines);
    assert_eq!(
        lines,
        vec![
            "case 123:",
            "    cout << \"是个3位数\" << endl;",
            "    cout << \"个位数是：3\" << endl;",
            "    cout << \"十位数是：2\" << endl;",
            "    cout << \"百位数是：1\" << endl;",
            "    cout << \"倒过来是：321\" << endl;",
            "    break;",
        ]
    );
}

#[test]
fn branch_in_rust_appends_after_existing_lines() {
    let mut lines = vec![String::from("kept")];
    push_branch(Lang::Rust, 40, &mut lines);
    assert_eq!(
        lines,
        vec![
            "kept",
            "40 => {",
            "    println!(\"是个2位数\");",
            "    println!(\"个位数是：0\");",
            "    println!(\"十位数是：4\");",
            "    println!(\"倒过来是：04\");",
            "}",
        ]
    );
}

#[test]
fn branch_for_a_ten_digit_number() {
    let mut lines = Vec::new();
    push_branch(Lang::C, 1_234_567_890, &mut lines);
    assert_eq!(lines.len(), 14);
    assert_eq!(lines[1], "    printf(\"是个10位数\\r\\n\");");
    assert_eq!(lines[6], "    printf(\"万位数是：6\\r\\n\");");
    assert_eq!(lines[10], "    printf(\"亿位数是：2\\r\\n\");");
    assert_eq!(lines[11], "    printf(\"十亿位数是：1\\r\\n\");");
    assert_eq!(lines[12], "    printf(\"倒过来是：0987654321\\r\\n\");");
}

#[test]
fn syntax_of_each_language() {
    let c = syntax(Lang::C);
    assert_eq!(c.case_open, "case ");
    assert_eq!(c.print_close, "\\r\\n\");");
    let cc = syntax(Lang::CC);
    assert_eq!(cc.print_open, "cout << \"");
    assert_eq!(cc.branch_end, "    break;");
    let rust = syntax(Lang::Rust);
    assert_eq!(rust.case_close, " => {");
    assert_eq!(rust.branch_end, "}");
}

#[test]
fn powers_of_ten() {
    assert_eq!(pow10_u64(0), 1);
    assert_eq!(pow10_u64(3), 1000);
    assert_eq!(pow10_u64(19), 10_000_000_000_000_000_000);
}

#[test]
fn branches_below_ten() {
    let lines = all_branches(Lang::C, 1);
    assert_eq!(lines.len(), 9 * 5);
    assert_eq!(lines[0], "case 1:");
    assert_eq!(lines[40], "case 9:");
    assert_eq!(all_branches(Lang::CC, 0).len(), 0);
}

#[test]
fn c_program_for_one_digit() {
    let text = program_text(Lang::C, 1);
    let mut expected = String::from(
        "#include <stdio.h>\nint main () {\n    printf(\"请输入一个不多于1位的正整数：\\r\\n\");\n    int x;\n    scanf(\"%d\", &x);\n    switch (x) {\n",
    );
    for i in 1..10 {
        expected.push_str(&format!("        case {}:\r\n", i));
        expected.push_str("            printf(\"是个1位数\\r\\n\");\r\n");
        expected.push_str(&format!("            printf(\"个位数是：{}\\r\\n\");\r\n", i));
        expected.push_str(&format!("            printf(\"倒过来是：{}\\r\\n\");\r\n", i));
        expected.push_str("            break;\r\n");
    }
    expected.push_str("    }\n}");
    assert_eq!(text, expected);
    assert_eq!(text.matches("case ").count(), 9);
    assert!(!text.contains("case 10:"));
}

#[test]
fn cc_program_skeleton() {
    let text = program_text(Lang::CC, 1);
    assert!(text.starts_with(
        "#include <iostream>\nusing namespace std;\nint main () {\n    cout << \"请输入一个不多于1位的正整数：\" << endl;\n    int x;\n    cin >> x;\n    switch (x) {\n        case 1:\r\n"
    ));
    assert!(text.ends_with("            break;\r\n    }\n}"));
    assert_eq!(text.matches("case ").count(), 9);
}

#[test]
fn rust_program_skeleton() {
    let text = program_text(Lang::Rust, 2);
    assert!(text.starts_with("use std::io;\nuse std::error::Error;\nfn main () -> Result<(), Box<dyn Error>> {\n    println!(\"请输入一个不多于2位的正整数：\");\n"));
    assert!(text.contains("        99 => {\r\n            println!(\"是个2位数\");\r\n"));
    assert!(text.ends_with("        }\r\n        _ => ()\n    }\n    Ok(())\n}"));
    assert_eq!(text.matches(" => {").count(), 99);
}

#[test]
fn program_with_no_digits_has_no_branches() {
    let text = program_text(Lang::C, 0);
    assert!(text.ends_with("switch (x) {\n    }\n}"));
}

#[test]
fn request_for_c_with_one_digit() {
    assert_eq!(
        parse_request("c 1\n"),
        Ok(Request { lang: Lang::C, target_number_len: 1 })
    );
}

#[test]
fn request_languages_ignore_case() {
    assert_eq!(
        parse_request("CC 2"),
        Ok(Request { lang: Lang::CC, target_number_len: 2 })
    );
    assert_eq!(
        parse_request("RuSt 3"),
        Ok(Request { lang: Lang::Rust, target_number_len: 3 })
    );
}

#[test]
fn request_surrounding_space_is_removed() {
    assert_eq!(
        parse_request("  c 5 \r\n"),
        Ok(Request { lang: Lang::C, target_number_len: 5 })
    );
    assert_eq!(parse_trimmed("  c 5"), Err(RequestError::ArgumentCount));
}

#[test]
fn request_unknown_language() {
    assert_eq!(parse_request("java 3"), Err(RequestError::UnsupportedLanguage));
}

#[test]
fn request_non_numeric_count() {
    assert_eq!(parse_request("c abc"), Err(RequestError::InvalidNumber));
    assert_eq!(parse_request("c -1"), Err(RequestError::InvalidNumber));
    assert_eq!(parse_request("c 4294967296"), Err(RequestError::InvalidNumber));
}

#[test]
fn request_unknown_language_is_reported_before_count() {
    assert_eq!(parse_request("java abc"), Err(RequestError::UnsupportedLanguage));
}

#[test]
fn request_field_count() {
    assert_eq!(parse_request("c"), Err(RequestError::ArgumentCount));
    assert_eq!(parse_request(""), Err(RequestError::ArgumentCount));
    assert_eq!(parse_request("c 1 2"), Err(RequestError::ArgumentCount));
    assert_eq!(parse_request("c  1"), Err(RequestError::ArgumentCount));
}

#[test]
fn error_messages() {
    assert_eq!(RequestError::ArgumentCount.message(), "Invalid arguments");
    assert_eq!(RequestError::UnsupportedLanguage.message(), "Language is not support");
    assert_eq!(RequestError::InvalidNumber.message(), "invalid digit count");
}

#[test]
fn fields_between_single_spaces() {
    assert_eq!(split_fields("c 1"), vec!["c", "1"]);
    assert_eq!(split_fields("a  b"), vec!["a", "", "b"]);
    assert_eq!(split_fields(""), vec![""]);
    assert_eq!(split_fields(" x "), vec!["", "x", ""]);
}

#[test]
fn upper_case_language_names() {
    assert_eq!(lang_from_upper("C"), Some(Lang::C));
    assert_eq!(lang_from_upper("CC"), Some(Lang::CC));
    assert_eq!(lang_from_upper("RUST"), Some(Lang::Rust));
    assert_eq!(lang_from_upper("c"), None);
    assert_eq!(lang_from_upper("JAVA"), None);
}

#[test]
fn digit_count_texts() {
    assert_eq!(parse_digit_count("0"), Some(0));
    assert_eq!(parse_digit_count("+7"), Some(7));
    assert_eq!(parse_digit_count("007"), Some(7));
    assert_eq!(parse_digit_count("4294967295"), Some(u32::MAX));
    assert_eq!(parse_digit_count("4294967296"), None);
    assert_eq!(parse_digit_count("99999999999999999999999"), None);
    assert_eq!(parse_digit_count(""), None);
    assert_eq!(parse_digit_count("+"), None);
    assert_eq!(parse_digit_count("1a"), None);
    assert_eq!(parse_digit_count(" 1"), None);
}
