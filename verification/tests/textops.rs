use renderdog_automation::diagnosis::lex_less;
use renderdog_automation::diagnosis::split_lines;
use renderdog_automation::diagnosis::trim_chars;
use renderdog_automation::text::contains_chars;
use renderdog_automation::text::dec_chars_u64;
use renderdog_automation::text::dec_chars_u128;
use renderdog_automation::text::fold_case;
use renderdog_automation::text::join_path;
use renderdog_automation::text::lower_chars;
use renderdog_automation::text::starts_with_chars;
use renderdog_automation::text::string_of_chars;

fn chars(s: &str) -> Vec<char> {
    s.chars().collect()
}

#[test]
fn contains_edge_cases() {
    assert!(contains_chars(&chars("abc"), &chars("")));
    assert!(contains_chars(&chars(""), &chars("")));
    assert!(!contains_chars(&chars(""), &chars("a")));
    assert!(contains_chars(&chars("vulkan layer"), &chars("layer")));
    assert!(!contains_chars(&chars("vulkan layer"), &chars("Layer")));
    assert!(contains_chars(&chars("aab"), &chars("ab")));
}

#[test]
fn folding_lowers_ascii_only() {
    let lowered = string_of_chars(&lower_chars(&chars("Vulkan LAYER-1")));
    assert_eq!(lowered, "vulkan layer-1");
    let kept = string_of_chars(&fold_case(true, &chars("MiXeD")));
    assert_eq!(kept, "MiXeD");
    let folded = string_of_chars(&fold_case(false, &chars("MiXeD")));
    assert_eq!(folded, "mixed");
}

#[test]
fn prefix_check() {
    assert!(starts_with_chars(&chars("Pass1/Sub"), &chars("Pass1/")));
    assert!(!starts_with_chars(&chars("Pass1"), &chars("Pass1/")));
    assert!(starts_with_chars(&chars("x"), &chars("")));
}

#[test]
fn marker_join() {
    let parts = vec!["Pass1".to_string(), "Sub".to_string()];
    assert_eq!(string_of_chars(&join_path(&parts)), "Pass1/Sub");
    let one = vec!["Pass1".to_string()];
    assert_eq!(string_of_chars(&join_path(&one)), "Pass1");
    let none: Vec<String> = Vec::new();
    assert_eq!(string_of_chars(&join_path(&none)), "");
}

#[test]
fn decimal_rendering() {
    assert_eq!(string_of_chars(&dec_chars_u64(0)), "0");
    assert_eq!(string_of_chars(&dec_chars_u64(42)), "42");
    assert_eq!(
        string_of_chars(&dec_chars_u64(u64::MAX)),
        "18446744073709551615"
    );
    assert_eq!(
        string_of_chars(&dec_chars_u128(340282366920938463463374607431768211455)),
        "340282366920938463463374607431768211455"
    );
}

#[test]
fn trimming_strips_both_ends() {
    assert_eq!(string_of_chars(&trim_chars(&chars("  a b \t\r\n"))), "a b");
    assert_eq!(string_of_chars(&trim_chars(&chars("\t\n "))), "");
    assert_eq!(string_of_chars(&trim_chars(&chars("x"))), "x");
}

#[test]
fn line_splitting() {
    let lines = split_lines(&chars("a\nb\n\nc"));
    let texts: Vec<String> = lines.iter().map(|l| string_of_chars(l)).collect();
    assert_eq!(texts, vec!["a", "b", "", "c"]);
    // A trailing newline adds no empty line, and an empty report has none.
    let lines = split_lines(&chars("a\n"));
    assert_eq!(lines.len(), 1);
    assert!(split_lines(&chars("")).is_empty());
}

#[test]
fn lexicographic_order() {
    assert!(lex_less(&chars("/a"), &chars("/b")));
    assert!(lex_less(&chars("abc"), &chars("abcd")));
    assert!(!lex_less(&chars("abcd"), &chars("abc")));
    assert!(!lex_less(&chars("abc"), &chars("abc")));
    assert!(lex_less(&chars(""), &chars("a")));
    assert!(lex_less(&chars("B"), &chars("a")));
}
