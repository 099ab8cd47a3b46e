use runner::escape::{replace_all, substitute_csv};
use runner::runner::PythonRunner;

#[test]
fn escape_puts_a_backslash_before_each_special_character() {
    assert_eq!(PythonRunner::escape_csv("a\\b\"c'd"), "a\\\\b\\\"c\\'d");
    assert_eq!(PythonRunner::escape_csv("\\"), "\\\\");
    assert_eq!(PythonRunner::escape_csv("\""), "\\\"");
    assert_eq!(PythonRunner::escape_csv("'"), "\\'");
}

#[test]
fn escape_leaves_other_text_alone() {
    assert_eq!(PythonRunner::escape_csv(""), "");
    assert_eq!(PythonRunner::escape_csv("plain, text\n"), "plain, text\n");
    assert_eq!(PythonRunner::escape_csv("a,b\n1,2\n"), "a,b\n1,2\n");
}

#[test]
fn escape_keeps_characters_of_more_than_one_byte() {
    assert_eq!(PythonRunner::escape_csv("héllo 'wörld' \u{1F600}"), "héllo \\'wörld\\' \u{1F600}");
}

#[test]
fn escape_does_not_escape_its_own_backslashes_twice() {
    assert_eq!(PythonRunner::escape_csv("\\\""), "\\\\\\\"");
    assert_eq!(PythonRunner::escape_csv("\\'"), "\\\\\\'");
}

#[test]
fn escaped_data_cannot_close_a_literal() {
    let data = "\"); import os; os.system('x'); (\"";
    let escaped = PythonRunner::escape_csv(data);
    assert_eq!(escaped, "\\\"); import os; os.system(\\'x\\'); (\\\"");
    let mut pending = false;
    for c in escaped.chars() {
        if pending {
            pending = false;
        } else if c == '\\' {
            pending = true;
        } else {
            assert!(c != '"' && c != '\'');
        }
    }
    assert!(!pending);
}

#[test]
fn escaped_data_reads_back_as_the_data() {
    let data = "it's a \"quote\" and a \\ backslash";
    let escaped = PythonRunner::escape_csv(data);
    let mut back = String::new();
    let mut pending = false;
    for c in escaped.chars() {
        if !pending && c == '\\' {
            pending = true;
        } else {
            back.push(c);
            pending = false;
        }
    }
    assert_eq!(back, data);
}

#[test]
fn replace_keeps_characters_of_more_than_one_byte() {
    assert_eq!(replace_all("aé\u{1F600}é", "é", "\u{00fc}\u{00fc}"), "a\u{00fc}\u{00fc}\u{1F600}\u{00fc}\u{00fc}");
    assert_eq!(replace_all("\u{1F600}", "x", "y"), "\u{1F600}");
}

#[test]
fn replace_goes_left_to_right_without_overlap() {
    assert_eq!(replace_all("aaa", "aa", "b"), "ba");
    assert_eq!(replace_all("aaaa", "aa", "b"), "bb");
    assert_eq!(replace_all("x{{csv}}y{{csv}}", "{{csv}}", "1"), "x1y1");
}

#[test]
fn replace_does_not_look_again_at_what_it_put_in() {
    assert_eq!(replace_all("ab", "ab", "abab"), "abab");
    assert_eq!(replace_all("{{csv}}", "{{csv}}", "{{csv}}"), "{{csv}}");
}

#[test]
fn replace_with_an_empty_pattern_changes_nothing() {
    assert_eq!(replace_all("abc", "", "-"), "abc");
    assert_eq!(replace_all("", "", "-"), "");
}

#[test]
fn replace_where_the_pattern_is_longer_than_the_text() {
    assert_eq!(replace_all("ab", "abc", "x"), "ab");
    assert_eq!(replace_all("", "abc", "x"), "");
}

#[test]
fn replace_agrees_with_the_standard_library() {
    let cases = [
        ("print({{csv}})", "{{csv}}", "1"),
        ("{{{csv}}}", "{{csv}}", "x"),
        ("{{csv}{{csv}}", "{{csv}}", "x"),
        ("ababab", "aba", "-"),
        ("héé", "é", "e"),
    ];
    for (text, pat, with) in cases {
        assert_eq!(replace_all(text, pat, with), text.replace(pat, with));
    }
}

#[test]
fn placeholder_is_replaced_by_the_data() {
    assert_eq!(substitute_csv("print(\"sum:\", {{csv}})", "1+1"), "print(\"sum:\", 1+1)");
}

#[test]
fn every_placeholder_is_replaced() {
    assert_eq!(substitute_csv("a = '{{csv}}'\nb = '{{csv}}'", "x"), "a = 'x'\nb = 'x'");
    assert_eq!(substitute_csv("{{csv}}{{csv}}", "ab"), "abab");
}

#[test]
fn data_is_escaped_before_it_is_put_in() {
    assert_eq!(
        substitute_csv("data = '{{csv}}'", "it's \"x\" \\ y"),
        "data = 'it\\'s \\\"x\\\" \\\\ y'"
    );
}

#[test]
fn source_without_placeholder_is_left_as_it_is() {
    assert_eq!(substitute_csv("print(1)", "secret"), "print(1)");
    assert_eq!(substitute_csv("", "secret"), "");
    assert_eq!(substitute_csv("{{csv}", "secret"), "{{csv}");
    assert_eq!(substitute_csv("{ {csv}}", "secret"), "{ {csv}}");
    assert_eq!(substitute_csv("{{CSV}}", "secret"), "{{CSV}}");
}

#[test]
fn data_that_holds_the_placeholder_is_not_replaced_again() {
    assert_eq!(substitute_csv("{{csv}}", "{{csv}}"), "{{csv}}");
}

#[test]
fn substitution_agrees_with_three_replacements_in_a_row() {
    let csv = "a\\b\"c'd,\\\\'\"";
    let by_hand = csv.replace("\\", "\\\\").replace("\"", "\\\"").replace("\'", "\\\'");
    assert_eq!(PythonRunner::escape_csv(csv), by_hand);
    let code = "x = \"{{csv}}\"; y = '{{csv}}'";
    assert_eq!(substitute_csv(code, csv), code.replace("{{csv}}", &by_hand));
}
