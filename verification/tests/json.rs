use httpie::utils::json::{
    is_json_text, scan_key, scan_literal, scan_number, scan_scalar, scan_string, skip_digits,
    skip_ws,
};

fn chars(text: &str) -> Vec<char> {
    text.chars().collect()
}

fn parses(text: &str) -> bool {
    serde_json::from_str::<serde_json::Value>(text).is_ok()
}

const VALID: [&str; 44] = [
    "null",
    "true",
    "false",
    "0",
    "-0",
    "1",
    "-12",
    "1.5",
    "0.0",
    "1e5",
    "1E+5",
    "1e-5",
    "-1.25e+10",
    "10",
    "\"\"",
    "\"a\"",
    "\"\\n\"",
    "\"\\u00e9\"",
    "\"\\u00E9 \\\" \\\\ \\/ \\b \\f \\r \\t\"",
    "\"é ü 漢\"",
    "\"/\"",
    "\"\u{7f}\"",
    "\"[1,2]{}\"",
    "[]",
    "[ ]",
    "{}",
    "{ }",
    "[1]",
    "[1,2]",
    "[ 1 , 2 ]",
    "[[]]",
    "[[[]],[],{}]",
    "[{}]",
    "{\"a\":1}",
    "{\"\":0}",
    "{\"a\":1,\"b\":2}",
    "{\"a\":1,\"a\":2}",
    "{\"a\":1,\"b\":[true,null]}",
    "{\"a\":{\"b\":{}}}",
    "[\"a\",{\"b\":\"c\"}]",
    " \n\t\r{\"a\" : [ ] }\n",
    "{\"a\"\n:\n[\n1\n,\n2\n]\n}",
    "  7  ",
    "{\"list\":[1,2,{\"deep\":\"a, b: c\"}],\"empty\":{},\"text\":\"q\\\"uote\"}",
];

const INVALID: [&str; 60] = [
    "",
    " ",
    "{oops",
    "[",
    "]",
    "{",
    "}",
    "[1,]",
    "[,1]",
    "[,]",
    "[1,,2]",
    "{\"a\"}",
    "{\"a\":}",
    "{\"a\":1,}",
    "{,}",
    "{a:1}",
    "{'a':1}",
    "{1:2}",
    "{\"a\":1 \"b\":2}",
    "{\"a\" 1}",
    "{\"a\":1]",
    "[1}",
    "[\"a\":1]",
    "01",
    "-",
    "-a",
    "1.",
    ".5",
    "1.e5",
    "1e",
    "1e+",
    "+1",
    "--1",
    "1-",
    "0x10",
    "NaN",
    "Infinity",
    "tru",
    "True",
    "nul",
    "nulll",
    "truefalse",
    "fals",
    "\"",
    "\"abc",
    "abc\"",
    "\"\\x\"",
    "\"\\u12\"",
    "\"\\u12g4\"",
    "\"\\",
    "\"a\nb\"",
    "\"\t\"",
    "\"\u{0}\"",
    "1 2",
    "1,2",
    "[1 2]",
    "[1] x",
    "{} {}",
    "hello world",
    "<html></html>",
];

#[test]
fn json_texts_are_accepted() {
    for text in VALID {
        assert!(is_json_text(text), "{:?}", text);
    }
}

#[test]
fn other_texts_are_turned_down() {
    for text in INVALID {
        assert!(!is_json_text(text), "{:?}", text);
    }
}

#[test]
fn the_examples_agree_with_a_json_parser() {
    for text in VALID {
        assert!(parses(text), "{:?}", text);
    }
    for text in INVALID {
        assert!(!parses(text), "{:?}", text);
    }
}

#[test]
fn every_short_text_is_judged_as_a_json_parser_judges_it() {
    let alphabet = ['[', ']', '{', '}', ',', ':', '"', '0', '1', '-', '.', 'e', ' ', 't', '\\', 'n'];
    let mut texts: Vec<String> = vec![String::new()];
    let mut from = 0;
    for _ in 0..4 {
        let upto = texts.len();
        for at in from..upto {
            for c in alphabet {
                let mut longer = texts[at].clone();
                longer.push(c);
                texts.push(longer);
            }
        }
        from = upto;
    }
    assert_eq!(texts.len(), 1 + 16 + 256 + 4096 + 65536);
    for text in &texts {
        assert_eq!(is_json_text(text), parses(text), "{:?}", text);
    }
}

#[test]
fn short_texts_around_literals_and_members_agree_with_a_json_parser() {
    let pieces = ["true", "false", "null", "\"k\"", ":", ",", "{", "}", "[", "]", " ", "1"];
    let mut texts: Vec<String> = vec![String::new()];
    let mut from = 0;
    for _ in 0..5 {
        let upto = texts.len();
        for at in from..upto {
            for piece in pieces {
                texts.push(format!("{}{}", texts[at], piece));
            }
        }
        from = upto;
    }
    for text in &texts {
        assert_eq!(is_json_text(text), parses(text), "{:?}", text);
    }
}

#[test]
fn deep_nesting_needs_no_deep_stack() {
    let depth = 200_000;
    let mut text = "[".repeat(depth);
    text.push_str(&"]".repeat(depth));
    assert!(is_json_text(&text));
    text.pop();
    assert!(!is_json_text(&text));
    let mut objects = "{\"a\":".repeat(depth);
    objects.push('1');
    objects.push_str(&"}".repeat(depth));
    assert!(is_json_text(&objects));
    objects.push('}');
    assert!(!is_json_text(&objects));
}

#[test]
fn whitespace_and_digits_are_skipped_up_to_the_first_other_character() {
    let text = chars(" \t\r\n x 12ab");
    assert_eq!(skip_ws(&text, 0), 5);
    assert_eq!(skip_ws(&text, 5), 5);
    assert_eq!(skip_ws(&text, 6), 7);
    assert_eq!(skip_ws(&text, text.len()), text.len());
    assert_eq!(skip_digits(&text, 7), 9);
    assert_eq!(skip_digits(&text, 9), 9);
    assert_eq!(skip_digits(&chars("123"), 0), 3);
}

#[test]
fn strings_end_after_their_closing_quote() {
    assert_eq!(scan_string(&chars("\"ab\" rest"), 0), Some(4));
    assert_eq!(scan_string(&chars("x\"\\\"\"y"), 1), Some(5));
    assert_eq!(scan_string(&chars("\"\\u0041\""), 0), Some(8));
    assert_eq!(scan_string(&chars("\"\\u004\""), 0), None);
    assert_eq!(scan_string(&chars("\"open"), 0), None);
    assert_eq!(scan_string(&chars("ab\""), 0), None);
    assert_eq!(scan_string(&chars(""), 0), None);
}

#[test]
fn numbers_end_after_their_last_digit() {
    assert_eq!(scan_number(&chars("0"), 0), Some(1));
    assert_eq!(scan_number(&chars("012"), 0), Some(1));
    assert_eq!(scan_number(&chars("-12.50e+3,"), 0), Some(9));
    assert_eq!(scan_number(&chars("12abc"), 0), Some(2));
    assert_eq!(scan_number(&chars("1.x"), 0), None);
    assert_eq!(scan_number(&chars("1ex"), 0), None);
    assert_eq!(scan_number(&chars("-"), 0), None);
    assert_eq!(scan_number(&chars("x1"), 0), None);
    assert_eq!(scan_number(&chars("x1"), 1), Some(2));
}

#[test]
fn literals_are_the_three_words() {
    assert_eq!(scan_literal(&chars("true"), 0), Some(4));
    assert_eq!(scan_literal(&chars("false"), 0), Some(5));
    assert_eq!(scan_literal(&chars("null"), 0), Some(4));
    assert_eq!(scan_literal(&chars("[null]"), 1), Some(5));
    assert_eq!(scan_literal(&chars("nul"), 0), None);
    assert_eq!(scan_literal(&chars("TRUE"), 0), None);
    assert_eq!(scan_literal(&chars(""), 0), None);
}

#[test]
fn scalars_and_keys_are_told_by_their_first_character() {
    assert_eq!(scan_scalar(&chars("\"a\""), 0), Some(3));
    assert_eq!(scan_scalar(&chars("-1"), 0), Some(2));
    assert_eq!(scan_scalar(&chars("null"), 0), Some(4));
    assert_eq!(scan_scalar(&chars("[1]"), 0), None);
    assert_eq!(scan_key(&chars("\"k\" :  1"), 0), Some(7));
    assert_eq!(scan_key(&chars("\"k\":"), 0), Some(4));
    assert_eq!(scan_key(&chars("\"k\" 1"), 0), None);
    assert_eq!(scan_key(&chars("k:1"), 0), None);
}
