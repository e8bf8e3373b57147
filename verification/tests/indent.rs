use wasm_bindgen_cli_support::indent::{is_white_space, normalize, reset_indentation};

fn by_the_book(s: &str) -> String {
    let mut indent: u32 = 0;
    let mut dst = String::new();
    for line in s.lines() {
        let line = line.trim();
        if line.starts_with('}') || (line.ends_with('}') && !line.starts_with('*')) {
            indent = indent.saturating_sub(1);
        }
        let extra = if line.starts_with(':') || line.starts_with('?') { 1 } else { 0 };
        if !line.is_empty() {
            for _ in 0..indent + extra {
                dst.push_str("    ");
            }
            dst.push_str(line);
        }
        dst.push_str("\n");
        if line.ends_with('{') {
            indent += 1;
        }
    }
    dst
}

#[test]
fn blocks_are_indented_by_four_spaces() {
    let text = "function f() {\nif (x) {\nreturn 1;\n}\n}\n";
    assert_eq!(
        reset_indentation(text),
        "function f() {\n    if (x) {\n        return 1;\n    }\n}\n"
    );
}

#[test]
fn lines_are_trimmed_first() {
    let text = "  \t a {  \n\t\tb\n      }   ";
    assert_eq!(reset_indentation(text), "a {\n    b\n}\n");
}

#[test]
fn nothing_gives_nothing() {
    assert_eq!(reset_indentation(""), "");
}

#[test]
fn a_last_line_without_a_break_gets_one() {
    assert_eq!(reset_indentation("a"), "a\n");
    assert_eq!(reset_indentation("a\n"), "a\n");
    assert_eq!(reset_indentation("a\n\n"), "a\n\n");
    assert_eq!(reset_indentation("\n"), "\n");
    assert_eq!(reset_indentation("\n\na"), "\n\na\n");
}

#[test]
fn blank_lines_stay_empty_at_any_depth() {
    assert_eq!(reset_indentation("{\n\n   \n{\n\t\nx\n"), "{\n\n\n    {\n\n        x\n");
}

#[test]
fn carriage_returns_go_with_the_white_space() {
    assert_eq!(reset_indentation("a {\r\nb\r\n}\r\n"), "a {\n    b\n}\n");
    assert_eq!(reset_indentation("a\rb {\r\nc"), "a\rb {\n    c\n");
}

#[test]
fn a_closing_line_that_opens_again_stays_at_the_depth_of_its_block() {
    let text = "if (a) {\nx;\n} else {\ny;\n}\n";
    assert_eq!(reset_indentation(text), "if (a) {\n    x;\n} else {\n    y;\n}\n");
}

#[test]
fn a_line_that_ends_with_a_closing_brace_closes() {
    assert_eq!(reset_indentation("a {\nb {\nc }\nd\n"), "a {\n    b {\n    c }\n    d\n");
    assert_eq!(reset_indentation("a {\nlet x = {}\nb\n"), "a {\nlet x = {}\nb\n");
}

#[test]
fn a_comment_line_that_ends_with_a_closing_brace_does_not_close() {
    let text = "/**\n* {@link x}\n*/\nf() {\n* a }\n}\n} x\n";
    assert_eq!(
        reset_indentation(text),
        "/**\n* {@link x}\n*/\nf() {\n    * a }\n}\n} x\n"
    );
}

#[test]
fn the_depth_never_falls_below_zero() {
    assert_eq!(reset_indentation("}\n}\na {\nb\n"), "}\n}\na {\n    b\n");
}

#[test]
fn continuation_lines_get_one_more_unit() {
    let text = "x = a\n? b\n: c;\nf() {\n? d\n: e {\ng\n";
    assert_eq!(
        reset_indentation(text),
        "x = a\n    ? b\n    : c;\nf() {\n        ? d\n        : e {\n        g\n"
    );
}

#[test]
fn a_brace_pair_leaves_the_depth_as_it_was() {
    assert_eq!(reset_indentation("a\nb {\n}\nc\n"), "a\nb {\n}\nc\n");
    assert_eq!(reset_indentation("x {\nb {\n}\nc\n"), "x {\n    b {\n    }\n    c\n");
}

#[test]
fn normalizing_twice_changes_nothing_more() {
    for text in [
        "function f() {\nif (x) {\nreturn 1;\n}\n}\n",
        "  a {  \r\n\t? b\n\n: c {\n} }\n* x }\n}}\n",
        "\u{a0}x\u{2003}{\n\u{3000}y\u{1680}\n}",
        "} {\n{\n\n\n}\n",
        "",
        "\n",
    ] {
        let once = reset_indentation(text);
        assert_eq!(reset_indentation(&once), once, "{:?}", text);
    }
}

#[test]
fn normalize_works_on_characters() {
    let text: Vec<char> = "a {\nb\n}".chars().collect();
    let expected: Vec<char> = "a {\n    b\n}\n".chars().collect();
    assert_eq!(normalize(&text), expected);
}

#[test]
fn white_space_is_what_the_standard_library_takes_for_it() {
    for code in 0..=0x10ffffu32 {
        if let Some(c) = char::from_u32(code) {
            assert_eq!(is_white_space(c), c.is_whitespace(), "U+{:04X}", code);
        }
    }
}

#[test]
fn the_result_is_what_the_line_by_line_rule_gives() {
    let alphabet = [
        "{", "}", "\n", " ", "\t", "\r\n", "a", ":", "?", "*", ";", "\u{a0}", "\u{2028}", "\r",
        "x {", "} else {", "\n\n", "\u{e9}", "    ",
    ];
    let mut state: u64 = 0x2545_f491_4f6c_dd1d;
    for _ in 0..2000 {
        let mut text = String::new();
        state = state.wrapping_mul(6364136223846793005).wrapping_add(1442695040888963407);
        let len = (state >> 33) % 24;
        for _ in 0..len {
            state = state.wrapping_mul(6364136223846793005).wrapping_add(1442695040888963407);
            text.push_str(alphabet[((state >> 33) % alphabet.len() as u64) as usize]);
        }
        let got = reset_indentation(&text);
        assert_eq!(got, by_the_book(&text), "{:?}", text);
        assert_eq!(reset_indentation(&got), got, "{:?}", text);
    }
}
